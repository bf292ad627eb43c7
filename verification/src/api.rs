//! The GitHub endpoint strings the fetcher sends.
//!
//! The binary only puts these on the wire; what they say is fixed here.

use crate::labels::{spec_nat_digits, u64_digits};
use vstd::prelude::*;
use vstd::string::StringExecFns;

verus! {

/// The stargazers listing URL for one page of a repository.
pub fn stargazers_url(repo: &str, page: u32) -> (s: String)
    ensures
        s@ == "https://api.github.com/repos/"@ + repo@ + "/stargazers?page="@ + spec_nat_digits(
            page as int,
        ),
{
    let mut s = String::from_str("https://api.github.com/repos/");
    s.append(repo);
    s.append("/stargazers?page=");
    let digits = u64_digits(page as u64);
    s.append(digits.as_str());
    s
}

/// The repository-metadata URL.
pub fn repo_url(repo: &str) -> (s: String)
    ensures
        s@ == "https://api.github.com/repos/"@ + repo@,
{
    let mut s = String::from_str("https://api.github.com/repos/");
    s.append(repo);
    s
}

/// The Authorization header value: `token <t>` with a token, empty
/// without one.
pub fn auth_header_value(token: Option<&str>) -> (s: String)
    ensures
        match token {
            Some(t) => s@ == "token "@ + t@,
            None => s@ == ""@,
        },
{
    match token {
        Some(t) => {
            let mut s = String::from_str("token ");
            s.append(t);
            s
        },
        None => String::from_str(""),
    }
}

} // verus!
