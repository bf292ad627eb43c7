//! The errors of the fetch pipeline. Every one of them is fatal to the
//! run: the binary prints the message and exits with status 1.

use vstd::prelude::*;

verus! {

/// Why a run cannot produce a chart.
#[derive(Clone, Copy, Debug, PartialEq, Eq, Structural)]
pub enum FetchError {
    /// No repository list was given on the command line.
    MissingRepos,
    /// More repositories were given than the chart has series colors for.
    TooManyRepos,
    /// A pagination link header was present but the last-page pattern
    /// could not read a page number out of it.
    MalformedLinkHeader,
    /// An HTTP request failed or answered with a non-success status.
    HttpFailure,
    /// A timestamp that no representable calendar date matches.
    TimestampOutOfRange,
}

impl FetchError {
    /// The message printed before the process exits.
    pub open spec fn spec_message(self) -> Seq<char> {
        match self {
            FetchError::MissingRepos => "please input the repo name"@,
            FetchError::TooManyRepos => "the number of repo greater than 5."@,
            FetchError::MalformedLinkHeader => "malformed pagination link header"@,
            FetchError::HttpFailure => "failed"@,
            FetchError::TimestampOutOfRange => "timestamp out of range"@,
        }
    }

    pub fn message(&self) -> (s: String)
        ensures
            s@ == self.spec_message(),
    {
        match self {
            FetchError::MissingRepos => String::from_str("please input the repo name"),
            FetchError::TooManyRepos => String::from_str("the number of repo greater than 5."),
            FetchError::MalformedLinkHeader => String::from_str(
                "malformed pagination link header",
            ),
            FetchError::HttpFailure => String::from_str("failed"),
            FetchError::TimestampOutOfRange => String::from_str("timestamp out of range"),
        }
    }
}

} // verus!
