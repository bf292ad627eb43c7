use star_history::{auth_header_value, repo_url, stargazers_url};

#[test]
fn endpoint_urls() {
    assert_eq!(
        stargazers_url("vuejs/vue", 2),
        "https://api.github.com/repos/vuejs/vue/stargazers?page=2"
    );
    assert_eq!(
        stargazers_url("a/b", 1334),
        "https://api.github.com/repos/a/b/stargazers?page=1334"
    );
    assert_eq!(repo_url("vuejs/vue"), "https://api.github.com/repos/vuejs/vue");
}

#[test]
fn authorization_header() {
    assert_eq!(auth_header_value(Some("abc")), "token abc");
    assert_eq!(auth_header_value(None), "");
}
