use star_history::{extract_last_page, total_pages, FetchError};

#[test]
fn test_re() {
    let s1 = r#"<https://api.github.com/repositories/152519880/stargazers?per_page=30&page=2>; rel="next", <https://api.github.com/repositories/152519880/stargazers?per_page=30&page=6>; rel="last""#;
    let ques = extract_last_page(s1.as_bytes()).unwrap();
    assert_eq!(ques, 6);
    let s1 = r#"<https://api.github.com/repositories/11730342/stargazers?page=2>; rel="next", <https://api.github.com/repositories/11730342/stargazers?page=1334>; rel="last""#;
    let ques = extract_last_page(s1.as_bytes()).unwrap();
    assert_eq!(ques, 1334);
}

#[test]
fn extract_takes_leftmost_occurrence() {
    let s = r#"page=7>; rel="last" and then page=9>; rel="last""#;
    assert_eq!(extract_last_page(s.as_bytes()), Some(7));
}

#[test]
fn extract_ignores_other_relations() {
    let s = r#"<https://api.github.com/repositories/1/stargazers?page=2>; rel="next""#;
    assert_eq!(extract_last_page(s.as_bytes()), None);
}

#[test]
fn extract_needs_digits() {
    let s = r#"<https://api.github.com/repositories/1/stargazers?page=>; rel="last""#;
    assert_eq!(extract_last_page(s.as_bytes()), None);
}

#[test]
fn extract_rejects_numbers_too_large() {
    let s = r#"page=99999999999999999999>; rel="last""#;
    assert_eq!(extract_last_page(s.as_bytes()), None);
    let s = r#"page=4294967295>; rel="last""#;
    assert_eq!(extract_last_page(s.as_bytes()), Some(u32::MAX));
}

#[test]
fn extract_skips_false_starts() {
    let s = r#"page=2>; rel="next", page=6>; rel="last""#;
    assert_eq!(extract_last_page(s.as_bytes()), Some(6));
}

#[test]
fn extract_empty_header() {
    assert_eq!(extract_last_page(b""), None);
}

#[test]
fn total_pages_without_header_is_one() {
    assert_eq!(total_pages(None), Ok(1));
}

#[test]
fn total_pages_reads_header() {
    let s = r#"<https://api.github.com/repositories/1/stargazers?page=2>; rel="next", <https://api.github.com/repositories/1/stargazers?page=42>; rel="last""#;
    assert_eq!(total_pages(Some(s.as_bytes())), Ok(42));
}

#[test]
fn total_pages_rejects_malformed_header() {
    let s = "something without the last-page pattern";
    assert_eq!(
        total_pages(Some(s.as_bytes())),
        Err(FetchError::MalformedLinkHeader)
    );
}
