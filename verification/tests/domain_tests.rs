use polymath::domain::{host_allowed, test_domain};

#[test]
fn empty_pattern_list_allows_any_host() {
    assert!(host_allowed(&vec![], "www.gravitalia.com"));
    assert!(host_allowed(&vec![], "anything.example"));
}

#[test]
fn invalid_pattern_neither_matches_nor_aborts() {
    // "[" does not compile as a regular expression: it must be skipped
    // without ending the evaluation of the remaining patterns.
    assert!(host_allowed(
        &vec!["[".to_string(), "gravitalia".to_string()],
        "www.gravitalia.com"
    ));
    assert!(!host_allowed(&vec!["[".to_string()], "www.gravitalia.com"));
}

#[test]
fn patterns_search_the_host() {
    assert!(host_allowed(&vec!["gravitalia".to_string()], "news.gravitalia.com"));
    assert!(!host_allowed(&vec!["^gravitalia$".to_string()], "news.gravitalia.com"));
    assert!(host_allowed(
        &vec![r"[\w@:%._+~#=-]{1,256}\.gravitalia(\.com)?$".to_string()],
        "news.gravitalia.com"
    ));
}

#[test]
fn test_domain_needs_a_parseable_host() {
    let patterns = vec!["gravitalia".to_string()];
    assert!(test_domain(&patterns, "https://www.gravitalia.com/"));
    assert!(!test_domain(&patterns, "https://example.com/"));
    assert!(!test_domain(&patterns, "no scheme at all"));
}
