use polymath::robots::{crawl_delay, RobotsPolicy};

#[test]
fn crawl_delay_reads_a_directive() {
    assert_eq!(crawl_delay("User-agent: *\nCrawl-delay: 7\nAllow: /"), 7);
}

#[test]
fn crawl_delay_without_directive_is_zero() {
    assert_eq!(crawl_delay("User-agent: *\nAllow: /"), 0);
    assert_eq!(crawl_delay(""), 0);
}

#[test]
fn crawl_delay_with_malformed_value_is_zero() {
    assert_eq!(crawl_delay("Crawl-delay: abc"), 0);
}

#[test]
fn crawl_delay_is_case_insensitive_and_takes_the_last_directive() {
    assert_eq!(crawl_delay("cRaWl-DeLaY:42"), 42);
    assert_eq!(crawl_delay("Crawl-delay: 3\nCrawl-delay: 9"), 9);
    assert_eq!(crawl_delay("Crawl-delay: 3\nCrawl-delay: oops"), 0);
}

#[test]
fn crawl_delay_reads_at_most_four_digits() {
    assert_eq!(crawl_delay("Crawl-delay: 12345"), 1234);
    assert_eq!(crawl_delay("Crawl-delay: 9999"), 9999);
}

#[test]
fn policy_from_fetched_text_derives_its_delay() {
    let p = RobotsPolicy::from_fetch(Some(
        "User-agent: *\nDisallow: /private\nCrawl-delay: 3".to_string(),
    ));
    assert_eq!(p.delay, 3);
    assert!(!p.is_allowed("testbot", "https://example.com/private/page"));
    assert!(p.is_allowed("testbot", "https://example.com/public"));
}

#[test]
fn failed_fetch_falls_back_to_full_allow() {
    let p = RobotsPolicy::from_fetch(None);
    assert_eq!(p.delay, 0);
    assert_eq!(p.text, "User-agent: *\nAllow: /\n");
    assert!(p.is_allowed("anybot", "https://example.com/anything/at/all"));
}

#[test]
fn disallow_all_blocks_every_path() {
    let p = RobotsPolicy::from_fetch(Some("User-agent: *\nDisallow: /".to_string()));
    assert!(!p.is_allowed("testbot", "https://example.com/"));
    assert!(!p.is_allowed("testbot", "https://example.com/deep/path"));
}

#[test]
fn robots_url_points_at_the_https_root() {
    assert_eq!(
        polymath::robots::robots_url("example.com"),
        "https://example.com/robots.txt"
    );
}

#[test]
fn bounded_lines_are_stored_unchanged() {
    let text = "User-agent: *\nDisallow: /a\nCrawl-delay: 2";
    let p = RobotsPolicy::from_fetch(Some(text.to_string()));
    assert_eq!(p.text, text);
    assert_eq!(p.delay, 2);
}

#[test]
fn over_long_lines_are_truncated() {
    let long_line: String = std::iter::repeat('a').take(5000).collect();
    let text = format!("{}\nDisallow: /b", long_line);
    let p = RobotsPolicy::from_fetch(Some(text));
    let mut lines = p.text.split('\n');
    assert_eq!(lines.next().map(|l| l.len()), Some(4095));
    assert_eq!(lines.next(), Some("Disallow: /b"));
    assert_eq!(lines.next(), None);
}

#[test]
fn multibyte_tail_of_an_over_long_line_is_handled() {
    // A line that reaches the robots matcher's byte budget and then
    // carries multibyte characters; the sanitizer must keep the
    // matcher clear of it.
    let mut text = String::from("User-agent: *\n");
    for _ in 0..16663 {
        text.push('a');
    }
    for _ in 0..10 {
        text.push('é');
    }
    text.push('\n');
    text.push_str("Disallow: /private");
    let p = RobotsPolicy::from_fetch(Some(text));
    assert!(!p.is_allowed("testbot", "https://example.com/private/page"));
    assert!(p.is_allowed("testbot", "https://example.com/open"));
}
