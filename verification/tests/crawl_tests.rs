use std::cell::Cell;

use polymath::crawler::{
    fetch_event, fetch_failure_error, Crawler, Event, FetchOutcome, LinkDirective,
};
use polymath::dispatch::{dispatch_message, DispatchConsumer};
use polymath::engine::{action_of, advance, CrawlAction, CrawlEvent, CrawlState};
use polymath::error::{CrawlerError, Error, ErrorType};
use polymath::meta::Meta;

struct NoHook;

impl Event for NoHook {
    fn before_request(&self, _url: &str) -> Result<(), Error> {
        Ok(())
    }

    fn after_request(&self, _title: &str, _meta: Vec<Meta>, _html: &str) -> Result<(), Error> {
        Ok(())
    }
}

struct CountingHook<'a> {
    calls: &'a Cell<u32>,
    deny: bool,
}

impl<'a> Event for CountingHook<'a> {
    fn before_request(&self, _url: &str) -> Result<(), Error> {
        self.calls.set(self.calls.get() + 1);
        if self.deny {
            Err(Error::new(ErrorType::Unspecified, None, None))
        } else {
            Ok(())
        }
    }

    fn after_request(&self, _title: &str, _meta: Vec<Meta>, _html: &str) -> Result<(), Error> {
        Ok(())
    }
}

#[test]
fn prepare_builds_the_request_from_the_configuration() {
    let crawler = Crawler::<NoHook>::new()
        .user_agent("testbot/1.0".to_string())
        .timeout(5)
        .retry(2)
        .retry_after(4)
        .follow_redirects(false)
        .add_headers("X-Key".to_string(), "one".to_string())
        .add_headers("X-Key".to_string(), "two".to_string());
    let plan = crawler.prepare(&"https://example.com/".to_string()).unwrap();
    assert_eq!(plan.url, "https://example.com/");
    assert_eq!(plan.user_agent, "testbot/1.0");
    assert_eq!(plan.timeout, 5);
    assert_eq!(plan.max_redirects, 0);
    // The repeated header key was re-bound, not duplicated.
    assert_eq!(plan.headers, vec![("X-Key".to_string(), "two".to_string())]);
}

#[test]
fn redirects_enabled_gives_a_small_bound() {
    let crawler = Crawler::<NoHook>::new();
    let plan = crawler.prepare(&"https://example.com/".to_string()).unwrap();
    assert_eq!(plan.max_redirects, 3);
    assert_eq!(plan.user_agent, "polymath/0.1.0");
    assert_eq!(plan.timeout, 10);
}

#[test]
fn domain_gate_rejects_hosts_outside_the_allow_list() {
    let crawler =
        Crawler::<NoHook>::new().allowed_domains(vec!["gravitalia".to_string()]);
    assert!(crawler.domain_gate("https://www.gravitalia.com/").is_ok());
    let err = crawler.domain_gate("https://example.com/").unwrap_err();
    assert_eq!(
        err.error_type,
        ErrorType::Crawler(CrawlerError::InvalidDomain)
    );
    assert_eq!(err.message(), "The domain is not within the allowed domains.");
}

#[test]
fn empty_allow_list_permits_every_domain() {
    let crawler = Crawler::<NoHook>::new();
    assert!(crawler.domain_gate("https://anything.example/").is_ok());
}

#[test]
fn denying_hook_short_circuits_before_any_fetch() {
    let first = Cell::new(0);
    let second = Cell::new(0);
    let crawler = Crawler::new()
        .register_event(CountingHook { calls: &first, deny: true })
        .register_event(CountingHook { calls: &second, deny: false });
    let r = crawler.prepare(&"https://example.com/".to_string());
    assert!(r.is_err());
    // The denying hook ran once; no later hook was consulted, and no
    // fetch plan was ever produced.
    assert_eq!(first.get(), 1);
    assert_eq!(second.get(), 0);
}

#[test]
fn hook_denial_is_reported_before_the_domain_gate() {
    let calls = Cell::new(0);
    let crawler = Crawler::new()
        .register_event(CountingHook { calls: &calls, deny: true })
        .allowed_domains(vec!["gravitalia".to_string()]);
    let err = crawler.prepare(&"https://example.com/".to_string()).unwrap_err();
    assert_eq!(err.error_type, ErrorType::Unspecified);
}

#[test]
fn same_host_chain_stops_at_the_depth_bound() {
    let mut crawler = Crawler::<NoHook>::new().depth(2);
    let host = "chain.example.com".to_string();

    let first = crawler
        .process_page(
            &"https://chain.example.com/".to_string(),
            &host,
            &"start https://chain.example.com/a end".to_string(),
            0,
            0,
        )
        .unwrap();
    assert_eq!(first.len(), 1);
    let (url1, depth1) = match &first[0] {
        LinkDirective::Follow { url, wait, depth } => {
            assert_eq!(*wait, 0);
            (url.clone(), *depth)
        },
        LinkDirective::Publish { .. } => panic!("expected a follow"),
    };
    assert_eq!(url1, "https://chain.example.com/a");
    assert_eq!(depth1, 1);

    let second = crawler
        .process_page(
            &url1,
            &host,
            &"next https://chain.example.com/b".to_string(),
            0,
            depth1,
        )
        .unwrap();
    assert_eq!(second.len(), 1);
    let (url2, depth2) = match &second[0] {
        LinkDirective::Follow { url, depth, .. } => (url.clone(), *depth),
        LinkDirective::Publish { .. } => panic!("expected a follow"),
    };
    assert_eq!(depth2, 2);

    // The page at depth 2 has reached the bound: no further expansion.
    let third = crawler
        .process_page(
            &url2,
            &host,
            &"deep https://chain.example.com/c".to_string(),
            0,
            depth2,
        )
        .unwrap();
    assert!(third.is_empty());
}

#[test]
fn cross_host_links_are_published_not_followed() {
    let mut crawler = Crawler::<NoHook>::new();
    let directives = crawler
        .process_page(
            &"https://www.gravitalia.com/".to_string(),
            &"www.gravitalia.com".to_string(),
            &"see https://news.gravitalia.com/ and https://www.gravitalia.com/about"
                .to_string(),
            7,
            0,
        )
        .unwrap();
    assert_eq!(directives.len(), 2);
    match &directives[0] {
        LinkDirective::Publish { message } => {
            assert_eq!(message, "https://news.gravitalia.com")
        },
        LinkDirective::Follow { .. } => panic!("expected a publish"),
    }
    match &directives[1] {
        LinkDirective::Follow { url, wait, depth } => {
            assert_eq!(url, "https://www.gravitalia.com/about");
            assert_eq!(*wait, 7);
            assert_eq!(*depth, 1);
        },
        LinkDirective::Publish { .. } => panic!("expected a follow"),
    }
}

#[test]
fn robots_cache_is_per_host() {
    let mut crawler = Crawler::<NoHook>::new();
    let host = "example.com".to_string();
    assert!(crawler.needs_robots(&host));
    crawler.store_robots(
        host.clone(),
        Some("User-agent: *\nDisallow: /secret\nCrawl-delay: 3".to_string()),
    );
    assert!(!crawler.needs_robots(&host));

    let (allowed, delay) = crawler
        .robots_admit(&host, "testbot", "https://example.com/open")
        .unwrap();
    assert!(allowed);
    assert_eq!(delay, 3);

    let (blocked, _) = crawler
        .robots_admit(&host, "testbot", "https://example.com/secret/page")
        .unwrap();
    assert!(!blocked);

    assert_eq!(
        crawler.robots_admit(&"other.com".to_string(), "testbot", "https://other.com/"),
        None
    );
}

#[test]
fn unreachable_robots_file_allows_everything() {
    let mut crawler = Crawler::<NoHook>::new();
    let host = "example.com".to_string();
    crawler.store_robots(host.clone(), None);
    let (allowed, delay) = crawler
        .robots_admit(&host, "testbot", "https://example.com/anything")
        .unwrap();
    assert!(allowed);
    assert_eq!(delay, 0);
}

#[test]
fn fetch_outcomes_classify_statuses() {
    let ok = FetchOutcome::Success { status: 200, body: String::new() };
    let redirect = FetchOutcome::Success { status: 302, body: String::new() };
    let missing = FetchOutcome::Success { status: 404, body: String::new() };
    let early = FetchOutcome::Success { status: 199, body: String::new() };
    assert_eq!(fetch_event(&ok), CrawlEvent::StatusOk);
    assert_eq!(fetch_event(&redirect), CrawlEvent::StatusOk);
    assert_eq!(fetch_event(&missing), CrawlEvent::StatusRejected);
    assert_eq!(fetch_event(&early), CrawlEvent::StatusRejected);
    assert_eq!(fetch_event(&FetchOutcome::TransportError), CrawlEvent::TransportFailed);
    assert_eq!(fetch_event(&FetchOutcome::DecodeError), CrawlEvent::DecodeFailed);
}

#[test]
fn fetch_failures_map_to_their_error_kinds() {
    let net = fetch_failure_error(&FetchOutcome::TransportError, Some("timed out".to_string()))
        .unwrap();
    assert_eq!(net.error_type, ErrorType::Crawler(CrawlerError::NetworkError));
    assert_eq!(net.cause, Some("timed out".to_string()));
    let parse = fetch_failure_error(&FetchOutcome::DecodeError, None).unwrap();
    assert_eq!(parse.error_type, ErrorType::Crawler(CrawlerError::ParseError));
    assert_eq!(parse.cause, None);
    let ok = FetchOutcome::Success { status: 200, body: String::new() };
    assert!(fetch_failure_error(&ok, None).is_none());
}

#[test]
fn crawl_step_walks_its_stations() {
    let mut s = CrawlState::Pending;
    assert_eq!(action_of(s), CrawlAction::CheckAccess);
    s = advance(s, CrawlEvent::PolicyAllowed);
    assert_eq!(s, CrawlState::PolicyChecked);
    assert_eq!(action_of(s), CrawlAction::CheckRobots);
    s = advance(s, CrawlEvent::RobotsAllowed);
    assert_eq!(s, CrawlState::RobotsChecked);
    assert_eq!(action_of(s), CrawlAction::ExecuteFetch);
    s = advance(s, CrawlEvent::StatusOk);
    assert_eq!(s, CrawlState::Fetched);
    s = advance(s, CrawlEvent::ExtractionDone);
    assert_eq!(s, CrawlState::Extracted);
    s = advance(s, CrawlEvent::LinksHandled);
    assert_eq!(s, CrawlState::Dispatched);
    assert_eq!(action_of(s), CrawlAction::Stop);
}

#[test]
fn hook_denial_skips_the_step_for_good() {
    let s = advance(CrawlState::Pending, CrawlEvent::HookDenied);
    assert_eq!(s, CrawlState::Skipped);
    // Terminal: whatever is reported later, the step stays skipped and
    // never asks for a fetch.
    let after = advance(s, CrawlEvent::StatusOk);
    assert_eq!(after, CrawlState::Skipped);
    assert_eq!(action_of(after), CrawlAction::Stop);
}

#[test]
fn gates_exit_to_their_terminal_states() {
    assert_eq!(
        advance(CrawlState::Pending, CrawlEvent::PolicyDenied),
        CrawlState::Skipped
    );
    assert_eq!(
        advance(CrawlState::PolicyChecked, CrawlEvent::RobotsDenied),
        CrawlState::Skipped
    );
    assert_eq!(
        advance(CrawlState::RobotsChecked, CrawlEvent::StatusRejected),
        CrawlState::Skipped
    );
    assert_eq!(
        advance(CrawlState::RobotsChecked, CrawlEvent::TransportFailed),
        CrawlState::Failed
    );
    assert_eq!(
        advance(CrawlState::RobotsChecked, CrawlEvent::DecodeFailed),
        CrawlState::Failed
    );
}

#[test]
fn consumer_accepts_each_host_once() {
    let mut consumer = DispatchConsumer::new();
    let host = "https://news.gravitalia.com".to_string();
    assert!(consumer.accept(&host));
    assert!(!consumer.accept(&host));
    assert!(consumer.accept(&"https://other.example".to_string()));
    assert!(!consumer.accept(&host));
}

#[test]
fn dispatch_messages_carry_the_https_root() {
    assert_eq!(dispatch_message("news.gravitalia.com"), "https://news.gravitalia.com");
}
