//! The crawl engine: configuration, event hooks, and the decisions of
//! one crawl step.
//!
//! A [`Crawler`] holds the immutable-after-build configuration, the
//! frontier cache that tracks the depth of visited URLs, a per-host
//! cache of robots policies, and the registered event hooks.  The
//! builder methods configure it; the step methods take every decision
//! of the fetch-extract-dispatch cycle over plain values, so the
//! embedding driver only performs the HTTP requests, the crawl-delay
//! waits and the bus publishes that the decisions ask for.

use vstd::prelude::*;
use crate::cache::LRUCache;
use crate::cache::key_index;
use crate::cache::put_model;
use crate::cache::touched;
use crate::cache::has_key;
use crate::cache::lemma_key_index;
use crate::cache::lemma_touch_then_put;
use crate::domain::host_of;
use crate::domain::spec_host_allowed;
use crate::domain::test_domain;
use crate::domain::url_host;
use crate::engine::CrawlEvent;
use crate::error::CrawlerError;
use crate::error::Error;
use crate::error::ErrorType;
use crate::links::find_all_links;
use crate::links::spec_find_all_links;
use crate::meta::Meta;
use crate::meta::extract_meta_tags;
use crate::robots::RobotsPolicy;
use crate::robots::lines_bounded;
use crate::robots::robots_allows;
use crate::robots::spec_crawl_delay;
use crate::robots::spec_policy_text;

verus! {

/// Crawler-related events: hooks that observe the crawl without being
/// part of it.  Implementations are registered on a [`Crawler`] and
/// invoked in registration order.
pub trait Event {
    /// Called before a URL request is made.  An `Err` halts the crawl
    /// of that URL: no fetch is performed and no later hook runs.
    fn before_request(&self, url: &str) -> Result<(), Error>;

    /// Called after a URL has been fetched and its content extracted.
    /// The result is ignored: a failing after-hook never stops the
    /// remaining hooks or the crawl.
    fn after_request(&self, title: &str, meta: Vec<Meta>, html: &str) -> Result<(), Error>;
}

/// The configuration of a [`Crawler`], as its contracts speak of it.
pub struct CrawlerConfig {
    /// Allow-list of domain patterns; empty means every domain.
    pub allowed_domains: Seq<Seq<char>>,
    /// File extensions the crawler should fetch.
    pub extensions: Seq<Seq<char>>,
    /// Whether redirects are followed (up to a small fixed bound).
    pub follow_redirects: bool,
    /// Custom header map, keys unique.
    pub headers: Seq<(Seq<char>, Seq<char>)>,
    /// Maximum traversal depth; absent means unbounded.
    pub max_depth: Option<usize>,
    /// Delay between retry attempts, in whole seconds.
    pub retry_after: u64,
    /// Number of retry attempts for failed requests.
    pub retry_count: usize,
    /// Request timeout, in whole seconds.
    pub timeout: u64,
    /// The user-agent string sent with each request.
    pub user_agent: Seq<char>,
}

/// The default allowed file extensions.
pub open spec fn spec_default_extensions() -> Seq<Seq<char>> {
    seq![
        "pdf"@,
        "ppt"@,
        "pptx"@,
        "doc"@,
        "docx"@,
        "odp"@,
        "tex"@,
        "txt"@,
        "jpeg"@,
        "jpg"@,
        "png"@,
        "webp"@,
        "gif"@,
        "mp4"@,
        "ogv"@,
        "mov"@,
    ]
}

/// The core of a web crawler: configuration, frontier and robots
/// caches, and the registered hooks.
pub struct Crawler<E: Event> {
    allowed_domains: Vec<String>,
    depth: LRUCache<usize>,
    events: Vec<E>,
    extensions: Vec<String>,
    follow_redirects: bool,
    headers: Vec<(String, String)>,
    max_depth: Option<usize>,
    retry_after: u64,
    retry_count: usize,
    robots: LRUCache<RobotsPolicy>,
    timeout: u64,
    user_agent: String,
}

impl<E: Event> Crawler<E> {
    /// The crawler's configuration.
    pub closed spec fn config(self) -> CrawlerConfig {
        CrawlerConfig {
            allowed_domains: self.allowed_domains.deep_view(),
            extensions: self.extensions.deep_view(),
            follow_redirects: self.follow_redirects,
            headers: self.headers.deep_view(),
            max_depth: self.max_depth,
            retry_after: self.retry_after,
            retry_count: self.retry_count,
            timeout: self.timeout,
            user_agent: self.user_agent@,
        }
    }

    /// The frontier cache: visited URLs and their tracked depths, in
    /// recency order.
    pub closed spec fn frontier(self) -> Seq<(Seq<char>, usize)> {
        self.depth.model()
    }

    /// The frontier cache's capacity.
    pub closed spec fn frontier_capacity(self) -> nat {
        self.depth.spec_capacity()
    }

    /// The per-host robots cache: each host's robots-file text and
    /// derived crawl-delay, in recency order.
    pub closed spec fn robots_cache(self) -> Seq<(Seq<char>, (Seq<char>, u64))> {
        robots_view(self.robots.model())
    }

    /// The robots cache's capacity.
    pub closed spec fn robots_capacity(self) -> nat {
        self.robots.spec_capacity()
    }

    /// The registered hooks, in registration order: the order their
    /// `before_request` and `after_request` methods run in.
    pub closed spec fn hooks(self) -> Seq<E> {
        self.events@
    }

    /// How many hooks are registered.
    pub open spec fn num_events(self) -> nat {
        self.hooks().len()
    }

    /// Both caches are well-formed, every cached robots policy derives
    /// its delay from its text, and header keys are unique.
    pub open spec fn wf(self) -> bool {
        &&& self.frontier().len() <= self.frontier_capacity()
        &&& forall|i: int, j: int|
            0 <= i < j < self.frontier().len() ==> (#[trigger] self.frontier()[i]).0 != (
            #[trigger] self.frontier()[j]).0
        &&& self.robots_cache().len() <= self.robots_capacity()
        &&& forall|i: int, j: int|
            0 <= i < j < self.robots_cache().len() ==> (#[trigger] self.robots_cache()[i]).0 != (
            #[trigger] self.robots_cache()[j]).0
        &&& forall|i: int|
            0 <= i < self.robots_cache().len() ==> (#[trigger] self.robots_cache()[i]).1.1 as int
                == spec_crawl_delay(self.robots_cache()[i].1.0) && lines_bounded(
                self.robots_cache()[i].1.0,
                4096,
            )
        &&& forall|i: int, j: int|
            0 <= i < j < self.config().headers.len() ==> (#[trigger] self.config().headers[i]).0
                != (#[trigger] self.config().headers[j]).0
    }

    /// The cache invariants restated over the inner caches, for the
    /// step methods.
    proof fn lemma_wf_inner(self)
        requires
            self.wf(),
        ensures
            self.depth.wf(),
            self.robots.wf(),
    {
        assert forall|i: int, j: int|
            0 <= i < j < self.robots.model().len() implies (#[trigger] self.robots.model()[i]).0
            != (#[trigger] self.robots.model()[j]).0 by {
            assert(self.robots_cache()[i].0 == self.robots.model()[i].0);
            assert(self.robots_cache()[j].0 == self.robots.model()[j].0);
        }
    }

    /// Create a crawler with the default configuration: the default
    /// extensions, a ten-second timeout, three retries ten seconds
    /// apart, redirects followed, and room for twenty entries in each
    /// cache.
    pub fn new() -> (r: Self)
        ensures
            r.wf(),
            r.config() == (CrawlerConfig {
                allowed_domains: Seq::<Seq<char>>::empty(),
                extensions: spec_default_extensions(),
                follow_redirects: true,
                headers: Seq::<(Seq<char>, Seq<char>)>::empty(),
                max_depth: None::<usize>,
                retry_after: 10u64,
                retry_count: 3usize,
                timeout: 10u64,
                user_agent: "polymath/0.1.0"@,
            }),
            r.frontier() == Seq::<(Seq<char>, usize)>::empty(),
            r.frontier_capacity() == 20,
            r.robots_cache() == Seq::<(Seq<char>, (Seq<char>, u64))>::empty(),
            r.robots_capacity() == 20,
            r.num_events() == 0,
    {
        let mut extensions: Vec<String> = Vec::new();
        extensions.push("pdf".to_owned());
        extensions.push("ppt".to_owned());
        extensions.push("pptx".to_owned());
        extensions.push("doc".to_owned());
        extensions.push("docx".to_owned());
        extensions.push("odp".to_owned());
        extensions.push("tex".to_owned());
        extensions.push("txt".to_owned());
        extensions.push("jpeg".to_owned());
        extensions.push("jpg".to_owned());
        extensions.push("png".to_owned());
        extensions.push("webp".to_owned());
        extensions.push("gif".to_owned());
        extensions.push("mp4".to_owned());
        extensions.push("ogv".to_owned());
        extensions.push("mov".to_owned());
        proof {
            assert(extensions.deep_view() =~= spec_default_extensions());
        }
        let r = Crawler {
            allowed_domains: Vec::new(),
            depth: LRUCache::with_capacity(20),
            events: Vec::new(),
            extensions,
            follow_redirects: true,
            headers: Vec::new(),
            max_depth: None,
            retry_after: 10,
            retry_count: 3,
            robots: LRUCache::with_capacity(20),
            timeout: 10,
            user_agent: "polymath/0.1.0".to_owned(),
        };
        proof {
            assert(r.config().allowed_domains =~= Seq::<Seq<char>>::empty());
            assert(r.config().headers =~= Seq::<(Seq<char>, Seq<char>)>::empty());
            assert(r.robots_cache() =~= Seq::<(Seq<char>, (Seq<char>, u64))>::empty());
        }
        r
    }

    /// Restrict the crawler to hosts matching one of `domains`, each a
    /// regular-expression pattern.  An empty list allows every domain.
    pub fn allowed_domains(self, domains: Vec<String>) -> (r: Self)
        ensures
            r.config() == (CrawlerConfig { allowed_domains: domains.deep_view(), ..self.config() }),
            r.frontier() == self.frontier(),
            r.frontier_capacity() == self.frontier_capacity(),
            r.robots_cache() == self.robots_cache(),
            r.robots_capacity() == self.robots_capacity(),
            r.hooks() == self.hooks(),
            self.wf() ==> r.wf(),
    {
        Crawler { allowed_domains: domains, ..self }
    }

    /// Define the file extensions the crawler should fetch.
    pub fn allowed_extensions(self, extensions: Vec<String>) -> (r: Self)
        ensures
            r.config() == (CrawlerConfig { extensions: extensions.deep_view(), ..self.config() }),
            r.frontier() == self.frontier(),
            r.frontier_capacity() == self.frontier_capacity(),
            r.robots_cache() == self.robots_cache(),
            r.robots_capacity() == self.robots_capacity(),
            r.hooks() == self.hooks(),
            self.wf() ==> r.wf(),
    {
        Crawler { extensions, ..self }
    }

    /// Set whether the crawler follows HTTP redirects.
    pub fn follow_redirects(self, follow_redirects: bool) -> (r: Self)
        ensures
            r.config() == (CrawlerConfig { follow_redirects, ..self.config() }),
            r.frontier() == self.frontier(),
            r.frontier_capacity() == self.frontier_capacity(),
            r.robots_cache() == self.robots_cache(),
            r.robots_capacity() == self.robots_capacity(),
            r.hooks() == self.hooks(),
            self.wf() ==> r.wf(),
    {
        Crawler { follow_redirects, ..self }
    }

    /// Add a custom HTTP header to every request; a repeated key
    /// replaces the earlier value.
    pub fn add_headers(self, key: String, value: String) -> (r: Self)
        ensures
            r.config() == (CrawlerConfig {
                headers: spec_header_put(self.config().headers, key@, value@),
                ..self.config()
            }),
            r.frontier() == self.frontier(),
            r.frontier_capacity() == self.frontier_capacity(),
            r.robots_cache() == self.robots_cache(),
            r.robots_capacity() == self.robots_capacity(),
            r.hooks() == self.hooks(),
            self.wf() ==> r.wf(),
    {
        let mut this = self;
        let ghost hs0 = this.headers.deep_view();
        proof {
            lemma_key_index(hs0, key@);
        }
        let mut i: usize = 0;
        let n = this.headers.len();
        let mut found: Option<usize> = None;
        while i < n
            invariant
                i <= n,
                n == this.headers@.len(),
                hs0 == this.headers.deep_view(),
                match found {
                    Some(d) => d < i && hs0[d as int].0 == key@ && d as int == key_index(
                        hs0,
                        key@,
                    ),
                    None => forall|j: int| 0 <= j < i ==> (#[trigger] hs0[j]).0 != key@,
                },
            decreases n - i,
        {
            if found.is_none() && this.headers[i].0 == key {
                proof {
                    assert(hs0[i as int] == (this.headers@[i as int].0@,
                    this.headers@[i as int].1@));
                    crate::cache::lemma_key_index_first(hs0, key@, i as int);
                }
                found = Some(i);
            }
            proof {
                assert(hs0[i as int] == (this.headers@[i as int].0@, this.headers@[i as int].1@));
            }
            i += 1;
        }
        match found {
            Some(d) => {
                this.headers.remove(d);
                this.headers.push((key, value));
                proof {
                    assert(this.headers.deep_view() =~= hs0.remove(d as int).push((key@, value@)));
                }
            },
            None => {
                proof {
                    assert(key_index(hs0, key@) == -1);
                }
                this.headers.push((key, value));
                proof {
                    assert(this.headers.deep_view() =~= hs0.push((key@, value@)));
                }
            },
        }
        this
    }

    /// Set a maximum traversal depth: the number of link-following
    /// hops from the starting URL after which no page expands its
    /// links further.
    pub fn depth(self, depth: usize) -> (r: Self)
        ensures
            r.config() == (CrawlerConfig { max_depth: Some(depth), ..self.config() }),
            r.frontier() == self.frontier(),
            r.frontier_capacity() == self.frontier_capacity(),
            r.robots_cache() == self.robots_cache(),
            r.robots_capacity() == self.robots_capacity(),
            r.hooks() == self.hooks(),
            self.wf() ==> r.wf(),
    {
        Crawler { max_depth: Some(depth), ..self }
    }

    /// Register a new receiver of crawler [`Event`]s; hooks run in
    /// registration order.
    pub fn register_event(self, event: E) -> (r: Self)
        ensures
            r.config() == self.config(),
            r.frontier() == self.frontier(),
            r.frontier_capacity() == self.frontier_capacity(),
            r.robots_cache() == self.robots_cache(),
            r.robots_capacity() == self.robots_capacity(),
            r.hooks() == self.hooks().push(event),
            self.wf() ==> r.wf(),
    {
        let mut this = self;
        this.events.push(event);
        this
    }

    /// Set the number of retry attempts for failed requests.
    pub fn retry(self, retry_count: usize) -> (r: Self)
        ensures
            r.config() == (CrawlerConfig { retry_count, ..self.config() }),
            r.frontier() == self.frontier(),
            r.frontier_capacity() == self.frontier_capacity(),
            r.robots_cache() == self.robots_cache(),
            r.robots_capacity() == self.robots_capacity(),
            r.hooks() == self.hooks(),
            self.wf() ==> r.wf(),
    {
        Crawler { retry_count, ..self }
    }

    /// Set the delay between retry attempts, in whole seconds.
    pub fn retry_after(self, seconds: u64) -> (r: Self)
        ensures
            r.config() == (CrawlerConfig { retry_after: seconds, ..self.config() }),
            r.frontier() == self.frontier(),
            r.frontier_capacity() == self.frontier_capacity(),
            r.robots_cache() == self.robots_cache(),
            r.robots_capacity() == self.robots_capacity(),
            r.hooks() == self.hooks(),
            self.wf() ==> r.wf(),
    {
        Crawler { retry_after: seconds, ..self }
    }

    /// Set the timeout of each request, in whole seconds.
    pub fn timeout(self, seconds: u64) -> (r: Self)
        ensures
            r.config() == (CrawlerConfig { timeout: seconds, ..self.config() }),
            r.frontier() == self.frontier(),
            r.frontier_capacity() == self.frontier_capacity(),
            r.robots_cache() == self.robots_cache(),
            r.robots_capacity() == self.robots_capacity(),
            r.hooks() == self.hooks(),
            self.wf() ==> r.wf(),
    {
        Crawler { timeout: seconds, ..self }
    }

    /// Set a custom user-agent string.
    pub fn user_agent(self, user_agent: String) -> (r: Self)
        ensures
            r.config() == (CrawlerConfig { user_agent: user_agent@, ..self.config() }),
            r.frontier() == self.frontier(),
            r.frontier_capacity() == self.frontier_capacity(),
            r.robots_cache() == self.robots_cache(),
            r.robots_capacity() == self.robots_capacity(),
            r.hooks() == self.hooks(),
            self.wf() ==> r.wf(),
    {
        Crawler { user_agent, ..self }
    }
}

/// A robots cache's contents as plain values: each policy becomes its
/// text and its derived delay.
pub open spec fn robots_view(m: Seq<(Seq<char>, RobotsPolicy)>) -> Seq<
    (Seq<char>, (Seq<char>, u64)),
> {
    m.map_values(|e: (Seq<char>, RobotsPolicy)| (e.0, (e.1.text@, e.1.delay)))
}

/// Viewing the policies as plain values relocates no key.
proof fn lemma_robots_view_key_index(m: Seq<(Seq<char>, RobotsPolicy)>, k: Seq<char>)
    ensures
        key_index(robots_view(m), k) == key_index(m, k),
    decreases m.len(),
{
    if m.len() > 0 {
        assert(robots_view(m)[0] == (m[0].0, (m[0].1.text@, m[0].1.delay)));
        if m[0].0 != k {
            lemma_robots_view_key_index(m.drop_first(), k);
            assert(robots_view(m).drop_first() =~= robots_view(m.drop_first()));
        }
    }
}

/// A lookup commutes with viewing the policies as plain values.
proof fn lemma_robots_view_touched(m: Seq<(Seq<char>, RobotsPolicy)>, k: Seq<char>)
    ensures
        robots_view(touched(m, k)) == touched(robots_view(m), k),
{
    lemma_robots_view_key_index(m, k);
    let i = key_index(m, k);
    if i >= 0 {
        lemma_key_index(m, k);
        assert(robots_view(touched(m, k)) =~= touched(robots_view(m), k));
    }
}

/// An insertion commutes with viewing the policies as plain values.
proof fn lemma_robots_view_put(
    m: Seq<(Seq<char>, RobotsPolicy)>,
    cap: nat,
    k: Seq<char>,
    p: RobotsPolicy,
)
    ensures
        robots_view(put_model(m, cap, k, p)) == put_model(robots_view(m), cap, k, (p.text@, p.delay)),
{
    lemma_robots_view_key_index(m, k);
    let i = key_index(m, k);
    if i >= 0 {
        lemma_key_index(m, k);
        assert(robots_view(put_model(m, cap, k, p)) =~= put_model(
            robots_view(m),
            cap,
            k,
            (p.text@, p.delay),
        ));
    } else {
        assert(robots_view(put_model(m, cap, k, p)) =~= put_model(
            robots_view(m),
            cap,
            k,
            (p.text@, p.delay),
        ));
    }
}

/// The plain-value view agrees with the policy cache entry by entry.
proof fn lemma_robots_view_entries(m: Seq<(Seq<char>, RobotsPolicy)>)
    ensures
        robots_view(m).len() == m.len(),
        forall|i: int|
            0 <= i < m.len() ==> (#[trigger] robots_view(m)[i]) == (m[i].0, (m[i].1.text@,
            m[i].1.delay)),
{
}

/// A lookup keeps every entry of a well-formed cache well-formed:
/// delays match their texts, and the texts' lines stay bounded.
proof fn lemma_delay_invariant_touched(m: Seq<(Seq<char>, (Seq<char>, u64))>, k: Seq<char>)
    requires
        forall|i: int|
            0 <= i < m.len() ==> (#[trigger] m[i]).1.1 as int == spec_crawl_delay(m[i].1.0)
                && lines_bounded(m[i].1.0, 4096),
    ensures
        forall|i: int|
            0 <= i < touched(m, k).len() ==> (#[trigger] touched(m, k)[i]).1.1 as int
                == spec_crawl_delay(touched(m, k)[i].1.0) && lines_bounded(
                touched(m, k)[i].1.0,
                4096,
            ),
{
    let r = touched(m, k);
    let i0 = key_index(m, k);
    if i0 >= 0 {
        lemma_key_index(m, k);
        assert forall|i: int| 0 <= i < r.len() implies (#[trigger] r[i]).1.1 as int
            == spec_crawl_delay(r[i].1.0) && lines_bounded(r[i].1.0, 4096) by {
            if i < r.len() - 1 {
                if i < i0 {
                    assert(r[i] == m[i]);
                } else {
                    assert(r[i] == m[i + 1]);
                }
            } else {
                assert(r[i] == m[i0]);
            }
        }
    }
}

/// An insertion of a well-formed entry keeps a well-formed cache
/// well-formed: delays match their texts, and the texts' lines stay
/// bounded.
proof fn lemma_delay_invariant_put(
    m: Seq<(Seq<char>, (Seq<char>, u64))>,
    cap: nat,
    k: Seq<char>,
    v: (Seq<char>, u64),
)
    requires
        forall|i: int|
            0 <= i < m.len() ==> (#[trigger] m[i]).1.1 as int == spec_crawl_delay(m[i].1.0)
                && lines_bounded(m[i].1.0, 4096),
        v.1 as int == spec_crawl_delay(v.0),
        lines_bounded(v.0, 4096),
    ensures
        forall|i: int|
            0 <= i < put_model(m, cap, k, v).len() ==> (#[trigger] put_model(m, cap, k, v)[i]).1.1
                as int == spec_crawl_delay(put_model(m, cap, k, v)[i].1.0) && lines_bounded(
                put_model(m, cap, k, v)[i].1.0,
                4096,
            ),
{
    let r = put_model(m, cap, k, v);
    let i0 = key_index(m, k);
    assert forall|i: int| 0 <= i < r.len() implies (#[trigger] r[i]).1.1 as int == spec_crawl_delay(
        r[i].1.0,
    ) && lines_bounded(r[i].1.0, 4096) by {
        if i0 >= 0 {
            lemma_key_index(m, k);
            if i < r.len() - 1 {
                if i < i0 {
                    assert(r[i] == m[i]);
                } else {
                    assert(r[i] == m[i + 1]);
                }
            } else {
                assert(r[i] == (k, v));
            }
        } else if m.len() < cap {
            if i < m.len() {
                assert(r[i] == m[i]);
            } else {
                assert(r[i] == (k, v));
            }
        } else if cap > 0 {
            if i < r.len() - 1 {
                assert(r[i] == m[i + 1]);
            } else {
                assert(r[i] == (k, v));
            }
        }
    }
}

/// The parameters of one HTTP request, for the embedding driver to
/// execute: method GET, HTTP/1.1, no request body, these headers and
/// this user-agent, this timeout, and at most this many redirects.
#[derive(Debug)]
pub struct FetchPlan {
    /// The URL to fetch.
    pub url: String,
    /// The user-agent string to send.
    pub user_agent: String,
    /// The custom headers to set, keys unique.
    pub headers: Vec<(String, String)>,
    /// The request timeout, in whole seconds.
    pub timeout: u64,
    /// How many redirects to follow at most.
    pub max_redirects: u32,
}

/// The redirect bound of a fetch: a small fixed number when redirects
/// are followed, none otherwise.
pub open spec fn spec_redirect_bound(follow_redirects: bool) -> u32 {
    if follow_redirects {
        3u32
    } else {
        0u32
    }
}

/// Whether `url` passes the domain policy: the allow-list is empty, or
/// the URL parses with a host that matches some valid pattern.
pub open spec fn spec_domain_ok(patterns: Seq<Seq<char>>, url: Seq<char>) -> bool {
    patterns.len() == 0 || match url_host(url) {
        Option::Some(h) => spec_host_allowed(patterns, h),
        Option::None => false,
    }
}

/// An element-wise copy of a header list.
fn clone_headers(hs: &Vec<(String, String)>) -> (r: Vec<(String, String)>)
    ensures
        r.deep_view() == hs.deep_view(),
{
    let mut r: Vec<(String, String)> = Vec::new();
    let mut i: usize = 0;
    while i < hs.len()
        invariant
            i <= hs@.len(),
            r@.len() == i,
            r.deep_view() =~= hs.deep_view().take(i as int),
        decreases hs@.len() - i,
    {
        r.push((hs[i].0.clone(), hs[i].1.clone()));
        proof {
            assert(r@.len() == i + 1);
            assert(r@[i as int].0 == hs@[i as int].0);
            assert(r@[i as int].1 == hs@[i as int].1);
            assert(r.deep_view()[i as int] == r@[i as int].deep_view());
            assert(r@[i as int].deep_view() == (r@[i as int].0@, r@[i as int].1@));
            assert(hs.deep_view()[i as int] == (hs@[i as int].0@, hs@[i as int].1@));
            assert(r.deep_view() =~= hs.deep_view().take(i + 1));
        }
        i += 1;
    }
    proof {
        assert(hs.deep_view().take(i as int) =~= hs.deep_view());
    }
    r
}

/// The outcome of one executed fetch, as the driver reports it back.
#[derive(Debug)]
pub enum FetchOutcome {
    /// The response arrived and its body decoded as text.
    Success {
        /// The numeric HTTP status code.
        status: u16,
        /// The decoded body.
        body: String,
    },
    /// The request failed transport-side (connection, timeout, DNS).
    TransportError,
    /// The response body was not decodable as text.
    DecodeError,
}

/// Whether a status code lets the step proceed to extraction: the
/// 2xx/3xx codes do, everything else is status-rejected.
pub open spec fn spec_status_ok(status: u16) -> bool {
    200 <= status < 400
}

/// The state-machine event a fetch outcome denotes: an acceptable
/// status proceeds, an unacceptable one skips the URL, and the two
/// failure kinds are distinguished.
pub fn fetch_event(o: &FetchOutcome) -> (e: CrawlEvent)
    ensures
        e == match o {
            FetchOutcome::Success { status, .. } => if spec_status_ok(*status) {
                CrawlEvent::StatusOk
            } else {
                CrawlEvent::StatusRejected
            },
            FetchOutcome::TransportError => CrawlEvent::TransportFailed,
            FetchOutcome::DecodeError => CrawlEvent::DecodeFailed,
        },
{
    match o {
        FetchOutcome::Success { status, .. } => {
            if 200 <= *status && *status < 400 {
                CrawlEvent::StatusOk
            } else {
                CrawlEvent::StatusRejected
            }
        },
        FetchOutcome::TransportError => CrawlEvent::TransportFailed,
        FetchOutcome::DecodeError => CrawlEvent::DecodeFailed,
    }
}

/// The per-URL error a failed fetch is reported as: a transport
/// failure is a network error, an undecodable body a parse error, and
/// a completed fetch no error at all.  The underlying failure's
/// description, when the driver has one, is carried as the error's
/// cause.  Neither failure is fatal to the crawl; the caller handles
/// it per URL.
pub fn fetch_failure_error(o: &FetchOutcome, cause: Option<String>) -> (r: Option<Error>)
    ensures
        match o {
            FetchOutcome::Success { .. } => r is None,
            FetchOutcome::TransportError => r matches Some(e) && e.error_type
                == ErrorType::Crawler(CrawlerError::NetworkError) && e.cause == cause,
            FetchOutcome::DecodeError => r matches Some(e) && e.error_type == ErrorType::Crawler(
                CrawlerError::ParseError,
            ) && e.cause == cause,
        },
{
    match o {
        FetchOutcome::Success { .. } => None,
        FetchOutcome::TransportError => Some(
            Error::new(ErrorType::Crawler(CrawlerError::NetworkError), cause, None),
        ),
        FetchOutcome::DecodeError => Some(
            Error::new(ErrorType::Crawler(CrawlerError::ParseError), cause, None),
        ),
    }
}

/// The depth a visit records for a URL: a first visit keeps the depth
/// the work item carried; a rediscovery increments the tracked depth,
/// saturating at the machine limit.
pub open spec fn next_depth(m: Seq<(Seq<char>, usize)>, k: Seq<char>, hint: usize) -> usize {
    let i = key_index(m, k);
    if i < 0 {
        hint
    } else if m[i].1 < usize::MAX {
        (m[i].1 + 1) as usize
    } else {
        m[i].1
    }
}

/// Whether a page at depth `d` may expand its links under bound `md`.
pub open spec fn spec_may_expand(md: Option<usize>, d: usize) -> bool {
    match md {
        Option::None => true,
        Option::Some(m) => d < m,
    }
}

/// What one crawl step does with one discovered link: follow it on the
/// same host after the host's crawl-delay, or hand its host to another
/// worker over the dispatch bus.
#[derive(Debug)]
pub enum LinkDirective {
    /// Fetch this same-host URL next, after waiting out the
    /// crawl-delay.
    Follow {
        /// The link to fetch.
        url: String,
        /// Seconds to wait before the fetch.
        wait: u64,
        /// The depth the link's work item carries: one hop deeper
        /// than the page that discovered it.
        depth: usize,
    },
    /// Publish this message on the dispatch bus instead of fetching.
    Publish {
        /// The message: the cross-host link's HTTPS root.
        message: String,
    },
}

/// The routes of a link list against the current host, in order: a
/// link whose host is the current one is followed (`true`, the link),
/// one with another host is published (`false`, that host), and one
/// with no parseable host is dropped.
pub open spec fn spec_routes(cur_host: Seq<char>, links: Seq<Seq<char>>) -> Seq<(bool, Seq<char>)>
    decreases links.len(),
{
    if links.len() == 0 {
        Seq::empty()
    } else {
        let rest = spec_routes(cur_host, links.drop_first());
        match url_host(links[0]) {
            Option::None => rest,
            Option::Some(h) => (if h == cur_host {
                seq![(true, links[0])]
            } else {
                seq![(false, h)]
            }) + rest,
        }
    }
}

/// Whether a directive realises a route: a follow carries the link,
/// the crawl-delay and the child depth, a publish carries the host's
/// HTTPS root.
pub open spec fn spec_directive_matches(
    d: LinkDirective,
    route: (bool, Seq<char>),
    delay: u64,
    child_depth: usize,
) -> bool {
    match d {
        LinkDirective::Follow { url, wait, depth } => route.0 && url@ == route.1 && wait == delay
            && depth == child_depth,
        LinkDirective::Publish { message } => !route.0 && message@ == "https://"@ + route.1,
    }
}

/// One hop deeper, stopping at the machine limit.
pub open spec fn spec_child_depth(d: usize) -> usize {
    if d < usize::MAX {
        (d + 1) as usize
    } else {
        d
    }
}

/// Depth-bound law: under a configured maximum depth, a page expands
/// its links exactly while its tracked depth is below the bound, so a
/// same-host chain that starts at depth zero and deepens by one per
/// followed link expands no further once its depth reaches the bound.
pub proof fn lemma_depth_bound(m: usize, d: usize)
    ensures
        spec_may_expand(Some(m), d) <==> d < m,
        !spec_may_expand(Some(m), m),
        d < usize::MAX ==> spec_child_depth(d) == d + 1,
{
}

/// Cross-host dispatch law: a route is a publication only for a host
/// that differs from the referring page's host.
pub proof fn lemma_publish_cross_host(cur_host: Seq<char>, links: Seq<Seq<char>>)
    ensures
        forall|i: int|
            0 <= i < spec_routes(cur_host, links).len() && !(#[trigger] spec_routes(
                cur_host,
                links,
            )[i]).0 ==> spec_routes(cur_host, links)[i].1 != cur_host,
    decreases links.len(),
{
    if links.len() > 0 {
        lemma_publish_cross_host(cur_host, links.drop_first());
        let rest = spec_routes(cur_host, links.drop_first());
        let whole = spec_routes(cur_host, links);
        match url_host(links[0]) {
            Option::None => {},
            Option::Some(h) => {
                assert forall|i: int| 0 <= i < whole.len() && !(#[trigger] whole[i]).0 implies
                whole[i].1 != cur_host by {
                    if i > 0 {
                        assert(whole[i] == rest[i - 1]);
                    }
                }
            },
        }
    }
}

/// Route every discovered link, in extraction order: same-host links
/// become follow directives carrying the crawl-delay, cross-host links
/// become publish directives, and links without a parseable host are
/// dropped.
pub fn route_links(links: &Vec<String>, current_host: &String, delay: u64, child_depth: usize) -> (r: Vec<
    LinkDirective,
>)
    ensures
        r@.len() == spec_routes(current_host@, links.deep_view()).len(),
        forall|i: int|
            0 <= i < r@.len() ==> spec_directive_matches(
                #[trigger] r@[i],
                spec_routes(current_host@, links.deep_view())[i],
                delay,
                child_depth,
            ),
{
    let ghost dv = links.deep_view();
    let ghost all = spec_routes(current_host@, dv);
    let mut r: Vec<LinkDirective> = Vec::new();
    let ghost rp: Seq<(bool, Seq<char>)> = Seq::empty();
    proof {
        assert(dv.skip(0) =~= dv);
        assert(rp + spec_routes(current_host@, dv.skip(0)) =~= all);
    }
    let mut i: usize = 0;
    while i < links.len()
        invariant
            i <= links@.len(),
            dv == links.deep_view(),
            all == spec_routes(current_host@, dv),
            all == rp + spec_routes(current_host@, dv.skip(i as int)),
            r@.len() == rp.len(),
            forall|j: int|
                0 <= j < r@.len() ==> spec_directive_matches(
                    #[trigger] r@[j],
                    rp[j],
                    delay,
                    child_depth,
                ),
        decreases links@.len() - i,
    {
        let ghost tail = dv.skip(i as int);
        proof {
            assert(tail[0] == dv[i as int]);
            assert(dv[i as int] == links@[i as int]@);
            assert(tail.drop_first() =~= dv.skip(i + 1));
        }
        match host_of(links[i].as_str()) {
            Some(h) => {
                if h == *current_host {
                    r.push(
                        LinkDirective::Follow {
                            url: links[i].clone(),
                            wait: delay,
                            depth: child_depth,
                        },
                    );
                    proof {
                        rp = rp.push((true, dv[i as int]));
                    }
                } else {
                    let message = crate::dispatch::dispatch_message(h.as_str());
                    r.push(LinkDirective::Publish { message });
                    proof {
                        rp = rp.push((false, h@));
                    }
                }
                proof {
                    assert(spec_routes(current_host@, tail) == seq![
                        rp[rp.len() - 1],
                    ] + spec_routes(current_host@, tail.drop_first()));
                    assert(all =~= rp + spec_routes(current_host@, dv.skip(i + 1)));
                }
            },
            None => {
                proof {
                    assert(spec_routes(current_host@, tail) == spec_routes(
                        current_host@,
                        tail.drop_first(),
                    ));
                }
            },
        }
        i += 1;
    }
    proof {
        assert(dv.skip(i as int) =~= Seq::<Seq<char>>::empty());
        assert(all =~= rp);
    }
    r
}

impl<E: Event> Crawler<E> {
    /// Run the before-hooks in registration order; the first denial is
    /// returned and stops the step, later hooks do not run.  With no
    /// hooks registered there is nothing to deny.
    fn pre_process(&self, url: &str) -> (r: Result<(), Error>)
        ensures
            self.num_events() == 0 ==> r is Ok,
    {
        let mut i: usize = 0;
        while i < self.events.len()
            decreases self.events@.len() - i,
        {
            match self.events[i].before_request(url) {
                Err(e) => {
                    return Err(e);
                },
                Ok(_) => {},
            }
            i += 1;
        }
        Ok(())
    }

    /// Check `url` against the domain allow-list: an empty list allows
    /// everything, otherwise the URL's host must match some valid
    /// pattern; anything else is an `InvalidDomain` error.
    pub fn domain_gate(&self, url: &str) -> (r: Result<(), Error>)
        ensures
            r is Ok <==> spec_domain_ok(self.config().allowed_domains, url@),
            r matches Err(e) ==> e.error_type == ErrorType::Crawler(CrawlerError::InvalidDomain),
    {
        if self.allowed_domains.len() == 0 {
            return Ok(());
        }
        if test_domain(&self.allowed_domains, url) {
            Ok(())
        } else {
            Err(
                Error::new(
                    ErrorType::Crawler(CrawlerError::InvalidDomain),
                    None,
                    Some("The URL's host is not in the configured allow-list.".to_owned()),
                ),
            )
        }
    }

    /// Gate one URL and build its fetch request: the before-hooks run
    /// first and their first denial stops the step; then the domain
    /// policy is enforced; then the request parameters are assembled
    /// from the configuration.
    pub fn prepare(&self, url: &String) -> (r: Result<FetchPlan, Error>)
        ensures
            r matches Ok(p) ==> spec_domain_ok(self.config().allowed_domains, url@) && p.url@
                == url@ && p.user_agent@ == self.config().user_agent && p.headers.deep_view()
                == self.config().headers && p.timeout == self.config().timeout && p.max_redirects
                == spec_redirect_bound(self.config().follow_redirects),
            !spec_domain_ok(self.config().allowed_domains, url@) ==> r is Err,
            self.num_events() == 0 && spec_domain_ok(self.config().allowed_domains, url@)
                ==> r is Ok,
    {
        match self.pre_process(url.as_str()) {
            Err(e) => {
                return Err(e);
            },
            Ok(_) => {},
        }
        match self.domain_gate(url.as_str()) {
            Err(e) => {
                return Err(e);
            },
            Ok(_) => {},
        }
        Ok(
            FetchPlan {
                url: url.clone(),
                user_agent: self.user_agent.clone(),
                headers: clone_headers(&self.headers),
                timeout: self.timeout,
                max_redirects: if self.follow_redirects {
                    3
                } else {
                    0
                },
            },
        )
    }

    /// Whether `host`'s robots policy must still be fetched: true when
    /// the host is not in the robots cache.  A cached host is touched
    /// as most recently used.
    pub fn needs_robots(&mut self, host: &String) -> (r: bool)
        requires
            old(self).wf(),
        ensures
            final(self).wf(),
            r == !has_key(old(self).robots_cache(), host@),
            final(self).robots_cache() == touched(old(self).robots_cache(), host@),
            final(self).config() == old(self).config(),
            final(self).frontier() == old(self).frontier(),
            final(self).frontier_capacity() == old(self).frontier_capacity(),
            final(self).robots_capacity() == old(self).robots_capacity(),
            final(self).hooks() == old(self).hooks(),
    {
        proof {
            old(self).lemma_wf_inner();
            lemma_robots_view_key_index(old(self).robots.model(), host@);
            lemma_robots_view_touched(old(self).robots.model(), host@);
            lemma_delay_invariant_touched(old(self).robots_cache(), host@);
            lemma_robots_view_entries(touched(old(self).robots.model(), host@));
        }
        let r = self.robots.get(host);
        r.is_none()
    }

    /// Store the robots policy of `host`, built from the outcome of
    /// fetching its robots file ([`RobotsPolicy::from_fetch`]): the
    /// fetched text, or the full-allow fallback when the fetch failed,
    /// with over-long lines truncated and the crawl-delay derived from
    /// the text that was kept.
    pub fn store_robots(&mut self, host: String, fetched: Option<String>)
        requires
            old(self).wf(),
        ensures
            final(self).wf(),
            final(self).robots_cache() == put_model(
                old(self).robots_cache(),
                old(self).robots_capacity(),
                host@,
                (spec_policy_text(fetched), spec_crawl_delay(spec_policy_text(fetched)) as u64),
            ),
            final(self).config() == old(self).config(),
            final(self).frontier() == old(self).frontier(),
            final(self).frontier_capacity() == old(self).frontier_capacity(),
            final(self).robots_capacity() == old(self).robots_capacity(),
            final(self).hooks() == old(self).hooks(),
    {
        proof {
            old(self).lemma_wf_inner();
        }
        let policy = RobotsPolicy::from_fetch(fetched);
        proof {
            lemma_robots_view_put(
                old(self).robots.model(),
                old(self).robots_capacity(),
                host@,
                policy,
            );
            lemma_delay_invariant_put(
                old(self).robots_cache(),
                old(self).robots_capacity(),
                host@,
                (policy.text@, policy.delay),
            );
            lemma_robots_view_entries(
                put_model(
                    old(self).robots.model(),
                    old(self).robots_capacity(),
                    host@,
                    policy,
                ),
            );
        }
        self.robots.put(host, policy);
    }

    /// Consult the cached robots policy of `host` for `url`: whether
    /// the configured `agent` may fetch it, and the host's
    /// crawl-delay.  A host whose policy was never stored yields
    /// nothing.
    pub fn robots_admit(&mut self, host: &String, agent: &str, url: &str) -> (r: Option<
        (bool, u64),
    >)
        requires
            old(self).wf(),
        ensures
            final(self).wf(),
            r is Some <==> has_key(old(self).robots_cache(), host@),
            r matches Some(a) ==> {
                let e = old(self).robots_cache()[key_index(old(self).robots_cache(), host@)];
                a.0 == robots_allows(e.1.0, agent@, url@) && a.1 == e.1.1
            },
            final(self).robots_cache() == touched(old(self).robots_cache(), host@),
            final(self).config() == old(self).config(),
            final(self).frontier() == old(self).frontier(),
            final(self).frontier_capacity() == old(self).frontier_capacity(),
            final(self).robots_capacity() == old(self).robots_capacity(),
            final(self).hooks() == old(self).hooks(),
    {
        proof {
            old(self).lemma_wf_inner();
            lemma_robots_view_key_index(old(self).robots.model(), host@);
            lemma_robots_view_touched(old(self).robots.model(), host@);
            lemma_key_index(old(self).robots.model(), host@);
            lemma_delay_invariant_touched(old(self).robots_cache(), host@);
            lemma_robots_view_entries(touched(old(self).robots.model(), host@));
            lemma_robots_view_entries(old(self).robots.model());
        }
        match self.robots.get(host) {
            None => None,
            Some(policy) => {
                let allowed = policy.is_allowed(agent, url);
                let delay = policy.delay;
                Some((allowed, delay))
            },
        }
    }

    /// Record a visit of `url` in the frontier cache: a first visit is
    /// entered at the depth its work item carried, a rediscovery
    /// increments the tracked depth; either way the URL becomes the
    /// most recently used entry.  Returns the depth now tracked.
    pub fn record_visit(&mut self, url: &String, depth_hint: usize) -> (r: usize)
        requires
            old(self).wf(),
        ensures
            final(self).wf(),
            r == next_depth(old(self).frontier(), url@, depth_hint),
            final(self).frontier() == put_model(
                old(self).frontier(),
                old(self).frontier_capacity(),
                url@,
                r,
            ),
            final(self).config() == old(self).config(),
            final(self).robots_cache() == old(self).robots_cache(),
            final(self).frontier_capacity() == old(self).frontier_capacity(),
            final(self).robots_capacity() == old(self).robots_capacity(),
            final(self).hooks() == old(self).hooks(),
    {
        proof {
            old(self).lemma_wf_inner();
            lemma_key_index(old(self).frontier(), url@);
        }
        let nd = match self.depth.get(url) {
            Some(d) => {
                if *d < usize::MAX {
                    *d + 1
                } else {
                    *d
                }
            },
            None => depth_hint,
        };
        proof {
            lemma_touch_then_put(old(self).frontier(), old(self).frontier_capacity(), url@, nd);
        }
        self.depth.put(url.clone(), nd);
        nd
    }

    /// Whether a page whose tracked depth is `depth` may expand its
    /// links: always, unless a maximum depth is configured and the
    /// depth has reached it.
    pub fn may_expand(&self, depth: usize) -> (r: bool)
        ensures
            r == spec_may_expand(self.config().max_depth, depth),
    {
        match self.max_depth {
            None => true,
            Some(m) => depth < m,
        }
    }

    /// Process one fetched page: extract its metadata, run the
    /// after-hooks (their results are ignored), record the visit in
    /// the frontier, and — unless the page's tracked depth has reached
    /// the configured bound — extract every link and route it: a
    /// same-host link is followed after `delay` seconds, a cross-host
    /// link's host is published for another worker.
    pub fn process_page(
        &mut self,
        url: &String,
        current_host: &String,
        body: &String,
        delay: u64,
        depth_hint: usize,
    ) -> (r: Result<Vec<LinkDirective>, Error>)
        requires
            old(self).wf(),
        ensures
            final(self).wf(),
            r is Ok,
            final(self).frontier() == put_model(
                old(self).frontier(),
                old(self).frontier_capacity(),
                url@,
                next_depth(old(self).frontier(), url@, depth_hint),
            ),
            r matches Ok(ds) ==> {
                let d = next_depth(old(self).frontier(), url@, depth_hint);
                let routes = spec_routes(current_host@, spec_find_all_links(body@));
                if spec_may_expand(old(self).config().max_depth, d) {
                    ds@.len() == routes.len() && forall|i: int|
                        0 <= i < ds@.len() ==> spec_directive_matches(
                            #[trigger] ds@[i],
                            routes[i],
                            delay,
                            spec_child_depth(d),
                        )
                } else {
                    ds@.len() == 0
                }
            },
            final(self).config() == old(self).config(),
            final(self).robots_cache() == old(self).robots_cache(),
            final(self).frontier_capacity() == old(self).frontier_capacity(),
            final(self).robots_capacity() == old(self).robots_capacity(),
            final(self).hooks() == old(self).hooks(),
    {
        let metas = match extract_meta_tags(body.as_str()) {
            Ok(m) => m,
            Err(e) => {
                return Err(e);
            },
        };
        let ghost snap = *self;
        let mut i: usize = 0;
        while i < self.events.len()
            invariant
                *self == snap,
            decreases self.events@.len() - i,
        {
            // After-hook results are deliberately ignored.
            let _ = self.events[i].after_request("", metas.clone(), body.as_str());
            i += 1;
        }
        let d = self.record_visit(url, depth_hint);
        if !self.may_expand(d) {
            return Ok(Vec::new());
        }
        let child = if d < usize::MAX {
            d + 1
        } else {
            d
        };
        let links = find_all_links(body.as_str());
        Ok(route_links(&links, current_host, delay, child))
    }
}

/// The header map after binding `k` to `v`: a present key is re-bound
/// (moving to the end), a new key is appended.
pub open spec fn spec_header_put(
    hs: Seq<(Seq<char>, Seq<char>)>,
    k: Seq<char>,
    v: Seq<char>,
) -> Seq<(Seq<char>, Seq<char>)> {
    let i = key_index(hs, k);
    if i >= 0 {
        hs.remove(i).push((k, v))
    } else {
        hs.push((k, v))
    }
}

} // verus!
