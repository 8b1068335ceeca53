//! Domain policy guard.
//!
//! A crawl is restricted to an allow-list of domain patterns: regular
//! expressions searched against a candidate host.  An empty list
//! allows every host; a non-empty list allows a host when at least one
//! pattern matches it.  A pattern that fails to compile never matches
//! and never aborts evaluation of the remaining patterns.

use vstd::prelude::*;

verus! {

/// Whether an outside regex engine accepts `pat` as a pattern.
pub uninterp spec fn regex_compiles(pat: Seq<char>) -> bool;

/// Whether a search of pattern `pat` over `text` finds a match, as the
/// outside regex engine answers it.
pub uninterp spec fn regex_matches(pat: Seq<char>, text: Seq<char>) -> bool;

/// Relies on regex_lite's `Regex::new` and `Regex::is_match`: whether
/// the pattern compiles, and, when it does, whether a search of it
/// over `text` finds a match.  Both answers are functions of the two
/// arguments alone.
#[verifier::external_body]
fn regex_search(pattern: &str, text: &str) -> (r: Option<bool>)
    ensures
        r is Some <==> regex_compiles(pattern@),
        r matches Some(b) ==> b == regex_matches(pattern@, text@),
{
    regex_lite::Regex::new(pattern).ok().map(|re| re.is_match(text))
}

/// What an outside URL parser extracts as the host of `url`, when the
/// URL parses and has one.
pub uninterp spec fn url_host(url: Seq<char>) -> Option<Seq<char>>;

/// Relies on the url crate's `Url::parse` and `Url::host_str`: the
/// host part of an absolute URL, when the URL parses and has one, as a
/// function of the URL text alone.
#[verifier::external_body]
pub(crate) fn host_of(url: &str) -> (r: Option<String>)
    ensures
        r.deep_view() == url_host(url@),
{
    url::Url::parse(url).ok().and_then(|u| u.host_str().map(|h| h.to_string()))
}

/// Whether `host` passes the allow-list `patterns`: the list is empty,
/// or at least one pattern compiles and matches the host.
pub open spec fn spec_host_allowed(patterns: Seq<Seq<char>>, host: Seq<char>) -> bool {
    patterns.len() == 0 || exists|i: int|
        0 <= i < patterns.len() && regex_compiles(#[trigger] patterns[i]) && regex_matches(
            patterns[i],
            host,
        )
}

/// Whether `host` passes the allow-list: an empty list allows every
/// host; otherwise some pattern must compile and match.  A pattern
/// that does not compile is skipped and the remaining patterns are
/// still evaluated.
pub fn host_allowed(patterns: &Vec<String>, host: &str) -> (r: bool)
    ensures
        r == spec_host_allowed(patterns.deep_view(), host@),
{
    if patterns.len() == 0 {
        return true;
    }
    let mut i: usize = 0;
    while i < patterns.len()
        invariant
            i <= patterns@.len(),
            forall|j: int|
                0 <= j < i ==> !(regex_compiles(#[trigger] patterns.deep_view()[j])
                    && regex_matches(patterns.deep_view()[j], host@)),
        decreases patterns@.len() - i,
    {
        match regex_search(patterns[i].as_str(), host) {
            Some(true) => {
                proof {
                    assert(patterns.deep_view()[i as int] == patterns@[i as int]@);
                }
                return true;
            },
            _ => {},
        }
        proof {
            assert(patterns.deep_view()[i as int] == patterns@[i as int]@);
        }
        i += 1;
    }
    false
}

/// Whether the host of `url` passes the allow-list `patterns`: the URL
/// must parse with a host, and the host must match some valid pattern.
/// An empty list is not consulted here; the caller treats it as
/// allowing everything.
pub fn test_domain(patterns: &Vec<String>, url: &str) -> (r: bool)
    ensures
        r == match url_host(url@) {
            Some(h) => spec_host_allowed(patterns.deep_view(), h),
            None => false,
        },
{
    match host_of(url) {
        Some(h) => host_allowed(patterns, h.as_str()),
        None => false,
    }
}

} // verus!
