//! Link extraction.
//!
//! [`find_all_links`] scans raw text for substrings of an HTTP(S) URL
//! shape: a scheme (`http://` or `https://`), an optional `www.`, a
//! host of 1 to 256 characters from a constrained symbol set, a dot, a
//! top-level label of 1 to 6 characters ending at a word boundary, and
//! an optional path/query tail from an extended symbol set.  Matches
//! are reported in document order and are non-overlapping; the scan
//! prefers the longest host and label that still complete a match, as
//! a backtracking pattern search does.  Duplicates are kept: they are
//! deduplicated downstream by the frontier cache.
//!
//! The whole scan is specified by [`spec_find_all_links`] and the
//! executable scanner is proved to return exactly that sequence.

use vstd::prelude::*;

verus! {

/// Characters allowed in the host part of a URL.
pub open spec fn is_host_char(c: char) -> bool {
    ('a' <= c && c <= 'z') || ('A' <= c && c <= 'Z') || ('0' <= c && c <= '9') || c == '-' || c
        == '@' || c == ':' || c == '%' || c == '.' || c == '_' || c == '+' || c == '~' || c == '#'
        || c == '='
}

/// Characters allowed in the top-level label of a URL.
pub open spec fn is_label_char(c: char) -> bool {
    ('a' <= c && c <= 'z') || ('A' <= c && c <= 'Z') || ('0' <= c && c <= '9') || c == '(' || c
        == ')'
}

/// Characters allowed in the path/query tail of a URL.
pub open spec fn is_tail_char(c: char) -> bool {
    ('a' <= c && c <= 'z') || ('A' <= c && c <= 'Z') || ('0' <= c && c <= '9') || c == '-' || c
        == '(' || c == ')' || c == '@' || c == ':' || c == '%' || c == '_' || c == '+' || c == '.'
        || c == '~' || c == '#' || c == '?' || c == '&' || c == '/' || c == '='
}

/// Word characters, for word boundaries.
pub open spec fn is_word_char(c: char) -> bool {
    ('a' <= c && c <= 'z') || ('A' <= c && c <= 'Z') || ('0' <= c && c <= '9') || c == '_'
}

/// Length of the longest run of characters satisfying `f` that starts
/// at `i`, capped at `cap`.
pub open spec fn class_run(s: Seq<char>, i: int, cap: int, f: spec_fn(char) -> bool) -> int
    decreases cap,
{
    if cap <= 0 || i < 0 || i >= s.len() || !f(s[i]) {
        0
    } else {
        1 + class_run(s, i + 1, cap - 1, f)
    }
}

/// A run never leaves the text and never exceeds its cap.
pub proof fn lemma_class_run_bounds(s: Seq<char>, i: int, cap: int, f: spec_fn(char) -> bool)
    requires
        0 <= i <= s.len(),
    ensures
        0 <= class_run(s, i, cap, f),
        i + class_run(s, i, cap, f) <= s.len(),
        class_run(s, i, cap, f) <= cap || cap < 0,
    decreases cap,
{
    if !(cap <= 0 || i >= s.len() || !f(s[i])) {
        lemma_class_run_bounds(s, i + 1, cap - 1, f);
    }
}

/// Whether a word boundary lies between positions `p - 1` and `p`.
/// The end of the text counts as a non-word position.
pub open spec fn boundary_at(s: Seq<char>, p: int) -> bool {
    is_word_char(s[p - 1]) != (p < s.len() && is_word_char(s[p]))
}

/// Position after the scheme when `s` carries `http://` or `https://`
/// at `i`, else `-1`.
pub open spec fn scheme_end(s: Seq<char>, i: int) -> int {
    if i + 8 <= s.len() && s[i] == 'h' && s[i + 1] == 't' && s[i + 2] == 't' && s[i + 3] == 'p'
        && s[i + 4] == 's' && s[i + 5] == ':' && s[i + 6] == '/' && s[i + 7] == '/' {
        i + 8
    } else if i + 7 <= s.len() && s[i] == 'h' && s[i + 1] == 't' && s[i + 2] == 't' && s[i + 3]
        == 'p' && s[i + 4] == ':' && s[i + 5] == '/' && s[i + 6] == '/' {
        i + 7
    } else {
        -1
    }
}

/// Whether `s` carries `www.` at `j`.
pub open spec fn has_www(s: Seq<char>, j: int) -> bool {
    j + 4 <= s.len() && s[j] == 'w' && s[j + 1] == 'w' && s[j + 2] == 'w' && s[j + 3] == '.'
}

/// End of the longest top-level label of length at most `m` starting
/// at `p` that ends on a word boundary, or `-1`.  The label characters
/// themselves are accounted for by the caller's cap `m`.
pub open spec fn label_end(s: Seq<char>, p: int, m: int) -> int
    decreases m,
{
    if m <= 0 {
        -1
    } else if boundary_at(s, p + m) {
        p + m
    } else {
        label_end(s, p, m - 1)
    }
}

/// End of a `host.label` match starting at `j` when the host takes `k`
/// characters or fewer (longest host first), or `-1`.
pub open spec fn host_label_end(s: Seq<char>, j: int, k: int) -> int
    decreases k,
{
    if k <= 0 {
        -1
    } else {
        let e = if j + k < s.len() && s[j + k] == '.' {
            label_end(s, j + k + 1, class_run(s, j + k + 1, 6, |c| is_label_char(c)))
        } else {
            -1
        };
        if e >= 0 {
            e
        } else {
            host_label_end(s, j, k - 1)
        }
    }
}

/// End of the host-and-label part starting at `j`: the host is the
/// longest run of host characters, up to 256, that still leaves a dot
/// and a label.
pub open spec fn host_part_end(s: Seq<char>, j: int) -> int {
    host_label_end(s, j, class_run(s, j, 256, |c| is_host_char(c)))
}

/// End of a whole URL match starting at `i`, or `-1`: scheme, then
/// host and label (preferring the `www.`-skipping parse when `www.` is
/// present, as the optional group is tried first), then the greedy
/// tail.
pub open spec fn match_end(s: Seq<char>, i: int) -> int {
    let j = scheme_end(s, i);
    if j < 0 {
        -1
    } else {
        let h = if has_www(s, j) && host_part_end(s, j + 4) >= 0 {
            host_part_end(s, j + 4)
        } else {
            host_part_end(s, j)
        };
        if h < 0 {
            -1
        } else {
            h + class_run(s, h, s.len() - h, |c| is_tail_char(c))
        }
    }
}

/// The matches of the scan from position `i` on: at each position the
/// scanner either takes a whole match and continues after it, or moves
/// one character ahead.
pub open spec fn links_from(s: Seq<char>, i: int) -> Seq<Seq<char>>
    decreases s.len() - i,
{
    if i < 0 || i >= s.len() {
        Seq::empty()
    } else {
        let e = match_end(s, i);
        if i < e <= s.len() {
            seq![s.subrange(i, e)] + links_from(s, e)
        } else {
            links_from(s, i + 1)
        }
    }
}

/// Every URL-shaped substring of `s`, in document order.
pub open spec fn spec_find_all_links(s: Seq<char>) -> Seq<Seq<char>> {
    links_from(s, 0)
}

fn is_host_char_x(c: char) -> (r: bool)
    ensures
        r == is_host_char(c),
{
    ('a' <= c && c <= 'z') || ('A' <= c && c <= 'Z') || ('0' <= c && c <= '9') || c == '-' || c
        == '@' || c == ':' || c == '%' || c == '.' || c == '_' || c == '+' || c == '~' || c == '#'
        || c == '='
}

fn is_label_char_x(c: char) -> (r: bool)
    ensures
        r == is_label_char(c),
{
    ('a' <= c && c <= 'z') || ('A' <= c && c <= 'Z') || ('0' <= c && c <= '9') || c == '(' || c
        == ')'
}

fn is_tail_char_x(c: char) -> (r: bool)
    ensures
        r == is_tail_char(c),
{
    ('a' <= c && c <= 'z') || ('A' <= c && c <= 'Z') || ('0' <= c && c <= '9') || c == '-' || c
        == '(' || c == ')' || c == '@' || c == ':' || c == '%' || c == '_' || c == '+' || c == '.'
        || c == '~' || c == '#' || c == '?' || c == '&' || c == '/' || c == '='
}

fn is_word_char_x(c: char) -> (r: bool)
    ensures
        r == is_word_char(c),
{
    ('a' <= c && c <= 'z') || ('A' <= c && c <= 'Z') || ('0' <= c && c <= '9') || c == '_'
}

/// Longest run of host characters from `i`, capped at 256.
fn run_host(v: &Vec<char>, i: usize) -> (r: usize)
    requires
        i <= v@.len(),
    ensures
        r == class_run(v@, i as int, 256, |c| is_host_char(c)),
        i + r <= v@.len(),
        r <= 256,
{
    let mut j = i;
    while j < v.len() && j - i < 256 && is_host_char_x(v[j])
        invariant
            i <= j <= v@.len(),
            j - i <= 256,
            class_run(v@, i as int, 256, |c| is_host_char(c)) == (j - i) + class_run(
                v@,
                j as int,
                256 - (j - i),
                |c| is_host_char(c),
            ),
        decreases v@.len() - j,
    {
        proof {
            assert(class_run(v@, j as int, 256 - (j - i), |c| is_host_char(c)) == 1 + class_run(
                v@,
                j + 1,
                256 - (j + 1 - i),
                |c| is_host_char(c),
            ));
        }
        j += 1;
    }
    proof {
        lemma_class_run_bounds(v@, i as int, 256, |c| is_host_char(c));
    }
    j - i
}

/// Longest run of label characters from `i`, capped at 6.
fn run_label(v: &Vec<char>, i: usize) -> (r: usize)
    requires
        i <= v@.len(),
    ensures
        r == class_run(v@, i as int, 6, |c| is_label_char(c)),
        i + r <= v@.len(),
        r <= 6,
{
    let mut j = i;
    while j < v.len() && j - i < 6 && is_label_char_x(v[j])
        invariant
            i <= j <= v@.len(),
            j - i <= 6,
            class_run(v@, i as int, 6, |c| is_label_char(c)) == (j - i) + class_run(
                v@,
                j as int,
                6 - (j - i),
                |c| is_label_char(c),
            ),
        decreases v@.len() - j,
    {
        proof {
            assert(class_run(v@, j as int, 6 - (j - i), |c| is_label_char(c)) == 1 + class_run(
                v@,
                j + 1,
                6 - (j + 1 - i),
                |c| is_label_char(c),
            ));
        }
        j += 1;
    }
    proof {
        lemma_class_run_bounds(v@, i as int, 6, |c| is_label_char(c));
    }
    j - i
}

/// Longest run of tail characters from `i`, to the end of the text.
fn run_tail(v: &Vec<char>, i: usize) -> (r: usize)
    requires
        i <= v@.len(),
    ensures
        r == class_run(v@, i as int, v@.len() - i, |c| is_tail_char(c)),
        i + r <= v@.len(),
{
    let ghost cap = v@.len() - i;
    let mut j = i;
    while j < v.len() && is_tail_char_x(v[j])
        invariant
            i <= j <= v@.len(),
            cap == v@.len() - i,
            class_run(v@, i as int, cap, |c| is_tail_char(c)) == (j - i) + class_run(
                v@,
                j as int,
                cap - (j - i),
                |c| is_tail_char(c),
            ),
        decreases v@.len() - j,
    {
        proof {
            assert(class_run(v@, j as int, cap - (j - i), |c| is_tail_char(c)) == 1 + class_run(
                v@,
                j + 1,
                cap - (j + 1 - i),
                |c| is_tail_char(c),
            ));
        }
        j += 1;
    }
    proof {
        lemma_class_run_bounds(v@, i as int, cap, |c| is_tail_char(c));
    }
    j - i
}

/// Whether a word boundary lies between positions `p - 1` and `p`.
fn boundary_x(v: &Vec<char>, p: usize) -> (r: bool)
    requires
        1 <= p <= v@.len(),
    ensures
        r == boundary_at(v@, p as int),
{
    let prev = is_word_char_x(v[p - 1]);
    let next = p < v.len() && is_word_char_x(v[p]);
    prev != next
}

/// End of the longest label of length at most `m` from `p` that ends
/// on a word boundary.
fn label_end_x(v: &Vec<char>, p: usize, m: usize) -> (r: Option<usize>)
    requires
        1 <= p,
        p + m <= v@.len(),
    ensures
        match r {
            Some(e) => e as int == label_end(v@, p as int, m as int) && p < e <= v@.len(),
            None => label_end(v@, p as int, m as int) == -1,
        },
    decreases m,
{
    let n = v.len();
    if m == 0 {
        None
    } else if boundary_x(v, p + m) {
        Some(p + m)
    } else {
        label_end_x(v, p, m - 1)
    }
}

/// End of a `host.label` match from `j` with host length at most `k`.
fn host_label_end_x(v: &Vec<char>, j: usize, k: usize) -> (r: Option<usize>)
    requires
        j + k <= v@.len(),
    ensures
        match r {
            Some(e) => e as int == host_label_end(v@, j as int, k as int) && j + 2 <= e
                <= v@.len(),
            None => host_label_end(v@, j as int, k as int) == -1,
        },
    decreases k,
{
    let n = v.len();
    if k == 0 {
        None
    } else {
        let dot = j + k < n && v[j + k] == '.';
        let e = if dot {
            let m = run_label(v, j + k + 1);
            label_end_x(v, j + k + 1, m)
        } else {
            None
        };
        match e {
            Some(e) => Some(e),
            None => host_label_end_x(v, j, k - 1),
        }
    }
}

/// Position after the scheme when the text carries `http://` or
/// `https://` at `i`.
fn scheme_end_x(v: &Vec<char>, i: usize) -> (r: Option<usize>)
    requires
        i <= v@.len(),
    ensures
        match r {
            Some(j) => j as int == scheme_end(v@, i as int) && i < j <= v@.len(),
            None => scheme_end(v@, i as int) == -1,
        },
{
    let n = v.len();
    if n - i >= 8 && v[i] == 'h' && v[i + 1] == 't' && v[i + 2] == 't' && v[i + 3] == 'p' && v[i
        + 4] == 's' && v[i + 5] == ':' && v[i + 6] == '/' && v[i + 7] == '/' {
        Some(i + 8)
    } else if n - i >= 7 && v[i] == 'h' && v[i + 1] == 't' && v[i + 2] == 't' && v[i + 3] == 'p'
        && v[i + 4] == ':' && v[i + 5] == '/' && v[i + 6] == '/' {
        Some(i + 7)
    } else {
        None
    }
}

/// End of a whole URL match starting at `i`.
fn match_end_x(v: &Vec<char>, i: usize) -> (r: Option<usize>)
    requires
        i <= v@.len(),
    ensures
        match r {
            Some(e) => e as int == match_end(v@, i as int) && i < e <= v@.len(),
            None => match_end(v@, i as int) == -1,
        },
{
    let j = match scheme_end_x(v, i) {
        Some(j) => j,
        None => { return None; },
    };
    let n = v.len();
    let www = n - j >= 4 && v[j] == 'w' && v[j + 1] == 'w' && v[j + 2] == 'w' && v[j + 3] == '.';
    let skipped = if www {
        let k = run_host(v, j + 4);
        host_label_end_x(v, j + 4, k)
    } else {
        None
    };
    let h = match skipped {
        Some(h) => h,
        None => {
            let k = run_host(v, j);
            match host_label_end_x(v, j, k) {
                Some(h) => h,
                None => { return None; },
            }
        },
    };
    let t = run_tail(v, h);
    Some(h + t)
}

/// The characters of `s`, in order.
pub(crate) fn chars_of(s: &str) -> (v: Vec<char>)
    ensures
        v@ == s@,
{
    let n = s.unicode_len();
    let mut v: Vec<char> = Vec::new();
    let mut i: usize = 0;
    while i < n
        invariant
            i <= n,
            n == s@.len(),
            v@ == s@.take(i as int),
        decreases n - i,
    {
        v.push(s.get_char(i));
        proof {
            assert(v@ =~= s@.take(i + 1));
        }
        i += 1;
    }
    proof {
        assert(s@.take(n as int) =~= s@);
    }
    v
}

/// Scan `content` for every URL-shaped substring, in document order,
/// duplicates included.
pub fn find_all_links(content: &str) -> (r: Vec<String>)
    ensures
        r.deep_view() == spec_find_all_links(content@),
{
    let v = chars_of(content);
    let mut out: Vec<String> = Vec::new();
    let mut i: usize = 0;
    while i < v.len()
        invariant
            i <= v@.len(),
            v@ == content@,
            out.deep_view() + links_from(content@, i as int) == spec_find_all_links(content@),
        decreases v@.len() - i,
    {
        let ghost prefix = out.deep_view();
        match match_end_x(&v, i) {
            Some(e) => {
                let sub = content.substring_char(i, e);
                out.push(sub.to_owned());
                proof {
                    assert(out.deep_view() =~= prefix.push(content@.subrange(i as int, e as int)));
                    assert(links_from(content@, i as int) == seq![
                        content@.subrange(i as int, e as int),
                    ] + links_from(content@, e as int));
                    assert(out.deep_view() + links_from(content@, e as int)
                        =~= prefix + links_from(content@, i as int));
                }
                i = e;
            },
            None => {
                proof {
                    assert(links_from(content@, i as int) == links_from(content@, i + 1));
                }
                i += 1;
            },
        }
    }
    proof {
        assert(out.deep_view() + links_from(content@, i as int) =~= out.deep_view());
    }
    out
}

} // verus!
