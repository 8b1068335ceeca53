//! Robots compliance: crawl-delay parsing and per-host policy.
//!
//! A [`RobotsPolicy`] holds the raw robots-file text of one host and
//! the crawl-delay derived from it.  [`crawl_delay`] scans the text
//! for the last case-insensitive `Crawl-delay:` directive and parses
//! the integer that follows; a missing or malformed directive yields
//! zero, never a failure.  [`RobotsPolicy::from_fetch`] builds the
//! policy from a fetched robots file, falling back to a full-allow
//! text when the fetch failed, so that an unreachable robots file
//! never stalls a crawl; over-long lines of the fetched text are
//! truncated first ([`truncate_long_lines`]), keeping the text within
//! what the outside matcher handles.  Whether a URL is allowed for an
//! agent is answered by the robots-exclusion matcher of the
//! `robotstxt` crate.

use vstd::prelude::*;
use crate::links::chars_of;
use crate::links::class_run;
use vstd::string::StringExecFns;

verus! {

/// Decimal digits.
pub open spec fn is_digit(c: char) -> bool {
    '0' <= c && c <= '9'
}

/// ASCII whitespace, as may separate a directive from its value.
pub open spec fn is_space_char(c: char) -> bool {
    c == ' ' || c == '\t' || c == '\n' || c == '\r' || c == '\u{b}' || c == '\u{c}'
}

/// Case-insensitive match of one character.
pub open spec fn ci(c: char, lower: char, upper: char) -> bool {
    c == lower || c == upper
}

/// Whether `s` carries a case-insensitive `Crawl-delay:` directive at
/// position `i`.
pub open spec fn directive_at(s: Seq<char>, i: int) -> bool {
    &&& i + 12 <= s.len()
    &&& ci(s[i], 'c', 'C')
    &&& ci(s[i + 1], 'r', 'R')
    &&& ci(s[i + 2], 'a', 'A')
    &&& ci(s[i + 3], 'w', 'W')
    &&& ci(s[i + 4], 'l', 'L')
    &&& s[i + 5] == '-'
    &&& ci(s[i + 6], 'd', 'D')
    &&& ci(s[i + 7], 'e', 'E')
    &&& ci(s[i + 8], 'l', 'L')
    &&& ci(s[i + 9], 'a', 'A')
    &&& ci(s[i + 10], 'y', 'Y')
    &&& s[i + 11] == ':'
}

/// Start of the directive's value: one optional whitespace character
/// after the colon is skipped.
pub open spec fn value_start(s: Seq<char>, i: int) -> int {
    if i + 12 < s.len() && is_space_char(s[i + 12]) {
        i + 13
    } else {
        i + 12
    }
}

/// Numeric value of the `n` digits of `s` starting at `p`.
pub open spec fn digits_value(s: Seq<char>, p: int, n: int) -> int
    decreases n,
{
    if n <= 0 {
        0
    } else {
        digits_value(s, p, n - 1) * 10 + (s[p + n - 1] as u32 - 48)
    }
}

/// Value of the directive at `i`: up to four digits after the colon
/// and optional whitespace; no digit at all means the directive is
/// malformed.
pub open spec fn delay_value_at(s: Seq<char>, i: int) -> Option<int> {
    let p = value_start(s, i);
    let n = class_run(s, p, 4, |c| is_digit(c));
    if n == 0 {
        Option::None
    } else {
        Option::Some(digits_value(s, p, n))
    }
}

/// Position of the last directive strictly before `upto`, or `-1`.
pub open spec fn last_directive(s: Seq<char>, upto: int) -> int
    decreases upto,
{
    if upto <= 0 {
        -1
    } else if directive_at(s, upto - 1) {
        upto - 1
    } else {
        last_directive(s, upto - 1)
    }
}

/// The crawl-delay of a robots-file text: the parsed value of the last
/// `Crawl-delay:` directive, or zero when there is none or its value
/// is malformed.
pub open spec fn spec_crawl_delay(s: Seq<char>) -> int {
    let i = last_directive(s, s.len() as int);
    if i < 0 {
        0
    } else {
        match delay_value_at(s, i) {
            Option::None => 0,
            Option::Some(v) => v,
        }
    }
}

fn is_digit_x(c: char) -> (r: bool)
    ensures
        r == is_digit(c),
{
    '0' <= c && c <= '9'
}

fn is_space_char_x(c: char) -> (r: bool)
    ensures
        r == is_space_char(c),
{
    c == ' ' || c == '\t' || c == '\n' || c == '\r' || c == '\u{b}' || c == '\u{c}'
}

/// Whether the text carries a `Crawl-delay:` directive at `i`.
fn directive_at_x(v: &Vec<char>, i: usize) -> (r: bool)
    requires
        i < v@.len(),
    ensures
        r == directive_at(v@, i as int),
{
    let n = v.len();
    n - i >= 12 && (v[i] == 'c' || v[i] == 'C') && (v[i + 1] == 'r' || v[i + 1] == 'R') && (v[i
        + 2] == 'a' || v[i + 2] == 'A') && (v[i + 3] == 'w' || v[i + 3] == 'W') && (v[i + 4] == 'l'
        || v[i + 4] == 'L') && v[i + 5] == '-' && (v[i + 6] == 'd' || v[i + 6] == 'D') && (v[i + 7]
        == 'e' || v[i + 7] == 'E') && (v[i + 8] == 'l' || v[i + 8] == 'L') && (v[i + 9] == 'a'
        || v[i + 9] == 'A') && (v[i + 10] == 'y' || v[i + 10] == 'Y') && v[i + 11] == ':'
}

/// Longest run of digits from `p`, capped at 4.
fn run_digits(v: &Vec<char>, p: usize) -> (r: usize)
    requires
        p <= v@.len(),
    ensures
        r == class_run(v@, p as int, 4, |c| is_digit(c)),
        p + r <= v@.len(),
        r <= 4,
{
    let mut j = p;
    while j < v.len() && j - p < 4 && is_digit_x(v[j])
        invariant
            p <= j <= v@.len(),
            j - p <= 4,
            class_run(v@, p as int, 4, |c| is_digit(c)) == (j - p) + class_run(
                v@,
                j as int,
                4 - (j - p),
                |c| is_digit(c),
            ),
        decreases v@.len() - j,
    {
        proof {
            assert(class_run(v@, j as int, 4 - (j - p), |c| is_digit(c)) == 1 + class_run(
                v@,
                j + 1,
                4 - (j + 1 - p),
                |c| is_digit(c),
            ));
        }
        j += 1;
    }
    proof {
        crate::links::lemma_class_run_bounds(v@, p as int, 4, |c| is_digit(c));
    }
    j - p
}

/// The crawl-delay of a robots-file text, in whole seconds: the value
/// of the last case-insensitive `Crawl-delay:` directive, reading one
/// optional whitespace character and then up to four digits; a text
/// without such a directive, or one whose value starts with no digit,
/// yields zero.
pub fn crawl_delay(text: &str) -> (r: u64)
    ensures
        r as int == spec_crawl_delay(text@),
        r <= 9999,
{
    let v = chars_of(text);
    let n = v.len();
    let mut found: Option<usize> = Option::None;
    let mut i: usize = 0;
    while i < n
        invariant
            i <= n,
            n == v@.len(),
            v@ == text@,
            match found {
                Option::Some(d) => d as int == last_directive(v@, i as int),
                Option::None => last_directive(v@, i as int) == -1,
            },
        decreases n - i,
    {
        if directive_at_x(&v, i) {
            found = Option::Some(i);
        }
        proof {
            assert(last_directive(v@, i + 1) == if directive_at(v@, i as int) {
                i as int
            } else {
                last_directive(v@, i as int)
            });
        }
        i += 1;
    }
    let d = match found {
        Option::Some(d) => d,
        Option::None => {
            return 0;
        },
    };
    proof {
        lemma_last_directive(v@, n as int);
    }
    // Skip one optional whitespace character after the colon.
    let p = if d + 12 < n && is_space_char_x(v[d + 12]) {
        d + 13
    } else {
        d + 12
    };
    assert(p as int == value_start(v@, d as int));
    let m = run_digits(&v, p);
    if m == 0 {
        return 0;
    }
    let mut val: u64 = 0;
    let mut j: usize = 0;
    while j < m
        invariant
            j <= m,
            m <= 4,
            n == v@.len(),
            p + m <= v@.len(),
            m as int == class_run(v@, p as int, 4, |c| is_digit(c)),
            val as int == digits_value(v@, p as int, j as int),
            val <= 9999,
        decreases m - j,
    {
        proof {
            lemma_digit_run_cap(v@, p as int, 4, m as int, j as int);
            lemma_digits_value_bound(v@, p as int, j as int, 4);
        }
        let c = v[p + j];
        val = val * 10 + ((c as u32 as u64) - 48);
        proof {
            assert(val as int == digits_value(v@, p as int, j + 1));
        }
        j += 1;
    }
    val
}

/// A found last directive is a directive and fits in the text.
proof fn lemma_last_directive(s: Seq<char>, upto: int)
    requires
        upto <= s.len(),
    ensures
        last_directive(s, upto) == -1 || (0 <= last_directive(s, upto) && last_directive(s, upto)
            + 12 <= s.len() && directive_at(s, last_directive(s, upto))),
    decreases upto,
{
    if upto > 0 && !directive_at(s, upto - 1) {
        lemma_last_directive(s, upto - 1);
    }
}

/// Digit strings of up to four digits stay below ten thousand.
proof fn lemma_digits_value_bound(s: Seq<char>, p: int, n: int, cap: int)
    requires
        0 <= p,
        0 <= n <= class_run(s, p, cap, |c| is_digit(c)),
    ensures
        0 <= digits_value(s, p, n),
        n == 0 ==> digits_value(s, p, n) == 0,
        n == 1 ==> digits_value(s, p, n) <= 9,
        n == 2 ==> digits_value(s, p, n) <= 99,
        n == 3 ==> digits_value(s, p, n) <= 999,
        n == 4 ==> digits_value(s, p, n) <= 9999,
    decreases n,
{
    if n > 0 {
        lemma_digits_value_bound(s, p, n - 1, cap);
        lemma_digit_run_cap(s, p, cap, n, n - 1);
    }
}

/// Every position inside a digit run holds a digit.
proof fn lemma_digit_run_cap(s: Seq<char>, p: int, cap: int, m: int, j: int)
    requires
        0 <= p,
        0 <= j < m,
        m <= class_run(s, p, cap, |c| is_digit(c)),
    ensures
        p + j < s.len(),
        is_digit(s[p + j]),
        48 <= s[p + j] as u32 <= 57,
    decreases j,
{
    if j == 0 {
        assert(class_run(s, p, cap, |c| is_digit(c)) > 0);
        assert(is_digit(s[p]));
    } else {
        assert(class_run(s, p, cap, |c| is_digit(c)) == 1 + class_run(
            s,
            p + 1,
            cap - 1,
            |c| is_digit(c),
        ));
        lemma_digit_run_cap(s, p + 1, cap - 1, m - 1, j - 1);
    }
}

/// Whether some character of the `window`-long stretch of `s`
/// starting at `i` is a newline.
pub open spec fn window_has_newline(s: Seq<char>, i: int, window: int) -> bool {
    exists|j: int| i <= j < i + window && s[j] == '\n'
}

/// Every stretch of `window` consecutive characters contains a
/// newline: every line of `s` is shorter than `window` characters.
pub open spec fn lines_bounded(s: Seq<char>, window: int) -> bool {
    forall|i: int|
        0 <= i && i + window <= s.len() ==> #[trigger] window_has_newline(s, i, window)
}

/// Position of the first newline of `s` at or after `pos`, or
/// `s.len()` if there is none.
pub open spec fn line_end(s: Seq<char>, pos: int) -> int
    decreases s.len() - pos,
{
    if pos < 0 || pos >= s.len() {
        s.len() as int
    } else if s[pos] == '\n' {
        pos
    } else {
        line_end(s, pos + 1)
    }
}

/// The text from `pos` on with every line cut to its first `keep`
/// characters; the newlines themselves are kept.
pub open spec fn truncate_from(s: Seq<char>, pos: int, keep: int) -> Seq<char>
    decreases s.len() - pos,
{
    if pos < 0 || pos >= s.len() {
        Seq::empty()
    } else {
        let e = line_end(s, pos);
        let kept = if e - pos <= keep {
            e - pos
        } else {
            keep
        };
        if pos <= e && e < s.len() {
            s.subrange(pos, pos + kept) + seq!['\n'] + truncate_from(s, e + 1, keep)
        } else {
            s.subrange(pos, pos + kept)
        }
    }
}

/// The text with every line cut to its first `keep` characters.
pub open spec fn spec_truncate_lines(s: Seq<char>, keep: int) -> Seq<char> {
    truncate_from(s, 0, keep)
}

/// A line's end lies between its start and the end of the text, only
/// newline-free characters stand before it, and it holds a newline
/// unless the text ended first.
proof fn lemma_line_end(s: Seq<char>, pos: int)
    requires
        0 <= pos <= s.len(),
    ensures
        pos <= line_end(s, pos) <= s.len(),
        forall|j: int| pos <= j < line_end(s, pos) ==> s[j] != '\n',
        line_end(s, pos) < s.len() ==> s[line_end(s, pos)] == '\n',
    decreases s.len() - pos,
{
    if pos < s.len() && s[pos] != '\n' {
        lemma_line_end(s, pos + 1);
    }
}

/// `line_end` is the first newline-or-end position.
proof fn lemma_line_end_at(s: Seq<char>, pos: int, e: int)
    requires
        0 <= pos <= e <= s.len(),
        forall|j: int| pos <= j < e ==> s[j] != '\n',
        e < s.len() ==> s[e] == '\n',
    ensures
        line_end(s, pos) == e,
    decreases e - pos,
{
    if pos < e {
        lemma_line_end_at(s, pos + 1, e);
    }
}

/// A text whose lines are already bounded is left unchanged by the
/// truncation.
proof fn lemma_truncate_id_from(s: Seq<char>, pos: int, keep: int)
    requires
        0 <= pos <= s.len(),
        keep >= 0,
        lines_bounded(s, keep + 1),
    ensures
        truncate_from(s, pos, keep) == s.skip(pos),
    decreases s.len() - pos,
{
    lemma_line_end(s, pos);
    let e = line_end(s, pos);
    if pos >= s.len() {
        assert(s.skip(pos) =~= Seq::<char>::empty());
    } else {
        if e - pos > keep {
            assert(window_has_newline(s, pos, keep + 1));
            let j = choose|j: int| pos <= j < pos + (keep + 1) && s[j] == '\n';
            assert(false);
        }
        if e < s.len() {
            lemma_truncate_id_from(s, e + 1, keep);
            assert(truncate_from(s, pos, keep) =~= s.skip(pos));
        } else {
            assert(truncate_from(s, pos, keep) =~= s.skip(pos));
        }
    }
}

/// The truncation leaves every line shorter than `keep + 1`
/// characters.
proof fn lemma_truncate_bounded_from(s: Seq<char>, pos: int, keep: int)
    requires
        0 <= pos <= s.len(),
        keep >= 0,
    ensures
        lines_bounded(truncate_from(s, pos, keep), keep + 1),
    decreases s.len() - pos,
{
    lemma_line_end(s, pos);
    let e = line_end(s, pos);
    let r = truncate_from(s, pos, keep);
    if pos < s.len() {
        let kept = if e - pos <= keep {
            e - pos
        } else {
            keep
        };
        if e < s.len() {
            let rest = truncate_from(s, e + 1, keep);
            lemma_truncate_bounded_from(s, e + 1, keep);
            assert(r.len() == kept + 1 + rest.len());
            assert(r[kept] == '\n');
            assert forall|i: int| 0 <= i && i + (keep + 1) <= r.len() implies #[trigger]
            window_has_newline(r, i, keep + 1) by {
                if i <= kept {
                    assert(r[kept] == '\n');
                } else {
                    assert(window_has_newline(rest, i - kept - 1, keep + 1));
                    let j = choose|j: int|
                        i - kept - 1 <= j < i - kept - 1 + (keep + 1) && rest[j] == '\n';
                    assert(r[j + kept + 1] == '\n');
                }
            }
        }
    }
}

/// Cut every line of `text` to its first 4095 characters; shorter
/// lines, and the newlines themselves, are kept as they are.  The
/// robots matcher of the outside crate reads each line up to a fixed
/// byte budget and loses track of character boundaries past it; lines
/// kept under 4096 characters stay under that budget whatever their
/// encoding, so a sanitized text is safe to hand to it.
pub fn truncate_long_lines(text: &str) -> (r: String)
    ensures
        r@ == spec_truncate_lines(text@, 4095),
        lines_bounded(r@, 4096),
        lines_bounded(text@, 4096) ==> r@ == text@,
{
    let v = chars_of(text);
    let n = v.len();
    let mut out = String::new();
    let mut pos: usize = 0;
    while pos < n
        invariant
            pos <= n,
            n == text@.len(),
            v@ == text@,
            spec_truncate_lines(text@, 4095) == out@ + truncate_from(text@, pos as int, 4095),
        decreases n - pos,
    {
        let mut e = pos;
        while e < n && v[e] != '\n'
            invariant
                pos <= e <= n,
                n == text@.len(),
                v@ == text@,
                forall|j: int| pos <= j < e ==> text@[j] != '\n',
            decreases n - e,
        {
            e += 1;
        }
        proof {
            lemma_line_end_at(text@, pos as int, e as int);
        }
        let keep = if e - pos > 4095 {
            4095
        } else {
            e - pos
        };
        let ghost before = out@;
        let piece = text.substring_char(pos, pos + keep);
        out.append(piece);
        if e < n {
            out.append("\n");
            proof {
                reveal_strlit("\n");
                assert("\n"@ =~= seq!['\n']);
                assert(truncate_from(text@, pos as int, 4095) == text@.subrange(
                    pos as int,
                    pos + keep,
                ) + seq!['\n'] + truncate_from(text@, e + 1, 4095));
                assert(out@ =~= before + text@.subrange(pos as int, pos + keep) + seq!['\n']);
                assert(out@ + truncate_from(text@, e + 1, 4095) =~= before + truncate_from(
                    text@,
                    pos as int,
                    4095,
                ));
            }
            pos = e + 1;
        } else {
            proof {
                assert(truncate_from(text@, pos as int, 4095) == text@.subrange(
                    pos as int,
                    pos + keep,
                ));
                assert(out@ + truncate_from(text@, e as int, 4095) =~= before + truncate_from(
                    text@,
                    pos as int,
                    4095,
                ));
            }
            pos = e;
        }
    }
    proof {
        assert(out@ + truncate_from(text@, pos as int, 4095) =~= out@);
        lemma_truncate_bounded_from(text@, 0, 4095);
        if lines_bounded(text@, 4096) {
            lemma_truncate_id_from(text@, 0, 4095);
            assert(text@.skip(0) =~= text@);
        }
    }
    out
}

/// The robots text a fetch outcome yields before sanitizing: the
/// fetched text, or the full-allow fallback.
pub open spec fn spec_fetched_text(fetched: Option<String>) -> Seq<char> {
    match fetched {
        Option::Some(t) => t@,
        Option::None => "User-agent: *\nAllow: /\n"@,
    }
}

/// The robots text a policy stores: the fetch outcome's text with
/// over-long lines truncated.
pub open spec fn spec_policy_text(fetched: Option<String>) -> Seq<char> {
    spec_truncate_lines(spec_fetched_text(fetched), 4095)
}

/// What an outside robots-exclusion matcher answers for the given
/// robots-file text, agent name and URL.
pub uninterp spec fn robots_allows(robots: Seq<char>, agent: Seq<char>, url: Seq<char>) -> bool;

/// Relies on robotstxt's `RobotsMatcher::one_agent_allowed_by_robots`:
/// the standard robots-exclusion verdict for one agent and one URL,
/// a function of the three arguments alone.  Its parser slices lines
/// at a byte budget of 16,663 and can misplace the cut inside a
/// multibyte character on a longer line, so only texts whose lines
/// stay under 4096 characters (at most 16,380 bytes) are admitted.
#[verifier::external_body]
fn robots_query(robots: &str, agent: &str, url: &str) -> (r: bool)
    requires
        lines_bounded(robots@, 4096),
    ensures
        r == robots_allows(robots@, agent@, url@),
{
    let mut matcher = robotstxt::DefaultMatcher::default();
    matcher.one_agent_allowed_by_robots(robots, agent, url)
}

/// The robots-file URL of a host: `/robots.txt` at its HTTPS root.
pub fn robots_url(host: &str) -> (r: String)
    ensures
        r@ == "https://"@ + host@ + "/robots.txt"@,
{
    "https://".to_owned().concat(host).concat("/robots.txt")
}

/// The robots rules of one host: the raw robots-file text and the
/// crawl-delay derived from it.
pub struct RobotsPolicy {
    /// The robots-file text the policy was built from.
    pub text: String,
    /// The derived crawl-delay, in whole seconds.
    pub delay: u64,
}

impl RobotsPolicy {
    /// The derived delay always matches the text, and the text's lines
    /// are bounded, as the outside matcher needs them.
    pub open spec fn wf(self) -> bool {
        &&& self.delay as int == spec_crawl_delay(self.text@)
        &&& lines_bounded(self.text@, 4096)
    }

    /// Build the policy of a host from the outcome of fetching its
    /// robots file: the fetched text when there is one, else a
    /// full-allow fallback, so an unreachable robots file never stalls
    /// the crawl.  Over-long lines of the fetched text are truncated
    /// ([`truncate_long_lines`]); a text whose lines are already
    /// bounded is stored as it came.
    pub fn from_fetch(fetched: Option<String>) -> (r: RobotsPolicy)
        ensures
            r.wf(),
            r.text@ == spec_policy_text(fetched),
            lines_bounded(spec_fetched_text(fetched), 4096) ==> r.text@ == spec_fetched_text(
                fetched,
            ),
    {
        let raw = match fetched {
            Option::Some(t) => t,
            Option::None => "User-agent: *\nAllow: /\n".to_owned(),
        };
        let text = truncate_long_lines(raw.as_str());
        let delay = crawl_delay(text.as_str());
        RobotsPolicy { text, delay }
    }

    /// Whether `url` may be fetched by `agent` under this policy, by
    /// standard robots-exclusion evaluation.
    pub fn is_allowed(&self, agent: &str, url: &str) -> (r: bool)
        requires
            self.wf(),
        ensures
            r == robots_allows(self.text@, agent@, url@),
    {
        robots_query(self.text.as_str(), agent, url)
    }
}

} // verus!
