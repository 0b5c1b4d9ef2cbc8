use vstd::prelude::*;

use crate::error::CheckpwnError;
use crate::digest::is_digest_text;
use crate::route::{digest_prefix, PREFIX_LEN};
use crate::text::{chars_of, string_from_chars, upper_chars, upper_string_from_chars};

verus! {

/// One `SUFFIX:COUNT` line of a password-range response.
///
/// A count of zero marks padding: a decoy the service adds so that the size
/// of the answer says nothing, which never counts as a match.
#[derive(Debug, Clone, PartialEq, Eq)]
pub struct RangeCandidate {
    /// The digest suffix, in upper case.
    pub suffix: String,
    /// How often the password was seen in breaches.
    pub count: u64,
}

impl View for RangeCandidate {
    type V = (Seq<char>, u64);

    open spec fn view(&self) -> (Seq<char>, u64) {
        (self.suffix@, self.count)
    }
}

pub open spec fn candidates_view(v: Seq<RangeCandidate>) -> Seq<(Seq<char>, u64)> {
    v.map_values(|c: RangeCandidate| c@)
}

/// The position of the first `c` in `s`, or the length of `s` when there is none.
pub open spec fn index_of(s: Seq<char>, c: char) -> nat
    decreases s.len(),
{
    if s.len() == 0 {
        0
    } else if s[0] == c {
        0
    } else {
        1 + index_of(s.skip(1), c)
    }
}

/// A line without the `\r` of a `\r\n` line ending.
pub open spec fn strip_cr(line: Seq<char>) -> Seq<char> {
    if line.len() > 0 && line.last() == '\r' {
        line.drop_last()
    } else {
        line
    }
}

pub open spec fn is_digit(c: char) -> bool {
    '0' <= c && c <= '9'
}

pub open spec fn digit_value(c: char) -> nat {
    ((c as u32) - ('0' as u32)) as nat
}

/// The number that a string of decimal digits stands for.
pub open spec fn decimal_value(t: Seq<char>) -> nat
    decreases t.len(),
{
    if t.len() == 0 {
        0
    } else {
        decimal_value(t.drop_last()) * 10 + digit_value(t.last())
    }
}

/// A count: one or more decimal digits whose value fits in a `u64`.
pub open spec fn is_count_text(t: Seq<char>) -> bool {
    &&& t.len() > 0
    &&& forall|i: int| 0 <= i < t.len() ==> is_digit(#[trigger] t[i])
    &&& decimal_value(t) <= u64::MAX
}

/// One non-empty line: the suffix before the first `:`, in upper case, and
/// the count after it; `None` when there is no `:` or the count is not a
/// number.
pub open spec fn parse_line(line: Seq<char>) -> Option<(Seq<char>, u64)> {
    let ci = index_of(line, ':');
    if ci < line.len() && is_count_text(line.skip((ci + 1) as int)) {
        Some((upper_chars(line.take(ci as int)), decimal_value(line.skip((ci + 1) as int)) as u64))
    } else {
        None
    }
}

/// `head` followed by the candidates of `tail`, or `None` when `tail` failed.
pub open spec fn prefixed(
    head: Seq<(Seq<char>, u64)>,
    tail: Option<Seq<(Seq<char>, u64)>>,
) -> Option<Seq<(Seq<char>, u64)>> {
    match tail {
        Some(t) => Some(head + t),
        None => None,
    }
}

/// A response body: lines separated by `\n`, each possibly ending in `\r`.
/// Empty lines are skipped; every other line must parse, or the whole body is
/// rejected. The candidates keep the order of the lines.
pub open spec fn parse_body(s: Seq<char>) -> Option<Seq<(Seq<char>, u64)>>
    decreases s.len(),
{
    if s.len() == 0 {
        Some(seq![])
    } else {
        let ni = index_of(s, '\n');
        let line = strip_cr(s.take(ni as int));
        let rest = if ni < s.len() {
            s.skip((ni + 1) as int)
        } else {
            seq![]
        };
        if line.len() == 0 {
            parse_body(rest)
        } else {
            match parse_line(line) {
                Some(c) => prefixed(seq![c], parse_body(rest)),
                None => None,
            }
        }
    }
}

/// What parsing a body gives: the candidates, or `MalformedRangeResponse`.
pub open spec fn parse_result(s: Seq<char>) -> Result<Seq<(Seq<char>, u64)>, CheckpwnError> {
    match parse_body(s) {
        Some(cs) => Ok(cs),
        None => Err(CheckpwnError::MalformedRangeResponse),
    }
}

pub proof fn lemma_index_of(s: Seq<char>, c: char, j: int)
    requires
        0 <= j <= s.len(),
        forall|k: int| 0 <= k < j ==> s[k] != c,
        j == s.len() || s[j] == c,
    ensures
        index_of(s, c) == j,
    decreases j,
{
    if j > 0 {
        lemma_index_of(s.skip(1), c, j - 1);
    }
}

/// The value of a digit string is at least that of any of its prefixes.
pub proof fn lemma_decimal_value_prefix(t: Seq<char>, k: int)
    requires
        0 <= k <= t.len(),
    ensures
        decimal_value(t.take(k)) <= decimal_value(t),
    decreases t.len(),
{
    if k < t.len() {
        lemma_decimal_value_prefix(t.drop_last(), k);
        assert(t.drop_last().take(k) == t.take(k));
    } else {
        assert(t.take(k) == t);
    }
}

/// The count in `cs[from..to]`, if it is one.
fn parse_count(cs: &Vec<char>, from: usize, to: usize) -> (r: Option<u64>)
    requires
        from <= to <= cs@.len(),
    ensures
        is_count_text(cs@.subrange(from as int, to as int)) ==> r == Some(
            decimal_value(cs@.subrange(from as int, to as int)) as u64,
        ),
        !is_count_text(cs@.subrange(from as int, to as int)) ==> r is None,
{
    let ghost t = cs@.subrange(from as int, to as int);
    if from == to {
        return None;
    }
    let mut v: u64 = 0;
    let mut i: usize = from;
    while i < to
        invariant
            from <= i <= to <= cs@.len(),
            t == cs@.subrange(from as int, to as int),
            forall|k: int| 0 <= k < i - from ==> is_digit(#[trigger] t[k]),
            v == decimal_value(t.take(i - from)),
        decreases to - i,
    {
        let c = cs[i];
        if !('0' <= c && c <= '9') {
            assert(!is_digit(t[i - from]));
            return None;
        }
        let d = ((c as u32) - ('0' as u32)) as u64;
        proof {
            assert(t.take(i - from + 1).drop_last() == t.take(i - from));
            assert(t.take(i - from + 1).last() == c);
        }
        match v.checked_mul(10) {
            None => {
                proof {
                    lemma_decimal_value_prefix(t, i - from + 1);
                }
                return None;
            },
            Some(m) => match m.checked_add(d) {
                None => {
                    proof {
                        lemma_decimal_value_prefix(t, i - from + 1);
                    }
                    return None;
                },
                Some(n) => {
                    v = n;
                },
            },
        }
        i = i + 1;
    }
    proof {
        assert(t.take(i - from) == t);
    }
    Some(v)
}

/// The candidate on the non-empty line `cs[from..to]`, if it is one.
fn parse_line_chars(cs: &Vec<char>, from: usize, to: usize) -> (r: Option<RangeCandidate>)
    requires
        from <= to <= cs@.len(),
    ensures
        match parse_line(cs@.subrange(from as int, to as int)) {
            Some(c) => r is Some && r->0@ == c,
            None => r is None,
        },
{
    let ghost line = cs@.subrange(from as int, to as int);
    let mut i: usize = from;
    while i < to && cs[i] != ':'
        invariant
            from <= i <= to <= cs@.len(),
            line == cs@.subrange(from as int, to as int),
            forall|k: int| 0 <= k < i - from ==> line[k] != ':',
        decreases to - i,
    {
        i = i + 1;
    }
    proof {
        lemma_index_of(line, ':', i - from);
    }
    if i == to {
        return None;
    }
    proof {
        assert(line.skip(i - from + 1) == cs@.subrange(i + 1, to as int));
        assert(line.take(i - from) == cs@.subrange(from as int, i as int));
    }
    match parse_count(cs, i + 1, to) {
        None => None,
        Some(count) => {
            let suffix = upper_string_from_chars(cs, from, i);
            Some(RangeCandidate { suffix, count })
        },
    }
}

/// Parses a password-range response body into its candidates, in line order.
///
/// Lines are separated by `\n` and may end in `\r`; empty lines are skipped.
/// Every other line must be `SUFFIX:COUNT`, split at its first `:`, with a
/// decimal count: otherwise the whole body is rejected with
/// `MalformedRangeResponse`. Suffixes are brought to upper case.
pub fn parse_range_response(body: &str) -> (r: Result<Vec<RangeCandidate>, CheckpwnError>)
    ensures
        match r {
            Ok(v) => parse_result(body@) == Ok::<_, CheckpwnError>(candidates_view(v@)),
            Err(e) => parse_result(body@) == Err::<Seq<(Seq<char>, u64)>, _>(e),
        },
{
    let cs = chars_of(body);
    let mut out: Vec<RangeCandidate> = Vec::new();
    let mut start: usize = 0;
    proof {
        assert(cs@.skip(0) == cs@);
        let all = parse_body(body@);
        if all is Some {
            assert(Seq::<(Seq<char>, u64)>::empty() + all->0 == all->0);
        }
    }
    while start < cs.len()
        invariant
            start <= cs@.len(),
            cs@ == body@,
            parse_body(body@) == prefixed(
                candidates_view(out@),
                parse_body(cs@.skip(start as int)),
            ),
        decreases cs.len() - start,
    {
        let ghost s = cs@.skip(start as int);
        let mut end: usize = start;
        while end < cs.len() && cs[end] != '\n'
            invariant
                start <= end <= cs@.len(),
                s == cs@.skip(start as int),
                forall|k: int| 0 <= k < end - start ==> s[k] != '\n',
            decreases cs.len() - end,
        {
            end = end + 1;
        }
        proof {
            lemma_index_of(s, '\n', end - start);
        }
        let line_end = if end > start && cs[end - 1] == '\r' {
            end - 1
        } else {
            end
        };
        let ghost line = strip_cr(s.take(end - start));
        let ghost rest = if end < cs.len() {
            s.skip(end - start + 1)
        } else {
            seq![]
        };
        let next = if end < cs.len() {
            end + 1
        } else {
            end
        };
        proof {
            assert(line == cs@.subrange(start as int, line_end as int));
            assert(rest == cs@.skip(next as int));
        }
        if line_end > start {
            match parse_line_chars(&cs, start, line_end) {
                None => {
                    return Err(CheckpwnError::MalformedRangeResponse);
                },
                Some(c) => {
                    let ghost before = candidates_view(out@);
                    out.push(c);
                    proof {
                        assert(candidates_view(out@) == before + seq![c@]);
                        let tail = parse_body(rest);
                        if tail is Some {
                            assert(before + (seq![c@] + tail->0) == candidates_view(out@)
                                + tail->0);
                        }
                    }
                },
            }
        }
        start = next;
    }
    proof {
        assert(cs@.skip(start as int) == Seq::<char>::empty());
        assert(candidates_view(out@) + Seq::<(Seq<char>, u64)>::empty() == candidates_view(
            out@,
        ));
    }
    Ok(out)
}

/// Whether a non-padding candidate carries the suffix `target`, compared in
/// upper case.
pub open spec fn spec_matches(cands: Seq<(Seq<char>, u64)>, target: Seq<char>) -> bool {
    exists|i: int|
        0 <= i < cands.len() && (#[trigger] cands[i]).1 != 0 && cands[i].0 == upper_chars(target)
}

/// Whether `target_suffix` is among the candidates whose count is not zero.
///
/// Every candidate is looked at, padding included; the suffixes are expected
/// in upper case, as `parse_range_response` leaves them, and the target is
/// brought to upper case before the comparison.
pub fn candidates_match(candidates: &Vec<RangeCandidate>, target_suffix: &str) -> (r: bool)
    ensures
        r == spec_matches(candidates_view(candidates@), target_suffix@),
{
    let tcs = chars_of(target_suffix);
    let target = upper_string_from_chars(&tcs, 0, tcs.len());
    proof {
        assert(tcs@.subrange(0, tcs@.len() as int) == target_suffix@);
    }
    let ghost cv = candidates_view(candidates@);
    let mut found = false;
    let mut i: usize = 0;
    while i < candidates.len()
        invariant
            i <= candidates@.len(),
            cv == candidates_view(candidates@),
            target@ == upper_chars(target_suffix@),
            found == exists|j: int|
                0 <= j < i && (#[trigger] cv[j]).1 != 0 && cv[j].0 == upper_chars(
                    target_suffix@,
                ),
        decreases candidates.len() - i,
    {
        let c = &candidates[i];
        if c.count != 0 && c.suffix == target {
            found = true;
        }
        proof {
            assert(cv[i as int] == c@);
        }
        i = i + 1;
    }
    found
}

/// The part of a digest that is never sent: what follows the first five
/// characters.
pub open spec fn digest_suffix(d: Seq<char>) -> Seq<char> {
    if d.len() <= PREFIX_LEN {
        seq![]
    } else {
        d.skip(PREFIX_LEN as int)
    }
}

/// The characters of `digest` after the first five.
pub fn suffix_of(digest: &str) -> (r: String)
    ensures
        r@ == digest_suffix(digest@),
{
    let cs = chars_of(digest);
    let from = if cs.len() <= PREFIX_LEN {
        cs.len()
    } else {
        PREFIX_LEN
    };
    let r = string_from_chars(&cs, from, cs.len());
    proof {
        if cs@.len() <= PREFIX_LEN {
            assert(r@ == Seq::<char>::empty());
        }
    }
    r
}

/// What a lookup of `digest` in the response `body` gives.
pub open spec fn spec_search(body: Seq<char>, digest: Seq<char>) -> Result<bool, CheckpwnError> {
    match parse_body(body) {
        Some(cs) => Ok(spec_matches(cs, digest_suffix(digest))),
        None => Err(CheckpwnError::MalformedRangeResponse),
    }
}

/// Looks the digest `hashed_key` up in a password-range response: its suffix
/// after the five characters that were sent is matched against the
/// non-padding candidates.
pub fn search_in_range(password_range_response: &str, hashed_key: &str) -> (r: Result<
    bool,
    CheckpwnError,
>)
    ensures
        r == spec_search(password_range_response@, hashed_key@),
{
    match parse_range_response(password_range_response) {
        Err(e) => Err(e),
        Ok(candidates) => {
            let suffix = suffix_of(hashed_key);
            Ok(candidates_match(&candidates, suffix.as_str()))
        },
    }
}

/// The decimal digit for `d`, which is below 10.
pub open spec fn digit_char(d: nat) -> char {
    (('0' as u32) + d) as u8 as char
}

/// `n` in decimal, most significant digit first, without leading zeros.
pub open spec fn decimal_text(n: nat) -> Seq<char>
    decreases n,
{
    if n < 10 {
        seq![digit_char(n)]
    } else {
        decimal_text(n / 10).push(digit_char(n % 10))
    }
}

/// The line the service sends for a candidate: `SUFFIX:COUNT`.
pub open spec fn render_line(c: (Seq<char>, u64)) -> Seq<char> {
    c.0 + seq![':'] + decimal_text(c.1 as nat)
}

/// A response body holding the candidates in order, one line each.
pub open spec fn render_body(cs: Seq<(Seq<char>, u64)>) -> Seq<char>
    decreases cs.len(),
{
    if cs.len() == 0 {
        seq![]
    } else {
        render_line(cs[0]) + seq!['\n'] + render_body(cs.skip(1))
    }
}

/// A candidate the service can send: an upper-case suffix with no `:` and no
/// line break in it.
pub open spec fn wf_candidate(c: (Seq<char>, u64)) -> bool {
    &&& forall|k: int| 0 <= k < c.0.len() ==> #[trigger] c.0[k] != ':' && c.0[k] != '\n'
    &&& upper_chars(c.0) == c.0
}

pub proof fn lemma_decimal_text(n: nat)
    ensures
        decimal_text(n).len() > 0,
        forall|i: int| 0 <= i < decimal_text(n).len() ==> is_digit(#[trigger] decimal_text(n)[i]),
        decimal_value(decimal_text(n)) == n,
    decreases n,
{
    if n >= 10 {
        lemma_decimal_text(n / 10);
        let t = decimal_text(n);
        assert(t.drop_last() == decimal_text(n / 10));
        assert(forall|i: int| 0 <= i < t.len() - 1 ==> t[i] == decimal_text(n / 10)[i]);
        assert(t.last() == digit_char(n % 10));
        assert(digit_value(digit_char(n % 10)) == n % 10);
        assert(decimal_value(t) == decimal_value(decimal_text(n / 10)) * 10 + n % 10);
        assert((n / 10) * 10 + n % 10 == n) by (nonlinear_arith);
    } else {
        let t = decimal_text(n);
        assert(t.drop_last() == Seq::<char>::empty());
        assert(decimal_value(t.drop_last()) == 0);
        assert(digit_value(digit_char(n)) == n);
    }
}

proof fn lemma_render_line(c: (Seq<char>, u64))
    requires
        wf_candidate(c),
    ensures
        render_line(c).len() > 0,
        forall|k: int| 0 <= k < render_line(c).len() ==> #[trigger] render_line(c)[k] != '\n',
        strip_cr(render_line(c)) == render_line(c),
        parse_line(render_line(c)) == Some(c),
{
    let l = render_line(c);
    let t = decimal_text(c.1 as nat);
    lemma_decimal_text(c.1 as nat);
    assert forall|k: int| 0 <= k < l.len() implies #[trigger] l[k] != '\n' by {
        if k > c.0.len() {
            assert(l[k] == t[k - c.0.len() - 1]);
            assert(is_digit(t[k - c.0.len() - 1]));
        }
    }
    assert(is_digit(l.last()));
    assert forall|k: int| 0 <= k < c.0.len() implies l[k] != ':' by {
        assert(l[k] == c.0[k]);
    }
    lemma_index_of(l, ':', c.0.len() as int);
    assert(l.take(c.0.len() as int) == c.0);
    assert(l.skip(c.0.len() + 1int) == t);
}

/// A body rendered from candidates the service can send parses back to
/// exactly those candidates.
pub proof fn lemma_parse_render(cs: Seq<(Seq<char>, u64)>)
    requires
        forall|i: int| 0 <= i < cs.len() ==> wf_candidate(#[trigger] cs[i]),
    ensures
        parse_result(render_body(cs)) == Ok::<_, CheckpwnError>(cs),
    decreases cs.len(),
{
    if cs.len() == 0 {
        assert(cs == Seq::<(Seq<char>, u64)>::empty());
    } else {
        let l = render_line(cs[0]);
        let rest = render_body(cs.skip(1));
        let s = render_body(cs);
        lemma_render_line(cs[0]);
        assert(s == l + seq!['\n'] + rest);
        assert forall|k: int| 0 <= k < l.len() implies s[k] != '\n' by {
            assert(s[k] == l[k]);
        }
        lemma_index_of(s, '\n', l.len() as int);
        assert(s.take(l.len() as int) == l);
        assert(s.skip(l.len() + 1int) == rest);
        assert forall|i: int| 0 <= i < cs.skip(1).len() implies wf_candidate(
            #[trigger] cs.skip(1)[i],
        ) by {
            assert(cs.skip(1)[i] == cs[i + 1]);
        }
        lemma_parse_render(cs.skip(1));
        assert(seq![cs[0]] + cs.skip(1) == cs);
    }
}

/// A body in which a non-empty line has no `:` is rejected as a whole, even
/// after well-formed lines.
pub proof fn lemma_missing_colon_rejected(
    before: Seq<(Seq<char>, u64)>,
    line: Seq<char>,
    after: Seq<char>,
)
    requires
        forall|i: int| 0 <= i < before.len() ==> wf_candidate(#[trigger] before[i]),
        forall|k: int| 0 <= k < line.len() ==> #[trigger] line[k] != ':' && line[k] != '\n',
        strip_cr(line).len() > 0,
        after.len() == 0 || after[0] == '\n',
    ensures
        parse_result(render_body(before) + line + after) == Err::<Seq<(Seq<char>, u64)>, _>(
            CheckpwnError::MalformedRangeResponse,
        ),
    decreases before.len(),
{
    let s = render_body(before) + line + after;
    if before.len() == 0 {
        assert(s == line + after);
        assert forall|k: int| 0 <= k < line.len() implies s[k] != '\n' by {
            assert(s[k] == line[k]);
        }
        lemma_index_of(s, '\n', line.len() as int);
        assert(s.take(line.len() as int) == line);
        let l = strip_cr(line);
        assert forall|k: int| 0 <= k < l.len() implies l[k] != ':' by {
            assert(l[k] == line[k]);
        }
        lemma_index_of(l, ':', l.len() as int);
    } else {
        let l = render_line(before[0]);
        let rest = render_body(before.skip(1)) + line + after;
        lemma_render_line(before[0]);
        assert(s == l + seq!['\n'] + rest);
        assert forall|k: int| 0 <= k < l.len() implies s[k] != '\n' by {
            assert(s[k] == l[k]);
        }
        lemma_index_of(s, '\n', l.len() as int);
        assert(s.take(l.len() as int) == l);
        assert(s.skip(l.len() + 1int) == rest);
        assert forall|i: int| 0 <= i < before.skip(1).len() implies wf_candidate(
            #[trigger] before.skip(1)[i],
        ) by {
            assert(before.skip(1)[i] == before[i + 1]);
        }
        lemma_missing_colon_rejected(before.skip(1), line, after);
    }
}

/// Looking a digest up in a body rendered from candidates the service can
/// send finds it exactly when a candidate carries the digest's suffix with a
/// count other than zero: padding never matches.
pub proof fn lemma_search_rendered_body(cs: Seq<(Seq<char>, u64)>, digest: Seq<char>)
    requires
        forall|i: int| 0 <= i < cs.len() ==> wf_candidate(#[trigger] cs[i]),
    ensures
        spec_search(render_body(cs), digest) == Ok::<bool, CheckpwnError>(
            exists|i: int|
                0 <= i < cs.len() && (#[trigger] cs[i]).0 == upper_chars(digest_suffix(digest))
                    && cs[i].1 != 0,
        ),
{
    lemma_parse_render(cs);
}

/// A digest splits into the prefix that is sent and the suffix that is kept
/// back. The prefix is never longer than five characters, and exactly five of
/// any digest that long; of a rendered digest 35 characters stay local.
pub proof fn lemma_digest_split(d: Seq<char>)
    ensures
        digest_prefix(d) + digest_suffix(d) == d,
        digest_prefix(d).len() <= PREFIX_LEN,
        d.len() >= PREFIX_LEN ==> digest_prefix(d).len() == PREFIX_LEN,
        d.len() >= PREFIX_LEN ==> digest_prefix(d) == d.take(PREFIX_LEN as int),
        is_digest_text(d) ==> digest_suffix(d).len() == 35,
{
    if d.len() <= PREFIX_LEN {
        assert(d + Seq::<char>::empty() == d);
    } else {
        assert(d.take(PREFIX_LEN as int) + d.skip(PREFIX_LEN as int) == d);
    }
}

} // verus!
