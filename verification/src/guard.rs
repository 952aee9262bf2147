//! Checks that keep a misbehaving translation backend out of the chat: runaway
//! expansion, model control tokens and phrase loops.
use vstd::prelude::*;

use crate::text::{
    ascii_alphanumeric, begins_with, contains, copy_between, find, find_from, has_occurrence,
    is_ascii_alphanumeric, lemma_find_is_first_occurrence, lowercase, rows, split_words, to_chars,
    to_lowercase, trim_copy, trimmed_both, words, CharClass,
};

verus! {

pub const MAX_TRANSLATION_ABSOLUTE_CHARS: usize = 1_000;

pub const MAX_TRANSLATION_EXPANSION_FACTOR: usize = 6;

pub const MAX_TRANSLATION_EXPANSION_SLACK: usize = 80;

// ── Length ──────────────────────────────────────────────────────────────────
/// The number of characters that a translation of `source_chars` characters may
/// have.
pub open spec fn allowed_chars(source_chars: nat) -> int {
    let relative = (if source_chars == 0 {
        1
    } else {
        source_chars as int
    }) * MAX_TRANSLATION_EXPANSION_FACTOR + MAX_TRANSLATION_EXPANSION_SLACK;
    if relative <= MAX_TRANSLATION_ABSOLUTE_CHARS {
        relative
    } else {
        MAX_TRANSLATION_ABSOLUTE_CHARS as int
    }
}

fn max_allowed_chars(source_chars: usize) -> (n: usize)
    ensures
        n == allowed_chars(source_chars as nat),
{
    if source_chars >= MAX_TRANSLATION_ABSOLUTE_CHARS {
        return MAX_TRANSLATION_ABSOLUTE_CHARS;
    }
    let base: usize = if source_chars == 0 {
        1
    } else {
        source_chars
    };
    let relative: usize = base * MAX_TRANSLATION_EXPANSION_FACTOR + MAX_TRANSLATION_EXPANSION_SLACK;
    if relative <= MAX_TRANSLATION_ABSOLUTE_CHARS {
        relative
    } else {
        MAX_TRANSLATION_ABSOLUTE_CHARS
    }
}

// ── Control tokens ──────────────────────────────────────────────────────────
pub open spec fn token_char(c: char) -> bool {
    ascii_alphanumeric(c) || c == '_' || c == '-' || c == '|'
}

/// Whether `body` can stand between `<|` and `>` in a model control token.
pub open spec fn control_shape(body: Seq<char>) -> bool {
    body.len() > 0 && forall|i: int| 0 <= i < body.len() ==> token_char(#[trigger] body[i])
}

/// Whether `rest` holds a control token, read from left to right, that does
/// not occur in `source`.
pub open spec fn introduces_token(source: Seq<char>, rest: Seq<char>) -> bool
    decreases rest.len(),
{
    match find(rest, seq!['<', '|']) {
        None => false,
        Some(start) => {
            let after = rest.skip(start + 2);
            match find(after, seq!['>']) {
                None => false,
                Some(end) => {
                    let token = rest.subrange(start, start + 2 + end + 1);
                    proof {
                        lemma_find_is_first_occurrence(rest, seq!['<', '|']);
                        lemma_find_is_first_occurrence(after, seq!['>']);
                    }
                    if control_shape(after.take(end)) && !contains(source, token) {
                        true
                    } else {
                        introduces_token(source, after.skip(end + 1))
                    }
                },
            }
        },
    }
}

/// Whether `token` is a model control token: `<|`, a body and `>`.
pub open spec fn control_token(token: Seq<char>) -> bool {
    &&& token.len() >= 4
    &&& token[0] == '<'
    &&& token[1] == '|'
    &&& token.last() == '>'
    &&& control_shape(token.subrange(2, token.len() - 1))
}

/// Whether `<|` stands in `s` at `i`.
pub open spec fn opens_at(s: Seq<char>, i: int) -> bool {
    0 <= i && i + 2 <= s.len() && s[i] == '<' && s[i + 1] == '|'
}

/// Whether a `>` stands in `s` from `lo` up to `hi`.
pub open spec fn closes_between(s: Seq<char>, lo: int, hi: int) -> bool {
    exists|k: int| lo <= k < hi && 0 <= k < s.len() && #[trigger] s[k] == '>'
}

/// Whether every `<|` in front of `at` is closed in front of `at`.
pub open spec fn nothing_open_at(s: Seq<char>, at: int) -> bool {
    forall|i: int| 0 <= i < at && #[trigger] opens_at(s, i) ==> closes_between(s, i + 2, at)
}

/// Whether `s` holds from `lo` up to `hi` a control token that does not occur in
/// `source` and does not stand inside another `<|` and its `>`.
pub open spec fn foreign_token(source: Seq<char>, s: Seq<char>, lo: int, hi: int) -> bool {
    &&& 0 <= lo <= hi <= s.len()
    &&& control_token(s.subrange(lo, hi))
    &&& !contains(source, s.subrange(lo, hi))
    &&& nothing_open_at(s, lo)
}

fn has_control_shape(v: &[char], lo: usize, hi: usize) -> (r: bool)
    requires
        lo <= hi <= v@.len(),
    ensures
        r == control_shape(v@.subrange(lo as int, hi as int)),
{
    let ghost body = v@.subrange(lo as int, hi as int);
    if lo == hi {
        return false;
    }
    let mut i: usize = lo;
    while i < hi
        invariant
            lo <= i <= hi <= v@.len(),
            body == v@.subrange(lo as int, hi as int),
            forall|j: int| 0 <= j < i - lo ==> token_char(#[trigger] body[j]),
        decreases hi - i,
    {
        let c = v[i];
        assert(c == body[i - lo]);
        if !(is_ascii_alphanumeric(c) || c == '_' || c == '-' || c == '|') {
            assert(!token_char(body[i - lo]));
            return false;
        }
        i = i + 1;
    }
    true
}

/// Whether `translated` holds a model control token such as `<|channel>` that
/// `source` does not hold, and that does not stand inside another `<|` and its
/// `>`.
pub fn contains_introduced_model_control_token(source: &str, translated: &str) -> (r: bool)
    ensures
        r == introduces_token(source@, translated@),
        r <==> exists|lo: int, hi: int| foreign_token(source@, translated@, lo, hi),
{
    proof {
        law_introduced_tokens_are_foreign(source@, translated@);
    }
    let src = to_chars(source);
    let v = to_chars(translated);
    let open: Vec<char> = vec!['<', '|'];
    let close: Vec<char> = vec!['>'];
    assert(open@ =~= seq!['<', '|']);
    assert(close@ =~= seq!['>']);
    let n: usize = v.len();
    let mut at: usize = 0;
    assert(v@.skip(0) =~= v@);
    loop
        invariant
            at <= n == v@.len(),
            src@ == source@,
            open@ == seq!['<', '|'],
            close@ == seq!['>'],
            introduces_token(source@, translated@) == introduces_token(
                source@,
                v@.skip(at as int),
            ),
            introduces_token(source@, translated@) <==> exists|lo: int, hi: int|
                foreign_token(source@, translated@, lo, hi),
        decreases n - at,
    {
        let ghost rest = v@.skip(at as int);
        let start: usize = match find_from(&v, at, &open) {
            Some(start) => start,
            None => {
                return false;
            },
        };
        assert(start + 2 <= n);
        let ghost after = rest.skip(start - at + 2);
        assert(after =~= v@.skip(start + 2));
        let end: usize = match find_from(&v, start + 2, &close) {
            Some(end) => end,
            None => {
                return false;
            },
        };
        assert(end + 1 <= n);
        let token = copy_between(&v, start, end + 1);
        assert(token@ =~= rest.subrange(start - at, end + 1 - at));
        assert(after.take(end - start - 2) =~= v@.subrange(start + 2, end as int));
        if has_control_shape(&v, start + 2, end) && !has_occurrence(&src, &token) {
            return true;
        }
        assert(after.skip(end - start - 2 + 1) =~= v@.skip(end + 1));
        at = end + 1;
    }
}

// ── Phrase loops ────────────────────────────────────────────────────────────
/// `ws` with everything that is not alphanumeric cut from the ends of each
/// word, without the words of which nothing is left.
pub open spec fn bare_words(ws: Seq<Seq<char>>) -> Seq<Seq<char>>
    decreases ws.len(),
{
    if ws.len() == 0 {
        seq![]
    } else {
        let head = bare_words(ws.drop_last());
        let w = trimmed_both(ws.last(), CharClass::NonAlphanumeric);
        if w.len() == 0 {
            head
        } else {
            head.push(w)
        }
    }
}

/// Whether the `n` words of `ws` at `start` are the same as those at `other`.
pub open spec fn same_phrase(ws: Seq<Seq<char>>, start: int, other: int, n: nat) -> bool {
    forall|j: int| 0 <= j < n ==> #[trigger] ws[start + j] == ws[other + j]
}

/// Whether `count` phrases of `n` words that are all the same stand one after
/// another in `ws` from `start` on.
pub open spec fn phrase_run(ws: Seq<Seq<char>>, start: int, n: nat, count: nat) -> bool {
    &&& 0 <= start
    &&& start + n * count <= ws.len()
    &&& forall|r: int| 1 <= r < count ==> same_phrase(ws, start, #[trigger] phrase_at(start, r, n), n)
}

/// The position of the phrase number `r` of a run that begins at `start`.
pub open spec fn phrase_at(start: int, r: int, n: nat) -> int {
    start + r * n
}

/// Whether a phrase of `n` words stands `count` times in a row somewhere in
/// `ws`. A phrase on its own is no repetition: a count below two means two.
pub open spec fn phrase_loop(ws: Seq<Seq<char>>, n: nat, count: nat) -> bool {
    exists|start: int| #[trigger] phrase_run(ws, start, n, at_least_two(count))
}

pub open spec fn at_least_two(count: nat) -> nat {
    if count < 2 {
        2
    } else {
        count
    }
}

fn clean_words(text: &str) -> (out: Vec<Vec<char>>)
    ensures
        rows(out@) == bare_words(words(text@)),
{
    let v = to_chars(text);
    let all = split_words(&v);
    let ghost ws = rows(all@);
    let mut out: Vec<Vec<char>> = Vec::new();
    let mut i: usize = 0;
    assert(rows(out@) =~= bare_words(ws.take(0)));
    while i < all.len()
        invariant
            i <= all@.len(),
            ws == rows(all@),
            rows(out@) == bare_words(ws.take(i as int)),
        decreases all@.len() - i,
    {
        let ghost before = rows(out@);
        let w = trim_copy(&all[i], CharClass::NonAlphanumeric);
        assert(ws.take(i + 1).drop_last() =~= ws.take(i as int));
        if w.len() > 0 {
            out.push(w);
            assert(rows(out@) =~= before.push(w@));
        }
        i = i + 1;
    }
    assert(ws.take(i as int) =~= ws);
    out
}

fn same_chars(a: &[char], b: &[char]) -> (r: bool)
    ensures
        r == (a@ == b@),
{
    if a.len() != b.len() {
        return false;
    }
    let mut i: usize = 0;
    while i < a.len()
        invariant
            i <= a@.len() == b@.len(),
            forall|j: int| 0 <= j < i ==> a@[j] == b@[j],
        decreases a@.len() - i,
    {
        if a[i] != b[i] {
            return false;
        }
        i = i + 1;
    }
    assert(a@ =~= b@);
    true
}

fn is_same_phrase(ws: &Vec<Vec<char>>, start: usize, other: usize, n: usize) -> (r: bool)
    requires
        start + n <= ws@.len(),
        other + n <= ws@.len(),
    ensures
        r == same_phrase(rows(ws@), start as int, other as int, n as nat),
{
    let len: usize = ws.len();
    let mut j: usize = 0;
    while j < n
        invariant
            j <= n,
            len == ws@.len(),
            start + n <= len,
            other + n <= len,
            forall|k: int|
                0 <= k < j ==> #[trigger] rows(ws@)[start + k] == rows(ws@)[other + k],
        decreases n - j,
    {
        if !same_chars(&ws[start + j], &ws[other + j]) {
            assert(rows(ws@)[start + j] != rows(ws@)[other + j]);
            return false;
        }
        j = j + 1;
    }
    true
}

/// Whether a run of `times` phrases of `n` words begins at `start`.
fn run_starts_at(ws: &Vec<Vec<char>>, start: usize, n: usize, times: usize) -> (r: bool)
    requires
        start <= ws@.len(),
        times >= 2,
        n * times <= usize::MAX,
    ensures
        r == phrase_run(rows(ws@), start as int, n as nat, times as nat),
{
    let len: usize = ws.len();
    if len - start < n * times {
        return false;
    }
    let mut r: usize = 1;
    while r < times
        invariant
            1 <= r <= times,
            len == ws@.len(),
            start + n * times <= len,
            forall|k: int|
                1 <= k < r ==> same_phrase(
                    rows(ws@),
                    start as int,
                    #[trigger] phrase_at(start as int, k, n as nat),
                    n as nat,
                ),
        decreases times - r,
    {
        assert(r * n + n <= n * times) by (nonlinear_arith)
            requires
                r + 1 <= times,
        ;
        assert(0 <= r * n) by (nonlinear_arith);
        let next: usize = start + r * n;
        assert(n <= n * times) by (nonlinear_arith)
            requires
                times >= 1,
        ;
        assert(phrase_at(start as int, r as int, n as nat) == next);
        if !is_same_phrase(ws, start, next, n) {
            return false;
        }
        r = r + 1;
    }
    true
}

/// Whether a phrase of `ngram_len` words stands `min_repeats` times in a row
/// somewhere in `ws`.
pub fn has_phrase_loop(ws: &Vec<Vec<char>>, ngram_len: usize, min_repeats: usize) -> (r: bool)
    requires
        ngram_len * min_repeats <= usize::MAX,
        min_repeats >= 1 || ngram_len == 0,
    ensures
        r == phrase_loop(rows(ws@), ngram_len as nat, min_repeats as nat),
{
    let len: usize = ws.len();
    let times: usize = if min_repeats < 2 {
        2
    } else {
        min_repeats
    };
    let ghost all = rows(ws@);
    if min_repeats < 2 && ngram_len > len / 2 {
        assert forall|s: int| !(#[trigger] phrase_run(all, s, ngram_len as nat, 2)) by {
            assert(ngram_len * 2 > len);
        }
        return false;
    }
    assert(ngram_len * times <= usize::MAX);
    let mut start: usize = 0;
    while start < len
        invariant
            start <= len == ws@.len(),
            all == rows(ws@),
            times == at_least_two(min_repeats as nat),
            ngram_len * times <= usize::MAX,
            forall|s: int|
                0 <= s < start ==> !(#[trigger] phrase_run(
                    all,
                    s,
                    ngram_len as nat,
                    times as nat,
                )),
        decreases len - start,
    {
        if run_starts_at(ws, start, ngram_len, times) {
            return true;
        }
        start = start + 1;
    }
    if run_starts_at(ws, start, ngram_len, times) {
        return true;
    }
    assert forall|s: int| !(#[trigger] phrase_run(all, s, ngram_len as nat, times as nat)) by {
        if s > len {
            assert(ngram_len * times >= 0) by (nonlinear_arith);
        }
    }
    false
}

/// Whether a phrase of `ngram_len` words stands `min_repeats` times in a row
/// somewhere in `text`.
pub fn has_repeated_ngram_loop(text: &str, ngram_len: usize, min_repeats: usize) -> (r: bool)
    requires
        ngram_len * min_repeats <= usize::MAX,
        min_repeats >= 1 || ngram_len == 0,
    ensures
        r == phrase_loop(bare_words(words(text@)), ngram_len as nat, min_repeats as nat),
{
    let ws = clean_words(text);
    has_phrase_loop(&ws, ngram_len, min_repeats)
}

// ── Verdict ─────────────────────────────────────────────────────────────────
/// Whether a translation repeats a phrase of two words four times in a row, or
/// one of three words three times.
pub open spec fn loops(ws: Seq<Seq<char>>) -> bool {
    phrase_loop(ws, 2, 4) || phrase_loop(ws, 3, 3)
}

/// Why a translation is rejected, given whether it loops.
pub open spec fn rejection(source: Seq<char>, translated: Seq<char>, looping: bool) -> Option<
    Seq<char>,
> {
    if translated.len() > allowed_chars(source.len()) {
        Some("translation expanded far beyond source length"@)
    } else if introduces_token(source, translated) {
        Some("translation contains backend control token"@)
    } else if looping {
        Some("translation contains repeated phrase loop"@)
    } else {
        None
    }
}

/// The text of an optional static string.
pub open spec fn opt_str(s: Option<&'static str>) -> Option<Seq<char>> {
    match s {
        Some(t) => Some(t@),
        None => None,
    }
}

/// Why a translation is rejected, given whether it loops.
pub fn rejection_given_loop(source_plain: &str, translated_plain: &str, looping: bool) -> (r: Option<
    &'static str,
>)
    ensures
        opt_str(r) == rejection(source_plain@, translated_plain@, looping),
{
    let source_chars: usize = to_chars(source_plain).len();
    let translated_chars: usize = to_chars(translated_plain).len();
    if translated_chars > max_allowed_chars(source_chars) {
        return Some("translation expanded far beyond source length");
    }
    if contains_introduced_model_control_token(source_plain, translated_plain) {
        return Some("translation contains backend control token");
    }
    if looping {
        return Some("translation contains repeated phrase loop");
    }
    None
}

/// The rejection of `translated` as a translation of `source`; a phrase loop is
/// looked for in the lower case of the text.
pub open spec fn rejection_of(source: Seq<char>, translated: Seq<char>) -> Option<Seq<char>> {
    rejection(source, translated, loops(bare_words(words(lowercase(translated)))))
}

/// Why `translated_plain` is not acceptable as a translation of `source_plain`,
/// if it is not.
pub fn translation_rejection_reason(source_plain: &str, translated_plain: &str) -> (r: Option<
    &'static str,
>)
    ensures
        opt_str(r) == rejection_of(source_plain@, translated_plain@),
{
    let lower = to_lowercase(translated_plain);
    let looping: bool = has_repeated_ngram_loop(lower.as_str(), 2, 4) || has_repeated_ngram_loop(
        lower.as_str(),
        3,
        3,
    );
    rejection_given_loop(source_plain, translated_plain, looping)
}

/// What is accepted as a translation is bounded in length, by the source and
/// absolutely, and neither brings in a control token nor loops.
pub proof fn law_accepted_translations_are_sane(source: Seq<char>, translated: Seq<char>)
    requires
        rejection_of(source, translated) is None,
    ensures
        translated.len() <= MAX_TRANSLATION_ABSOLUTE_CHARS,
        translated.len() <= allowed_chars(source.len()),
        !introduces_token(source, translated),
        !loops(bare_words(words(lowercase(translated)))),
{
}

/// `find` of `<|`, by position.
proof fn lemma_first_open(s: Seq<char>)
    ensures
        match find(s, seq!['<', '|']) {
            Some(start) => opens_at(s, start) && forall|i: int|
                0 <= i < start ==> !#[trigger] opens_at(s, i),
            None => forall|i: int| !#[trigger] opens_at(s, i),
        },
{
    let p = seq!['<', '|'];
    lemma_find_is_first_occurrence(s, p);
    match find(s, p) {
        Some(start) => {
            assert(s.subrange(start, start + 2)[0] == s[start]);
            assert(s.subrange(start, start + 2)[1] == s[start + 1]);
            assert forall|i: int| 0 <= i < start implies !#[trigger] opens_at(s, i) by {
                if opens_at(s, i) {
                    assert(s.skip(i).take(2) =~= p);
                    assert(begins_with(s.skip(i), p));
                }
            }
        },
        None => {
            assert forall|i: int| !#[trigger] opens_at(s, i) by {
                if opens_at(s, i) {
                    assert(s.subrange(i, i + p.len()) =~= p);
                }
            }
        },
    }
}

/// `find` of `>`, by position.
proof fn lemma_first_close(s: Seq<char>)
    ensures
        match find(s, seq!['>']) {
            Some(end) => 0 <= end < s.len() && s[end] == '>' && forall|k: int|
                0 <= k < end ==> #[trigger] s[k] != '>',
            None => forall|k: int| 0 <= k < s.len() ==> #[trigger] s[k] != '>',
        },
{
    let p = seq!['>'];
    lemma_find_is_first_occurrence(s, p);
    match find(s, p) {
        Some(end) => {
            assert(s.subrange(end, end + 1)[0] == s[end]);
            assert forall|k: int| 0 <= k < end implies #[trigger] s[k] != '>' by {
                if s[k] == '>' {
                    assert(s.skip(k).take(1) =~= p);
                    assert(begins_with(s.skip(k), p));
                }
            }
        },
        None => {
            assert forall|k: int| 0 <= k < s.len() implies #[trigger] s[k] != '>' by {
                if s[k] == '>' {
                    assert(s.subrange(k, k + p.len()) =~= p);
                }
            }
        },
    }
}

/// A scan that brings in a token has found a foreign one.
proof fn lemma_introduced_is_foreign(source: Seq<char>, s: Seq<char>)
    requires
        introduces_token(source, s),
    ensures
        exists|lo: int, hi: int| foreign_token(source, s, lo, hi),
    decreases s.len(),
{
    lemma_first_open(s);
    let start = find(s, seq!['<', '|']).unwrap();
    let after = s.skip(start + 2);
    lemma_first_close(after);
    let end = find(after, seq!['>']).unwrap();
    let d = start + 2 + end + 1;
    let token = s.subrange(start, d);
    assert(s[d - 1] == after[end]);
    if control_shape(after.take(end)) && !contains(source, token) {
        assert(token.subrange(2, token.len() - 1) =~= after.take(end));
        assert(foreign_token(source, s, start, d));
    } else {
        let rest = after.skip(end + 1);
        assert(rest =~= s.skip(d));
        lemma_introduced_is_foreign(source, rest);
        let (lo, hi) = choose|lo: int, hi: int| foreign_token(source, rest, lo, hi);
        assert(s.subrange(lo + d, hi + d) =~= rest.subrange(lo, hi));
        assert forall|i: int| 0 <= i < lo + d && #[trigger] opens_at(s, i) implies closes_between(
            s,
            i + 2,
            lo + d,
        ) by {
            if i >= d {
                assert(opens_at(rest, i - d));
                let k = choose|k: int|
                    i - d + 2 <= k < lo && 0 <= k < rest.len() && #[trigger] rest[k] == '>';
                assert(s[k + d] == '>');
            } else {
                assert(s[d - 1] == '>');
            }
        }
        assert(foreign_token(source, s, lo + d, hi + d));
    }
}

/// A scan finds every foreign token.
proof fn lemma_foreign_is_introduced(source: Seq<char>, s: Seq<char>, lo: int, hi: int)
    requires
        foreign_token(source, s, lo, hi),
    ensures
        introduces_token(source, s),
    decreases s.len(),
{
    let token = s.subrange(lo, hi);
    let body = token.subrange(2, token.len() - 1);
    assert(token[0] == s[lo] && token[1] == s[lo + 1] && token.last() == s[hi - 1]);
    assert(opens_at(s, lo));
    lemma_first_open(s);
    let start = find(s, seq!['<', '|']).unwrap();
    let after = s.skip(start + 2);
    lemma_first_close(after);
    if start == lo {
        assert(after[hi - 1 - start - 2] == '>');
        let end = find(after, seq!['>']).unwrap();
        if end < hi - 3 - lo {
            assert(body[end] == after[end]);
            assert(token_char(body[end]));
        }
        assert(after.take(end) =~= body);
    } else {
        assert(closes_between(s, start + 2, lo));
        let k = choose|k: int| start + 2 <= k < lo && 0 <= k < s.len() && #[trigger] s[k] == '>';
        assert(after[k - start - 2] == '>');
        let end = find(after, seq!['>']).unwrap();
        let d = start + 2 + end + 1;
        let rest = after.skip(end + 1);
        assert(rest =~= s.skip(d));
        assert(rest.subrange(lo - d, hi - d) =~= token);
        assert forall|i: int| 0 <= i < lo - d && #[trigger] opens_at(rest, i) implies closes_between(
            rest,
            i + 2,
            lo - d,
        ) by {
            assert(opens_at(s, i + d));
            let j = choose|j: int|
                i + d + 2 <= j < lo && 0 <= j < s.len() && #[trigger] s[j] == '>';
            assert(rest[j - d] == '>');
        }
        lemma_foreign_is_introduced(source, rest, lo - d, hi - d);
    }
}

/// A translation brings in a control token exactly where it holds one, that is
/// `<|`, a body and `>`, which the source does not hold and which does not stand
/// inside another `<|` and its `>`.
pub proof fn law_introduced_tokens_are_foreign(source: Seq<char>, translated: Seq<char>)
    ensures
        introduces_token(source, translated) <==> exists|lo: int, hi: int|
            foreign_token(source, translated, lo, hi),
{
    if introduces_token(source, translated) {
        lemma_introduced_is_foreign(source, translated);
    }
    if exists|lo: int, hi: int| foreign_token(source, translated, lo, hi) {
        let (lo, hi) = choose|lo: int, hi: int| foreign_token(source, translated, lo, hi);
        lemma_foreign_is_introduced(source, translated, lo, hi);
    }
}

/// A control token that the source does not hold is found where it stands at the
/// first `<|` of the translation.
pub proof fn law_foreign_token_at_the_first_opening_is_found(
    source: Seq<char>,
    translated: Seq<char>,
    hi: int,
)
    requires
        find(translated, seq!['<', '|']) matches Some(lo) && lo <= hi <= translated.len()
            && control_token(translated.subrange(lo, hi)) && !contains(
            source,
            translated.subrange(lo, hi),
        ),
    ensures
        introduces_token(source, translated),
{
    lemma_first_open(translated);
    let lo = find(translated, seq!['<', '|']).unwrap();
    assert(foreign_token(source, translated, lo, hi));
    lemma_foreign_is_introduced(source, translated, lo, hi);
}

/// The body of a control token is made of ASCII letters and digits, underscores,
/// hyphens and bars, at least one of them.
pub proof fn law_control_shape(body: Seq<char>)
    ensures
        control_shape(body) <==> body.len() > 0 && forall|i: int|
            0 <= i < body.len() ==> {
                let c = #[trigger] body[i];
                ('a' <= c <= 'z') || ('A' <= c <= 'Z') || ('0' <= c <= '9') || c == '_' || c == '-'
                    || c == '|'
            },
{
    if control_shape(body) {
        assert forall|i: int| 0 <= i < body.len() implies {
            let c = #[trigger] body[i];
            ('a' <= c <= 'z') || ('A' <= c <= 'Z') || ('0' <= c <= '9') || c == '_' || c == '-' || c
                == '|'
        } by {
            assert(token_char(body[i]));
        }
    }
}

/// A foreign token stands from `lo` up to `hi` where `<|` and `>` enclose a body
/// of control characters there, the piece is nowhere in the source, and every
/// `<|` in front of it has its `>` in front of it.
pub proof fn law_foreign_token(source: Seq<char>, s: Seq<char>, lo: int, hi: int)
    requires
        0 <= lo <= hi <= s.len(),
    ensures
        foreign_token(source, s, lo, hi) <==> {
            &&& lo + 4 <= hi
            &&& s[lo] == '<' && s[lo + 1] == '|' && s[hi - 1] == '>'
            &&& control_shape(s.subrange(lo + 2, hi - 1))
            &&& forall|k: int|
                0 <= k && k + (hi - lo) <= source.len() ==> #[trigger] source.subrange(
                    k,
                    k + (hi - lo),
                ) != s.subrange(lo, hi)
            &&& forall|i: int|
                0 <= i < lo && i + 1 < s.len() && #[trigger] s[i] == '<' && s[i + 1] == '|'
                    ==> exists|k: int| i + 2 <= k < lo && #[trigger] s[k] == '>'
        },
{
    let token = s.subrange(lo, hi);
    lemma_find_is_first_occurrence(source, token);
    if lo + 4 <= hi {
        assert(token[0] == s[lo] && token[1] == s[lo + 1] && token.last() == s[hi - 1]);
        assert(token.subrange(2, token.len() - 1) =~= s.subrange(lo + 2, hi - 1));
    }
    let closed = forall|i: int|
        0 <= i < lo && i + 1 < s.len() && #[trigger] s[i] == '<' && s[i + 1] == '|' ==> exists|
            k: int,
        |
            i + 2 <= k < lo && #[trigger] s[k] == '>';
    if nothing_open_at(s, lo) {
        assert forall|i: int|
            0 <= i < lo && i + 1 < s.len() && #[trigger] s[i] == '<' && s[i + 1] == '|' implies exists|
            k: int,
        |
            i + 2 <= k < lo && #[trigger] s[k] == '>' by {
            assert(opens_at(s, i));
            assert(closes_between(s, i + 2, lo));
        }
    }
    if closed {
        assert forall|i: int| 0 <= i < lo && #[trigger] opens_at(s, i) implies closes_between(
            s,
            i + 2,
            lo,
        ) by {
            assert(s[i] == '<');
        }
    }
    if contains(source, token) {
        let k = find(source, token).unwrap();
        assert(source.subrange(k, k + (hi - lo)) == token);
    } else {
        assert forall|k: int| 0 <= k && k + (hi - lo) <= source.len() implies #[trigger] source.subrange(
            k,
            k + (hi - lo),
        ) != token by {
            assert(source.subrange(k, k + token.len()) != token);
        }
    }
}

/// The bare words are the words with everything that is not alphanumeric cut
/// from their ends, as far as anything is left of them, in order.
pub proof fn law_bare_words(ws: Seq<Seq<char>>)
    ensures
        bare_words(ws) == ws.map_values(
            |w: Seq<char>| trimmed_both(w, CharClass::NonAlphanumeric),
        ).filter(|w: Seq<char>| w.len() > 0),
    decreases ws.len(),
{
    reveal(Seq::filter);
    let cut = ws.map_values(|w: Seq<char>| trimmed_both(w, CharClass::NonAlphanumeric));
    if ws.len() > 0 {
        law_bare_words(ws.drop_last());
        assert(cut.drop_last() =~= ws.drop_last().map_values(
            |w: Seq<char>| trimmed_both(w, CharClass::NonAlphanumeric),
        ));
        assert(cut.last() == trimmed_both(ws.last(), CharClass::NonAlphanumeric));
    }
}

/// Whether `ws` repeats itself from `start` on every `n` words, `length` times.
pub open spec fn periodic(ws: Seq<Seq<char>>, start: int, n: int, length: int) -> bool {
    forall|j: int| start <= j < start + length ==> #[trigger] ws[j] == ws[j + n]
}

proof fn lemma_run_is_periodic(ws: Seq<Seq<char>>, start: int, n: nat, count: nat)
    requires
        n > 0,
        count >= 2,
        phrase_run(ws, start, n, count),
    ensures
        periodic(ws, start, n as int, n * (count - 1)),
{
    assert forall|j: int| start <= j < start + n * (count - 1) implies #[trigger] ws[j] == ws[j
        + n] by {
        let d = j - start;
        let q = d / n as int;
        let k = d % n as int;
        assert(d == q * n + k && 0 <= k < n && 0 <= q) by (nonlinear_arith)
            requires
                q == d / n as int,
                k == d % n as int,
                n > 0,
                d >= 0,
        ;
        assert(q < count - 1) by (nonlinear_arith)
            requires
                d == q * n + k,
                0 <= k,
                d < n * (count - 1),
                n > 0,
        ;
        assert((q + 1) * n == q * n + n) by (nonlinear_arith);
        assert(same_phrase(ws, start, phrase_at(start, q + 1, n), n));
        assert(ws[start + k] == ws[phrase_at(start, q + 1, n) + k]);
        if q >= 1 {
            assert(same_phrase(ws, start, phrase_at(start, q, n), n));
            assert(ws[start + k] == ws[phrase_at(start, q, n) + k]);
            assert(phrase_at(start, q, n) + k == j);
        } else {
            assert(q * n == 0) by (nonlinear_arith)
                requires
                    q == 0,
            ;
            assert(start + k == j);
        }
        assert(phrase_at(start, q + 1, n) + k == j + n);
    }
}

proof fn lemma_periodic_repeats(
    ws: Seq<Seq<char>>,
    start: int,
    n: nat,
    count: nat,
    r: nat,
    k: int,
)
    requires
        n > 0,
        r < count,
        0 <= k < n,
        periodic(ws, start, n as int, n * (count - 1)),
    ensures
        ws[start + k] == ws[start + r * n + k],
    decreases r,
{
    if r > 0 {
        let p = (r - 1) as nat;
        lemma_periodic_repeats(ws, start, n, count, p, k);
        let j = start + p * n + k;
        assert(p * n + k < n * (count - 1) && p * n >= 0 && p * n + n == r * n) by (nonlinear_arith)
            requires
                p + 1 == r,
                r < count,
                0 <= k < n,
        ;
        assert(ws[j] == ws[j + n]);
    } else {
        assert(r * n == 0) by (nonlinear_arith)
            requires
                r == 0,
        ;
    }
}

/// A phrase of `n` words stands `count` times in a row, at least twice, exactly
/// where from some word on each word is the same as the one `n` further on, for
/// as many words as the phrase has in all but its last time.
pub proof fn law_phrase_loop(ws: Seq<Seq<char>>, n: nat, count: nat)
    requires
        n > 0,
        count >= 2,
    ensures
        phrase_loop(ws, n, count) <==> exists|start: int|
            0 <= start && start + n * count <= ws.len() && #[trigger] periodic(
                ws,
                start,
                n as int,
                n * (count - 1),
            ),
{
    assert(at_least_two(count) == count);
    if phrase_loop(ws, n, count) {
        let start = choose|start: int| #[trigger] phrase_run(ws, start, n, count);
        lemma_run_is_periodic(ws, start, n, count);
    }
    if exists|start: int|
        0 <= start && start + n * count <= ws.len() && #[trigger] periodic(
            ws,
            start,
            n as int,
            n * (count - 1),
        ) {
        let start = choose|start: int|
            0 <= start && start + n * count <= ws.len() && #[trigger] periodic(
                ws,
                start,
                n as int,
                n * (count - 1),
            );
        assert forall|r: int| 1 <= r < count implies same_phrase(
            ws,
            start,
            #[trigger] phrase_at(start, r, n),
            n,
        ) by {
            assert forall|j: int| 0 <= j < n implies #[trigger] ws[start + j] == ws[phrase_at(
                start,
                r,
                n,
            ) + j] by {
                lemma_periodic_repeats(ws, start, n, count, r as nat, j);
            }
        }
        assert(phrase_run(ws, start, n, count));
    }
}

/// What is wrong with a translation. It is too long beyond six times the length
/// of its source and eighty characters more, and beyond a thousand characters.
/// It brings in a control token where it holds a foreign one. It loops where, in
/// lower case, six words in a row are each the same as the one two further on,
/// or each the same as the one three further on: then two words stand four times
/// or three words three times. The first of these that holds is the reason, and
/// without any of them the translation is accepted.
pub proof fn law_verdict(source: Seq<char>, translated: Seq<char>)
    ensures
        ({
            let n = if source.len() == 0 {
                1
            } else {
                source.len() as int
            };
            let long = translated.len() > 6 * n + 80 || translated.len() > 1000;
            let token = exists|lo: int, hi: int| foreign_token(source, translated, lo, hi);
            let ws = bare_words(words(lowercase(translated)));
            let pairs = exists|s: int|
                0 <= s && s + 8 <= ws.len() && #[trigger] ws[s] == ws[s + 2] && ws[s + 1] == ws[s
                    + 3] && ws[s + 2] == ws[s + 4] && ws[s + 3] == ws[s + 5] && ws[s + 4] == ws[s
                    + 6] && ws[s + 5] == ws[s + 7];
            let triples = exists|s: int|
                0 <= s && s + 9 <= ws.len() && #[trigger] ws[s] == ws[s + 3] && ws[s + 1] == ws[s
                    + 4] && ws[s + 2] == ws[s + 5] && ws[s + 3] == ws[s + 6] && ws[s + 4] == ws[s
                    + 7] && ws[s + 5] == ws[s + 8];
            let r = rejection_of(source, translated);
            &&& long ==> r == Some("translation expanded far beyond source length"@)
            &&& !long && token ==> r == Some("translation contains backend control token"@)
            &&& !long && !token && (pairs || triples) ==> r == Some(
                "translation contains repeated phrase loop"@,
            )
            &&& !long && !token && !pairs && !triples ==> r is None
        }),
{
    law_introduced_tokens_are_foreign(source, translated);
    let ws = bare_words(words(lowercase(translated)));
    lemma_pairs(ws);
    lemma_triples(ws);
}

proof fn lemma_pairs(ws: Seq<Seq<char>>)
    ensures
        phrase_loop(ws, 2, 4) <==> exists|s: int|
            0 <= s && s + 8 <= ws.len() && #[trigger] ws[s] == ws[s + 2] && ws[s + 1] == ws[s + 3]
                && ws[s + 2] == ws[s + 4] && ws[s + 3] == ws[s + 5] && ws[s + 4] == ws[s + 6]
                && ws[s + 5] == ws[s + 7],
{
    let (n, count) = (2nat, 4nat);
    law_phrase_loop(ws, n, count);
    assert(n * (count - 1) == 6 && n * count == 8) by (nonlinear_arith)
        requires
            n == 2,
            count == 4,
    ;
    lemma_periodic_words(ws, 2);
    if phrase_loop(ws, n, count) {
        let s = choose|s: int| 0 <= s && s + 8 <= ws.len() && #[trigger] periodic(ws, s, 2, 6);
        assert(ws[s] == ws[s + 2] && ws[s + 1] == ws[s + 3] && ws[s + 2] == ws[s + 4] && ws[s + 3]
            == ws[s + 5] && ws[s + 4] == ws[s + 6] && ws[s + 5] == ws[s + 7]);
    }
    if exists|s: int|
        0 <= s && s + 8 <= ws.len() && #[trigger] ws[s] == ws[s + 2] && ws[s + 1] == ws[s + 3]
            && ws[s + 2] == ws[s + 4] && ws[s + 3] == ws[s + 5] && ws[s + 4] == ws[s + 6] && ws[s
            + 5] == ws[s + 7] {
        let s = choose|s: int|
            0 <= s && s + 8 <= ws.len() && #[trigger] ws[s] == ws[s + 2] && ws[s + 1] == ws[s + 3]
                && ws[s + 2] == ws[s + 4] && ws[s + 3] == ws[s + 5] && ws[s + 4] == ws[s + 6]
                && ws[s + 5] == ws[s + 7];
        assert(periodic(ws, s, 2, 6));
    }
}

proof fn lemma_triples(ws: Seq<Seq<char>>)
    ensures
        phrase_loop(ws, 3, 3) <==> exists|s: int|
            0 <= s && s + 9 <= ws.len() && #[trigger] ws[s] == ws[s + 3] && ws[s + 1] == ws[s + 4]
                && ws[s + 2] == ws[s + 5] && ws[s + 3] == ws[s + 6] && ws[s + 4] == ws[s + 7]
                && ws[s + 5] == ws[s + 8],
{
    let (n, count) = (3nat, 3nat);
    law_phrase_loop(ws, n, count);
    assert(n * (count - 1) == 6 && n * count == 9) by (nonlinear_arith)
        requires
            n == 3,
            count == 3,
    ;
    lemma_periodic_words(ws, 3);
    if phrase_loop(ws, n, count) {
        let s = choose|s: int| 0 <= s && s + 9 <= ws.len() && #[trigger] periodic(ws, s, 3, 6);
        assert(ws[s] == ws[s + 3] && ws[s + 1] == ws[s + 4] && ws[s + 2] == ws[s + 5] && ws[s + 3]
            == ws[s + 6] && ws[s + 4] == ws[s + 7] && ws[s + 5] == ws[s + 8]);
    }
    if exists|s: int|
        0 <= s && s + 9 <= ws.len() && #[trigger] ws[s] == ws[s + 3] && ws[s + 1] == ws[s + 4]
            && ws[s + 2] == ws[s + 5] && ws[s + 3] == ws[s + 6] && ws[s + 4] == ws[s + 7] && ws[s
            + 5] == ws[s + 8] {
        let s = choose|s: int|
            0 <= s && s + 9 <= ws.len() && #[trigger] ws[s] == ws[s + 3] && ws[s + 1] == ws[s + 4]
                && ws[s + 2] == ws[s + 5] && ws[s + 3] == ws[s + 6] && ws[s + 4] == ws[s + 7]
                && ws[s + 5] == ws[s + 8];
        assert(periodic(ws, s, 3, 6));
    }
}

proof fn lemma_periodic_words(ws: Seq<Seq<char>>, n: int)
    ensures
        forall|s: int| #[trigger]
            periodic(ws, s, n, 6) ==> ws[s] == ws[s + n] && ws[s + 1] == ws[s + 1 + n] && ws[s + 2]
                == ws[s + 2 + n] && ws[s + 3] == ws[s + 3 + n] && ws[s + 4] == ws[s + 4 + n] && ws[s
                + 5] == ws[s + 5 + n],
{
    assert forall|s: int| #[trigger] periodic(ws, s, n, 6) implies ws[s] == ws[s + n] && ws[s + 1]
        == ws[s + 1 + n] && ws[s + 2] == ws[s + 2 + n] && ws[s + 3] == ws[s + 3 + n] && ws[s + 4]
        == ws[s + 4 + n] && ws[s + 5] == ws[s + 5 + n] by {
        let i0 = s;
        let i1 = s + 1;
        let i2 = s + 2;
        let i3 = s + 3;
        let i4 = s + 4;
        let i5 = s + 5;
        assert(ws[i0] == ws[i0 + n] && ws[i1] == ws[i1 + n] && ws[i2] == ws[i2 + n] && ws[i3]
            == ws[i3 + n] && ws[i4] == ws[i4 + n] && ws[i5] == ws[i5 + n]);
    }
}

/// A phrase that is to stand once or not at all has to stand twice, as nothing
/// else repeats it; and a phrase without words stands anywhere.
pub proof fn law_least_repetition(ws: Seq<Seq<char>>, n: nat, count: nat)
    ensures
        count < 2 ==> phrase_loop(ws, n, count) == phrase_loop(ws, n, 2),
        phrase_loop(ws, 0, count),
{
    let times = at_least_two(count);
    assert(at_least_two(2) == 2);
    assert(count < 2 ==> times == 2);
    assert(0 * times == 0) by (nonlinear_arith);
    assert(phrase_run(ws, 0, 0, times));
}

} // verus!
