//! Text primitives. Strings are modelled as sequences of characters; each
//! executable function is proved against a short recursive definition.
use vstd::prelude::*;

verus! {

// ── Character classes ───────────────────────────────────────────────────────
/// The Unicode `White_Space` property.
pub open spec fn whitespace(c: char) -> bool {
    let n = c as u32;
    ||| 0x09 <= n <= 0x0d
    ||| n == 0x20
    ||| n == 0x85
    ||| n == 0xa0
    ||| n == 0x1680
    ||| 0x2000 <= n <= 0x200a
    ||| n == 0x2028
    ||| n == 0x2029
    ||| n == 0x202f
    ||| n == 0x205f
    ||| n == 0x3000
}

/// Whether `c` has the Unicode `White_Space` property.
pub fn is_whitespace(c: char) -> (b: bool)
    ensures
        b == whitespace(c),
{
    let n: u32 = c as u32;
    (0x09 <= n && n <= 0x0d) || n == 0x20 || n == 0x85 || n == 0xa0 || n == 0x1680 || (0x2000 <= n
        && n <= 0x200a) || n == 0x2028 || n == 0x2029 || n == 0x202f || n == 0x205f || n == 0x3000
}

/// The ASCII letters and digits.
pub open spec fn ascii_alphanumeric(c: char) -> bool {
    ||| 'a' <= c <= 'z'
    ||| 'A' <= c <= 'Z'
    ||| '0' <= c <= '9'
}

/// Whether `c` is an ASCII letter or digit.
pub fn is_ascii_alphanumeric(c: char) -> (b: bool)
    ensures
        b == ascii_alphanumeric(c),
{
    ('a' <= c && c <= 'z') || ('A' <= c && c <= 'Z') || ('0' <= c && c <= '9')
}

/// The answer of `char::is_alphanumeric`: the Unicode properties `Alphabetic`
/// and `Numeric`.
pub uninterp spec fn alphanumeric(c: char) -> bool;

/// Calls `char::is_alphanumeric`. The answer depends on the character alone,
/// and among the ASCII characters it is true of the letters and digits only.
#[verifier::external_body]
pub(crate) fn is_alphanumeric(c: char) -> (b: bool)
    ensures
        b == alphanumeric(c),
        (c as u32) < 128 ==> b == ascii_alphanumeric(c),
{
    c.is_alphanumeric()
}

/// A set of characters that can be cut from the ends of a text.
#[derive(Clone, Copy, PartialEq, Eq, Structural, Debug)]
pub enum CharClass {
    /// Unicode white space.
    Whitespace,
    /// Everything that is not alphanumeric.
    NonAlphanumeric,
    /// The character `/`.
    Slash,
}

/// Whether `c` belongs to `class`.
pub open spec fn in_class(class: CharClass, c: char) -> bool {
    match class {
        CharClass::Whitespace => whitespace(c),
        CharClass::NonAlphanumeric => !alphanumeric(c),
        CharClass::Slash => c == '/',
    }
}

fn is_in_class(class: CharClass, c: char) -> (b: bool)
    ensures
        b == in_class(class, c),
{
    match class {
        CharClass::Whitespace => is_whitespace(c),
        CharClass::NonAlphanumeric => !is_alphanumeric(c),
        CharClass::Slash => c == '/',
    }
}

// ── Conversions ─────────────────────────────────────────────────────────────
/// `String::push` appends the given character to the end of the string.
pub assume_specification[ String::push ](s: &mut String, c: char)
    ensures
        final(s)@ == old(s)@.push(c),
;

/// The characters of `s`, in order.
pub fn to_chars(s: &str) -> (v: Vec<char>)
    ensures
        v@ == s@,
{
    let mut v: Vec<char> = Vec::new();
    for c in it: s.chars()
        invariant
            it.seq() == s@,
            v@ == s@.take(it.index()),
    {
        v.push(c);
    }
    v
}

/// The string made of the given characters.
pub fn from_chars(v: &[char]) -> (s: String)
    ensures
        s@ == v@,
{
    from_chars_between(v, 0, v.len())
}

/// The string made of the characters from `lo` up to `hi`.
pub fn from_chars_between(v: &[char], lo: usize, hi: usize) -> (s: String)
    requires
        lo <= hi <= v@.len(),
    ensures
        s@ == v@.subrange(lo as int, hi as int),
{
    let mut s: String = String::new();
    let mut i: usize = lo;
    while i < hi
        invariant
            lo <= i <= hi <= v@.len(),
            s@ == v@.subrange(lo as int, i as int),
        decreases hi - i,
    {
        s.push(v[i]);
        i = i + 1;
    }
    s
}

/// Whether the two texts hold the same characters.
pub fn same_text(a: &str, b: &str) -> (r: bool)
    ensures
        r == (a@ == b@),
{
    a.to_owned() == b.to_owned()
}

/// The number of characters in `s`.
pub fn char_count(s: &str) -> (n: usize)
    ensures
        n == s@.len(),
{
    let v = to_chars(s);
    v.len()
}

/// The texts that a sequence of strings holds.
pub open spec fn texts(v: Seq<String>) -> Seq<Seq<char>> {
    Seq::new(v.len(), |i: int| v[i]@)
}

/// The text that an optional string holds.
pub open spec fn opt_text(s: Option<String>) -> Option<Seq<char>> {
    match s {
        Some(t) => Some(t@),
        None => None,
    }
}

// ── Trimming ────────────────────────────────────────────────────────────────
/// `s` without the characters of `class` at its front.
pub open spec fn trimmed_front(s: Seq<char>, class: CharClass) -> Seq<char>
    decreases s.len(),
{
    if s.len() > 0 && in_class(class, s[0]) {
        trimmed_front(s.skip(1), class)
    } else {
        s
    }
}

/// `s` without the characters of `class` at its back.
pub open spec fn trimmed_back(s: Seq<char>, class: CharClass) -> Seq<char>
    decreases s.len(),
{
    if s.len() > 0 && in_class(class, s.last()) {
        trimmed_back(s.drop_last(), class)
    } else {
        s
    }
}

/// `s` without the characters of `class` at either end.
pub open spec fn trimmed_both(s: Seq<char>, class: CharClass) -> Seq<char> {
    trimmed_back(trimmed_front(s, class), class)
}

/// `s` without white space at either end.
pub open spec fn trimmed(s: Seq<char>) -> Seq<char> {
    trimmed_both(s, CharClass::Whitespace)
}

/// The first position in `lo..hi` that is not in `class`, or `hi`.
pub fn front_bound(v: &[char], lo: usize, hi: usize, class: CharClass) -> (r: usize)
    requires
        lo <= hi <= v@.len(),
    ensures
        lo <= r <= hi,
        trimmed_front(v@.subrange(lo as int, hi as int), class) == v@.subrange(
            r as int,
            hi as int,
        ),
{
    let mut i: usize = lo;
    while i < hi && is_in_class(class, v[i])
        invariant
            lo <= i <= hi <= v@.len(),
            trimmed_front(v@.subrange(lo as int, hi as int), class) == trimmed_front(
                v@.subrange(i as int, hi as int),
                class,
            ),
        decreases hi - i,
    {
        assert(v@.subrange(i as int, hi as int).skip(1) =~= v@.subrange(i + 1, hi as int));
        i = i + 1;
    }
    i
}

/// The end of `lo..hi` after its characters of `class` at the back are cut.
fn back_bound(v: &[char], lo: usize, hi: usize, class: CharClass) -> (r: usize)
    requires
        lo <= hi <= v@.len(),
    ensures
        lo <= r <= hi,
        trimmed_back(v@.subrange(lo as int, hi as int), class) == v@.subrange(
            lo as int,
            r as int,
        ),
{
    let mut i: usize = hi;
    while i > lo && is_in_class(class, v[i - 1])
        invariant
            lo <= i <= hi <= v@.len(),
            trimmed_back(v@.subrange(lo as int, hi as int), class) == trimmed_back(
                v@.subrange(lo as int, i as int),
                class,
            ),
        decreases i,
    {
        assert(v@.subrange(lo as int, i as int).drop_last() =~= v@.subrange(lo as int, i - 1));
        i = i - 1;
    }
    i
}

/// The part of `lo..hi` that is left when both ends are trimmed.
fn both_bounds(v: &[char], lo: usize, hi: usize, class: CharClass) -> (r: (usize, usize))
    requires
        lo <= hi <= v@.len(),
    ensures
        lo <= r.0 <= r.1 <= hi,
        trimmed_both(v@.subrange(lo as int, hi as int), class) == v@.subrange(
            r.0 as int,
            r.1 as int,
        ),
{
    let a: usize = front_bound(v, lo, hi, class);
    let b: usize = back_bound(v, a, hi, class);
    (a, b)
}

/// `s` without white space at either end.
pub fn trim(s: &str) -> (r: String)
    ensures
        r@ == trimmed(s@),
{
    let v = to_chars(s);
    trim_chars(&v)
}

/// The characters `v` without white space at either end, as a string.
pub fn trim_chars(v: &[char]) -> (r: String)
    ensures
        r@ == trimmed(v@),
{
    let (a, b) = both_bounds(v, 0, v.len(), CharClass::Whitespace);
    assert(v@.subrange(0, v@.len() as int) =~= v@);
    from_chars_between(v, a, b)
}

/// The characters `v` without those of `class` at either end.
pub fn trim_copy(v: &[char], class: CharClass) -> (r: Vec<char>)
    ensures
        r@ == trimmed_both(v@, class),
{
    let (a, b) = both_bounds(v, 0, v.len(), class);
    assert(v@.subrange(0, v@.len() as int) =~= v@);
    copy_between(v, a, b)
}

/// `s` without the characters of `class` at its back.
pub fn trim_back(s: &str, class: CharClass) -> (r: String)
    ensures
        r@ == trimmed_back(s@, class),
{
    let v = to_chars(s);
    let b: usize = back_bound(&v, 0, v.len(), class);
    assert(v@.subrange(0, v@.len() as int) =~= v@);
    from_chars_between(&v, 0, b)
}

/// The characters of `v` from `lo` on without white space at their front.
pub fn trim_front_from(v: &[char], lo: usize) -> (r: String)
    requires
        lo <= v@.len(),
    ensures
        r@ == trimmed_front(v@.skip(lo as int), CharClass::Whitespace),
{
    let a: usize = front_bound(v, lo, v.len(), CharClass::Whitespace);
    assert(v@.subrange(lo as int, v@.len() as int) =~= v@.skip(lo as int));
    from_chars_between(v, a, v.len())
}

// ── Searching and replacing ─────────────────────────────────────────────────
/// Whether `s` begins with `p`.
pub open spec fn begins_with(s: Seq<char>, p: Seq<char>) -> bool {
    s.len() >= p.len() && s.take(p.len() as int) == p
}

/// The position of the first occurrence of `p` in `s`.
pub open spec fn find(s: Seq<char>, p: Seq<char>) -> Option<int>
    decreases s.len(),
{
    if begins_with(s, p) {
        Some(0)
    } else if s.len() == 0 {
        None
    } else {
        match find(s.skip(1), p) {
            Some(i) => Some(i + 1),
            None => None,
        }
    }
}

/// Whether `p` occurs in `s`.
pub open spec fn contains(s: Seq<char>, p: Seq<char>) -> bool {
    find(s, p) is Some
}

/// `s` with every occurrence of `p` replaced by `r`, found from left to right
/// without overlap.
pub open spec fn replaced(s: Seq<char>, p: Seq<char>, r: Seq<char>) -> Seq<char>
    decreases s.len(),
{
    if s.len() == 0 || p.len() == 0 {
        s
    } else if begins_with(s, p) {
        r + replaced(s.skip(p.len() as int), p, r)
    } else {
        seq![s[0]] + replaced(s.skip(1), p, r)
    }
}

/// `find` gives the first position at which `p` stands in `s`, and none exactly
/// when `p` stands nowhere in `s`.
pub proof fn lemma_find_is_first_occurrence(s: Seq<char>, p: Seq<char>)
    ensures
        match find(s, p) {
            Some(i) => {
                &&& 0 <= i && i + p.len() <= s.len()
                &&& s.subrange(i, i + p.len()) == p
                &&& forall|j: int| 0 <= j < i ==> !begins_with(#[trigger] s.skip(j), p)
            },
            None => forall|j: int|
                0 <= j && j + p.len() <= s.len() ==> #[trigger] s.subrange(j, j + p.len()) != p,
        },
    decreases s.len(),
{
    if begins_with(s, p) {
        assert(s.subrange(0, p.len() as int) =~= s.take(p.len() as int));
    } else if s.len() == 0 {
        assert forall|j: int| 0 <= j && j + p.len() <= s.len() implies #[trigger] s.subrange(
            j,
            j + p.len(),
        ) != p by {
            assert(s.subrange(j, j + p.len()) =~= s.take(p.len() as int));
        }
    } else {
        let t = s.skip(1);
        lemma_find_is_first_occurrence(t, p);
        match find(t, p) {
            Some(i) => {
                assert(s.subrange(i + 1, i + 1 + p.len()) =~= t.subrange(i, i + p.len()));
                assert forall|j: int| 0 <= j < i + 1 implies !begins_with(
                    #[trigger] s.skip(j),
                    p,
                ) by {
                    if j == 0 {
                        assert(s.skip(0) =~= s);
                    } else {
                        assert(s.skip(j) =~= t.skip(j - 1));
                    }
                }
            },
            None => {
                assert forall|j: int| 0 <= j && j + p.len() <= s.len() implies #[trigger] s.subrange(
                    j,
                    j + p.len(),
                ) != p by {
                    if j == 0 {
                        assert(s.subrange(0, p.len() as int) =~= s.take(p.len() as int));
                    } else {
                        assert(s.subrange(j, j + p.len()) =~= t.subrange(j - 1, j - 1 + p.len()));
                    }
                }
            },
        }
    }
}

/// Whether `p` stands in `v` at position `at`.
pub fn occurs_at(v: &[char], at: usize, p: &[char]) -> (r: bool)
    requires
        at <= v@.len(),
    ensures
        r == begins_with(v@.skip(at as int), p@),
{
    if v.len() - at < p.len() {
        return false;
    }
    let n: usize = v.len();
    let mut i: usize = 0;
    while i < p.len()
        invariant
            i <= p@.len() <= n - at,
            at <= n == v@.len(),
            forall|j: int| 0 <= j < i ==> v@[at + j] == p@[j],
        decreases p@.len() - i,
    {
        if v[at + i] != p[i] {
            assert(v@.skip(at as int).take(p@.len() as int)[i as int] != p@[i as int]);
            return false;
        }
        i = i + 1;
    }
    assert(v@.skip(at as int).take(p@.len() as int) =~= p@);
    true
}

/// Whether `s` begins with `p`.
pub fn starts_with(s: &str, p: &str) -> (r: bool)
    ensures
        r == begins_with(s@, p@),
{
    let v = to_chars(s);
    let w = to_chars(p);
    assert(v@.skip(0) =~= v@);
    occurs_at(&v, 0, &w)
}

/// The first position from `from` on at which `p` stands in `v`.
pub fn find_from(v: &[char], from: usize, p: &[char]) -> (r: Option<usize>)
    requires
        from <= v@.len(),
    ensures
        match (r, find(v@.skip(from as int), p@)) {
            (Some(i), Some(j)) => from <= i == from + j && i + p@.len() <= v@.len(),
            (None, None) => true,
            _ => false,
        },
{
    let mut i: usize = from;
    loop
        invariant
            from <= i <= v@.len(),
            match (find(v@.skip(from as int), p@), find(v@.skip(i as int), p@)) {
                (Some(a), Some(b)) => from + a == i + b,
                (None, None) => true,
                _ => false,
            },
        decreases v@.len() - i,
    {
        if occurs_at(v, i, p) {
            return Some(i);
        }
        if i == v.len() {
            return None;
        }
        assert(v@.skip(i as int).skip(1) =~= v@.skip(i + 1));
        i = i + 1;
    }
}

/// Whether `p` occurs in `v`.
pub fn has_occurrence(v: &[char], p: &[char]) -> (r: bool)
    ensures
        r == contains(v@, p@),
{
    assert(v@.skip(0) =~= v@);
    find_from(v, 0, p).is_some()
}

/// `v` with every occurrence of `p` replaced by `r`.
pub fn replace(v: &[char], p: &str, r: &str) -> (out: Vec<char>)
    requires
        p@.len() > 0,
    ensures
        out@ == replaced(v@, p@, r@),
{
    let pat = to_chars(p);
    let rep = to_chars(r);
    let mut out: Vec<char> = Vec::new();
    let mut i: usize = 0;
    assert(v@.skip(0) =~= v@);
    while i < v.len()
        invariant
            i <= v@.len(),
            pat@ == p@,
            rep@ == r@,
            p@.len() > 0,
            replaced(v@, p@, r@) == out@ + replaced(v@.skip(i as int), p@, r@),
        decreases v@.len() - i,
    {
        let ghost rest = v@.skip(i as int);
        if occurs_at(v, i, &pat) {
            let ghost before = out@;
            push_all(&mut out, &rep);
            assert(rest.skip(p@.len() as int) =~= v@.skip(i + p@.len()));
            assert(before + (r@ + replaced(v@.skip(i + p@.len()), p@, r@)) =~= (before + r@)
                + replaced(v@.skip(i + p@.len()), p@, r@));
            i = i + pat.len();
        } else {
            let ghost before = out@;
            out.push(v[i]);
            assert(rest.skip(1) =~= v@.skip(i + 1));
            assert(before + (seq![rest[0]] + replaced(v@.skip(i + 1), p@, r@)) =~= before.push(
                rest[0],
            ) + replaced(v@.skip(i + 1), p@, r@));
            i = i + 1;
        }
    }
    assert(v@.skip(i as int) =~= Seq::<char>::empty());
    assert(out@ + Seq::<char>::empty() =~= out@);
    out
}

// ── Lines and words ─────────────────────────────────────────────────────────
/// The position of the first line feed in `s`, or its length.
pub open spec fn line_end(s: Seq<char>) -> int
    decreases s.len(),
{
    if s.len() == 0 || s[0] == '\n' {
        0
    } else {
        line_end(s.skip(1)) + 1
    }
}

/// `s` without one carriage return at its back.
pub open spec fn without_cr(s: Seq<char>) -> Seq<char> {
    if s.len() > 0 && s.last() == '\r' {
        s.drop_last()
    } else {
        s
    }
}

/// The lines of `s`. A line ends at a line feed or at a carriage return and a
/// line feed; neither belongs to the line, and the last line needs no ending.
pub open spec fn lines(s: Seq<char>) -> Seq<Seq<char>>
    decreases s.len(),
{
    let k = line_end(s);
    if s.len() == 0 {
        seq![]
    } else if 0 <= k < s.len() {
        seq![without_cr(s.take(k))] + lines(s.skip(k + 1))
    } else {
        seq![s]
    }
}

proof fn lemma_line_end(s: Seq<char>)
    ensures
        0 <= line_end(s) <= s.len(),
        line_end(s) < s.len() ==> s[line_end(s)] == '\n',
        forall|i: int| 0 <= i < line_end(s) ==> s[i] != '\n',
    decreases s.len(),
{
    if s.len() > 0 && s[0] != '\n' {
        lemma_line_end(s.skip(1));
        assert forall|i: int| 0 <= i < line_end(s) implies s[i] != '\n' by {
            if i > 0 {
                assert(s[i] == s.skip(1)[i - 1]);
            }
        }
    }
}

/// The texts that a sequence of character vectors holds.
pub open spec fn rows(v: Seq<Vec<char>>) -> Seq<Seq<char>> {
    Seq::new(v.len(), |i: int| v[i]@)
}

fn line_end_from(v: &[char], from: usize) -> (r: usize)
    requires
        from <= v@.len(),
    ensures
        r == from + line_end(v@.skip(from as int)),
        from <= r <= v@.len(),
{
    let mut i: usize = from;
    while i < v.len() && v[i] != '\n'
        invariant
            from <= i <= v@.len(),
            from + line_end(v@.skip(from as int)) == i + line_end(v@.skip(i as int)),
        decreases v@.len() - i,
    {
        assert(v@.skip(i as int).skip(1) =~= v@.skip(i + 1));
        i = i + 1;
    }
    i
}

/// The lines of `v`.
pub fn split_lines(v: &[char]) -> (out: Vec<Vec<char>>)
    ensures
        rows(out@) == lines(v@),
{
    let mut out: Vec<Vec<char>> = Vec::new();
    let mut i: usize = 0;
    assert(v@.skip(0) =~= v@);
    assert(rows(out@) + lines(v@) =~= lines(v@));
    while i < v.len()
        invariant
            i <= v@.len(),
            lines(v@) == rows(out@) + lines(v@.skip(i as int)),
        decreases v@.len() - i,
    {
        let ghost rest = v@.skip(i as int);
        let ghost before = rows(out@);
        let k: usize = line_end_from(v, i);
        proof {
            lemma_line_end(rest);
        }
        if k == v.len() {
            let line = copy_between(v, i, k);
            assert(line@ =~= rest);
            out.push(line);
            assert(rows(out@) =~= before + seq![rest]);
            assert(v@.skip(k as int) =~= Seq::<char>::empty());
            assert(rows(out@) + lines(v@.skip(k as int)) =~= before + lines(rest));
            i = k;
        } else {
            let end: usize = if k > i && v[k - 1] == '\r' {
                k - 1
            } else {
                k
            };
            let line = copy_between(v, i, end);
            assert(rest.take(k - i) =~= v@.subrange(i as int, k as int));
            assert(line@ =~= without_cr(rest.take(k - i)));
            out.push(line);
            assert(rest.skip(k - i + 1) =~= v@.skip(k + 1));
            assert(rows(out@) =~= before.push(line@));
            assert(rows(out@) + lines(v@.skip(k + 1)) =~= before + lines(rest));
            i = k + 1;
        }
    }
    assert(v@.skip(i as int) =~= Seq::<char>::empty());
    assert(rows(out@) + lines(v@.skip(i as int)) =~= rows(out@));
    out
}

/// The characters of `v` from `lo` up to `hi`.
pub fn copy_between(v: &[char], lo: usize, hi: usize) -> (out: Vec<char>)
    requires
        lo <= hi <= v@.len(),
    ensures
        out@ == v@.subrange(lo as int, hi as int),
{
    let mut out: Vec<char> = Vec::new();
    let mut i: usize = lo;
    while i < hi
        invariant
            lo <= i <= hi <= v@.len(),
            out@ == v@.subrange(lo as int, i as int),
        decreases hi - i,
    {
        out.push(v[i]);
        i = i + 1;
    }
    out
}

/// The number of characters before the first white space in `s`.
pub open spec fn word_len(s: Seq<char>) -> int
    decreases s.len(),
{
    if s.len() == 0 || whitespace(s[0]) {
        0
    } else {
        word_len(s.skip(1)) + 1
    }
}

/// The words of `s`: its longest pieces without white space.
pub open spec fn words(s: Seq<char>) -> Seq<Seq<char>>
    decreases s.len(),
{
    if s.len() == 0 {
        seq![]
    } else if whitespace(s[0]) {
        words(s.skip(1))
    } else if 0 < word_len(s) <= s.len() {
        seq![s.take(word_len(s))] + words(s.skip(word_len(s)))
    } else {
        seq![]
    }
}

proof fn lemma_word_len(s: Seq<char>)
    ensures
        0 <= word_len(s) <= s.len(),
        s.len() > 0 && !whitespace(s[0]) ==> word_len(s) > 0,
        forall|i: int| 0 <= i < word_len(s) ==> !whitespace(s[i]),
        word_len(s) < s.len() ==> whitespace(s[word_len(s)]),
    decreases s.len(),
{
    if s.len() > 0 && !whitespace(s[0]) {
        lemma_word_len(s.skip(1));
        assert forall|i: int| 0 <= i < word_len(s) implies !whitespace(s[i]) by {
            if i > 0 {
                assert(s[i] == s.skip(1)[i - 1]);
            }
        }
    }
}

/// The position of the first white space in `v` from `from` on, or the length.
pub fn word_end_from(v: &[char], from: usize) -> (r: usize)
    requires
        from <= v@.len(),
    ensures
        r == from + word_len(v@.skip(from as int)),
        from <= r <= v@.len(),
{
    let mut i: usize = from;
    while i < v.len() && !is_whitespace(v[i])
        invariant
            from <= i <= v@.len(),
            from + word_len(v@.skip(from as int)) == i + word_len(v@.skip(i as int)),
        decreases v@.len() - i,
    {
        assert(v@.skip(i as int).skip(1) =~= v@.skip(i + 1));
        i = i + 1;
    }
    i
}

/// The words of `v`.
pub fn split_words(v: &[char]) -> (out: Vec<Vec<char>>)
    ensures
        rows(out@) == words(v@),
{
    let mut out: Vec<Vec<char>> = Vec::new();
    let mut i: usize = 0;
    assert(v@.skip(0) =~= v@);
    assert(rows(out@) + words(v@) =~= words(v@));
    while i < v.len()
        invariant
            i <= v@.len(),
            words(v@) == rows(out@) + words(v@.skip(i as int)),
        decreases v@.len() - i,
    {
        let ghost rest = v@.skip(i as int);
        let ghost before = rows(out@);
        if is_whitespace(v[i]) {
            assert(rest.skip(1) =~= v@.skip(i + 1));
            i = i + 1;
        } else {
            let k: usize = word_end_from(v, i);
            proof {
                lemma_word_len(rest);
            }
            let word = copy_between(v, i, k);
            assert(word@ =~= rest.take(k - i));
            out.push(word);
            assert(rest.skip(k - i) =~= v@.skip(k as int));
            assert(rows(out@) =~= before.push(word@));
            assert(rows(out@) + words(v@.skip(k as int)) =~= before + words(rest));
            i = k;
        }
    }
    assert(v@.skip(i as int) =~= Seq::<char>::empty());
    assert(rows(out@) + words(v@.skip(i as int)) =~= rows(out@));
    out
}

// ── Case ────────────────────────────────────────────────────────────────────
/// The ASCII lower case of `c`.
pub open spec fn ascii_lower(c: char) -> char {
    if 'A' <= c <= 'Z' {
        ((c as u32 + 32) as u32) as char
    } else {
        c
    }
}

/// The answer of `str::to_lowercase`: the Unicode lower case of a text.
pub uninterp spec fn lowercase(s: Seq<char>) -> Seq<char>;

/// Calls `str::to_lowercase`. The answer depends on the text alone, and in a
/// text of ASCII characters exactly the letters `A` to `Z` change.
#[verifier::external_body]
pub(crate) fn to_lowercase(s: &str) -> (r: String)
    ensures
        r@ == lowercase(s@),
        vstd::string::is_ascii(s) ==> r@ == s@.map_values(|c: char| ascii_lower(c)),
{
    s.to_lowercase()
}

/// Appends the characters of `tail` to `v`.
pub fn push_all(v: &mut Vec<char>, tail: &[char])
    ensures
        final(v)@ == old(v)@ + tail@,
{
    let mut i: usize = 0;
    let ghost before = v@;
    while i < tail.len()
        invariant
            i <= tail@.len(),
            v@ == before + tail@.take(i as int),
        decreases tail@.len() - i,
    {
        v.push(tail[i]);
        assert(tail@.take(i + 1) =~= tail@.take(i as int).push(tail@[i as int]));
        assert(v@ =~= before + tail@.take(i + 1));
        i = i + 1;
    }
    assert(tail@.take(i as int) =~= tail@);
}

// ── Laws ────────────────────────────────────────────────────────────────────
/// White space is, among the ASCII characters, the space and the five controls
/// from the tab to the carriage return, and beyond them the Unicode separators
/// of words and lines.
pub proof fn law_white_space(c: char)
    ensures
        (c as u32) < 128 ==> (whitespace(c) <==> c == ' ' || c == '\t' || c == '\n' || c == '\u{b}'
            || c == '\u{c}' || c == '\r'),
        (c as u32) >= 128 ==> (whitespace(c) <==> c == '\u{85}' || c == '\u{a0}' || c == '\u{1680}'
            || '\u{2000}' <= c <= '\u{200a}' || c == '\u{2028}' || c == '\u{2029}'
            || c == '\u{202f}' || c == '\u{205f}' || c == '\u{3000}'),
{
}

/// The ASCII letters and digits are these.
pub proof fn law_ascii_alphanumeric(c: char)
    ensures
        ascii_alphanumeric(c) <==> (65 <= c as u32 <= 90) || (97 <= c as u32 <= 122) || (48 <= c
            as u32 <= 57),
{
}

/// Trimming cuts at the two ends and nowhere else: what is cut belongs to the
/// class, and what is left neither begins nor ends with a character of it.
pub proof fn law_trimming(s: Seq<char>, class: CharClass) -> (r: (int, int))
    ensures
        0 <= r.0 <= r.1 <= s.len(),
        trimmed_both(s, class) == s.subrange(r.0, r.1),
        forall|i: int| 0 <= i < r.0 || r.1 <= i < s.len() ==> in_class(class, #[trigger] s[i]),
        r.0 < r.1 ==> !in_class(class, s[r.0]) && !in_class(class, s[r.1 - 1]),
        class == CharClass::Whitespace ==> trimmed(s) == trimmed_both(s, class),
{
    let lo = lemma_trimmed_front(s, class);
    let t = s.skip(lo);
    let n = lemma_trimmed_back(t, class);
    assert(t.take(n) =~= s.subrange(lo, lo + n));
    assert forall|i: int| 0 <= i < lo || lo + n <= i < s.len() implies in_class(
        class,
        #[trigger] s[i],
    ) by {
        if i >= lo {
            assert(t[i - lo] == s[i]);
        }
    }
    if n > 0 {
        assert(t[0] == s[lo] && t[n - 1] == s[lo + n - 1]);
    }
    (lo, lo + n)
}

/// Trimming at the front cuts there and nowhere else.
pub proof fn lemma_trimmed_front(s: Seq<char>, class: CharClass) -> (lo: int)
    ensures
        0 <= lo <= s.len(),
        trimmed_front(s, class) == s.skip(lo),
        forall|i: int| 0 <= i < lo ==> in_class(class, #[trigger] s[i]),
        lo < s.len() ==> !in_class(class, s[lo]),
    decreases s.len(),
{
    if s.len() > 0 && in_class(class, s[0]) {
        let t = s.skip(1);
        let k = lemma_trimmed_front(t, class);
        assert(t.skip(k) =~= s.skip(k + 1));
        assert forall|i: int| 0 <= i < k + 1 implies in_class(class, #[trigger] s[i]) by {
            if i > 0 {
                assert(t[i - 1] == s[i]);
            }
        }
        if k < t.len() {
            assert(t[k] == s[k + 1]);
        }
        k + 1
    } else {
        assert(s.skip(0) =~= s);
        0
    }
}

/// Trimming at the back cuts there and nowhere else.
pub proof fn lemma_trimmed_back(s: Seq<char>, class: CharClass) -> (hi: int)
    ensures
        0 <= hi <= s.len(),
        trimmed_back(s, class) == s.take(hi),
        forall|i: int| hi <= i < s.len() ==> in_class(class, #[trigger] s[i]),
        hi > 0 ==> !in_class(class, s[hi - 1]),
    decreases s.len(),
{
    if s.len() > 0 && in_class(class, s.last()) {
        let t = s.drop_last();
        let k = lemma_trimmed_back(t, class);
        assert(t.take(k) =~= s.take(k));
        assert forall|i: int| k <= i < s.len() implies in_class(class, #[trigger] s[i]) by {
            if i < t.len() {
                assert(t[i] == s[i]);
            }
        }
        if k > 0 {
            assert(t[k - 1] == s[k - 1]);
        }
        k
    } else {
        assert(s.take(s.len() as int) =~= s);
        s.len() as int
    }
}

/// The classes that can be trimmed: white space, what is not alphanumeric, and
/// the slash.
pub proof fn law_char_classes(c: char)
    ensures
        in_class(CharClass::Whitespace, c) <==> whitespace(c),
        in_class(CharClass::NonAlphanumeric, c) <==> !alphanumeric(c),
        in_class(CharClass::Slash, c) <==> c == '/',
{
}

/// A text begins with another where it holds the other's characters first.
pub proof fn law_begins_with(s: Seq<char>, p: Seq<char>)
    ensures
        begins_with(s, p) <==> p.len() <= s.len() && forall|i: int|
            0 <= i < p.len() ==> #[trigger] s[i] == p[i],
        begins_with(p + s, p),
{
    if begins_with(s, p) {
        assert forall|i: int| 0 <= i < p.len() implies #[trigger] s[i] == p[i] by {
            assert(s.take(p.len() as int)[i] == s[i]);
        }
    }
    if p.len() <= s.len() && forall|i: int| 0 <= i < p.len() ==> #[trigger] s[i] == p[i] {
        assert(s.take(p.len() as int) =~= p);
    }
    assert((p + s).take(p.len() as int) =~= p);
}

/// A text occurs in another exactly where the other is something, the text, and
/// something more.
pub proof fn law_contains(s: Seq<char>, p: Seq<char>)
    ensures
        contains(s, p) <==> exists|i: int|
            0 <= i && i + p.len() <= s.len() && #[trigger] s.subrange(i, i + p.len()) == p,
{
    lemma_find_is_first_occurrence(s, p);
}

/// Replacing leaves what stands in front of the first occurrence, puts the
/// replacement in its place and goes on behind it; without an occurrence nothing
/// changes.
pub proof fn law_replacing(front: Seq<char>, rest: Seq<char>, p: Seq<char>, r: Seq<char>)
    requires
        p.len() > 0,
        forall|i: int|
            0 <= i < front.len() ==> !begins_with(#[trigger] (front + p + rest).skip(i), p),
    ensures
        replaced(front + p + rest, p, r) == front + r + replaced(rest, p, r),
        !contains(rest, p) ==> replaced(rest, p, r) == rest,
{
    let tail = p + rest;
    assert(front + p + rest =~= front + tail);
    assert forall|i: int| 0 <= i < front.len() implies !begins_with(
        #[trigger] (front + tail).skip(i),
        p,
    ) by {
        assert((front + p + rest).skip(i) =~= (front + tail).skip(i));
    }
    lemma_replaced_behind(front, tail, p, r);
    assert(tail.take(p.len() as int) =~= p);
    assert(tail.skip(p.len() as int) =~= rest);
    assert(front + (r + replaced(rest, p, r)) =~= front + r + replaced(rest, p, r));
    if !contains(rest, p) {
        lemma_replaced_nothing(rest, p, r);
    }
}

/// Replacing copies what no occurrence begins in.
pub proof fn lemma_replaced_behind(front: Seq<char>, rest: Seq<char>, p: Seq<char>, r: Seq<char>)
    requires
        p.len() > 0,
        forall|i: int| 0 <= i < front.len() ==> !begins_with(#[trigger] (front + rest).skip(i), p),
    ensures
        replaced(front + rest, p, r) == front + replaced(rest, p, r),
    decreases front.len(),
{
    let s = front + rest;
    if front.len() == 0 {
        assert(s =~= rest);
        assert(front + replaced(rest, p, r) =~= replaced(rest, p, r));
    } else {
        let t = front.skip(1);
        assert(s.skip(0) =~= s);
        assert(s.skip(1) =~= t + rest);
        assert forall|i: int| 0 <= i < t.len() implies !begins_with(
            #[trigger] (t + rest).skip(i),
            p,
        ) by {
            assert((t + rest).skip(i) =~= s.skip(i + 1));
        }
        lemma_replaced_behind(t, rest, p, r);
        assert(s[0] == front[0]);
        assert(seq![front[0]] + (t + replaced(rest, p, r)) =~= front + replaced(rest, p, r));
    }
}

/// Without an occurrence, replacing changes nothing.
pub proof fn lemma_replaced_nothing(s: Seq<char>, p: Seq<char>, r: Seq<char>)
    requires
        p.len() > 0,
        !contains(s, p),
    ensures
        replaced(s, p, r) == s,
    decreases s.len(),
{
    if s.len() > 0 {
        lemma_replaced_nothing(s.skip(1), p, r);
        assert(seq![s[0]] + s.skip(1) =~= s);
    }
}

proof fn lemma_line_end_of(line: Seq<char>, rest: Seq<char>)
    requires
        !line.contains('\n'),
        rest.len() > 0 ==> rest[0] == '\n',
    ensures
        line_end(line + rest) == line.len(),
    decreases line.len(),
{
    let s = line + rest;
    if line.len() == 0 {
        assert(s =~= rest);
    } else {
        let t = line.skip(1);
        assert(s[0] == line[0]);
        assert(line.contains(line[0]));
        assert(s.skip(1) =~= t + rest);
        assert(!t.contains('\n')) by {
            if t.contains('\n') {
                let i = choose|i: int| 0 <= i < t.len() && t[i] == '\n';
                assert(line[i + 1] == '\n');
            }
        }
        lemma_line_end_of(t, rest);
    }
}

/// A line ends at a line feed, with or without a carriage return before it; what
/// follows the line feed is the next line, and the last line needs no ending.
pub proof fn law_lines(line: Seq<char>, rest: Seq<char>)
    requires
        !line.contains('\n'),
    ensures
        line.len() > 0 ==> lines(line) == seq![line],
        lines(seq![]) == Seq::<Seq<char>>::empty(),
        !(line.len() > 0 && line.last() == '\r') ==> lines(line + seq!['\n'] + rest) == seq![line]
            + lines(rest),
        lines(line + seq!['\r', '\n'] + rest) == seq![line] + lines(rest),
{
    lemma_line_end_of(line, seq![]);
    assert(line + seq![] =~= line);
    let s = line + seq!['\n'] + rest;
    assert(s =~= line + (seq!['\n'] + rest));
    lemma_line_end_of(line, seq!['\n'] + rest);
    assert(s.take(line.len() as int) =~= line);
    assert(s.skip(line.len() as int + 1) =~= rest);
    let cr = line.push('\r');
    let u = line + seq!['\r', '\n'] + rest;
    assert(u =~= cr + (seq!['\n'] + rest));
    assert(!cr.contains('\n')) by {
        if cr.contains('\n') {
            let i = choose|i: int| 0 <= i < cr.len() && cr[i] == '\n';
            assert(line[i] == '\n');
        }
    }
    lemma_line_end_of(cr, seq!['\n'] + rest);
    assert(u.take(cr.len() as int) =~= cr);
    assert(cr.drop_last() =~= line);
    assert(u.skip(cr.len() as int + 1) =~= rest);
}

proof fn lemma_word_len_of(word: Seq<char>, rest: Seq<char>)
    requires
        forall|i: int| 0 <= i < word.len() ==> !whitespace(#[trigger] word[i]),
        rest.len() > 0 ==> whitespace(rest[0]),
    ensures
        word_len(word + rest) == word.len(),
    decreases word.len(),
{
    let s = word + rest;
    if word.len() == 0 {
        assert(s =~= rest);
    } else {
        let t = word.skip(1);
        assert(s[0] == word[0]);
        assert(s.skip(1) =~= t + rest);
        assert forall|i: int| 0 <= i < t.len() implies !whitespace(#[trigger] t[i]) by {
            assert(t[i] == word[i + 1]);
        }
        lemma_word_len_of(t, rest);
    }
}

/// Words are what stands between white space: white space in front does not
/// matter, and a word reaches up to the next white space or the end.
pub proof fn law_words(gap: Seq<char>, word: Seq<char>, rest: Seq<char>)
    requires
        forall|i: int| 0 <= i < gap.len() ==> whitespace(#[trigger] gap[i]),
        forall|i: int| 0 <= i < word.len() ==> !whitespace(#[trigger] word[i]),
        rest.len() > 0 ==> whitespace(rest[0]),
    ensures
        word.len() > 0 ==> words(gap + word + rest) == seq![word] + words(rest),
        words(gap) == Seq::<Seq<char>>::empty(),
    decreases gap.len(),
{
    let s = gap + word + rest;
    if gap.len() == 0 {
        assert(s =~= word + rest);
        lemma_word_len_of(word, rest);
        if word.len() > 0 {
            assert(s[0] == word[0]);
            assert(s.take(word.len() as int) =~= word);
            assert(s.skip(word.len() as int) =~= rest);
        }
    } else {
        let t = gap.skip(1);
        assert(s[0] == gap[0]);
        assert(s.skip(1) =~= t + word + rest);
        assert forall|i: int| 0 <= i < t.len() implies whitespace(#[trigger] t[i]) by {
            assert(t[i] == gap[i + 1]);
        }
        law_words(t, word, rest);
    }
}

/// The texts of a list of strings are those of its strings, in order, and the
/// text of an optional string is that of the string.
pub proof fn law_texts(v: Seq<String>, s: String)
    ensures
        texts(v).len() == v.len(),
        forall|i: int| 0 <= i < v.len() ==> #[trigger] texts(v)[i] == v[i]@,
        opt_text(Some(s)) == Some(s@),
        opt_text(None) is None,
{
}

/// The lower case of an ASCII letter lies 32 places behind its upper case; every
/// other character is its own.
pub proof fn law_ascii_lower(c: char)
    ensures
        'A' <= c <= 'Z' ==> ascii_lower(c) as u32 == c as u32 + 32,
        !('A' <= c <= 'Z') ==> ascii_lower(c) == c,
{
}

} // verus!
