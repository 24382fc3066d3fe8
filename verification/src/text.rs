//! Operations on text, seen as sequences of characters.
//!
//! The executable functions work on `&str` and return owned strings; their contracts are stated
//! over the `Seq<char>` views by the specification functions of this module.
use vstd::prelude::*;
use vstd::string::*;

verus! {

/// `String::push` appends one character at the end of the string.
pub assume_specification[ String::push ](s: &mut String, c: char)
    ensures
        final(s)@ == old(s)@.push(c),
;

/// Equality of `str` values: true exactly when both hold the same characters.
pub assume_specification[ <str as PartialEq>::eq ](a: &str, b: &str) -> (r: bool)
    ensures
        r == (a@ == b@),
;

// ---------------------------------------------------------------------------
// Specifications
// ---------------------------------------------------------------------------
/// `pat` stands in `s` at position `i`.
pub open spec fn occurs_at<T>(s: Seq<T>, pat: Seq<T>, i: int) -> bool {
    0 <= i && i + pat.len() <= s.len() && s.subrange(i, i + pat.len()) == pat
}

/// `pat` stands somewhere in `s`.
pub open spec fn contains_seq<T>(s: Seq<T>, pat: Seq<T>) -> bool {
    exists|i: int| occurs_at(s, pat, i)
}

/// The first position at or after `from` at which `pat` stands in `s`.
pub open spec fn find_seq<T>(s: Seq<T>, pat: Seq<T>, from: int) -> Option<int>
    decreases s.len() - from,
{
    if from < 0 || from + pat.len() > s.len() {
        None
    } else if occurs_at(s, pat, from) {
        Some(from)
    } else if from < s.len() {
        find_seq(s, pat, from + 1)
    } else {
        None
    }
}

/// The views of a sequence of strings.
pub open spec fn views(v: Seq<String>) -> Seq<Seq<char>> {
    Seq::new(v.len(), |i: int| v[i]@)
}

/// The view of an optional string.
pub open spec fn opt_view(o: Option<String>) -> Option<Seq<char>> {
    match o {
        Some(s) => Some(s@),
        None => None,
    }
}

/// The view of an optional string slice.
pub open spec fn opt_str_view(o: Option<&str>) -> Option<Seq<char>> {
    match o {
        Some(s) => Some(s@),
        None => None,
    }
}

/// The characters of the Unicode property `White_Space`.
pub open spec fn is_white(c: char) -> bool {
    ||| '\u{9}' <= c <= '\u{d}'
    ||| c == ' '
    ||| c == '\u{85}'
    ||| c == '\u{a0}'
    ||| c == '\u{1680}'
    ||| '\u{2000}' <= c <= '\u{200a}'
    ||| c == '\u{2028}'
    ||| c == '\u{2029}'
    ||| c == '\u{202f}'
    ||| c == '\u{205f}'
    ||| c == '\u{3000}'
}

/// The white space of ASCII: space, tab, line feed, form feed and carriage return.
pub open spec fn is_ascii_white(c: char) -> bool {
    c == ' ' || c == '\t' || c == '\n' || c == '\u{c}' || c == '\r'
}

/// The first position at or after `from` that does not hold white space.
pub open spec fn skip_white(s: Seq<char>, from: int) -> int
    decreases s.len() - from,
{
    if 0 <= from < s.len() && is_white(s[from]) {
        skip_white(s, from + 1)
    } else {
        from
    }
}

/// The first position at or after `from` that holds white space, or the end.
pub open spec fn skip_word(s: Seq<char>, from: int) -> int
    decreases s.len() - from,
{
    if 0 <= from < s.len() && !is_white(s[from]) {
        skip_word(s, from + 1)
    } else {
        from
    }
}

/// The least position from which `s` holds only white space up to `to`.
pub open spec fn drop_white(s: Seq<char>, to: int) -> int
    decreases to,
{
    if 0 < to <= s.len() && is_white(s[to - 1]) {
        drop_white(s, to - 1)
    } else {
        to
    }
}

/// `s` without its leading white space.
pub open spec fn trim_start_of(s: Seq<char>) -> Seq<char> {
    s.skip(skip_white(s, 0))
}

/// `s` without its trailing white space.
pub open spec fn trim_end_of(s: Seq<char>) -> Seq<char> {
    s.take(drop_white(s, s.len() as int))
}

/// `s` without its leading and trailing white space.
pub open spec fn trim_of(s: Seq<char>) -> Seq<char> {
    trim_end_of(trim_start_of(s))
}

/// An ASCII capital letter as its small letter; every other character as it is.
pub open spec fn lower_char(c: char) -> char {
    if 'A' <= c <= 'Z' {
        ((c as u8) + 32) as char
    } else {
        c
    }
}

/// `s` with its ASCII capital letters made small.
pub open spec fn ascii_lower(s: Seq<char>) -> Seq<char> {
    Seq::new(s.len(), |i: int| lower_char(s[i]))
}

/// The first position at or after `from` that holds `c`, or the end.
pub open spec fn seek(s: Seq<char>, c: char, from: int) -> int
    decreases s.len() - from,
{
    if 0 <= from < s.len() && s[from] != c {
        seek(s, c, from + 1)
    } else {
        from
    }
}

/// `s` split at the first `c`, or `None` where `c` does not occur.
pub open spec fn split_once_of(s: Seq<char>, c: char) -> Option<(Seq<char>, Seq<char>)> {
    let i = seek(s, c, 0);
    if i < s.len() {
        Some((s.take(i), s.skip(i + 1)))
    } else {
        None
    }
}

/// What stands in `s` before the first `c`; all of `s` where `c` does not occur.
pub open spec fn before_of(s: Seq<char>, c: char) -> Seq<char> {
    s.take(seek(s, c, 0))
}

/// `s` without the prefix `p`, or `None` where `s` does not start with it.
pub open spec fn strip_prefix_of(s: Seq<char>, p: Seq<char>) -> Option<Seq<char>> {
    if p.is_prefix_of(s) {
        Some(s.skip(p.len() as int))
    } else {
        None
    }
}

/// `s` without the suffix `p`, or `None` where `s` does not end with it.
pub open spec fn strip_suffix_of(s: Seq<char>, p: Seq<char>) -> Option<Seq<char>> {
    if p.is_suffix_of(s) {
        Some(s.take(s.len() - p.len()))
    } else {
        None
    }
}

/// A line without the carriage return that its line feed leaves at the end.
pub open spec fn without_cr(s: Seq<char>) -> Seq<char> {
    if s.len() > 0 && s.last() == '\r' {
        s.drop_last()
    } else {
        s
    }
}

/// The lines of `s` from position `from` on. A line ends with a line feed, or with a carriage
/// return and a line feed; the last line may lack its ending.
pub open spec fn lines_from(s: Seq<char>, from: int) -> Seq<Seq<char>>
    decreases s.len() - from,
{
    if 0 <= from < s.len() {
        let i = seek(s, '\n', from);
        if from <= i < s.len() {
            seq![without_cr(s.subrange(from, i))] + lines_from(s, i + 1)
        } else {
            seq![s.skip(from)]
        }
    } else {
        seq![]
    }
}

/// The lines of `s`.
pub open spec fn lines_of(s: Seq<char>) -> Seq<Seq<char>> {
    lines_from(s, 0)
}

/// `s` from position `from` on, with every occurrence of `pat`, read from left to right without
/// overlap, replaced by `by`.
pub open spec fn replace_from(s: Seq<char>, pat: Seq<char>, by: Seq<char>, from: int) -> Seq<char>
    decreases s.len() - from,
{
    match find_seq(s, pat, from) {
        Some(i) => if 0 <= from <= i && i + pat.len() <= s.len() && pat.len() > 0 {
            s.subrange(from, i) + by + replace_from(s, pat, by, (i + pat.len()) as int)
        } else {
            s.skip(from)
        },
        None => s.skip(from),
    }
}

/// `s` with every occurrence of `pat` replaced by `by`.
pub open spec fn replace_of(s: Seq<char>, pat: Seq<char>, by: Seq<char>) -> Seq<char> {
    replace_from(s, pat, by, 0)
}

/// The strings of `parts` in order, with `sep` between each two.
pub open spec fn join_of(parts: Seq<Seq<char>>, sep: Seq<char>) -> Seq<char>
    decreases parts.len(),
{
    if parts.len() == 0 {
        seq![]
    } else if parts.len() == 1 {
        parts[0]
    } else {
        join_of(parts.drop_last(), sep) + sep + parts.last()
    }
}

/// `c` repeated `n` times.
pub open spec fn repeat_of(c: char, n: int) -> Seq<char> {
    Seq::new(
        if n >= 0 {
            n as nat
        } else {
            0
        },
        |i: int| c,
    )
}

/// `s` with spaces in front of it up to the width `w`.
pub open spec fn pad_left_of(s: Seq<char>, w: int) -> Seq<char> {
    repeat_of(' ', w - s.len()) + s
}

/// `s` without the copies of `p` at its end.
pub open spec fn trim_end_matches_of(s: Seq<char>, p: Seq<char>) -> Seq<char>
    decreases s.len(),
{
    if p.len() > 0 && p.is_suffix_of(s) {
        trim_end_matches_of(s.take(s.len() - p.len()), p)
    } else {
        s
    }
}

/// The first `n` characters of `s`, or all of them where there are fewer.
pub open spec fn take_of(s: Seq<char>, n: int) -> Seq<char> {
    if n < s.len() {
        s.take(n)
    } else {
        s
    }
}

/// The word that `s` starts with after white space; empty where there is none.
pub open spec fn first_word_of(s: Seq<char>) -> Seq<char> {
    let a = skip_white(s, 0);
    s.subrange(a, skip_word(s, a))
}

/// The least position from which `s` holds only non-white characters up to `to`.
pub open spec fn drop_word(s: Seq<char>, to: int) -> int
    decreases to,
{
    if 0 < to <= s.len() && !is_white(s[to - 1]) {
        drop_word(s, to - 1)
    } else {
        to
    }
}

/// The word that `s` ends with before white space; empty where there is none.
pub open spec fn last_word_of(s: Seq<char>) -> Seq<char> {
    let b = drop_white(s, s.len() as int);
    s.subrange(drop_word(s, b), b)
}

// ---------------------------------------------------------------------------
// Facts about the specifications
// ---------------------------------------------------------------------------
pub proof fn lemma_find_seq<T>(s: Seq<T>, pat: Seq<T>, from: int)
    requires
        0 <= from,
    ensures
        match find_seq(s, pat, from) {
            Some(i) => from <= i && occurs_at(s, pat, i) && forall|j: int|
                from <= j < i ==> !occurs_at(s, pat, j),
            None => forall|j: int| from <= j ==> !occurs_at(s, pat, j),
        },
    decreases s.len() - from,
{
    if from + pat.len() > s.len() {
    } else if occurs_at(s, pat, from) {
    } else if from < s.len() {
        lemma_find_seq(s, pat, from + 1);
        assert forall|j: int|
            from <= j && (find_seq(s, pat, from) is None || j < find_seq(s, pat, from)->0) implies !occurs_at(
            s,
            pat,
            j,
        ) by {
            if j > from {
                assert(from + 1 <= j);
            }
        }
    }
}

/// A search that failed up to `to` continues there.
pub proof fn lemma_find_seq_step<T>(s: Seq<T>, pat: Seq<T>, from: int, to: int)
    requires
        0 <= from <= to <= s.len(),
        forall|j: int| from <= j < to ==> !occurs_at(s, pat, j),
    ensures
        find_seq(s, pat, from) == find_seq(s, pat, to),
    decreases to - from,
{
    if from < to {
        assert(!occurs_at(s, pat, from));
        lemma_find_seq_step(s, pat, from + 1, to);
        if from + pat.len() > s.len() {
            assert(to + pat.len() > s.len());
        }
    }
}

pub proof fn lemma_contains_find<T>(s: Seq<T>, pat: Seq<T>)
    ensures
        contains_seq(s, pat) == (find_seq(s, pat, 0) is Some),
{
    lemma_find_seq(s, pat, 0);
    if contains_seq(s, pat) {
        let i = choose|i: int| occurs_at(s, pat, i);
        assert(occurs_at(s, pat, i));
        assert(0 <= i);
    }
}

pub proof fn lemma_seek(s: Seq<char>, c: char, from: int)
    requires
        0 <= from <= s.len(),
    ensures
        from <= seek(s, c, from) <= s.len(),
        forall|j: int| from <= j < seek(s, c, from) ==> s[j] != c,
        seek(s, c, from) < s.len() ==> s[seek(s, c, from)] == c,
    decreases s.len() - from,
{
    if from < s.len() && s[from] != c {
        lemma_seek(s, c, from + 1);
    }
}

pub proof fn lemma_seek_step(s: Seq<char>, c: char, from: int, to: int)
    requires
        0 <= from <= to <= s.len(),
        forall|j: int| from <= j < to ==> s[j] != c,
    ensures
        seek(s, c, from) == seek(s, c, to),
    decreases to - from,
{
    if from < to {
        lemma_seek_step(s, c, from + 1, to);
    }
}

/// What stands around the first `c`, where nothing before it holds one.
pub proof fn lemma_split(a: Seq<char>, c: char, b: Seq<char>)
    requires
        !a.contains(c),
    ensures
        split_once_of(a, c) is None,
        split_once_of(a + seq![c] + b, c) == Some((a, b)),
{
    let joined = a + seq![c] + b;
    let n = a.len() as int;
    assert forall|j: int| 0 <= j < n implies a[j] != c && joined[j] != c by {
        assert(a.contains(a[j]));
    }
    lemma_seek_step(a, c, 0, n);
    lemma_seek_step(joined, c, 0, n);
    assert(joined[n] == c);
    assert(joined.take(n) =~= a);
    assert(joined.skip(n + 1) =~= b);
}

pub proof fn lemma_skip_white(s: Seq<char>, from: int)
    requires
        0 <= from <= s.len(),
    ensures
        from <= skip_white(s, from) <= s.len(),
        forall|j: int| from <= j < skip_white(s, from) ==> is_white(s[j]),
        skip_white(s, from) < s.len() ==> !is_white(s[skip_white(s, from)]),
    decreases s.len() - from,
{
    if from < s.len() && is_white(s[from]) {
        lemma_skip_white(s, from + 1);
    }
}

pub proof fn lemma_skip_word(s: Seq<char>, from: int)
    requires
        0 <= from <= s.len(),
    ensures
        from <= skip_word(s, from) <= s.len(),
        forall|j: int| from <= j < skip_word(s, from) ==> !is_white(s[j]),
        skip_word(s, from) < s.len() ==> is_white(s[skip_word(s, from)]),
    decreases s.len() - from,
{
    if from < s.len() && !is_white(s[from]) {
        lemma_skip_word(s, from + 1);
    }
}

pub proof fn lemma_drop_white(s: Seq<char>, to: int)
    requires
        0 <= to <= s.len(),
    ensures
        0 <= drop_white(s, to) <= to,
        forall|j: int| drop_white(s, to) <= j < to ==> is_white(s[j]),
        drop_white(s, to) > 0 ==> !is_white(s[drop_white(s, to) - 1]),
    decreases to,
{
    if 0 < to && is_white(s[to - 1]) {
        lemma_drop_white(s, to - 1);
    }
}

pub proof fn lemma_drop_word(s: Seq<char>, to: int)
    requires
        0 <= to <= s.len(),
    ensures
        0 <= drop_word(s, to) <= to,
        forall|j: int| drop_word(s, to) <= j < to ==> !is_white(s[j]),
        drop_word(s, to) > 0 ==> is_white(s[drop_word(s, to) - 1]),
    decreases to,
{
    if 0 < to && !is_white(s[to - 1]) {
        lemma_drop_word(s, to - 1);
    }
}

/// How many bytes of UTF-8 the first `k` characters of `s` take.
pub open spec fn byte_offset(s: Seq<char>, k: int) -> nat {
    vstd::utf8::encode_utf8(s.take(k)).len()
}

proof fn lemma_encoded_push(s: Seq<char>, c: char)
    ensures
        vstd::utf8::encode_utf8(s.push(c)).len() == vstd::utf8::encode_utf8(s).len()
            + vstd::utf8::encode_scalar(c as u32).len(),
    decreases s.len(),
{
    let longer = s.push(c);
    if s.len() == 0 {
        assert(longer.drop_first() =~= s);
    } else {
        lemma_encoded_push(s.drop_first(), c);
        assert(longer.drop_first() =~= s.drop_first().push(c));
    }
}

/// One more character takes at least one more byte.
pub proof fn lemma_byte_offset(s: Seq<char>, k: int)
    requires
        0 <= k < s.len(),
    ensures
        byte_offset(s, k + 1) == byte_offset(s, k) + vstd::utf8::encode_scalar(
            s[k] as u32,
        ).len(),
        byte_offset(s, k + 1) > byte_offset(s, k),
{
    assert(s.take(k + 1) =~= s.take(k).push(s[k]));
    lemma_encoded_push(s.take(k), s[k]);
}

/// What stands further behind has the greater offset.
pub proof fn lemma_byte_offset_grows(s: Seq<char>, j: int, k: int)
    requires
        0 <= j < k <= s.len(),
    ensures
        byte_offset(s, j) < byte_offset(s, k),
    decreases k - j,
{
    lemma_byte_offset(s, k - 1);
    if j < k - 1 {
        lemma_byte_offset_grows(s, j, k - 1);
    }
}

// ---------------------------------------------------------------------------
// Executable functions
// ---------------------------------------------------------------------------
pub fn str_eq(a: &str, b: &str) -> (r: bool)
    ensures
        r == (a@ == b@),
{
    *a == *b
}

/// The characters of a string.
pub fn chars_of(s: &str) -> (r: Vec<char>)
    ensures
        r@ == s@,
{
    let mut out: Vec<char> = Vec::new();
    for c in it: s.chars()
        invariant
            out@ == it.seq().take(it.index() as int),
            it.seq() == s@,
    {
        out.push(c);
    }
    out
}

/// How many bytes of UTF-8 the first `k` characters take.
pub fn offset_at(cs: &Vec<char>, k: usize) -> (r: usize)
    requires
        k <= cs@.len(),
    ensures
        r == byte_offset(cs@, k as int),
{
    let head = substring(cs, 0, k);
    assert(head@ =~= cs@.take(k as int));
    head.as_str().as_bytes().len()
}

/// How many bytes of UTF-8 a character takes.
fn utf8_width(c: char) -> (r: usize)
    ensures
        r == vstd::utf8::encode_scalar(c as u32).len(),
{
    let v: u32 = c as u32;
    if v <= 0x7f {
        1
    } else if v <= 0x7ff {
        2
    } else if v <= 0xffff {
        3
    } else {
        4
    }
}

/// The position of the character that starts at the given byte.
pub fn position_at(cs: &Vec<char>, offset: usize) -> (r: usize)
    requires
        exists|k: int| 0 <= k <= cs@.len() && #[trigger] byte_offset(cs@, k) == offset,
    ensures
        r <= cs@.len(),
        byte_offset(cs@, r as int) == offset,
{
    let ghost goal = choose|k: int|
        0 <= k <= cs@.len() && #[trigger] byte_offset(cs@, k) == offset;
    let n: usize = cs.len();
    let mut at: usize = 0;
    let mut k: usize = 0;
    assert(cs@.take(0) =~= seq![]);
    while at < offset
        invariant
            n == cs@.len(),
            0 <= k <= goal <= n,
            at == byte_offset(cs@, k as int),
            offset == byte_offset(cs@, goal),
        decreases goal - k,
    {
        proof {
            assert(k < goal);
            lemma_byte_offset(cs@, k as int);
            if k + 1 < goal {
                lemma_byte_offset_grows(cs@, k + 1, goal);
            }
        }
        at = at + utf8_width(cs[k]);
        k = k + 1;
    }
    proof {
        if k < goal {
            lemma_byte_offset_grows(cs@, k as int, goal);
        }
    }
    k
}

/// The string that the characters at positions `from..to` make.
pub fn substring(cs: &Vec<char>, from: usize, to: usize) -> (r: String)
    requires
        from <= to <= cs@.len(),
    ensures
        r@ == cs@.subrange(from as int, to as int),
{
    let mut out = String::new();
    let mut i: usize = from;
    while i < to
        invariant
            from <= i <= to <= cs@.len(),
            out@ == cs@.subrange(from as int, i as int),
        decreases to - i,
    {
        out.push(cs[i]);
        assert(cs@.subrange(from as int, i + 1) =~= cs@.subrange(from as int, i as int).push(
            cs@[i as int],
        ));
        i = i + 1;
    }
    out
}

/// Whether `pat` stands in `s` at position `i`.
pub fn chars_match(s: &Vec<char>, pat: &Vec<char>, i: usize) -> (r: bool)
    ensures
        r == occurs_at(s@, pat@, i as int),
{
    if pat.len() > s.len() || i > s.len() - pat.len() {
        return false;
    }
    let n: usize = s.len();
    let mut k: usize = 0;
    while k < pat.len()
        invariant
            k <= pat@.len(),
            n == s@.len(),
            i + pat@.len() <= n,
            forall|j: int| 0 <= j < k ==> s@[i + j] == pat@[j],
        decreases pat@.len() - k,
    {
        if s[i + k] != pat[k] {
            assert(s@.subrange(i as int, i + pat@.len())[k as int] != pat@[k as int]);
            return false;
        }
        k = k + 1;
    }
    assert(s@.subrange(i as int, i + pat@.len()) =~= pat@);
    true
}

/// Where `pat` first stands in `s`, from position `from` on.
pub fn find_chars(s: &Vec<char>, pat: &Vec<char>, from: usize) -> (r: Option<usize>)
    requires
        from <= s@.len(),
    ensures
        match r {
            Some(i) => find_seq(s@, pat@, from as int) == Some(i as int),
            None => find_seq(s@, pat@, from as int) is None,
        },
{
    let mut i: usize = from;
    while i < s.len()
        invariant
            from <= i <= s@.len(),
            forall|j: int| from <= j < i ==> !occurs_at(s@, pat@, j),
        decreases s@.len() - i,
    {
        if chars_match(s, pat, i) {
            proof {
                lemma_find_seq_step(s@, pat@, from as int, i as int);
            }
            return Some(i);
        }
        i = i + 1;
    }
    proof {
        lemma_find_seq_step(s@, pat@, from as int, i as int);
    }
    if chars_match(s, pat, i) {
        Some(i)
    } else {
        None
    }
}

/// Whether `pat` stands in the bytes `s` at position `i`.
pub fn bytes_match(s: &[u8], pat: &[u8], i: usize) -> (r: bool)
    ensures
        r == occurs_at(s@, pat@, i as int),
{
    if pat.len() > s.len() || i > s.len() - pat.len() {
        return false;
    }
    let n: usize = s.len();
    let mut k: usize = 0;
    while k < pat.len()
        invariant
            k <= pat@.len(),
            n == s@.len(),
            i + pat@.len() <= n,
            forall|j: int| 0 <= j < k ==> s@[i + j] == pat@[j],
        decreases pat@.len() - k,
    {
        if s[i + k] != pat[k] {
            assert(s@.subrange(i as int, i + pat@.len())[k as int] != pat@[k as int]);
            return false;
        }
        k = k + 1;
    }
    assert(s@.subrange(i as int, i + pat@.len()) =~= pat@);
    true
}

/// Where the bytes `pat` first stand in `s`, from position `from` on.
pub fn find_bytes(s: &[u8], pat: &[u8], from: usize) -> (r: Option<usize>)
    requires
        from <= s@.len(),
    ensures
        match r {
            Some(i) => find_seq(s@, pat@, from as int) == Some(i as int),
            None => find_seq(s@, pat@, from as int) is None,
        },
{
    let mut i: usize = from;
    while i < s.len()
        invariant
            from <= i <= s@.len(),
            forall|j: int| from <= j < i ==> !occurs_at(s@, pat@, j),
        decreases s@.len() - i,
    {
        if bytes_match(s, pat, i) {
            proof {
                lemma_find_seq_step(s@, pat@, from as int, i as int);
            }
            return Some(i);
        }
        i = i + 1;
    }
    proof {
        lemma_find_seq_step(s@, pat@, from as int, i as int);
    }
    if bytes_match(s, pat, i) {
        Some(i)
    } else {
        None
    }
}

/// Whether `pat` stands somewhere in `s`.
pub fn contains(s: &str, pat: &str) -> (r: bool)
    ensures
        r == contains_seq(s@, pat@),
{
    proof {
        lemma_contains_find(s@, pat@);
    }
    find_chars(&chars_of(s), &chars_of(pat), 0).is_some()
}

pub fn starts_with(s: &str, p: &str) -> (r: bool)
    ensures
        r == p@.is_prefix_of(s@),
{
    let r = chars_match(&chars_of(s), &chars_of(p), 0);
    assert(p@.len() <= s@.len() ==> s@.subrange(0, p@.len() as int) =~= s@.take(p@.len() as int));
    r
}

/// `s` without the prefix `p`.
pub fn strip_prefix(s: &str, p: &str) -> (r: Option<String>)
    ensures
        opt_view(r) == strip_prefix_of(s@, p@),
{
    if starts_with(s, p) {
        let cs = chars_of(s);
        let n: usize = chars_of(p).len();
        assert(s@.subrange(n as int, s@.len() as int) =~= s@.skip(n as int));
        Some(substring(&cs, n, cs.len()))
    } else {
        None
    }
}

pub fn ends_with(s: &str, p: &str) -> (r: bool)
    ensures
        r == p@.is_suffix_of(s@),
{
    let cs = chars_of(s);
    let ps = chars_of(p);
    if ps.len() > cs.len() {
        return false;
    }
    let r = chars_match(&cs, &ps, cs.len() - ps.len());
    assert(s@.subrange(s@.len() - p@.len(), s@.len() as int) =~= s@.skip(s@.len() - p@.len()));
    r
}

/// `s` without the suffix `p`.
pub fn strip_suffix(s: &str, p: &str) -> (r: Option<String>)
    ensures
        opt_view(r) == strip_suffix_of(s@, p@),
{
    if ends_with(s, p) {
        let cs = chars_of(s);
        let n: usize = chars_of(p).len();
        assert(s@.subrange(0, s@.len() - n) =~= s@.take(s@.len() - n));
        Some(substring(&cs, 0, cs.len() - n))
    } else {
        None
    }
}

pub fn is_white_space(c: char) -> (r: bool)
    ensures
        r == is_white(c),
{
    ('\u{9}' <= c && c <= '\u{d}') || c == ' ' || c == '\u{85}' || c == '\u{a0}' || c == '\u{1680}'
        || ('\u{2000}' <= c && c <= '\u{200a}') || c == '\u{2028}' || c == '\u{2029}' || c
        == '\u{202f}' || c == '\u{205f}' || c == '\u{3000}'
}

pub fn is_ascii_white_space(c: char) -> (r: bool)
    ensures
        r == is_ascii_white(c),
{
    c == ' ' || c == '\t' || c == '\n' || c == '\u{c}' || c == '\r'
}

/// The end of the white space that starts at `from`.
pub fn white_end(cs: &Vec<char>, from: usize) -> (r: usize)
    requires
        from <= cs@.len(),
    ensures
        r == skip_white(cs@, from as int),
        from <= r <= cs@.len(),
{
    let mut i: usize = from;
    while i < cs.len() && is_white_space(cs[i])
        invariant
            from <= i <= cs@.len(),
            skip_white(cs@, from as int) == skip_white(cs@, i as int),
        decreases cs@.len() - i,
    {
        i = i + 1;
    }
    i
}

/// The end of the word that starts at `from`.
pub fn word_end(cs: &Vec<char>, from: usize) -> (r: usize)
    requires
        from <= cs@.len(),
    ensures
        r == skip_word(cs@, from as int),
        from <= r <= cs@.len(),
{
    let mut i: usize = from;
    while i < cs.len() && !is_white_space(cs[i])
        invariant
            from <= i <= cs@.len(),
            skip_word(cs@, from as int) == skip_word(cs@, i as int),
        decreases cs@.len() - i,
    {
        i = i + 1;
    }
    i
}

/// The start of the white space that ends at `to`.
pub fn white_start(cs: &Vec<char>, to: usize) -> (r: usize)
    requires
        to <= cs@.len(),
    ensures
        r == drop_white(cs@, to as int),
        r <= to,
{
    let mut i: usize = to;
    while i > 0 && is_white_space(cs[i - 1])
        invariant
            i <= to <= cs@.len(),
            drop_white(cs@, to as int) == drop_white(cs@, i as int),
        decreases i,
    {
        i = i - 1;
    }
    i
}

pub fn trim_start(s: &str) -> (r: String)
    ensures
        r@ == trim_start_of(s@),
{
    let cs = chars_of(s);
    let a: usize = white_end(&cs, 0);
    assert(s@.subrange(a as int, s@.len() as int) =~= s@.skip(a as int));
    substring(&cs, a, cs.len())
}

pub fn trim_end(s: &str) -> (r: String)
    ensures
        r@ == trim_end_of(s@),
{
    let cs = chars_of(s);
    let b: usize = white_start(&cs, cs.len());
    assert(s@.subrange(0, b as int) =~= s@.take(b as int));
    substring(&cs, 0, b)
}

pub fn trim(s: &str) -> (r: String)
    ensures
        r@ == trim_of(s@),
{
    trim_end(trim_start(s).as_str())
}

pub fn to_lower_char(c: char) -> (r: char)
    ensures
        r == lower_char(c),
{
    if 'A' <= c && c <= 'Z' {
        ((c as u8) + 32) as char
    } else {
        c
    }
}

/// `s` with its ASCII capital letters made small.
pub fn to_ascii_lowercase(s: &str) -> (r: String)
    ensures
        r@ == ascii_lower(s@),
{
    let cs = chars_of(s);
    let mut out = String::new();
    let mut i: usize = 0;
    while i < cs.len()
        invariant
            i <= cs@.len(),
            cs@ == s@,
            out@ == ascii_lower(s@).take(i as int),
        decreases cs@.len() - i,
    {
        out.push(to_lower_char(cs[i]));
        assert(ascii_lower(s@).take(i + 1) =~= ascii_lower(s@).take(i as int).push(
            ascii_lower(s@)[i as int],
        ));
        i = i + 1;
    }
    assert(ascii_lower(s@).take(i as int) =~= ascii_lower(s@));
    out
}

/// The first position at or after `from` that holds `c`, or the end.
pub fn seek_char(cs: &Vec<char>, c: char, from: usize) -> (r: usize)
    requires
        from <= cs@.len(),
    ensures
        r == seek(cs@, c, from as int),
        from <= r <= cs@.len(),
{
    let mut i: usize = from;
    while i < cs.len() && cs[i] != c
        invariant
            from <= i <= cs@.len(),
            seek(cs@, c, from as int) == seek(cs@, c, i as int),
        decreases cs@.len() - i,
    {
        i = i + 1;
    }
    i
}

/// `s` split at the first `c`.
pub fn split_once(s: &str, c: char) -> (r: Option<(String, String)>)
    ensures
        match r {
            Some(p) => split_once_of(s@, c) == Some((p.0@, p.1@)),
            None => split_once_of(s@, c) is None,
        },
{
    let cs = chars_of(s);
    let i: usize = seek_char(&cs, c, 0);
    if i < cs.len() {
        assert(s@.subrange(0, i as int) =~= s@.take(i as int));
        assert(s@.subrange(i + 1, s@.len() as int) =~= s@.skip(i + 1));
        Some((substring(&cs, 0, i), substring(&cs, i + 1, cs.len())))
    } else {
        None
    }
}

/// What stands in `s` before the first `c`.
pub fn before(s: &str, c: char) -> (r: String)
    ensures
        r@ == before_of(s@, c),
{
    let cs = chars_of(s);
    let i: usize = seek_char(&cs, c, 0);
    assert(s@.subrange(0, i as int) =~= s@.take(i as int));
    substring(&cs, 0, i)
}

/// The lines of `s`.
pub fn lines(s: &str) -> (r: Vec<String>)
    ensures
        views(r@) == lines_of(s@),
{
    let cs = chars_of(s);
    let mut out: Vec<String> = Vec::new();
    let mut from: usize = 0;
    assert(views(out@) + lines_from(s@, 0) =~= lines_of(s@));
    while from < cs.len()
        invariant
            from <= cs@.len(),
            cs@ == s@,
            views(out@) + lines_from(s@, from as int) == lines_of(s@),
        decreases cs@.len() - from,
    {
        let ghost before = out@;
        let i: usize = seek_char(&cs, '\n', from);
        if i < cs.len() {
            let end: usize = if i > from && cs[i - 1] == '\r' {
                i - 1
            } else {
                i
            };
            let line = substring(&cs, from, end);
            assert(line@ =~= without_cr(s@.subrange(from as int, i as int)));
            out.push(line);
            assert(views(out@) =~= views(before).push(line@));
            assert(views(out@) + lines_from(s@, i + 1) =~= views(before) + (seq![line@]
                + lines_from(s@, i + 1)));
            from = i + 1;
        } else {
            let line = substring(&cs, from, cs.len());
            assert(line@ =~= s@.skip(from as int));
            out.push(line);
            assert(views(out@) =~= views(before).push(line@));
            assert(views(before) + seq![line@] =~= views(out@));
            from = cs.len();
        }
    }
    assert(views(out@) + lines_from(s@, from as int) =~= views(out@));
    out
}

/// `s` with every occurrence of `pat` replaced by `by`.
pub fn replace(s: &str, pat: &str, by: &str) -> (r: String)
    requires
        pat@.len() > 0,
    ensures
        r@ == replace_of(s@, pat@, by@),
{
    let cs = chars_of(s);
    let ps = chars_of(pat);
    let n: usize = cs.len();
    let mut out = String::new();
    let mut from: usize = 0;
    assert(out@ + replace_from(s@, pat@, by@, 0) =~= replace_of(s@, pat@, by@));
    loop
        invariant
            from <= n,
            n == cs@.len(),
            cs@ == s@,
            ps@ == pat@,
            pat@.len() > 0,
            out@ + replace_from(s@, pat@, by@, from as int) == replace_of(s@, pat@, by@),
        decreases cs@.len() - from,
    {
        let ghost done = out@;
        let hit = find_chars(&cs, &ps, from);
        proof {
            lemma_find_seq(s@, pat@, from as int);
        }
        match hit {
            Some(i) => {
                let piece = substring(&cs, from, i);
                out.append(piece.as_str());
                out.append(by);
                assert(out@ + replace_from(s@, pat@, by@, i + pat@.len()) =~= done + (s@.subrange(
                    from as int,
                    i as int,
                ) + by@ + replace_from(s@, pat@, by@, i + pat@.len())));
                assert(i + ps@.len() <= n);
                from = i + ps.len();
            },
            None => {
                let piece = substring(&cs, from, cs.len());
                assert(piece@ =~= s@.skip(from as int));
                out.append(piece.as_str());
                return out;
            },
        }
    }
}

/// The strings of `parts` in order, with `sep` between each two.
pub fn join(parts: &Vec<String>, sep: &str) -> (r: String)
    ensures
        r@ == join_of(views(parts@), sep@),
{
    let mut out = String::new();
    let mut i: usize = 0;
    assert(views(parts@).take(0) =~= seq![]);
    while i < parts.len()
        invariant
            i <= parts@.len(),
            out@ == join_of(views(parts@).take(i as int), sep@),
        decreases parts@.len() - i,
    {
        if i > 0 {
            out.append(sep);
        }
        out.append(parts[i].as_str());
        proof {
            let next = views(parts@).take(i + 1);
            assert(next.drop_last() =~= views(parts@).take(i as int));
            assert(next.last() == parts@[i as int]@);
            if i == 0 {
                assert(out@ =~= next[0]);
            }
        }
        i = i + 1;
    }
    assert(views(parts@).take(i as int) =~= views(parts@));
    out
}

/// Appends `n` times the character `c`.
pub fn push_repeated(out: &mut String, c: char, n: usize)
    ensures
        final(out)@ == old(out)@ + repeat_of(c, n as int),
{
    let mut i: usize = 0;
    assert(out@ =~= old(out)@ + repeat_of(c, 0));
    while i < n
        invariant
            i <= n,
            out@ == old(out)@ + repeat_of(c, i as int),
        decreases n - i,
    {
        out.push(c);
        i = i + 1;
        assert(out@ =~= old(out)@ + repeat_of(c, i as int));
    }
}

/// `s` with spaces in front of it up to the width `w`.
pub fn pad_left(s: &str, w: usize) -> (r: String)
    ensures
        r@ == pad_left_of(s@, w as int),
{
    let n: usize = chars_of(s).len();
    let mut out = String::new();
    if n < w {
        push_repeated(&mut out, ' ', w - n);
    }
    assert(out@ =~= repeat_of(' ', w - n));
    out.append(s);
    out
}

/// `s` without the copies of `p` at its end.
pub fn trim_end_matches(s: &str, p: &str) -> (r: String)
    requires
        p@.len() > 0,
    ensures
        r@ == trim_end_matches_of(s@, p@),
    decreases s@.len(),
{
    match strip_suffix(s, p) {
        Some(rest) => trim_end_matches(rest.as_str(), p),
        None => s.to_owned(),
    }
}

/// The first `n` characters of `s`.
pub fn take_chars(s: &str, n: usize) -> (r: String)
    ensures
        r@ == take_of(s@, n as int),
{
    let cs = chars_of(s);
    if n < cs.len() {
        assert(s@.subrange(0, n as int) =~= s@.take(n as int));
        substring(&cs, 0, n)
    } else {
        s.to_owned()
    }
}

/// The word that `s` starts with after white space.
pub fn first_word(s: &str) -> (r: String)
    ensures
        r@ == first_word_of(s@),
{
    let cs = chars_of(s);
    let a: usize = white_end(&cs, 0);
    let b: usize = word_end(&cs, a);
    substring(&cs, a, b)
}

/// The word that `s` ends with before white space.
pub fn last_word(s: &str) -> (r: String)
    ensures
        r@ == last_word_of(s@),
{
    let cs = chars_of(s);
    let b: usize = white_start(&cs, cs.len());
    let mut i: usize = b;
    while i > 0 && !is_white_space(cs[i - 1])
        invariant
            i <= b <= cs@.len(),
            drop_word(cs@, b as int) == drop_word(cs@, i as int),
        decreases i,
    {
        i = i - 1;
    }
    substring(&cs, i, b)
}

/// Whether `list` holds `s`.
pub fn list_contains(list: &Vec<String>, s: &str) -> (r: bool)
    ensures
        r == views(list@).contains(s@),
{
    let mut i: usize = 0;
    while i < list.len()
        invariant
            i <= list@.len(),
            forall|j: int| 0 <= j < i ==> list@[j]@ != s@,
        decreases list@.len() - i,
    {
        if str_eq(list[i].as_str(), s) {
            assert(views(list@)[i as int] == s@);
            return true;
        }
        i = i + 1;
    }
    assert forall|j: int| 0 <= j < views(list@).len() implies views(list@)[j] != s@ by {
        assert(views(list@)[j] == list@[j]@);
    }
    false
}

/// An owned copy of an optional string.
pub fn copy_opt(o: &Option<String>) -> (r: Option<String>)
    ensures
        opt_view(r) == opt_view(*o),
{
    match o {
        Some(s) => Some(s.clone()),
        None => None,
    }
}

/// Adds a line to a list of lines.
pub fn push_line(out: &mut Vec<String>, line: String)
    ensures
        views(final(out)@) == views(old(out)@).push(line@),
{
    let ghost before = out@;
    out.push(line);
    assert(views(out@) =~= views(before).push(line@));
}

/// A text holds what stands in its middle.
pub proof fn lemma_holds_middle(a: Seq<char>, pat: Seq<char>, b: Seq<char>)
    ensures
        contains_seq(a + pat + b, pat),
{
    let s = a + pat + b;
    assert(s.subrange(a.len() as int, (a.len() + pat.len()) as int) =~= pat);
    assert(occurs_at(s, pat, a.len() as int));
}

/// What a part of a text holds, the text holds.
pub proof fn lemma_holds_through(s: Seq<char>, part: Seq<char>, pat: Seq<char>)
    requires
        contains_seq(s, part),
        contains_seq(part, pat),
    ensures
        contains_seq(s, pat),
{
    let i = choose|i: int| occurs_at(s, part, i);
    let j = choose|j: int| occurs_at(part, pat, j);
    assert(s.subrange(i + j, i + j + pat.len()) =~= part.subrange(j, j + pat.len())) by {
        assert(part =~= s.subrange(i, i + part.len()));
    }
    assert(occurs_at(s, pat, i + j));
}

/// A list that is joined holds each of its parts.
pub proof fn lemma_join_holds(parts: Seq<Seq<char>>, sep: Seq<char>, i: int)
    requires
        0 <= i < parts.len(),
    ensures
        contains_seq(join_of(parts, sep), parts[i]),
    decreases parts.len(),
{
    let all = join_of(parts, sep);
    let none = Seq::<char>::empty();
    if parts.len() == 1 {
        assert(all =~= none + parts[0] + none);
        lemma_holds_middle(none, parts[0], none);
    } else if i == parts.len() - 1 {
        assert(all =~= (join_of(parts.drop_last(), sep) + sep) + parts[i] + none);
        lemma_holds_middle(join_of(parts.drop_last(), sep) + sep, parts[i], none);
    } else {
        let before = join_of(parts.drop_last(), sep);
        lemma_join_holds(parts.drop_last(), sep, i);
        assert(all =~= none + before + (sep + parts.last()));
        lemma_holds_middle(none, before, sep + parts.last());
        lemma_holds_through(all, before, parts[i]);
    }
}

/// White space is that of Unicode: the controls from tab to carriage return, the spaces, and the
/// separators of lines and paragraphs; and nothing else.
pub proof fn white_space_is_unicodes(c: char)
    ensures
        ({
            let n = c as u32;
            is_white(c) == (9 <= n <= 13 || n == 32 || n == 0x85 || n == 0xa0 || n == 0x1680
                || 0x2000 <= n <= 0x200a || n == 0x2028 || n == 0x2029 || n == 0x202f || n == 0x205f
                || n == 0x3000)
        }),
        is_ascii_white(c) == (c as u32 == 32 || 9 <= c as u32 <= 13 && c as u32 != 11),
{
}

/// Trimming takes away the white space around a text and nothing of the text.
pub proof fn trimming_keeps_the_text(a: Seq<char>, text: Seq<char>, b: Seq<char>)
    requires
        forall|i: int| 0 <= i < a.len() ==> is_white(#[trigger] a[i]),
        forall|i: int| 0 <= i < b.len() ==> is_white(#[trigger] b[i]),
        text.len() > 0 ==> !is_white(text[0]) && !is_white(text.last()),
    ensures
        trim_of(a + text + b) == text,
        text.len() > 0 ==> trim_end_of(a + text + b) == a + text,
        text.len() > 0 ==> trim_start_of(a + text + b) == text + b,
{
    let s = a + text + b;
    let n = a.len() as int;
    let m = n + text.len();
    lemma_skip_white(s, 0);
    let i = skip_white(s, 0);
    if i < n {
        assert(s[i] == a[i]);
    }
    if text.len() > 0 {
        assert(s[n] == text[0]);
        if i > n {
            assert(is_white(s[n]));
        }
        assert(s.skip(n) =~= text + b);
        lemma_drop_white(s, s.len() as int);
        lemma_drop_white(text + b, (text + b).len() as int);
        let j = drop_white(s, s.len() as int);
        assert(s[m - 1] == text.last());
        if j < m {
            assert(is_white(s[m - 1]));
        }
        if j > m {
            assert(s[j - 1] == b[j - 1 - m]);
        }
        assert(s.take(m as int) =~= a + text);
        let t = text + b;
        let k = drop_white(t, t.len() as int);
        assert(t[text.len() - 1] == text.last());
        if k < text.len() {
            assert(is_white(t[text.len() - 1]));
        }
        if k > text.len() {
            assert(t[k - 1] == b[k - 1 - text.len()]);
        }
        assert(t.take(text.len() as int) =~= text);
    } else {
        if i < s.len() {
            assert(s[i] == b[i - n]);
        }
        assert(s.skip(i) =~= Seq::<char>::empty());
        assert(trim_of(s) =~= text);
    }
}

proof fn lemma_seek_shifts(x: Seq<char>, y: Seq<char>, c: char, k: int)
    requires
        0 <= k <= y.len(),
    ensures
        seek(x + y, c, x.len() + k) == x.len() + seek(y, c, k),
    decreases y.len() - k,
{
    if k < y.len() {
        assert((x + y)[x.len() + k] == y[k]);
        if y[k] != c {
            lemma_seek_shifts(x, y, c, k + 1);
        }
    }
}

proof fn lemma_lines_shift(x: Seq<char>, y: Seq<char>, k: int)
    requires
        0 <= k <= y.len(),
    ensures
        lines_from(x + y, x.len() + k) == lines_from(y, k),
    decreases y.len() - k,
{
    let s = x + y;
    if k < y.len() {
        lemma_seek(y, '\n', k);
        lemma_seek_shifts(x, y, '\n', k);
        let i = seek(y, '\n', k);
        if i < y.len() {
            lemma_lines_shift(x, y, i + 1);
            assert(s.subrange(x.len() + k, x.len() + i) =~= y.subrange(k, i));
        } else {
            assert(s.skip(x.len() + k) =~= y.skip(k));
        }
    }
}

/// A line ends at a line feed, and the carriage return in front of it is not part of it; what
/// follows are the next lines. A text without a line feed is one line, and an empty one none.
pub proof fn line_feeds_end_lines(line: Seq<char>, rest: Seq<char>)
    requires
        !line.contains('\n'),
    ensures
        line.len() == 0 || line.last() != '\r' ==> lines_of(line + seq!['\n'] + rest) == seq![line]
            + lines_of(rest),
        lines_of(line + seq!['\r', '\n'] + rest) == seq![line] + lines_of(rest),
        line.len() > 0 ==> lines_of(line) == seq![line],
        lines_of(Seq::<char>::empty()).len() == 0,
{
    let n = line.len() as int;
    assert forall|j: int| 0 <= j < n implies #[trigger] line[j] != '\n' by {
        assert(line.contains(line[j]));
    }
    let head = line + seq!['\n'];
    let s = head + rest;
    assert(s =~= line + seq!['\n'] + rest);
    assert forall|j: int| 0 <= j < n implies s[j] != '\n' by {
        assert(s[j] == line[j]);
    }
    lemma_seek_step(s, '\n', 0, n);
    assert(s[n] == '\n');
    assert(s.subrange(0, n) =~= line);
    lemma_lines_shift(head, rest, 0);
    let chead = line + seq!['\r', '\n'];
    let t = chead + rest;
    assert(t =~= line + seq!['\r', '\n'] + rest);
    assert forall|j: int| 0 <= j < n + 1 implies t[j] != '\n' by {
        if j < n {
            assert(t[j] == line[j]);
        }
    }
    lemma_seek_step(t, '\n', 0, n + 1);
    assert(t[n + 1] == '\n');
    assert(t.subrange(0, n + 1) =~= line.push('\r'));
    assert(line.push('\r').drop_last() =~= line);
    lemma_lines_shift(chead, rest, 0);
    if n > 0 {
        lemma_seek_step(line, '\n', 0, n);
        assert(line.skip(0) =~= line);
    }
}

/// Parts are joined in their order with the separator between each two.
pub proof fn parts_are_joined(parts: Seq<Seq<char>>, part: Seq<char>, sep: Seq<char>)
    ensures
        join_of(seq![], sep) == Seq::<char>::empty(),
        join_of(seq![part], sep) == part,
        parts.len() > 0 ==> join_of(parts.push(part), sep) == join_of(parts, sep) + sep + part,
{
    assert(parts.push(part).drop_last() =~= parts);
}

proof fn lemma_replace_shifts(x: Seq<char>, y: Seq<char>, pat: Seq<char>, by: Seq<char>, k: int)
    requires
        pat.len() > 0,
        0 <= k <= y.len(),
    ensures
        replace_from(x + y, pat, by, x.len() + k) == replace_from(y, pat, by, k),
    decreases y.len() - k,
{
    let s = x + y;
    let n = x.len();
    lemma_find_seq(s, pat, n + k);
    lemma_find_seq(y, pat, k);
    assert forall|j: int| 0 <= j implies #[trigger] occurs_at(y, pat, j) == occurs_at(
        s,
        pat,
        n + j,
    ) by {
        if j + pat.len() <= y.len() {
            assert(s.subrange(n + j, n + j + pat.len()) =~= y.subrange(j, j + pat.len()));
        }
    }
    match find_seq(y, pat, k) {
        Some(i) => {
            assert(occurs_at(s, pat, n + i));
            let f = find_seq(s, pat, n + k);
            if f is Some && f->0 < n + i {
                assert(occurs_at(y, pat, f->0 - n));
            }
            assert(f == Some(n + i));
            lemma_replace_shifts(x, y, pat, by, (i + pat.len()) as int);
            assert(s.subrange(n + k, n + i) =~= y.subrange(k, i));
        },
        None => {
            let f = find_seq(s, pat, n + k);
            if f is Some {
                assert(occurs_at(y, pat, f->0 - n));
            }
            assert(s.skip(n + k) =~= y.skip(k));
        },
    }
}

/// Every occurrence is replaced, from the first one on, and the rest is kept. A text without one
/// stays as it is.
pub proof fn occurrences_are_replaced(a: Seq<char>, pat: Seq<char>, b: Seq<char>, by: Seq<char>)
    requires
        pat.len() > 0,
        forall|i: int| 0 <= i < a.len() ==> !(#[trigger] occurs_at(a + pat + b, pat, i)),
    ensures
        replace_of(a + pat + b, pat, by) == a + by + replace_of(b, pat, by),
        !contains_seq(a, pat) ==> replace_of(a, pat, by) == a,
{
    let s = a + pat + b;
    let n = a.len() as int;
    lemma_find_seq_step(s, pat, 0, n);
    assert(s.subrange(n, n + pat.len()) =~= pat);
    assert(occurs_at(s, pat, n));
    lemma_find_seq(s, pat, n);
    assert(find_seq(s, pat, 0) == Some(n));
    assert(s.subrange(0, n) =~= a);
    lemma_replace_shifts(a + pat, b, pat, by, 0);
    lemma_contains_find(a, pat);
    assert(a.skip(0) =~= a);
}

/// A prefix and a suffix are taken off where the text has them.
pub proof fn affixes_are_stripped(s: Seq<char>, affix: Seq<char>)
    ensures
        strip_prefix_of(affix + s, affix) == Some(s),
        strip_suffix_of(s + affix, affix) == Some(s),
        !affix.is_prefix_of(s) ==> strip_prefix_of(s, affix) is None,
        !affix.is_suffix_of(s) ==> strip_suffix_of(s, affix) is None,
{
    assert((affix + s).skip(affix.len() as int) =~= s);
    assert((s + affix).take(s.len() as int) =~= s);
    assert(affix.is_prefix_of(affix + s));
    assert(affix.is_suffix_of(s + affix));
}

/// ASCII capitals become their small letters, and every other character stays as it is.
pub proof fn capitals_become_small(s: Seq<char>, i: int)
    requires
        0 <= i < s.len(),
    ensures
        ascii_lower(s).len() == s.len(),
        'A' <= s[i] <= 'Z' ==> ascii_lower(s)[i] as u32 == s[i] as u32 + 32,
        !('A' <= s[i] <= 'Z') ==> ascii_lower(s)[i] == s[i],
{
}

/// A padded text has at least its width, and is its text behind spaces.
pub proof fn padding_is_spaces(s: Seq<char>, w: int, i: int)
    ensures
        s.is_suffix_of(pad_left_of(s, w)),
        w >= s.len() ==> pad_left_of(s, w).len() == w,
        w < s.len() ==> pad_left_of(s, w) == s,
        0 <= i < pad_left_of(s, w).len() - s.len() ==> pad_left_of(s, w)[i] == ' ',
{
    let p = pad_left_of(s, w);
    assert(p.subrange(p.len() - s.len(), p.len() as int) =~= s);
}

/// The first word of a text is the one behind its leading white space, and the last word the one
/// in front of its trailing white space.
pub proof fn words_are_at_the_ends(a: Seq<char>, word: Seq<char>, b: Seq<char>)
    requires
        word.len() > 0,
        forall|i: int| 0 <= i < word.len() ==> !is_white(#[trigger] word[i]),
    ensures
        (forall|i: int| 0 <= i < a.len() ==> is_white(#[trigger] a[i])) && (b.len() > 0
            ==> is_white(b[0])) ==> first_word_of(a + word + b) == word,
        (forall|i: int| 0 <= i < b.len() ==> is_white(#[trigger] b[i])) && (a.len() > 0
            ==> is_white(a.last())) ==> last_word_of(a + word + b) == word,
{
    let s = a + word + b;
    let n = a.len() as int;
    let m = n + word.len();
    assert forall|i: int| n <= i < m implies !is_white(#[trigger] s[i]) by {
        assert(s[i] == word[i - n]);
    }
    assert(s.subrange(n, m) =~= word);
    if (forall|i: int| 0 <= i < a.len() ==> is_white(#[trigger] a[i])) && (b.len() > 0 ==> is_white(
        b[0],
    )) {
        lemma_skip_white(s, 0);
        let i = skip_white(s, 0);
        if i < n {
            assert(s[i] == a[i]);
        }
        if i > n {
            assert(is_white(s[n]));
        }
        lemma_skip_word(s, n);
        let j = skip_word(s, n);
        if j > m {
            assert(s[m] == b[0]);
        }
        if j < m {
            assert(is_white(s[j]));
        }
    }
    if (forall|i: int| 0 <= i < b.len() ==> is_white(#[trigger] b[i])) && (a.len() > 0 ==> is_white(
        a.last(),
    )) {
        lemma_drop_white(s, s.len() as int);
        let j = drop_white(s, s.len() as int);
        if j > m {
            assert(s[j - 1] == b[j - 1 - m]);
        }
        if j < m {
            assert(is_white(s[m - 1]));
        }
        lemma_drop_word(s, m);
        let i = drop_word(s, m);
        if i < n {
            assert(s[n - 1] == a.last());
        }
        if i > n {
            assert(!is_white(s[i - 1]));
        }
    }
}

/// Copies at the end are all taken off, and nothing else.
pub proof fn repeated_suffixes_are_dropped(s: Seq<char>, p: Seq<char>)
    requires
        p.len() > 0,
    ensures
        trim_end_matches_of(s + p, p) == trim_end_matches_of(s, p),
        !p.is_suffix_of(s) ==> trim_end_matches_of(s, p) == s,
{
    assert(p.is_suffix_of(s + p));
    assert((s + p).take(s.len() as int) =~= s);
}

/// The views of lists and of optional strings leave nothing out.
pub proof fn views_are_whole(v: Seq<String>, s: String, i: int)
    requires
        0 <= i < v.len(),
    ensures
        views(v).len() == v.len(),
        views(v)[i] == v[i]@,
        opt_view(Some(s)) == Some(s@),
        opt_view(None) is None,
{
}

/// A text is cut to its first characters, and kept where it has no more than those.
pub proof fn texts_are_cut(s: Seq<char>, n: int)
    requires
        0 <= n,
    ensures
        n < s.len() ==> take_of(s, n) == s.subrange(0, n),
        n >= s.len() ==> take_of(s, n) == s,
{
}

} // verus!
