//! JSON output with ECMAScript-compatible number rendering.
//!
//! Numbers come out by the rules of `JSON.stringify`: no trailing `.0` on integral values, and
//! plain decimal notation between 1e-6 and 1e21; outside that band the notation is exponential.
use vstd::prelude::*;
use vstd::string::*;

use crate::json::{Json, JsonNumber, JsonView, Members, NumberView};
use crate::numbers::{decimal, parse_i64, signed_decimal};
use crate::text::{chars_of, contains, push_repeated, split_once, str_eq, substring};

verus! {

// ---------------------------------------------------------------------------
// Numbers
// ---------------------------------------------------------------------------
/// The ASCII digits of `s`, in order.
pub open spec fn ascii_digits(s: Seq<char>) -> Seq<char>
    decreases s.len(),
{
    if s.len() == 0 {
        seq![]
    } else if '0' <= s.last() <= '9' {
        ascii_digits(s.drop_last()).push(s.last())
    } else {
        ascii_digits(s.drop_last())
    }
}

/// The digits and the exponent of a scientific rendering; an exponent that is no number counts
/// as zero. `None` where there is no exponent mark.
pub open spec fn scientific_parts(s: Seq<char>) -> Option<(Seq<char>, int)> {
    match crate::text::split_once_of(s, 'e') {
        Some((mantissa, exponent)) => Some(
            (
                ascii_digits(mantissa),
                match crate::numbers::parse_signed(exponent) {
                    Some(e) => e,
                    None => 0,
                },
            ),
        ),
        None => None,
    }
}

/// Whether a value with this decimal exponent is written in exponential notation.
pub open spec fn exponential(e: int) -> bool {
    e >= 21 || e <= -7
}

/// The number `d.ddd` times ten to the power `e`, where `digits` are the digits `dddd`.
pub open spec fn number_layout(sign: Seq<char>, digits: Seq<char>, e: int) -> Seq<char> {
    let k = digits.len() as int;
    let n = e + 1;
    if exponential(e) {
        sign + digits.take(1) + (if k > 1 {
            seq!['.'] + digits.skip(1)
        } else {
            seq![]
        }) + seq!['e'] + (if e >= 0 {
            seq!['+']
        } else {
            seq![]
        }) + crate::numbers::signed_of(e)
    } else if n >= k {
        sign + digits + crate::text::repeat_of('0', n - k)
    } else if n > 0 {
        sign + digits.take(n) + seq!['.'] + digits.skip(n)
    } else {
        sign + seq!['0', '.'] + crate::text::repeat_of('0', -n) + digits
    }
}

/// The sign in front of a number.
pub open spec fn sign_of(negative: bool) -> Seq<char> {
    if negative {
        seq!['-']
    } else {
        seq![]
    }
}

/// Whether a rendering is that of a value which is not finite.
pub open spec fn not_finite(s: Seq<char>) -> bool {
    crate::text::contains_seq(s, "inf"@) || crate::text::contains_seq(s, "NaN"@)
}

/// A number per ECMAScript's `Number::toString`.
pub open spec fn js_number_of(shortest: Seq<char>, negative: bool, is_zero: bool) -> Seq<char> {
    if not_finite(shortest) {
        "null"@
    } else if is_zero {
        "0"@
    } else {
        match scientific_parts(shortest) {
            None => shortest,
            Some((digits, e)) => number_layout(sign_of(negative), digits, e),
        }
    }
}

/// The renderings that [`js_number`] takes: in exponential notation there is a digit to stand in
/// front of the point, and the exponent leaves room for its successor.
pub open spec fn js_ready(shortest: Seq<char>, is_zero: bool) -> bool {
    not_finite(shortest) || is_zero || match scientific_parts(shortest) {
        None => true,
        Some((digits, e)) => e < i64::MAX && (exponential(e) ==> digits.len() > 0),
    }
}

/// The ASCII digits of `s`.
fn digits_in(s: &str) -> (r: Vec<char>)
    ensures
        r@ == ascii_digits(s@),
{
    let cs = chars_of(s);
    let mut out: Vec<char> = Vec::new();
    let mut i: usize = 0;
    assert(s@.take(0) =~= seq![]);
    while i < cs.len()
        invariant
            i <= cs@.len(),
            cs@ == s@,
            out@ == ascii_digits(s@.take(i as int)),
        decreases cs@.len() - i,
    {
        assert(s@.take(i + 1).drop_last() =~= s@.take(i as int));
        assert(s@.take(i + 1).last() == s@[i as int]);
        if '0' <= cs[i] && cs[i] <= '9' {
            out.push(cs[i]);
        }
        i = i + 1;
    }
    assert(s@.take(i as int) =~= s@);
    out
}

/// Render a finite number per ECMAScript's `Number::toString` (radix 10), which is what
/// `JSON.stringify` uses. `shortest` is any shortest-round-trip scientific rendering of the
/// absolute value, e.g. `"1.2345e3"`; the sign is carried separately by `negative`.
pub fn js_number(shortest: &str, negative: bool, is_zero: bool) -> (r: String)
    requires
        js_ready(shortest@, is_zero),
    ensures
        r@ == js_number_of(shortest@, negative, is_zero),
{
    // JSON has no NaN/Infinity, and `JSON.stringify` turns them into null.
    if contains(shortest, "inf") || contains(shortest, "NaN") {
        return "null".to_owned();
    }
    // Covers -0 as well: JavaScript prints it as "0".
    if is_zero {
        return "0".to_owned();
    }
    let (mantissa, exponent) = match split_once(shortest, 'e') {
        Some(parts) => parts,
        None => {
            return shortest.to_owned();
        },
    };
    let digits = digits_in(mantissa.as_str());
    let e: i64 = match parse_i64(exponent.as_str()) {
        Some(v) => v,
        None => 0,
    };
    let k: usize = digits.len();
    let mut out = String::new();
    if negative {
        out.push('-');
    }
    assert(out@ =~= sign_of(negative));
    let ghost sign = out@;
    if e >= 21 || e <= -7 {
        // Exponential: d.ddd e±x
        out.push(digits[0]);
        assert(out@ =~= sign + digits@.take(1));
        if k > 1 {
            out.push('.');
            let tail = substring(&digits, 1, k);
            assert(tail@ =~= digits@.skip(1));
            let ghost before = sign + digits@.take(1);
            out.append(tail.as_str());
            assert(out@ =~= before + (seq!['.'] + digits@.skip(1)));
        }
        let ghost head = out@;
        assert(head =~= sign + digits@.take(1) + (if k > 1 {
            seq!['.'] + digits@.skip(1)
        } else {
            seq![]
        }));
        out.push('e');
        assert(out@ =~= head + seq!['e']);
        if e >= 0 {
            out.push('+');
        }
        assert(out@ =~= head + seq!['e'] + (if e >= 0 {
            seq!['+']
        } else {
            seq![]
        }));
        out.append(signed_decimal(e).as_str());
        return out;
    }
    let n: i64 = e + 1;
    if n >= 0 && (n as usize) >= k {
        // Integral: the digits, then the remaining zeros.
        let all = substring(&digits, 0, k);
        assert(all@ =~= digits@);
        out.append(all.as_str());
        push_repeated(&mut out, '0', (n as usize) - k);
        out
    } else if n > 0 {
        // A point falls inside the digits.
        let head = substring(&digits, 0, n as usize);
        let tail = substring(&digits, n as usize, k);
        assert(head@ =~= digits@.take(n as int));
        assert(tail@ =~= digits@.skip(n as int));
        out.append(head.as_str());
        out.push('.');
        assert(out@ =~= sign + digits@.take(n as int) + seq!['.']);
        out.append(tail.as_str());
        out
    } else {
        // Small: a zero, a point, zeros, then the digits.
        out.push('0');
        out.push('.');
        assert(out@ =~= sign + seq!['0', '.']);
        push_repeated(&mut out, '0', (-n) as usize);
        let all = substring(&digits, 0, k);
        assert(all@ =~= digits@);
        out.append(all.as_str());
        out
    }
}

/// The rendering of a float without its sign.
pub open spec fn magnitude(text: Seq<char>) -> Seq<char> {
    if text.len() > 0 && text[0] == '-' {
        text.skip(1)
    } else {
        text
    }
}

/// How many zeros `s` starts with.
pub open spec fn leading_zeros(s: Seq<char>) -> nat
    decreases s.len(),
{
    if s.len() > 0 && s[0] == '0' {
        leading_zeros(s.skip(1)) + 1
    } else {
        0
    }
}

/// `s` without the zeros that it ends in.
pub open spec fn without_end_zeros(s: Seq<char>) -> Seq<char>
    decreases s.len(),
{
    if s.len() > 0 && s.last() == '0' {
        without_end_zeros(s.drop_last())
    } else {
        s
    }
}

/// What stands in front of and behind the first `c`; nothing behind it where there is none.
pub open spec fn halves(s: Seq<char>, c: char) -> (Seq<char>, Seq<char>) {
    match crate::text::split_once_of(s, c) {
        Some(parts) => parts,
        None => (s, seq![]),
    }
}

/// The significant digits of a decimal text such as `120.5` or `1.5e-7`, and the power of ten that
/// the first of them counts.
pub open spec fn decimal_parts(text: Seq<char>) -> (Seq<char>, int) {
    let (mantissa, exponent) = halves(text, 'e');
    let (whole, fraction) = halves(mantissa, '.');
    let all = whole + fraction;
    let zeros = leading_zeros(all);
    let x = match crate::numbers::parse_signed(exponent) {
        Some(e) => e,
        None => 0,
    };
    (without_end_zeros(all.skip(zeros as int)), whole.len() - 1 - zeros + x)
}

/// The digits in front of the exponent mark of a scientific rendering.
pub open spec fn mantissa_of(digits: Seq<char>) -> Seq<char> {
    digits.take(1) + (if digits.len() > 1 {
        seq!['.'] + digits.skip(1)
    } else {
        seq![]
    })
}

/// A scientific rendering such as `1.25e-7`.
pub open spec fn scientific_text(digits: Seq<char>, x: int) -> Seq<char> {
    mantissa_of(digits) + seq!['e'] + crate::numbers::signed_of(x)
}

/// The scientific rendering of a decimal text: a digit, the other digits behind a point, and the
/// exponent. `None` where the exponent does not fit 64 bits.
pub open spec fn scientific_of(text: Seq<char>) -> Option<Seq<char>> {
    let (digits, e) = decimal_parts(text);
    if digits.len() == 0 {
        Some("0e0"@)
    } else if i64::MIN <= e <= i64::MAX {
        Some(scientific_text(digits, e))
    } else {
        None
    }
}

/// A float as text, from its decimal text. What is none is left as it is.
pub open spec fn float_text(t: Seq<char>) -> Seq<char> {
    match scientific_of(magnitude(t)) {
        Some(m) => if js_ready(m, m == "0e0"@) {
            js_number_of(m, t.len() > 0 && t[0] == '-', m == "0e0"@)
        } else {
            t
        },
        None => t,
    }
}

/// A JSON number as text.
pub open spec fn number_text(n: NumberView) -> Seq<char> {
    match n {
        NumberView::Unsigned(v) => crate::numbers::decimal_of(v as nat),
        NumberView::Negative(v) => crate::numbers::signed_of(v as int),
        NumberView::Float(t) => float_text(t),
    }
}

/// What stands in front of and behind the first `c`; nothing behind it where there is none.
fn split_halves(s: &str, c: char) -> (r: (String, String))
    ensures
        (r.0@, r.1@) == halves(s@, c),
{
    match split_once(s, c) {
        Some(parts) => parts,
        None => {
            let none = String::new();
            assert(none@ =~= seq![]);
            (s.to_owned(), none)
        },
    }
}

/// The scientific rendering of a decimal text.
fn scientific(text: &str) -> (r: Option<String>)
    ensures
        crate::text::opt_view(r) == scientific_of(text@),
{
    let (mantissa, exponent) = split_halves(text, 'e');
    let (whole, fraction) = split_halves(mantissa.as_str(), '.');
    let whole_len: usize = chars_of(whole.as_str()).len();
    let mut joined = whole.clone();
    joined.append(fraction.as_str());
    let all = chars_of(joined.as_str());
    let n: usize = all.len();
    let mut from: usize = 0;
    assert(all@.skip(0) =~= all@);
    while from < n && all[from] == '0'
        invariant
            from <= n,
            n == all@.len(),
            leading_zeros(all@) == from + leading_zeros(all@.skip(from as int)),
        decreases n - from,
    {
        assert(all@.skip(from as int).skip(1) =~= all@.skip(from + 1));
        from = from + 1;
    }
    assert(leading_zeros(all@.skip(from as int)) == 0);
    let ghost rest = all@.skip(from as int);
    let mut to: usize = n;
    assert(rest.take(n - from) =~= rest);
    while to > from && all[to - 1] == '0'
        invariant
            from <= to <= n,
            n == all@.len(),
            rest == all@.skip(from as int),
            without_end_zeros(rest) == without_end_zeros(rest.take(to - from)),
        decreases to,
    {
        assert(rest.take(to - from).drop_last() =~= rest.take(to - from - 1));
        to = to - 1;
    }
    assert(without_end_zeros(rest.take(to - from)) == rest.take(to - from));
    let ghost digits = rest.take(to - from);
    assert(digits =~= all@.subrange(from as int, to as int));
    if to == from {
        return Some("0e0".to_owned());
    }
    let x: i64 = match parse_i64(exponent.as_str()) {
        Some(e) => e,
        None => 0,
    };
    let e: i128 = (whole_len as i128) - 1 - (from as i128) + (x as i128);
    if e < i64::MIN as i128 || e > i64::MAX as i128 {
        return None;
    }
    let mut out = String::new();
    out.push(all[from]);
    assert(out@ =~= digits.take(1));
    if to - from > 1 {
        out.push('.');
        let tail = substring(&all, from + 1, to);
        assert(tail@ =~= digits.skip(1));
        out.append(tail.as_str());
        assert(out@ =~= digits.take(1) + (seq!['.'] + digits.skip(1)));
    }
    assert(out@ =~= digits.take(1) + (if digits.len() > 1 {
        seq!['.'] + digits.skip(1)
    } else {
        seq![]
    }));
    out.push('e');
    out.append(signed_decimal(e as i64).as_str());
    Some(out)
}

/// Whether [`js_number`] takes a rendering.
fn is_js_ready(shortest: &str, is_zero: bool) -> (r: bool)
    ensures
        r == js_ready(shortest@, is_zero),
{
    if contains(shortest, "inf") || contains(shortest, "NaN") || is_zero {
        return true;
    }
    match split_once(shortest, 'e') {
        Some((mantissa, exponent)) => {
            let e: i64 = match parse_i64(exponent.as_str()) {
                Some(v) => v,
                None => 0,
            };
            let k: usize = digits_in(mantissa.as_str()).len();
            e < i64::MAX && ((e < 21 && e > -7) || k > 0)
        },
        None => true,
    }
}

/// A JSON number as text.
pub fn render_number(n: &JsonNumber) -> (r: String)
    ensures
        r@ == number_text(n@),
{
    match n {
        JsonNumber::Unsigned(v) => decimal(*v),
        JsonNumber::Negative(v) => signed_decimal(*v),
        JsonNumber::Float(t) => {
            let cs = chars_of(t.as_str());
            let negative = cs.len() > 0 && cs[0] == '-';
            let m = if negative {
                let tail = substring(&cs, 1, cs.len());
                assert(tail@ =~= t@.skip(1));
                tail
            } else {
                t.clone()
            };
            match scientific(m.as_str()) {
                Some(shortest) => {
                    let is_zero = str_eq(shortest.as_str(), "0e0");
                    if is_js_ready(shortest.as_str(), is_zero) {
                        js_number(shortest.as_str(), negative, is_zero)
                    } else {
                        t.clone()
                    }
                },
                None => t.clone(),
            }
        },
    }
}

/// The notation is exponential exactly for magnitudes of at least 1e21 or below 1e-6: for a
/// rendering whose exponent lies outside the band from -6 to 20.
pub proof fn plain_notation_band(digits: Seq<char>, e: int, sign: Seq<char>)
    requires
        forall|i: int| 0 <= i < digits.len() ==> '0' <= #[trigger] digits[i] <= '9',
        digits.len() > 0,
        !sign.contains('e'),
    ensures
        number_layout(sign, digits, e).contains('e') == !(-6 <= e <= 20),
{
    let out = number_layout(sign, digits, e);
    if exponential(e) {
        let p = sign + digits.take(1) + (if digits.len() > 1 {
            seq!['.'] + digits.skip(1)
        } else {
            seq![]
        });
        assert(out[p.len() as int] == 'e');
    } else {
        assert forall|i: int| 0 <= i < out.len() implies out[i] != 'e' by {
            if i < sign.len() {
                assert(out[i] == sign[i]);
            }
        }
    }
}

/// An integral value is written without a point.
pub proof fn integral_numbers_have_no_point(digits: Seq<char>, e: int, sign: Seq<char>)
    requires
        forall|i: int| 0 <= i < digits.len() ==> '0' <= #[trigger] digits[i] <= '9',
        digits.len() > 0,
        !sign.contains('.'),
        digits.len() - 1 <= e <= 20,
    ensures
        !number_layout(sign, digits, e).contains('.'),
{
    let out = number_layout(sign, digits, e);
    assert forall|i: int| 0 <= i < out.len() implies out[i] != '.' by {
        if i < sign.len() {
            assert(out[i] == sign[i]);
        }
    }
}

// ---------------------------------------------------------------------------
// The values of numbers
// ---------------------------------------------------------------------------
/// A number `m` times ten to the power `e`, as the pair of `m` and `e`.
pub type Decimal = (int, int);

/// Ten to the power `n`.
pub open spec fn ten_to(n: int) -> int {
    vstd::arithmetic::power::pow(10, n as nat)
}

/// Whether two pairs stand for the same number.
pub open spec fn same_number(a: Decimal, b: Decimal) -> bool {
    let low = if a.1 < b.1 {
        a.1
    } else {
        b.1
    };
    a.0 * ten_to(a.1 - low) == b.0 * ten_to(b.1 - low)
}

/// Whether a number is an integer.
pub open spec fn integral(a: Decimal) -> bool {
    exists|n: int| #[trigger] same_number((n, 0), a)
}

/// The number with the other sign where `negative` says so.
pub open spec fn signed_number(a: Decimal, negative: bool) -> Decimal {
    if negative {
        (-a.0, a.1)
    } else {
        a
    }
}

/// The number that a decimal text such as `-12.5` or `1.5e-7` denotes.
pub open spec fn read_decimal(text: Seq<char>) -> Option<Decimal> {
    let (mantissa, exponent) = halves(magnitude(text), 'e');
    let (whole, fraction) = halves(mantissa, '.');
    let x = if exponent.len() == 0 {
        Some(0int)
    } else {
        crate::numbers::parse_signed(exponent)
    };
    match (crate::numbers::digits_value(whole + fraction, 10), x) {
        (Some(m), Some(x)) => if whole.len() > 0 {
            Some(signed_number((m as int, x - fraction.len()), text[0] == '-'))
        } else {
            None
        },
        _ => None,
    }
}

/// A shortest rendering: digits of which neither the first nor the last is a zero.
pub open spec fn significant(digits: Seq<char>) -> bool {
    &&& digits.len() > 0
    &&& digits[0] != '0'
    &&& digits.last() != '0'
    &&& forall|i: int| 0 <= i < digits.len() ==> '0' <= #[trigger] digits[i] <= '9'
}

proof fn lemma_ascii_append(a: Seq<char>, b: Seq<char>)
    ensures
        ascii_digits(a + b) == ascii_digits(a) + ascii_digits(b),
    decreases b.len(),
{
    if b.len() == 0 {
        assert(a + b =~= a);
        assert(ascii_digits(a) + ascii_digits(b) =~= ascii_digits(a));
    } else {
        lemma_ascii_append(a, b.drop_last());
        assert((a + b).drop_last() =~= a + b.drop_last());
        assert((a + b).last() == b.last());
        assert(ascii_digits(a + b) =~= ascii_digits(a) + ascii_digits(b));
    }
}

proof fn lemma_ascii_all(s: Seq<char>)
    requires
        forall|i: int| 0 <= i < s.len() ==> '0' <= #[trigger] s[i] <= '9',
    ensures
        ascii_digits(s) == s,
    decreases s.len(),
{
    if s.len() > 0 {
        lemma_ascii_all(s.drop_last());
        assert('0' <= s.last() <= '9');
        assert(ascii_digits(s) =~= s);
    }
}

proof fn lemma_mantissa(digits: Seq<char>)
    requires
        significant(digits),
    ensures
        !mantissa_of(digits).contains('e'),
        ascii_digits(mantissa_of(digits)) == digits,
        halves(mantissa_of(digits), '.') == (digits.take(1), digits.skip(1)),
{
    let m = mantissa_of(digits);
    let head = digits.take(1);
    let tail = digits.skip(1);
    assert forall|j: int| 0 <= j < m.len() implies m[j] != 'e' by {
        if j > 1 {
            assert(m[j] == digits[j - 1]);
        }
    }
    assert(head[0] == digits[0]);
    assert(!head.contains('.'));
    crate::text::lemma_split(head, '.', tail);
    lemma_ascii_all(head);
    lemma_ascii_all(tail);
    assert(head + tail =~= digits);
    if digits.len() > 1 {
        assert(m =~= head + seq!['.'] + tail);
        lemma_ascii_append(seq!['.'], tail);
        lemma_ascii_append(head, seq!['.'] + tail);
        assert(ascii_digits(seq!['.']) =~= seq![]) by {
            reveal_with_fuel(ascii_digits, 2);
        }
        assert(ascii_digits(m) =~= digits);
    } else {
        assert(m =~= head);
        assert(tail =~= seq![]);
    }
}

/// A scientific rendering is taken apart into its digits and its exponent.
proof fn lemma_scientific_text(digits: Seq<char>, x: int)
    requires
        significant(digits),
        i64::MIN <= x <= i64::MAX,
    ensures
        !not_finite(scientific_text(digits, x)),
        scientific_parts(scientific_text(digits, x)) == Some((digits, x)),
        js_ready(scientific_text(digits, x), false) == (x < i64::MAX),
{
    let s = scientific_text(digits, x);
    let m = mantissa_of(digits);
    let exponent = crate::numbers::signed_of(x);
    lemma_mantissa(digits);
    crate::text::lemma_split(m, 'e', exponent);
    crate::numbers::signed_reads_back(x);
    crate::numbers::lemma_decimal_digits(
        if x < 0 {
            (-x) as nat
        } else {
            x as nat
        },
    );
    assert forall|j: int| 0 <= j < s.len() implies s[j] != 'i' && s[j] != 'N' by {
        if j < m.len() {
            assert(s[j] == m[j]);
            if j > 1 {
                assert(m[j] == digits[j - 1]);
            }
        } else if j > m.len() {
            assert(s[j] == exponent[j - m.len() - 1]);
        }
    }
    reveal_strlit("inf");
    reveal_strlit("NaN");
    assert forall|j: int| !crate::text::occurs_at(s, "inf"@, j) by {
        if crate::text::occurs_at(s, "inf"@, j) {
            assert(s.subrange(j, j + 3)[0] == s[j]);
        }
    }
    assert forall|j: int| !crate::text::occurs_at(s, "NaN"@, j) by {
        if crate::text::occurs_at(s, "NaN"@, j) {
            assert(s.subrange(j, j + 3)[0] == s[j]);
        }
    }
}

/// The number that digits with an exponent for the first of them stand for.
pub open spec fn value_of(digits: Seq<char>, x: int) -> Decimal {
    (crate::numbers::digits_value(digits, 10)->0 as int, x - (digits.len() - 1))
}

/// The number that a text without a sign denotes, from its parts.
proof fn lemma_read_parts(
    text: Seq<char>,
    whole: Seq<char>,
    fraction: Seq<char>,
    exponent: Option<(Seq<char>, int)>,
)
    requires
        whole.len() > 0,
        forall|i: int| 0 <= i < whole.len() ==> '0' <= #[trigger] whole[i] <= '9',
        forall|i: int| 0 <= i < fraction.len() ==> '0' <= #[trigger] fraction[i] <= '9',
        exponent matches Some((t, x)) ==> t.len() > 0 && crate::numbers::parse_signed(t) == Some(x),
        text == whole + (if fraction.len() > 0 {
            seq!['.'] + fraction
        } else {
            seq![]
        }) + match exponent {
            Some((t, _)) => seq!['e'] + t,
            None => seq![],
        },
    ensures
        read_decimal(text) == Some(
            (
                crate::numbers::digits_value(whole + fraction, 10)->0 as int,
                (match exponent {
                    Some((_, x)) => x,
                    None => 0,
                }) - fraction.len(),
            ),
        ),
        text.len() > 0 && text[0] == whole[0],
{
    let mantissa = whole + (if fraction.len() > 0 {
        seq!['.'] + fraction
    } else {
        seq![]
    });
    assert(text[0] == whole[0]);
    assert forall|j: int| 0 <= j < mantissa.len() implies mantissa[j] != 'e' by {
        if j < whole.len() {
            assert(mantissa[j] == whole[j]);
        } else if j > whole.len() {
            assert(mantissa[j] == fraction[j - whole.len() - 1]);
        }
    }
    let (t, _) = match exponent {
        Some(p) => p,
        None => (seq![], 0int),
    };
    crate::text::lemma_split(mantissa, 'e', t);
    match exponent {
        Some(_) => assert(text =~= mantissa + seq!['e'] + t),
        None => assert(text =~= mantissa),
    }
    assert(halves(text, 'e') == (mantissa, t));
    assert(!whole.contains('.'));
    crate::text::lemma_split(whole, '.', fraction);
    if fraction.len() > 0 {
        assert(mantissa =~= whole + seq!['.'] + fraction);
    } else {
        assert(mantissa =~= whole);
        assert(fraction =~= seq![]);
    }
    assert(halves(mantissa, '.') == (whole, fraction));
    let all = whole + fraction;
    assert forall|j: int| 0 <= j < all.len() implies '0' <= #[trigger] all[j] <= '9' by {
        if j < whole.len() {
            assert(all[j] == whole[j]);
        } else {
            assert(all[j] == fraction[j - whole.len()]);
        }
    }
    crate::numbers::lemma_digits_value(all);
}


proof fn lemma_exponential_value(digits: Seq<char>, x: int)
    requires
        significant(digits),
        i64::MIN <= x < i64::MAX,
        exponential(x),
    ensures
        read_decimal(number_layout(seq![], digits, x)) == Some(value_of(digits, x)),
        number_layout(seq![], digits, x)[0] == digits[0],
{
    let out = number_layout(seq![], digits, x);
    let head = digits.take(1);
    let tail = digits.skip(1);
    let written = crate::numbers::signed_of(x);
    let exponent = (if x >= 0 {
        seq!['+']
    } else {
        seq![]
    }) + written;
    crate::numbers::signed_reads_back(x);
    crate::numbers::lemma_decimal_digits(
        if x < 0 {
            (-x) as nat
        } else {
            x as nat
        },
    );
    if x < 0 {
        assert(exponent =~= written);
    }
    assert(out =~= head + (if tail.len() > 0 {
        seq!['.'] + tail
    } else {
        seq![]
    }) + (seq!['e'] + exponent));
    lemma_read_parts(out, head, tail, Some((exponent, x)));
    assert(head + tail =~= digits);
}

proof fn lemma_whole_value(digits: Seq<char>, x: int)
    requires
        significant(digits),
        !exponential(x),
        x + 1 >= digits.len(),
    ensures
        read_decimal(number_layout(seq![], digits, x)) == Some(
            (
                crate::numbers::digits_value(digits, 10)->0 * ten_to(x + 1 - digits.len()),
                0int,
            ),
        ),
        number_layout(seq![], digits, x)[0] == digits[0],
{
    let out = number_layout(seq![], digits, x);
    let k = digits.len() as int;
    let n = x + 1;
    let none = Seq::<char>::empty();
    let whole = digits + crate::text::repeat_of('0', n - k);
    assert(out =~= whole + none + none);
    assert forall|i: int| 0 <= i < whole.len() implies '0' <= #[trigger] whole[i] <= '9' by {
        if i < k {
            assert(whole[i] == digits[i]);
        }
    }
    lemma_read_parts(out, whole, none, None);
    assert(whole + none =~= whole);
    crate::numbers::lemma_digits_value(digits);
    crate::numbers::lemma_zeros_behind(digits, (n - k) as nat);
    vstd::arithmetic::power::lemma_pow_positive(10, (n - k) as nat);
    let d = crate::numbers::digits_value(digits, 10)->0;
    let p = ten_to(n - k);
    assert(d * p >= 0) by (nonlinear_arith)
        requires
            d >= 0,
            p > 0,
    ;
}

proof fn lemma_point_layout(digits: Seq<char>, x: int)
    requires
        !exponential(x),
        0 < x + 1 < digits.len(),
    ensures
        number_layout(seq![], digits, x) == digits.take(x + 1) + (seq!['.'] + digits.skip(x + 1))
            + Seq::<char>::empty(),
{
    let (whole, fraction) = (digits.take(x + 1), digits.skip(x + 1));
    let none = Seq::<char>::empty();
    assert(number_layout(none, digits, x) == none + whole + seq!['.'] + fraction);
    assert(none + whole + seq!['.'] + fraction =~= whole + (seq!['.'] + fraction) + none);
}

proof fn lemma_point_value(digits: Seq<char>, x: int)
    requires
        significant(digits),
        !exponential(x),
        0 < x + 1 < digits.len(),
    ensures
        read_decimal(number_layout(seq![], digits, x)) == Some(value_of(digits, x)),
        number_layout(seq![], digits, x)[0] == digits[0],
{
    let n = x + 1;
    let whole = digits.take(n);
    let fraction = digits.skip(n);
    lemma_point_layout(digits, x);
    assert forall|i: int| 0 <= i < fraction.len() implies '0' <= #[trigger] fraction[i] <= '9' by {
        assert(fraction[i] == digits[i + n]);
    }
    lemma_read_parts(number_layout(seq![], digits, x), whole, fraction, None);
    assert(whole + fraction =~= digits);
}

proof fn lemma_small_value(digits: Seq<char>, x: int)
    requires
        significant(digits),
        !exponential(x),
        x + 1 <= 0,
    ensures
        read_decimal(number_layout(seq![], digits, x)) == Some(value_of(digits, x)),
        number_layout(seq![], digits, x)[0] == '0',
{
    let out = number_layout(seq![], digits, x);
    let n = x + 1;
    let whole = seq!['0'];
    let fraction = crate::text::repeat_of('0', -n) + digits;
    assert forall|i: int| 0 <= i < fraction.len() implies '0' <= #[trigger] fraction[i] <= '9' by {
        if i >= -n {
            assert(fraction[i] == digits[i + n]);
        }
    }
    assert(out =~= whole + (seq!['.'] + fraction) + seq![]);
    lemma_read_parts(out, whole, fraction, None);
    assert(whole + fraction =~= crate::text::repeat_of('0', 1 - n) + digits);
    crate::numbers::lemma_zeros_before(digits, (1 - n) as nat);
}

/// The layout of a number without a sign denotes that number.
proof fn lemma_layout_value(digits: Seq<char>, x: int)
    requires
        significant(digits),
        i64::MIN <= x < i64::MAX,
    ensures
        ({
            let out = number_layout(seq![], digits, x);
            &&& out[0] != '-'
            &&& read_decimal(out) matches Some(v) && v.0 >= 0 && same_number(
                v,
                value_of(digits, x),
            ) && same_number(signed_number(v, true), signed_number(value_of(digits, x), true))
        }),
{
    let k = digits.len() as int;
    assert('0' <= digits[0] <= '9');
    if exponential(x) {
        lemma_exponential_value(digits, x);
    } else if x + 1 >= k {
        lemma_whole_value(digits, x);
        vstd::arithmetic::power::lemma_pow0(10);
        vstd::arithmetic::power::lemma_pow_positive(10, (x + 1 - k) as nat);
        let d = crate::numbers::digits_value(digits, 10)->0 as int;
        let p = ten_to(x + 1 - k);
        assert(d * p >= 0 && (d * p) * 1 == d * p && (-(d * p)) * 1 == (-d) * p)
            by (nonlinear_arith)
            requires
                d >= 0,
                p > 0,
        ;
    } else if x + 1 > 0 {
        lemma_point_value(digits, x);
    } else {
        lemma_small_value(digits, x);
    }
}

/// A minus sign in front of a text makes the number negative.
proof fn lemma_read_signed(bare: Seq<char>, negative: bool)
    requires
        read_decimal(bare) is Some,
        bare[0] != '-',
    ensures
        read_decimal(sign_of(negative) + bare) == Some(
            signed_number(read_decimal(bare)->0, negative),
        ),
{
    let out = sign_of(negative) + bare;
    assert(magnitude(bare) == bare);
    if negative {
        assert(out.skip(1) =~= bare);
    } else {
        assert(out =~= bare);
    }
}

/// A scientific rendering denotes the number of its digits and its exponent.
proof fn lemma_read_scientific(digits: Seq<char>, x: int)
    requires
        significant(digits),
        i64::MIN <= x < i64::MAX,
    ensures
        read_decimal(scientific_text(digits, x)) == Some(value_of(digits, x)),
{
    let shortest = scientific_text(digits, x);
    let exponent = crate::numbers::signed_of(x);
    let tail = digits.skip(1);
    crate::numbers::signed_reads_back(x);
    crate::numbers::lemma_decimal_digits(
        if x < 0 {
            (-x) as nat
        } else {
            x as nat
        },
    );
    assert(shortest =~= digits.take(1) + (if tail.len() > 0 {
        seq!['.'] + tail
    } else {
        seq![]
    }) + (seq!['e'] + exponent));
    lemma_read_parts(shortest, digits.take(1), tail, Some((exponent, x)));
    assert(digits.take(1) + tail =~= digits);
}

/// A plain notation has a point exactly where some digit counts less than one.
proof fn lemma_point(digits: Seq<char>, x: int, sign: Seq<char>)
    requires
        significant(digits),
        !exponential(x),
        !sign.contains('.'),
    ensures
        number_layout(sign, digits, x).contains('.') == (x < digits.len() - 1),
{
    let out = number_layout(sign, digits, x);
    let n = x + 1;
    if n >= digits.len() {
        integral_numbers_have_no_point(digits, x, sign);
    } else if n > 0 {
        assert(out[sign.len() + n] == '.');
    } else {
        assert(out[sign.len() as int + 1] == '.');
    }
}

/// A number whose last digit is not a zero is an integer exactly where no digit counts less than
/// one.
proof fn lemma_integral(digits: Seq<char>, x: int)
    requires
        significant(digits),
    ensures
        integral(value_of(digits, x)) == (x >= digits.len() - 1),
{
    let v = value_of(digits, x);
    crate::numbers::lemma_digits_value(digits);
    assert('0' <= digits.last() <= '9');
    vstd::arithmetic::power::lemma_pow0(10);
    if v.1 >= 0 {
        let n = v.0 * ten_to(v.1);
        assert(n * 1 == n);
        assert(same_number((n, 0), v));
    } else {
        assert forall|n: int| !#[trigger] same_number((n, 0), v) by {
            let e = (-v.1 - 1) as nat;
            let p = vstd::arithmetic::power::pow(10, e);
            assert(ten_to(-v.1) == 10 * p) by {
                reveal(vstd::arithmetic::power::pow);
            }
            if same_number((n, 0), v) {
                assert(n * (10 * p) == 10 * (n * p)) by (nonlinear_arith);
                assert(v.0 * 1 == v.0);
                assert(v.0 == 10 * (n * p));
                assert((10 * (n * p)) % 10 == 0);
            }
        }
    }
}

/// A number is laid out by its digits and its exponent, with its sign in front.
proof fn lemma_js_layout(digits: Seq<char>, x: int, negative: bool)
    requires
        significant(digits),
        i64::MIN <= x < i64::MAX,
    ensures
        js_ready(scientific_text(digits, x), false),
        js_number_of(scientific_text(digits, x), negative, false) == number_layout(
            sign_of(negative),
            digits,
            x,
        ),
        js_number_of(scientific_text(digits, x), negative, false) == sign_of(negative)
            + number_layout(seq![], digits, x),
{
    let sign = sign_of(negative);
    let none = Seq::<char>::empty();
    lemma_scientific_text(digits, x);
    assert(none + digits =~= digits);
    assert(none + digits.take(1) =~= digits.take(1));
    assert(none + digits.take(x + 1) =~= digits.take(x + 1));
    assert(number_layout(sign, digits, x) =~= sign + number_layout(none, digits, x));
}

/// A number is written as what it is. For a shortest scientific rendering of its absolute value,
/// the text reads back as the same number with its sign, the notation is exponential exactly
/// outside the band, a plain notation has a point exactly where the number is not an integer, and
/// the sign of a negative number stands in front.
#[verifier::spinoff_prover]
pub proof fn js_number_keeps_the_value(digits: Seq<char>, x: int, negative: bool)
    requires
        significant(digits),
        i64::MIN <= x < i64::MAX,
    ensures
        ({
            let shortest = scientific_text(digits, x);
            let out = js_number_of(shortest, negative, false);
            &&& js_ready(shortest, false)
            &&& read_decimal(shortest) == Some(value_of(digits, x))
            &&& read_decimal(out) matches Some(v) && same_number(
                v,
                signed_number(value_of(digits, x), negative),
            )
            &&& out.contains('e') == (x >= 21 || x <= -7)
            &&& !out.contains('e') ==> out.contains('.') == !integral(value_of(digits, x))
            &&& js_number_of(shortest, true, false) == seq!['-'] + js_number_of(
                shortest,
                false,
                false,
            )
        }),
{
    let shortest = scientific_text(digits, x);
    let out = js_number_of(shortest, negative, false);
    let sign = sign_of(negative);
    lemma_js_layout(digits, x, negative);
    lemma_js_layout(digits, x, true);
    lemma_js_layout(digits, x, false);
    assert(read_decimal(shortest) == Some(value_of(digits, x))) by {
        lemma_read_scientific(digits, x);
    }
    assert(read_decimal(out) matches Some(v) && same_number(
        v,
        signed_number(value_of(digits, x), negative),
    )) by {
        lemma_layout_value(digits, x);
        lemma_read_signed(number_layout(seq![], digits, x), negative);
    }
    assert(out.contains('e') == (x >= 21 || x <= -7)) by {
        plain_notation_band(digits, x, sign);
    }
    assert(!exponential(x) ==> out.contains('.') == !integral(value_of(digits, x))) by {
        lemma_integral(digits, x);
        if !exponential(x) {
            lemma_point(digits, x, sign);
        }
    }
    assert(js_number_of(shortest, true, false) =~= seq!['-'] + js_number_of(
        shortest,
        false,
        false,
    ));
}

/// Pairs may be compared from any power of ten that neither falls below.
proof fn lemma_scaled(a: Decimal, b: Decimal, low: int)
    requires
        low <= a.1,
        low <= b.1,
    ensures
        same_number(a, b) == (a.0 * ten_to(a.1 - low) == b.0 * ten_to(b.1 - low)),
{
    let least = if a.1 < b.1 {
        a.1
    } else {
        b.1
    };
    let (x, y, q) = (ten_to(a.1 - least), ten_to(b.1 - least), ten_to(least - low));
    vstd::arithmetic::power::lemma_pow_positive(10, (least - low) as nat);
    vstd::arithmetic::power::lemma_pow_adds(10, (a.1 - least) as nat, (least - low) as nat);
    vstd::arithmetic::power::lemma_pow_adds(10, (b.1 - least) as nat, (least - low) as nat);
    assert(ten_to(a.1 - low) == x * q);
    assert(ten_to(b.1 - low) == y * q);
    vstd::arithmetic::mul::lemma_mul_is_associative(a.0, x, q);
    vstd::arithmetic::mul::lemma_mul_is_associative(b.0, y, q);
    if (a.0 * x) * q == (b.0 * y) * q {
        vstd::arithmetic::mul::lemma_mul_equality_converse(q, a.0 * x, b.0 * y);
    }
}

/// Two numbers that are the same as a third are the same.
proof fn lemma_same_through(a: Decimal, b: Decimal, c: Decimal)
    requires
        same_number(a, b),
        same_number(c, b),
    ensures
        same_number(a, c),
{
    let ab = if a.1 < b.1 {
        a.1
    } else {
        b.1
    };
    let low = if ab < c.1 {
        ab
    } else {
        c.1
    };
    lemma_scaled(a, b, low);
    lemma_scaled(c, b, low);
    lemma_scaled(a, c, low);
}

/// How many zeros `s` ends in.
spec fn end_zeros(s: Seq<char>) -> nat
    decreases s.len(),
{
    if s.len() > 0 && s.last() == '0' {
        end_zeros(s.drop_last()) + 1
    } else {
        0
    }
}

proof fn lemma_end_zeros(s: Seq<char>)
    ensures
        s == without_end_zeros(s) + crate::text::repeat_of('0', end_zeros(s) as int),
        without_end_zeros(s).len() > 0 ==> without_end_zeros(s).last() != '0',
        without_end_zeros(s).len() <= s.len(),
        forall|i: int|
            0 <= i < without_end_zeros(s).len() ==> #[trigger] without_end_zeros(s)[i] == s[i],
    decreases s.len(),
{
    if s.len() > 0 && s.last() == '0' {
        lemma_end_zeros(s.drop_last());
        let shorter = without_end_zeros(s) + crate::text::repeat_of(
            '0',
            end_zeros(s.drop_last()) as int,
        );
        assert(s =~= shorter.push('0'));
        assert(s =~= without_end_zeros(s) + crate::text::repeat_of('0', end_zeros(s) as int));
    } else {
        assert(s =~= s + crate::text::repeat_of('0', 0));
    }
}

proof fn lemma_front_zeros(s: Seq<char>)
    ensures
        leading_zeros(s) <= s.len(),
        s == crate::text::repeat_of('0', leading_zeros(s) as int) + s.skip(
            leading_zeros(s) as int,
        ),
        leading_zeros(s) < s.len() ==> s[leading_zeros(s) as int] != '0',
    decreases s.len(),
{
    if s.len() > 0 && s[0] == '0' {
        let rest = s.skip(1);
        lemma_front_zeros(rest);
        let z = leading_zeros(rest) as int;
        assert(rest.skip(z) =~= s.skip(z + 1));
        assert(s =~= seq!['0'] + rest);
        assert(s =~= crate::text::repeat_of('0', z + 1) + s.skip(z + 1));
    } else {
        assert(s.skip(0) =~= s);
        assert(s =~= crate::text::repeat_of('0', 0) + s.skip(0));
    }
}

/// Characters that denote a number are digits.
proof fn lemma_value_digits(s: Seq<char>, i: int)
    requires
        crate::numbers::digits_value(s, 10) is Some,
        0 <= i < s.len(),
    ensures
        '0' <= s[i] <= '9',
    decreases s.len(),
{
    if i < s.len() - 1 {
        lemma_value_digits(s.drop_last(), i);
        assert(s.drop_last()[i] == s[i]);
    }
}

/// The significant digits of a decimal text and their exponent stand for the number that the text
/// denotes.
proof fn lemma_decimal_parts(text: Seq<char>)
    requires
        read_decimal(text) is Some,
        text[0] != '-',
    ensures
        ({
            let (digits, e) = decimal_parts(text);
            if digits.len() == 0 {
                (read_decimal(text)->0).0 == 0
            } else {
                significant(digits) && same_number(read_decimal(text)->0, value_of(digits, e))
                    && same_number(
                    signed_number(read_decimal(text)->0, true),
                    signed_number(value_of(digits, e), true),
                )
            }
        }),
{
    let (mantissa, exponent) = halves(text, 'e');
    let (whole, fraction) = halves(mantissa, '.');
    let all = whole + fraction;
    let front = leading_zeros(all) as int;
    let rest = all.skip(front);
    let digits = without_end_zeros(rest);
    let back = end_zeros(rest);
    let (m, f) = read_decimal(text)->0;
    let (_, e) = decimal_parts(text);
    assert(magnitude(text) == text);
    lemma_front_zeros(all);
    lemma_end_zeros(rest);
    crate::numbers::lemma_zeros_before(rest, front as nat);
    assert forall|i: int| 0 <= i < digits.len() implies '0' <= #[trigger] digits[i] <= '9' by {
        assert(digits[i] == rest[i]);
        lemma_value_digits(rest, i);
    }
    crate::numbers::lemma_digits_value(digits);
    crate::numbers::lemma_zeros_behind(digits, back);
    let d = crate::numbers::digits_value(digits, 10)->0 as int;
    let p = ten_to(back as int);
    vstd::arithmetic::power::lemma_pow_positive(10, back);
    assert(d * p >= 0) by (nonlinear_arith)
        requires
            d >= 0,
            p > 0,
    ;
    assert(m == d * p);
    if digits.len() == 0 {
        assert(d == 0);
        assert(d * p == 0) by (nonlinear_arith)
            requires
                d == 0,
        ;
    } else {
        assert(digits[0] == rest[0]);
        assert(rest[0] == all[front]);
        assert(rest.len() == digits.len() + back);
        assert(value_of(digits, e).1 - f == back);
        vstd::arithmetic::power::lemma_pow0(10);
        assert((-d) * p == (-(d * p)) * 1) by (nonlinear_arith);
        assert((d * p) * 1 == d * p);
    }
}

/// A text that denotes a number does so by its sign and by what stands behind that.
proof fn lemma_bare(t: Seq<char>)
    requires
        read_decimal(t) is Some,
    ensures
        t.len() > 0,
        magnitude(t)[0] != '-',
        read_decimal(magnitude(t)) is Some,
        read_decimal(t) == Some(signed_number(read_decimal(magnitude(t))->0, t[0] == '-')),
{
    let m = magnitude(t);
    let (mantissa, exponent) = halves(m, 'e');
    let (whole, fraction) = halves(mantissa, '.');
    crate::text::lemma_seek(m, 'e', 0);
    crate::text::lemma_seek(mantissa, '.', 0);
    assert(mantissa.len() > 0 && mantissa[0] == m[0]);
    assert(whole[0] == mantissa[0]);
    assert((whole + fraction)[0] == whole[0]);
    lemma_value_digits(whole + fraction, 0);
    assert(magnitude(m) == m);
}

proof fn lemma_zero_text()
    ensures
        read_decimal("0"@) == Some((0int, 0int)),
        !not_finite("0e0"@),
{
    reveal_strlit("0e0");
    reveal_strlit("inf");
    reveal_strlit("NaN");
    assert forall|j: int|
        !crate::text::occurs_at("0e0"@, "inf"@, j) && !crate::text::occurs_at(
            "0e0"@,
            "NaN"@,
            j,
        ) by {
        if 0 <= j && j + 3 <= 3 {
            assert("0e0"@.subrange(j, j + 3)[0] == '0');
        }
    }
    reveal_strlit("0");
    let none = Seq::<char>::empty();
    assert("0"@ =~= seq!['0'] + none + none);
    lemma_read_parts("0"@, seq!['0'], none, None);
    assert(seq!['0'] + none =~= crate::text::repeat_of('0', 1) + none);
    crate::numbers::lemma_zeros_before(none, 1);
}

proof fn lemma_not_zero(digits: Seq<char>, x: int)
    requires
        significant(digits),
    ensures
        scientific_text(digits, x) != "0e0"@,
{
    reveal_strlit("0e0");
    assert(scientific_text(digits, x)[0] == digits[0]);
}

/// A float is written as what it is: its text in the output reads back as the number that its
/// decimal text denotes.
pub proof fn floats_keep_their_value(t: Seq<char>)
    requires
        read_decimal(t) is Some,
    ensures
        read_decimal(float_text(t)) matches Some(v) && same_number(v, read_decimal(t)->0),
{
    let m = magnitude(t);
    let negative = t[0] == '-';
    let (digits, e) = decimal_parts(m);
    lemma_bare(t);
    lemma_decimal_parts(m);
    match scientific_of(m) {
        Some(shortest) => if digits.len() == 0 {
            lemma_zero_text();
            let w = read_decimal(t)->0;
            assert(w.0 == 0);
            assert(0 * ten_to(w.1) == 0 && 0 * ten_to(-w.1) == 0 && 0 * ten_to(0) == 0)
                by (nonlinear_arith);
            assert(js_ready(shortest, true));
        } else if e < i64::MAX {
            js_number_keeps_the_value(digits, e, negative);
            lemma_not_zero(digits, e);
            let v = read_decimal(float_text(t))->0;
            lemma_same_through(
                v,
                signed_number(value_of(digits, e), negative),
                read_decimal(t)->0,
            );
        } else {
            lemma_scientific_text(digits, e);
            lemma_not_zero(digits, e);
        },
        None => {},
    }
}

// ---------------------------------------------------------------------------
// Strings
// ---------------------------------------------------------------------------
/// A hexadecimal digit, in small letters.
pub open spec fn hex_digit(d: u32) -> char {
    if d < 10 {
        (48 + d) as char
    } else {
        (87 + d) as char
    }
}

/// A character inside a JSON string: quotation marks, backslashes and control characters are
/// escaped, the five common control characters by their letter.
pub open spec fn escaped_char(c: char) -> Seq<char> {
    if c == '"' || c == '\\' {
        seq!['\\', c]
    } else if c == '\u{8}' {
        seq!['\\', 'b']
    } else if c == '\t' {
        seq!['\\', 't']
    } else if c == '\n' {
        seq!['\\', 'n']
    } else if c == '\u{c}' {
        seq!['\\', 'f']
    } else if c == '\r' {
        seq!['\\', 'r']
    } else if ' ' > c {
        seq!['\\', 'u', '0', '0', hex_digit((c as u32) / 16), hex_digit((c as u32) % 16)]
    } else {
        seq![c]
    }
}

/// The characters of `s`, escaped.
pub open spec fn escaped(s: Seq<char>) -> Seq<char>
    decreases s.len(),
{
    if s.len() == 0 {
        seq![]
    } else {
        escaped(s.drop_last()) + escaped_char(s.last())
    }
}

/// A JSON string literal.
pub open spec fn quoted(s: Seq<char>) -> Seq<char> {
    seq!['"'] + escaped(s) + seq!['"']
}

/// `serde_json::to_string` on a string gives its JSON string literal: the characters between
/// quotation marks, with the escapes that [`escaped_char`] lists and no others.
#[verifier::external_body]
fn quote(s: &str) -> (r: String)
    ensures
        r@ == quoted(s@),
{
    serde_json::to_string(s).unwrap()
}

// ---------------------------------------------------------------------------
// Compact form
// ---------------------------------------------------------------------------
/// How the numbers of a value are written.
#[derive(Debug, Clone, Copy, PartialEq, Eq, Structural)]
pub enum Numbers {
    /// As JavaScript writes them: `1` for the float one.
    Js,
    /// As `serde_json` writes them: `1.0` for the float one.
    Serde,
}

/// A number in one of the two styles.
pub open spec fn number_in(n: NumberView, style: Numbers) -> Seq<char> {
    match (style, n) {
        (Numbers::Serde, NumberView::Float(t)) => t,
        _ => number_text(n),
    }
}

/// A value as compact JSON.
pub open spec fn compact_of(v: JsonView) -> Seq<char> {
    written(v, Numbers::Js)
}

/// A value as `serde_json::to_string` writes it.
pub open spec fn serialized_of(v: JsonView) -> Seq<char> {
    written(v, Numbers::Serde)
}

/// A value as compact JSON in one of the two styles.
pub open spec fn written(v: JsonView, style: Numbers) -> Seq<char>
    decreases v, 0nat,
{
    match v {
        JsonView::Null => "null"@,
        JsonView::Bool(b) => if b {
            "true"@
        } else {
            "false"@
        },
        JsonView::Number(n) => number_in(n, style),
        JsonView::Str(s) => quoted(s),
        JsonView::Array(items) => seq!['['] + written_items(items, items.len(), style) + seq![']'],
        JsonView::Object(m) => seq!['{'] + written_members(m, m.len(), style) + seq!['}'],
    }
}

/// The first `n` items, with commas between them.
pub open spec fn written_items(items: Seq<JsonView>, n: nat, style: Numbers) -> Seq<char>
    decreases items, n,
{
    if n == 0 || n > items.len() {
        seq![]
    } else {
        written_items(items, (n - 1) as nat, style) + comma(n == 1) + written(items[n - 1], style)
    }
}

/// The first `n` members, with commas between them.
pub open spec fn written_members(m: Members, n: nat, style: Numbers) -> Seq<char>
    decreases m, n,
{
    if n == 0 || n > m.len() {
        seq![]
    } else {
        written_members(m, (n - 1) as nat, style) + comma(n == 1) + quoted(m[n - 1].0) + seq![':']
            + written(m[n - 1].1, style)
    }
}

/// What separates an item from the one before it.
pub open spec fn comma(first: bool) -> Seq<char> {
    if first {
        seq![]
    } else {
        seq![',']
    }
}

/// A number in one of the two styles.
fn styled_number(n: &JsonNumber, style: Numbers) -> (r: String)
    ensures
        r@ == number_in(n@, style),
{
    match (style, n) {
        (Numbers::Serde, JsonNumber::Float(t)) => t.clone(),
        _ => render_number(n),
    }
}

/// Appends the compact form of a value.
fn write_compact(v: &Json, out: &mut String, style: Numbers)
    ensures
        final(out)@ == old(out)@ + written(v@, style),
    decreases v,
{
    broadcast use {crate::json::lemma_array_view, crate::json::lemma_object_view};

    let ghost start = out@;
    match v {
        Json::Null => {
            out.append("null");
        },
        Json::Bool(b) => {
            if *b {
                out.append("true");
            } else {
                out.append("false");
            }
        },
        Json::Number(n) => {
            out.append(styled_number(n, style).as_str());
        },
        Json::Str(s) => {
            out.append(quote(s.as_str()).as_str());
        },
        Json::Array(a) => {
            let ghost items = crate::json::items_view(a@);
            out.push('[');
            let mut i: usize = 0;
            assert(out@ =~= start + seq!['['] + written_items(items, 0, style));
            while i < a.len()
                invariant
                    i <= a@.len(),
                    *v == Json::Array(*a),
                    items == crate::json::items_view(a@),
                    out@ == start + seq!['['] + written_items(items, i as nat, style),
                decreases a@.len() - i,
            {
                let ghost before = out@;
                if i > 0 {
                    out.push(',');
                }
                assert(out@ =~= before + comma(i == 0));
                assert(decreases_to!(*v => v->Array_0));
                assert(decreases_to!(*a => a@[i as int]));
                write_compact(&a[i], out, style);
                i = i + 1;
                assert(out@ =~= start + seq!['['] + written_items(items, i as nat, style));
            }
            out.push(']');
            assert(out@ =~= start + (seq!['['] + written_items(items, items.len(), style) + seq![']']));
        },
        Json::Object(o) => {
            let ghost m = crate::json::members_view(o@);
            out.push('{');
            let mut i: usize = 0;
            assert(out@ =~= start + seq!['{'] + written_members(m, 0, style));
            while i < o.len()
                invariant
                    i <= o@.len(),
                    *v == Json::Object(*o),
                    m == crate::json::members_view(o@),
                    out@ == start + seq!['{'] + written_members(m, i as nat, style),
                decreases o@.len() - i,
            {
                let ghost before = out@;
                if i > 0 {
                    out.push(',');
                }
                assert(out@ =~= before + comma(i == 0));
                out.append(quote(o[i].0.as_str()).as_str());
                out.push(':');
                assert(decreases_to!(*v => v->Object_0));
                assert(decreases_to!(*o => o@[i as int]));
                write_compact(&o[i].1, out, style);
                i = i + 1;
                assert(out@ =~= start + seq!['{'] + written_members(m, i as nat, style));
            }
            out.push('}');
            assert(out@ =~= start + (seq!['{'] + written_members(m, m.len(), style) + seq!['}']));
        },
    }
}

/// Compact JSON, the form used on the MCP wire.
pub fn compact(value: &Json) -> (r: String)
    ensures
        r@ == compact_of(value@),
{
    let mut out = String::new();
    write_compact(value, &mut out, Numbers::Js);
    assert(out@ =~= compact_of(value@));
    out
}

/// JSON as `serde_json::to_string` writes it, the form of a request's payload.
pub fn serialized(value: &Json) -> (r: String)
    ensures
        r@ == serialized_of(value@),
{
    let mut out = String::new();
    write_compact(value, &mut out, Numbers::Serde);
    assert(out@ =~= serialized_of(value@));
    out
}

// ---------------------------------------------------------------------------
// Indented form
// ---------------------------------------------------------------------------
/// The white space that a line of the given depth starts with: two spaces for each level.
pub open spec fn indentation(depth: nat) -> Seq<char> {
    crate::text::repeat_of(' ', (2 * depth) as int)
}

/// The start of a line at the given depth.
pub open spec fn new_line(depth: nat) -> Seq<char> {
    seq!['\n'] + indentation(depth)
}

/// A value as indented JSON, inside `depth` lists and objects.
pub open spec fn pretty_of(v: JsonView, depth: nat) -> Seq<char>
    decreases v, 0nat,
{
    match v {
        JsonView::Array(items) => if items.len() == 0 {
            seq!['[', ']']
        } else {
            seq!['['] + pretty_items(items, items.len(), depth + 1) + new_line(depth) + seq![']']
        },
        JsonView::Object(m) => if m.len() == 0 {
            seq!['{', '}']
        } else {
            seq!['{'] + pretty_members(m, m.len(), depth + 1) + new_line(depth) + seq!['}']
        },
        _ => compact_of(v),
    }
}

/// The first `n` items, each on a line of its own.
pub open spec fn pretty_items(items: Seq<JsonView>, n: nat, depth: nat) -> Seq<char>
    decreases items, n,
{
    if n == 0 || n > items.len() {
        seq![]
    } else {
        pretty_items(items, (n - 1) as nat, depth) + comma(n == 1) + new_line(depth) + pretty_of(
            items[n - 1],
            depth,
        )
    }
}

/// The first `n` members, each on a line of its own.
pub open spec fn pretty_members(m: Members, n: nat, depth: nat) -> Seq<char>
    decreases m, n,
{
    if n == 0 || n > m.len() {
        seq![]
    } else {
        pretty_members(m, (n - 1) as nat, depth) + comma(n == 1) + new_line(depth) + quoted(
            m[n - 1].0,
        ) + seq![':', ' '] + pretty_of(m[n - 1].1, depth)
    }
}

/// Appends the start of a line at the depth that `indent` spells out.
fn write_new_line(out: &mut String, indent: &str, Ghost(depth): Ghost<nat>)
    requires
        indent@ == indentation(depth),
    ensures
        final(out)@ == old(out)@ + new_line(depth),
{
    out.push('\n');
    out.append(indent);
    assert(out@ =~= old(out)@ + new_line(depth));
}

/// Appends the indented form of a value; `indent` is the white space of the current depth.
fn write_pretty(v: &Json, indent: &str, out: &mut String, Ghost(depth): Ghost<nat>)
    requires
        indent@ == indentation(depth),
    ensures
        final(out)@ == old(out)@ + pretty_of(v@, depth),
    decreases v,
{
    broadcast use {crate::json::lemma_array_view, crate::json::lemma_object_view};

    let ghost start = out@;
    let mut inner = indent.to_owned();
    inner.push(' ');
    inner.push(' ');
    assert(inner@ =~= indentation(depth + 1));
    match v {
        Json::Array(a) => {
            let ghost items = crate::json::items_view(a@);
            out.push('[');
            if a.len() == 0 {
                out.push(']');
                assert(out@ =~= start + seq!['[', ']']);
                return;
            }
            let mut i: usize = 0;
            assert(out@ =~= start + seq!['['] + pretty_items(items, 0, depth + 1));
            while i < a.len()
                invariant
                    i <= a@.len(),
                    *v == Json::Array(*a),
                    items == crate::json::items_view(a@),
                    inner@ == indentation(depth + 1),
                    out@ == start + seq!['['] + pretty_items(items, i as nat, depth + 1),
                decreases a@.len() - i,
            {
                let ghost before = out@;
                if i > 0 {
                    out.push(',');
                }
                assert(out@ =~= before + comma(i == 0));
                write_new_line(out, inner.as_str(), Ghost(depth + 1));
                assert(decreases_to!(*v => v->Array_0));
                assert(decreases_to!(*a => a@[i as int]));
                write_pretty(&a[i], inner.as_str(), out, Ghost(depth + 1));
                i = i + 1;
                assert(out@ =~= start + seq!['['] + pretty_items(items, i as nat, depth + 1));
            }
            write_new_line(out, indent, Ghost(depth));
            out.push(']');
            assert(out@ =~= start + (seq!['['] + pretty_items(items, items.len(), depth + 1)
                + new_line(depth) + seq![']']));
        },
        Json::Object(o) => {
            let ghost m = crate::json::members_view(o@);
            out.push('{');
            if o.len() == 0 {
                out.push('}');
                assert(out@ =~= start + seq!['{', '}']);
                return;
            }
            let mut i: usize = 0;
            assert(out@ =~= start + seq!['{'] + pretty_members(m, 0, depth + 1));
            while i < o.len()
                invariant
                    i <= o@.len(),
                    *v == Json::Object(*o),
                    m == crate::json::members_view(o@),
                    inner@ == indentation(depth + 1),
                    out@ == start + seq!['{'] + pretty_members(m, i as nat, depth + 1),
                decreases o@.len() - i,
            {
                let ghost before = out@;
                if i > 0 {
                    out.push(',');
                }
                assert(out@ =~= before + comma(i == 0));
                write_new_line(out, inner.as_str(), Ghost(depth + 1));
                out.append(quote(o[i].0.as_str()).as_str());
                let ghost keyed = out@;
                out.push(':');
                out.push(' ');
                assert(out@ =~= keyed + seq![':', ' ']);
                assert(decreases_to!(*v => v->Object_0));
                assert(decreases_to!(*o => o@[i as int]));
                write_pretty(&o[i].1, inner.as_str(), out, Ghost(depth + 1));
                i = i + 1;
                assert(out@ =~= start + seq!['{'] + pretty_members(m, i as nat, depth + 1));
            }
            write_new_line(out, indent, Ghost(depth));
            out.push('}');
            assert(out@ =~= start + (seq!['{'] + pretty_members(m, m.len(), depth + 1) + new_line(
                depth,
            ) + seq!['}']));
        },
        _ => {
            write_compact(v, out, Numbers::Js);
        },
    }
}

/// 2-space indented JSON, the human/agent-facing form.
pub fn pretty(value: &Json) -> (r: String)
    ensures
        r@ == pretty_of(value@, 0),
{
    let mut out = String::new();
    let indent = String::new();
    assert(indent@ =~= indentation(0));
    write_pretty(value, indent.as_str(), &mut out, Ghost(0));
    assert(out@ =~= pretty_of(value@, 0));
    out
}

// ---------------------------------------------------------------------------
// Lines
// ---------------------------------------------------------------------------
/// No character of `s` is a line feed.
pub open spec fn on_one_line(s: Seq<char>) -> bool {
    forall|i: int| 0 <= i < s.len() ==> #[trigger] s[i] != '\n'
}

proof fn lemma_signed_line(n: int)
    ensures
        on_one_line(crate::numbers::signed_of(n)),
{
    if n < 0 {
        crate::numbers::lemma_decimal_digits((-n) as nat);
    } else {
        crate::numbers::lemma_decimal_digits(n as nat);
    }
}

proof fn lemma_digits_line(s: Seq<char>)
    ensures
        on_one_line(ascii_digits(s)),
    decreases s.len(),
{
    if s.len() > 0 {
        lemma_digits_line(s.drop_last());
    }
}

proof fn lemma_end_zeros_line(s: Seq<char>)
    requires
        on_one_line(s),
    ensures
        on_one_line(without_end_zeros(s)),
    decreases s.len(),
{
    if s.len() > 0 && s.last() == '0' {
        lemma_end_zeros_line(s.drop_last());
    }
}

proof fn lemma_leading_zeros(s: Seq<char>)
    ensures
        leading_zeros(s) <= s.len(),
    decreases s.len(),
{
    if s.len() > 0 && s[0] == '0' {
        lemma_leading_zeros(s.skip(1));
    }
}

proof fn lemma_halves_line(s: Seq<char>, c: char)
    requires
        on_one_line(s),
    ensures
        on_one_line(halves(s, c).0),
        on_one_line(halves(s, c).1),
{
    crate::text::lemma_seek(s, c, 0);
}

proof fn lemma_scientific_line(t: Seq<char>)
    requires
        on_one_line(t),
    ensures
        scientific_of(t) matches Some(m) ==> on_one_line(m),
{
    reveal_strlit("0e0");
    let (mantissa, exponent) = halves(t, 'e');
    lemma_halves_line(t, 'e');
    let (whole, fraction) = halves(mantissa, '.');
    lemma_halves_line(mantissa, '.');
    let all = whole + fraction;
    lemma_leading_zeros(all);
    lemma_end_zeros_line(all.skip(leading_zeros(all) as int));
    let (digits, e) = decimal_parts(t);
    lemma_signed_line(e);
}

proof fn lemma_number_line(m: Seq<char>, negative: bool, is_zero: bool)
    requires
        on_one_line(m),
        js_ready(m, is_zero),
    ensures
        on_one_line(js_number_of(m, negative, is_zero)),
{
    reveal_strlit("null");
    reveal_strlit("0");
    match crate::text::split_once_of(m, 'e') {
        Some((mantissa, _)) => {
            lemma_digits_line(mantissa);
            match scientific_parts(m) {
                Some((digits, e)) => lemma_signed_line(e),
                None => {},
            }
        },
        None => {},
    }
}

proof fn lemma_float_line(t: Seq<char>)
    requires
        on_one_line(t),
    ensures
        on_one_line(float_text(t)),
{
    lemma_scientific_line(magnitude(t));
    match scientific_of(magnitude(t)) {
        Some(m) => {
            if js_ready(m, m == "0e0"@) {
                lemma_number_line(m, t.len() > 0 && t[0] == '-', m == "0e0"@);
            }
        },
        None => {},
    }
}

proof fn lemma_escaped_char_line(c: char)
    ensures
        on_one_line(escaped_char(c)),
{
    if ' ' > c {
        let high = (c as u32) / 16;
        let low = (c as u32) % 16;
        assert(high < 2 && low < 16);
        assert(hex_digit(high) != '\n');
        assert(hex_digit(low) != '\n');
    }
}

proof fn lemma_escaped_line(s: Seq<char>)
    ensures
        on_one_line(escaped(s)),
    decreases s.len(),
{
    if s.len() > 0 {
        lemma_escaped_line(s.drop_last());
        lemma_escaped_char_line(s.last());
    }
}

proof fn lemma_written_line(v: JsonView, style: Numbers)
    requires
        crate::json::plain_floats(v),
    ensures
        on_one_line(written(v, style)),
    decreases v, 0nat,
{
    match v {
        JsonView::Null => reveal_strlit("null"),
        JsonView::Bool(_) => {
            reveal_strlit("true");
            reveal_strlit("false");
        },
        JsonView::Number(n) => match n {
            NumberView::Unsigned(u) => lemma_signed_line(u as int),
            NumberView::Negative(i) => lemma_signed_line(i as int),
            NumberView::Float(t) => {
                assert(on_one_line(t)) by {
                    assert forall|i: int| 0 <= i < t.len() implies #[trigger] t[i] != '\n' by {
                        assert(crate::json::float_char(t[i]));
                    }
                }
                lemma_float_line(t);
            },
        },
        JsonView::Str(s) => lemma_escaped_line(s),
        JsonView::Array(items) => lemma_items_line(items, items.len(), style),
        JsonView::Object(m) => lemma_members_line(m, m.len(), style),
    }
}

proof fn lemma_items_line(items: Seq<JsonView>, n: nat, style: Numbers)
    requires
        forall|i: int| 0 <= i < items.len() ==> crate::json::plain_floats(#[trigger] items[i]),
    ensures
        on_one_line(written_items(items, n, style)),
    decreases items, n,
{
    if n == 0 || n > items.len() {
    } else {
        lemma_items_line(items, (n - 1) as nat, style);
        lemma_written_line(items[n - 1], style);
    }
}

proof fn lemma_members_line(m: Members, n: nat, style: Numbers)
    requires
        forall|i: int| 0 <= i < m.len() ==> crate::json::plain_floats((#[trigger] m[i]).1),
    ensures
        on_one_line(written_members(m, n, style)),
    decreases m, n,
{
    if n == 0 || n > m.len() {
    } else {
        lemma_members_line(m, (n - 1) as nat, style);
        lemma_escaped_line(m[n - 1].0);
        lemma_written_line(m[n - 1].1, style);
    }
}

/// Compact JSON stays on one line, whatever the strings in it hold: on the wire, a line is a
/// message.
pub proof fn compact_is_one_line(v: JsonView)
    requires
        crate::json::plain_floats(v),
    ensures
        on_one_line(compact_of(v)),
{
    lemma_written_line(v, Numbers::Js);
}

proof fn lemma_items_joined(items: Seq<JsonView>, n: nat)
    requires
        n <= items.len(),
    ensures
        written_items(items, n, Numbers::Js) == crate::text::join_of(
            Seq::new(n, |i: int| compact_of(items[i])),
            seq![','],
        ),
    decreases n,
{
    let parts = Seq::new(n, |i: int| compact_of(items[i]));
    if n > 0 {
        let before = (n - 1) as nat;
        lemma_items_joined(items, before);
        assert(parts.drop_last() =~= Seq::new(before, |i: int| compact_of(items[i])));
        if n == 1 {
            assert(written_items(items, n, Numbers::Js) =~= parts[0]);
        }
    }
}

proof fn lemma_members_joined(m: Members, n: nat)
    requires
        n <= m.len(),
    ensures
        written_members(m, n, Numbers::Js) == crate::text::join_of(
            Seq::new(n, |i: int| quoted(m[i].0) + seq![':'] + compact_of(m[i].1)),
            seq![','],
        ),
    decreases n,
{
    let parts = Seq::new(n, |i: int| quoted(m[i].0) + seq![':'] + compact_of(m[i].1));
    if n > 0 {
        let before = (n - 1) as nat;
        lemma_members_joined(m, before);
        assert(parts.drop_last() =~= Seq::new(
            before,
            |i: int| quoted(m[i].0) + seq![':'] + compact_of(m[i].1),
        ));
        let whole = written_members(m, n, Numbers::Js);
        if n == 1 {
            assert(whole =~= parts[0]);
        } else {
            assert(whole =~= written_members(m, before, Numbers::Js) + seq![','] + parts.last());
        }
    }
}

/// In compact JSON the items of an array and the members of an object stand in their order between
/// commas, every one of them, and nothing else does; scalars are written as themselves.
pub proof fn compact_json_has_every_part(items: Seq<JsonView>, m: Members, s: Seq<char>, n: u64)
    ensures
        compact_of(JsonView::Null) == "null"@,
        compact_of(JsonView::Bool(true)) == "true"@,
        compact_of(JsonView::Bool(false)) == "false"@,
        compact_of(JsonView::Str(s)) == quoted(s),
        compact_of(JsonView::Number(NumberView::Unsigned(n))) == crate::numbers::decimal_of(
            n as nat,
        ),
        compact_of(JsonView::Array(items)) == seq!['['] + crate::text::join_of(
            Seq::new(items.len(), |i: int| compact_of(items[i])),
            seq![','],
        ) + seq![']'],
        compact_of(JsonView::Object(m)) == seq!['{'] + crate::text::join_of(
            Seq::new(m.len(), |i: int| quoted(m[i].0) + seq![':'] + compact_of(m[i].1)),
            seq![','],
        ) + seq!['}'],
{
    lemma_items_joined(items, items.len());
    lemma_members_joined(m, m.len());
}

/// Negative numbers are written with their sign. A number with a fraction is written as JavaScript
/// does in compact JSON, and as it came where a value is serialised.
pub proof fn numbers_are_written(n: i64, t: Seq<char>)
    ensures
        compact_of(JsonView::Number(NumberView::Negative(n))) == crate::numbers::signed_of(
            n as int,
        ),
        compact_of(JsonView::Number(NumberView::Float(t))) == float_text(t),
        serialized_of(JsonView::Number(NumberView::Float(t))) == t,
        serialized_of(JsonView::Number(NumberView::Negative(n))) == crate::numbers::signed_of(
            n as int,
        ),
{
}

/// What is not finite is null, and a zero of either sign is zero.
pub proof fn odd_numbers_are_plain(shortest: Seq<char>, negative: bool, is_zero: bool)
    ensures
        crate::text::contains_seq(shortest, "inf"@) || crate::text::contains_seq(shortest, "NaN"@)
            ==> js_number_of(shortest, negative, is_zero) == "null"@,
        !crate::text::contains_seq(shortest, "inf"@) && !crate::text::contains_seq(
            shortest,
            "NaN"@,
        ) ==> js_number_of(shortest, negative, true) == "0"@,
{
}

proof fn lemma_pretty_items_joined(items: Seq<JsonView>, n: nat, depth: nat)
    requires
        n <= items.len(),
    ensures
        pretty_items(items, n, depth) == crate::text::join_of(
            Seq::new(n, |i: int| new_line(depth) + pretty_of(items[i], depth)),
            seq![','],
        ),
    decreases n,
{
    let parts = Seq::new(n, |i: int| new_line(depth) + pretty_of(items[i], depth));
    if n > 0 {
        let before = (n - 1) as nat;
        lemma_pretty_items_joined(items, before, depth);
        assert(parts.drop_last() =~= Seq::new(
            before,
            |i: int| new_line(depth) + pretty_of(items[i], depth),
        ));
        let whole = pretty_items(items, n, depth);
        if n == 1 {
            assert(whole =~= parts[0]);
        } else {
            assert(whole =~= pretty_items(items, before, depth) + seq![','] + parts.last());
        }
    }
}

proof fn lemma_pretty_members_joined(m: Members, n: nat, depth: nat)
    requires
        n <= m.len(),
    ensures
        pretty_members(m, n, depth) == crate::text::join_of(
            Seq::new(
                n,
                |i: int|
                    new_line(depth) + (quoted(m[i].0) + seq![':', ' '] + pretty_of(m[i].1, depth)),
            ),
            seq![','],
        ),
    decreases n,
{
    let parts = Seq::new(
        n,
        |i: int| new_line(depth) + (quoted(m[i].0) + seq![':', ' '] + pretty_of(m[i].1, depth)),
    );
    if n > 0 {
        let before = (n - 1) as nat;
        lemma_pretty_members_joined(m, before, depth);
        assert(parts.drop_last() =~= Seq::new(
            before,
            |i: int|
                new_line(depth) + (quoted(m[i].0) + seq![':', ' '] + pretty_of(m[i].1, depth)),
        ));
        let whole = pretty_members(m, n, depth);
        if n == 1 {
            assert(whole =~= parts[0]);
        } else {
            assert(whole =~= pretty_members(m, before, depth) + seq![','] + parts.last());
        }
    }
}

/// Over several lines each item and each member has its own, two spaces further in than what it is
/// part of, and what they are part of ends on a line of its own. Empty arrays and objects, and
/// scalars, are written as in compact JSON.
pub proof fn pretty_json_has_a_line_for_each(items: Seq<JsonView>, m: Members, v: JsonView, depth: nat)
    ensures
        ({
            let inner = seq!['\n'] + crate::text::repeat_of(' ', (2 * depth + 2) as int);
            let outer = seq!['\n'] + crate::text::repeat_of(' ', (2 * depth) as int);
            &&& items.len() > 0 ==> pretty_of(JsonView::Array(items), depth) == seq!['[']
                + crate::text::join_of(
                Seq::new(items.len(), |i: int| inner + pretty_of(items[i], depth + 1)),
                seq![','],
            ) + outer + seq![']']
            &&& m.len() > 0 ==> pretty_of(JsonView::Object(m), depth) == seq!['{']
                + crate::text::join_of(
                Seq::new(
                    m.len(),
                    |i: int|
                        inner + (quoted(m[i].0) + seq![':', ' '] + pretty_of(m[i].1, depth + 1)),
                ),
                seq![','],
            ) + outer + seq!['}']
            &&& items.len() == 0 ==> pretty_of(JsonView::Array(items), depth) == seq!['[', ']']
            &&& m.len() == 0 ==> pretty_of(JsonView::Object(m), depth) == seq!['{', '}']
            &&& !(v is Array) && !(v is Object) ==> pretty_of(v, depth) == compact_of(v)
        }),
{
    let inner = seq!['\n'] + crate::text::repeat_of(' ', (2 * depth + 2) as int);
    assert(inner =~= new_line(depth + 1));
    lemma_pretty_items_joined(items, items.len(), depth + 1);
    lemma_pretty_members_joined(m, m.len(), depth + 1);
    assert(Seq::new(items.len(), |i: int| inner + pretty_of(items[i], depth + 1)) =~= Seq::new(
        items.len(),
        |i: int| new_line(depth + 1) + pretty_of(items[i], depth + 1),
    ));
    assert(Seq::new(
        m.len(),
        |i: int| inner + (quoted(m[i].0) + seq![':', ' '] + pretty_of(m[i].1, depth + 1)),
    ) =~= Seq::new(
        m.len(),
        |i: int|
            new_line(depth + 1) + (quoted(m[i].0) + seq![':', ' '] + pretty_of(m[i].1, depth + 1)),
    ));
}

/// A string is written between quotes with each of its characters in order: quotes and backslashes
/// behind a backslash, the controls as escapes, and every other character as it is.
pub proof fn strings_are_escaped(s: Seq<char>, c: char)
    ensures
        quoted(Seq::<char>::empty()) == seq!['"', '"'],
        quoted(s.push(c)) == quoted(s).drop_last() + escaped_char(c) + seq!['"'],
        c == '"' || c == '\\' ==> escaped_char(c) == seq!['\\', c],
        c == '\n' ==> escaped_char(c) == seq!['\\', 'n'],
        c == '\r' ==> escaped_char(c) == seq!['\\', 'r'],
        c == '\t' ==> escaped_char(c) == seq!['\\', 't'],
        c as u32 >= 32 && c != '"' && c != '\\' ==> escaped_char(c) == seq![c],
{
    assert(s.push(c).drop_last() =~= s);
    assert(quoted(s).drop_last() =~= seq!['"'] + escaped(s));
    assert(quoted(s.push(c)) =~= quoted(s).drop_last() + escaped_char(c) + seq!['"']);
    assert(quoted(Seq::<char>::empty()) =~= seq!['"', '"']);
}

/// The other controls are escaped by the two hexadecimal digits of their code, in small letters.
pub proof fn controls_are_escaped_by_code(c: char)
    requires
        (c as u32) < 32,
        c as u32 != 8 && c as u32 != 9 && c as u32 != 10 && c as u32 != 12 && c as u32 != 13,
    ensures
        ({
            let e = escaped_char(c);
            &&& e.len() == 6
            &&& e.take(4) == seq!['\\', 'u', '0', '0']
            &&& crate::numbers::digits_value(e.skip(4), 16) == Some(c as u32 as nat)
            &&& !('A' <= e[4] <= 'F') && !('A' <= e[5] <= 'F')
        }),
        escaped_char('\u{8}') == seq!['\\', 'b'],
        escaped_char('\u{c}') == seq!['\\', 'f'],
{
    let e = escaped_char(c);
    let n = c as u32;
    assert(e.len() == 6);
    assert(e.take(4) =~= seq!['\\', 'u', '0', '0']);
    let s = e.skip(4);
    assert(s =~= seq![hex_digit(n / 16), hex_digit(n % 16)]);
    assert(s.drop_last() =~= seq![hex_digit(n / 16)]);
    assert(s.drop_last().drop_last() =~= Seq::<char>::empty());
    reveal_with_fuel(crate::numbers::digits_value, 3);
}

} // verus!
