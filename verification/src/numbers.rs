//! Integers written in decimal and hexadecimal digits.
use vstd::prelude::*;
use vstd::string::*;

use crate::text::chars_of;

verus! {

// ---------------------------------------------------------------------------
// Specifications
// ---------------------------------------------------------------------------
/// The decimal digit for a value below ten.
pub open spec fn digit_of(d: nat) -> char {
    (48 + d) as char
}

/// A natural number in decimal, without leading zeros.
pub open spec fn decimal_of(n: nat) -> Seq<char>
    decreases n,
{
    if n < 10 {
        seq![digit_of(n)]
    } else {
        decimal_of(n / 10).push(digit_of(n % 10))
    }
}

/// An integer in decimal, with a minus sign in front of a negative one.
pub open spec fn signed_of(n: int) -> Seq<char> {
    if n < 0 {
        seq!['-'] + decimal_of((-n) as nat)
    } else {
        decimal_of(n as nat)
    }
}

/// The value of a digit of the given radix (up to sixteen); letters of either case count from ten.
pub open spec fn digit_value(c: char, radix: nat) -> Option<nat> {
    let v = if '0' <= c <= '9' {
        (c as u32 - 48) as nat
    } else if 'a' <= c <= 'f' {
        (c as u32 - 87) as nat
    } else if 'A' <= c <= 'F' {
        (c as u32 - 55) as nat
    } else {
        99
    };
    if v < radix {
        Some(v)
    } else {
        None
    }
}

/// The number that a sequence of digits denotes, or `None` where some character is no digit.
pub open spec fn digits_value(s: Seq<char>, radix: nat) -> Option<nat>
    decreases s.len(),
{
    if s.len() == 0 {
        Some(0)
    } else {
        match (digits_value(s.drop_last(), radix), digit_value(s.last(), radix)) {
            (Some(v), Some(d)) => Some(v * radix + d),
            _ => None,
        }
    }
}

/// One digit or more, of a value of at most `max`.
pub open spec fn parse_digits(s: Seq<char>, radix: nat, max: nat) -> Option<nat> {
    if s.len() == 0 {
        None
    } else {
        match digits_value(s, radix) {
            Some(v) => if v <= max {
                Some(v)
            } else {
                None
            },
            None => None,
        }
    }
}

/// An unsigned number: an optional plus sign, then digits, of a value of at most `max`.
pub open spec fn parse_unsigned(s: Seq<char>, radix: nat, max: nat) -> Option<nat> {
    if s.len() > 0 && s[0] == '+' {
        parse_digits(s.skip(1), radix, max)
    } else {
        parse_digits(s, radix, max)
    }
}

/// A signed decimal number that fits 64 bits: an optional sign, then digits.
pub open spec fn parse_signed(s: Seq<char>) -> Option<int> {
    if s.len() > 0 && s[0] == '-' {
        match parse_digits(s.skip(1), 10, 0x8000_0000_0000_0000) {
            Some(v) => Some(-(v as int)),
            None => None,
        }
    } else {
        match parse_unsigned(s, 10, 0x7fff_ffff_ffff_ffff) {
            Some(v) => Some(v as int),
            None => None,
        }
    }
}

// ---------------------------------------------------------------------------
// Facts
// ---------------------------------------------------------------------------
proof fn lemma_prefix_value(s: Seq<char>, radix: nat, k: int)
    requires
        radix >= 1,
        0 <= k <= s.len(),
    ensures
        digits_value(s, radix) matches Some(v) ==> (digits_value(s.take(k), radix) matches Some(w)
            && w <= v),
    decreases s.len() - k,
{
    if k == s.len() {
        assert(s.take(k) =~= s);
    } else {
        lemma_prefix_value(s, radix, k + 1);
        assert(s.take(k + 1).drop_last() =~= s.take(k));
        if let Some(w) = digits_value(s.take(k), radix) {
            assert(w * radix >= w) by (nonlinear_arith)
                requires
                    radix >= 1,
            ;
        }
    }
}

/// A number in decimal reads back as itself.
pub proof fn decimal_reads_back(n: nat, max: nat)
    requires
        n <= max,
    ensures
        parse_unsigned(decimal_of(n), 10, max) == Some(n),
{
    lemma_decimal(n);
}

proof fn lemma_decimal(n: nat)
    ensures
        decimal_of(n).len() > 0,
        digits_value(decimal_of(n), 10) == Some(n),
        forall|i: int| 0 <= i < decimal_of(n).len() ==> '0' <= #[trigger] decimal_of(n)[i] <= '9',
    decreases n,
{
    if n < 10 {
        assert(decimal_of(n).drop_last() =~= Seq::<char>::empty());
        assert(digits_value(decimal_of(n).drop_last(), 10) == Some(0nat));
    } else {
        lemma_decimal(n / 10);
        assert(decimal_of(n).drop_last() =~= decimal_of(n / 10));
    }
}

/// Every character of a decimal number is a digit, and there is at least one.
pub proof fn lemma_decimal_digits(n: nat)
    ensures
        decimal_of(n).len() > 0,
        forall|i: int| 0 <= i < decimal_of(n).len() ==> '0' <= #[trigger] decimal_of(n)[i] <= '9',
{
    lemma_decimal(n);
}

/// A signed number in decimal reads back as itself, with a plus sign in front of it too where it
/// is not negative.
pub proof fn signed_reads_back(n: int)
    requires
        i64::MIN <= n <= i64::MAX,
    ensures
        parse_signed(signed_of(n)) == Some(n),
        n >= 0 ==> parse_signed(seq!['+'] + signed_of(n)) == Some(n),
{
    let m = if n < 0 {
        (-n) as nat
    } else {
        n as nat
    };
    lemma_decimal(m);
    assert('0' <= decimal_of(m)[0] <= '9');
    assert((seq!['-'] + decimal_of(m)).skip(1) =~= decimal_of(m));
    assert((seq!['+'] + decimal_of(m)).skip(1) =~= decimal_of(m));
}

/// Decimal digits denote a number, whose last digit is the last of them.
pub proof fn lemma_digits_value(s: Seq<char>)
    requires
        forall|i: int| 0 <= i < s.len() ==> '0' <= #[trigger] s[i] <= '9',
    ensures
        digits_value(s, 10) is Some,
        s.len() > 0 ==> digits_value(s, 10)->0 % 10 == s.last() as u32 - 48,
    decreases s.len(),
{
    if s.len() > 0 {
        lemma_digits_value(s.drop_last());
        assert('0' <= s.last() <= '9');
    }
}

/// Zeros behind digits multiply by powers of ten.
pub proof fn lemma_zeros_behind(s: Seq<char>, z: nat)
    requires
        digits_value(s, 10) is Some,
    ensures
        digits_value(s + crate::text::repeat_of('0', z as int), 10) == Some(
            (digits_value(s, 10)->0 * vstd::arithmetic::power::pow(10, z)) as nat,
        ),
    decreases z,
{
    let v = digits_value(s, 10)->0;
    let all = s + crate::text::repeat_of('0', z as int);
    if z == 0 {
        assert(all =~= s);
        vstd::arithmetic::power::lemma_pow0(10);
    } else {
        let y = (z - 1) as nat;
        lemma_zeros_behind(s, y);
        vstd::arithmetic::power::lemma_pow_positive(10, y);
        let p = vstd::arithmetic::power::pow(10, y);
        assert(vstd::arithmetic::power::pow(10, z) == 10 * p) by {
            reveal(vstd::arithmetic::power::pow);
        }
        assert(all.drop_last() =~= s + crate::text::repeat_of('0', y as int));
        assert(all.last() == '0');
        assert(v * p >= 0 && (v * p) * 10 == v * (10 * p)) by (nonlinear_arith)
            requires
                v >= 0,
                p > 0,
        ;
    }
}

/// Zeros in front of digits change nothing.
pub proof fn lemma_zeros_before(s: Seq<char>, z: nat)
    ensures
        digits_value(crate::text::repeat_of('0', z as int) + s, 10) == digits_value(s, 10),
    decreases s.len(), z,
{
    let all = crate::text::repeat_of('0', z as int) + s;
    if s.len() > 0 {
        lemma_zeros_before(s.drop_last(), z);
        assert(all.drop_last() =~= crate::text::repeat_of('0', z as int) + s.drop_last());
        assert(all.last() == s.last());
    } else if z > 0 {
        let y = (z - 1) as nat;
        lemma_zeros_before(s, y);
        assert(all.drop_last() =~= crate::text::repeat_of('0', y as int) + s);
        assert(all.last() == '0');
    } else {
        assert(all =~= s);
    }
}

// ---------------------------------------------------------------------------
// Executable functions
// ---------------------------------------------------------------------------
/// A number in decimal.
pub fn decimal(n: u64) -> (r: String)
    ensures
        r@ == decimal_of(n as nat),
    decreases n,
{
    let d: u64 = n % 10;
    let c = (48 + (d as u8)) as char;
    if n < 10 {
        let mut s = String::new();
        s.push(c);
        assert(s@ =~= decimal_of(n as nat));
        s
    } else {
        let mut s = decimal(n / 10);
        s.push(c);
        s
    }
}

/// A signed number in decimal.
pub fn signed_decimal(n: i64) -> (r: String)
    ensures
        r@ == signed_of(n as int),
{
    if n < 0 {
        let m: u64 = if n == i64::MIN {
            0x8000_0000_0000_0000
        } else {
            (-n) as u64
        };
        let mut s = "-".to_owned();
        s.append(decimal(m).as_str());
        proof {
            reveal_strlit("-");
            assert("-"@ =~= seq!['-']);
        }
        s
    } else {
        decimal(n as u64)
    }
}

/// The value of a digit.
fn read_digit(c: char, radix: u8) -> (r: Option<u8>)
    requires
        radix <= 16,
    ensures
        match r {
            Some(d) => digit_value(c, radix as nat) == Some(d as nat),
            None => digit_value(c, radix as nat) is None,
        },
{
    let v: u8 = if '0' <= c && c <= '9' {
        (c as u8) - 48
    } else if 'a' <= c && c <= 'f' {
        (c as u8) - 87
    } else if 'A' <= c && c <= 'F' {
        (c as u8) - 55
    } else {
        99
    };
    if v < radix {
        Some(v)
    } else {
        None
    }
}

/// The digits of `cs` from position `from` on as a number of at most `max`.
fn read_digits(cs: &Vec<char>, from: usize, radix: u8, max: u64) -> (r: Option<u64>)
    requires
        from <= cs@.len(),
        1 <= radix <= 16,
    ensures
        match r {
            Some(v) => parse_digits(cs@.skip(from as int), radix as nat, max as nat) == Some(
                v as nat,
            ),
            None => parse_digits(cs@.skip(from as int), radix as nat, max as nat) is None,
        },
{
    if from == cs.len() {
        return None;
    }
    let ghost s = cs@.skip(from as int);
    let mut value: u64 = 0;
    let mut i: usize = from;
    while i < cs.len()
        invariant
            from <= i <= cs@.len(),
            1 <= radix <= 16,
            value <= max,
            s == cs@.skip(from as int),
            s.len() > 0,
            digits_value(s.take(i - from), radix as nat) == Some(value as nat),
        decreases cs@.len() - i,
    {
        let ghost k = i - from;
        assert(s.take(k + 1).drop_last() =~= s.take(k));
        assert(s.take(k + 1).last() == cs@[i as int]);
        match read_digit(cs[i], radix) {
            Some(d) => {
                assert(0 <= value * radix <= 0xffff_ffff_ffff_ffff * 16) by (nonlinear_arith)
                    requires
                        0 <= value <= 0xffff_ffff_ffff_ffff,
                        1 <= radix <= 16,
                ;
                let wide: u128 = (value as u128) * (radix as u128) + (d as u128);
                proof {
                    lemma_prefix_value(s, radix as nat, k + 1);
                }
                if wide > max as u128 {
                    return None;
                }
                value = wide as u64;
            },
            None => {
                proof {
                    lemma_prefix_value(s, radix as nat, k + 1);
                }
                return None;
            },
        }
        i = i + 1;
    }
    assert(s.take(i - from) =~= s);
    Some(value)
}

/// An unsigned number of at most `max`.
fn read_unsigned(s: &str, radix: u8, max: u64) -> (r: Option<u64>)
    requires
        1 <= radix <= 16,
    ensures
        match r {
            Some(v) => parse_unsigned(s@, radix as nat, max as nat) == Some(v as nat),
            None => parse_unsigned(s@, radix as nat, max as nat) is None,
        },
{
    let cs = chars_of(s);
    if cs.len() > 0 && cs[0] == '+' {
        read_digits(&cs, 1, radix, max)
    } else {
        assert(s@.skip(0) =~= s@);
        read_digits(&cs, 0, radix, max)
    }
}

pub fn parse_u64(s: &str) -> (r: Option<u64>)
    ensures
        match r {
            Some(v) => parse_unsigned(s@, 10, u64::MAX as nat) == Some(v as nat),
            None => parse_unsigned(s@, 10, u64::MAX as nat) is None,
        },
{
    read_unsigned(s, 10, u64::MAX)
}

pub fn parse_u32(s: &str) -> (r: Option<u32>)
    ensures
        match r {
            Some(v) => parse_unsigned(s@, 10, u32::MAX as nat) == Some(v as nat),
            None => parse_unsigned(s@, 10, u32::MAX as nat) is None,
        },
{
    match read_unsigned(s, 10, u32::MAX as u64) {
        Some(v) => Some(v as u32),
        None => None,
    }
}

pub fn parse_u16(s: &str) -> (r: Option<u16>)
    ensures
        match r {
            Some(v) => parse_unsigned(s@, 10, u16::MAX as nat) == Some(v as nat),
            None => parse_unsigned(s@, 10, u16::MAX as nat) is None,
        },
{
    match read_unsigned(s, 10, u16::MAX as u64) {
        Some(v) => Some(v as u16),
        None => None,
    }
}

/// A hexadecimal size.
pub fn parse_hex(s: &str) -> (r: Option<usize>)
    ensures
        match r {
            Some(v) => parse_unsigned(s@, 16, usize::MAX as nat) == Some(v as nat),
            None => parse_unsigned(s@, 16, usize::MAX as nat) is None,
        },
{
    match read_unsigned(s, 16, usize::MAX as u64) {
        Some(v) => Some(v as usize),
        None => None,
    }
}

pub fn parse_i64(s: &str) -> (r: Option<i64>)
    ensures
        match r {
            Some(v) => parse_signed(s@) == Some(v as int),
            None => parse_signed(s@) is None,
        },
{
    let cs = chars_of(s);
    if cs.len() > 0 && cs[0] == '-' {
        match read_digits(&cs, 1, 10, 0x8000_0000_0000_0000) {
            Some(v) => if v == 0x8000_0000_0000_0000 {
                Some(i64::MIN)
            } else {
                Some(-(v as i64))
            },
            None => None,
        }
    } else {
        match read_unsigned(s, 10, 0x7fff_ffff_ffff_ffff) {
            Some(v) => Some(v as i64),
            None => None,
        }
    }
}

/// A number beyond the limit is refused, and a plus sign in front of a number changes nothing.
pub proof fn numbers_beyond_are_refused(n: nat, max: nat)
    ensures
        n > max ==> parse_unsigned(decimal_of(n), 10, max) is None,
        n <= max ==> parse_unsigned(seq!['+'] + decimal_of(n), 10, max) == Some(n),
        parse_unsigned(Seq::<char>::empty(), 10, max) is None,
        parse_unsigned(seq!['+'], 10, max) is None,
{
    lemma_decimal(n);
    assert('0' <= decimal_of(n)[0] <= '9');
    assert((seq!['+'] + decimal_of(n)).skip(1) =~= decimal_of(n));
    assert(seq!['+'].skip(1) =~= Seq::<char>::empty());
}

proof fn lemma_not_digits(s: Seq<char>, i: int)
    requires
        0 <= i < s.len(),
        !('0' <= s[i] <= '9'),
    ensures
        digits_value(s, 10) is None,
    decreases s.len(),
{
    if i < s.len() - 1 {
        lemma_not_digits(s.drop_last(), i);
    }
}

/// A text that holds anything but digits behind its sign is no number.
pub proof fn only_digits_are_numbers(s: Seq<char>, i: int, max: nat)
    requires
        0 <= i < s.len(),
        !('0' <= s[i] <= '9'),
        i > 0 || s[0] != '+',
    ensures
        parse_unsigned(s, 10, max) is None,
{
    if s[0] == '+' {
        lemma_not_digits(s.skip(1), i - 1);
    } else {
        lemma_not_digits(s, i);
    }
}

/// Each further digit, of either case in radix sixteen, multiplies by the radix and adds its own
/// value.
pub proof fn digits_have_their_places(s: Seq<char>, c: char, v: nat)
    requires
        digits_value(s, 16) == Some(v),
    ensures
        digits_value(Seq::<char>::empty(), 16) == Some(0nat),
        '0' <= c <= '9' ==> digits_value(s.push(c), 16) == Some((v * 16 + (c as u32 - 48)) as nat),
        'a' <= c <= 'f' ==> digits_value(s.push(c), 16) == Some(
            (v * 16 + 10 + (c as u32 - 97)) as nat,
        ),
        'A' <= c <= 'F' ==> digits_value(s.push(c), 16) == Some(
            (v * 16 + 10 + (c as u32 - 65)) as nat,
        ),
        !('0' <= c <= '9') && !('a' <= c <= 'f') && !('A' <= c <= 'F') ==> digits_value(
            s.push(c),
            16,
        ) is None,
{
    assert(s.push(c).drop_last() =~= s);
}

} // verus!
