//! Decimal numerals: how numbers are written, and which texts are read as numbers.

use crate::text::{chars_of, code_point};
use vstd::prelude::*;

verus! {

/// The character for a digit.
pub open spec fn digit_char(d: int) -> char {
    (48 + d) as char
}

/// Whether a character is one of `0` to `9`.
pub open spec fn is_digit(c: char) -> bool {
    48 <= c as int <= 57
}

/// The decimal numeral of a natural number, without leading zeros.
pub open spec fn decimal(n: nat) -> Seq<char>
    decreases n,
{
    if n < 10 {
        seq![digit_char(n as int)]
    } else {
        decimal(n / 10).push(digit_char((n % 10) as int))
    }
}

/// The decimal numeral of an integer, with a minus sign where it is negative.
pub open spec fn signed_decimal(n: int) -> Seq<char> {
    if n < 0 {
        seq!['-'] + decimal((-n) as nat)
    } else {
        decimal(n as nat)
    }
}

/// The number that a row of digits stands for.
pub open spec fn digits_value(s: Seq<char>) -> nat
    decreases s.len(),
{
    if s.len() == 0 {
        0
    } else {
        10 * digits_value(s.drop_last()) + (s.last() as int - 48) as nat
    }
}

/// Whether a text is a row of one or more digits.
pub open spec fn is_numeral(s: Seq<char>) -> bool {
    s.len() > 0 && forall|i: int| 0 <= i < s.len() ==> is_digit(#[trigger] s[i])
}

/// The value of a numeral that is at most `max`.
pub open spec fn numeral_upto(s: Seq<char>, max: nat) -> Option<nat> {
    if is_numeral(s) && digits_value(s) <= max {
        Some(digits_value(s))
    } else {
        None
    }
}

/// The 16-bit number that a text denotes: a numeral, perhaps behind a plus sign.
pub open spec fn u16_of(s: Seq<char>) -> Option<u16> {
    let digits = if s.len() > 0 && s[0] == '+' {
        s.skip(1)
    } else {
        s
    };
    match numeral_upto(digits, 65535) {
        Some(n) => Some(n as u16),
        None => None,
    }
}

/// The 32-bit signed number that a text denotes: a numeral, perhaps behind a sign.
pub open spec fn i32_of(s: Seq<char>) -> Option<i32> {
    if s.len() > 0 && s[0] == '-' {
        match numeral_upto(s.skip(1), 0x8000_0000) {
            Some(n) => Some((-(n as int)) as i32),
            None => None,
        }
    } else {
        let digits = if s.len() > 0 && s[0] == '+' {
            s.skip(1)
        } else {
            s
        };
        match numeral_upto(digits, 0x7fff_ffff) {
            Some(n) => Some(n as i32),
            None => None,
        }
    }
}

fn digit_text(d: u64) -> (r: &'static str)
    requires
        d < 10,
    ensures
        r@ == seq![digit_char(d as int)],
{
    proof {
        reveal_strlit("0");
        reveal_strlit("1");
        reveal_strlit("2");
        reveal_strlit("3");
        reveal_strlit("4");
        reveal_strlit("5");
        reveal_strlit("6");
        reveal_strlit("7");
        reveal_strlit("8");
        reveal_strlit("9");
    }
    if d == 0 {
        "0"
    } else if d == 1 {
        "1"
    } else if d == 2 {
        "2"
    } else if d == 3 {
        "3"
    } else if d == 4 {
        "4"
    } else if d == 5 {
        "5"
    } else if d == 6 {
        "6"
    } else if d == 7 {
        "7"
    } else if d == 8 {
        "8"
    } else {
        "9"
    }
}

/// Writes a natural number in decimal.
pub fn decimal_text(n: u64) -> (r: String)
    ensures
        r@ == decimal(n as nat),
    decreases n,
{
    if n < 10 {
        digit_text(n).to_owned()
    } else {
        let mut r: String = decimal_text(n / 10);
        r.append(digit_text(n % 10));
        assert(r@ =~= decimal(n as nat));
        r
    }
}

/// Writes an integer in decimal.
pub fn signed_decimal_text(n: i64) -> (r: String)
    ensures
        r@ == signed_decimal(n as int),
{
    if n < 0 {
        let mut r: String = "-".to_owned();
        let magnitude: String = decimal_text((-(n + 1)) as u64 + 1);
        r.append(magnitude.as_str());
        proof {
            reveal_strlit("-");
            assert("-"@ =~= seq!['-']);
        }
        r
    } else {
        decimal_text(n as u64)
    }
}

/// The value of a longer row of digits is at least that of a row it begins with.
proof fn lemma_digits_grow(s: Seq<char>, k: int)
    requires
        0 <= k <= s.len(),
        forall|i: int| 0 <= i < s.len() ==> is_digit(#[trigger] s[i]),
    ensures
        digits_value(s.take(k)) <= digits_value(s),
    decreases s.len() - k,
{
    if k == s.len() {
        assert(s.take(k) =~= s);
    } else {
        lemma_digits_grow(s, k + 1);
        assert(s.take(k + 1).drop_last() =~= s.take(k));
        assert(is_digit(s[k]));
        assert(s.take(k + 1).last() == s[k]);
    }
}

fn numeral_from(v: &Vec<char>, from: usize, max: u64) -> (r: Option<u64>)
    requires
        from <= v@.len(),
        max <= 0xffff_ffff,
    ensures
        r is Some <==> numeral_upto(v@.skip(from as int), max as nat) is Some,
        r is Some ==> r->0 as nat == numeral_upto(v@.skip(from as int), max as nat)->0,
{
    let ghost s = v@.skip(from as int);
    if from == v.len() {
        return None;
    }
    let mut i: usize = from;
    let mut value: u64 = 0;
    assert(s.take(0) =~= Seq::<char>::empty());
    while i < v.len()
        invariant
            from <= i <= v@.len(),
            s == v@.skip(from as int),
            max <= 0xffff_ffff,
            value <= max,
            value as nat == digits_value(s.take(i - from)),
            forall|k: int| 0 <= k < i - from ==> is_digit(#[trigger] s[k]),
        decreases v@.len() - i,
    {
        let n: u32 = code_point(v[i]);
        assert(s[i - from] == v@[i as int]);
        if n < 48 || n > 57 {
            assert(!is_digit(s[i - from]));
            return None;
        }
        value = 10 * value + (n - 48) as u64;
        proof {
            assert(s.take(i - from + 1).drop_last() =~= s.take(i - from));
            assert(s.take(i - from + 1).last() == s[i - from]);
        }
        if value > max {
            proof {
                if is_numeral(s) {
                    lemma_digits_grow(s, i - from + 1);
                }
            }
            return None;
        }
        i = i + 1;
    }
    assert(s.take(s.len() as int) =~= s);
    Some(value)
}

/// Reads a 16-bit unsigned number.
pub fn parse_u16(s: &str) -> (r: Option<u16>)
    ensures
        r == u16_of(s@),
{
    let v: Vec<char> = chars_of(s);
    let from: usize = if v.len() > 0 && v[0] == '+' {
        1
    } else {
        0
    };
    assert(s@.skip(0) =~= s@);
    match numeral_from(&v, from, 65535) {
        Some(n) => Some(n as u16),
        None => None,
    }
}

/// Reads a 32-bit signed number.
pub fn parse_i32(s: &str) -> (r: Option<i32>)
    ensures
        r == i32_of(s@),
{
    let v: Vec<char> = chars_of(s);
    assert(s@.skip(0) =~= s@);
    if v.len() > 0 && v[0] == '-' {
        match numeral_from(&v, 1, 0x8000_0000) {
            Some(n) => Some((-(n as i64)) as i32),
            None => None,
        }
    } else {
        let from: usize = if v.len() > 0 && v[0] == '+' {
            1
        } else {
            0
        };
        match numeral_from(&v, from, 0x7fff_ffff) {
            Some(n) => Some(n as i32),
            None => None,
        }
    }
}

/// Reading a decimal numeral gives back the number it was written for.
pub proof fn numeral_round_trip(n: nat)
    ensures
        is_numeral(decimal(n)),
        digits_value(decimal(n)) == n,
    decreases n,
{
    if n < 10 {
        let s = decimal(n);
        assert(s.drop_last() =~= Seq::<char>::empty());
        assert(s.last() == digit_char(n as int));
        assert(digits_value(s.drop_last()) == 0);
    } else {
        numeral_round_trip(n / 10);
        let s = decimal(n);
        assert(s.drop_last() =~= decimal(n / 10));
        assert(s.last() == digit_char((n % 10) as int));
        assert forall|i: int| 0 <= i < s.len() implies is_digit(#[trigger] s[i]) by {
            if i < s.len() - 1 {
                assert(s[i] == decimal(n / 10)[i]);
            }
        }
    }
}

/// A numeral has no leading zero.
pub proof fn numeral_has_no_leading_zero(n: nat)
    ensures
        decimal(n).len() > 1 ==> decimal(n)[0] != '0',
        decimal(n).len() > 0,
        n > 0 ==> decimal(n)[0] != '0',
    decreases n,
{
    if n >= 10 {
        numeral_has_no_leading_zero(n / 10);
        assert(decimal(n)[0] == decimal(n / 10)[0]);
    }
}

/// A digit behind a numeral makes ten times its value and the digit.
pub proof fn digits_count_in_tens(s: Seq<char>, d: int)
    requires
        0 <= d < 10,
    ensures
        digits_value(Seq::empty()) == 0,
        is_numeral(s) ==> is_numeral(s.push(digit_char(d))),
        digits_value(s.push(digit_char(d))) == 10 * digits_value(s) + d,
        digit_char(d) as int == '0' as int + d,
{
    let t = s.push(digit_char(d));
    assert(t.drop_last() =~= s);
    assert(t.last() == digit_char(d));
    if is_numeral(s) {
        assert forall|i: int| 0 <= i < t.len() implies is_digit(#[trigger] t[i]) by {
            if i < s.len() {
                assert(t[i] == s[i]);
            }
        }
    }
}

/// Which texts are read as a number of sixteen bits, and as which: a numeral within the bounds, as
/// itself or behind a plus sign, and nothing else.
pub proof fn numbers_of_sixteen_bits(s: Seq<char>)
    ensures
        is_numeral(s) && digits_value(s) <= 65535 ==> u16_of(s) == Some(digits_value(s) as u16)
            && u16_of(seq!['+'] + s) == Some(digits_value(s) as u16),
        u16_of(s) is Some ==> (is_numeral(s) && digits_value(s) <= 65535) || (s.len() > 0 && s[0]
            == '+' && is_numeral(s.skip(1)) && digits_value(s.skip(1)) <= 65535),
{
    if is_numeral(s) {
        assert(is_digit(s[0]));
        assert((seq!['+'] + s).skip(1) =~= s);
    }
}

/// Which texts are read as a signed number of thirty-two bits, and as which: a numeral within the
/// bounds, as itself or behind a sign, and nothing else.
pub proof fn signed_numbers_of_thirty_two_bits(s: Seq<char>)
    ensures
        is_numeral(s) && digits_value(s) <= 0x7fff_ffff ==> i32_of(s) == Some(
            digits_value(s) as i32,
        ) && i32_of(seq!['+'] + s) == Some(digits_value(s) as i32),
        is_numeral(s) && digits_value(s) <= 0x8000_0000 ==> i32_of(seq!['-'] + s) == Some(
            (-(digits_value(s) as int)) as i32,
        ),
        i32_of(s) is Some ==> (is_numeral(s) && digits_value(s) <= 0x7fff_ffff) || (s.len() > 0 && s[0]
            == '+' && is_numeral(s.skip(1)) && digits_value(s.skip(1)) <= 0x7fff_ffff) || (s.len()
            > 0 && s[0] == '-' && is_numeral(s.skip(1)) && digits_value(s.skip(1)) <= 0x8000_0000),
{
    if is_numeral(s) {
        assert(is_digit(s[0]));
        assert((seq!['+'] + s).skip(1) =~= s);
        assert((seq!['-'] + s).skip(1) =~= s);
    }
}

/// Reading a signed numeral gives back the number it was written for; it has no plus sign, no
/// leading zero and a minus sign exactly where the number is negative.
pub proof fn signed_numeral_round_trip(n: i32)
    ensures
        i32_of(signed_decimal(n as int)) == Some(n),
        signed_decimal(n as int).len() > 0,
        signed_decimal(n as int)[0] == '-' <==> n < 0,
        signed_decimal(n as int)[0] != '+',
        n > 0 ==> signed_decimal(n as int)[0] != '0',
        n == 0 ==> signed_decimal(n as int) == seq!['0'],
        n < 0 ==> signed_decimal(n as int).len() > 1 && signed_decimal(n as int)[1] != '0',
{
    let m: nat = if n < 0 {
        (-(n as int)) as nat
    } else {
        n as nat
    };
    numeral_round_trip(m);
    numeral_has_no_leading_zero(m);
    let s = signed_decimal(n as int);
    assert(is_digit(decimal(m)[0]));
    if n < 0 {
        assert(s.skip(1) =~= decimal(m));
        assert(s[1] == decimal(m)[0]);
    }
}

} // verus!
