//! Decimal text for the numeric table columns, with a proved round trip:
//! re-parsing a rendered number gives the number back.

use vstd::prelude::*;
use vstd::arithmetic::div_mod::lemma_fundamental_div_mod;

verus! {

/// The digit character of a value below ten.
pub open spec fn digit_char(d: nat) -> char {
    if d == 0 {
        '0'
    } else if d == 1 {
        '1'
    } else if d == 2 {
        '2'
    } else if d == 3 {
        '3'
    } else if d == 4 {
        '4'
    } else if d == 5 {
        '5'
    } else if d == 6 {
        '6'
    } else if d == 7 {
        '7'
    } else if d == 8 {
        '8'
    } else {
        '9'
    }
}

/// The value of a digit character, `None` for any other character.
pub open spec fn digit_val(c: char) -> Option<nat> {
    if c == '0' {
        Some(0nat)
    } else if c == '1' {
        Some(1nat)
    } else if c == '2' {
        Some(2nat)
    } else if c == '3' {
        Some(3nat)
    } else if c == '4' {
        Some(4nat)
    } else if c == '5' {
        Some(5nat)
    } else if c == '6' {
        Some(6nat)
    } else if c == '7' {
        Some(7nat)
    } else if c == '8' {
        Some(8nat)
    } else if c == '9' {
        Some(9nat)
    } else {
        None
    }
}

/// The decimal rendering of a natural number, most significant digit
/// first, no sign and no leading zero (except for zero itself).
pub open spec fn dec_digits(n: nat) -> Seq<char>
    decreases n,
{
    if n < 10 {
        seq![digit_char(n)]
    } else {
        dec_digits(n / 10).push(digit_char(n % 10))
    }
}

/// The decimal rendering of a signed integer: a minus sign for a negative
/// value, then the rendering of its magnitude.
pub open spec fn dec_digits_int(n: int) -> Seq<char> {
    if n < 0 {
        seq!['-'] + dec_digits((-n) as nat)
    } else {
        dec_digits(n as nat)
    }
}

/// Whether every character of `s` is a decimal digit.
pub open spec fn all_digits(s: Seq<char>) -> bool {
    forall|i: int| 0 <= i < s.len() ==> digit_val(s[i]) is Some
}

/// The numeric value of a digit string, read most significant digit
/// first; non-digit characters count zero.
pub open spec fn digits_val(s: Seq<char>) -> nat
    decreases s.len(),
{
    if s.len() == 0 {
        0
    } else {
        digits_val(s.drop_last()) * 10 + match digit_val(s.last()) {
            Some(d) => d,
            None => 0nat,
        }
    }
}

/// What parsing an unsigned decimal string yields: the value of a
/// non-empty all-digit string that fits in 64 bits, nothing otherwise.
pub open spec fn spec_parse_u64(s: Seq<char>) -> Option<u64> {
    if s.len() > 0 && all_digits(s) && digits_val(s) <= u64::MAX {
        Some(digits_val(s) as u64)
    } else {
        None
    }
}

/// What parsing a signed decimal string yields: an optional minus sign,
/// then a non-empty all-digit magnitude, within the 32-bit signed range.
pub open spec fn spec_parse_i32(s: Seq<char>) -> Option<i32> {
    if s.len() > 0 && s[0] == '-' {
        let rest = s.skip(1);
        if rest.len() > 0 && all_digits(rest) && digits_val(rest) <= 0x8000_0000 {
            Some((-(digits_val(rest) as int)) as i32)
        } else {
            None
        }
    } else if s.len() > 0 && all_digits(s) && digits_val(s) <= i32::MAX {
        Some(digits_val(s) as i32)
    } else {
        None
    }
}

/// The one-character string of a decimal digit.
fn digit_str(d: u64) -> (r: &'static str)
    requires
        d < 10,
    ensures
        r@ =~= seq![digit_char(d as nat)],
{
    proof {
        reveal_strlit("0");
        reveal_strlit("1");
        reveal_strlit("2");
        reveal_strlit("3");
        reveal_strlit("4");
        reveal_strlit("5");
        reveal_strlit("6");
        reveal_strlit("7");
        reveal_strlit("8");
        reveal_strlit("9");
    }
    match d {
        0 => "0",
        1 => "1",
        2 => "2",
        3 => "3",
        4 => "4",
        5 => "5",
        6 => "6",
        7 => "7",
        8 => "8",
        _ => "9",
    }
}

/// Render an unsigned 64-bit value in decimal.
pub fn u64_to_string(n: u64) -> (s: String)
    ensures
        s@ == dec_digits(n as nat),
    decreases n,
{
    if n < 10 {
        let s = String::from_str(digit_str(n));
        proof {
            assert(s@ =~= dec_digits(n as nat));
        }
        s
    } else {
        let mut s = u64_to_string(n / 10);
        s.append(digit_str(n % 10));
        proof {
            assert(s@ =~= dec_digits(n as nat));
        }
        s
    }
}

/// Render a signed 32-bit value in decimal.
pub fn i32_to_string(n: i32) -> (s: String)
    ensures
        s@ == dec_digits_int(n as int),
{
    if n >= 0 {
        u64_to_string(n as u64)
    } else {
        let magnitude: u64 = (-(n as i64)) as u64;
        proof {
            reveal_strlit("-");
        }
        let mut s = String::from_str("-");
        let rest = u64_to_string(magnitude);
        s.append(rest.as_str());
        proof {
            assert(s@ =~= dec_digits_int(n as int));
        }
        s
    }
}

/// The value of a digit character, `None` for any other.
fn digit_of(c: char) -> (r: Option<u64>)
    ensures
        match r {
            Some(d) => digit_val(c) == Some(d as nat),
            None => digit_val(c) is None,
        },
{
    match c {
        '0' => Some(0),
        '1' => Some(1),
        '2' => Some(2),
        '3' => Some(3),
        '4' => Some(4),
        '5' => Some(5),
        '6' => Some(6),
        '7' => Some(7),
        '8' => Some(8),
        '9' => Some(9),
        _ => None,
    }
}

/// Reading one more digit multiplies the prefix value by ten and adds it.
proof fn lemma_digits_val_step(s: Seq<char>, i: int)
    requires
        0 <= i < s.len(),
    ensures
        digits_val(s.take(i + 1)) == digits_val(s.take(i)) * 10 + match digit_val(s[i]) {
            Some(d) => d,
            None => 0nat,
        },
{
    assert(s.take(i + 1).drop_last() =~= s.take(i));
    assert(s.take(i + 1).last() == s[i]);
}

/// The value of a digit-string prefix never shrinks as it grows.
proof fn lemma_digits_val_mono(s: Seq<char>, i: int, j: int)
    requires
        0 <= i <= j <= s.len(),
    ensures
        digits_val(s.take(i)) <= digits_val(s.take(j)),
    decreases j - i,
{
    if i < j {
        lemma_digits_val_mono(s, i, j - 1);
        lemma_digits_val_step(s, j - 1);
    }
}

/// Parse an unsigned decimal string.
pub fn parse_u64(s: &str) -> (r: Option<u64>)
    ensures
        r == spec_parse_u64(s@),
{
    let len = s.unicode_len();
    if len == 0 {
        return None;
    }
    let mut acc: u64 = 0;
    let mut i: usize = 0;
    proof {
        assert(s@.take(0) =~= Seq::<char>::empty());
    }
    while i < len
        invariant
            len == s@.len(),
            0 < len,
            i <= len,
            acc as nat == digits_val(s@.take(i as int)),
            forall|k: int| 0 <= k < i ==> digit_val(s@[k]) is Some,
        decreases len - i,
    {
        let c = s.get_char(i);
        match digit_of(c) {
            None => {
                proof {
                    assert(!all_digits(s@));
                }
                return None;
            },
            Some(d) => {
                proof {
                    lemma_digits_val_step(s@, i as int);
                }
                if acc > (u64::MAX - d) / 10 {
                    proof {
                        assert(digits_val(s@.take(i + 1)) > u64::MAX);
                        lemma_digits_val_mono(s@, i + 1, s@.len() as int);
                        assert(s@.take(s@.len() as int) =~= s@);
                        assert(digits_val(s@) > u64::MAX);
                    }
                    return None;
                }
                acc = acc * 10 + d;
                i += 1;
            },
        }
    }
    proof {
        assert(s@.take(len as int) =~= s@);
        assert(acc as nat == digits_val(s@));
        assert(all_digits(s@));
    }
    Some(acc)
}

/// Parse a signed decimal string into a 32-bit value.
pub fn parse_i32(s: &str) -> (r: Option<i32>)
    ensures
        r == spec_parse_i32(s@),
{
    let len = s.unicode_len();
    if len == 0 {
        return None;
    }
    if s.get_char(0) == '-' {
        let rest = s.substring_char(1, len);
        proof {
            assert(rest@ =~= s@.skip(1));
        }
        match parse_u64(rest) {
            Some(m) if m <= 0x8000_0000 => {
                let v: i32 = (-(m as i64)) as i32;
                Some(v)
            },
            _ => None,
        }
    } else {
        match parse_u64(s) {
            Some(m) if m <= i32::MAX as u64 => Some(m as i32),
            _ => None,
        }
    }
}

/// A digit character reads back as its digit.
proof fn lemma_digit_char_val(d: nat)
    requires
        d < 10,
    ensures
        digit_val(digit_char(d)) == Some(d),
{
}

/// Every character a natural number renders to is a digit, and the digit
/// string reads back as the number itself.
proof fn lemma_dec_digits_val(n: nat)
    ensures
        all_digits(dec_digits(n)),
        digits_val(dec_digits(n)) == n,
        dec_digits(n).len() > 0,
    decreases n,
{
    if n < 10 {
        lemma_digit_char_val(n);
        assert(dec_digits(n).drop_last() =~= Seq::<char>::empty());
        assert(digits_val(Seq::<char>::empty()) == 0);
        assert(dec_digits(n).last() == digit_char(n));
        assert(digits_val(dec_digits(n)) == 0 * 10 + n);
    } else {
        lemma_dec_digits_val(n / 10);
        lemma_digit_char_val(n % 10);
        let s = dec_digits(n);
        assert(s.drop_last() =~= dec_digits(n / 10));
        assert(s.last() == digit_char(n % 10));
        lemma_fundamental_div_mod(n as int, 10);
        assert(digits_val(s) == digits_val(dec_digits(n / 10)) * 10 + n % 10);
        assert(digits_val(s) == (n / 10) * 10 + n % 10);
        assert forall|i: int| 0 <= i < s.len() implies digit_val(s[i]) is Some by {
            if i < s.len() - 1 {
                assert(s[i] == dec_digits(n / 10)[i]);
            }
        }
    }
}

/// Unsigned round trip: re-parsing the rendering of any unsigned
/// 64-bit value gives the value back.
pub proof fn lemma_u64_round_trip(n: u64)
    ensures
        spec_parse_u64(dec_digits(n as nat)) == Some(n),
{
    lemma_dec_digits_val(n as nat);
}

/// Signed round trip: re-parsing the rendering of any signed
/// 32-bit value gives the value back.
pub proof fn lemma_i32_round_trip(n: i32)
    ensures
        spec_parse_i32(dec_digits_int(n as int)) == Some(n),
{
    if n >= 0 {
        lemma_dec_digits_val(n as nat);
        let s = dec_digits_int(n as int);
        assert(digit_val(s[0]) is Some);
        assert(s[0] != '-');
    } else {
        let m = (-(n as int)) as nat;
        lemma_dec_digits_val(m);
        let s = dec_digits_int(n as int);
        assert(s[0] == '-');
        assert(s.skip(1) =~= dec_digits(m));
    }
}

} // verus!
