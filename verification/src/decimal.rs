//! Decimal notation for integers: what a string of digits denotes, reading it
//! into the machine integer types, and writing a number back out.

use vstd::prelude::*;
use vstd::string::*;

verus! {

/// Whether `c` is one of the ten ASCII decimal digits.
pub open spec fn is_digit(c: char) -> bool {
    '0' <= c <= '9'
}

/// The number that the digit `c` stands for.
pub open spec fn digit_value(c: char) -> nat {
    (c as u32 - '0' as u32) as nat
}

/// Whether every character of `s` is a decimal digit.
pub open spec fn all_digits(s: Seq<char>) -> bool {
    forall|i: int| 0 <= i < s.len() ==> is_digit(#[trigger] s[i])
}

/// The number written by the digits `s`, most significant digit first.
pub open spec fn digits_value(s: Seq<char>) -> nat
    decreases s.len(),
{
    if s.len() == 0 {
        0
    } else {
        10 * digits_value(s.drop_last()) + digit_value(s.last())
    }
}

/// Whether `s` begins with a sign character.
pub open spec fn has_sign(s: Seq<char>) -> bool {
    s.len() > 0 && (s[0] == '-' || s[0] == '+')
}

/// The digits of `s`: everything after the sign, if there is one.
pub open spec fn digits_of(s: Seq<char>) -> Seq<char> {
    if has_sign(s) {
        s.subrange(1, s.len() as int)
    } else {
        s
    }
}

/// The integer that `s` writes in decimal: an optional `+` or `-`, then at
/// least one digit and nothing else. `None` for every other string.
pub open spec fn decimal_value(s: Seq<char>) -> Option<int> {
    let digits = digits_of(s);
    if digits.len() > 0 && all_digits(digits) {
        if s[0] == '-' {
            Some(-(digits_value(digits) as int))
        } else {
            Some(digits_value(digits) as int)
        }
    } else {
        None
    }
}

/// The signed 64-bit integer that `s` writes, if it writes one that fits.
pub open spec fn decode_i64(s: Seq<char>) -> Option<i64> {
    match decimal_value(s) {
        Some(v) => if i64::MIN <= v <= i64::MAX {
            Some(v as i64)
        } else {
            None
        },
        None => None,
    }
}

/// The number in `0..=max` that `s` writes without a minus sign, if it
/// writes one.
pub open spec fn decode_unsigned(s: Seq<char>, max: int) -> Option<int> {
    match decimal_value(s) {
        Some(v) => if s[0] != '-' && v <= max {
            Some(v)
        } else {
            None
        },
        None => None,
    }
}

/// A number does not shrink when more digits are written after it.
pub proof fn lemma_prefix_value_le(s: Seq<char>, k: int)
    requires
        0 <= k <= s.len(),
    ensures
        digits_value(s.subrange(0, k)) <= digits_value(s),
    decreases s.len(),
{
    if k == s.len() {
        assert(s.subrange(0, k) =~= s);
    } else {
        lemma_prefix_value_le(s.drop_last(), k);
        assert(s.drop_last().subrange(0, k) =~= s.subrange(0, k));
    }
}

/// Reads the digits of `s` from position `start` to its end. The result is
/// their value when there is at least one character there, all of them are
/// digits, and the value is at most `limit`.
fn parse_magnitude(s: &str, start: usize, limit: u64) -> (r: Option<u64>)
    requires
        is_ascii(s),
        start <= s@.len(),
    ensures
        ({
            let digits = s@.subrange(start as int, s@.len() as int);
            match r {
                Some(v) => digits.len() > 0 && all_digits(digits) && v == digits_value(digits) && v
                    <= limit,
                None => digits.len() == 0 || !all_digits(digits) || digits_value(digits) > limit,
            }
        }),
{
    broadcast use is_ascii_spec_bytes;

    let bytes = s.as_bytes();
    let n = bytes.len();
    let ghost digits = s@.subrange(start as int, s@.len() as int);
    if start >= n {
        return None;
    }
    let mut acc: u64 = 0;
    let mut i: usize = start;
    while i < n
        invariant
            is_ascii(s),
            bytes@ == s.spec_bytes(),
            n == bytes@.len(),
            n == s@.len(),
            start <= i <= n,
            digits == s@.subrange(start as int, s@.len() as int),
            all_digits(s@.subrange(start as int, i as int)),
            acc == digits_value(s@.subrange(start as int, i as int)),
            acc <= limit,
        decreases n - i,
    {
        let b: u8 = bytes[i];
        assert(b == s@[i as int] as u8);
        assert(digits[i - start] == s@[i as int]);
        if b < 48 || b > 57 {
            assert(!is_digit(digits[i - start]));
            return None;
        }
        let ghost before = s@.subrange(start as int, i as int);
        let ghost after = s@.subrange(start as int, i + 1);
        assert(after.drop_last() =~= before);
        assert(after.last() == s@[i as int]);
        assert(is_digit(s@[i as int]));
        assert(digit_value(s@[i as int]) == b - 48);
        let next: u128 = acc as u128 * 10 + (b - 48) as u128;
        assert(next == digits_value(after));
        if next > limit as u128 {
            proof {
                if all_digits(digits) {
                    lemma_prefix_value_le(digits, i + 1 - start);
                    assert(digits.subrange(0, i + 1 - start) =~= after);
                }
            }
            return None;
        }
        assert forall|j: int| 0 <= j < after.len() implies is_digit(#[trigger] after[j]) by {
            if j < before.len() {
                assert(after[j] == before[j]);
            }
        }
        acc = next as u64;
        i = i + 1;
    }
    assert(s@.subrange(start as int, i as int) =~= digits);
    Some(acc)
}

/// Reads a signed 64-bit integer written in decimal, as `str::parse::<i64>`
/// does: an optional sign, then digits only; a value out of range is refused.
pub fn parse_i64(s: &str) -> (r: Option<i64>)
    ensures
        r == decode_i64(s@),
{
    broadcast use is_ascii_spec_bytes;

    if !s.is_ascii() {
        proof {
            lemma_not_ascii_not_decimal(s@);
        }
        return None;
    }
    let bytes = s.as_bytes();
    if bytes.len() == 0 {
        return None;
    }
    let first: u8 = bytes[0];
    assert(first == s@[0] as u8);
    if first == 45 {
        assert(s@[0] == '-');
        match parse_magnitude(s, 1, 0x8000_0000_0000_0000) {
            Some(m) => {
                if m == 0x8000_0000_0000_0000 {
                    Some(i64::MIN)
                } else {
                    Some(0 - (m as i64))
                }
            },
            None => None,
        }
    } else if first == 43 {
        assert(s@[0] == '+');
        match parse_magnitude(s, 1, 0x7fff_ffff_ffff_ffff) {
            Some(m) => Some(m as i64),
            None => None,
        }
    } else {
        assert(!has_sign(s@));
        assert(s@.subrange(0, s@.len() as int) =~= s@);
        match parse_magnitude(s, 0, 0x7fff_ffff_ffff_ffff) {
            Some(m) => Some(m as i64),
            None => None,
        }
    }
}

/// Reads a number in `0..=max` written in decimal without a minus sign, as
/// `str::parse` does for the unsigned integer types: an optional `+`, then
/// digits only; a value above `max` is refused.
pub fn parse_unsigned(s: &str, max: u64) -> (r: Option<u64>)
    ensures
        r matches Some(v) ==> decode_unsigned(s@, max as int) == Some(v as int),
        r is None ==> decode_unsigned(s@, max as int) is None,
{
    broadcast use is_ascii_spec_bytes;

    if !s.is_ascii() {
        proof {
            lemma_not_ascii_not_decimal(s@);
        }
        return None;
    }
    let bytes = s.as_bytes();
    if bytes.len() == 0 {
        return None;
    }
    let first: u8 = bytes[0];
    assert(first == s@[0] as u8);
    if first == 45 {
        assert(s@[0] == '-');
        None
    } else if first == 43 {
        assert(s@[0] == '+');
        parse_magnitude(s, 1, max)
    } else {
        assert(!has_sign(s@));
        assert(s@.subrange(0, s@.len() as int) =~= s@);
        parse_magnitude(s, 0, max)
    }
}

/// Reads a port number, as `str::parse::<u16>` does.
pub fn parse_u16(s: &str) -> (r: Option<u16>)
    ensures
        r matches Some(v) ==> decode_unsigned(s@, u16::MAX as int) == Some(v as int),
        r is None ==> decode_unsigned(s@, u16::MAX as int) is None,
{
    match parse_unsigned(s, 0xffff) {
        Some(v) => Some(v as u16),
        None => None,
    }
}

/// A string with a character outside ASCII writes no number.
pub proof fn lemma_not_ascii_not_decimal(s: Seq<char>)
    requires
        !vstd::utf8::is_ascii_chars(s),
    ensures
        decimal_value(s) is None,
{
    let i = choose|i: int| 0 <= i < s.len() && !('\0' <= #[trigger] s[i] <= '\u{7f}');
    let digits = digits_of(s);
    if has_sign(s) {
        assert(i >= 1);
        assert(digits[i - 1] == s[i]);
        assert(!is_digit(digits[i - 1]));
    } else {
        assert(!is_digit(digits[i]));
    }
}

/// The character that writes the digit `d`.
pub open spec fn digit_char(d: nat) -> char {
    ((d + 48) as u8) as char
}

/// The shortest decimal notation of `n`: no sign and no leading zero.
pub open spec fn decimal_digits(n: nat) -> Seq<char>
    decreases n,
{
    if n < 10 {
        seq![digit_char(n)]
    } else {
        decimal_digits(n / 10).push(digit_char(n % 10))
    }
}

/// The shortest decimal notation of `v`, with a leading `-` when it is
/// negative.
pub open spec fn signed_decimal_digits(v: int) -> Seq<char> {
    if v < 0 {
        seq!['-'] + decimal_digits((-v) as nat)
    } else {
        decimal_digits(v as nat)
    }
}

/// The notation of a number is made of digits, has at least one of them, and
/// denotes that number.
pub proof fn lemma_decimal_digits_value(n: nat)
    ensures
        decimal_digits(n).len() > 0,
        all_digits(decimal_digits(n)),
        !has_sign(decimal_digits(n)),
        digits_value(decimal_digits(n)) == n,
    decreases n,
{
    if n < 10 {
        let s = seq![digit_char(n)];
        assert(s.drop_last() =~= Seq::<char>::empty());
        assert(digits_value(s.drop_last()) == 0);
        assert(digit_value(s.last()) == n);
    } else {
        lemma_decimal_digits_value(n / 10);
        let head = decimal_digits(n / 10);
        let s = head.push(digit_char(n % 10));
        assert(s.drop_last() =~= head);
        assert(digit_value(s.last()) == n % 10);
        assert forall|i: int| 0 <= i < s.len() implies is_digit(#[trigger] s[i]) by {
            if i < head.len() {
                assert(s[i] == head[i]);
            }
        }
        assert(s[0] == head[0]);
    }
}

/// Reading back what was written gives the integer that was written.
pub proof fn lemma_decimal_round_trip(v: int)
    ensures
        decimal_value(signed_decimal_digits(v)) == Some(v),
{
    if v < 0 {
        let digits = decimal_digits((-v) as nat);
        let s = seq!['-'] + digits;
        lemma_decimal_digits_value((-v) as nat);
        assert(s.subrange(1, s.len() as int) =~= digits);
    } else {
        lemma_decimal_digits_value(v as nat);
    }
}

fn digit_str(d: u8) -> (s: &'static str)
    requires
        d < 10,
    ensures
        s@ == seq![digit_char(d as nat)],
{
    proof {
        reveal_strlit("0");
        reveal_strlit("1");
        reveal_strlit("2");
        reveal_strlit("3");
        reveal_strlit("4");
        reveal_strlit("5");
        reveal_strlit("6");
        reveal_strlit("7");
        reveal_strlit("8");
        reveal_strlit("9");
    }
    let s = match d {
        0 => "0",
        1 => "1",
        2 => "2",
        3 => "3",
        4 => "4",
        5 => "5",
        6 => "6",
        7 => "7",
        8 => "8",
        _ => "9",
    };
    assert(s@ =~= seq![digit_char(d as nat)]);
    s
}

/// Writes `n` in decimal, as `u64`'s `Display` does.
pub fn render_u64(n: u64) -> (r: String)
    ensures
        r@ == decimal_digits(n as nat),
    decreases n,
{
    if n < 10 {
        String::from_str(digit_str(n as u8))
    } else {
        let mut r = render_u64(n / 10);
        r.append(digit_str((n % 10) as u8));
        assert(r@ =~= decimal_digits(n as nat));
        r
    }
}

/// Writes `v` in decimal, as `i64`'s `Display` does.
pub fn render_i64(v: i64) -> (r: String)
    ensures
        r@ == signed_decimal_digits(v as int),
        decode_i64(r@) == Some(v),
{
    proof {
        reveal_strlit("-");
        lemma_decimal_round_trip(v as int);
    }
    if v < 0 {
        let magnitude: u64 = if v == i64::MIN {
            0x8000_0000_0000_0000
        } else {
            (0 - v) as u64
        };
        let digits = render_u64(magnitude);
        let mut r = String::from_str("-");
        r.append(digits.as_str());
        assert(r@ =~= signed_decimal_digits(v as int));
        r
    } else {
        render_u64(v as u64)
    }
}

} // verus!
