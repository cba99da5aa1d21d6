//! Unsigned integers as text: the decimal and hexadecimal forms that `str::parse`,
//! `from_str_radix` and the `{}` / `{:X}` formatters read and write.

use vstd::prelude::*;

verus! {

pub open spec fn is_dec_digit(c: char) -> bool {
    '0' <= c && c <= '9'
}

pub open spec fn dec_digit_value(c: char) -> nat {
    ((c as u32) - ('0' as u32)) as nat
}

/// Hexadecimal digit in either case.
pub open spec fn is_hex_digit(c: char) -> bool {
    ||| ('0' <= c && c <= '9')
    ||| ('a' <= c && c <= 'f')
    ||| ('A' <= c && c <= 'F')
}

pub open spec fn hex_digit_value(c: char) -> nat {
    if '0' <= c && c <= '9' {
        ((c as u32) - ('0' as u32)) as nat
    } else if 'a' <= c && c <= 'f' {
        ((c as u32) - ('a' as u32) + 10) as nat
    } else {
        ((c as u32) - ('A' as u32) + 10) as nat
    }
}

pub open spec fn is_digit_in(c: char, radix: nat) -> bool {
    if radix == 16 {
        is_hex_digit(c)
    } else {
        is_dec_digit(c)
    }
}

pub open spec fn digit_value_in(c: char, radix: nat) -> nat {
    if radix == 16 {
        hex_digit_value(c)
    } else {
        dec_digit_value(c)
    }
}

/// The value of a digit string read most-significant digit first.
pub open spec fn digits_value(s: Seq<char>, radix: nat) -> nat
    decreases s.len(),
{
    if s.len() == 0 {
        0
    } else {
        digits_value(s.drop_last(), radix) * radix + digit_value_in(s.last(), radix)
    }
}

pub open spec fn all_digits_in(s: Seq<char>, radix: nat) -> bool {
    forall|i: int| 0 <= i < s.len() ==> is_digit_in(#[trigger] s[i], radix)
}

/// The digits of an unsigned literal: `s` without one leading `+`.
pub open spec fn unsigned_body(s: Seq<char>) -> Seq<char> {
    if s.len() > 0 && s[0] == '+' {
        s.drop_first()
    } else {
        s
    }
}

/// What `from_str_radix(s, radix)` returns for an unsigned type whose largest
/// value is `max`: an optional `+`, then at least one digit, and a value that fits.
pub open spec fn parse_unsigned_spec(s: Seq<char>, radix: nat, max: nat) -> Option<nat> {
    let body = unsigned_body(s);
    if body.len() > 0 && all_digits_in(body, radix) && digits_value(body, radix) <= max {
        Some(digits_value(body, radix))
    } else {
        None
    }
}

proof fn lemma_digits_value_monotone(s: Seq<char>, radix: nat, k: int)
    requires
        0 <= k <= s.len(),
        radix == 10 || radix == 16,
    ensures
        digits_value(s.take(k), radix) <= digits_value(s, radix),
    decreases s.len(),
{
    if k < s.len() {
        assert(s.drop_last().take(k) == s.take(k));
        lemma_digits_value_monotone(s.drop_last(), radix, k);
        let d = digits_value(s.drop_last(), radix);
        assert(d <= d * radix) by (nonlinear_arith)
            requires
                radix >= 1,
        ;
    } else {
        assert(s.take(k) == s);
    }
}

fn char_digit(c: char, radix: u64) -> (r: Option<u64>)
    requires
        radix == 10 || radix == 16,
    ensures
        r.is_some() == is_digit_in(c, radix as nat),
        r.is_some() ==> r.unwrap() == digit_value_in(c, radix as nat),
        r.is_some() ==> r.unwrap() < radix,
{
    if '0' <= c && c <= '9' {
        Some(((c as u32) - ('0' as u32)) as u64)
    } else if radix == 16 && 'a' <= c && c <= 'f' {
        Some(((c as u32) - ('a' as u32) + 10) as u64)
    } else if radix == 16 && 'A' <= c && c <= 'F' {
        Some(((c as u32) - ('A' as u32) + 10) as u64)
    } else {
        None
    }
}

/// Reads an unsigned integer in base `radix` (10 or 16) that must not exceed `max`.
pub fn parse_unsigned(s: &[char], radix: u64, max: u64) -> (r: Option<u64>)
    requires
        radix == 10 || radix == 16,
    ensures
        r.is_some() == parse_unsigned_spec(s@, radix as nat, max as nat).is_some(),
        r.is_some() ==> r.unwrap() == parse_unsigned_spec(s@, radix as nat, max as nat).unwrap(),
{
    let n = s.len();
    let start: usize = if n > 0 && s[0] == '+' {
        1
    } else {
        0
    };
    let ghost body = unsigned_body(s@);
    proof {
        assert(body == s@.skip(start as int));
    }
    if start == n {
        return None;
    }
    let mut acc: u64 = 0;
    let mut i = start;
    proof {
        assert(body.take(0) == Seq::<char>::empty());
    }
    while i < n
        invariant
            start <= i <= n,
            n == s@.len(),
            body == s@.skip(start as int),
            body == unsigned_body(s@),
            radix == 10 || radix == 16,
            acc == digits_value(body.take(i - start), radix as nat),
            acc <= max,
            all_digits_in(body.take(i - start), radix as nat),
        decreases n - i,
    {
        let d = char_digit(s[i], radix);
        let ghost k = i - start;
        proof {
            assert(body[k] == s@[i as int]);
            assert(body.take(k + 1).drop_last() == body.take(k));
            assert(body.take(k + 1).last() == body[k]);
        }
        match d {
            None => {
                proof {
                    assert(!is_digit_in(body[k], radix as nat));
                    assert(!all_digits_in(body, radix as nat));
                }
                return None;
            },
            Some(dv) => {
                let next = match acc.checked_mul(radix) {
                    None => None,
                    Some(m) => m.checked_add(dv),
                };
                match next {
                    Some(v) if v <= max => {
                        acc = v;
                        proof {
                            assert(all_digits_in(body.take(k + 1), radix as nat)) by {
                                assert forall|j: int| 0 <= j < k + 1 implies is_digit_in(
                                    #[trigger] body.take(k + 1)[j],
                                    radix as nat,
                                ) by {
                                    if j < k {
                                        assert(body.take(k + 1)[j] == body.take(k)[j]);
                                    }
                                }
                            }
                        }
                    },
                    _ => {
                        proof {
                            assert(digits_value(body.take(k + 1), radix as nat) > max);
                            if all_digits_in(body, radix as nat) {
                                lemma_digits_value_monotone(body, radix as nat, k + 1);
                            }
                        }
                        return None;
                    },
                }
            },
        }
        i = i + 1;
    }
    proof {
        assert(body.take(n - start) == body);
    }
    Some(acc)
}

/// `s.parse::<u64>()`.
pub fn parse_u64(s: &[char]) -> (r: Option<u64>)
    ensures
        r.is_some() == parse_unsigned_spec(s@, 10, u64::MAX as nat).is_some(),
        r.is_some() ==> r.unwrap() == parse_unsigned_spec(s@, 10, u64::MAX as nat).unwrap(),
{
    parse_unsigned(s, 10, u64::MAX)
}

/// `s.parse::<u32>()`.
pub fn parse_u32(s: &[char]) -> (r: Option<u32>)
    ensures
        r.is_some() == parse_unsigned_spec(s@, 10, u32::MAX as nat).is_some(),
        r.is_some() ==> r.unwrap() == parse_unsigned_spec(s@, 10, u32::MAX as nat).unwrap(),
{
    match parse_unsigned(s, 10, u32::MAX as u64) {
        Some(v) => Some(v as u32),
        None => None,
    }
}

/// `u64::from_str_radix(s, 16)`.
pub fn parse_hex_u64(s: &[char]) -> (r: Option<u64>)
    ensures
        r.is_some() == parse_unsigned_spec(s@, 16, u64::MAX as nat).is_some(),
        r.is_some() ==> r.unwrap() == parse_unsigned_spec(s@, 16, u64::MAX as nat).unwrap(),
{
    parse_unsigned(s, 16, u64::MAX)
}

/// The digit character for `d` in base `radix`; hexadecimal letters upper case.
pub open spec fn digit_char(d: nat) -> char {
    if d < 10 {
        ((d + ('0' as u32)) as u32) as char
    } else {
        ((d - 10 + ('A' as u32)) as u32) as char
    }
}

/// The digits of `n` in base `radix`, without leading zeros (`"0"` for zero):
/// what `{}` (base 10) and `{:X}` (base 16) print.
pub open spec fn digits_of(n: nat, radix: nat) -> Seq<char>
    recommends
        radix >= 2,
    decreases n,
    when radix >= 2
{
    if n < radix {
        seq![digit_char(n)]
    } else {
        proof {
            assert(n / radix < n) by (nonlinear_arith)
                requires
                    radix >= 2,
                    n >= radix,
            ;
        }
        digits_of(n / radix, radix).push(digit_char(n % radix))
    }
}

fn digit_to_char(d: u64) -> (c: char)
    requires
        d < 16,
    ensures
        c == digit_char(d as nat),
{
    if d < 10 {
        ((d as u8) + 48) as char
    } else {
        ((d as u8) - 10 + 65) as char
    }
}

/// Writes `n` in base `radix` (10 or 16) as `{}` / `{:X}` do.
pub fn format_unsigned(n: u64, radix: u64) -> (res: Vec<char>)
    requires
        radix == 10 || radix == 16,
    ensures
        res@ == digits_of(n as nat, radix as nat),
{
    let mut digits: Vec<char> = Vec::new();
    let c0 = digit_to_char(n % radix);
    digits.push(c0);
    let mut m = n / radix;
    proof {
        if radix == 10 {
            assert(n >= 10 ==> n / 10 > 0) by (nonlinear_arith);
            assert(n < 10 ==> n / 10 == 0 && n % 10 == n) by (nonlinear_arith);
        } else {
            assert(n >= 16 ==> n / 16 > 0) by (nonlinear_arith);
            assert(n < 16 ==> n / 16 == 0 && n % 16 == n) by (nonlinear_arith);
        }
        if n >= radix {
            assert(digits_of(n as nat, radix as nat) == digits_of(m as nat, radix as nat).push(c0));
            assert(digits_of(m as nat, radix as nat).push(c0) == digits_of(m as nat, radix as nat)
                + digits@);
        }
    }
    while m > 0
        invariant
            radix == 10 || radix == 16,
            m > 0 ==> digits_of(n as nat, radix as nat) == digits_of(m as nat, radix as nat)
                + digits@,
            m == 0 ==> digits_of(n as nat, radix as nat) == digits@,
        decreases m,
    {
        let c = digit_to_char(m % radix);
        let ghost old_digits = digits@;
        let ghost old_m = m;
        digits.insert(0, c);
        m = m / radix;
        proof {
            assert(digits@ == seq![c] + old_digits);
            if radix == 10 {
                assert(old_m >= 10 ==> old_m / 10 > 0) by (nonlinear_arith);
                assert(old_m < 10 ==> old_m / 10 == 0 && old_m % 10 == old_m) by (nonlinear_arith);
            } else {
                assert(m == old_m / 16);
                assert(old_m >= 16 ==> old_m / 16 > 0) by (nonlinear_arith);
                assert(old_m < 16 ==> old_m / 16 == 0 && old_m % 16 == old_m) by (nonlinear_arith);
            }
            if old_m >= radix {
                assert(digits_of(old_m as nat, radix as nat) == digits_of(m as nat, radix as nat).push(c));
                assert(digits_of(m as nat, radix as nat) + digits@ == digits_of(m as nat, radix as nat).push(c) + old_digits);
            } else {
                assert(digits_of(old_m as nat, radix as nat) == seq![c]);
            }
        }
    }
    digits
}

} // verus!
