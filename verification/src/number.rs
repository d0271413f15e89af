//! Numbers written as text: decimal and hexadecimal digits, with the limits
//! of the integer type they are read into.

use vstd::prelude::*;

verus! {

/// `0` to `9`.
pub open spec fn is_digit(b: u8) -> bool {
    0x30 <= b <= 0x39
}

/// What a run of decimal digits stands for.
pub open spec fn decimal(s: Seq<u8>) -> nat
    decreases s.len(),
{
    if s.len() == 0 {
        0
    } else {
        (decimal(s.drop_last()) * 10 + (s.last() - 0x30)) as nat
    }
}

/// Every byte of `s` is a decimal digit.
pub open spec fn all_digits(s: Seq<u8>) -> bool {
    forall|i: int| 0 <= i < s.len() ==> is_digit(#[trigger] s[i])
}

/// `s` without the plus sign that it may start with.
pub open spec fn unsigned_part(s: Seq<u8>) -> Seq<u8> {
    if s.len() > 0 && s[0] == 0x2b {
        s.subrange(1, s.len() as int)
    } else {
        s
    }
}

/// The number that `s` is, as an unsigned integer type with the greatest
/// value `max` reads it: an optional `+`, then one decimal digit or more,
/// and nothing else. `None` when `s` is not of that form or stands for more
/// than `max`.
pub open spec fn parse_unsigned(s: Seq<u8>, max: int) -> Option<int> {
    let digits = unsigned_part(s);
    if digits.len() > 0 && all_digits(digits) && decimal(digits) <= max {
        Some(decimal(digits) as int)
    } else {
        None
    }
}

/// A run of digits stands for no less than any of its prefixes.
pub proof fn lemma_decimal_grows(s: Seq<u8>, i: int)
    requires
        0 <= i <= s.len(),
        all_digits(s),
    ensures
        decimal(s.subrange(0, i)) <= decimal(s),
    decreases s.len(),
{
    if i == s.len() {
        assert(s.subrange(0, i) =~= s);
    } else {
        assert(s.drop_last().subrange(0, i) =~= s.subrange(0, i));
        lemma_decimal_grows(s.drop_last(), i);
    }
}

/// Reads one more digit: what the longer run stands for.
pub proof fn lemma_decimal_step(s: Seq<u8>, i: int)
    requires
        0 <= i < s.len(),
        is_digit(s[i]),
    ensures
        decimal(s.subrange(0, i + 1)) == decimal(s.subrange(0, i)) * 10 + (s[i] - 0x30),
{
    assert(s.subrange(0, i + 1).drop_last() =~= s.subrange(0, i));
}

/// Reads the decimal digits `bytes[from..]` as a number of at most `max`.
fn read_decimal(bytes: &[u8], from: usize, max: u64) -> (r: Option<u64>)
    requires
        from <= bytes@.len(),
    ensures
        ({
            let digits = bytes@.subrange(from as int, bytes@.len() as int);
            if digits.len() > 0 && all_digits(digits) && decimal(digits) <= max {
                r == Some(decimal(digits) as u64)
            } else {
                r is None
            }
        }),
{
    let n = bytes.len();
    let ghost digits = bytes@.subrange(from as int, n as int);
    if from == n {
        return None;
    }
    let mut i: usize = from;
    let mut acc: u64 = 0;
    assert(digits.subrange(0, 0) =~= Seq::<u8>::empty());
    while i < n
        invariant
            n == bytes@.len(),
            from <= i <= n,
            digits == bytes@.subrange(from as int, n as int),
            all_digits(digits.subrange(0, i - from)),
            acc == decimal(digits.subrange(0, i - from)),
            acc <= max,
        decreases n - i,
    {
        let b = bytes[i];
        assert(digits[i - from] == b);
        if b < 0x30 || b > 0x39 {
            return None;
        }
        let d: u64 = (b - 0x30) as u64;
        proof {
            lemma_decimal_step(digits, i - from);
            assert forall|k: int| 0 <= k < i - from + 1 implies is_digit(
                #[trigger] digits.subrange(0, i - from + 1)[k],
            ) by {
                if k < i - from {
                    assert(digits.subrange(0, i - from)[k] == digits[k]);
                }
            }
        }
        if d > max || acc > (max - d) / 10 {
            proof {
                if all_digits(digits) {
                    lemma_decimal_grows(digits, i - from + 1);
                }
            }
            return None;
        }
        acc = acc * 10 + d;
        i += 1;
    }
    assert(digits.subrange(0, n - from) =~= digits);
    Some(acc)
}

/// Reads `bytes` as an unsigned number of at most `max`, as the standard
/// integer types read text.
pub fn parse_bounded(bytes: &[u8], max: u64) -> (r: Option<u64>)
    ensures
        match r {
            Some(v) => parse_unsigned(bytes@, max as int) == Some(v as int),
            None => parse_unsigned(bytes@, max as int) is None,
        },
{
    let n = bytes.len();
    let from: usize = if n > 0 && bytes[0] == 0x2b {
        1
    } else {
        0
    };
    assert(bytes@.subrange(0, n as int) =~= bytes@);
    read_decimal(bytes, from, max)
}

/// The integer that `s` is, as a signed integer type with the least value
/// `-limit - 1` and the greatest value `limit` reads it: an optional sign,
/// then one decimal digit or more, and nothing else. `None` when `s` is not
/// of that form or stands for a number outside those bounds.
pub open spec fn parse_signed(s: Seq<u8>, limit: int) -> Option<int> {
    if s.len() > 0 && s[0] == 0x2d {
        let digits = s.subrange(1, s.len() as int);
        if digits.len() > 0 && all_digits(digits) && decimal(digits) <= limit + 1 {
            Some(-(decimal(digits) as int))
        } else {
            None
        }
    } else {
        parse_unsigned(s, limit)
    }
}

/// Reads `bytes` as an integer of 64 bits, as the standard integer types
/// read text.
pub fn parse_i64(bytes: &[u8]) -> (r: Option<i64>)
    ensures
        match r {
            Some(v) => parse_signed(bytes@, i64::MAX as int) == Some(v as int),
            None => parse_signed(bytes@, i64::MAX as int) is None,
        },
{
    let n = bytes.len();
    if n > 0 && bytes[0] == 0x2d {
        match read_decimal(bytes, 1, 0x8000_0000_0000_0000) {
            Some(m) => {
                if m == 0x8000_0000_0000_0000 {
                    Some(i64::MIN)
                } else {
                    Some(-(m as i64))
                }
            },
            None => None,
        }
    } else {
        match parse_bounded(bytes, 0x7fff_ffff_ffff_ffff) {
            Some(m) => Some(m as i64),
            None => None,
        }
    }
}

/// `0` to `9`, `a` to `f` or `A` to `F`.
pub open spec fn is_hex_digit(b: u8) -> bool {
    (0x30 <= b <= 0x39) || (0x61 <= b <= 0x66) || (0x41 <= b <= 0x46)
}

/// What a hexadecimal digit stands for.
pub open spec fn hex_value(b: u8) -> int {
    if 0x30 <= b <= 0x39 {
        b - 0x30
    } else if 0x61 <= b <= 0x66 {
        b - 0x61 + 10
    } else {
        b - 0x41 + 10
    }
}

/// What a run of hexadecimal digits stands for.
pub open spec fn hexadecimal(s: Seq<u8>) -> nat
    decreases s.len(),
{
    if s.len() == 0 {
        0
    } else if is_hex_digit(s.last()) {
        (hexadecimal(s.drop_last()) * 16 + hex_value(s.last())) as nat
    } else {
        0
    }
}

/// Every byte of `s` is a hexadecimal digit.
pub open spec fn all_hex_digits(s: Seq<u8>) -> bool {
    forall|i: int| 0 <= i < s.len() ==> is_hex_digit(#[trigger] s[i])
}

/// The number that `s` is in base 16, as an unsigned integer type with the
/// greatest value `max` reads it: an optional `+`, then one hexadecimal
/// digit or more, and nothing else. `None` when `s` is not of that form or
/// stands for more than `max`.
pub open spec fn parse_hex(s: Seq<u8>, max: int) -> Option<int> {
    let digits = unsigned_part(s);
    if digits.len() > 0 && all_hex_digits(digits) && hexadecimal(digits) <= max {
        Some(hexadecimal(digits) as int)
    } else {
        None
    }
}

/// A run of hexadecimal digits stands for no less than any of its prefixes.
pub proof fn lemma_hexadecimal_grows(s: Seq<u8>, i: int)
    requires
        0 <= i <= s.len(),
        all_hex_digits(s),
    ensures
        hexadecimal(s.subrange(0, i)) <= hexadecimal(s),
    decreases s.len(),
{
    if i == s.len() {
        assert(s.subrange(0, i) =~= s);
    } else {
        assert(s.drop_last().subrange(0, i) =~= s.subrange(0, i));
        lemma_hexadecimal_grows(s.drop_last(), i);
    }
}

/// Reads `bytes` as an unsigned number of at most `max` in base 16, as the
/// standard integer types read text.
pub fn parse_hex_bounded(bytes: &[u8], max: u64) -> (r: Option<u64>)
    ensures
        match r {
            Some(v) => parse_hex(bytes@, max as int) == Some(v as int),
            None => parse_hex(bytes@, max as int) is None,
        },
{
    let n = bytes.len();
    let from: usize = if n > 0 && bytes[0] == 0x2b {
        1
    } else {
        0
    };
    let ghost digits = unsigned_part(bytes@);
    assert(digits =~= bytes@.subrange(from as int, n as int));
    if from == n {
        return None;
    }
    let mut i: usize = from;
    let mut acc: u64 = 0;
    assert(digits.subrange(0, 0) =~= Seq::<u8>::empty());
    while i < n
        invariant
            n == bytes@.len(),
            from <= i <= n,
            digits == bytes@.subrange(from as int, n as int),
            digits == unsigned_part(bytes@),
            all_hex_digits(digits.subrange(0, i - from)),
            acc == hexadecimal(digits.subrange(0, i - from)),
            acc <= max,
        decreases n - i,
    {
        let b = bytes[i];
        assert(digits[i - from] == b);
        let d: u64 = if 0x30 <= b && b <= 0x39 {
            (b - 0x30) as u64
        } else if 0x61 <= b && b <= 0x66 {
            (b - 0x61 + 10) as u64
        } else if 0x41 <= b && b <= 0x46 {
            (b - 0x41 + 10) as u64
        } else {
            return None;
        };
        proof {
            assert(digits.subrange(0, i - from + 1).drop_last() =~= digits.subrange(0, i - from));
            assert forall|k: int| 0 <= k < i - from + 1 implies is_hex_digit(
                #[trigger] digits.subrange(0, i - from + 1)[k],
            ) by {
                if k < i - from {
                    assert(digits.subrange(0, i - from)[k] == digits[k]);
                }
            }
        }
        if d > max || acc > (max - d) / 16 {
            proof {
                if all_hex_digits(digits) {
                    lemma_hexadecimal_grows(digits, i - from + 1);
                }
            }
            return None;
        }
        acc = acc * 16 + d;
        i += 1;
    }
    assert(digits.subrange(0, n - from) =~= digits);
    Some(acc)
}

/// The number of decimal digits at the start of `s`.
pub open spec fn digit_run(s: Seq<u8>) -> int
    decreases s.len(),
{
    if s.len() > 0 && is_digit(s[0]) {
        1 + digit_run(s.drop_first())
    } else {
        0
    }
}

/// `s` without the sign that it may start with.
pub open spec fn after_sign(s: Seq<u8>) -> Seq<u8> {
    if s.len() > 0 && (s[0] == 0x2b || s[0] == 0x2d) {
        s.drop_first()
    } else {
        s
    }
}

/// The integer that `s` starts with: an optional sign and the decimal digits
/// that follow it. It is 0 where `s` starts with no such integer, or with
/// one that a 32-bit signed integer cannot hold.
pub open spec fn leading_integer(s: Seq<u8>) -> int {
    let rest = after_sign(s);
    let run = rest.subrange(0, digit_run(rest));
    let magnitude = decimal(run) as int;
    let value = if s.len() > 0 && s[0] == 0x2d {
        -magnitude
    } else {
        magnitude
    };
    if -0x8000_0000 <= value <= 0x7fff_ffff {
        value
    } else {
        0
    }
}

/// The run of digits at the start of `s` lies within `s`, is made of digits,
/// and is followed by none.
pub proof fn lemma_digit_run(s: Seq<u8>)
    ensures
        0 <= digit_run(s) <= s.len(),
        all_digits(s.subrange(0, digit_run(s))),
        digit_run(s) < s.len() ==> !is_digit(s[digit_run(s)]),
    decreases s.len(),
{
    if s.len() > 0 && is_digit(s[0]) {
        let rest = s.drop_first();
        lemma_digit_run(rest);
        let k = digit_run(rest);
        assert forall|i: int| 0 <= i < k + 1 implies is_digit(#[trigger] s.subrange(0, k + 1)[i]) by {
            if i > 0 {
                assert(rest.subrange(0, k)[i - 1] == s[i]);
            }
        }
        if k + 1 < s.len() {
            assert(rest[k] == s[k + 1]);
        }
    }
}

/// Digits up to a byte that is none, or up to the end, are the whole run.
pub proof fn lemma_digit_run_found(s: Seq<u8>, k: int)
    requires
        0 <= k <= s.len(),
        all_digits(s.subrange(0, k)),
        k < s.len() ==> !is_digit(s[k]),
    ensures
        digit_run(s) == k,
    decreases s.len(),
{
    if k == 0 {
    } else {
        assert(s.subrange(0, k)[0] == s[0]);
        let rest = s.drop_first();
        assert forall|i: int| 0 <= i < k - 1 implies is_digit(#[trigger] rest.subrange(0, k - 1)[i]) by {
            assert(s.subrange(0, k)[i + 1] == rest[i]);
        }
        if k < s.len() {
            assert(rest[k - 1] == s[k]);
        }
        lemma_digit_run_found(rest, k - 1);
    }
}

/// The integer that `bytes` starts with, or 0.
pub fn parse_leading_integer(bytes: &[u8]) -> (r: i32)
    ensures
        r == leading_integer(bytes@),
{
    let n = bytes.len();
    let negative = n > 0 && bytes[0] == 0x2d;
    let from: usize = if n > 0 && (bytes[0] == 0x2b || bytes[0] == 0x2d) {
        1
    } else {
        0
    };
    let ghost rest = after_sign(bytes@);
    assert(rest =~= bytes@.subrange(from as int, n as int));
    let mut i: usize = from;
    let mut acc: i64 = 0;
    let mut fits = true;
    assert(rest.subrange(0, 0) =~= Seq::<u8>::empty());
    while i < n && bytes[i] >= 0x30 && bytes[i] <= 0x39
        invariant
            n == bytes@.len(),
            from <= i <= n,
            rest == bytes@.subrange(from as int, n as int),
            all_digits(rest.subrange(0, i - from)),
            fits ==> acc == decimal(rest.subrange(0, i - from)) && acc <= 0x8000_0000,
            !fits ==> decimal(rest.subrange(0, i - from)) > 0x8000_0000,
            0 <= acc <= 0x8000_0000,
        decreases n - i,
    {
        let d: i64 = (bytes[i] - 0x30) as i64;
        proof {
            assert(rest[i - from] == bytes@[i as int]);
            lemma_decimal_step(rest, i - from);
            assert forall|k: int| 0 <= k < i - from + 1 implies is_digit(
                #[trigger] rest.subrange(0, i - from + 1)[k],
            ) by {
                if k < i - from {
                    assert(rest.subrange(0, i - from)[k] == rest[k]);
                }
            }
        }
        if fits {
            let next: i64 = acc * 10 + d;
            if next > 0x8000_0000 {
                fits = false;
            } else {
                acc = next;
            }
        }
        i += 1;
    }
    proof {
        if i < n {
            assert(rest[i - from] == bytes@[i as int]);
        }
        lemma_digit_run_found(rest, i - from);
    }
    if !fits {
        0
    } else if negative {
        (-acc) as i32
    } else if acc > 0x7fff_ffff {
        0
    } else {
        acc as i32
    }
}

} // verus!
