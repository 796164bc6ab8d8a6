//! Fixed-point amounts written as decimal numbers, and read from them.

use crate::fixed::SCALE;
use crate::text::{
    all_digits, decimal, decimal_text, digit_char, digit_text, digits_only, digits_value,
    is_digit, read_digits,
};
use vstd::prelude::*;

verus! {

/// The number of digits behind the point of a fixed-point amount.
pub const FRACTION_DIGITS: usize = 8;

/// Ten to the power of `e`.
pub open spec fn pow10(e: nat) -> nat
    decreases e,
{
    if e == 0 {
        1
    } else {
        10 * pow10((e - 1) as nat)
    }
}

/// The last `width` decimal digits of `n`, with zeros in front where `n`
/// has fewer.
pub open spec fn padded(n: nat, width: nat) -> Seq<char>
    decreases width,
{
    if width == 0 {
        Seq::empty()
    } else {
        padded(n / 10, (width - 1) as nat).push(digit_char(n % 10))
    }
}

/// The digits without the zeros at their end, but for the last digit that
/// is left.
pub open spec fn trimmed(s: Seq<char>) -> Seq<char>
    decreases s.len(),
{
    if s.len() > 1 && s.last() == '0' {
        trimmed(s.drop_last())
    } else {
        s
    }
}

/// A fixed-point amount in text: a minus sign where it is negative, the
/// whole part, a point, and the digits behind the point without zeros at
/// their end.
pub open spec fn fixed_label(v: int) -> Seq<char> {
    let m = if v < 0 {
        -v
    } else {
        v
    };
    (if v < 0 {
        "-"@
    } else {
        Seq::empty()
    }) + decimal((m / (SCALE as int)) as nat) + "."@ + trimmed(
        padded((m % (SCALE as int)) as nat, FRACTION_DIGITS as nat),
    )
}

/// Padded digits are as many as asked for.
pub proof fn lemma_padded_len(n: nat, width: nat)
    ensures
        padded(n, width).len() == width,
    decreases width,
{
    if width > 0 {
        lemma_padded_len(n / 10, (width - 1) as nat);
    }
}

fn padded_text(n: u64, width: usize) -> (r: String)
    ensures
        r@ == padded(n as nat, width as nat),
    decreases width,
{
    if width == 0 {
        let r = String::new();
        r
    } else {
        let mut head: String = padded_text(n / 10, width - 1);
        head.append(digit_text(n % 10));
        head
    }
}

/// Writes a fixed-point amount.
pub fn fixed_text(v: i64) -> (r: String)
    ensures
        r@ == fixed_label(v as int),
{
    let m: u64 = if v < 0 {
        (-(v as i128)) as u64
    } else {
        v as u64
    };
    let mut text: String = if v < 0 {
        String::from_str("-")
    } else {
        String::new()
    };
    text.append(decimal_text(m / (SCALE as u64)).as_str());
    text.append(".");
    let fraction: u64 = m % (SCALE as u64);
    let mut digits: u64 = fraction;
    let mut width: usize = FRACTION_DIGITS;
    while width > 1 && digits % 10 == 0
        invariant
            1 <= width <= FRACTION_DIGITS,
            trimmed(padded(fraction as nat, FRACTION_DIGITS as nat)) == trimmed(
                padded(digits as nat, width as nat),
            ),
        decreases width,
    {
        proof {
            lemma_padded_len((digits / 10) as nat, (width - 1) as nat);
            let full = padded(digits as nat, width as nat);
            assert(full.drop_last() =~= padded((digits / 10) as nat, (width - 1) as nat));
        }
        digits = digits / 10;
        width = width - 1;
    }
    proof {
        lemma_padded_len(digits as nat, width as nat);
        if width > 1 {
            lemma_padded_len((digits / 10) as nat, (width - 1) as nat);
        }
    }
    text.append(padded_text(digits, width).as_str());
    text
}

/// The place of the first point at or after `start`, or the length of the
/// text where there is none.
pub open spec fn point_place(s: Seq<char>, start: int) -> int
    decreases s.len() - start,
{
    if start < 0 || start >= s.len() {
        s.len() as int
    } else if s[start] == '.' {
        start
    } else {
        point_place(s, start + 1)
    }
}

/// The value of the digits behind a point, in raw units: digits beyond
/// those that an amount holds are dropped.
pub open spec fn fraction_value(digits: Seq<char>) -> nat {
    if digits.len() >= FRACTION_DIGITS {
        digits_value(digits.take(FRACTION_DIGITS as int))
    } else {
        digits_value(digits) * pow10((FRACTION_DIGITS - digits.len()) as nat)
    }
}

/// The text behind an optional sign.
pub open spec fn unsigned_part(s: Seq<char>) -> Seq<char> {
    if s.len() > 0 && (s[0] == '-' || s[0] == '+') {
        s.subrange(1, s.len() as int)
    } else {
        s
    }
}

/// The digits before the point.
pub open spec fn whole_digits(s: Seq<char>) -> Seq<char> {
    unsigned_part(s).take(point_place(unsigned_part(s), 0))
}

/// The digits behind the point.
pub open spec fn fraction_digits(s: Seq<char>) -> Seq<char> {
    let body = unsigned_part(s);
    let point = point_place(body, 0);
    if point < body.len() {
        body.subrange(point + 1, body.len() as int)
    } else {
        Seq::empty()
    }
}

/// Whether a text is a decimal number: an optional sign, digits, and
/// optionally a point and more digits, with a digit on at least one side
/// of the point.
pub open spec fn is_decimal(s: Seq<char>) -> bool {
    &&& all_digits(whole_digits(s))
    &&& all_digits(fraction_digits(s))
    &&& whole_digits(s).len() + fraction_digits(s).len() > 0
}

/// The amount that a decimal number stands for, in raw units.
pub open spec fn decimal_value(s: Seq<char>) -> int {
    let magnitude = digits_value(whole_digits(s)) * SCALE + fraction_value(fraction_digits(s));
    if s.len() > 0 && s[0] == '-' {
        -magnitude
    } else {
        magnitude
    }
}

/// The amount that a text stands for, if it is a decimal number that an
/// amount can hold.
pub open spec fn parsed_fixed(s: Seq<char>) -> Option<i64> {
    if is_decimal(s) && i64::MIN <= decimal_value(s) <= i64::MAX {
        Some(decimal_value(s) as i64)
    } else {
        None
    }
}

/// Ten to the power of `e`, for the few digits of a fraction.
fn power_of_ten(e: usize) -> (r: u64)
    requires
        e <= FRACTION_DIGITS,
    ensures
        r == pow10(e as nat),
        r <= 100_000_000,
{
    proof {
        reveal_with_fuel(pow10, 10);
    }
    if e == 0 {
        1
    } else if e == 1 {
        10
    } else if e == 2 {
        100
    } else if e == 3 {
        1_000
    } else if e == 4 {
        10_000
    } else if e == 5 {
        100_000
    } else if e == 6 {
        1_000_000
    } else if e == 7 {
        10_000_000
    } else {
        100_000_000
    }
}

/// Digits stand for a number below the power of ten of their count.
pub proof fn lemma_digits_value_bound(digits: Seq<char>)
    requires
        all_digits(digits),
    ensures
        digits_value(digits) < pow10(digits.len()),
    decreases digits.len(),
{
    if digits.len() > 0 {
        let head = digits.drop_last();
        assert forall|i: int| 0 <= i < head.len() implies is_digit(#[trigger] head[i]) by {}
        lemma_digits_value_bound(head);
    }
}

/// The place of the first point at or after `start`.
fn find_point(s: &str, start: usize) -> (place: usize)
    requires
        start <= s@.len(),
    ensures
        start <= place <= s@.len(),
        place - start == point_place(s@.subrange(start as int, s@.len() as int), 0),
{
    let n: usize = s.unicode_len();
    let ghost body = s@.subrange(start as int, n as int);
    let mut i: usize = start;
    while i < n
        invariant
            start <= i <= n,
            n == s@.len(),
            body == s@.subrange(start as int, n as int),
            point_place(body, 0) == point_place(body, i - start),
        decreases n - i,
    {
        if s.get_char(i) == '.' {
            return i;
        }
        i += 1;
    }
    i
}

/// Reads the digits behind a point, from `first` to the end of the text,
/// as raw units.
fn read_fraction(s: &str, first: usize) -> (r: Option<u64>)
    requires
        first <= s@.len(),
    ensures
        all_digits(s@.subrange(first as int, s@.len() as int)) ==> r == Some(
            fraction_value(s@.subrange(first as int, s@.len() as int)) as u64,
        ) && fraction_value(s@.subrange(first as int, s@.len() as int)) < 100_000_000,
        !all_digits(s@.subrange(first as int, s@.len() as int)) ==> r.is_none(),
{
    let n: usize = s.unicode_len();
    let ghost digits = s@.subrange(first as int, n as int);
    if !digits_only(s, first, n) {
        return None;
    }
    let count: usize = n - first;
    let kept_end: usize = if count >= FRACTION_DIGITS {
        first + FRACTION_DIGITS
    } else {
        n
    };
    let ghost kept = s@.subrange(first as int, kept_end as int);
    proof {
        assert(kept =~= digits.take(kept_end - first));
        assert forall|i: int| 0 <= i < kept.len() implies is_digit(#[trigger] kept[i]) by {}
        lemma_digits_value_bound(kept);
        lemma_pow10_split(kept.len());
    }
    let factor: u64 = power_of_ten(FRACTION_DIGITS - (kept_end - first));
    proof {
        assert(pow10(kept.len()) <= 100_000_000) by (nonlinear_arith)
            requires
                pow10(kept.len()) * pow10((FRACTION_DIGITS - kept.len()) as nat) == 100_000_000,
                pow10((FRACTION_DIGITS - kept.len()) as nat) >= 1,
                pow10(kept.len()) >= 1,
        ;
        assert(all_digits(kept));
    }
    match read_digits(s, first, kept_end, 99_999_999) {
        Some(low) => {
            assert(low * factor < 100_000_000) by (nonlinear_arith)
                requires
                    low < pow10(kept.len()),
                    factor == pow10((FRACTION_DIGITS - kept.len()) as nat),
                    pow10(kept.len()) * pow10((FRACTION_DIGITS - kept.len()) as nat)
                        == 100_000_000,
            ;
            Some(low * factor)
        },
        None => None,
    }
}

/// The power of ten of a sum is the product of the powers of ten, and no
/// power of ten is zero.
pub proof fn lemma_pow10_sum(a: nat, b: nat)
    ensures
        pow10(a + b) == pow10(a) * pow10(b),
        pow10(a) >= 1,
    decreases a,
{
    if a > 0 {
        let less = (a - 1) as nat;
        lemma_pow10_sum(less, b);
        assert(pow10(a + b) == 10 * pow10(less + b));
        assert(10 * (pow10(less) * pow10(b)) == (10 * pow10(less)) * pow10(b))
            by (nonlinear_arith);
    } else {
        assert(pow10(a) * pow10(b) == pow10(b)) by (nonlinear_arith)
            requires
                pow10(a) == 1,
        ;
    }
}

/// How the powers of ten of the digits that are there and of those that
/// are missing make up the scale of an amount.
proof fn lemma_pow10_split(count: nat)
    requires
        count <= FRACTION_DIGITS,
    ensures
        pow10(count) * pow10((FRACTION_DIGITS - count) as nat) == 100_000_000,
        pow10(0) == 1,
        pow10(count) >= 1,
        pow10((FRACTION_DIGITS - count) as nat) >= 1,
{
    lemma_pow10_sum(count, (FRACTION_DIGITS - count) as nat);
    lemma_pow10_sum((FRACTION_DIGITS - count) as nat, 0);
    assert(pow10(8) == 100_000_000) by {
        reveal_with_fuel(pow10, 10);
    }
}

/// Puts a whole part and a fraction together, with the sign.
fn compose(negative: bool, high: u64, low: u64) -> (r: Option<i64>)
    requires
        low < 100_000_000,
    ensures
        r == ({
            let magnitude = high * SCALE + low;
            let value = if negative {
                -magnitude
            } else {
                magnitude
            };
            if i64::MIN <= value <= i64::MAX {
                Some(value as i64)
            } else {
                None
            }
        }),
{
    assert(high * (SCALE as u128) <= 0xffff_ffff_ffff_ffff * 100_000_000) by (nonlinear_arith)
        requires
            high <= 0xffff_ffff_ffff_ffff,
            SCALE == 100_000_000,
    ;
    let magnitude: u128 = high as u128 * (SCALE as u128) + low as u128;
    if negative {
        if magnitude > 0x8000_0000_0000_0000 {
            None
        } else {
            Some((-(magnitude as i128)) as i64)
        }
    } else {
        if magnitude > 0x7fff_ffff_ffff_ffff {
            None
        } else {
            Some(magnitude as i64)
        }
    }
}

/// Reads a fixed-point amount from a decimal number. Digits beyond those
/// that an amount holds are dropped.
pub fn parse_fixed(s: &str) -> (r: Option<i64>)
    ensures
        r == parsed_fixed(s@),
{
    let n: usize = s.unicode_len();
    let mut negative: bool = false;
    let mut start: usize = 0;
    if n > 0 {
        let c: char = s.get_char(0);
        if c == '-' {
            negative = true;
            start = 1;
        } else if c == '+' {
            start = 1;
        }
    }
    let ghost body = unsigned_part(s@);
    assert(body =~= s@.subrange(start as int, n as int));
    let point: usize = find_point(s, start);
    let fraction_start: usize = if point < n {
        point + 1
    } else {
        n
    };
    let ghost whole = whole_digits(s@);
    let ghost fraction = fraction_digits(s@);
    assert(whole =~= s@.subrange(start as int, point as int));
    assert(fraction =~= s@.subrange(fraction_start as int, n as int));
    if !digits_only(s, start, point) {
        return None;
    }
    if (point - start) + (n - fraction_start) == 0 {
        return None;
    }
    let low: u64 = match read_fraction(s, fraction_start) {
        Some(v) => v,
        None => {
            return None;
        },
    };
    match read_digits(s, start, point, u64::MAX) {
        Some(high) => compose(negative, high, low),
        None => {
            assert(digits_value(whole) * SCALE > 0x8000_0000_0000_0000) by (nonlinear_arith)
                requires
                    digits_value(whole) > 0xffff_ffff_ffff_ffff,
                    SCALE == 100_000_000,
            ;
            None
        },
    }
}

} // verus!
