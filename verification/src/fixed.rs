//! Fixed-point arithmetic on amounts: results are rounded toward zero and stop at the bounds
//! of what an amount can hold.

use vstd::prelude::*;

verus! {

/// Number of raw units in one whole unit of a fixed-point amount.
pub const SCALE: i64 = 100_000_000;

/// The nearest value that an amount can hold.
pub open spec fn saturate(v: int) -> int {
    if v > i64::MAX {
        i64::MAX as int
    } else if v < i64::MIN {
        i64::MIN as int
    } else {
        v
    }
}

/// Division that rounds toward zero. A zero divisor gives the bound that
/// lies on the dividend's side, and zero for a zero dividend.
pub open spec fn quotient(n: int, d: int) -> int {
    if d > 0 {
        if n >= 0 {
            n / d
        } else {
            -((-n) / d)
        }
    } else if d < 0 {
        if n >= 0 {
            -(n / (-d))
        } else {
            (-n) / (-d)
        }
    } else if n > 0 {
        i64::MAX as int
    } else if n < 0 {
        i64::MIN as int
    } else {
        0
    }
}

/// Sum of two amounts.
pub open spec fn sum(a: int, b: int) -> int {
    saturate(a + b)
}

/// Difference of two amounts.
pub open spec fn difference(a: int, b: int) -> int {
    saturate(a - b)
}

/// Product of two amounts, each counted in raw units.
pub open spec fn product(a: int, b: int) -> int {
    saturate(quotient(a * b, SCALE as int))
}

/// Ratio of two amounts, each counted in raw units.
pub open spec fn ratio(a: int, b: int) -> int {
    saturate(quotient(a * SCALE, b))
}

/// Relative change from `start` to `end`, in percent.
pub open spec fn change_pct(start: int, end: int) -> int {
    product(difference(ratio(end, start), SCALE as int), 100 * SCALE)
}

fn magnitude(a: i64) -> (m: u128)
    ensures
        m == if a >= 0 { a as int } else { -(a as int) },
        m <= 0x8000_0000_0000_0000,
{
    if a >= 0 {
        a as u128
    } else {
        (-(a as i128)) as u128
    }
}

/// Gives a magnitude its sign back and brings it into range.
fn signed(m: u128, negative: bool) -> (r: i64)
    ensures
        r == saturate(if negative { -(m as int) } else { m as int }),
{
    if negative {
        if m >= 0x8000_0000_0000_0000 {
            i64::MIN
        } else {
            -(m as i64)
        }
    } else {
        if m > 0x7fff_ffff_ffff_ffff {
            i64::MAX
        } else {
            m as i64
        }
    }
}

/// Sum of two amounts.
pub fn fx_add(a: i64, b: i64) -> (r: i64)
    ensures
        r == sum(a as int, b as int),
{
    let s: i128 = a as i128 + b as i128;
    if s > i64::MAX as i128 {
        i64::MAX
    } else if s < i64::MIN as i128 {
        i64::MIN
    } else {
        s as i64
    }
}

/// Difference of two amounts.
pub fn fx_sub(a: i64, b: i64) -> (r: i64)
    ensures
        r == difference(a as int, b as int),
{
    let s: i128 = a as i128 - b as i128;
    if s > i64::MAX as i128 {
        i64::MAX
    } else if s < i64::MIN as i128 {
        i64::MIN
    } else {
        s as i64
    }
}

/// Product of two amounts, rounded toward zero.
pub fn fx_mul(a: i64, b: i64) -> (r: i64)
    ensures
        r == product(a as int, b as int),
{
    let ma: u128 = magnitude(a);
    let mb: u128 = magnitude(b);
    assert(ma * mb <= 0x8000_0000_0000_0000 * 0x8000_0000_0000_0000) by (nonlinear_arith)
        requires
            ma <= 0x8000_0000_0000_0000,
            mb <= 0x8000_0000_0000_0000,
    ;
    let p: u128 = ma * mb;
    let q: u128 = p / (SCALE as u128);
    let negative: bool = (a < 0) != (b < 0);
    proof {
        let x = a as int;
        let y = b as int;
        assert((if x >= 0 { x } else { -x }) * (if y >= 0 { y } else { -y }) == (if (x < 0)
            != (y < 0) { -(x * y) } else { x * y })) by (nonlinear_arith);
    }
    signed(q, negative)
}

/// Ratio of two amounts, rounded toward zero.
pub fn fx_div(a: i64, b: i64) -> (r: i64)
    ensures
        r == ratio(a as int, b as int),
{
    proof {
        let x = a as int;
        assert(x > 0 ==> x * SCALE > 0) by (nonlinear_arith)
            requires
                SCALE == 100_000_000,
        ;
        assert(x < 0 ==> x * SCALE < 0) by (nonlinear_arith)
            requires
                SCALE == 100_000_000,
        ;
        assert((if x >= 0 {
            x
        } else {
            -x
        }) * SCALE == (if x >= 0 {
            x * SCALE
        } else {
            -(x * SCALE)
        })) by (nonlinear_arith);
    }
    if b == 0 {
        if a > 0 {
            i64::MAX
        } else if a < 0 {
            i64::MIN
        } else {
            0
        }
    } else {
        let ma: u128 = magnitude(a);
        let mb: u128 = magnitude(b);
        assert(ma * (SCALE as u128) <= 0x8000_0000_0000_0000 * 100_000_000) by (nonlinear_arith)
            requires
                ma <= 0x8000_0000_0000_0000,
                SCALE == 100_000_000,
        ;
        let n: u128 = ma * (SCALE as u128);
        let q: u128 = n / mb;
        let negative: bool = (a < 0) != (b < 0);
        signed(q, negative)
    }
}

} // verus!
