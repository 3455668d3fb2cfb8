//! Fixed-point amounts. A quantity is held as a whole number of millionths,
//! so `1_500_000` stands for one and a half.
//!
//! A mean is rounded toward zero. A change in percent is rounded away from
//! zero, so that a rise or a fall, however small, is never shown as no
//! change.

use vstd::prelude::*;

verus! {

/// How many millionths make one.
pub const UNIT: i64 = 1_000_000;

/// A number without its sign.
pub open spec fn magnitude(a: int) -> int {
    if a < 0 {
        -a
    } else {
        a
    }
}

/// The quotient of `a` by `b`, rounded toward zero; 0 where `b` is 0.
pub open spec fn quotient(a: int, b: int) -> int {
    if b > 0 {
        if a >= 0 {
            a / b
        } else {
            -((-a) / b)
        }
    } else if b < 0 {
        if a >= 0 {
            -(a / (-b))
        } else {
            (-a) / (-b)
        }
    } else {
        0
    }
}

/// The quotient of `a` by `b`, rounded away from zero where the division
/// leaves a remainder; 0 where `b` is 0.
pub open spec fn outward_quotient(a: int, b: int) -> int {
    if b > 0 {
        if a >= 0 {
            (a + b - 1) / b
        } else {
            -((-a + b - 1) / b)
        }
    } else if b < 0 {
        if a >= 0 {
            -((a - b - 1) / (-b))
        } else {
            (-a - b - 1) / (-b)
        }
    } else {
        0
    }
}

/// The change from `previous` to `current` in percent of `previous`, as an
/// amount: the ratio of the difference to `previous`, times 100 for the
/// percent and times `UNIT` for the millionths, rounded away from zero. It
/// has a meaning where `previous` is not 0.
pub open spec fn percent_change(current: int, previous: int) -> int {
    outward_quotient((current - previous) * 100_000_000, previous)
}

/// The change has the sign of the ratio that it stands for: measured
/// against a positive amount, a rise is positive and a fall negative;
/// against a negative amount it is the other way round. It is 0 only where
/// the two amounts are equal.
pub open spec fn keeps_sign(current: int, previous: int, change: int) -> bool {
    if previous > 0 {
        (change > 0 <==> current > previous) && (change < 0 <==> current < previous)
    } else {
        (change > 0 <==> current < previous) && (change < 0 <==> current > previous)
    }
}

/// The magnitude of a number.
fn size_of(a: i128) -> (size: u128)
    ensures
        size == magnitude(a as int),
{
    if a >= 0 {
        a as u128
    } else {
        ((-(a + 1)) as u128) + 1
    }
}

/// The number of the given magnitude and sign.
fn with_sign(size: u128, negative: bool) -> (number: i128)
    requires
        negative ==> size <= 0x8000_0000_0000_0000_0000_0000_0000_0000,
        !negative ==> size < 0x8000_0000_0000_0000_0000_0000_0000_0000,
    ensures
        number == (if negative {
            -(size as int)
        } else {
            size as int
        }),
{
    if !negative {
        size as i128
    } else if size == 0 {
        0
    } else {
        -((size - 1) as i128) - 1
    }
}

/// Divides `a` by `b`, rounding toward zero. The one quotient that does not
/// fit, that of the most negative `i128` by -1, is left out.
pub fn divide(a: i128, b: i128) -> (q: i128)
    requires
        b != 0,
        !(a == i128::MIN && b == -1),
    ensures
        q == quotient(a as int, b as int),
{
    let size_a = size_of(a);
    let size_b = size_of(b);
    let size_q: u128 = size_a / size_b;
    assert(size_q <= size_a && (size_b >= 2 ==> 2 * size_q <= size_a)) by (nonlinear_arith)
        requires
            size_q == size_a / size_b,
            0 < size_b,
    ;
    with_sign(size_q, (a < 0) != (b < 0))
}

/// Divides `a` by `b`, rounding away from zero where the division leaves a
/// remainder. The one quotient that does not fit, that of the most negative
/// `i128` by -1, is left out.
pub fn divide_outward(a: i128, b: i128) -> (q: i128)
    requires
        b != 0,
        !(a == i128::MIN && b == -1),
    ensures
        q == outward_quotient(a as int, b as int),
{
    let size_a = size_of(a);
    let size_b = size_of(b);
    let size_q: u128 = (size_a + (size_b - 1)) / size_b;
    assert(size_q <= size_a && (size_b >= 2 ==> 2 * size_q <= size_a + 1)) by (nonlinear_arith)
        requires
            size_q == (size_a + size_b - 1) / (size_b as int),
            0 < size_b,
    ;
    with_sign(size_q, (a < 0) != (b < 0) && size_q != 0)
}

/// The change from `previous` to `current` in percent of `previous`,
/// rounded away from zero; `None` where `previous` is 0 and the change has
/// no measure.
pub fn change_percentage(current: i64, previous: i64) -> (change: Option<i128>)
    ensures
        previous == 0 <==> change is None,
        previous != 0 ==> change->0 == percent_change(current as int, previous as int),
        previous != 0 ==> keeps_sign(current as int, previous as int, change->0 as int),
{
    if previous == 0 {
        None
    } else {
        let wide_current: i128 = current as i128;
        let wide_previous: i128 = previous as i128;
        let difference: i128 = wide_current - wide_previous;
        let scaled: i128 = difference * 100_000_000;
        let q = divide_outward(scaled, wide_previous);
        proof {
            lemma_percent_change_sign(current as int, previous as int);
        }
        Some(q)
    }
}

/// A quotient is no larger in magnitude than what was divided, and times
/// the divisor it falls short of what was divided by less than the divisor.
pub proof fn lemma_quotient_bound(a: int, b: int)
    requires
        b != 0,
    ensures
        magnitude(quotient(a, b)) <= magnitude(a),
        magnitude(b) * magnitude(quotient(a, b)) <= magnitude(a),
        magnitude(a) < magnitude(b) * (magnitude(quotient(a, b)) + 1),
{
    let x = magnitude(a);
    let y = magnitude(b);
    assert(0 <= x / y <= x && y * (x / y) <= x < y * (x / y + 1)) by (nonlinear_arith)
        requires
            0 <= x,
            0 < y,
    ;
}

/// A quotient rounded away from zero, times the divisor, reaches what was
/// divided and goes beyond it by less than the divisor. It is 0 only of 0,
/// and has the sign of the exact quotient.
pub proof fn lemma_outward_quotient_bound(a: int, b: int)
    requires
        b != 0,
    ensures
        magnitude(a) <= magnitude(b) * magnitude(outward_quotient(a, b)),
        magnitude(b) * magnitude(outward_quotient(a, b)) < magnitude(a) + magnitude(b),
        magnitude(outward_quotient(a, b)) <= magnitude(a),
        outward_quotient(a, b) > 0 <==> (a > 0 && b > 0) || (a < 0 && b < 0),
        outward_quotient(a, b) < 0 <==> (a > 0 && b < 0) || (a < 0 && b > 0),
{
    let x = magnitude(a);
    let y = magnitude(b);
    let c = (x + y - 1) / y;
    assert(0 <= c && x <= y * c && y * c < x + y && c <= x && (x > 0 ==> c > 0)) by (nonlinear_arith)
        requires
            0 <= x,
            0 < y,
            c == (x + y - 1) / y,
    ;
}

/// The change in percent has the sign of the ratio that it stands for.
pub proof fn lemma_percent_change_sign(current: int, previous: int)
    requires
        previous != 0,
    ensures
        keeps_sign(current, previous, percent_change(current, previous)),
{
    lemma_outward_quotient_bound((current - previous) * 100_000_000, previous);
}

} // verus!
