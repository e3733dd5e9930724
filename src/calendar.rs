//! Integer arithmetic as Rust performs it, and the month of each position of a
//! monthly window.

use vstd::prelude::*;

verus! {

/// Quotient of Rust's integer division, which rounds toward zero.
#[verifier::opaque]
pub open spec fn quot(a: int, b: int) -> int {
    if a >= 0 {
        a / b
    } else {
        -((-a) / b)
    }
}

/// Remainder of Rust's integer division: it takes the sign of `a`.
#[verifier::opaque]
pub open spec fn rem(a: int, b: int) -> int {
    a - b * quot(a, b)
}

/// Bounds of Rust's quotient and remainder by a positive divisor.
pub proof fn lemma_quot_rem_bounds(a: int, b: int)
    requires
        b > 0,
    ensures
        -b < rem(a, b) < b,
        a >= 0 ==> 0 <= quot(a, b) <= a && b * quot(a, b) <= a,
        a < 0 ==> a <= quot(a, b) <= 0 && b * quot(a, b) >= a,
{
    reveal(quot);
    reveal(rem);
    let x = if a >= 0 { a } else { -a };
    vstd::arithmetic::div_mod::lemma_fundamental_div_mod(x, b);
    vstd::arithmetic::div_mod::lemma_div_basics_4(x, b);
    vstd::arithmetic::div_mod::lemma_div_basics_5(x, b);
    vstd::arithmetic::div_mod::lemma_mod_bound(x, b);
    assert(b * (-(x / b)) == -(b * (x / b))) by (nonlinear_arith);
}

/// `a / b` on `i32`, with what is known of its value.
pub fn trunc_div(a: i32, b: i32) -> (r: i32)
    requires
        b > 0,
    ensures
        r == quot(a as int, b as int),
        a >= 0 ==> 0 <= r <= a && b * r <= a,
        a < 0 ==> a <= r <= 0 && b * r >= a,
{
    proof {
        reveal(quot);
        lemma_quot_rem_bounds(a as int, b as int);
    }
    a / b
}

/// `a % b` on `i32`, with what is known of its value.
pub fn trunc_rem(a: i32, b: i32) -> (r: i32)
    requires
        b > 0,
    ensures
        r == rem(a as int, b as int),
        -b < r < b,
{
    let q: i32 = trunc_div(a, b);
    proof {
        reveal(rem);
        lemma_quot_rem_bounds(a as int, b as int);
    }
    a - b * q
}

/// The (year, month) of position `i` of a monthly window that starts in
/// month `start_month` (1 to 12) of `start_year`.
pub open spec fn window_month(start_year: int, start_month: int, i: int) -> (int, int) {
    let k = start_month - 1 + i;
    (start_year + k / 12, k % 12 + 1)
}

/// Moving one position on in a window moves one calendar month on.
pub proof fn lemma_window_step(start_year: int, start_month: int, i: int)
    requires
        1 <= start_month <= 12,
        0 <= i,
    ensures
        1 <= window_month(start_year, start_month, i).1 <= 12,
        window_month(start_year, start_month, i + 1) == (if window_month(
            start_year,
            start_month,
            i,
        ).1 == 12 {
            (window_month(start_year, start_month, i).0 + 1, 1)
        } else {
            (window_month(start_year, start_month, i).0, window_month(start_year, start_month, i).1 + 1)
        }),
{
    let k = start_month - 1 + i;
    vstd::arithmetic::div_mod::lemma_fundamental_div_mod(k, 12);
    vstd::arithmetic::div_mod::lemma_mod_bound(k, 12);
    if k % 12 == 11 {
        vstd::arithmetic::div_mod::lemma_fundamental_div_mod_converse(k + 1, 12, k / 12 + 1, 0);
    } else {
        vstd::arithmetic::div_mod::lemma_fundamental_div_mod_converse(k + 1, 12, k / 12, k % 12 + 1);
    }
}

/// The years that a window of `length` months reaches, up to the month
/// just past its end.
pub proof fn lemma_window_years(start_year: int, start_month: int, i: int, length: int)
    requires
        1 <= start_month <= 12,
        0 <= i <= length,
    ensures
        start_year <= window_month(start_year, start_month, i).0 <= start_year + length / 12 + 1,
{
    let k = start_month - 1 + i;
    vstd::arithmetic::div_mod::lemma_div_basics_4(k, 12);
    vstd::arithmetic::div_mod::lemma_fundamental_div_mod(k, 12);
    vstd::arithmetic::div_mod::lemma_fundamental_div_mod(length, 12);
    vstd::arithmetic::div_mod::lemma_mod_bound(k, 12);
    vstd::arithmetic::div_mod::lemma_mod_bound(length, 12);
    assert(12 * (k / 12) <= 12 * (length / 12) + 12 + 11);
}

/// Distinct positions of a window are distinct months.
pub proof fn lemma_window_injective(start_year: int, start_month: int, i: int, j: int)
    requires
        window_month(start_year, start_month, i) == window_month(start_year, start_month, j),
    ensures
        i == j,
{
    vstd::arithmetic::div_mod::lemma_fundamental_div_mod(start_month - 1 + i, 12);
    vstd::arithmetic::div_mod::lemma_fundamental_div_mod(start_month - 1 + j, 12);
}

/// The (year, month) of position `i` of a monthly window that starts in
/// month `start_month` (1 to 12) of `start_year`.
pub fn month_at(start_year: i32, start_month: u32, i: usize) -> (r: (i32, u32))
    requires
        1 <= start_month <= 12,
        start_year + i / 12 + 1 <= i32::MAX,
    ensures
        r.0 as int == window_month(start_year as int, start_month as int, i as int).0,
        r.1 as int == window_month(start_year as int, start_month as int, i as int).1,
{
    proof {
        lemma_window_years(start_year as int, start_month as int, i as int, i as int);
        lemma_window_step(start_year as int, start_month as int, i as int);
    }
    let k: u128 = (start_month - 1) as u128 + i as u128;
    let year: i32 = (start_year as i128 + (k / 12) as i128) as i32;
    let month: u32 = (k % 12 + 1) as u32;
    (year, month)
}

/// Where the future Easter regressor of a forecast starts: the month after
/// the first month that follows a series of `series_len` months, normalised
/// to a month from 1 to 12 with the year carried.
pub fn future_regressor_start(start_year: i32, start_month: u32, series_len: usize) -> (r: (
    i32,
    u32,
))
    requires
        1 <= start_month <= 12,
        series_len < usize::MAX,
        start_year + (series_len + 1) / 12 + 1 <= i32::MAX,
    ensures
        r.0 as int == window_month(start_year as int, start_month as int, series_len + 1).0,
        r.1 as int == window_month(start_year as int, start_month as int, series_len + 1).1,
        1 <= r.1 <= 12,
{
    proof {
        lemma_window_step(start_year as int, start_month as int, series_len + 1);
    }
    month_at(start_year, start_month, series_len + 1)
}

} // verus!
