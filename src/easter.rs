//! Easter Sunday (Computus) and the invoice month that precedes it.

use vstd::prelude::*;
use crate::calendar::{
    future_regressor_start, lemma_window_injective, lemma_window_step, lemma_window_years, quot,
    rem, trunc_div, trunc_rem, window_month,
};

verus! {

/// Easter Sunday of `year` as (month, day), by the Anonymous Gregorian
/// algorithm, with every division rounding toward zero as in Rust.
pub open spec fn computus(year: int) -> (int, int) {
    let a = rem(year, 19);
    let b = quot(year, 100);
    let c = rem(year, 100);
    let d = quot(b, 4);
    let e = rem(b, 4);
    let f = quot(b + 8, 25);
    let g = quot(b - f + 1, 3);
    let h = rem(19 * a + b - d - g + 15, 30);
    let i = quot(c, 4);
    let k = rem(c, 4);
    let l = rem(32 + 2 * e + 2 * i - h - k, 7);
    let m = quot(a + 11 * h + 22 * l, 451);
    let n = h + l - 7 * m + 114;
    (quot(n, 31), rem(n, 31) + 1)
}

/// The month of Easter Sunday as `easter_sunday` reports it.
pub open spec fn easter_month(year: int) -> u32 {
    computus(year).0 as u32
}

/// The day of Easter Sunday as `easter_sunday` reports it.
pub open spec fn easter_day(year: int) -> u32 {
    computus(year).1 as u32
}

/// Calculate Easter Sunday for a given year using the Anonymous Gregorian algorithm.
pub fn easter_sunday(year: i32) -> (r: (u32, u32))
    ensures
        r == (easter_month(year as int), easter_day(year as int)),
{
    let a: i32 = trunc_rem(year, 19);
    let b: i32 = trunc_div(year, 100);
    let c: i32 = trunc_rem(year, 100);
    let d: i32 = trunc_div(b, 4);
    let e: i32 = trunc_rem(b, 4);
    let f: i32 = trunc_div(b + 8, 25);
    let g: i32 = trunc_div(b - f + 1, 3);
    let h: i32 = trunc_rem(19 * a + b - d - g + 15, 30);
    let i: i32 = trunc_div(c, 4);
    let k: i32 = trunc_rem(c, 4);
    let l: i32 = trunc_rem(32 + 2 * e + 2 * i - h - k, 7);
    let m: i32 = trunc_div(a + 11 * h + 22 * l, 451);
    let month: i32 = trunc_div(h + l - 7 * m + 114, 31);
    let day: i32 = trunc_rem(h + l - 7 * m + 114, 31) + 1;
    (#[verifier::truncate] (month as u32), #[verifier::truncate] (day as u32))
}

/// The month three calendar months before Easter Sunday of `year`, as
/// (year, month): Easter in January to March moves into the year before.
pub open spec fn invoice_month_of(year: int) -> (int, int) {
    let m = easter_month(year) as int;
    if m <= 3 {
        (year - 1, m + 9)
    } else {
        (year, m - 3)
    }
}

/// Whether (year, month) is the invoice month of some Easter: of the
/// Easter of that year, or of the next one.
pub open spec fn is_invoice_month(year: int, month: int) -> bool {
    invoice_month_of(year) == (year, month) || invoice_month_of(year + 1) == (year, month)
}

/// The Easter regressor's value at position `i` of a window.
pub open spec fn easter_indicator(start_year: int, start_month: int, i: int) -> u8 {
    let (y, m) = window_month(start_year, start_month, i);
    if is_invoice_month(y, m) {
        1
    } else {
        0
    }
}

/// Get the invoice month for Easter (3 months before), as (year, month):
/// when Easter-related orders are placed.
pub fn easter_invoice_month(easter_year: i32) -> (r: (i32, u32))
    requires
        easter_year > i32::MIN,
    ensures
        r.0 as int == invoice_month_of(easter_year as int).0,
        r.1 as int == invoice_month_of(easter_year as int).1,
{
    let (month, _day) = easter_sunday(easter_year);
    if month <= 3 {
        (easter_year - 1, month + 9)
    } else {
        (easter_year, month - 3)
    }
}

/// The Easter whose invoice month is (year, month) is that of `year` or of
/// the year after.
proof fn lemma_invoice_year(easter_year: int, year: int, month: int)
    requires
        invoice_month_of(easter_year) == (year, month),
    ensures
        easter_year == year || easter_year == year + 1,
        is_invoice_month(year, month),
{
}

/// Whether `months` holds (year, month).
fn contains_month(months: &Vec<(i32, u32)>, year: i32, month: u32) -> (r: bool)
    ensures
        r == exists|k: int| 0 <= k < months@.len() && #[trigger] months@[k] == (year, month),
{
    let mut k: usize = 0;
    while k < months.len()
        invariant
            k <= months@.len(),
            forall|j: int| 0 <= j < k ==> #[trigger] months@[j] != (year, month),
        decreases months@.len() - k,
    {
        if months[k].0 == year && months[k].1 == month {
            return true;
        }
        k = k + 1;
    }
    false
}

/// Create the Easter regressor for a monthly window of `length` months
/// starting in `start_month` (1 to 12) of `start_year`: 1 at each invoice
/// month of an Easter, 0 elsewhere.
pub fn create_easter_regressor(start_year: i32, start_month: u32, length: usize) -> (r: Vec<u8>)
    requires
        1 <= start_month <= 12,
        start_year > i32::MIN,
        start_year + length / 12 + 3 <= i32::MAX,
    ensures
        r@.len() == length,
        forall|i: int|
            0 <= i < length ==> #[trigger] r@[i] == easter_indicator(
                start_year as int,
                start_month as int,
                i,
            ),
{
    let end_year: i32 = (start_year as i64 + (length / 12) as i64 + 3) as i32;
    let mut invoices: Vec<(i32, u32)> = Vec::new();
    let mut year: i64 = start_year as i64;
    while year <= end_year as i64
        invariant
            start_year <= year <= end_year + 1,
            end_year == start_year + length / 12 + 3,
            start_year > i32::MIN,
            end_year <= i32::MAX,
            invoices@.len() == year - start_year,
            forall|k: int|
                0 <= k < invoices@.len() ==> (#[trigger] invoices@[k]).0 as int == invoice_month_of(
                    start_year + k,
                ).0 && invoices@[k].1 as int == invoice_month_of(start_year + k).1,
        decreases end_year + 1 - year,
    {
        invoices.push(easter_invoice_month(year as i32));
        year = year + 1;
    }

    let mut regressor: Vec<u8> = Vec::new();
    let mut current_year: i32 = start_year;
    let mut current_month: u32 = start_month;
    let mut i: usize = 0;
    proof {
        assert(window_month(start_year as int, start_month as int, 0) == (
        start_year as int, start_month as int)) by {
            vstd::arithmetic::div_mod::lemma_small_mod((start_month - 1) as nat, 12);
            vstd::arithmetic::div_mod::lemma_basic_div((start_month - 1) as int, 12);
        }
    }
    while i < length
        invariant
            i <= length,
            1 <= start_month <= 12,
            start_year + length / 12 + 3 <= i32::MAX,
            end_year == start_year + length / 12 + 3,
            invoices@.len() == end_year - start_year + 1,
            forall|k: int|
                0 <= k < invoices@.len() ==> (#[trigger] invoices@[k]).0 as int == invoice_month_of(
                    start_year + k,
                ).0 && invoices@[k].1 as int == invoice_month_of(start_year + k).1,
            (current_year as int, current_month as int) == window_month(
                start_year as int,
                start_month as int,
                i as int,
            ),
            regressor@.len() == i,
            forall|j: int|
                0 <= j < i ==> #[trigger] regressor@[j] == easter_indicator(
                    start_year as int,
                    start_month as int,
                    j,
                ),
        decreases length - i,
    {
        proof {
            lemma_window_step(start_year as int, start_month as int, i as int);
            lemma_window_years(start_year as int, start_month as int, i as int, length as int);
            lemma_window_years(start_year as int, start_month as int, i + 1, length as int);
        }
        let hit = contains_month(&invoices, current_year, current_month);
        proof {
            let y = current_year as int;
            let m = current_month as int;
            if hit {
                let k = choose|k: int| 0 <= k < invoices@.len() && #[trigger] invoices@[k] == (
                current_year, current_month);
                lemma_invoice_year(start_year + k, y, m);
            }
            if is_invoice_month(y, m) {
                if invoice_month_of(y) == (y, m) {
                    assert(invoices@[y - start_year] == (current_year, current_month));
                } else {
                    assert(invoices@[y + 1 - start_year] == (current_year, current_month));
                }
            }
        }
        if hit {
            regressor.push(1);
        } else {
            regressor.push(0);
        }
        current_month = current_month + 1;
        if current_month > 12 {
            current_month = 1;
            current_year = current_year + 1;
        }
        i = i + 1;
    }
    regressor
}

/// Whether a series of `series_len` months from `start_month` of
/// `start_year`, followed by `forecast_months` months of forecast, lies in
/// the range of years that the regressors can be built for.
pub open spec fn regressor_window_ok(
    start_year: int,
    start_month: int,
    series_len: int,
    forecast_months: int,
) -> bool {
    &&& 1 <= start_month <= 12
    &&& start_year > i32::MIN
    &&& start_year + series_len / 12 + 3 <= i32::MAX
    &&& series_len < usize::MAX
    &&& window_month(start_year, start_month, series_len + 1).0 + forecast_months / 12 + 3
        <= i32::MAX
}

/// The Easter regressors of a forecast: the one over the series, and the one
/// over the forecast months, which starts where `future_regressor_start`
/// says. `None` when the window does not fit the range of `i32` years or the
/// month is not one of 1 to 12.
pub fn easter_regressors(
    start_year: i32,
    start_month: u32,
    series_len: usize,
    forecast_months: usize,
) -> (r: Option<(Vec<u8>, Vec<u8>)>)
    ensures
        r is Some <==> regressor_window_ok(
            start_year as int,
            start_month as int,
            series_len as int,
            forecast_months as int,
        ),
        r matches Some((past, future)) ==> {
            &&& past@.len() == series_len
            &&& forall|i: int|
                0 <= i < series_len ==> #[trigger] past@[i] == easter_indicator(
                    start_year as int,
                    start_month as int,
                    i,
                )
            &&& future@.len() == forecast_months
            &&& forall|i: int|
                0 <= i < forecast_months ==> #[trigger] future@[i] == easter_indicator(
                    window_month(start_year as int, start_month as int, series_len + 1).0,
                    window_month(start_year as int, start_month as int, series_len + 1).1,
                    i,
                )
        },
{
    if start_month < 1 || start_month > 12 || start_year == i32::MIN || series_len == usize::MAX {
        return None;
    }
    if start_year as i128 + (series_len / 12) as i128 + 3 > i32::MAX as i128 {
        return None;
    }
    proof {
        vstd::arithmetic::div_mod::lemma_fundamental_div_mod(series_len as int, 12);
        vstd::arithmetic::div_mod::lemma_fundamental_div_mod(series_len + 1, 12);
        vstd::arithmetic::div_mod::lemma_mod_bound(series_len as int, 12);
        vstd::arithmetic::div_mod::lemma_mod_bound(series_len + 1, 12);
        lemma_window_years(start_year as int, start_month as int, series_len + 1, series_len + 1);
    }
    let (next_year, next_month) = future_regressor_start(start_year, start_month, series_len);
    if next_year as i128 + (forecast_months / 12) as i128 + 3 > i32::MAX as i128 {
        return None;
    }
    let past = create_easter_regressor(start_year, start_month, series_len);
    let future = create_easter_regressor(next_year, next_month, forecast_months);
    Some((past, future))
}

/// Easter Sunday and its invoice month for one year.
#[derive(Debug, Clone, Copy, PartialEq, Eq, Structural)]
pub struct EasterDate {
    pub year: i32,
    pub easter_month: u32,
    pub easter_day: u32,
    pub invoice_year: i32,
    pub invoice_month: u32,
}

/// Whether `e` is the record of `year`.
pub open spec fn is_easter_date_of(e: EasterDate, year: int) -> bool {
    &&& e.year == year
    &&& e.easter_month == easter_month(year)
    &&& e.easter_day == easter_day(year)
    &&& e.invoice_year as int == invoice_month_of(year).0
    &&& e.invoice_month as int == invoice_month_of(year).1
}

/// Easter dates and invoice months for each year from `start_year` to
/// `end_year`, both included, in order (none when `end_year < start_year`).
pub fn get_easter_dates(start_year: i32, end_year: i32) -> (r: Vec<EasterDate>)
    requires
        start_year > i32::MIN,
    ensures
        r@.len() == (if end_year < start_year {
            0
        } else {
            end_year - start_year + 1
        }),
        forall|i: int| 0 <= i < r@.len() ==> is_easter_date_of(#[trigger] r@[i], start_year + i),
{
    let mut dates: Vec<EasterDate> = Vec::new();
    let mut year: i64 = start_year as i64;
    while year <= end_year as i64
        invariant
            start_year <= year,
            start_year > i32::MIN,
            end_year < start_year ==> year == start_year,
            end_year >= start_year ==> year <= end_year + 1,
            dates@.len() == year - start_year,
            forall|i: int|
                0 <= i < dates@.len() ==> is_easter_date_of(#[trigger] dates@[i], start_year + i),
        decreases end_year + 1 - year,
    {
        let y: i32 = year as i32;
        let (month, day) = easter_sunday(y);
        let (invoice_year, invoice_month) = easter_invoice_month(y);
        dates.push(
            EasterDate {
                year: y,
                easter_month: month,
                easter_day: day,
                invoice_year,
                invoice_month,
            },
        );
        year = year + 1;
    }
    dates
}

/// The Easter regressor marks exactly the invoice months of Easters: at the
/// position whose month is the invoice month of `easter_year` it holds 1, no
/// other position has that month, and every 1 stands at the invoice month of
/// some Easter.
pub proof fn lemma_regressor_marks_invoice_months(
    start_year: int,
    start_month: int,
    length: int,
    easter_year: int,
)
    requires
        1 <= start_month <= 12,
        0 <= length,
    ensures
        forall|i: int|
            0 <= i < length && #[trigger] window_month(start_year, start_month, i)
                == invoice_month_of(easter_year) ==> easter_indicator(start_year, start_month, i)
                == 1,
        forall|i: int, j: int|
            0 <= i < length && 0 <= j < length && #[trigger] window_month(start_year, start_month, i)
                == invoice_month_of(easter_year) && #[trigger] window_month(
                start_year,
                start_month,
                j,
            ) == invoice_month_of(easter_year) ==> i == j,
        forall|i: int|
            0 <= i < length && #[trigger] easter_indicator(start_year, start_month, i) == 1
                ==> exists|e: int| #[trigger]
                invoice_month_of(e) == window_month(start_year, start_month, i),
        forall|i: int|
            0 <= i < length ==> #[trigger] easter_indicator(start_year, start_month, i) == 0
                || easter_indicator(start_year, start_month, i) == 1,
{
    assert forall|i: int|
        0 <= i < length && #[trigger] window_month(start_year, start_month, i) == invoice_month_of(
            easter_year,
        ) implies easter_indicator(start_year, start_month, i) == 1 by {
        let (y, m) = window_month(start_year, start_month, i);
        lemma_invoice_year(easter_year, y, m);
    }
    assert forall|i: int, j: int|
        0 <= i < length && 0 <= j < length && #[trigger] window_month(start_year, start_month, i)
            == invoice_month_of(easter_year) && #[trigger] window_month(start_year, start_month, j)
            == invoice_month_of(easter_year) implies i == j by {
        lemma_window_injective(start_year, start_month, i, j);
    }
    assert forall|i: int|
        0 <= i < length && #[trigger] easter_indicator(start_year, start_month, i)
            == 1 implies exists|e: int| #[trigger]
        invoice_month_of(e) == window_month(start_year, start_month, i) by {
        let (y, m) = window_month(start_year, start_month, i);
        if invoice_month_of(y) == (y, m) {
            assert(invoice_month_of(y) == window_month(start_year, start_month, i));
        } else {
            assert(invoice_month_of(y + 1) == window_month(start_year, start_month, i));
        }
    }
}

} // verus!
