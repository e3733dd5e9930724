use blizzard_wasm::easter::{
    create_easter_regressor, easter_invoice_month, easter_regressors, easter_sunday,
    get_easter_dates,
};

#[test]
fn test_easter_dates() {
    // Known Easter dates from published sources
    assert_eq!(easter_sunday(2019), (4, 21));
    assert_eq!(easter_sunday(2020), (4, 12));
    assert_eq!(easter_sunday(2021), (4, 4));
    assert_eq!(easter_sunday(2022), (4, 17));
    assert_eq!(easter_sunday(2023), (4, 9));
    assert_eq!(easter_sunday(2024), (3, 31));
    assert_eq!(easter_sunday(2025), (4, 20));
    assert_eq!(easter_sunday(2026), (4, 5));
    assert_eq!(easter_sunday(2027), (3, 28));
}

#[test]
fn test_easter_invoice_months() {
    // Easter 2024 is March 31 → invoice month is December 2023
    assert_eq!(easter_invoice_month(2024), (2023, 12));
    // Easter 2025 is April 20 → invoice month is January 2025
    assert_eq!(easter_invoice_month(2025), (2025, 1));
    // Easter 2026 is April 5 → invoice month is January 2026
    assert_eq!(easter_invoice_month(2026), (2026, 1));
}

#[test]
fn test_easter_regressor() {
    // 24 months starting Jan 2024
    let regressor = create_easter_regressor(2024, 1, 24);
    // Easter 2025 (Apr 20) → invoice Jan 2025 → position 12
    assert_eq!(regressor[12], 1);
    // Jul 2024
    assert_eq!(regressor[6], 0);
}

#[test]
fn test_get_easter_dates() {
    let result = get_easter_dates(2024, 2026);
    assert!(result.iter().any(|d| d.year == 2024));
    assert!(result.iter().any(|d| d.year == 2025));
    assert!(result.iter().any(|d| d.year == 2026));
}

#[test]
fn easter_dates_records_match_calendar() {
    let result = get_easter_dates(2024, 2026);
    assert_eq!(result.len(), 3);
    assert_eq!(result[0].year, 2024);
    assert_eq!((result[0].easter_month, result[0].easter_day), (3, 31));
    assert_eq!((result[0].invoice_year, result[0].invoice_month), (2023, 12));
    assert_eq!(result[1].year, 2025);
    assert_eq!((result[1].easter_month, result[1].easter_day), (4, 20));
    assert_eq!((result[1].invoice_year, result[1].invoice_month), (2025, 1));
    assert_eq!(result[2].year, 2026);
    assert_eq!((result[2].easter_month, result[2].easter_day), (4, 5));
    assert_eq!((result[2].invoice_year, result[2].invoice_month), (2026, 1));
}

#[test]
fn easter_dates_empty_range() {
    assert!(get_easter_dates(2026, 2024).is_empty());
    assert_eq!(get_easter_dates(2024, 2024).len(), 1);
}

#[test]
fn easter_sunday_far_years() {
    assert_eq!(easter_sunday(1818), (3, 22));
    assert_eq!(easter_sunday(2038), (4, 25));
    assert_eq!(easter_sunday(2000), (4, 23));
    // total on every year, without a panic
    let _ = easter_sunday(i32::MIN);
    let _ = easter_sunday(i32::MAX);
}

#[test]
fn invoice_month_after_march() {
    // Easter 2019 is April 21 → January 2019
    assert_eq!(easter_invoice_month(2019), (2019, 1));
    // Easter 2038 is April 25 → January 2038
    assert_eq!(easter_invoice_month(2038), (2038, 1));
    // Easter 2027 is March 28 → December 2026
    assert_eq!(easter_invoice_month(2027), (2026, 12));
}

#[test]
fn regressor_window_around_new_year() {
    let regressor = create_easter_regressor(2024, 1, 24);
    assert_eq!(regressor.len(), 24);
    // Dec 2024, Jan 2025, Feb 2025
    assert_eq!(regressor[11], 0);
    assert_eq!(regressor[12], 1);
    assert_eq!(regressor[13], 0);
    // Dec 2023 and Jan 2026 lie outside the window: Jan 2025 is the only mark
    let total: u32 = regressor.iter().map(|&v| v as u32).sum();
    assert_eq!(total, 1);
}

#[test]
fn regressor_marks_each_invoice_month_once() {
    // Jan 2019 .. Dec 2027
    let regressor = create_easter_regressor(2019, 1, 108);
    let marked: Vec<usize> = (0..regressor.len()).filter(|&i| regressor[i] == 1).collect();
    // Jan 2019, Jan 2020 (Apr 12), Jan 2021 (Apr 4), Jan 2022 (Apr 17),
    // Jan 2023 (Apr 9), Dec 2023 (Mar 31, 2024), Jan 2025, Jan 2026, Dec 2026 (Mar 28, 2027)
    assert_eq!(marked, vec![0, 12, 24, 36, 48, 59, 72, 84, 95]);
    for &v in &regressor {
        assert!(v == 0 || v == 1);
    }
}

#[test]
fn regressor_starting_mid_year() {
    // Nov 2024 .. Feb 2025
    let regressor = create_easter_regressor(2024, 11, 4);
    assert_eq!(regressor, vec![0, 0, 1, 0]);
}

#[test]
fn regressor_empty_window() {
    assert!(create_easter_regressor(2024, 1, 0).is_empty());
}

#[test]
fn regressors_of_a_forecast() {
    // 24 months from Jan 2024; the forecast regressor starts in Feb 2026
    let (past, future) = easter_regressors(2024, 1, 24, 12).unwrap();
    assert_eq!(past, create_easter_regressor(2024, 1, 24));
    assert_eq!(future, create_easter_regressor(2026, 2, 12));
    // Dec 2026 is the invoice month of Easter 2027 (Mar 28)
    assert_eq!(future[10], 1);
    assert_eq!(future.iter().filter(|&&v| v == 1).count(), 1);
}

#[test]
fn regressors_refuse_bad_windows() {
    assert!(easter_regressors(2024, 0, 24, 12).is_none());
    assert!(easter_regressors(2024, 13, 24, 12).is_none());
    assert!(easter_regressors(i32::MIN, 1, 24, 12).is_none());
    assert!(easter_regressors(i32::MAX - 3, 1, 24, 12).is_none());
    // the series fits; the forecast regressor from Feb of year MAX - 3 does not
    assert!(easter_regressors(i32::MAX - 5, 1, 24, 12).is_none());
    // from Feb of year MAX - 4 it just fits
    assert!(easter_regressors(i32::MAX - 6, 1, 24, 12).is_some());
}
