//! Checks on a forecast request before the model runs.

use vstd::prelude::*;

verus! {

/// Why a forecast request is turned down.
#[derive(Debug, Clone, Copy, PartialEq, Eq, Structural)]
pub enum ForecastError {
    /// The series is shorter than p + d + q + seasonal_period.
    SeriesTooShort,
}

impl ForecastError {
    /// The message reported for this error.
    pub fn message(&self) -> (r: String)
        ensures
            r@ == "Series too short for specified ARIMA parameters"@,
    {
        match self {
            ForecastError::SeriesTooShort => "Series too short for specified ARIMA parameters".to_string(),
        }
    }
}

/// The fewest observations a model of orders (p, d, q) with the given
/// seasonal period accepts.
pub open spec fn min_series_len(p: int, d: int, q: int, seasonal_period: int) -> int {
    p + d + q + seasonal_period
}

/// Accept a series of `series_len` observations for a model of orders
/// (p, d, q) and the given seasonal period, or turn it down as too short.
pub fn validate_series_length(
    series_len: usize,
    p: usize,
    d: usize,
    q: usize,
    seasonal_period: usize,
) -> (r: Result<(), ForecastError>)
    ensures
        r is Ok <==> series_len >= min_series_len(p as int, d as int, q as int, seasonal_period as int),
        r is Err ==> r == Err::<(), ForecastError>(ForecastError::SeriesTooShort),
{
    let needed: u128 = p as u128 + d as u128 + q as u128 + seasonal_period as u128;
    if (series_len as u128) < needed {
        Err(ForecastError::SeriesTooShort)
    } else {
        Ok(())
    }
}

} // verus!
