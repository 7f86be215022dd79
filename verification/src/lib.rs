//! KPSS (Kwiatkowski-Phillips-Schmidt-Shin) stationarity test: the option
//! parsing, input checks, lag selection, critical-value table and
//! trend-regression moments, with their contracts.

pub mod error;
pub mod lags;
pub mod options;
pub mod table;
pub mod trend;
