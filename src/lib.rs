//! Compares the coverage summaries of two Cobertura XML reports and decides
//! whether coverage dropped by more than a tolerance.
pub mod rate;
pub mod text;
pub mod coverage;
pub mod events;
pub mod extract;
pub mod compare;

pub use compare::{compare, compare_found};
pub use coverage::{compare_coverage, Coverage};
pub use extract::{coverage_of_events, extract, RateError};
pub use rate::{parse_rate, MILLI, SCALE};
