//! Payroll engine for single work shifts: each shift (start instant, end
//! instant, daily rate) is broken down into regular and night-differential
//! hours and pay, in exact fixed-point arithmetic, and a batch driver applies
//! the same computation to every row of a comma-separated table.

pub mod batch;
pub mod calculator;
pub mod clock;
pub mod laws;
pub mod parse;
pub mod rounding;
pub mod types;

pub use batch::process_csv_text;
pub use calculator::{compute_from_parts, compute_payroll};
pub use types::{BatchSummary, CalcError, ComputationResult, DecimalValue, TimeLog};
