//! The shift record that the calculator consumes, the itemized pay breakdown
//! it produces, and the aggregate of one batch run.
//!
//! Every monetary and hour quantity is an exact fixed-point decimal. A
//! [`DecimalValue`] carries an integer mantissa and a power-of-ten scale; the
//! breakdown's fields are integers denominated in hundredths (two fractional
//! digits), the precision at which results are reported.

use vstd::prelude::*;

verus! {

/// An exact decimal number: the value `mantissa / 10^scale`.
#[derive(Clone, Copy, Debug, PartialEq, Eq, Structural)]
pub struct DecimalValue {
    pub mantissa: i128,
    pub scale: u32,
}

/// A decimal representation kept within 96 mantissa bits and 28 fractional
/// digits, the range that decimal currency libraries conventionally carry.
pub open spec fn decimal_wf(mantissa: int, scale: int) -> bool {
    0 <= scale <= 28 && -0x1000000000000000000000000 < mantissa < 0x1000000000000000000000000
}

impl DecimalValue {
    pub open spec fn wf(self) -> bool {
        decimal_wf(self.mantissa as int, self.scale as int)
    }
}

/// One employee shift: an opaque employee identifier, start and end instants
/// as RFC 3339 timestamps with explicit offset, and the daily pay rate.
#[derive(Clone, Debug)]
pub struct TimeLog {
    pub employee_id: String,
    pub shift_start: String,
    pub shift_end: String,
    pub daily_rate: DecimalValue,
}

/// The itemized result of one shift computation. All quantities are in
/// hundredths: hours fields count hundredths of an hour, pay fields count
/// hundredths of a currency unit.
#[derive(Clone, Debug)]
pub struct ComputationResult {
    pub employee_id: String,
    pub total_hours: i64,
    pub regular_hours: i64,
    pub night_diff_hours: i64,
    pub regular_pay: i64,
    pub night_diff_pay: i64,
    pub total_pay: i64,
}

/// The mathematical image of a [`ComputationResult`].
pub ghost struct ResultModel {
    pub employee_id: Seq<char>,
    pub total_hours: int,
    pub regular_hours: int,
    pub night_diff_hours: int,
    pub regular_pay: int,
    pub night_diff_pay: int,
    pub total_pay: int,
}

impl View for ComputationResult {
    type V = ResultModel;

    open spec fn view(&self) -> ResultModel {
        ResultModel {
            employee_id: self.employee_id@,
            total_hours: self.total_hours as int,
            regular_hours: self.regular_hours as int,
            night_diff_hours: self.night_diff_hours as int,
            regular_pay: self.regular_pay as int,
            night_diff_pay: self.night_diff_pay as int,
            total_pay: self.total_pay as int,
        }
    }
}

impl PartialEq for ComputationResult {
    fn eq(&self, other: &ComputationResult) -> (r: bool) {
        self.employee_id == other.employee_id && self.total_hours == other.total_hours
            && self.regular_hours == other.regular_hours && self.night_diff_hours
            == other.night_diff_hours && self.regular_pay == other.regular_pay
            && self.night_diff_pay == other.night_diff_pay && self.total_pay == other.total_pay
    }
}

impl vstd::std_specs::cmp::PartialEqSpecImpl for ComputationResult {
    open spec fn obeys_eq_spec() -> bool {
        true
    }

    open spec fn eq_spec(&self, other: &ComputationResult) -> bool {
        self@ == other@
    }
}

/// Why one shift could not be computed.
#[derive(Clone, Copy, Debug, PartialEq, Eq, Structural)]
pub enum CalcError {
    /// The start timestamp is not a valid offset-carrying RFC 3339 instant.
    InvalidStartTimeFormat,
    /// The end timestamp is not a valid offset-carrying RFC 3339 instant.
    InvalidEndTimeFormat,
    /// The end instant is not strictly after the start instant.
    InvalidRange,
    /// The rate or the pay amounts fall outside the representable fixed-point
    /// range.
    AmountOutOfRange,
}

impl CalcError {
    /// The reason as display-ready text.
    pub open spec fn spec_message(self) -> Seq<char> {
        match self {
            CalcError::InvalidStartTimeFormat => "Invalid start time format"@,
            CalcError::InvalidEndTimeFormat => "Invalid end time format"@,
            CalcError::InvalidRange => "End time must be after start time"@,
            CalcError::AmountOutOfRange => "Amount out of representable range"@,
        }
    }

    pub fn message(&self) -> (m: &'static str)
        ensures
            m@ == self.spec_message(),
    {
        match self {
            CalcError::InvalidStartTimeFormat => "Invalid start time format",
            CalcError::InvalidEndTimeFormat => "Invalid end time format",
            CalcError::InvalidRange => "End time must be after start time",
            CalcError::AmountOutOfRange => "Amount out of representable range",
        }
    }
}

/// The aggregate of one batch run: every successful breakdown in input order,
/// one message per failed row, and the cost of the successes in hundredths.
#[derive(Clone, Debug)]
pub struct BatchSummary {
    pub processed_count: usize,
    pub total_payroll_cost: i128,
    pub errors: Vec<String>,
    pub details: Vec<ComputationResult>,
}

/// A sequence of computation results seen through their mathematical
/// images.
pub open spec fn results_model(v: Seq<ComputationResult>) -> Seq<ResultModel> {
    v.map_values(|c: ComputationResult| c@)
}

/// A sequence of owned strings seen as sequences of characters.
pub open spec fn strings_model(v: Seq<String>) -> Seq<Seq<char>> {
    v.map_values(|s: String| s@)
}

/// The mathematical image of a [`BatchSummary`].
pub ghost struct BatchModel {
    pub processed_count: int,
    pub total_payroll_cost: int,
    pub errors: Seq<Seq<char>>,
    pub details: Seq<ResultModel>,
}

impl View for BatchSummary {
    type V = BatchModel;

    open spec fn view(&self) -> BatchModel {
        BatchModel {
            processed_count: self.processed_count as int,
            total_payroll_cost: self.total_payroll_cost as int,
            errors: strings_model(self.errors@),
            details: results_model(self.details@),
        }
    }
}

} // verus!
