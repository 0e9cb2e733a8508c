//! General facts about the calculator, stated over the same specification
//! functions that its contract uses.

use vstd::prelude::*;
use vstd::arithmetic::div_mod::lemma_div_pos_is_pos;
use crate::calculator::{elapsed_nanos, pay_denom, spec_compute_parts, total_shift_minutes};
use crate::clock::{
    is_night_sec, lemma_night_minutes_all, lemma_night_minutes_bounds, lemma_night_minutes_none,
    night_minutes, shift_minute,
};
use crate::rounding::{
    lemma_pow10_positive, lemma_round_half_even_add, lemma_round_half_even_zero,
};
use crate::types::{CalcError, ComputationResult, ResultModel};
use crate::calculator::{result_model, spec_payroll};
use crate::batch::spec_batch_upto;

verus! {

/// The elapsed whole minutes of an accepted shift are never negative.
proof fn lemma_minutes_nonneg(start_secs: int, start_nanos: int, end_secs: int, end_nanos: int)
    requires
        elapsed_nanos(start_secs, start_nanos, end_secs, end_nanos) > 0,
    ensures
        total_shift_minutes(start_secs, start_nanos, end_secs, end_nanos) >= 0,
{
    lemma_div_pos_is_pos(elapsed_nanos(start_secs, start_nanos, end_secs, end_nanos), 60000000000);
}

/// The pay denominator is positive.
proof fn lemma_pay_denom_pos(scale: int)
    ensures
        pay_denom(scale) > 0,
{
    lemma_pow10_positive(scale);
}

/// A shift whose every minute lies outside the night window earns zero
/// night-differential hours and zero night-differential pay.
pub proof fn lemma_day_shift_earns_no_night_pay(
    id: Seq<char>,
    start_secs: int,
    start_nanos: int,
    end_secs: int,
    end_nanos: int,
    offset_secs: int,
    local_start: int,
    m: int,
    scale: int,
)
    requires
        local_start == start_secs + offset_secs,
        spec_compute_parts(id, start_secs, start_nanos, end_secs, end_nanos, offset_secs, m, scale) is Ok,
        forall|k: int|
            0 <= k < total_shift_minutes(start_secs, start_nanos, end_secs, end_nanos) ==> !is_night_sec(
                shift_minute(local_start, k),
            ),
    ensures
        spec_compute_parts(id, start_secs, start_nanos, end_secs, end_nanos, offset_secs, m, scale)->Ok_0.night_diff_hours
            == 0,
        spec_compute_parts(id, start_secs, start_nanos, end_secs, end_nanos, offset_secs, m, scale)->Ok_0.night_diff_pay
            == 0,
{
    let tm = total_shift_minutes(start_secs, start_nanos, end_secs, end_nanos);
    lemma_minutes_nonneg(start_secs, start_nanos, end_secs, end_nanos);
    lemma_night_minutes_none(start_secs + offset_secs, tm);
    lemma_round_half_even_zero(60);
    lemma_pay_denom_pos(scale);
    lemma_round_half_even_zero(pay_denom(scale));
    let nd = night_minutes(start_secs + offset_secs, tm);
    assert(100 * nd == 0);
    assert(1100 * nd * m == 0) by (nonlinear_arith)
        requires
            nd == 0,
    ;
}

/// A shift that lies entirely inside the night window has no regular hours
/// and no regular pay, and its total pay is exactly its night-differential
/// pay.
pub proof fn lemma_night_shift_is_all_premium(
    id: Seq<char>,
    start_secs: int,
    start_nanos: int,
    end_secs: int,
    end_nanos: int,
    offset_secs: int,
    local_start: int,
    m: int,
    scale: int,
)
    requires
        local_start == start_secs + offset_secs,
        spec_compute_parts(id, start_secs, start_nanos, end_secs, end_nanos, offset_secs, m, scale) is Ok,
        forall|k: int|
            0 <= k < total_shift_minutes(start_secs, start_nanos, end_secs, end_nanos) ==> is_night_sec(
                shift_minute(local_start, k),
            ),
    ensures
        spec_compute_parts(id, start_secs, start_nanos, end_secs, end_nanos, offset_secs, m, scale)->Ok_0.regular_hours
            == 0,
        spec_compute_parts(id, start_secs, start_nanos, end_secs, end_nanos, offset_secs, m, scale)->Ok_0.regular_pay == 0,
        spec_compute_parts(id, start_secs, start_nanos, end_secs, end_nanos, offset_secs, m, scale)->Ok_0.total_pay
            == spec_compute_parts(
            id,
            start_secs,
            start_nanos,
            end_secs,
            end_nanos,
            offset_secs,
            m,
            scale,
        )->Ok_0.night_diff_pay,
{
    let tm = total_shift_minutes(start_secs, start_nanos, end_secs, end_nanos);
    lemma_minutes_nonneg(start_secs, start_nanos, end_secs, end_nanos);
    lemma_night_minutes_all(start_secs + offset_secs, tm);
    let nd = night_minutes(start_secs + offset_secs, tm);
    lemma_round_half_even_zero(60);
    lemma_pay_denom_pos(scale);
    lemma_round_half_even_zero(pay_denom(scale));
    assert(100 * (tm - nd) == 0);
    assert(1000 * (tm - nd) * m == 0) by (nonlinear_arith)
        requires
            tm == nd,
    ;
    assert(1000 * (tm - nd) * m + 1100 * nd * m == 1100 * nd * m);
}

/// For every accepted shift, the total hours equal the regular plus the
/// night-differential hours up to one hundredth, the single rounding step
/// each field takes.
pub proof fn lemma_hours_reconcile(
    id: Seq<char>,
    start_secs: int,
    start_nanos: int,
    end_secs: int,
    end_nanos: int,
    offset_secs: int,
    m: int,
    scale: int,
)
    requires
        spec_compute_parts(id, start_secs, start_nanos, end_secs, end_nanos, offset_secs, m, scale) is Ok,
    ensures
        ({
            let r = spec_compute_parts(id, start_secs, start_nanos, end_secs, end_nanos, offset_secs, m, scale)->Ok_0;
            -1 <= r.total_hours - (r.regular_hours + r.night_diff_hours) <= 1
        }),
{
    let tm = total_shift_minutes(start_secs, start_nanos, end_secs, end_nanos);
    lemma_minutes_nonneg(start_secs, start_nanos, end_secs, end_nanos);
    let nd = night_minutes(start_secs + offset_secs, tm);
    lemma_night_minutes_bounds(start_secs + offset_secs, tm);
    lemma_round_half_even_add(100 * (tm - nd), 100 * nd, 60);
    assert(100 * (tm - nd) + 100 * nd == 100 * tm);
}

/// For every accepted shift, the total pay equals the regular plus the
/// night-differential pay up to one hundredth, the single rounding step each
/// field takes.
pub proof fn lemma_pay_reconciles(
    id: Seq<char>,
    start_secs: int,
    start_nanos: int,
    end_secs: int,
    end_nanos: int,
    offset_secs: int,
    m: int,
    scale: int,
)
    requires
        spec_compute_parts(id, start_secs, start_nanos, end_secs, end_nanos, offset_secs, m, scale) is Ok,
    ensures
        ({
            let r = spec_compute_parts(id, start_secs, start_nanos, end_secs, end_nanos, offset_secs, m, scale)->Ok_0;
            -1 <= r.total_pay - (r.regular_pay + r.night_diff_pay) <= 1
        }),
{
    let tm = total_shift_minutes(start_secs, start_nanos, end_secs, end_nanos);
    lemma_minutes_nonneg(start_secs, start_nanos, end_secs, end_nanos);
    let nd = night_minutes(start_secs + offset_secs, tm);
    lemma_pay_denom_pos(scale);
    lemma_round_half_even_add(1000 * (tm - nd) * m, 1100 * nd * m, pay_denom(scale));
}

/// The calculator is a function of its input: two results that both meet
/// its contract on the same record are the same breakdown.
pub proof fn lemma_calculator_deterministic(
    r1: Result<ComputationResult, CalcError>,
    r2: Result<ComputationResult, CalcError>,
    id: Seq<char>,
    start_raw: Seq<char>,
    end_raw: Seq<char>,
    m: int,
    scale: int,
)
    requires
        result_model(r1) == spec_payroll(id, start_raw, end_raw, m, scale),
        result_model(r2) == spec_payroll(id, start_raw, end_raw, m, scale),
    ensures
        result_model(r1) == result_model(r2),
{
}

/// In every batch summary the processed count is the number of detail rows,
/// and a row contributes to the details or to the error list, never both.
pub proof fn lemma_batch_counts(
    rows: Seq<Seq<Seq<char>>>,
    header_len: int,
    c_emp: Option<int>,
    c_start: Option<int>,
    c_end: Option<int>,
    c_rate: Option<int>,
    j: int,
)
    ensures
        spec_batch_upto(rows, header_len, c_emp, c_start, c_end, c_rate, j).processed_count
            == spec_batch_upto(rows, header_len, c_emp, c_start, c_end, c_rate, j).details.len(),
        spec_batch_upto(rows, header_len, c_emp, c_start, c_end, c_rate, j).processed_count
            + spec_batch_upto(rows, header_len, c_emp, c_start, c_end, c_rate, j).errors.len() == if j
            <= 1 {
            0
        } else {
            j - 1
        },
    decreases j,
{
    if j > 1 {
        lemma_batch_counts(rows, header_len, c_emp, c_start, c_end, c_rate, j - 1);
    }
}

/// An end instant at or before the start instant is always rejected as an
/// inverted range, whatever the other inputs.
pub proof fn lemma_inverted_range_rejected(
    id: Seq<char>,
    start_secs: int,
    start_nanos: int,
    end_secs: int,
    end_nanos: int,
    offset_secs: int,
    m: int,
    scale: int,
)
    requires
        elapsed_nanos(start_secs, start_nanos, end_secs, end_nanos) <= 0,
    ensures
        spec_compute_parts(id, start_secs, start_nanos, end_secs, end_nanos, offset_secs, m, scale)
            == Err::<ResultModel, CalcError>(CalcError::InvalidRange),
{
}

} // verus!
