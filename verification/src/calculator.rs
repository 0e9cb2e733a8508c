//! The shift calculator: one shift record in, one itemized pay breakdown out.
//!
//! The elapsed time is taken in whole minutes, every minute is classified
//! against the night window by its local wall-clock hour, and pay is derived
//! from the daily rate with an eight-hour divisor, the night minutes earning
//! a ten percent premium. All quantities are exact rationals until the final
//! rounding to hundredths.

use vstd::prelude::*;
use vstd::arithmetic::div_mod::{lemma_fundamental_div_mod, lemma_mod_division_less_than_divisor};
use vstd::math::abs;
use crate::clock::{count_night_minutes, night_minutes};
use crate::parse::{parse_rfc3339, rfc3339_instant};
use crate::rounding::{
    div_round_half_even, lemma_pow10_bounded, lemma_pow10_positive, lemma_round_half_even_close,
    lemma_round_half_even_part_bound, pow10, pow10_i128, round_half_even,
};
use crate::types::{decimal_wf, CalcError, ComputationResult, DecimalValue, ResultModel, TimeLog};

verus! {

/// Largest magnitude (exclusive) a decimal mantissa may take: `2^96`.
pub const MANTISSA_LIMIT: i128 = 0x1000000000000000000000000;

/// Largest magnitude (exclusive) accepted for a pay amount, in hundredths.
pub const PAY_LIMIT: i128 = 1000000000000000000;

/// The exact nanoseconds elapsed between two instants, each given as whole
/// seconds plus nanoseconds past that second.
pub open spec fn elapsed_nanos(start_secs: int, start_nanos: int, end_secs: int, end_nanos: int) -> int {
    (end_secs - start_secs) * 1000000000 + (end_nanos - start_nanos)
}

/// The whole minutes elapsed between two instants; the fraction beyond a
/// full minute is not tracked.
pub open spec fn total_shift_minutes(start_secs: int, start_nanos: int, end_secs: int, end_nanos: int) -> int {
    elapsed_nanos(start_secs, start_nanos, end_secs, end_nanos) / 60000000000
}

/// Common denominator of the pay quantities: hours are minutes over 60, the
/// hourly rate is the daily rate over 8, the premium is a further factor of
/// 11 over 10, and hundredths ask for a factor of 100; `60 * 8 * 10 / 100`
/// leaves `4800 / 100 * 10 = 4800` over `10^scale` once every numerator
/// carries the matching factors.
pub open spec fn pay_denom(scale: int) -> int {
    4800 * pow10(scale)
}

/// Pay for the regular minutes in hundredths: `rm/60 * (m/10^s)/8`, i.e.
/// `1000 * rm * m` over `4800 * 10^s` once scaled by 100.
pub open spec fn regular_pay_cents(m: int, scale: int, rm: int) -> int {
    round_half_even(1000 * rm * m, pay_denom(scale))
}

/// Pay for the night minutes in hundredths, premium included:
/// `nd/60 * (m/10^s)/8 * 11/10`.
pub open spec fn night_pay_cents(m: int, scale: int, nd: int) -> int {
    round_half_even(1100 * nd * m, pay_denom(scale))
}

/// Total pay in hundredths: the exact sum of the two pay rationals, rounded
/// once.
pub open spec fn total_pay_cents(m: int, scale: int, rm: int, nd: int) -> int {
    round_half_even(1000 * rm * m + 1100 * nd * m, pay_denom(scale))
}

/// A count of minutes expressed in hundredths of an hour.
pub open spec fn hours_cents(minutes: int) -> int {
    round_half_even(100 * minutes, 60)
}

/// Whether the fixed-point machine arithmetic can carry this rate over this
/// many minutes.
pub open spec fn fits_limits(m: int, tm: int) -> bool {
    110000 * tm * abs(m) <= i128::MAX
}

/// Whether the shift's amounts stay inside the accepted range: the working
/// products fit the machine and the total pay stays under [`PAY_LIMIT`]
/// hundredths.
pub open spec fn result_in_range(m: int, scale: int, tm: int, nd: int) -> bool {
    fits_limits(m, tm) && -PAY_LIMIT < total_pay_cents(m, scale, tm - nd, nd) < PAY_LIMIT
}

/// The breakdown owed for a shift given as parsed parts: instants in seconds
/// since the epoch, the start's offset from UTC in seconds, and the daily
/// rate `m / 10^scale`.
pub open spec fn spec_compute_parts(
    id: Seq<char>,
    start_secs: int,
    start_nanos: int,
    end_secs: int,
    end_nanos: int,
    offset_secs: int,
    m: int,
    scale: int,
) -> Result<ResultModel, CalcError> {
    if elapsed_nanos(start_secs, start_nanos, end_secs, end_nanos) <= 0 {
        Err(CalcError::InvalidRange)
    } else {
        let tm = total_shift_minutes(start_secs, start_nanos, end_secs, end_nanos);
        let nd = night_minutes(start_secs + offset_secs, tm);
        if !(decimal_wf(m, scale) && result_in_range(m, scale, tm, nd)) {
            Err(CalcError::AmountOutOfRange)
        } else {
            Ok(
                ResultModel {
                    employee_id: id,
                    total_hours: hours_cents(tm),
                    regular_hours: hours_cents(tm - nd),
                    night_diff_hours: hours_cents(nd),
                    regular_pay: regular_pay_cents(m, scale, tm - nd),
                    night_diff_pay: night_pay_cents(m, scale, nd),
                    total_pay: total_pay_cents(m, scale, tm - nd, nd),
                },
            )
        }
    }
}

/// The breakdown owed for a raw shift record: both timestamps must parse,
/// the end must lie strictly after the start, and the amounts must stay in
/// range; each failure is reported as its own error, in that order.
pub open spec fn spec_payroll(
    id: Seq<char>,
    start_raw: Seq<char>,
    end_raw: Seq<char>,
    m: int,
    scale: int,
) -> Result<ResultModel, CalcError> {
    match rfc3339_instant(start_raw) {
        Option::None => Err(CalcError::InvalidStartTimeFormat),
        Option::Some((start_secs, start_nanos, offset_secs)) => match rfc3339_instant(end_raw) {
            Option::None => Err(CalcError::InvalidEndTimeFormat),
            Option::Some((end_secs, end_nanos, _end_offset)) => spec_compute_parts(
                id,
                start_secs,
                start_nanos,
                end_secs,
                end_nanos,
                offset_secs,
                m,
                scale,
            ),
        },
    }
}

/// A computed result seen through its mathematical image.
pub open spec fn result_model(r: Result<ComputationResult, CalcError>) -> Result<
    ResultModel,
    CalcError,
> {
    match r {
        Ok(c) => Ok(c@),
        Err(e) => Err(e),
    }
}

/// `a * b <= cap` exactly when `a` is at most the integer quotient
/// `cap / b`, for a non-negative `a` and positive `b`.
proof fn lemma_mul_le_iff_div(a: int, b: int, cap: int)
    requires
        a >= 0,
        b > 0,
        cap >= 0,
    ensures
        a * b <= cap <==> a <= cap / b,
{
    lemma_fundamental_div_mod(cap, b);
    lemma_mod_division_less_than_divisor(cap, b);
    assert(a * b <= cap <==> a <= cap / b) by (nonlinear_arith)
        requires
            a >= 0,
            b > 0,
            cap == b * (cap / b) + cap % b,
            0 <= cap % b < b,
    ;
}

/// Computes the breakdown from already-parsed parts. The whole behaviour,
/// including each rejection, is the one stated by [`spec_compute_parts`].
pub fn compute_from_parts(
    employee_id: String,
    start_secs: i64,
    start_nanos: u32,
    end_secs: i64,
    end_nanos: u32,
    offset_secs: i32,
    rate: DecimalValue,
) -> (r: Result<ComputationResult, CalcError>)
    requires
        start_nanos < 2000000000,
        end_nanos < 2000000000,
    ensures
        result_model(r) == spec_compute_parts(
            employee_id@,
            start_secs as int,
            start_nanos as int,
            end_secs as int,
            end_nanos as int,
            offset_secs as int,
            rate.mantissa as int,
            rate.scale as int,
        ),
{
    let start_i: i128 = start_secs as i128;
    let end_i: i128 = end_secs as i128;
    let diff: i128 = (end_i - start_i) * 1000000000 + ((end_nanos as i128) - (start_nanos as i128));
    if diff <= 0 {
        return Err(CalcError::InvalidRange);
    }
    let tm: i128 = ((diff as u128) / 60000000000) as i128;
    proof {
        assert(tm == total_shift_minutes(
            start_secs as int,
            start_nanos as int,
            end_secs as int,
            end_nanos as int,
        ));
        assert(60000000000 * tm <= diff && 0 <= tm && tm <= 0x800000000000000) by {
            lemma_fundamental_div_mod(diff as int, 60000000000);
            lemma_mod_division_less_than_divisor(diff as int, 60000000000);
        }
    }
    if !(rate.scale <= 28 && -MANTISSA_LIMIT < rate.mantissa && rate.mantissa < MANTISSA_LIMIT) {
        return Err(CalcError::AmountOutOfRange);
    }
    let m: i128 = rate.mantissa;
    let m_abs: i128 = if m < 0 {
        -m
    } else {
        m
    };
    let ls0: i128 = start_i + (offset_secs as i128);
    let nd: i128 = count_night_minutes(ls0, tm);
    let rm: i128 = tm - nd;
    let fits: bool = if m_abs == 0 {
        true
    } else {
        let lhs: u128 = 110000u128 * (tm as u128);
        proof {
            lemma_mul_le_iff_div(110000 * tm, m_abs as int, i128::MAX as int);
        }
        lhs <= (0x7fffffffffffffffffffffffffffffffu128) / (m_abs as u128)
    };
    proof {
        if m_abs == 0 {
            assert(110000 * tm * abs(m as int) == 0) by (nonlinear_arith)
                requires
                    m == 0,
                    abs(m as int) == 0,
            ;
        }
        assert(fits == fits_limits(m as int, tm as int));
    }
    if !fits {
        return Err(CalcError::AmountOutOfRange);
    }
    proof {
        lemma_pow10_bounded(rate.scale as int);
    }
    let denom: i128 = 4800 * pow10_i128(rate.scale);
    proof {
        lemma_numerators_fit(m as int, m_abs as int, tm as int, nd as int, rm as int);
    }
    let p_reg: i128 = 1000 * rm * m;
    let p_nd: i128 = 1100 * nd * m;
    let p_tot: i128 = p_reg + p_nd;
    let th: i128 = div_round_half_even(100 * tm, 60);
    let nh: i128 = div_round_half_even(100 * nd, 60);
    let rh: i128 = div_round_half_even(100 * rm, 60);
    let rp: i128 = div_round_half_even(p_reg, denom);
    let np: i128 = div_round_half_even(p_nd, denom);
    let tp: i128 = div_round_half_even(p_tot, denom);
    if tp >= PAY_LIMIT || tp <= -PAY_LIMIT {
        return Err(CalcError::AmountOutOfRange);
    }
    proof {
        lemma_hours_cents_small(tm as int);
        lemma_hours_cents_small(nd as int);
        lemma_hours_cents_small(rm as int);
        assert((p_reg as int) * (p_nd as int) >= 0) by (nonlinear_arith)
            requires
                p_reg == 1000 * (rm as int) * (m as int),
                p_nd == 1100 * (nd as int) * (m as int),
                rm >= 0,
                nd >= 0,
        ;
        lemma_round_half_even_part_bound(p_reg as int, p_nd as int, denom as int);
        lemma_round_half_even_part_bound(p_nd as int, p_reg as int, denom as int);
        assert(p_nd + p_reg == p_tot);
    }
    Ok(
        ComputationResult {
            employee_id,
            total_hours: th as i64,
            regular_hours: rh as i64,
            night_diff_hours: nh as i64,
            regular_pay: rp as i64,
            night_diff_pay: np as i64,
            total_pay: tp as i64,
        },
    )
}

/// Under [`fits_limits`] every working numerator stays strictly inside the
/// 128-bit range.
proof fn lemma_numerators_fit(m: int, m_abs: int, tm: int, nd: int, rm: int)
    requires
        m_abs == abs(m),
        0 <= nd <= tm,
        rm == tm - nd,
        tm <= 0x800000000000000,
        110000 * tm * m_abs <= i128::MAX,
    ensures
        -i128::MAX <= 1000 * rm * m <= i128::MAX,
        -i128::MAX <= 1100 * nd * m <= i128::MAX,
        -i128::MAX <= 1000 * rm * m + 1100 * nd * m <= i128::MAX,
        -i128::MAX <= 100 * tm <= i128::MAX,
{
    assert((1000 * rm * m <= 110000 * tm * m_abs) && (-(110000 * tm * m_abs) <= 1000 * rm * m) && (
    1100 * nd * m <= 110000 * tm * m_abs) && (-(110000 * tm * m_abs) <= 1100 * nd * m) && (1000
        * rm * m + 1100 * nd * m <= 110000 * tm * m_abs) && (-(110000 * tm * m_abs) <= 1000 * rm * m
        + 1100 * nd * m) && (0 <= 110000 * tm * m_abs)) by (nonlinear_arith)
        requires
            m_abs == abs(m),
            0 <= nd <= tm,
            rm == tm - nd,
    ;
}

/// A minute count's hundredths-of-an-hour stay within twice the count plus
/// one.
proof fn lemma_hours_cents_small(minutes: int)
    requires
        minutes >= 0,
    ensures
        0 <= hours_cents(minutes) <= 2 * minutes + 1,
{
    lemma_round_half_even_close(100 * minutes, 60);
    assert(0 <= hours_cents(minutes) <= 2 * minutes + 1) by (nonlinear_arith)
        requires
            minutes >= 0,
            2 * 60 * hours_cents(minutes) - 2 * (100 * minutes) <= 60,
            2 * (100 * minutes) - 2 * 60 * hours_cents(minutes) <= 60,
    ;
}

/// Computes the breakdown for one raw shift record. The whole behaviour is
/// the one stated by [`spec_payroll`]: which inputs succeed, which error each
/// failing input earns, and every output field.
pub fn compute_payroll(log: TimeLog) -> (r: Result<ComputationResult, CalcError>)
    ensures
        result_model(r) == spec_payroll(
            log.employee_id@,
            log.shift_start@,
            log.shift_end@,
            log.daily_rate.mantissa as int,
            log.daily_rate.scale as int,
        ),
{
    let start = match parse_rfc3339(log.shift_start.as_str()) {
        Some(p) => p,
        None => {
            return Err(CalcError::InvalidStartTimeFormat);
        },
    };
    let end = match parse_rfc3339(log.shift_end.as_str()) {
        Some(p) => p,
        None => {
            return Err(CalcError::InvalidEndTimeFormat);
        },
    };
    compute_from_parts(log.employee_id, start.0, start.1, end.0, end.1, start.2, log.daily_rate)
}

} // verus!
