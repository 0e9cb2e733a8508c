use sweldo_sync::{compute_from_parts, compute_payroll, CalcError, DecimalValue, TimeLog};

fn log(start: &str, end: &str, mantissa: i128, scale: u32) -> TimeLog {
    TimeLog {
        employee_id: "E1".to_string(),
        shift_start: start.to_string(),
        shift_end: end.to_string(),
        daily_rate: DecimalValue { mantissa, scale },
    }
}

#[test]
fn day_shift_eight_to_five() {
    let r = compute_payroll(log(
        "2024-01-01T08:00:00+00:00",
        "2024-01-01T17:00:00+00:00",
        800,
        0,
    ))
    .unwrap();
    assert_eq!(r.employee_id, "E1");
    assert_eq!(r.total_hours, 900);
    assert_eq!(r.regular_hours, 900);
    assert_eq!(r.night_diff_hours, 0);
    assert_eq!(r.regular_pay, 90000);
    assert_eq!(r.night_diff_pay, 0);
    assert_eq!(r.total_pay, 90000);
}

#[test]
fn night_shift_ten_to_six() {
    let r = compute_payroll(log(
        "2024-01-01T22:00:00+00:00",
        "2024-01-02T06:00:00+00:00",
        800,
        0,
    ))
    .unwrap();
    assert_eq!(r.total_hours, 800);
    assert_eq!(r.regular_hours, 0);
    assert_eq!(r.night_diff_hours, 800);
    assert_eq!(r.regular_pay, 0);
    assert_eq!(r.night_diff_pay, 88000);
    assert_eq!(r.total_pay, 88000);
}

#[test]
fn boundary_at_window_open() {
    // One minute before 22:00 is regular, the minute at 22:00 is night.
    let r = compute_payroll(log(
        "2024-01-01T21:59:00+00:00",
        "2024-01-01T22:01:00+00:00",
        800,
        0,
    ))
    .unwrap();
    assert_eq!(r.total_hours, 3); // 2 minutes -> 0.0333 h -> 0.03
    assert_eq!(r.regular_hours, 2); // 1 minute -> 0.0166 h -> 0.02
    assert_eq!(r.night_diff_hours, 2);
    assert_eq!(r.regular_pay, 167); // 100/60 -> 1.6666 -> 1.67
    assert_eq!(r.night_diff_pay, 183); // 1.8333 -> 1.83
    assert_eq!(r.total_pay, 350); // exactly 3.50
}

#[test]
fn boundary_at_window_close() {
    // The minute at 05:59 is night, the minute at 06:00 is regular.
    let r = compute_payroll(log(
        "2024-01-01T05:59:00+00:00",
        "2024-01-01T06:01:00+00:00",
        800,
        0,
    ))
    .unwrap();
    assert_eq!(r.night_diff_hours, 2);
    assert_eq!(r.regular_hours, 2);
    assert_eq!(r.total_hours, 3);
}

#[test]
fn identical_input_identical_output() {
    let a = compute_payroll(log(
        "2024-03-10T20:00:00+08:00",
        "2024-03-11T04:30:00+08:00",
        123456,
        2,
    ))
    .unwrap();
    let b = compute_payroll(log(
        "2024-03-10T20:00:00+08:00",
        "2024-03-11T04:30:00+08:00",
        123456,
        2,
    ))
    .unwrap();
    assert_eq!(a, b);
}

#[test]
fn end_equal_to_start_is_rejected() {
    let r = compute_payroll(log(
        "2024-01-01T08:00:00+00:00",
        "2024-01-01T08:00:00+00:00",
        800,
        0,
    ));
    assert_eq!(r, Err(CalcError::InvalidRange));
}

#[test]
fn end_before_start_is_rejected_at_any_magnitude() {
    let r = compute_payroll(log(
        "9999-12-31T23:59:59+00:00",
        "0001-01-01T00:00:00+00:00",
        800,
        0,
    ));
    assert_eq!(r, Err(CalcError::InvalidRange));
    let r = compute_payroll(log(
        "2024-01-01T08:00:01+00:00",
        "2024-01-01T08:00:00+00:00",
        0,
        0,
    ));
    assert_eq!(r, Err(CalcError::InvalidRange));
}

#[test]
fn malformed_timestamps_are_rejected() {
    let r = compute_payroll(log("not a time", "2024-01-01T08:00:00+00:00", 800, 0));
    assert_eq!(r, Err(CalcError::InvalidStartTimeFormat));
    let r = compute_payroll(log("2024-01-01T08:00:00+00:00", "2024-01-01 08:00", 800, 0));
    assert_eq!(r, Err(CalcError::InvalidEndTimeFormat));
    // A timestamp without an offset is not accepted.
    let r = compute_payroll(log("2024-01-01T08:00:00", "2024-01-01T09:00:00+00:00", 800, 0));
    assert_eq!(r, Err(CalcError::InvalidStartTimeFormat));
}

#[test]
fn offset_governs_the_local_clock() {
    // 21:00 to 22:00 in a +05:30 wall clock: entirely regular hours.
    let r = compute_payroll(log(
        "2024-01-01T21:00:00+05:30",
        "2024-01-01T22:00:00+05:30",
        800,
        0,
    ))
    .unwrap();
    assert_eq!(r.total_hours, 100);
    assert_eq!(r.night_diff_hours, 0);
    // The same two instants written in UTC fall inside the night window.
    let r = compute_payroll(log(
        "2024-01-01T15:30:00+00:00",
        "2024-01-01T16:30:00+00:00",
        800,
        0,
    ))
    .unwrap();
    assert_eq!(r.night_diff_hours, 0);
    assert_eq!(r.regular_hours, 100);
}

#[test]
fn negative_rate_passes_through() {
    let r = compute_payroll(log(
        "2024-01-01T08:00:00+00:00",
        "2024-01-01T16:00:00+00:00",
        -800,
        0,
    ))
    .unwrap();
    assert_eq!(r.total_pay, -80000);
    assert_eq!(r.regular_pay, -80000);
}

#[test]
fn scaled_rate_gives_the_same_pay() {
    // 800.00 written with two fractional digits.
    let r = compute_payroll(log(
        "2024-01-01T08:00:00+00:00",
        "2024-01-01T17:00:00+00:00",
        80000,
        2,
    ))
    .unwrap();
    assert_eq!(r.total_pay, 90000);
}

#[test]
fn rounding_ties_go_to_even() {
    // A one-minute shift at rate 36: pay is 36/480 = 0.075, i.e. 7.5
    // hundredths, which rounds to the even 8.
    let r = compute_payroll(log(
        "2024-01-01T08:00:00+00:00",
        "2024-01-01T08:01:00+00:00",
        36,
        0,
    ))
    .unwrap();
    assert_eq!(r.total_pay, 8);
    // At rate 12 the pay is 2.5 hundredths, which rounds to the even 2.
    let r = compute_payroll(log(
        "2024-01-01T08:00:00+00:00",
        "2024-01-01T08:01:00+00:00",
        12,
        0,
    ))
    .unwrap();
    assert_eq!(r.total_pay, 2);
}

#[test]
fn multi_midnight_shift_counts_every_night_window() {
    // 48 hours from noon: two full nights of 8 hours each.
    let r = compute_payroll(log(
        "2024-01-01T12:00:00+00:00",
        "2024-01-03T12:00:00+00:00",
        800,
        0,
    ))
    .unwrap();
    assert_eq!(r.total_hours, 4800);
    assert_eq!(r.night_diff_hours, 1600);
    assert_eq!(r.regular_hours, 3200);
    // 32 regular hours at 100 plus 16 night hours at 110.
    assert_eq!(r.regular_pay, 320000);
    assert_eq!(r.night_diff_pay, 176000);
    assert_eq!(r.total_pay, 496000);
}

#[test]
fn sub_minute_remainder_is_truncated() {
    let r = compute_payroll(log(
        "2024-01-01T08:00:00+00:00",
        "2024-01-01T08:01:30+00:00",
        800,
        0,
    ))
    .unwrap();
    // 90 seconds is one whole minute.
    assert_eq!(r.total_hours, 2);
}

#[test]
fn sub_second_shift_is_in_range_but_empty() {
    let r = compute_payroll(log(
        "2024-01-01T08:00:00.500+00:00",
        "2024-01-01T08:00:00.900+00:00",
        800,
        0,
    ))
    .unwrap();
    assert_eq!(r.total_hours, 0);
    assert_eq!(r.total_pay, 0);
}

#[test]
fn sub_second_inversion_is_rejected() {
    let r = compute_payroll(log(
        "2024-01-01T08:00:00.900+00:00",
        "2024-01-01T08:00:00.500+00:00",
        800,
        0,
    ));
    assert_eq!(r, Err(CalcError::InvalidRange));
}

#[test]
fn parts_level_entry_agrees_with_the_string_entry() {
    // 2024-01-01T08:00:00Z to 17:00:00Z at rate 800, zero offset.
    let a = compute_from_parts(
        "E1".to_string(),
        1704096000,
        0,
        1704128400,
        0,
        0,
        DecimalValue { mantissa: 800, scale: 0 },
    )
    .unwrap();
    let b = compute_payroll(log(
        "2024-01-01T08:00:00+00:00",
        "2024-01-01T17:00:00+00:00",
        800,
        0,
    ))
    .unwrap();
    assert_eq!(a, b);
}

#[test]
fn astronomical_pay_is_rejected() {
    // An eight-hour shift at a daily rate of 10^16 would earn 10^18
    // hundredths, past the accepted range.
    let r = compute_payroll(log(
        "2024-01-01T08:00:00+00:00",
        "2024-01-01T16:00:00+00:00",
        10000000000000000,
        0,
    ));
    assert_eq!(r, Err(CalcError::AmountOutOfRange));
}
