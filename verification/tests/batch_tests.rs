use sweldo_sync::process_csv_text;

#[test]
fn mixed_batch_keeps_going() {
    let text = "EmployeeID,ShiftStart,ShiftEnd,DailyRate\n\
E1,2024-01-01T08:00:00+00:00,2024-01-01T17:00:00+00:00,800\n\
E2,2024-01-01T22:00:00+00:00,2024-01-02T06:00:00+00:00,800\n\
BADROW,onlytwo\n\
E3,2024-01-01T09:00:00+00:00,2024-01-01T10:00:00+00:00,100\n\
E4,2024-01-01T10:00:00+00:00,2024-01-01T09:00:00+00:00,800\n";
    let s = process_csv_text(text);
    assert_eq!(s.processed_count, 3);
    assert_eq!(s.details.len(), 3);
    assert_eq!(s.errors.len(), 2);
    // 900.00 + 880.00 + 12.50
    assert_eq!(s.total_payroll_cost, 179250);
    assert_eq!(s.errors[0], "Row parse error: wrong number of fields");
    assert_eq!(s.errors[1], "Calculation error: End time must be after start time");
    assert_eq!(s.details[0].employee_id, "E1");
    assert_eq!(s.details[1].employee_id, "E2");
    assert_eq!(s.details[2].employee_id, "E3");
}

#[test]
fn lower_case_headers_are_accepted() {
    let text = "employee_id,shift_start,shift_end,daily_rate\n\
E9,2024-01-01T08:00:00+00:00,2024-01-01T16:00:00+00:00,400\n";
    let s = process_csv_text(text);
    assert_eq!(s.processed_count, 1);
    assert_eq!(s.total_payroll_cost, 40000);
}

#[test]
fn header_case_is_ignored() {
    let text = "EMPLOYEE_ID,Shift_Start,SHIFTEND,dailyRATE\n\
E9,2024-01-01T08:00:00+00:00,2024-01-01T16:00:00+00:00,400\n";
    let s = process_csv_text(text);
    assert_eq!(s.processed_count, 1);
}

#[test]
fn missing_column_fails_every_row() {
    let text = "EmployeeID,ShiftStart,ShiftEnd\n\
E1,2024-01-01T08:00:00+00:00,2024-01-01T17:00:00+00:00\n\
E2,2024-01-01T09:00:00+00:00,2024-01-01T17:00:00+00:00\n";
    let s = process_csv_text(text);
    assert_eq!(s.processed_count, 0);
    assert_eq!(s.errors.len(), 2);
    assert_eq!(s.errors[0], "Row parse error: missing required column");
    assert_eq!(s.total_payroll_cost, 0);
}

#[test]
fn empty_input_gives_an_empty_summary() {
    let s = process_csv_text("");
    assert_eq!(s.processed_count, 0);
    assert_eq!(s.errors.len(), 0);
    assert_eq!(s.details.len(), 0);
    assert_eq!(s.total_payroll_cost, 0);
}

#[test]
fn header_only_gives_an_empty_summary() {
    let s = process_csv_text("EmployeeID,ShiftStart,ShiftEnd,DailyRate\n");
    assert_eq!(s.processed_count, 0);
    assert_eq!(s.errors.len(), 0);
}

#[test]
fn quoted_fields_are_unquoted() {
    let text = "EmployeeID,ShiftStart,ShiftEnd,DailyRate\n\
\"Doe, Jane\",\"2024-01-01T08:00:00+00:00\",\"2024-01-01T16:00:00+00:00\",\"400\"\n";
    let s = process_csv_text(text);
    assert_eq!(s.processed_count, 1);
    assert_eq!(s.details[0].employee_id, "Doe, Jane");
    assert_eq!(s.details[0].total_pay, 40000);
}

#[test]
fn fractional_rate_is_parsed_exactly() {
    let text = "EmployeeID,ShiftStart,ShiftEnd,DailyRate\n\
E1,2024-01-01T08:00:00+00:00,2024-01-01T17:00:00+00:00,800.50\n";
    let s = process_csv_text(text);
    assert_eq!(s.processed_count, 1);
    // 9 hours at 800.50/8 = 100.0625 an hour: 900.5625, reported as 900.56.
    assert_eq!(s.details[0].total_pay, 90056);
    assert_eq!(s.total_payroll_cost, 90056);
}

#[test]
fn unparsable_rate_is_a_row_error() {
    let text = "EmployeeID,ShiftStart,ShiftEnd,DailyRate\n\
E1,2024-01-01T08:00:00+00:00,2024-01-01T17:00:00+00:00,eight hundred\n";
    let s = process_csv_text(text);
    assert_eq!(s.processed_count, 0);
    assert_eq!(s.errors.len(), 1);
    assert_eq!(s.errors[0], "Row parse error: invalid daily rate");
}

#[test]
fn bad_timestamp_is_a_calculation_error() {
    let text = "EmployeeID,ShiftStart,ShiftEnd,DailyRate\n\
E1,yesterday,2024-01-01T17:00:00+00:00,800\n";
    let s = process_csv_text(text);
    assert_eq!(s.processed_count, 0);
    assert_eq!(s.errors.len(), 1);
    assert_eq!(s.errors[0], "Calculation error: Invalid start time format");
}

#[test]
fn order_of_rows_is_preserved() {
    let text = "EmployeeID,ShiftStart,ShiftEnd,DailyRate\n\
B,2024-01-01T08:00:00+00:00,2024-01-01T09:00:00+00:00,80\n\
A,2024-01-01T08:00:00+00:00,2024-01-01T09:00:00+00:00,80\n";
    let s = process_csv_text(text);
    assert_eq!(s.processed_count, 2);
    assert_eq!(s.details[0].employee_id, "B");
    assert_eq!(s.details[1].employee_id, "A");
}
