//! The batch driver: a comma-separated table in, one aggregate summary out.
//!
//! The first row names the columns; `EmployeeID`/`employee_id`,
//! `ShiftStart`/`shift_start`, `ShiftEnd`/`shift_end` and
//! `DailyRate`/`daily_rate` are recognized, compared without regard to ASCII
//! case. Every later row is one shift; a row that cannot be read is recorded
//! as a message and never stops the run.

use vstd::prelude::*;
use vstd::string::{StrSliceExecFns, StringExecFns};
use crate::calculator::{compute_payroll, result_model, spec_payroll};
use crate::parse::{decimal_of, parse_decimal};
use crate::types::{
    results_model, strings_model, BatchModel, BatchSummary, CalcError, ComputationResult,
    ResultModel, TimeLog,
};

verus! {

/// What the `csv` crate's reader makes of a text: its rows, each a sequence
/// of fields, under the conventional quoting and separator rules.
pub uninterp spec fn csv_rows(s: Seq<char>) -> Seq<Seq<Seq<char>>>;

/// A sequence of field vectors seen as sequences of character sequences.
pub open spec fn rows_model(v: Seq<Vec<String>>) -> Seq<Seq<Seq<char>>> {
    v.map_values(|r: Vec<String>| strings_model(r@))
}

/// Relies on the `csv` crate: a reader configured with `has_headers(false)`
/// and `flexible(true)` surfaces every record of the text, fields split on
/// commas with the usual quoting rules. The split depends on the text alone.
#[verifier::external_body]
fn split_csv(text: &str) -> (rows: Vec<Vec<String>>)
    ensures
        rows_model(rows@) == csv_rows(text@),
{
    let mut reader = csv::ReaderBuilder::new().has_headers(false).flexible(true).from_reader(
        text.as_bytes(),
    );
    let mut rows: Vec<Vec<String>> = Vec::new();
    for record in reader.records() {
        if let Ok(r) = record {
            rows.push(r.iter().map(|field| field.to_string()).collect());
        }
    }
    rows
}

/// ASCII lower-casing of one character.
pub open spec fn to_lower_char(c: char) -> char {
    if 65 <= c as u32 <= 90 {
        (((c as u32) + 32) as u8) as char
    } else {
        c
    }
}

/// Whether `a`, lower-cased ASCII-wise, reads exactly as `b`.
pub open spec fn eq_icase(a: Seq<char>, b: Seq<char>) -> bool {
    a.len() == b.len() && forall|i: int| 0 <= i < a.len() ==> to_lower_char(#[trigger] a[i]) == b[i]
}

/// Whether a header cell names a column under either of its accepted
/// spellings.
pub open spec fn header_matches(h: Seq<char>, alias1: Seq<char>, alias2: Seq<char>) -> bool {
    eq_icase(h, alias1) || eq_icase(h, alias2)
}

/// The first header cell from position `i` on that matches either alias.
pub open spec fn find_col_from(
    headers: Seq<Seq<char>>,
    alias1: Seq<char>,
    alias2: Seq<char>,
    i: int,
) -> Option<int>
    decreases headers.len() - i,
{
    if i < 0 || i >= headers.len() {
        None
    } else if header_matches(headers[i], alias1, alias2) {
        Some(i)
    } else {
        find_col_from(headers, alias1, alias2, i + 1)
    }
}

/// The first header cell that matches either alias.
pub open spec fn find_col(headers: Seq<Seq<char>>, alias1: Seq<char>, alias2: Seq<char>) -> Option<
    int,
> {
    find_col_from(headers, alias1, alias2, 0)
}

/// The message recorded for a row whose field count differs from the
/// header's.
pub open spec fn msg_bad_field_count() -> Seq<char> {
    "Row parse error: wrong number of fields"@
}

/// The message recorded for every data row when a required column is absent
/// from the header.
pub open spec fn msg_missing_column() -> Seq<char> {
    "Row parse error: missing required column"@
}

/// The message recorded for a row whose daily rate is not a decimal numeral.
pub open spec fn msg_bad_rate() -> Seq<char> {
    "Row parse error: invalid daily rate"@
}

/// The message recorded for a row the calculator rejects.
pub open spec fn calc_error_message(e: CalcError) -> Seq<char> {
    "Calculation error: "@ + e.spec_message()
}

/// The outcome of one data row: a breakdown, or the message recorded for it.
pub open spec fn spec_row_outcome(
    row: Seq<Seq<char>>,
    header_len: int,
    c_emp: Option<int>,
    c_start: Option<int>,
    c_end: Option<int>,
    c_rate: Option<int>,
) -> Result<ResultModel, Seq<char>> {
    if row.len() != header_len {
        Err(msg_bad_field_count())
    } else {
        match (c_emp, c_start, c_end, c_rate) {
            (Option::Some(ce), Option::Some(cs), Option::Some(cx), Option::Some(cr)) => match
            decimal_of(row[cr]) {
                Option::None => Err(msg_bad_rate()),
                Option::Some((m, scale)) => match spec_payroll(
                    row[ce],
                    row[cs],
                    row[cx],
                    m,
                    scale,
                ) {
                    Ok(model) => Ok(model),
                    Err(e) => Err(calc_error_message(e)),
                },
            },
            _ => Err(msg_missing_column()),
        }
    }
}

/// The summary with nothing processed.
pub open spec fn empty_batch() -> BatchModel {
    BatchModel {
        processed_count: 0,
        total_payroll_cost: 0,
        errors: Seq::empty(),
        details: Seq::empty(),
    }
}

/// One row's outcome folded into the running summary: a success joins the
/// details and the cost, a failure joins the error list, never both.
pub open spec fn batch_step(acc: BatchModel, outcome: Result<ResultModel, Seq<char>>) -> BatchModel {
    match outcome {
        Ok(model) => BatchModel {
            processed_count: acc.processed_count + 1,
            total_payroll_cost: acc.total_payroll_cost + model.total_pay,
            errors: acc.errors,
            details: acc.details.push(model),
        },
        Err(msg) => BatchModel {
            processed_count: acc.processed_count,
            total_payroll_cost: acc.total_payroll_cost,
            errors: acc.errors.push(msg),
            details: acc.details,
        },
    }
}

/// The summary after the data rows before row `j` (row 0 is the header).
pub open spec fn spec_batch_upto(
    rows: Seq<Seq<Seq<char>>>,
    header_len: int,
    c_emp: Option<int>,
    c_start: Option<int>,
    c_end: Option<int>,
    c_rate: Option<int>,
    j: int,
) -> BatchModel
    decreases j,
{
    if j <= 1 {
        empty_batch()
    } else {
        batch_step(
            spec_batch_upto(rows, header_len, c_emp, c_start, c_end, c_rate, j - 1),
            spec_row_outcome(rows[j - 1], header_len, c_emp, c_start, c_end, c_rate),
        )
    }
}

/// The summary owed for a whole table: column positions are read off the
/// first row, and every later row is folded in input order.
pub open spec fn spec_batch(rows: Seq<Seq<Seq<char>>>) -> BatchModel {
    if rows.len() == 0 {
        empty_batch()
    } else {
        let headers = rows[0];
        spec_batch_upto(
            rows,
            headers.len() as int,
            find_col(headers, "employeeid"@, "employee_id"@),
            find_col(headers, "shiftstart"@, "shift_start"@),
            find_col(headers, "shiftend"@, "shift_end"@),
            find_col(headers, "dailyrate"@, "daily_rate"@),
            rows.len() as int,
        )
    }
}

/// Executable ASCII lower-casing of one character.
fn to_lower_char_exec(c: char) -> (r: char)
    ensures
        r == to_lower_char(c),
{
    let u = c as u32;
    if 65 <= u && u <= 90 {
        ((u + 32) as u8) as char
    } else {
        c
    }
}

/// Executable case-blind comparison of a cell against a lower-case alias.
fn eq_icase_str(a: &str, b: &str) -> (r: bool)
    ensures
        r == eq_icase(a@, b@),
{
    let la = a.unicode_len();
    let lb = b.unicode_len();
    if la != lb {
        return false;
    }
    let mut i: usize = 0;
    while i < la
        invariant
            i <= la,
            la == a@.len(),
            lb == b@.len(),
            la == lb,
            forall|t: int| 0 <= t < i ==> to_lower_char(#[trigger] a@[t]) == b@[t],
        decreases la - i,
    {
        let ca = a.get_char(i);
        let cb = b.get_char(i);
        if to_lower_char_exec(ca) != cb {
            return false;
        }
        i = i + 1;
    }
    true
}

/// Finds the first header cell matching either alias; `aliases` must be
/// given lower-case.
fn find_column(headers: &Vec<String>, alias1: &str, alias2: &str) -> (r: Option<usize>)
    ensures
        match r {
            Option::None => find_col(strings_model(headers@), alias1@, alias2@) is None,
            Option::Some(i) => i < headers@.len() && find_col(
                strings_model(headers@),
                alias1@,
                alias2@,
            ) == Some(i as int),
        },
{
    let ghost hm = strings_model(headers@);
    let n = headers.len();
    let mut i: usize = 0;
    while i < n
        invariant
            i <= n,
            n == headers@.len(),
            hm == strings_model(headers@),
            hm.len() == n,
            find_col(hm, alias1@, alias2@) == find_col_from(hm, alias1@, alias2@, i as int),
        decreases n - i,
    {
        proof {
            assert(hm[i as int] == headers@[i as int]@);
        }
        if eq_icase_str(headers[i].as_str(), alias1) || eq_icase_str(headers[i].as_str(), alias2) {
            return Some(i);
        }
        i = i + 1;
    }
    None
}

/// An accepted shift's total pay stays strictly inside the accepted pay
/// range.
proof fn lemma_ok_pay_bounded(
    id: Seq<char>,
    start_raw: Seq<char>,
    end_raw: Seq<char>,
    m: int,
    scale: int,
)
    requires
        spec_payroll(id, start_raw, end_raw, m, scale) is Ok,
    ensures
        -1000000000000000000 < spec_payroll(id, start_raw, end_raw, m, scale)->Ok_0.total_pay
            < 1000000000000000000,
{
}

/// Mapping results to their models commutes with appending one result.
proof fn lemma_results_push(s: Seq<ComputationResult>, c: ComputationResult)
    ensures
        results_model(s.push(c)) == results_model(s).push(c@),
{
    assert(results_model(s.push(c)) =~= results_model(s).push(c@));
}

/// Mapping strings to their views commutes with appending one string.
proof fn lemma_strings_push(s: Seq<String>, m: String)
    ensures
        strings_model(s.push(m)) == strings_model(s).push(m@),
{
    assert(strings_model(s.push(m)) =~= strings_model(s).push(m@));
}

/// The message recorded for a row the calculator rejected.
fn calc_error_line(e: CalcError) -> (r: String)
    ensures
        r@ == calc_error_message(e),
{
    let prefix = "Calculation error: ".to_owned();
    prefix.concat(e.message())
}

/// Processes one comma-separated table, already read into memory. The whole
/// behaviour is the one stated by [`spec_batch`] over the table's rows: each
/// well-formed row's breakdown joins the details and the total cost, every
/// other row leaves exactly one message, in input order.
#[verifier::loop_isolation(false)]
pub fn process_csv_text(text: &str) -> (summary: BatchSummary)
    ensures
        summary@ == spec_batch(csv_rows(text@)),
{
    let rows = split_csv(text);
    let ghost rd = csv_rows(text@);
    proof {
        assert(rd == rows_model(rows@));
        assert(rd.len() == rows@.len());
    }
    if rows.len() == 0 {
        let summary = BatchSummary {
            processed_count: 0,
            total_payroll_cost: 0,
            errors: Vec::new(),
            details: Vec::new(),
        };
        proof {
            assert(strings_model(Seq::<String>::empty()) =~= Seq::<Seq<char>>::empty());
            assert(results_model(Seq::<ComputationResult>::empty()) =~= Seq::<ResultModel>::empty());
        }
        return summary;
    }
    let header_len = rows[0].len();
    proof {
        assert(rd[0] == strings_model(rows@[0]@));
        assert(rd[0].len() == header_len);
    }
    let c_emp = find_column(&rows[0], "employeeid", "employee_id");
    let c_start = find_column(&rows[0], "shiftstart", "shift_start");
    let c_end = find_column(&rows[0], "shiftend", "shift_end");
    let c_rate = find_column(&rows[0], "dailyrate", "daily_rate");
    let ghost g_emp = find_col(rd[0], "employeeid"@, "employee_id"@);
    let ghost g_start = find_col(rd[0], "shiftstart"@, "shift_start"@);
    let ghost g_end = find_col(rd[0], "shiftend"@, "shift_end"@);
    let ghost g_rate = find_col(rd[0], "dailyrate"@, "daily_rate"@);
    let n = rows.len();
    let mut details: Vec<ComputationResult> = Vec::new();
    let mut errors: Vec<String> = Vec::new();
    let mut cost: i128 = 0;
    let mut j: usize = 1;
    proof {
        assert(strings_model(Seq::<String>::empty()) =~= Seq::<Seq<char>>::empty());
        assert(results_model(Seq::<ComputationResult>::empty()) =~= Seq::<ResultModel>::empty());
    }
    while j < n
        invariant
            1 <= j <= n,
            results_model(details@) == spec_batch_upto(
                rd,
                header_len as int,
                g_emp,
                g_start,
                g_end,
                g_rate,
                j as int,
            ).details,
            strings_model(errors@) == spec_batch_upto(
                rd,
                header_len as int,
                g_emp,
                g_start,
                g_end,
                g_rate,
                j as int,
            ).errors,
            details@.len() == spec_batch_upto(
                rd,
                header_len as int,
                g_emp,
                g_start,
                g_end,
                g_rate,
                j as int,
            ).processed_count,
            cost == spec_batch_upto(
                rd,
                header_len as int,
                g_emp,
                g_start,
                g_end,
                g_rate,
                j as int,
            ).total_payroll_cost,
            details@.len() < j,
            -1000000000000000000 * (details@.len() as int) <= cost <= 1000000000000000000 * (
            details@.len() as int),
        decreases n - j,
    {
        let ghost acc = spec_batch_upto(
            rd,
            header_len as int,
            g_emp,
            g_start,
            g_end,
            g_rate,
            j as int,
        );
        let ghost outcome = spec_row_outcome(
            rd[j as int],
            header_len as int,
            g_emp,
            g_start,
            g_end,
            g_rate,
        );
        let row = &rows[j];
        proof {
            assert(rd[j as int] == strings_model(rows@[j as int]@));
        }
        if row.len() != header_len {
            let ghost pre = errors;
            let msg = "Row parse error: wrong number of fields".to_owned();
            let ghost gmsg = msg;
            errors.push(msg);
            proof {
                lemma_strings_push(pre@, gmsg);
                assert(outcome == Err::<ResultModel, Seq<char>>(msg_bad_field_count()));
            }
        } else if !(c_emp.is_some() && c_start.is_some() && c_end.is_some() && c_rate.is_some()) {
            let ghost pre = errors;
            let msg = "Row parse error: missing required column".to_owned();
            let ghost gmsg = msg;
            errors.push(msg);
            proof {
                lemma_strings_push(pre@, gmsg);
                assert(outcome == Err::<ResultModel, Seq<char>>(msg_missing_column()));
            }
        } else {
            let ce = c_emp.unwrap();
            let cs = c_start.unwrap();
            let cx = c_end.unwrap();
            let cr = c_rate.unwrap();
            proof {
                assert(rd[j as int][ce as int] == rows@[j as int]@[ce as int]@);
                assert(rd[j as int][cs as int] == rows@[j as int]@[cs as int]@);
                assert(rd[j as int][cx as int] == rows@[j as int]@[cx as int]@);
                assert(rd[j as int][cr as int] == rows@[j as int]@[cr as int]@);
            }
            match parse_decimal(row[cr].as_str()) {
                None => {
                    let ghost pre = errors;
                    let msg = "Row parse error: invalid daily rate".to_owned();
                    let ghost gmsg = msg;
                    errors.push(msg);
                    proof {
                        lemma_strings_push(pre@, gmsg);
                        assert(outcome == Err::<ResultModel, Seq<char>>(msg_bad_rate()));
                    }
                },
                Some(rate) => {
                    let log = TimeLog {
                        employee_id: row[ce].clone(),
                        shift_start: row[cs].clone(),
                        shift_end: row[cx].clone(),
                        daily_rate: rate,
                    };
                    let ghost g_id = log.employee_id@;
                    let ghost g_sr = log.shift_start@;
                    let ghost g_er = log.shift_end@;
                    match compute_payroll(log) {
                        Ok(c) => {
                            proof {
                                lemma_ok_pay_bounded(
                                    g_id,
                                    g_sr,
                                    g_er,
                                    rate.mantissa as int,
                                    rate.scale as int,
                                );
                                assert(outcome == Ok::<ResultModel, Seq<char>>(c@));
                            }
                            let ghost pre = details;
                            cost = cost + (c.total_pay as i128);
                            details.push(c);
                            proof {
                                lemma_results_push(pre@, details@[details@.len() - 1]);
                            }
                        },
                        Err(e) => {
                            let ghost pre = errors;
                            let msg = calc_error_line(e);
                            let ghost gmsg = msg;
                            errors.push(msg);
                            proof {
                                lemma_strings_push(pre@, gmsg);
                                assert(outcome == Err::<ResultModel, Seq<char>>(
                                    calc_error_message(e),
                                ));
                            }
                        },
                    }
                },
            }
        }
        j = j + 1;
        proof {
            assert(spec_batch_upto(
                rd,
                header_len as int,
                g_emp,
                g_start,
                g_end,
                g_rate,
                j as int,
            ) == batch_step(acc, outcome));
        }
    }
    let summary = BatchSummary {
        processed_count: details.len(),
        total_payroll_cost: cost,
        errors,
        details,
    };
    proof {
        assert(spec_batch(rd) == spec_batch_upto(
            rd,
            header_len as int,
            g_emp,
            g_start,
            g_end,
            g_rate,
            n as int,
        ));
    }
    summary
}

} // verus!
