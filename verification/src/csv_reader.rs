//! From the rows of a ledger to the periods of a report.

use vstd::prelude::*;
use crate::error::{ParseError, ParseErrorView};
use crate::profit_and_loss::period::{
    group_by_trade_date,
    is_grouping,
    PeriodGroup,
    PeriodKind,
};
use crate::profit_and_loss::record::{parse_row, row_view, ProfitAndLoss, RecordView};

verus! {

/// Whether `parsed` holds the records of `rows`, row for row.
pub open spec fn rows_parse_to(rows: Seq<Vec<String>>, parsed: Seq<ProfitAndLoss>) -> bool {
    &&& parsed.len() == rows.len()
    &&& forall|i: int|
        0 <= i < rows.len() ==> parse_row(row_view((#[trigger] rows[i])@)) == Ok::<
            RecordView,
            ParseErrorView,
        >(parsed[i]@)
}

/// Whether `e` is the fault of the first row of `rows` that has one.
pub open spec fn first_fault_is(rows: Seq<Vec<String>>, e: ParseErrorView) -> bool {
    exists|i: int|
        0 <= i < rows.len() && parse_row(row_view((#[trigger] rows[i])@)) == Err::<
            RecordView,
            ParseErrorView,
        >(e) && forall|j: int| 0 <= j < i ==> parse_row(row_view((#[trigger] rows[j])@)) is Ok
}

/// Reads every row of the ledger. One row that cannot be read fails the
/// whole ledger, with the fault of the first such row.
pub fn parse_rows(rows: &Vec<Vec<String>>) -> (r: Result<Vec<ProfitAndLoss>, ParseError>)
    ensures
        match r {
            Ok(parsed) => rows_parse_to(rows@, parsed@),
            Err(e) => first_fault_is(rows@, e@),
        },
{
    let mut parsed: Vec<ProfitAndLoss> = Vec::new();
    let mut i: usize = 0;
    while i < rows.len()
        invariant
            i <= rows.len(),
            parsed@.len() == i,
            forall|j: int|
                0 <= j < i ==> parse_row(row_view((#[trigger] rows@[j])@)) == Ok::<
                    RecordView,
                    ParseErrorView,
                >(parsed@[j]@),
        decreases rows.len() - i,
    {
        match ProfitAndLoss::from_record(&rows[i]) {
            Ok(record) => {
                parsed.push(record);
            },
            Err(e) => {
                return Err(e);
            },
        }
        i += 1;
    }
    Ok(parsed)
}

/// Reads ledgers.
pub struct CSVReader;

impl CSVReader {
    /// Reads every row and groups the records by trade date, in calendar
    /// order. One row that cannot be read fails the whole ledger, with the
    /// fault of the first such row. A record without a trade date is left
    /// out of the periods.
    pub fn read_profit_and_loss(rows: &Vec<Vec<String>>) -> (r: Result<
        Vec<PeriodGroup>,
        ParseError,
    >)
        ensures
            match r {
                Ok(groups) => exists|parsed: Seq<ProfitAndLoss>|
                    #[trigger] rows_parse_to(rows@, parsed) && is_grouping(groups@, parsed, PeriodKind::Day),
                Err(e) => first_fault_is(rows@, e@),
            },
    {
        match parse_rows(rows) {
            Ok(parsed) => {
                let ghost all = parsed@;
                let groups = group_by_trade_date(parsed);
                assert(rows_parse_to(rows@, all));
                Ok(groups)
            },
            Err(e) => Err(e),
        }
    }
}

} // verus!
