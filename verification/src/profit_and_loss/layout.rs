//! Where each cell of the report stands: one header row, then for each
//! period its records, one row each, and a row of totals.

use vstd::prelude::*;
use crate::cell_write::CellWriteView;
use crate::profit_and_loss::period::PeriodGroup;
use crate::profit_and_loss::record::{
    blank_record,
    field_names,
    field_texts,
    ProfitAndLoss,
    RecordView,
    FIELD_COUNT,
};
use crate::profit_and_loss::totals::{nisa_sum, specific_sum, withholding_tax_spec};
use crate::settings::Settings;
use crate::style::{header_style_spec, resolve_style_spec};

verus! {

/// The header: the label of each field, in the header style, in `row`.
pub open spec fn header_row(settings: &Settings, row: int) -> Seq<CellWriteView> {
    Seq::new(
        FIELD_COUNT as nat,
        |i: int|
            CellWriteView {
                col: settings.start_col + i,
                row,
                value: settings.header_spec(field_names()[i]),
                style: header_style_spec(settings),
            },
    )
}

/// A row below the header: the text of each field of `v`, each in the style
/// that the rules give it.
pub open spec fn data_row(settings: &Settings, row: int, v: RecordView, is_footer: bool) -> Seq<
    CellWriteView,
> {
    Seq::new(
        FIELD_COUNT as nat,
        |i: int|
            CellWriteView {
                col: settings.start_col + i,
                row,
                value: field_texts(v)[i],
                style: resolve_style_spec(settings, field_names()[i], field_texts(v)[i], is_footer),
            },
    )
}

/// The rows of `records`, one below the other from `row` on.
pub open spec fn record_rows(settings: &Settings, row: int, records: Seq<ProfitAndLoss>) -> Seq<
    CellWriteView,
>
    decreases records.len(),
{
    if records.len() == 0 {
        Seq::empty()
    } else {
        record_rows(settings, row, records.drop_last()) + data_row(
            settings,
            row + records.len() - 1,
            records.last()@,
            false,
        )
    }
}

/// The row of totals for the given account totals
/// (specific accounts, tax-exempt accounts).
pub open spec fn totals_row(total: (int, int), rate: (int, int)) -> RecordView {
    RecordView {
        total_realized_profit_and_loss: Some(total.0 + total.1),
        withholding_tax: Some(withholding_tax_spec(total.0, rate)),
        profit_and_loss: Some(total.0 + total.1 - withholding_tax_spec(total.0, rate)),
        ..blank_record()
    }
}

/// The rows of one period: its records from `row` on, then its totals.
pub open spec fn group_rows(settings: &Settings, row: int, records: Seq<ProfitAndLoss>) -> Seq<
    CellWriteView,
> {
    record_rows(settings, row, records) + data_row(
        settings,
        row + records.len(),
        totals_row((specific_sum(records), nisa_sum(records)), settings.tax_rate@),
        true,
    )
}

/// The number of rows that the periods take: one for each record and one
/// for the totals of each period.
pub open spec fn rows_in(groups: Seq<PeriodGroup>) -> int
    decreases groups.len(),
{
    if groups.len() == 0 {
        0
    } else {
        rows_in(groups.drop_last()) + groups.last().records@.len() + 1
    }
}

/// The rows of all periods, one period below the other from `row` on.
pub open spec fn groups_rows(settings: &Settings, row: int, groups: Seq<PeriodGroup>) -> Seq<
    CellWriteView,
>
    decreases groups.len(),
{
    if groups.len() == 0 {
        Seq::empty()
    } else {
        groups_rows(settings, row, groups.drop_last()) + group_rows(
            settings,
            row + rows_in(groups.drop_last()),
            groups.last().records@,
        )
    }
}

/// Every cell of the report, in the order in which it is written.
pub open spec fn report_cells(settings: &Settings, groups: Seq<PeriodGroup>) -> Seq<
    CellWriteView,
> {
    header_row(settings, settings.start_row as int) + groups_rows(
        settings,
        settings.start_row + 1,
        groups,
    )
}

/// Whether the report has room on the sheet: it starts at a cell that
/// exists, and its last column and the row after its last row can still
/// be numbered.
pub open spec fn report_fits(settings: &Settings, groups: Seq<PeriodGroup>) -> bool {
    &&& settings.start_row >= 1
    &&& settings.start_col >= 1
    &&& settings.start_col + FIELD_COUNT <= u32::MAX
    &&& settings.start_row + 1 + rows_in(groups) <= u32::MAX
}

/// The rows of the first periods never outnumber the rows of all.
pub proof fn lemma_rows_in_prefix(groups: Seq<PeriodGroup>, k: int)
    requires
        0 <= k <= groups.len(),
    ensures
        0 <= rows_in(groups.take(k)) <= rows_in(groups),
    decreases groups.len(),
{
    if k == groups.len() {
        assert(groups.take(k) =~= groups);
        if groups.len() > 0 {
            lemma_rows_in_prefix(groups.drop_last(), k - 1);
            assert(groups.drop_last().take(k - 1) =~= groups.drop_last());
        }
    } else {
        lemma_rows_in_prefix(groups.drop_last(), k);
        assert(groups.drop_last().take(k) =~= groups.take(k));
    }
}

/// Whether `cells` fill a grid row by row: cell `i` stands in column
/// `start_col + i % 13` of row `row + i / 13`, and the last row is full.
pub open spec fn is_grid(cells: Seq<CellWriteView>, start_col: int, row: int) -> bool {
    &&& cells.len() % (FIELD_COUNT as nat) == 0
    &&& forall|i: int|
        0 <= i < cells.len() ==> (#[trigger] cells[i]).col == start_col + i % (FIELD_COUNT as int)
            && cells[i].row == row + i / (FIELD_COUNT as int)
}

/// A grid followed by a grid that starts in the row below it is a grid.
pub proof fn lemma_grid_concat(
    a: Seq<CellWriteView>,
    b: Seq<CellWriteView>,
    start_col: int,
    row: int,
)
    requires
        is_grid(a, start_col, row),
        is_grid(b, start_col, row + a.len() / (FIELD_COUNT as nat)),
    ensures
        is_grid(a + b, start_col, row),
{
    assert forall|i: int| 0 <= i < (a + b).len() implies (#[trigger] (a + b)[i]).col == start_col
        + i % (FIELD_COUNT as int) && (a + b)[i].row == row + i / (FIELD_COUNT as int) by {
        if i >= a.len() {
            assert((a + b)[i] == b[i - a.len()]);
        } else {
            assert((a + b)[i] == a[i]);
        }
    }
}

/// The rows of records fill a grid, thirteen cells for each record.
pub proof fn lemma_record_rows_grid(settings: &Settings, row: int, records: Seq<ProfitAndLoss>)
    ensures
        record_rows(settings, row, records).len() == FIELD_COUNT * records.len(),
        is_grid(record_rows(settings, row, records), settings.start_col as int, row),
    decreases records.len(),
{
    if records.len() > 0 {
        lemma_record_rows_grid(settings, row, records.drop_last());
        lemma_grid_concat(
            record_rows(settings, row, records.drop_last()),
            data_row(settings, row + records.len() - 1, records.last()@, false),
            settings.start_col as int,
            row,
        );
    }
}

/// The rows of periods fill a grid, thirteen cells for each row.
pub proof fn lemma_groups_rows_grid(settings: &Settings, row: int, groups: Seq<PeriodGroup>)
    ensures
        rows_in(groups) >= 0,
        groups_rows(settings, row, groups).len() == FIELD_COUNT * rows_in(groups),
        is_grid(groups_rows(settings, row, groups), settings.start_col as int, row),
    decreases groups.len(),
{
    if groups.len() > 0 {
        let rest = groups.drop_last();
        let records = groups.last().records@;
        let at = row + rows_in(rest);
        lemma_groups_rows_grid(settings, row, rest);
        lemma_record_rows_grid(settings, at, records);
        lemma_grid_concat(
            record_rows(settings, at, records),
            data_row(
                settings,
                at + records.len(),
                totals_row((specific_sum(records), nisa_sum(records)), settings.tax_rate@),
                true,
            ),
            settings.start_col as int,
            at,
        );
        lemma_grid_concat(
            groups_rows(settings, row, rest),
            group_rows(settings, at, records),
            settings.start_col as int,
            row,
        );
    }
}

/// The report fills a grid from its start cell on: thirteen cells for the
/// header and for each row below it, and so no two of its cells stand at
/// the same place.
pub proof fn lemma_report_grid(settings: &Settings, groups: Seq<PeriodGroup>)
    ensures
        report_cells(settings, groups).len() == FIELD_COUNT * (1 + rows_in(groups)),
        is_grid(
            report_cells(settings, groups),
            settings.start_col as int,
            settings.start_row as int,
        ),
        forall|i: int, j: int|
            0 <= i < j < report_cells(settings, groups).len() ==> ((#[trigger] report_cells(
                settings,
                groups,
            )[i]).col, report_cells(settings, groups)[i].row) != ((#[trigger] report_cells(
                settings,
                groups,
            )[j]).col, report_cells(settings, groups)[j].row),
{
    lemma_groups_rows_grid(settings, settings.start_row + 1, groups);
    lemma_grid_concat(
        header_row(settings, settings.start_row as int),
        groups_rows(settings, settings.start_row + 1, groups),
        settings.start_col as int,
        settings.start_row as int,
    );
}

} // verus!
