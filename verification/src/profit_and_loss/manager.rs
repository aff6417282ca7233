//! The report of realized profit and loss: takes the ledger's rows in,
//! and lays the periods out as cells.

use vstd::prelude::*;
use vstd::string::*;
use crate::cell_style::{clone_opt, copy_opt, opt_view, CellStyle};
use crate::cell_write::{lemma_writes_view_push, writes_view, CellWrite, CellWriteView};
use crate::coordinate::Coordinate;
use crate::csv_reader::{first_fault_is, rows_parse_to, CSVReader};
use crate::error::{ParseError, ReportError};
use crate::excel::{
    blank_cell,
    cell_after,
    cells_elsewhere,
    column_widths,
    columns_elsewhere,
    columns_rewritten,
    is_written,
    key_of,
    lemma_cells_after_each,
    lemma_cells_after_elsewhere,
    lemma_titles_without_absent,
    lemma_titles_without_lacks,
    sheet_cells,
    sheet_rewritten,
    sheet_titles,
    titles_without,
    widths_set,
};
use crate::excel_writer::ExcelWriter;
use crate::profit_and_loss::layout::{
    data_row,
    group_rows,
    groups_rows,
    header_row,
    lemma_report_grid,
    lemma_rows_in_prefix,
    record_rows,
    report_cells,
    report_fits,
    rows_in,
    totals_row,
};
use crate::profit_and_loss::period::{is_grouping, PeriodGroup, PeriodKind};
use crate::profit_and_loss::record::{is_field_list, ProfitAndLoss, FIELD_COUNT};
use crate::profit_and_loss::totals::{
    lemma_sums_bounded,
    nisa_sum,
    specific_sum,
    split_amount,
    total_limit,
};
use crate::settings::Settings;
use crate::style::{header_style, resolve_style, resolve_style_spec};
use crate::template_pattern::TemplateStruct;
use umya_spreadsheet::Spreadsheet;

verus! {

/// Appends the cells of one row below the header.
fn write_fields(
    out: &mut Vec<CellWrite>,
    settings: &Settings,
    row: u32,
    record: &ProfitAndLoss,
    is_footer: bool,
)
    requires
        settings.start_col + FIELD_COUNT <= u32::MAX,
    ensures
        writes_view(final(out)@) == writes_view(old(out)@) + data_row(
            settings,
            row as int,
            record@,
            is_footer,
        ),
{
    let fields = record.get_all_fields();
    let ghost target = data_row(settings, row as int, record@, is_footer);
    let mut i: usize = 0;
    proof {
        assert(writes_view(out@) =~= writes_view(old(out)@) + target.take(0));
    }
    while i < fields.len()
        invariant
            i <= fields.len(),
            fields@.len() == FIELD_COUNT,
            is_field_list(fields@, record@),
            settings.start_col + FIELD_COUNT <= u32::MAX,
            target == data_row(settings, row as int, record@, is_footer),
            writes_view(out@) == writes_view(old(out)@) + target.take(i as int),
        decreases fields.len() - i,
    {
        let ghost before = out@;
        let field = &fields[i];
        let style = resolve_style(settings, field.0.as_str(), &field.1, is_footer);
        let coordinate = (settings.start_col + i as u32, row).new_coordinate();
        let write = CellWrite { coordinate, value: copy_opt(&field.1), style };
        proof {
            lemma_writes_view_push(before, write);
            assert(write@ == target[i as int]);
            assert(target.take(i + 1) =~= target.take(i as int).push(target[i as int]));
        }
        out.push(write);
        proof {
            assert(writes_view(out@) =~= writes_view(old(out)@) + target.take(i + 1));
        }
        i += 1;
    }
    proof {
        assert(target.take(FIELD_COUNT as int) =~= target);
    }
}

/// The report of realized profit and loss.
#[derive(Debug)]
pub struct ProfitAndLossManager {
    pub template_struct: TemplateStruct,
    /// The periods taken in so far, in calendar order.
    pub profit_and_loss_map: Vec<PeriodGroup>,
}

impl ProfitAndLossManager {
    /// A report for the given document, without any period yet.
    pub fn new(xlsx_filepath: String) -> (r: Self)
        ensures
            r.template_struct.xlsx_filepath == xlsx_filepath,
            r.profit_and_loss_map@.len() == 0,
    {
        ProfitAndLossManager {
            template_struct: TemplateStruct::new(xlsx_filepath),
            profit_and_loss_map: Vec::new(),
        }
    }

    /// Reads the rows of a ledger and groups their records by trade date,
    /// in place of what the report held. Where a row cannot be read, the
    /// report stays as it was.
    pub fn set(&mut self, records: &Vec<Vec<String>>) -> (r: Result<(), ParseError>)
        ensures
            match r {
                Ok(()) => exists|parsed: Seq<ProfitAndLoss>|
                    #[trigger] rows_parse_to(records@, parsed) && is_grouping(
                        final(self).profit_and_loss_map@,
                        parsed,
                        PeriodKind::Day,
                    ),
                Err(e) => first_fault_is(records@, e@) && *final(self) == *old(self),
            },
            final(self).template_struct == old(self).template_struct,
    {
        match CSVReader::read_profit_and_loss(records) {
            Ok(groups) => {
                self.profit_and_loss_map = groups;
                Ok(())
            },
            Err(e) => Err(e),
        }
    }

    /// Appends the header to `out` and moves the cursor below it.
    pub fn write_header(&self, out: &mut Vec<CellWrite>, settings: &Settings, row_index: &mut u32)
        requires
            settings.start_col + FIELD_COUNT <= u32::MAX,
            *old(row_index) < u32::MAX,
        ensures
            writes_view(final(out)@) == writes_view(old(out)@) + header_row(
                settings,
                *old(row_index) as int,
            ),
            *final(row_index) == *old(row_index) + 1,
    {
        let blank = ProfitAndLoss::blank();
        let header_list = blank.get_all_fields();
        let ghost target = header_row(settings, *row_index as int);
        let mut i: usize = 0;
        proof {
            assert(writes_view(out@) =~= writes_view(old(out)@) + target.take(0));
        }
        while i < header_list.len()
            invariant
                i <= header_list.len(),
                header_list@.len() == FIELD_COUNT,
                is_field_list(header_list@, blank@),
                settings.start_col + FIELD_COUNT <= u32::MAX,
                *row_index == *old(row_index),
                target == header_row(settings, *row_index as int),
                writes_view(out@) == writes_view(old(out)@) + target.take(i as int),
            decreases header_list.len() - i,
        {
            let ghost before = out@;
            let value = clone_opt(settings.header(header_list[i].0.as_str()));
            let coordinate = (settings.start_col + i as u32, *row_index).new_coordinate();
            let write = CellWrite { coordinate, value, style: header_style(settings) };
            proof {
                lemma_writes_view_push(before, write);
                assert(write@ == target[i as int]);
                assert(target.take(i + 1) =~= target.take(i as int).push(target[i as int]));
            }
            out.push(write);
            proof {
                assert(writes_view(out@) =~= writes_view(old(out)@) + target.take(i + 1));
            }
            i += 1;
        }
        proof {
            assert(target.take(FIELD_COUNT as int) =~= target);
        }
        *row_index += 1;
    }

    /// Appends one row for each record to `out`, moving the cursor one row
    /// down for each, and adds up the realized results by account class as
    /// the rows are written: (specific accounts, tax-exempt accounts).
    pub fn write_records(
        &self,
        out: &mut Vec<CellWrite>,
        settings: &Settings,
        row_index: &mut u32,
        profit_and_loss_list: &Vec<ProfitAndLoss>,
    ) -> (r: (i128, i128))
        requires
            settings.start_col + FIELD_COUNT <= u32::MAX,
            *old(row_index) + profit_and_loss_list.len() <= u32::MAX,
        ensures
            writes_view(final(out)@) == writes_view(old(out)@) + record_rows(
                settings,
                *old(row_index) as int,
                profit_and_loss_list@,
            ),
            *final(row_index) == *old(row_index) + profit_and_loss_list.len(),
            r.0 == specific_sum(profit_and_loss_list@),
            r.1 == nisa_sum(profit_and_loss_list@),
            -total_limit() <= r.0 <= total_limit(),
            -total_limit() <= r.1 <= total_limit(),
    {
        let mut specific_account_total: i128 = 0;
        let mut nisa_account_total: i128 = 0;
        let ghost list = profit_and_loss_list@;
        let mut i: usize = 0;
        proof {
            assert(writes_view(out@) =~= writes_view(old(out)@) + record_rows(
                settings,
                *old(row_index) as int,
                list.take(0),
            ));
        }
        while i < profit_and_loss_list.len()
            invariant
                i <= profit_and_loss_list.len(),
                list == profit_and_loss_list@,
                settings.start_col + FIELD_COUNT <= u32::MAX,
                *old(row_index) + profit_and_loss_list.len() <= u32::MAX,
                *row_index == *old(row_index) + i,
                specific_account_total == specific_sum(list.take(i as int)),
                nisa_account_total == nisa_sum(list.take(i as int)),
                writes_view(out@) == writes_view(old(out)@) + record_rows(
                    settings,
                    *old(row_index) as int,
                    list.take(i as int),
                ),
            decreases profit_and_loss_list.len() - i,
        {
            let profit_and_loss = &profit_and_loss_list[i];
            proof {
                lemma_sums_bounded(list.take(i as int));
                assert(list.take(i + 1).drop_last() =~= list.take(i as int));
                assert(list.take(i + 1).last() == list[i as int]);
            }
            write_fields(out, settings, *row_index, profit_and_loss, false);
            let (specific_part, nisa_part) = split_amount(profit_and_loss);
            specific_account_total += specific_part as i128;
            nisa_account_total += nisa_part as i128;
            *row_index += 1;
            proof {
                assert(writes_view(out@) =~= writes_view(old(out)@) + record_rows(
                    settings,
                    *old(row_index) as int,
                    list.take(i + 1),
                ));
            }
            i += 1;
        }
        proof {
            assert(list.take(list.len() as int) =~= list);
            lemma_sums_bounded(list);
        }
        (specific_account_total, nisa_account_total)
    }

    /// The style of a cell of a record.
    pub fn get_record_style(&self, settings: &Settings, field_name: &str, value: &Option<String>) -> (r:
        CellStyle)
        ensures
            r@ == resolve_style_spec(
                settings,
                field_name@,
                opt_view(*value),
                false,
            ),
    {
        resolve_style(settings, field_name, value, false)
    }

    /// Appends the row of totals to `out` and moves the cursor below it.
    /// `total` is (specific accounts, tax-exempt accounts).
    pub fn write_footer(
        &self,
        out: &mut Vec<CellWrite>,
        settings: &Settings,
        row_index: &mut u32,
        total: (i128, i128),
    )
        requires
            settings.start_col + FIELD_COUNT <= u32::MAX,
            *old(row_index) < u32::MAX,
            -total_limit() <= total.0 <= total_limit(),
            -total_limit() <= total.1 <= total_limit(),
        ensures
            writes_view(final(out)@) == writes_view(old(out)@) + data_row(
                settings,
                *old(row_index) as int,
                totals_row((total.0 as int, total.1 as int), settings.tax_rate@),
                true,
            ),
            *final(row_index) == *old(row_index) + 1,
    {
        let profit_and_loss = ProfitAndLoss::new_total_realized_profit_and_loss(
            total,
            settings.tax_rate,
        );
        write_fields(out, settings, *row_index, &profit_and_loss, true);
        *row_index += 1;
    }

    /// The style of a cell of a row of totals.
    pub fn get_footer_style(&self, settings: &Settings, field_name: &str, value: &Option<String>) -> (r:
        CellStyle)
        ensures
            r@ == resolve_style_spec(
                settings,
                field_name@,
                opt_view(*value),
                true,
            ),
    {
        resolve_style(settings, field_name, value, true)
    }
}

/// Counts the rows that the periods take, up to `limit`.
fn count_rows(groups: &Vec<PeriodGroup>, limit: u32) -> (r: Option<u32>)
    ensures
        match r {
            Some(n) => n == rows_in(groups@) && n <= limit,
            None => rows_in(groups@) > limit,
        },
{
    let mut rows: u32 = 0;
    let mut i: usize = 0;
    proof {
        assert(groups@.take(0) =~= Seq::<PeriodGroup>::empty());
    }
    while i < groups.len()
        invariant
            i <= groups.len(),
            rows == rows_in(groups@.take(i as int)),
            rows <= limit,
        decreases groups.len() - i,
    {
        let len = groups[i].records.len();
        proof {
            assert(groups@.take(i + 1).drop_last() =~= groups@.take(i as int));
            assert(groups@.take(i + 1).last() == groups@[i as int]);
            lemma_rows_in_prefix(groups@, i + 1);
        }
        if len >= (limit - rows) as usize {
            return None;
        }
        rows = rows + (len as u32) + 1;
        i += 1;
    }
    proof {
        assert(groups@.take(groups.len() as int) =~= groups@);
    }
    Some(rows)
}

/// Decides whether the report has room on the sheet.
pub fn check_fit(settings: &Settings, groups: &Vec<PeriodGroup>) -> (r: bool)
    ensures
        r == report_fits(settings, groups@),
{
    if settings.start_row < 1 || settings.start_col < 1 {
        return false;
    }
    if settings.start_col > u32::MAX - FIELD_COUNT || settings.start_row == u32::MAX {
        proof {
            lemma_rows_in_prefix(groups@, 0);
        }
        return false;
    }
    count_rows(groups, u32::MAX - 1 - settings.start_row).is_some()
}

impl ProfitAndLossManager {
    /// Lays the report out: the header at the configured start, then the
    /// periods in calendar order, each closed by its totals. Fails, without
    /// any cell, where the report has no room on the sheet.
    pub fn lay_out(&self, settings: &Settings) -> (r: Result<Vec<CellWrite>, ReportError>)
        ensures
            match r {
                Ok(cells) => report_fits(settings, self.profit_and_loss_map@) && writes_view(
                    cells@,
                ) == report_cells(settings, self.profit_and_loss_map@),
                Err(e) => !report_fits(settings, self.profit_and_loss_map@)
                    && e is SheetOperationFailure,
            },
    {
        if !check_fit(settings, &self.profit_and_loss_map) {
            return Err(
                ReportError::SheetOperationFailure(
                    String::from_str("the report has no room on the sheet"),
                ),
            );
        }
        let ghost groups = self.profit_and_loss_map@;
        let mut out: Vec<CellWrite> = Vec::new();
        let mut row_index: u32 = settings.start_row;
        proof {
            lemma_rows_in_prefix(groups, 0);
            assert(writes_view(out@) =~= Seq::<CellWriteView>::empty());
        }
        self.write_header(&mut out, settings, &mut row_index);
        let ghost header = writes_view(out@);
        let mut i: usize = 0;
        proof {
            assert(header =~= header_row(settings, settings.start_row as int));
            assert(groups.take(0) =~= Seq::<PeriodGroup>::empty());
            assert(writes_view(out@) =~= header + groups_rows(
                settings,
                settings.start_row + 1,
                groups.take(0),
            ));
        }
        while i < self.profit_and_loss_map.len()
            invariant
                i <= self.profit_and_loss_map.len(),
                groups == self.profit_and_loss_map@,
                report_fits(settings, groups),
                row_index == settings.start_row + 1 + rows_in(groups.take(i as int)),
                header == header_row(settings, settings.start_row as int),
                writes_view(out@) == header + groups_rows(
                    settings,
                    settings.start_row + 1,
                    groups.take(i as int),
                ),
            decreases self.profit_and_loss_map.len() - i,
        {
            let ghost before = writes_view(out@);
            let ghost row = row_index as int;
            proof {
                assert(groups.take(i + 1).drop_last() =~= groups.take(i as int));
                assert(groups.take(i + 1).last() == groups[i as int]);
                lemma_rows_in_prefix(groups, i + 1);
            }
            let list = &self.profit_and_loss_map[i].records;
            let total = self.write_records(&mut out, settings, &mut row_index, list);
            self.write_footer(&mut out, settings, &mut row_index, total);
            proof {
                assert(writes_view(out@) =~= before + group_rows(settings, row, list@));
                assert(writes_view(out@) =~= header + groups_rows(
                    settings,
                    settings.start_row + 1,
                    groups.take(i + 1),
                ));
            }
            i += 1;
        }
        proof {
            assert(groups.take(groups.len() as int) =~= groups);
        }
        Ok(out)
    }
}

/// Whether `after` is `before` with the report of `groups` in the sheet
/// that the settings name. That sheet stands last and once among the
/// titles; the other sheets, their cells and their columns are as they
/// were. The sheet holds what the cells of the report, written in their
/// order, make of an empty sheet, and its thirteen columns have the
/// configured width.
pub open spec fn report_written(
    before: Spreadsheet,
    after: Spreadsheet,
    settings: &Settings,
    groups: Seq<PeriodGroup>,
) -> bool {
    &&& sheet_rewritten(before, after, settings.sheet_title@, report_cells(settings, groups))
    &&& columns_rewritten(
        before,
        after,
        settings.sheet_title@,
        settings.start_col as int,
        FIELD_COUNT as int,
        settings.column_width as int,
    )
}

impl ProfitAndLossManager {
    /// Writes the report into the workbook: makes the sheet that the
    /// settings name anew, writes the header and the periods into it, and
    /// sets the widths of its columns. Fails where the report has no room
    /// on the sheet.
    pub fn write(&self, book: Spreadsheet, settings: &Settings) -> (r: Result<
        Spreadsheet,
        ReportError,
    >)
        ensures
            match r {
                Ok(after) => report_fits(settings, self.profit_and_loss_map@) && report_written(
                    book,
                    after,
                    settings,
                    self.profit_and_loss_map@,
                ),
                Err(e) => !report_fits(settings, self.profit_and_loss_map@)
                    && e is SheetOperationFailure,
            },
    {
        let cells = match self.lay_out(settings) {
            Ok(cells) => cells,
            Err(e) => {
                return Err(e);
            },
        };
        ExcelWriter::update_sheet(
            book,
            settings.sheet_title.as_str(),
            &cells,
            settings.start_col,
            FIELD_COUNT,
            settings.column_width,
        )
    }
}

/// What a written report leaves in the workbook, cell by cell. A cell of
/// another sheet is there exactly if it was, and is as it was. The sheet
/// of the report holds a cell at each place of the report and nowhere
/// else. Each of these cells has the kept text of its value, or no text
/// without a value; the number format, the background and the font colour
/// that the report gives it, and none where the report gives none; and
/// thin borders on all four sides.
pub proof fn lemma_report_cell_by_cell(
    before: Spreadsheet,
    after: Spreadsheet,
    settings: &Settings,
    groups: Seq<PeriodGroup>,
)
    requires
        report_written(before, after, settings, groups),
    ensures
        forall|k: (Seq<char>, int, int)|
            #![trigger sheet_cells(after).dom().contains(k)]
            k.0 != settings.sheet_title@ ==> (sheet_cells(after).dom().contains(k)
                <==> sheet_cells(before).dom().contains(k)),
        forall|k: (Seq<char>, int, int)|
            #![trigger sheet_cells(after)[k]]
            k.0 != settings.sheet_title@ && sheet_cells(before).dom().contains(k) ==> sheet_cells(
                after,
            )[k] == sheet_cells(before)[k],
        forall|k: (Seq<char>, int, int)|
            #![trigger sheet_cells(after).dom().contains(k)]
            k.0 == settings.sheet_title@ ==> (sheet_cells(after).dom().contains(k) <==> is_written(
                report_cells(settings, groups),
                settings.sheet_title@,
                k,
            )),
        forall|i: int|
            0 <= i < report_cells(settings, groups).len() ==> sheet_cells(after)[key_of(
                settings.sheet_title@,
                #[trigger] report_cells(settings, groups)[i],
            )] == cell_after(
                blank_cell(),
                report_cells(settings, groups)[i].value,
                report_cells(settings, groups)[i].style,
            ),
{
    let title = settings.sheet_title@;
    let report = report_cells(settings, groups);
    let cleared = sheet_cells(before).restrict(cells_elsewhere(title));
    lemma_report_grid(settings, groups);
    lemma_cells_after_each(cleared, title, report);
    assert forall|k: (Seq<char>, int, int)| k.0 != title implies !is_written(report, title, k) by {}
    assert forall|k: (Seq<char>, int, int)|
        #![trigger sheet_cells(after).dom().contains(k)]
        k.0 == title implies (sheet_cells(after).dom().contains(k) <==> is_written(
            report,
            title,
            k,
        )) by {
        assert(!cleared.dom().contains(k));
    }
    assert forall|k: (Seq<char>, int, int)|
        #![trigger sheet_cells(after).dom().contains(k)]
        k.0 != title implies (sheet_cells(after).dom().contains(k) <==> sheet_cells(
            before,
        ).dom().contains(k)) by {
        assert(cleared.dom().contains(k) <==> sheet_cells(before).dom().contains(k));
    }
    assert forall|k: (Seq<char>, int, int)|
        #![trigger sheet_cells(after)[k]]
        k.0 != title && sheet_cells(before).dom().contains(k) implies sheet_cells(after)[k]
        == sheet_cells(before)[k] by {
        assert(cleared.dom().contains(k));
        assert(cleared[k] == sheet_cells(before)[k]);
    }
    assert forall|i: int| 0 <= i < report.len() implies sheet_cells(after)[key_of(
        title,
        #[trigger] report[i],
    )] == cell_after(blank_cell(), report[i].value, report[i].style) by {
        assert(!cleared.dom().contains(key_of(title, report[i])));
    }
}

/// Writing the same report a second time changes nothing: the workbook
/// has the same sheets, the same cells with the same text and style, and
/// the same column widths as after the first time.
pub proof fn lemma_second_run_changes_nothing(
    given: Spreadsheet,
    once: Spreadsheet,
    twice: Spreadsheet,
    settings: &Settings,
    groups: Seq<PeriodGroup>,
)
    requires
        report_written(given, once, settings, groups),
        report_written(once, twice, settings, groups),
    ensures
        sheet_titles(twice) == sheet_titles(once),
        sheet_cells(twice) == sheet_cells(once),
        column_widths(twice) == column_widths(once),
{
    let title = settings.sheet_title@;
    let report = report_cells(settings, groups);
    let cleared = sheet_cells(given).restrict(cells_elsewhere(title));
    lemma_cells_after_elsewhere(cleared, title, report);
    assert(cleared.restrict(cells_elsewhere(title)) =~= cleared);
    let kept = titles_without(sheet_titles(given), title);
    lemma_titles_without_lacks(sheet_titles(given), title);
    lemma_titles_without_absent(kept, title);
    assert(titles_without(kept.push(title), title) == kept) by {
        reveal(Seq::filter);
        assert(kept.push(title).drop_last() =~= kept);
    }
    let columns = column_widths(given).restrict(columns_elsewhere(title));
    let set = widths_set(
        title,
        settings.start_col as int,
        FIELD_COUNT as int,
        settings.column_width as int,
    );
    assert(columns.union_prefer_right(set).restrict(columns_elsewhere(title)) =~= columns);
    assert(column_widths(twice) =~= column_widths(once));
}

} // verus!
