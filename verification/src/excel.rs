//! The document: a workbook of `umya_spreadsheet`, seen through a model of
//! its sheets and cells, and the accessor that writes a report's cells
//! into one sheet of it.

use vstd::prelude::*;
use vstd::string::*;
use crate::cell_style::{opt_view, CellStyle};
use crate::cell_write::{writes_view, CellWrite, CellWriteView};
use crate::coordinate::CoordinateItem;
use crate::error::ReportError;
use crate::text::strings_view;
use umya_spreadsheet::Spreadsheet;

verus! {

/// The workbook of `umya_spreadsheet`. Nothing of its inside is visible
/// here; what the contracts say of it, they say through [`sheet_titles`],
/// [`sheet_cells`], [`column_widths`] and [`plain_sheets`].
#[verifier::external_type_specification]
#[verifier::external_body]
pub struct ExSpreadsheet(umya_spreadsheet::Spreadsheet);

/// The titles of the workbook's sheets, in their order, whether a sheet
/// is loaded or still raw.
pub uninterp spec fn sheet_titles(book: Spreadsheet) -> Seq<Seq<char>>;

/// The cells that the workbook holds, by (sheet title, column, row), in the
/// first sheet of each title, as that sheet is once it is loaded. Of each
/// cell: the text that `Cell::get_value` gives; the code of its number
/// format, the ARGB of its background and the ARGB of its font colour, each
/// if it has one; and the style of its four borders where it has borders
/// and all four have the same style.
pub uninterp spec fn sheet_cells(book: Spreadsheet) -> Map<
    (Seq<char>, int, int),
    (Seq<char>, Option<Seq<char>>, Option<Seq<char>>, Option<Seq<char>>, Option<Seq<char>>),
>;

/// The widths of the columns whose width is a whole number, by
/// (sheet title, column), in the first sheet of each title, as that sheet
/// is once it is loaded.
pub uninterp spec fn column_widths(book: Spreadsheet) -> Map<(Seq<char>, int), int>;

/// The titles whose first sheet is loaded, not kept as raw data, and has
/// no row and no column with a style of its own.
pub uninterp spec fn plain_sheets(book: Spreadsheet) -> Set<Seq<char>>;

/// The text that `Cell::get_value` gives once `Cell::set_value` was given
/// `text`. `set_value` guesses a type for the text and keeps the value of
/// that type, so a number comes back as that number is printed.
pub uninterp spec fn stored_value(text: Seq<char>) -> Seq<char>;

/// The keys of the cells that do not stand in the sheet `title`.
pub open spec fn cells_elsewhere(title: Seq<char>) -> Set<(Seq<char>, int, int)> {
    Set::new(|k: (Seq<char>, int, int)| k.0 != title)
}

/// The keys of the columns that do not stand in the sheet `title`.
pub open spec fn columns_elsewhere(title: Seq<char>) -> Set<(Seq<char>, int)> {
    Set::new(|k: (Seq<char>, int)| k.0 != title)
}

/// `titles` without `title`.
pub open spec fn titles_without(titles: Seq<Seq<char>>, title: Seq<char>) -> Seq<Seq<char>> {
    titles.filter(|t: Seq<char>| t != title)
}

/// A cell as it is made: no text, no number format, no background, no font
/// colour, no borders.
pub open spec fn blank_cell() -> (
    Seq<char>,
    Option<Seq<char>>,
    Option<Seq<char>>,
    Option<Seq<char>>,
    Option<Seq<char>>,
) {
    (Seq::empty(), None, None, None, None)
}

/// The names of the border styles that `umya_spreadsheet` knows.
pub open spec fn is_border_style(style: Seq<char>) -> bool {
    style == "dashDot"@ || style == "dashDotDot"@ || style == "dashed"@ || style == "dotted"@
        || style == "double"@ || style == "hair"@ || style == "medium"@ || style
        == "mediumDashDot"@ || style == "mediumDashDotDot"@ || style == "mediumDashed"@ || style
        == "none"@ || style == "slantDashDot"@ || style == "thick"@ || style == "thin"@
}

/// `Spreadsheet::get_sheet_collection_no_check` and, of each sheet,
/// `Worksheet::get_name`: the titles of the sheets in their order. No sheet
/// is loaded for it.
#[verifier::external_body]
fn sheet_names(book: &Spreadsheet) -> (r: Vec<String>)
    ensures
        strings_view(r@) == sheet_titles(*book),
{
    book.get_sheet_collection_no_check().iter().map(|sheet| sheet.get_name().to_string()).collect()
}

/// `Spreadsheet::remove_sheet_by_name`: every sheet of that title leaves,
/// with its cells and columns; the other sheets stay as they are. It fails
/// where no sheet has that title.
#[verifier::external_body]
fn remove_sheet(book: &mut Spreadsheet, title: &str) -> (r: Result<(), &'static str>)
    ensures
        r is Ok == sheet_titles(*old(book)).contains(title@),
        sheet_titles(*final(book)) == titles_without(sheet_titles(*old(book)), title@),
        sheet_cells(*final(book)) == sheet_cells(*old(book)).restrict(cells_elsewhere(title@)),
        column_widths(*final(book)) == column_widths(*old(book)).restrict(
            columns_elsewhere(title@),
        ),
        plain_sheets(*final(book)) == plain_sheets(*old(book)).remove(title@),
{
    book.remove_sheet_by_name(title)
}

/// `Spreadsheet::new_sheet`: a sheet of that title, loaded and without
/// cells, styled rows or styled columns, is put after the others, which
/// stay as they are. It fails, and changes nothing, where a sheet has that
/// title already.
#[verifier::external_body]
fn new_sheet(book: &mut Spreadsheet, title: &str) -> (r: Result<(), &'static str>)
    ensures
        r is Ok == !sheet_titles(*old(book)).contains(title@),
        r is Ok ==> sheet_titles(*final(book)) == sheet_titles(*old(book)).push(title@),
        r is Ok ==> sheet_cells(*final(book)) == sheet_cells(*old(book)).restrict(
            cells_elsewhere(title@),
        ),
        r is Ok ==> column_widths(*final(book)) == column_widths(*old(book)).restrict(
            columns_elsewhere(title@),
        ),
        r is Ok ==> plain_sheets(*final(book)) == plain_sheets(*old(book)).insert(title@),
        r is Err ==> sheet_titles(*final(book)) == sheet_titles(*old(book)),
        r is Err ==> sheet_cells(*final(book)) == sheet_cells(*old(book)),
        r is Err ==> column_widths(*final(book)) == column_widths(*old(book)),
        r is Err ==> plain_sheets(*final(book)) == plain_sheets(*old(book)),
{
    match book.new_sheet(title) {
        Ok(_) => Ok(()),
        Err(e) => Err(e),
    }
}

/// `Worksheet::get_cell_mut` on a plain sheet: a cell that is there stays
/// as it is; one that is not is made, as [`blank_cell`] says. Every other
/// cell is as it was, and so is every column of a whole-number width.
#[verifier::external_body]
fn ensure_cell(book: &mut Spreadsheet, title: &str, col: u32, row: u32)
    requires
        plain_sheets(*old(book)).contains(title@),
    ensures
        sheet_titles(*final(book)) == sheet_titles(*old(book)),
        column_widths(*final(book)) == column_widths(*old(book)),
        plain_sheets(*final(book)) == plain_sheets(*old(book)),
        sheet_cells(*final(book)) == if sheet_cells(*old(book)).dom().contains(
            (title@, col as int, row as int),
        ) {
            sheet_cells(*old(book))
        } else {
            sheet_cells(*old(book)).insert((title@, col as int, row as int), blank_cell())
        },
{
    book.get_sheet_by_name_mut(title).unwrap().get_cell_mut((col, row));
}

/// `Cell::set_value` on a cell that is there: its text becomes what
/// `set_value` keeps of `value`; nothing else changes.
#[verifier::external_body]
fn set_cell_value(book: &mut Spreadsheet, title: &str, col: u32, row: u32, value: &str)
    requires
        plain_sheets(*old(book)).contains(title@),
        sheet_cells(*old(book)).dom().contains((title@, col as int, row as int)),
    ensures
        sheet_titles(*final(book)) == sheet_titles(*old(book)),
        column_widths(*final(book)) == column_widths(*old(book)),
        plain_sheets(*final(book)) == plain_sheets(*old(book)),
        sheet_cells(*final(book)) == sheet_cells(*old(book)).insert(
            (title@, col as int, row as int),
            (
                stored_value(value@),
                sheet_cells(*old(book))[(title@, col as int, row as int)].1,
                sheet_cells(*old(book))[(title@, col as int, row as int)].2,
                sheet_cells(*old(book))[(title@, col as int, row as int)].3,
                sheet_cells(*old(book))[(title@, col as int, row as int)].4,
            ),
        ),
{
    book.get_sheet_by_name_mut(title).unwrap().get_cell_mut((col, row)).set_value(value);
}

/// `NumberingFormat::set_format_code` on the style of a cell that is
/// there: its number format has that code; nothing else changes.
#[verifier::external_body]
fn set_cell_format(book: &mut Spreadsheet, title: &str, col: u32, row: u32, code: &str)
    requires
        plain_sheets(*old(book)).contains(title@),
        sheet_cells(*old(book)).dom().contains((title@, col as int, row as int)),
    ensures
        sheet_titles(*final(book)) == sheet_titles(*old(book)),
        column_widths(*final(book)) == column_widths(*old(book)),
        plain_sheets(*final(book)) == plain_sheets(*old(book)),
        sheet_cells(*final(book)) == sheet_cells(*old(book)).insert(
            (title@, col as int, row as int),
            (
                sheet_cells(*old(book))[(title@, col as int, row as int)].0,
                Some(code@),
                sheet_cells(*old(book))[(title@, col as int, row as int)].2,
                sheet_cells(*old(book))[(title@, col as int, row as int)].3,
                sheet_cells(*old(book))[(title@, col as int, row as int)].4,
            ),
        ),
{
    book.get_sheet_by_name_mut(title).unwrap().get_cell_mut((col, row)).get_style_mut()
        .get_number_format_mut().set_format_code(code);
}

/// `Style::set_background_color` on a cell that is there: its background
/// is that colour; nothing else changes.
#[verifier::external_body]
fn set_cell_background(book: &mut Spreadsheet, title: &str, col: u32, row: u32, argb: &str)
    requires
        plain_sheets(*old(book)).contains(title@),
        sheet_cells(*old(book)).dom().contains((title@, col as int, row as int)),
    ensures
        sheet_titles(*final(book)) == sheet_titles(*old(book)),
        column_widths(*final(book)) == column_widths(*old(book)),
        plain_sheets(*final(book)) == plain_sheets(*old(book)),
        sheet_cells(*final(book)) == sheet_cells(*old(book)).insert(
            (title@, col as int, row as int),
            (
                sheet_cells(*old(book))[(title@, col as int, row as int)].0,
                sheet_cells(*old(book))[(title@, col as int, row as int)].1,
                Some(argb@),
                sheet_cells(*old(book))[(title@, col as int, row as int)].3,
                sheet_cells(*old(book))[(title@, col as int, row as int)].4,
            ),
        ),
{
    book.get_sheet_by_name_mut(title).unwrap().get_cell_mut((col, row)).get_style_mut()
        .set_background_color(argb);
}

/// `Color::set_argb` on the font of a cell that is there: its font has
/// that colour; nothing else changes.
#[verifier::external_body]
fn set_cell_font_color(book: &mut Spreadsheet, title: &str, col: u32, row: u32, argb: &str)
    requires
        plain_sheets(*old(book)).contains(title@),
        sheet_cells(*old(book)).dom().contains((title@, col as int, row as int)),
    ensures
        sheet_titles(*final(book)) == sheet_titles(*old(book)),
        column_widths(*final(book)) == column_widths(*old(book)),
        plain_sheets(*final(book)) == plain_sheets(*old(book)),
        sheet_cells(*final(book)) == sheet_cells(*old(book)).insert(
            (title@, col as int, row as int),
            (
                sheet_cells(*old(book))[(title@, col as int, row as int)].0,
                sheet_cells(*old(book))[(title@, col as int, row as int)].1,
                sheet_cells(*old(book))[(title@, col as int, row as int)].2,
                Some(argb@),
                sheet_cells(*old(book))[(title@, col as int, row as int)].4,
            ),
        ),
{
    book.get_sheet_by_name_mut(title).unwrap().get_cell_mut((col, row)).get_style_mut()
        .get_font_mut().get_color_mut().set_argb(argb);
}

/// `Border::set_border_style` on each of the four borders of a cell that
/// is there, with the name of a border style: all four have that style;
/// nothing else changes.
#[verifier::external_body]
fn set_cell_borders(book: &mut Spreadsheet, title: &str, col: u32, row: u32, style: &str)
    requires
        plain_sheets(*old(book)).contains(title@),
        sheet_cells(*old(book)).dom().contains((title@, col as int, row as int)),
        is_border_style(style@),
    ensures
        sheet_titles(*final(book)) == sheet_titles(*old(book)),
        column_widths(*final(book)) == column_widths(*old(book)),
        plain_sheets(*final(book)) == plain_sheets(*old(book)),
        sheet_cells(*final(book)) == sheet_cells(*old(book)).insert(
            (title@, col as int, row as int),
            (
                sheet_cells(*old(book))[(title@, col as int, row as int)].0,
                sheet_cells(*old(book))[(title@, col as int, row as int)].1,
                sheet_cells(*old(book))[(title@, col as int, row as int)].2,
                sheet_cells(*old(book))[(title@, col as int, row as int)].3,
                Some(style@),
            ),
        ),
{
    let sheet = book.get_sheet_by_name_mut(title).unwrap();
    let borders = sheet.get_cell_mut((col, row)).get_style_mut().get_borders_mut();
    borders.get_bottom_border_mut().set_border_style(style);
    borders.get_left_border_mut().set_border_style(style);
    borders.get_right_border_mut().set_border_style(style);
    borders.get_top_border_mut().set_border_style(style);
}

/// `Column::set_width` on the column of that number of a plain sheet: it
/// has that width; the cells and the other columns are as they were, and
/// the sheet is as plain as it was.
#[verifier::external_body]
fn set_column_width(book: &mut Spreadsheet, title: &str, col: u32, width: u32)
    requires
        plain_sheets(*old(book)).contains(title@),
    ensures
        sheet_titles(*final(book)) == sheet_titles(*old(book)),
        sheet_cells(*final(book)) == sheet_cells(*old(book)),
        plain_sheets(*final(book)) == plain_sheets(*old(book)),
        column_widths(*final(book)) == column_widths(*old(book)).insert(
            (title@, col as int),
            width as int,
        ),
{
    book.get_sheet_by_name_mut(title).unwrap().get_column_dimension_by_number_mut(&col)
        .set_width(width.into());
}

/// Searches the titles for `title`.
fn holds_title(names: &Vec<String>, title: &str) -> (r: bool)
    ensures
        r == strings_view(names@).contains(title@),
{
    let wanted = String::from_str(title);
    let mut i: usize = 0;
    while i < names.len()
        invariant
            i <= names.len(),
            wanted@ == title@,
            forall|j: int| 0 <= j < i ==> strings_view(names@)[j] != title@,
        decreases names.len() - i,
    {
        if names[i] == wanted {
            assert(strings_view(names@)[i as int] == title@);
            return true;
        }
        i += 1;
    }
    false
}

/// The cell at `key` before a write: the cell that is there, or the cell
/// as it is made.
pub open spec fn prior_cell(
    cells: Map<
        (Seq<char>, int, int),
        (Seq<char>, Option<Seq<char>>, Option<Seq<char>>, Option<Seq<char>>, Option<Seq<char>>),
    >,
    key: (Seq<char>, int, int),
) -> (Seq<char>, Option<Seq<char>>, Option<Seq<char>>, Option<Seq<char>>, Option<Seq<char>>) {
    if cells.dom().contains(key) {
        cells[key]
    } else {
        blank_cell()
    }
}

/// A cell after a write: the kept text of the value, the number format, the
/// background and the font colour, each where the write gives one and as
/// before where it gives none, and thin borders on all four sides.
pub open spec fn cell_after(
    prior: (Seq<char>, Option<Seq<char>>, Option<Seq<char>>, Option<Seq<char>>, Option<Seq<char>>),
    value: Option<Seq<char>>,
    style: (Option<Seq<char>>, Option<Seq<char>>, Option<Seq<char>>),
) -> (Seq<char>, Option<Seq<char>>, Option<Seq<char>>, Option<Seq<char>>, Option<Seq<char>>) {
    (
        match value {
            Some(text) => stored_value(text),
            None => prior.0,
        },
        match style.1 {
            Some(code) => Some(code),
            None => prior.1,
        },
        match style.0 {
            Some(argb) => Some(argb),
            None => prior.2,
        },
        match style.2 {
            Some(argb) => Some(argb),
            None => prior.3,
        },
        Some("thin"@),
    )
}

/// The key of the cell that a write goes to in the sheet `title`.
pub open spec fn key_of(title: Seq<char>, w: CellWriteView) -> (Seq<char>, int, int) {
    (title, w.col, w.row)
}

/// The cells after one write in the sheet `title`.
pub open spec fn cells_after_write(
    cells: Map<
        (Seq<char>, int, int),
        (Seq<char>, Option<Seq<char>>, Option<Seq<char>>, Option<Seq<char>>, Option<Seq<char>>),
    >,
    title: Seq<char>,
    w: CellWriteView,
) -> Map<
    (Seq<char>, int, int),
    (Seq<char>, Option<Seq<char>>, Option<Seq<char>>, Option<Seq<char>>, Option<Seq<char>>),
> {
    cells.insert(
        key_of(title, w),
        cell_after(prior_cell(cells, key_of(title, w)), w.value, w.style),
    )
}

/// The cells after the writes, made in their order in the sheet `title`.
pub open spec fn cells_after(
    cells: Map<
        (Seq<char>, int, int),
        (Seq<char>, Option<Seq<char>>, Option<Seq<char>>, Option<Seq<char>>, Option<Seq<char>>),
    >,
    title: Seq<char>,
    writes: Seq<CellWriteView>,
) -> Map<
    (Seq<char>, int, int),
    (Seq<char>, Option<Seq<char>>, Option<Seq<char>>, Option<Seq<char>>, Option<Seq<char>>),
>
    decreases writes.len(),
{
    if writes.len() == 0 {
        cells
    } else {
        cells_after_write(cells_after(cells, title, writes.drop_last()), title, writes.last())
    }
}

/// Whether some write of `writes` goes to the cell `key` of sheet `title`.
pub open spec fn is_written(writes: Seq<CellWriteView>, title: Seq<char>, key: (
    Seq<char>,
    int,
    int,
)) -> bool {
    exists|i: int| 0 <= i < writes.len() && key_of(title, #[trigger] writes[i]) == key
}

/// Whether no two writes of `writes` go to the same cell.
pub open spec fn places_differ(writes: Seq<CellWriteView>) -> bool {
    forall|i: int, j: int|
        0 <= i < j < writes.len() ==> ((#[trigger] writes[i]).col, writes[i].row) != (
            (#[trigger] writes[j]).col,
            writes[j].row,
        )
}

/// The columns `start_col` to `start_col + len - 1` of the sheet `title`,
/// each with the width `width`.
pub open spec fn widths_set(title: Seq<char>, start_col: int, len: int, width: int) -> Map<
    (Seq<char>, int),
    int,
> {
    Map::new(
        |k: (Seq<char>, int)| k.0 == title && start_col <= k.1 < start_col + len,
        |k: (Seq<char>, int)| width,
    )
}

/// Whether `after` is `before` with the sheet `title` made anew from the
/// writes: that sheet stands last and once among the titles, the other
/// sheets and their cells are as they were, and the sheet holds what the
/// writes make of an empty sheet.
pub open spec fn sheet_rewritten(
    before: Spreadsheet,
    after: Spreadsheet,
    title: Seq<char>,
    writes: Seq<CellWriteView>,
) -> bool {
    &&& sheet_titles(after) == titles_without(sheet_titles(before), title).push(title)
    &&& sheet_cells(after) == cells_after(
        sheet_cells(before).restrict(cells_elsewhere(title)),
        title,
        writes,
    )
}

/// Whether the columns of sheet `title` in `after` are those set, and the
/// columns of the other sheets are as in `before`.
pub open spec fn columns_rewritten(
    before: Spreadsheet,
    after: Spreadsheet,
    title: Seq<char>,
    start_col: int,
    len: int,
    width: int,
) -> bool {
    column_widths(after) == column_widths(before).restrict(
        columns_elsewhere(title),
    ).union_prefer_right(widths_set(title, start_col, len, width))
}

/// Titles that all differ from `title` stay when `title` is taken out.
pub proof fn lemma_titles_without_absent(titles: Seq<Seq<char>>, title: Seq<char>)
    requires
        !titles.contains(title),
    ensures
        titles_without(titles, title) == titles,
    decreases titles.len(),
{
    reveal(Seq::filter);
    if titles.len() > 0 {
        assert(titles.drop_last().push(titles.last()) =~= titles);
        assert(titles.last() == titles[titles.len() - 1]);
        assert forall|i: int| 0 <= i < titles.drop_last().len() implies titles.drop_last()[i]
            != title by {
            assert(titles[i] == titles.drop_last()[i]);
        }
        lemma_titles_without_absent(titles.drop_last(), title);
    }
}

/// Once `title` is taken out, it is not among the titles.
pub proof fn lemma_titles_without_lacks(titles: Seq<Seq<char>>, title: Seq<char>)
    ensures
        !titles_without(titles, title).contains(title),
{
    let pred = |t: Seq<char>| t != title;
    let rest = titles.filter(pred);
    if rest.contains(title) {
        let i = choose|i: int| 0 <= i < rest.len() && rest[i] == title;
        titles.lemma_filter_pred(pred, i);
    }
}

/// Writes in the sheet `title` change no cell of another sheet.
pub proof fn lemma_cells_after_elsewhere(
    cells: Map<
        (Seq<char>, int, int),
        (Seq<char>, Option<Seq<char>>, Option<Seq<char>>, Option<Seq<char>>, Option<Seq<char>>),
    >,
    title: Seq<char>,
    writes: Seq<CellWriteView>,
)
    ensures
        cells_after(cells, title, writes).restrict(cells_elsewhere(title)) == cells.restrict(
            cells_elsewhere(title),
        ),
    decreases writes.len(),
{
    if writes.len() > 0 {
        lemma_cells_after_elsewhere(cells, title, writes.drop_last());
        let rest = cells_after(cells, title, writes.drop_last());
        assert(cells_after_write(rest, title, writes.last()).restrict(cells_elsewhere(title))
            =~= rest.restrict(cells_elsewhere(title)));
    }
    assert(cells_after(cells, title, writes).restrict(cells_elsewhere(title)) =~= cells.restrict(
        cells_elsewhere(title),
    ));
}

/// Where no two writes go to the same cell, the cells after the writes are
/// the cells before and the cells written; a cell that no write goes to is
/// as it was; and the cell of each write is what that write makes of the
/// cell that was there, or of a new cell.
pub proof fn lemma_cells_after_each(
    cells: Map<
        (Seq<char>, int, int),
        (Seq<char>, Option<Seq<char>>, Option<Seq<char>>, Option<Seq<char>>, Option<Seq<char>>),
    >,
    title: Seq<char>,
    writes: Seq<CellWriteView>,
)
    requires
        places_differ(writes),
    ensures
        forall|k: (Seq<char>, int, int)|
            #![trigger cells_after(cells, title, writes).dom().contains(k)]
            cells_after(cells, title, writes).dom().contains(k) <==> cells.dom().contains(k)
                || is_written(writes, title, k),
        forall|k: (Seq<char>, int, int)|
            #![trigger cells_after(cells, title, writes)[k]]
            cells.dom().contains(k) && !is_written(writes, title, k) ==> cells_after(
                cells,
                title,
                writes,
            )[k] == cells[k],
        forall|i: int|
            0 <= i < writes.len() ==> cells_after(cells, title, writes)[key_of(
                title,
                #[trigger] writes[i],
            )] == cell_after(
                prior_cell(cells, key_of(title, writes[i])),
                writes[i].value,
                writes[i].style,
            ),
    decreases writes.len(),
{
    if writes.len() > 0 {
        let done = writes.drop_last();
        let w = writes.last();
        let key = key_of(title, w);
        let rest = cells_after(cells, title, done);
        let all = cells_after(cells, title, writes);
        assert forall|i: int, j: int| 0 <= i < j < done.len() implies ((
            #[trigger] done[i]).col, done[i].row) != ((#[trigger] done[j]).col, done[j].row) by {
            assert(done[i] == writes[i] && done[j] == writes[j]);
        }
        lemma_cells_after_each(cells, title, done);
        assert(!is_written(done, title, key)) by {
            if is_written(done, title, key) {
                let i = choose|i: int| 0 <= i < done.len() && key_of(title, #[trigger] done[i]) == key;
                assert(done[i] == writes[i]);
                assert((writes[i].col, writes[i].row) != (
                    writes[writes.len() - 1].col,
                    writes[writes.len() - 1].row,
                ));
            }
        }
        assert forall|k: (Seq<char>, int, int)|
            is_written(writes, title, k) <==> is_written(done, title, k) || k == key by {
            if is_written(writes, title, k) {
                let i = choose|i: int|
                    0 <= i < writes.len() && key_of(title, #[trigger] writes[i]) == k;
                if i < done.len() {
                    assert(done[i] == writes[i]);
                }
            }
            if is_written(done, title, k) {
                let i = choose|i: int| 0 <= i < done.len() && key_of(title, #[trigger] done[i]) == k;
                assert(done[i] == writes[i]);
            }
            if k == key {
                assert(key_of(title, writes[writes.len() - 1]) == k);
            }
        }
        assert forall|k: (Seq<char>, int, int)|
            #![trigger all.dom().contains(k)]
            all.dom().contains(k) <==> cells.dom().contains(k) || is_written(writes, title, k) by {
            assert(rest.dom().contains(k) <==> cells.dom().contains(k) || is_written(
                done,
                title,
                k,
            ));
        }
        assert forall|k: (Seq<char>, int, int)|
            #![trigger all[k]]
            cells.dom().contains(k) && !is_written(writes, title, k) implies all[k]
            == cells[k] by {
            assert(rest[k] == cells[k]);
        }
        assert(prior_cell(rest, key) == prior_cell(cells, key)) by {
            assert(rest.dom().contains(key) <==> cells.dom().contains(key));
            if cells.dom().contains(key) {
                assert(rest[key] == cells[key]);
            }
        }
        assert forall|i: int| 0 <= i < writes.len() implies all[key_of(title, #[trigger] writes[i])]
            == cell_after(
            prior_cell(cells, key_of(title, writes[i])),
            writes[i].value,
            writes[i].style,
        ) by {
            if i < done.len() {
                assert(done[i] == writes[i]);
                assert((writes[i].col, writes[i].row) != (
                    writes[writes.len() - 1].col,
                    writes[writes.len() - 1].row,
                ));
                assert(key_of(title, writes[i]) != key);
            }
        }
    }
}

/// One sheet of a workbook, ready to take the cells of a report.
pub struct ExcelAccessor {
    book: Spreadsheet,
    sheet_title: String,
}

impl ExcelAccessor {
    /// The sheet that the cells go to is a plain sheet of the workbook.
    pub closed spec fn wf(&self) -> bool {
        plain_sheets(self.book).contains(self.sheet_title@)
    }

    /// The workbook as it stands.
    pub closed spec fn book(&self) -> Spreadsheet {
        self.book
    }

    /// The title of the sheet that the cells go to.
    pub closed spec fn title(&self) -> Seq<char> {
        self.sheet_title@
    }

    /// Takes a workbook and makes the sheet `sheet_title` anew in it: a
    /// sheet of that title is removed if there is one, and an empty sheet
    /// of that title is added. The other sheets stay as they are.
    pub fn read_book(sheet_title: &str, book: Spreadsheet) -> (r: Result<Self, ReportError>)
        ensures
            r matches Ok(accessor) && accessor.wf() && accessor.title() == sheet_title@
                && sheet_titles(accessor.book()) == titles_without(
                sheet_titles(book),
                sheet_title@,
            ).push(sheet_title@) && sheet_cells(accessor.book()) == sheet_cells(book).restrict(
                cells_elsewhere(sheet_title@),
            ) && column_widths(accessor.book()) == column_widths(book).restrict(
                columns_elsewhere(sheet_title@),
            ),
    {
        let mut book = book;
        let ghost given = book;
        proof {
            lemma_titles_without_lacks(sheet_titles(given), sheet_title@);
        }
        let names = sheet_names(&book);
        if holds_title(&names, sheet_title) {
            match remove_sheet(&mut book, sheet_title) {
                Ok(()) => {},
                Err(message) => {
                    return Err(ReportError::SheetOperationFailure(String::from_str(message)));
                },
            }
        } else {
            proof {
                lemma_titles_without_absent(sheet_titles(given), sheet_title@);
            }
        }
        match new_sheet(&mut book, sheet_title) {
            Ok(()) => {},
            Err(message) => {
                return Err(ReportError::SheetOperationFailure(String::from_str(message)));
            },
        }
        proof {
            assert(sheet_cells(book) =~= sheet_cells(given).restrict(
                cells_elsewhere(sheet_title@),
            ));
            assert(column_widths(book) =~= column_widths(given).restrict(
                columns_elsewhere(sheet_title@),
            ));
        }
        Ok(ExcelAccessor { book, sheet_title: String::from_str(sheet_title) })
    }

    /// Writes one cell of the sheet: its value and each part of the style
    /// where there is one, and always a thin border on all four sides. A
    /// cell that is not there yet is made. No other cell changes.
    pub fn write_cell(
        &mut self,
        coordinate: CoordinateItem,
        value: &Option<String>,
        cell_style: &CellStyle,
    )
        requires
            old(self).wf(),
        ensures
            final(self).wf(),
            final(self).title() == old(self).title(),
            sheet_titles(final(self).book()) == sheet_titles(old(self).book()),
            column_widths(final(self).book()) == column_widths(old(self).book()),
            sheet_cells(final(self).book()) == cells_after_write(
                sheet_cells(old(self).book()),
                old(self).title(),
                (CellWriteView {
                    col: coordinate.col as int,
                    row: coordinate.row as int,
                    value: opt_view(*value),
                    style: cell_style@,
                }),
            ),
    {
        let ghost key = (self.sheet_title@, coordinate.col as int, coordinate.row as int);
        let ghost before = sheet_cells(self.book);
        let ghost prior = prior_cell(before, key);
        let col = coordinate.col;
        let row = coordinate.row;
        ensure_cell(&mut self.book, self.sheet_title.as_str(), col, row);
        assert(sheet_cells(self.book) =~= before.insert(key, prior));
        if let Some(value) = value {
            set_cell_value(&mut self.book, self.sheet_title.as_str(), col, row, value.as_str());
        }
        let ghost valued = sheet_cells(self.book);
        assert(valued =~= before.insert(
            key,
            (cell_after(prior, opt_view(*value), cell_style@).0, prior.1, prior.2, prior.3, prior.4),
        ));
        if let Some(format) = &cell_style.font_format {
            set_cell_format(&mut self.book, self.sheet_title.as_str(), col, row, format.as_str());
        }
        let ghost formatted = sheet_cells(self.book);
        assert(formatted =~= before.insert(
            key,
            (
                cell_after(prior, opt_view(*value), cell_style@).0,
                cell_after(prior, opt_view(*value), cell_style@).1,
                prior.2,
                prior.3,
                prior.4,
            ),
        ));
        if let Some(background_color) = &cell_style.background_color {
            set_cell_background(
                &mut self.book,
                self.sheet_title.as_str(),
                col,
                row,
                background_color.as_str(),
            );
        }
        let ghost filled = sheet_cells(self.book);
        assert(filled =~= before.insert(
            key,
            (
                cell_after(prior, opt_view(*value), cell_style@).0,
                cell_after(prior, opt_view(*value), cell_style@).1,
                cell_after(prior, opt_view(*value), cell_style@).2,
                prior.3,
                prior.4,
            ),
        ));
        if let Some(font_color) = &cell_style.font_color {
            set_cell_font_color(
                &mut self.book,
                self.sheet_title.as_str(),
                col,
                row,
                font_color.as_str(),
            );
        }
        let ghost coloured = sheet_cells(self.book);
        assert(coloured =~= before.insert(
            key,
            (
                cell_after(prior, opt_view(*value), cell_style@).0,
                cell_after(prior, opt_view(*value), cell_style@).1,
                cell_after(prior, opt_view(*value), cell_style@).2,
                cell_after(prior, opt_view(*value), cell_style@).3,
                prior.4,
            ),
        ));
        set_cell_borders(&mut self.book, self.sheet_title.as_str(), col, row, "thin");
        assert(sheet_cells(self.book) =~= before.insert(
            key,
            cell_after(prior, opt_view(*value), cell_style@),
        ));
    }

    /// Writes the cells in their order, each as [`ExcelAccessor::write_cell`]
    /// does.
    pub fn write_cells(&mut self, writes: &Vec<CellWrite>)
        requires
            old(self).wf(),
        ensures
            final(self).wf(),
            final(self).title() == old(self).title(),
            sheet_titles(final(self).book()) == sheet_titles(old(self).book()),
            column_widths(final(self).book()) == column_widths(old(self).book()),
            sheet_cells(final(self).book()) == cells_after(
                sheet_cells(old(self).book()),
                old(self).title(),
                writes_view(writes@),
            ),
    {
        let ghost before = sheet_cells(self.book);
        let ghost title = self.sheet_title@;
        let ghost all = writes_view(writes@);
        let mut n: usize = 0;
        proof {
            assert(all.take(0).len() == 0);
        }
        while n < writes.len()
            invariant
                n <= writes.len(),
                self.wf(),
                self.title() == title,
                title == old(self).title(),
                before == sheet_cells(old(self).book()),
                all == writes_view(writes@),
                sheet_titles(self.book()) == sheet_titles(old(self).book()),
                column_widths(self.book()) == column_widths(old(self).book()),
                sheet_cells(self.book()) == cells_after(before, title, all.take(n as int)),
            decreases writes.len() - n,
        {
            let write = &writes[n];
            proof {
                assert(all.take(n + 1).drop_last() =~= all.take(n as int));
                assert(all.take(n + 1).last() == write@);
            }
            self.write_cell(write.coordinate, &write.value, &write.style);
            n += 1;
        }
        proof {
            assert(all.take(writes.len() as int) =~= all);
        }
    }

    /// Gives the `len` columns from `start_col` on the width `width`.
    pub fn adjust_column_widths(&mut self, start_col: u32, width: u32, len: u32)
        requires
            old(self).wf(),
            start_col + len <= u32::MAX,
        ensures
            final(self).wf(),
            final(self).title() == old(self).title(),
            sheet_titles(final(self).book()) == sheet_titles(old(self).book()),
            sheet_cells(final(self).book()) == sheet_cells(old(self).book()),
            column_widths(final(self).book()) == column_widths(
                old(self).book(),
            ).union_prefer_right(
                widths_set(old(self).title(), start_col as int, len as int, width as int),
            ),
    {
        let ghost before = column_widths(self.book);
        let ghost title = self.sheet_title@;
        let mut index: u32 = start_col;
        proof {
            assert(before =~= before.union_prefer_right(
                widths_set(title, start_col as int, 0, width as int),
            ));
        }
        while index < start_col + len
            invariant
                start_col <= index <= start_col + len <= u32::MAX,
                self.wf(),
                self.title() == title,
                title == old(self).title(),
                before == column_widths(old(self).book()),
                sheet_titles(self.book()) == sheet_titles(old(self).book()),
                sheet_cells(self.book()) == sheet_cells(old(self).book()),
                column_widths(self.book()) == before.union_prefer_right(
                    widths_set(title, start_col as int, index - start_col, width as int),
                ),
            decreases start_col + len - index,
        {
            set_column_width(&mut self.book, self.sheet_title.as_str(), index, width);
            proof {
                assert(column_widths(self.book) =~= before.union_prefer_right(
                    widths_set(title, start_col as int, index + 1 - start_col, width as int),
                ));
            }
            index += 1;
        }
    }

    /// Hands the workbook back.
    pub fn into_book(self) -> (r: Spreadsheet)
        ensures
            r == self.book(),
    {
        self.book
    }
}

} // verus!
