//! Puts a laid-out report into a workbook.

use vstd::prelude::*;
use crate::cell_style::opt_view;
use crate::cell_write::{writes_view, CellWrite};
use crate::error::ReportError;
use crate::excel::{columns_rewritten, sheet_rewritten, ExcelAccessor};
use crate::settings::Settings;
use crate::style::{resolve_style, resolve_style_spec};
use umya_spreadsheet::Spreadsheet;

verus! {

/// Writes reports into workbooks.
pub struct ExcelWriter;

impl ExcelWriter {
    /// Makes the sheet `sheet_title` of the workbook anew, writes the cells
    /// into it in their order, and gives the `len` columns from `start_col`
    /// on the width `width`.
    pub fn update_sheet(
        book: Spreadsheet,
        sheet_title: &str,
        cells: &Vec<CellWrite>,
        start_col: u32,
        len: u32,
        width: u32,
    ) -> (r: Result<Spreadsheet, ReportError>)
        requires
            start_col + len <= u32::MAX,
        ensures
            r matches Ok(after) && sheet_rewritten(book, after, sheet_title@, writes_view(cells@))
                && columns_rewritten(
                book,
                after,
                sheet_title@,
                start_col as int,
                len as int,
                width as int,
            ),
    {
        let mut accessor = match ExcelAccessor::read_book(sheet_title, book) {
            Ok(accessor) => accessor,
            Err(e) => {
                return Err(e);
            },
        };
        accessor.write_cells(cells);
        accessor.adjust_column_widths(start_col, width, len);
        Ok(accessor.into_book())
    }

    /// What is written for a field of a record:
    /// (value, number format, background colour, font colour).
    pub fn get_record_style(settings: &Settings, key: &str, value: Option<String>) -> (r: (
        Option<String>,
        Option<String>,
        Option<String>,
        Option<String>,
    ))
        ensures
            r.0 == value,
            (opt_view(r.2), opt_view(r.1), opt_view(r.3)) == resolve_style_spec(
                settings,
                key@,
                opt_view(value),
                false,
            ),
    {
        let style = resolve_style(settings, key, &value, false);
        (value, style.font_format, style.background_color, style.font_color)
    }

    /// What is written for a field of a row of totals:
    /// (value, number format, background colour, font colour).
    pub fn get_footter_style(settings: &Settings, key: &str, value: Option<String>) -> (r: (
        Option<String>,
        Option<String>,
        Option<String>,
        Option<String>,
    ))
        ensures
            r.0 == value,
            (opt_view(r.2), opt_view(r.1), opt_view(r.3)) == resolve_style_spec(
                settings,
                key@,
                opt_view(value),
                true,
            ),
    {
        let style = resolve_style(settings, key, &value, true);
        (value, style.font_format, style.background_color, style.font_color)
    }
}

} // verus!
