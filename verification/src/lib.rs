//! Realized gains and losses, from a brokerage ledger to a sheet of a
//! workbook.
//!
//! The rows of the ledger become typed records ([`profit_and_loss::record`]).
//! The records are grouped by trade date, in calendar order
//! ([`profit_and_loss::period`]), and each period is reduced to its totals
//! by account class, with the withholding tax on the taxable part
//! ([`profit_and_loss::totals`]). The report is laid out as cells, a header
//! and then each period's records and totals ([`profit_and_loss::layout`]),
//! each cell styled by its field and its sign ([`style`]), and the cells
//! are written into one sheet of the workbook ([`excel`]).

pub mod cell_style;
pub mod cell_write;
pub mod coordinate;
pub mod csv_reader;
pub mod date;
pub mod dividend_list;
pub mod error;
pub mod excel;
pub mod excel_writer;
pub mod factory;
pub mod number;
pub mod profit_and_loss;
pub mod settings;
pub mod style;
pub mod template_pattern;
pub mod text;
