//! The list of dividends: which of its cells show money.

use vstd::prelude::*;
use vstd::string::*;
use crate::cell_style::{opt_ref_view, CellStyle};
use crate::settings::Settings;
use crate::template_pattern::TemplateStruct;
use crate::text::same_text;

verus! {

/// The fields of a dividend that show an amount of money: the unit price,
/// the three amounts of a dividend, and their three totals.
pub open spec fn is_dividend_amount_field(field: Seq<char>) -> bool {
    field == "unit_price"@ || field == "dividends_before_tax"@ || field == "taxes"@ || field
        == "net_amount_received"@ || field == "total_dividends_before_tax"@ || field
        == "total_taxes"@ || field == "total_net_amount_received"@
}

/// The report of dividends received.
#[derive(Debug)]
pub struct DividendListManager {
    pub template_struct: TemplateStruct,
}

impl DividendListManager {
    /// A report for the given document.
    pub fn new(xlsx_filepath: String) -> (r: Self)
        ensures
            r.template_struct.xlsx_filepath == xlsx_filepath,
    {
        DividendListManager { template_struct: TemplateStruct::new(xlsx_filepath) }
    }

    /// The style of a cell of the list: the given background, the
    /// whole-yen format where the field shows money, and no font colour.
    pub fn get_record_style(
        &self,
        settings: &Settings,
        field_name: &str,
        background_color: Option<&String>,
    ) -> (r: CellStyle)
        ensures
            r@ == (
                opt_ref_view(background_color),
                if is_dividend_amount_field(field_name@) {
                    settings.format_spec("yen"@)
                } else {
                    None
                },
                None::<Seq<char>>,
            ),
    {
        if same_text(field_name, "unit_price") || same_text(field_name, "dividends_before_tax")
            || same_text(field_name, "taxes") || same_text(field_name, "net_amount_received")
            || same_text(field_name, "total_dividends_before_tax") || same_text(
            field_name,
            "total_taxes",
        ) || same_text(field_name, "total_net_amount_received") {
            CellStyle::new(background_color, settings.format("yen"), None)
        } else {
            CellStyle::new(background_color, None, None)
        }
    }
}

} // verus!
