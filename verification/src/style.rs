//! The style rules: which number format and which colours a cell gets,
//! from the field it shows, its text, and the kind of row it stands in.

use vstd::prelude::*;
use vstd::string::*;
use crate::cell_style::{opt_view, CellStyle};
use crate::number::{int_text, is_digit, lemma_nat_text_value, nat_text};
use crate::settings::Settings;
use crate::text::{begins_with, same_text, starts_with_char};

verus! {

/// The fields that show a unit price.
pub open spec fn is_unit_price_field(field: Seq<char>) -> bool {
    field == "asked_price"@ || field == "purchase_price"@
}

/// The fields that show a whole amount of yen: proceeds, realized result,
/// and the three totals.
pub open spec fn is_amount_field(field: Seq<char>) -> bool {
    field == "proceeds"@ || field == "realized_profit_and_loss"@ || field
        == "total_realized_profit_and_loss"@ || field == "withholding_tax"@ || field
        == "profit_and_loss"@
}

/// The style of a cell below the header, as
/// (background colour, number format, font colour).
///
/// A cell of a row of totals has the footer background, any other none. A
/// unit price that is set has the two-place yen format. An amount that is
/// set has the whole-yen format, and the loss colour if its text begins
/// with a minus sign. Nothing else is formatted or coloured.
pub open spec fn resolve_style_spec(
    settings: &Settings,
    field: Seq<char>,
    value: Option<Seq<char>>,
    is_footer: bool,
) -> (Option<Seq<char>>, Option<Seq<char>>, Option<Seq<char>>) {
    let background = if is_footer {
        settings.color_spec("footer_background"@)
    } else {
        None
    };
    match value {
        Some(text) => if is_unit_price_field(field) {
            (background, settings.format_spec("yen_decimal"@), None)
        } else if is_amount_field(field) {
            (
                background,
                settings.format_spec("yen"@),
                if begins_with(text, '-') {
                    settings.color_spec("realized_loss_font"@)
                } else {
                    None
                },
            )
        } else {
            (background, None, None)
        },
        None => (background, None, None),
    }
}

/// The style of a header cell: the header background and nothing else.
pub open spec fn header_style_spec(settings: &Settings) -> (
    Option<Seq<char>>,
    Option<Seq<char>>,
    Option<Seq<char>>,
) {
    (settings.color_spec("header_background"@), None, None)
}

/// Whether the field shows a unit price.
pub fn shows_unit_price(field: &str) -> (r: bool)
    ensures
        r == is_unit_price_field(field@),
{
    same_text(field, "asked_price") || same_text(field, "purchase_price")
}

/// Whether the field shows a whole amount of yen.
pub fn shows_amount(field: &str) -> (r: bool)
    ensures
        r == is_amount_field(field@),
{
    same_text(field, "proceeds") || same_text(field, "realized_profit_and_loss") || same_text(
        field,
        "total_realized_profit_and_loss",
    ) || same_text(field, "withholding_tax") || same_text(field, "profit_and_loss")
}

/// Decides the style of a cell below the header.
pub fn resolve_style(settings: &Settings, field: &str, value: &Option<String>, is_footer: bool) -> (r:
    CellStyle)
    ensures
        r@ == resolve_style_spec(settings, field@, opt_view(*value), is_footer),
{
    let background = if is_footer {
        settings.color("footer_background")
    } else {
        None
    };
    match value {
        Some(text) => {
            if shows_unit_price(field) {
                CellStyle::new(background, settings.format("yen_decimal"), None)
            } else if shows_amount(field) {
                if starts_with_char(text.as_str(), '-') {
                    CellStyle::new(
                        background,
                        settings.format("yen"),
                        settings.color("realized_loss_font"),
                    )
                } else {
                    CellStyle::new(background, settings.format("yen"), None)
                }
            } else {
                CellStyle::new(background, None, None)
            }
        },
        None => CellStyle::new(background, None, None),
    }
}

/// Decides the style of a header cell.
pub fn header_style(settings: &Settings) -> (r: CellStyle)
    ensures
        r@ == header_style_spec(settings),
{
    CellStyle::new(settings.color("header_background"), None, None)
}

/// A realized result is shown in the loss colour exactly when it is
/// negative, in a record and in a row of totals alike; and so is every
/// other whole amount.
pub proof fn lemma_loss_colour(settings: &Settings, field: Seq<char>, amount: int, is_footer: bool)
    requires
        is_amount_field(field),
    ensures
        resolve_style_spec(settings, field, Some(int_text(amount)), is_footer).2 == if amount
            < 0 {
            settings.color_spec("realized_loss_font"@)
        } else {
            None
        },
        resolve_style_spec(settings, field, Some(int_text(amount)), is_footer).1
            == settings.format_spec("yen"@),
{
    reveal_strlit("asked_price");
    reveal_strlit("purchase_price");
    reveal_strlit("proceeds");
    reveal_strlit("realized_profit_and_loss");
    reveal_strlit("total_realized_profit_and_loss");
    reveal_strlit("withholding_tax");
    reveal_strlit("profit_and_loss");
    assert(!is_unit_price_field(field)) by {
        assert("asked_price"@.len() == 11);
        assert("purchase_price"@.len() == 14);
        assert("asked_price"@[0] == 'a');
        assert("purchase_price"@[1] == 'u');
        assert("proceeds"@[1] == 'r');
        assert("realized_profit_and_loss"@[0] == 'r');
        assert("total_realized_profit_and_loss"@[0] == 't');
        assert("withholding_tax"@[0] == 'w');
        assert("profit_and_loss"@[1] == 'r');
    }
    if amount >= 0 {
        lemma_nat_text_value(amount as nat);
        assert(is_digit(nat_text(amount as nat)[0]));
    }
}

} // verus!
