//! The visual attributes resolved for one report cell.

use vstd::prelude::*;

verus! {

/// Optional background colour, number format and font colour of a cell.
/// Colours are ARGB hex strings; the format is a number-format pattern.
#[derive(Clone, Debug)]
pub struct CellStyle {
    pub background_color: Option<String>,
    pub font_format: Option<String>,
    pub font_color: Option<String>,
}

/// The characters of an optional borrowed string.
pub open spec fn opt_ref_view(s: Option<&String>) -> Option<Seq<char>> {
    match s {
        Some(v) => Some(v@),
        None => None,
    }
}

/// The characters of an optional owned string.
pub open spec fn opt_view(s: Option<String>) -> Option<Seq<char>> {
    match s {
        Some(v) => Some(v@),
        None => None,
    }
}

/// An owned copy of an optional borrowed string.
pub fn clone_opt(s: Option<&String>) -> (r: Option<String>)
    ensures
        opt_view(r) == opt_ref_view(s),
{
    match s {
        Some(v) => Some(v.clone()),
        None => None,
    }
}

/// An owned copy of an optional string.
pub fn copy_opt(s: &Option<String>) -> (r: Option<String>)
    ensures
        opt_view(r) == opt_view(*s),
{
    match s {
        Some(v) => Some(v.clone()),
        None => None,
    }
}

impl CellStyle {
    /// The three attributes as optional character sequences:
    /// (background colour, number format, font colour).
    pub open spec fn view(&self) -> (Option<Seq<char>>, Option<Seq<char>>, Option<Seq<char>>) {
        (opt_view(self.background_color), opt_view(self.font_format), opt_view(self.font_color))
    }

    /// Builds a style that owns copies of the given attributes.
    pub fn new(
        background_color: Option<&String>,
        font_format: Option<&String>,
        font_color: Option<&String>,
    ) -> (r: Self)
        ensures
            r@ == (
                opt_ref_view(background_color),
                opt_ref_view(font_format),
                opt_ref_view(font_color),
            ),
    {
        CellStyle {
            background_color: clone_opt(background_color),
            font_format: clone_opt(font_format),
            font_color: clone_opt(font_color),
        }
    }
}

} // verus!
