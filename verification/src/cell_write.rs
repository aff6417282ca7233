//! One write against the sheet: where, what text, and in which style.

use vstd::prelude::*;
use crate::cell_style::{opt_view, CellStyle};
use crate::coordinate::CoordinateItem;

verus! {

/// A cell of the report: its address, its text if it has any, its style.
#[derive(Debug)]
pub struct CellWrite {
    pub coordinate: CoordinateItem,
    pub value: Option<String>,
    pub style: CellStyle,
}

/// A [`CellWrite`] as mathematical values. The style is
/// (background colour, number format, font colour).
pub struct CellWriteView {
    pub col: int,
    pub row: int,
    pub value: Option<Seq<char>>,
    pub style: (Option<Seq<char>>, Option<Seq<char>>, Option<Seq<char>>),
}

impl CellWrite {
    pub open spec fn view(&self) -> CellWriteView {
        CellWriteView {
            col: self.coordinate.col as int,
            row: self.coordinate.row as int,
            value: opt_view(self.value),
            style: self.style@,
        }
    }
}

/// A run of writes as mathematical values.
pub open spec fn writes_view(writes: Seq<CellWrite>) -> Seq<CellWriteView> {
    Seq::new(writes.len(), |i: int| writes[i]@)
}

/// Appending a write appends its view.
pub proof fn lemma_writes_view_push(writes: Seq<CellWrite>, w: CellWrite)
    ensures
        writes_view(writes.push(w)) == writes_view(writes).push(w@),
{
    assert(writes_view(writes.push(w)) =~= writes_view(writes).push(w@));
}

} // verus!
