//! What every kind of report is made for: the document it goes to.

use vstd::prelude::*;

verus! {

/// The document that a report is written to.
#[derive(Debug)]
pub struct TemplateStruct {
    pub xlsx_filepath: String,
}

impl TemplateStruct {
    pub fn new(xlsx_filepath: String) -> (r: TemplateStruct)
        ensures
            r.xlsx_filepath == xlsx_filepath,
    {
        TemplateStruct { xlsx_filepath }
    }
}

} // verus!
