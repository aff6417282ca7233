//! What can go wrong while a ledger is turned into a report.

use vstd::prelude::*;
use vstd::string::*;

verus! {

/// Why a row could not be read. Each error names the field; the malformed
/// ones carry the text that was found there.
#[derive(Debug)]
pub enum ParseError {
    MissingField(String),
    MalformedDate { field: String, raw: String },
    MalformedNumber { field: String, raw: String },
}

/// A [`ParseError`] over character sequences.
pub enum ParseErrorView {
    MissingField(Seq<char>),
    MalformedDate { field: Seq<char>, raw: Seq<char> },
    MalformedNumber { field: Seq<char>, raw: Seq<char> },
}

/// The message of a parse error.
pub open spec fn parse_error_text(e: ParseErrorView) -> Seq<char> {
    match e {
        ParseErrorView::MissingField(field) => "missing field: "@ + field,
        ParseErrorView::MalformedDate { field, raw } => "malformed date in "@ + field + ": "@ + raw,
        ParseErrorView::MalformedNumber { field, raw } => "malformed number in "@ + field + ": "@
            + raw,
    }
}

impl ParseError {
    pub open spec fn view(&self) -> ParseErrorView {
        match self {
            ParseError::MissingField(field) => ParseErrorView::MissingField(field@),
            ParseError::MalformedDate { field, raw } => ParseErrorView::MalformedDate {
                field: field@,
                raw: raw@,
            },
            ParseError::MalformedNumber { field, raw } => ParseErrorView::MalformedNumber {
                field: field@,
                raw: raw@,
            },
        }
    }

    /// A message for the user: what is wrong, in which field, and the
    /// offending text.
    pub fn message(&self) -> (r: String)
        ensures
            r@ == parse_error_text(self@),
    {
        match self {
            ParseError::MissingField(field) => {
                let mut out = String::from_str("missing field: ");
                out.append(field.as_str());
                out
            },
            ParseError::MalformedDate { field, raw } => {
                let mut out = String::from_str("malformed date in ");
                out.append(field.as_str());
                out.append(": ");
                out.append(raw.as_str());
                out
            },
            ParseError::MalformedNumber { field, raw } => {
                let mut out = String::from_str("malformed number in ");
                out.append(field.as_str());
                out.append(": ");
                out.append(raw.as_str());
                out
            },
        }
    }
}

/// Why a report could not be produced.
#[derive(Debug)]
pub enum ReportError {
    /// A row of the ledger could not be read.
    Parse(ParseError),
    /// The ledger or the document could not be read or written.
    IOFailure(String),
    /// A sheet of the document could not be removed or created.
    SheetOperationFailure(String),
}

} // verus!
