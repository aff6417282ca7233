//! The configuration of a run: labels, colours, number formats, where the
//! report starts on the sheet, and the tax rate.

use vstd::prelude::*;
use vstd::string::*;
use crate::cell_style::opt_ref_view;

verus! {

/// The withholding tax rate as an exact fraction between zero and one.
#[derive(Clone, Copy, Debug)]
pub struct TaxRate {
    numerator: u32,
    denominator: u32,
}

impl TaxRate {
    #[verifier::type_invariant]
    pub closed spec fn wf(self) -> bool {
        0 < self.denominator && self.numerator <= self.denominator
    }

    /// The rate as (numerator, denominator).
    pub closed spec fn view(self) -> (int, int) {
        (self.numerator as int, self.denominator as int)
    }

    /// The rate `numerator / denominator`; `None` for a zero denominator or
    /// a rate above one.
    pub fn new(numerator: u32, denominator: u32) -> (r: Option<TaxRate>)
        ensures
            r is Some <==> 0 < denominator && numerator <= denominator,
            r matches Some(t) ==> t.wf() && t@ == (numerator as int, denominator as int),
    {
        if denominator == 0 || numerator > denominator {
            None
        } else {
            Some(TaxRate { numerator, denominator })
        }
    }

    /// The standard rate on realized gains: 20.315 percent.
    pub fn standard() -> (r: TaxRate)
        ensures
            r.wf(),
            r@ == (20315int, 100000int),
    {
        TaxRate { numerator: 20315, denominator: 100000 }
    }

    pub fn numerator(&self) -> (r: u32)
        ensures
            r == self@.0,
            r <= self@.1,
    {
        proof {
            use_type_invariant(self);
        }
        self.numerator
    }

    pub fn denominator(&self) -> (r: u32)
        ensures
            r == self@.1,
            r > 0,
    {
        proof {
            use_type_invariant(self);
        }
        self.denominator
    }

    /// A rate that is well formed lies between zero and one.
    pub proof fn lemma_bounds(self)
        requires
            self.wf(),
        ensures
            0 <= self@.0 <= self@.1,
            0 < self@.1,
    {
    }
}

/// What a table of (name, value) entries gives for `key`: the value of the
/// last entry of that name.
pub open spec fn lookup_spec(entries: Seq<(String, String)>, key: Seq<char>) -> Option<Seq<char>>
    decreases entries.len(),
{
    if entries.len() == 0 {
        None
    } else if entries.last().0@ == key {
        Some(entries.last().1@)
    } else {
        lookup_spec(entries.drop_last(), key)
    }
}

/// Finds the value that `entries` gives for `key`.
pub fn lookup<'a>(entries: &'a Vec<(String, String)>, key: &str) -> (r: Option<&'a String>)
    ensures
        opt_ref_view(r) == lookup_spec(entries@, key@),
{
    let wanted = String::from_str(key);
    let mut i: usize = entries.len();
    proof {
        assert(entries@.take(i as int) =~= entries@);
    }
    while i > 0
        invariant
            i <= entries.len(),
            wanted@ == key@,
            lookup_spec(entries@, key@) == lookup_spec(entries@.take(i as int), key@),
        decreases i,
    {
        i -= 1;
        proof {
            assert(entries@.take(i + 1).drop_last() =~= entries@.take(i as int));
            assert(entries@.take(i + 1).last() == entries@[i as int]);
        }
        if entries[i].0 == wanted {
            return Some(&entries[i].1);
        }
    }
    proof {
        assert(entries@.take(0).len() == 0);
    }
    None
}

/// Everything a run is configured with. It is built once and read only.
#[derive(Debug)]
pub struct Settings {
    /// Number-format patterns by name (`yen`, `yen_decimal`).
    pub formats: Vec<(String, String)>,
    /// ARGB colours by name (`header_background`, `footer_background`,
    /// `realized_loss_font`).
    pub colors: Vec<(String, String)>,
    /// Column labels by field name.
    pub headers: Vec<(String, String)>,
    /// The title of the sheet that holds the report.
    pub sheet_title: String,
    pub tax_rate: TaxRate,
    /// The row of the header, counted from one.
    pub start_row: u32,
    /// The column of the first field, counted from one.
    pub start_col: u32,
    /// The width given to every column of the report.
    pub column_width: u32,
}

impl Settings {
    /// The number-format pattern of the given name.
    pub open spec fn format_spec(&self, name: Seq<char>) -> Option<Seq<char>> {
        lookup_spec(self.formats@, name)
    }

    /// The colour of the given name.
    pub open spec fn color_spec(&self, name: Seq<char>) -> Option<Seq<char>> {
        lookup_spec(self.colors@, name)
    }

    /// The label of the given field.
    pub open spec fn header_spec(&self, field: Seq<char>) -> Option<Seq<char>> {
        lookup_spec(self.headers@, field)
    }

    pub fn format(&self, name: &str) -> (r: Option<&String>)
        ensures
            opt_ref_view(r) == self.format_spec(name@),
    {
        lookup(&self.formats, name)
    }

    pub fn color(&self, name: &str) -> (r: Option<&String>)
        ensures
            opt_ref_view(r) == self.color_spec(name@),
    {
        lookup(&self.colors, name)
    }

    pub fn header(&self, field: &str) -> (r: Option<&String>)
        ensures
            opt_ref_view(r) == self.header_spec(field@),
    {
        lookup(&self.headers, field)
    }
}

} // verus!
