//! The kinds of report, and how a ledger's file name selects one.

use vstd::prelude::*;
use crate::dividend_list::DividendListManager;
use crate::profit_and_loss::manager::ProfitAndLossManager;
use crate::text::has_prefix;

verus! {

/// The kinds of report.
#[derive(Clone, Copy, Debug)]
pub enum FactoryID {
    ProfitAndLoss,
    DividendList,
}

/// The report that one run makes.
#[derive(Debug)]
pub enum Factory {
    ProfitAndLoss(ProfitAndLossManager),
    DividendList(DividendListManager),
}

/// The kind of report that a file name selects: realized profit and loss
/// where it begins with that prefix; else the list of dividends where it
/// begins with that prefix; else none.
pub open spec fn selected_kind(
    filename: Seq<char>,
    prefix_profit_and_loss: Seq<char>,
    prefix_dividendlist: Seq<char>,
) -> Option<FactoryID> {
    if prefix_profit_and_loss.is_prefix_of(filename) {
        Some(FactoryID::ProfitAndLoss)
    } else if prefix_dividendlist.is_prefix_of(filename) {
        Some(FactoryID::DividendList)
    } else {
        None
    }
}

impl FactoryID {
    /// Selects the kind of report by the prefix of the ledger's file name.
    pub fn from_filename(
        filename: &str,
        prefix_profit_and_loss: &str,
        prefix_dividendlist: &str,
    ) -> (r: Option<FactoryID>)
        ensures
            r == selected_kind(filename@, prefix_profit_and_loss@, prefix_dividendlist@),
    {
        if has_prefix(filename, prefix_profit_and_loss) {
            Some(FactoryID::ProfitAndLoss)
        } else if has_prefix(filename, prefix_dividendlist) {
            Some(FactoryID::DividendList)
        } else {
            None
        }
    }
}

/// Makes the report of the given kind for the given document.
pub fn create_factory(id: FactoryID, xlsx_filepath: String) -> (r: Factory)
    ensures
        match id {
            FactoryID::ProfitAndLoss => r matches Factory::ProfitAndLoss(m)
                && m.template_struct.xlsx_filepath == xlsx_filepath
                && m.profit_and_loss_map@.len() == 0,
            FactoryID::DividendList => r matches Factory::DividendList(m)
                && m.template_struct.xlsx_filepath == xlsx_filepath,
        },
{
    match id {
        FactoryID::ProfitAndLoss => Factory::ProfitAndLoss(ProfitAndLossManager::new(xlsx_filepath)),
        FactoryID::DividendList => Factory::DividendList(DividendListManager::new(xlsx_filepath)),
    }
}

} // verus!
