//! The aggregation of a ledger: its periods in calendar order, each with
//! its records and its totals.

use vstd::prelude::*;
use crate::date::Date;
use crate::profit_and_loss::period::{group_by_trade_date, is_grouping, PeriodGroup, PeriodKind};
use crate::profit_and_loss::record::ProfitAndLoss;
use crate::profit_and_loss::totals::{account_totals, nisa_sum, specific_sum, AggregateTotals};
use crate::settings::TaxRate;

verus! {

/// One period of the report: its trade date, its records in the order of
/// the ledger, and the totals that follow from them.
#[derive(Debug)]
pub struct AggregatedPeriod {
    pub key: Date,
    pub records: Vec<ProfitAndLoss>,
    pub totals: AggregateTotals,
}

/// The periods without their totals.
pub open spec fn groups_of(periods: Seq<AggregatedPeriod>) -> Seq<PeriodGroup> {
    Seq::new(
        periods.len(),
        |i: int| PeriodGroup { key: periods[i].key, records: periods[i].records },
    )
}

/// Whether `periods` is the aggregation of `records` at the given rate:
/// the grouping of the records by trade date, and with each group the
/// totals of its records.
pub open spec fn is_aggregation(
    periods: Seq<AggregatedPeriod>,
    records: Seq<ProfitAndLoss>,
    rate: (int, int),
) -> bool {
    &&& is_grouping(groups_of(periods), records, PeriodKind::Day)
    &&& forall|i: int|
        0 <= i < periods.len() ==> (#[trigger] periods[i]).totals.derived_from(
            specific_sum(periods[i].records@),
            nisa_sum(periods[i].records@),
            rate,
        )
}

/// Groups the records by trade date, in calendar order, and reduces each
/// group to its totals. A record without a trade date is left out.
pub fn aggregate(records: Vec<ProfitAndLoss>, rate: TaxRate) -> (periods: Vec<AggregatedPeriod>)
    ensures
        is_aggregation(periods@, records@, rate@),
{
    let groups = group_by_trade_date(records);
    let ghost grouped = groups@;
    let mut periods: Vec<AggregatedPeriod> = Vec::new();
    for group in it: groups
        invariant
            grouped == groups@,
            periods@.len() == it.index(),
            forall|i: int|
                0 <= i < periods@.len() ==> (#[trigger] periods@[i]).key == grouped[i].key
                    && periods@[i].records == grouped[i].records && periods@[i].totals.derived_from(
                    specific_sum(periods@[i].records@),
                    nisa_sum(periods@[i].records@),
                    rate@,
                ),
    {
        let sums = account_totals(&group.records);
        let totals = AggregateTotals::new(sums.0, sums.1, rate);
        periods.push(AggregatedPeriod { key: group.key, records: group.records, totals });
    }
    proof {
        assert(groups_of(periods@) =~= grouped);
    }
    periods
}

} // verus!
