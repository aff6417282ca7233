//! Periods: the records of one trade date, and the report's periods in
//! calendar order.

use vstd::prelude::*;
use crate::date::{ymd_before, Date};
use crate::profit_and_loss::record::{date_view, ProfitAndLoss};

verus! {

/// What a period of the report spans.
#[derive(Clone, Copy, Debug)]
pub enum PeriodKind {
    /// One trade date.
    Day,
    /// One calendar month, named by its first day.
    Month,
}

/// The records of one period, in the order in which the ledger gave them.
#[derive(Debug)]
pub struct PeriodGroup {
    pub key: Date,
    pub records: Vec<ProfitAndLoss>,
}

/// The period that a date falls in: the date itself, or the first day of
/// its month.
pub open spec fn period_of(ymd: (int, int, int), kind: PeriodKind) -> (int, int, int) {
    match kind {
        PeriodKind::Day => ymd,
        PeriodKind::Month => (ymd.0, ymd.1, 1),
    }
}

/// The period of a record, by its trade date; none without a trade date.
pub open spec fn record_period(p: ProfitAndLoss, kind: PeriodKind) -> Option<(int, int, int)> {
    match date_view(p.trade_date) {
        Some(ymd) => Some(period_of(ymd, kind)),
        None => None,
    }
}

/// The records of `records` that fall in the period `key`, in their order.
pub open spec fn records_on(records: Seq<ProfitAndLoss>, kind: PeriodKind, key: (
    int,
    int,
    int,
)) -> Seq<ProfitAndLoss> {
    records.filter(|p: ProfitAndLoss| record_period(p, kind) == Some(key))
}

/// Whether the keys of `groups` rise strictly in calendar order.
pub open spec fn keys_ascend(groups: Seq<PeriodGroup>) -> bool {
    forall|i: int, j: int|
        0 <= i < j < groups.len() ==> ymd_before(
            (#[trigger] groups[i]).key@,
            (#[trigger] groups[j]).key@,
        )
}

/// Whether `groups` is the grouping of `records` by period: one group for
/// each period that occurs, in calendar order, each holding exactly the
/// records of its period in their original order. Records without a trade
/// date are in no group.
pub open spec fn is_grouping(
    groups: Seq<PeriodGroup>,
    records: Seq<ProfitAndLoss>,
    kind: PeriodKind,
) -> bool {
    &&& keys_ascend(groups)
    &&& forall|i: int|
        0 <= i < groups.len() ==> (#[trigger] groups[i]).records@ == records_on(
            records,
            kind,
            groups[i].key@,
        ) && groups[i].records@.len() > 0
    &&& forall|k: int|
        0 <= k < records.len() && (#[trigger] records[k]).trade_date is Some ==> exists|i: int|
            0 <= i < groups.len() && Some((#[trigger] groups[i]).key@) == record_period(
                records[k],
                kind,
            )
}

/// How the records of a period change when one more record is taken in.
pub proof fn lemma_records_on_push(
    records: Seq<ProfitAndLoss>,
    p: ProfitAndLoss,
    kind: PeriodKind,
    key: (int, int, int),
)
    ensures
        records_on(records.push(p), kind, key) == if record_period(p, kind) == Some(key) {
            records_on(records, kind, key).push(p)
        } else {
            records_on(records, kind, key)
        },
{
    reveal(Seq::filter);
    assert(records.push(p).drop_last() =~= records);
}

/// The index of the first group whose key is not before `date`.
fn find_position(groups: &Vec<PeriodGroup>, date: &Date) -> (r: usize)
    requires
        keys_ascend(groups@),
    ensures
        r <= groups.len(),
        forall|i: int| 0 <= i < r ==> ymd_before((#[trigger] groups@[i]).key@, date@),
        forall|i: int| r <= i < groups.len() ==> !ymd_before((#[trigger] groups@[i]).key@, date@),
{
    let mut i: usize = 0;
    while i < groups.len() && groups[i].key.is_before(date)
        invariant
            i <= groups.len(),
            keys_ascend(groups@),
            forall|j: int| 0 <= j < i ==> ymd_before((#[trigger] groups@[j]).key@, date@),
        decreases groups.len() - i,
    {
        i += 1;
    }
    proof {
        if i < groups.len() {
            assert forall|j: int| i <= j < groups.len() implies !ymd_before(
                (#[trigger] groups@[j]).key@,
                date@,
            ) by {
                if j > i {
                    assert(ymd_before(groups@[i as int].key@, groups@[j].key@));
                }
            }
        }
    }
    i
}

/// The day that names the period of `date`.
pub fn period_key(date: &Date, kind: PeriodKind) -> (r: Date)
    ensures
        r.wf(),
        r@ == period_of(date@, kind),
{
    match kind {
        PeriodKind::Day => {
            proof {
                use_type_invariant(date);
            }
            *date
        },
        PeriodKind::Month => date.first_of_month(),
    }
}

/// Takes one more record into the groups.
fn add_record(
    groups: &mut Vec<PeriodGroup>,
    record: ProfitAndLoss,
    kind: PeriodKind,
    Ghost(seen): Ghost<Seq<ProfitAndLoss>>,
)
    requires
        is_grouping(old(groups)@, seen, kind),
    ensures
        is_grouping(final(groups)@, seen.push(record), kind),
{
    let ghost before = groups@;
    let ghost all = seen.push(record);
    let date = match &record.trade_date {
        Some(d) => period_key(d, kind),
        None => {
            proof {
                assert forall|i: int| 0 <= i < before.len() implies (#[trigger] before[i]).records@
                    == records_on(all, kind, before[i].key@) by {
                    lemma_records_on_push(seen, record, kind, before[i].key@);
                }
                assert forall|k: int|
                    0 <= k < all.len() && (#[trigger] all[k]).trade_date is Some implies exists|
                        i: int,
                    |
                    0 <= i < before.len() && Some((#[trigger] before[i]).key@) == record_period(
                        all[k],
                        kind,
                    ) by {
                    assert(all[k] == seen[k]);
                }
            }
            return ;
        },
    };
    assert(record_period(record, kind) == Some(date@));
    let pos = find_position(groups, &date);
    if pos < groups.len() && groups[pos].key.same_day(&date) {
        let mut group = groups.remove(pos);
        group.records.push(record);
        groups.insert(pos, group);
        proof {
            let after = groups@;
            assert(after.len() == before.len());
            assert forall|i: int| 0 <= i < after.len() implies (#[trigger] after[i]).key
                == before[i].key by {}
            assert forall|i: int| 0 <= i < after.len() implies (#[trigger] after[i]).records@
                == records_on(all, kind, after[i].key@) && after[i].records@.len() > 0 by {
                lemma_records_on_push(seen, record, kind, before[i].key@);
                if i != pos {
                    assert(after[i] == before[i]);
                    assert(ymd_before(before[i].key@, before[pos as int].key@) || ymd_before(
                        before[pos as int].key@,
                        before[i].key@,
                    ));
                }
            }
            assert forall|i: int, j: int| 0 <= i < j < after.len() implies ymd_before(
                (#[trigger] after[i]).key@,
                (#[trigger] after[j]).key@,
            ) by {
                assert(ymd_before(before[i].key@, before[j].key@));
            }
            assert forall|k: int|
                0 <= k < all.len() && (#[trigger] all[k]).trade_date is Some implies exists|i: int|
                0 <= i < after.len() && Some((#[trigger] after[i]).key@) == record_period(
                    all[k],
                    kind,
                ) by {
                if k < seen.len() {
                    assert(all[k] == seen[k]);
                    let i = choose|i: int|
                        0 <= i < before.len() && Some((#[trigger] before[i]).key@)
                            == record_period(seen[k], kind);
                    assert(after[i].key@ == before[i].key@);
                } else {
                    assert(after[pos as int].key@ == date@);
                }
            }
        }
    } else {
        let mut first: Vec<ProfitAndLoss> = Vec::new();
        first.push(record);
        groups.insert(pos, PeriodGroup { key: date, records: first });
        proof {
            let after = groups@;
            assert(after.len() == before.len() + 1);
            assert forall|i: int| 0 <= i < before.len() implies (#[trigger] before[i]).key@
                != date@ by {
                if i < pos {
                    assert(ymd_before(before[i].key@, date@));
                } else {
                    assert(!ymd_before(before[i].key@, date@));
                    if i > pos {
                        assert(ymd_before(before[pos as int].key@, before[i].key@));
                    }
                }
            }
            lemma_no_group_no_records(before, seen, kind, date@);
            lemma_records_on_push(seen, record, kind, date@);
            assert(after[pos as int].records@ =~= seq![record]);
            assert forall|i: int| 0 <= i < after.len() implies (#[trigger] after[i]).records@
                == records_on(all, kind, after[i].key@) && after[i].records@.len() > 0 by {
                if i < pos {
                    assert(after[i] == before[i]);
                    lemma_records_on_push(seen, record, kind, before[i].key@);
                } else if i > pos {
                    assert(after[i] == before[i - 1]);
                    lemma_records_on_push(seen, record, kind, before[i - 1].key@);
                }
            }
            assert forall|i: int, j: int| 0 <= i < j < after.len() implies ymd_before(
                (#[trigger] after[i]).key@,
                (#[trigger] after[j]).key@,
            ) by {
                let bi = if i < pos {
                    i
                } else {
                    i - 1
                };
                let bj = if j < pos {
                    j
                } else {
                    j - 1
                };
                if i != pos && j != pos {
                    assert(after[i] == before[bi]);
                    assert(after[j] == before[bj]);
                    assert(ymd_before(before[bi].key@, before[bj].key@));
                } else if i == pos {
                    assert(after[j] == before[bj]);
                    assert(!ymd_before(before[bj].key@, date@));
                    assert(before[bj].key@ != date@);
                } else {
                    assert(after[i] == before[bi]);
                    assert(ymd_before(before[bi].key@, date@));
                }
            }
            assert forall|k: int|
                0 <= k < all.len() && (#[trigger] all[k]).trade_date is Some implies exists|i: int|
                0 <= i < after.len() && Some((#[trigger] after[i]).key@) == record_period(
                    all[k],
                    kind,
                ) by {
                if k < seen.len() {
                    assert(all[k] == seen[k]);
                    let i = choose|i: int|
                        0 <= i < before.len() && Some((#[trigger] before[i]).key@)
                            == record_period(seen[k], kind);
                    let ai = if i < pos {
                        i
                    } else {
                        i + 1
                    };
                    assert(after[ai] == before[i]);
                } else {
                    assert(after[pos as int].key@ == date@);
                }
            }
        }
    }
}

/// A period that no group has is the period of no record.
proof fn lemma_no_group_no_records(
    groups: Seq<PeriodGroup>,
    records: Seq<ProfitAndLoss>,
    kind: PeriodKind,
    key: (int, int, int),
)
    requires
        is_grouping(groups, records, kind),
        forall|i: int| 0 <= i < groups.len() ==> (#[trigger] groups[i]).key@ != key,
    ensures
        records_on(records, kind, key) == Seq::<ProfitAndLoss>::empty(),
{
    let pred = |p: ProfitAndLoss| record_period(p, kind) == Some(key);
    assert forall|k: int| 0 <= k < records.len() implies !pred(#[trigger] records[k]) by {
        if records[k].trade_date is Some {
            let i = choose|i: int|
                0 <= i < groups.len() && Some((#[trigger] groups[i]).key@) == record_period(
                    records[k],
                    kind,
                );
            assert(groups[i].key@ != key);
        }
    }
    records.lemma_all_neg_filter_empty(pred);
}

/// Groups records by the period of their trade date. The groups come in
/// calendar order, whatever the order of the records; within a group the
/// records keep their order. A record without a trade date is left out.
pub fn group_by_period(records: Vec<ProfitAndLoss>, kind: PeriodKind) -> (groups: Vec<PeriodGroup>)
    ensures
        is_grouping(groups@, records@, kind),
{
    let mut groups: Vec<PeriodGroup> = Vec::new();
    let ghost mut seen: Seq<ProfitAndLoss> = Seq::empty();
    proof {
        assert(is_grouping(groups@, seen, kind));
    }
    for record in it: records
        invariant
            seen == records@.take(it.index() as int),
            is_grouping(groups@, seen, kind),
    {
        add_record(&mut groups, record, kind, Ghost(seen));
        proof {
            assert(records@.take(it.index() + 1) =~= seen.push(record));
            seen = seen.push(record);
        }
    }
    proof {
        assert(records@.take(records@.len() as int) =~= records@);
    }
    groups
}

/// Groups records by trade date, one period for each date.
pub fn group_by_trade_date(records: Vec<ProfitAndLoss>) -> (groups: Vec<PeriodGroup>)
    ensures
        is_grouping(groups@, records@, PeriodKind::Day),
{
    group_by_period(records, PeriodKind::Day)
}

/// In a grouping every record with a trade date stands in exactly one
/// group, the group of its period.
pub proof fn lemma_grouping_places_once(
    groups: Seq<PeriodGroup>,
    records: Seq<ProfitAndLoss>,
    kind: PeriodKind,
    k: int,
)
    requires
        is_grouping(groups, records, kind),
        0 <= k < records.len(),
        records[k].trade_date is Some,
    ensures
        exists|i: int|
            0 <= i < groups.len() && Some((#[trigger] groups[i]).key@) == record_period(
                records[k],
                kind,
            ) && groups[i].records@.contains(records[k]) && forall|j: int|
                0 <= j < groups.len() && j != i ==> Some((#[trigger] groups[j]).key@)
                    != record_period(records[k], kind) && !groups[j].records@.contains(
                    records[k],
                ),
{
    let period = record_period(records[k], kind)->0;
    let i = choose|i: int| 0 <= i < groups.len() && Some((#[trigger] groups[i]).key@) == Some(period);
    records.lemma_filter_contains(|p: ProfitAndLoss| record_period(p, kind) == Some(period), k);
    assert forall|j: int| 0 <= j < groups.len() && j != i implies Some(
        (#[trigger] groups[j]).key@,
    ) != record_period(records[k], kind) && !groups[j].records@.contains(records[k]) by {
        if j < i {
            assert(ymd_before(groups[j].key@, groups[i].key@));
        } else {
            assert(ymd_before(groups[i].key@, groups[j].key@));
        }
        lemma_group_holds_its_period(groups, records, kind, j, records[k]);
    }
}

/// In a grouping a group holds only records of its own period, all of them
/// records that were given: a record without a trade date is in none.
pub proof fn lemma_group_holds_its_period(
    groups: Seq<PeriodGroup>,
    records: Seq<ProfitAndLoss>,
    kind: PeriodKind,
    i: int,
    p: ProfitAndLoss,
)
    requires
        is_grouping(groups, records, kind),
        0 <= i < groups.len(),
    ensures
        groups[i].records@.contains(p) ==> record_period(p, kind) == Some(groups[i].key@)
            && records.contains(p),
{
    let pred = |q: ProfitAndLoss| record_period(q, kind) == Some(groups[i].key@);
    if groups[i].records@.contains(p) {
        let n = choose|n: int| 0 <= n < groups[i].records@.len() && groups[i].records@[n] == p;
        records.lemma_filter_pred(pred, n);
        records.lemma_filter_contains_rev(pred, p);
    }
}

} // verus!
