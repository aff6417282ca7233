//! The totals of a period: realized results summed by account class, the
//! withholding tax on the taxable part, and what is left.

use vstd::prelude::*;
use vstd::string::*;
use crate::profit_and_loss::record::{blank_record, ProfitAndLoss, RecordView};
use crate::settings::TaxRate;
use crate::text::{contains_pair, has_pair};
use vstd::arithmetic::div_mod::lemma_fundamental_div_mod;

verus! {

/// Whether an account label names the taxable ("specific") account class:
/// it holds the two characters U+7279 U+5B9A. Any other label is tax-exempt.
pub open spec fn is_specific_account(account: Seq<char>) -> bool {
    has_pair(account, '\u{7279}', '\u{5b9a}')
}

/// What a record adds to the total of the specific accounts.
pub open spec fn specific_amount(v: RecordView) -> int {
    match (v.account, v.realized_profit_and_loss) {
        (Some(account), Some(amount)) => if is_specific_account(account) {
            amount
        } else {
            0
        },
        _ => 0,
    }
}

/// What a record adds to the total of the tax-exempt accounts.
pub open spec fn nisa_amount(v: RecordView) -> int {
    match (v.account, v.realized_profit_and_loss) {
        (Some(account), Some(amount)) => if is_specific_account(account) {
            0
        } else {
            amount
        },
        _ => 0,
    }
}

/// The realized results of the specific accounts among `records`.
pub open spec fn specific_sum(records: Seq<ProfitAndLoss>) -> int
    decreases records.len(),
{
    if records.len() == 0 {
        0
    } else {
        specific_sum(records.drop_last()) + specific_amount(records.last()@)
    }
}

/// The realized results of the tax-exempt accounts among `records`.
pub open spec fn nisa_sum(records: Seq<ProfitAndLoss>) -> int
    decreases records.len(),
{
    if records.len() == 0 {
        0
    } else {
        nisa_sum(records.drop_last()) + nisa_amount(records.last()@)
    }
}

/// The tax withheld on a total of the specific accounts: nothing on a loss,
/// else the rate's share of it, rounded down.
pub open spec fn withholding_tax_spec(specific: int, rate: (int, int)) -> int {
    if specific < 0 {
        0
    } else {
        (specific * rate.0) / rate.1
    }
}

/// The largest magnitude of an account total that [`AggregateTotals::new`]
/// takes: more than any number of 32-bit amounts can add up to.
pub open spec fn total_limit() -> int {
    0x8000_0000_0000_0000_0000_0000
}

/// The totals of one period.
#[derive(Clone, Copy, Debug)]
pub struct AggregateTotals {
    pub specific_account_total: i128,
    pub nisa_account_total: i128,
    pub withholding_tax: i128,
    pub grand_total: i128,
    pub net_profit_and_loss: i128,
}

impl AggregateTotals {
    /// Whether these are the totals that follow from the two account totals
    /// at the given rate.
    pub open spec fn derived_from(self, specific: int, nisa: int, rate: (int, int)) -> bool {
        &&& self.specific_account_total == specific
        &&& self.nisa_account_total == nisa
        &&& self.withholding_tax == withholding_tax_spec(specific, rate)
        &&& self.grand_total == specific + nisa
        &&& self.net_profit_and_loss == specific + nisa - withholding_tax_spec(specific, rate)
    }

    /// Derives tax, grand total and net result from the two account totals.
    pub fn new(specific: i128, nisa: i128, rate: TaxRate) -> (r: Self)
        requires
            -total_limit() <= specific <= total_limit(),
            -total_limit() <= nisa <= total_limit(),
        ensures
            r.derived_from(specific as int, nisa as int, rate@),
    {
        let numerator = rate.numerator();
        let denominator = rate.denominator();
        let withholding_tax: i128 = if specific < 0 {
            0
        } else {
            proof {
                lemma_share_bounds(specific as int, numerator as int, denominator as int);
            }
            let share: u128 = (specific as u128) * (numerator as u128);
            (share / (denominator as u128)) as i128
        };
        let grand_total = specific + nisa;
        AggregateTotals {
            specific_account_total: specific,
            nisa_account_total: nisa,
            withholding_tax,
            grand_total,
            net_profit_and_loss: grand_total - withholding_tax,
        }
    }

    /// The row of totals: the grand total, the tax and the net result, in a
    /// record that is otherwise blank.
    pub open spec fn row_view(self) -> RecordView {
        RecordView {
            total_realized_profit_and_loss: Some(self.grand_total as int),
            withholding_tax: Some(self.withholding_tax as int),
            profit_and_loss: Some(self.net_profit_and_loss as int),
            ..blank_record()
        }
    }

    /// Builds the row of totals.
    pub fn to_record(&self) -> (r: ProfitAndLoss)
        ensures
            r@ == self.row_view(),
    {
        ProfitAndLoss {
            trade_date: None,
            settlement_date: None,
            security_code: None,
            security_name: None,
            account: None,
            shares: None,
            asked_price: None,
            proceeds: None,
            purchase_price: None,
            realized_profit_and_loss: None,
            total_realized_profit_and_loss: Some(self.grand_total),
            withholding_tax: Some(self.withholding_tax),
            profit_and_loss: Some(self.net_profit_and_loss),
        }
    }
}

/// A share of a non-negative amount at a rate of at most one is between
/// zero and the amount, and the product fits where it is computed.
proof fn lemma_share_bounds(amount: int, numerator: int, denominator: int)
    requires
        0 <= amount <= total_limit(),
        0 <= numerator <= denominator,
        0 < denominator <= u32::MAX,
    ensures
        0 <= amount * numerator <= u128::MAX,
        0 <= (amount * numerator) / denominator <= amount,
{
    assert(0 <= amount * numerator <= amount * denominator) by (nonlinear_arith)
        requires
            0 <= amount,
            0 <= numerator <= denominator,
    ;
    assert(amount * denominator <= total_limit() * 0x1_0000_0000) by (nonlinear_arith)
        requires
            0 <= amount <= total_limit(),
            0 < denominator <= 0xffff_ffff,
    ;
    assert(0 <= (amount * numerator) / denominator <= amount) by (nonlinear_arith)
        requires
            0 <= amount * numerator <= amount * denominator,
            0 < denominator,
    ;
}

/// Whether the account label names the taxable account class.
pub fn account_is_specific(account: &str) -> (r: bool)
    ensures
        r == is_specific_account(account@),
{
    contains_pair(account, '\u{7279}', '\u{5b9a}')
}

/// What one record adds to the two account totals:
/// (specific accounts, tax-exempt accounts).
pub fn split_amount(record: &ProfitAndLoss) -> (r: (i32, i32))
    ensures
        r.0 == specific_amount(record@),
        r.1 == nisa_amount(record@),
{
    match (&record.account, &record.realized_profit_and_loss) {
        (Some(account), Some(amount)) => {
            if account_is_specific(account.as_str()) {
                (*amount, 0)
            } else {
                (0, *amount)
            }
        },
        _ => (0, 0),
    }
}

/// Any number of records that a vector can hold adds up to less than the
/// limit, in both account classes.
pub proof fn lemma_sums_bounded(records: Seq<ProfitAndLoss>)
    ensures
        -0x8000_0000 * records.len() <= specific_sum(records) <= 0x8000_0000 * records.len(),
        -0x8000_0000 * records.len() <= nisa_sum(records) <= 0x8000_0000 * records.len(),
    decreases records.len(),
{
    if records.len() > 0 {
        lemma_sums_bounded(records.drop_last());
    }
}

/// Adds up the realized results of `records` by account class:
/// (specific accounts, tax-exempt accounts). A record without an account or
/// without a realized result counts in neither.
pub fn account_totals(records: &Vec<ProfitAndLoss>) -> (r: (i128, i128))
    ensures
        r.0 == specific_sum(records@),
        r.1 == nisa_sum(records@),
        -total_limit() <= r.0 <= total_limit(),
        -total_limit() <= r.1 <= total_limit(),
{
    let mut specific: i128 = 0;
    let mut nisa: i128 = 0;
    let mut i: usize = 0;
    while i < records.len()
        invariant
            i <= records.len(),
            specific == specific_sum(records@.take(i as int)),
            nisa == nisa_sum(records@.take(i as int)),
        decreases records.len() - i,
    {
        proof {
            lemma_sums_bounded(records@.take(i as int));
            assert(records@.take(i + 1).drop_last() =~= records@.take(i as int));
            assert(records@.take(i + 1).last() == records@[i as int]);
        }
        let (specific_part, nisa_part) = split_amount(&records[i]);
        specific += specific_part as i128;
        nisa += nisa_part as i128;
        i += 1;
    }
    proof {
        assert(records@.take(records.len() as int) =~= records@);
        lemma_sums_bounded(records@);
    }
    (specific, nisa)
}

impl ProfitAndLoss {
    /// The row of totals for the given account totals
    /// (specific accounts, tax-exempt accounts) at the given tax rate.
    pub fn new_total_realized_profit_and_loss(total: (i128, i128), rate: TaxRate) -> (r: Self)
        requires
            -total_limit() <= total.0 <= total_limit(),
            -total_limit() <= total.1 <= total_limit(),
        ensures
            r@ == (RecordView {
                total_realized_profit_and_loss: Some(total.0 + total.1),
                withholding_tax: Some(withholding_tax_spec(total.0 as int, rate@)),
                profit_and_loss: Some(
                    total.0 + total.1 - withholding_tax_spec(total.0 as int, rate@),
                ),
                ..blank_record()
            }),
    {
        AggregateTotals::new(total.0, total.1, rate).to_record()
    }

    /// The row of totals for the given account totals at the standard rate
    /// of 20.315 percent.
    pub fn with_total_realized_profit_and_loss(
        specific_account_total: i128,
        nisa_account_total: i128,
    ) -> (r: Self)
        requires
            -total_limit() <= specific_account_total <= total_limit(),
            -total_limit() <= nisa_account_total <= total_limit(),
        ensures
            r@ == (RecordView {
                total_realized_profit_and_loss: Some(specific_account_total + nisa_account_total),
                withholding_tax: Some(
                    withholding_tax_spec(specific_account_total as int, (20315, 100000)),
                ),
                profit_and_loss: Some(
                    specific_account_total + nisa_account_total - withholding_tax_spec(
                        specific_account_total as int,
                        (20315, 100000),
                    ),
                ),
                ..blank_record()
            }),
    {
        Self::new_total_realized_profit_and_loss(
            (specific_account_total, nisa_account_total),
            TaxRate::standard(),
        )
    }
}

/// The totals of a period add up: the two account totals make the grand
/// total, and the grand total less the tax is the net result.
pub proof fn lemma_totals_add_up(totals: AggregateTotals, specific: int, nisa: int, rate: (
    int,
    int,
))
    requires
        totals.derived_from(specific, nisa, rate),
    ensures
        totals.specific_account_total + totals.nisa_account_total == totals.grand_total,
        totals.net_profit_and_loss == totals.grand_total - totals.withholding_tax,
{
}

/// No tax is withheld on a loss. On any other total of the specific
/// accounts the tax is the rate's share of it rounded down: the largest
/// whole number that is not above `specific * numerator / denominator`. It
/// is never negative and never more than the total.
pub proof fn lemma_withholding_tax(specific: int, rate: (int, int))
    requires
        0 <= rate.0 <= rate.1,
        0 < rate.1,
    ensures
        specific < 0 ==> withholding_tax_spec(specific, rate) == 0,
        specific >= 0 ==> withholding_tax_spec(specific, rate) * rate.1 <= specific * rate.0
            < (withholding_tax_spec(specific, rate) + 1) * rate.1,
        specific >= 0 ==> 0 <= withholding_tax_spec(specific, rate) <= specific,
{
    if specific >= 0 {
        let product = specific * rate.0;
        let tax = product / rate.1;
        lemma_fundamental_div_mod(product, rate.1);
        assert(0 <= product % rate.1 < rate.1) by (nonlinear_arith)
            requires
                0 < rate.1,
        ;
        assert(rate.1 * tax == tax * rate.1) by (nonlinear_arith);
        assert((tax + 1) * rate.1 == tax * rate.1 + rate.1) by (nonlinear_arith);
        assert(0 <= product <= specific * rate.1) by (nonlinear_arith)
            requires
                0 <= specific,
                0 <= rate.0 <= rate.1,
                product == specific * rate.0,
        ;
        assert(0 <= tax <= specific) by (nonlinear_arith)
            requires
                0 <= product <= specific * rate.1,
                0 < rate.1,
                tax == product / rate.1,
        ;
    }
}

} // verus!
