//! The aggregator: what each currency has gained and lost.

use vstd::prelude::*;
use crate::order::{
    by_id, distinct_ids, lemma_ascending_unique, lemma_by_id_sorts,
    lemma_distinct_ids_rearranged, sort_by_id,
};
use crate::record::{views, Amount, Transaction, TransactionKind, TransactionView};
use crate::store::WriteScope;

verus! {

/// One term of a balance: an amount, added for a deposit and taken away for
/// a withdrawal.
#[derive(Clone, Copy, Debug, PartialEq, Eq, Structural)]
pub struct Movement {
    pub kind: TransactionKind,
    pub amount: Amount,
}

/// The net balance of one currency, held as the terms of its sum in
/// ascending order of id. Starting from zero, a deposit adds its amount and
/// a withdrawal takes its amount away: `net` works the sum out in the
/// arithmetic that the caller keeps its amounts in.
#[derive(Debug, PartialEq, Eq)]
pub struct Balance {
    pub currency: String,
    pub movements: Vec<Movement>,
}

/// What a balance is, without its representation in memory.
pub struct BalanceView {
    pub currency: Seq<char>,
    pub movements: Seq<Movement>,
}

impl View for Balance {
    type V = BalanceView;

    open spec fn view(&self) -> BalanceView {
        BalanceView { currency: self.currency@, movements: self.movements@ }
    }
}

/// Whether `total` is the sum `so_far` with `term` taken in: the amount of
/// a deposit goes through `credit`, that of a withdrawal through `debit`.
pub open spec fn takes_in<T, P: Fn(T, Amount) -> T, M: Fn(T, Amount) -> T>(
    so_far: T,
    term: Movement,
    credit: P,
    debit: M,
    total: T,
) -> bool {
    match term.kind {
        TransactionKind::Deposit => call_ensures(credit, (so_far, term.amount), total),
        TransactionKind::Withdraw => call_ensures(debit, (so_far, term.amount), total),
    }
}

/// Whether `total` is what `terms` sum to from `zero`, taken in one by one
/// in their order.
pub open spec fn sums_to<T, P: Fn(T, Amount) -> T, M: Fn(T, Amount) -> T>(
    terms: Seq<Movement>,
    zero: T,
    credit: P,
    debit: M,
    total: T,
) -> bool
    decreases terms.len(),
{
    if terms.len() == 0 {
        total == zero
    } else {
        exists|so_far: T|
            sums_to(terms.drop_last(), zero, credit, debit, so_far) && #[trigger] takes_in(
                so_far,
                terms.last(),
                credit,
                debit,
                total,
            )
    }
}

impl Balance {
    /// The net balance, worked out in the caller's arithmetic: from `zero`,
    /// each deposit goes through `credit` and each withdrawal through
    /// `debit`, in ascending order of id.
    pub fn net<T, P: Fn(T, Amount) -> T, M: Fn(T, Amount) -> T>(
        &self,
        zero: T,
        credit: P,
        debit: M,
    ) -> (total: T)
        requires
            forall|sum: T, amount: Amount| call_requires(credit, (sum, amount)),
            forall|sum: T, amount: Amount| call_requires(debit, (sum, amount)),
        ensures
            sums_to(self.movements@, zero, credit, debit, total),
    {
        let mut total = zero;
        let mut i: usize = 0;
        while i < self.movements.len()
            invariant
                i <= self.movements.len(),
                forall|sum: T, amount: Amount| call_requires(credit, (sum, amount)),
                forall|sum: T, amount: Amount| call_requires(debit, (sum, amount)),
                sums_to(self.movements@.take(i as int), zero, credit, debit, total),
            decreases self.movements.len() - i,
        {
            let ghost so_far = total;
            let ghost terms = self.movements@.take(i + 1);
            let movement = self.movements[i];
            proof {
                assert(terms.drop_last() =~= self.movements@.take(i as int));
            }
            total = match movement.kind {
                TransactionKind::Deposit => credit(total, movement.amount),
                TransactionKind::Withdraw => debit(total, movement.amount),
            };
            proof {
                assert(takes_in(so_far, terms.last(), credit, debit, total));
            }
            i += 1;
        }
        proof {
            assert(self.movements@.take(i as int) =~= self.movements@);
        }
        total
    }
}

/// The views of a list of balances.
pub open spec fn balance_views(balances: Seq<Balance>) -> Seq<BalanceView> {
    balances.map_values(|balance: Balance| balance@)
}

/// The term that `record` adds to the balance of its currency.
pub open spec fn movement_of(record: TransactionView) -> Movement {
    Movement { kind: record.kind, amount: record.amount }
}

/// The test for the records of one currency.
pub open spec fn in_currency(currency: Seq<char>) -> spec_fn(TransactionView) -> bool {
    |record: TransactionView| record.currency == currency
}

/// The terms that the records of `currency` add to its balance, in the
/// order of the records.
pub open spec fn movements_in(
    records: Seq<TransactionView>,
    currency: Seq<char>,
) -> Seq<Movement> {
    records.filter(in_currency(currency)).map_values(|record: TransactionView| movement_of(record))
}

/// Whether some record is in `currency`.
pub open spec fn has_currency(records: Seq<TransactionView>, currency: Seq<char>) -> bool {
    exists|i: int| 0 <= i < records.len() && (#[trigger] records[i]).currency == currency
}

/// The mapping that the aggregator works out: from each currency that a
/// record is in to the terms of its balance, taken in ascending order of
/// id. A currency that no record is in has no entry.
pub open spec fn balance_sheet(records: Seq<TransactionView>) -> Map<Seq<char>, Seq<Movement>> {
    let sorted = by_id(records);
    Map::new(
        |currency: Seq<char>| has_currency(sorted, currency),
        |currency: Seq<char>| movements_in(sorted, currency),
    )
}

/// Whether `balances` lists `sheet`: one balance for each currency of the
/// sheet, with the terms the sheet gives it, and no other balance.
pub open spec fn lists(balances: Seq<BalanceView>, sheet: Map<Seq<char>, Seq<Movement>>) -> bool {
    &&& forall|i: int, j: int|
        0 <= i < j < balances.len() ==> balances[i].currency != balances[j].currency
    &&& forall|i: int|
        0 <= i < balances.len() ==> sheet.contains_pair(
            (#[trigger] balances[i]).currency,
            balances[i].movements,
        )
    &&& forall|currency: Seq<char>| #[trigger]
        sheet.dom().contains(currency) ==> listed_in(balances, currency)
}

/// Whether one of `balances` is that of `currency`.
pub open spec fn listed_in(balances: Seq<BalanceView>, currency: Seq<char>) -> bool {
    exists|i: int| 0 <= i < balances.len() && (#[trigger] balances[i]).currency == currency
}

/// One more record adds its term to the balance of its currency and
/// leaves the other balances alone.
pub proof fn lemma_movements_push(
    records: Seq<TransactionView>,
    record: TransactionView,
    currency: Seq<char>,
)
    ensures
        movements_in(records.push(record), currency) == if record.currency == currency {
            movements_in(records, currency).push(movement_of(record))
        } else {
            movements_in(records, currency)
        },
{
    records.lemma_filter_push(record, in_currency(currency));
}

/// Valid snapshots that hold the same records have the same balance sheet,
/// whatever order the records stand in: the aggregator puts them in
/// ascending order of id first, and records that share no id have one such
/// order only.
pub proof fn lemma_balance_order_independent(a: Seq<TransactionView>, b: Seq<TransactionView>)
    requires
        distinct_ids(a),
        a.to_multiset() == b.to_multiset(),
    ensures
        by_id(a) == by_id(b),
        balance_sheet(a) == balance_sheet(b),
{
    lemma_by_id_sorts(a);
    lemma_by_id_sorts(b);
    lemma_distinct_ids_rearranged(a, by_id(a));
    lemma_ascending_unique(by_id(a), by_id(b));
}

/// The terms that the records of `currency` add to its balance.
fn movements_for(sorted: &Vec<Transaction>, currency: &String) -> (r: Vec<Movement>)
    ensures
        r@ == movements_in(views(sorted@), currency@),
{
    let mut movements: Vec<Movement> = Vec::new();
    let mut i: usize = 0;
    while i < sorted.len()
        invariant
            i <= sorted.len(),
            movements@ == movements_in(views(sorted@).take(i as int), currency@),
        decreases sorted.len() - i,
    {
        proof {
            let records = views(sorted@);
            assert(records.take(i + 1) =~= records.take(i as int).push(records[i as int]));
            lemma_movements_push(records.take(i as int), records[i as int], currency@);
        }
        if sorted[i].currency == *currency {
            movements.push(Movement { kind: sorted[i].kind, amount: sorted[i].amount });
        }
        i += 1;
    }
    proof {
        assert(views(sorted@).take(i as int) =~= views(sorted@));
    }
    movements
}

/// Whether one of `balances` is that of `currency`.
fn is_listed(balances: &Vec<Balance>, currency: &String) -> (r: bool)
    ensures
        r == listed_in(balance_views(balances@), currency@),
{
    let mut i: usize = 0;
    while i < balances.len()
        invariant
            i <= balances.len(),
            forall|j: int| 0 <= j < i ==> balance_views(balances@)[j].currency != currency@,
        decreases balances.len() - i,
    {
        if balances[i].currency == *currency {
            assert(balance_views(balances@)[i as int].currency == currency@);
            return true;
        }
        i += 1;
    }
    false
}

/// The balance of every currency of `snapshot`: one entry for each currency
/// that a record is in, holding the deposits and withdrawals of that
/// currency in ascending order of id. An empty snapshot has no balances.
pub fn aggregate(snapshot: Vec<Transaction>) -> (r: Vec<Balance>)
    ensures
        lists(balance_views(r@), balance_sheet(views(snapshot@))),
{
    let sorted = sort_by_id(snapshot);
    let ghost records = views(sorted@);
    let mut balances: Vec<Balance> = Vec::new();
    let mut i: usize = 0;
    while i < sorted.len()
        invariant
            i <= sorted.len(),
            records == views(sorted@),
            forall|a: int, b: int|
                0 <= a < b < balances.len() ==> balance_views(balances@)[a].currency
                    != balance_views(balances@)[b].currency,
            forall|a: int|
                0 <= a < balances.len() ==> {
                    &&& has_currency(records, (#[trigger] balance_views(balances@)[a]).currency)
                    &&& balance_views(balances@)[a].movements == movements_in(
                        records,
                        balance_views(balances@)[a].currency,
                    )
                },
            forall|k: int|
                0 <= k < i ==> listed_in(
                    balance_views(balances@),
                    (#[trigger] records[k]).currency,
                ),
        decreases sorted.len() - i,
    {
        let ghost before = balance_views(balances@);
        if !is_listed(&balances, &sorted[i].currency) {
            let currency = sorted[i].currency.clone();
            let movements = movements_for(&sorted, &currency);
            let balance = Balance { currency, movements };
            balances.push(balance);
            proof {
                let after = balance_views(balances@);
                assert(after =~= before.push(balance@));
                assert forall|k: int| 0 <= k < i + 1 implies listed_in(
                    after,
                    (#[trigger] records[k]).currency,
                ) by {
                    if k < i {
                        let a = choose|a: int|
                            0 <= a < before.len() && (#[trigger] before[a]).currency
                                == records[k].currency;
                        assert(after[a].currency == records[k].currency);
                    } else {
                        assert(after[before.len() as int].currency == records[k].currency);
                    }
                }
                assert forall|a: int, b: int| 0 <= a < b < after.len() implies after[a].currency
                    != after[b].currency by {
                    if b == before.len() {
                        assert(before[a].currency != records[i as int].currency);
                    }
                }
            }
        }
        i += 1;
    }
    balances
}

/// The balance of every currency among the records that the scope sees.
pub fn get_balance(scope: &WriteScope) -> (r: Vec<Balance>)
    ensures
        lists(balance_views(r@), balance_sheet(scope.contents())),
{
    aggregate(scope.scan())
}

} // verus!
