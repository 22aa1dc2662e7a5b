//! What makes a list of records a ledger, and what keeps it one.

use vstd::prelude::*;
use vstd::seq_lib::to_multiset_contains;
use crate::order::{distinct_ids, has_id, lemma_distinct_ids_rearranged};
use crate::record::TransactionView;

verus! {

/// Every record keeps the invariants of a single record.
pub open spec fn all_wf(records: Seq<TransactionView>) -> bool {
    forall|i: int| 0 <= i < records.len() ==> (#[trigger] records[i]).wf()
}

/// What a ledger may hold: records that each keep their own invariants and
/// that share no id.
pub open spec fn is_ledger(records: Seq<TransactionView>) -> bool {
    distinct_ids(records) && all_wf(records)
}

/// An id is in two lists laid end to end where it is in one of them.
pub proof fn lemma_has_id_concat(a: Seq<TransactionView>, b: Seq<TransactionView>, id: i64)
    ensures
        has_id(a + b, id) <==> has_id(a, id) || has_id(b, id),
{
    let both = a + b;
    if has_id(a, id) {
        let i = choose|i: int| 0 <= i < a.len() && #[trigger] a[i].id == id;
        assert(both[i].id == id);
    }
    if has_id(b, id) {
        let i = choose|i: int| 0 <= i < b.len() && #[trigger] b[i].id == id;
        assert(both[a.len() + i].id == id);
    }
}

/// A ledger with one more record, whose id is new to it, is a ledger.
pub proof fn lemma_ledger_push(records: Seq<TransactionView>, record: TransactionView)
    requires
        is_ledger(records),
        record.wf(),
        !has_id(records, record.id),
    ensures
        is_ledger(records.push(record)),
{
}

/// The start of a ledger is a ledger.
pub proof fn lemma_ledger_prefix(a: Seq<TransactionView>, b: Seq<TransactionView>)
    requires
        is_ledger(a + b),
    ensures
        is_ledger(a),
{
    let both = a + b;
    assert forall|i: int, j: int| 0 <= i < j < a.len() implies a[i].id != a[j].id by {
        assert(both[i] == a[i] && both[j] == a[j]);
    }
    assert forall|i: int| 0 <= i < a.len() implies (#[trigger] a[i]).wf() by {
        assert(both[i] == a[i]);
    }
}

/// Rearranging the records of a ledger leaves a ledger.
pub proof fn lemma_ledger_rearranged(a: Seq<TransactionView>, b: Seq<TransactionView>)
    requires
        is_ledger(a),
        a.to_multiset() == b.to_multiset(),
    ensures
        is_ledger(b),
{
    lemma_distinct_ids_rearranged(a, b);
    assert forall|i: int| 0 <= i < b.len() implies (#[trigger] b[i]).wf() by {
        to_multiset_contains(b, b[i]);
        to_multiset_contains(a, b[i]);
    }
}

} // verus!
