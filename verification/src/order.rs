//! The canonical order of the ledger: ascending by id.

use vstd::prelude::*;
use vstd::seq_lib::{
    to_multiset_build, to_multiset_contains, to_multiset_insert, to_multiset_len,
    to_multiset_remove,
};
use crate::record::{views, Transaction, TransactionView};

verus! {

/// No record stands before one with a smaller id.
pub open spec fn ascending(records: Seq<TransactionView>) -> bool {
    forall|i: int, j: int| 0 <= i < j < records.len() ==> records[i].id <= records[j].id
}

/// No two records share an id.
pub open spec fn distinct_ids(records: Seq<TransactionView>) -> bool {
    forall|i: int, j: int| 0 <= i < j < records.len() ==> records[i].id != records[j].id
}

/// Whether some record of `records` has the id `id`.
pub open spec fn has_id(records: Seq<TransactionView>, id: i64) -> bool {
    exists|i: int| 0 <= i < records.len() && #[trigger] records[i].id == id
}

/// Where `record` goes in `sorted`: behind every record whose id is not
/// above its own.
pub open spec fn place(sorted: Seq<TransactionView>, record: TransactionView) -> int
    decreases sorted.len(),
{
    if sorted.len() == 0 || sorted.last().id <= record.id {
        sorted.len() as int
    } else {
        place(sorted.drop_last(), record)
    }
}

/// The records in ascending order of id; records of one id keep the order
/// they came in.
pub open spec fn by_id(records: Seq<TransactionView>) -> Seq<TransactionView>
    decreases records.len(),
{
    if records.len() == 0 {
        records
    } else {
        let sorted = by_id(records.drop_last());
        sorted.insert(place(sorted, records.last()), records.last())
    }
}

/// `place` names the one index that has only larger ids from it on and a
/// smaller or equal id just before it.
pub proof fn lemma_place(sorted: Seq<TransactionView>, record: TransactionView)
    ensures
        0 <= place(sorted, record) <= sorted.len(),
        forall|j: int| place(sorted, record) <= j < sorted.len() ==> sorted[j].id > record.id,
        place(sorted, record) > 0 ==> sorted[place(sorted, record) - 1].id <= record.id,
    decreases sorted.len(),
{
    if sorted.len() > 0 && sorted.last().id > record.id {
        let rest = sorted.drop_last();
        lemma_place(rest, record);
        assert forall|j: int| place(sorted, record) <= j < sorted.len() implies sorted[j].id
            > record.id by {
            if j < rest.len() {
                assert(sorted[j] == rest[j]);
            }
        }
    }
}

/// An index with only larger ids from it on and a smaller or equal id just
/// before it is the place of `record`.
pub proof fn lemma_place_found(sorted: Seq<TransactionView>, record: TransactionView, k: int)
    requires
        0 <= k <= sorted.len(),
        forall|j: int| k <= j < sorted.len() ==> sorted[j].id > record.id,
        k > 0 ==> sorted[k - 1].id <= record.id,
    ensures
        place(sorted, record) == k,
    decreases sorted.len(),
{
    if sorted.len() > 0 && sorted.last().id > record.id {
        lemma_place_found(sorted.drop_last(), record, k);
    }
}

/// `by_id` sorts: its result is ascending and holds the records it was
/// given, each as often as it came.
pub proof fn lemma_by_id_sorts(records: Seq<TransactionView>)
    ensures
        ascending(by_id(records)),
        by_id(records).to_multiset() == records.to_multiset(),
        by_id(records).len() == records.len(),
    decreases records.len(),
{
    if records.len() > 0 {
        let rest = records.drop_last();
        let last = records.last();
        let sorted = by_id(rest);
        lemma_by_id_sorts(rest);
        lemma_place(sorted, last);
        to_multiset_insert(sorted, place(sorted, last), last);
        to_multiset_build(rest, last);
        assert(rest.push(last) =~= records);
    }
}

/// A rearrangement of records with distinct ids has distinct ids.
pub proof fn lemma_distinct_ids_rearranged(a: Seq<TransactionView>, b: Seq<TransactionView>)
    requires
        distinct_ids(a),
        a.to_multiset() == b.to_multiset(),
    ensures
        distinct_ids(b),
{
    a.lemma_multiset_has_no_duplicates();
    b.lemma_multiset_has_no_duplicates_conv();
    assert forall|i: int, j: int| 0 <= i < j < b.len() implies b[i].id != b[j].id by {
        to_multiset_contains(b, b[i]);
        to_multiset_contains(b, b[j]);
        to_multiset_contains(a, b[i]);
        to_multiset_contains(a, b[j]);
    }
}

/// Records with distinct ids have one ascending order only.
pub proof fn lemma_ascending_unique(a: Seq<TransactionView>, b: Seq<TransactionView>)
    requires
        ascending(a),
        ascending(b),
        distinct_ids(a),
        a.to_multiset() == b.to_multiset(),
    ensures
        a == b,
    decreases a.len(),
{
    to_multiset_len(a);
    to_multiset_len(b);
    if a.len() > 0 {
        let n = a.len() - 1;
        to_multiset_contains(a, a[n]);
        to_multiset_contains(b, a[n]);
        to_multiset_contains(b, b[n]);
        to_multiset_contains(a, b[n]);
        to_multiset_remove(a, n);
        to_multiset_remove(b, n);
        lemma_ascending_unique(a.drop_last(), b.drop_last());
        assert(b =~= b.drop_last().push(b[n]));
    }
}

/// The records in ascending order of id. Records of one id keep the order
/// they came in. The work grows with the number of records and of pairs
/// that stand out of order, so a snapshot that is nearly sorted, as that of
/// a store is, takes little more than one pass.
pub fn sort_by_id(records: Vec<Transaction>) -> (sorted: Vec<Transaction>)
    ensures
        views(sorted@) == by_id(views(records@)),
        ascending(views(sorted@)),
        views(sorted@).to_multiset() == views(records@).to_multiset(),
{
    let mut sorted: Vec<Transaction> = Vec::new();
    for record in it: records
        invariant
            it.seq() == records@,
            views(sorted@) == by_id(views(records@.take(it.index() as int))),
    {
        let ghost before = views(sorted@);
        let mut k: usize = sorted.len();
        while k > 0 && sorted[k - 1].id > record.id
            invariant
                k <= sorted.len(),
                forall|j: int| k <= j < sorted.len() ==> sorted[j].id > record.id,
            decreases k,
        {
            k -= 1;
        }
        sorted.insert(k, record);
        proof {
            let i = it.index() as int;
            lemma_place_found(before, record@, k as int);
            assert(views(records@.take(i + 1)).drop_last() =~= views(records@.take(i)));
        }
    }
    proof {
        assert(records@.take(records@.len() as int) =~= records@);
        lemma_by_id_sorts(views(records@));
    }
    sorted
}

} // verus!
