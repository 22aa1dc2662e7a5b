//! The store of records and its exclusive write scope.

use vstd::prelude::*;
use crate::error::LedgerError;
use crate::ledger::{
    all_wf, is_ledger, lemma_has_id_concat, lemma_ledger_prefix, lemma_ledger_push,
    lemma_ledger_rearranged,
};
use crate::order::{ascending, by_id, distinct_ids, has_id, sort_by_id};
use crate::record::{views, Transaction, TransactionView};

verus! {

/// How the import of `batch` into a scope that sees `contents` ends. A
/// record that breaks the invariants of a record makes the batch malformed.
/// An id that the scope has already, or that comes twice in the batch, is a
/// duplicate.
pub open spec fn import_outcome(
    contents: Seq<TransactionView>,
    batch: Seq<TransactionView>,
) -> Result<(), LedgerError> {
    if !all_wf(batch) {
        Err(LedgerError::MalformedPortableData)
    } else if !distinct_ids(contents + batch) {
        Err(LedgerError::DuplicateId)
    } else {
        Ok(())
    }
}

/// What the caller found where the store is kept.
#[derive(Debug, PartialEq, Eq)]
pub enum StoreFile {
    /// A store was there and could be read: these are its records.
    Existing(Vec<Transaction>),
    /// Nothing was there, and an empty store was created.
    Created,
    /// Nothing could be read there or created there.
    Unavailable,
}

/// The durable collection of records. Its records share no id, and each
/// keeps the invariants of a single record.
#[derive(Debug)]
pub struct Store {
    records: Vec<Transaction>,
}

/// The one writer of a store. It owns the store from `begin_write_scope`
/// until `commit` or `abandon` hands the store back, so a second scope on
/// the same store cannot exist beside it.
#[derive(Debug)]
pub struct WriteScope {
    durable: Vec<Transaction>,
    pending: Vec<Transaction>,
}

/// How the insert of `record` takes a scope from `before` to `after` and
/// ends in `r`. Where the scope sees the id of `record` already, the insert
/// is a duplicate and nothing changes. Otherwise it succeeds, and `record`
/// is the last of the inserts of the scope. The records of the store stay
/// as they are either way.
pub open spec fn insertion(
    before: WriteScope,
    after: WriteScope,
    record: TransactionView,
    r: Result<(), LedgerError>,
) -> bool {
    &&& after.durable() == before.durable()
    &&& if has_id(before.contents(), record.id) {
        &&& r == Err::<(), LedgerError>(LedgerError::DuplicateId)
        &&& after.pending() == before.pending()
    } else {
        &&& r is Ok
        &&& after.pending() == before.pending().push(record)
    }
}

/// Of two inserts of one id, one after the other into the same scope, the
/// second is refused as a duplicate and leaves the scope as the first left
/// it.
pub proof fn lemma_second_insert_refused(
    start: WriteScope,
    between: WriteScope,
    end: WriteScope,
    first: TransactionView,
    second: TransactionView,
    r: Result<(), LedgerError>,
)
    requires
        insertion(start, between, first, Ok(())),
        insertion(between, end, second, r),
        first.id == second.id,
    ensures
        r == Err::<(), LedgerError>(LedgerError::DuplicateId),
        end.contents() == between.contents(),
{
    let seen = between.contents();
    assert(seen[seen.len() - 1] == first);
}

/// A batch of well-formed records, one of which has an id that the scope
/// sees already, is refused as a duplicate: none of its records is
/// inserted, whichever of them it was that collided.
pub proof fn lemma_import_collision(
    contents: Seq<TransactionView>,
    batch: Seq<TransactionView>,
    k: int,
)
    requires
        all_wf(batch),
        0 <= k < batch.len(),
        has_id(contents, batch[k].id),
    ensures
        import_outcome(contents, batch) == Err::<(), LedgerError>(LedgerError::DuplicateId),
{
    let full = contents + batch;
    let at = choose|at: int| 0 <= at < contents.len() && #[trigger] contents[at].id == batch[k].id;
    assert(full[at] == contents[at]);
    assert(full[contents.len() + k] == batch[k]);
}

/// Whether one of the first `n` records of `records` has the id `id`.
fn holds_id(records: &Vec<Transaction>, n: usize, id: i64) -> (r: bool)
    requires
        n <= records.len(),
    ensures
        r == has_id(views(records@).take(n as int), id),
{
    let ghost firsts = views(records@).take(n as int);
    let mut i: usize = 0;
    while i < n
        invariant
            i <= n <= records.len(),
            firsts == views(records@).take(n as int),
            forall|j: int| 0 <= j < i ==> firsts[j].id != id,
        decreases n - i,
    {
        if records[i].id == id {
            assert(firsts[i as int].id == id);
            return true;
        }
        i += 1;
    }
    false
}

/// A copy of `records`, record for record.
fn copy_records(records: &Vec<Transaction>) -> (r: Vec<Transaction>)
    ensures
        views(r@) == views(records@),
{
    let mut copy: Vec<Transaction> = Vec::new();
    let mut i: usize = 0;
    while i < records.len()
        invariant
            i <= records.len(),
            copy.len() == i,
            forall|j: int| 0 <= j < i ==> copy[j]@ == records[j]@,
        decreases records.len() - i,
    {
        copy.push(records[i].clone());
        i += 1;
    }
    copy
}

/// Opens the store that the caller found, or starts the one it created.
///
/// A store that was there keeps all its records, in ascending order of id.
/// A created store is empty. The store is unavailable where the caller
/// could neither read nor create it, and where the records it read are no
/// ledger: two of them share an id, or one breaks the invariants of a
/// record.
#[verifier::loop_isolation(false)]
pub fn open_or_create(found: StoreFile) -> (r: Result<Store, LedgerError>)
    ensures
        match found {
            StoreFile::Existing(records) => {
                if is_ledger(views(records@)) {
                    &&& r is Ok
                    &&& r->Ok_0@ == by_id(views(records@))
                    &&& r->Ok_0@.to_multiset() == views(records@).to_multiset()
                } else {
                    r == Err::<Store, LedgerError>(LedgerError::StorageUnavailable)
                }
            },
            StoreFile::Created => r is Ok && r->Ok_0@ == Seq::<TransactionView>::empty(),
            StoreFile::Unavailable => r == Err::<Store, LedgerError>(
                LedgerError::StorageUnavailable,
            ),
        },
{
    match found {
        StoreFile::Unavailable => Err(LedgerError::StorageUnavailable),
        StoreFile::Created => Ok(Store { records: Vec::new() }),
        StoreFile::Existing(records) => {
            let ghost given = views(records@);
            let sorted = sort_by_id(records);
            let mut i: usize = 0;
            while i < sorted.len()
                invariant
                    i <= sorted.len(),
                    ascending(views(sorted@)),
                    views(sorted@).to_multiset() == given.to_multiset(),
                    forall|j: int| 0 <= j < i ==> (#[trigger] views(sorted@)[j]).wf(),
                    forall|a: int, b: int|
                        0 <= a < b < i ==> views(sorted@)[a].id < views(sorted@)[b].id,
                decreases sorted.len() - i,
            {
                let in_order = i == 0 || sorted[i - 1].id < sorted[i].id;
                if !sorted[i].is_valid() || !in_order {
                    proof {
                        if is_ledger(given) {
                            lemma_ledger_rearranged(given, views(sorted@));
                            if i > 0 {
                                assert(views(sorted@)[i - 1].id != views(sorted@)[i as int].id);
                            }
                        }
                    }
                    return Err(LedgerError::StorageUnavailable);
                }
                i += 1;
            }
            proof {
                lemma_ledger_rearranged(views(sorted@), given);
            }
            Ok(Store { records: sorted })
        },
    }
}

impl View for Store {
    type V = Seq<TransactionView>;

    /// The records of the store, in the order it keeps them.
    closed spec fn view(&self) -> Seq<TransactionView> {
        views(self.records@)
    }
}

impl Store {
    #[verifier::type_invariant]
    spec fn inv(&self) -> bool {
        is_ledger(views(self.records@))
    }

    /// A copy of the records of the store. They are a ledger.
    pub fn records(&self) -> (r: Vec<Transaction>)
        ensures
            views(r@) == self@,
            is_ledger(views(r@)),
    {
        proof {
            use_type_invariant(self);
        }
        copy_records(&self.records)
    }

    /// Begins the one write scope of this store. The scope starts with the
    /// records of the store and nothing inserted.
    pub fn begin_write_scope(self) -> (scope: WriteScope)
        ensures
            scope.durable() == self@,
            scope.pending() == Seq::<TransactionView>::empty(),
    {
        proof {
            use_type_invariant(&self);
        }
        let pending: Vec<Transaction> = Vec::new();
        WriteScope { durable: self.records, pending }
    }
}

impl WriteScope {
    #[verifier::type_invariant]
    spec fn inv(&self) -> bool {
        is_ledger(views(self.durable@) + views(self.pending@))
    }

    /// The records that the store held when the scope began.
    pub closed spec fn durable(&self) -> Seq<TransactionView> {
        views(self.durable@)
    }

    /// The records inserted in this scope, in the order of their insertion.
    pub closed spec fn pending(&self) -> Seq<TransactionView> {
        views(self.pending@)
    }

    /// What the scope sees: the records of the store, then its own inserts.
    pub open spec fn contents(&self) -> Seq<TransactionView> {
        self.durable() + self.pending()
    }

    /// Inserts `transaction`, unless a record that the scope sees has its
    /// id already; then the insert fails and the scope stays as it was.
    pub fn insert(&mut self, transaction: Transaction) -> (r: Result<(), LedgerError>)
        requires
            transaction.wf(),
        ensures
            insertion(*old(self), *final(self), transaction@, r),
    {
        proof {
            use_type_invariant(&*self);
        }
        let ghost durable = views(self.durable@);
        let ghost pending_before = views(self.pending@);
        let known = holds_id(&self.durable, self.durable.len(), transaction.id) || holds_id(
            &self.pending,
            self.pending.len(),
            transaction.id,
        );
        proof {
            assert(durable.take(durable.len() as int) =~= durable);
            assert(pending_before.take(pending_before.len() as int) =~= pending_before);
            lemma_has_id_concat(durable, pending_before, transaction.id);
        }
        if known {
            Err(LedgerError::DuplicateId)
        } else {
            let mut pending: Vec<Transaction> = Vec::new();
            proof {
                lemma_ledger_push(durable + pending_before, transaction@);
                lemma_ledger_prefix(durable, pending_before);
            }
            std::mem::swap(&mut self.pending, &mut pending);
            pending.push(transaction);
            proof {
                assert(views(pending@) =~= pending_before.push(transaction@));
            }
            std::mem::swap(&mut self.pending, &mut pending);
            Ok(())
        }
    }

    /// Inserts every record of `batch`, in its order, or none of them: where
    /// the import fails the scope stays as it was.
    pub fn import(&mut self, batch: Vec<Transaction>) -> (r: Result<(), LedgerError>)
        ensures
            r == import_outcome(old(self).contents(), views(batch@)),
            final(self).durable() == old(self).durable(),
            r is Ok ==> final(self).pending() == old(self).pending() + views(batch@),
            r is Err ==> final(self).pending() == old(self).pending(),
    {
        proof {
            use_type_invariant(&*self);
        }
        let ghost durable = views(self.durable@);
        let ghost pending_before = views(self.pending@);
        let ghost contents = durable + pending_before;
        let ghost incoming = views(batch@);
        let mut i: usize = 0;
        while i < batch.len()
            invariant
                i <= batch.len(),
                incoming == views(batch@),
                forall|j: int| 0 <= j < i ==> (#[trigger] incoming[j]).wf(),
            decreases batch.len() - i,
        {
            if !batch[i].is_valid() {
                assert(!incoming[i as int].wf());
                return Err(LedgerError::MalformedPortableData);
            }
            i += 1;
        }
        let mut k: usize = 0;
        while k < batch.len()
            invariant
                k <= batch.len(),
                incoming == views(batch@),
                durable == views(self.durable@),
                pending_before == views(self.pending@),
                contents == durable + pending_before,
                all_wf(incoming),
                distinct_ids(contents + incoming.take(k as int)),
            decreases batch.len() - k,
        {
            let id = batch[k].id;
            let known = holds_id(&self.durable, self.durable.len(), id) || holds_id(
                &self.pending,
                self.pending.len(),
                id,
            ) || holds_id(&batch, k, id);
            proof {
                let seen = contents + incoming.take(k as int);
                assert(durable.take(durable.len() as int) =~= durable);
                assert(pending_before.take(pending_before.len() as int) =~= pending_before);
                lemma_has_id_concat(durable, pending_before, id);
                lemma_has_id_concat(contents, incoming.take(k as int), id);
                assert(contents + incoming.take(k + 1) =~= seen.push(incoming[k as int]));
                if known {
                    let full = contents + incoming;
                    let at = choose|at: int| 0 <= at < seen.len() && #[trigger] seen[at].id == id;
                    assert(full[at] == seen[at]);
                    assert(full[contents.len() + k] == incoming[k as int]);
                }
            }
            if known {
                return Err(LedgerError::DuplicateId);
            }
            k += 1;
        }
        let mut batch = batch;
        let mut pending: Vec<Transaction> = Vec::new();
        proof {
            assert(incoming.take(k as int) =~= incoming);
            assert(contents + incoming =~= durable + (pending_before + incoming));
            lemma_ledger_prefix(durable, pending_before);
        }
        std::mem::swap(&mut self.pending, &mut pending);
        pending.append(&mut batch);
        proof {
            assert(views(pending@) =~= pending_before + incoming);
        }
        std::mem::swap(&mut self.pending, &mut pending);
        Ok(())
    }

    /// A snapshot of what the scope sees: the records of the store and the
    /// inserts of this scope. They are a ledger.
    pub fn scan(&self) -> (r: Vec<Transaction>)
        ensures
            views(r@) == self.contents(),
            is_ledger(views(r@)),
    {
        proof {
            use_type_invariant(self);
        }
        let mut snapshot = copy_records(&self.durable);
        let mut i: usize = 0;
        while i < self.pending.len()
            invariant
                i <= self.pending.len(),
                views(snapshot@) == views(self.durable@) + views(self.pending@.take(i as int)),
            decreases self.pending.len() - i,
        {
            let ghost before = views(snapshot@);
            snapshot.push(self.pending[i].clone());
            proof {
                assert(views(snapshot@) =~= before.push(self.pending[i as int]@));
            }
            i += 1;
        }
        snapshot
    }

    /// A copy of the records inserted in this scope, in the order of their
    /// insertion.
    pub fn inserted(&self) -> (r: Vec<Transaction>)
        ensures
            views(r@) == self.pending(),
    {
        copy_records(&self.pending)
    }

    /// Ends the scope and makes all its inserts durable at once.
    pub fn commit(self) -> (store: Store)
        ensures
            store@ == self.contents(),
    {
        proof {
            use_type_invariant(&self);
        }
        let mut records = self.durable;
        let mut pending = self.pending;
        let ghost durable = views(records@);
        let ghost inserts = views(pending@);
        records.append(&mut pending);
        proof {
            assert(views(records@) =~= durable + inserts);
        }
        Store { records }
    }

    /// Ends the scope and drops all its inserts: the store is what it was
    /// when the scope began.
    pub fn abandon(self) -> (store: Store)
        ensures
            store@ == self.durable(),
    {
        proof {
            use_type_invariant(&self);
            lemma_ledger_prefix(views(self.durable@), views(self.pending@));
        }
        Store { records: self.durable }
    }
}

} // verus!
