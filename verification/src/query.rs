//! Views of the ledger: the sorted snapshot, the filtered export and the
//! tags in use.

use vstd::prelude::*;
use vstd::seq_lib::to_multiset_contains;
use crate::ledger::{is_ledger, lemma_ledger_rearranged};
use crate::order::{ascending, by_id, lemma_by_id_sorts, sort_by_id};
use crate::record::{contains_text, text_of, texts, views, Transaction, TransactionView};
use crate::store::WriteScope;

verus! {

/// Whether `record` carries every one of the `required` tags. Where
/// nothing is required, every record does.
pub open spec fn carries(record: TransactionView, required: Seq<Seq<char>>) -> bool {
    forall|i: int| 0 <= i < required.len() ==> record.tags.contains(#[trigger] required[i])
}

/// Whether an export keeps `record`: it carries the required tags, and it
/// is in the currency asked for, where one is asked for.
pub open spec fn selected(
    record: TransactionView,
    required: Seq<Seq<char>>,
    currency: Option<Seq<char>>,
) -> bool {
    &&& carries(record, required)
    &&& currency matches Some(wanted) ==> record.currency == wanted
}

/// `selected`, as the test that a filter applies to each record.
pub open spec fn selector(
    required: Seq<Seq<char>>,
    currency: Option<Seq<char>>,
) -> spec_fn(TransactionView) -> bool {
    |record: TransactionView| selected(record, required, currency)
}

/// What an export holds: the selected records, the most recent first.
pub open spec fn selection(
    records: Seq<TransactionView>,
    required: Seq<Seq<char>>,
    currency: Option<Seq<char>>,
) -> Seq<TransactionView> {
    by_id(records).filter(selector(required, currency)).reverse()
}

/// Taking one more record at the front of the part that an export has
/// gone through puts that record, if it is selected, at the end of the
/// export.
pub proof fn lemma_selection_step(
    sorted: Seq<TransactionView>,
    k: int,
    keep: spec_fn(TransactionView) -> bool,
)
    requires
        0 < k <= sorted.len(),
    ensures
        sorted.skip(k - 1).filter(keep).reverse() == if keep(sorted[k - 1]) {
            sorted.skip(k).filter(keep).reverse().push(sorted[k - 1])
        } else {
            sorted.skip(k).filter(keep).reverse()
        },
{
    let head = sorted[k - 1];
    let tail = sorted.skip(k);
    assert(sorted.skip(k - 1) =~= seq![head] + tail);
    tail.lemma_filter_prepend(head, keep);
}

/// An export in a currency that no record is in holds nothing, whatever
/// tags it asks for.
pub proof fn lemma_unused_currency_selects_nothing(
    records: Seq<TransactionView>,
    required: Seq<Seq<char>>,
    currency: Seq<char>,
)
    requires
        forall|i: int| 0 <= i < records.len() ==> (#[trigger] records[i]).currency != currency,
    ensures
        selection(records, required, Some(currency)) == Seq::<TransactionView>::empty(),
{
    let sorted = by_id(records);
    let keep = selector(required, Some(currency));
    lemma_by_id_sorts(records);
    assert forall|i: int| 0 <= i < sorted.len() implies !keep(#[trigger] sorted[i]) by {
        to_multiset_contains(sorted, sorted[i]);
        to_multiset_contains(records, sorted[i]);
    }
    sorted.lemma_all_neg_filter_empty(keep);
}

/// Whether `record` carries every one of the `required` tags.
fn carries_all(record: &Transaction, required: &Vec<String>) -> (r: bool)
    ensures
        r == carries(record@, texts(required@)),
{
    let mut i: usize = 0;
    while i < required.len()
        invariant
            i <= required.len(),
            forall|j: int| 0 <= j < i ==> record@.tags.contains(#[trigger] texts(required@)[j]),
        decreases required.len() - i,
    {
        if !contains_text(&record.tags, &required[i]) {
            assert(texts(required@)[i as int] == required[i as int]@);
            return false;
        }
        i += 1;
    }
    true
}

/// Whether an export keeps `record`.
fn is_selected(
    record: &Transaction,
    required: &Vec<String>,
    currency: &Option<String>,
) -> (r: bool)
    ensures
        r == selected(record@, texts(required@), text_of(*currency)),
{
    let in_currency = match currency {
        Some(wanted) => record.currency == *wanted,
        None => true,
    };
    in_currency && carries_all(record, required)
}

/// The records of `snapshot` that carry every one of the `required` tags
/// and, where a currency is given, are in that currency; the one with the
/// largest id first. Where none is selected the result is empty.
pub fn select(
    snapshot: Vec<Transaction>,
    required: &Vec<String>,
    currency: &Option<String>,
) -> (r: Vec<Transaction>)
    ensures
        views(r@) == selection(views(snapshot@), texts(required@), text_of(*currency)),
{
    let mut rest = sort_by_id(snapshot);
    let ghost sorted = views(rest@);
    let ghost keep = selector(texts(required@), text_of(*currency));
    let mut chosen: Vec<Transaction> = Vec::new();
    while rest.len() > 0
        invariant
            rest.len() <= sorted.len(),
            views(rest@) == sorted.take(rest.len() as int),
            views(chosen@) == sorted.skip(rest.len() as int).filter(keep).reverse(),
            keep == selector(texts(required@), text_of(*currency)),
        decreases rest.len(),
    {
        let ghost k = rest.len() as int;
        let ghost held = rest@;
        let record = rest.pop().unwrap();
        proof {
            assert(views(held)[k - 1] == record@);
            lemma_selection_step(sorted, k, keep);
        }
        if is_selected(&record, required, currency) {
            chosen.push(record);
        }
    }
    proof {
        assert(sorted.skip(0) =~= sorted);
    }
    chosen
}

/// Whether one of the records carries `tag`.
pub open spec fn tagged(records: Seq<TransactionView>, tag: Seq<char>) -> bool {
    exists|k: int| 0 <= k < records.len() && (#[trigger] records[k]).tags.contains(tag)
}

/// The tags in use: every text that some record carries as a tag.
pub open spec fn tags_of(records: Seq<TransactionView>) -> Set<Seq<char>> {
    Set::new(|tag: Seq<char>| tagged(records, tag))
}

/// A tag is in use among some records and one more where it is in use
/// among the records or the one more carries it.
pub proof fn lemma_tagged_push(
    records: Seq<TransactionView>,
    last: TransactionView,
    tag: Seq<char>,
)
    ensures
        tagged(records.push(last), tag) <==> tagged(records, tag) || last.tags.contains(tag),
{
    let longer = records.push(last);
    if tagged(records, tag) {
        let k = choose|k: int| 0 <= k < records.len() && (#[trigger] records[k]).tags.contains(tag);
        assert(longer[k].tags.contains(tag));
    }
    if last.tags.contains(tag) {
        assert(longer[records.len() as int].tags.contains(tag));
    }
}

/// The tags in use in `snapshot`, each once, in no promised order. Where no
/// record carries a tag the result is empty.
pub fn distinct_tags(snapshot: &Vec<Transaction>) -> (r: Vec<String>)
    ensures
        texts(r@).no_duplicates(),
        texts(r@).to_set() == tags_of(views(snapshot@)),
{
    let ghost records = views(snapshot@);
    let mut found: Vec<String> = Vec::new();
    let mut i: usize = 0;
    while i < snapshot.len()
        invariant
            i <= snapshot.len(),
            records == views(snapshot@),
            texts(found@).no_duplicates(),
            forall|tag: Seq<char>| #[trigger]
                texts(found@).contains(tag) <==> tagged(records.take(i as int), tag),
        decreases snapshot.len() - i,
    {
        let labels = &snapshot[i].tags;
        let ghost seen = records.take(i as int);
        let ghost carried = texts(labels@);
        let mut j: usize = 0;
        while j < labels.len()
            invariant
                j <= labels.len(),
                carried == texts(labels@),
                texts(found@).no_duplicates(),
                forall|tag: Seq<char>| #[trigger]
                    texts(found@).contains(tag) <==> tagged(seen, tag) || carried.take(
                        j as int,
                    ).contains(tag),
            decreases labels.len() - j,
        {
            let ghost before = texts(found@);
            let ghost label = labels[j as int]@;
            assert(carried.take(j + 1) =~= carried.take(j as int).push(label));
            if !contains_text(&found, &labels[j]) {
                found.push(labels[j].clone());
                proof {
                    assert(texts(found@) =~= before.push(label));
                    assert forall|tag: Seq<char>| #[trigger]
                        texts(found@).contains(tag) <==> tagged(seen, tag) || carried.take(
                            j + 1,
                        ).contains(tag) by {
                        lemma_contains_push(before, label, tag);
                        lemma_contains_push(carried.take(j as int), label, tag);
                    }
                }
            }
            j += 1;
        }
        proof {
            assert(carried.take(j as int) =~= carried);
            assert(records.take(i + 1) =~= seen.push(records[i as int]));
            assert forall|tag: Seq<char>| #[trigger]
                texts(found@).contains(tag) <==> tagged(records.take(i + 1), tag) by {
                lemma_tagged_push(seen, records[i as int], tag);
            }
        }
        i += 1;
    }
    proof {
        assert(records.take(i as int) =~= records);
    }
    found
}

/// A text is in a list with one more element where it is in the list or is
/// that element.
pub proof fn lemma_contains_push(list: Seq<Seq<char>>, last: Seq<char>, text: Seq<char>)
    ensures
        list.push(last).contains(text) <==> list.contains(text) || text == last,
{
    let longer = list.push(last);
    if list.contains(text) {
        let i = choose|i: int| 0 <= i < list.len() && list[i] == text;
        assert(longer[i] == text);
    }
    if text == last {
        assert(longer[list.len() as int] == text);
    }
}

/// The tags in use among the records that the scope sees, each once, in no
/// promised order.
pub fn get_tags(scope: &WriteScope) -> (r: Vec<String>)
    ensures
        texts(r@).no_duplicates(),
        texts(r@).to_set() == tags_of(scope.contents()),
{
    let snapshot = scope.scan();
    distinct_tags(&snapshot)
}

/// The records that the scope sees, in ascending order of id.
pub fn get_sorted_transactions(scope: &WriteScope) -> (r: Vec<Transaction>)
    ensures
        views(r@) == by_id(scope.contents()),
        ascending(views(r@)),
        views(r@).to_multiset() == scope.contents().to_multiset(),
        is_ledger(views(r@)),
{
    let snapshot = scope.scan();
    let ghost seen = views(snapshot@);
    let sorted = sort_by_id(snapshot);
    proof {
        lemma_ledger_rearranged(seen, views(sorted@));
    }
    sorted
}

/// What an export of the scope holds: its records that carry every one of
/// the `required` tags and are in `currency`, where one is given; the most
/// recent first.
pub fn export(
    scope: &WriteScope,
    required: &Vec<String>,
    currency: &Option<String>,
) -> (r: Vec<Transaction>)
    ensures
        views(r@) == selection(scope.contents(), texts(required@), text_of(*currency)),
{
    select(scope.scan(), required, currency)
}

} // verus!
