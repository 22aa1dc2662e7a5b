//! The transaction record and its mathematical view.

use vstd::prelude::*;
use crate::clock::Timestamp;

verus! {

/// The direction of a movement: money in or money out.
#[derive(Clone, Copy, Debug, PartialEq, Eq, Structural)]
pub enum TransactionKind {
    Deposit,
    Withdraw,
}

/// The first single-precision bit pattern that is no finite, non-negative
/// number: from it on, a pattern is an infinity or a NaN, or has its sign
/// bit set.
pub const AMOUNT_LIMIT: u32 = 0x7F80_0000;

/// A quantity of money, held as the IEEE 754 single-precision bit pattern of
/// a real number. The direction of a movement is never in the amount: a
/// well-formed amount is finite and its sign bit is clear.
#[derive(Clone, Copy, Debug, PartialEq, Eq, Structural)]
pub struct Amount {
    pub bits: u32,
}

impl Amount {
    /// Finite and not negative: among such patterns the order of the bits is
    /// the order of the numbers.
    pub open spec fn wf(&self) -> bool {
        self.bits < AMOUNT_LIMIT
    }

    /// The amount with the bit pattern `bits`, unless that pattern is
    /// negative, infinite or no number.
    pub fn from_bits(bits: u32) -> (r: Option<Amount>)
        ensures
            r == (if bits < AMOUNT_LIMIT { Some(Amount { bits }) } else { None }),
    {
        if bits < AMOUNT_LIMIT {
            Some(Amount { bits })
        } else {
            None
        }
    }

    /// Whether the amount is finite and not negative.
    pub fn is_valid(&self) -> (r: bool)
        ensures
            r == self.wf(),
    {
        self.bits < AMOUNT_LIMIT
    }
}

/// One movement of money, as the ledger records it.
#[derive(Debug, PartialEq, Eq)]
pub struct Transaction {
    /// The primary key: unique in a store, ascending with insertion time.
    pub id: i64,
    /// The currency moved, such as `USD`.
    pub currency: String,
    /// When the movement took place.
    pub time: Timestamp,
    pub kind: TransactionKind,
    pub amount: Amount,
    pub message: Option<String>,
    /// Free labels in the order entered; a label may repeat.
    pub tags: Vec<String>,
}

/// What a transaction is, without its representation in memory.
pub struct TransactionView {
    pub id: i64,
    pub currency: Seq<char>,
    pub time: Timestamp,
    pub kind: TransactionKind,
    pub amount: Amount,
    pub message: Option<Seq<char>>,
    pub tags: Seq<Seq<char>>,
}

/// The texts that a list of strings holds.
pub open spec fn texts(labels: Seq<String>) -> Seq<Seq<char>> {
    labels.map_values(|label: String| label@)
}

/// The text that an optional string holds.
pub open spec fn text_of(text: Option<String>) -> Option<Seq<char>> {
    match text {
        Some(text) => Some(text@),
        None => None,
    }
}

/// The views of a list of transactions.
pub open spec fn views(records: Seq<Transaction>) -> Seq<TransactionView> {
    records.map_values(|record: Transaction| record@)
}

impl TransactionView {
    /// The invariants of a single record: a finite, non-negative amount and
    /// an instant that the calendar can name.
    pub open spec fn wf(&self) -> bool {
        self.amount.wf() && self.time.wf()
    }
}

impl View for Transaction {
    type V = TransactionView;

    open spec fn view(&self) -> TransactionView {
        TransactionView {
            id: self.id,
            currency: self.currency@,
            time: self.time,
            kind: self.kind,
            amount: self.amount,
            message: text_of(self.message),
            tags: texts(self.tags@),
        }
    }
}

/// Whether one of `labels` is the text of `needle`.
pub fn contains_text(labels: &Vec<String>, needle: &String) -> (r: bool)
    ensures
        r == texts(labels@).contains(needle@),
{
    let mut i: usize = 0;
    while i < labels.len()
        invariant
            i <= labels.len(),
            forall|j: int| 0 <= j < i ==> texts(labels@)[j] != needle@,
        decreases labels.len() - i,
    {
        if labels[i] == *needle {
            assert(texts(labels@)[i as int] == needle@);
            return true;
        }
        i += 1;
    }
    false
}

/// A copy of `labels`, text for text.
pub fn clone_texts(labels: &Vec<String>) -> (r: Vec<String>)
    ensures
        texts(r@) == texts(labels@),
{
    let mut copy: Vec<String> = Vec::new();
    let mut i: usize = 0;
    while i < labels.len()
        invariant
            i <= labels.len(),
            copy.len() == i,
            forall|j: int| 0 <= j < i ==> copy[j]@ == labels[j]@,
        decreases labels.len() - i,
    {
        copy.push(labels[i].clone());
        i += 1;
    }
    copy
}

impl Clone for Transaction {
    fn clone(&self) -> (r: Self)
        ensures
            r@ == self@,
    {
        let message = match &self.message {
            Some(text) => Some(text.clone()),
            None => None,
        };
        Transaction {
            id: self.id,
            currency: self.currency.clone(),
            time: self.time,
            kind: self.kind,
            amount: self.amount,
            message,
            tags: clone_texts(&self.tags),
        }
    }
}

impl Transaction {
    /// The invariants of a single record.
    pub open spec fn wf(&self) -> bool {
        self@.wf()
    }

    /// Whether the record keeps the invariants of a single record.
    pub fn is_valid(&self) -> (r: bool)
        ensures
            r == self.wf(),
    {
        self.amount.is_valid() && self.time.is_valid()
    }
}

} // verus!
