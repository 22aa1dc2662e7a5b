//! Entering a movement: the record of a deposit or a withdrawal, made and
//! inserted in one step.

use vstd::prelude::*;
use crate::clock::Timestamp;
use crate::error::LedgerError;
use crate::record::{text_of, texts, Amount, Transaction, TransactionKind, TransactionView};
use crate::store::{insertion, WriteScope};

verus! {

/// The record of a movement made at `time`. Its id is the millisecond
/// reading of `time`, so that ids ascend with the time of the movements.
pub open spec fn entry(
    kind: TransactionKind,
    time: Timestamp,
    currency: Seq<char>,
    amount: Amount,
    message: Option<Seq<char>>,
    tags: Seq<Seq<char>>,
) -> TransactionView {
    TransactionView { id: time.spec_millis() as i64, currency, time, kind, amount, message, tags }
}

/// Makes the record of a movement of `kind` and inserts it. The scope
/// stays as it was where a record with the id of that millisecond is there
/// already.
pub fn enter(
    scope: &mut WriteScope,
    kind: TransactionKind,
    time: Timestamp,
    currency: String,
    amount: Amount,
    message: Option<String>,
    tags: Vec<String>,
) -> (r: Result<(), LedgerError>)
    requires
        time.wf(),
        amount.wf(),
    ensures
        insertion(
            *old(scope),
            *final(scope),
            entry(kind, time, currency@, amount, text_of(message), texts(tags@)),
            r,
        ),
{
    match time.millis() {
        Some(id) => {
            let record = Transaction { id, currency, time, kind, amount, message, tags };
            scope.insert(record)
        },
        None => vstd::pervasive::unreached(),
    }
}

/// Enters a deposit made at `time`.
pub fn deposit(
    scope: &mut WriteScope,
    time: Timestamp,
    currency: String,
    amount: Amount,
    message: Option<String>,
    tags: Vec<String>,
) -> (r: Result<(), LedgerError>)
    requires
        time.wf(),
        amount.wf(),
    ensures
        insertion(
            *old(scope),
            *final(scope),
            entry(
                TransactionKind::Deposit,
                time,
                currency@,
                amount,
                text_of(message),
                texts(tags@),
            ),
            r,
        ),
{    enter(scope, TransactionKind::Deposit, time, currency, amount, message, tags)
}

/// Enters a withdrawal made at `time`.
pub fn withdraw(
    scope: &mut WriteScope,
    time: Timestamp,
    currency: String,
    amount: Amount,
    message: Option<String>,
    tags: Vec<String>,
) -> (r: Result<(), LedgerError>)
    requires
        time.wf(),
        amount.wf(),
    ensures
        insertion(
            *old(scope),
            *final(scope),
            entry(
                TransactionKind::Withdraw,
                time,
                currency@,
                amount,
                text_of(message),
                texts(tags@),
            ),
            r,
        ),
{    enter(scope, TransactionKind::Withdraw, time, currency, amount, message, tags)
}

} // verus!
