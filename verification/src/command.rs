//! One request against the store, from the beginning of its write scope to
//! the one commit that ends it.

use vstd::prelude::*;
use crate::balance::{balance_sheet, balance_views, get_balance, lists, Balance};
use crate::clock::Timestamp;
use crate::entry::{deposit, entry, withdraw};
use crate::error::LedgerError;
use crate::order::has_id;
use crate::query::{export, get_tags, selection, tags_of};
use crate::record::{text_of, texts, views, Amount, Transaction, TransactionKind, TransactionView};
use crate::store::{import_outcome, Store};

verus! {

/// A request, with every value parsed and typed.
#[allow(inconsistent_fields)]
#[derive(Debug, PartialEq, Eq)]
pub enum Command {
    /// Does nothing to the ledger.
    Test,
    /// Asks for the balance of every currency.
    Balance,
    /// Asks for the records that carry all of `tags` and are in `currency`,
    /// where one is given; the most recent first.
    Export { tags: Vec<String>, currency: Option<String> },
    /// Asks for the tags in use.
    Tags,
    /// Enters a deposit, made at `time` or, where none is given, now.
    Deposit {
        time: Option<Timestamp>,
        currency: String,
        amount: Amount,
        message: Option<String>,
        tags: Vec<String>,
    },
    /// Enters a withdrawal, made at `time` or, where none is given, now.
    Withdraw {
        time: Option<Timestamp>,
        currency: String,
        amount: Amount,
        message: Option<String>,
        tags: Vec<String>,
    },
    /// Inserts all of `records`, or none of them.
    Import { records: Vec<Transaction> },
}

/// What a request that succeeded hands back.
#[derive(Debug, PartialEq, Eq)]
pub enum Reply {
    /// The request asked for nothing.
    Done,
    Balances(Vec<Balance>),
    Export(Vec<Transaction>),
    Tags(Vec<String>),
}

/// How a request ended: the store after it, the records that it made
/// durable, and its reply or its failure.
#[derive(Debug)]
pub struct Outcome {
    pub store: Store,
    pub inserted: Vec<Transaction>,
    pub result: Result<Reply, LedgerError>,
}

impl Command {
    /// A movement to enter has a finite, non-negative amount and, where it
    /// names its time, an instant that the calendar can name. The other
    /// requests are always in order.
    pub open spec fn wf(&self) -> bool {
        match *self {
            Command::Deposit { time, amount, .. } => moment_wf(time) && amount.wf(),
            Command::Withdraw { time, amount, .. } => moment_wf(time) && amount.wf(),
            _ => true,
        }
    }

    /// Whether the request is in order.
    pub fn is_valid(&self) -> (r: bool)
        ensures
            r == self.wf(),
    {
        match self {
            Command::Deposit { time, amount, .. } => moment_is_valid(time) && amount.is_valid(),
            Command::Withdraw { time, amount, .. } => moment_is_valid(time) && amount.is_valid(),
            _ => true,
        }
    }
}

/// A time that is given is one that the calendar can name.
pub open spec fn moment_wf(time: Option<Timestamp>) -> bool {
    time matches Some(given) ==> given.wf()
}

/// The time of a movement: the one given or, where none is given, `now`.
pub open spec fn moment(time: Option<Timestamp>, now: Timestamp) -> Timestamp {
    match time {
        Some(given) => given,
        None => now,
    }
}

fn moment_is_valid(time: &Option<Timestamp>) -> (r: bool)
    ensures
        r == moment_wf(*time),
{
    match time {
        Some(given) => given.is_valid(),
        None => true,
    }
}

/// The request left the ledger as it was and made nothing durable.
pub open spec fn untouched(before: Seq<TransactionView>, out: Outcome) -> bool {
    out.store@ == before && out.inserted@.len() == 0
}

/// The request entered `record`: where the ledger had its id already the
/// request fails as a duplicate and the ledger is untouched; otherwise
/// `record` alone is added.
pub open spec fn entered(
    before: Seq<TransactionView>,
    record: TransactionView,
    out: Outcome,
) -> bool {
    if has_id(before, record.id) {
        out.result == Err::<Reply, LedgerError>(LedgerError::DuplicateId) && untouched(before, out)
    } else {
        &&& out.result == Ok::<Reply, LedgerError>(Reply::Done)
        &&& out.store@ == before.push(record)
        &&& views(out.inserted@) == seq![record]
    }
}

/// What `execute` owes for `command`, issued at the instant `now`, on a
/// store that holds `before`.
///
/// A request that reads hands back its view of `before` and leaves the
/// ledger untouched. A request that writes adds all its records or, where
/// it fails, none.
pub open spec fn settles(
    before: Seq<TransactionView>,
    command: Command,
    now: Timestamp,
    out: Outcome,
) -> bool {
    match command {
        Command::Test => out.result == Ok::<Reply, LedgerError>(Reply::Done) && untouched(
            before,
            out,
        ),
        Command::Balance => {
            &&& out.result matches Ok(Reply::Balances(balances))
            &&& lists(balance_views(balances@), balance_sheet(before))
            &&& untouched(before, out)
        },
        Command::Export { tags, currency } => {
            &&& out.result matches Ok(Reply::Export(records))
            &&& views(records@) == selection(before, texts(tags@), text_of(currency))
            &&& untouched(before, out)
        },
        Command::Tags => {
            &&& out.result matches Ok(Reply::Tags(tags))
            &&& texts(tags@).no_duplicates()
            &&& texts(tags@).to_set() == tags_of(before)
            &&& untouched(before, out)
        },
        Command::Deposit { time, currency, amount, message, tags } => entered(
            before,
            entry(
                TransactionKind::Deposit,
                moment(time, now),
                currency@,
                amount,
                text_of(message),
                texts(tags@),
            ),
            out,
        ),
        Command::Withdraw { time, currency, amount, message, tags } => entered(
            before,
            entry(
                TransactionKind::Withdraw,
                moment(time, now),
                currency@,
                amount,
                text_of(message),
                texts(tags@),
            ),
            out,
        ),
        Command::Import { records } => match import_outcome(before, views(records@)) {
            Ok(()) => {
                &&& out.result == Ok::<Reply, LedgerError>(Reply::Done)
                &&& out.store@ == before + views(records@)
                &&& views(out.inserted@) == views(records@)
            },
            Err(failure) => out.result == Err::<Reply, LedgerError>(failure) && untouched(
                before,
                out,
            ),
        },
    }
}

/// Carries out one request, issued at the instant `now`, in a write scope
/// of its own, and ends the scope with its one commit. A request that fails
/// commits nothing: the store is handed back as it was.
pub fn execute(store: Store, command: Command, now: Timestamp) -> (out: Outcome)
    requires
        command.wf(),
        now.wf(),
    ensures
        settles(store@, command, now, out),
{
    let mut scope = store.begin_write_scope();
    let result = match command {
        Command::Test => Ok(Reply::Done),
        Command::Balance => Ok(Reply::Balances(get_balance(&scope))),
        Command::Export { tags, currency } => Ok(Reply::Export(export(&scope, &tags, &currency))),
        Command::Tags => Ok(Reply::Tags(get_tags(&scope))),
        Command::Deposit { time, currency, amount, message, tags } => {
            match deposit(&mut scope, time.unwrap_or(now), currency, amount, message, tags) {
                Ok(()) => Ok(Reply::Done),
                Err(failure) => Err(failure),
            }
        },
        Command::Withdraw { time, currency, amount, message, tags } => {
            match withdraw(&mut scope, time.unwrap_or(now), currency, amount, message, tags) {
                Ok(()) => Ok(Reply::Done),
                Err(failure) => Err(failure),
            }
        },
        Command::Import { records } => {
            match scope.import(records) {
                Ok(()) => Ok(Reply::Done),
                Err(failure) => Err(failure),
            }
        },
    };
    match result {
        Ok(reply) => {
            let inserted = scope.inserted();
            let store = scope.commit();
            Outcome { store, inserted, result: Ok(reply) }
        },
        Err(failure) => {
            let store = scope.abandon();
            Outcome { store, inserted: Vec::new(), result: Err(failure) }
        },
    }
}

} // verus!
