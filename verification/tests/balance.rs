use yarl::balance::{aggregate, get_balance, Balance, Movement};
use yarl::clock::Timestamp;
use yarl::record::{Amount, Transaction, TransactionKind};
use yarl::store::{open_or_create, StoreFile};

fn moved(id: i64, currency: &str, kind: TransactionKind, amount: f32) -> Transaction {
    Transaction {
        id,
        currency: currency.to_string(),
        time: Timestamp { secs: 0, nanos: 0 },
        kind,
        amount: Amount { bits: amount.to_bits() },
        message: None,
        tags: Vec::new(),
    }
}

fn value(amount: Amount) -> f64 {
    f32::from_bits(amount.bits) as f64
}

fn net(balance: &Balance) -> f64 {
    balance.net(0.0, |sum, amount| sum + value(amount), |sum, amount| sum - value(amount))
}

fn net_in(balances: &[Balance], currency: &str) -> Option<f64> {
    let mut found = balances.iter().filter(|balance| balance.currency == currency);
    let first = found.next().map(net);
    assert!(found.next().is_none());
    first
}

fn three_movements() -> Vec<Transaction> {
    vec![
        moved(1, "USD", TransactionKind::Deposit, 100.0),
        moved(2, "USD", TransactionKind::Withdraw, 40.0),
        moved(3, "EUR", TransactionKind::Deposit, 10.0),
    ]
}

#[test]
fn balance_of_two_currencies() {
    let balances = aggregate(three_movements());
    assert_eq!(balances.len(), 2);
    assert_eq!(net_in(&balances, "USD"), Some(60.0));
    assert_eq!(net_in(&balances, "EUR"), Some(10.0));
    assert_eq!(net_in(&balances, "GBP"), None);
}

#[test]
fn balance_holds_the_terms_in_id_order() {
    let balances = aggregate(vec![
        moved(3, "USD", TransactionKind::Deposit, 7.0),
        moved(1, "USD", TransactionKind::Deposit, 100.0),
        moved(2, "USD", TransactionKind::Withdraw, 40.0),
    ]);
    assert_eq!(
        balances,
        vec![Balance {
            currency: "USD".to_string(),
            movements: vec![
                Movement { kind: TransactionKind::Deposit, amount: Amount { bits: 100.0f32.to_bits() } },
                Movement { kind: TransactionKind::Withdraw, amount: Amount { bits: 40.0f32.to_bits() } },
                Movement { kind: TransactionKind::Deposit, amount: Amount { bits: 7.0f32.to_bits() } },
            ],
        }]
    );
}

#[test]
fn balance_is_the_same_for_every_order_of_the_input() {
    let orders: [[usize; 3]; 6] =
        [[0, 1, 2], [0, 2, 1], [1, 0, 2], [1, 2, 0], [2, 0, 1], [2, 1, 0]];
    let expected = aggregate(three_movements());
    for order in orders {
        let given = three_movements();
        let permuted: Vec<Transaction> = order.iter().map(|&at| given[at].clone()).collect();
        let balances = aggregate(permuted);
        assert_eq!(net_in(&balances, "USD"), Some(60.0));
        assert_eq!(net_in(&balances, "EUR"), Some(10.0));
        assert_eq!(balances.len(), 2);
        for balance in &expected {
            let same = balances.iter().find(|other| other.currency == balance.currency);
            assert_eq!(same, Some(balance));
        }
    }
}

#[test]
fn net_adds_deposits_and_takes_withdrawals_away() {
    let balance = Balance {
        currency: "USD".to_string(),
        movements: vec![
            Movement { kind: TransactionKind::Deposit, amount: Amount { bits: 7 } },
            Movement { kind: TransactionKind::Withdraw, amount: Amount { bits: 10 } },
            Movement { kind: TransactionKind::Deposit, amount: Amount { bits: 1 } },
        ],
    };
    let total = balance.net(
        100i64,
        |sum, amount| sum + amount.bits as i64,
        |sum, amount| sum - amount.bits as i64,
    );
    assert_eq!(total, 98);
}

#[test]
fn net_takes_the_terms_in_their_order() {
    let balance = Balance {
        currency: "USD".to_string(),
        movements: vec![
            Movement { kind: TransactionKind::Deposit, amount: Amount { bits: 1 } },
            Movement { kind: TransactionKind::Withdraw, amount: Amount { bits: 2 } },
            Movement { kind: TransactionKind::Withdraw, amount: Amount { bits: 3 } },
            Movement { kind: TransactionKind::Deposit, amount: Amount { bits: 4 } },
        ],
    };
    let trail = balance.net(
        String::new(),
        |trail, amount| format!("{trail}+{}", amount.bits),
        |trail, amount| format!("{trail}-{}", amount.bits),
    );
    assert_eq!(trail, "+1-2-3+4");
}

#[test]
fn net_of_no_terms_is_zero() {
    let balance = Balance { currency: "USD".to_string(), movements: Vec::new() };
    assert_eq!(net(&balance), 0.0);
    assert_eq!(balance.net(5u8, |sum, _| sum + 1, |sum, _| sum - 1), 5);
}

#[test]
fn balance_of_nothing_is_empty() {
    assert!(aggregate(Vec::new()).is_empty());
}

#[test]
fn a_withdrawal_alone_goes_below_zero() {
    let balances = aggregate(vec![moved(1, "USD", TransactionKind::Withdraw, 2.5)]);
    assert_eq!(net_in(&balances, "USD"), Some(-2.5));
}

#[test]
fn balance_keeps_fractions() {
    let balances = aggregate(vec![
        moved(1, "USD", TransactionKind::Deposit, 0.75),
        moved(2, "USD", TransactionKind::Deposit, 0.5),
        moved(3, "USD", TransactionKind::Withdraw, 0.25),
    ]);
    assert_eq!(net_in(&balances, "USD"), Some(1.0));
}

#[test]
fn balance_tells_currencies_apart_by_their_whole_name() {
    let balances = aggregate(vec![
        moved(1, "USD", TransactionKind::Deposit, 1.0),
        moved(2, "USDT", TransactionKind::Deposit, 2.0),
        moved(3, "usd", TransactionKind::Deposit, 4.0),
    ]);
    assert_eq!(balances.len(), 3);
    assert_eq!(net_in(&balances, "USD"), Some(1.0));
    assert_eq!(net_in(&balances, "USDT"), Some(2.0));
    assert_eq!(net_in(&balances, "usd"), Some(4.0));
}

#[test]
fn balance_of_a_scope_counts_its_own_inserts() {
    let found = vec![moved(1, "USD", TransactionKind::Deposit, 100.0)];
    let mut scope = open_or_create(StoreFile::Existing(found)).unwrap().begin_write_scope();
    scope.insert(moved(2, "USD", TransactionKind::Withdraw, 40.0)).unwrap();
    scope.insert(moved(3, "EUR", TransactionKind::Deposit, 10.0)).unwrap();
    let balances = get_balance(&scope);
    assert_eq!(net_in(&balances, "USD"), Some(60.0));
    assert_eq!(net_in(&balances, "EUR"), Some(10.0));
}
