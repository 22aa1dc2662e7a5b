use yarl::clock::{Timestamp, MAX_SECONDS, MIN_SECONDS};
use yarl::record::{clone_texts, contains_text, Amount, Transaction, TransactionKind, AMOUNT_LIMIT};

fn labelled(id: i64, tags: &[&str], message: Option<&str>) -> Transaction {
    Transaction {
        id,
        currency: "USD".to_string(),
        time: Timestamp { secs: 1_700_000_000, nanos: 250_000_000 },
        kind: TransactionKind::Withdraw,
        amount: Amount { bits: 12.75f32.to_bits() },
        message: message.map(|text| text.to_string()),
        tags: tags.iter().map(|tag| tag.to_string()).collect(),
    }
}

#[test]
fn amount_keeps_the_bits_of_a_finite_positive_number() {
    let amount = Amount::from_bits(100.0f32.to_bits()).unwrap();
    assert_eq!(f32::from_bits(amount.bits), 100.0);
    assert!(amount.is_valid());
}

#[test]
fn amount_may_be_zero_or_fractional() {
    assert_eq!(Amount::from_bits(0.0f32.to_bits()), Some(Amount { bits: 0 }));
    let cents = Amount::from_bits(0.01f32.to_bits()).unwrap();
    assert_eq!(f32::from_bits(cents.bits), 0.01);
    assert!(Amount::from_bits(f32::MAX.to_bits()).is_some());
}

#[test]
fn amount_is_never_negative_infinite_or_no_number() {
    assert_eq!(Amount::from_bits((-1.0f32).to_bits()), None);
    assert_eq!(Amount::from_bits((-0.0f32).to_bits()), None);
    assert_eq!(Amount::from_bits(f32::INFINITY.to_bits()), None);
    assert_eq!(Amount::from_bits(f32::NEG_INFINITY.to_bits()), None);
    assert_eq!(Amount::from_bits(f32::NAN.to_bits()), None);
    assert!(!Amount { bits: (-3.5f32).to_bits() }.is_valid());
}

#[test]
fn amount_limit_is_the_pattern_of_infinity() {
    assert_eq!(AMOUNT_LIMIT, f32::INFINITY.to_bits());
    assert_eq!(Amount::from_bits(AMOUNT_LIMIT - 1), Some(Amount { bits: AMOUNT_LIMIT - 1 }));
    assert_eq!(Amount::from_bits(AMOUNT_LIMIT), None);
    assert_eq!(Amount::from_bits(u32::MAX), None);
}

#[test]
fn amounts_order_as_their_bits() {
    let small = Amount::from_bits(0.5f32.to_bits()).unwrap();
    let large = Amount::from_bits(40.25f32.to_bits()).unwrap();
    assert!(small.bits < large.bits);
}

#[test]
fn transaction_validity_follows_amount_and_time() {
    let mut record = labelled(1, &[], None);
    assert!(record.is_valid());
    record.amount = Amount { bits: (-12.75f32).to_bits() };
    assert!(!record.is_valid());
    record.amount = Amount { bits: 12.75f32.to_bits() };
    record.time = Timestamp { secs: MAX_SECONDS + 1, nanos: 0 };
    assert!(!record.is_valid());
    record.time = Timestamp { secs: MIN_SECONDS, nanos: 0 };
    assert!(record.is_valid());
}

#[test]
fn clone_is_structurally_equal() {
    let record = labelled(42, &["food", "urgent", "food"], Some("lunch"));
    let copy = record.clone();
    assert_eq!(copy, record);
    assert_eq!(copy.tags, vec!["food".to_string(), "urgent".to_string(), "food".to_string()]);
    assert_eq!(copy.message.as_deref(), Some("lunch"));
}

#[test]
fn clone_keeps_empty_tags_and_absent_message() {
    let record = labelled(42, &[], None);
    let copy = record.clone();
    assert_eq!(copy, record);
    assert!(copy.tags.is_empty());
    assert_eq!(copy.message, None);
}

#[test]
fn records_differ_when_a_field_differs() {
    let record = labelled(42, &["a"], Some("x"));
    assert_ne!(record, labelled(43, &["a"], Some("x")));
    assert_ne!(record, labelled(42, &["b"], Some("x")));
    assert_ne!(record, labelled(42, &["a"], None));
}

#[test]
fn clone_texts_copies_each_text() {
    let labels = vec!["a".to_string(), String::new(), "b c".to_string()];
    assert_eq!(clone_texts(&labels), labels);
    assert!(clone_texts(&Vec::new()).is_empty());
}

#[test]
fn contains_text_finds_whole_texts_only() {
    let labels = vec!["food".to_string(), "travel".to_string()];
    assert!(contains_text(&labels, &"travel".to_string()));
    assert!(!contains_text(&labels, &"foo".to_string()));
    assert!(!contains_text(&Vec::new(), &"food".to_string()));
}
