use yarl::clock::Timestamp;
use yarl::order::sort_by_id;
use yarl::query::{distinct_tags, export, get_sorted_transactions, get_tags, select};
use yarl::record::{Amount, Transaction, TransactionKind};
use yarl::store::{open_or_create, StoreFile};

fn tagged(id: i64, currency: &str, tags: &[&str]) -> Transaction {
    Transaction {
        id,
        currency: currency.to_string(),
        time: Timestamp { secs: 0, nanos: 0 },
        kind: TransactionKind::Deposit,
        amount: Amount { bits: 1.0f32.to_bits() },
        message: None,
        tags: tags.iter().map(|tag| tag.to_string()).collect(),
    }
}

fn strings(texts: &[&str]) -> Vec<String> {
    texts.iter().map(|text| text.to_string()).collect()
}

fn ids_of(records: &[Transaction]) -> Vec<i64> {
    records.iter().map(|record| record.id).collect()
}

fn food_and_travel() -> Vec<Transaction> {
    vec![
        tagged(1, "USD", &["food"]),
        tagged(2, "USD", &["food", "urgent"]),
        tagged(3, "USD", &["travel"]),
    ]
}

#[test]
fn sort_puts_ids_in_ascending_order() {
    let sorted = sort_by_id(vec![
        tagged(5, "USD", &[]),
        tagged(-3, "USD", &[]),
        tagged(9, "USD", &[]),
        tagged(0, "USD", &[]),
    ]);
    assert_eq!(ids_of(&sorted), vec![-3, 0, 5, 9]);
}

#[test]
fn sort_keeps_every_record_whole() {
    let sorted = sort_by_id(vec![tagged(2, "EUR", &["b"]), tagged(1, "USD", &["a", "a"])]);
    assert_eq!(sorted, vec![tagged(1, "USD", &["a", "a"]), tagged(2, "EUR", &["b"])]);
}

#[test]
fn sort_keeps_the_order_of_equal_ids() {
    let sorted = sort_by_id(vec![
        tagged(2, "first", &[]),
        tagged(1, "x", &[]),
        tagged(2, "second", &[]),
        tagged(2, "third", &[]),
    ]);
    let currencies: Vec<&str> = sorted.iter().map(|record| record.currency.as_str()).collect();
    assert_eq!(currencies, vec!["x", "first", "second", "third"]);
}

#[test]
fn sort_of_nothing_and_of_one() {
    assert!(sort_by_id(Vec::new()).is_empty());
    assert_eq!(sort_by_id(vec![tagged(7, "USD", &[])]), vec![tagged(7, "USD", &[])]);
}

#[test]
fn sort_with_the_extreme_ids() {
    let sorted = sort_by_id(vec![
        tagged(i64::MAX, "USD", &[]),
        tagged(i64::MIN, "USD", &[]),
        tagged(0, "USD", &[]),
    ]);
    assert_eq!(ids_of(&sorted), vec![i64::MIN, 0, i64::MAX]);
}

#[test]
fn sorted_transactions_of_a_scope() {
    let found = vec![tagged(8, "USD", &[]), tagged(2, "USD", &[])];
    let mut scope = open_or_create(StoreFile::Existing(found)).unwrap().begin_write_scope();
    scope.insert(tagged(5, "USD", &[])).unwrap();
    scope.insert(tagged(1, "USD", &[])).unwrap();
    assert_eq!(ids_of(&get_sorted_transactions(&scope)), vec![1, 2, 5, 8]);
}

#[test]
fn export_by_tag_is_most_recent_first() {
    let chosen = select(food_and_travel(), &strings(&["food"]), &None);
    assert_eq!(ids_of(&chosen), vec![2, 1]);
    assert_eq!(chosen[0], tagged(2, "USD", &["food", "urgent"]));
    assert_eq!(chosen[1], tagged(1, "USD", &["food"]));
}

#[test]
fn export_by_a_currency_that_no_record_has_is_empty() {
    let chosen = select(food_and_travel(), &Vec::new(), &Some("EUR".to_string()));
    assert!(chosen.is_empty());
}

#[test]
fn export_without_filters_is_everything_reversed() {
    let unsorted = vec![tagged(2, "USD", &[]), tagged(3, "EUR", &["x"]), tagged(1, "USD", &[])];
    let chosen = select(unsorted, &Vec::new(), &None);
    assert_eq!(ids_of(&chosen), vec![3, 2, 1]);
}

#[test]
fn export_asks_for_every_required_tag() {
    let both = strings(&["food", "urgent"]);
    assert_eq!(ids_of(&select(food_and_travel(), &both, &None)), vec![2]);
    let other_way = strings(&["urgent", "food"]);
    assert_eq!(ids_of(&select(food_and_travel(), &other_way, &None)), vec![2]);
    let unknown = strings(&["food", "rent"]);
    assert!(select(food_and_travel(), &unknown, &None).is_empty());
}

#[test]
fn export_by_tag_and_currency() {
    let records = vec![
        tagged(1, "USD", &["food"]),
        tagged(2, "EUR", &["food"]),
        tagged(3, "EUR", &["travel"]),
        tagged(4, "EUR", &["food", "travel"]),
    ];
    let chosen = select(records, &strings(&["food"]), &Some("EUR".to_string()));
    assert_eq!(ids_of(&chosen), vec![4, 2]);
}

#[test]
fn export_matches_whole_tags_and_counts_a_repeated_requirement_once() {
    let records = vec![tagged(1, "USD", &["foodie"]), tagged(2, "USD", &["food"])];
    assert_eq!(ids_of(&select(records, &strings(&["food", "food"]), &None)), vec![2]);
}

#[test]
fn export_of_nothing_is_empty() {
    assert!(select(Vec::new(), &strings(&["food"]), &None).is_empty());
}

#[test]
fn export_of_a_scope_sees_its_own_inserts() {
    let mut scope = open_or_create(StoreFile::Existing(food_and_travel())).unwrap().begin_write_scope();
    scope.insert(tagged(4, "USD", &["food"])).unwrap();
    assert_eq!(ids_of(&export(&scope, &strings(&["food"]), &None)), vec![4, 2, 1]);
    assert!(export(&scope, &Vec::new(), &Some("EUR".to_string())).is_empty());
}

#[test]
fn tags_are_the_distinct_union() {
    let records = vec![tagged(1, "USD", &[]), tagged(2, "USD", &["a", "b"]), tagged(3, "USD", &["b", "c"])];
    let mut tags = distinct_tags(&records);
    tags.sort();
    assert_eq!(tags, strings(&["a", "b", "c"]));
}

#[test]
fn tags_repeated_in_one_record_come_once() {
    let records = vec![tagged(1, "USD", &["a", "a", "b", "a"])];
    let mut tags = distinct_tags(&records);
    tags.sort();
    assert_eq!(tags, strings(&["a", "b"]));
}

#[test]
fn tags_of_untagged_records_are_none() {
    assert!(distinct_tags(&vec![tagged(1, "USD", &[]), tagged(2, "USD", &[])]).is_empty());
    assert!(distinct_tags(&Vec::new()).is_empty());
}

#[test]
fn tags_of_a_scope() {
    let mut scope = open_or_create(StoreFile::Existing(food_and_travel())).unwrap().begin_write_scope();
    scope.insert(tagged(4, "USD", &["rent", "food"])).unwrap();
    let mut tags = get_tags(&scope);
    tags.sort();
    assert_eq!(tags, strings(&["food", "rent", "travel", "urgent"]));
}
