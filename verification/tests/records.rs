use saki_home_bot::decimal::Decimal;
use saki_home_bot::record::{records_below, BalanceRecord};

fn record(address: &str, room: &str, balance: &str) -> BalanceRecord {
    BalanceRecord::new(
        address.to_string(),
        room.to_string(),
        Decimal::parse(balance).expect("a number"),
    )
}

fn rooms(records: &Vec<BalanceRecord>) -> Vec<String> {
    records.iter().map(|r| r.room.clone()).collect()
}

#[test]
fn only_records_under_the_threshold_are_chosen() {
    let records = vec![record("Tower A", "101", "45.2"), record("Tower A", "102", "12.0")];
    let chosen = records_below(&records, &Decimal::parse("30").unwrap());
    assert_eq!(chosen.len(), 1);
    assert_eq!(chosen[0].address, "Tower A");
    assert_eq!(chosen[0].room, "102");
    assert_eq!(chosen[0].balance.to_text(), "12.0");
}

#[test]
fn the_order_of_the_records_is_kept() {
    let records = vec![
        record("A", "5", "1"),
        record("A", "1", "99"),
        record("A", "4", "29.99"),
        record("A", "2", "30"),
        record("A", "3", "-7"),
        record("A", "4", "29.99"),
    ];
    let chosen = records_below(&records, &Decimal::parse("30").unwrap());
    assert_eq!(rooms(&chosen), vec!["5", "4", "3", "4"]);
}

#[test]
fn a_balance_at_the_threshold_is_not_under_it() {
    let records = vec![record("A", "1", "30"), record("A", "2", "30.00"), record("A", "3", "030")];
    assert!(records_below(&records, &Decimal::parse("30").unwrap()).is_empty());
}

#[test]
fn nothing_is_chosen_where_nothing_qualifies() {
    let records = vec![record("A", "1", "31"), record("A", "2", "1000")];
    assert!(records_below(&records, &Decimal::parse("30").unwrap()).is_empty());
    let none: Vec<BalanceRecord> = Vec::new();
    assert!(records_below(&none, &Decimal::parse("30").unwrap()).is_empty());
}

#[test]
fn everything_is_chosen_where_everything_qualifies() {
    let records = vec![record("A", "1", "0"), record("B", "2", "-1.5")];
    let chosen = records_below(&records, &Decimal::parse("0.5").unwrap());
    assert_eq!(rooms(&chosen), vec!["1", "2"]);
    assert_eq!(chosen[1].address, "B");
}
