use saki_home_bot::decimal::Decimal;
use saki_home_bot::message::{notices, report_message, warning_message, Mode};
use saki_home_bot::record::BalanceRecord;

fn record(address: &str, room: &str, balance: &str) -> BalanceRecord {
    BalanceRecord::new(
        address.to_string(),
        room.to_string(),
        Decimal::parse(balance).expect("a number"),
    )
}

#[test]
fn a_report_shows_the_place_in_bold_and_the_balance_under_it() {
    assert_eq!(report_message(&record("Tower A", "101", "45.2")), "<b>Tower A 101</b>\n45.2");
    assert_eq!(report_message(&record("", "", "0")), "<b> </b>\n0");
}

#[test]
fn a_warning_names_place_threshold_and_balance() {
    let text = warning_message(&record("Tower A", "102", "12"), &Decimal::parse("30").unwrap());
    assert_eq!(text, "Tower A 102 的电费小于 30 啦！目前余额为：12，快充值！！！");
}

#[test]
fn a_warning_prints_numbers_as_they_were_given() {
    let text = warning_message(&record("B", "7", "-0.50"), &Decimal::parse("29.5").unwrap());
    assert_eq!(text, "B 7 的电费小于 29.5 啦！目前余额为：-0.50，快充值！！！");
}

#[test]
fn a_normal_batch_has_one_marked_up_message_for_each_record() {
    let records = vec![record("Tower A", "101", "45.2"), record("Tower A", "102", "12")];
    let batch = notices(555, &records, &Mode::Normal);
    assert_eq!(batch.len(), 2);
    assert_eq!(batch[0].chat_id, 555);
    assert_eq!(batch[0].text, "<b>Tower A 101</b>\n45.2");
    assert!(batch[0].html);
    assert_eq!(batch[1].chat_id, 555);
    assert_eq!(batch[1].text, "<b>Tower A 102</b>\n12");
    assert!(batch[1].html);
}

#[test]
fn a_warning_batch_has_one_plain_message_for_each_record() {
    let records = vec![record("Tower A", "102", "12"), record("Tower B", "9", "3.5")];
    let batch = notices(-100, &records, &Mode::Warning(Decimal::parse("30").unwrap()));
    assert_eq!(batch.len(), 2);
    assert_eq!(batch[0].chat_id, -100);
    assert_eq!(batch[0].text, "Tower A 102 的电费小于 30 啦！目前余额为：12，快充值！！！");
    assert!(!batch[0].html);
    assert_eq!(batch[1].text, "Tower B 9 的电费小于 30 啦！目前余额为：3.5，快充值！！！");
    assert!(!batch[1].html);
}

#[test]
fn no_records_make_an_empty_batch() {
    let none: Vec<BalanceRecord> = Vec::new();
    assert!(notices(1, &none, &Mode::Normal).is_empty());
}
