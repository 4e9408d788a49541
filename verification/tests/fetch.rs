use saki_home_bot::decimal::Decimal;
use saki_home_bot::fetch::{
    balance_url, fetch_result, is_success, request_headers, FetchError, Reply,
};
use saki_home_bot::record::BalanceRecord;

fn record(address: &str, room: &str, balance: &str) -> BalanceRecord {
    BalanceRecord::new(
        address.to_string(),
        room.to_string(),
        Decimal::parse(balance).expect("a number"),
    )
}

#[test]
fn the_address_ends_in_the_tenant() {
    assert_eq!(
        balance_url("12345"),
        "http://api.4006269069.net/wechat/tenant/rentadviser/RdWxPact/getRdInteDeviceHouConList?TenId=12345"
    );
    assert_eq!(
        balance_url(""),
        "http://api.4006269069.net/wechat/tenant/rentadviser/RdWxPact/getRdInteDeviceHouConList?TenId="
    );
    assert!(balance_url("a b&c").ends_with("?TenId=a b&c"));
}

#[test]
fn the_request_carries_the_seven_headers_in_order() {
    let headers = request_headers();
    let found: Vec<(String, String)> = headers
        .iter()
        .map(|(name, value)| (name.as_str().to_string(), value.to_str().unwrap().to_string()))
        .collect();
    let wanted = vec![
        (
            "user-agent",
            "Mozilla/5.0 (iPhone; CPU iPhone OS 6_1_3 like Mac OS X) AppleWebKit/536.26 (KHTML, like Gecko) Mobile/10B329 MicroMessenger/5.0.1",
        ),
        ("accept", "application/json, text/plain, */*"),
        ("origin", "http://www.4006269069.net"),
        ("referer", "http://www.4006269069.net"),
        ("accept-encoding", "gzip, deflate"),
        ("accept-language", "en-US,en;q=0.5"),
        ("head-user-id", ""),
    ];
    assert_eq!(found.len(), 7);
    for (i, (name, value)) in wanted.iter().enumerate() {
        assert_eq!(found[i].0, *name);
        assert_eq!(found[i].1, *value);
    }
}

#[test]
fn the_headers_are_found_whatever_the_case_of_the_name() {
    let headers = request_headers();
    assert_eq!(headers.len(), 7);
    assert_eq!(headers.get("Accept").unwrap(), "application/json, text/plain, */*");
    assert_eq!(headers.get("Head-User-Id").unwrap(), "");
    assert_eq!(headers.get_all("origin").iter().count(), 1);
    assert!(headers.get("cookie").is_none());
}

#[test]
fn success_is_two_hundred_to_two_ninety_nine() {
    assert!(!is_success(0));
    assert!(!is_success(199));
    assert!(is_success(200));
    assert!(is_success(204));
    assert!(is_success(299));
    assert!(!is_success(300));
    assert!(!is_success(304));
    assert!(!is_success(404));
    assert!(!is_success(500));
    assert!(!is_success(u16::MAX));
}

#[test]
fn a_good_answer_yields_its_records_in_order() {
    let body = vec![record("Tower A", "101", "45.2"), record("Tower A", "102", "12")];
    match fetch_result(Reply::Answered { status: 200, body: Some(body) }) {
        Ok(records) => {
            assert_eq!(records.len(), 2);
            assert_eq!(records[0].room, "101");
            assert_eq!(records[0].balance.to_text(), "45.2");
            assert_eq!(records[1].room, "102");
            assert_eq!(records[1].address, "Tower A");
        }
        Err(error) => panic!("no records: {:?}", error),
    }
}

#[test]
fn a_good_answer_may_hold_no_records() {
    match fetch_result(Reply::Answered { status: 200, body: Some(Vec::new()) }) {
        Ok(records) => assert!(records.is_empty()),
        Err(error) => panic!("no records: {:?}", error),
    }
}

#[test]
fn a_body_that_does_not_decode_yields_no_records() {
    match fetch_result(Reply::Answered { status: 200, body: None }) {
        Ok(_) => panic!("records from a body that did not decode"),
        Err(error) => assert_eq!(error, FetchError::Decode),
    }
}

#[test]
fn a_bad_status_is_told_with_its_code() {
    for status in [199u16, 301, 404, 500, 503] {
        match fetch_result(Reply::Answered { status, body: None }) {
            Ok(_) => panic!("records from status {}", status),
            Err(error) => assert_eq!(error, FetchError::HttpStatus(status)),
        }
    }
}

#[test]
fn a_bad_status_counts_even_where_the_body_decodes() {
    let body = vec![record("Tower A", "101", "45.2")];
    match fetch_result(Reply::Answered { status: 500, body: Some(body) }) {
        Ok(_) => panic!("records from status 500"),
        Err(error) => assert_eq!(error, FetchError::HttpStatus(500)),
    }
}

#[test]
fn no_answer_is_a_network_failure() {
    match fetch_result(Reply::Unreachable) {
        Ok(_) => panic!("records from nowhere"),
        Err(error) => assert_eq!(error, FetchError::Network),
    }
}

#[test]
fn the_three_failures_are_told_apart() {
    assert_ne!(FetchError::Network, FetchError::Decode);
    assert_ne!(FetchError::HttpStatus(500), FetchError::Decode);
    assert_ne!(FetchError::HttpStatus(500), FetchError::Network);
    assert_ne!(FetchError::HttpStatus(500), FetchError::HttpStatus(404));
}
