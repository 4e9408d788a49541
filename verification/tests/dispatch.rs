use saki_home_bot::dispatch::{Dispatch, SendError};
use saki_home_bot::message::Notice;

fn batch(texts: &[&str]) -> Vec<Notice> {
    texts.iter().map(|t| Notice { chat_id: 7, text: t.to_string(), html: true }).collect()
}

/// Runs a batch against the given outcomes and returns what was sent.
fn run(dispatch: &mut Dispatch, outcomes: &[bool]) -> Vec<String> {
    let mut sent = Vec::new();
    let mut reports = outcomes.iter();
    loop {
        let text = match dispatch.pending() {
            Some(notice) => notice.text.clone(),
            None => break,
        };
        sent.push(text);
        match reports.next() {
            Some(delivered) => dispatch.record(*delivered),
            None => break,
        }
    }
    sent
}

#[test]
fn every_message_is_sent_once_and_in_order() {
    let mut dispatch = Dispatch::new(batch(&["a", "b", "c"]));
    assert_eq!(dispatch.outcome(), None);
    let sent = run(&mut dispatch, &[true, true, true]);
    assert_eq!(sent, vec!["a", "b", "c"]);
    assert_eq!(dispatch.outcome(), Some(Ok(())));
    assert_eq!(dispatch.attempted(), 3);
    assert!(dispatch.pending().is_none());
}

#[test]
fn nothing_is_sent_behind_a_failure() {
    let mut dispatch = Dispatch::new(batch(&["a", "b", "c", "d"]));
    let sent = run(&mut dispatch, &[true, false, true, true]);
    assert_eq!(sent, vec!["a", "b"]);
    assert_eq!(dispatch.outcome(), Some(Err(SendError { position: 1 })));
    assert_eq!(dispatch.attempted(), 2);
}

#[test]
fn a_failure_of_the_first_message_ends_the_batch() {
    let mut dispatch = Dispatch::new(batch(&["a", "b"]));
    let sent = run(&mut dispatch, &[false]);
    assert_eq!(sent, vec!["a"]);
    assert!(dispatch.pending().is_none());
    assert_eq!(dispatch.outcome(), Some(Err(SendError { position: 0 })));
}

#[test]
fn a_failure_of_the_last_message_is_a_failure() {
    let mut dispatch = Dispatch::new(batch(&["a", "b"]));
    let sent = run(&mut dispatch, &[true, false]);
    assert_eq!(sent, vec!["a", "b"]);
    assert_eq!(dispatch.outcome(), Some(Err(SendError { position: 1 })));
}

#[test]
fn an_empty_batch_is_over_at_once() {
    let mut dispatch = Dispatch::new(Vec::new());
    assert!(dispatch.pending().is_none());
    assert_eq!(dispatch.outcome(), Some(Ok(())));
    dispatch.record(false);
    assert_eq!(dispatch.outcome(), Some(Ok(())));
    assert_eq!(dispatch.attempted(), 0);
}

#[test]
fn reports_after_the_end_change_nothing() {
    let mut dispatch = Dispatch::new(batch(&["a"]));
    dispatch.record(true);
    dispatch.record(false);
    assert_eq!(dispatch.outcome(), Some(Ok(())));
    let mut failed = Dispatch::new(batch(&["a", "b"]));
    failed.record(false);
    failed.record(true);
    assert_eq!(failed.outcome(), Some(Err(SendError { position: 0 })));
    assert_eq!(failed.attempted(), 1);
}

#[test]
fn the_pending_message_is_handed_out_whole() {
    let dispatch = Dispatch::new(vec![Notice { chat_id: -42, text: "x".to_string(), html: false }]);
    let notice = dispatch.pending().expect("one is pending");
    assert_eq!(notice.chat_id, -42);
    assert_eq!(notice.text, "x");
    assert!(!notice.html);
}
