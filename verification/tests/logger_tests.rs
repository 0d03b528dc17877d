use nnsdao::logger::CanisterLogMessages;
use nnsdao::logger::GetLogMessagesFilter;
use nnsdao::logger::GetLogMessagesParameters;
use nnsdao::logger::LogMessageData;
use nnsdao::logger::LoggerService;
use nnsdao::types::Principal;

fn line(time: u64, message: &str) -> LogMessageData {
    LogMessageData { timeNanos: time, message: message.to_string() }
}

fn request(count: u32, contains: Option<&str>, from: Option<u64>) -> GetLogMessagesParameters {
    GetLogMessagesParameters {
        count,
        filter: contains.map(|s| GetLogMessagesFilter {
            messageContains: Some(s.to_string()),
            messageRegex: None,
        }),
        fromTimeNanos: from,
    }
}

fn messages(r: &CanisterLogMessages) -> Vec<(u64, String)> {
    r.data
        .iter()
        .map(|m| (m.timeNanos, m.message.clone()))
        .collect()
}

#[test]
fn default_ring_keeps_twenty_thousand() {
    let logger = LoggerService::default();
    assert_eq!(logger.max_count, 20000);
    assert_eq!(logger.next, 0);
    assert!(!logger.full);
    assert!(logger.queue.is_empty());
}

#[test]
fn ring_grows_then_overwrites_oldest() {
    let mut logger = LoggerService { queue: Vec::new(), max_count: 3, next: 0, full: false };
    logger.store_log_message(line(1, "one"));
    logger.store_log_message(line(2, "two"));
    assert_eq!(logger.queue.len(), 2);
    assert!(!logger.full);
    logger.store_log_message(line(3, "three"));
    assert!(logger.full);
    assert_eq!(logger.next, 0);
    logger.store_log_message(line(4, "four"));
    assert_eq!(logger.queue.len(), 3);
    assert_eq!(logger.queue[0].message, "four");
    assert_eq!(logger.queue[1].message, "two");
    assert_eq!(logger.next, 1);
}

#[test]
fn formatted_message_layout() {
    let mut logger = LoggerService::default();
    logger.log_format_message(
        "canister".to_string(),
        Principal { id: 7 },
        "disburse_ok".to_string(),
        vec![
            ("from".to_string(), "x".to_string()),
            ("to".to_string(), "y".to_string()),
        ],
        99,
    );
    assert_eq!(logger.queue.len(), 1);
    assert_eq!(logger.queue[0].timeNanos, 99);
    assert_eq!(
        logger.queue[0].message,
        "canister||7||disburse_ok||from:x,to:y,"
    );
}

#[test]
fn formatted_message_without_pairs() {
    let mut logger = LoggerService::default();
    logger.log_format_message(
        "c".to_string(),
        Principal { id: 0 },
        "m".to_string(),
        Vec::new(),
        1,
    );
    assert_eq!(logger.queue[0].message, "c||0||m||");
}

#[test]
fn read_out_is_newest_first() {
    let mut logger = LoggerService::default();
    logger.store_log_message(line(5, "a"));
    logger.store_log_message(line(9, "b"));
    logger.store_log_message(line(7, "c"));
    let r = logger.get_log_messages(request(10, None, None), 100);
    assert_eq!(r.lastAnalyzedMessageTimeNanos, Some(100));
    assert_eq!(
        messages(&r),
        vec![
            (9, "b".to_string()),
            (7, "c".to_string()),
            (5, "a".to_string()),
        ]
    );
}

#[test]
fn read_out_honours_time_and_substring_filters() {
    let mut logger = LoggerService::default();
    logger.store_log_message(line(1, "alpha event"));
    logger.store_log_message(line(2, "beta event"));
    logger.store_log_message(line(3, "alpha again"));
    let by_time = logger.get_log_messages(request(10, None, Some(2)), 0);
    assert_eq!(by_time.data.len(), 2);
    assert!(by_time.data.iter().all(|m| m.timeNanos >= 2));
    let by_text = logger.get_log_messages(request(10, Some("alpha"), None), 0);
    assert_eq!(by_text.data.len(), 2);
    assert!(by_text.data.iter().all(|m| m.message.contains("alpha")));
    let both = logger.get_log_messages(request(10, Some("alpha"), Some(2)), 0);
    assert_eq!(messages(&both), vec![(3, "alpha again".to_string())]);
}

#[test]
fn read_out_caps_at_requested_count() {
    let mut logger = LoggerService::default();
    for t in 1..=5u64 {
        logger.store_log_message(line(t, "x"));
    }
    let r = logger.get_log_messages(request(3, None, None), 0);
    assert_eq!(r.data.len(), 3);
    // the first three matching lines in storage order, newest first
    assert_eq!(
        r.data.iter().map(|m| m.timeNanos).collect::<Vec<_>>(),
        vec![3, 2, 1]
    );
}
