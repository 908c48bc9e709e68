use tibco_ems_operator::metrics::{i32_to_string, i64_to_string, metrics_body, u64_to_string};
use tibco_ems_operator::stats::{QueueMetrics, QueueStatsCache, TopicMetrics, TopicStatsCache};

#[test]
fn numbers_render_in_decimal() {
    assert_eq!(u64_to_string(0), "0");
    assert_eq!(u64_to_string(7), "7");
    assert_eq!(u64_to_string(1234567890), "1234567890");
    assert_eq!(u64_to_string(u64::MAX), "18446744073709551615");
    assert_eq!(i64_to_string(0), "0");
    assert_eq!(i64_to_string(-1), "-1");
    assert_eq!(i64_to_string(i64::MIN), "-9223372036854775808");
    assert_eq!(i64_to_string(i64::MAX), "9223372036854775807");
    assert_eq!(i32_to_string(-42), "-42");
}

#[test]
fn exposition_lists_every_destination() {
    let mut queues = QueueStatsCache::new();
    queues.record(QueueMetrics {
        name: String::from("Q1"),
        pending_messages: 3,
        consumer_count: 1,
        outgoing_total_count: 0,
    });
    let mut topics = TopicStatsCache::new();
    topics.record(TopicMetrics {
        name: String::from("T1"),
        pending_messages: 7,
        subscriber_count: 2,
        durable_count: 0,
    });

    let body = metrics_body(&queues, &topics);
    let mut expected = String::from("# TYPE Q:pendingMessages gauge\n# TYPE Q:consumers gauge\n# TYPE T:pendingMessages gauge\n# TYPE T:subscribers gauge\n# TYPE T:durables gauge\n");
    expected.push_str("Q:pendingMessages{queue=\"Q1\" instance=\"EMS-ESB\"} 3\n");
    expected.push_str("Q:consumers{queue=\"Q1\" instance=\"EMS-ESB\"} 1\n");
    expected.push_str("T:pendingMessages{topic=\"T1\" instance=\"EMS-ESB\"} 7\n");
    expected.push_str("T:subscribers{topic=\"T1\" instance=\"EMS-ESB\"} 2\n");
    expected.push_str("T:durables{topic=\"T1\" instance=\"EMS-ESB\"} 0\n");
    assert_eq!(body, expected);
}

#[test]
fn empty_caches_expose_only_the_header() {
    let body = metrics_body(&QueueStatsCache::new(), &TopicStatsCache::new());
    assert!(body.starts_with("# TYPE Q:pendingMessages gauge\n"));
    assert!(body.ends_with("# TYPE T:durables gauge\n"));
    assert_eq!(body.lines().count(), 5);
}
