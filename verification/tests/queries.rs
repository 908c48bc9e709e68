use tibco_ems_operator::config_flag_enabled;
use tibco_ems_operator::query::{query_queue_stats, query_topic_stats, split_pipes};
use tibco_ems_operator::queue::{Queue, QueueSpec, QueueStatus};
use tibco_ems_operator::stats::{
    process_queue_info, process_topic_info, QueueMetrics, QueueStatsCache, TopicMetrics,
    TopicStatsCache,
};
use tibco_ems_operator::topic::{Topic, TopicSpec, TopicStatus};
use tibco_ems_operator::watch::ResourceMeta;

fn qmetrics(name: &str, pending: i64, consumers: i32) -> QueueMetrics {
    QueueMetrics {
        name: String::from(name),
        pending_messages: pending,
        consumer_count: consumers,
        outgoing_total_count: 0,
    }
}

fn tmetrics(name: &str, pending: i64, subscribers: i32, durables: i32) -> TopicMetrics {
    TopicMetrics {
        name: String::from(name),
        pending_messages: pending,
        subscriber_count: subscribers,
        durable_count: durables,
    }
}

fn sample_queue_cache() -> QueueStatsCache {
    let mut stats = QueueStatsCache::new();
    stats.record(qmetrics("Q1", 3, 1));
    stats.record(qmetrics("Q2", 5, 2));
    stats
}

#[test]
fn single_queue_lookup_returns_snapshot() {
    let stats = sample_queue_cache();
    let m = query_queue_stats(&stats, "Q1").expect("plain name decodes");
    assert_eq!(m.name, "Q1");
    assert_eq!(m.pending_messages, 3);
    assert_eq!(m.consumer_count, 1);
}

#[test]
fn unknown_queue_returns_zero_entry() {
    let stats = sample_queue_cache();
    let m = query_queue_stats(&stats, "NOPE").expect("plain name decodes");
    assert_eq!(m.name, "NOPE");
    assert_eq!(m.pending_messages, 0);
    assert_eq!(m.consumer_count, 0);
}

#[test]
fn aggregate_sums_counters_under_mixed() {
    let stats = sample_queue_cache();
    let m = query_queue_stats(&stats, "Q1|Q2").expect("decodes");
    assert_eq!(m.name, "mixed");
    assert_eq!(m.pending_messages, 8);
    assert_eq!(m.consumer_count, 3);
}

#[test]
fn escaped_and_raw_pipe_answer_identically() {
    let stats = sample_queue_cache();
    let escaped = query_queue_stats(&stats, "Q1%7CQ2").expect("decodes");
    let raw = query_queue_stats(&stats, "Q1|Q2").expect("decodes");
    assert_eq!(escaped.name, raw.name);
    assert_eq!(escaped.pending_messages, raw.pending_messages);
    assert_eq!(escaped.consumer_count, raw.consumer_count);
    assert_eq!(escaped.outgoing_total_count, raw.outgoing_total_count);
}

#[test]
fn percent_escapes_reach_the_cache() {
    let stats = sample_queue_cache();
    // %51%31 is "Q1"; a decoder that handed its input through unchanged
    // would miss the cached entry.
    let m = query_queue_stats(&stats, "%51%31").expect("decodes");
    assert_eq!(m.name, "Q1");
    assert_eq!(m.pending_messages, 3);
}

#[test]
fn invalid_utf8_escape_is_rejected() {
    let stats = sample_queue_cache();
    assert!(query_queue_stats(&stats, "%FF").is_none());
}

#[test]
fn aggregate_counts_repeated_names_twice() {
    let stats = sample_queue_cache();
    let m = query_queue_stats(&stats, "Q1|Q1").expect("decodes");
    assert_eq!(m.name, "mixed");
    assert_eq!(m.pending_messages, 6);
    assert_eq!(m.consumer_count, 2);
}

#[test]
fn aggregate_ignores_unknown_segments() {
    let stats = sample_queue_cache();
    let m = query_queue_stats(&stats, "Q1|GHOST").expect("decodes");
    assert_eq!(m.pending_messages, 3);
    assert_eq!(m.consumer_count, 1);
}

#[test]
fn topic_queries_cover_all_three_counters() {
    let mut stats = TopicStatsCache::new();
    stats.record(tmetrics("T1", 7, 2, 1));
    stats.record(tmetrics("T2", 1, 1, 0));

    let single = query_topic_stats(&stats, "T1").expect("decodes");
    assert_eq!(single.name, "T1");
    assert_eq!(single.subscriber_count, 2);

    let agg = query_topic_stats(&stats, "T1|T2").expect("decodes");
    assert_eq!(agg.name, "mixed");
    assert_eq!(agg.pending_messages, 8);
    assert_eq!(agg.subscriber_count, 3);
    assert_eq!(agg.durable_count, 1);

    let missing = query_topic_stats(&stats, "T9").expect("decodes");
    assert_eq!(missing.name, "T9");
    assert_eq!(missing.pending_messages, 0);
}

#[test]
fn splitting_keeps_every_segment() {
    assert_eq!(split_pipes("A|B|C"), vec!["A", "B", "C"]);
    assert_eq!(split_pipes("solo"), vec!["solo"]);
    assert_eq!(split_pipes("A|"), vec!["A", ""]);
    assert_eq!(split_pipes(""), vec![""]);
}

#[test]
fn recording_overwrites_previous_snapshot() {
    let mut stats = sample_queue_cache();
    stats.record(qmetrics("Q1", 9, 4));
    let m = query_queue_stats(&stats, "Q1").expect("decodes");
    assert_eq!(m.pending_messages, 9);
    assert_eq!(m.consumer_count, 4);
}

fn cached_queue(name: &str, status: Option<QueueStatus>) -> (String, Queue) {
    (
        String::from(name),
        Queue {
            metadata: ResourceMeta {
                name: Some(String::from("q1")),
                resource_version: Some(String::from("1")),
                owner_label: None,
            },
            spec: QueueSpec {
                name: Some(String::from(name)),
                expiration: Some(0),
                global: Some(false),
                maxbytes: Some(0),
                maxmsgs: Some(0),
                maxRedelivery: Some(0),
                overflowPolicy: Some(0),
                prefetch: Some(0),
                redeliveryDelay: Some(0),
            },
            status,
        },
    )
}

#[test]
fn poller_updates_stale_queue_status() {
    let mut known = vec![cached_queue("Q1", None)];
    let updated = process_queue_info(&mut known, &qmetrics("Q1", 3, 1), false)
        .expect("missing status is stale");
    let st = updated.status.expect("fresh status attached");
    assert_eq!(st.pendingMessages, 3);
    assert_eq!(st.consumerCount, 1);
    let st2 = known[0].1.status.as_ref().expect("cache refreshed");
    assert_eq!(st2.pendingMessages, 3);

    // A snapshot that matches the cached status asks for no writeback.
    assert!(process_queue_info(&mut known, &qmetrics("Q1", 3, 1), false).is_none());

    // A differing snapshot does.
    assert!(process_queue_info(&mut known, &qmetrics("Q1", 4, 1), false).is_some());
}

#[test]
fn poller_skips_foreign_and_read_only_queues() {
    let mut known = vec![cached_queue("Q1", None)];
    assert!(process_queue_info(&mut known, &qmetrics("OTHER", 3, 1), false).is_none());
    assert!(process_queue_info(&mut known, &qmetrics("Q1", 3, 1), true).is_none());
    assert!(known[0].1.status.is_none(), "read-only mode leaves the cache alone");
}

#[test]
fn poller_updates_stale_topic_status() {
    let mut known = vec![(
        String::from("T1"),
        Topic {
            metadata: ResourceMeta {
                name: Some(String::from("t1")),
                resource_version: Some(String::from("1")),
                owner_label: None,
            },
            spec: TopicSpec {
                name: Some(String::from("T1")),
                expiration: Some(0),
                global: Some(false),
                maxbytes: Some(0),
                maxmsgs: Some(0),
                overflowPolicy: Some(0),
                prefetch: Some(0),
            },
            status: Some(TopicStatus { pendingMessages: 0, subscribers: 0, durables: 0 }),
        },
    )];
    let updated = process_topic_info(&mut known, &tmetrics("T1", 7, 2, 1), false)
        .expect("differing counters are stale");
    let st = updated.status.expect("fresh status");
    assert_eq!((st.pendingMessages, st.subscribers, st.durables), (7, 2, 1));
    assert!(process_topic_info(&mut known, &tmetrics("T1", 7, 2, 1), false).is_none());
}

#[test]
fn config_switches_require_the_exact_word() {
    assert!(config_flag_enabled("TRUE"));
    assert!(!config_flag_enabled("true"));
    assert!(!config_flag_enabled("FALSE"));
    assert!(!config_flag_enabled(""));
}
