use tibco_ems_operator::bridge::{
    handle_bridge_event, create_bridge_object, Bridge, BridgeSpec, Destination,
};
use tibco_ems_operator::queue::{
    get_obj_name_from_queue, get_queue_name, handle_queue_event, propagate_queue_defaults, Queue,
    QueueSpec, QueueStatus,
};
use tibco_ems_operator::topic::{get_topic_name, handle_topic_event, Topic, TopicSpec};
use tibco_ems_operator::watch::{
    check_responsibility, error_is_expiry, ResourceMeta, WatchErrorInfo, WatchedEvent,
};

fn meta(name: &str, rv: &str) -> ResourceMeta {
    ResourceMeta {
        name: Some(String::from(name)),
        resource_version: Some(String::from(rv)),
        owner_label: None,
    }
}

fn queue(name: &str, rv: &str, maxmsgs: Option<i64>) -> Queue {
    Queue {
        metadata: meta(name, rv),
        spec: QueueSpec {
            name: None,
            expiration: None,
            global: None,
            maxbytes: None,
            maxmsgs,
            maxRedelivery: None,
            overflowPolicy: None,
            prefetch: None,
            redeliveryDelay: None,
        },
        status: None,
    }
}

#[test]
fn queue_name_prefers_spec_name() {
    let mut q = queue("q1", "1", None);
    q.spec.name = Some(String::from("orders.in"));
    assert_eq!(get_queue_name(&q), "orders.in");
}

#[test]
fn queue_name_uppercases_object_name() {
    let q = queue("q1", "1", None);
    assert_eq!(get_queue_name(&q), "Q1");
    let q2 = queue("aBc-1", "1", None);
    assert_eq!(get_queue_name(&q2), "ABC-1");
}

#[test]
fn object_name_is_kept_verbatim() {
    let q = queue("q1", "1", None);
    assert_eq!(get_obj_name_from_queue(&q), "q1");
}

#[test]
fn create_queue_once_and_status_written() {
    let mut known: Vec<(String, Queue)> = Vec::new();
    let mut cursor = String::from("0");
    let rf = String::new();

    let out = handle_queue_event(
        &mut known,
        &mut cursor,
        false,
        &rf,
        WatchedEvent::Added(queue("q1", "7", Some(1000))),
    );
    let req = out.create.expect("first observation must create");
    assert_eq!(req.name, "Q1");
    assert_eq!(req.max_messages, Some(1000));
    assert_eq!(req.max_bytes, None);
    assert_eq!(cursor, "7");
    assert_eq!(known.len(), 1);

    // The written-back copy carries the propagated defaults and zero status.
    let written = out.status_write.expect("missing status is written back");
    assert_eq!(written.spec.maxmsgs, Some(1000));
    assert_eq!(written.spec.expiration, Some(0));
    assert_eq!(written.spec.overflowPolicy, Some(0));
    assert_eq!(written.spec.prefetch, Some(0));
    assert_eq!(written.spec.global, Some(false));
    assert_eq!(written.spec.maxbytes, Some(0));
    assert_eq!(written.spec.redeliveryDelay, Some(0));
    assert_eq!(written.spec.maxRedelivery, Some(0));
    let st = written.status.expect("default status attached");
    assert_eq!(st.pendingMessages, 0);
    assert_eq!(st.consumerCount, 0);

    // A repeated Added for the same derived name creates nothing more.
    let out2 = handle_queue_event(
        &mut known,
        &mut cursor,
        false,
        &rf,
        WatchedEvent::Added(queue("q1", "8", Some(1000))),
    );
    assert!(out2.create.is_none());
    assert!(out2.status_write.is_none());
    assert_eq!(known.len(), 1);
    assert_eq!(cursor, "8");
}

#[test]
fn modified_recreates_without_delete() {
    let mut known: Vec<(String, Queue)> = Vec::new();
    let mut cursor = String::from("0");
    let rf = String::new();

    let first = handle_queue_event(
        &mut known,
        &mut cursor,
        false,
        &rf,
        WatchedEvent::Added(queue("q1", "1", Some(1000))),
    );
    assert_eq!(first.create.expect("created").max_messages, Some(1000));

    let second = handle_queue_event(
        &mut known,
        &mut cursor,
        false,
        &rf,
        WatchedEvent::Modified(queue("q1", "2", Some(2000))),
    );
    let req = second.create.expect("modification re-creates");
    assert_eq!(req.name, "Q1");
    assert_eq!(req.max_messages, Some(2000));
    assert!(second.delete.is_none());
}

#[test]
fn delete_optout_still_shrinks_cache() {
    let mut known: Vec<(String, Queue)> = Vec::new();
    let mut cursor = String::from("0");
    let rf = String::new();

    handle_queue_event(
        &mut known,
        &mut cursor,
        true,
        &rf,
        WatchedEvent::Added(queue("q1", "1", None)),
    );
    assert_eq!(known.len(), 1);

    let out = handle_queue_event(
        &mut known,
        &mut cursor,
        true,
        &rf,
        WatchedEvent::Deleted(queue("q1", "2", None)),
    );
    assert!(out.delete.is_none(), "opt-out must suppress the broker delete");
    assert_eq!(known.len(), 0, "the cache entry still leaves");
}

#[test]
fn delete_reaches_broker_without_optout() {
    let mut known: Vec<(String, Queue)> = Vec::new();
    let mut cursor = String::from("0");
    let rf = String::new();

    handle_queue_event(
        &mut known,
        &mut cursor,
        false,
        &rf,
        WatchedEvent::Added(queue("q1", "1", None)),
    );
    let out = handle_queue_event(
        &mut known,
        &mut cursor,
        false,
        &rf,
        WatchedEvent::Deleted(queue("q1", "2", None)),
    );
    assert_eq!(out.delete.expect("delete forwarded"), "Q1");
    assert_eq!(known.len(), 0);
}

#[test]
fn watch_error_rewinds_cursor() {
    let mut known: Vec<(String, Queue)> = Vec::new();
    let mut cursor = String::from("4711");
    let rf = String::new();

    let expired = WatchErrorInfo { code: 410, reason: String::from("Expired") };
    assert!(error_is_expiry(&expired));
    let out = handle_queue_event(
        &mut known,
        &mut cursor,
        false,
        &rf,
        WatchedEvent::ErrorStatus(expired),
    );
    assert!(out.create.is_none() && out.delete.is_none());
    assert_eq!(cursor, "0");

    cursor = String::from("99");
    let other = WatchErrorInfo { code: 500, reason: String::from("boom") };
    assert!(!error_is_expiry(&other));
    handle_queue_event(&mut known, &mut cursor, false, &rf, WatchedEvent::ErrorStatus(other));
    assert_eq!(cursor, "0");
}

#[test]
fn owner_partitioning_filters_foreign_objects() {
    let mut known: Vec<(String, Queue)> = Vec::new();
    let mut cursor = String::from("0");
    let rf = String::from("west");

    // No owner label: a named instance is not responsible.
    let out = handle_queue_event(
        &mut known,
        &mut cursor,
        false,
        &rf,
        WatchedEvent::Added(queue("q1", "1", None)),
    );
    assert!(out.create.is_none());
    assert_eq!(known.len(), 0);

    // Matching owner label: responsible.
    let mut mine = queue("q1", "2", None);
    mine.metadata.owner_label = Some(String::from("west"));
    let out2 = handle_queue_event(&mut known, &mut cursor, false, &rf, WatchedEvent::Added(mine));
    assert!(out2.create.is_some());
    assert_eq!(known.len(), 1);

    // The unnamed instance skips owner-labelled objects.
    let empty = String::new();
    let mut foreign = queue("q2", "3", None);
    foreign.metadata.owner_label = Some(String::from("west"));
    let mut others: Vec<(String, Queue)> = Vec::new();
    let out3 = handle_queue_event(
        &mut others,
        &mut cursor,
        false,
        &empty,
        WatchedEvent::Added(foreign),
    );
    assert!(out3.create.is_none());
    assert_eq!(others.len(), 0);
}

#[test]
fn responsibility_check_matches_partitioning() {
    let unowned = meta("x", "1");
    let mut owned = meta("x", "1");
    owned.owner_label = Some(String::from("east"));

    assert!(check_responsibility(&unowned, &String::new()));
    assert!(!check_responsibility(&owned, &String::new()));
    assert!(check_responsibility(&owned, &String::from("east")));
    assert!(!check_responsibility(&owned, &String::from("west")));
    assert!(!check_responsibility(&unowned, &String::from("east")));
}

#[test]
fn queue_defaults_fill_only_missing_fields() {
    let mut q = queue("q1", "1", Some(5));
    q.spec.prefetch = Some(25);
    propagate_queue_defaults(&mut q);
    assert_eq!(q.spec.maxmsgs, Some(5));
    assert_eq!(q.spec.prefetch, Some(25));
    assert_eq!(q.spec.expiration, Some(0));
    assert_eq!(q.spec.global, Some(false));
    let st: QueueStatus = q.status.expect("status attached");
    assert_eq!(st.pendingMessages, 0);
}

fn topic(name: &str, rv: &str) -> Topic {
    Topic {
        metadata: meta(name, rv),
        spec: TopicSpec {
            name: None,
            expiration: None,
            global: None,
            maxbytes: None,
            maxmsgs: None,
            overflowPolicy: None,
            prefetch: None,
        },
        status: None,
    }
}

#[test]
fn topic_events_mirror_queue_dispatch() {
    let mut known: Vec<(String, Topic)> = Vec::new();
    let mut cursor = String::from("0");
    let rf = String::new();

    assert_eq!(get_topic_name(&topic("events", "1")), "EVENTS");

    let out = handle_topic_event(
        &mut known,
        &mut cursor,
        false,
        &rf,
        WatchedEvent::Added(topic("events", "5")),
    );
    let req = out.create.expect("topic created");
    assert_eq!(req.name, "EVENTS");
    let written = out.status_write.expect("default topic status written");
    let st = written.status.expect("zero status");
    assert_eq!((st.pendingMessages, st.subscribers, st.durables), (0, 0, 0));

    let out2 = handle_topic_event(
        &mut known,
        &mut cursor,
        true,
        &rf,
        WatchedEvent::Deleted(topic("events", "6")),
    );
    assert!(out2.delete.is_none());
    assert_eq!(known.len(), 0);
}

fn bridge(name: &str, rv: &str, source_type: &str, target_type: &str) -> Bridge {
    Bridge {
        metadata: meta(name, rv),
        spec: BridgeSpec {
            source_type: String::from(source_type),
            source_name: String::from("SRC"),
            target_type: String::from(target_type),
            target_name: String::from("DST"),
            selector: None,
        },
    }
}

#[test]
fn bridge_endpoint_tags_follow_first_character() {
    let qq = create_bridge_object(&bridge("b", "1", "queue", "Queue"));
    assert!(matches!(qq.source, Destination::Queue(ref n) if n == "SRC"));
    assert!(matches!(qq.target, Destination::Queue(ref n) if n == "DST"));

    let tt = create_bridge_object(&bridge("b", "1", "TOPIC", "topic"));
    assert!(matches!(tt.source, Destination::Topic(_)));
    assert!(matches!(tt.target, Destination::Topic(_)));

    // Unrecognised types default to a topic source and a queue target.
    let dflt = create_bridge_object(&bridge("b", "1", "", "x"));
    assert!(matches!(dflt.source, Destination::Topic(_)));
    assert!(matches!(dflt.target, Destination::Queue(_)));

    let mut with_sel = bridge("b", "1", "q", "t");
    with_sel.spec.selector = Some(String::from("kind = 'order'"));
    let sel = create_bridge_object(&with_sel);
    assert_eq!(sel.selector, Some(String::from("kind = 'order'")));
}

#[test]
fn bridge_modified_recreates_and_delete_passes_description() {
    let mut known: Vec<(String, Bridge)> = Vec::new();
    let mut cursor = String::from("0");
    let rf = String::new();

    let out = handle_bridge_event(
        &mut known,
        &mut cursor,
        false,
        &rf,
        WatchedEvent::Added(bridge("b1", "1", "queue", "topic")),
    );
    assert!(out.create.is_some());
    assert_eq!(known.len(), 1);

    let out2 = handle_bridge_event(
        &mut known,
        &mut cursor,
        false,
        &rf,
        WatchedEvent::Modified(bridge("b1", "2", "queue", "topic")),
    );
    assert!(out2.create.is_some(), "modification re-creates the bridge");
    assert!(out2.delete.is_none());

    let out3 = handle_bridge_event(
        &mut known,
        &mut cursor,
        false,
        &rf,
        WatchedEvent::Deleted(bridge("b1", "3", "queue", "topic")),
    );
    let del = out3.delete.expect("delete passes the bridge description");
    assert!(matches!(del.source, Destination::Queue(ref n) if n == "SRC"));
    assert_eq!(known.len(), 0);
}
