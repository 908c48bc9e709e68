use tibco_ems_operator::scaler::{
    get_epoch_seconds, get_state, get_target, initial_deployment_state, insert_state,
    parse_scaling_labels, reconcile_replicas, register_scale_targets, ScalePlan, State,
    StateTrigger, StateValue, COOLDOWN_PERIOD_SECONDS,
};
use tibco_ems_operator::stats::{QueueMetrics, QueueStatsCache};

fn metrics(name: &str, pending: i64, consumers: i32, outgoing: i64) -> QueueMetrics {
    QueueMetrics {
        name: String::from(name),
        pending_messages: pending,
        consumer_count: consumers,
        outgoing_total_count: outgoing,
    }
}

fn trigger(queue: &str, outgoing: i64, pending: i64) -> StateTrigger {
    StateTrigger {
        destination_name: String::from(queue),
        outgoing_total_count: outgoing,
        pending_messages: pending,
    }
}

fn fresh_state(replicas: u32, ts: u64) -> State {
    let value = StateValue {
        activity_timestamp: ts,
        trigger: vec![(String::from("Q1"), 0i64)],
        deployment: String::from("d"),
        replicas,
        threshold: 100,
        max_scale: 5,
    };
    if replicas == 0 {
        State::Inactive(value)
    } else {
        State::Active(value)
    }
}

fn value_of(state: &State) -> &StateValue {
    match state {
        State::Inactive(v) => v,
        State::Active(v) => v,
    }
}

#[test]
fn scale_up_and_cooldown_cycle() {
    // One pending message wakes the deployment up with one replica.
    let now: u64 = 1000;
    let plan: ScalePlan = fresh_state(0, 900).scale_up(trigger("Q1", 0, 1), now);
    assert_eq!(plan.target, Some(1));
    let state = plan.on_success;
    assert!(matches!(state, State::Active(_)));
    assert_eq!(value_of(&state).replicas, 1);
    assert_eq!(value_of(&state).activity_timestamp, now);

    // A backlog of 450 over threshold 100 asks for 4 replicas (cap is 5).
    let plan = state.scale_up(trigger("Q1", 0, 450), now);
    assert_eq!(plan.target, Some(4));
    let state = plan.on_success;
    assert_eq!(value_of(&state).replicas, 4);

    // An immediate idle tick is swallowed by the cooldown.
    let plan = state.scale_down(trigger("Q1", 0, 0), now);
    assert_eq!(plan.target, None);
    let state = plan.on_success;
    assert!(matches!(state, State::Active(_)));
    assert_eq!(value_of(&state).replicas, 4);

    // After the cooldown has elapsed the deployment is scaled to zero.
    let later = now + COOLDOWN_PERIOD_SECONDS + 1;
    let plan = state.scale_down(trigger("Q1", 0, 0), later);
    assert_eq!(plan.target, Some(0));
    let state = plan.on_success;
    assert!(matches!(state, State::Inactive(_)));
    assert_eq!(value_of(&state).replicas, 0);
}

#[test]
fn scale_out_never_exceeds_ceiling() {
    let state = fresh_state(1, 0);
    let plan = state.scale_up(trigger("Q1", 0, 1_000_000), 10);
    assert_eq!(plan.target, Some(5), "the ceiling caps the linear rule");
}

#[test]
fn scale_out_never_shrinks() {
    // 150 pending over threshold 100 asks for 1 replica; at 4 replicas no
    // request is made and the deployment stays at 4.
    let mut state = fresh_state(1, 0);
    if let State::Active(ref mut v) = state {
        v.replicas = 4;
    }
    let plan = state.scale_up(trigger("Q1", 0, 150), 10);
    assert_eq!(plan.target, None);
    assert_eq!(value_of(&plan.on_success).replicas, 4);
}

#[test]
fn draining_queue_keeps_deployment_active() {
    // The recorded outbound counter is 0; seeing 25 means messages left the
    // queue since, so the consumer is still working: no scale down, even
    // though the cooldown has long elapsed.
    let state = fresh_state(1, 0);
    let plan = state.scale_down(trigger("Q1", 25, 0), 10_000);
    assert_eq!(plan.target, None);
    let state = plan.on_success;
    assert!(matches!(state, State::Active(_)));
    // The counter is recorded, so an unchanged counter later may scale down.
    assert!(value_of(&state).trigger.iter().any(|p| p.0 == "Q1" && p.1 == 25));
    let plan = state.scale_down(trigger("Q1", 25, 0), 10_100);
    assert_eq!(plan.target, Some(0));
}

#[test]
fn failed_scale_down_keeps_active_state() {
    let state = fresh_state(1, 0);
    let plan = state.scale_down(trigger("Q1", 0, 0), 10_000);
    assert_eq!(plan.target, Some(0));
    let fallback = plan.on_failure.expect("a request has a failure successor");
    assert!(matches!(fallback, State::Active(_)));
    assert_eq!(value_of(&fallback).replicas, 1);
}

#[test]
fn inactive_deployment_ignores_idle_queues() {
    let state = fresh_state(0, 0);
    let plan = state.scale_down(trigger("Q1", 0, 0), 10_000);
    assert_eq!(plan.target, None);
    assert!(matches!(plan.on_success, State::Inactive(_)));
}

#[test]
fn externally_driven_replicas_are_reconciled() {
    let halted = reconcile_replicas(fresh_state(1, 5), 0, 77);
    assert!(matches!(halted, State::Inactive(_)));
    assert_eq!(value_of(&halted).activity_timestamp, 77);

    let awake = reconcile_replicas(fresh_state(0, 5), 1, 88);
    assert!(matches!(awake, State::Active(_)));
    assert_eq!(value_of(&awake).replicas, 1);

    let same = reconcile_replicas(fresh_state(1, 5), 3, 99);
    assert!(matches!(same, State::Active(_)));
    assert_eq!(value_of(&same).activity_timestamp, 5);
}

#[test]
fn scaling_labels_are_scanned_in_order() {
    let labels: Vec<(String, String)> = vec![
        (String::from("app"), String::from("worker")),
        (String::from("tibcoems.apimeister.com/queue"), String::from("Q1")),
        (String::from("tibcoems.apimeister.com/queue2"), String::from("Q2")),
        (String::from("tibcoems.apimeister.com/threshold"), String::from("250")),
        (String::from("tibcoems.apimeister.com/maxScale"), String::from("5")),
    ];
    let config = parse_scaling_labels(&labels);
    assert_eq!(config.queues, vec![String::from("Q1"), String::from("Q2")]);
    assert_eq!(config.threshold, 250);
    assert_eq!(config.max_scale, 5);
}

#[test]
fn unparsable_scaling_labels_fall_back_to_defaults() {
    let labels: Vec<(String, String)> = vec![
        (String::from("tibcoems.apimeister.com/threshold"), String::from("lots")),
        (String::from("tibcoems.apimeister.com/maxScale"), String::from("-3")),
    ];
    let config = parse_scaling_labels(&labels);
    assert_eq!(config.threshold, 100);
    assert_eq!(config.max_scale, 10);
    assert!(config.queues.is_empty());
}

#[test]
fn unknown_queues_are_not_registered() {
    let mut stats = QueueStatsCache::new();
    stats.record(metrics("Q1", 0, 0, 0));

    let queues = vec![String::from("Q1"), String::from("GHOST")];
    let mut targets: Vec<(String, Vec<String>)> = Vec::new();
    let dep = String::from("d");
    let reg = register_scale_targets(&queues, &stats, &mut targets, &dep);

    assert_eq!(reg.skipped, vec![String::from("GHOST")]);
    assert_eq!(reg.trigger, vec![(String::from("Q1"), 0i64)]);
    assert_eq!(get_target(&targets, &String::from("Q1")), vec![String::from("d")]);
    assert!(get_target(&targets, &String::from("GHOST")).is_empty());

    // Registering the same deployment again does not duplicate it.
    let reg2 = register_scale_targets(&queues, &stats, &mut targets, &dep);
    assert_eq!(reg2.trigger, vec![(String::from("Q1"), 0i64)]);
    assert_eq!(get_target(&targets, &String::from("Q1")), vec![String::from("d")]);
}

#[test]
fn deployment_without_triggers_is_not_registered() {
    let none = initial_deployment_state(
        String::from("d"),
        Vec::new(),
        1,
        100,
        10,
        0,
    );
    assert!(none.is_none());

    let some = initial_deployment_state(
        String::from("d"),
        vec![(String::from("Q1"), 0i64)],
        0,
        0,
        0,
        42,
    )
    .expect("registered");
    assert!(matches!(some, State::Inactive(_)));
    let v = value_of(&some);
    assert_eq!(v.replicas, 0);
    // Non-positive configuration values fall back to the defaults.
    assert_eq!(v.threshold, 100);
    assert_eq!(v.max_scale, 10);
    assert_eq!(v.activity_timestamp, 42);

    let active = initial_deployment_state(
        String::from("d"),
        vec![(String::from("Q1"), 0i64)],
        2,
        200,
        3,
        43,
    )
    .expect("registered");
    assert!(matches!(active, State::Active(_)));
    assert_eq!(value_of(&active).replicas, 1);
    assert_eq!(value_of(&active).threshold, 200);
    assert_eq!(value_of(&active).max_scale, 3);
}

#[test]
fn state_registry_round_trip() {
    let mut states: Vec<(String, State)> = Vec::new();
    assert!(get_state(&states, &String::from("d")).is_none());
    insert_state(&mut states, String::from("d"), fresh_state(1, 7));
    let got = get_state(&states, &String::from("d")).expect("stored");
    assert!(matches!(got, State::Active(_)));
    assert_eq!(value_of(&got).activity_timestamp, 7);
    insert_state(&mut states, String::from("d"), fresh_state(0, 9));
    let got2 = get_state(&states, &String::from("d")).expect("replaced");
    assert!(matches!(got2, State::Inactive(_)));
    assert_eq!(states.len(), 1);
}

#[test]
fn epoch_clock_reads_a_modern_time() {
    let t = get_epoch_seconds();
    assert!(t > 1_600_000_000, "the sandbox clock sits after 2020");
}
