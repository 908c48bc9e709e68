//! The autoscaler: a per-deployment two-state machine driven by queue
//! statistics, with a cooldown before scale-to-zero and a linear scale-out
//! rule capped by a configured ceiling.
//!
//! The machine only decides; each decision is a [`ScalePlan`] naming the
//! replica count to request (if any) and the successor state for either
//! outcome of that request. The caller performs the request and keeps the
//! matching state.

use vstd::prelude::*;
use crate::assoc::{assoc_get, assoc_get_ref, assoc_has, assoc_set, unique_keys};
use crate::stats::{QueueMetrics, QueueStatsCache};
use crate::text::{has_prefix, parse_i64, parse_u32, spec_parse_i64, spec_parse_u32, str_has_prefix, strings_view};

verus! {

/// Seconds that must pass after the last recorded activity before a
/// deployment may be scaled to zero.
pub const COOLDOWN_PERIOD_SECONDS: u64 = 60;

/// One queue observation handed to the state machine.
pub struct StateTrigger {
    pub destination_name: String,
    pub outgoing_total_count: i64,
    pub pending_messages: i64,
}

/// Per-deployment scaling record: the last activity timestamp, the
/// last-seen outbound counter of every monitored queue, and the scaling
/// configuration taken from the deployment's labels.
pub struct StateValue {
    pub activity_timestamp: u64,
    pub trigger: Vec<(String, i64)>,
    pub deployment: String,
    pub replicas: u32,
    pub threshold: i64,
    pub max_scale: u32,
}

/// The state of a scalable deployment.
pub enum State {
    /// Scaled to zero replicas.
    Inactive(StateValue),
    /// Scaled to at least one replica.
    Active(StateValue),
}

impl StateValue {
    /// The scaling configuration is positive and the trigger map is a map.
    pub open spec fn wf(self) -> bool {
        &&& self.threshold >= 1
        &&& self.max_scale >= 1
        &&& unique_keys(self.trigger@)
    }
}

impl State {
    pub open spec fn wf(self) -> bool {
        self.value().wf()
    }

    pub open spec fn value(self) -> StateValue {
        match self {
            State::Inactive(v) => v,
            State::Active(v) => v,
        }
    }
}

/// Same record up to the trigger map's representation.
pub open spec fn sv_like(a: StateValue, b: StateValue) -> bool {
    &&& a.activity_timestamp == b.activity_timestamp
    &&& a.trigger@ == b.trigger@
    &&& a.deployment == b.deployment
    &&& a.replicas == b.replicas
    &&& a.threshold == b.threshold
    &&& a.max_scale == b.max_scale
}

/// Same state up to the trigger map's representation.
pub open spec fn state_like(a: State, b: State) -> bool {
    match (a, b) {
        (State::Inactive(x), State::Inactive(y)) => sv_like(x, y),
        (State::Active(x), State::Active(y)) => sv_like(x, y),
        _ => false,
    }
}

fn clone_trigger_map(v: &Vec<(String, i64)>) -> (r: Vec<(String, i64)>)
    ensures
        r@ == v@,
{
    let mut r: Vec<(String, i64)> = Vec::new();
    let n = v.len();
    let mut i: usize = 0;
    while i < n
        invariant
            i <= n,
            n == v@.len(),
            r@.len() == i,
            forall|j: int| 0 <= j < i ==> r@[j] == v@[j],
        decreases n - i,
    {
        let name = v[i].0.clone();
        let count = v[i].1;
        r.push((name, count));
        i = i + 1;
    }
    proof {
        assert(r@ =~= v@);
    }
    r
}

impl StateValue {
    /// Clones preserve the record up to the trigger map's representation.
    pub fn duplicate(&self) -> (r: StateValue)
        ensures
            sv_like(r, *self),
    {
        StateValue {
            activity_timestamp: self.activity_timestamp,
            trigger: clone_trigger_map(&self.trigger),
            deployment: self.deployment.clone(),
            replicas: self.replicas,
            threshold: self.threshold,
            max_scale: self.max_scale,
        }
    }
}

impl State {
    /// Clones preserve the state up to the trigger map's representation.
    pub fn duplicate(&self) -> (r: State)
        ensures
            state_like(r, *self),
    {
        match self {
            State::Inactive(v) => State::Inactive(v.duplicate()),
            State::Active(v) => State::Active(v.duplicate()),
        }
    }
}

/// One scaling decision: the replica count to request from the cluster, if
/// any, and the successor state for either outcome of that request.
pub struct ScalePlan {
    pub target: Option<u32>,
    pub on_success: State,
    pub on_failure: Option<State>,
}

/// The successor record after handling one trigger: activity refreshed to
/// `now`, the trigger's outbound counter recorded, the replica count set,
/// everything else carried over from `v`.
pub open spec fn sv_step(w: StateValue, v: StateValue, t: StateTrigger, now: u64, replicas: u32) -> bool {
    &&& w.activity_timestamp == now
    &&& (forall|k: Seq<char>| #[trigger] assoc_get(w.trigger@, k) == if k == t.destination_name@ {
        Some(t.outgoing_total_count)
    } else {
        assoc_get(v.trigger@, k)
    })
    &&& unique_keys(w.trigger@)
    &&& w.deployment == v.deployment
    &&& w.replicas == replicas
    &&& w.threshold == v.threshold
    &&& w.max_scale == v.max_scale
}

/// The linear scale-out rule: one replica per full threshold of pending
/// messages, capped by the configured ceiling.
pub open spec fn spec_desired(pending: i64, threshold: i64, max_scale: u32) -> u32
    recommends
        threshold >= 1,
        pending > threshold,
{
    let q = pending as int / threshold as int;
    if q > max_scale as int {
        max_scale
    } else {
        q as u32
    }
}

fn desired_replicas(pending: i64, threshold: i64, max_scale: u32) -> (r: u32)
    requires
        threshold >= 1,
        max_scale >= 1,
        pending > threshold,
    ensures
        r == spec_desired(pending, threshold, max_scale),
        1 <= r <= max_scale,
{
    proof {
        assert(pending as int / threshold as int >= 1) by (nonlinear_arith)
            requires
                threshold >= 1,
                pending > threshold,
        ;
        assert(pending as int / threshold as int <= pending as int) by (nonlinear_arith)
            requires
                threshold >= 1,
                pending > threshold,
        ;
    }
    let q = pending / threshold;
    if q > max_scale as i64 {
        max_scale
    } else {
        q as u32
    }
}

/// The last recorded outbound counter for this trigger's queue, zero when
/// the queue was never recorded.
pub open spec fn spec_old_outgoing(trigger_map: Seq<(String, i64)>, t: StateTrigger) -> i64 {
    match assoc_get(trigger_map, t.destination_name@) {
        Some(x) => x,
        None => 0,
    }
}

impl State {
    /// Plan the reaction to pending messages on a monitored queue.
    ///
    /// An inactive deployment is started with one replica. An active one is
    /// scaled out linearly when the backlog exceeds its threshold — never
    /// beyond its ceiling and never below its current replica count — and
    /// otherwise only records the trigger. Scaling up never deactivates.
    pub fn scale_up(self, trigger: StateTrigger, now: u64) -> (p: ScalePlan)
        requires
            self.wf(),
        ensures
            p.on_success.wf(),
            (p.on_failure matches Some(f) ==> f.wf()),
            (p.on_failure is Some) == (p.target is Some),
            (p.target matches Some(n) ==> 1 <= n <= self.value().max_scale),
            (self is Active ==> p.on_success is Active && (p.on_failure matches Some(f)
                ==> f is Active)),
            match self {
                State::Inactive(v) => {
                    &&& p.target == Some(1u32)
                    &&& (p.on_success matches State::Active(w) && sv_step(w, v, trigger, now, 1u32))
                    &&& (p.on_failure matches Some(f) && f matches State::Inactive(w) && sv_step(
                        w,
                        v,
                        trigger,
                        now,
                        0u32,
                    ))
                },
                State::Active(v) => {
                    if trigger.pending_messages > v.threshold && spec_desired(
                        trigger.pending_messages,
                        v.threshold,
                        v.max_scale,
                    ) > v.replicas {
                        let d = spec_desired(trigger.pending_messages, v.threshold, v.max_scale);
                        &&& p.target == Some(d)
                        &&& (p.on_success matches State::Active(w) && sv_step(w, v, trigger, now, d))
                        &&& (p.on_failure matches Some(f) && f matches State::Active(w) && sv_step(
                            w,
                            v,
                            trigger,
                            now,
                            v.replicas,
                        ))
                    } else {
                        &&& p.target is None
                        &&& (p.on_success matches State::Active(w) && sv_step(
                            w,
                            v,
                            trigger,
                            now,
                            v.replicas,
                        ))
                        &&& p.on_failure is None
                    }
                },
            },
    {
        match self {
            State::Inactive(v) => {
                let mut updated = clone_trigger_map(&v.trigger);
                assoc_set(&mut updated, trigger.destination_name.clone(), trigger.outgoing_total_count);
                let mut updated2 = v.trigger;
                assoc_set(&mut updated2, trigger.destination_name, trigger.outgoing_total_count);
                let fallback_deployment = v.deployment.clone();
                let success = State::Active(
                    StateValue {
                        activity_timestamp: now,
                        trigger: updated2,
                        deployment: v.deployment,
                        replicas: 1,
                        threshold: v.threshold,
                        max_scale: v.max_scale,
                    },
                );
                let failure = State::Inactive(
                    StateValue {
                        activity_timestamp: now,
                        trigger: updated,
                        deployment: fallback_deployment,
                        replicas: 0,
                        threshold: v.threshold,
                        max_scale: v.max_scale,
                    },
                );
                ScalePlan { target: Some(1), on_success: success, on_failure: Some(failure) }
            },
            State::Active(v) => {
                let wants_more = trigger.pending_messages > v.threshold;
                if wants_more {
                    let desired = desired_replicas(trigger.pending_messages, v.threshold, v.max_scale);
                    if desired > v.replicas {
                        let mut updated = clone_trigger_map(&v.trigger);
                        assoc_set(
                            &mut updated,
                            trigger.destination_name.clone(),
                            trigger.outgoing_total_count,
                        );
                        let mut updated2 = v.trigger;
                        assoc_set(&mut updated2, trigger.destination_name, trigger.outgoing_total_count);
                        let fallback_deployment = v.deployment.clone();
                        let success = State::Active(
                            StateValue {
                                activity_timestamp: now,
                                trigger: updated2,
                                deployment: v.deployment,
                                replicas: desired,
                                threshold: v.threshold,
                                max_scale: v.max_scale,
                            },
                        );
                        let failure = State::Active(
                            StateValue {
                                activity_timestamp: now,
                                trigger: updated,
                                deployment: fallback_deployment,
                                replicas: v.replicas,
                                threshold: v.threshold,
                                max_scale: v.max_scale,
                            },
                        );
                        return ScalePlan {
                            target: Some(desired),
                            on_success: success,
                            on_failure: Some(failure),
                        };
                    }
                }
                let mut updated = v.trigger;
                assoc_set(&mut updated, trigger.destination_name, trigger.outgoing_total_count);
                ScalePlan {
                    target: None,
                    on_success: State::Active(
                        StateValue {
                            activity_timestamp: now,
                            trigger: updated,
                            deployment: v.deployment,
                            replicas: v.replicas,
                            threshold: v.threshold,
                            max_scale: v.max_scale,
                        },
                    ),
                    on_failure: None,
                }
            },
        }
    }

    /// Plan the reaction to an idle queue.
    ///
    /// An inactive deployment stays put. An active one stays active while a
    /// monitored queue is still draining (its outbound counter grew) or
    /// while the cooldown since the last activity has not elapsed; only
    /// afterwards is a scale to zero requested, and a failed request keeps
    /// the deployment active.
    pub fn scale_down(self, trigger: StateTrigger, now: u64) -> (p: ScalePlan)
        requires
            self.wf(),
        ensures
            p.on_success.wf(),
            (p.on_failure matches Some(f) ==> f.wf()),
            (p.on_failure is Some) == (p.target is Some),
            (p.target matches Some(n) ==> n == 0),
            // No deactivation before the cooldown has fully elapsed.
            ((self is Active && p.on_success is Inactive)
                ==> self.value().activity_timestamp + COOLDOWN_PERIOD_SECONDS <= now),
            (p.on_failure matches Some(f) ==> f is Active),
            // A draining queue keeps the deployment active whatever the clock says.
            (match self {
                State::Active(v) => spec_old_outgoing(v.trigger@, trigger)
                    < trigger.outgoing_total_count ==> (p.target is None
                    && p.on_success is Active),
                State::Inactive(_) => true,
            }),
            match self {
                State::Inactive(_) => p.target is None && p.on_success == self
                    && p.on_failure is None,
                State::Active(v) => {
                    if spec_old_outgoing(v.trigger@, trigger) < trigger.outgoing_total_count {
                        &&& p.target is None
                        &&& (p.on_success matches State::Active(w) && sv_step(
                            w,
                            v,
                            trigger,
                            now,
                            v.replicas,
                        ))
                        &&& p.on_failure is None
                    } else if v.activity_timestamp + COOLDOWN_PERIOD_SECONDS > now {
                        &&& p.target is None
                        &&& p.on_success == self
                        &&& p.on_failure is None
                    } else {
                        &&& p.target == Some(0u32)
                        &&& (p.on_success matches State::Inactive(w) && sv_step(
                            w,
                            v,
                            trigger,
                            now,
                            0u32,
                        ))
                        &&& p.on_failure == Some(self)
                    }
                },
            },
    {
        match self {
            State::Inactive(v) => ScalePlan {
                target: None,
                on_success: State::Inactive(v),
                on_failure: None,
            },
            State::Active(v) => {
                let old_out: i64 = match assoc_get_ref(&v.trigger, &trigger.destination_name) {
                    Some(x) => *x,
                    None => 0,
                };
                if old_out < trigger.outgoing_total_count {
                    let mut updated = v.trigger;
                    assoc_set(&mut updated, trigger.destination_name, trigger.outgoing_total_count);
                    ScalePlan {
                        target: None,
                        on_success: State::Active(
                            StateValue {
                                activity_timestamp: now,
                                trigger: updated,
                                deployment: v.deployment,
                                replicas: v.replicas,
                                threshold: v.threshold,
                                max_scale: v.max_scale,
                            },
                        ),
                        on_failure: None,
                    }
                } else {
                    let in_cooldown = match v.activity_timestamp.checked_add(
                        COOLDOWN_PERIOD_SECONDS,
                    ) {
                        Some(limit) => limit > now,
                        None => true,
                    };
                    if in_cooldown {
                        ScalePlan {
                            target: None,
                            on_success: State::Active(v),
                            on_failure: None,
                        }
                    } else {
                        let mut updated = clone_trigger_map(&v.trigger);
                        assoc_set(
                            &mut updated,
                            trigger.destination_name.clone(),
                            trigger.outgoing_total_count,
                        );
                        let halted_deployment = v.deployment.clone();
                        let halted = State::Inactive(
                            StateValue {
                                activity_timestamp: now,
                                trigger: updated,
                                deployment: halted_deployment,
                                replicas: 0,
                                threshold: v.threshold,
                                max_scale: v.max_scale,
                            },
                        );
                        ScalePlan {
                            target: Some(0),
                            on_success: halted,
                            on_failure: Some(State::Active(v)),
                        }
                    }
                }
            },
        }
    }
}

/// Reconcile a known deployment's state with the replica count read from
/// the live object, capturing externally-driven scale changes: an active
/// record of a deployment now at zero replicas becomes inactive, an
/// inactive record of one now at one replica becomes active.
pub fn reconcile_replicas(state: State, replica_count: i32, now: u64) -> (r: State)
    requires
        state.wf(),
    ensures
        r.wf(),
        match state {
            State::Active(v) => {
                if replica_count == 0 {
                    r matches State::Inactive(w) && w.activity_timestamp == now && w.trigger@
                        == v.trigger@ && w.deployment == v.deployment && w.replicas == 0
                        && w.threshold == v.threshold && w.max_scale == v.max_scale
                } else {
                    r == state
                }
            },
            State::Inactive(v) => {
                if replica_count == 1 {
                    r matches State::Active(w) && w.activity_timestamp == now && w.trigger@
                        == v.trigger@ && w.deployment == v.deployment && w.replicas == 1
                        && w.threshold == v.threshold && w.max_scale == v.max_scale
                } else {
                    r == state
                }
            },
        },
{
    match state {
        State::Active(v) => {
            if replica_count == 0 {
                State::Inactive(
                    StateValue {
                        activity_timestamp: now,
                        trigger: v.trigger,
                        deployment: v.deployment,
                        replicas: 0,
                        threshold: v.threshold,
                        max_scale: v.max_scale,
                    },
                )
            } else {
                State::Active(v)
            }
        },
        State::Inactive(v) => {
            if replica_count == 1 {
                State::Active(
                    StateValue {
                        activity_timestamp: now,
                        trigger: v.trigger,
                        deployment: v.deployment,
                        replicas: 1,
                        threshold: v.threshold,
                        max_scale: v.max_scale,
                    },
                )
            } else {
                State::Inactive(v)
            }
        },
    }
}

/// Deployments scaled by a queue, looked up by queue name.
pub fn get_target(targets: &Vec<(String, Vec<String>)>, queue_name: &String) -> (r: Vec<String>)
    ensures
        match assoc_get(targets@, queue_name@) {
            Some(l) => r@ == l@,
            None => r@.len() == 0,
        },
{
    match assoc_get_ref(targets, queue_name) {
        Some(l) => clone_string_vec(l),
        None => Vec::new(),
    }
}

fn clone_string_vec(v: &Vec<String>) -> (r: Vec<String>)
    ensures
        r@ == v@,
{
    let mut r: Vec<String> = Vec::new();
    let n = v.len();
    let mut i: usize = 0;
    while i < n
        invariant
            i <= n,
            n == v@.len(),
            r@.len() == i,
            forall|j: int| 0 <= j < i ==> r@[j] == v@[j],
        decreases n - i,
    {
        r.push(v[i].clone());
        i = i + 1;
    }
    proof {
        assert(r@ =~= v@);
    }
    r
}

/// The recorded state of a deployment, by name.
pub fn get_state(states: &Vec<(String, State)>, deployment_name: &String) -> (r: Option<State>)
    ensures
        match assoc_get(states@, deployment_name@) {
            Some(s0) => r matches Some(s) && state_like(s, s0),
            None => r is None,
        },
{
    match assoc_get_ref(states, deployment_name) {
        Some(s) => Some(s.duplicate()),
        None => None,
    }
}

/// Record a deployment's state under its name.
pub fn insert_state(states: &mut Vec<(String, State)>, deployment_name: String, state: State)
    ensures
        forall|k: Seq<char>| #[trigger] assoc_get(final(states)@, k) == if k == deployment_name@ {
            Some(state)
        } else {
            assoc_get(old(states)@, k)
        },
        unique_keys(old(states)@) ==> unique_keys(final(states)@),
{
    assoc_set(states, deployment_name, state)
}

/// Whether a label or annotation key names a trigger queue.
pub open spec fn label_selects_queue(k: Seq<char>) -> bool {
    has_prefix(k, "tibcoems.apimeister.com/queue"@)
}

/// Whether a key sets the scaling threshold; the key chain tries the queue
/// prefix first.
pub open spec fn label_selects_threshold(k: Seq<char>) -> bool {
    !label_selects_queue(k) && has_prefix(k, "tibcoems.apimeister.com/threshold"@)
}

/// Whether a key sets the scale-out ceiling.
pub open spec fn label_selects_max_scale(k: Seq<char>) -> bool {
    !label_selects_queue(k) && !has_prefix(k, "tibcoems.apimeister.com/threshold"@) && has_prefix(
        k,
        "tibcoems.apimeister.com/maxScale"@,
    )
}

/// The trigger-queue names announced by a deployment's labels and
/// annotations, in key order.
pub open spec fn spec_trigger_queue_names(labels: Seq<(String, String)>) -> Seq<Seq<char>>
    decreases labels.len(),
{
    if labels.len() == 0 {
        Seq::empty()
    } else {
        let rest = spec_trigger_queue_names(labels.drop_last());
        if label_selects_queue(labels.last().0@) {
            rest.push(labels.last().1@)
        } else {
            rest
        }
    }
}

/// The threshold set by the labels: the last threshold key wins, an
/// unparsable or missing value falls back to 100.
pub open spec fn spec_threshold_label(labels: Seq<(String, String)>) -> i64
    decreases labels.len(),
{
    if labels.len() == 0 {
        100
    } else if label_selects_threshold(labels.last().0@) {
        match spec_parse_i64(labels.last().1@) {
            Some(v) => v,
            None => 100,
        }
    } else {
        spec_threshold_label(labels.drop_last())
    }
}

/// The scale-out ceiling set by the labels: the last matching key wins, an
/// unparsable or missing value falls back to 10.
pub open spec fn spec_max_scale_label(labels: Seq<(String, String)>) -> u32
    decreases labels.len(),
{
    if labels.len() == 0 {
        10
    } else if label_selects_max_scale(labels.last().0@) {
        match spec_parse_u32(labels.last().1@) {
            Some(v) => v,
            None => 10,
        }
    } else {
        spec_max_scale_label(labels.drop_last())
    }
}

/// Scaling configuration read off a deployment's labels and annotations.
pub struct ScalingConfig {
    pub queues: Vec<String>,
    pub threshold: i64,
    pub max_scale: u32,
}

/// Scan a deployment's merged labels and annotations for trigger queues,
/// the threshold, and the scale-out ceiling.
pub fn parse_scaling_labels(labels: &Vec<(String, String)>) -> (r: ScalingConfig)
    ensures
        strings_view(r.queues@) == spec_trigger_queue_names(labels@),
        r.threshold == spec_threshold_label(labels@),
        r.max_scale == spec_max_scale_label(labels@),
{
    let mut queues: Vec<String> = Vec::new();
    let mut threshold: i64 = 100;
    let mut max_scale: u32 = 10;
    let n = labels.len();
    let mut i: usize = 0;
    while i < n
        invariant
            i <= n,
            n == labels@.len(),
            strings_view(queues@) == spec_trigger_queue_names(labels@.take(i as int)),
            threshold == spec_threshold_label(labels@.take(i as int)),
            max_scale == spec_max_scale_label(labels@.take(i as int)),
        decreases n - i,
    {
        let ghost pre = labels@.take(i as int);
        let ghost cur = labels@.take(i as int + 1);
        proof {
            assert(cur.drop_last() =~= pre);
            assert(cur.last() == labels@[i as int]);
        }
        if str_has_prefix(&labels[i].0, "tibcoems.apimeister.com/queue") {
            queues.push(labels[i].1.clone());
            proof {
                assert(strings_view(queues@) =~= spec_trigger_queue_names(cur));
            }
        } else if str_has_prefix(&labels[i].0, "tibcoems.apimeister.com/threshold") {
            threshold = match parse_i64(labels[i].1.as_str()) {
                Some(v) => v,
                None => 100,
            };
        } else if str_has_prefix(&labels[i].0, "tibcoems.apimeister.com/maxScale") {
            max_scale = match parse_u32(labels[i].1.as_str()) {
                Some(v) => v,
                None => 10,
            };
        }
        i = i + 1;
    }
    proof {
        assert(labels@.take(n as int) =~= labels@);
    }
    ScalingConfig { queues, threshold, max_scale }
}

/// A queue both announced by the deployment and present in the statistics
/// cache: only such queues may drive scaling.
pub open spec fn is_trigger_queue(
    queues: Seq<String>,
    stats: Seq<(String, QueueMetrics)>,
    k: Seq<char>,
) -> bool {
    strings_view(queues).contains(k) && assoc_has(stats, k)
}

/// The announced queues the broker does not know, in announcement order;
/// they are reported and not registered.
pub open spec fn spec_skipped_queues(
    queues: Seq<String>,
    stats: Seq<(String, QueueMetrics)>,
) -> Seq<Seq<char>>
    decreases queues.len(),
{
    if queues.len() == 0 {
        Seq::empty()
    } else {
        let rest = spec_skipped_queues(queues.drop_last(), stats);
        if assoc_has(stats, queues.last()@) {
            rest
        } else {
            rest.push(queues.last()@)
        }
    }
}

/// The deployment list registered for a trigger queue after discovery: the
/// previous list, with this deployment appended when it was missing.
pub open spec fn target_names_after(
    before: Seq<(String, Vec<String>)>,
    k: Seq<char>,
    d: Seq<char>,
) -> Seq<Seq<char>> {
    let old_names = match assoc_get(before, k) {
        Some(l) => strings_view(l@),
        None => Seq::empty(),
    };
    if old_names.contains(d) {
        old_names
    } else {
        old_names.push(d)
    }
}

proof fn lemma_views_push(s: Seq<Seq<char>>, x: Seq<char>, k: Seq<char>)
    ensures
        s.push(x).contains(k) == (s.contains(k) || x == k),
{
    if s.push(x).contains(k) {
        let j = choose|j: int| 0 <= j < s.push(x).len() && s.push(x)[j] == k;
        if j < s.len() {
            assert(s[j] == k);
        }
    }
    if s.contains(k) {
        let j = choose|j: int| 0 <= j < s.len() && s[j] == k;
        assert(s.push(x)[j] == k);
    }
    if x == k {
        assert(s.push(x)[s.len() as int] == k);
    }
}

fn vec_contains_string(v: &Vec<String>, s: &String) -> (r: bool)
    ensures
        r == strings_view(v@).contains(s@),
{
    let n = v.len();
    let mut i: usize = 0;
    while i < n
        invariant
            i <= n,
            n == v@.len(),
            forall|j: int| 0 <= j < i ==> strings_view(v@)[j] != s@,
        decreases n - i,
    {
        if v[i] == *s {
            proof {
                assert(strings_view(v@)[i as int] == s@);
            }
            return true;
        }
        proof {
            assert(strings_view(v@)[i as int] == v@[i as int]@);
        }
        i = i + 1;
    }
    proof {
        assert forall|j: int| 0 <= j < strings_view(v@).len() implies strings_view(v@)[j]
            != s@ by {}
    }
    false
}

/// The trigger map and the skip list built by discovering one deployment.
pub struct RegisteredTriggers {
    pub trigger: Vec<(String, i64)>,
    pub skipped: Vec<String>,
}

/// Register a newly discovered deployment for each announced queue the
/// broker knows: the deployment joins that queue's target list once, and
/// the queue enters the deployment's trigger map with a zero counter.
/// Queues the broker does not know are skipped and reported.
pub fn register_scale_targets(
    queues: &Vec<String>,
    stats: &QueueStatsCache,
    targets: &mut Vec<(String, Vec<String>)>,
    deployment: &String,
) -> (r: RegisteredTriggers)
    requires
        unique_keys(old(targets)@),
    ensures
        unique_keys(final(targets)@),
        unique_keys(r.trigger@),
        forall|k: Seq<char>| #[trigger] assoc_get(r.trigger@, k) == if is_trigger_queue(
            queues@,
            stats.entries@,
            k,
        ) {
            Some(0i64)
        } else {
            None::<i64>
        },
        forall|k: Seq<char>|
            !is_trigger_queue(queues@, stats.entries@, k) ==> assoc_get(final(targets)@, k)
                == assoc_get(old(targets)@, k),
        forall|k: Seq<char>|
            is_trigger_queue(queues@, stats.entries@, k) ==> (#[trigger] assoc_get(
                final(targets)@,
                k,
            ) matches Some(l) && strings_view(l@) == target_names_after(
                old(targets)@,
                k,
                deployment@,
            )),
        strings_view(r.skipped@) == spec_skipped_queues(queues@, stats.entries@),
{
    let ghost t0 = targets@;
    let mut trigger: Vec<(String, i64)> = Vec::new();
    let mut skipped: Vec<String> = Vec::new();
    let n = queues.len();
    let mut i: usize = 0;
    while i < n
        invariant
            i <= n,
            n == queues@.len(),
            unique_keys(targets@),
            unique_keys(trigger@),
            forall|k: Seq<char>| #[trigger] assoc_get(trigger@, k) == if is_trigger_queue(
                queues@.take(i as int),
                stats.entries@,
                k,
            ) {
                Some(0i64)
            } else {
                None::<i64>
            },
            forall|k: Seq<char>|
                !is_trigger_queue(queues@.take(i as int), stats.entries@, k) ==> assoc_get(
                    targets@,
                    k,
                ) == assoc_get(t0, k),
            forall|k: Seq<char>|
                is_trigger_queue(queues@.take(i as int), stats.entries@, k) ==> (
                #[trigger] assoc_get(targets@, k) matches Some(l) && strings_view(l@)
                    == target_names_after(t0, k, deployment@)),
            strings_view(skipped@) == spec_skipped_queues(queues@.take(i as int), stats.entries@),
        decreases n - i,
    {
        let ghost pre = queues@.take(i as int);
        let ghost cur = queues@.take(i as int + 1);
        let ghost qv = queues@[i as int]@;
        proof {
            assert(cur.drop_last() =~= pre);
            assert(cur.last() == queues@[i as int]);
            assert(strings_view(cur) =~= strings_view(pre).push(qv));
            assert forall|k: Seq<char>|
                is_trigger_queue(cur, stats.entries@, k) == (is_trigger_queue(
                    pre,
                    stats.entries@,
                    k,
                ) || (k == qv && assoc_has(stats.entries@, qv))) by {
                lemma_views_push(strings_view(pre), qv, k);
            }
        }
        let q = &queues[i];
        if stats.contains(q) {
            let ghost cur_get = assoc_get(targets@, qv);
            let updated_list = match crate::assoc::assoc_index_of(targets, q) {
                Some(j) => {
                    let ghost old_l = strings_view(targets@[j as int].1@);
                    let mut l = clone_string_vec(&targets[j].1);
                    if !vec_contains_string(&l, deployment) {
                        l.push(deployment.clone());
                        proof {
                            assert(strings_view(l@) =~= old_l.push(deployment@));
                        }
                    }
                    proof {
                        let d = deployment@;
                        if is_trigger_queue(pre, stats.entries@, qv) {
                            assert(old_l == target_names_after(t0, qv, d));
                            let names0 = match assoc_get(t0, qv) {
                                Some(x) => strings_view(x@),
                                None => Seq::<Seq<char>>::empty(),
                            };
                            if !names0.contains(d) {
                                assert(old_l[names0.len() as int] == d);
                            }
                            assert(old_l.contains(d));
                            assert(strings_view(l@) == target_names_after(t0, qv, d));
                        } else {
                            assert(assoc_get(t0, qv) == cur_get);
                            assert(strings_view(l@) == target_names_after(t0, qv, d));
                        }
                    }
                    l
                },
                None => {
                    let mut l: Vec<String> = Vec::new();
                    l.push(deployment.clone());
                    proof {
                        assert(strings_view(l@) =~= Seq::<Seq<char>>::empty().push(deployment@));
                        if is_trigger_queue(pre, stats.entries@, qv) {
                            assert(false);
                        }
                        assert(assoc_get(t0, qv) == cur_get);
                        assert(strings_view(l@) == target_names_after(t0, qv, deployment@));
                    }
                    l
                },
            };
            let ghost updated_names = strings_view(updated_list@);
            proof {
                assert(updated_names == target_names_after(t0, qv, deployment@));
            }
            assoc_set(targets, q.clone(), updated_list);
            assoc_set(&mut trigger, q.clone(), 0i64);
        } else {
            skipped.push(q.clone());
            proof {
                assert(strings_view(skipped@) =~= spec_skipped_queues(cur, stats.entries@));
            }
        }
        i = i + 1;
    }
    proof {
        assert(queues@.take(n as int) =~= queues@);
    }
    RegisteredTriggers { trigger, skipped }
}

/// The state a newly discovered deployment starts in: none when no known
/// queue triggers it, otherwise inactive or active after its current
/// replica count. A non-positive threshold or ceiling is rejected and falls
/// back to its default.
pub fn initial_deployment_state(
    deployment: String,
    trigger: Vec<(String, i64)>,
    replica_count: i32,
    threshold: i64,
    max_scale: u32,
    now: u64,
) -> (r: Option<State>)
    requires
        unique_keys(trigger@),
    ensures
        match r {
            None => trigger@.len() == 0,
            Some(s) => {
                &&& trigger@.len() > 0
                &&& s.wf()
                &&& s.value().activity_timestamp == now
                &&& s.value().trigger@ == trigger@
                &&& s.value().deployment == deployment
                &&& s.value().threshold == (if threshold >= 1 {
                    threshold
                } else {
                    100i64
                })
                &&& s.value().max_scale == (if max_scale >= 1 {
                    max_scale
                } else {
                    10u32
                })
                &&& (if replica_count == 0 {
                    s matches State::Inactive(v) && v.replicas == 0
                } else {
                    s matches State::Active(v) && v.replicas == 1
                })
            },
        },
{
    if trigger.len() == 0 {
        return None;
    }
    let threshold_eff: i64 = if threshold >= 1 {
        threshold
    } else {
        100
    };
    let max_scale_eff: u32 = if max_scale >= 1 {
        max_scale
    } else {
        10
    };
    if replica_count == 0 {
        Some(
            State::Inactive(
                StateValue {
                    activity_timestamp: now,
                    trigger,
                    deployment,
                    replicas: 0,
                    threshold: threshold_eff,
                    max_scale: max_scale_eff,
                },
            ),
        )
    } else {
        Some(
            State::Active(
                StateValue {
                    activity_timestamp: now,
                    trigger,
                    deployment,
                    replicas: 1,
                    threshold: threshold_eff,
                    max_scale: max_scale_eff,
                },
            ),
        )
    }
}

/// Relies on std::time::SystemTime: seconds of the system clock since the
/// Unix epoch, zero should the clock sit before it. The result depends on
/// the clock, so nothing is assumed of it.
#[verifier::external_body]
fn system_clock_seconds() -> u64 {
    match std::time::SystemTime::now().duration_since(std::time::SystemTime::UNIX_EPOCH) {
        Ok(d) => d.as_secs(),
        Err(_) => 0,
    }
}

/// The wall clock the scaler stamps activity with, in whole seconds since
/// the Unix epoch. Clock readings carry no promises: every scaling decision
/// holds for any value passed as `now`.
pub fn get_epoch_seconds() -> u64 {
    system_clock_seconds()
}

} // verus!

