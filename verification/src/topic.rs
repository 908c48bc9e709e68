//! Topic custom resources: spec, derived broker-side name, create request,
//! default propagation, and the watch-event dispatcher for topics.

use vstd::prelude::*;
use crate::assoc::{assoc_contains, assoc_get, assoc_has, assoc_remove, assoc_set, unique_keys};
use crate::text::{ascii_uppercase, clone_opt_string, spec_ascii_upper};
use crate::watch::{check_responsibility, spec_responsible, ResourceMeta, WatchedEvent};

verus! {

/// Declarative topic configuration, as authored in the custom resource.
#[allow(non_snake_case)]
pub struct TopicSpec {
    pub name: Option<String>,
    pub expiration: Option<u32>,
    pub global: Option<bool>,
    pub maxbytes: Option<i64>,
    pub maxmsgs: Option<i64>,
    pub overflowPolicy: Option<u8>,
    pub prefetch: Option<u32>,
}

/// Broker statistics written back to the resource's status subresource.
#[allow(non_snake_case)]
#[derive(Clone, Copy)]
pub struct TopicStatus {
    pub pendingMessages: i64,
    pub subscribers: i32,
    pub durables: i32,
}

/// A topic custom resource.
pub struct Topic {
    pub metadata: ResourceMeta,
    pub spec: TopicSpec,
    pub status: Option<TopicStatus>,
}

/// The administrative create call sent to the broker for a topic.
pub struct TopicCreateRequest {
    pub name: String,
    pub max_bytes: Option<i64>,
    pub max_messages: Option<i64>,
    pub global: Option<bool>,
    pub expiry_override: Option<i64>,
    pub prefetch: Option<i32>,
}

/// Broker-side name of a topic: the spec name verbatim when present,
/// otherwise the object name upper-cased.
pub open spec fn spec_topic_name(t: Topic) -> Seq<char> {
    match t.spec.name {
        Some(n) => n@,
        None => match t.metadata.name {
            Some(n) => spec_ascii_upper(n@),
            None => Seq::empty(),
        },
    }
}

pub fn get_topic_name(topic: &Topic) -> (r: String)
    ensures
        r@ == spec_topic_name(*topic),
{
    match &topic.spec.name {
        Some(n) => n.clone(),
        None => match &topic.metadata.name {
            Some(n) => ascii_uppercase(n.as_str()),
            None => String::new(),
        },
    }
}

/// The Kubernetes object name, which stays the object's identity whatever
/// broker-side name is derived.
pub fn get_obj_name_from_topic(topic: &Topic) -> (r: String)
    requires
        topic.metadata.name is Some,
    ensures
        topic.metadata.name == Some(r),
{
    match &topic.metadata.name {
        Some(n) => n.clone(),
        None => unreached(),
    }
}

impl TopicSpec {
    /// Clones preserve the value exactly.
    pub fn duplicate(&self) -> (r: TopicSpec)
        ensures
            r == *self,
    {
        TopicSpec {
            name: clone_opt_string(&self.name),
            expiration: self.expiration,
            global: self.global,
            maxbytes: self.maxbytes,
            maxmsgs: self.maxmsgs,
            overflowPolicy: self.overflowPolicy,
            prefetch: self.prefetch,
        }
    }
}

impl Topic {
    /// Clones preserve the value exactly.
    pub fn duplicate(&self) -> (r: Topic)
        ensures
            r == *self,
    {
        Topic { metadata: self.metadata.duplicate(), spec: self.spec.duplicate(), status: self.status }
    }
}

/// Field mapping from the resource spec to the broker create request.
pub open spec fn topic_request_matches(req: TopicCreateRequest, t: Topic) -> bool {
    &&& req.name@ == spec_topic_name(t)
    &&& req.max_bytes == t.spec.maxbytes
    &&& req.max_messages == t.spec.maxmsgs
    &&& req.global == t.spec.global
    &&& req.expiry_override == (match t.spec.expiration {
        Some(v) => Some(v as i64),
        None => None::<i64>,
    })
    &&& req.prefetch == (match t.spec.prefetch {
        Some(v) => Some(v as i32),
        None => None::<i32>,
    })
}

pub fn topic_create_request(topic: &Topic) -> (r: TopicCreateRequest)
    ensures
        topic_request_matches(r, *topic),
{
    TopicCreateRequest {
        name: get_topic_name(topic),
        max_bytes: topic.spec.maxbytes,
        max_messages: topic.spec.maxmsgs,
        global: topic.spec.global,
        expiry_override: match topic.spec.expiration {
            Some(v) => Some(v as i64),
            None => None,
        },
        prefetch: match topic.spec.prefetch {
            Some(v) => Some(#[verifier::truncate] (v as i32)),
            None => None,
        },
    }
}

/// The resource as it is cached after a successful create: every unset
/// optional scalar filled with its zero equivalent and a zero-valued status
/// attached.
pub open spec fn topic_with_defaults(t: Topic) -> Topic {
    Topic {
        metadata: t.metadata,
        spec: TopicSpec {
            name: t.spec.name,
            expiration: if t.spec.expiration is None {
                Some(0u32)
            } else {
                t.spec.expiration
            },
            global: Some(false),
            maxbytes: Some(0i64),
            maxmsgs: if t.spec.maxmsgs is None {
                Some(0i64)
            } else {
                t.spec.maxmsgs
            },
            overflowPolicy: Some(0u8),
            prefetch: if t.spec.prefetch is None {
                Some(0u32)
            } else {
                t.spec.prefetch
            },
        },
        status: Some(TopicStatus { pendingMessages: 0, subscribers: 0, durables: 0 }),
    }
}

/// After default propagation no optional scalar is left unset: each keeps
/// its authored value or receives its zero equivalent, and a zero-valued
/// status is attached.
pub proof fn lemma_topic_default_propagation(t: Topic)
    ensures
        topic_with_defaults(t).spec.expiration == (if t.spec.expiration is Some {
            t.spec.expiration
        } else {
            Some(0u32)
        }),
        topic_with_defaults(t).spec.maxmsgs == (if t.spec.maxmsgs is Some {
            t.spec.maxmsgs
        } else {
            Some(0i64)
        }),
        topic_with_defaults(t).spec.prefetch == (if t.spec.prefetch is Some {
            t.spec.prefetch
        } else {
            Some(0u32)
        }),
        topic_with_defaults(t).spec.global == Some(false),
        topic_with_defaults(t).spec.maxbytes == Some(0i64),
        topic_with_defaults(t).spec.overflowPolicy == Some(0u8),
        topic_with_defaults(t).status == Some(
            TopicStatus { pendingMessages: 0, subscribers: 0, durables: 0 },
        ),
        topic_with_defaults(t).spec.name == t.spec.name,
        topic_with_defaults(t).metadata == t.metadata,
{
}

/// Fill unset optionals with zero equivalents and attach a zero status.
pub fn propagate_topic_defaults(topic: &mut Topic)
    ensures
        *final(topic) == topic_with_defaults(*old(topic)),
{
    if topic.spec.maxmsgs.is_none() {
        topic.spec.maxmsgs = Some(0);
    }
    if topic.spec.expiration.is_none() {
        topic.spec.expiration = Some(0);
    }
    topic.spec.overflowPolicy = Some(0);
    if topic.spec.prefetch.is_none() {
        topic.spec.prefetch = Some(0);
    }
    topic.spec.global = Some(false);
    topic.spec.maxbytes = Some(0);
    topic.status = Some(TopicStatus { pendingMessages: 0, subscribers: 0, durables: 0 });
}

/// Administrative operations requested by one dispatched topic event.
pub struct TopicReconcileEffects {
    pub create: Option<TopicCreateRequest>,
    pub delete: Option<String>,
    pub status_write: Option<Topic>,
}

/// Events carrying an object must carry its resource version.
pub open spec fn topic_event_rv_present(event: WatchedEvent<Topic>) -> bool {
    match event {
        WatchedEvent::Added(t) => t.metadata.resource_version is Some,
        WatchedEvent::Modified(t) => t.metadata.resource_version is Some,
        WatchedEvent::Deleted(t) => t.metadata.resource_version is Some,
        _ => true,
    }
}

/// Cache effect of an `Added` event: a first observation is stored with its
/// defaults propagated, a repeated or foreign one changes nothing.
pub open spec fn topic_added_cache_change(
    pre: Seq<(String, Topic)>,
    post: Seq<(String, Topic)>,
    t: Topic,
    rf: Seq<char>,
) -> bool {
    let k = spec_topic_name(t);
    if spec_responsible(t.metadata.owner_label, rf) && !assoc_has(pre, k) {
        &&& assoc_get(post, k) == Some(topic_with_defaults(t))
        &&& forall|k2: Seq<char>| k2 != k ==> assoc_get(post, k2) == assoc_get(pre, k2)
    } else {
        post == pre
    }
}

/// Cache effect of a `Deleted` event: the entry leaves the cache whether or
/// not the broker-side delete is suppressed.
pub open spec fn topic_deleted_cache_change(
    pre: Seq<(String, Topic)>,
    post: Seq<(String, Topic)>,
    t: Topic,
    rf: Seq<char>,
) -> bool {
    let k = spec_topic_name(t);
    if spec_responsible(t.metadata.owner_label, rf) {
        &&& assoc_get(post, k) is None
        &&& forall|k2: Seq<char>| k2 != k ==> assoc_get(post, k2) == assoc_get(pre, k2)
    } else {
        post == pre
    }
}

/// Dispatch one watch event for topics; the behaviour mirrors the queue
/// dispatcher with the topic status shape.
pub fn handle_topic_event(
    known: &mut Vec<(String, Topic)>,
    last_version: &mut String,
    do_not_delete: bool,
    responsible_for: &String,
    event: WatchedEvent<Topic>,
) -> (out: TopicReconcileEffects)
    requires
        unique_keys(old(known)@),
        topic_event_rv_present(event),
    ensures
        unique_keys(final(known)@),
        responsible_for@.len() > 0 ==> forall|i: int|
            0 <= i < final(known)@.len() ==> old(known)@.contains(#[trigger] final(known)@[i]) || (
            final(known)@[i].1.metadata.owner_label matches Some(o) && o@ == responsible_for@),
        match event {
            WatchedEvent::Added(t) => {
                let k = spec_topic_name(t);
                let fresh = spec_responsible(t.metadata.owner_label, responsible_for@)
                    && !assoc_has(old(known)@, k);
                &&& t.metadata.resource_version matches Some(rv) && final(last_version)@ == rv@
                &&& out.delete is None
                &&& topic_added_cache_change(old(known)@, final(known)@, t, responsible_for@)
                &&& if fresh {
                    &&& out.create matches Some(req) && topic_request_matches(req, t)
                    &&& out.status_write == (if t.status is None {
                        Some(topic_with_defaults(t))
                    } else {
                        None::<Topic>
                    })
                } else {
                    out.create is None && out.status_write is None
                }
            },
            WatchedEvent::Modified(t) => {
                &&& t.metadata.resource_version matches Some(rv) && final(last_version)@ == rv@
                &&& final(known)@ == old(known)@
                &&& out.delete is None
                &&& out.status_write is None
                &&& if spec_responsible(t.metadata.owner_label, responsible_for@) {
                    out.create matches Some(req) && topic_request_matches(req, t)
                } else {
                    out.create is None
                }
            },
            WatchedEvent::Deleted(t) => {
                let k = spec_topic_name(t);
                &&& t.metadata.resource_version matches Some(rv) && final(last_version)@ == rv@
                &&& out.create is None
                &&& out.status_write is None
                &&& topic_deleted_cache_change(old(known)@, final(known)@, t, responsible_for@)
                &&& if spec_responsible(t.metadata.owner_label, responsible_for@) && !do_not_delete {
                    out.delete matches Some(n) && n@ == k
                } else {
                    out.delete is None
                }
            },
            WatchedEvent::ErrorStatus(_) => {
                &&& final(last_version)@ == "0"@
                &&& final(known)@ == old(known)@
                &&& out.create is None
                &&& out.delete is None
                &&& out.status_write is None
            },
            WatchedEvent::Other => {
                &&& *final(last_version) == *old(last_version)
                &&& final(known)@ == old(known)@
                &&& out.create is None
                &&& out.delete is None
                &&& out.status_write is None
            },
        },
{
    match event {
        WatchedEvent::Added(mut t) => {
            let rv = match &t.metadata.resource_version {
                Some(v) => v.clone(),
                None => unreached(),
            };
            let responsible = check_responsibility(&t.metadata, responsible_for);
            let tname = get_topic_name(&t);
            let mut out = TopicReconcileEffects { create: None, delete: None, status_write: None };
            if responsible && !assoc_contains(known, &tname) {
                let had_status = t.status.is_some();
                out.create = Some(topic_create_request(&t));
                propagate_topic_defaults(&mut t);
                if !had_status {
                    out.status_write = Some(t.duplicate());
                }
                assoc_set(known, tname, t);
            }
            *last_version = rv;
            out
        },
        WatchedEvent::Modified(t) => {
            let rv = match &t.metadata.resource_version {
                Some(v) => v.clone(),
                None => unreached(),
            };
            let responsible = check_responsibility(&t.metadata, responsible_for);
            let create = if responsible {
                Some(topic_create_request(&t))
            } else {
                None
            };
            *last_version = rv;
            TopicReconcileEffects { create, delete: None, status_write: None }
        },
        WatchedEvent::Deleted(t) => {
            let rv = match &t.metadata.resource_version {
                Some(v) => v.clone(),
                None => unreached(),
            };
            let responsible = check_responsibility(&t.metadata, responsible_for);
            let tname = get_topic_name(&t);
            let mut out = TopicReconcileEffects { create: None, delete: None, status_write: None };
            if responsible {
                if !do_not_delete {
                    out.delete = Some(tname.clone());
                }
                assoc_remove(known, &tname);
            }
            *last_version = rv;
            out
        },
        WatchedEvent::ErrorStatus(_) => {
            *last_version = String::from_str("0");
            TopicReconcileEffects { create: None, delete: None, status_write: None }
        },
        WatchedEvent::Other => {
            TopicReconcileEffects { create: None, delete: None, status_write: None }
        },
    }
}

/// Once a topic's entry is in the cache, any further `Added` event for the
/// same broker-side name emits no create: over a run of `Added` events for
/// one name, the create is submitted exactly once, at the first observation
/// of a name not yet cached.
pub proof fn lemma_idempotent_topic_create(
    caches: Seq<Seq<(String, Topic)>>,
    events: Seq<Topic>,
    created: Seq<bool>,
    name: Seq<char>,
    rf: Seq<char>,
)
    requires
        caches.len() == events.len() + 1,
        created.len() == events.len(),
        forall|i: int| 0 <= i < events.len() ==> spec_topic_name(#[trigger] events[i]) == name,
        forall|i: int|
            0 <= i < events.len() ==> spec_responsible(#[trigger] events[i].metadata.owner_label, rf),
        forall|i: int|
            0 <= i < events.len() ==> topic_added_cache_change(
                #[trigger] caches[i],
                caches[i + 1],
                events[i],
                rf,
            ),
        forall|i: int|
            0 <= i < events.len() ==> created[i] == !assoc_has(#[trigger] caches[i], name),
    ensures
        forall|i: int|
            0 <= i < created.len() ==> created[i] == (i == 0 && !assoc_has(caches[0], name)),
{
    assert forall|i: int| 0 < i < created.len() implies !created[i] by {
        assert(topic_added_cache_change(caches[i - 1], caches[i], events[i - 1], rf));
        assert(assoc_has(caches[i], name));
    }
}

/// Every cached topic belongs to this operator instance's partition.
pub open spec fn topic_cache_owned_by(s: Seq<(String, Topic)>, owner: Seq<char>) -> bool {
    forall|i: int|
        0 <= i < s.len() ==> ((#[trigger] s[i]).1.metadata.owner_label matches Some(o) && o@
            == owner)
}

pub proof fn lemma_topic_owner_partitioning(
    pre: Seq<(String, Topic)>,
    post: Seq<(String, Topic)>,
    rf: Seq<char>,
)
    requires
        rf.len() > 0,
        topic_cache_owned_by(pre, rf),
        forall|i: int|
            0 <= i < post.len() ==> pre.contains(#[trigger] post[i]) || (
            post[i].1.metadata.owner_label matches Some(o) && o@ == rf),
    ensures
        topic_cache_owned_by(post, rf),
{
    assert forall|i: int|
        0 <= i < post.len() implies ((#[trigger] post[i]).1.metadata.owner_label matches Some(o)
        && o@ == rf) by {
        if pre.contains(post[i]) {
            let j = choose|j: int| 0 <= j < pre.len() && pre[j] == post[i];
            assert(pre[j].1.metadata.owner_label matches Some(o) && o@ == rf);
        }
    }
}

} // verus!
