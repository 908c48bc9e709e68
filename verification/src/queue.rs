//! Queue custom resources: the declarative spec, the derived broker-side
//! name, the administrative create request, default propagation, and the
//! watch-event dispatcher that keeps the cache of known queues and the
//! broker consistent.

use vstd::prelude::*;
use crate::assoc::{assoc_contains, assoc_get, assoc_has, assoc_remove, assoc_set, unique_keys};
use crate::text::{ascii_uppercase, clone_opt_string, spec_ascii_upper};
use crate::watch::{check_responsibility, spec_responsible, ResourceMeta, WatchedEvent};

verus! {

/// Declarative queue configuration, as authored in the custom resource.
#[allow(non_snake_case)]
pub struct QueueSpec {
    pub name: Option<String>,
    pub expiration: Option<u32>,
    pub global: Option<bool>,
    pub maxbytes: Option<i64>,
    pub maxmsgs: Option<i64>,
    pub maxRedelivery: Option<u32>,
    pub overflowPolicy: Option<u8>,
    pub prefetch: Option<u32>,
    pub redeliveryDelay: Option<u32>,
}

/// Broker statistics written back to the resource's status subresource.
#[allow(non_snake_case)]
#[derive(Clone, Copy)]
pub struct QueueStatus {
    pub pendingMessages: i64,
    pub consumerCount: i32,
}

/// A queue custom resource.
pub struct Queue {
    pub metadata: ResourceMeta,
    pub spec: QueueSpec,
    pub status: Option<QueueStatus>,
}

/// The administrative create call sent to the broker for a queue.
pub struct QueueCreateRequest {
    pub name: String,
    pub max_bytes: Option<i64>,
    pub max_messages: Option<i64>,
    pub global: Option<bool>,
    pub expiry_override: Option<i64>,
    pub prefetch: Option<i32>,
}

/// Broker-side name of a queue: the spec name verbatim when present,
/// otherwise the object name upper-cased.
pub open spec fn spec_queue_name(q: Queue) -> Seq<char> {
    match q.spec.name {
        Some(n) => n@,
        None => match q.metadata.name {
            Some(n) => spec_ascii_upper(n@),
            None => Seq::empty(),
        },
    }
}

pub fn get_queue_name(queue: &Queue) -> (r: String)
    ensures
        r@ == spec_queue_name(*queue),
{
    match &queue.spec.name {
        Some(n) => n.clone(),
        None => match &queue.metadata.name {
            Some(n) => ascii_uppercase(n.as_str()),
            None => String::new(),
        },
    }
}

/// The Kubernetes object name, which stays the object's identity whatever
/// broker-side name is derived.
pub fn get_obj_name_from_queue(queue: &Queue) -> (r: String)
    requires
        queue.metadata.name is Some,
    ensures
        queue.metadata.name == Some(r),
{
    match &queue.metadata.name {
        Some(n) => n.clone(),
        None => unreached(),
    }
}

impl QueueSpec {
    /// Clones preserve the value exactly.
    pub fn duplicate(&self) -> (r: QueueSpec)
        ensures
            r == *self,
    {
        QueueSpec {
            name: clone_opt_string(&self.name),
            expiration: self.expiration,
            global: self.global,
            maxbytes: self.maxbytes,
            maxmsgs: self.maxmsgs,
            maxRedelivery: self.maxRedelivery,
            overflowPolicy: self.overflowPolicy,
            prefetch: self.prefetch,
            redeliveryDelay: self.redeliveryDelay,
        }
    }
}

impl Queue {
    /// Clones preserve the value exactly.
    pub fn duplicate(&self) -> (r: Queue)
        ensures
            r == *self,
    {
        Queue { metadata: self.metadata.duplicate(), spec: self.spec.duplicate(), status: self.status }
    }
}

/// Field mapping from the resource spec to the broker create request.
pub open spec fn queue_request_matches(req: QueueCreateRequest, q: Queue) -> bool {
    &&& req.name@ == spec_queue_name(q)
    &&& req.max_bytes == q.spec.maxbytes
    &&& req.max_messages == q.spec.maxmsgs
    &&& req.global == q.spec.global
    &&& req.expiry_override == (match q.spec.expiration {
        Some(v) => Some(v as i64),
        None => None::<i64>,
    })
    &&& req.prefetch == (match q.spec.prefetch {
        Some(v) => Some(v as i32),
        None => None::<i32>,
    })
}

pub fn queue_create_request(queue: &Queue) -> (r: QueueCreateRequest)
    ensures
        queue_request_matches(r, *queue),
{
    QueueCreateRequest {
        name: get_queue_name(queue),
        max_bytes: queue.spec.maxbytes,
        max_messages: queue.spec.maxmsgs,
        global: queue.spec.global,
        expiry_override: match queue.spec.expiration {
            Some(v) => Some(v as i64),
            None => None,
        },
        prefetch: match queue.spec.prefetch {
            Some(v) => Some(#[verifier::truncate] (v as i32)),
            None => None,
        },
    }
}

/// The resource as it is cached after a successful create: every unset
/// optional scalar filled with its zero equivalent and a zero-valued status
/// attached.
pub open spec fn queue_with_defaults(q: Queue) -> Queue {
    Queue {
        metadata: q.metadata,
        spec: QueueSpec {
            name: q.spec.name,
            expiration: if q.spec.expiration is None {
                Some(0u32)
            } else {
                q.spec.expiration
            },
            global: Some(false),
            maxbytes: Some(0i64),
            maxmsgs: if q.spec.maxmsgs is None {
                Some(0i64)
            } else {
                q.spec.maxmsgs
            },
            maxRedelivery: Some(0u32),
            overflowPolicy: Some(0u8),
            prefetch: if q.spec.prefetch is None {
                Some(0u32)
            } else {
                q.spec.prefetch
            },
            redeliveryDelay: Some(0u32),
        },
        status: Some(QueueStatus { pendingMessages: 0, consumerCount: 0 }),
    }
}

/// After default propagation no optional scalar is left unset: each keeps
/// its authored value or receives its zero equivalent, and a zero-valued
/// status is attached. The cache and the status writeback only ever hold
/// resources in this form.
pub proof fn lemma_default_propagation(q: Queue)
    ensures
        queue_with_defaults(q).spec.expiration == (if q.spec.expiration is Some {
            q.spec.expiration
        } else {
            Some(0u32)
        }),
        queue_with_defaults(q).spec.maxmsgs == (if q.spec.maxmsgs is Some {
            q.spec.maxmsgs
        } else {
            Some(0i64)
        }),
        queue_with_defaults(q).spec.prefetch == (if q.spec.prefetch is Some {
            q.spec.prefetch
        } else {
            Some(0u32)
        }),
        queue_with_defaults(q).spec.global == Some(false),
        queue_with_defaults(q).spec.maxbytes == Some(0i64),
        queue_with_defaults(q).spec.overflowPolicy == Some(0u8),
        queue_with_defaults(q).spec.redeliveryDelay == Some(0u32),
        queue_with_defaults(q).spec.maxRedelivery == Some(0u32),
        queue_with_defaults(q).status == Some(
            QueueStatus { pendingMessages: 0, consumerCount: 0 },
        ),
        queue_with_defaults(q).spec.name == q.spec.name,
        queue_with_defaults(q).metadata == q.metadata,
{
}

/// Fill unset optionals with zero equivalents and attach a zero status.
pub fn propagate_queue_defaults(queue: &mut Queue)
    ensures
        *final(queue) == queue_with_defaults(*old(queue)),
{
    if queue.spec.maxmsgs.is_none() {
        queue.spec.maxmsgs = Some(0);
    }
    if queue.spec.expiration.is_none() {
        queue.spec.expiration = Some(0);
    }
    queue.spec.overflowPolicy = Some(0);
    if queue.spec.prefetch.is_none() {
        queue.spec.prefetch = Some(0);
    }
    queue.spec.global = Some(false);
    queue.spec.maxbytes = Some(0);
    queue.spec.redeliveryDelay = Some(0);
    queue.spec.maxRedelivery = Some(0);
    queue.status = Some(QueueStatus { pendingMessages: 0, consumerCount: 0 });
}

/// Administrative operations requested by one dispatched queue event, to be
/// carried out against the broker and the status subresource.
pub struct QueueReconcileEffects {
    pub create: Option<QueueCreateRequest>,
    pub delete: Option<String>,
    pub status_write: Option<Queue>,
}

/// Events carrying an object must carry its resource version; the watch
/// protocol attaches one to every object it delivers.
pub open spec fn queue_event_rv_present(event: WatchedEvent<Queue>) -> bool {
    match event {
        WatchedEvent::Added(q) => q.metadata.resource_version is Some,
        WatchedEvent::Modified(q) => q.metadata.resource_version is Some,
        WatchedEvent::Deleted(q) => q.metadata.resource_version is Some,
        _ => true,
    }
}

/// Cache effect of an `Added` event: a first observation is stored with its
/// defaults propagated, a repeated or foreign one changes nothing.
pub open spec fn queue_added_cache_change(
    pre: Seq<(String, Queue)>,
    post: Seq<(String, Queue)>,
    q: Queue,
    rf: Seq<char>,
) -> bool {
    let k = spec_queue_name(q);
    if spec_responsible(q.metadata.owner_label, rf) && !assoc_has(pre, k) {
        &&& assoc_get(post, k) == Some(queue_with_defaults(q))
        &&& forall|k2: Seq<char>| k2 != k ==> assoc_get(post, k2) == assoc_get(pre, k2)
    } else {
        post == pre
    }
}

/// Cache effect of a `Deleted` event: the entry leaves the cache whether or
/// not the broker-side delete is suppressed.
pub open spec fn queue_deleted_cache_change(
    pre: Seq<(String, Queue)>,
    post: Seq<(String, Queue)>,
    q: Queue,
    rf: Seq<char>,
) -> bool {
    let k = spec_queue_name(q);
    if spec_responsible(q.metadata.owner_label, rf) {
        &&& assoc_get(post, k) is None
        &&& forall|k2: Seq<char>| k2 != k ==> assoc_get(post, k2) == assoc_get(pre, k2)
    } else {
        post == pre
    }
}

/// Dispatch one watch event for queues.
///
/// `Added` creates the destination once per cached entry and writes a
/// default status back when the object had none; `Modified` re-sends the
/// create, which the broker treats as idempotent; `Deleted` removes the
/// cache entry and, unless deletes are switched off, the destination;
/// watch errors rewind the cursor to a full refresh.
pub fn handle_queue_event(
    known: &mut Vec<(String, Queue)>,
    last_version: &mut String,
    do_not_delete: bool,
    responsible_for: &String,
    event: WatchedEvent<Queue>,
) -> (out: QueueReconcileEffects)
    requires
        unique_keys(old(known)@),
        queue_event_rv_present(event),
    ensures
        unique_keys(final(known)@),
        responsible_for@.len() > 0 ==> forall|i: int|
            0 <= i < final(known)@.len() ==> old(known)@.contains(#[trigger] final(known)@[i]) || (
            final(known)@[i].1.metadata.owner_label matches Some(o) && o@ == responsible_for@),
        match event {
            WatchedEvent::Added(q) => {
                let k = spec_queue_name(q);
                let fresh = spec_responsible(q.metadata.owner_label, responsible_for@)
                    && !assoc_has(old(known)@, k);
                &&& q.metadata.resource_version matches Some(rv) && final(last_version)@ == rv@
                &&& out.delete is None
                &&& queue_added_cache_change(old(known)@, final(known)@, q, responsible_for@)
                &&& if fresh {
                    &&& out.create matches Some(req) && queue_request_matches(req, q)
                    &&& out.status_write == (if q.status is None {
                        Some(queue_with_defaults(q))
                    } else {
                        None::<Queue>
                    })
                } else {
                    out.create is None && out.status_write is None
                }
            },
            WatchedEvent::Modified(q) => {
                &&& q.metadata.resource_version matches Some(rv) && final(last_version)@ == rv@
                &&& final(known)@ == old(known)@
                &&& out.delete is None
                &&& out.status_write is None
                &&& if spec_responsible(q.metadata.owner_label, responsible_for@) {
                    out.create matches Some(req) && queue_request_matches(req, q)
                } else {
                    out.create is None
                }
            },
            WatchedEvent::Deleted(q) => {
                let k = spec_queue_name(q);
                &&& q.metadata.resource_version matches Some(rv) && final(last_version)@ == rv@
                &&& out.create is None
                &&& out.status_write is None
                &&& queue_deleted_cache_change(old(known)@, final(known)@, q, responsible_for@)
                &&& if spec_responsible(q.metadata.owner_label, responsible_for@) && !do_not_delete {
                    out.delete matches Some(n) && n@ == k
                } else {
                    out.delete is None
                }
            },
            WatchedEvent::ErrorStatus(_) => {
                &&& final(last_version)@ == "0"@
                &&& final(known)@ == old(known)@
                &&& out.create is None
                &&& out.delete is None
                &&& out.status_write is None
            },
            WatchedEvent::Other => {
                &&& *final(last_version) == *old(last_version)
                &&& final(known)@ == old(known)@
                &&& out.create is None
                &&& out.delete is None
                &&& out.status_write is None
            },
        },
{
    match event {
        WatchedEvent::Added(mut q) => {
            let rv = match &q.metadata.resource_version {
                Some(v) => v.clone(),
                None => unreached(),
            };
            let responsible = check_responsibility(&q.metadata, responsible_for);
            let qname = get_queue_name(&q);
            let mut out = QueueReconcileEffects { create: None, delete: None, status_write: None };
            if responsible && !assoc_contains(known, &qname) {
                let had_status = q.status.is_some();
                out.create = Some(queue_create_request(&q));
                propagate_queue_defaults(&mut q);
                if !had_status {
                    out.status_write = Some(q.duplicate());
                }
                assoc_set(known, qname, q);
            }
            *last_version = rv;
            out
        },
        WatchedEvent::Modified(q) => {
            let rv = match &q.metadata.resource_version {
                Some(v) => v.clone(),
                None => unreached(),
            };
            let responsible = check_responsibility(&q.metadata, responsible_for);
            let create = if responsible {
                Some(queue_create_request(&q))
            } else {
                None
            };
            *last_version = rv;
            QueueReconcileEffects { create, delete: None, status_write: None }
        },
        WatchedEvent::Deleted(q) => {
            let rv = match &q.metadata.resource_version {
                Some(v) => v.clone(),
                None => unreached(),
            };
            let responsible = check_responsibility(&q.metadata, responsible_for);
            let qname = get_queue_name(&q);
            let mut out = QueueReconcileEffects { create: None, delete: None, status_write: None };
            if responsible {
                if !do_not_delete {
                    out.delete = Some(qname.clone());
                }
                assoc_remove(known, &qname);
            }
            *last_version = rv;
            out
        },
        WatchedEvent::ErrorStatus(_) => {
            *last_version = String::from_str("0");
            QueueReconcileEffects { create: None, delete: None, status_write: None }
        },
        WatchedEvent::Other => {
            QueueReconcileEffects { create: None, delete: None, status_write: None }
        },
    }
}

/// Once a queue's entry is in the cache, any further `Added` event for the
/// same broker-side name emits no create: over a run of `Added` events for
/// one name, the create is submitted exactly once, at the first observation
/// of a name not yet cached.
pub proof fn lemma_idempotent_queue_create(
    caches: Seq<Seq<(String, Queue)>>,
    events: Seq<Queue>,
    created: Seq<bool>,
    name: Seq<char>,
    rf: Seq<char>,
)
    requires
        caches.len() == events.len() + 1,
        created.len() == events.len(),
        forall|i: int| 0 <= i < events.len() ==> spec_queue_name(#[trigger] events[i]) == name,
        forall|i: int|
            0 <= i < events.len() ==> spec_responsible(#[trigger] events[i].metadata.owner_label, rf),
        forall|i: int|
            0 <= i < events.len() ==> queue_added_cache_change(
                #[trigger] caches[i],
                caches[i + 1],
                events[i],
                rf,
            ),
        forall|i: int|
            0 <= i < events.len() ==> created[i] == !assoc_has(#[trigger] caches[i], name),
    ensures
        forall|i: int|
            0 <= i < created.len() ==> created[i] == (i == 0 && !assoc_has(caches[0], name)),
{
    assert forall|i: int| 0 < i < created.len() implies !created[i] by {
        assert(queue_added_cache_change(caches[i - 1], caches[i], events[i - 1], rf));
        assert(assoc_has(caches[i], name));
    }
}

/// Every cached queue belongs to this operator instance's partition: an
/// instance with a non-empty `RESPONSIBLE_FOR` tag never caches a resource
/// whose owner label differs from the tag.
pub open spec fn queue_cache_owned_by(s: Seq<(String, Queue)>, owner: Seq<char>) -> bool {
    forall|i: int|
        0 <= i < s.len() ==> ((#[trigger] s[i]).1.metadata.owner_label matches Some(o) && o@
            == owner)
}

pub proof fn lemma_queue_owner_partitioning(
    pre: Seq<(String, Queue)>,
    post: Seq<(String, Queue)>,
    rf: Seq<char>,
)
    requires
        rf.len() > 0,
        queue_cache_owned_by(pre, rf),
        forall|i: int|
            0 <= i < post.len() ==> pre.contains(#[trigger] post[i]) || (
            post[i].1.metadata.owner_label matches Some(o) && o@ == rf),
    ensures
        queue_cache_owned_by(post, rf),
{
    assert forall|i: int|
        0 <= i < post.len() implies (#[trigger] post[i]).1.metadata.owner_label matches Some(o)
        && o@ == rf by {
        if pre.contains(post[i]) {
            let j = choose|j: int| 0 <= j < pre.len() && pre[j] == post[i];
            assert(pre[j].1.metadata.owner_label matches Some(o) && o@ == rf);
        }
    }
}

} // verus!
