//! Bridge custom resources: the declarative spec, the broker-side bridge
//! description derived from it, and the watch-event dispatcher for bridges.

use vstd::prelude::*;
use crate::assoc::{assoc_contains, assoc_get, assoc_has, assoc_remove, assoc_set, unique_keys};
use crate::text::{clone_opt_string, upper_char};
use crate::watch::{check_responsibility, spec_responsible, ResourceMeta, WatchedEvent};
use vstd::string::StrSliceExecFns;

verus! {

/// Declarative bridge configuration, as authored in the custom resource.
pub struct BridgeSpec {
    pub source_type: String,
    pub source_name: String,
    pub target_type: String,
    pub target_name: String,
    pub selector: Option<String>,
}

/// A bridge custom resource. Bridges have no status subresource.
pub struct Bridge {
    pub metadata: ResourceMeta,
    pub spec: BridgeSpec,
}

/// A broker destination named by a bridge endpoint.
pub enum Destination {
    Queue(String),
    Topic(String),
}

/// The administrative call sent to the broker to create or delete a bridge.
pub struct BridgeCreateRequest {
    pub source: Destination,
    pub target: Destination,
    pub selector: Option<String>,
}

/// An endpoint type names a queue when its first character is `q` or `Q`,
/// a topic when it is `t` or `T`.
pub open spec fn type_tag_is(t: Seq<char>, tag: char) -> bool {
    t.len() > 0 && upper_char(t[0]) == tag
}

fn type_has_tag(t: &String, lower: char, upper: char) -> (r: bool)
    requires
        'A' <= upper && upper <= 'Z',
        lower == (((upper as u32) + 32) as char),
    ensures
        r == type_tag_is(t@, upper),
{
    let n = t.as_str().unicode_len();
    if n == 0 {
        return false;
    }
    let c = t.as_str().get_char(0);
    c == lower || c == upper
}

/// The bridge description sent to the broker: the source defaults to a
/// topic unless its type begins with `Q`, the target defaults to a queue
/// unless its type begins with `T`, and the selector is passed through.
pub open spec fn bridge_request_matches(req: BridgeCreateRequest, b: Bridge) -> bool {
    &&& if type_tag_is(b.spec.source_type@, 'Q') {
        req.source matches Destination::Queue(n) && n@ == b.spec.source_name@
    } else {
        req.source matches Destination::Topic(n) && n@ == b.spec.source_name@
    }
    &&& if type_tag_is(b.spec.target_type@, 'T') {
        req.target matches Destination::Topic(n) && n@ == b.spec.target_name@
    } else {
        req.target matches Destination::Queue(n) && n@ == b.spec.target_name@
    }
    &&& req.selector == b.spec.selector
}

pub fn create_bridge_object(bridge: &Bridge) -> (r: BridgeCreateRequest)
    ensures
        bridge_request_matches(r, *bridge),
{
    let source = if type_has_tag(&bridge.spec.source_type, 'q', 'Q') {
        Destination::Queue(bridge.spec.source_name.clone())
    } else {
        Destination::Topic(bridge.spec.source_name.clone())
    };
    let target = if type_has_tag(&bridge.spec.target_type, 't', 'T') {
        Destination::Topic(bridge.spec.target_name.clone())
    } else {
        Destination::Queue(bridge.spec.target_name.clone())
    };
    BridgeCreateRequest { source, target, selector: clone_opt_string(&bridge.spec.selector) }
}

impl BridgeSpec {
    /// Clones preserve the value exactly.
    pub fn duplicate(&self) -> (r: BridgeSpec)
        ensures
            r == *self,
    {
        BridgeSpec {
            source_type: self.source_type.clone(),
            source_name: self.source_name.clone(),
            target_type: self.target_type.clone(),
            target_name: self.target_name.clone(),
            selector: clone_opt_string(&self.selector),
        }
    }
}

impl Bridge {
    /// Clones preserve the value exactly.
    pub fn duplicate(&self) -> (r: Bridge)
        ensures
            r == *self,
    {
        Bridge { metadata: self.metadata.duplicate(), spec: self.spec.duplicate() }
    }
}

/// Administrative operations requested by one dispatched bridge event.
/// Deleting a bridge passes the same description as creating it.
pub struct BridgeReconcileEffects {
    pub create: Option<BridgeCreateRequest>,
    pub delete: Option<BridgeCreateRequest>,
}

/// Events carrying an object must carry its object name and its resource
/// version; bridges are cached under their Kubernetes object name.
pub open spec fn bridge_event_well_formed(event: WatchedEvent<Bridge>) -> bool {
    match event {
        WatchedEvent::Added(b) => b.metadata.resource_version is Some && b.metadata.name is Some,
        WatchedEvent::Modified(b) => b.metadata.resource_version is Some,
        WatchedEvent::Deleted(b) => b.metadata.resource_version is Some && b.metadata.name is Some,
        _ => true,
    }
}

/// Cache effect of an `Added` event: a first observation is stored as it
/// arrived, a repeated or foreign one changes nothing.
pub open spec fn bridge_added_cache_change(
    pre: Seq<(String, Bridge)>,
    post: Seq<(String, Bridge)>,
    b: Bridge,
    rf: Seq<char>,
) -> bool {
    let k = b.metadata.name.unwrap()@;
    if spec_responsible(b.metadata.owner_label, rf) && !assoc_has(pre, k) {
        &&& assoc_get(post, k) == Some(b)
        &&& forall|k2: Seq<char>| k2 != k ==> assoc_get(post, k2) == assoc_get(pre, k2)
    } else {
        post == pre
    }
}

/// Cache effect of a `Deleted` event.
pub open spec fn bridge_deleted_cache_change(
    pre: Seq<(String, Bridge)>,
    post: Seq<(String, Bridge)>,
    b: Bridge,
    rf: Seq<char>,
) -> bool {
    let k = b.metadata.name.unwrap()@;
    if spec_responsible(b.metadata.owner_label, rf) {
        &&& assoc_get(post, k) is None
        &&& forall|k2: Seq<char>| k2 != k ==> assoc_get(post, k2) == assoc_get(pre, k2)
    } else {
        post == pre
    }
}

/// Dispatch one watch event for bridges. `Modified` re-sends the create
/// without a prior delete; the broker treats the recreate as idempotent.
pub fn handle_bridge_event(
    known: &mut Vec<(String, Bridge)>,
    last_version: &mut String,
    do_not_delete: bool,
    responsible_for: &String,
    event: WatchedEvent<Bridge>,
) -> (out: BridgeReconcileEffects)
    requires
        unique_keys(old(known)@),
        bridge_event_well_formed(event),
    ensures
        unique_keys(final(known)@),
        responsible_for@.len() > 0 ==> forall|i: int|
            0 <= i < final(known)@.len() ==> old(known)@.contains(#[trigger] final(known)@[i]) || (
            final(known)@[i].1.metadata.owner_label matches Some(o) && o@ == responsible_for@),
        match event {
            WatchedEvent::Added(b) => {
                let fresh = spec_responsible(b.metadata.owner_label, responsible_for@)
                    && !assoc_has(old(known)@, b.metadata.name.unwrap()@);
                &&& b.metadata.resource_version matches Some(rv) && final(last_version)@ == rv@
                &&& out.delete is None
                &&& bridge_added_cache_change(old(known)@, final(known)@, b, responsible_for@)
                &&& if fresh {
                    out.create matches Some(req) && bridge_request_matches(req, b)
                } else {
                    out.create is None
                }
            },
            WatchedEvent::Modified(b) => {
                &&& b.metadata.resource_version matches Some(rv) && final(last_version)@ == rv@
                &&& final(known)@ == old(known)@
                &&& out.delete is None
                &&& if spec_responsible(b.metadata.owner_label, responsible_for@) {
                    out.create matches Some(req) && bridge_request_matches(req, b)
                } else {
                    out.create is None
                }
            },
            WatchedEvent::Deleted(b) => {
                &&& b.metadata.resource_version matches Some(rv) && final(last_version)@ == rv@
                &&& out.create is None
                &&& bridge_deleted_cache_change(old(known)@, final(known)@, b, responsible_for@)
                &&& if spec_responsible(b.metadata.owner_label, responsible_for@) && !do_not_delete {
                    out.delete matches Some(req) && bridge_request_matches(req, b)
                } else {
                    out.delete is None
                }
            },
            WatchedEvent::ErrorStatus(_) => {
                &&& final(last_version)@ == "0"@
                &&& final(known)@ == old(known)@
                &&& out.create is None
                &&& out.delete is None
            },
            WatchedEvent::Other => {
                &&& *final(last_version) == *old(last_version)
                &&& final(known)@ == old(known)@
                &&& out.create is None
                &&& out.delete is None
            },
        },
{
    match event {
        WatchedEvent::Added(b) => {
            let rv = match &b.metadata.resource_version {
                Some(v) => v.clone(),
                None => unreached(),
            };
            let responsible = check_responsibility(&b.metadata, responsible_for);
            let bname = match &b.metadata.name {
                Some(n) => n.clone(),
                None => unreached(),
            };
            let mut out = BridgeReconcileEffects { create: None, delete: None };
            if responsible && !assoc_contains(known, &bname) {
                out.create = Some(create_bridge_object(&b));
                assoc_set(known, bname, b);
            }
            *last_version = rv;
            out
        },
        WatchedEvent::Modified(b) => {
            let rv = match &b.metadata.resource_version {
                Some(v) => v.clone(),
                None => unreached(),
            };
            let responsible = check_responsibility(&b.metadata, responsible_for);
            let create = if responsible {
                Some(create_bridge_object(&b))
            } else {
                None
            };
            *last_version = rv;
            BridgeReconcileEffects { create, delete: None }
        },
        WatchedEvent::Deleted(b) => {
            let rv = match &b.metadata.resource_version {
                Some(v) => v.clone(),
                None => unreached(),
            };
            let responsible = check_responsibility(&b.metadata, responsible_for);
            let bname = match &b.metadata.name {
                Some(n) => n.clone(),
                None => unreached(),
            };
            let mut out = BridgeReconcileEffects { create: None, delete: None };
            if responsible {
                if !do_not_delete {
                    out.delete = Some(create_bridge_object(&b));
                }
                assoc_remove(known, &bname);
            }
            *last_version = rv;
            out
        },
        WatchedEvent::ErrorStatus(_) => {
            *last_version = String::from_str("0");
            BridgeReconcileEffects { create: None, delete: None }
        },
        WatchedEvent::Other => {
            BridgeReconcileEffects { create: None, delete: None }
        },
    }
}

/// Every cached bridge belongs to this operator instance's partition.
pub open spec fn bridge_cache_owned_by(s: Seq<(String, Bridge)>, owner: Seq<char>) -> bool {
    forall|i: int|
        0 <= i < s.len() ==> ((#[trigger] s[i]).1.metadata.owner_label matches Some(o) && o@
            == owner)
}

pub proof fn lemma_bridge_owner_partitioning(
    pre: Seq<(String, Bridge)>,
    post: Seq<(String, Bridge)>,
    rf: Seq<char>,
)
    requires
        rf.len() > 0,
        bridge_cache_owned_by(pre, rf),
        forall|i: int|
            0 <= i < post.len() ==> pre.contains(#[trigger] post[i]) || (
            post[i].1.metadata.owner_label matches Some(o) && o@ == rf),
    ensures
        bridge_cache_owned_by(post, rf),
{
    assert forall|i: int|
        0 <= i < post.len() implies ((#[trigger] post[i]).1.metadata.owner_label matches Some(o)
        && o@ == rf) by {
        if pre.contains(post[i]) {
            let j = choose|j: int| 0 <= j < pre.len() && pre[j] == post[i];
            assert(pre[j].1.metadata.owner_label matches Some(o) && o@ == rf);
        }
    }
}

/// Once a bridge's entry is in the cache, any further `Added` event for the
/// same object name emits no create.
pub proof fn lemma_idempotent_bridge_create(
    caches: Seq<Seq<(String, Bridge)>>,
    events: Seq<Bridge>,
    created: Seq<bool>,
    name: Seq<char>,
    rf: Seq<char>,
)
    requires
        caches.len() == events.len() + 1,
        created.len() == events.len(),
        forall|i: int|
            0 <= i < events.len() ==> ((#[trigger] events[i]).metadata.name matches Some(n) && n@
                == name),
        forall|i: int|
            0 <= i < events.len() ==> spec_responsible(#[trigger] events[i].metadata.owner_label, rf),
        forall|i: int|
            0 <= i < events.len() ==> bridge_added_cache_change(
                #[trigger] caches[i],
                caches[i + 1],
                events[i],
                rf,
            ),
        forall|i: int|
            0 <= i < events.len() ==> created[i] == !assoc_has(#[trigger] caches[i], name),
    ensures
        forall|i: int|
            0 <= i < created.len() ==> created[i] == (i == 0 && !assoc_has(caches[0], name)),
{
    assert forall|i: int| 0 < i < created.len() implies !created[i] by {
        assert(bridge_added_cache_change(caches[i - 1], caches[i], events[i - 1], rf));
        assert(events[i - 1].metadata.name.unwrap()@ == name);
        assert(assoc_has(caches[i], name));
    }
}

} // verus!
