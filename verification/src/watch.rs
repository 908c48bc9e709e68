//! Watch events and ownership partitioning.
//!
//! Each reconciler consumes a stream of watch events for its resource kind
//! and keeps a resource-version cursor. The stream itself is outside I/O;
//! the event payloads arrive here as plain values.

use vstd::prelude::*;

verus! {

/// The part of a custom resource's object metadata that the operator reads.
pub struct ResourceMeta {
    /// Kubernetes object name.
    pub name: Option<String>,
    /// Watch cursor attached to the event's object.
    pub resource_version: Option<String>,
    /// Value of the `tibcoems.apimeister.com/owner` label, when present.
    pub owner_label: Option<String>,
}

/// A status message carried by a watch `Error` event.
pub struct WatchErrorInfo {
    pub code: i32,
    pub reason: String,
}

/// One event from a watch stream over resources of kind `T`.
pub enum WatchedEvent<T> {
    Added(T),
    Modified(T),
    Deleted(T),
    ErrorStatus(WatchErrorInfo),
    /// Bookmarks and other event kinds the operator ignores.
    Other,
}

impl ResourceMeta {
    /// Clones preserve the value exactly.
    pub fn duplicate(&self) -> (r: ResourceMeta)
        ensures
            r == *self,
    {
        ResourceMeta {
            name: match &self.name {
                Some(n) => Some(n.clone()),
                None => None,
            },
            resource_version: match &self.resource_version {
                Some(v) => Some(v.clone()),
                None => None,
            },
            owner_label: match &self.owner_label {
                Some(o) => Some(o.clone()),
                None => None,
            },
        }
    }
}

/// Whether this operator instance is responsible for an object, given the
/// `RESPONSIBLE_FOR` partition tag (empty when unset) and the object's owner
/// label: a named instance owns exactly the objects labelled with its tag,
/// and the unnamed instance owns exactly the unlabelled objects.
pub open spec fn spec_responsible(owner_label: Option<String>, responsible_for: Seq<char>) -> bool {
    if responsible_for.len() > 0 {
        match owner_label {
            Some(o) => o@ == responsible_for,
            None => false,
        }
    } else {
        owner_label is None
    }
}

pub fn check_responsibility(meta: &ResourceMeta, responsible_for: &String) -> (r: bool)
    ensures
        r == spec_responsible(meta.owner_label, responsible_for@),
{
    if responsible_for.as_str().is_empty() {
        match &meta.owner_label {
            Some(_) => false,
            None => true,
        }
    } else {
        match &meta.owner_label {
            Some(o) => *o == *responsible_for,
            None => false,
        }
    }
}

/// Whether a watch error is the silent resource-version expiry: code 410
/// with reason `Expired`. Every watch error rewinds the cursor to a full
/// refresh; this one does so without a logged complaint.
pub fn error_is_expiry(e: &WatchErrorInfo) -> (r: bool)
    ensures
        r == (e.code == 410 && e.reason@ == "Expired"@),
{
    let expired: String = String::from_str("Expired");
    e.code == 410 && e.reason == expired
}

} // verus!
