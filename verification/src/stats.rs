//! Broker statistics caches and the pure part of the status pollers.
//!
//! Each poller tick lists every destination on the broker, records the
//! snapshot here, and — unless the operator is read-only — selects which
//! cached custom resources need their status subresource rewritten.

use vstd::prelude::*;
use crate::assoc::{assoc_get, assoc_get_ref, assoc_index_of, assoc_set, unique_keys};
use crate::queue::{Queue, QueueStatus};
use crate::topic::{Topic, TopicStatus};

verus! {

/// One queue's statistics as listed by the broker.
pub struct QueueMetrics {
    pub name: String,
    pub pending_messages: i64,
    pub consumer_count: i32,
    pub outgoing_total_count: i64,
}

/// One topic's statistics as listed by the broker.
pub struct TopicMetrics {
    pub name: String,
    pub pending_messages: i64,
    pub subscriber_count: i32,
    pub durable_count: i32,
}

impl QueueMetrics {
    /// Clones preserve the value exactly.
    pub fn duplicate(&self) -> (r: QueueMetrics)
        ensures
            r == *self,
    {
        QueueMetrics {
            name: self.name.clone(),
            pending_messages: self.pending_messages,
            consumer_count: self.consumer_count,
            outgoing_total_count: self.outgoing_total_count,
        }
    }
}

impl TopicMetrics {
    /// Clones preserve the value exactly.
    pub fn duplicate(&self) -> (r: TopicMetrics)
        ensures
            r == *self,
    {
        TopicMetrics {
            name: self.name.clone(),
            pending_messages: self.pending_messages,
            subscriber_count: self.subscriber_count,
            durable_count: self.durable_count,
        }
    }
}

/// All queues the broker reported, keyed by destination name. Pollers
/// overwrite entries on every tick.
pub struct QueueStatsCache {
    pub entries: Vec<(String, QueueMetrics)>,
}

/// All topics the broker reported, keyed by destination name.
pub struct TopicStatsCache {
    pub entries: Vec<(String, TopicMetrics)>,
}

impl QueueStatsCache {
    /// Keys are unique and each entry is keyed by its own destination name.
    pub open spec fn wf(self) -> bool {
        &&& unique_keys(self.entries@)
        &&& forall|i: int|
            0 <= i < self.entries@.len() ==> (#[trigger] self.entries@[i]).1.name@
                == self.entries@[i].0@
    }

    pub fn new() -> (r: QueueStatsCache)
        ensures
            r.wf(),
            r.entries@.len() == 0,
    {
        QueueStatsCache { entries: Vec::new() }
    }

    /// Record one listed queue, replacing any previous snapshot of it.
    pub fn record(&mut self, info: QueueMetrics)
        requires
            old(self).wf(),
        ensures
            final(self).wf(),
            forall|k: Seq<char>| #[trigger] assoc_get(final(self).entries@, k) == if k
                == info.name@ {
                Some(info)
            } else {
                assoc_get(old(self).entries@, k)
            },
    {
        let key = info.name.clone();
        assoc_set(&mut self.entries, key, info);
        proof {
            assert forall|i: int| 0 <= i < self.entries@.len() implies (
            #[trigger] self.entries@[i]).1.name@ == self.entries@[i].0@ by {
                if !old(self).entries@.contains(self.entries@[i]) {
                    assert(self.entries@[i].1 == info);
                }
            }
        }
    }

    pub fn find(&self, name: &String) -> (r: Option<&QueueMetrics>)
        ensures
            match r {
                Some(m) => assoc_get(self.entries@, name@) == Some(*m),
                None => assoc_get(self.entries@, name@) is None,
            },
    {
        assoc_get_ref(&self.entries, name)
    }

    pub fn contains(&self, name: &String) -> (r: bool)
        ensures
            r == (assoc_get(self.entries@, name@) is Some),
    {
        crate::assoc::assoc_contains(&self.entries, name)
    }
}

impl TopicStatsCache {
    /// Keys are unique and each entry is keyed by its own destination name.
    pub open spec fn wf(self) -> bool {
        &&& unique_keys(self.entries@)
        &&& forall|i: int|
            0 <= i < self.entries@.len() ==> (#[trigger] self.entries@[i]).1.name@
                == self.entries@[i].0@
    }

    pub fn new() -> (r: TopicStatsCache)
        ensures
            r.wf(),
            r.entries@.len() == 0,
    {
        TopicStatsCache { entries: Vec::new() }
    }

    /// Record one listed topic, replacing any previous snapshot of it.
    pub fn record(&mut self, info: TopicMetrics)
        requires
            old(self).wf(),
        ensures
            final(self).wf(),
            forall|k: Seq<char>| #[trigger] assoc_get(final(self).entries@, k) == if k
                == info.name@ {
                Some(info)
            } else {
                assoc_get(old(self).entries@, k)
            },
    {
        let key = info.name.clone();
        assoc_set(&mut self.entries, key, info);
        proof {
            assert forall|i: int| 0 <= i < self.entries@.len() implies (
            #[trigger] self.entries@[i]).1.name@ == self.entries@[i].0@ by {
                if !old(self).entries@.contains(self.entries@[i]) {
                    assert(self.entries@[i].1 == info);
                }
            }
        }
    }

    pub fn find(&self, name: &String) -> (r: Option<&TopicMetrics>)
        ensures
            match r {
                Some(m) => assoc_get(self.entries@, name@) == Some(*m),
                None => assoc_get(self.entries@, name@) is None,
            },
    {
        assoc_get_ref(&self.entries, name)
    }

    pub fn contains(&self, name: &String) -> (r: bool)
        ensures
            r == (assoc_get(self.entries@, name@) is Some),
    {
        crate::assoc::assoc_contains(&self.entries, name)
    }
}

/// The cached resource after taking over a fresh statistics snapshot.
pub open spec fn queue_with_status(q: Queue, info: QueueMetrics) -> Queue {
    Queue {
        metadata: q.metadata,
        spec: q.spec,
        status: Some(
            QueueStatus {
                pendingMessages: info.pending_messages,
                consumerCount: info.consumer_count,
            },
        ),
    }
}

/// Whether a cached queue's status disagrees with the fresh snapshot.
pub open spec fn queue_status_stale(q: Queue, info: QueueMetrics) -> bool {
    match q.status {
        Some(st) => st.pendingMessages != info.pending_messages || st.consumerCount
            != info.consumer_count,
        None => true,
    }
}

/// Per-destination step of a queue poller tick: if the operator owns the
/// destination and the cached status disagrees with the snapshot, refresh
/// the cache entry and hand back the updated resource for status writeback.
pub fn process_queue_info(
    known: &mut Vec<(String, Queue)>,
    info: &QueueMetrics,
    read_only: bool,
) -> (r: Option<Queue>)
    requires
        unique_keys(old(known)@),
    ensures
        unique_keys(final(known)@),
        match assoc_get(old(known)@, info.name@) {
            Some(q) => {
                if !read_only && queue_status_stale(q, *info) {
                    &&& r == Some(queue_with_status(q, *info))
                    &&& forall|k: Seq<char>| #[trigger] assoc_get(final(known)@, k) == if k
                        == info.name@ {
                        Some(queue_with_status(q, *info))
                    } else {
                        assoc_get(old(known)@, k)
                    }
                } else {
                    r is None && final(known)@ == old(known)@
                }
            },
            None => r is None && final(known)@ == old(known)@,
        },
{
    if read_only {
        return None;
    }
    match assoc_index_of(known, &info.name) {
        None => None,
        Some(i) => {
            let stale = match &known[i].1.status {
                Some(st) => st.pendingMessages != info.pending_messages || st.consumerCount
                    != info.consumer_count,
                None => true,
            };
            if stale {
                let mut updated = known[i].1.duplicate();
                updated.status = Some(
                    QueueStatus {
                        pendingMessages: info.pending_messages,
                        consumerCount: info.consumer_count,
                    },
                );
                let back = updated.duplicate();
                assoc_set(known, info.name.clone(), updated);
                Some(back)
            } else {
                None
            }
        },
    }
}

/// The cached resource after taking over a fresh statistics snapshot.
pub open spec fn topic_with_status(t: Topic, info: TopicMetrics) -> Topic {
    Topic {
        metadata: t.metadata,
        spec: t.spec,
        status: Some(
            TopicStatus {
                pendingMessages: info.pending_messages,
                subscribers: info.subscriber_count,
                durables: info.durable_count,
            },
        ),
    }
}

/// Whether a cached topic's status disagrees with the fresh snapshot.
pub open spec fn topic_status_stale(t: Topic, info: TopicMetrics) -> bool {
    match t.status {
        Some(st) => st.pendingMessages != info.pending_messages || st.subscribers
            != info.subscriber_count || st.durables != info.durable_count,
        None => true,
    }
}

/// Per-destination step of a topic poller tick.
pub fn process_topic_info(
    known: &mut Vec<(String, Topic)>,
    info: &TopicMetrics,
    read_only: bool,
) -> (r: Option<Topic>)
    requires
        unique_keys(old(known)@),
    ensures
        unique_keys(final(known)@),
        match assoc_get(old(known)@, info.name@) {
            Some(t) => {
                if !read_only && topic_status_stale(t, *info) {
                    &&& r == Some(topic_with_status(t, *info))
                    &&& forall|k: Seq<char>| #[trigger] assoc_get(final(known)@, k) == if k
                        == info.name@ {
                        Some(topic_with_status(t, *info))
                    } else {
                        assoc_get(old(known)@, k)
                    }
                } else {
                    r is None && final(known)@ == old(known)@
                }
            },
            None => r is None && final(known)@ == old(known)@,
        },
{
    if read_only {
        return None;
    }
    match assoc_index_of(known, &info.name) {
        None => None,
        Some(i) => {
            let stale = match &known[i].1.status {
                Some(st) => st.pendingMessages != info.pending_messages || st.subscribers
                    != info.subscriber_count || st.durables != info.durable_count,
                None => true,
            };
            if stale {
                let mut updated = known[i].1.duplicate();
                updated.status = Some(
                    TopicStatus {
                        pendingMessages: info.pending_messages,
                        subscribers: info.subscriber_count,
                        durables: info.durable_count,
                    },
                );
                let back = updated.duplicate();
                assoc_set(known, info.name.clone(), updated);
                Some(back)
            } else {
                None
            }
        },
    }
}

} // verus!
