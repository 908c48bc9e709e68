//! Statistics queries: the computation behind the per-destination HTTP
//! endpoints. A requested name is percent-decoded; a name containing `|`
//! asks for the aggregate over the listed destinations, any other name for
//! that destination's snapshot, zero-valued when the broker has none.

use vstd::prelude::*;
use vstd::string::{StrSliceExecFns, StringExecFns, StringSliceAdditionalSpecFns};
use vstd::utf8::{decode_utf8, valid_utf8};
use crate::assoc::assoc_get;
use crate::stats::{QueueMetrics, QueueStatsCache, TopicMetrics, TopicStatsCache};
use crate::text::strings_view;

verus! {

/// An ASCII hexadecimal digit, as a byte.
pub open spec fn is_hex_byte(b: u8) -> bool {
    (48 <= b && b <= 57) || (65 <= b && b <= 70) || (97 <= b && b <= 102)
}

pub open spec fn hex_val(b: u8) -> u8 {
    if 48 <= b && b <= 57 {
        (b - 48) as u8
    } else if 65 <= b && b <= 70 {
        (b - 55) as u8
    } else {
        (b - 87) as u8
    }
}

/// Percent-decoding over bytes: `%` (byte 37) followed by two hex digits
/// becomes one byte; a `%` followed by one hex digit keeps both literally
/// and decoding resumes after them; any other `%` is kept literally; every
/// other byte is copied.
pub open spec fn spec_percent_decode(s: Seq<u8>) -> Seq<u8>
    decreases s.len(),
{
    if s.len() == 0 {
        Seq::empty()
    } else if s[0] != 37 {
        seq![s[0]].add(spec_percent_decode(s.drop_first()))
    } else if s.len() >= 3 && is_hex_byte(s[1]) && is_hex_byte(s[2]) {
        seq![(hex_val(s[1]) * 16 + hex_val(s[2])) as u8].add(spec_percent_decode(s.skip(3)))
    } else if s.len() >= 2 && is_hex_byte(s[1]) {
        seq![37u8, s[1]].add(spec_percent_decode(s.skip(2)))
    } else if s.len() >= 2 {
        seq![37u8].add(spec_percent_decode(s.skip(1)))
    } else {
        seq![37u8]
    }
}

/// A byte string without `%` decodes to itself.
pub proof fn lemma_percent_decode_plain(s: Seq<u8>)
    requires
        forall|i: int| 0 <= i < s.len() ==> s[i] != 37,
    ensures
        spec_percent_decode(s) == s,
    decreases s.len(),
{
    if s.len() > 0 {
        lemma_percent_decode_plain(s.drop_first());
        assert(seq![s[0]].add(s.drop_first()) =~= s);
    }
}

/// Relies on urlencoding::decode: a `%` followed by two hex digits becomes
/// that byte, a malformed escape is kept literally, every other byte is
/// copied, and the decoded bytes are returned when they are valid UTF-8.
#[verifier::external_body]
pub fn decode_percent(data: &str) -> (r: Option<String>)
    ensures
        match r {
            Some(t) => valid_utf8(spec_percent_decode(data.spec_bytes())) && t@ == decode_utf8(
                spec_percent_decode(data.spec_bytes()),
            ),
            None => !valid_utf8(spec_percent_decode(data.spec_bytes())),
        },
{
    match urlencoding::decode(data) {
        Ok(cow) => Some(cow.into_owned()),
        Err(_) => None,
    }
}

/// The index of the first `|`, or the length when there is none.
pub open spec fn first_sep(s: Seq<char>) -> int
    decreases s.len(),
{
    if s.len() == 0 {
        0
    } else if s[0] == '|' {
        0
    } else {
        1 + first_sep(s.drop_first())
    }
}

pub proof fn lemma_first_sep(s: Seq<char>)
    ensures
        0 <= first_sep(s) <= s.len(),
        first_sep(s) < s.len() ==> s[first_sep(s)] == '|',
        forall|j: int| 0 <= j < first_sep(s) ==> s[j] != '|',
    decreases s.len(),
{
    if s.len() > 0 && s[0] != '|' {
        lemma_first_sep(s.drop_first());
        assert forall|j: int| 0 <= j < first_sep(s) implies s[j] != '|' by {
            if j > 0 {
                assert(s.drop_first()[j - 1] == s[j]);
            }
        }
    }
}

/// The segments of a name split on `|`; a name without `|` is one segment.
pub open spec fn spec_split_pipes(s: Seq<char>) -> Seq<Seq<char>>
    decreases s.len(),
    via spec_split_pipes_decreases
{
    if first_sep(s) >= s.len() {
        seq![s]
    } else {
        seq![s.take(first_sep(s))].add(spec_split_pipes(s.skip(first_sep(s) + 1)))
    }
}

#[via_fn]
proof fn spec_split_pipes_decreases(s: Seq<char>) {
    lemma_first_sep(s);
}

pub fn split_pipes(s: &str) -> (r: Vec<String>)
    ensures
        strings_view(r@) == spec_split_pipes(s@),
        r@.len() >= 1,
    decreases s@.len(),
{
    let n = s.unicode_len();
    let mut i: usize = 0;
    while i < n && s.get_char(i) != '|'
        invariant
            i <= n,
            n == s@.len(),
            forall|j: int| 0 <= j < i ==> s@[j] != '|',
        decreases n - i,
    {
        i = i + 1;
    }
    proof {
        lemma_first_sep(s@);
        let fs = first_sep(s@);
        if (i as int) < fs {
            assert(s@[i as int] == '|');
            assert(false);
        }
        if fs < i as int {
            assert(s@[fs] == '|');
            assert(false);
        }
    }
    if i == n {
        let mut r: Vec<String> = Vec::new();
        r.push(s.to_owned());
        proof {
            assert(strings_view(r@) =~= spec_split_pipes(s@));
        }
        r
    } else {
        let head = s.substring_char(0, i).to_owned();
        let tail = s.substring_char(i + 1, n);
        let mut rest = split_pipes(tail);
        let ghost rest0 = rest@;
        rest.insert(0, head);
        proof {
            assert(rest@ =~= seq![head].add(rest0));
            assert(strings_view(rest@) =~= seq![head@].add(strings_view(rest0)));
            assert(head@ =~= s@.take(i as int));
            assert(tail@ =~= s@.skip(i as int + 1));
            assert(strings_view(rest@) =~= spec_split_pipes(s@));
        }
        rest
    }
}

/// Addition on `i64` that stops at the ends of the range.
pub open spec fn sat_add_i64(a: i64, b: i64) -> i64 {
    if a + b > i64::MAX {
        i64::MAX
    } else if a + b < i64::MIN {
        i64::MIN
    } else {
        (a + b) as i64
    }
}

/// Addition on `i32` that stops at the ends of the range.
pub open spec fn sat_add_i32(a: i32, b: i32) -> i32 {
    if a + b > i32::MAX {
        i32::MAX
    } else if a + b < i32::MIN {
        i32::MIN
    } else {
        (a + b) as i32
    }
}

fn sat_add64(a: i64, b: i64) -> (r: i64)
    ensures
        r == sat_add_i64(a, b),
{
    if b > 0 && a > i64::MAX - b {
        i64::MAX
    } else if b < 0 && a < i64::MIN - b {
        i64::MIN
    } else {
        a + b
    }
}

fn sat_add32(a: i32, b: i32) -> (r: i32)
    ensures
        r == sat_add_i32(a, b),
{
    if b > 0 && a > i32::MAX - b {
        i32::MAX
    } else if b < 0 && a < i32::MIN - b {
        i32::MIN
    } else {
        a + b
    }
}

/// Pending-message and consumer totals over the listed segments; a segment
/// the broker does not know contributes nothing, a segment listed twice
/// counts twice.
pub open spec fn spec_queue_totals(
    entries: Seq<(String, QueueMetrics)>,
    segs: Seq<Seq<char>>,
) -> (i64, i32)
    decreases segs.len(),
{
    if segs.len() == 0 {
        (0i64, 0i32)
    } else {
        let rest = spec_queue_totals(entries, segs.drop_last());
        match assoc_get(entries, segs.last()) {
            Some(m) => (sat_add_i64(rest.0, m.pending_messages), sat_add_i32(rest.1, m.consumer_count)),
            None => rest,
        }
    }
}

/// Pending, subscriber, and durable totals over the listed segments.
pub open spec fn spec_topic_totals(
    entries: Seq<(String, TopicMetrics)>,
    segs: Seq<Seq<char>>,
) -> (i64, i32, i32)
    decreases segs.len(),
{
    if segs.len() == 0 {
        (0i64, 0i32, 0i32)
    } else {
        let rest = spec_topic_totals(entries, segs.drop_last());
        match assoc_get(entries, segs.last()) {
            Some(m) => (
                sat_add_i64(rest.0, m.pending_messages),
                sat_add_i32(rest.1, m.subscriber_count),
                sat_add_i32(rest.2, m.durable_count),
            ),
            None => rest,
        }
    }
}

/// What the queue endpoint answers for a decoded name: the aggregate under
/// the name `mixed` when the name lists several destinations, the cached
/// snapshot for a known single destination, and a zero-valued entry under
/// the requested name otherwise.
pub open spec fn queue_query_matches(
    entries: Seq<(String, QueueMetrics)>,
    name: Seq<char>,
    m: QueueMetrics,
) -> bool {
    let segs = spec_split_pipes(name);
    if segs.len() >= 2 {
        let totals = spec_queue_totals(entries, segs);
        &&& m.name@ == "mixed"@
        &&& m.pending_messages == totals.0
        &&& m.consumer_count == totals.1
        &&& m.outgoing_total_count == 0
    } else {
        match assoc_get(entries, name) {
            Some(e) => m == e,
            None => m.name@ == name && m.pending_messages == 0 && m.consumer_count == 0
                && m.outgoing_total_count == 0,
        }
    }
}

/// What the topic endpoint answers for a decoded name.
pub open spec fn topic_query_matches(
    entries: Seq<(String, TopicMetrics)>,
    name: Seq<char>,
    m: TopicMetrics,
) -> bool {
    let segs = spec_split_pipes(name);
    if segs.len() >= 2 {
        let totals = spec_topic_totals(entries, segs);
        &&& m.name@ == "mixed"@
        &&& m.pending_messages == totals.0
        &&& m.subscriber_count == totals.1
        &&& m.durable_count == totals.2
    } else {
        match assoc_get(entries, name) {
            Some(e) => m == e,
            None => m.name@ == name && m.pending_messages == 0 && m.subscriber_count == 0
                && m.durable_count == 0,
        }
    }
}

/// Answer a queue statistics request for a raw, possibly percent-encoded
/// name. Nothing is answered only when the decoded bytes are not UTF-8.
pub fn query_queue_stats(stats: &QueueStatsCache, raw: &str) -> (r: Option<QueueMetrics>)
    requires
        stats.wf(),
    ensures
        match r {
            Some(m) => valid_utf8(spec_percent_decode(raw.spec_bytes())) && queue_query_matches(
                stats.entries@,
                decode_utf8(spec_percent_decode(raw.spec_bytes())),
                m,
            ),
            None => !valid_utf8(spec_percent_decode(raw.spec_bytes())),
        },
{
    let decoded = match decode_percent(raw) {
        Some(d) => d,
        None => {
            return None;
        },
    };
    let segments = split_pipes(decoded.as_str());
    if segments.len() >= 2 {
        let ghost segs = strings_view(segments@);
        let mut pending: i64 = 0;
        let mut consumers: i32 = 0;
        let n = segments.len();
        let mut i: usize = 0;
        while i < n
            invariant
                i <= n,
                n == segments@.len(),
                stats.wf(),
                segs == strings_view(segments@),
                (pending, consumers) == spec_queue_totals(stats.entries@, segs.take(i as int)),
            decreases n - i,
        {
            proof {
                assert(segs.take(i as int + 1).drop_last() =~= segs.take(i as int));
                assert(segs.take(i as int + 1).last() == segments@[i as int]@);
            }
            match stats.find(&segments[i]) {
                Some(m) => {
                    pending = sat_add64(pending, m.pending_messages);
                    consumers = sat_add32(consumers, m.consumer_count);
                },
                None => {},
            }
            i = i + 1;
        }
        proof {
            assert(segs.take(n as int) =~= segs);
        }
        Some(
            QueueMetrics {
                name: String::from_str("mixed"),
                pending_messages: pending,
                consumer_count: consumers,
                outgoing_total_count: 0,
            },
        )
    } else {
        match stats.find(&decoded) {
            Some(m) => Some(m.duplicate()),
            None => Some(
                QueueMetrics {
                    name: decoded,
                    pending_messages: 0,
                    consumer_count: 0,
                    outgoing_total_count: 0,
                },
            ),
        }
    }
}

/// Answer a topic statistics request for a raw, possibly percent-encoded
/// name.
pub fn query_topic_stats(stats: &TopicStatsCache, raw: &str) -> (r: Option<TopicMetrics>)
    requires
        stats.wf(),
    ensures
        match r {
            Some(m) => valid_utf8(spec_percent_decode(raw.spec_bytes())) && topic_query_matches(
                stats.entries@,
                decode_utf8(spec_percent_decode(raw.spec_bytes())),
                m,
            ),
            None => !valid_utf8(spec_percent_decode(raw.spec_bytes())),
        },
{
    let decoded = match decode_percent(raw) {
        Some(d) => d,
        None => {
            return None;
        },
    };
    let segments = split_pipes(decoded.as_str());
    if segments.len() >= 2 {
        let ghost segs = strings_view(segments@);
        let mut pending: i64 = 0;
        let mut subscribers: i32 = 0;
        let mut durables: i32 = 0;
        let n = segments.len();
        let mut i: usize = 0;
        while i < n
            invariant
                i <= n,
                n == segments@.len(),
                stats.wf(),
                segs == strings_view(segments@),
                (pending, subscribers, durables) == spec_topic_totals(
                    stats.entries@,
                    segs.take(i as int),
                ),
            decreases n - i,
        {
            proof {
                assert(segs.take(i as int + 1).drop_last() =~= segs.take(i as int));
                assert(segs.take(i as int + 1).last() == segments@[i as int]@);
            }
            match stats.find(&segments[i]) {
                Some(m) => {
                    pending = sat_add64(pending, m.pending_messages);
                    subscribers = sat_add32(subscribers, m.subscriber_count);
                    durables = sat_add32(durables, m.durable_count);
                },
                None => {},
            }
            i = i + 1;
        }
        proof {
            assert(segs.take(n as int) =~= segs);
        }
        Some(
            TopicMetrics {
                name: String::from_str("mixed"),
                pending_messages: pending,
                subscriber_count: subscribers,
                durable_count: durables,
            },
        )
    } else {
        match stats.find(&decoded) {
            Some(m) => Some(m.duplicate()),
            None => Some(
                TopicMetrics {
                    name: decoded,
                    pending_messages: 0,
                    subscriber_count: 0,
                    durable_count: 0,
                },
            ),
        }
    }
}

/// Same statistics up to the name's representation.
pub open spec fn queue_metrics_like(a: QueueMetrics, b: QueueMetrics) -> bool {
    &&& a.name@ == b.name@
    &&& a.pending_messages == b.pending_messages
    &&& a.consumer_count == b.consumer_count
    &&& a.outgoing_total_count == b.outgoing_total_count
}

/// Queue statistics queries are insensitive to percent-encoding: two raw
/// names whose escapes decode to the same bytes receive the same answer,
/// field for field.
pub proof fn lemma_query_encoding_insensitive(
    entries: Seq<(String, QueueMetrics)>,
    raw1: Seq<u8>,
    raw2: Seq<u8>,
    m1: QueueMetrics,
    m2: QueueMetrics,
)
    requires
        spec_percent_decode(raw1) == spec_percent_decode(raw2),
        valid_utf8(spec_percent_decode(raw1)),
        queue_query_matches(entries, decode_utf8(spec_percent_decode(raw1)), m1),
        queue_query_matches(entries, decode_utf8(spec_percent_decode(raw2)), m2),
    ensures
        queue_metrics_like(m1, m2),
{
}

} // verus!
