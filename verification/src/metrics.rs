//! The Prometheus exposition: gauges for every destination in the
//! statistics caches, one line per metric, rendered into one text body.

use vstd::prelude::*;
use vstd::string::{StrSliceExecFns, StringExecFns};
use crate::stats::{QueueMetrics, QueueStatsCache, TopicMetrics, TopicStatsCache};

verus! {

/// The character of one decimal digit.
pub open spec fn spec_digit_char(d: int) -> char
    recommends
        0 <= d <= 9,
{
    (((48 + d) as u32) as char)
}

/// The decimal notation of a non-negative number, most significant digit
/// first.
pub open spec fn spec_dec_nat(n: int) -> Seq<char>
    recommends
        n >= 0,
    decreases n,
{
    if n < 10 {
        seq![spec_digit_char(n)]
    } else {
        spec_dec_nat(n / 10).push(spec_digit_char(n % 10))
    }
}

/// The decimal notation of a signed number.
pub open spec fn spec_dec_int(v: int) -> Seq<char> {
    if v < 0 {
        seq!['-'].add(spec_dec_nat(-v))
    } else {
        spec_dec_nat(v)
    }
}

pub fn u64_to_string(n: u64) -> (r: String)
    ensures
        r@ == spec_dec_nat(n as int),
    decreases n,
{
    let digits = "0123456789";
    proof {
        reveal_strlit("0123456789");
        assert(digits.is_ascii()) by {
            assert forall|i: int| 0 <= i < digits@.len() implies '\0' <= #[trigger] digits@[i]
                <= '\u{7f}' by {}
        }
    }
    let d = (n % 10) as usize;
    let digit = digits.substring_ascii(d, d + 1);
    proof {
        assert(digit@ =~= seq![spec_digit_char(n as int % 10)]);
    }
    if n < 10 {
        digit.to_owned()
    } else {
        let mut r = u64_to_string(n / 10);
        r.append(digit);
        r
    }
}

pub fn i64_to_string(v: i64) -> (r: String)
    ensures
        r@ == spec_dec_int(v as int),
{
    if v >= 0 {
        u64_to_string(v as u64)
    } else {
        let magnitude: u64 = if v == i64::MIN {
            9223372036854775808u64
        } else {
            (-v) as u64
        };
        proof {
            assert(magnitude as int == -(v as int));
        }
        let mut r = String::from_str("-");
        let digits = u64_to_string(magnitude);
        r.append(digits.as_str());
        proof {
            reveal_strlit("-");
            assert(r@ =~= spec_dec_int(v as int));
        }
        r
    }
}

pub fn i32_to_string(v: i32) -> (r: String)
    ensures
        r@ == spec_dec_int(v as int),
{
    i64_to_string(v as i64)
}

/// The two gauge lines published for one queue.
pub open spec fn spec_queue_lines(m: QueueMetrics) -> Seq<char> {
    "Q:pendingMessages{queue=\""@ + m.name@ + "\" instance=\"EMS-ESB\"} "@ + spec_dec_int(
        m.pending_messages as int,
    ) + "\n"@ + "Q:consumers{queue=\""@ + m.name@ + "\" instance=\"EMS-ESB\"} "@ + spec_dec_int(
        m.consumer_count as int,
    ) + "\n"@
}

/// The three gauge lines published for one topic.
pub open spec fn spec_topic_lines(m: TopicMetrics) -> Seq<char> {
    "T:pendingMessages{topic=\""@ + m.name@ + "\" instance=\"EMS-ESB\"} "@ + spec_dec_int(
        m.pending_messages as int,
    ) + "\n"@ + "T:subscribers{topic=\""@ + m.name@ + "\" instance=\"EMS-ESB\"} "@ + spec_dec_int(
        m.subscriber_count as int,
    ) + "\n"@ + "T:durables{topic=\""@ + m.name@ + "\" instance=\"EMS-ESB\"} "@ + spec_dec_int(
        m.durable_count as int,
    ) + "\n"@
}

pub open spec fn spec_queue_section(entries: Seq<(String, QueueMetrics)>) -> Seq<char>
    decreases entries.len(),
{
    if entries.len() == 0 {
        Seq::empty()
    } else {
        spec_queue_section(entries.drop_last()) + spec_queue_lines(entries.last().1)
    }
}

pub open spec fn spec_topic_section(entries: Seq<(String, TopicMetrics)>) -> Seq<char>
    decreases entries.len(),
{
    if entries.len() == 0 {
        Seq::empty()
    } else {
        spec_topic_section(entries.drop_last()) + spec_topic_lines(entries.last().1)
    }
}

pub open spec fn spec_metrics_header() -> Seq<char> {
    "# TYPE Q:pendingMessages gauge\n# TYPE Q:consumers gauge\n# TYPE T:pendingMessages gauge\n# TYPE T:subscribers gauge\n# TYPE T:durables gauge\n"@
}

/// The whole exposition: the type header, then the queue gauges, then the
/// topic gauges, in cache order.
pub open spec fn spec_metrics_body(
    queues: Seq<(String, QueueMetrics)>,
    topics: Seq<(String, TopicMetrics)>,
) -> Seq<char> {
    spec_metrics_header() + spec_queue_section(queues) + spec_topic_section(topics)
}

fn append_queue_lines(body: &mut String, m: &QueueMetrics)
    ensures
        final(body)@ == old(body)@ + spec_queue_lines(*m),
{
    body.append("Q:pendingMessages{queue=\"");
    body.append(m.name.as_str());
    body.append("\" instance=\"EMS-ESB\"} ");
    let pending = i64_to_string(m.pending_messages);
    body.append(pending.as_str());
    body.append("\n");
    body.append("Q:consumers{queue=\"");
    body.append(m.name.as_str());
    body.append("\" instance=\"EMS-ESB\"} ");
    let consumers = i32_to_string(m.consumer_count);
    body.append(consumers.as_str());
    body.append("\n");
    proof {
        assert(body@ =~= old(body)@ + spec_queue_lines(*m));
    }
}

fn append_topic_lines(body: &mut String, m: &TopicMetrics)
    ensures
        final(body)@ == old(body)@ + spec_topic_lines(*m),
{
    body.append("T:pendingMessages{topic=\"");
    body.append(m.name.as_str());
    body.append("\" instance=\"EMS-ESB\"} ");
    let pending = i64_to_string(m.pending_messages);
    body.append(pending.as_str());
    body.append("\n");
    body.append("T:subscribers{topic=\"");
    body.append(m.name.as_str());
    body.append("\" instance=\"EMS-ESB\"} ");
    let subscribers = i32_to_string(m.subscriber_count);
    body.append(subscribers.as_str());
    body.append("\n");
    body.append("T:durables{topic=\"");
    body.append(m.name.as_str());
    body.append("\" instance=\"EMS-ESB\"} ");
    let durables = i32_to_string(m.durable_count);
    body.append(durables.as_str());
    body.append("\n");
    proof {
        assert(body@ =~= old(body)@ + spec_topic_lines(*m));
    }
}

/// Render the exposition for everything the pollers have recorded.
pub fn metrics_body(queues: &QueueStatsCache, topics: &TopicStatsCache) -> (r: String)
    ensures
        r@ == spec_metrics_body(queues.entries@, topics.entries@),
{
    let mut body = String::from_str(
        "# TYPE Q:pendingMessages gauge\n# TYPE Q:consumers gauge\n# TYPE T:pendingMessages gauge\n# TYPE T:subscribers gauge\n# TYPE T:durables gauge\n",
    );
    let nq = queues.entries.len();
    let mut i: usize = 0;
    while i < nq
        invariant
            i <= nq,
            nq == queues.entries@.len(),
            body@ == spec_metrics_header() + spec_queue_section(queues.entries@.take(i as int)),
        decreases nq - i,
    {
        append_queue_lines(&mut body, &queues.entries[i].1);
        proof {
            assert(queues.entries@.take(i as int + 1).drop_last() =~= queues.entries@.take(
                i as int,
            ));
            assert(body@ =~= spec_metrics_header() + spec_queue_section(
                queues.entries@.take(i as int + 1),
            ));
        }
        i = i + 1;
    }
    proof {
        assert(queues.entries@.take(nq as int) =~= queues.entries@);
    }
    let nt = topics.entries.len();
    let mut j: usize = 0;
    while j < nt
        invariant
            j <= nt,
            nt == topics.entries@.len(),
            body@ == spec_metrics_header() + spec_queue_section(queues.entries@)
                + spec_topic_section(topics.entries@.take(j as int)),
        decreases nt - j,
    {
        append_topic_lines(&mut body, &topics.entries[j].1);
        proof {
            assert(topics.entries@.take(j as int + 1).drop_last() =~= topics.entries@.take(
                j as int,
            ));
            assert(body@ =~= spec_metrics_header() + spec_queue_section(queues.entries@)
                + spec_topic_section(topics.entries@.take(j as int + 1)));
        }
        j = j + 1;
    }
    proof {
        assert(topics.entries@.take(nt as int) =~= topics.entries@);
    }
    body
}

} // verus!
