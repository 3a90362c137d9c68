//! Text frames pushed to live-update clients, and sensor readings normalized
//! from their broker topic.
use vstd::prelude::*;
use vstd::string::{StrSliceExecFns, StringExecFns};

verus! {

/// The envelope `{"data":D,"type":"status_update"}` around an encoded
/// snapshot (keys in the order a JSON object map writes them).
pub open spec fn status_envelope_spec(data_json: Seq<char>) -> Seq<char> {
    "{\"data\":"@ + data_json + ",\"type\":\"status_update\"}"@
}

pub fn status_envelope(data_json: &str) -> (r: String)
    ensures
        r@ == status_envelope_spec(data_json@),
{
    let mut s = String::from_str("{\"data\":");
    s.append(data_json);
    s.append(",\"type\":\"status_update\"}");
    s
}

/// The frame `{"topic":"T","payload":P}` forwarding a raw broker message;
/// the payload is passed through as it came.
pub open spec fn forward_frame_spec(topic: Seq<char>, payload: Seq<char>) -> Seq<char> {
    "{\"topic\":\""@ + topic + "\",\"payload\":"@ + payload + "}"@
}

pub fn forward_frame(topic: &str, payload: &str) -> (r: String)
    ensures
        r@ == forward_frame_spec(topic@, payload@),
{
    let mut s = String::from_str("{\"topic\":\"");
    s.append(topic);
    s.append("\",\"payload\":");
    s.append(payload);
    s.append("}");
    s
}

/// The index of the first `c` at or after `start`, or the length of `s`.
pub open spec fn find_from(s: Seq<char>, c: char, start: int) -> int
    decreases s.len() - start,
{
    if start >= s.len() {
        s.len() as int
    } else if s[start] == c {
        start
    } else {
        find_from(s, c, start + 1)
    }
}

/// The second `/`-separated segment of a topic, or `unknown` when the topic
/// has no `/`.
pub open spec fn sensor_type_spec(topic: Seq<char>) -> Seq<char> {
    let i = find_from(topic, '/', 0);
    if i >= topic.len() {
        "unknown"@
    } else {
        topic.subrange(i + 1, find_from(topic, '/', i + 1))
    }
}

fn find_char(s: &str, n: usize, c: char, start: usize) -> (r: usize)
    requires
        n == s@.len(),
        start <= n,
    ensures
        r == find_from(s@, c, start as int),
        start <= r <= n,
{
    let mut i = start;
    while i < n
        invariant
            start <= i <= n,
            n == s@.len(),
            find_from(s@, c, i as int) == find_from(s@, c, start as int),
        decreases n - i,
    {
        if s.get_char(i) == c {
            return i;
        }
        i = i + 1;
    }
    i
}

/// The sensor category named by a topic such as `sensors/temperature`.
pub fn sensor_type_of(topic: &str) -> (r: String)
    ensures
        r@ == sensor_type_spec(topic@),
{
    let n = topic.unicode_len();
    let i = find_char(topic, n, '/', 0);
    if i >= n {
        return String::from_str("unknown");
    }
    let j = find_char(topic, n, '/', i + 1);
    String::from_str(topic.substring_char(i + 1, j))
}

/// A sensor reading ready for the store: its category, the raw IEEE-754 bits
/// of its value, and when it was captured (microseconds since the epoch).
#[derive(Debug, Clone)]
pub struct NewSensorData {
    pub sensor_type: String,
    pub value_bits: u64,
    pub timestamp: i64,
}

impl NewSensorData {
    /// The record for a reading that arrived on `topic`: its category is the
    /// topic's second segment.
    pub fn from_reading(topic: &str, value_bits: u64, timestamp: i64) -> (r: Self)
        ensures
            r.sensor_type@ == sensor_type_spec(topic@),
            r.value_bits == value_bits,
            r.timestamp == timestamp,
    {
        NewSensorData { sensor_type: sensor_type_of(topic), value_bits, timestamp }
    }
}

} // verus!
