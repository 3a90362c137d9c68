//! The shared application state and its point-in-time status snapshot.
use vstd::prelude::*;
use crate::history::{append_spec, BoundedBuffer};
use crate::records::{InterceptedMessage, LogEntry, TestResult};
use crate::results::{upsert_spec, ResultTable};

verus! {

/// How many intercepted messages and log entries are retained.
pub const HISTORY_CAPACITY: usize = 100;

/// How many log entries a status snapshot carries.
pub const RECENT_LOG_COUNT: usize = 10;

/// The last `n` entries of `s`, newest first.
pub open spec fn newest_first<T>(s: Seq<T>, n: nat) -> Seq<T> {
    let k = if s.len() < n { s.len() } else { n };
    Seq::new(k, |i: int| s[s.len() - 1 - i])
}

/// What a status query returns.
pub struct StatusResponse {
    pub mqtt_connected: bool,
    pub intercepted_messages_count: usize,
    pub test_results: ResultTable,
    pub latest_logs: Vec<LogEntry>,
}

pub struct AppState {
    pub mqtt_connected: bool,
    pub intercepted_messages: BoundedBuffer<InterceptedMessage>,
    pub test_results: ResultTable,
    pub logs: BoundedBuffer<LogEntry>,
}

impl AppState {
    pub open spec fn wf(&self) -> bool {
        &&& self.intercepted_messages.wf()
        &&& self.intercepted_messages.spec_capacity() == HISTORY_CAPACITY
        &&& self.test_results.wf()
        &&& self.logs.wf()
        &&& self.logs.spec_capacity() == HISTORY_CAPACITY
    }

    pub fn new() -> (r: Self)
        ensures
            r.wf(),
            !r.mqtt_connected,
            r.intercepted_messages@.len() == 0,
            r.test_results@ == Map::<Seq<char>, TestResult>::empty(),
            r.logs@.len() == 0,
    {
        AppState {
            mqtt_connected: false,
            intercepted_messages: BoundedBuffer::new(HISTORY_CAPACITY),
            test_results: ResultTable::new(),
            logs: BoundedBuffer::new(HISTORY_CAPACITY),
        }
    }

    pub fn set_connectivity(&mut self, connected: bool)
        ensures
            final(self).mqtt_connected == connected,
            final(self).intercepted_messages == old(self).intercepted_messages,
            final(self).test_results == old(self).test_results,
            final(self).logs == old(self).logs,
    {
        self.mqtt_connected = connected;
    }

    pub fn add_intercepted_message(&mut self, message: InterceptedMessage)
        requires
            old(self).wf(),
        ensures
            final(self).wf(),
            final(self).intercepted_messages@ == append_spec(
                old(self).intercepted_messages@,
                message,
                HISTORY_CAPACITY as nat,
            ),
            final(self).mqtt_connected == old(self).mqtt_connected,
            final(self).test_results == old(self).test_results,
            final(self).logs == old(self).logs,
    {
        self.intercepted_messages.append(message);
    }

    pub fn add_test_result(&mut self, result: TestResult)
        requires
            old(self).wf(),
        ensures
            final(self).wf(),
            final(self).test_results@ == upsert_spec(old(self).test_results@, result),
            final(self).mqtt_connected == old(self).mqtt_connected,
            final(self).intercepted_messages == old(self).intercepted_messages,
            final(self).logs == old(self).logs,
    {
        self.test_results.upsert(result);
    }

    pub fn add_log(&mut self, log: LogEntry)
        requires
            old(self).wf(),
        ensures
            final(self).wf(),
            final(self).logs@ == append_spec(old(self).logs@, log, HISTORY_CAPACITY as nat),
            final(self).mqtt_connected == old(self).mqtt_connected,
            final(self).intercepted_messages == old(self).intercepted_messages,
            final(self).test_results == old(self).test_results,
    {
        self.logs.append(log);
    }

    /// A snapshot: the flag, the number of intercepted messages, every test
    /// result, and the newest log entries, newest first.
    pub fn get_status(&self) -> (r: StatusResponse)
        requires
            self.wf(),
        ensures
            r.mqtt_connected == self.mqtt_connected,
            r.intercepted_messages_count == self.intercepted_messages@.len(),
            r.test_results.wf(),
            r.test_results@ == self.test_results@,
            r.latest_logs@ == newest_first(self.logs@, RECENT_LOG_COUNT as nat),
            r.latest_logs@.len() <= RECENT_LOG_COUNT,
    {
        StatusResponse {
            mqtt_connected: self.mqtt_connected,
            intercepted_messages_count: self.intercepted_messages.len(),
            test_results: self.test_results.duplicate(),
            latest_logs: self.recent_logs(),
        }
    }

    fn recent_logs(&self) -> (r: Vec<LogEntry>)
        requires
            self.wf(),
        ensures
            r@ == newest_first(self.logs@, RECENT_LOG_COUNT as nat),
    {
        let items = self.logs.as_slice();
        let n = items.len();
        let mut out: Vec<LogEntry> = Vec::new();
        let mut i: usize = 0;
        while i < n && i < RECENT_LOG_COUNT
            invariant
                n == items@.len(),
                items@ == self.logs@,
                i <= n,
                i <= RECENT_LOG_COUNT,
                out@.len() == i,
                forall|j: int| 0 <= j < i ==> out@[j] == items@[n - 1 - j],
            decreases n - i,
        {
            out.push(items[n - 1 - i].duplicate());
            i = i + 1;
        }
        assert(out@ =~= newest_first(self.logs@, RECENT_LOG_COUNT as nat));
        out
    }
}

/// A snapshot never carries more than the fixed number of log entries, and
/// each one is older than the one before it.
pub proof fn lemma_snapshot_logs_newest_first(logs: Seq<LogEntry>)
    ensures
        newest_first(logs, RECENT_LOG_COUNT as nat).len() <= RECENT_LOG_COUNT,
        forall|i: int|
            0 <= i < newest_first(logs, RECENT_LOG_COUNT as nat).len() ==> #[trigger] newest_first(
                logs,
                RECENT_LOG_COUNT as nat,
            )[i] == logs[logs.len() - 1 - i],
{
}

} // verus!
