//! The broker link: topic routing, the reconnect state machine, and the
//! command publication path.
use vstd::prelude::*;
use vstd::string::StringExecFns;
use crate::history::append_spec;
use crate::records::{Command, InterceptedMessage, LogEntry, TestResult};
use crate::state::{AppState, HISTORY_CAPACITY};
use crate::results::upsert_spec;

verus! {

#[verifier::external_type_specification]
#[verifier::external_body]
pub struct ExAsyncClient(rumqttc::AsyncClient);

#[verifier::external_type_specification]
#[verifier::external_body]
pub struct ExClientError(rumqttc::ClientError);

pub const INTERCEPTED_TOPIC: &'static str = "secot/audit/intercepted";
pub const RESULTS_TOPIC: &'static str = "secot/audit/results";
pub const LOGS_TOPIC: &'static str = "secot/audit/logs";
pub const COMMAND_TOPIC: &'static str = "secot/command";

/// Milliseconds to wait after a lost connection before reconnecting.
pub const RECONNECT_BACKOFF_MS: u64 = 5000;

/// The inbound topics, one per record decoder.
#[derive(Debug, Clone, Copy, PartialEq, Eq, Structural)]
pub enum TopicKind {
    Intercepted,
    Results,
    Logs,
}

pub open spec fn topic_of(kind: TopicKind) -> Seq<char> {
    match kind {
        TopicKind::Intercepted => INTERCEPTED_TOPIC@,
        TopicKind::Results => RESULTS_TOPIC@,
        TopicKind::Logs => LOGS_TOPIC@,
    }
}

/// The topics subscribed on every connection, in subscription order.
pub open spec fn subscription_topics() -> Seq<Seq<char>> {
    seq![INTERCEPTED_TOPIC@, RESULTS_TOPIC@, LOGS_TOPIC@]
}

pub fn topic_name(kind: TopicKind) -> (r: &'static str)
    ensures
        r@ == topic_of(kind),
{
    match kind {
        TopicKind::Intercepted => INTERCEPTED_TOPIC,
        TopicKind::Results => RESULTS_TOPIC,
        TopicKind::Logs => LOGS_TOPIC,
    }
}

fn same_text(a: &str, b: &str) -> (r: bool)
    ensures
        r == (a@ == b@),
{
    a.to_owned() == b.to_owned()
}

/// Which decoder an inbound topic maps to; `None` for a topic outside the set.
pub fn classify_topic(topic: &str) -> (r: Option<TopicKind>)
    ensures
        forall|k: TopicKind| r == Some(k) <==> topic@ == topic_of(k),
{
    proof {
        lemma_topics_distinct();
        assert(subscription_topics()[0] == topic_of(TopicKind::Intercepted));
        assert(subscription_topics()[1] == topic_of(TopicKind::Results));
        assert(subscription_topics()[2] == topic_of(TopicKind::Logs));
    }
    if same_text(topic, INTERCEPTED_TOPIC) {
        Some(TopicKind::Intercepted)
    } else if same_text(topic, RESULTS_TOPIC) {
        Some(TopicKind::Results)
    } else if same_text(topic, LOGS_TOPIC) {
        Some(TopicKind::Logs)
    } else {
        None
    }
}


/// A decoded inbound record, tagged by the topic it arrived on.
pub enum InboundRecord {
    Intercepted(InterceptedMessage),
    Result(TestResult),
    Log(LogEntry),
}

/// Writes a decoded record into the shared state through the matching
/// `add_*` operation.
pub fn ingest(state: &mut AppState, record: InboundRecord)
    requires
        old(state).wf(),
    ensures
        final(state).wf(),
        final(state).mqtt_connected == old(state).mqtt_connected,
        match record {
            InboundRecord::Intercepted(m) => {
                &&& final(state).intercepted_messages@ == append_spec(
                    old(state).intercepted_messages@,
                    m,
                    HISTORY_CAPACITY as nat,
                )
                &&& final(state).test_results == old(state).test_results
                &&& final(state).logs == old(state).logs
            },
            InboundRecord::Result(t) => {
                &&& final(state).test_results@ == upsert_spec(old(state).test_results@, t)
                &&& final(state).intercepted_messages == old(state).intercepted_messages
                &&& final(state).logs == old(state).logs
            },
            InboundRecord::Log(l) => {
                &&& final(state).logs@ == append_spec(old(state).logs@, l, HISTORY_CAPACITY as nat)
                &&& final(state).intercepted_messages == old(state).intercepted_messages
                &&& final(state).test_results == old(state).test_results
            },
        },
{
    match record {
        InboundRecord::Intercepted(m) => state.add_intercepted_message(m),
        InboundRecord::Result(t) => state.add_test_result(t),
        InboundRecord::Log(l) => state.add_log(l),
    }
}

/// The phases of the broker link.
#[derive(Debug, Clone, Copy, PartialEq, Eq, Structural)]
pub enum LinkPhase {
    Disconnected,
    Connecting,
    Subscribed,
    Degraded,
}

/// What the driver of the link does next.
#[derive(Debug, Clone, Copy, PartialEq, Eq, Structural)]
pub enum LinkAction {
    /// Open a broker connection, then report it with `on_connected`.
    Connect,
    /// Wait this many milliseconds, then report `on_backoff_elapsed`.
    Wait(u64),
    /// Nothing to do in this phase.
    Idle,
}

/// Why a command was not published.
#[derive(Debug, Clone, Copy, PartialEq, Eq, Structural)]
pub enum CommandError {
    /// The device or the action is empty.
    InvalidCommand,
    /// No broker connection handle is held.
    NotConnected,
    /// The broker client did not accept the publish request.
    PublishFailed,
}

impl CommandError {
    pub fn message(&self) -> (r: String)
        ensures
            *self == CommandError::InvalidCommand ==> r@ == "Device and action are required"@,
            *self == CommandError::NotConnected ==> r@ == "MQTT client not initialized"@,
            *self == CommandError::PublishFailed ==> r@ == "Failed to send mqtt requests to eventloop"@,
    {
        match self {
            CommandError::InvalidCommand => String::from_str("Device and action are required"),
            CommandError::NotConnected => String::from_str("MQTT client not initialized"),
            CommandError::PublishFailed => String::from_str("Failed to send mqtt requests to eventloop"),
        }
    }
}

/// A lowercase hexadecimal digit, for `n < 16`.
pub open spec fn hex_digit(n: u32) -> char {
    if n < 10 {
        (('0' as u32) + n) as char
    } else {
        (('a' as u32) + n - 10) as char
    }
}

/// How a JSON string writes one character: quote, backslash and control
/// characters are escaped, everything else stands as it is.
pub open spec fn json_escape_char(c: char) -> Seq<char> {
    if c == '"' {
        seq!['\\', '"']
    } else if c == '\\' {
        seq!['\\', '\\']
    } else if c == '\u{8}' {
        seq!['\\', 'b']
    } else if c == '\t' {
        seq!['\\', 't']
    } else if c == '\n' {
        seq!['\\', 'n']
    } else if c == '\u{c}' {
        seq!['\\', 'f']
    } else if c == '\r' {
        seq!['\\', 'r']
    } else if (c as u32) < 0x20 {
        seq!['\\', 'u', '0', '0', hex_digit((c as u32) / 16), hex_digit((c as u32) % 16)]
    } else {
        seq![c]
    }
}

pub open spec fn json_escaped(s: Seq<char>) -> Seq<char>
    decreases s.len(),
{
    if s.len() == 0 {
        Seq::empty()
    } else {
        json_escaped(s.drop_last()) + json_escape_char(s.last())
    }
}

/// The text of a JSON string literal holding `s`.
pub open spec fn json_quoted(s: Seq<char>) -> Seq<char> {
    seq!['"'] + json_escaped(s) + seq!['"']
}

/// Relies on serde_json's `Value::String` and its `Display` impl, which write
/// a string value compactly: in quotes, with `"`, `\\` and the control
/// characters escaped (the short forms `\\b \\t \\n \\f \\r`, else `\\u00xx`).
#[verifier::external_body]
fn json_string(s: &str) -> (r: String)
    ensures
        r@ == json_quoted(s@),
{
    serde_json::Value::String(s.to_owned()).to_string()
}

/// The quality-of-service level of every subscription and publication.
#[verifier::external_type_specification]
pub struct ExQoS(rumqttc::QoS);

/// Relies on rumqttc's `AsyncClient::try_subscribe`: queues a subscribe
/// request for the event loop without waiting.
#[verifier::external_body]
fn request_subscribe(client: &rumqttc::AsyncClient, topic: &str, qos: rumqttc::QoS) -> Result<
    (),
    rumqttc::ClientError,
> {
    client.try_subscribe(topic, qos)
}

/// Relies on rumqttc's `AsyncClient::try_publish`: queues a publish request
/// for the event loop without waiting.
#[verifier::external_body]
fn request_publish(
    client: &rumqttc::AsyncClient,
    topic: &str,
    qos: rumqttc::QoS,
    retain: bool,
    payload: String,
) -> Result<(), rumqttc::ClientError> {
    client.try_publish(topic, qos, retain, payload)
}

/// Relies on chrono's `Utc::now`: the current time, in microseconds since
/// the Unix epoch.
#[verifier::external_body]
fn now_micros() -> i64 {
    chrono::Utc::now().timestamp_micros()
}

/// The JSON object `{"device":D,"action":A}` from the two encoded values.
pub open spec fn command_frame(device_json: Seq<char>, action_json: Seq<char>) -> Seq<char> {
    "{\"device\":"@ + device_json + ",\"action\":"@ + action_json + "}"@
}

pub open spec fn command_payload_spec(c: Command) -> Seq<char> {
    command_frame(json_quoted(c.device@), json_quoted(c.action@))
}

/// Frames the already-encoded device and action values as a command object.
pub fn frame_command(device_json: &str, action_json: &str) -> (r: String)
    ensures
        r@ == command_frame(device_json@, action_json@),
{
    let mut s = String::from_str("{\"device\":");
    s.append(device_json);
    s.append(",\"action\":");
    s.append(action_json);
    s.append("}");
    s
}

/// The payload published for a command: its JSON encoding.
pub fn command_payload(command: &Command) -> (r: String)
    ensures
        r@ == command_payload_spec(*command),
{
    let d = json_string(command.device.as_str());
    let a = json_string(command.action.as_str());
    frame_command(d.as_str(), a.as_str())
}

pub open spec fn command_message_spec(c: Command) -> Seq<char> {
    "Command sent: "@ + c.action@ + " for device "@ + c.device@
}

/// The informational text logged after a command is published.
pub fn command_log_message(command: &Command) -> (r: String)
    ensures
        r@ == command_message_spec(*command),
{
    let mut s = String::from_str("Command sent: ");
    s.append(command.action.as_str());
    s.append(" for device ");
    s.append(command.device.as_str());
    s
}

/// The log entry that records the publication of `c`.
pub open spec fn is_command_log(e: LogEntry, c: Command) -> bool {
    &&& e.level@ == "INFO"@
    &&& e.message@ == command_message_spec(c)
    &&& e.source@ == "backend"@
}


/// The ingestion side of the broker link: its phase, the connection handle
/// it holds, and the topics subscribed on that connection.
pub struct MqttClient {
    client: Option<rumqttc::AsyncClient>,
    phase: LinkPhase,
    subscribed: Vec<String>,
}

pub open spec fn text_views(v: Seq<String>) -> Seq<Seq<char>> {
    v.map_values(|s: String| s@)
}

impl MqttClient {
    pub closed spec fn spec_phase(&self) -> LinkPhase {
        self.phase
    }

    pub closed spec fn has_connection(&self) -> bool {
        self.client is Some
    }

    pub closed spec fn spec_subscribed(&self) -> Seq<Seq<char>> {
        text_views(self.subscribed@)
    }

    pub fn new() -> (r: Self)
        ensures
            r.spec_phase() == LinkPhase::Disconnected,
            !r.has_connection(),
            r.spec_subscribed() == Seq::<Seq<char>>::empty(),
    {
        let r = MqttClient { client: None, phase: LinkPhase::Disconnected, subscribed: Vec::new() };
        assert(r.spec_subscribed() =~= Seq::<Seq<char>>::empty());
        r
    }

    pub fn phase(&self) -> (r: LinkPhase)
        ensures
            r == self.spec_phase(),
    {
        self.phase
    }

    pub fn is_connected(&self) -> (r: bool)
        ensures
            r == self.has_connection(),
    {
        self.client.is_some()
    }

    /// The topics whose subscription was accepted on the current connection.
    pub fn subscriptions(&self) -> (r: Vec<String>)
        ensures
            text_views(r@) == self.spec_subscribed(),
    {
        self.subscribed.clone()
    }

    /// Leaves `Disconnected` for `Connecting`.
    pub fn start(&mut self) -> (r: LinkAction)
        ensures
            old(self).spec_phase() == LinkPhase::Disconnected ==> final(self).spec_phase()
                == LinkPhase::Connecting && r == LinkAction::Connect,
            old(self).spec_phase() != LinkPhase::Disconnected ==> final(self).spec_phase()
                == old(self).spec_phase() && r == LinkAction::Idle,
            final(self).has_connection() == old(self).has_connection(),
            final(self).spec_subscribed() == old(self).spec_subscribed(),
    {
        if self.phase == LinkPhase::Disconnected {
            self.phase = LinkPhase::Connecting;
            LinkAction::Connect
        } else {
            LinkAction::Idle
        }
    }

    /// Records the broker client's answer to the subscription request for
    /// `kind`: an accepted topic joins the subscriptions, a refused one joins
    /// `failed`.
    pub fn record_subscription(&mut self, kind: TopicKind, accepted: bool, failed: &mut Vec<String>)
        ensures
            final(self).spec_phase() == old(self).spec_phase(),
            final(self).has_connection() == old(self).has_connection(),
            accepted ==> final(self).spec_subscribed() == old(self).spec_subscribed().push(
                topic_of(kind),
            ) && final(failed)@ == old(failed)@,
            !accepted ==> final(self).spec_subscribed() == old(self).spec_subscribed() && text_views(
                final(failed)@,
            ) == text_views(old(failed)@).push(topic_of(kind)),
    {
        let name = String::from_str(topic_name(kind));
        if accepted {
            self.subscribed.push(name);
            assert(self.spec_subscribed() =~= old(self).spec_subscribed().push(topic_of(kind)));
        } else {
            failed.push(name);
            assert(text_views(failed@) =~= text_views(old(failed)@).push(topic_of(kind)));
        }
    }

    /// A connection was opened: keep its handle, mark the link up and request
    /// every subscription. A failed request does not abort the others. Each
    /// topic ends up either among the subscriptions or among the returned
    /// failures, exactly once.
    pub fn on_connected(&mut self, client: rumqttc::AsyncClient, state: &mut AppState) -> (failed:
        Vec<String>)
        requires
            old(self).spec_phase() == LinkPhase::Connecting,
        ensures
            final(self).spec_phase() == LinkPhase::Subscribed,
            final(self).has_connection(),
            final(state).mqtt_connected,
            final(state).intercepted_messages == old(state).intercepted_messages,
            final(state).test_results == old(state).test_results,
            final(state).logs == old(state).logs,
            final(self).spec_subscribed().len() + failed@.len() == 3,
            final(self).spec_subscribed().no_duplicates(),
            text_views(failed@).no_duplicates(),
            forall|t: Seq<char>| #[trigger] final(self).spec_subscribed().contains(t) ==> subscription_topics().contains(t),
            forall|t: Seq<char>| #[trigger] text_views(failed@).contains(t) ==> subscription_topics().contains(t),
            forall|i: int| 0 <= i < 3 ==> final(self).spec_subscribed().contains(#[trigger] subscription_topics()[i])
                != text_views(failed@).contains(subscription_topics()[i]),
    {
        proof {
            lemma_topics_distinct();
        }
        state.set_connectivity(true);
        self.subscribed = Vec::new();
        assert(self.spec_subscribed() =~= Seq::<Seq<char>>::empty());
        let mut failed: Vec<String> = Vec::new();
        let kinds: [TopicKind; 3] = [TopicKind::Intercepted, TopicKind::Results, TopicKind::Logs];
        let mut i: usize = 0;
        while i < 3
            invariant
                i <= 3,
                kinds@.len() == 3,
                forall|j: int| 0 <= j < 3 ==> #[trigger] topic_of(kinds@[j]) == subscription_topics()[j],
                self.spec_phase() == old(self).spec_phase(),
                forall|a: int, b: int| 0 <= a < 3 && 0 <= b < 3 && a != b ==> subscription_topics()[a] != subscription_topics()[b],
                self.spec_subscribed().len() + failed@.len() == i,
                self.spec_subscribed().no_duplicates(),
                text_views(failed@).no_duplicates(),
                forall|t: Seq<char>| #[trigger] self.spec_subscribed().contains(t) ==> subscription_topics().subrange(0, i as int).contains(t),
                forall|t: Seq<char>| #[trigger] text_views(failed@).contains(t) ==> subscription_topics().subrange(0, i as int).contains(t),
                forall|j: int| 0 <= j < i ==> self.spec_subscribed().contains(#[trigger] subscription_topics()[j])
                    != text_views(failed@).contains(subscription_topics()[j]),
            decreases 3 - i,
        {
            let kind = kinds[i];
            let topic = topic_name(kind);
            let ghost old_s = self.spec_subscribed();
            let ghost old_f = text_views(failed@);
            let ghost t_i = subscription_topics()[i as int];
            let accepted = request_subscribe(&client, topic, rumqttc::QoS::AtLeastOnce).is_ok();
            self.record_subscription(kind, accepted, &mut failed);
            proof {
                assert(topic@ == t_i);
                let pre = subscription_topics().subrange(0, i as int);
                let post = subscription_topics().subrange(0, i as int + 1);
                assert(!pre.contains(t_i)) by {
                    if pre.contains(t_i) {
                        let k = choose|k: int| 0 <= k < pre.len() && pre[k] == t_i;
                        assert(subscription_topics()[k] == t_i);
                    }
                }
                assert(!old_s.contains(t_i));
                assert(!old_f.contains(t_i));
                assert forall|t: Seq<char>| pre.contains(t) implies post.contains(t) by {
                    let k = choose|k: int| 0 <= k < pre.len() && pre[k] == t;
                    assert(post[k] == t);
                }
                assert(post[i as int] == t_i);
                assert forall|t: Seq<char>| #[trigger] self.spec_subscribed().contains(t) implies post.contains(t) by {
                    if t != t_i {
                        let k = choose|k: int| 0 <= k < self.spec_subscribed().len() && self.spec_subscribed()[k] == t;
                        assert(old_s[k] == t);
                    }
                }
                assert forall|t: Seq<char>| #[trigger] text_views(failed@).contains(t) implies post.contains(t) by {
                    if t != t_i {
                        let k = choose|k: int| 0 <= k < text_views(failed@).len() && text_views(failed@)[k] == t;
                        assert(old_f[k] == t);
                    }
                }
                assert forall|j: int| 0 <= j < i + 1 implies self.spec_subscribed().contains(#[trigger] subscription_topics()[j])
                    != text_views(failed@).contains(subscription_topics()[j]) by {
                    let t = subscription_topics()[j];
                    if j < i {
                        assert(t != t_i);
                        if old_s.contains(t) {
                            let k = choose|k: int| 0 <= k < old_s.len() && old_s[k] == t;
                            assert(self.spec_subscribed()[k] == t);
                        }
                        if old_f.contains(t) {
                            let k = choose|k: int| 0 <= k < old_f.len() && old_f[k] == t;
                            assert(text_views(failed@)[k] == t);
                        }
                        if self.spec_subscribed().contains(t) {
                            let k = choose|k: int| 0 <= k < self.spec_subscribed().len() && self.spec_subscribed()[k] == t;
                            assert(k < old_s.len());
                            assert(old_s[k] == t);
                        }
                        if text_views(failed@).contains(t) {
                            let k = choose|k: int| 0 <= k < text_views(failed@).len() && text_views(failed@)[k] == t;
                            assert(k < old_f.len());
                            assert(old_f[k] == t);
                        }
                    } else if accepted {
                        assert(self.spec_subscribed()[old_s.len() as int] == t);
                    } else {
                        assert(text_views(failed@)[old_f.len() as int] == t);
                    }
                }
            }
            i = i + 1;
        }
        proof {
            assert(subscription_topics().subrange(0, 3) =~= subscription_topics());
        }
        self.client = Some(client);
        self.phase = LinkPhase::Subscribed;
        failed
    }

    /// The connection failed: mark the link down, let go of its handle and
    /// its subscriptions, and back off before the next attempt.
    pub fn on_connection_lost(&mut self, state: &mut AppState) -> (r: LinkAction)
        ensures
            final(self).spec_phase() == LinkPhase::Degraded,
            r == LinkAction::Wait(RECONNECT_BACKOFF_MS),
            !final(self).has_connection(),
            final(self).spec_subscribed() == Seq::<Seq<char>>::empty(),
            !final(state).mqtt_connected,
            final(state).intercepted_messages == old(state).intercepted_messages,
            final(state).test_results == old(state).test_results,
            final(state).logs == old(state).logs,
    {
        state.set_connectivity(false);
        self.client = None;
        self.subscribed = Vec::new();
        self.phase = LinkPhase::Degraded;
        assert(self.spec_subscribed() =~= Seq::<Seq<char>>::empty());
        LinkAction::Wait(RECONNECT_BACKOFF_MS)
    }

    /// The backoff is over: leave `Degraded` for `Connecting`.
    pub fn on_backoff_elapsed(&mut self) -> (r: LinkAction)
        ensures
            old(self).spec_phase() == LinkPhase::Degraded ==> final(self).spec_phase()
                == LinkPhase::Connecting && r == LinkAction::Connect,
            old(self).spec_phase() != LinkPhase::Degraded ==> final(self).spec_phase()
                == old(self).spec_phase() && r == LinkAction::Idle,
            final(self).has_connection() == old(self).has_connection(),
            final(self).spec_subscribed() == old(self).spec_subscribed(),
    {
        if self.phase == LinkPhase::Degraded {
            self.phase = LinkPhase::Connecting;
            LinkAction::Connect
        } else {
            LinkAction::Idle
        }
    }

    /// The link can publish: a connection handle is held and the shared
    /// state records the broker as connected.
    pub open spec fn link_up(&self, state: AppState) -> bool {
        self.has_connection() && state.mqtt_connected
    }

    /// Publishes `command` on the command topic through the held connection;
    /// once the request is accepted, logs what was sent. Without a held
    /// connection, or while the state records the broker as disconnected, it
    /// fails with `NotConnected`.
    pub fn publish_command(&self, state: &mut AppState, command: &Command) -> (r: Result<
        (),
        CommandError,
    >)
        requires
            old(state).wf(),
        ensures
            final(state).wf(),
            !self.link_up(*old(state)) ==> r == Err::<(), CommandError>(CommandError::NotConnected)
                && *final(state) == *old(state),
            self.link_up(*old(state)) ==> r == Ok::<(), CommandError>(()) || r == Err::<
                (),
                CommandError,
            >(CommandError::PublishFailed),
            r is Err ==> *final(state) == *old(state),
            r is Ok ==> command_logged(*old(state), *final(state), *command),
    {
        if !state.mqtt_connected {
            return Err(CommandError::NotConnected);
        }
        match &self.client {
            None => Err(CommandError::NotConnected),
            Some(client) => {
                let payload = command_payload(command);
                let accepted = request_publish(
                    client,
                    COMMAND_TOPIC,
                    rumqttc::QoS::AtLeastOnce,
                    false,
                    payload,
                ).is_ok();
                record_publish(state, command, accepted, now_micros())
            },
        }
    }
}

/// `after` is `before` with one more log entry, recording the publication of `c`;
/// nothing else changed.
pub open spec fn command_logged(before: AppState, after: AppState, c: Command) -> bool {
    &&& after.logs@.len() > 0
    &&& after.logs@ == append_spec(before.logs@, after.logs@.last(), HISTORY_CAPACITY as nat)
    &&& is_command_log(after.logs@.last(), c)
    &&& after.mqtt_connected == before.mqtt_connected
    &&& after.intercepted_messages == before.intercepted_messages
    &&& after.test_results == before.test_results
}

/// Settles a publish attempt on the broker's answer: an accepted request is
/// logged at time `now` and succeeds; a refused one fails and changes nothing.
pub fn record_publish(state: &mut AppState, command: &Command, accepted: bool, now: i64) -> (r:
    Result<(), CommandError>)
    requires
        old(state).wf(),
    ensures
        final(state).wf(),
        accepted ==> r == Ok::<(), CommandError>(()) && command_logged(
            *old(state),
            *final(state),
            *command,
        ) && final(state).logs@.last().timestamp == now,
        !accepted ==> r == Err::<(), CommandError>(CommandError::PublishFailed) && *final(state)
            == *old(state),
{
    if !accepted {
        return Err(CommandError::PublishFailed);
    }
    let entry = LogEntry {
        timestamp: now,
        level: String::from_str("INFO"),
        message: command_log_message(command),
        source: String::from_str("backend"),
    };
    state.add_log(entry);
    Ok(())
}

/// Validates a submitted command and, when both fields are non-empty, hands
/// it to the link for publication.
pub fn send_command(client: &MqttClient, state: &mut AppState, command: &Command) -> (r: Result<
    (),
    CommandError,
>)
    requires
        old(state).wf(),
    ensures
        final(state).wf(),
        !command.is_valid() ==> r == Err::<(), CommandError>(CommandError::InvalidCommand)
            && *final(state) == *old(state),
        command.is_valid() && !client.link_up(*old(state)) ==> r == Err::<(), CommandError>(
            CommandError::NotConnected,
        ) && *final(state) == *old(state),
        command.is_valid() && client.link_up(*old(state)) ==> r == Ok::<(), CommandError>(()) || r
            == Err::<(), CommandError>(CommandError::PublishFailed),
        r is Err ==> *final(state) == *old(state),
        r is Ok ==> command.is_valid() && command_logged(*old(state), *final(state), *command),
{
    if !command.validate() {
        return Err(CommandError::InvalidCommand);
    }
    client.publish_command(state, command)
}

/// The subscribed topics are pairwise distinct.
proof fn lemma_topics_distinct()
    ensures
        forall|a: int, b: int|
            0 <= a < 3 && 0 <= b < 3 && a != b ==> subscription_topics()[a] != subscription_topics()[b],
{
    reveal_strlit("secot/audit/intercepted");
    reveal_strlit("secot/audit/results");
    reveal_strlit("secot/audit/logs");
    assert(INTERCEPTED_TOPIC@[12] != RESULTS_TOPIC@[12]);
    assert(INTERCEPTED_TOPIC@[12] != LOGS_TOPIC@[12]);
    assert(RESULTS_TOPIC@[12] != LOGS_TOPIC@[12]);
}

} // verus!
