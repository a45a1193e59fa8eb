//! The decisions of the threaded client: when to try reconnecting, how long
//! to wait first, and which messages to hold while disconnected.

use vstd::prelude::*;
use vstd::arithmetic::power2::pow2;
use std::io;
use crate::codec::packet::MqttPublish;
use super::client::{ConnectionResult, PingResult, PublishResult, SubscribeResult, UnsubscribeResult};
use crate::keyed::{
    distinct_keys, has_key, lemma_map_push, lemma_map_remove, lemma_map_update, pairs_map,
};

verus! {

/// `std::io::Error`, carried through as an opaque value.
#[verifier::external_type_specification]
#[verifier::external_body]
pub struct ExIoError(io::Error);

/// What the threaded client reports to its handler.
pub enum MqttEvent {
    Connected(ConnectionResult),
    /// The reason code, when the server gave one.
    Disconnected(Option<u8>),
    Published(PublishResult),
    Subscribed(SubscribeResult),
    Unsubscribed(UnsubscribeResult),
    MessageReceived(MqttPublish),
    PingResponse(PingResult),
    Error(io::Error),
    /// The TLS peer certificate, for the application to check.
    PeerCertReceived(Vec<u8>),
    /// The connection was lost; a reconnection follows if enabled.
    ConnectionLost,
    /// A reconnection attempt, by number, is starting.
    ReconnectAttempt(u32),
    /// Pending operations were dropped on a clean reconnect.
    PendingOperationsCleared,
}

/// The callbacks through which the threaded client reports events; each
/// does nothing unless the application overrides it.
pub trait MqttEventHandler: Send {
    fn on_connected(&mut self, result: &ConnectionResult) {
        let _ = result;
    }

    fn on_disconnected(&mut self, reason: Option<u8>) {
        let _ = reason;
    }

    fn on_published(&mut self, result: &PublishResult) {
        let _ = result;
    }

    fn on_subscribed(&mut self, result: &SubscribeResult) {
        let _ = result;
    }

    fn on_unsubscribed(&mut self, result: &UnsubscribeResult) {
        let _ = result;
    }

    fn on_message_received(&mut self, publish: &MqttPublish) {
        let _ = publish;
    }

    fn on_ping_response(&mut self, result: &PingResult) {
        let _ = result;
    }

    fn on_error(&mut self, error: &io::Error) {
        let _ = error;
    }

    fn on_peer_cert_received(&mut self, cert: &[u8]) {
        let _ = cert;
    }

    fn on_connection_lost(&mut self) {
    }

    fn on_reconnect_attempt(&mut self, attempt: u32) {
        let _ = attempt;
    }

    fn on_pending_operations_cleared(&mut self) {
    }
}

/// How the threaded client behaves.
#[derive(Debug, Clone)]
pub struct AsyncClientConfig {
    /// Reconnect automatically when the connection is lost.
    pub auto_reconnect: bool,
    /// The first reconnect delay, in milliseconds.
    pub reconnect_delay_ms: u64,
    /// The longest reconnect delay, in milliseconds.
    pub max_reconnect_delay_ms: u64,
    /// The most reconnect attempts; 0 means no limit.
    pub max_reconnect_attempts: u32,
    /// The capacity of the command queue.
    pub command_queue_size: usize,
    /// Hold messages published while disconnected.
    pub buffer_messages: bool,
    /// The most messages held.
    pub max_buffer_size: usize,
}

impl Default for AsyncClientConfig {
    fn default() -> (r: Self)
        ensures
            r.auto_reconnect,
            r.reconnect_delay_ms == 1000,
            r.max_reconnect_delay_ms == 30000,
            r.max_reconnect_attempts == 0,
            r.command_queue_size == 100,
            r.buffer_messages,
            r.max_buffer_size == 1000,
    {
        AsyncClientConfig {
            auto_reconnect: true,
            reconnect_delay_ms: 1000,
            max_reconnect_delay_ms: 30000,
            max_reconnect_attempts: 0,
            command_queue_size: 100,
            buffer_messages: true,
            max_buffer_size: 1000,
        }
    }
}

/// The attempt number that follows `attempts`; it stays at `u32::MAX` once
/// there, so that with no limit attempts go on for ever.
pub open spec fn following_attempt(attempts: u32) -> u32 {
    if attempts < u32::MAX { (attempts + 1) as u32 } else { attempts }
}

/// The number of the next reconnect attempt after `attempts` of them, or
/// `None` when the limit is reached; a limit of 0 means no limit.
pub fn next_reconnect_attempt(config: &AsyncClientConfig, attempts: u32) -> (r: Option<u32>)
    ensures
        r == if config.max_reconnect_attempts > 0 && attempts >= config.max_reconnect_attempts {
            None
        } else {
            Some(following_attempt(attempts))
        },
{
    if config.max_reconnect_attempts > 0 && attempts >= config.max_reconnect_attempts {
        None
    } else if attempts < u32::MAX {
        Some(attempts + 1)
    } else {
        Some(attempts)
    }
}

/// The delay before reconnect attempt number `attempt`: the first delay
/// doubled for each attempt before it, but no more than the longest delay,
/// for any attempt number (a doubling past 64 bits is past the longest
/// delay).
pub fn reconnect_delay_ms(config: &AsyncClientConfig, attempt: u32) -> (r: u64)
    requires
        1 <= attempt,
    ensures
        r == backoff(*config, attempt),
{
    let delay = config.reconnect_delay_ms;
    let max = config.max_reconnect_delay_ms;
    let shift: u32 = attempt - 1;
    if delay == 0 {
        assert(0 * pow2(shift as nat) == 0) by (nonlinear_arith);
        return 0;
    }
    if shift >= 64 {
        proof {
            vstd::arithmetic::power2::lemma2_to64_rest();
            if shift > 64 {
                vstd::arithmetic::power2::lemma_pow2_strictly_increases(64, shift as nat);
            }
            assert(pow2(shift as nat) >= 0x1_0000_0000_0000_0000);
            assert(delay * pow2(shift as nat) >= pow2(shift as nat)) by (nonlinear_arith)
                requires
                    delay >= 1,
            ;
        }
        return max;
    }
    let s: u64 = shift as u64;
    proof {
        vstd::bits::lemma_u64_pow2_no_overflow(s as nat);
        vstd::bits::lemma_u64_shl_is_mul(1, s);
    }
    let factor: u64 = 1u64 << s;
    assert(factor == pow2(s as nat));
    match delay.checked_mul(factor) {
        Some(d) => if d < max { d } else { max },
        None => max,
    }
}

/// The held messages after `m` is offered to a buffer of at most `max`: it
/// is appended when there is room; when the buffer is full the oldest
/// message leaves to make room (first in, first out), so the length stays
/// at the limit; with a limit of 0 nothing is held.
pub open spec fn held_after<M>(b: Seq<M>, max: usize, m: M) -> Seq<M> {
    if b.len() < max {
        b.push(m)
    } else if max > 0 {
        b.drop_first().push(m)
    } else {
        b
    }
}

fn hold(buffer: &mut Vec<(String, Vec<u8>, u8, bool)>, max: usize, m: (String, Vec<u8>, u8, bool))
    ensures
        message_views(final(buffer)@) == held_after(message_views(old(buffer)@), max, (m.0@, m.1@, m.2, m.3)),
{
    let ghost mv = (m.0@, m.1@, m.2, m.3);
    let ghost b0 = message_views(buffer@);
    if buffer.len() < max {
        buffer.push(m);
        assert(message_views(buffer@) =~= b0.push(mv));
    } else if max > 0 {
        buffer.remove(0);
        assert(message_views(buffer@) =~= b0.drop_first());
        buffer.push(m);
        assert(message_views(buffer@) =~= b0.drop_first().push(mv));
    }
}

/// Holds a message published while disconnected in a buffer of at most
/// `max` messages; when the buffer is full the oldest message is dropped
/// to make room. Says whether the message was held (always, unless `max`
/// is 0).
pub fn buffer_message(
    buffer: &mut Vec<(String, Vec<u8>, u8, bool)>,
    max: usize,
    topic: &str,
    payload: &[u8],
    qos: u8,
    retain: bool,
) -> (held: bool)
    ensures
        held == (max > 0),
        message_views(final(buffer)@) == held_after(message_views(old(buffer)@), max, (topic@, payload@, qos, retain)),
{
    let p = vstd::slice::slice_to_vec(payload);
    hold(buffer, max, (topic.to_owned(), p, qos, retain));
    max > 0
}

/// The (topic, QoS) pairs of a list of subscriptions.
pub open spec fn subscription_pairs(entries: Seq<(String, u8)>) -> Seq<(Seq<char>, u8)> {
    entries.map_values(|e: (String, u8)| (e.0@, e.1))
}

/// The topics the threaded client still has to subscribe to, each with the
/// QoS asked for; a topic appears at most once.
pub struct PendingSubscriptions {
    entries: Vec<(String, u8)>,
}

impl View for PendingSubscriptions {
    type V = Map<Seq<char>, u8>;

    closed spec fn view(&self) -> Map<Seq<char>, u8> {
        pairs_map(subscription_pairs(self.entries@))
    }
}

impl PendingSubscriptions {
    /// No topic appears twice.
    pub closed spec fn wf(&self) -> bool {
        distinct_keys(subscription_pairs(self.entries@))
    }

    /// No pending subscription.
    pub fn new() -> (r: Self)
        ensures
            r.wf(),
            r@ == Map::<Seq<char>, u8>::empty(),
    {
        let r = PendingSubscriptions { entries: Vec::new() };
        assert(r@ =~= Map::<Seq<char>, u8>::empty());
        r
    }

    fn position_of(&self, topic: &String) -> (r: Option<usize>)
        requires
            self.wf(),
        ensures
            match r {
                Some(i) => i < self.entries@.len() && self.entries@[i as int].0@ == topic@,
                None => !has_key(subscription_pairs(self.entries@), topic@),
            },
    {
        let ghost s = subscription_pairs(self.entries@);
        let mut i: usize = 0;
        while i < self.entries.len()
            invariant
                i <= self.entries@.len(),
                s == subscription_pairs(self.entries@),
                forall|j: int| 0 <= j < i ==> (#[trigger] s[j]).0 != topic@,
            decreases self.entries@.len() - i,
        {
            if self.entries[i].0 == *topic {
                return Some(i);
            }
            assert(s[i as int].0 == self.entries@[i as int].0@);
            i += 1;
        }
        None
    }

    /// Records `topic` at `qos`, replacing an earlier QoS for it.
    pub fn insert(&mut self, topic: String, qos: u8)
        requires
            old(self).wf(),
        ensures
            final(self).wf(),
            final(self)@ == old(self)@.insert(topic@, qos),
    {
        let ghost s = subscription_pairs(self.entries@);
        match self.position_of(&topic) {
            Some(i) => {
                self.entries.set(i, (topic, qos));
                proof {
                    lemma_map_update(s, i as int, qos);
                    assert(subscription_pairs(self.entries@) =~= s.update(i as int, (s[i as int].0, qos)));
                }
            },
            None => {
                self.entries.push((topic, qos));
                proof {
                    lemma_map_push(s, topic@, qos);
                    assert(subscription_pairs(self.entries@) =~= s.push((topic@, qos)));
                }
            },
        }
    }

    /// Forgets `topic`.
    pub fn remove(&mut self, topic: &String)
        requires
            old(self).wf(),
        ensures
            final(self).wf(),
            final(self)@ == old(self)@.remove(topic@),
    {
        let ghost s = subscription_pairs(self.entries@);
        match self.position_of(topic) {
            Some(i) => {
                self.entries.remove(i);
                proof {
                    lemma_map_remove(s, i as int);
                    assert(subscription_pairs(self.entries@) =~= s.remove(i as int));
                }
            },
            None => {
                assert(pairs_map(s).remove(topic@) =~= pairs_map(s));
            },
        }
    }

    /// Every pending subscription once, as (topic, QoS) pairs.
    pub fn to_vec(&self) -> (r: Vec<(String, u8)>)
        requires
            self.wf(),
        ensures
            distinct_keys(subscription_pairs(r@)),
            pairs_map(subscription_pairs(r@)) == self@,
    {
        let mut r: Vec<(String, u8)> = Vec::new();
        let mut i: usize = 0;
        while i < self.entries.len()
            invariant
                i <= self.entries@.len(),
                r@.len() == i,
                forall|j: int| 0 <= j < i ==> (#[trigger] r@[j]).0 == self.entries@[j].0 && r@[j].1 == self.entries@[j].1,
            decreases self.entries@.len() - i,
        {
            let e = &self.entries[i];
            r.push((e.0.clone(), e.1));
            i += 1;
        }
        assert(subscription_pairs(r@) =~= subscription_pairs(self.entries@));
        r
    }
}

/// A request from the application to the threaded client's worker.
#[derive(Debug, Clone, PartialEq)]
pub enum ClientCommand {
    Connect,
    Subscribe { topic: String, qos: u8 },
    Publish { topic: String, payload: Vec<u8>, qos: u8, retain: bool },
    Unsubscribe { topics: Vec<String> },
    Ping,
    Disconnect,
    Shutdown,
    SetAutoReconnect { enabled: bool },
}

/// What the worker does next with the connection.
#[derive(Debug, Clone, PartialEq)]
pub enum WorkerStep {
    /// Nothing.
    Idle,
    /// Connect and wait for CONNACK, then report with `connect_done`.
    Connect,
    /// Subscribe and wait for SUBACK, then report with `subscribe_done`.
    Subscribe { topic: String, qos: u8 },
    /// Publish and wait for the acknowledgements; report a failure with
    /// `publish_failed`.
    Publish { topic: String, payload: Vec<u8>, qos: u8, retain: bool },
    /// Unsubscribe and wait for UNSUBACK, then report with `unsubscribe_done`.
    Unsubscribe { topics: Vec<String> },
    /// Ping and wait for PINGRESP; a failure is a lost connection.
    Ping,
    /// Send DISCONNECT and report with `disconnect_done`; the worker stops
    /// afterwards when `stop` is set.
    Disconnect { stop: bool },
    /// Stop the worker.
    Stop,
}

/// What follows a connection attempt or a lost connection.
#[derive(Debug, Clone, PartialEq)]
pub enum FollowUp {
    Nothing,
    /// Publish these held messages, then subscribe to these topics.
    Replay { messages: Vec<(String, Vec<u8>, u8, bool)>, subscriptions: Vec<(String, u8)> },
    /// Wait `delay_ms`, then connect again as attempt number `attempt`.
    Reconnect { attempt: u32, delay_ms: u64 },
}

/// The views of held messages.
pub open spec fn message_views(b: Seq<(String, Vec<u8>, u8, bool)>) -> Seq<(Seq<char>, Seq<u8>, u8, bool)> {
    b.map_values(|m: (String, Vec<u8>, u8, bool)| (m.0@, m.1@, m.2, m.3))
}

/// The abstract state of the threaded client's worker.
pub struct WorkerV {
    pub config: AsyncClientConfig,
    pub is_connected: bool,
    pub reconnect_attempts: u32,
    /// Messages published while disconnected, oldest first.
    pub buffer: Seq<(Seq<char>, Seq<u8>, u8, bool)>,
    /// Subscriptions still to make, by topic.
    pub pending: Map<Seq<char>, u8>,
}

/// The buffer after a message is offered to it: held, first in first out,
/// when buffering is on.
pub open spec fn offered(v: WorkerV, m: (Seq<char>, Seq<u8>, u8, bool)) -> Seq<(Seq<char>, Seq<u8>, u8, bool)> {
    if v.config.buffer_messages {
        held_after(v.buffer, v.config.max_buffer_size, m)
    } else {
        v.buffer
    }
}

/// The pending subscriptions without the given topics.
pub open spec fn without_topics(m: Map<Seq<char>, u8>, topics: Seq<Seq<char>>) -> Map<Seq<char>, u8>
    decreases topics.len(),
{
    if topics.len() == 0 {
        m
    } else {
        without_topics(m, topics.drop_last()).remove(topics.last())
    }
}

/// The delay before reconnect attempt `attempt`.
pub open spec fn backoff(config: AsyncClientConfig, attempt: u32) -> int {
    if config.reconnect_delay_ms * pow2((attempt - 1) as nat) <= config.max_reconnect_delay_ms {
        config.reconnect_delay_ms * pow2((attempt - 1) as nat)
    } else {
        config.max_reconnect_delay_ms as int
    }
}

/// Whether the attempt limit has been reached.
pub open spec fn attempts_exhausted(v: WorkerV) -> bool {
    v.config.max_reconnect_attempts > 0 && v.reconnect_attempts >= v.config.max_reconnect_attempts
}

/// What scheduling a reconnection gives: nothing once the attempts are
/// exhausted, else the next attempt with its delay.
pub open spec fn planned_reconnect(v: WorkerV) -> FollowUp {
    if attempts_exhausted(v) {
        FollowUp::Nothing
    } else {
        FollowUp::Reconnect {
            attempt: following_attempt(v.reconnect_attempts),
            delay_ms: backoff(v.config, following_attempt(v.reconnect_attempts)) as u64,
        }
    }
}

/// The attempt counter after scheduling a reconnection.
pub open spec fn attempts_after_planning(v: WorkerV) -> u32 {
    if attempts_exhausted(v) { v.reconnect_attempts } else { following_attempt(v.reconnect_attempts) }
}

/// The threaded client's worker: whether it is connected, its reconnect
/// attempts, the messages it holds while disconnected and the
/// subscriptions it still has to make. The connection is driven by the
/// caller, which performs each step and reports how it went.
pub struct ClientWorker {
    config: AsyncClientConfig,
    is_connected: bool,
    reconnect_attempts: u32,
    message_buffer: Vec<(String, Vec<u8>, u8, bool)>,
    pending_subscribes: PendingSubscriptions,
}

impl View for ClientWorker {
    type V = WorkerV;

    closed spec fn view(&self) -> WorkerV {
        WorkerV {
            config: self.config,
            is_connected: self.is_connected,
            reconnect_attempts: self.reconnect_attempts,
            buffer: message_views(self.message_buffer@),
            pending: self.pending_subscribes@,
        }
    }
}

impl ClientWorker {
    pub closed spec fn wf(&self) -> bool {
        self.pending_subscribes.wf()
    }

    /// A disconnected worker with nothing held or pending.
    pub fn new(config: AsyncClientConfig) -> (r: Self)
        ensures
            r.wf(),
            r@ == (WorkerV {
                config,
                is_connected: false,
                reconnect_attempts: 0,
                buffer: seq![],
                pending: Map::empty(),
            }),
    {
        let r = ClientWorker {
            config,
            is_connected: false,
            reconnect_attempts: 0,
            message_buffer: Vec::new(),
            pending_subscribes: PendingSubscriptions::new(),
        };
        assert(r@.buffer =~= seq![]);
        r
    }

    /// The worker's configuration.
    pub fn config(&self) -> (r: &AsyncClientConfig)
        ensures
            *r == self@.config,
    {
        &self.config
    }

    /// Whether the worker is connected.
    pub fn is_connected(&self) -> (r: bool)
        ensures
            r == self@.is_connected,
    {
        self.is_connected
    }

    fn offer(&mut self, topic: String, payload: Vec<u8>, qos: u8, retain: bool)
        ensures
            final(self).wf() == old(self).wf(),
            final(self)@ == (WorkerV { buffer: offered(old(self)@, (topic@, payload@, qos, retain)), ..old(self)@ }),
    {
        if self.config.buffer_messages {
            hold(&mut self.message_buffer, self.config.max_buffer_size, (topic, payload, qos, retain));
        }
    }

    /// Takes a command from the application. While disconnected, a
    /// subscription becomes pending, a publication is held if buffering is
    /// on (the oldest held message leaving when the buffer is full), and an
    /// unsubscription drops its topics from
    /// the pending subscriptions; ping and disconnect do nothing.
    pub fn handle_command(&mut self, command: ClientCommand) -> (r: WorkerStep)
        requires
            old(self).wf(),
        ensures
            final(self).wf(),
            match command {
                ClientCommand::Connect => r == WorkerStep::Connect && final(self)@ == old(self)@,
                ClientCommand::Subscribe { topic, qos } => if old(self)@.is_connected {
                    r == (WorkerStep::Subscribe { topic, qos }) && final(self)@ == old(self)@
                } else {
                    r == WorkerStep::Idle && final(self)@ == (WorkerV {
                        pending: old(self)@.pending.insert(topic@, qos),
                        ..old(self)@
                    })
                },
                ClientCommand::Publish { topic, payload, qos, retain } => if old(self)@.is_connected {
                    r == (WorkerStep::Publish { topic, payload, qos, retain }) && final(self)@ == old(self)@
                } else {
                    r == WorkerStep::Idle && final(self)@ == (WorkerV {
                        buffer: offered(old(self)@, (topic@, payload@, qos, retain)),
                        ..old(self)@
                    })
                },
                ClientCommand::Unsubscribe { topics } => if old(self)@.is_connected {
                    r == (WorkerStep::Unsubscribe { topics }) && final(self)@ == old(self)@
                } else {
                    r == WorkerStep::Idle && final(self)@ == (WorkerV {
                        pending: without_topics(old(self)@.pending, topics@.map_values(|t: String| t@)),
                        ..old(self)@
                    })
                },
                ClientCommand::Ping => r == (if old(self)@.is_connected { WorkerStep::Ping } else { WorkerStep::Idle })
                    && final(self)@ == old(self)@,
                ClientCommand::Disconnect => r == (if old(self)@.is_connected {
                    WorkerStep::Disconnect { stop: false }
                } else {
                    WorkerStep::Idle
                }) && final(self)@ == old(self)@,
                ClientCommand::Shutdown => r == (if old(self)@.is_connected {
                    WorkerStep::Disconnect { stop: true }
                } else {
                    WorkerStep::Stop
                }) && final(self)@ == old(self)@,
                ClientCommand::SetAutoReconnect { .. } => r == WorkerStep::Idle && final(self)@ == old(self)@,
            },
    {
        match command {
            ClientCommand::Connect => WorkerStep::Connect,
            ClientCommand::Subscribe { topic, qos } => {
                if self.is_connected {
                    WorkerStep::Subscribe { topic, qos }
                } else {
                    self.pending_subscribes.insert(topic, qos);
                    WorkerStep::Idle
                }
            },
            ClientCommand::Publish { topic, payload, qos, retain } => {
                if self.is_connected {
                    WorkerStep::Publish { topic, payload, qos, retain }
                } else {
                    self.offer(topic, payload, qos, retain);
                    WorkerStep::Idle
                }
            },
            ClientCommand::Unsubscribe { topics } => {
                if self.is_connected {
                    WorkerStep::Unsubscribe { topics }
                } else {
                    self.drop_pending(&topics);
                    WorkerStep::Idle
                }
            },
            ClientCommand::Ping => if self.is_connected { WorkerStep::Ping } else { WorkerStep::Idle },
            ClientCommand::Disconnect => {
                if self.is_connected {
                    WorkerStep::Disconnect { stop: false }
                } else {
                    WorkerStep::Idle
                }
            },
            ClientCommand::Shutdown => {
                if self.is_connected {
                    WorkerStep::Disconnect { stop: true }
                } else {
                    WorkerStep::Stop
                }
            },
            ClientCommand::SetAutoReconnect { .. } => WorkerStep::Idle,
        }
    }

    fn drop_pending(&mut self, topics: &Vec<String>)
        requires
            old(self).wf(),
        ensures
            final(self).wf(),
            final(self)@ == (WorkerV {
                pending: without_topics(old(self)@.pending, topics@.map_values(|t: String| t@)),
                ..old(self)@
            }),
    {
        let ghost ts = topics@.map_values(|t: String| t@);
        let mut i: usize = 0;
        while i < topics.len()
            invariant
                i <= topics@.len(),
                ts == topics@.map_values(|t: String| t@),
                self.wf(),
                self@ == (WorkerV { pending: without_topics(old(self)@.pending, ts.take(i as int)), ..old(self)@ }),
            decreases topics@.len() - i,
        {
            self.pending_subscribes.remove(&topics[i]);
            assert(ts.take(i + 1).drop_last() == ts.take(i as int));
            i += 1;
        }
        assert(ts.take(i as int) == ts);
    }

    /// Plans the next reconnection: none once the attempts are exhausted,
    /// else the next attempt with a delay that doubles per attempt up to
    /// the longest delay.
    fn schedule_reconnect(&mut self) -> (r: FollowUp)
        requires
            old(self).wf(),
        ensures
            final(self).wf(),
            r == planned_reconnect(old(self)@),
            final(self)@ == (WorkerV { reconnect_attempts: attempts_after_planning(old(self)@), ..old(self)@ }),
    {
        match next_reconnect_attempt(&self.config, self.reconnect_attempts) {
            None => FollowUp::Nothing,
            Some(attempt) => {
                let delay_ms = reconnect_delay_ms(&self.config, attempt);
                self.reconnect_attempts = attempt;
                FollowUp::Reconnect { attempt, delay_ms }
            },
        }
    }

    /// Takes the outcome of a connection attempt: `Some(accepted)` when a
    /// CONNACK came back, `None` when the attempt failed. A CONNACK resets
    /// the attempts and sets the connection state; an accepted one hands
    /// back the held messages and the pending subscriptions to replay. A
    /// failure plans a reconnection when reconnecting is enabled.
    pub fn connect_done(&mut self, outcome: Option<bool>) -> (r: FollowUp)
        requires
            old(self).wf(),
        ensures
            final(self).wf(),
            match outcome {
                Some(true) => {
                    &&& r matches FollowUp::Replay { messages, subscriptions }
                    &&& message_views(messages@) == old(self)@.buffer
                    &&& distinct_keys(subscription_pairs(subscriptions@))
                    &&& pairs_map(subscription_pairs(subscriptions@)) == old(self)@.pending
                    &&& final(self)@ == (WorkerV {
                        is_connected: true,
                        reconnect_attempts: 0,
                        buffer: seq![],
                        ..old(self)@
                    })
                },
                Some(false) => r == FollowUp::Nothing && final(self)@ == (WorkerV {
                    is_connected: false,
                    reconnect_attempts: 0,
                    ..old(self)@
                }),
                None => if old(self)@.config.auto_reconnect {
                    r == planned_reconnect(old(self)@) && final(self)@ == (WorkerV {
                        reconnect_attempts: attempts_after_planning(old(self)@),
                        ..old(self)@
                    })
                } else {
                    r == FollowUp::Nothing && final(self)@ == old(self)@
                },
            },
    {
        match outcome {
            Some(accepted) => {
                self.is_connected = accepted;
                self.reconnect_attempts = 0;
                if accepted {
                    let mut messages: Vec<(String, Vec<u8>, u8, bool)> = Vec::new();
                    std::mem::swap(&mut messages, &mut self.message_buffer);
                    let subscriptions = self.pending_subscribes.to_vec();
                    assert(message_views(self.message_buffer@) =~= seq![]);
                    FollowUp::Replay { messages, subscriptions }
                } else {
                    FollowUp::Nothing
                }
            },
            None => {
                if self.config.auto_reconnect {
                    self.schedule_reconnect()
                } else {
                    FollowUp::Nothing
                }
            },
        }
    }

    /// Takes the outcome of a subscription: `Some(granted)` when a SUBACK
    /// came back, `None` when the request failed. A fully granted
    /// subscription is no longer pending; a failed one becomes pending.
    pub fn subscribe_done(&mut self, topic: String, qos: u8, outcome: Option<bool>)
        requires
            old(self).wf(),
        ensures
            final(self).wf(),
            final(self)@ == match outcome {
                Some(true) => WorkerV { pending: old(self)@.pending.remove(topic@), ..old(self)@ },
                Some(false) => old(self)@,
                None => WorkerV { pending: old(self)@.pending.insert(topic@, qos), ..old(self)@ },
            },
    {
        match outcome {
            Some(true) => self.pending_subscribes.remove(&topic),
            Some(false) => {},
            None => self.pending_subscribes.insert(topic, qos),
        }
    }

    /// Takes a publication that failed: it is held if buffering is on and
    /// there is room.
    pub fn publish_failed(&mut self, topic: String, payload: Vec<u8>, qos: u8, retain: bool)
        ensures
            final(self).wf() == old(self).wf(),
            final(self)@ == (WorkerV { buffer: offered(old(self)@, (topic@, payload@, qos, retain)), ..old(self)@ }),
    {
        self.offer(topic, payload, qos, retain);
    }

    /// Takes the outcome of an unsubscription: once answered, its topics are
    /// no longer pending.
    pub fn unsubscribe_done(&mut self, topics: &Vec<String>, answered: bool)
        requires
            old(self).wf(),
        ensures
            final(self).wf(),
            final(self)@ == if answered {
                WorkerV { pending: without_topics(old(self)@.pending, topics@.map_values(|t: String| t@)), ..old(self)@ }
            } else {
                old(self)@
            },
    {
        if answered {
            self.drop_pending(topics);
        }
    }

    /// DISCONNECT has been sent, or sending it failed: either way the worker
    /// is disconnected.
    pub fn disconnect_done(&mut self)
        ensures
            final(self).wf() == old(self).wf(),
            final(self)@ == (WorkerV { is_connected: false, ..old(self)@ }),
    {
        self.is_connected = false;
    }

    /// The connection failed. When it was up, the worker is disconnected
    /// (the first result is true: the loss is reported) and plans a
    /// reconnection if reconnecting is enabled; otherwise nothing happens.
    pub fn connection_lost(&mut self) -> (r: (bool, FollowUp))
        requires
            old(self).wf(),
        ensures
            final(self).wf(),
            !old(self)@.is_connected ==> r == (false, FollowUp::Nothing) && final(self)@ == old(self)@,
            old(self)@.is_connected && !old(self)@.config.auto_reconnect ==> r == (true, FollowUp::Nothing)
                && final(self)@ == (WorkerV { is_connected: false, ..old(self)@ }),
            old(self)@.is_connected && old(self)@.config.auto_reconnect ==> r == (true, planned_reconnect(old(self)@))
                && final(self)@ == (WorkerV {
                    is_connected: false,
                    reconnect_attempts: attempts_after_planning(old(self)@),
                    ..old(self)@
                }),
    {
        if self.is_connected {
            self.is_connected = false;
            if self.config.auto_reconnect {
                (true, self.schedule_reconnect())
            } else {
                (true, FollowUp::Nothing)
            }
        } else {
            (false, FollowUp::Nothing)
        }
    }
}

/// Reconnect delays never exceed the longest delay, and a later attempt
/// never waits less than an earlier one.
pub proof fn law_backoff_capped_and_growing(config: AsyncClientConfig, a: u32, b: u32)
    requires
        1 <= a <= b,
    ensures
        backoff(config, b) <= config.max_reconnect_delay_ms,
        backoff(config, a) <= backoff(config, b),
{
    if a < b {
        vstd::arithmetic::power2::lemma_pow2_strictly_increases((a - 1) as nat, (b - 1) as nat);
        vstd::arithmetic::mul::lemma_mul_inequality(
            pow2((a - 1) as nat) as int,
            pow2((b - 1) as nat) as int,
            config.reconnect_delay_ms as int,
        );
        assert(config.reconnect_delay_ms * pow2((a - 1) as nat) <= config.reconnect_delay_ms * pow2((b - 1) as nat))
            by (nonlinear_arith)
            requires
                pow2((a - 1) as nat) * config.reconnect_delay_ms <= pow2((b - 1) as nat) * config.reconnect_delay_ms,
        ;
    }
}

/// With a limit on reconnect attempts, planning a reconnection never takes
/// the attempt count past the limit, and once the limit is reached no
/// further attempt is planned.
pub proof fn law_attempts_bounded(v: WorkerV)
    requires
        v.config.max_reconnect_attempts > 0,
        v.reconnect_attempts <= v.config.max_reconnect_attempts,
    ensures
        attempts_after_planning(v) <= v.config.max_reconnect_attempts,
        v.reconnect_attempts == v.config.max_reconnect_attempts ==> planned_reconnect(v) == FollowUp::Nothing,
{
}

/// Held messages stay in the order they came. A message offered while
/// disconnected, with buffering on and a nonzero limit, becomes the newest
/// held message; when the buffer was full, the oldest message has left and
/// the length stays at the limit; otherwise nothing leaves. The replay
/// after an accepted connection hands the held messages back in that order.
pub proof fn law_held_messages_keep_their_order(v: WorkerV, m: (Seq<char>, Seq<u8>, u8, bool))
    requires
        v.config.buffer_messages,
        v.config.max_buffer_size > 0,
        v.buffer.len() <= v.config.max_buffer_size,
    ensures
        offered(v, m).last() == m,
        offered(v, m).len() <= v.config.max_buffer_size,
        v.buffer.len() < v.config.max_buffer_size ==> offered(v, m).drop_last() == v.buffer,
        v.buffer.len() == v.config.max_buffer_size ==> offered(v, m).drop_last() == v.buffer.drop_first()
            && offered(v, m).len() == v.config.max_buffer_size,
{
    assert(offered(v, m).drop_last() =~= if v.buffer.len() < v.config.max_buffer_size {
        v.buffer
    } else {
        v.buffer.drop_first()
    });
}

/// With no limit on attempts (a limit of 0), a reconnection is always
/// planned, for any number of earlier attempts, and it waits no longer than
/// the longest delay.
pub proof fn law_unlimited_attempts_never_stop(v: WorkerV)
    requires
        v.config.max_reconnect_attempts == 0,
    ensures
        planned_reconnect(v) matches FollowUp::Reconnect { attempt, delay_ms } && attempt >= 1
            && delay_ms == backoff(v.config, attempt) && delay_ms <= v.config.max_reconnect_delay_ms,
{
    law_backoff_capped_and_growing(v.config, following_attempt(v.reconnect_attempts), following_attempt(v.reconnect_attempts));
}

} // verus!
