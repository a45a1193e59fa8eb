//! The completion decisions of the tokio client's worker: which waiting
//! request completes with which result when the engine reports an event,
//! and when waiting requests fail. A waiter is known by a token that the
//! caller hands in and that stands for its reply channel.

use vstd::prelude::*;
use crate::codec::property::{copy_properties, views, PropertyV};
use crate::keyed::{distinct_keys, has_key, lemma_map_at, lemma_map_push, lemma_map_remove, lemma_map_update, pairs_map};
use super::client::{ConnectionResult, PingResult, PublishResult, SubscribeResult, UnsubscribeResult};
use super::engine::MqttEvent;
use super::error::{copy_error, MqttClientError};

verus! {

/// Requests that wait for the acknowledgement of a packet identifier, each
/// with the token of its waiter; an identifier appears at most once.
pub struct IdWaiters {
    entries: Vec<(u16, u64)>,
}

impl View for IdWaiters {
    type V = Map<u16, u64>;

    closed spec fn view(&self) -> Map<u16, u64> {
        pairs_map(self.entries@)
    }
}

impl IdWaiters {
    pub closed spec fn wf(&self) -> bool {
        distinct_keys(self.entries@)
    }

    /// No waiter.
    pub fn new() -> (r: Self)
        ensures
            r.wf(),
            r@ == Map::<u16, u64>::empty(),
    {
        let r = IdWaiters { entries: Vec::new() };
        assert(r@ =~= Map::<u16, u64>::empty());
        r
    }

    fn position_of(&self, id: u16) -> (r: Option<usize>)
        requires
            self.wf(),
        ensures
            match r {
                Some(i) => i < self.entries@.len() && self.entries@[i as int].0 == id,
                None => !has_key(self.entries@, id),
            },
    {
        let mut i: usize = 0;
        while i < self.entries.len()
            invariant
                i <= self.entries@.len(),
                forall|j: int| 0 <= j < i ==> (#[trigger] self.entries@[j]).0 != id,
            decreases self.entries@.len() - i,
        {
            if self.entries[i].0 == id {
                return Some(i);
            }
            i += 1;
        }
        None
    }

    /// Makes `token` the waiter for `id`; gives back the waiter it replaces.
    pub fn insert(&mut self, id: u16, token: u64) -> (r: Option<u64>)
        requires
            old(self).wf(),
        ensures
            final(self).wf(),
            final(self)@ == old(self)@.insert(id, token),
            r == (if old(self)@.contains_key(id) { Some(old(self)@[id]) } else { None }),
    {
        let ghost s = self.entries@;
        match self.position_of(id) {
            Some(i) => {
                let old_token = self.entries[i].1;
                proof {
                    lemma_map_at(s, i as int);
                }
                self.entries.set(i, (id, token));
                proof {
                    lemma_map_update(s, i as int, token);
                }
                Some(old_token)
            },
            None => {
                self.entries.push((id, token));
                proof {
                    lemma_map_push(s, id, token);
                }
                None
            },
        }
    }

    /// Takes the waiter for `id`, if there is one.
    pub fn take(&mut self, id: u16) -> (r: Option<u64>)
        requires
            old(self).wf(),
        ensures
            final(self).wf(),
            final(self)@ == old(self)@.remove(id),
            r == (if old(self)@.contains_key(id) { Some(old(self)@[id]) } else { None }),
    {
        let ghost s = self.entries@;
        match self.position_of(id) {
            Some(i) => {
                let (_, token) = self.entries.remove(i);
                proof {
                    lemma_map_at(s, i as int);
                    lemma_map_remove(s, i as int);
                }
                Some(token)
            },
            None => {
                assert(pairs_map(s).remove(id) =~= pairs_map(s));
                None
            },
        }
    }

    /// Takes every waiter: each token that waited comes out, and only those.
    pub fn drain(&mut self) -> (r: Vec<u64>)
        requires
            old(self).wf(),
        ensures
            final(self).wf(),
            final(self)@ == Map::<u16, u64>::empty(),
            forall|id: u16| #[trigger] old(self)@.contains_key(id) ==> r@.contains(old(self)@[id]),
            forall|i: int| 0 <= i < r@.len() ==> old(self)@.contains_value(#[trigger] r@[i]),
    {
        let ghost s = self.entries@;
        let mut r: Vec<u64> = Vec::new();
        let mut i: usize = 0;
        while i < self.entries.len()
            invariant
                i <= self.entries@.len(),
                s == self.entries@,
                r@.len() == i,
                forall|j: int| 0 <= j < i ==> r@[j] == (#[trigger] s[j]).1,
            decreases self.entries@.len() - i,
        {
            r.push(self.entries[i].1);
            i += 1;
        }
        assert forall|id: u16| #[trigger] pairs_map(s).contains_key(id) implies r@.contains(pairs_map(s)[id]) by {
            let j = choose|j: int| 0 <= j < s.len() && (#[trigger] s[j]).0 == id;
            lemma_map_at(s, j);
            assert(r@[j] == s[j].1);
        }
        assert forall|k: int| 0 <= k < r@.len() implies pairs_map(s).contains_value(#[trigger] r@[k]) by {
            lemma_map_at(s, k);
            assert(r@[k] == s[k].1);
            assert(pairs_map(s).dom().contains(s[k].0) && pairs_map(s)[s[k].0] == r@[k]);
        }
        assert(old(self)@ == pairs_map(s));
        self.entries = Vec::new();
        assert(self@ =~= Map::<u16, u64>::empty());
        r
    }
}

/// What a waiter receives.
#[derive(Debug, Clone, PartialEq)]
pub enum Completion {
    Connected(ConnectionResult),
    Published(PublishResult),
    Subscribed(SubscribeResult),
    Unsubscribed(UnsubscribeResult),
    Pinged(PingResult),
    Failed(MqttClientError),
}

/// The requests waiting for a reply: connections, pings, and publications,
/// subscriptions and unsubscriptions by packet identifier.
pub struct Waiters {
    connect: Vec<u64>,
    ping: Vec<u64>,
    publish: IdWaiters,
    subscribe: IdWaiters,
    unsubscribe: IdWaiters,
}

/// The abstract state of the waiters.
pub struct WaitersV {
    pub connect: Seq<u64>,
    pub ping: Seq<u64>,
    pub publish: Map<u16, u64>,
    pub subscribe: Map<u16, u64>,
    pub unsubscribe: Map<u16, u64>,
}

impl View for Waiters {
    type V = WaitersV;

    closed spec fn view(&self) -> WaitersV {
        WaitersV {
            connect: self.connect@,
            ping: self.ping@,
            publish: self.publish@,
            subscribe: self.subscribe@,
            unsubscribe: self.unsubscribe@,
        }
    }
}

/// The view of a connection result.
pub open spec fn conn_view(c: ConnectionResult) -> (u8, bool, Option<Seq<PropertyV>>) {
    (c.reason_code, c.session_present, match c.properties {
        Some(ps) => Some(views(ps@)),
        None => None,
    })
}

/// A copy of a connection result.
pub fn copy_connection_result(c: &ConnectionResult) -> (r: ConnectionResult)
    ensures
        conn_view(r) == conn_view(*c),
{
    ConnectionResult {
        reason_code: c.reason_code,
        session_present: c.session_present,
        properties: match &c.properties {
            Some(ps) => Some(copy_properties(ps)),
            None => None,
        },
    }
}

/// Each token failing with `e`, in order.
pub open spec fn failures(ts: Seq<u64>, e: MqttClientError) -> Seq<(u64, Completion)> {
    ts.map_values(|t: u64| (t, Completion::Failed(e)))
}

/// Appends a failure with `e` for each token.
fn fail_tokens(out: &mut Vec<(u64, Completion)>, ts: &Vec<u64>, e: &MqttClientError)
    ensures
        final(out)@ == old(out)@ + failures(ts@, *e),
{
    let ghost o = out@;
    let mut i: usize = 0;
    while i < ts.len()
        invariant
            i <= ts@.len(),
            out@ == o + failures(ts@.take(i as int), *e),
        decreases ts@.len() - i,
    {
        out.push((ts[i], Completion::Failed(copy_error(e))));
        assert(failures(ts@.take(i + 1), *e) =~= failures(ts@.take(i as int), *e).push((ts@[i as int], Completion::Failed(*e))));
        i += 1;
    }
    assert(ts@.take(i as int) =~= ts@);
}

impl Waiters {
    pub closed spec fn wf(&self) -> bool {
        self.publish.wf() && self.subscribe.wf() && self.unsubscribe.wf()
    }

    /// Nothing waits.
    pub fn new() -> (r: Self)
        ensures
            r.wf(),
            r@ == (WaitersV {
                connect: seq![],
                ping: seq![],
                publish: Map::empty(),
                subscribe: Map::empty(),
                unsubscribe: Map::empty(),
            }),
    {
        let r = Waiters {
            connect: Vec::new(),
            ping: Vec::new(),
            publish: IdWaiters::new(),
            subscribe: IdWaiters::new(),
            unsubscribe: IdWaiters::new(),
        };
        assert(r@.connect =~= seq![]);
        assert(r@.ping =~= seq![]);
        r
    }
}

/// The state of the worker's connection.
#[derive(Debug, Clone, PartialEq)]
pub enum ConnState {
    Disconnected,
    Connecting,
    Connected(ConnectionResult),
    Disconnecting,
}

/// What the worker does after an event, besides completing waiters.
#[derive(Debug, Clone, PartialEq)]
pub enum Follow {
    Nothing,
    /// The connection is lost, with the reason code if there is one.
    Lost { reason: Option<u8> },
    /// Open a new transport to reconnect.
    OpenTransport,
}

/// The outcome of an event: the waiters it completes, and what follows.
#[derive(Debug, Clone, PartialEq)]
pub struct EventStep {
    pub completions: Vec<(u64, Completion)>,
    pub follow: Follow,
}

/// Each connect waiter of `ts` receives a copy of `c`, in order.
pub open spec fn all_connected(ts: Seq<u64>, out: Seq<(u64, Completion)>, c: ConnectionResult) -> bool {
    &&& out.len() == ts.len()
    &&& forall|i: int| 0 <= i < ts.len() ==> (#[trigger] out[i]).0 == ts[i] && (out[i].1 matches Completion::Connected(
        x,
    ) && conn_view(x) == conn_view(c))
}

/// Each ping waiter of `ts` receives `p`, in order.
pub open spec fn all_pinged(ts: Seq<u64>, p: PingResult) -> Seq<(u64, Completion)> {
    ts.map_values(|t: u64| (t, Completion::Pinged(p)))
}

/// The tokens of a list of completions.
pub open spec fn tokens_of(cs: Seq<(u64, Completion)>) -> Seq<u64> {
    cs.map_values(|c: (u64, Completion)| c.0)
}

/// `rest` fails with `e` exactly the waiters of the three identifier lists:
/// every completion is a failure of one of them, and each of them fails.
pub open spec fn fails_ids(rest: Seq<(u64, Completion)>, w: WaitersV, e: MqttClientError) -> bool {
    &&& forall|i: int| 0 <= i < rest.len() ==> (#[trigger] rest[i]).1 == Completion::Failed(e) && (w.publish.contains_value(
        rest[i].0,
    ) || w.subscribe.contains_value(rest[i].0) || w.unsubscribe.contains_value(rest[i].0))
    &&& forall|id: u16| #[trigger] w.publish.contains_key(id) ==> tokens_of(rest).contains(w.publish[id])
    &&& forall|id: u16| #[trigger] w.subscribe.contains_key(id) ==> tokens_of(rest).contains(w.subscribe[id])
    &&& forall|id: u16| #[trigger] w.unsubscribe.contains_key(id) ==> tokens_of(rest).contains(w.unsubscribe[id])
}

/// The waiters with nothing left waiting.
pub open spec fn no_waiters() -> WaitersV {
    WaitersV { connect: seq![], ping: seq![], publish: Map::empty(), subscribe: Map::empty(), unsubscribe: Map::empty() }
}

/// Appends a failure with `e` for every waiter of `ids`, which is emptied.
fn fail_ids(out: &mut Vec<(u64, Completion)>, ids: &mut IdWaiters, e: &MqttClientError)
    requires
        old(ids).wf(),
    ensures
        final(ids).wf(),
        final(ids)@ == Map::<u16, u64>::empty(),
        final(out)@.take(old(out)@.len() as int) == old(out)@,
        final(out)@.len() >= old(out)@.len(),
        forall|i: int| old(out)@.len() <= i < final(out)@.len() ==> (#[trigger] final(out)@[i]).1 == Completion::Failed(*e)
            && old(ids)@.contains_value(final(out)@[i].0),
        forall|id: u16| #[trigger] old(ids)@.contains_key(id) ==> tokens_of(final(out)@.skip(old(out)@.len() as int)).contains(
            old(ids)@[id],
        ),
{
    let ghost o = out@;
    let ghost m = ids@;
    let ts = ids.drain();
    let mut i: usize = 0;
    while i < ts.len()
        invariant
            i <= ts@.len(),
            out@ == o + failures(ts@.take(i as int), *e),
        decreases ts@.len() - i,
    {
        out.push((ts[i], Completion::Failed(copy_error(e))));
        assert(failures(ts@.take(i + 1), *e) =~= failures(ts@.take(i as int), *e).push((ts@[i as int], Completion::Failed(*e))));
        i += 1;
    }
    assert(ts@.take(i as int) =~= ts@);
    assert(out@.take(o.len() as int) =~= o);
    assert(tokens_of(out@.skip(o.len() as int)) =~= ts@);
    assert forall|k: int| o.len() <= k < out@.len() implies (#[trigger] out@[k]).1 == Completion::Failed(*e)
        && m.contains_value(out@[k].0) by {
        assert(out@[k] == (ts@[k - o.len()], Completion::Failed(*e)));
    }
}

/// Fails every waiter with `e`: the connect waiters, then the ping waiters,
/// in order, then each waiter of a packet identifier; nothing is left
/// waiting.
pub fn fail_all(waiters: &mut Waiters, e: &MqttClientError) -> (r: Vec<(u64, Completion)>)
    requires
        old(waiters).wf(),
    ensures
        final(waiters).wf(),
        final(waiters)@ == no_waiters(),
        r@.take((old(waiters)@.connect.len() + old(waiters)@.ping.len()) as int) == failures(old(waiters)@.connect, *e)
            + failures(old(waiters)@.ping, *e),
        r@.len() >= old(waiters)@.connect.len() + old(waiters)@.ping.len(),
        fails_ids(r@.skip((old(waiters)@.connect.len() + old(waiters)@.ping.len()) as int), old(waiters)@, *e),
{
    let ghost w = waiters@;
    let mut r: Vec<(u64, Completion)> = Vec::new();
    fail_tokens(&mut r, &waiters.connect, e);
    fail_tokens(&mut r, &waiters.ping, e);
    let ghost n = r@.len();
    let ghost head = r@;
    assert(head =~= failures(w.connect, *e) + failures(w.ping, *e));
    waiters.connect = Vec::new();
    waiters.ping = Vec::new();
    fail_ids(&mut r, &mut waiters.publish, e);
    let ghost r1 = r@;
    fail_ids(&mut r, &mut waiters.subscribe, e);
    let ghost r2 = r@;
    fail_ids(&mut r, &mut waiters.unsubscribe, e);
    proof {
        assert(r@.take(n as int) =~= head) by {
            assert(r2.take(n as int) =~= head);
            assert(r@.take(r2.len() as int) == r2);
        }
        let rest = r@.skip(n as int);
        assert forall|i: int| 0 <= i < rest.len() implies (#[trigger] rest[i]).1 == Completion::Failed(*e) && (
        w.publish.contains_value(rest[i].0) || w.subscribe.contains_value(rest[i].0) || w.unsubscribe.contains_value(
            rest[i].0,
        )) by {
            assert(rest[i] == r@[n + i]);
            if n + i < r1.len() {
                assert(r2[n + i] == r1[n + i]);
                assert(r@[n + i] == r2[n + i]);
            } else if n + i < r2.len() {
                assert(r@[n + i] == r2[n + i]);
            }
        }
        assert forall|id: u16| #[trigger] w.publish.contains_key(id) implies tokens_of(rest).contains(w.publish[id]) by {
            let k = choose|k: int| 0 <= k < tokens_of(r1.skip(n as int)).len() && tokens_of(r1.skip(n as int))[k]
                == w.publish[id];
            assert(r1.skip(n as int)[k] == r@[n + k]) by {
                assert(r2[n + k] == r1[n + k]);
                assert(r@[n + k] == r2[n + k]);
            }
            assert(tokens_of(rest)[k] == w.publish[id]);
        }
        assert forall|id: u16| #[trigger] w.subscribe.contains_key(id) implies tokens_of(rest).contains(w.subscribe[id]) by {
            let k = choose|k: int| 0 <= k < tokens_of(r2.skip(r1.len() as int)).len() && tokens_of(r2.skip(r1.len() as int))[k]
                == w.subscribe[id];
            assert(r@[r1.len() + k] == r2[r1.len() + k]);
            assert(tokens_of(rest)[r1.len() - n + k] == w.subscribe[id]);
        }
        assert forall|id: u16| #[trigger] w.unsubscribe.contains_key(id) implies tokens_of(rest).contains(
            w.unsubscribe[id],
        ) by {
            let k = choose|k: int| 0 <= k < tokens_of(r@.skip(r2.len() as int)).len() && tokens_of(r@.skip(r2.len() as int))[k]
                == w.unsubscribe[id];
            assert(tokens_of(rest)[r2.len() - n + k] == w.unsubscribe[id]);
        }
    }
    assert(waiters@.connect =~= seq![]);
    assert(waiters@.ping =~= seq![]);
    r
}

fn complete_connects(ts: &Vec<u64>, c: &ConnectionResult) -> (r: Vec<(u64, Completion)>)
    ensures
        all_connected(ts@, r@, *c),
{
    let mut r: Vec<(u64, Completion)> = Vec::new();
    let mut i: usize = 0;
    while i < ts.len()
        invariant
            i <= ts@.len(),
            r@.len() == i,
            forall|j: int| 0 <= j < i ==> (#[trigger] r@[j]).0 == ts@[j] && (r@[j].1 matches Completion::Connected(x)
                && conn_view(x) == conn_view(*c)),
        decreases ts@.len() - i,
    {
        r.push((ts[i], Completion::Connected(copy_connection_result(c))));
        i += 1;
    }
    r
}

fn complete_pings(ts: &Vec<u64>, p: &PingResult) -> (r: Vec<(u64, Completion)>)
    ensures
        r@ == all_pinged(ts@, *p),
{
    let mut r: Vec<(u64, Completion)> = Vec::new();
    let mut i: usize = 0;
    while i < ts.len()
        invariant
            i <= ts@.len(),
            r@ == all_pinged(ts@.take(i as int), *p),
        decreases ts@.len() - i,
    {
        r.push((ts[i], Completion::Pinged(PingResult { success: p.success })));
        assert(all_pinged(ts@.take(i + 1), *p) =~= all_pinged(ts@.take(i as int), *p).push((ts@[i as int], Completion::Pinged(*p))));
        i += 1;
    }
    assert(ts@.take(i as int) =~= ts@);
    r
}

/// Takes one event of the engine: completes the requests it answers and
/// says what follows. A CONNACK completes every connect waiter and makes
/// the state connected; a refused one is then a lost connection. An
/// acknowledgement completes the waiter of its packet identifier, a ping
/// response every ping waiter. An error fails the connect waiters while
/// connecting. A needed reconnection, when reconnecting is on and the
/// worker was not stopped on purpose, drops a live transport, or opens a
/// new one when disconnected.
pub fn worker_event_step(
    waiters: &mut Waiters,
    state: &mut ConnState,
    event: MqttEvent,
    auto_reconnect: bool,
    intentional_stop: bool,
    has_stream: bool,
) -> (r: EventStep)
    requires
        old(waiters).wf(),
    ensures
        final(waiters).wf(),
        match event {
            MqttEvent::Connected(c) => {
                &&& all_connected(old(waiters)@.connect, r.completions@, c)
                &&& final(waiters)@ == (WaitersV { connect: seq![], ..old(waiters)@ })
                &&& *final(state) matches ConnState::Connected(x) && conn_view(x) == conn_view(c)
                &&& r.follow == if c.reason_code == 0 { Follow::Nothing } else { Follow::Lost { reason: Some(c.reason_code) } }
            },
            MqttEvent::Disconnected(reason) => r.completions@ == Seq::<(u64, Completion)>::empty()
                && r.follow == (Follow::Lost { reason }) && final(waiters)@ == old(waiters)@ && *final(state) == *old(state),
            MqttEvent::Published(p) => {
                &&& r.follow == Follow::Nothing && *final(state) == *old(state)
                &&& match p.packet_id {
                    Some(id) if old(waiters)@.publish.contains_key(id) => r.completions@ == seq![(old(waiters)@.publish[id], Completion::Published(p))]
                        && final(waiters)@ == (WaitersV { publish: old(waiters)@.publish.remove(id), ..old(waiters)@ }),
                    _ => r.completions@ == Seq::<(u64, Completion)>::empty() && final(waiters)@ == old(waiters)@,
                }
            },
            MqttEvent::Subscribed(p) => {
                &&& r.follow == Follow::Nothing && *final(state) == *old(state)
                &&& if old(waiters)@.subscribe.contains_key(p.packet_id) {
                    r.completions@ == seq![(old(waiters)@.subscribe[p.packet_id], Completion::Subscribed(p))]
                        && final(waiters)@ == (WaitersV { subscribe: old(waiters)@.subscribe.remove(p.packet_id), ..old(waiters)@ })
                } else {
                    r.completions@ == Seq::<(u64, Completion)>::empty() && final(waiters)@ == old(waiters)@
                }
            },
            MqttEvent::Unsubscribed(p) => {
                &&& r.follow == Follow::Nothing && *final(state) == *old(state)
                &&& if old(waiters)@.unsubscribe.contains_key(p.packet_id) {
                    r.completions@ == seq![(old(waiters)@.unsubscribe[p.packet_id], Completion::Unsubscribed(p))]
                        && final(waiters)@ == (WaitersV {
                        unsubscribe: old(waiters)@.unsubscribe.remove(p.packet_id),
                        ..old(waiters)@
                    })
                } else {
                    r.completions@ == Seq::<(u64, Completion)>::empty() && final(waiters)@ == old(waiters)@
                }
            },
            MqttEvent::PingResponse(p) => r.completions@ == all_pinged(old(waiters)@.ping, p) && final(waiters)@
                == (WaitersV { ping: seq![], ..old(waiters)@ }) && r.follow == Follow::Nothing && *final(state) == *old(state),
            MqttEvent::Error(e) => {
                &&& r.follow == Follow::Nothing && *final(state) == *old(state)
                &&& if *old(state) is Connecting {
                    r.completions@ == failures(old(waiters)@.connect, e) && final(waiters)@ == (WaitersV {
                        connect: seq![],
                        ..old(waiters)@
                    })
                } else {
                    r.completions@ == Seq::<(u64, Completion)>::empty() && final(waiters)@ == old(waiters)@
                }
            },
            MqttEvent::ReconnectNeeded => {
                &&& r.completions@ == Seq::<(u64, Completion)>::empty() && final(waiters)@ == old(waiters)@
                &&& if auto_reconnect && !intentional_stop && has_stream {
                    r.follow == (Follow::Lost { reason: None }) && *final(state) == *old(state)
                } else if auto_reconnect && !intentional_stop && *old(state) is Disconnected {
                    r.follow == Follow::OpenTransport && *final(state) == ConnState::Connecting
                } else {
                    r.follow == Follow::Nothing && *final(state) == *old(state)
                }
            },
            MqttEvent::MessageReceived(_) => r.completions@ == Seq::<(u64, Completion)>::empty() && r.follow
                == Follow::Nothing && final(waiters)@ == old(waiters)@ && *final(state) == *old(state),
        },
{
    match event {
        MqttEvent::Connected(c) => {
            let completions = complete_connects(&waiters.connect, &c);
            waiters.connect = Vec::new();
            assert(waiters@.connect =~= seq![]);
            let follow = if c.reason_code == 0 { Follow::Nothing } else { Follow::Lost { reason: Some(c.reason_code) } };
            *state = ConnState::Connected(copy_connection_result(&c));
            EventStep { completions, follow }
        },
        MqttEvent::Disconnected(reason) => EventStep { completions: Vec::new(), follow: Follow::Lost { reason } },
        MqttEvent::Published(p) => {
            let token = match p.packet_id {
                Some(id) => waiters.publish.take(id),
                None => None,
            };
            let mut completions: Vec<(u64, Completion)> = Vec::new();
            if let Some(t) = token {
                completions.push((t, Completion::Published(p)));
            }
            proof {
                if p.packet_id is None || !old(waiters)@.publish.contains_key(p.packet_id->0) {
                    assert(waiters@.publish =~= old(waiters)@.publish);
                }
            }
            EventStep { completions, follow: Follow::Nothing }
        },
        MqttEvent::Subscribed(p) => {
            let mut completions: Vec<(u64, Completion)> = Vec::new();
            if let Some(t) = waiters.subscribe.take(p.packet_id) {
                completions.push((t, Completion::Subscribed(p)));
            } else {
                assert(waiters@.subscribe =~= old(waiters)@.subscribe);
            }
            EventStep { completions, follow: Follow::Nothing }
        },
        MqttEvent::Unsubscribed(p) => {
            let mut completions: Vec<(u64, Completion)> = Vec::new();
            if let Some(t) = waiters.unsubscribe.take(p.packet_id) {
                completions.push((t, Completion::Unsubscribed(p)));
            } else {
                assert(waiters@.unsubscribe =~= old(waiters)@.unsubscribe);
            }
            EventStep { completions, follow: Follow::Nothing }
        },
        MqttEvent::PingResponse(p) => {
            let completions = complete_pings(&waiters.ping, &p);
            waiters.ping = Vec::new();
            assert(waiters@.ping =~= seq![]);
            EventStep { completions, follow: Follow::Nothing }
        },
        MqttEvent::Error(e) => {
            let mut completions: Vec<(u64, Completion)> = Vec::new();
            if let ConnState::Connecting = state {
                fail_tokens(&mut completions, &waiters.connect, &e);
                waiters.connect = Vec::new();
                assert(waiters@.connect =~= seq![]);
                assert(completions@ =~= failures(old(waiters)@.connect, e));
            }
            EventStep { completions, follow: Follow::Nothing }
        },
        MqttEvent::ReconnectNeeded => {
            let mut follow = Follow::Nothing;
            if auto_reconnect && !intentional_stop {
                if has_stream {
                    follow = Follow::Lost { reason: None };
                } else if let ConnState::Disconnected = state {
                    *state = ConnState::Connecting;
                    follow = Follow::OpenTransport;
                }
            }
            EventStep { completions: Vec::new(), follow }
        },
        MqttEvent::MessageReceived(_) => EventStep { completions: Vec::new(), follow: Follow::Nothing },
    }
}

/// The error with which waiters fail when the connection is lost.
pub open spec fn is_lost_error(e: MqttClientError) -> bool {
    e matches MqttClientError::ConnectionLost { reason } && reason@ == "MQTT transport closed"@
}

/// The connection is lost. Unless the worker was already disconnected, it
/// becomes disconnected and the connect and ping waiters fail; the other
/// waiters fail too unless a reconnection will follow (reconnecting is on,
/// the worker was not stopped on purpose, and the engine has a retry due).
/// Gives the failures and the error, or `None` when nothing happened.
pub fn worker_connection_lost(
    waiters: &mut Waiters,
    state: &mut ConnState,
    auto_reconnect: bool,
    intentional_stop: bool,
    retry_due: bool,
) -> (r: Option<(MqttClientError, Vec<(u64, Completion)>)>)
    requires
        old(waiters).wf(),
    ensures
        final(waiters).wf(),
        *old(state) is Disconnected ==> r is None && final(waiters)@ == old(waiters)@ && *final(state) == *old(state),
        !(*old(state) is Disconnected) ==> {
            &&& *final(state) == ConnState::Disconnected
            &&& r matches Some((e, cs)) && is_lost_error(e) && {
                let n = (old(waiters)@.connect.len() + old(waiters)@.ping.len()) as int;
                &&& cs@.take(n) == failures(old(waiters)@.connect, e) + failures(old(waiters)@.ping, e)
                &&& if !auto_reconnect || intentional_stop || !retry_due {
                    &&& final(waiters)@ == no_waiters()
                    &&& cs@.len() >= n
                    &&& fails_ids(cs@.skip(n), old(waiters)@, e)
                } else {
                    &&& final(waiters)@ == (WaitersV { connect: seq![], ping: seq![], ..old(waiters)@ })
                    &&& cs@.len() == n
                }
            }
        },
{
    if let ConnState::Disconnected = state {
        return None;
    }
    *state = ConnState::Disconnected;
    let e = MqttClientError::ConnectionLost { reason: "MQTT transport closed".to_owned() };
    if !auto_reconnect || intentional_stop || !retry_due {
        let cs = fail_all(waiters, &e);
        Some((e, cs))
    } else {
        let ghost w = waiters@;
        let mut cs: Vec<(u64, Completion)> = Vec::new();
        fail_tokens(&mut cs, &waiters.connect, &e);
        fail_tokens(&mut cs, &waiters.ping, &e);
        waiters.connect = Vec::new();
        waiters.ping = Vec::new();
        assert(waiters@.connect =~= seq![]);
        assert(waiters@.ping =~= seq![]);
        assert(cs@ =~= failures(w.connect, e) + failures(w.ping, e));
        assert(cs@.take(cs@.len() as int) =~= cs@);
        Some((e, cs))
    }
}

/// Starts connecting when disconnected: the worker is no longer stopped on
/// purpose and is now connecting. Says whether a transport is to be opened.
pub fn start_connect(state: &mut ConnState, intentional_stop: &mut bool) -> (r: bool)
    ensures
        r == (*old(state) is Disconnected),
        r ==> *final(state) == ConnState::Connecting && !*final(intentional_stop),
        !r ==> *final(state) == *old(state) && *final(intentional_stop) == *old(intentional_stop),
{
    if let ConnState::Disconnected = state {
        *intentional_stop = false;
        *state = ConnState::Connecting;
        true
    } else {
        false
    }
}

/// A request to connect and wait for CONNACK: answered at once with the
/// current result when connected, else the waiter joins the connect
/// waiters.
pub fn register_connect(waiters: &mut Waiters, state: &ConnState, token: u64) -> (r: Option<(u64, Completion)>)
    requires
        old(waiters).wf(),
    ensures
        final(waiters).wf(),
        match *state {
            ConnState::Connected(c) => (r matches Some((t, Completion::Connected(x))) && t == token && conn_view(x)
                == conn_view(c)) && final(waiters)@ == old(waiters)@,
            _ => r is None && final(waiters)@ == (WaitersV { connect: old(waiters)@.connect.push(token), ..old(waiters)@ }),
        },
{
    match state {
        ConnState::Connected(c) => Some((token, Completion::Connected(copy_connection_result(c)))),
        _ => {
            waiters.connect.push(token);
            None
        },
    }
}

/// Whether a publication may go to the engine: while disconnected it is
/// refused unless buffering is on and the worker was not stopped on
/// purpose, and refused when the offline queue is full.
pub fn publish_gate(
    connected: bool,
    buffer_messages: bool,
    intentional_stop: bool,
    pending: usize,
    max_buffer_size: usize,
) -> (r: Result<(), MqttClientError>)
    ensures
        connected ==> r is Ok,
        !connected && (!buffer_messages || intentional_stop) ==> r == Err::<(), MqttClientError>(MqttClientError::NotConnected),
        !connected && buffer_messages && !intentional_stop ==> if pending >= max_buffer_size {
            r matches Err(MqttClientError::BufferFull { buffer_type, capacity }) && capacity == max_buffer_size
                && buffer_type@ == "offline publish queue"@
        } else {
            r is Ok
        },
{
    if !connected {
        if !buffer_messages || intentional_stop {
            return Err(MqttClientError::NotConnected);
        }
        if pending >= max_buffer_size {
            return Err(MqttClientError::BufferFull {
                buffer_type: "offline publish queue".to_owned(),
                capacity: max_buffer_size,
            });
        }
    }
    Ok(())
}

/// The priority a publication is queued with: its own, or the middle
/// priority 128 when the priority queue is off.
pub fn effective_priority(priority: u8, priority_queue_enabled: bool) -> (r: u8)
    ensures
        r == if priority_queue_enabled { priority } else { 128u8 },
{
    if priority_queue_enabled { priority } else { 128 }
}

/// Whether a ping may be sent: only while connected.
pub fn ping_gate(connected: bool) -> (r: Result<(), MqttClientError>)
    ensures
        r == if connected { Ok::<(), MqttClientError>(()) } else { Err(MqttClientError::NotConnected) },
{
    if connected { Ok(()) } else { Err(MqttClientError::NotConnected) }
}

/// A publication that waits for its acknowledgement, given what the engine
/// answered: with a packet identifier the waiter waits for it; a QoS 0
/// publication completes at once; an error fails the waiter.
pub fn register_publish(waiters: &mut Waiters, token: u64, outcome: Result<Option<u16>, MqttClientError>) -> (r: Option<
    (u64, Completion),
>)
    requires
        old(waiters).wf(),
    ensures
        final(waiters).wf(),
        match outcome {
            Ok(Some(id)) => r is None && final(waiters)@ == (WaitersV {
                publish: old(waiters)@.publish.insert(id, token),
                ..old(waiters)@
            }),
            Ok(None) => r == Some((token, Completion::Published(PublishResult {
                packet_id: None,
                reason_code: None,
                properties: None,
                qos: 0,
            }))) && final(waiters)@ == old(waiters)@,
            Err(e) => r == Some((token, Completion::Failed(e))) && final(waiters)@ == old(waiters)@,
        },
{
    match outcome {
        Ok(Some(id)) => {
            waiters.publish.insert(id, token);
            None
        },
        Ok(None) => Some((token, Completion::Published(PublishResult {
            packet_id: None,
            reason_code: None,
            properties: None,
            qos: 0,
        }))),
        Err(e) => Some((token, Completion::Failed(e))),
    }
}

/// A subscription that waits for its SUBACK, given what the engine
/// answered: the waiter waits for the identifier, or fails with the error.
pub fn register_subscribe(waiters: &mut Waiters, token: u64, outcome: Result<u16, MqttClientError>) -> (r: Option<
    (u64, Completion),
>)
    requires
        old(waiters).wf(),
    ensures
        final(waiters).wf(),
        match outcome {
            Ok(id) => r is None && final(waiters)@ == (WaitersV {
                subscribe: old(waiters)@.subscribe.insert(id, token),
                ..old(waiters)@
            }),
            Err(e) => r == Some((token, Completion::Failed(e))) && final(waiters)@ == old(waiters)@,
        },
{
    match outcome {
        Ok(id) => {
            waiters.subscribe.insert(id, token);
            None
        },
        Err(e) => Some((token, Completion::Failed(e))),
    }
}

/// An unsubscription that waits for its UNSUBACK, given what the engine
/// answered: the waiter waits for the identifier, or fails with the error.
pub fn register_unsubscribe(waiters: &mut Waiters, token: u64, outcome: Result<u16, MqttClientError>) -> (r: Option<
    (u64, Completion),
>)
    requires
        old(waiters).wf(),
    ensures
        final(waiters).wf(),
        match outcome {
            Ok(id) => r is None && final(waiters)@ == (WaitersV {
                unsubscribe: old(waiters)@.unsubscribe.insert(id, token),
                ..old(waiters)@
            }),
            Err(e) => r == Some((token, Completion::Failed(e))) && final(waiters)@ == old(waiters)@,
        },
{
    match outcome {
        Ok(id) => {
            waiters.unsubscribe.insert(id, token);
            None
        },
        Err(e) => Some((token, Completion::Failed(e))),
    }
}

impl Waiters {
    /// Whether a waiting ping needs a PINGREQ of its own: only when no
    /// other ping waits (one PINGRESP answers them all).
    pub fn needs_ping(&self) -> (r: bool)
        ensures
            r == (self@.ping.len() == 0),
    {
        self.ping.len() == 0
    }
}

/// A ping that waits for PINGRESP, given whether sending a PINGREQ (when
/// one was needed) succeeded: the waiter waits, or fails with the error.
pub fn register_ping(waiters: &mut Waiters, token: u64, sent: Result<(), MqttClientError>) -> (r: Option<(u64, Completion)>)
    requires
        old(waiters).wf(),
    ensures
        final(waiters).wf(),
        match sent {
            Ok(()) => r is None && final(waiters)@ == (WaitersV { ping: old(waiters)@.ping.push(token), ..old(waiters)@ }),
            Err(e) => r == Some((token, Completion::Failed(e))) && final(waiters)@ == old(waiters)@,
        },
{
    match sent {
        Ok(()) => {
            waiters.ping.push(token);
            None
        },
        Err(e) => Some((token, Completion::Failed(e))),
    }
}

/// The error with which waiters fail when the application disconnects.
pub open spec fn is_cancelled_by_disconnect(e: MqttClientError) -> bool {
    e matches MqttClientError::OperationCancelled { operation } && operation@ == "disconnect"@
}

/// The application disconnects: the worker is disconnecting and stopped on
/// purpose, and every waiter fails as cancelled. Gives the failures, their
/// error, and whether a connection was active (so that the handler hears of
/// the disconnection).
pub fn begin_disconnect(waiters: &mut Waiters, state: &mut ConnState, intentional_stop: &mut bool) -> (r: (
    bool,
    MqttClientError,
    Vec<(u64, Completion)>,
))
    requires
        old(waiters).wf(),
    ensures
        final(waiters).wf(),
        r.0 == !(*old(state) is Disconnected),
        is_cancelled_by_disconnect(r.1),
        *final(state) == ConnState::Disconnecting,
        *final(intentional_stop),
        final(waiters)@ == no_waiters(),
        r.2@.take((old(waiters)@.connect.len() + old(waiters)@.ping.len()) as int) == failures(old(waiters)@.connect, r.1)
            + failures(old(waiters)@.ping, r.1),
        r.2@.len() >= old(waiters)@.connect.len() + old(waiters)@.ping.len(),
        fails_ids(r.2@.skip((old(waiters)@.connect.len() + old(waiters)@.ping.len()) as int), old(waiters)@, r.1),
{
    let active = match state {
        ConnState::Disconnected => false,
        _ => true,
    };
    *state = ConnState::Disconnecting;
    *intentional_stop = true;
    let e = MqttClientError::OperationCancelled { operation: "disconnect".to_owned() };
    let cs = fail_all(waiters, &e);
    (active, e, cs)
}

/// Turning automatic reconnection on or off while disconnected: off fails
/// every waiter as not connected; on, unless stopped on purpose, asks for a
/// reconnection to be scheduled (the second result). While connected
/// nothing happens here.
pub fn set_auto_reconnect_step(waiters: &mut Waiters, state: &ConnState, enabled: bool, intentional_stop: bool) -> (r: (
    Vec<(u64, Completion)>,
    bool,
))
    requires
        old(waiters).wf(),
    ensures
        final(waiters).wf(),
        r.1 == (enabled && *state is Disconnected && !intentional_stop),
        !enabled && *state is Disconnected ==> {
            &&& final(waiters)@ == no_waiters()
            &&& r.0@.take((old(waiters)@.connect.len() + old(waiters)@.ping.len()) as int) == failures(
                old(waiters)@.connect,
                MqttClientError::NotConnected,
            ) + failures(old(waiters)@.ping, MqttClientError::NotConnected)
            &&& r.0@.len() >= old(waiters)@.connect.len() + old(waiters)@.ping.len()
            &&& fails_ids(
                r.0@.skip((old(waiters)@.connect.len() + old(waiters)@.ping.len()) as int),
                old(waiters)@,
                MqttClientError::NotConnected,
            )
        },
        !(!enabled && *state is Disconnected) ==> r.0@ == Seq::<(u64, Completion)>::empty() && final(waiters)@
            == old(waiters)@,
{
    let disconnected = match state {
        ConnState::Disconnected => true,
        _ => false,
    };
    if !enabled && disconnected {
        let cs = fail_all(waiters, &MqttClientError::NotConnected);
        (cs, false)
    } else {
        (Vec::new(), disconnected && !intentional_stop)
    }
}

/// A request registered under a packet identifier is completed by the
/// acknowledgement of that identifier, with its own token, exactly once:
/// after it the identifier has no waiter, so a repeated acknowledgement
/// completes nothing.
pub proof fn law_request_completes_once(waiting: Map<u16, u64>, id: u16, token: u64)
    ensures
        waiting.insert(id, token).contains_key(id),
        waiting.insert(id, token)[id] == token,
        !waiting.insert(id, token).remove(id).contains_key(id),
{
}

} // verus!
