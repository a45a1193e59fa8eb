//! A client that does no I/O: the application moves the bytes and the
//! clock ticks between it and the network.

use vstd::prelude::*;
use crate::codec::packet::{packet_bytes, MqttPacket, MqttSubscribe, MqttUnsubscribe, PacketV, ReasonV};
use super::commands::{PublishCommand, SubscribeCommand, UnsubscribeCommand};
use super::engine::{
    concat_frames, no_session_error, connect_view, earliest, enqueued, later, publish_fails, publish_id,
    publish_outcome, push_frame, reads_incoming, refreshed, request_id, session_after, since, with_publish_id,
    EngineV, MqttEngine, MqttEvent,
};
use super::error::MqttClientError;
use super::opts::MqttClientOptions;

verus! {

/// An MQTT client without I/O, driven through its protocol engine.
pub struct NoIoMqttClient {
    engine: MqttEngine,
}

impl NoIoMqttClient {
    /// The engine that does the work.
    pub closed spec fn engine(&self) -> MqttEngine {
        self.engine
    }

    /// Whether the client is well formed.
    pub closed spec fn wf(&self) -> bool {
        self.engine.wf()
    }

    /// Milliseconds since the client was made: the clock of `handle_tick`.
    pub fn elapsed_millis(&self) -> u64 {
        self.engine.elapsed_millis()
    }

    /// A client for the given options, not yet connected.
    pub fn new(options: MqttClientOptions) -> (r: Self)
        ensures
            r.wf(),
            r.engine().spec_options() == options,
            r.engine()@ == (EngineV {
                connected: false,
                version: options.mqtt_version,
                session: None,
                queue: seq![],
                outgoing: seq![],
                pending_publishes: seq![],
                pending_subscribes: Map::empty(),
                pending_unsubscribes: Map::empty(),
                events: seq![],
            }),
            r.engine().unparsed() == Seq::<u8>::empty(),
    {
        NoIoMqttClient { engine: MqttEngine::new(options) }
    }

    /// Takes bytes received from the network at `now` (on the client's
    /// clock); returns the events they bring. Every packet the bytes complete
    /// is acted on in order; bytes that start no frame are reported as an
    /// error event.
    pub fn handle_incoming(&mut self, data: &[u8], now: u64) -> (r: Vec<MqttEvent>)
        requires
            old(self).wf(),
        ensures
            final(self).wf(),
            final(self).engine().spec_options() == old(self).engine().spec_options(),
            final(self).engine().last_received() == now,
            exists|ps: Seq<MqttPacket>| #[trigger] reads_incoming(old(self).engine()@, old(self).engine().unparsed() + data@,
                ps, final(self).engine()@, final(self).engine().unparsed(), r@),
    {
        self.engine.handle_incoming(data, now)
    }

    /// Acts on the passage of time (keep-alive, retransmissions); returns the events so far.
    pub fn handle_tick(&mut self, now: u64) -> (r: Vec<MqttEvent>)
        requires
            old(self).wf(),
        ensures
            final(self).wf(),
            final(self).engine().spec_options() == old(self).engine().spec_options(),
            final(self).engine().last_received() == old(self).engine().last_received(),
            final(self).engine().unparsed() == old(self).engine().unparsed(),
            !old(self).engine()@.connected ==> r@ == old(self).engine()@.events && final(self).engine()@ == (EngineV { events: seq![], ..old(self).engine()@ })
                && final(self).engine().last_sent() == old(self).engine().last_sent(),
            old(self).engine()@.connected ==> {
                let ka = old(self).engine().spec_options().keep_alive * 1000;
                let ping = ka > 0 && since(now, old(self).engine().last_sent()) >= ka;
                let dead = ka > 0 && since(now, old(self).engine().last_received()) >= 2 * ka;
                let out = if ping {
                    old(self).engine()@.outgoing.push(packet_bytes(PacketV::PingReq, old(self).engine()@.version))
                } else {
                    old(self).engine()@.outgoing
                };
                &&& final(self).engine().last_sent() == if ping { now } else { old(self).engine().last_sent() }
                &&& dead ==> r@ == old(self).engine()@.events.push(MqttEvent::ReconnectNeeded)
                    && final(self).engine()@ == (EngineV { connected: false, outgoing: out, events: seq![], ..old(self).engine()@ })
                &&& !dead ==> r@ == old(self).engine()@.events && final(self).engine()@ == (EngineV {
                    outgoing: out,
                    pending_publishes: refreshed(old(self).engine()@.pending_publishes, now),
                    events: seq![],
                    ..old(self).engine()@
                })
            },
    {
        self.engine.handle_tick(now)
    }

    /// Takes the events not yet taken.
    pub fn take_events(&mut self) -> (r: Vec<MqttEvent>)
        ensures
            r@ == old(self).engine()@.events,
            final(self).engine()@ == (EngineV { events: seq![], ..old(self).engine()@ }),
            final(self).wf() == old(self).wf(),
            final(self).engine().spec_options() == old(self).engine().spec_options(),
            final(self).engine().last_sent() == old(self).engine().last_sent(),
            final(self).engine().last_received() == old(self).engine().last_received(),
            final(self).engine().unparsed() == old(self).engine().unparsed(),
    {
        self.engine.take_events()
    }

    /// Takes the bytes to be written to the network.
    pub fn take_outgoing(&mut self) -> (r: Vec<u8>)
        ensures
            r@ == concat_frames(old(self).engine()@.outgoing),
            final(self).engine()@ == (EngineV { outgoing: seq![], ..old(self).engine()@ }),
            final(self).wf() == old(self).wf(),
            final(self).engine().spec_options() == old(self).engine().spec_options(),
            final(self).engine().last_sent() == old(self).engine().last_sent(),
            final(self).engine().last_received() == old(self).engine().last_received(),
            final(self).engine().unparsed() == old(self).engine().unparsed(),
    {
        self.engine.take_outgoing()
    }

    /// When `handle_tick` next has work, on the client's clock.
    pub fn next_tick_at(&self) -> (r: Option<u64>)
        ensures
            !self.engine()@.connected ==> r is None,
            self.engine()@.connected ==> r == earliest(
                if self.engine().spec_options().keep_alive > 0 {
                    Some(later(self.engine().last_sent(), (self.engine().spec_options().keep_alive * 1000) as u64))
                } else {
                    None
                },
                self.engine()@.pending_publishes,
            ),
    {
        self.engine.next_tick_at()
    }

    /// Starts connecting: queues CONNECT.
    pub fn connect(&mut self)
        requires
            old(self).wf(),
        ensures
            final(self).wf(),
            final(self).engine().spec_options() == old(self).engine().spec_options(),
            final(self).engine().last_received() == old(self).engine().last_received(),
            final(self).engine().unparsed() == old(self).engine().unparsed(),
            old(self).engine()@.connected ==> final(self).engine()@ == old(self).engine()@ && final(self).engine().last_sent() == old(self).engine().last_sent(),
            !old(self).engine()@.connected ==> final(self).engine()@ == (EngineV {
                session: Some(match old(self).engine()@.session { Some(id) => id, None => 1u16 }),
                outgoing: push_frame(old(self).engine()@.outgoing,
                    PacketV::Connect(connect_view(old(self).engine().spec_options(), old(self).engine()@.version)), old(self).engine()@.version),
                ..old(self).engine()@
            }),
    {
        self.engine.connect()
    }

    /// Publishes a message.
    pub fn publish(&mut self, command: PublishCommand) -> (r: Result<Option<u16>, MqttClientError>)
        requires
            old(self).wf(),
        ensures
            final(self).wf(),
            final(self).engine().spec_options() == old(self).engine().spec_options(),
            final(self).engine().last_received() == old(self).engine().last_received(),
            final(self).engine().unparsed() == old(self).engine().unparsed(),
            publish_fails(old(self).engine()@, command) ==> (r matches Err(e) && no_session_error(e)) && final(self).engine()@ == old(self).engine()@
                && final(self).engine().last_sent() == old(self).engine().last_sent(),
            !publish_fails(old(self).engine()@, command) ==> r == Ok::<Option<u16>, MqttClientError>(publish_id(old(self).engine()@, command))
                && exists|t: u64, q1: Seq<(u8, PublishCommand)>| enqueued(old(self).engine()@.queue, command.priority,
                with_publish_id(old(self).engine()@, command), q1) && final(self).engine()@ == #[trigger] publish_outcome(old(self).engine()@,
                command, t, q1),
    {
        self.engine.publish(command)
    }

    /// Subscribes to topic filters.
    pub fn subscribe(&mut self, command: SubscribeCommand) -> (r: Result<u16, MqttClientError>)
        requires
            old(self).wf(),
        ensures
            final(self).wf(),
            final(self).engine().spec_options() == old(self).engine().spec_options(),
            final(self).engine().last_received() == old(self).engine().last_received(),
            final(self).engine().unparsed() == old(self).engine().unparsed(),
            command.packet_id is None && old(self).engine()@.session is None ==> (r matches Err(e) && no_session_error(e)) && final(self).engine()@ == old(self).engine()@
                && final(self).engine().last_sent() == old(self).engine().last_sent(),
            !(command.packet_id is None && old(self).engine()@.session is None) ==> {
                let id = request_id(old(self).engine()@, command.packet_id);
                &&& r == Ok::<u16, MqttClientError>(id)
                &&& final(self).engine()@.pending_subscribes.contains_key(id)
                &&& final(self).engine()@.pending_subscribes[id]@ == command.subscriptions@.map_values(
                    |t: crate::codec::packet::TopicSubscription| t.topic_filter)
                &&& final(self).engine()@ == (EngineV {
                    session: session_after(old(self).engine()@, command.packet_id is None),
                    pending_subscribes: old(self).engine()@.pending_subscribes.insert(id, final(self).engine()@.pending_subscribes[id]),
                    outgoing: push_frame(old(self).engine()@.outgoing, PacketV::Subscribe((MqttSubscribe {
                        packet_id: id,
                        subscriptions: command.subscriptions,
                        properties: command.properties,
                    })@), 5),
                    ..old(self).engine()@
                })
            },
    {
        self.engine.subscribe(command)
    }

    /// Unsubscribes from topic filters.
    pub fn unsubscribe(&mut self, command: UnsubscribeCommand) -> (r: Result<u16, MqttClientError>)
        requires
            old(self).wf(),
        ensures
            final(self).wf(),
            final(self).engine().spec_options() == old(self).engine().spec_options(),
            final(self).engine().last_received() == old(self).engine().last_received(),
            final(self).engine().unparsed() == old(self).engine().unparsed(),
            command.packet_id is None && old(self).engine()@.session is None ==> (r matches Err(e) && no_session_error(e)) && final(self).engine()@ == old(self).engine()@
                && final(self).engine().last_sent() == old(self).engine().last_sent(),
            !(command.packet_id is None && old(self).engine()@.session is None) ==> {
                let id = request_id(old(self).engine()@, command.packet_id);
                &&& r == Ok::<u16, MqttClientError>(id)
                &&& final(self).engine()@.pending_unsubscribes.contains_key(id)
                &&& final(self).engine()@.pending_unsubscribes[id]@ == command.topics@
                &&& final(self).engine()@ == (EngineV {
                    session: session_after(old(self).engine()@, command.packet_id is None),
                    pending_unsubscribes: old(self).engine()@.pending_unsubscribes.insert(id, final(self).engine()@.pending_unsubscribes[id]),
                    outgoing: push_frame(old(self).engine()@.outgoing, PacketV::Unsubscribe((MqttUnsubscribe {
                        packet_id: id,
                        topics: command.topics,
                        properties: command.properties,
                    })@), old(self).engine()@.version),
                    ..old(self).engine()@
                })
            },
    {
        self.engine.unsubscribe(command)
    }

    /// Queues a PINGREQ.
    pub fn ping(&mut self)
        ensures
            final(self).engine()@ == (EngineV { outgoing: old(self).engine()@.outgoing.push(packet_bytes(PacketV::PingReq, old(self).engine()@.version)), ..old(self).engine()@ }),
            final(self).wf() == old(self).wf(),
            final(self).engine().spec_options() == old(self).engine().spec_options(),
            final(self).engine().last_received() == old(self).engine().last_received(),
            final(self).engine().unparsed() == old(self).engine().unparsed(),
    {
        self.engine.send_ping()
    }

    /// Queues DISCONNECT.
    pub fn disconnect(&mut self)
        ensures
            !old(self).engine()@.connected ==> final(self).engine()@ == old(self).engine()@ && final(self).engine().last_sent() == old(self).engine().last_sent(),
            old(self).engine()@.connected ==> final(self).engine()@ == (EngineV {
                connected: false,
                outgoing: old(self).engine()@.outgoing.push(packet_bytes(PacketV::Disconnect(ReasonV { reason_code: 0, properties: seq![] }), old(self).engine()@.version)),
                ..old(self).engine()@
            }),
            final(self).wf() == old(self).wf(),
            final(self).engine().spec_options() == old(self).engine().spec_options(),
            final(self).engine().last_received() == old(self).engine().last_received(),
            final(self).engine().unparsed() == old(self).engine().unparsed(),
    {
        self.engine.disconnect()
    }

    /// Whether the client is connected.
    pub fn is_connected(&self) -> (r: bool)
        ensures
            r == self.engine()@.connected,
    {
        self.engine.is_connected()
    }

    /// The client options.
    pub fn options(&self) -> (r: &MqttClientOptions)
        ensures
            *r == self.engine().spec_options(),
    {
        self.engine.options()
    }

    /// Marks the connection as gone.
    pub fn handle_connection_lost(&mut self)
        ensures
            final(self).engine()@ == (EngineV { connected: false, ..old(self).engine()@ }),
            final(self).wf() == old(self).wf(),
            final(self).engine().spec_options() == old(self).engine().spec_options(),
            final(self).engine().last_sent() == old(self).engine().last_sent(),
            final(self).engine().last_received() == old(self).engine().last_received(),
            final(self).engine().unparsed() == old(self).engine().unparsed(),
    {
        self.engine.handle_connection_lost()
    }
}

} // verus!
