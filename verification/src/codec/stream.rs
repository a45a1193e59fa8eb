//! A stream parser: bytes arrive in pieces, packets come out whole.

use vstd::prelude::*;
use crate::codec::decode::{decode_packet, frame_accepts, frame_cut, header_cut, representable, Decoded};
use crate::codec::packet::{packet_bytes, packet_ok, MqttPacket};

verus! {

/// A malformed frame at the front of the stream.
#[derive(Debug, Clone, Copy, PartialEq)]
pub struct ParseError;

/// Collects the bytes read from a connection and cuts them into packets.
pub struct MqttParser {
    buffer: Vec<u8>,
    version: u8,
}

impl MqttParser {
    /// The bytes received and not yet consumed.
    pub closed spec fn pending(&self) -> Seq<u8> {
        self.buffer@
    }

    /// The protocol version the frames are read in.
    pub closed spec fn spec_version(&self) -> u8 {
        self.version
    }

    /// An empty parser for the given protocol version, with room for
    /// `capacity` bytes reserved up front.
    pub fn new(capacity: usize, version: u8) -> (r: Self)
        ensures
            r.pending() == Seq::<u8>::empty(),
            r.spec_version() == version,
    {
        MqttParser { buffer: Vec::with_capacity(capacity), version }
    }

    /// Appends received bytes.
    pub fn feed(&mut self, data: &[u8])
        ensures
            final(self).pending() == old(self).pending() + data@,
            final(self).spec_version() == old(self).spec_version(),
    {
        crate::codec::wire::put_bytes(&mut self.buffer, data);
    }

    /// Takes the first complete packet off the stream: a packet whenever the
    /// stream begins with an accepted frame, `Ok(None)` exactly when it
    /// begins with part of one (the bytes stay until more arrive), and an
    /// error otherwise (the bytes stay too).
    pub fn next_packet(&mut self) -> (r: Result<Option<MqttPacket>, ParseError>)
        ensures
            final(self).spec_version() == old(self).spec_version(),
            r matches Ok(Some(p)) ==> exists|n: int| 0 < n <= old(self).pending().len()
                && #[trigger] frame_accepts(p@, old(self).pending().take(n), old(self).spec_version())
                && final(self).pending() == old(self).pending().skip(n),
            r matches Ok(None) ==> final(self).pending() == old(self).pending(),
            (r matches Ok(None)) <==> (old(self).pending().len() == 0 || header_cut(old(self).pending())
                || frame_cut(old(self).pending())),
            forall|q, n: int| 0 < n <= old(self).pending().len() && #[trigger] frame_accepts(q, old(self).pending().take(n),
                old(self).spec_version()) ==> (r matches Ok(Some(p)) && p@ == q && final(self).pending()
                == old(self).pending().skip(n)),
            r is Err ==> final(self).pending() == old(self).pending(),
            forall|q| representable(q, old(self).spec_version()) && packet_ok(q, old(self).spec_version())
                && #[trigger] packet_bytes(q, old(self).spec_version()).len() <= old(self).pending().len()
                && old(self).pending().take(packet_bytes(q, old(self).spec_version()).len() as int)
                == packet_bytes(q, old(self).spec_version()) ==> (r matches Ok(Some(p)) && p@ == q
                && final(self).pending() == old(self).pending().skip(packet_bytes(q, old(self).spec_version()).len() as int)),
    {
        match decode_packet(self.buffer.as_slice(), self.version) {
            Decoded::Packet(p, n) => {
                let rest = self.buffer.split_off(n);
                self.buffer = rest;
                assert(frame_accepts(p@, old(self).pending().take(n as int), old(self).spec_version()));
                Ok(Some(p))
            },
            Decoded::Incomplete => Ok(None),
            Decoded::Malformed => Err(ParseError),
        }
    }
}

} // verus!
