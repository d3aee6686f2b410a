//! Per-connection protocol bookkeeping: state, compression and activity.
//!
//! A connection here is everything about a client but its socket: reading
//! takes bytes that were received, writing appends bytes to be sent.

use vstd::prelude::*;

use crate::error::{Fault, Result};
use crate::network::frame::{
    frame_bytes, frame_rest, packet_frame, parse_frame, read_frame, write_frame,
};
use crate::protocol::compression::{
    framed_body, is_compressed_body, opened_as, opened_compressed, opens, payload_bytes,
    split_payload, Compression, Opened,
};
use crate::protocol::cursor::Cursor;
use crate::protocol::packets::Packet;
use crate::protocol::state::{ConnectionState, ProtocolState};
use crate::protocol::types::{protocol_error, refuses, write_all, VarInt};
use crate::protocol::wire::{lemma_varint_len, parse_varint};

verus! {

/// The protocol side of one client connection.
pub struct Connection {
    protocol_state: ProtocolState,
    compression: Option<Compression>,
    connected_at: u64,
    last_activity: u64,
}

/// Whether `appended` is a frame in the compressed format that carries
/// `payload` under a threshold.
pub open spec fn is_compressed_frame(appended: Seq<u8>, payload: Seq<u8>, threshold: u32) -> bool {
    exists|body: Seq<u8>|
        appended == frame_bytes(body) && #[trigger] is_compressed_body(body, payload, threshold)
}

/// The frame that sending the packet `v` appends, if the packet can be
/// sent: its fields must be writable, and its payload must have a frame.
/// Without compression that is the plain frame; under a threshold it is the
/// frame around the compressed-format framing of the payload.
pub open spec fn sent_frame<P: Packet>(v: P::V, threshold: Option<u32>) -> Option<Seq<u8>> {
    let payload = payload_bytes(P::spec_id() as int, P::wire(v));
    if !P::encodable(v) {
        None
    } else {
        match threshold {
            None => if payload.len() <= 0x7fff_ffff {
                Some(frame_bytes(payload))
            } else {
                None
            },
            Some(t) => match framed_body(payload, t) {
                Some(body) => Some(frame_bytes(body)),
                None => None,
            },
        }
    }
}

/// Whether the bytes to send grew from `before` to `after` by the frame of
/// the packet `v`.
pub open spec fn sent<P: Packet>(
    before: Seq<u8>,
    after: Seq<u8>,
    v: P::V,
    threshold: Option<u32>,
) -> bool {
    sent_frame::<P>(v, threshold) matches Some(frame) && after == before + frame
}

/// Whether the packet `v` can be sent.
pub open spec fn sendable<P: Packet>(v: P::V, threshold: Option<u32>) -> bool {
    sent_frame::<P>(v, threshold) is Some
}

/// Whether what was appended from `before` to `after` can be opened again
/// as the packet `v`: under a threshold it is a frame in the compressed
/// format that carries the payload of `v`.
pub open spec fn carries<P: Packet>(
    before: Seq<u8>,
    after: Seq<u8>,
    v: P::V,
    threshold: Option<u32>,
) -> bool {
    match threshold {
        None => after == before + packet_frame::<P>(v),
        Some(t) => exists|appended: Seq<u8>|
            after == before + appended && #[trigger] is_compressed_frame(
                appended,
                payload_bytes(P::spec_id() as int, P::wire(v)),
                t,
            ),
    }
}

/// What opening the body of a frame comes to: without compression the body
/// is the packet id and the fields; under a threshold it is in the
/// compressed format.
pub open spec fn opened(body: Seq<u8>, threshold: Option<u32>) -> Opened {
    match threshold {
        None => opened_as(parse_varint(body)),
        Some(t) => opened_compressed(body, t),
    }
}

impl Connection {
    /// The invariant of a connection: compression is in use exactly when
    /// the protocol state says so, with the threshold recorded there.
    pub closed spec fn wf(&self) -> bool {
        &&& self.protocol_state.wf()
        &&& self.protocol_state.compression_enabled == (self.compression is Some)
        &&& self.compression matches Some(c) ==> self.protocol_state.compression_threshold == Some(
            c.spec_threshold(),
        )
    }

    /// The connection state.
    pub closed spec fn spec_state(&self) -> ConnectionState {
        self.protocol_state.state
    }

    /// The compression threshold, when compression is enabled.
    pub closed spec fn spec_threshold(&self) -> Option<u32> {
        match self.compression {
            Some(c) => Some(c.spec_threshold()),
            None => None,
        }
    }

    /// The protocol version that the client announced, once it did.
    pub closed spec fn spec_protocol_version(&self) -> Option<i32> {
        self.protocol_state.protocol_version
    }

    /// The time at which the connection was accepted.
    pub closed spec fn spec_connected_at(&self) -> u64 {
        self.connected_at
    }

    /// The time of the last activity.
    pub closed spec fn spec_last_activity(&self) -> u64 {
        self.last_activity
    }

    /// A connection accepted at time `now`: Handshaking, no compression.
    pub fn new(now: u64) -> (c: Self)
        ensures
            c.wf(),
            c.spec_state() == ConnectionState::Handshaking,
            c.spec_threshold() is None,
            c.spec_protocol_version() is None,
            c.spec_connected_at() == now,
            c.spec_last_activity() == now,
    {
        Self {
            protocol_state: ProtocolState::new(),
            compression: None,
            connected_at: now,
            last_activity: now,
        }
    }

    /// The current connection state.
    pub fn state(&self) -> (s: ConnectionState)
        ensures
            s == self.spec_state(),
    {
        self.protocol_state.state
    }

    /// Moves to a new connection state.
    pub fn set_state(&mut self, new_state: ConnectionState)
        ensures
            final(self).spec_state() == new_state,
            final(self).spec_threshold() == old(self).spec_threshold(),
            final(self).spec_protocol_version() == old(self).spec_protocol_version(),
            final(self).spec_connected_at() == old(self).spec_connected_at(),
            final(self).spec_last_activity() == old(self).spec_last_activity(),
            final(self).wf() == old(self).wf(),
    {
        self.protocol_state.transition_to(new_state);
    }

    /// Enables compression with the given threshold. This is refused, and
    /// nothing changes, unless the state is Login or Play.
    pub fn enable_compression(&mut self, threshold: u32) -> (r: Result<()>)
        ensures
            r is Ok <==> old(self).spec_state().compressible(),
            r is Ok ==> final(self).spec_threshold() == Some(threshold),
            r matches Err(e) ==> e.fault() == Some(Fault::Malformed) && final(self).spec_threshold()
                == old(self).spec_threshold(),
            final(self).spec_state() == old(self).spec_state(),
            final(self).spec_protocol_version() == old(self).spec_protocol_version(),
            final(self).spec_connected_at() == old(self).spec_connected_at(),
            final(self).spec_last_activity() == old(self).spec_last_activity(),
            old(self).wf() ==> final(self).wf(),
    {
        if !self.protocol_state.state.allows_compression() {
            return Err(protocol_error("compression cannot be enabled in this state"));
        }
        self.protocol_state.enable_compression(threshold);
        self.compression = Some(Compression::new(threshold));
        Ok(())
    }

    /// Reads one packet from the bytes received: a frame, opened according
    /// to whether compression is enabled. Returns the packet id and the
    /// bytes of the fields. A frame that is refused for its length leaves
    /// all that follows the length field unread.
    pub fn read_packet(&mut self, reader: &mut Cursor) -> (r: Result<(VarInt, Vec<u8>)>)
        ensures
            final(reader).follows(*old(reader)),
            final(reader)@ == frame_rest(old(reader)@),
            final(self).spec_state() == old(self).spec_state(),
            final(self).spec_threshold() == old(self).spec_threshold(),
            final(self).spec_protocol_version() == old(self).spec_protocol_version(),
            final(self).spec_connected_at() == old(self).spec_connected_at(),
            final(self).spec_last_activity() == old(self).spec_last_activity(),
            final(self).wf() == old(self).wf(),
            match parse_frame(old(reader)@) {
                Err(fault) => refuses(r, fault),
                Ok((body, after)) => final(reader)@ == after && opens(
                    r,
                    opened(body, old(self).spec_threshold()),
                ),
            },
    {
        let data = read_frame(reader)?;
        self.open_packet(data)
    }

    /// Opens the body of a frame according to whether compression is
    /// enabled. Returns the packet id and the bytes of the fields.
    pub fn open_packet(&mut self, body: &[u8]) -> (r: Result<(VarInt, Vec<u8>)>)
        ensures
            final(self).spec_state() == old(self).spec_state(),
            final(self).spec_threshold() == old(self).spec_threshold(),
            final(self).spec_protocol_version() == old(self).spec_protocol_version(),
            final(self).spec_connected_at() == old(self).spec_connected_at(),
            final(self).spec_last_activity() == old(self).spec_last_activity(),
            final(self).wf() == old(self).wf(),
            opens(r, opened(body@, old(self).spec_threshold())),
    {
        match &mut self.compression {
            Some(compression) => compression.decompress_packet(body),
            None => split_payload(body),
        }
    }

    /// Appends the frame of a packet to the bytes to send. Without
    /// compression the frame is the length, the id and the fields. With
    /// compression it is the length, then a zero and the literal payload if
    /// the payload is shorter than the threshold, or else the payload
    /// length and the zlib stream of the payload. On failure nothing is
    /// appended.
    pub fn write_packet<P: Packet>(&mut self, packet: &P, out: &mut Vec<u8>) -> (r: Result<()>)
        ensures
            final(self).wf() == old(self).wf(),
            final(self).spec_state() == old(self).spec_state(),
            final(self).spec_threshold() == old(self).spec_threshold(),
            final(self).spec_protocol_version() == old(self).spec_protocol_version(),
            final(self).spec_connected_at() == old(self).spec_connected_at(),
            final(self).spec_last_activity() == old(self).spec_last_activity(),
            r is Ok <==> sendable::<P>(packet@, old(self).spec_threshold()),
            r is Ok ==> sent::<P>(old(out)@, final(out)@, packet@, old(self).spec_threshold()),
            r is Ok ==> carries::<P>(old(out)@, final(out)@, packet@, old(self).spec_threshold()),
            r matches Err(e) ==> e.fault() == Some(Fault::Malformed) && final(out)@ == old(out)@,
    {
        let mut packet_data: Vec<u8> = Vec::new();
        packet.write(&mut packet_data)?;
        assert(packet_data@ =~= P::wire(packet@));
        proof {
            lemma_varint_len(P::spec_id() as int);
        }
        match &mut self.compression {
            Some(compression) => {
                let payload = compression.compress_packet(P::id(), packet_data.as_slice())?;
                let ghost before = out@;
                proof {
                    lemma_varint_len(0);
                }
                write_frame(payload.as_slice(), out)?;
                proof {
                    let appended = frame_bytes(payload@);
                    assert(is_compressed_body(
                        payload@,
                        payload_bytes(P::spec_id() as int, P::wire(packet@)),
                        old(self).spec_threshold()->Some_0,
                    ));
                    assert(is_compressed_frame(
                        appended,
                        payload_bytes(P::spec_id() as int, P::wire(packet@)),
                        old(self).spec_threshold()->Some_0,
                    ));
                }
                Ok(())
            },
            None => {
                let mut uncompressed_payload: Vec<u8> = Vec::new();
                let _ = P::id().write(&mut uncompressed_payload);
                write_all(&mut uncompressed_payload, packet_data.as_slice());
                assert(uncompressed_payload@ =~= payload_bytes(P::spec_id() as int, P::wire(packet@)));
                write_frame(uncompressed_payload.as_slice(), out)
            },
        }
    }

    /// Records activity at time `now`.
    pub fn touch(&mut self, now: u64)
        ensures
            final(self).spec_last_activity() == now,
            final(self).spec_state() == old(self).spec_state(),
            final(self).spec_threshold() == old(self).spec_threshold(),
            final(self).spec_protocol_version() == old(self).spec_protocol_version(),
            final(self).spec_connected_at() == old(self).spec_connected_at(),
            final(self).wf() == old(self).wf(),
    {
        self.last_activity = now;
    }

    /// Time since the last activity; zero when `now` lies before it.
    pub fn idle_time(&self, now: u64) -> (t: u64)
        ensures
            t == if now >= self.spec_last_activity() {
                now - self.spec_last_activity()
            } else {
                0
            },
    {
        now.saturating_sub(self.last_activity)
    }

    /// Time since the connection was accepted; zero when `now` lies before
    /// that.
    pub fn uptime(&self, now: u64) -> (t: u64)
        ensures
            t == if now >= self.spec_connected_at() {
                now - self.spec_connected_at()
            } else {
                0
            },
    {
        now.saturating_sub(self.connected_at)
    }

    /// Whether the connection has been idle for longer than `timeout`.
    pub fn is_timed_out(&self, now: u64, timeout: u64) -> (b: bool)
        ensures
            b == (now - self.spec_last_activity() > timeout),
    {
        self.idle_time(now) > timeout
    }

    /// Records the protocol version that the client announced.
    pub fn set_protocol_version(&mut self, version: i32)
        ensures
            final(self).spec_protocol_version() == Some(version),
            final(self).spec_state() == old(self).spec_state(),
            final(self).spec_threshold() == old(self).spec_threshold(),
            final(self).spec_connected_at() == old(self).spec_connected_at(),
            final(self).spec_last_activity() == old(self).spec_last_activity(),
            final(self).wf() == old(self).wf(),
    {
        self.protocol_state.set_protocol_version(version);
    }

    /// The protocol version that the client announced, once it did.
    pub fn protocol_version(&self) -> (v: Option<i32>)
        ensures
            v == self.spec_protocol_version(),
    {
        self.protocol_state.protocol_version
    }
}

} // verus!
