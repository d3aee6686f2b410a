//! A client session: the bytes that arrive from one client, cut into
//! frames and handled packet by packet.

use vstd::prelude::*;

use crate::config::ServerConfig;
use crate::error::{ErrorKind, Fault, Result, ServerError};
use crate::network::connection::{opened, Connection};
use crate::network::frame::{parse_frame, read_frame};
use crate::protocol::cursor::Cursor;
use crate::protocol::state::ConnectionState;
use crate::protocol::types::refuses;
use crate::server::minecraft::{kept_all_but_state, packet_rule, MinecraftServer, Reaction};

verus! {

/// Represents a connected client: its connection, and the configuration and
/// status document with which it is served.
pub struct ClientConnection {
    connection: Connection,
    config: ServerConfig,
    status_json: String,
}

/// Whether the first `end` bytes of `data` are whole frames, one after
/// another, `count` of them.
pub open spec fn whole_frames(data: Seq<u8>, end: int, count: nat) -> bool
    decreases count,
{
    if count == 0 {
        end == 0
    } else {
        exists|start: int|
            0 <= start < end <= data.len() && whole_frames(data, start, (count - 1) as nat)
                && #[trigger] frame_ends(data, start, end)
    }
}

/// Whether a frame starts at `start` in `data` and ends just before `end`.
pub open spec fn frame_ends(data: Seq<u8>, start: int, end: int) -> bool {
    parse_frame(data.skip(start)) matches Ok((_, rest)) && rest.len() == data.len() - end
}

/// What is known of a session after some of its bytes were handled.
pub open spec fn handled(
    before: ClientConnection,
    after: ClientConnection,
    out_before: Seq<u8>,
    out_after: Seq<u8>,
) -> bool {
    &&& out_before.is_prefix_of(out_after)
    &&& before.spec_state().rank() <= after.spec_state().rank()
    &&& before.spec_state() == ConnectionState::Status ==> after.spec_state()
        == ConnectionState::Status
    &&& after.spec_config() == before.spec_config()
    &&& after.spec_status_json() == before.spec_status_json()
}

/// What handling the body of one frame comes to. The body is opened
/// according to whether compression is enabled. A body that cannot be
/// opened is refused, with the fault that opening reports if it reports
/// one, and nothing is sent. Otherwise the packet in it is handled by the
/// rule of the state of the session. A failure leaves the state as it was.
pub open spec fn packet_handled(
    before: ClientConnection,
    after: ClientConnection,
    body: Seq<u8>,
    out_before: Seq<u8>,
    out_after: Seq<u8>,
    r: Result<Reaction>,
) -> bool {
    &&& handled(before, after, out_before, out_after)
    &&& before.spec_state().may_become(after.spec_state())
    &&& r is Err ==> after.spec_state() == before.spec_state()
    &&& match opened(body, before.spec_connection().spec_threshold()) {
        Err(fault) => {
            &&& r is Err
            &&& fault matches Some(f) ==> refuses(r, f)
            &&& out_after == out_before
            &&& kept_all_but_state(before.spec_connection(), after.spec_connection())
        },
        Ok((id, fields)) => packet_rule(
            before.spec_connection(),
            after.spec_connection(),
            id,
            fields,
            before.spec_config(),
            before.spec_status_json(),
            out_before,
            out_after,
            r,
        ),
    }
}

/// What handling the bytes `data` comes to, frame by frame. If the first
/// frame is not complete yet, nothing is used up, nothing changes, and the
/// reaction is `Continue`. If the first frame is malformed, nothing is used
/// up, nothing changes, and that fault is reported. Otherwise the body of
/// the first frame is handled. If that gives `Continue`, the bytes behind
/// the frame are handled in turn from the session as it then is. If it
/// gives anything else, handling ends behind that frame with that result.
pub open spec fn data_processed(
    before: ClientConnection,
    after: ClientConnection,
    data: Seq<u8>,
    out_before: Seq<u8>,
    out_after: Seq<u8>,
    used: int,
    r: Result<Reaction>,
) -> bool
    decreases data.len(),
{
    match parse_frame(data) {
        Err(fault) => {
            &&& used == 0
            &&& after == before
            &&& out_after == out_before
            &&& if fault == Fault::Truncated {
                r matches Ok(Reaction::Continue)
            } else {
                refuses(r, fault)
            }
        },
        Ok((body, rest)) => rest.len() < data.len() && exists|
            mid: ClientConnection,
            mid_out: Seq<u8>,
            first: Result<Reaction>,
        |
            {
                &&& #[trigger] packet_handled(before, mid, body, out_before, mid_out, first)
                &&& if first matches Ok(Reaction::Continue) {
                    data_processed(
                        mid,
                        after,
                        rest,
                        mid_out,
                        out_after,
                        used - (data.len() - rest.len()),
                        r,
                    )
                } else {
                    used == data.len() - rest.len() && after == mid && out_after == mid_out && r
                        == first
                }
            },
    }
}

impl ClientConnection {
    /// The connection of the session.
    pub closed spec fn spec_connection(&self) -> Connection {
        self.connection
    }

    /// The connection state of the session.
    pub open spec fn spec_state(&self) -> ConnectionState {
        self.spec_connection().spec_state()
    }

    /// The configuration with which the client is served.
    pub closed spec fn spec_config(&self) -> ServerConfig {
        self.config
    }

    /// The status document with which the client is served.
    pub closed spec fn spec_status_json(&self) -> Seq<char> {
        self.status_json@
    }

    /// A session that starts at time `now`, in the Handshaking state.
    pub fn new(config: ServerConfig, status_json: String, now: u64) -> (c: Self)
        ensures
            c.spec_state() == ConnectionState::Handshaking,
            c.spec_config() == config,
            c.spec_status_json() == status_json@,
    {
        Self { connection: Connection::new(now), config, status_json }
    }

    /// The connection state of the session.
    pub fn state(&self) -> (s: ConnectionState)
        ensures
            s == self.spec_state(),
    {
        self.connection.state()
    }

    /// The connection of the session.
    pub fn connection(&self) -> (c: &Connection)
        ensures
            *c == self.spec_connection(),
    {
        &self.connection
    }

    /// Replaces the status document with which the client is served.
    pub fn set_status_json(&mut self, status_json: String)
        ensures
            final(self).spec_status_json() == status_json@,
            final(self).spec_state() == old(self).spec_state(),
            final(self).spec_config() == old(self).spec_config(),
    {
        self.status_json = status_json;
    }

    /// Handles the body of one frame: opens it, and handles the packet in
    /// it according to the state of the session. The bytes to send are
    /// appended to `out`.
    pub fn handle_packet(&mut self, packet_data: &[u8], out: &mut Vec<u8>) -> (r: Result<Reaction>)
        ensures
            packet_handled(*old(self), *final(self), packet_data@, old(out)@, final(out)@, r),
    {
        let (packet_id, data) = match self.connection.open_packet(packet_data) {
            Ok(packet) => packet,
            Err(e) => {
                return Err(e);
            },
        };
        MinecraftServer::handle_packet(
            &mut self.connection,
            packet_id,
            data.as_slice(),
            &self.config,
            self.status_json.as_str(),
            out,
        )
    }

    /// Handles the bytes that arrived, frame by frame, and returns how many
    /// of them were used up. Handling stops before a frame that is not
    /// complete yet, which leaves `Continue` as the reaction, and after a
    /// frame whose reaction is not `Continue` or that fails. The bytes used
    /// up are whole frames.
    pub fn process_data(&mut self, data: &[u8], out: &mut Vec<u8>) -> (r: (usize, Result<Reaction>))
        ensures
            data_processed(*old(self), *final(self), data@, old(out)@, final(out)@, r.0 as int, r.1),
            handled(*old(self), *final(self), old(out)@, final(out)@),
            r.0 <= data@.len(),
            exists|count: nat| #[trigger] whole_frames(data@, r.0 as int, count),
    {
        let mut offset: usize = 0;
        let ghost mut count: nat = 0;
        assert(data@.skip(0) =~= data@);
        loop
            invariant
                offset <= data@.len(),
                whole_frames(data@, offset as int, count),
                handled(*old(self), *self, old(out)@, out@),
                forall|after: ClientConnection, out_after: Seq<u8>, used: int, r: Result<Reaction>|
                    #[trigger] data_processed(
                        *self,
                        after,
                        data@.skip(offset as int),
                        out@,
                        out_after,
                        used,
                        r,
                    ) ==> data_processed(
                        *old(self),
                        after,
                        data@,
                        old(out)@,
                        out_after,
                        used + offset,
                        r,
                    ),
            decreases data@.len() - offset,
        {
            let ghost here = *self;
            let ghost here_out = out@;
            let rest = vstd::slice::slice_subrange(data, offset, data.len());
            assert(rest@ =~= data@.skip(offset as int));
            let mut cursor = Cursor::new(rest);
            let body = match read_frame(&mut cursor) {
                Ok(body) => body,
                Err(ServerError::Io(ErrorKind::UnexpectedEof)) => {
                    let r: Result<Reaction> = Ok(Reaction::Continue);
                    assert(data_processed(here, here, rest@, here_out, here_out, 0, r));
                    return (offset, r);
                },
                Err(e) => {
                    let r: Result<Reaction> = Err(e);
                    assert(data_processed(here, here, rest@, here_out, here_out, 0, r));
                    return (offset, r);
                },
            };
            let used = cursor.offset();
            let ghost behind = cursor@;
            proof {
                crate::network::frame::lemma_parse_frame_prefix(rest@);
                let end = offset + used;
                assert(frame_ends(data@, offset as int, end as int));
                assert(whole_frames(data@, end as int, count + 1));
                count = count + 1;
                assert(behind =~= data@.skip(offset + used));
            }
            let first = self.handle_packet(body, out);
            proof {
                assert(packet_handled(here, *self, body@, here_out, out@, first));
            }
            match first {
                Ok(Reaction::Continue) => {
                    proof {
                        let now = *self;
                        let now_out = out@;
                        assert forall|
                            after: ClientConnection,
                            out_after: Seq<u8>,
                            more: int,
                            r: Result<Reaction>,
                        | #[trigger]
                            data_processed(now, after, behind, now_out, out_after, more, r) implies data_processed(
                            *old(self),
                            after,
                            data@,
                            old(out)@,
                            out_after,
                            more + offset + used,
                            r,
                        ) by {
                            assert(data_processed(
                                here,
                                after,
                                rest@,
                                here_out,
                                out_after,
                                more + used,
                                r,
                            ));
                        }
                    }
                    offset = offset + used;
                },
                other => {
                    assert(data_processed(here, *self, rest@, here_out, out@, used as int, other));
                    return (offset + used, other);
                },
            }
        }
    }
}

} // verus!
