//! The decisions of the server: for a connection in a given state and a
//! packet that arrived, the bytes to send back, the next state, and what
//! the caller must do besides.

use vstd::prelude::*;
use vstd::utf8::encode_utf8;

use crate::config::ServerConfig;
use crate::error::{Fault, Result};
use crate::network::connection::{sendable, sent, sent_frame, Connection};
use crate::network::frame::frame_bytes;
use crate::protocol::compression::payload_bytes;
use crate::protocol::cursor::Cursor;
use crate::protocol::packets::configuration::{
    AcknowledgeFinishConfigurationPacket, FinishConfigurationPacket,
};
use crate::protocol::packets::handshaking::HandshakePacket;
use crate::protocol::packets::login::{
    LoginAcknowledgedPacket, LoginStartFields, LoginStartPacket, LoginSuccessFields,
    LoginSuccessPacket, PropertyFields, SetCompressionPacket,
};
use crate::protocol::packets::play::{join_for, lemma_join_is_short, LoginPlayPacket};
use crate::protocol::packets::status::{
    Description, PingRequestPacket, PingResponsePacket, PlayersInfo, ServerStatus,
    StatusRequestPacket, StatusResponsePacket, VersionInfo,
};
use crate::protocol::packets::Packet;
use crate::protocol::state::ConnectionState;
use crate::protocol::types::{protocol_error, wrap_to_i32, McString, VarInt};
use crate::protocol::wire::{
    byte_array_bytes, lemma_varint_len, signed32, string_bytes, varint_bytes,
};
use crate::protocol::PROTOCOL_VERSION;

verus! {

/// What the caller must do after a packet was handled, besides sending the
/// bytes that were produced.
#[derive(Debug, Clone)]
pub enum Reaction {
    /// Go on reading.
    Continue,
    /// Close the connection.
    Close,
    /// Enter the player into the directory, then go on reading.
    Joined(LoginStartPacket),
}

/// The entity id given to the player of a connection.
pub const PLAYER_ENTITY_ID: i32 = 1;

/// The state that a handshake asks for: 1 is Status, 2 is Login and 3, the
/// transfer intent, is treated as Login.
pub open spec fn handshake_target(next_state: int) -> Option<ConnectionState> {
    if next_state == 1 {
        Some(ConnectionState::Status)
    } else if next_state == 2 || next_state == 3 {
        Some(ConnectionState::Login)
    } else {
        None
    }
}

/// Whether a connection kept its compression setting and its clock.
pub open spec fn kept_settings(before: Connection, after: Connection) -> bool {
    &&& after.spec_threshold() == before.spec_threshold()
    &&& after.spec_connected_at() == before.spec_connected_at()
    &&& after.spec_last_activity() == before.spec_last_activity()
}

/// Whether a connection is as it was, but for its state.
pub open spec fn kept_all_but_state(before: Connection, after: Connection) -> bool {
    &&& kept_settings(before, after)
    &&& after.spec_protocol_version() == before.spec_protocol_version()
}

/// The threshold that a SetCompression packet announces: its bit pattern as
/// a signed number.
pub open spec fn announced_threshold(threshold: u32) -> int {
    signed32(threshold as nat)
}

/// The fault that a result reports, if it is a failure that reports one.
pub open spec fn fault_of<T>(r: Result<T>) -> Option<Fault> {
    match r {
        Ok(_) => None,
        Err(e) => e.fault(),
    }
}

/// What handling a packet in the Handshaking state comes to. Only the
/// handshake, packet id 0, is accepted: it records the protocol version and
/// moves the connection to the state it asks for. Any other packet id, a
/// handshake that cannot be read and any other next state are faults, and
/// leave the state as it was.
pub open spec fn handshaking_rule(
    before: Connection,
    after: Connection,
    packet_id: int,
    data: Seq<u8>,
    ok: bool,
    fault: Option<Fault>,
) -> bool {
    &&& kept_settings(before, after)
    &&& after.wf() == before.wf()
    &&& !ok ==> after.spec_state() == before.spec_state()
    &&& if packet_id != HandshakePacket::ID {
        !ok && fault == Some(Fault::Malformed)
    } else {
        match HandshakePacket::parse(data) {
            Err(f) => !ok && fault == Some(f),
            Ok((handshake, _)) => match handshake_target(handshake.next_state) {
                None => !ok && fault == Some(Fault::Malformed),
                Some(target) => ok && after.spec_state() == target
                    && after.spec_protocol_version() == Some(handshake.protocol_version as i32),
            },
        }
    }
}

/// What handling a packet in the Status state comes to. A status request
/// is answered with the status document. A ping request is answered with
/// its own payload, and the connection is then to be closed. Any other
/// packet id is a fault, and so is an answer that cannot be sent. The
/// state never changes, and a failure sends nothing.
pub open spec fn status_rule(
    before: Connection,
    after: Connection,
    packet_id: int,
    data: Seq<u8>,
    status_json: Seq<char>,
    out_before: Seq<u8>,
    out_after: Seq<u8>,
    ok: bool,
    close: bool,
    fault: Option<Fault>,
) -> bool {
    let threshold = before.spec_threshold();
    &&& kept_all_but_state(before, after)
    &&& after.wf() == before.wf()
    &&& after.spec_state() == before.spec_state()
    &&& !ok ==> out_after == out_before
    &&& if packet_id == StatusRequestPacket::ID {
        &&& ok == sendable::<StatusResponsePacket>(status_json, threshold)
        &&& ok ==> !close && sent::<StatusResponsePacket>(
            out_before,
            out_after,
            status_json,
            threshold,
        )
        &&& !ok ==> fault == Some(Fault::Malformed)
    } else if packet_id == PingRequestPacket::ID {
        match PingRequestPacket::parse(data) {
            Err(f) => !ok && fault == Some(f),
            Ok((payload, _)) => {
                &&& ok == sendable::<PingResponsePacket>(payload, threshold)
                &&& ok ==> close && sent::<PingResponsePacket>(
                    out_before,
                    out_after,
                    payload,
                    threshold,
                )
                &&& !ok ==> fault == Some(Fault::Malformed)
            },
        }
    } else {
        !ok && fault == Some(Fault::Malformed)
    }
}

/// The login success that answers a login start: the same UUID and name,
/// and no properties.
pub open spec fn success_for(login: LoginStartFields) -> LoginSuccessFields {
    LoginSuccessFields {
        uuid: login.player_uuid,
        username: login.name,
        properties: Seq::empty(),
    }
}

/// What handling a packet in the Login state comes to. Only a login start,
/// packet id 0, is accepted. If the configuration sets a compression
/// threshold, the answer is a SetCompression packet, sent in the framing in
/// use so far, after which compression is enabled, and then the login
/// success in the compressed framing; otherwise it is the login success
/// alone. The connection then moves to Configuration, and the player is
/// reported as joined. Compression is never enabled in a state that does
/// not allow it: the packet is refused, and nothing is sent. An answer that
/// cannot be sent is a fault; if that is the login success behind a
/// SetCompression packet, the SetCompression packet was sent and
/// compression stays enabled.
pub open spec fn login_rule(
    before: Connection,
    after: Connection,
    packet_id: int,
    data: Seq<u8>,
    config: ServerConfig,
    out_before: Seq<u8>,
    out_after: Seq<u8>,
    ok: bool,
    joined: Option<LoginStartFields>,
    fault: Option<Fault>,
) -> bool {
    let threshold = before.spec_threshold();
    &&& after.spec_protocol_version() == before.spec_protocol_version()
    &&& after.spec_connected_at() == before.spec_connected_at()
    &&& after.spec_last_activity() == before.spec_last_activity()
    &&& before.wf() ==> after.wf()
    &&& out_before.is_prefix_of(out_after)
    &&& !ok ==> after.spec_state() == before.spec_state()
    &&& if packet_id != LoginStartPacket::ID {
        !ok && fault == Some(Fault::Malformed) && out_after == out_before
            && after.spec_threshold() == threshold
    } else {
        match LoginStartPacket::parse(data) {
            Err(f) => !ok && fault == Some(f) && out_after == out_before && after.spec_threshold()
                == threshold,
            Ok((login, _)) => match config.compression_threshold {
                None => {
                    &&& ok == sendable::<LoginSuccessPacket>(success_for(login), threshold)
                    &&& after.spec_threshold() == threshold
                    &&& ok ==> joined == Some(login) && after.spec_state()
                        == ConnectionState::Configuration && sent::<LoginSuccessPacket>(
                        out_before,
                        out_after,
                        success_for(login),
                        threshold,
                    )
                    &&& !ok ==> fault == Some(Fault::Malformed) && out_after == out_before
                },
                Some(t) => if !before.spec_state().compressible() || !sendable::<
                    SetCompressionPacket,
                >(announced_threshold(t), threshold) {
                    !ok && fault == Some(Fault::Malformed) && out_after == out_before
                        && after.spec_threshold() == threshold
                } else {
                    &&& after.spec_threshold() == Some(t)
                    &&& ok == sendable::<LoginSuccessPacket>(success_for(login), Some(t))
                    &&& !ok ==> fault == Some(Fault::Malformed) && sent::<SetCompressionPacket>(
                        out_before,
                        out_after,
                        announced_threshold(t),
                        threshold,
                    )
                    &&& ok ==> joined == Some(login) && after.spec_state()
                        == ConnectionState::Configuration && sent::<LoginSuccessPacket>(
                        out_before + sent_frame::<SetCompressionPacket>(
                            announced_threshold(t),
                            threshold,
                        )->Some_0,
                        out_after,
                        success_for(login),
                        Some(t),
                    )
                },
            },
        }
    }
}

/// What handling a packet in the Configuration state comes to. A login
/// acknowledgement, packet id 3, is answered with FinishConfiguration. The
/// acknowledgement of that, packet id 2, moves the connection to Play and
/// is answered with the login (play) packet for entity 1. Any other packet
/// id is a fault, and so is an answer that cannot be sent. A failure sends
/// nothing and leaves the state as it was.
pub open spec fn configuration_rule(
    before: Connection,
    after: Connection,
    packet_id: int,
    config: ServerConfig,
    out_before: Seq<u8>,
    out_after: Seq<u8>,
    ok: bool,
    fault: Option<Fault>,
) -> bool {
    let threshold = before.spec_threshold();
    &&& kept_all_but_state(before, after)
    &&& after.wf() == before.wf()
    &&& !ok ==> out_after == out_before && after.spec_state() == before.spec_state()
    &&& if packet_id == LoginAcknowledgedPacket::ID {
        &&& ok == sendable::<FinishConfigurationPacket>((), threshold)
        &&& ok ==> after.spec_state() == before.spec_state() && sent::<FinishConfigurationPacket>(
            out_before,
            out_after,
            (),
            threshold,
        )
        &&& !ok ==> fault == Some(Fault::Malformed)
    } else if packet_id == AcknowledgeFinishConfigurationPacket::ID {
        &&& ok == sendable::<LoginPlayPacket>(join_for(config, PLAYER_ENTITY_ID), threshold)
        &&& ok ==> after.spec_state() == ConnectionState::Play && sent::<LoginPlayPacket>(
            out_before,
            out_after,
            join_for(config, PLAYER_ENTITY_ID),
            threshold,
        )
        &&& !ok ==> fault == Some(Fault::Malformed)
    } else {
        !ok && fault == Some(Fault::Malformed)
    }
}

/// The login (play) packet for a configuration can always be sent on a
/// connection without compression, and under every threshold above 82
/// bytes: the packet can be written, and its payload is shorter than that.
/// So the acknowledgement of FinishConfiguration is then sure to be
/// answered.
pub proof fn lemma_join_is_sendable(config: ServerConfig, threshold: Option<u32>)
    requires
        threshold matches Some(t) ==> t > 82,
    ensures
        sendable::<LoginPlayPacket>(join_for(config, PLAYER_ENTITY_ID), threshold),
{
    lemma_join_is_short(config, PLAYER_ENTITY_ID);
    assert(varint_bytes(0x2B).len() == 1) by {
        reveal(varint_bytes);
        reveal_with_fuel(crate::protocol::wire::groups, 2);
    }
}

/// A status document of at most 32767 bytes can always be sent on a
/// connection without compression. So a status request is then sure to be
/// answered.
pub proof fn lemma_status_is_sendable(status_json: Seq<char>)
    requires
        encode_utf8(status_json).len() <= 32767,
    ensures
        sendable::<StatusResponsePacket>(status_json, None),
{
    reveal(string_bytes);
    reveal(byte_array_bytes);
    lemma_varint_len(encode_utf8(status_json).len() as int);
    lemma_varint_len(0);
}

/// FinishConfiguration can always be sent: as the frame 01 03 on a
/// connection without compression, and as the frame 02 00 03 under every
/// threshold above 1.
pub proof fn lemma_finish_is_sendable(threshold: Option<u32>)
    requires
        threshold matches Some(t) ==> t > 1,
    ensures
        sent_frame::<FinishConfigurationPacket>((), threshold) == Some(
            match threshold {
                None => seq![1u8, 3u8],
                Some(_) => seq![2u8, 0u8, 3u8],
            },
        ),
{
    reveal(varint_bytes);
    reveal_with_fuel(crate::protocol::wire::groups, 2);
    let payload = payload_bytes(3, Seq::<u8>::empty());
    assert(payload =~= seq![3u8]);
    assert(frame_bytes(payload) =~= seq![1u8, 3u8]);
    assert(varint_bytes(0) + payload =~= seq![0u8, 3u8]);
    assert(frame_bytes(seq![0u8, 3u8]) =~= seq![2u8, 0u8, 3u8]);
}

/// The player that a reaction reports as joined, if it reports one.
pub open spec fn joined_of(r: Result<Reaction>) -> Option<LoginStartFields> {
    match r {
        Ok(Reaction::Joined(login)) => Some(login@),
        _ => None,
    }
}

/// What handling a packet comes to, whatever the state of the connection:
/// the rule of that state applies. A connection only ever moves forward,
/// from Handshaking to Status or Login, from Login to Configuration, from
/// Configuration to Play, and a failure leaves its state as it was. What
/// was to be sent before stays to be sent. In the Play state nothing is
/// sent and nothing changes.
pub open spec fn packet_rule(
    before: Connection,
    after: Connection,
    packet_id: int,
    data: Seq<u8>,
    config: ServerConfig,
    status_json: Seq<char>,
    out_before: Seq<u8>,
    out_after: Seq<u8>,
    r: Result<Reaction>,
) -> bool {
    &&& before.wf() ==> after.wf()
    &&& before.spec_state().may_become(after.spec_state())
    &&& out_before.is_prefix_of(out_after)
    &&& r is Err ==> after.spec_state() == before.spec_state()
    &&& match before.spec_state() {
        ConnectionState::Handshaking => handshaking_rule(
            before,
            after,
            packet_id,
            data,
            r is Ok,
            fault_of(r),
        ) && out_after == out_before && (r matches Ok(reaction) ==> reaction is Continue),
        ConnectionState::Status => status_rule(
            before,
            after,
            packet_id,
            data,
            status_json,
            out_before,
            out_after,
            r is Ok,
            r matches Ok(Reaction::Close),
            fault_of(r),
        ) && (r matches Ok(reaction) ==> reaction is Continue || reaction is Close),
        ConnectionState::Login => login_rule(
            before,
            after,
            packet_id,
            data,
            config,
            out_before,
            out_after,
            r is Ok,
            joined_of(r),
            fault_of(r),
        ),
        ConnectionState::Configuration => configuration_rule(
            before,
            after,
            packet_id,
            config,
            out_before,
            out_after,
            r is Ok,
            fault_of(r),
        ) && (r matches Ok(reaction) ==> reaction is Continue),
        ConnectionState::Play => r matches Ok(Reaction::Continue) && out_after == out_before
            && kept_all_but_state(before, after) && after.spec_state() == ConnectionState::Play,
    }
}

/// The server: its configuration and the status it reports.
pub struct MinecraftServer {
    config: ServerConfig,
    status: ServerStatus,
}

impl MinecraftServer {
    /// The configuration of the server.
    pub closed spec fn spec_config(&self) -> ServerConfig {
        self.config
    }

    /// The status that the server reports.
    pub closed spec fn spec_status(&self) -> ServerStatus {
        self.status
    }

    /// A server with the given configuration. Its status names version
    /// 1.21.5 of protocol 770, the configured player limit and MOTD, and
    /// nobody online.
    pub fn new(config: ServerConfig) -> (s: Self)
        ensures
            s.spec_config() == config,
            s.spec_status().version.name@ == "1.21.5"@,
            s.spec_status().version.protocol == PROTOCOL_VERSION,
            s.spec_status().players.max == config.max_players,
            s.spec_status().players.online == 0,
            s.spec_status().players.sample is None,
            s.spec_status().description matches Description::Text(t) && t@ == config.motd@,
            s.spec_status().favicon is None,
            !s.spec_status().enforces_secure_chat,
    {
        let status = ServerStatus {
            version: VersionInfo { name: "1.21.5".to_string(), protocol: PROTOCOL_VERSION },
            players: PlayersInfo { max: config.max_players, online: 0, sample: None },
            description: Description::Text(config.motd.clone()),
            favicon: None,
            enforces_secure_chat: false,
        };
        Self { config, status }
    }

    /// The configuration of the server.
    pub fn config(&self) -> (c: &ServerConfig)
        ensures
            *c == self.spec_config(),
    {
        &self.config
    }

    /// The status that the server reports.
    pub fn status(&self) -> (s: &ServerStatus)
        ensures
            *s == self.spec_status(),
    {
        &self.status
    }

    /// Records the number of players online, as the tick does from the
    /// directory count. Counts above 2^32 - 1 are reported as 2^32 - 1.
    pub fn set_online(&mut self, count: usize)
        ensures
            final(self).spec_config() == old(self).spec_config(),
            final(self).spec_status().players.online == if count <= u32::MAX {
                count as u32
            } else {
                u32::MAX
            },
            final(self).spec_status().players.max == old(self).spec_status().players.max,
            final(self).spec_status().version == old(self).spec_status().version,
            final(self).spec_status().description == old(self).spec_status().description,
            final(self).spec_status().favicon == old(self).spec_status().favicon,
    {
        self.status.players.online = if count <= u32::MAX as usize {
            count as u32
        } else {
            u32::MAX
        };
    }

    /// Handles a packet that arrived in the Handshaking state.
    pub fn handle_handshaking_packet(
        connection: &mut Connection,
        packet_id: VarInt,
        data: &[u8],
    ) -> (r: Result<()>)
        ensures
            handshaking_rule(
                *old(connection),
                *final(connection),
                packet_id@,
                data@,
                r is Ok,
                fault_of(r),
            ),
    {
        if packet_id.0 != HandshakePacket::ID {
            return Err(protocol_error("unexpected packet id while handshaking"));
        }
        let mut cursor = Cursor::new(data);
        let handshake = HandshakePacket::read(&mut cursor)?;
        let target = match handshake.next_state.0 {
            1 => ConnectionState::Status,
            2 => ConnectionState::Login,
            3 => ConnectionState::Login,
            _ => {
                return Err(protocol_error("invalid next state"));
            },
        };
        connection.set_protocol_version(handshake.protocol_version.0);
        connection.set_state(target);
        Ok(())
    }

    /// Handles a packet that arrived in the Status state. Returns whether
    /// the connection is to be closed.
    pub fn handle_status_packet(
        connection: &mut Connection,
        packet_id: VarInt,
        data: &[u8],
        status_json: &str,
        out: &mut Vec<u8>,
    ) -> (r: Result<bool>)
        ensures
            status_rule(
                *old(connection),
                *final(connection),
                packet_id@,
                data@,
                status_json@,
                old(out)@,
                final(out)@,
                r is Ok,
                r matches Ok(true),
                fault_of(r),
            ),
    {
        if packet_id.0 == StatusRequestPacket::ID {
            let response = StatusResponsePacket { json_response: McString::from(status_json) };
            connection.write_packet(&response, out)?;
            Ok(false)
        } else if packet_id.0 == PingRequestPacket::ID {
            let mut cursor = Cursor::new(data);
            let ping = PingRequestPacket::read(&mut cursor)?;
            let pong = PingResponsePacket { payload: ping.payload };
            connection.write_packet(&pong, out)?;
            Ok(true)
        } else {
            Err(protocol_error("unexpected packet id in status state"))
        }
    }

    /// Handles a packet that arrived in the Login state. Returns the login
    /// start of the player that joined.
    pub fn handle_login_packet(
        connection: &mut Connection,
        packet_id: VarInt,
        data: &[u8],
        config: &ServerConfig,
        out: &mut Vec<u8>,
    ) -> (r: Result<LoginStartPacket>)
        ensures
            login_rule(
                *old(connection),
                *final(connection),
                packet_id@,
                data@,
                *config,
                old(out)@,
                final(out)@,
                r is Ok,
                match r {
                    Ok(login) => Some(login@),
                    Err(_) => None,
                },
                fault_of(r),
            ),
    {
        if packet_id.0 != LoginStartPacket::ID {
            return Err(protocol_error("unexpected packet id in login state"));
        }
        let mut cursor = Cursor::new(data);
        let login_start = LoginStartPacket::read(&mut cursor)?;
        let ghost login = login_start@;
        if let Some(threshold) = config.compression_threshold {
            if !connection.state().allows_compression() {
                return Err(protocol_error("compression cannot be enabled in this state"));
            }
            let compression_packet = SetCompressionPacket {
                threshold: VarInt(wrap_to_i32(threshold)),
            };
            connection.write_packet(&compression_packet, out)?;
            connection.enable_compression(threshold)?;
        }
        let ghost mid = out@;
        let login_success = LoginSuccessPacket {
            uuid: login_start.player_uuid,
            username: McString(login_start.name.0.clone()),
            properties: Vec::new(),
        };
        assert(login_success@.properties =~= Seq::<PropertyFields>::empty());
        assert(login_success@ == success_for(login));
        connection.write_packet(&login_success, out)?;
        connection.set_state(ConnectionState::Configuration);
        proof {
            if config.compression_threshold is Some {
                assert(sent::<SetCompressionPacket>(
                    old(out)@,
                    mid,
                    announced_threshold(config.compression_threshold->Some_0),
                    old(connection).spec_threshold(),
                ));
            }
        }
        Ok(login_start)
    }

    /// Handles a packet that arrived in the Configuration state.
    pub fn handle_configuration_packet(
        connection: &mut Connection,
        packet_id: VarInt,
        data: &[u8],
        config: &ServerConfig,
        out: &mut Vec<u8>,
    ) -> (r: Result<()>)
        ensures
            configuration_rule(
                *old(connection),
                *final(connection),
                packet_id@,
                *config,
                old(out)@,
                final(out)@,
                r is Ok,
                fault_of(r),
            ),
    {
        if packet_id.0 == LoginAcknowledgedPacket::ID {
            let finish_config = FinishConfigurationPacket;
            connection.write_packet(&finish_config, out)?;
            Ok(())
        } else if packet_id.0 == AcknowledgeFinishConfigurationPacket::ID {
            let login_play = LoginPlayPacket::from_server_config(config, PLAYER_ENTITY_ID);
            connection.write_packet(&login_play, out)?;
            connection.set_state(ConnectionState::Play);
            Ok(())
        } else {
            Err(protocol_error("unexpected packet id in configuration state"))
        }
    }

    /// Handles a packet that arrived in the Play state: nothing is sent and
    /// nothing changes.
    pub fn handle_play_packet(packet_id: VarInt) {
    }

    /// Handles one packet of a connection according to its state, and says
    /// what the caller must do next. The bytes to send are appended to
    /// `out`.
    pub fn handle_packet(
        connection: &mut Connection,
        packet_id: VarInt,
        data: &[u8],
        config: &ServerConfig,
        status_json: &str,
        out: &mut Vec<u8>,
    ) -> (r: Result<Reaction>)
        ensures
            packet_rule(
                *old(connection),
                *final(connection),
                packet_id@,
                data@,
                *config,
                status_json@,
                old(out)@,
                final(out)@,
                r,
            ),
    {
        match connection.state() {
            ConnectionState::Handshaking => {
                Self::handle_handshaking_packet(connection, packet_id, data)?;
                Ok(Reaction::Continue)
            },
            ConnectionState::Status => {
                if Self::handle_status_packet(connection, packet_id, data, status_json, out)? {
                    Ok(Reaction::Close)
                } else {
                    Ok(Reaction::Continue)
                }
            },
            ConnectionState::Login => {
                let login = Self::handle_login_packet(connection, packet_id, data, config, out)?;
                Ok(Reaction::Joined(login))
            },
            ConnectionState::Configuration => {
                Self::handle_configuration_packet(connection, packet_id, data, config, out)?;
                Ok(Reaction::Continue)
            },
            ConnectionState::Play => {
                Self::handle_play_packet(packet_id);
                Ok(Reaction::Continue)
            },
        }
    }
}

} // verus!
