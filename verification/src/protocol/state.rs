//! Connection state: the protocol phase of a connection and its
//! compression settings.

use vstd::prelude::*;

verus! {

/// The protocol phase of a connection.
#[derive(Debug, Clone, Copy, PartialEq, Eq, Structural)]
pub enum ConnectionState {
    /// Initial state of every connection.
    Handshaking,
    /// Server list ping.
    Status,
    /// Login.
    Login,
    /// Configuration, between login and play.
    Configuration,
    /// Active gameplay.
    Play,
}

impl ConnectionState {
    /// How far along the connection is: a transition never lowers the
    /// rank.
    pub open spec fn rank(self) -> nat {
        match self {
            ConnectionState::Handshaking => 0,
            ConnectionState::Status => 1,
            ConnectionState::Login => 1,
            ConnectionState::Configuration => 2,
            ConnectionState::Play => 3,
        }
    }

    /// Whether the protocol lets a connection in state `self` move to
    /// `next`: Handshaking to Status or Login, Login to Configuration,
    /// Configuration to Play, and any state to itself.
    pub open spec fn may_become(self, next: ConnectionState) -> bool {
        ||| self == next
        ||| self == ConnectionState::Handshaking && next == ConnectionState::Status
        ||| self == ConnectionState::Handshaking && next == ConnectionState::Login
        ||| self == ConnectionState::Login && next == ConnectionState::Configuration
        ||| self == ConnectionState::Configuration && next == ConnectionState::Play
    }

    /// Whether compression may be switched on in this state.
    pub open spec fn compressible(self) -> bool {
        self == ConnectionState::Login || self == ConnectionState::Play
    }

    /// Whether compression may be switched on in this state: only in
    /// Login and Play.
    pub fn allows_compression(&self) -> (b: bool)
        ensures
            b == self.compressible(),
    {
        matches!(self, ConnectionState::Login | ConnectionState::Play)
    }

    /// The lower-case name of the state.
    pub fn as_str(&self) -> (name: &'static str)
        ensures
            name@ == match *self {
                ConnectionState::Handshaking => "handshaking"@,
                ConnectionState::Status => "status"@,
                ConnectionState::Login => "login"@,
                ConnectionState::Configuration => "configuration"@,
                ConnectionState::Play => "play"@,
            },
    {
        match self {
            ConnectionState::Handshaking => "handshaking",
            ConnectionState::Status => "status",
            ConnectionState::Login => "login",
            ConnectionState::Configuration => "configuration",
            ConnectionState::Play => "play",
        }
    }
}

impl Default for ConnectionState {
    fn default() -> (s: Self)
        ensures
            s == ConnectionState::Handshaking,
    {
        ConnectionState::Handshaking
    }
}

/// A legal transition never moves a connection backwards.
pub proof fn lemma_transitions_monotonic(from: ConnectionState, to: ConnectionState)
    requires
        from.may_become(to),
    ensures
        from.rank() <= to.rank(),
{
}

/// Per-connection protocol state.
#[derive(Debug)]
pub struct ProtocolState {
    /// Current connection state.
    pub state: ConnectionState,
    /// Whether compression is enabled.
    pub compression_enabled: bool,
    /// Compression threshold in bytes.
    pub compression_threshold: Option<u32>,
    /// Protocol version negotiated with the client.
    pub protocol_version: Option<i32>,
}

impl ProtocolState {
    /// The invariant of the state: compression is only ever enabled
    /// together with a threshold.
    pub open spec fn wf(&self) -> bool {
        self.compression_enabled ==> self.compression_threshold is Some
    }

    /// The state of a fresh connection: Handshaking, no compression, no
    /// version.
    pub fn new() -> (s: Self)
        ensures
            s.state == ConnectionState::Handshaking,
            !s.compression_enabled,
            s.compression_threshold is None,
            s.protocol_version is None,
            s.wf(),
    {
        Self {
            state: ConnectionState::Handshaking,
            compression_enabled: false,
            compression_threshold: None,
            protocol_version: None,
        }
    }

    /// Moves to a new connection state.
    pub fn transition_to(&mut self, new_state: ConnectionState)
        ensures
            *final(self) == (ProtocolState { state: new_state, ..*old(self) }),
    {
        self.state = new_state;
    }

    /// Enables compression with the given threshold, when the current
    /// state allows it; otherwise nothing changes.
    pub fn enable_compression(&mut self, threshold: u32)
        ensures
            old(self).state.compressible() ==> *final(self) == (ProtocolState {
                compression_enabled: true,
                compression_threshold: Some(threshold),
                ..*old(self)
            }),
            !old(self).state.compressible() ==> *final(self) == *old(self),
            old(self).wf() ==> final(self).wf(),
    {
        if self.state.allows_compression() {
            self.compression_enabled = true;
            self.compression_threshold = Some(threshold);
        }
    }

    /// Disables compression and forgets the threshold.
    pub fn disable_compression(&mut self)
        ensures
            *final(self) == (ProtocolState {
                compression_enabled: false,
                compression_threshold: None,
                ..*old(self)
            }),
            final(self).wf(),
    {
        self.compression_enabled = false;
        self.compression_threshold = None;
    }

    /// Records the protocol version that the client announced.
    pub fn set_protocol_version(&mut self, version: i32)
        ensures
            *final(self) == (ProtocolState { protocol_version: Some(version), ..*old(self) }),
    {
        self.protocol_version = Some(version);
    }

    /// Whether a packet of `packet_size` bytes is to be deflated: when
    /// compression is enabled and the size reaches the threshold.
    pub fn should_compress(&self, packet_size: usize) -> (b: bool)
        ensures
            b == match self.compression_threshold {
                Some(t) => self.compression_enabled && packet_size >= t,
                None => false,
            },
    {
        if !self.compression_enabled {
            return false;
        }
        if let Some(threshold) = self.compression_threshold {
            packet_size >= threshold as usize
        } else {
            false
        }
    }
}

impl Default for ProtocolState {
    fn default() -> (s: Self)
        ensures
            s.state == ConnectionState::Handshaking,
            !s.compression_enabled,
            s.compression_threshold is None,
            s.protocol_version is None,
    {
        Self::new()
    }
}

} // verus!
