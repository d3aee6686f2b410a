//! Server configuration settings and their defaults.

use vstd::prelude::*;

use crate::config::properties::{default_properties, typed, text_or, ServerProperties, ToProperty};
use crate::config::text::signed_decimal;
use crate::error::ServerError;

verus! {

/// Main server configuration. Created once and handed to every connection.
#[derive(Debug, Clone)]
pub struct ServerConfig {
    /// IP address to bind, as text.
    pub bind_ip: String,
    /// Port to bind.
    pub bind_port: u16,
    /// Maximum number of concurrent players.
    pub max_players: u32,
    /// Server description (MOTD).
    pub motd: String,
    /// Online mode (advisory).
    pub online_mode: bool,
    /// Compression threshold in bytes; `None` disables compression.
    pub compression_threshold: Option<u32>,
    /// Connection timeout, in seconds.
    pub connection_timeout: u64,
    /// View distance in chunks.
    pub view_distance: u8,
    /// Simulation distance in chunks.
    pub simulation_distance: u8,
    /// Server favicon (path to a PNG file or base64 data URL).
    pub favicon: Option<String>,
    /// Whether the world is announced as a debug world.
    pub debug: bool,
}

/// The compression setting that a threshold property stands for: -1
/// disables compression, any other negative number stands for 256.
pub open spec fn threshold_setting(threshold: i32) -> Option<u32> {
    if threshold == -1 {
        None
    } else if threshold >= 0 {
        Some(threshold as u32)
    } else {
        Some(256u32)
    }
}

/// The threshold property that stands for a compression setting.
pub open spec fn threshold_property(setting: Option<u32>) -> i32 {
    match setting {
        Some(t) => if t <= 0x7fff_ffff {
            t as i32
        } else {
            0x7fff_ffff
        },
        None => -1i32,
    }
}

impl Default for ServerConfig {
    fn default() -> (c: Self)
        ensures
            c.is_default(),
    {
        Self {
            bind_ip: "0.0.0.0".to_string(),
            bind_port: 25565,
            max_players: 20,
            motd: "Welcome to Obsidium - an experimental Minecraft server written in Rust!".to_string(),
            online_mode: true,
            compression_threshold: Some(256),
            connection_timeout: 30,
            view_distance: 12,
            simulation_distance: 12,
            favicon: None,
            debug: false,
        }
    }
}

impl ServerConfig {
    /// Whether every setting has its default value.
    pub open spec fn is_default(&self) -> bool {
        &&& self.bind_ip@ == "0.0.0.0"@
        &&& self.bind_port == 25565
        &&& self.max_players == 20
        &&& self.motd@
            == "Welcome to Obsidium - an experimental Minecraft server written in Rust!"@
        &&& self.online_mode
        &&& self.compression_threshold == Some(256u32)
        &&& self.connection_timeout == 30
        &&& self.view_distance == 12
        &&& self.simulation_distance == 12
        &&& self.favicon is None
        &&& !self.debug
    }

    /// A configuration with default values.
    pub fn new() -> (c: Self)
        ensures
            c.is_default(),
    {
        Self::default()
    }

    /// Sets the address to bind.
    pub fn with_bind_address(self, ip: String, port: u16) -> (c: Self)
        ensures
            c == (ServerConfig { bind_ip: ip, bind_port: port, ..self }),
    {
        let mut c = self;
        c.bind_ip = ip;
        c.bind_port = port;
        c
    }

    /// The configuration that server properties give. The bind address is
    /// the configured IP, or 0.0.0.0 when none is set, with the configured
    /// port. A compression threshold of -1 disables compression, and any
    /// other negative threshold stands for 256.
    pub fn from_properties(props: ServerProperties) -> (r: core::result::Result<Self, ServerError>)
        ensures
            r matches Ok(c) && ({
                &&& c.bind_ip@ == if props@.contains_key("server-ip"@) && props@["server-ip"@].len()
                    > 0 {
                    props@["server-ip"@]
                } else {
                    "0.0.0.0"@
                }
                &&& c.bind_port == match typed::<u16>(props@, "server-port"@) {
                    Some(v) => v,
                    None => 25565,
                }
                &&& c.max_players == match typed::<u32>(props@, "max-players"@) {
                    Some(v) => v,
                    None => 20,
                }
                &&& c.motd@ == text_or(props@, "motd"@, "A Minecraft Server"@)
                &&& c.online_mode == match typed::<bool>(props@, "online-mode"@) {
                    Some(v) => v,
                    None => true,
                }
                &&& c.compression_threshold == threshold_setting(
                    match typed::<i32>(props@, "network-compression-threshold"@) {
                        Some(v) => v,
                        None => 256,
                    },
                )
                &&& c.connection_timeout == 30
                &&& c.view_distance == match typed::<u8>(props@, "view-distance"@) {
                    Some(v) => v,
                    None => 10,
                }
                &&& c.simulation_distance == match typed::<u8>(props@, "simulation-distance"@) {
                    Some(v) => v,
                    None => 10,
                }
                &&& c.favicon is None
                &&& !c.debug
            }),
    {
        let bind_ip = match props.server_ip() {
            Some(ip) => ip.clone(),
            None => "0.0.0.0".to_string(),
        };
        let threshold = props.network_compression_threshold();
        let compression_threshold = if threshold == -1 {
            None
        } else if threshold >= 0 {
            Some(threshold as u32)
        } else {
            Some(256)
        };
        Ok(
            Self {
                bind_ip,
                bind_port: props.server_port(),
                max_players: props.max_players(),
                motd: props.motd().to_string(),
                online_mode: props.online_mode(),
                compression_threshold,
                connection_timeout: 30,
                view_distance: props.view_distance(),
                simulation_distance: props.simulation_distance(),
                favicon: None,
                debug: false,
            },
        )
    }

    /// The server properties that stand for this configuration: the
    /// defaults, with the bind address, the player limit, the MOTD, online
    /// mode, the two distances and the compression threshold set. Disabled
    /// compression is written as -1, and a threshold above 2^31 - 1 as
    /// 2^31 - 1.
    pub fn to_properties(&self) -> (props: ServerProperties)
        ensures
            props@ == default_properties().insert("server-ip"@, self.bind_ip@).insert(
                "server-port"@,
                signed_decimal(self.bind_port as int),
            ).insert("max-players"@, signed_decimal(self.max_players as int)).insert(
                "motd"@,
                self.motd@,
            ).insert("online-mode"@, self.online_mode.property_text()).insert(
                "view-distance"@,
                signed_decimal(self.view_distance as int),
            ).insert("simulation-distance"@, signed_decimal(self.simulation_distance as int)).insert(
                "network-compression-threshold"@,
                signed_decimal(threshold_property(self.compression_threshold) as int),
            ),
    {
        let mut props = ServerProperties::new();
        props.set_server_ip(self.bind_ip.as_str());
        props.set_server_port(self.bind_port);
        props.set_max_players(self.max_players);
        props.set_motd(self.motd.as_str());
        props.set_online_mode(self.online_mode);
        props.set_view_distance(self.view_distance);
        props.set_simulation_distance(self.simulation_distance);
        let threshold: i32 = match self.compression_threshold {
            Some(t) => if t <= 0x7fff_ffff {
                t as i32
            } else {
                0x7fff_ffff
            },
            None => -1,
        };
        props.set_network_compression_threshold(threshold);
        props
    }

    /// Sets the maximum number of players.
    pub fn with_max_players(self, max: u32) -> (c: Self)
        ensures
            c == (ServerConfig { max_players: max, ..self }),
    {
        let mut c = self;
        c.max_players = max;
        c
    }

    /// Sets the server MOTD.
    pub fn with_motd(self, motd: String) -> (c: Self)
        ensures
            c == (ServerConfig { motd, ..self }),
    {
        let mut c = self;
        c.motd = motd;
        c
    }

    /// Sets online mode.
    pub fn with_online_mode(self, online: bool) -> (c: Self)
        ensures
            c == (ServerConfig { online_mode: online, ..self }),
    {
        let mut c = self;
        c.online_mode = online;
        c
    }

    /// Sets the compression threshold.
    pub fn with_compression_threshold(self, threshold: Option<u32>) -> (c: Self)
        ensures
            c == (ServerConfig { compression_threshold: threshold, ..self }),
    {
        let mut c = self;
        c.compression_threshold = threshold;
        c
    }

    /// Sets the server favicon (path to a PNG file or base64 data URL).
    pub fn with_favicon(self, favicon: Option<String>) -> (c: Self)
        ensures
            c == (ServerConfig { favicon, ..self }),
    {
        let mut c = self;
        c.favicon = favicon;
        c
    }

    /// Sets the view distance.
    pub fn with_view_distance(self, distance: u8) -> (c: Self)
        ensures
            c == (ServerConfig { view_distance: distance, ..self }),
    {
        let mut c = self;
        c.view_distance = distance;
        c
    }

    /// Sets the simulation distance.
    pub fn with_simulation_distance(self, distance: u8) -> (c: Self)
        ensures
            c == (ServerConfig { simulation_distance: distance, ..self }),
    {
        let mut c = self;
        c.simulation_distance = distance;
        c
    }

    /// Sets whether the world is announced as a debug world.
    pub fn with_debug(self, debug: bool) -> (c: Self)
        ensures
            c == (ServerConfig { debug, ..self }),
    {
        let mut c = self;
        c.debug = debug;
        c
    }
}

} // verus!
