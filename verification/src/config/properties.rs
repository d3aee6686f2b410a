//! Server properties: the settings of a `server.properties` file, held as
//! text and read as numbers and booleans on demand.

use vstd::prelude::*;
use vstd::string::StringExecFns;

use vstd::slice::{slice_subrange, slice_to_vec};
use vstd::utf8::{decode_utf8, encode_utf8, encode_utf8_decode_utf8, valid_utf8};

use crate::config::text::{
    escape_value, escaped, format_signed, format_unsigned, lemma_number_roundtrip, number_of,
    parse_integer, signed_decimal, str_eq,
};
use crate::error::{ErrorKind, ServerError};
use crate::protocol::types::string_from_utf8;
use crate::text_map::TextMap;

verus! {

/// A value that can be stored as the text of a property.
pub trait ToProperty {
    /// The text that stands for the value.
    spec fn property_text(&self) -> Seq<char>;

    /// The text that stands for the value.
    fn to_property(&self) -> (text: String)
        ensures
            text@ == self.property_text(),
    ;
}

/// A value that can be read from the text of a property.
pub trait FromProperty: Sized {
    /// The value that a text stands for, if it stands for one.
    spec fn property_value(text: Seq<char>) -> Option<Self>;

    /// The value that a text stands for, if it stands for one.
    fn from_property(text: &str) -> (value: Option<Self>)
        ensures
            value == Self::property_value(text@),
    ;
}

impl<'a> ToProperty for &'a str {
    open spec fn property_text(&self) -> Seq<char> {
        self@
    }

    fn to_property(&self) -> (text: String) {
        (*self).to_string()
    }
}

impl ToProperty for String {
    open spec fn property_text(&self) -> Seq<char> {
        self@
    }

    fn to_property(&self) -> (text: String) {
        self.clone()
    }
}

impl ToProperty for bool {
    open spec fn property_text(&self) -> Seq<char> {
        if *self {
            "true"@
        } else {
            "false"@
        }
    }

    fn to_property(&self) -> (text: String) {
        if *self {
            "true".to_string()
        } else {
            "false".to_string()
        }
    }
}

impl FromProperty for bool {
    open spec fn property_value(text: Seq<char>) -> Option<bool> {
        if text == "true"@ {
            Some(true)
        } else if text == "false"@ {
            Some(false)
        } else {
            None
        }
    }

    fn from_property(text: &str) -> (value: Option<bool>) {
        if str_eq(text, "true") {
            Some(true)
        } else if str_eq(text, "false") {
            Some(false)
        } else {
            None
        }
    }
}

impl ToProperty for u8 {
    open spec fn property_text(&self) -> Seq<char> {
        signed_decimal(*self as int)
    }

    fn to_property(&self) -> (text: String) {
        format_unsigned(*self as u64)
    }
}

impl FromProperty for u8 {
    open spec fn property_value(text: Seq<char>) -> Option<u8> {
        match number_of(text, 0, 0xff) {
            Some(n) => Some(n as u8),
            None => None,
        }
    }

    fn from_property(text: &str) -> (value: Option<u8>) {
        match parse_integer(text, 0, 0xff) {
            Some(n) => Some(n as u8),
            None => None,
        }
    }
}

impl ToProperty for u16 {
    open spec fn property_text(&self) -> Seq<char> {
        signed_decimal(*self as int)
    }

    fn to_property(&self) -> (text: String) {
        format_unsigned(*self as u64)
    }
}

impl FromProperty for u16 {
    open spec fn property_value(text: Seq<char>) -> Option<u16> {
        match number_of(text, 0, 0xffff) {
            Some(n) => Some(n as u16),
            None => None,
        }
    }

    fn from_property(text: &str) -> (value: Option<u16>) {
        match parse_integer(text, 0, 0xffff) {
            Some(n) => Some(n as u16),
            None => None,
        }
    }
}

impl ToProperty for u32 {
    open spec fn property_text(&self) -> Seq<char> {
        signed_decimal(*self as int)
    }

    fn to_property(&self) -> (text: String) {
        format_unsigned(*self as u64)
    }
}

impl FromProperty for u32 {
    open spec fn property_value(text: Seq<char>) -> Option<u32> {
        match number_of(text, 0, 0xffff_ffff) {
            Some(n) => Some(n as u32),
            None => None,
        }
    }

    fn from_property(text: &str) -> (value: Option<u32>) {
        match parse_integer(text, 0, 0xffff_ffff) {
            Some(n) => Some(n as u32),
            None => None,
        }
    }
}

impl ToProperty for u64 {
    open spec fn property_text(&self) -> Seq<char> {
        signed_decimal(*self as int)
    }

    fn to_property(&self) -> (text: String) {
        format_unsigned(*self)
    }
}

impl FromProperty for u64 {
    open spec fn property_value(text: Seq<char>) -> Option<u64> {
        match number_of(text, 0, 0xffff_ffff_ffff_ffff) {
            Some(n) => Some(n as u64),
            None => None,
        }
    }

    fn from_property(text: &str) -> (value: Option<u64>) {
        match parse_integer(text, 0, 0xffff_ffff_ffff_ffff) {
            Some(n) => Some(n as u64),
            None => None,
        }
    }
}

impl ToProperty for i32 {
    open spec fn property_text(&self) -> Seq<char> {
        signed_decimal(*self as int)
    }

    fn to_property(&self) -> (text: String) {
        format_signed(*self as i64)
    }
}

impl FromProperty for i32 {
    open spec fn property_value(text: Seq<char>) -> Option<i32> {
        match number_of(text, -0x8000_0000, 0x7fff_ffff) {
            Some(n) => Some(n as i32),
            None => None,
        }
    }

    fn from_property(text: &str) -> (value: Option<i32>) {
        match parse_integer(text, -0x8000_0000, 0x7fff_ffff) {
            Some(n) => Some(n as i32),
            None => None,
        }
    }
}

impl ToProperty for i64 {
    open spec fn property_text(&self) -> Seq<char> {
        signed_decimal(*self as int)
    }

    fn to_property(&self) -> (text: String) {
        format_signed(*self)
    }
}

impl FromProperty for i64 {
    open spec fn property_value(text: Seq<char>) -> Option<i64> {
        match number_of(text, -0x8000_0000_0000_0000, 0x7fff_ffff_ffff_ffff) {
            Some(n) => Some(n as i64),
            None => None,
        }
    }

    fn from_property(text: &str) -> (value: Option<i64>) {
        match parse_integer(text, -0x8000_0000_0000_0000, 0x7fff_ffff_ffff_ffff) {
            Some(n) => Some(n as i64),
            None => None,
        }
    }
}

/// The settings of a server, by name.
pub struct ServerProperties {
    map: TextMap<String>,
}

impl View for ServerProperties {
    type V = Map<Seq<char>, Seq<char>>;

    /// The settings as a map from names to values.
    closed spec fn view(&self) -> Map<Seq<char>, Seq<char>> {
        self.map@.map_values(|value: String| value@)
    }
}

impl ServerProperties {
    /// No settings at all.
    pub fn empty() -> (p: Self)
        ensures
            p@ == Map::<Seq<char>, Seq<char>>::empty(),
    {
        let p = Self { map: TextMap::new() };
        assert(p@ =~= Map::<Seq<char>, Seq<char>>::empty());
        p
    }

    /// The value of a property, as text.
    pub fn get_string(&self, key: &str) -> (r: Option<&String>)
        ensures
            match r {
                Some(value) => self@.contains_key(key@) && value@ == self@[key@],
                None => !self@.contains_key(key@),
            },
    {
        self.map.get(key)
    }

    /// Stores the text of a property, replacing what was stored under the
    /// same name.
    pub fn set_text(&mut self, key: &str, value: String)
        ensures
            final(self)@ == old(self)@.insert(key@, value@),
    {
        self.map.insert(key, value);
        assert(self@ =~= old(self)@.insert(key@, value@));
    }

    /// Removes a property and returns the text that was stored under its
    /// name.
    pub fn remove(&mut self, key: &str) -> (r: Option<String>)
        ensures
            final(self)@ == old(self)@.remove(key@),
            match r {
                Some(value) => old(self)@.contains_key(key@) && value@ == old(self)@[key@],
                None => !old(self)@.contains_key(key@),
            },
    {
        let r = self.map.remove(key);
        assert(self@ =~= old(self)@.remove(key@));
        r
    }

    /// Whether a property exists.
    pub fn contains_key(&self, key: &str) -> (b: bool)
        ensures
            b == self@.contains_key(key@),
    {
        self.map.contains_key(key)
    }

    /// The names of all properties, each once, in the order in which they
    /// were first set.
    pub fn keys(&self) -> (names: Vec<String>)
        ensures
            names@.len() == self@.dom().len(),
            forall|i: int| 0 <= i < names@.len() ==> self@.contains_key(#[trigger] names@[i]@),
            forall|key: Seq<char>|
                self@.contains_key(key) ==> exists|i: int|
                    0 <= i < names@.len() && (#[trigger] names@[i])@ == key,
            forall|i: int, j: int|
                0 <= i < names@.len() && 0 <= j < names@.len() && i != j ==> (#[trigger] names@[i])@
                    != (#[trigger] names@[j])@,
    {
        let count = self.map.len();
        let mut names: Vec<String> = Vec::new();
        let mut i: usize = 0;
        while i < count
            invariant
                i <= count,
                count == self.map.keys().len(),
                names@.len() == i,
                forall|j: int| 0 <= j < i ==> (#[trigger] names@[j])@ == self.map.keys()[j],
            decreases count - i,
        {
            if let Some(name) = self.map.key_at(i) {
                names.push(name.clone());
            }
            i = i + 1;
        }
        proof {
            self.map.lemma_keys();
            assert(self@.dom() =~= self.map@.dom());
            assert forall|key: Seq<char>| self@.contains_key(key) implies exists|j: int|
                0 <= j < names@.len() && (#[trigger] names@[j])@ == key by {
                let j = choose|j: int|
                    0 <= j < self.map.keys().len() && #[trigger] self.map.keys()[j] == key;
                assert(names@[j]@ == key);
            }
        }
        names
    }

    /// The number of properties.
    pub fn len(&self) -> (n: usize)
        ensures
            n == self@.dom().len(),
            self@.dom().finite(),
    {
        proof {
            assert(self@.dom() =~= self.map@.dom());
        }
        self.map.len()
    }

    /// Whether there is no property at all.
    pub fn is_empty(&self) -> (b: bool)
        ensures
            b == (self@.dom().len() == 0),
    {
        self.len() == 0
    }

    /// The value of a property, read as a `T`; nothing when the property
    /// is missing or its text does not stand for a `T`.
    pub fn get<T: FromProperty>(&self, key: &str) -> (r: Option<T>)
        ensures
            r == typed::<T>(self@, key@),
    {
        match self.get_string(key) {
            Some(text) => T::from_property(text.as_str()),
            None => None,
        }
    }

    /// The value of a boolean property: the texts `true` and `false` stand
    /// for the two values, nothing else does.
    pub fn get_bool(&self, key: &str) -> (r: Option<bool>)
        ensures
            r == typed::<bool>(self@, key@),
    {
        self.get::<bool>(key)
    }

    /// Stores a value as the text of a property.
    pub fn set<T: ToProperty>(&mut self, key: &str, value: T)
        ensures
            final(self)@ == old(self)@.insert(key@, value.property_text()),
    {
        self.set_text(key, value.to_property());
    }

    /// The properties with which a server starts when it finds no file.
    pub fn new() -> (p: Self)
        ensures
            p@ == default_properties(),
    {
        let mut p = Self::empty();
        p.set_text("accepts-transfers", "false".to_string());
        p.set_text("allow-flight", "false".to_string());
        p.set_text("allow-nether", "true".to_string());
        p.set_text("broadcast-console-to-ops", "true".to_string());
        p.set_text("broadcast-rcon-to-ops", "true".to_string());
        p.set_text("bug-report-link", "".to_string());
        p.set_text("difficulty", "easy".to_string());
        p.set_text("enable-command-block", "false".to_string());
        p.set_text("enable-jmx-monitoring", "false".to_string());
        p.set_text("enable-query", "false".to_string());
        p.set_text("enable-rcon", "false".to_string());
        p.set_text("enable-status", "true".to_string());
        p.set_text("enforce-secure-profile", "true".to_string());
        p.set_text("enforce-whitelist", "false".to_string());
        p.set_text("entity-broadcast-range-percentage", "100".to_string());
        p.set_text("force-gamemode", "false".to_string());
        p.set_text("function-permission-level", "2".to_string());
        p.set_text("gamemode", "survival".to_string());
        p.set_text("generate-structures", "true".to_string());
        p.set_text("generator-settings", "{}".to_string());
        p.set_text("hardcore", "false".to_string());
        p.set_text("hide-online-players", "false".to_string());
        p.set_text("initial-disabled-packs", "".to_string());
        p.set_text("initial-enabled-packs", "vanilla".to_string());
        p.set_text("level-name", "world".to_string());
        p.set_text("level-seed", "".to_string());
        p.set_text("level-type", "minecraft:normal".to_string());
        p.set_text("log-ips", "true".to_string());
        p.set_text("max-chained-neighbor-updates", "1000000".to_string());
        p.set_text("max-players", "20".to_string());
        p.set_text("max-tick-time", "60000".to_string());
        p.set_text("max-world-size", "29999984".to_string());
        p.set_text("motd", "A Minecraft Server".to_string());
        p.set_text("network-compression-threshold", "256".to_string());
        p.set_text("online-mode", "true".to_string());
        p.set_text("op-permission-level", "4".to_string());
        p.set_text("pause-when-empty-seconds", "60".to_string());
        p.set_text("player-idle-timeout", "0".to_string());
        p.set_text("prevent-proxy-connections", "false".to_string());
        p.set_text("pvp", "true".to_string());
        p.set_text("query.port", "25565".to_string());
        p.set_text("rate-limit", "0".to_string());
        p.set_text("rcon.password", "".to_string());
        p.set_text("rcon.port", "25575".to_string());
        p.set_text("region-file-compression", "deflate".to_string());
        p.set_text("require-resource-pack", "false".to_string());
        p.set_text("resource-pack", "".to_string());
        p.set_text("resource-pack-id", "".to_string());
        p.set_text("resource-pack-prompt", "".to_string());
        p.set_text("resource-pack-sha1", "".to_string());
        p.set_text("server-ip", "".to_string());
        p.set_text("server-port", "25565".to_string());
        p.set_text("simulation-distance", "10".to_string());
        p.set_text("spawn-monsters", "true".to_string());
        p.set_text("spawn-protection", "16".to_string());
        p.set_text("sync-chunk-writes", "true".to_string());
        p.set_text("text-filtering-config", "".to_string());
        p.set_text("text-filtering-version", "0".to_string());
        p.set_text("use-native-transport", "true".to_string());
        p.set_text("view-distance", "10".to_string());
        p.set_text("white-list", "false".to_string());
        p
    }

    /// The text of a property, or a default when the property is missing.
    fn text_or<'a>(&'a self, key: &str, default: &'a str) -> (r: &'a str)
        ensures
            r@ == text_or(self@, key@, default@),
    {
        match self.get_string(key) {
            Some(s) => s.as_str(),
            None => default,
        }
    }

    /// The text of a property; nothing when it is missing or empty.
    fn non_empty(&self, key: &str) -> (r: Option<&String>)
        ensures
            match r {
                Some(value) => self@.contains_key(key@) && value@ == self@[key@] && value@.len()
                    > 0,
                None => !self@.contains_key(key@) || self@[key@].len() == 0,
            },
    {
        match self.get_string(key) {
            Some(s) => if s.as_str().is_empty() {
                None
            } else {
                Some(s)
            },
            None => None,
        }
    }

    /// The server port; 25565 when the property is missing or no `u16`.
    pub fn server_port(&self) -> (r: u16)
        ensures
            r == match typed::<u16>(self@, "server-port"@) {
                Some(v) => v,
                None => 25565,
            },
    {
        match self.get::<u16>("server-port") {
            Some(v) => v,
            None => 25565,
        }
    }

    /// Sets the server port.
    pub fn set_server_port(&mut self, port: u16)
        ensures
            final(self)@ == old(self)@.insert("server-port"@, signed_decimal(port as int)),
    {
        self.set("server-port", port);
    }

    /// The maximum number of players; 20 when the property is missing or no `u32`.
    pub fn max_players(&self) -> (r: u32)
        ensures
            r == match typed::<u32>(self@, "max-players"@) {
                Some(v) => v,
                None => 20,
            },
    {
        match self.get::<u32>("max-players") {
            Some(v) => v,
            None => 20,
        }
    }

    /// Sets the maximum number of players.
    pub fn set_max_players(&mut self, max: u32)
        ensures
            final(self)@ == old(self)@.insert("max-players"@, signed_decimal(max as int)),
    {
        self.set("max-players", max);
    }

    /// The view distance; 10 when the property is missing or no `u8`.
    pub fn view_distance(&self) -> (r: u8)
        ensures
            r == match typed::<u8>(self@, "view-distance"@) {
                Some(v) => v,
                None => 10,
            },
    {
        match self.get::<u8>("view-distance") {
            Some(v) => v,
            None => 10,
        }
    }

    /// Sets the view distance.
    pub fn set_view_distance(&mut self, distance: u8)
        ensures
            final(self)@ == old(self)@.insert("view-distance"@, signed_decimal(distance as int)),
    {
        self.set("view-distance", distance);
    }

    /// The simulation distance; 10 when the property is missing or no `u8`.
    pub fn simulation_distance(&self) -> (r: u8)
        ensures
            r == match typed::<u8>(self@, "simulation-distance"@) {
                Some(v) => v,
                None => 10,
            },
    {
        match self.get::<u8>("simulation-distance") {
            Some(v) => v,
            None => 10,
        }
    }

    /// Sets the simulation distance.
    pub fn set_simulation_distance(&mut self, distance: u8)
        ensures
            final(self)@ == old(self)@.insert("simulation-distance"@, signed_decimal(distance as int)),
    {
        self.set("simulation-distance", distance);
    }

    /// The network compression threshold; 256 when the property is missing or no `i32`.
    pub fn network_compression_threshold(&self) -> (r: i32)
        ensures
            r == match typed::<i32>(self@, "network-compression-threshold"@) {
                Some(v) => v,
                None => 256,
            },
    {
        match self.get::<i32>("network-compression-threshold") {
            Some(v) => v,
            None => 256,
        }
    }

    /// Sets the network compression threshold.
    pub fn set_network_compression_threshold(&mut self, threshold: i32)
        ensures
            final(self)@ == old(self)@.insert("network-compression-threshold"@, signed_decimal(threshold as int)),
    {
        self.set("network-compression-threshold", threshold);
    }

    /// Says whether online mode is on; true when the property is missing or no boolean.
    pub fn online_mode(&self) -> (r: bool)
        ensures
            r == match typed::<bool>(self@, "online-mode"@) {
                Some(v) => v,
                None => true,
            },
    {
        match self.get_bool("online-mode") {
            Some(v) => v,
            None => true,
        }
    }

    /// Sets whether online mode is on.
    pub fn set_online_mode(&mut self, online: bool)
        ensures
            final(self)@ == old(self)@.insert("online-mode"@, online.property_text()),
    {
        self.set("online-mode", online);
    }

    /// Says whether PvP is enabled; true when the property is missing or no boolean.
    pub fn pvp(&self) -> (r: bool)
        ensures
            r == match typed::<bool>(self@, "pvp"@) {
                Some(v) => v,
                None => true,
            },
    {
        match self.get_bool("pvp") {
            Some(v) => v,
            None => true,
        }
    }

    /// Sets whether PvP is enabled.
    pub fn set_pvp(&mut self, enabled: bool)
        ensures
            final(self)@ == old(self)@.insert("pvp"@, enabled.property_text()),
    {
        self.set("pvp", enabled);
    }

    /// Says whether the whitelist is enabled; false when the property is missing or no boolean.
    pub fn whitelist(&self) -> (r: bool)
        ensures
            r == match typed::<bool>(self@, "white-list"@) {
                Some(v) => v,
                None => false,
            },
    {
        match self.get_bool("white-list") {
            Some(v) => v,
            None => false,
        }
    }

    /// Sets whether the whitelist is enabled.
    pub fn set_whitelist(&mut self, enabled: bool)
        ensures
            final(self)@ == old(self)@.insert("white-list"@, enabled.property_text()),
    {
        self.set("white-list", enabled);
    }

    /// The MOTD; `A Minecraft Server` when the property is missing.
    pub fn motd(&self) -> (r: &str)
        ensures
            r@ == text_or(self@, "motd"@, "A Minecraft Server"@),
    {
        self.text_or("motd", "A Minecraft Server")
    }

    /// Sets the MOTD.
    pub fn set_motd(&mut self, motd: &str)
        ensures
            final(self)@ == old(self)@.insert("motd"@, motd@),
    {
        self.set("motd", motd);
    }

    /// The difficulty; `easy` when the property is missing.
    pub fn difficulty(&self) -> (r: &str)
        ensures
            r@ == text_or(self@, "difficulty"@, "easy"@),
    {
        self.text_or("difficulty", "easy")
    }

    /// Sets the difficulty.
    pub fn set_difficulty(&mut self, difficulty: &str)
        ensures
            final(self)@ == old(self)@.insert("difficulty"@, difficulty@),
    {
        self.set("difficulty", difficulty);
    }

    /// The game mode; `survival` when the property is missing.
    pub fn gamemode(&self) -> (r: &str)
        ensures
            r@ == text_or(self@, "gamemode"@, "survival"@),
    {
        self.text_or("gamemode", "survival")
    }

    /// Sets the game mode.
    pub fn set_gamemode(&mut self, gamemode: &str)
        ensures
            final(self)@ == old(self)@.insert("gamemode"@, gamemode@),
    {
        self.set("gamemode", gamemode);
    }

    /// The level name; `world` when the property is missing.
    pub fn level_name(&self) -> (r: &str)
        ensures
            r@ == text_or(self@, "level-name"@, "world"@),
    {
        self.text_or("level-name", "world")
    }

    /// Sets the level name.
    pub fn set_level_name(&mut self, name: &str)
        ensures
            final(self)@ == old(self)@.insert("level-name"@, name@),
    {
        self.set("level-name", name);
    }

    /// The server IP; nothing when the property is missing or empty.
    pub fn server_ip(&self) -> (r: Option<&String>)
        ensures
            match r {
                Some(value) => self@.contains_key("server-ip"@) && value@ == self@["server-ip"@]
                    && value@.len() > 0,
                None => !self@.contains_key("server-ip"@) || self@["server-ip"@].len() == 0,
            },
    {
        self.non_empty("server-ip")
    }

    /// Sets the server IP.
    pub fn set_server_ip(&mut self, ip: &str)
        ensures
            final(self)@ == old(self)@.insert("server-ip"@, ip@),
    {
        self.set("server-ip", ip);
    }

    /// The level seed; nothing when the property is missing or empty.
    pub fn level_seed(&self) -> (r: Option<&String>)
        ensures
            match r {
                Some(value) => self@.contains_key("level-seed"@) && value@ == self@["level-seed"@]
                    && value@.len() > 0,
                None => !self@.contains_key("level-seed"@) || self@["level-seed"@].len() == 0,
            },
    {
        self.non_empty("level-seed")
    }

    /// Sets the level seed.
    pub fn set_level_seed(&mut self, seed: &str)
        ensures
            final(self)@ == old(self)@.insert("level-seed"@, seed@),
    {
        self.set("level-seed", seed);
    }
}

/// Whether a byte is ASCII white space: a space, or one of the controls
/// from tab to carriage return.
pub open spec fn is_space(b: u8) -> bool {
    b == 32 || 9 <= b <= 13
}

/// A byte sequence without its leading white space.
pub open spec fn trim_start(s: Seq<u8>) -> Seq<u8>
    decreases s.len(),
{
    if s.len() > 0 && is_space(s[0]) {
        trim_start(s.skip(1))
    } else {
        s
    }
}

/// A byte sequence without its trailing white space.
pub open spec fn trim_end(s: Seq<u8>) -> Seq<u8>
    decreases s.len(),
{
    if s.len() > 0 && is_space(s.last()) {
        trim_end(s.drop_last())
    } else {
        s
    }
}

/// A byte sequence without leading and trailing white space.
pub open spec fn trim(s: Seq<u8>) -> Seq<u8> {
    trim_end(trim_start(s))
}

/// The index of the first `b` in `s` at or after `from`, or the length of
/// `s` when there is none.
pub open spec fn first_byte(s: Seq<u8>, b: u8, from: int) -> int
    decreases s.len() - from,
{
    if from < 0 || from >= s.len() {
        s.len() as int
    } else if s[from] == b {
        from
    } else {
        first_byte(s, b, from + 1)
    }
}

/// The name and the value that a line of a properties file gives, if it
/// gives any. Blank lines and lines that start with `#` give none, and so
/// do lines without `=`. Name and value stand before and after the first
/// `=`, without the white space around them.
pub open spec fn line_entry(line: Seq<u8>) -> Option<(Seq<u8>, Seq<u8>)> {
    let text = trim(line);
    if text.len() == 0 || text[0] == 35 {
        None
    } else {
        let equals = first_byte(text, 61, 0);
        if equals == text.len() {
            None
        } else {
            Some((trim(text.take(equals)), trim(text.skip(equals + 1))))
        }
    }
}

/// The properties after one line of a file was read. A line whose name or
/// value is not valid UTF-8 changes nothing.
pub open spec fn apply_line(
    properties: Map<Seq<char>, Seq<char>>,
    line: Seq<u8>,
) -> Map<Seq<char>, Seq<char>> {
    match line_entry(line) {
        Some((key, value)) => if valid_utf8(key) && valid_utf8(value) {
            properties.insert(decode_utf8(key), decode_utf8(value))
        } else {
            properties
        },
        None => properties,
    }
}

/// The properties after the lines of a file, separated by line feeds, were
/// read from position `from` on.
pub open spec fn apply_text(
    properties: Map<Seq<char>, Seq<char>>,
    text: Seq<u8>,
    from: int,
) -> Map<Seq<char>, Seq<char>>
    decreases text.len() - from,
{
    let end = first_byte(text, 10, from);
    if from < 0 || from >= text.len() || end < from {
        properties
    } else if end >= text.len() {
        apply_line(properties, text.subrange(from, text.len() as int))
    } else {
        apply_text(apply_line(properties, text.subrange(from, end)), text, end + 1)
    }
}

/// `first_byte` stays between `from` and the length.
pub proof fn lemma_first_byte_range(s: Seq<u8>, b: u8, from: int)
    requires
        0 <= from <= s.len(),
    ensures
        from <= first_byte(s, b, from) <= s.len(),
    decreases s.len() - from,
{
    if from < s.len() && s[from] != b {
        lemma_first_byte_range(s, b, from + 1);
    }
}

/// Finds the first `b` at or after `from`.
fn find_byte(s: &[u8], b: u8, from: usize) -> (i: usize)
    requires
        from <= s@.len(),
    ensures
        i == first_byte(s@, b, from as int),
        from <= i <= s@.len(),
{
    let mut i = from;
    proof {
        lemma_first_byte_range(s@, b, from as int);
    }
    while i < s.len()
        invariant
            from <= i <= s@.len(),
            first_byte(s@, b, from as int) == first_byte(s@, b, i as int),
        decreases s@.len() - i,
    {
        if s[i] == b {
            return i;
        }
        i = i + 1;
    }
    i
}

/// Whether a byte is ASCII white space.
fn is_space_byte(b: u8) -> (r: bool)
    ensures
        r == is_space(b),
{
    b == 32 || (9 <= b && b <= 13)
}

/// A byte slice without leading and trailing ASCII white space.
fn trim_bytes(s: &[u8]) -> (r: &[u8])
    ensures
        r@ == trim(s@),
{
    let mut start: usize = 0;
    assert(s@.skip(0) =~= s@);
    while start < s.len() && is_space_byte(s[start])
        invariant
            start <= s@.len(),
            trim_start(s@) == trim_start(s@.skip(start as int)),
        decreases s@.len() - start,
    {
        assert(s@.skip(start as int).skip(1) =~= s@.skip(start + 1));
        start = start + 1;
    }
    let mut end: usize = s.len();
    let ghost front = s@.skip(start as int);
    assert(trim_start(s@) == front);
    assert(s@.subrange(start as int, end as int) =~= front);
    while end > start && is_space_byte(s[end - 1])
        invariant
            start <= end <= s@.len(),
            front == s@.skip(start as int),
            trim_end(front) == trim_end(s@.subrange(start as int, end as int)),
        decreases end,
    {
        assert(s@.subrange(start as int, end as int).drop_last() =~= s@.subrange(
            start as int,
            end - 1,
        ));
        end = end - 1;
    }
    slice_subrange(s, start, end)
}

impl ServerProperties {
    /// Reads one line of a properties file.
    fn read_line(&mut self, line: &[u8])
        ensures
            final(self)@ == apply_line(old(self)@, line@),
    {
        let text = trim_bytes(line);
        if text.len() == 0 || text[0] == 35 {
            return ;
        }
        let equals = find_byte(text, 61, 0);
        if equals == text.len() {
            return ;
        }
        let key = trim_bytes(slice_subrange(text, 0, equals));
        let value = trim_bytes(slice_subrange(text, equals + 1, text.len()));
        match string_from_utf8(slice_to_vec(key)) {
            None => {},
            Some(name) => match string_from_utf8(slice_to_vec(value)) {
                None => {},
                Some(content) => {
                    proof {
                        encode_utf8_decode_utf8(name@);
                        encode_utf8_decode_utf8(content@);
                    }
                    self.set_text(name.as_str(), content);
                },
            },
        }
    }

    /// The properties that the text of a properties file gives: the
    /// defaults, changed by each line of the text in turn.
    pub fn load_from_file(content: &str) -> (p: Self)
        ensures
            p@ == apply_text(default_properties(), encode_utf8(content@), 0),
    {
        let bytes = content.as_bytes();
        let mut properties = Self::new();
        let mut pos: usize = 0;
        while pos < bytes.len()
            invariant
                pos <= bytes@.len(),
                apply_text(properties@, bytes@, pos as int) == apply_text(
                    default_properties(),
                    bytes@,
                    0,
                ),
            decreases bytes@.len() - pos,
        {
            let end = find_byte(bytes, 10, pos);
            properties.read_line(slice_subrange(bytes, pos, end));
            pos = if end < bytes.len() {
                end + 1
            } else {
                end
            };
        }
        properties
    }

    /// The properties of a server, given what reading its properties file
    /// came to: the properties that the text gives, the defaults when the
    /// file was not found, and the failure otherwise.
    pub fn load_from_file_or_default(content: core::result::Result<String, ErrorKind>) -> (r:
        core::result::Result<Self, ServerError>)
        ensures
            match content {
                Ok(text) => r matches Ok(p) && p@ == apply_text(
                    default_properties(),
                    encode_utf8(text@),
                    0,
                ),
                Err(ErrorKind::NotFound) => r matches Ok(p) && p@ == default_properties(),
                Err(kind) => r matches Err(e) && e == ServerError::Io(kind),
            },
    {
        match content {
            Ok(text) => Ok(Self::load_from_file(text.as_str())),
            Err(ErrorKind::NotFound) => Ok(Self::new()),
            Err(kind) => Err(ServerError::Io(kind)),
        }
    }

    /// The line that stands for a property in a properties file: its name,
    /// an equals sign and its escaped value.
    pub fn property_line(&self, key: &str) -> (r: Option<String>)
        ensures
            match r {
                Some(line) => self@.contains_key(key@) && line@ == key@ + seq!['='] + escaped(
                    self@[key@],
                ),
                None => !self@.contains_key(key@),
            },
    {
        match self.get_string(key) {
            None => None,
            Some(value) => {
                proof {
                    reveal_strlit("=");
                }
                let escaped_value = escape_value(value.as_str());
                let line = String::from_str(key).concat("=").concat(escaped_value.as_str());
                assert(line@ =~= key@ + seq!['='] + escaped(self@[key@]));
                Some(line)
            },
        }
    }
}

impl Default for ServerProperties {
    fn default() -> (p: Self)
        ensures
            p@ == default_properties(),
    {
        Self::new()
    }
}

/// The value of a property read as a `T`, if the property exists and its
/// text stands for a `T`.
pub open spec fn typed<T: FromProperty>(properties: Map<Seq<char>, Seq<char>>, key: Seq<char>) -> Option<T> {
    if properties.contains_key(key) {
        T::property_value(properties[key])
    } else {
        None
    }
}

/// The text of a property, or a default when the property is missing.
pub open spec fn text_or(
    properties: Map<Seq<char>, Seq<char>>,
    key: Seq<char>,
    default: Seq<char>,
) -> Seq<char> {
    if properties.contains_key(key) {
        properties[key]
    } else {
        default
    }
}

/// The default properties of a server.
pub open spec fn default_properties() -> Map<Seq<char>, Seq<char>> {
    Map::<Seq<char>, Seq<char>>::empty().insert(
        "accepts-transfers"@,
        "false"@,
    ).insert(
        "allow-flight"@,
        "false"@,
    ).insert(
        "allow-nether"@,
        "true"@,
    ).insert(
        "broadcast-console-to-ops"@,
        "true"@,
    ).insert(
        "broadcast-rcon-to-ops"@,
        "true"@,
    ).insert(
        "bug-report-link"@,
        ""@,
    ).insert(
        "difficulty"@,
        "easy"@,
    ).insert(
        "enable-command-block"@,
        "false"@,
    ).insert(
        "enable-jmx-monitoring"@,
        "false"@,
    ).insert(
        "enable-query"@,
        "false"@,
    ).insert(
        "enable-rcon"@,
        "false"@,
    ).insert(
        "enable-status"@,
        "true"@,
    ).insert(
        "enforce-secure-profile"@,
        "true"@,
    ).insert(
        "enforce-whitelist"@,
        "false"@,
    ).insert(
        "entity-broadcast-range-percentage"@,
        "100"@,
    ).insert(
        "force-gamemode"@,
        "false"@,
    ).insert(
        "function-permission-level"@,
        "2"@,
    ).insert(
        "gamemode"@,
        "survival"@,
    ).insert(
        "generate-structures"@,
        "true"@,
    ).insert(
        "generator-settings"@,
        "{}"@,
    ).insert(
        "hardcore"@,
        "false"@,
    ).insert(
        "hide-online-players"@,
        "false"@,
    ).insert(
        "initial-disabled-packs"@,
        ""@,
    ).insert(
        "initial-enabled-packs"@,
        "vanilla"@,
    ).insert(
        "level-name"@,
        "world"@,
    ).insert(
        "level-seed"@,
        ""@,
    ).insert(
        "level-type"@,
        "minecraft:normal"@,
    ).insert(
        "log-ips"@,
        "true"@,
    ).insert(
        "max-chained-neighbor-updates"@,
        "1000000"@,
    ).insert(
        "max-players"@,
        "20"@,
    ).insert(
        "max-tick-time"@,
        "60000"@,
    ).insert(
        "max-world-size"@,
        "29999984"@,
    ).insert(
        "motd"@,
        "A Minecraft Server"@,
    ).insert(
        "network-compression-threshold"@,
        "256"@,
    ).insert(
        "online-mode"@,
        "true"@,
    ).insert(
        "op-permission-level"@,
        "4"@,
    ).insert(
        "pause-when-empty-seconds"@,
        "60"@,
    ).insert(
        "player-idle-timeout"@,
        "0"@,
    ).insert(
        "prevent-proxy-connections"@,
        "false"@,
    ).insert(
        "pvp"@,
        "true"@,
    ).insert(
        "query.port"@,
        "25565"@,
    ).insert(
        "rate-limit"@,
        "0"@,
    ).insert(
        "rcon.password"@,
        ""@,
    ).insert(
        "rcon.port"@,
        "25575"@,
    ).insert(
        "region-file-compression"@,
        "deflate"@,
    ).insert(
        "require-resource-pack"@,
        "false"@,
    ).insert(
        "resource-pack"@,
        ""@,
    ).insert(
        "resource-pack-id"@,
        ""@,
    ).insert(
        "resource-pack-prompt"@,
        ""@,
    ).insert(
        "resource-pack-sha1"@,
        ""@,
    ).insert(
        "server-ip"@,
        ""@,
    ).insert(
        "server-port"@,
        "25565"@,
    ).insert(
        "simulation-distance"@,
        "10"@,
    ).insert(
        "spawn-monsters"@,
        "true"@,
    ).insert(
        "spawn-protection"@,
        "16"@,
    ).insert(
        "sync-chunk-writes"@,
        "true"@,
    ).insert(
        "text-filtering-config"@,
        ""@,
    ).insert(
        "text-filtering-version"@,
        "0"@,
    ).insert(
        "use-native-transport"@,
        "true"@,
    ).insert(
        "view-distance"@,
        "10"@,
    ).insert(
        "white-list"@,
        "false"@,
    )
}

/// A number that was stored under a name is read back from that name.
pub proof fn lemma_stored_number_is_read(
    properties: Map<Seq<char>, Seq<char>>,
    key: Seq<char>,
    n: int,
)
    ensures
        0 <= n <= 0xff ==> typed::<u8>(properties.insert(key, signed_decimal(n)), key) == Some(
            n as u8,
        ),
        0 <= n <= 0xffff ==> typed::<u16>(properties.insert(key, signed_decimal(n)), key) == Some(
            n as u16,
        ),
        0 <= n <= 0xffff_ffff ==> typed::<u32>(properties.insert(key, signed_decimal(n)), key)
            == Some(n as u32),
        -0x8000_0000 <= n <= 0x7fff_ffff ==> typed::<i32>(
            properties.insert(key, signed_decimal(n)),
            key,
        ) == Some(n as i32),
{
    if 0 <= n <= 0xff {
        lemma_number_roundtrip(n, 0, 0xff);
    }
    if 0 <= n <= 0xffff {
        lemma_number_roundtrip(n, 0, 0xffff);
    }
    if 0 <= n <= 0xffff_ffff {
        lemma_number_roundtrip(n, 0, 0xffff_ffff);
    }
    if -0x8000_0000 <= n <= 0x7fff_ffff {
        lemma_number_roundtrip(n, -0x8000_0000, 0x7fff_ffff);
    }
}

/// A boolean that was stored under a name is read back from that name.
pub proof fn lemma_stored_bool_is_read(
    properties: Map<Seq<char>, Seq<char>>,
    key: Seq<char>,
    value: bool,
)
    ensures
        typed::<bool>(properties.insert(key, value.property_text()), key) == Some(value),
{
    reveal_strlit("true");
    reveal_strlit("false");
    assert("true"@ != "false"@) by {
        assert("true"@.len() == 4 && "false"@.len() == 5);
    }
}

} // verus!
