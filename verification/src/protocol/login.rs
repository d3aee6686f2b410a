//! Login packets of the byte-level protocol.

use vstd::prelude::*;

use crate::error::IoResult;
use crate::protocol::cursor::Cursor;
use crate::protocol::list::views;
use crate::protocol::packet::Packet;
use crate::protocol::packets::login::{
    LoginStartFields, LoginStartPacket, LoginSuccessFields, LoginSuccessPacket, PropertyFields,
};
use crate::protocol::packets::{login, Packet as TypedPacket};
use crate::protocol::types::{uuid_bytes, McString};
use crate::protocol::wire::Parsed;

verus! {

/// Login start (serverbound), sent by the client to begin the login.
#[derive(Debug, Clone)]
pub struct LoginStart {
    /// Player name.
    pub name: String,
    /// Player UUID.
    pub player_uuid: uuid::Uuid,
}

impl View for LoginStart {
    type V = LoginStartFields;

    open spec fn view(&self) -> LoginStartFields {
        LoginStartFields { name: self.name@, player_uuid: uuid_bytes(self.player_uuid) }
    }
}

impl LoginStart {
    /// A login start with the given fields.
    pub fn new(name: String, player_uuid: uuid::Uuid) -> (p: Self)
        ensures
            p.name == name,
            uuid_bytes(p.player_uuid) == uuid_bytes(player_uuid),
    {
        Self { name, player_uuid }
    }

    /// Parses a login start from the field bytes of a packet; bytes after
    /// the fields are ignored.
    pub fn from_packet_data(data: &[u8]) -> (r: IoResult<Self>)
        ensures
            match r {
                Ok(p) => LoginStartPacket::parse(data@) is Ok && LoginStartPacket::parse(
                    data@,
                )->Ok_0.0 == p@,
                Err(kind) => LoginStartPacket::parse(data@) is Err && kind.fault() == Some(
                    LoginStartPacket::parse(data@)->Err_0,
                ),
            },
    {
        let mut cursor = Cursor::new(data);
        Self::read_data(&mut cursor)
    }
}

impl Packet for LoginStart {
    open spec fn writable(&self) -> bool {
        LoginStartPacket::encodable(self@)
    }

    open spec fn spec_packet_id() -> i32 {
        0x00
    }

    open spec fn parse_data(bytes: Seq<u8>) -> Parsed<LoginStartFields> {
        LoginStartPacket::parse(bytes)
    }

    open spec fn data_bytes(&self) -> Seq<u8> {
        LoginStartPacket::wire(self@)
    }

    fn packet_id() -> (id: i32) {
        0x00
    }

    fn write_data(&self, writer: &mut Vec<u8>) -> (r: IoResult<()>) {
        let typed = LoginStartPacket {
            name: McString(self.name.clone()),
            player_uuid: self.player_uuid,
        };
        match typed.write(writer) {
            Ok(()) => Ok(()),
            Err(e) => Err(e.kind()),
        }
    }

    fn read_data(reader: &mut Cursor) -> (r: IoResult<Self>) {
        match LoginStartPacket::read(reader) {
            Ok(typed) => Ok(LoginStart { name: typed.name.0, player_uuid: typed.player_uuid }),
            Err(e) => Err(e.kind()),
        }
    }
}

/// Player property, as carried by login success.
#[derive(Debug, Clone)]
pub struct Property {
    /// Property name.
    pub name: String,
    /// Property value.
    pub value: String,
    /// Optional signature.
    pub signature: Option<String>,
}

impl View for Property {
    type V = PropertyFields;

    open spec fn view(&self) -> PropertyFields {
        PropertyFields {
            name: self.name@,
            value: self.value@,
            signature: match self.signature {
                Some(s) => Some(s@),
                None => None,
            },
        }
    }
}

/// Login success (clientbound), sent by the server once the player is
/// accepted.
#[derive(Debug, Clone)]
pub struct LoginSuccess {
    /// Player UUID.
    pub uuid: uuid::Uuid,
    /// Player username.
    pub username: String,
    /// Player properties.
    pub properties: Vec<Property>,
}

impl View for LoginSuccess {
    type V = LoginSuccessFields;

    open spec fn view(&self) -> LoginSuccessFields {
        LoginSuccessFields {
            uuid: uuid_bytes(self.uuid),
            username: self.username@,
            properties: views(self.properties@),
        }
    }
}

/// The same properties with their strings as protocol strings.
fn to_typed(properties: &Vec<Property>) -> (typed: Vec<login::Property>)
    ensures
        views(typed@) == views(properties@),
{
    let mut typed: Vec<login::Property> = Vec::new();
    let mut i: usize = 0;
    while i < properties.len()
        invariant
            i <= properties@.len(),
            typed@.len() == i,
            forall|j: int| 0 <= j < i ==> typed@[j]@ == properties@[j]@,
        decreases properties@.len() - i,
    {
        let property = &properties[i];
        let signature = match &property.signature {
            Some(s) => Some(McString(s.clone())),
            None => None,
        };
        typed.push(
            login::Property {
                name: McString(property.name.clone()),
                value: McString(property.value.clone()),
                signature,
            },
        );
        i = i + 1;
    }
    assert(views(typed@) =~= views(properties@));
    typed
}

/// The same properties with their strings as plain strings.
fn from_typed(typed: &Vec<login::Property>) -> (properties: Vec<Property>)
    ensures
        views(properties@) == views(typed@),
{
    let mut properties: Vec<Property> = Vec::new();
    let mut i: usize = 0;
    while i < typed.len()
        invariant
            i <= typed@.len(),
            properties@.len() == i,
            forall|j: int| 0 <= j < i ==> properties@[j]@ == typed@[j]@,
        decreases typed@.len() - i,
    {
        let property = &typed[i];
        let signature = match &property.signature {
            Some(s) => Some(s.0.clone()),
            None => None,
        };
        properties.push(
            Property {
                name: property.name.0.clone(),
                value: property.value.0.clone(),
                signature,
            },
        );
        i = i + 1;
    }
    assert(views(properties@) =~= views(typed@));
    properties
}

impl LoginSuccess {
    /// A login success without properties.
    pub fn new(uuid: uuid::Uuid, username: String) -> (p: Self)
        ensures
            uuid_bytes(p.uuid) == uuid_bytes(uuid),
            p.username == username,
            p.properties@.len() == 0,
    {
        Self { uuid, username, properties: Vec::new() }
    }

    /// Parses a login success from the field bytes of a packet; bytes after
    /// the fields are ignored.
    pub fn from_packet_data(data: &[u8]) -> (r: IoResult<Self>)
        ensures
            match r {
                Ok(p) => LoginSuccessPacket::parse(data@) is Ok && LoginSuccessPacket::parse(
                    data@,
                )->Ok_0.0 == p@,
                Err(kind) => LoginSuccessPacket::parse(data@) is Err && kind.fault() == Some(
                    LoginSuccessPacket::parse(data@)->Err_0,
                ),
            },
    {
        let mut cursor = Cursor::new(data);
        Self::read_data(&mut cursor)
    }
}

impl Packet for LoginSuccess {
    open spec fn writable(&self) -> bool {
        LoginSuccessPacket::encodable(self@)
    }

    open spec fn spec_packet_id() -> i32 {
        0x02
    }

    open spec fn parse_data(bytes: Seq<u8>) -> Parsed<LoginSuccessFields> {
        LoginSuccessPacket::parse(bytes)
    }

    open spec fn data_bytes(&self) -> Seq<u8> {
        LoginSuccessPacket::wire(self@)
    }

    fn packet_id() -> (id: i32) {
        0x02
    }

    fn write_data(&self, writer: &mut Vec<u8>) -> (r: IoResult<()>) {
        let typed = LoginSuccessPacket {
            uuid: self.uuid,
            username: McString(self.username.clone()),
            properties: to_typed(&self.properties),
        };
        match typed.write(writer) {
            Ok(()) => Ok(()),
            Err(e) => Err(e.kind()),
        }
    }

    fn read_data(reader: &mut Cursor) -> (r: IoResult<Self>) {
        match LoginSuccessPacket::read(reader) {
            Ok(typed) => {
                let properties = from_typed(&typed.properties);
                Ok(LoginSuccess { uuid: typed.uuid, username: typed.username.0, properties })
            },
            Err(e) => Err(e.kind()),
        }
    }
}

} // verus!
