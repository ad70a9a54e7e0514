use vstd::prelude::*;
use crate::bytes::{be_value, copy_range, pow256, read_be, signed16, signed8};
use crate::error::ProtoError;
use crate::packets::{entity_id_to_string, entity_name};
use crate::text::{read_string, read_string_view};
use crate::varint::{varint_decode, varint_read};

verus! {

/// The view of a login property: name, value and optional signature.
pub type PropertyView = (Seq<char>, Seq<char>, Option<Seq<char>>);

/// One name/value property of a successful login, with its signature when
/// the server sent one.
#[derive(Debug, Clone)]
pub struct Property {
    pub name: String,
    pub value: String,
    pub signature: Option<String>,
}

impl View for Property {
    type V = PropertyView;

    open spec fn view(&self) -> PropertyView {
        (
            self.name@,
            self.value@,
            match self.signature {
                Some(s) => Some(s@),
                None => None,
            },
        )
    }
}

/// What a login success packet carries: the username and the properties.
#[derive(Debug, Clone)]
pub struct LoginSuccess {
    pub username: String,
    pub properties: Vec<Property>,
}

/// The views of a list of properties.
pub open spec fn property_views(ps: Seq<Property>) -> Seq<PropertyView> {
    ps.map_values(|p: Property| p@)
}

/// `s` from byte `n` on.
pub open spec fn rest_of(s: Seq<u8>, n: int) -> Seq<u8> {
    s.subrange(n, s.len() as int)
}

/// The property at the start of `s`, and the number of bytes it takes: a
/// name string, a value string, a byte that is zero when no signature
/// follows, and otherwise a signature string.
pub open spec fn property_at(s: Seq<u8>) -> Result<(PropertyView, nat), ProtoError> {
    match read_string_view(s) {
        Err(e) => Err(e),
        Ok((name, a)) => {
            let s1 = rest_of(s, a as int);
            match read_string_view(s1) {
                Err(e) => Err(e),
                Ok((value, b)) => {
                    let s2 = rest_of(s1, b as int);
                    if s2.len() == 0 {
                        Err(ProtoError::ProtocolViolation)
                    } else if s2[0] == 0 {
                        Ok(((name, value, None), (a + b + 1) as nat))
                    } else {
                        match read_string_view(rest_of(s2, 1)) {
                            Err(e) => Err(e),
                            Ok((sig, c)) => Ok(((name, value, Some(sig)), (a + b + 1 + c) as nat)),
                        }
                    }
                },
            }
        },
    }
}

/// The first `k` properties at the start of `s`.
pub open spec fn properties_at(s: Seq<u8>, k: nat) -> Result<Seq<PropertyView>, ProtoError>
    decreases k,
{
    if k == 0 {
        Ok(seq![])
    } else {
        match property_at(s) {
            Err(e) => Err(e),
            Ok((p, n)) => match properties_at(rest_of(s, n as int), (k - 1) as nat) {
                Err(e) => Err(e),
                Ok(ps) => Ok(seq![p] + ps),
            },
        }
    }
}

/// `done` followed by what `later` holds, or the error of `later`.
pub open spec fn joined(done: Seq<PropertyView>, later: Result<Seq<PropertyView>, ProtoError>) -> Result<Seq<PropertyView>, ProtoError> {
    match later {
        Ok(ps) => Ok(done + ps),
        Err(e) => Err(e),
    }
}

/// The length of the UUID field that login success and spawn packets
/// carry.
pub const UUID_LEN: usize = 16;

/// What a login success packet gives: after a 16-byte UUID, the username,
/// a VarInt property count, and that many properties.
pub open spec fn login_success_view(p: Seq<u8>) -> Result<(Seq<char>, Seq<PropertyView>), ProtoError> {
    if p.len() < 16 {
        Err(ProtoError::ProtocolViolation)
    } else {
        let s = rest_of(p, 16);
        match read_string_view(s) {
            Err(e) => Err(e),
            Ok((user, a)) => {
                let s1 = rest_of(s, a as int);
                match varint_decode(s1) {
                    None => Err(ProtoError::FramingError),
                    Some((count, b)) => if count < 0 {
                        Err(ProtoError::ProtocolViolation)
                    } else {
                        match properties_at(rest_of(s1, b as int), count as nat) {
                            Err(e) => Err(e),
                            Ok(ps) => Ok((user, ps)),
                        }
                    },
                }
            },
        }
    }
}

/// The string field at the start of `data`, the bytes after it, and its
/// length.
fn take_string(data: &Vec<u8>) -> (r: Result<(String, Vec<u8>, usize), ProtoError>)
    ensures
        match read_string_view(data@) {
            Ok((t, n)) => r matches Ok((v, rest, m)) && v@ == t && m == n && 0 < n <= data@.len()
                && rest@ == rest_of(data@, n as int),
            Err(e) => r == Err::<(String, Vec<u8>, usize), ProtoError>(e),
        },
{
    match read_string(data) {
        Ok((t, n)) => {
            let m = n as usize;
            Ok((t, copy_range(data, m, data.len()), m))
        },
        Err(e) => Err(e),
    }
}

/// Reads the property at the start of `data`, giving it and the number of
/// bytes it takes.
pub fn read_property(data: &Vec<u8>) -> (r: Result<(Property, usize), ProtoError>)
    ensures
        match property_at(data@) {
            Ok((p, n)) => r matches Ok((v, m)) && v@ == p && m == n,
            Err(e) => r == Err::<(Property, usize), ProtoError>(e),
        },
{
    let (name, s1, a) = match take_string(data) {
        Ok(t) => t,
        Err(e) => return Err(e),
    };
    let (value, s2, b) = match take_string(&s1) {
        Ok(t) => t,
        Err(e) => return Err(e),
    };
    if s2.len() == 0 {
        return Err(ProtoError::ProtocolViolation);
    }
    if s2[0] == 0 {
        return Ok((Property { name, value, signature: None }, a + b + 1));
    }
    let s3 = copy_range(&s2, 1, s2.len());
    let (sig, _, c) = match take_string(&s3) {
        Ok(t) => t,
        Err(e) => return Err(e),
    };
    assert(a + b + 1 + c <= data.len());
    Ok((Property { name, value, signature: Some(sig) }, a + b + 1 + c))
}

/// Reads `count` properties from the start of `data`.
pub fn read_properties(data: &Vec<u8>, count: u32) -> (r: Result<Vec<Property>, ProtoError>)
    ensures
        match properties_at(data@, count as nat) {
            Ok(ps) => r matches Ok(v) && property_views(v@) == ps,
            Err(e) => r == Err::<Vec<Property>, ProtoError>(e),
        },
{
    let mut props: Vec<Property> = Vec::new();
    let mut rest: Vec<u8> = data.clone();
    let mut i: u32 = 0;
    while i < count
        invariant
            i <= count,
            properties_at(data@, count as nat) == joined(
                property_views(props@),
                properties_at(rest@, (count - i) as nat),
            ),
        decreases count - i,
    {
        proof {
            reveal_with_fuel(properties_at, 2);
        }
        let (p, n) = match read_property(&rest) {
            Ok(t) => t,
            Err(e) => return Err(e),
        };
        let next = copy_range(&rest, n, rest.len());
        proof {
            assert(property_views(props@.push(p)) =~= property_views(props@) + seq![p@]);
            let later = properties_at(next@, (count - i - 1) as nat);
            match later {
                Ok(ps) => {
                    assert(property_views(props@) + (seq![p@] + ps) =~= property_views(props@)
                        + seq![p@] + ps);
                },
                Err(_) => {},
            }
        }
        props.push(p);
        rest = next;
        i = i + 1;
    }
    proof {
        assert(property_views(props@) + Seq::<PropertyView>::empty() =~= property_views(props@));
    }
    Ok(props)
}

/// Decodes a login success packet: skips the 16-byte UUID, then reads the
/// username and its properties.
pub fn login_success(packet: &Vec<u8>) -> (r: Result<LoginSuccess, ProtoError>)
    ensures
        match login_success_view(packet@) {
            Ok((user, ps)) => r matches Ok(v) && v.username@ == user && property_views(
                v.properties@,
            ) == ps,
            Err(e) => r == Err::<LoginSuccess, ProtoError>(e),
        },
{
    if packet.len() < UUID_LEN {
        return Err(ProtoError::ProtocolViolation);
    }
    let s = copy_range(packet, UUID_LEN, packet.len());
    let (username, s1, _) = match take_string(&s) {
        Ok(t) => t,
        Err(e) => return Err(e),
    };
    let (count, b) = match varint_read(&s1) {
        Ok(t) => t,
        Err(e) => return Err(e),
    };
    if count < 0 {
        return Err(ProtoError::ProtocolViolation);
    }
    let s2 = copy_range(&s1, b, s1.len());
    match read_properties(&s2, count as u32) {
        Ok(properties) => Ok(LoginSuccess { username, properties }),
        Err(e) => Err(e),
    }
}

/// An entity that the server spawned. The coordinates are the IEEE-754
/// bit patterns of the 64-bit floats on the wire.
#[derive(Debug, Clone)]
pub struct SpawnEntity {
    pub entity_id: i32,
    pub entity_type: i32,
    pub kind_name: String,
    pub x: u64,
    pub y: u64,
    pub z: u64,
    pub pitch: i8,
    pub yaw: i8,
    pub head_yaw: i8,
    pub data: i32,
    pub velocity_x: i16,
    pub velocity_y: i16,
    pub velocity_z: i16,
}

impl SpawnEntity {
    /// A copy of this record.
    pub fn duplicate(&self) -> (r: SpawnEntity)
        ensures
            r == *self,
    {
        SpawnEntity {
            entity_id: self.entity_id,
            entity_type: self.entity_type,
            kind_name: self.kind_name.clone(),
            x: self.x,
            y: self.y,
            z: self.z,
            pitch: self.pitch,
            yaw: self.yaw,
            head_yaw: self.head_yaw,
            data: self.data,
            velocity_x: self.velocity_x,
            velocity_y: self.velocity_y,
            velocity_z: self.velocity_z,
        }
    }
}

/// A player that the server spawned. The coordinates are the IEEE-754 bit
/// patterns of the 64-bit floats on the wire.
#[derive(Debug, Clone, Copy)]
pub struct SpawnPlayer {
    pub entity_id: i32,
    pub x: u64,
    pub y: u64,
    pub z: u64,
    pub yaw: i8,
    pub pitch: i8,
}

/// The value of the VarInt at byte `n` of `s` (meaningful where one is
/// there).
pub open spec fn varint_at(s: Seq<u8>, n: int) -> i32 {
    varint_decode(rest_of(s, n)).unwrap().0
}

/// The unsigned big-endian value of the `k` bytes of `s` from `n`.
pub open spec fn be_at(s: Seq<u8>, n: int, k: int) -> nat {
    be_value(s.subrange(n, n + k))
}

/// Where the fields of a spawn entity packet start: after the entity id,
/// after the entity type, and after the auxiliary data. A VarInt that
/// cannot be decoded is a framing error; a packet too short for its fixed
/// fields is a protocol violation.
pub open spec fn entity_offsets(p: Seq<u8>) -> Result<(nat, nat, nat), ProtoError> {
    match varint_decode(p) {
        None => Err(ProtoError::FramingError),
        Some((_, n1)) => if n1 + 16 > p.len() {
            Err(ProtoError::ProtocolViolation)
        } else {
            match varint_decode(rest_of(p, (n1 + 16) as int)) {
                None => Err(ProtoError::FramingError),
                Some((_, n2)) => {
                    let o2 = n1 + 16 + n2;
                    if o2 + 27 > p.len() {
                        Err(ProtoError::ProtocolViolation)
                    } else {
                        match varint_decode(rest_of(p, (o2 + 27) as int)) {
                            None => Err(ProtoError::FramingError),
                            Some((_, n3)) => {
                                let o3 = o2 + 27 + n3;
                                if o3 + 6 > p.len() {
                                    Err(ProtoError::ProtocolViolation)
                                } else {
                                    Ok((n1, o2 as nat, o3 as nat))
                                }
                            },
                        }
                    }
                },
            }
        },
    }
}

/// Whether `e` holds the fields of spawn entity packet `p`: VarInt entity
/// id, 16-byte UUID, VarInt entity type, x, y, z as big-endian 64-bit
/// floats, pitch, yaw and head yaw as signed bytes, VarInt auxiliary data,
/// and three big-endian 16-bit signed velocities.
pub open spec fn spawn_entity_fields(p: Seq<u8>, e: SpawnEntity) -> bool {
    match entity_offsets(p) {
        Err(_) => false,
        Ok((n1, o2, o3)) => {
            &&& e.entity_id == varint_at(p, 0)
            &&& e.entity_type == varint_at(p, (n1 + 16) as int)
            &&& e.kind_name@ == entity_name(e.entity_type)
            &&& e.x == be_at(p, o2 as int, 8)
            &&& e.y == be_at(p, (o2 + 8) as int, 8)
            &&& e.z == be_at(p, (o2 + 16) as int, 8)
            &&& e.pitch == signed8(p[(o2 + 24) as int])
            &&& e.yaw == signed8(p[(o2 + 25) as int])
            &&& e.head_yaw == signed8(p[(o2 + 26) as int])
            &&& e.data == varint_at(p, (o2 + 27) as int)
            &&& e.velocity_x == signed16(be_at(p, o3 as int, 2))
            &&& e.velocity_y == signed16(be_at(p, (o3 + 2) as int, 2))
            &&& e.velocity_z == signed16(be_at(p, (o3 + 4) as int, 2))
        },
    }
}

fn byte_signed(b: u8) -> (r: i8)
    ensures
        r == signed8(b),
{
    if b >= 128 {
        (b as i16 - 256) as i8
    } else {
        b as i8
    }
}

fn be_i16(data: &Vec<u8>, from: usize) -> (r: i16)
    requires
        from + 2 <= data@.len(),
    ensures
        r == signed16(be_at(data@, from as int, 2)),
{
    let v = read_be(data, from, 2);
    proof {
        reveal_with_fuel(pow256, 3);
    }
    if v >= 0x8000 {
        (v as i32 - 0x1_0000) as i16
    } else {
        v as i16
    }
}

/// The VarInt at byte `n` of `data` and the number of bytes it takes.
fn varint_from(data: &Vec<u8>, n: usize) -> (r: Result<(i32, usize), ProtoError>)
    requires
        n <= data@.len(),
    ensures
        match varint_decode(rest_of(data@, n as int)) {
            Some((v, k)) => r matches Ok((w, m)) && w == v && m == k && n + k <= data@.len(),
            None => r == Err::<(i32, usize), ProtoError>(ProtoError::FramingError),
        },
{
    let rest = copy_range(data, n, data.len());
    varint_read(&rest)
}

/// Decodes a spawn entity packet. Fails with a framing error when a VarInt
/// in it cannot be decoded, and with a protocol violation when it is too
/// short for its fixed fields.
pub fn spawn_entity(packet: &Vec<u8>) -> (r: Result<SpawnEntity, ProtoError>)
    ensures
        match entity_offsets(packet@) {
            Err(e) => r == Err::<SpawnEntity, ProtoError>(e),
            Ok(_) => r matches Ok(e) && spawn_entity_fields(packet@, e),
        },
{
    proof {
        assert(rest_of(packet@, 0) =~= packet@);
    }
    let (entity_id, n1) = match varint_from(packet, 0) {
        Ok(t) => t,
        Err(e) => return Err(e),
    };
    if UUID_LEN > packet.len() - n1 {
        return Err(ProtoError::ProtocolViolation);
    }
    let (entity_type, n2) = match varint_from(packet, n1 + UUID_LEN) {
        Ok(t) => t,
        Err(e) => return Err(e),
    };
    let o2 = n1 + UUID_LEN + n2;
    if 27 > packet.len() - o2 {
        return Err(ProtoError::ProtocolViolation);
    }
    let x = read_be(packet, o2, 8);
    let y = read_be(packet, o2 + 8, 8);
    let z = read_be(packet, o2 + 16, 8);
    let pitch = byte_signed(packet[o2 + 24]);
    let yaw = byte_signed(packet[o2 + 25]);
    let head_yaw = byte_signed(packet[o2 + 26]);
    let (data, n3) = match varint_from(packet, o2 + 27) {
        Ok(t) => t,
        Err(e) => return Err(e),
    };
    let o3 = o2 + 27 + n3;
    if 6 > packet.len() - o3 {
        return Err(ProtoError::ProtocolViolation);
    }
    let velocity_x = be_i16(packet, o3);
    let velocity_y = be_i16(packet, o3 + 2);
    let velocity_z = be_i16(packet, o3 + 4);
    let kind_name = entity_id_to_string(entity_type);
    Ok(SpawnEntity {
        entity_id,
        entity_type,
        kind_name,
        x,
        y,
        z,
        pitch,
        yaw,
        head_yaw,
        data,
        velocity_x,
        velocity_y,
        velocity_z,
    })
}

/// Where the coordinates of a spawn player packet start, after the entity
/// id and the UUID. An id that cannot be decoded is a framing error; a
/// packet too short for its fixed fields is a protocol violation.
pub open spec fn player_offset(p: Seq<u8>) -> Result<nat, ProtoError> {
    match varint_decode(p) {
        None => Err(ProtoError::FramingError),
        Some((_, n1)) => if n1 + 16 + 26 > p.len() {
            Err(ProtoError::ProtocolViolation)
        } else {
            Ok((n1 + 16) as nat)
        },
    }
}

/// Whether `e` holds the fields of spawn player packet `p`: VarInt entity
/// id, 16-byte UUID, x, y, z as big-endian 64-bit floats, then yaw and
/// pitch as signed bytes.
pub open spec fn spawn_player_fields(p: Seq<u8>, e: SpawnPlayer) -> bool {
    match player_offset(p) {
        Err(_) => false,
        Ok(o) => {
            &&& e.entity_id == varint_at(p, 0)
            &&& e.x == be_at(p, o as int, 8)
            &&& e.y == be_at(p, (o + 8) as int, 8)
            &&& e.z == be_at(p, (o + 16) as int, 8)
            &&& e.yaw == signed8(p[(o + 24) as int])
            &&& e.pitch == signed8(p[(o + 25) as int])
        },
    }
}

/// Decodes a spawn player packet. Fails with a framing error when its id
/// cannot be decoded, and with a protocol violation when it is too short
/// for its fixed fields.
pub fn spawn_player(packet: &Vec<u8>) -> (r: Result<SpawnPlayer, ProtoError>)
    ensures
        match player_offset(packet@) {
            Err(e) => r == Err::<SpawnPlayer, ProtoError>(e),
            Ok(_) => r matches Ok(e) && spawn_player_fields(packet@, e),
        },
{
    proof {
        assert(rest_of(packet@, 0) =~= packet@);
    }
    let (entity_id, n1) = match varint_from(packet, 0) {
        Ok(t) => t,
        Err(e) => return Err(e),
    };
    if UUID_LEN + 26 > packet.len() - n1 {
        return Err(ProtoError::ProtocolViolation);
    }
    let o = n1 + UUID_LEN;
    let x = read_be(packet, o, 8);
    let y = read_be(packet, o + 8, 8);
    let z = read_be(packet, o + 16, 8);
    let yaw = byte_signed(packet[o + 24]);
    let pitch = byte_signed(packet[o + 25]);
    Ok(SpawnPlayer { entity_id, x, y, z, yaw, pitch })
}

} // verus!
