use vstd::prelude::*;
use crate::error::ProtoError;
use crate::frame::{
    compresses, frame_outbound, inflated, outbound_frame, packet_split, received_packet, split_packet,
    unwrap_compression, MAX_BODY,
};
use crate::inbound::{
    entity_offsets, login_success, login_success_view, player_offset, property_views, rest_of,
    spawn_entity, spawn_entity_fields, spawn_player, spawn_player_fields, LoginSuccess, SpawnEntity,
    SpawnPlayer,
};
use crate::packets::{
    animation_view, compression_request, encode_handshake, entity_animation, handshake_bytes,
    login_disconnect, single_string, NextState, MAX_ADDRESS,
};
use crate::frame::plain_frame;
use crate::varint::{varint_bytes, varint_decode, varint_write};
use vstd::utf8::encode_utf8;

verus! {

/// Login state: the server ends the session, with a reason.
pub const LOGIN_DISCONNECT: i32 = 0;
/// Login state: the server asks for encryption (online mode).
pub const ENCRYPTION_REQUEST: i32 = 1;
/// Login state: the login succeeded.
pub const LOGIN_SUCCESS: i32 = 2;
/// Login state: compression is switched on from a threshold.
pub const SET_COMPRESSION: i32 = 3;
/// Login state: the server asks for a custom login exchange.
pub const PLUGIN_REQUEST: i32 = 4;

/// Play state: an entity appeared.
pub const SPAWN_ENTITY: i32 = 1;
/// Play state: a player appeared.
pub const SPAWN_PLAYER: i32 = 3;
/// Play state: an entity played an animation.
pub const ENTITY_ANIMATION: i32 = 4;

/// The protocol state of a connection.
#[derive(Debug, Clone, Copy, PartialEq, Eq, Structural)]
pub enum ConnState {
    Handshake,
    Status,
    Login,
    Play,
}

/// What a login packet asks of the driver.
#[derive(Debug)]
pub enum LoginEvent {
    /// Nothing to send; read the next packet.
    Continue,
    /// Send these framed bytes, then read the next packet.
    Reply(Vec<u8>),
    /// The login succeeded; the session is now in play.
    LoggedIn(LoginSuccess),
}

/// What a play packet reported.
#[derive(Debug)]
pub enum PlayEvent {
    Entity(SpawnEntity),
    Player(SpawnPlayer),
    Animation(i32, String),
    Unknown(i32),
}

/// One connection's protocol state: where it stands, whether compression
/// is on and from which size, and the entities and players seen in play.
#[derive(Debug)]
pub struct Session {
    pub state: ConnState,
    pub compression: bool,
    pub threshold: i32,
    pub entities: Vec<SpawnEntity>,
    pub players: Vec<SpawnPlayer>,
}

/// What taking the frame body `body` apart gives without compression: the
/// payload and the packet id.
pub open spec fn packet_result_matches(r: Result<(Vec<u8>, i32), ProtoError>, s: Result<(Seq<u8>, i32), ProtoError>) -> bool {
    match s {
        Ok((p, id)) => r matches Ok((v, i)) && v@ == p && i == id,
        Err(e) => r == Err::<(Vec<u8>, i32), ProtoError>(e),
    }
}

impl Session {
    /// A session that has not sent its handshake yet.
    pub fn new() -> (r: Session)
        ensures
            r.state == ConnState::Handshake,
            !r.compression,
            r.threshold == 0,
            r.entities@.len() == 0,
            r.players@.len() == 0,
    {
        Session {
            state: ConnState::Handshake,
            compression: false,
            threshold: 0,
            entities: Vec::new(),
            players: Vec::new(),
        }
    }

    /// The framed handshake that moves the session to `next`.
    pub fn begin(&mut self, protocol: i32, server_addr: &String, server_port: u16, next: NextState) -> (r: Vec<u8>)
        requires
            old(self).state == ConnState::Handshake,
            encode_utf8(server_addr@).len() <= MAX_ADDRESS,
        ensures
            r@ == plain_frame(handshake_bytes(protocol, server_addr@, server_port, next)),
            final(self).state == (if next == NextState::Status {
                ConnState::Status
            } else {
                ConnState::Login
            }),
            final(self).compression == old(self).compression,
            final(self).threshold == old(self).threshold,
            final(self).entities == old(self).entities,
            final(self).players == old(self).players,
    {
        self.state = match next {
            NextState::Status => ConnState::Status,
            NextState::Login => ConnState::Login,
        };
        encode_handshake(protocol, server_addr, server_port, next)
    }

    /// Frames an outbound packet under the session's compression settings.
    pub fn outbound(&self, packet: &Vec<u8>) -> (r: Result<Vec<u8>, ProtoError>)
        requires
            packet@.len() <= MAX_BODY,
        ensures
            r matches Ok(v) ==> outbound_frame(packet@, self.compression, self.threshold) == Some(v@),
            r matches Err(e) ==> e == ProtoError::FramingError,
            !compresses(packet@.len(), self.compression, self.threshold) ==> r is Ok,
            packet@.len() > 0 ==> (r matches Ok(v) ==> received_packet(v@, self.compression)
                == Some(packet@)),
    {
        frame_outbound(packet, self.compression, self.threshold)
    }

    /// Takes an inbound frame body apart under the session's compression
    /// settings: the payload and the packet id.
    pub fn inbound(&self, body: &Vec<u8>) -> (r: Result<(Vec<u8>, i32), ProtoError>)
        ensures
            !self.compression ==> packet_result_matches(r, packet_split(body@)),
            self.compression ==> match varint_decode(body@) {
                None => r == Err::<(Vec<u8>, i32), ProtoError>(ProtoError::FramingError),
                Some((d, n)) => {
                    let rest = rest_of(body@, n as int);
                    if d == 0 {
                        packet_result_matches(r, packet_split(rest))
                    } else if d < 0 || inflated(rest).len() != d {
                        r == Err::<(Vec<u8>, i32), ProtoError>(ProtoError::FramingError)
                    } else {
                        r matches Ok((v, i)) ==> packet_split(inflated(rest)) == Ok::<
                            (Seq<u8>, i32),
                            ProtoError,
                        >((v@, i))
                    }
                },
            },
    {
        match unwrap_compression(body, self.compression) {
            Ok(packet) => split_packet(&packet),
            Err(e) => Err(e),
        }
    }

    /// Handles one inbound packet of the login state. A disconnect ends
    /// the session with its reason; an encryption request or an unknown id
    /// is a protocol violation; set-compression switches compression on
    /// with its threshold (a negative threshold sends every packet
    /// uncompressed behind a data length of zero); a plugin request gets an empty
    /// reply; login success moves the session to play.
    pub fn login_step(&mut self, id: i32, payload: &Vec<u8>) -> (r: Result<LoginEvent, ProtoError>)
        requires
            old(self).state == ConnState::Login,
        ensures
            final(self).entities == old(self).entities,
            final(self).players == old(self).players,
            id != SET_COMPRESSION ==> (final(self).compression == old(self).compression
                && final(self).threshold == old(self).threshold),
            !(id == LOGIN_SUCCESS && r is Ok) ==> final(self).state == old(self).state,
            id == LOGIN_DISCONNECT ==> match single_string(payload@) {
                Ok(t) => r matches Err(ProtoError::ServerDisconnect(m)) && m@ == t,
                Err(e) => r == Err::<LoginEvent, ProtoError>(e),
            },
            (id == ENCRYPTION_REQUEST || id < 0 || id > PLUGIN_REQUEST) ==> r == Err::<
                LoginEvent,
                ProtoError,
            >(ProtoError::ProtocolViolation),
            id == LOGIN_SUCCESS ==> match login_success_view(payload@) {
                Ok((user, ps)) => r matches Ok(LoginEvent::LoggedIn(v)) && v.username@ == user
                    && property_views(v.properties@) == ps && final(self).state == ConnState::Play,
                Err(e) => r == Err::<LoginEvent, ProtoError>(e),
            },
            id == SET_COMPRESSION ==> match varint_decode(payload@) {
                Some((t, _)) => r matches Ok(LoginEvent::Continue) && final(self).compression
                    && final(self).threshold == t,
                None => r == Err::<LoginEvent, ProtoError>(ProtoError::FramingError)
                    && final(self).compression == old(self).compression && final(self).threshold
                    == old(self).threshold,
            },
            id == PLUGIN_REQUEST ==> {
                &&& r matches Ok(LoginEvent::Reply(v)) ==> outbound_frame(
                    varint_bytes(0),
                    old(self).compression,
                    old(self).threshold,
                ) == Some(v@)
                &&& r matches Err(e) ==> e == ProtoError::FramingError
                &&& r matches Ok(ev) ==> ev is Reply
                &&& !compresses(1, old(self).compression, old(self).threshold) ==> r is Ok
            },
    {
        if id == LOGIN_DISCONNECT {
            match login_disconnect(payload) {
                Ok(reason) => Err(ProtoError::ServerDisconnect(reason)),
                Err(e) => Err(e),
            }
        } else if id == LOGIN_SUCCESS {
            match login_success(payload) {
                Ok(v) => {
                    self.state = ConnState::Play;
                    Ok(LoginEvent::LoggedIn(v))
                },
                Err(e) => Err(e),
            }
        } else if id == SET_COMPRESSION {
            match compression_request(payload) {
                Ok(t) => {
                    self.compression = true;
                    self.threshold = t;
                    Ok(LoginEvent::Continue)
                },
                Err(e) => Err(e),
            }
        } else if id == PLUGIN_REQUEST {
            let empty = varint_write(0);
            match self.outbound(&empty) {
                Ok(v) => Ok(LoginEvent::Reply(v)),
                Err(e) => Err(e),
            }
        } else {
            Err(ProtoError::ProtocolViolation)
        }
    }

    /// Handles one inbound packet of the play state. Spawned entities and
    /// players are recorded; an animation is reported; an unknown id is
    /// reported and skipped.
    pub fn play_step(&mut self, id: i32, payload: &Vec<u8>) -> (r: Result<PlayEvent, ProtoError>)
        requires
            old(self).state == ConnState::Play,
        ensures
            final(self).state == old(self).state,
            final(self).compression == old(self).compression,
            final(self).threshold == old(self).threshold,
            !(id == SPAWN_ENTITY && r is Ok) ==> final(self).entities == old(self).entities,
            !(id == SPAWN_PLAYER && r is Ok) ==> final(self).players == old(self).players,
            id == SPAWN_ENTITY ==> match entity_offsets(payload@) {
                Err(e) => r == Err::<PlayEvent, ProtoError>(e),
                Ok(_) => r matches Ok(PlayEvent::Entity(e)) && spawn_entity_fields(payload@, e)
                    && final(self).entities@ == old(self).entities@.push(e),
            },
            id == SPAWN_PLAYER ==> match player_offset(payload@) {
                Err(e) => r == Err::<PlayEvent, ProtoError>(e),
                Ok(_) => r matches Ok(PlayEvent::Player(e)) && spawn_player_fields(payload@, e)
                    && final(self).players@ == old(self).players@.push(e),
            },
            id == ENTITY_ANIMATION ==> match animation_view(payload@) {
                Ok((eid, name)) => r matches Ok(PlayEvent::Animation(i, v)) && i == eid && v@
                    == name,
                Err(e) => r == Err::<PlayEvent, ProtoError>(e),
            },
            (id != SPAWN_ENTITY && id != SPAWN_PLAYER && id != ENTITY_ANIMATION) ==> (r matches Ok(
                PlayEvent::Unknown(i),
            ) && i == id),
    {
        if id == SPAWN_ENTITY {
            match spawn_entity(payload) {
                Ok(e) => {
                    self.entities.push(e.duplicate());
                    Ok(PlayEvent::Entity(e))
                },
                Err(e) => Err(e),
            }
        } else if id == SPAWN_PLAYER {
            match spawn_player(payload) {
                Ok(p) => {
                    self.players.push(p);
                    Ok(PlayEvent::Player(p))
                },
                Err(e) => Err(e),
            }
        } else if id == ENTITY_ANIMATION {
            match entity_animation(payload) {
                Ok((eid, name)) => Ok(PlayEvent::Animation(eid, name)),
                Err(e) => Err(e),
            }
        } else {
            Ok(PlayEvent::Unknown(id))
        }
    }
}

} // verus!
