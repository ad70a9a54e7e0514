use vstd::prelude::*;
use vstd::string::*;
use vstd::utf8::*;
use crate::bytes::{append_bytes, be_bytes, be_value, push_be, read_be};
use crate::error::ProtoError;
use crate::frame::{packer, plain_frame, MAX_BODY};
use crate::text::{lemma_utf8_len, push_char, read_string, read_string_view, string_bytes, write_string};
use crate::varint::{varint_bytes, varint_decode, varint_length_bounds, varint_read, varint_write};

verus! {

/// The longest username, in characters, that a login may carry.
pub const MAX_USERNAME: usize = 16;

/// The longest server address, in UTF-8 bytes, that a handshake may carry.
pub const MAX_ADDRESS: usize = 0x7fff_0000;

/// The state a handshake asks the server to move to.
#[derive(Debug, Clone, Copy, PartialEq, Eq, Structural)]
pub enum NextState {
    Status,
    Login,
}

impl NextState {
    /// The byte that stands for this state in a handshake.
    pub open spec fn spec_code(self) -> u8 {
        match self {
            NextState::Status => 1,
            NextState::Login => 2,
        }
    }

    /// The byte that stands for this state in a handshake.
    pub fn code(self) -> (r: u8)
        ensures
            r == self.spec_code(),
    {
        match self {
            NextState::Status => 1,
            NextState::Login => 2,
        }
    }
}

/// The name of entity type `id`.
pub open spec fn entity_name(id: i32) -> Seq<char> {
    match id {
        0 => "allay"@,
        1 => "Area effect cloud"@,
        2 => "Armor stand"@,
        3 => "Arrow"@,
        4 => "Axolotl"@,
        5 => "Bat"@,
        6 => "Bee"@,
        7 => "Blaze"@,
        8 => "Block display"@,
        9 => "Boat"@,
        10 => "Camel"@,
        11 => "Cat"@,
        12 => "Cave Spider"@,
        13 => "Chest Boat"@,
        14 => "Chest Minecart"@,
        15 => "Chicken"@,
        16 => "Cod"@,
        17 => "Command Block Minecart"@,
        18 => "Cow"@,
        19 => "Creeper"@,
        20 => "Dolphin"@,
        21 => "Donkey"@,
        22 => "Dragon Fireball"@,
        23 => "Drowned"@,
        24 => "Egg"@,
        25 => "Elder Guardian"@,
        26 => "End Crystal"@,
        27 => "Ender Dragon"@,
        28 => "Ender Pearl"@,
        29 => "Enderman"@,
        30 => "Endermite"@,
        31 => "Evoker"@,
        32 => "Evoker Fangs"@,
        33 => "Experience Bottle"@,
        34 => "Experience Orb"@,
        35 => "Eye of Ender"@,
        36 => "Falling block"@,
        37 => "Firework Rocket"@,
        38 => "Fox"@,
        39 => "Frog"@,
        40 => "Furnace Minecart"@,
        41 => "Ghast"@,
        42 => "Giant"@,
        43 => "Glowing Item Frame"@,
        44 => "Glow Squid"@,
        45 => "Goat"@,
        46 => "Guardian"@,
        47 => "Hoglin"@,
        48 => "Hopper Minecart"@,
        49 => "Horse"@,
        50 => "Husk"@,
        51 => "Illusioner"@,
        52 => "Interaction"@,
        53 => "Iron Golem"@,
        54 => "Item"@,
        55 => "Item Display"@,
        56 => "Item Frame"@,
        57 => "Fireball"@,
        58 => "Leash Knot"@,
        59 => "Lightning Bolt"@,
        60 => "Llama"@,
        61 => "Llama Spit"@,
        62 => "Magma Cube"@,
        63 => "Marker"@,
        64 => "Minecraft"@,
        65 => "Mooshroom"@,
        66 => "Mule"@,
        67 => "Ocelot"@,
        68 => "Painting"@,
        69 => "Panda"@,
        70 => "Parrot"@,
        71 => "Phantom"@,
        72 => "Pig"@,
        73 => "Piglin"@,
        74 => "Piglin Brute"@,
        75 => "Pillager"@,
        76 => "Polar Bear"@,
        77 => "Potion"@,
        78 => "Pufferfish"@,
        79 => "Rabbit"@,
        80 => "Ravager"@,
        81 => "Salmon"@,
        82 => "Sheep"@,
        83 => "Shulker"@,
        84 => "Shulker Bullet"@,
        85 => "Silverfish bullet"@,
        86 => "Skeleton"@,
        87 => "Skeleton Horse"@,
        88 => "Slime"@,
        89 => "Small Fireball"@,
        90 => "Sniffer"@,
        91 => "Snow Golem"@,
        92 => "Snowball"@,
        93 => "Spawner Minecart"@,
        94 => "Spectral Arrow"@,
        95 => "Spider"@,
        96 => "Squid"@,
        97 => "Stray"@,
        98 => "Strider"@,
        99 => "Tadpole"@,
        100 => "Text Display"@,
        101 => "Tnt"@,
        102 => "Tnt Minecart"@,
        103 => "Trader Llama"@,
        104 => "Trident"@,
        105 => "Tropical Fish"@,
        106 => "Turtle"@,
        107 => "Vex"@,
        108 => "Villager"@,
        109 => "Vindicator"@,
        110 => "Wandering Trader"@,
        111 => "Warden"@,
        112 => "Witch"@,
        113 => "Wither"@,
        114 => "Wither Skeleton"@,
        115 => "Wither Skull"@,
        116 => "Wolf"@,
        117 => "Zoglin"@,
        118 => "Zombie"@,
        119 => "Zombie Horse"@,
        120 => "Zombie Villager"@,
        121 => "Zombified Piglin"@,
        122 => "Player"@,
        123 => "Fishing Bobber"@,
        _ => "Unknown"@,
    }
}

/// The name of entity type `id`, or "Unknown".
pub fn entity_id_to_string(id: i32) -> (r: String)
    ensures
        r@ == entity_name(id),
{
    let name: &str = match id {
        0 => "allay",
        1 => "Area effect cloud",
        2 => "Armor stand",
        3 => "Arrow",
        4 => "Axolotl",
        5 => "Bat",
        6 => "Bee",
        7 => "Blaze",
        8 => "Block display",
        9 => "Boat",
        10 => "Camel",
        11 => "Cat",
        12 => "Cave Spider",
        13 => "Chest Boat",
        14 => "Chest Minecart",
        15 => "Chicken",
        16 => "Cod",
        17 => "Command Block Minecart",
        18 => "Cow",
        19 => "Creeper",
        20 => "Dolphin",
        21 => "Donkey",
        22 => "Dragon Fireball",
        23 => "Drowned",
        24 => "Egg",
        25 => "Elder Guardian",
        26 => "End Crystal",
        27 => "Ender Dragon",
        28 => "Ender Pearl",
        29 => "Enderman",
        30 => "Endermite",
        31 => "Evoker",
        32 => "Evoker Fangs",
        33 => "Experience Bottle",
        34 => "Experience Orb",
        35 => "Eye of Ender",
        36 => "Falling block",
        37 => "Firework Rocket",
        38 => "Fox",
        39 => "Frog",
        40 => "Furnace Minecart",
        41 => "Ghast",
        42 => "Giant",
        43 => "Glowing Item Frame",
        44 => "Glow Squid",
        45 => "Goat",
        46 => "Guardian",
        47 => "Hoglin",
        48 => "Hopper Minecart",
        49 => "Horse",
        50 => "Husk",
        51 => "Illusioner",
        52 => "Interaction",
        53 => "Iron Golem",
        54 => "Item",
        55 => "Item Display",
        56 => "Item Frame",
        57 => "Fireball",
        58 => "Leash Knot",
        59 => "Lightning Bolt",
        60 => "Llama",
        61 => "Llama Spit",
        62 => "Magma Cube",
        63 => "Marker",
        64 => "Minecraft",
        65 => "Mooshroom",
        66 => "Mule",
        67 => "Ocelot",
        68 => "Painting",
        69 => "Panda",
        70 => "Parrot",
        71 => "Phantom",
        72 => "Pig",
        73 => "Piglin",
        74 => "Piglin Brute",
        75 => "Pillager",
        76 => "Polar Bear",
        77 => "Potion",
        78 => "Pufferfish",
        79 => "Rabbit",
        80 => "Ravager",
        81 => "Salmon",
        82 => "Sheep",
        83 => "Shulker",
        84 => "Shulker Bullet",
        85 => "Silverfish bullet",
        86 => "Skeleton",
        87 => "Skeleton Horse",
        88 => "Slime",
        89 => "Small Fireball",
        90 => "Sniffer",
        91 => "Snow Golem",
        92 => "Snowball",
        93 => "Spawner Minecart",
        94 => "Spectral Arrow",
        95 => "Spider",
        96 => "Squid",
        97 => "Stray",
        98 => "Strider",
        99 => "Tadpole",
        100 => "Text Display",
        101 => "Tnt",
        102 => "Tnt Minecart",
        103 => "Trader Llama",
        104 => "Trident",
        105 => "Tropical Fish",
        106 => "Turtle",
        107 => "Vex",
        108 => "Villager",
        109 => "Vindicator",
        110 => "Wandering Trader",
        111 => "Warden",
        112 => "Witch",
        113 => "Wither",
        114 => "Wither Skeleton",
        115 => "Wither Skull",
        116 => "Wolf",
        117 => "Zoglin",
        118 => "Zombie",
        119 => "Zombie Horse",
        120 => "Zombie Villager",
        121 => "Zombified Piglin",
        122 => "Player",
        123 => "Fishing Bobber",
        _ => "Unknown",
    };
    String::from_str(name)
}

/// The name of animation `code`.
pub open spec fn animation_name(code: u8) -> Seq<char> {
    match code {
        0 => "Swing main arm"@,
        1 => "Take Damage"@,
        2 => "Leave Bed"@,
        3 => "Swing offhand"@,
        4 => "Critical effect"@,
        5 => "Magic Critical effect (?)"@,
        _ => "Unknown"@,
    }
}

fn animation_to_string(code: u8) -> (r: String)
    ensures
        r@ == animation_name(code),
{
    let name: &str = match code {
        0 => "Swing main arm",
        1 => "Take Damage",
        2 => "Leave Bed",
        3 => "Swing offhand",
        4 => "Critical effect",
        5 => "Magic Critical effect (?)",
        _ => "Unknown",
    };
    String::from_str(name)
}

/// The lower-case form of a text, as std's Unicode case mapping gives it.
pub uninterp spec fn lower_of(s: Seq<char>) -> Seq<char>;

/// Relies on `str::to_lowercase`: the result depends on the characters alone.
#[verifier::external_body]
fn lowercase(s: &str) -> (r: String)
    ensures
        r@ == lower_of(s@),
{
    s.to_lowercase()
}

/// Relies on `SystemTime::now` and `duration_since(UNIX_EPOCH)`: whole
/// seconds since the Unix epoch, or `None` when the clock reads earlier.
#[verifier::external_body]
fn unix_seconds() -> (r: Option<u64>) {
    match std::time::SystemTime::now().duration_since(std::time::UNIX_EPOCH) {
        Ok(d) => Some(d.as_secs()),
        Err(_) => None,
    }
}

/// Whether two texts hold the same characters.
pub fn text_eq(a: &str, b: &str) -> (r: bool)
    ensures
        r == (a@ == b@),
{
    let n = a.unicode_len();
    if n != b.unicode_len() {
        return false;
    }
    let mut i: usize = 0;
    while i < n
        invariant
            n == a@.len(),
            n == b@.len(),
            i <= n,
            forall|j: int| 0 <= j < i ==> a@[j] == b@[j],
        decreases n - i,
    {
        if a.get_char(i) != b.get_char(i) {
            return false;
        }
        i = i + 1;
    }
    proof {
        assert(a@ =~= b@);
    }
    true
}

/// The state that an already lower-cased `next_state` names.
pub open spec fn state_named(lowered: Seq<char>) -> Option<NextState> {
    if lowered == "status"@ {
        Some(NextState::Status)
    } else if lowered == "login"@ {
        Some(NextState::Login)
    } else {
        None
    }
}

/// The state that an already lower-cased `next_state` names: "status" or
/// "login".
pub fn parse_next_state(lowered: &str) -> (r: Option<NextState>)
    ensures
        r == state_named(lowered@),
{
    if text_eq(lowered, "status") {
        Some(NextState::Status)
    } else if text_eq(lowered, "login") {
        Some(NextState::Login)
    } else {
        None
    }
}

/// The handshake packet: id 0, protocol version, server address, port
/// (big-endian) and the next state's byte.
pub open spec fn handshake_bytes(protocol: i32, addr: Seq<char>, port: u16, next: NextState) -> Seq<u8> {
    varint_bytes(0) + varint_bytes(protocol) + string_bytes(addr) + be_bytes(port as nat, 2) + seq![
        next.spec_code(),
    ]
}

/// The framed handshake that asks the server to move to `next`.
pub fn encode_handshake(protocol: i32, server_addr: &String, server_port: u16, next: NextState) -> (r: Vec<u8>)
    requires
        encode_utf8(server_addr@).len() <= MAX_ADDRESS,
    ensures
        r@ == plain_frame(handshake_bytes(protocol, server_addr@, server_port, next)),
{
    let mut body = varint_write(0);
    append_bytes(&mut body, varint_write(protocol).as_slice());
    append_bytes(&mut body, write_string(server_addr.clone()).as_slice());
    push_be(&mut body, server_port as u64, 2);
    body.push(next.code());
    proof {
        varint_length_bounds(protocol);
        varint_length_bounds(encode_utf8(server_addr@).len() as i32);
        lemma_be_len(server_port as nat, 2);
        assert(body@ =~= handshake_bytes(protocol, server_addr@, server_port, next));
    }
    packer(body)
}

/// The framed handshake; `next_state` must name "status" or "login", in any
/// case, and the address must not be longer than `MAX_ADDRESS` bytes.
pub fn handshake(protocol: i32, server_addr: String, server_port: u16, next_state: String) -> (r: Result<Vec<u8>, ProtoError>)
    ensures
        encode_utf8(server_addr@).len() > MAX_ADDRESS ==> r == Err::<Vec<u8>, ProtoError>(
            ProtoError::ProtocolViolation,
        ),
        encode_utf8(server_addr@).len() <= MAX_ADDRESS ==> match state_named(
            lower_of(next_state@),
        ) {
            None => r == Err::<Vec<u8>, ProtoError>(ProtoError::ProtocolViolation),
            Some(next) => r matches Ok(v) && v@ == plain_frame(
                handshake_bytes(protocol, server_addr@, server_port, next),
            ),
        },
{
    if server_addr.as_str().as_bytes().len() > MAX_ADDRESS {
        return Err(ProtoError::ProtocolViolation);
    }
    let lowered = lowercase(next_state.as_str());
    match parse_next_state(lowered.as_str()) {
        Some(next) => Ok(encode_handshake(protocol, &server_addr, server_port, next)),
        None => Err(ProtoError::ProtocolViolation),
    }
}

/// The framed status request: packet id 0 and nothing else.
pub fn status_request() -> (r: Vec<u8>)
    ensures
        r@ == plain_frame(varint_bytes(0)),
{
    packer(varint_write(0))
}

/// The ping request packet: id 1 and a 64-bit big-endian timestamp.
pub open spec fn ping_bytes(now: u64) -> Seq<u8> {
    varint_bytes(1) + be_bytes(now as nat, 8)
}

/// The framed ping request carrying the timestamp `now`.
pub fn ping_request_at(now: u64) -> (r: Vec<u8>)
    ensures
        r@ == plain_frame(ping_bytes(now)),
{
    let mut body = varint_write(1);
    push_be(&mut body, now, 8);
    proof {
        varint_length_bounds(1);
        lemma_be_len(now as nat, 8);
    }
    packer(body)
}

proof fn lemma_be_len(n: nat, k: nat)
    ensures
        be_bytes(n, k).len() == k,
    decreases k,
{
    if k > 0 {
        lemma_be_len(n / 256, (k - 1) as nat);
    }
}

/// The framed ping request carrying the current time in seconds since the
/// Unix epoch. Fails when the clock reads earlier than the epoch.
pub fn ping_request() -> (r: Result<Vec<u8>, ProtoError>)
    ensures
        r matches Ok(v) ==> exists|now: u64| v@ == plain_frame(ping_bytes(now)),
        r matches Err(e) ==> e == ProtoError::ClockError,
{
    match unix_seconds() {
        Some(now) => Ok(ping_request_at(now)),
        None => Err(ProtoError::ClockError),
    }
}

/// The login start packet: id 0, the username, and a byte saying that no
/// UUID follows.
pub open spec fn login_start_bytes(username: Seq<char>) -> Seq<u8> {
    varint_bytes(0) + string_bytes(username) + seq![0u8]
}

/// The framed login start for `username`; fails when the name is longer
/// than sixteen characters.
pub fn login_start(username: String) -> (r: Result<Vec<u8>, ProtoError>)
    ensures
        username@.len() > MAX_USERNAME ==> r == Err::<Vec<u8>, ProtoError>(
            ProtoError::ProtocolViolation,
        ),
        username@.len() <= MAX_USERNAME ==> (r matches Ok(v) && v@ == plain_frame(
            login_start_bytes(username@),
        )),
{
    if username.as_str().unicode_len() > MAX_USERNAME {
        return Err(ProtoError::ProtocolViolation);
    }
    proof {
        lemma_utf8_len(username@);
    }
    let mut body = varint_write(0);
    append_bytes(&mut body, write_string(username.clone()).as_slice());
    body.push(0u8);
    proof {
        varint_length_bounds(encode_utf8(username@).len() as i32);
        assert(body@ =~= login_start_bytes(username@));
    }
    Ok(packer(body))
}

/// The threshold that a set-compression packet carries.
pub fn compression_request(packet: &Vec<u8>) -> (r: Result<i32, ProtoError>)
    ensures
        match varint_decode(packet@) {
            Some((t, _)) => r == Ok::<i32, ProtoError>(t),
            None => r == Err::<i32, ProtoError>(ProtoError::FramingError),
        },
{
    match varint_read(packet) {
        Ok((t, _)) => Ok(t),
        Err(e) => Err(e),
    }
}

/// What a packet holding one string field gives: the field's text.
pub open spec fn single_string(packet: Seq<u8>) -> Result<Seq<char>, ProtoError> {
    match read_string_view(packet) {
        Ok((t, _)) => Ok(t),
        Err(e) => Err(e),
    }
}

/// The reason (a JSON text) that a login disconnect packet carries.
pub fn login_disconnect(packet: &Vec<u8>) -> (r: Result<String, ProtoError>)
    ensures
        match single_string(packet@) {
            Ok(t) => r matches Ok(v) && v@ == t,
            Err(e) => r == Err::<String, ProtoError>(e),
        },
{
    match read_string(packet) {
        Ok((t, _)) => Ok(t),
        Err(e) => Err(e),
    }
}

/// The JSON text that a status response packet carries.
pub fn status_response(packet: &Vec<u8>) -> (r: Result<String, ProtoError>)
    ensures
        match single_string(packet@) {
            Ok(t) => r matches Ok(v) && v@ == t,
            Err(e) => r == Err::<String, ProtoError>(e),
        },
{
    match read_string(packet) {
        Ok((t, _)) => Ok(t),
        Err(e) => Err(e),
    }
}

/// The decimal digit for `d`.
pub open spec fn digit(d: nat) -> char {
    if d == 0 {
        '0'
    } else if d == 1 {
        '1'
    } else if d == 2 {
        '2'
    } else if d == 3 {
        '3'
    } else if d == 4 {
        '4'
    } else if d == 5 {
        '5'
    } else if d == 6 {
        '6'
    } else if d == 7 {
        '7'
    } else if d == 8 {
        '8'
    } else {
        '9'
    }
}

/// The decimal form of `n`, without leading zeros.
pub open spec fn decimal(n: nat) -> Seq<char>
    decreases n,
{
    if n < 10 {
        seq![digit(n)]
    } else {
        decimal(n / 10).push(digit(n % 10))
    }
}

fn digit_char(d: u64) -> (r: char)
    requires
        d < 10,
    ensures
        r == digit(d as nat),
{
    match d {
        0 => '0',
        1 => '1',
        2 => '2',
        3 => '3',
        4 => '4',
        5 => '5',
        6 => '6',
        7 => '7',
        8 => '8',
        _ => '9',
    }
}

/// Appends the decimal form of `n` to `out`.
pub fn push_decimal(out: &mut String, n: u64)
    ensures
        final(out)@ == old(out)@ + decimal(n as nat),
    decreases n,
{
    if n >= 10 {
        push_decimal(out, n / 10);
        push_char(out, digit_char(n % 10));
        proof {
            assert(old(out)@ + decimal((n / 10) as nat).push(digit((n % 10) as nat)) =~= final(out)@);
        }
    } else {
        push_char(out, digit_char(n));
        proof {
            assert(old(out)@.push(digit(n as nat)) =~= old(out)@ + decimal(n as nat));
        }
    }
}

/// What a ping response echoing the timestamp in `packet` reports at time
/// `now`: the message when the round trip took under a second, otherwise
/// the whole seconds it took.
pub open spec fn ping_report(packet: Seq<u8>, now: u64) -> Result<Seq<char>, ProtoError> {
    if packet.len() != 8 || be_value(packet) > now {
        Err(ProtoError::ProtocolViolation)
    } else if be_value(packet) == now {
        Ok("ping <1 second"@)
    } else {
        Ok("ping: "@ + decimal((now - be_value(packet)) as nat))
    }
}

/// The report for a ping response `packet` read at time `now` (seconds
/// since the Unix epoch). Fails when the packet is not eight bytes, or
/// echoes a time later than `now`.
pub fn ping_message(packet: &Vec<u8>, now: u64) -> (r: Result<String, ProtoError>)
    ensures
        match ping_report(packet@, now) {
            Ok(t) => r matches Ok(v) && v@ == t,
            Err(e) => r == Err::<String, ProtoError>(e),
        },
{
    if packet.len() != 8 {
        return Err(ProtoError::ProtocolViolation);
    }
    let epoch = read_be(packet, 0, 8);
    proof {
        assert(packet@.subrange(0, 8) =~= packet@);
    }
    if epoch > now {
        return Err(ProtoError::ProtocolViolation);
    }
    if epoch == now {
        Ok(String::from_str("ping <1 second"))
    } else {
        let mut m = String::from_str("ping: ");
        push_decimal(&mut m, now - epoch);
        Ok(m)
    }
}

/// The report for a ping response `packet` read now. Fails as
/// `ping_message` does, or when the clock reads earlier than the epoch.
pub fn ping_response(packet: &Vec<u8>) -> (r: Result<String, ProtoError>)
    ensures
        packet@.len() != 8 ==> r == Err::<String, ProtoError>(ProtoError::ProtocolViolation),
        r matches Err(e) ==> (e == ProtoError::ProtocolViolation || e == ProtoError::ClockError),
        r matches Ok(v) ==> exists|now: u64| ping_report(packet@, now) == Ok::<Seq<char>, ProtoError>(v@),
{
    if packet.len() != 8 {
        return Err(ProtoError::ProtocolViolation);
    }
    match unix_seconds() {
        Some(now) => ping_message(packet, now),
        None => Err(ProtoError::ClockError),
    }
}

/// What an entity animation packet gives: the entity id and the
/// animation's name.
pub open spec fn animation_view(packet: Seq<u8>) -> Result<(i32, Seq<char>), ProtoError> {
    match varint_decode(packet) {
        None => Err(ProtoError::FramingError),
        Some((id, n)) => if n >= packet.len() {
            Err(ProtoError::ProtocolViolation)
        } else {
            Ok((id, animation_name(packet[n as int])))
        },
    }
}

/// Decodes an entity animation packet: the entity id, then one byte naming
/// the animation.
pub fn entity_animation(packet: &Vec<u8>) -> (r: Result<(i32, String), ProtoError>)
    ensures
        match animation_view(packet@) {
            Ok((id, name)) => r matches Ok((i, v)) && i == id && v@ == name,
            Err(e) => r == Err::<(i32, String), ProtoError>(e),
        },
{
    let (id, n) = match varint_read(packet) {
        Ok(p) => p,
        Err(e) => return Err(e),
    };
    if n >= packet.len() {
        return Err(ProtoError::ProtocolViolation);
    }
    Ok((id, animation_to_string(packet[n])))
}

} // verus!
