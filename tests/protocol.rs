use mcproto::error::ProtoError;
use mcproto::frame::{frame_body, read_frame, unwrap_compression, write_frame};
use mcproto::inbound::{login_success, read_properties, read_property, spawn_entity, spawn_player};
use mcproto::packets::{
    compression_request, encode_handshake, entity_animation, entity_id_to_string, handshake,
    login_disconnect, login_start, parse_next_state, ping_message, ping_request, ping_request_at,
    ping_response, push_decimal, status_request, status_response, text_eq, NextState,
};
use mcproto::session::{ConnState, LoginEvent, PlayEvent, Session};
use mcproto::text::write_string;
use mcproto::varint::varint_write;

fn now_secs() -> u64 {
    std::time::SystemTime::now().duration_since(std::time::UNIX_EPOCH).unwrap().as_secs()
}

#[test]
fn handshake_status_scenario() {
    let f = handshake(763, "127.0.0.1".to_string(), 25565, "status".to_string()).unwrap();
    let (payload, id) = read_frame(&f).unwrap();
    assert_eq!(id, 0);
    let mut expected = vec![0xfb, 0x05, 9];
    expected.extend_from_slice(b"127.0.0.1");
    expected.extend_from_slice(&[0x63, 0xdd, 0x01]);
    assert_eq!(payload, expected);
    assert_eq!(f[0] as usize, f.len() - 1);
}

#[test]
fn handshake_login_any_case() {
    let f = handshake(763, "host".to_string(), 1, "LoGiN".to_string()).unwrap();
    assert_eq!(*f.last().unwrap(), 2);
    assert_eq!(f, encode_handshake(763, &"host".to_string(), 1, NextState::Login));
}

#[test]
fn handshake_bad_state_fails() {
    assert_eq!(handshake(763, "h".to_string(), 1, "play".to_string()), Err(ProtoError::ProtocolViolation));
    assert_eq!(handshake(763, "h".to_string(), 1, String::new()), Err(ProtoError::ProtocolViolation));
}

#[test]
fn next_state_names() {
    assert_eq!(parse_next_state("status"), Some(NextState::Status));
    assert_eq!(parse_next_state("login"), Some(NextState::Login));
    assert_eq!(parse_next_state("Login"), None);
    assert!(text_eq("abc", "abc"));
    assert!(!text_eq("abc", "abd"));
    assert!(!text_eq("abc", "ab"));
}

#[test]
fn status_request_exact() {
    assert_eq!(status_request(), vec![1, 0]);
}

#[test]
fn ping_request_exact() {
    assert_eq!(ping_request_at(0x0102030405060708), vec![9, 1, 1, 2, 3, 4, 5, 6, 7, 8]);
    let before = now_secs();
    let f = ping_request().unwrap();
    let after = now_secs();
    assert_eq!(f.len(), 10);
    let t = u64::from_be_bytes(f[2..10].try_into().unwrap());
    assert!(t >= before && t <= after);
}

#[test]
fn ping_messages() {
    let now: u64 = 1_700_000_000;
    assert_eq!(ping_message(&now.to_be_bytes().to_vec(), now).unwrap(), "ping <1 second");
    assert_eq!(ping_message(&(now - 5).to_be_bytes().to_vec(), now).unwrap(), "ping: 5");
    assert_eq!(ping_message(&(now - 1234).to_be_bytes().to_vec(), now).unwrap(), "ping: 1234");
    assert_eq!(ping_message(&vec![0; 7], now), Err(ProtoError::ProtocolViolation));
    assert_eq!(ping_message(&(now + 1).to_be_bytes().to_vec(), now), Err(ProtoError::ProtocolViolation));
}

#[test]
fn ping_response_against_clock() {
    let before = now_secs();
    let r = ping_response(&before.to_be_bytes().to_vec()).unwrap();
    let after = now_secs();
    assert!(r == "ping <1 second" || (after > before && r == format!("ping: {}", after - before)));
    let r = ping_response(&(before - 5).to_be_bytes().to_vec()).unwrap();
    let after = now_secs();
    assert!(r == "ping: 5" || (after > before && r == format!("ping: {}", after - before + 5)));
    assert_eq!(ping_response(&vec![1, 2, 3]), Err(ProtoError::ProtocolViolation));
}

#[test]
fn decimal_text() {
    let mut s = "n=".to_string();
    push_decimal(&mut s, 0);
    assert_eq!(s, "n=0");
    let mut s = String::new();
    push_decimal(&mut s, 18446744073709551615);
    assert_eq!(s, "18446744073709551615");
}

#[test]
fn login_start_too_long_fails() {
    assert_eq!(login_start("a_name_over_16_characters_long".to_string()), Err(ProtoError::ProtocolViolation));
    assert_eq!(login_start("seventeen_chars_x".to_string()), Err(ProtoError::ProtocolViolation));
}

#[test]
fn login_start_exact() {
    let f = login_start("rust_bot".to_string()).unwrap();
    let mut expected = vec![11, 0, 8];
    expected.extend_from_slice(b"rust_bot");
    expected.push(0);
    assert_eq!(f, expected);
    assert!(login_start("sixteen_chars_xx".to_string()).is_ok());
}

#[test]
fn compression_request_values() {
    assert_eq!(compression_request(&vec![0x80, 0x02]), Ok(256));
    assert_eq!(compression_request(&vec![]), Err(ProtoError::FramingError));
}

#[test]
fn single_string_packets() {
    let p = write_string("{\"text\":\"bye\"}".to_string());
    assert_eq!(login_disconnect(&p).unwrap(), "{\"text\":\"bye\"}");
    assert_eq!(status_response(&p).unwrap(), "{\"text\":\"bye\"}");
    assert_eq!(status_response(&vec![]), Err(ProtoError::FramingError));
    assert_eq!(login_disconnect(&vec![]), Err(ProtoError::FramingError));
}

fn login_success_packet() -> Vec<u8> {
    let mut p = vec![0xabu8; 16];
    p.extend(write_string("Steve".to_string()));
    p.extend(varint_write(2));
    p.extend(write_string("textures".to_string()));
    p.extend(write_string("abc".to_string()));
    p.push(0);
    p.extend(write_string("n".to_string()));
    p.extend(write_string("v".to_string()));
    p.push(1);
    p.extend(write_string("sig".to_string()));
    p
}

#[test]
fn login_success_decodes() {
    let v = login_success(&login_success_packet()).unwrap();
    assert_eq!(v.username, "Steve");
    assert_eq!(v.properties.len(), 2);
    assert_eq!(v.properties[0].name, "textures");
    assert_eq!(v.properties[0].value, "abc");
    assert_eq!(v.properties[0].signature, None);
    assert_eq!(v.properties[1].name, "n");
    assert_eq!(v.properties[1].value, "v");
    assert_eq!(v.properties[1].signature, Some("sig".to_string()));
}

#[test]
fn login_success_errors() {
    assert!(matches!(login_success(&vec![0; 15]), Err(ProtoError::ProtocolViolation)));
    let p = login_success_packet();
    assert!(matches!(login_success(&p[..p.len() - 1].to_vec()), Err(ProtoError::ProtocolViolation)));
    assert!(matches!(login_success(&p[..p.len() - 5].to_vec()), Err(ProtoError::ProtocolViolation)));
    let mut q = vec![0u8; 16];
    q.extend(write_string("x".to_string()));
    q.extend(varint_write(-1));
    assert!(matches!(login_success(&q), Err(ProtoError::ProtocolViolation)));
    let mut q = vec![0u8; 16];
    q.extend(write_string("x".to_string()));
    q.extend(varint_write(0));
    assert_eq!(login_success(&q).unwrap().properties.len(), 0);
}

#[test]
fn property_reading() {
    let mut p = write_string("a".to_string());
    p.extend(write_string("b".to_string()));
    p.push(0);
    p.push(99);
    let (prop, n) = read_property(&p).unwrap();
    assert_eq!((prop.name.as_str(), prop.value.as_str(), prop.signature), ("a", "b", None));
    assert_eq!(n, 5);
    assert_eq!(read_properties(&p, 1).unwrap().len(), 1);
    assert!(matches!(read_properties(&p, 2), Err(ProtoError::ProtocolViolation)));
}

#[test]
fn entity_names() {
    assert_eq!(entity_id_to_string(0), "allay");
    assert_eq!(entity_id_to_string(69), "Panda");
    assert_eq!(entity_id_to_string(122), "Player");
    assert_eq!(entity_id_to_string(123), "Fishing Bobber");
    assert_eq!(entity_id_to_string(124), "Unknown");
    assert_eq!(entity_id_to_string(-1), "Unknown");
}

fn spawn_entity_packet() -> Vec<u8> {
    let mut p = varint_write(300);
    p.extend([0x11u8; 16]);
    p.extend(varint_write(122));
    p.extend(1.5f64.to_be_bytes());
    p.extend((-2.0f64).to_be_bytes());
    p.extend(64.25f64.to_be_bytes());
    p.extend([0x80u8, 0x7f, 0xff]);
    p.extend(varint_write(7));
    p.extend((-3i16).to_be_bytes());
    p.extend(300i16.to_be_bytes());
    p.extend(0i16.to_be_bytes());
    p
}

#[test]
fn spawn_entity_decodes() {
    let e = spawn_entity(&spawn_entity_packet()).unwrap();
    assert_eq!(e.entity_id, 300);
    assert_eq!(e.entity_type, 122);
    assert_eq!(e.kind_name, "Player");
    assert_eq!(f64::from_bits(e.x), 1.5);
    assert_eq!(f64::from_bits(e.y), -2.0);
    assert_eq!(f64::from_bits(e.z), 64.25);
    assert_eq!((e.pitch, e.yaw, e.head_yaw), (-128, 127, -1));
    assert_eq!(e.data, 7);
    assert_eq!((e.velocity_x, e.velocity_y, e.velocity_z), (-3, 300, 0));
}

#[test]
fn spawn_entity_short_fails() {
    let p = spawn_entity_packet();
    assert!(matches!(spawn_entity(&p[..p.len() - 1].to_vec()), Err(ProtoError::ProtocolViolation)));
    assert!(matches!(spawn_entity(&p[..10].to_vec()), Err(ProtoError::ProtocolViolation)));
    assert!(matches!(spawn_entity(&p[..18].to_vec()), Err(ProtoError::FramingError)));
    assert!(matches!(spawn_entity(&vec![]), Err(ProtoError::FramingError)));
}

#[test]
fn spawn_player_decodes() {
    let mut p = varint_write(5);
    p.extend([0u8; 16]);
    p.extend(10.0f64.to_be_bytes());
    p.extend(70.5f64.to_be_bytes());
    p.extend((-8.0f64).to_be_bytes());
    p.extend([0x10u8, 0xf0]);
    let e = spawn_player(&p).unwrap();
    assert_eq!(e.entity_id, 5);
    assert_eq!((f64::from_bits(e.x), f64::from_bits(e.y), f64::from_bits(e.z)), (10.0, 70.5, -8.0));
    assert_eq!((e.yaw, e.pitch), (16, -16));
    assert!(matches!(spawn_player(&p[..p.len() - 1].to_vec()), Err(ProtoError::ProtocolViolation)));
    assert!(matches!(spawn_player(&vec![0x80]), Err(ProtoError::FramingError)));
}

#[test]
fn entity_animation_decodes() {
    assert_eq!(entity_animation(&vec![0x05, 0x00]).unwrap(), (5, "Swing main arm".to_string()));
    assert_eq!(entity_animation(&vec![0x05, 0x04]).unwrap(), (5, "Critical effect".to_string()));
    assert_eq!(entity_animation(&vec![0x05, 0x09]).unwrap(), (5, "Unknown".to_string()));
    assert_eq!(entity_animation(&vec![0x05]), Err(ProtoError::ProtocolViolation));
    assert_eq!(entity_animation(&vec![]), Err(ProtoError::FramingError));
}

fn login_session() -> Session {
    let mut s = Session::new();
    let f = s.begin(763, &"127.0.0.1".to_string(), 25565, NextState::Login);
    assert_eq!(*f.last().unwrap(), 2);
    assert_eq!(s.state, ConnState::Login);
    s
}

#[test]
fn set_compression_then_outbound_scenario() {
    let mut s = login_session();
    assert!(matches!(s.login_step(3, &varint_write(256)), Ok(LoginEvent::Continue)));
    assert!(s.compression);
    assert_eq!(s.threshold, 256);

    let big: Vec<u8> = (0..300u32).map(|i| (i % 7) as u8).collect();
    let f = s.outbound(&big).unwrap();
    let (body, _) = frame_body(&f).unwrap();
    assert_eq!(&body[..2], &[0xac, 0x02]);
    assert!(body.len() < big.len());
    assert_eq!(unwrap_compression(&body, true), Ok(big.clone()));

    let small = vec![3u8; 100];
    let f = s.outbound(&small).unwrap();
    assert_eq!(f[0], 101);
    assert_eq!(f[1], 0);
    assert_eq!(&f[2..], &small[..]);
}

#[test]
fn session_inbound_with_and_without_compression() {
    let mut s = login_session();
    let plain = write_frame(7, &vec![1, 2]);
    let (body, _) = frame_body(&plain).unwrap();
    assert_eq!(s.inbound(&body), Ok((vec![1, 2], 7)));
    let _ = s.login_step(3, &varint_write(4));
    let mut packet = varint_write(9);
    packet.extend(vec![5u8; 50]);
    let f = s.outbound(&packet).unwrap();
    let (body, _) = frame_body(&f).unwrap();
    assert_eq!(s.inbound(&body), Ok((vec![5u8; 50], 9)));
}

#[test]
fn login_disconnect_and_encryption() {
    let mut s = login_session();
    let reason = write_string("{\"text\":\"full\"}".to_string());
    match s.login_step(0, &reason) {
        Err(ProtoError::ServerDisconnect(m)) => assert_eq!(m, "{\"text\":\"full\"}"),
        _ => panic!("expected a disconnect"),
    }
    assert!(matches!(s.login_step(1, &vec![]), Err(ProtoError::ProtocolViolation)));
    assert!(matches!(s.login_step(9, &vec![]), Err(ProtoError::ProtocolViolation)));
    assert_eq!(s.state, ConnState::Login);
}

#[test]
fn login_plugin_request_replies() {
    let mut s = login_session();
    match s.login_step(4, &vec![1, 2, 3]) {
        Ok(LoginEvent::Reply(v)) => assert_eq!(v, vec![1, 0]),
        _ => panic!("expected a reply"),
    }
}

#[test]
fn login_success_moves_to_play() {
    let mut s = login_session();
    match s.login_step(2, &login_success_packet()) {
        Ok(LoginEvent::LoggedIn(v)) => assert_eq!(v.username, "Steve"),
        _ => panic!("expected a login"),
    }
    assert_eq!(s.state, ConnState::Play);
}

#[test]
fn play_dispatch() {
    let mut s = login_session();
    let _ = s.login_step(2, &login_success_packet());
    assert!(matches!(s.play_step(1, &spawn_entity_packet()), Ok(PlayEvent::Entity(_))));
    assert_eq!(s.entities.len(), 1);
    assert_eq!(s.entities[0].entity_id, 300);
    let mut p = varint_write(5);
    p.extend([0u8; 42]);
    assert!(matches!(s.play_step(3, &p), Ok(PlayEvent::Player(_))));
    assert_eq!(s.players.len(), 1);
    assert!(matches!(s.play_step(4, &vec![2, 1]), Ok(PlayEvent::Animation(2, _))));
    assert!(matches!(s.play_step(0x26, &vec![]), Ok(PlayEvent::Unknown(0x26))));
    assert!(matches!(s.play_step(1, &vec![1]), Err(ProtoError::ProtocolViolation)));
    assert!(matches!(s.play_step(1, &vec![]), Err(ProtoError::FramingError)));
    assert_eq!(s.entities.len(), 1);
}

#[test]
fn negative_threshold_sends_uncompressed() {
    let mut s = login_session();
    assert!(matches!(s.login_step(3, &varint_write(-1)), Ok(LoginEvent::Continue)));
    assert!(s.compression);
    assert_eq!(s.threshold, -1);
    let p = vec![4u8; 400];
    let f = s.outbound(&p).unwrap();
    let (body, _) = frame_body(&f).unwrap();
    assert_eq!(body[0], 0);
    assert_eq!(&body[1..], &p[..]);
}
