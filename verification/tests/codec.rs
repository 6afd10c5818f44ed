use holepunch::addr::SockAddr;
use holepunch::endpoint::Kind;
use holepunch::message::{decode, ConnMessage, Message, MessageKind, StunMessage};

#[test]
fn kind_bytes_round_trip() {
    assert!(Kind::from(0) == Kind::Unknown);
    assert!(Kind::from(1) == Kind::Frontend);
    assert!(Kind::from(2) == Kind::Backend);
    assert!(Kind::from(3) == Kind::Stun);
    assert!(Kind::from(200) == Kind::Unknown);
    assert!(Kind::Backend.byte() == 2);
    assert_eq!(Kind::Backend.to_string(), "Backend".to_string());
    assert_eq!(Kind::Unknown.to_string(), "Unknown".to_string());
}

#[test]
fn message_kind_from_byte() {
    assert!(MessageKind::from(1) == MessageKind::Stun);
    assert!(MessageKind::from(2) == MessageKind::Conn);
    assert!(MessageKind::from(0) == MessageKind::Unknown);
    assert!(MessageKind::from(77) == MessageKind::Unknown);
}

#[test]
fn stun_encode_exact_bytes() {
    let msg = StunMessage::new(Kind::Backend, "svc".to_string());
    let data = msg.encode().unwrap();
    assert_eq!(data, vec![1u8, 2u8, b's', b'v', b'c']);
}

#[test]
fn stun_encode_rejects_unassigned_role() {
    let msg = StunMessage::new(Kind::Unknown, "svc".to_string());
    let err = msg.encode().unwrap_err();
    assert_eq!(err.message(), "kind error");
}

#[test]
fn stun_round_trip() {
    let msg = StunMessage::new(Kind::Frontend, "example.org".to_string());
    let data = msg.encode().unwrap();
    let mut back = StunMessage::default();
    back.decode(&data).unwrap();
    assert!(back.kind == Kind::Frontend);
    assert_eq!(back.fqdn, "example.org".to_string());
}

#[test]
fn stun_decode_errors() {
    let mut msg = StunMessage::default();
    assert_eq!(msg.decode(&[]).unwrap_err().message(), "size error");
    assert_eq!(msg.decode(&[1, 2]).unwrap_err().message(), "size error");
    assert_eq!(msg.decode(&[2, 2, b'a']).unwrap_err().message(), "not stun message");
}

#[test]
fn conn_encode_exact_bytes_v4() {
    let addr = SockAddr::new(vec![127, 0, 0, 1], 3441);
    let msg = ConnMessage::new(Kind::Backend, addr, "svc".to_string());
    let data = msg.encode().unwrap();
    assert_eq!(
        data,
        vec![2u8, 2u8, 4u8, 127u8, 0u8, 0u8, 1u8, 13u8, 113u8, b's', b'v', b'c']
    );
}

#[test]
fn conn_round_trip_v4() {
    let addr = SockAddr::new(vec![10, 0, 0, 7], 8080);
    let msg = ConnMessage::new(Kind::Frontend, addr, "svc".to_string());
    let data = msg.encode().unwrap();
    let mut back = ConnMessage::default();
    back.decode(&data).unwrap();
    assert!(back.kind == Kind::Frontend);
    assert_eq!(back.fqdn, "svc".to_string());
    assert_eq!(back.raddr.octets, vec![10, 0, 0, 7]);
    assert_eq!(back.raddr.port, 8080);
}

#[test]
fn conn_round_trip_v6() {
    let octets: Vec<u8> = vec![0, 1, 2, 3, 4, 5, 6, 7, 8, 9, 10, 11, 12, 13, 14, 15];
    let addr = SockAddr::new(octets.clone(), 65535);
    let msg = ConnMessage::new(Kind::Backend, addr, "host.example".to_string());
    let data = msg.encode().unwrap();
    assert_eq!(data[2], 16);
    let mut back = ConnMessage::default();
    back.decode(&data).unwrap();
    assert!(back.kind == Kind::Backend);
    assert_eq!(back.fqdn, "host.example".to_string());
    assert_eq!(back.raddr.octets, octets);
    assert_eq!(back.raddr.port, 65535);
}

#[test]
fn conn_round_trip_empty_name() {
    let addr = SockAddr::new(vec![192, 168, 1, 1], 53);
    let msg = ConnMessage::new(Kind::Backend, addr, String::new());
    let data = msg.encode().unwrap();
    let mut back = ConnMessage::default();
    back.decode(&data).unwrap();
    assert_eq!(back.fqdn, String::new());
    assert_eq!(back.raddr.octets, vec![192, 168, 1, 1]);
    assert_eq!(back.raddr.port, 53);
}

#[test]
fn conn_encode_rejects_bad_address() {
    let addr = SockAddr::new(vec![1, 2, 3], 80);
    let msg = ConnMessage::new(Kind::Backend, addr, "svc".to_string());
    let err = msg.encode().unwrap_err();
    assert_eq!(err.message(), "ip type error");
}

#[test]
fn conn_decode_errors() {
    let mut msg = ConnMessage::default();
    assert_eq!(msg.decode(&[2, 2]).unwrap_err().message(), "size error");
    assert_eq!(msg.decode(&[1, 2, 3]).unwrap_err().message(), "not conn message");
    assert_eq!(msg.decode(&[2, 2, 7]).unwrap_err().message(), "ip format error");
    // valid family byte, but the buffer is too short for a v4 address
    assert_eq!(msg.decode(&[2, 2, 4, 1, 2]).unwrap_err().message(), "size error");
}

#[test]
fn decode_dispatches_stun() {
    let data = StunMessage::new(Kind::Backend, "svc".to_string()).encode().unwrap();
    match decode(&data) {
        Message::Stun(m) => {
            assert!(m.kind == Kind::Backend);
            assert_eq!(m.fqdn, "svc".to_string());
        }
        _ => panic!("expected a registration frame"),
    }
}

#[test]
fn decode_dispatches_conn() {
    let addr = SockAddr::new(vec![9, 9, 9, 9], 443);
    let data = ConnMessage::new(Kind::Backend, addr, "svc".to_string()).encode().unwrap();
    match decode(&data) {
        Message::Conn(m) => {
            assert!(m.kind == Kind::Backend);
            assert_eq!(m.fqdn, "svc".to_string());
            assert_eq!(m.raddr.octets, vec![9, 9, 9, 9]);
            assert_eq!(m.raddr.port, 443);
        }
        _ => panic!("expected an introduction frame"),
    }
}

#[test]
fn decode_short_buffers_are_unrecognized() {
    for buf in [vec![], vec![1u8], vec![2u8, 2u8], vec![0u8, 0u8]] {
        match decode(&buf) {
            Message::Unknown(b) => assert_eq!(b, buf),
            _ => panic!("short buffer must be unrecognized"),
        }
    }
}

#[test]
fn decode_replaces_invalid_name_bytes() {
    // a name that is not valid UTF-8 decodes lossily, never fatally
    let mut msg = StunMessage::default();
    msg.decode(&[1, 2, 0xFF]).unwrap();
    assert!(msg.kind == Kind::Backend);
    assert_eq!(msg.fqdn, "\u{FFFD}".to_string());
}

#[test]
fn decode_garbage_is_unrecognized() {
    // unknown frame kind byte
    match decode(&[9, 1, 2, 3]) {
        Message::Unknown(b) => assert_eq!(b, vec![9, 1, 2, 3]),
        _ => panic!("unknown frame kind must be unrecognized"),
    }
    // introduction frame with a bad address family
    match decode(&[2, 2, 5, 1, 2, 3, 4, 5, 0, 80]) {
        Message::Unknown(_) => {}
        _ => panic!("bad address family must be unrecognized"),
    }
}
