use holepunch::addr::SockAddr;
use holepunch::backend::{Backend, BackendCommand, BackendState};
use holepunch::cli::{Cli, CliKind};
use holepunch::endpoint::Kind;
use holepunch::frontend::{Frontend, FrontendCommand, FrontendState};
use holepunch::iostream::BiStream;
use holepunch::message::{decode, ConnMessage, Message, PeerEvent, StunMessage};
use holepunch::server::{BrokerOutput, StunServer};

fn addr(last: u8, port: u16) -> SockAddr {
    SockAddr::new(vec![10, 0, 0, last], port)
}

fn expect_conn(buf: &[u8]) -> ConnMessage {
    match decode(buf) {
        Message::Conn(m) => m,
        _ => panic!("expected an introduction frame"),
    }
}

#[test]
fn broker_ignores_garbage_and_introductions() {
    let mut broker = StunServer::new("0.0.0.0:3440");
    let sender = addr(1, 1000);
    // garbage
    assert!(matches!(broker.step(&[9, 9, 9], &sender, 0), BrokerOutput::Ignored));
    // an introduction frame: the broker only consumes registrations
    let intro = ConnMessage::new(Kind::Backend, addr(2, 2000), "svc".to_string())
        .encode()
        .unwrap();
    assert!(matches!(broker.step(&intro, &sender, 0), BrokerOutput::Ignored));
    // a registration with an unassigned or broker role is ignored too
    assert!(matches!(broker.step(&[1, 0, b'x'], &sender, 0), BrokerOutput::Ignored));
    assert!(matches!(broker.step(&[1, 3, b'x'], &sender, 0), BrokerOutput::Ignored));
}

#[test]
fn broker_acknowledges_new_backend_once() {
    let mut broker = StunServer::new("0.0.0.0:3440");
    let backend_addr = addr(1, 1000);
    let reg = StunMessage::new(Kind::Backend, "svc".to_string()).encode().unwrap();
    match broker.step(&reg, &backend_addr, 0) {
        BrokerOutput::Ack { data } => {
            let mut ack = StunMessage::default();
            ack.decode(&data).unwrap();
            assert!(ack.kind == Kind::Stun);
            assert_eq!(ack.fqdn, "svc".to_string());
        }
        _ => panic!("a new backend registration earns an acknowledgment"),
    }
    // the same pair again: no second acknowledgment
    assert!(matches!(broker.step(&reg, &backend_addr, 1), BrokerOutput::Ignored));
}

#[test]
fn broker_matches_frontend_to_backend() {
    let mut broker = StunServer::new("0.0.0.0:3440");
    let a = addr(1, 1000); // backend's public address
    let b = addr(2, 2000); // frontend's public address

    let reg_backend = StunMessage::new(Kind::Backend, "svc".to_string()).encode().unwrap();
    assert!(matches!(broker.step(&reg_backend, &a, 0), BrokerOutput::Ack { .. }));

    let reg_frontend = StunMessage::new(Kind::Frontend, "svc".to_string()).encode().unwrap();
    match broker.step(&reg_frontend, &b, 1) {
        BrokerOutput::Introductions { baddr, to_frontend, to_backend } => {
            assert!(baddr.same_addr(&a));
            // to the frontend: role Backend, name svc, the backend's address
            let m = expect_conn(&to_frontend);
            assert!(m.kind == Kind::Backend);
            assert_eq!(m.fqdn, "svc".to_string());
            assert!(m.raddr.same_addr(&a));
            // to the backend: role Backend, name svc, the frontend's address
            let m = expect_conn(&to_backend);
            assert!(m.kind == Kind::Backend);
            assert_eq!(m.fqdn, "svc".to_string());
            assert!(m.raddr.same_addr(&b));
        }
        _ => panic!("a live backend record must produce the two introductions"),
    }
    // the record was consumed: a second frontend finds nothing
    assert!(matches!(broker.step(&reg_frontend, &b, 2), BrokerOutput::Ignored));
}

#[test]
fn frontend_ignores_noise_while_waiting() {
    let fe = Frontend::new("svc", "0.0.0.0:3442", "10.0.0.9:3440");
    let fe_local = addr(2, 3442);
    let (st, cmd) = fe.step(
        FrontendState::AwaitingIntroduction,
        PeerEvent::Frame(decode(&[7, 7, 7])),
        &fe_local,
    );
    assert!(matches!(st, FrontendState::AwaitingIntroduction));
    assert!(matches!(cmd, FrontendCommand::Idle));
    let (st, cmd) = fe.step(FrontendState::AwaitingIntroduction, PeerEvent::Nothing, &fe_local);
    assert!(matches!(st, FrontendState::AwaitingIntroduction));
    assert!(matches!(cmd, FrontendCommand::Idle));
}

#[test]
fn backend_resends_registration_each_tick() {
    let be = Backend::new("svc", addr(1, 8111), "10.0.0.9:3440");
    let be_local = addr(1, 1000);
    let mut state = BackendState::Registering;
    for _ in 0..3 {
        let (st, cmd) = be.step(state, PeerEvent::Tick, &be_local);
        match &cmd {
            BackendCommand::SendBroker { data } => {
                let mut m = StunMessage::default();
                m.decode(data).unwrap();
                assert!(m.kind == Kind::Backend);
                assert_eq!(m.fqdn, "svc".to_string());
            }
            _ => panic!("each tick re-sends the registration"),
        }
        state = st;
        assert!(matches!(state, BackendState::AwaitingMatch));
    }
    // an acknowledgment does not stop the loop
    let ack = StunMessage::new(Kind::Stun, "svc".to_string()).encode().unwrap();
    let (st, cmd) = be.step(state, PeerEvent::Frame(decode(&ack)), &be_local);
    assert!(matches!(st, BackendState::AwaitingMatch));
    assert!(matches!(cmd, BackendCommand::Idle));
}

/// The whole punch, against the broker: the backend registers, the
/// frontend asks, both sides get introduced, the backend replies once, and
/// the frontend's next poll after the reply reaches handoff.
#[test]
fn end_to_end_punch() {
    let mut broker = StunServer::new("0.0.0.0:3440");
    let a = addr(1, 1000); // backend's public address
    let b = addr(2, 2000); // frontend's public address

    let be = Backend::new("svc", addr(1, 8111), "10.0.0.9:3440");
    let fe = Frontend::new("svc", "0.0.0.0:3442", "10.0.0.9:3440");

    // backend announces itself (tick) and the broker learns the record
    let (be_state, cmd) = be.step(BackendState::Registering, PeerEvent::Tick, &a);
    let reg = match cmd {
        BackendCommand::SendBroker { data } => data,
        _ => panic!("registration expected"),
    };
    assert!(matches!(broker.step(&reg, &a, 0), BrokerOutput::Ack { .. }));

    // frontend announces itself and the broker introduces the two
    let (fe_state, cmd) = fe.step(FrontendState::Registering, PeerEvent::Tick, &b);
    let reg = match cmd {
        FrontendCommand::SendBroker { data } => data,
        _ => panic!("registration expected"),
    };
    let (to_frontend, to_backend) = match broker.step(&reg, &b, 1) {
        BrokerOutput::Introductions { to_frontend, to_backend, .. } => (to_frontend, to_backend),
        _ => panic!("introductions expected"),
    };

    // the frontend captures the punch target from its introduction
    let (fe_state, cmd) = fe.step(fe_state, PeerEvent::Frame(decode(&to_frontend)), &b);
    assert!(matches!(cmd, FrontendCommand::Idle));
    match &fe_state {
        FrontendState::Punching { target } => assert!(target.same_addr(&a)),
        _ => panic!("introduction must set the punch target"),
    }

    // a punch retransmission goes out on the next tick
    let (fe_state, cmd) = fe.step(fe_state, PeerEvent::Tick, &b);
    match cmd {
        FrontendCommand::SendPunch { target, data } => {
            assert!(target.same_addr(&a));
            let m = expect_conn(&data);
            assert!(m.kind == Kind::Frontend);
            assert!(m.raddr.same_addr(&b));
        }
        _ => panic!("each tick while punching retransmits"),
    }

    // the backend replies exactly once toward the frontend and hands off
    let (be_state, cmd) = be.step(be_state, PeerEvent::Frame(decode(&to_backend)), &a);
    let reply = match cmd {
        BackendCommand::Reply { target, data } => {
            assert!(target.same_addr(&b));
            data
        }
        _ => panic!("the backend replies once"),
    };
    assert!(matches!(be_state, BackendState::Handoff { .. }));
    let m = expect_conn(&reply);
    assert!(m.kind == Kind::Backend);
    assert!(m.raddr.same_addr(&a));

    // the frontend's next poll sees the reply and reaches handoff
    let (fe_state, cmd) = fe.step(fe_state, PeerEvent::Frame(decode(&reply)), &b);
    match cmd {
        FrontendCommand::Complete { target } => assert!(target.same_addr(&a)),
        _ => panic!("the reply completes the handshake"),
    }
    assert!(matches!(fe_state, FrontendState::Handoff { .. }));
}

/// Two frontends in sequence, two prior backend registrations: two
/// distinct backend addresses, never the same one twice.
#[test]
fn concurrent_matches_get_distinct_backends() {
    let mut broker = StunServer::new("0.0.0.0:3440");
    let a1 = addr(1, 1000);
    let a2 = addr(3, 3000);
    let b = addr(2, 2000);

    let reg = StunMessage::new(Kind::Backend, "svc".to_string()).encode().unwrap();
    assert!(matches!(broker.step(&reg, &a1, 0), BrokerOutput::Ack { .. }));
    assert!(matches!(broker.step(&reg, &a2, 0), BrokerOutput::Ack { .. }));

    let ask = StunMessage::new(Kind::Frontend, "svc".to_string()).encode().unwrap();
    let first = match broker.step(&ask, &b, 1) {
        BrokerOutput::Introductions { baddr, .. } => baddr,
        _ => panic!("first match expected"),
    };
    let second = match broker.step(&ask, &b, 2) {
        BrokerOutput::Introductions { baddr, .. } => baddr,
        _ => panic!("second match expected"),
    };
    assert!(!first.same_addr(&second));
    assert!(first.same_addr(&a1) || first.same_addr(&a2));
    assert!(second.same_addr(&a1) || second.same_addr(&a2));
    assert!(matches!(broker.step(&ask, &b, 3), BrokerOutput::Ignored));
}

#[test]
fn cli_picks_the_party() {
    let c = Cli { debug: false, b: true, f: true, stun: true };
    assert!(c.kind() == CliKind::Backend);
    let c = Cli { debug: true, b: false, f: true, stun: true };
    assert!(c.kind() == CliKind::Frontend);
    let c = Cli { debug: false, b: false, f: false, stun: true };
    assert!(c.kind() == CliKind::StunServer);
    let c = Cli { debug: true, b: false, f: false, stun: false };
    assert!(c.kind() == CliKind::Unknown);
}

#[test]
fn bistream_is_transparent() {
    let mut s = BiStream::new(vec![1u8, 2, 3]);
    assert_eq!(s.inner(), &vec![1u8, 2, 3]);
    s.inner_mut().push(4);
    assert_eq!(s.into_inner(), vec![1u8, 2, 3, 4]);
}
