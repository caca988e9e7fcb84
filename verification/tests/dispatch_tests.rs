use tftp_server::dispatch::{
    ConnOutcome, DispatchCore, InitialOutcome, PeerAddr, TimerOutcome, TokenKind,
};
use tftp_server::options::TftpOption;
use tftp_server::packet::{ErrorCode, Packet, TransferMode};
use tftp_server::policy::FSAdapter;

fn peer_a() -> PeerAddr {
    PeerAddr {
        ip: 0x7f00_0001,
        port: 40000,
        is_ipv6: false,
    }
}

fn peer_b() -> PeerAddr {
    PeerAddr {
        ip: 0x7f00_0001,
        port: 40001,
        is_ipv6: false,
    }
}

fn wrq_bytes(filename: &str, options: Vec<TftpOption>) -> Vec<u8> {
    Packet::WRQ {
        filename: filename.to_string(),
        mode: TransferMode::Octet,
        options,
    }
    .to_bytes()
    .unwrap()
}

fn data_bytes(block: u16, data: Vec<u8>) -> Vec<u8> {
    Packet::DATA {
        block_num: block,
        data,
    }
    .to_bytes()
    .unwrap()
}

fn new_core() -> DispatchCore<FSAdapter> {
    DispatchCore::new(FSAdapter::default(), false, None, 3, 2)
}

#[test]
fn token_namespace_partition() {
    let mut core = new_core();
    assert_eq!(core.classify_token(0), TokenKind::Timer);
    assert_eq!(core.classify_token(1), TokenKind::Listener);
    assert_eq!(core.classify_token(2), TokenKind::Listener);
    assert_eq!(core.classify_token(3), TokenKind::Connection);
    let t1 = core.generate_token();
    let t2 = core.generate_token();
    assert_ne!(t1, t2);
    assert!(t1 > 2 && t2 > 2);
}

#[test]
fn malformed_or_non_initiating_datagrams_are_ignored() {
    let mut core = new_core();
    assert!(matches!(
        core.on_initial_datagram(&[1, 2, 3], peer_a()),
        InitialOutcome::Ignore
    ));
    let ack = Packet::ACK(0).to_bytes().unwrap();
    assert!(matches!(
        core.on_initial_datagram(&ack, peer_a()),
        InitialOutcome::Ignore
    ));
}

#[test]
fn wrq_through_the_dispatcher() {
    let mut core = new_core();
    let (token, reply) = match core.on_initial_datagram(&wrq_bytes("up.txt", vec![]), peer_a()) {
        InitialOutcome::Reply {
            reply,
            conn_token: Some(t),
            timeout_secs,
        } => {
            assert_eq!(timeout_secs, 3);
            (t, reply)
        }
        other => panic!("expected a new connection, got {:?}", reply_kind(&other)),
    };
    assert_eq!(Packet::read(&reply).unwrap(), Packet::ACK(0));

    let ConnOutcome { known, sends, stray_reply } =
        core.on_connection_datagram(token, peer_a(), &data_bytes(1, vec![7; 512]));
    assert!(known);
    assert!(stray_reply.is_none());
    assert_eq!(sends.len(), 1);
    assert_eq!(Packet::read(&sends[0]).unwrap(), Packet::ACK(1));

    let ConnOutcome { known, sends, .. } =
        core.on_connection_datagram(token, peer_a(), &data_bytes(2, vec![7; 10]));
    assert!(known);
    assert_eq!(sends.len(), 1);
    assert_eq!(Packet::read(&sends[0]).unwrap(), Packet::ACK(2));

    // The transfer ended; the next timer expiry tears the connection down.
    let TimerOutcome { known, closed, .. } = core.on_timer_token(token);
    assert!(known);
    assert!(closed);
}

fn reply_kind(o: &InitialOutcome) -> &'static str {
    match o {
        InitialOutcome::Ignore => "Ignore",
        InitialOutcome::Reply { .. } => "Reply",
    }
}

#[test]
fn stray_peer_scenario() {
    let mut core = new_core();
    let token = match core.on_initial_datagram(&wrq_bytes("s.txt", vec![]), peer_a()) {
        InitialOutcome::Reply {
            conn_token: Some(t),
            ..
        } => t,
        _ => panic!("expected a new connection"),
    };

    // A datagram from somewhere else draws UnknownID back to the
    // stray sender, and the connection survives.
    let ConnOutcome { known, sends, stray_reply } =
        core.on_connection_datagram(token, peer_b(), &data_bytes(1, vec![1; 512]));
    assert!(known);
    assert!(sends.is_empty());
    match Packet::read(&stray_reply.unwrap()).unwrap() {
        Packet::ERROR { code, .. } => assert_eq!(code, ErrorCode::UnknownID),
        other => panic!("expected ERROR, got {:?}", other),
    }

    // The real peer goes on undisturbed.
    let ConnOutcome { known, sends, .. } =
        core.on_connection_datagram(token, peer_a(), &data_bytes(1, vec![1; 512]));
    assert!(known);
    assert_eq!(sends.len(), 1);
    assert_eq!(Packet::read(&sends[0]).unwrap(), Packet::ACK(1));
}

#[test]
fn idle_timeout_then_recovery_scenario() {
    let mut core = new_core();
    let token = match core.on_initial_datagram(&wrq_bytes("t.txt", vec![]), peer_a()) {
        InitialOutcome::Reply {
            conn_token: Some(t),
            ..
        } => t,
        _ => panic!("expected a new connection"),
    };

    // First expiry: the last datagram (the ACK of block 0) goes out again.
    let TimerOutcome { known, sends, closed, timeout_secs } = core.on_timer_token(token);
    assert!(known);
    assert!(!closed);
    assert_eq!(timeout_secs, 3);
    assert_eq!(sends.len(), 1);
    assert_eq!(Packet::read(&sends[0]).unwrap(), Packet::ACK(0));

    // Second expiry with nothing in between: the connection closes.
    let TimerOutcome { known, sends, closed, .. } = core.on_timer_token(token);
    assert!(known);
    assert!(closed);
    assert!(sends.is_empty());

    // A datagram arriving after the close is simply dropped.
    let ConnOutcome { known, sends, stray_reply } =
        core.on_connection_datagram(token, peer_a(), &data_bytes(1, vec![0; 512]));
    assert!(!known);
    assert!(sends.is_empty());
    assert!(stray_reply.is_none());
}

#[test]
fn negotiated_timeout_reaches_the_timer() {
    let mut core = new_core();
    match core.on_initial_datagram(&wrq_bytes("t.txt", vec![TftpOption::Timeout(9)]), peer_a()) {
        InitialOutcome::Reply {
            conn_token: Some(_),
            timeout_secs,
            reply,
        } => {
            assert_eq!(timeout_secs, 9);
            assert_eq!(
                Packet::read(&reply).unwrap(),
                Packet::OACK {
                    options: vec![TftpOption::Timeout(9)],
                }
            );
        }
        _ => panic!("expected a new connection"),
    }
}

#[test]
fn rejected_request_sends_reply_but_no_connection() {
    let mut core = DispatchCore::new(FSAdapter::default(), true, None, 3, 1);
    match core.on_initial_datagram(&wrq_bytes("r.txt", vec![]), peer_a()) {
        InitialOutcome::Reply {
            conn_token,
            reply,
            ..
        } => {
            assert!(conn_token.is_none());
            match Packet::read(&reply).unwrap() {
                Packet::ERROR { code, .. } => assert_eq!(code, ErrorCode::FileExists),
                other => panic!("expected ERROR, got {:?}", other),
            }
        }
        InitialOutcome::Ignore => panic!("expected a reply"),
    }
}

#[test]
fn unknown_tokens_are_reported() {
    let mut core = new_core();
    let ConnOutcome { known, .. } = core.on_connection_datagram(77, peer_a(), &[1, 2, 3]);
    assert!(!known);
    let TimerOutcome { known, .. } = core.on_timer_token(77);
    assert!(!known);
}

#[test]
fn read_transfer_replays_its_window_on_timeout() {
    let mut io = FSAdapter::default();
    io.insert_file("f.bin".to_string(), vec![5; 700]);
    let mut core = DispatchCore::new(io, false, None, 3, 1);

    let rrq = Packet::RRQ {
        filename: "f.bin".to_string(),
        mode: TransferMode::Octet,
        options: vec![],
    }
    .to_bytes()
    .unwrap();
    let (token, first_reply) = match core.on_initial_datagram(&rrq, peer_a()) {
        InitialOutcome::Reply {
            reply,
            conn_token: Some(t),
            ..
        } => (t, reply),
        _ => panic!("expected a new connection"),
    };

    // The first expiry re-sends the DATA block that went unanswered.
    let TimerOutcome { sends, closed, .. } = core.on_timer_token(token);
    assert!(!closed);
    assert_eq!(sends, vec![first_reply]);

    // An ACK moves the window; the history now holds the new block.
    let ack = Packet::ACK(1).to_bytes().unwrap();
    let ConnOutcome { sends, .. } = core.on_connection_datagram(token, peer_a(), &ack);
    assert_eq!(sends.len(), 1);
    let second_block = sends[0].clone();
    match Packet::read(&second_block).unwrap() {
        Packet::DATA { block_num, data } => {
            assert_eq!(block_num, 2);
            assert_eq!(data.len(), 188);
        }
        other => panic!("expected DATA(2), got {:?}", other),
    }

    let TimerOutcome { sends, closed, .. } = core.on_timer_token(token);
    assert!(!closed);
    assert_eq!(sends, vec![second_block]);
}
