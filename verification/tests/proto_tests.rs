use std::cell::RefCell;
use std::rc::Rc;

use tftp_server::options::TftpOption;
use tftp_server::packet::{ErrorCode, Packet, TransferMode};
use tftp_server::policy::{FSAdapter, IOAdapter, IOPolicyCfg, ReadSource, WriteSink};
use tftp_server::proto::{ResponseItem, TftpServerProto};

/// A write sink the test can look into after the transfer ends.
struct SharedSink {
    buf: Rc<RefCell<Vec<u8>>>,
}

impl WriteSink for SharedSink {
    fn write_all(&mut self, data: &[u8]) -> Result<(), ()> {
        self.buf.borrow_mut().extend_from_slice(data);
        Ok(())
    }
}

/// A read source that always fails.
struct BrokenReader;

impl ReadSource for BrokenReader {
    fn read_block(&mut self, _limit: usize) -> Result<Vec<u8>, ()> {
        Err(())
    }
}

/// An adapter whose created files share one observable buffer.
struct SinkAdapter {
    buf: Rc<RefCell<Vec<u8>>>,
    existing: Vec<String>,
}

impl IOAdapter for SinkAdapter {
    type R = BrokenReader;
    type W = SharedSink;

    fn open_read(&self, _file: &str) -> Result<(BrokenReader, Option<u64>), ()> {
        Err(())
    }

    fn create_new(&mut self, file: &str, _len: Option<u64>) -> Result<SharedSink, ()> {
        if self.existing.iter().any(|e| e == file) {
            Err(())
        } else {
            Ok(SharedSink {
                buf: self.buf.clone(),
            })
        }
    }
}

/// A read source that hands out a fixed number of full blocks and
/// then fails.
struct FlakyReader {
    blocks_left: usize,
}

impl ReadSource for FlakyReader {
    fn read_block(&mut self, limit: usize) -> Result<Vec<u8>, ()> {
        if self.blocks_left == 0 {
            Err(())
        } else {
            self.blocks_left -= 1;
            Ok(vec![0x2a; limit])
        }
    }
}

/// An adapter whose readers fail after a fixed number of blocks.
struct FlakyAdapter {
    blocks: usize,
}

impl IOAdapter for FlakyAdapter {
    type R = FlakyReader;
    type W = SharedSink;

    fn open_read(&self, _file: &str) -> Result<(FlakyReader, Option<u64>), ()> {
        Ok((
            FlakyReader {
                blocks_left: self.blocks,
            },
            None,
        ))
    }

    fn create_new(&mut self, _file: &str, _len: Option<u64>) -> Result<SharedSink, ()> {
        Err(())
    }
}

/// An adapter that serves one file through a reader that always
/// fails mid-read.
struct BrokenReadAdapter;

impl IOAdapter for BrokenReadAdapter {
    type R = BrokenReader;
    type W = SharedSink;

    fn open_read(&self, _file: &str) -> Result<(BrokenReader, Option<u64>), ()> {
        Ok((BrokenReader, None))
    }

    fn create_new(&mut self, _file: &str, _len: Option<u64>) -> Result<SharedSink, ()> {
        Err(())
    }
}

fn wrq(filename: &str, options: Vec<TftpOption>) -> Packet {
    Packet::WRQ {
        filename: filename.to_string(),
        mode: TransferMode::Octet,
        options,
    }
}

fn rrq(filename: &str, options: Vec<TftpOption>) -> Packet {
    Packet::RRQ {
        filename: filename.to_string(),
        mode: TransferMode::Octet,
        options,
    }
}

fn expect_error(reply: Result<Packet, tftp_server::proto::TftpError>, code: ErrorCode) {
    match reply {
        Ok(Packet::ERROR { code: c, .. }) => assert_eq!(c, code),
        other => panic!("expected ERROR({:?}), got {:?}", code, other),
    }
}

#[test]
fn basic_wrq_scenario() {
    let buf = Rc::new(RefCell::new(Vec::new()));
    let io = SinkAdapter {
        buf: buf.clone(),
        existing: vec![],
    };
    let mut proto = TftpServerProto::new(io, IOPolicyCfg::default());

    let (xfer, reply) = proto.rx_initial(wrq("hello.txt", vec![]));
    assert_eq!(reply.unwrap(), Packet::ACK(0));
    let mut t = xfer.unwrap();

    let payload: Vec<u8> = (0..512u32).map(|i| (i % 251) as u8).collect();
    let resp = t
        .rx(Packet::DATA {
            block_num: 1,
            data: payload.clone(),
        })
        .unwrap();
    assert_eq!(resp.items, vec![ResponseItem::Packet(Packet::ACK(1))]);

    let resp = t
        .rx(Packet::DATA {
            block_num: 2,
            data: vec![],
        })
        .unwrap();
    assert_eq!(
        resp.items,
        vec![ResponseItem::Packet(Packet::ACK(2)), ResponseItem::Done]
    );
    assert!(t.is_done());
    assert_eq!(*buf.borrow(), payload);
}

fn file_adapter(name: &str, len: usize) -> FSAdapter {
    let mut io = FSAdapter::default();
    let data: Vec<u8> = (0..len).map(|i| (i % 239) as u8).collect();
    io.insert_file(name.to_string(), data);
    io
}

fn expect_data(item: &ResponseItem, block: u16, len: usize) {
    match item {
        ResponseItem::Packet(Packet::DATA { block_num, data }) => {
            assert_eq!(*block_num, block);
            assert_eq!(data.len(), len);
        }
        other => panic!("expected DATA({}), got {:?}", block, other),
    }
}

#[test]
fn basic_rrq_scenario() {
    let io = file_adapter("hello.txt", 1025);
    let mut proto = TftpServerProto::new(io, IOPolicyCfg::default());

    let (xfer, reply) = proto.rx_initial(rrq("hello.txt", vec![]));
    match reply.unwrap() {
        Packet::DATA { block_num, data } => {
            assert_eq!(block_num, 1);
            assert_eq!(data.len(), 512);
        }
        other => panic!("expected DATA(1), got {:?}", other),
    }
    let mut t = xfer.unwrap();

    let resp = t.rx(Packet::ACK(1)).unwrap();
    assert_eq!(resp.items.len(), 1);
    expect_data(&resp.items[0], 2, 512);

    let resp = t.rx(Packet::ACK(2)).unwrap();
    assert_eq!(resp.items.len(), 1);
    expect_data(&resp.items[0], 3, 1);

    let resp = t.rx(Packet::ACK(3)).unwrap();
    assert_eq!(resp.items, vec![ResponseItem::Done]);
    assert!(t.is_done());
}

#[test]
fn option_negotiation_scenario() {
    let io = file_adapter("x", 3000);
    let mut proto = TftpServerProto::new(io, IOPolicyCfg::default());

    let (xfer, reply) = proto.rx_initial(rrq(
        "x",
        vec![TftpOption::Blocksize(2050), TftpOption::TransferSize(0)],
    ));
    assert_eq!(
        reply.unwrap(),
        Packet::OACK {
            options: vec![TftpOption::Blocksize(2050), TftpOption::TransferSize(3000)],
        }
    );
    let mut t = xfer.unwrap();

    let resp = t.rx(Packet::ACK(0)).unwrap();
    assert_eq!(resp.items.len(), 1);
    expect_data(&resp.items[0], 1, 2050);

    let resp = t.rx(Packet::ACK(1)).unwrap();
    assert_eq!(resp.items.len(), 1);
    expect_data(&resp.items[0], 2, 950);

    let resp = t.rx(Packet::ACK(2)).unwrap();
    assert_eq!(resp.items, vec![ResponseItem::Done]);
}

#[test]
fn file_exists_rejection_scenario() {
    let io = file_adapter("./files/hello.txt", 10);
    let mut proto = TftpServerProto::new(io, IOPolicyCfg::default());
    let (xfer, reply) = proto.rx_initial(wrq("./files/hello.txt", vec![]));
    assert!(xfer.is_none());
    expect_error(reply, ErrorCode::FileExists);
}

#[test]
fn rrq_file_not_found() {
    let mut proto = TftpServerProto::new(FSAdapter::default(), IOPolicyCfg::default());
    let (xfer, reply) = proto.rx_initial(rrq("absent.txt", vec![]));
    assert!(xfer.is_none());
    expect_error(reply, ErrorCode::FileNotFound);
}

#[test]
fn mail_and_netascii_modes_are_refused() {
    let mut proto = TftpServerProto::new(FSAdapter::default(), IOPolicyCfg::default());
    let (xfer, reply) = proto.rx_initial(Packet::RRQ {
        filename: "x".to_string(),
        mode: TransferMode::Mail,
        options: vec![],
    });
    assert!(xfer.is_none());
    expect_error(reply, ErrorCode::NoUser);

    let (xfer, reply) = proto.rx_initial(Packet::WRQ {
        filename: "x".to_string(),
        mode: TransferMode::Netascii,
        options: vec![],
    });
    assert!(xfer.is_none());
    expect_error(reply, ErrorCode::NotDefined);
}

#[test]
fn non_initiating_packet_is_refused() {
    let mut proto = TftpServerProto::new(FSAdapter::default(), IOPolicyCfg::default());
    let (xfer, reply) = proto.rx_initial(Packet::ACK(0));
    assert!(xfer.is_none());
    assert_eq!(reply, Err(tftp_server::proto::TftpError::NotInitiatingPacket));
}

#[test]
fn path_safety() {
    let io = file_adapter("secret", 10);
    let mut proto = TftpServerProto::new(io, IOPolicyCfg::default());

    let (xfer, reply) = proto.rx_initial(rrq("../secret", vec![]));
    assert!(xfer.is_none());
    expect_error(reply, ErrorCode::FileNotFound);

    let (xfer, reply) = proto.rx_initial(rrq("/etc/passwd", vec![]));
    assert!(xfer.is_none());
    expect_error(reply, ErrorCode::FileNotFound);

    let (xfer, reply) = proto.rx_initial(rrq("a/../secret", vec![]));
    assert!(xfer.is_none());
    expect_error(reply, ErrorCode::FileNotFound);

    let (xfer, reply) = proto.rx_initial(wrq("../up.txt", vec![]));
    assert!(xfer.is_none());
    expect_error(reply, ErrorCode::FileExists);

    let (xfer, reply) = proto.rx_initial(wrq("/abs.txt", vec![]));
    assert!(xfer.is_none());
    expect_error(reply, ErrorCode::FileExists);

    // A dot-dot that is not its own component stays allowed.
    let (xfer, reply) = proto.rx_initial(rrq("a..b/secret", vec![]));
    assert!(xfer.is_none());
    expect_error(reply, ErrorCode::FileNotFound); // not found, not refused: the open itself failed
}

#[test]
fn readonly_refuses_every_write() {
    let buf = Rc::new(RefCell::new(Vec::new()));
    let io = SinkAdapter {
        buf,
        existing: vec![],
    };
    let cfg = IOPolicyCfg {
        readonly: true,
        path: None,
    };
    let mut proto = TftpServerProto::new(io, cfg);
    let (xfer, reply) = proto.rx_initial(wrq("new.txt", vec![]));
    assert!(xfer.is_none());
    expect_error(reply, ErrorCode::FileExists);
}

#[test]
fn wrong_direction_packets_kill_the_transfer() {
    let buf = Rc::new(RefCell::new(Vec::new()));
    let io = SinkAdapter {
        buf,
        existing: vec![],
    };
    let mut proto = TftpServerProto::new(io, IOPolicyCfg::default());
    let (xfer, _) = proto.rx_initial(wrq("f", vec![]));
    let mut t = xfer.unwrap();
    let resp = t.rx(Packet::ACK(1)).unwrap();
    assert_eq!(resp.items.len(), 2);
    match &resp.items[0] {
        ResponseItem::Packet(Packet::ERROR { code, .. }) => {
            assert_eq!(*code, ErrorCode::IllegalTFTP)
        }
        other => panic!("expected ERROR, got {:?}", other),
    }
    assert_eq!(resp.items[1], ResponseItem::Done);
    assert!(t.is_done());
}

#[test]
fn peer_error_kills_the_transfer_silently() {
    let io = file_adapter("f", 100);
    let mut proto = TftpServerProto::new(io, IOPolicyCfg::default());
    let (xfer, _) = proto.rx_initial(rrq("f", vec![]));
    let mut t = xfer.unwrap();
    let resp = t
        .rx(Packet::ERROR {
            code: ErrorCode::DiskFull,
            msg: "full".to_string(),
        })
        .unwrap();
    assert_eq!(resp.items, vec![ResponseItem::Done]);
    assert!(t.is_done());
    // Every later packet is answered with the end alone.
    let resp = t.rx(Packet::ACK(1)).unwrap();
    assert_eq!(resp.items, vec![ResponseItem::Done]);
}

#[test]
fn request_on_running_transfer_is_refused() {
    let io = file_adapter("f", 100);
    let mut proto = TftpServerProto::new(io, IOPolicyCfg::default());
    let (xfer, _) = proto.rx_initial(rrq("f", vec![]));
    let mut t = xfer.unwrap();
    assert!(matches!(
        t.rx(rrq("f", vec![])),
        Err(tftp_server::proto::TftpError::TransferAlreadyRunning)
    ));
    assert!(!t.is_done());
}

#[test]
fn out_of_window_ack_draws_unknown_id() {
    let io = file_adapter("f", 1025);
    let mut proto = TftpServerProto::new(io, IOPolicyCfg::default());
    let (xfer, _) = proto.rx_initial(rrq("f", vec![]));
    let mut t = xfer.unwrap();
    let resp = t.rx(Packet::ACK(5)).unwrap();
    assert_eq!(resp.items.len(), 2);
    match &resp.items[0] {
        ResponseItem::Packet(Packet::ERROR { code, msg }) => {
            assert_eq!(*code, ErrorCode::UnknownID);
            assert_eq!(msg, "Incorrect block num in ACK");
        }
        other => panic!("expected ERROR, got {:?}", other),
    }
    assert_eq!(resp.items[1], ResponseItem::Done);
    assert!(t.is_done());
}

#[test]
fn out_of_window_data_draws_illegal_tftp() {
    let buf = Rc::new(RefCell::new(Vec::new()));
    let io = SinkAdapter {
        buf,
        existing: vec![],
    };
    let mut proto = TftpServerProto::new(io, IOPolicyCfg::default());
    let (xfer, _) = proto.rx_initial(wrq("f", vec![]));
    let mut t = xfer.unwrap();
    let resp = t
        .rx(Packet::DATA {
            block_num: 2,
            data: vec![1, 2, 3],
        })
        .unwrap();
    assert_eq!(resp.items.len(), 2);
    match &resp.items[0] {
        ResponseItem::Packet(Packet::ERROR { code, msg }) => {
            assert_eq!(*code, ErrorCode::IllegalTFTP);
            assert_eq!(msg, "Data packet lost");
        }
        other => panic!("expected ERROR, got {:?}", other),
    }
    assert!(t.is_done());
}

#[test]
fn out_of_sequence_data_in_window_reacknowledges() {
    let buf = Rc::new(RefCell::new(Vec::new()));
    let io = SinkAdapter {
        buf: buf.clone(),
        existing: vec![],
    };
    let mut proto = TftpServerProto::new(io, IOPolicyCfg::default());
    let (xfer, reply) = proto.rx_initial(wrq("f", vec![TftpOption::WindowSize(2)]));
    assert_eq!(
        reply.unwrap(),
        Packet::OACK {
            options: vec![TftpOption::WindowSize(2)],
        }
    );
    let mut t = xfer.unwrap();
    // Block 2 is inside the window (0, 2] but out of sequence.
    let resp = t
        .rx(Packet::DATA {
            block_num: 2,
            data: vec![9; 512],
        })
        .unwrap();
    assert_eq!(resp.items, vec![ResponseItem::Packet(Packet::ACK(0))]);
    assert!(buf.borrow().is_empty());
    assert!(!t.is_done());
}

#[test]
fn windowed_read_sends_a_window_per_ack() {
    let io = file_adapter("f", 1100);
    let mut proto = TftpServerProto::new(io, IOPolicyCfg::default());
    let (xfer, reply) = proto.rx_initial(rrq("f", vec![TftpOption::WindowSize(2)]));
    assert_eq!(
        reply.unwrap(),
        Packet::OACK {
            options: vec![TftpOption::WindowSize(2)],
        }
    );
    let mut t = xfer.unwrap();

    let resp = t.rx(Packet::ACK(0)).unwrap();
    assert_eq!(resp.items.len(), 2);
    expect_data(&resp.items[0], 1, 512);
    expect_data(&resp.items[1], 2, 512);

    // Acknowledge only the first block: one replay order, one fresh block.
    let resp = t.rx(Packet::ACK(1)).unwrap();
    assert_eq!(resp.items.len(), 2);
    assert_eq!(resp.items[0], ResponseItem::RepeatLast(1));
    expect_data(&resp.items[1], 3, 76);

    let resp = t.rx(Packet::ACK(3)).unwrap();
    assert_eq!(resp.items, vec![ResponseItem::Done]);
}

#[test]
fn timeout_retransmits_once_then_closes() {
    let io = file_adapter("f", 1025);
    let mut proto = TftpServerProto::new(io, IOPolicyCfg::default());
    let (xfer, _) = proto.rx_initial(rrq("f", vec![]));
    let mut t = xfer.unwrap();
    assert_eq!(t.timeout_expired(), ResponseItem::RepeatLast(1));
    assert!(!t.is_done());
    assert_eq!(t.timeout_expired(), ResponseItem::Done);
    assert!(t.is_done());
}

#[test]
fn receiving_timeout_retransmits_last_ack() {
    let buf = Rc::new(RefCell::new(Vec::new()));
    let io = SinkAdapter {
        buf,
        existing: vec![],
    };
    let mut proto = TftpServerProto::new(io, IOPolicyCfg::default());
    let (xfer, _) = proto.rx_initial(wrq("f", vec![]));
    let mut t = xfer.unwrap();
    assert_eq!(t.timeout_expired(), ResponseItem::RepeatLast(1));
    assert_eq!(t.timeout_expired(), ResponseItem::Done);
    assert!(t.is_done());
}

#[test]
fn a_received_packet_rearms_the_timeout_strikes() {
    let io = file_adapter("f", 2000);
    let mut proto = TftpServerProto::new(io, IOPolicyCfg::default());
    let (xfer, _) = proto.rx_initial(rrq("f", vec![]));
    let mut t = xfer.unwrap();
    assert_eq!(t.timeout_expired(), ResponseItem::RepeatLast(1));
    // A good ACK clears the strike, so the next expiry retransmits again.
    let _ = t.rx(Packet::ACK(1)).unwrap();
    assert_eq!(t.timeout_expired(), ResponseItem::RepeatLast(1));
    assert_eq!(t.timeout_expired(), ResponseItem::Done);
}

#[test]
fn negotiated_timeout_is_reported() {
    let io = file_adapter("f", 10);
    let mut proto = TftpServerProto::new(io, IOPolicyCfg::default());
    let (xfer, _) = proto.rx_initial(rrq("f", vec![TftpOption::Timeout(7)]));
    let t = xfer.unwrap();
    assert_eq!(t.timeout(), Some(7));

    let io = file_adapter("g", 10);
    let mut proto = TftpServerProto::new(io, IOPolicyCfg::default());
    let (xfer, _) = proto.rx_initial(rrq("g", vec![]));
    let t = xfer.unwrap();
    assert_eq!(t.timeout(), None);
}

#[test]
fn failed_read_reports_not_defined() {
    let mut proto = TftpServerProto::new(BrokenReadAdapter, IOPolicyCfg::default());
    // With no options, the first block is read at once and fails.
    let (xfer, reply) = proto.rx_initial(rrq("f", vec![]));
    assert!(xfer.is_none());
    expect_error(reply, ErrorCode::NotDefined);

    // With options, the failure surfaces on the first ACK instead.
    let mut proto = TftpServerProto::new(BrokenReadAdapter, IOPolicyCfg::default());
    let (xfer, reply) = proto.rx_initial(rrq("f", vec![TftpOption::Blocksize(1000)]));
    assert_eq!(
        reply.unwrap(),
        Packet::OACK {
            options: vec![TftpOption::Blocksize(1000)],
        }
    );
    let mut t = xfer.unwrap();
    let resp = t.rx(Packet::ACK(0)).unwrap();
    assert_eq!(resp.items.len(), 2);
    match &resp.items[0] {
        ResponseItem::Packet(Packet::ERROR { code, .. }) => {
            assert_eq!(*code, ErrorCode::NotDefined)
        }
        other => panic!("expected ERROR, got {:?}", other),
    }
    assert_eq!(resp.items[1], ResponseItem::Done);
}

#[test]
fn zero_length_file_sends_one_empty_block() {
    let io = file_adapter("empty", 0);
    let mut proto = TftpServerProto::new(io, IOPolicyCfg::default());
    let (xfer, reply) = proto.rx_initial(rrq("empty", vec![]));
    assert_eq!(
        reply.unwrap(),
        Packet::DATA {
            block_num: 1,
            data: vec![],
        }
    );
    let mut t = xfer.unwrap();
    let resp = t.rx(Packet::ACK(1)).unwrap();
    assert_eq!(resp.items, vec![ResponseItem::Done]);
}

#[test]
fn rrq_with_unknown_size_drops_tsize_echo() {
    // BrokenReadAdapter reports no length, so a lone tsize request
    // leaves nothing to echo and the first (failing) read happens.
    let mut proto = TftpServerProto::new(BrokenReadAdapter, IOPolicyCfg::default());
    let (xfer, reply) = proto.rx_initial(rrq("f", vec![TftpOption::TransferSize(0)]));
    assert!(xfer.is_none());
    expect_error(reply, ErrorCode::NotDefined);
}

#[test]
fn wrq_echoes_tsize_as_sent() {
    let buf = Rc::new(RefCell::new(Vec::new()));
    let io = SinkAdapter {
        buf,
        existing: vec![],
    };
    let mut proto = TftpServerProto::new(io, IOPolicyCfg::default());
    let (xfer, reply) = proto.rx_initial(wrq("f", vec![TftpOption::TransferSize(4096)]));
    assert_eq!(
        reply.unwrap(),
        Packet::OACK {
            options: vec![TftpOption::TransferSize(4096)],
        }
    );
    assert!(xfer.is_some());
}

#[test]
fn response_next_walks_front_first() {
    let io = file_adapter("f", 1100);
    let mut proto = TftpServerProto::new(io, IOPolicyCfg::default());
    let (xfer, _) = proto.rx_initial(rrq("f", vec![TftpOption::WindowSize(2)]));
    let mut t = xfer.unwrap();
    let mut resp = t.rx(Packet::ACK(0)).unwrap();
    let first = resp.next().unwrap();
    expect_data(&first, 1, 512);
    let second = resp.next().unwrap();
    expect_data(&second, 2, 512);
    assert_eq!(resp.next(), None);
}

#[test]
fn block_numbers_wrap_around() {
    // A file long enough that block numbers pass 65535 and wrap to 0.
    let blocks: usize = 65536 + 2;
    let io = file_adapter("big", blocks * 512 + 100);
    let mut proto = TftpServerProto::new(io, IOPolicyCfg::default());
    let (xfer, reply) = proto.rx_initial(rrq("big", vec![]));
    match reply.unwrap() {
        Packet::DATA { block_num, data } => {
            assert_eq!(block_num, 1);
            assert_eq!(data.len(), 512);
        }
        other => panic!("expected DATA(1), got {:?}", other),
    }
    let mut t = xfer.unwrap();
    for i in 1..=blocks as u32 {
        let ack = (i % 65536) as u16;
        let next = ((i + 1) % 65536) as u16;
        let resp = t.rx(Packet::ACK(ack)).unwrap();
        assert_eq!(resp.items.len(), 1, "at block {}", i);
        let expected_len = if i == blocks as u32 { 100 } else { 512 };
        expect_data(&resp.items[0], next, expected_len);
    }
    let final_ack = ((blocks as u32 + 1) % 65536) as u16;
    let resp = t.rx(Packet::ACK(final_ack)).unwrap();
    assert_eq!(resp.items, vec![ResponseItem::Done]);
}

#[test]
fn failed_read_in_replayed_window_discards_collected_items() {
    // Two full blocks go out; the peer acknowledges only the first,
    // and the re-read for the fresh block fails. The reply must be
    // the ERROR and the end alone: nothing collected earlier stays.
    let mut proto = TftpServerProto::new(FlakyAdapter { blocks: 2 }, IOPolicyCfg::default());
    let (xfer, reply) = proto.rx_initial(rrq("f", vec![TftpOption::WindowSize(2)]));
    assert_eq!(
        reply.unwrap(),
        Packet::OACK {
            options: vec![TftpOption::WindowSize(2)],
        }
    );
    let mut t = xfer.unwrap();

    let resp = t.rx(Packet::ACK(0)).unwrap();
    assert_eq!(resp.items.len(), 2);
    expect_data(&resp.items[0], 1, 512);
    expect_data(&resp.items[1], 2, 512);

    let resp = t.rx(Packet::ACK(1)).unwrap();
    assert_eq!(resp.items.len(), 2);
    match &resp.items[0] {
        ResponseItem::Packet(Packet::ERROR { code, .. }) => {
            assert_eq!(*code, ErrorCode::NotDefined)
        }
        other => panic!("expected ERROR, got {:?}", other),
    }
    assert_eq!(resp.items[1], ResponseItem::Done);
    assert!(t.is_done());
}
