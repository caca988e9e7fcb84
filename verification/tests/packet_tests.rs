use tftp_server::options::TftpOption;
use tftp_server::packet::{
    ErrorCode, Packet, PacketErr, Strings, TransferMode, MAX_PACKET_SIZE,
};

#[test]
fn simple() {
    let a: &[u8] = b"hello\0";
    let mut s = Strings::from(a);
    assert_eq!(s.next(), Some("hello"));
    assert_eq!(s.next(), None);
}

#[test]
fn two() {
    let a: &[u8] = b"hello\0world\0";
    let mut s = Strings::from(a);
    assert_eq!(s.next(), Some("hello"));
    assert_eq!(s.next(), Some("world"));
    assert_eq!(s.next(), None);
}

#[test]
fn junk() {
    let a: &[u8] = b"hello\0dude";
    let mut s = Strings::from(a);
    assert_eq!(s.next(), Some("hello"));
    assert_eq!(s.next(), None);
    assert_eq!(s.next(), None);
}

#[test]
fn wrq_max_size() {
    let p = Packet::WRQ {
        filename: std::str::from_utf8(&[b'x'; 512 - 6]).unwrap().to_owned(),
        mode: TransferMode::Octet,
        options: vec![],
    };
    let mut v = vec![];
    p.write_bytes_to(&mut v).unwrap();
    assert!(matches!(Packet::read(&v), Err(_)));
}

#[test]
fn rrq_max_size() {
    let p = Packet::RRQ {
        filename: std::str::from_utf8(&[b'x'; 512 - 6]).unwrap().to_owned(),
        mode: TransferMode::Octet,
        options: vec![],
    };
    let mut v = vec![];
    p.write_bytes_to(&mut v).unwrap();
    assert!(matches!(Packet::read(&v), Err(_)));
}

fn round_trips(p: Packet) {
    let bytes = p.clone().into_bytes();
    assert!(bytes.is_ok());
    let packet = bytes.and_then(|pd| Packet::read(pd.as_slice()));
    assert!(packet.is_ok());
    assert_eq!(packet.unwrap(), p);
}

#[test]
fn rrq() {
    round_trips(Packet::RRQ {
        filename: "/a/b/c/hello.txt".to_string(),
        mode: TransferMode::Netascii,
        options: vec![],
    });
}

#[test]
fn rrq_blocksize() {
    round_trips(Packet::RRQ {
        filename: "/a/b/c/hello.txt".to_string(),
        mode: TransferMode::Netascii,
        options: vec![TftpOption::Blocksize(735)],
    });
}

#[test]
fn wrq() {
    round_trips(Packet::WRQ {
        filename: "./world.txt".to_string(),
        mode: TransferMode::Octet,
        options: vec![],
    });
}

#[test]
fn wrq_blocksize() {
    round_trips(Packet::WRQ {
        filename: "./world.txt".to_string(),
        mode: TransferMode::Octet,
        options: vec![TftpOption::Blocksize(846)],
    });
}

#[test]
fn ack() {
    round_trips(Packet::ACK(1234));
}

#[test]
fn data() {
    round_trips(Packet::DATA {
        block_num: 1234,
        data: vec![123; 512],
    });
}

#[test]
fn err() {
    round_trips(Packet::ERROR {
        code: ErrorCode::NoUser,
        msg: "This is a message".to_string(),
    });
}

#[test]
fn oack() {
    round_trips(Packet::OACK {
        options: vec![TftpOption::Blocksize(1234)],
    });
}

#[test]
fn non_ascii_filename_round_trips() {
    round_trips(Packet::RRQ {
        filename: "héllo-ünïcode.txt".to_string(),
        mode: TransferMode::Octet,
        options: vec![],
    });
}

#[test]
fn every_option_kind_round_trips() {
    round_trips(Packet::OACK {
        options: vec![
            TftpOption::Blocksize(8),
            TftpOption::TransferSize(0),
            TftpOption::Timeout(255),
            TftpOption::WindowSize(65535),
        ],
    });
}

#[test]
fn decode_exact_rrq_bytes() {
    let bytes = b"\x00\x01hello.txt\0OCTET\0blksize\0512\0";
    let p = Packet::read(bytes).unwrap();
    assert_eq!(
        p,
        Packet::RRQ {
            filename: "hello.txt".to_string(),
            mode: TransferMode::Octet,
            options: vec![TftpOption::Blocksize(512)],
        }
    );
}

#[test]
fn unknown_and_malformed_options_are_dropped() {
    let bytes = b"\x00\x01f\0octet\0frobnicate\01\0blksize\0cat\0timeout\03\0";
    let p = Packet::read(bytes).unwrap();
    assert_eq!(
        p,
        Packet::RRQ {
            filename: "f".to_string(),
            mode: TransferMode::Octet,
            options: vec![TftpOption::Timeout(3)],
        }
    );
}

#[test]
fn dangling_option_name_is_ignored() {
    let bytes = b"\x00\x02f\0octet\0blksize\0";
    let p = Packet::read(bytes).unwrap();
    assert_eq!(
        p,
        Packet::WRQ {
            filename: "f".to_string(),
            mode: TransferMode::Octet,
            options: vec![],
        }
    );
}

#[test]
fn decode_errors() {
    assert_eq!(Packet::read(b""), Err(PacketErr::IOError));
    assert_eq!(Packet::read(b"\x00"), Err(PacketErr::IOError));
    assert_eq!(Packet::read(b"\x00\x09"), Err(PacketErr::OpCodeOutOfBounds));
    assert_eq!(Packet::read(b"\x00\x01"), Err(PacketErr::StrOutOfBounds));
    assert_eq!(
        Packet::read(b"\x00\x01name\0"),
        Err(PacketErr::StrOutOfBounds)
    );
    assert_eq!(
        Packet::read(b"\x00\x01name\0mail2\0"),
        Err(PacketErr::UnsupportedField)
    );
    assert_eq!(Packet::read(b"\x00\x03\x00"), Err(PacketErr::IOError));
    assert_eq!(
        Packet::read(b"\x00\x05\x00\x09msg\0"),
        Err(PacketErr::OpCodeOutOfBounds)
    );
    assert_eq!(
        Packet::read(b"\x00\x05\x00\x01msg-without-nul"),
        Err(PacketErr::StrOutOfBounds)
    );
}

#[test]
fn invalid_utf8_filename_is_refused() {
    let bytes = b"\x00\x01\xff\xfe\0octet\0";
    assert_eq!(Packet::read(bytes), Err(PacketErr::StrOutOfBounds));
}

#[test]
fn ack_ignores_trailing_bytes() {
    let p = Packet::read(b"\x00\x04\x12\x34junk").unwrap();
    assert_eq!(p, Packet::ACK(0x1234));
}

#[test]
fn data_payload_is_the_rest() {
    let p = Packet::read(b"\x00\x03\x00\x07abc").unwrap();
    assert_eq!(
        p,
        Packet::DATA {
            block_num: 7,
            data: b"abc".to_vec(),
        }
    );
}

#[test]
fn error_code_messages() {
    assert_eq!(ErrorCode::FileNotFound.to_string(), "File not found.");
    assert_eq!(ErrorCode::FileExists.to_string(), "File already exists.");
    assert_eq!(ErrorCode::NoUser.to_string(), "No such user.");
    assert_eq!(
        ErrorCode::NotDefined.to_string(),
        "Not defined, see error message (if any)."
    );
}

#[test]
fn error_packet_from_code() {
    let p = Packet::from(ErrorCode::UnknownID);
    assert_eq!(
        p,
        Packet::ERROR {
            code: ErrorCode::UnknownID,
            msg: "Unknown transfer ID.".to_string(),
        }
    );
}

#[test]
fn write_to_slice_reports_length_and_fits() {
    let p = Packet::ACK(0x0102);
    let mut buf = [0u8; 8];
    let n = p.write_to_slice(&mut buf).unwrap();
    assert_eq!(n, 4);
    assert_eq!(&buf[..4], &[0, 4, 1, 2]);

    let mut tiny = [0u8; 3];
    assert_eq!(p.write_to_slice(&mut tiny), Err(PacketErr::IOError));
}

#[test]
fn max_packet_size_value() {
    assert_eq!(MAX_PACKET_SIZE, 65466);
}
