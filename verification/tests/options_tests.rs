use tftp_server::options::{TftpOption, MAX_BLOCKSIZE};

#[test]
fn blocksize_parse() {
    assert_eq!(
        TftpOption::try_from("blksize", "512"),
        Some(TftpOption::Blocksize(512))
    );
    assert_eq!(
        TftpOption::try_from("bLkSIzE", "512"),
        Some(TftpOption::Blocksize(512))
    );
    assert_eq!(TftpOption::try_from("blksize", "cat"), None);
    assert_eq!(TftpOption::try_from("blocksize", "512"), None);
}

#[test]
fn blocksize_bounds() {
    assert_eq!(TftpOption::try_from("blksize", "7"), None);
    assert_eq!(
        TftpOption::try_from("blksize", "8"),
        Some(TftpOption::Blocksize(8))
    );
    assert_eq!(MAX_BLOCKSIZE, 65_464);
    assert_eq!(
        TftpOption::try_from("blksize", "65464"),
        Some(TftpOption::Blocksize(65_464))
    );
    assert_eq!(TftpOption::try_from("blksize", "65465"), None);
}

#[test]
fn blocksize_write() {
    let mut v = vec![];
    TftpOption::Blocksize(78).write_to(&mut v).unwrap();
    assert_eq!(v, b"blksize\078\0");
}

#[test]
fn transfer_size_parse() {
    assert_eq!(
        TftpOption::try_from("tsize", "56246"),
        Some(TftpOption::TransferSize(56246))
    );
    assert_eq!(
        TftpOption::try_from("tSiZE", "0"),
        Some(TftpOption::TransferSize(0))
    );
}

#[test]
fn transfer_size_write() {
    let mut v = vec![];
    TftpOption::TransferSize(54).write_to(&mut v).unwrap();
    assert_eq!(v, b"tsize\054\0");
}

#[test]
fn timeout_parse() {
    assert_eq!(
        TftpOption::try_from("timeout", "8"),
        Some(TftpOption::Timeout(8))
    );
    assert_eq!(
        TftpOption::try_from("TIMEOUT", "0"),
        Some(TftpOption::Timeout(0))
    );
}

#[test]
fn timeout_write() {
    let mut v = vec![];
    TftpOption::Timeout(4).write_to(&mut v).unwrap();
    assert_eq!(v, b"timeout\04\0");
}

#[test]
fn window_size_parse() {
    assert_eq!(
        TftpOption::try_from("windowsize", "4"),
        Some(TftpOption::WindowSize(4))
    );
    assert_eq!(
        TftpOption::try_from("WindowSize", "1"),
        Some(TftpOption::WindowSize(1))
    );
    assert_eq!(TftpOption::try_from("windowsize", "0"), None);
    assert_eq!(TftpOption::try_from("windowsize", "65536"), None);
}

#[test]
fn window_size_write() {
    let mut v = vec![];
    TftpOption::WindowSize(16).write_to(&mut v).unwrap();
    assert_eq!(v, b"windowsize\016\0");
}

#[test]
fn transfer_size_large_values() {
    assert_eq!(
        TftpOption::try_from("tsize", "18446744073709551615"),
        Some(TftpOption::TransferSize(u64::MAX))
    );
    assert_eq!(TftpOption::try_from("tsize", "18446744073709551616"), None);
    assert_eq!(TftpOption::try_from("tsize", ""), None);
    assert_eq!(TftpOption::try_from("tsize", "+5"), None);
}

#[test]
fn zero_value_writes() {
    let mut v = vec![];
    TftpOption::TransferSize(0).write_to(&mut v).unwrap();
    assert_eq!(v, b"tsize\00\0");
}
