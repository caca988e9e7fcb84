//! The TFTP packet codec: packet datatypes, their exact wire format
//! as specification functions over byte sequences, and verified
//! encoders and decoders.

use vstd::prelude::*;
use vstd::string::StringSliceAdditionalSpecFns;
use vstd::string::StringExecFns;
use vstd::utf8::{encode_utf8, valid_utf8};
use crate::options::{
    opt_encoding, opt_from_strings, MAX_BLOCKSIZE, TftpOption,
};
use crate::wire::{
    be16, be16_value, bytes_eq_icase, eq_icase, push_be16, push_bytes, push_str_bytes, read_be16,
    try_str_from_bytes,
};

verus! {

/// Largest buffer an encoded packet was meant to need: the largest
/// negotiable block size plus the two opcode bytes.
pub const MAX_PACKET_SIZE: usize = 65466;

/// Why a buffer failed to decode, or an encode failed.
#[derive(PartialEq, Eq, Structural, Clone, Copy, Debug)]
pub enum PacketErr {
    /// A request was oversized, or an expected NUL-terminated string
    /// was missing or not UTF-8.
    StrOutOfBounds,
    /// The leading opcode, or an error code, is out of range.
    OpCodeOutOfBounds,
    /// The transfer mode named in a request is unknown.
    UnsupportedField,
    /// A string field held bytes that are not UTF-8. The decoders
    /// in this module report such fields as `StrOutOfBounds`, so
    /// none of them returns this variant; it stays in the error
    /// vocabulary for callers that tell the two apart.
    Utf8Error,
    /// The buffer ended before a fixed-size field, or an output
    /// buffer was too small.
    IOError,
}

/// The six packet opcodes.
#[derive(PartialEq, Eq, Structural, Clone, Copy, Debug)]
pub enum OpCode {
    RRQ,
    WRQ,
    DATA,
    ACK,
    ERROR,
    OACK,
}

/// The numeric value an opcode is written as.
pub open spec fn opcode_num(op: OpCode) -> u16 {
    match op {
        OpCode::RRQ => 1,
        OpCode::WRQ => 2,
        OpCode::DATA => 3,
        OpCode::ACK => 4,
        OpCode::ERROR => 5,
        OpCode::OACK => 6,
    }
}

impl OpCode {
    /// The opcode written as its numeric value.
    pub fn as_num(self) -> (r: u16)
        ensures
            r == opcode_num(self),
    {
        match self {
            OpCode::RRQ => 1,
            OpCode::WRQ => 2,
            OpCode::DATA => 3,
            OpCode::ACK => 4,
            OpCode::ERROR => 5,
            OpCode::OACK => 6,
        }
    }

    /// The opcode a numeric value stands for; values outside 1..=6
    /// are refused.
    pub fn from_u16(i: u16) -> (r: Result<OpCode, PacketErr>)
        ensures
            1 <= i <= 6 ==> (r matches Ok(op) && opcode_num(op) == i),
            !(1 <= i <= 6) ==> r == Err::<OpCode, PacketErr>(PacketErr::OpCodeOutOfBounds),
    {
        match i {
            1 => Ok(OpCode::RRQ),
            2 => Ok(OpCode::WRQ),
            3 => Ok(OpCode::DATA),
            4 => Ok(OpCode::ACK),
            5 => Ok(OpCode::ERROR),
            6 => Ok(OpCode::OACK),
            _ => Err(PacketErr::OpCodeOutOfBounds),
        }
    }
}

/// The nine TFTP error codes.
#[derive(PartialEq, Eq, Structural, Clone, Copy, Debug)]
pub enum ErrorCode {
    NotDefined,
    FileNotFound,
    AccessViolation,
    DiskFull,
    IllegalTFTP,
    UnknownID,
    FileExists,
    NoUser,
    BadOption,
}

/// The numeric value an error code is written as.
pub open spec fn error_code_num(c: ErrorCode) -> u16 {
    match c {
        ErrorCode::NotDefined => 0,
        ErrorCode::FileNotFound => 1,
        ErrorCode::AccessViolation => 2,
        ErrorCode::DiskFull => 3,
        ErrorCode::IllegalTFTP => 4,
        ErrorCode::UnknownID => 5,
        ErrorCode::FileExists => 6,
        ErrorCode::NoUser => 7,
        ErrorCode::BadOption => 8,
    }
}

/// The error code a numeric value in 0..=8 stands for.
pub open spec fn error_code_of(n: u16) -> ErrorCode {
    if n == 0 {
        ErrorCode::NotDefined
    } else if n == 1 {
        ErrorCode::FileNotFound
    } else if n == 2 {
        ErrorCode::AccessViolation
    } else if n == 3 {
        ErrorCode::DiskFull
    } else if n == 4 {
        ErrorCode::IllegalTFTP
    } else if n == 5 {
        ErrorCode::UnknownID
    } else if n == 6 {
        ErrorCode::FileExists
    } else if n == 7 {
        ErrorCode::NoUser
    } else {
        ErrorCode::BadOption
    }
}

/// The default message text for each error code.
pub open spec fn default_msg_view(c: ErrorCode) -> Seq<char> {
    match c {
        ErrorCode::NotDefined => "Not defined, see error message (if any)."@,
        ErrorCode::FileNotFound => "File not found."@,
        ErrorCode::AccessViolation => "Access violation."@,
        ErrorCode::DiskFull => "Disk full or allocation exceeded."@,
        ErrorCode::IllegalTFTP => "Illegal TFTP operation."@,
        ErrorCode::UnknownID => "Unknown transfer ID."@,
        ErrorCode::FileExists => "File already exists."@,
        ErrorCode::NoUser => "No such user."@,
        ErrorCode::BadOption => "Bad option."@,
    }
}

impl ErrorCode {
    /// The error code written as its numeric value.
    pub fn as_num(self) -> (r: u16)
        ensures
            r == error_code_num(self),
    {
        match self {
            ErrorCode::NotDefined => 0,
            ErrorCode::FileNotFound => 1,
            ErrorCode::AccessViolation => 2,
            ErrorCode::DiskFull => 3,
            ErrorCode::IllegalTFTP => 4,
            ErrorCode::UnknownID => 5,
            ErrorCode::FileExists => 6,
            ErrorCode::NoUser => 7,
            ErrorCode::BadOption => 8,
        }
    }

    /// The error code a numeric value stands for; values above 8 are
    /// refused.
    pub fn from_u16(i: u16) -> (r: Result<ErrorCode, PacketErr>)
        ensures
            i <= 8 ==> r == Ok::<ErrorCode, PacketErr>(error_code_of(i)) && error_code_num(
                error_code_of(i),
            ) == i,
            i > 8 ==> r == Err::<ErrorCode, PacketErr>(PacketErr::OpCodeOutOfBounds),
    {
        match i {
            0 => Ok(ErrorCode::NotDefined),
            1 => Ok(ErrorCode::FileNotFound),
            2 => Ok(ErrorCode::AccessViolation),
            3 => Ok(ErrorCode::DiskFull),
            4 => Ok(ErrorCode::IllegalTFTP),
            5 => Ok(ErrorCode::UnknownID),
            6 => Ok(ErrorCode::FileExists),
            7 => Ok(ErrorCode::NoUser),
            8 => Ok(ErrorCode::BadOption),
            _ => Err(PacketErr::OpCodeOutOfBounds),
        }
    }

    /// Returns the string description of the error code.
    pub fn to_string(self) -> (r: String)
        ensures
            r@ == default_msg_view(self),
    {
        match self {
            ErrorCode::NotDefined => String::from_str("Not defined, see error message (if any)."),
            ErrorCode::FileNotFound => String::from_str("File not found."),
            ErrorCode::AccessViolation => String::from_str("Access violation."),
            ErrorCode::DiskFull => String::from_str("Disk full or allocation exceeded."),
            ErrorCode::IllegalTFTP => String::from_str("Illegal TFTP operation."),
            ErrorCode::UnknownID => String::from_str("Unknown transfer ID."),
            ErrorCode::FileExists => String::from_str("File already exists."),
            ErrorCode::NoUser => String::from_str("No such user."),
            ErrorCode::BadOption => String::from_str("Bad option."),
        }
    }
}

/// The three transfer modes a request can name.
#[derive(PartialEq, Eq, Structural, Copy, Clone, Debug)]
pub enum TransferMode {
    Octet,
    Mail,
    Netascii,
}

/// The wire spelling of a transfer mode.
pub open spec fn mode_bytes(m: TransferMode) -> Seq<u8> {
    match m {
        TransferMode::Octet => "octet".spec_bytes(),
        TransferMode::Netascii => "netascii".spec_bytes(),
        TransferMode::Mail => "mail".spec_bytes(),
    }
}

/// The transfer mode a wire string names, matched without regard to
/// ASCII case.
pub open spec fn mode_from_bytes(s: Seq<u8>) -> Option<TransferMode> {
    if bytes_eq_icase(s, "octet".spec_bytes()) {
        Some(TransferMode::Octet)
    } else if bytes_eq_icase(s, "netascii".spec_bytes()) {
        Some(TransferMode::Netascii)
    } else if bytes_eq_icase(s, "mail".spec_bytes()) {
        Some(TransferMode::Mail)
    } else {
        None
    }
}

/// The concrete bytes of the three mode names.
pub proof fn lemma_mode_name_bytes()
    ensures
        "octet".spec_bytes() =~= seq![0x6fu8, 0x63, 0x74, 0x65, 0x74],
        "netascii".spec_bytes() =~= seq![0x6eu8, 0x65, 0x74, 0x61, 0x73, 0x63, 0x69, 0x69],
        "mail".spec_bytes() =~= seq![0x6du8, 0x61, 0x69, 0x6c],
{
    reveal_strlit("octet");
    reveal_strlit("netascii");
    reveal_strlit("mail");
    broadcast use vstd::string::group_string_axioms;

    assert(vstd::string::is_ascii("octet"));
    assert(vstd::string::is_ascii("netascii"));
    assert(vstd::string::is_ascii("mail"));
}

/// A mode's own spelling names that mode and no other: the names are
/// pairwise distinct even up to ASCII case, NUL-free, and UTF-8.
pub proof fn lemma_mode_round_trip(m: TransferMode)
    ensures
        mode_from_bytes(mode_bytes(m)) == Some(m),
        forall|i: int| 0 <= i < mode_bytes(m).len() ==> 0 < #[trigger] mode_bytes(m)[i] < 0x80,
        valid_utf8(mode_bytes(m)),
{
    lemma_mode_name_bytes();
    assert(crate::wire::ascii_lower("mail".spec_bytes()[0]) != crate::wire::ascii_lower(
        "octet".spec_bytes()[0],
    ));
    crate::wire::lemma_ascii_bytes_valid_utf8(mode_bytes(m));
}

impl TransferMode {
    /// The transfer mode a string names, matched without regard to
    /// ASCII case; an unknown name is refused.
    pub fn try_from(s: &str) -> (r: Result<TransferMode, PacketErr>)
        ensures
            mode_from_bytes(s.spec_bytes()) matches Some(m) ==> r == Ok::<
                TransferMode,
                PacketErr,
            >(m),
            mode_from_bytes(s.spec_bytes()) is None ==> r == Err::<TransferMode, PacketErr>(
                PacketErr::UnsupportedField,
            ),
    {
        let b = s.as_bytes();
        if eq_icase(b, "octet".as_bytes()) {
            Ok(TransferMode::Octet)
        } else if eq_icase(b, "netascii".as_bytes()) {
            Ok(TransferMode::Netascii)
        } else if eq_icase(b, "mail".as_bytes()) {
            Ok(TransferMode::Mail)
        } else {
            Err(PacketErr::UnsupportedField)
        }
    }
}

/// A decoded TFTP packet.
#[derive(PartialEq, Clone, Debug)]
pub enum Packet {
    RRQ { filename: String, mode: TransferMode, options: Vec<TftpOption> },
    WRQ { filename: String, mode: TransferMode, options: Vec<TftpOption> },
    DATA { block_num: u16, data: Vec<u8> },
    ACK(u16),
    ERROR { code: ErrorCode, msg: String },
    OACK { options: Vec<TftpOption> },
}

/// The mathematical shape of a packet: strings and payloads as the
/// byte sequences they occupy on the wire.
pub enum PacketModel {
    RRQ { filename: Seq<u8>, mode: TransferMode, options: Seq<TftpOption> },
    WRQ { filename: Seq<u8>, mode: TransferMode, options: Seq<TftpOption> },
    DATA { block_num: u16, data: Seq<u8> },
    ACK { block_num: u16 },
    ERROR { code: ErrorCode, msg: Seq<u8> },
    OACK { options: Seq<TftpOption> },
}

impl View for Packet {
    type V = PacketModel;

    open spec fn view(&self) -> PacketModel {
        match self {
            Packet::RRQ { filename, mode, options } => PacketModel::RRQ {
                filename: encode_utf8(filename@),
                mode: *mode,
                options: options@,
            },
            Packet::WRQ { filename, mode, options } => PacketModel::WRQ {
                filename: encode_utf8(filename@),
                mode: *mode,
                options: options@,
            },
            Packet::DATA { block_num, data } => PacketModel::DATA {
                block_num: *block_num,
                data: data@,
            },
            Packet::ACK(block_num) => PacketModel::ACK { block_num: *block_num },
            Packet::ERROR { code, msg } => PacketModel::ERROR {
                code: *code,
                msg: encode_utf8(msg@),
            },
            Packet::OACK { options } => PacketModel::OACK { options: options@ },
        }
    }
}

// ---------------------------------------------------------------
// The wire format, as a function of the packet model
// ---------------------------------------------------------------

/// The concatenated wire spellings of a list of options.
pub open spec fn opts_encoding(opts: Seq<TftpOption>) -> Seq<u8>
    decreases opts.len(),
{
    if opts.len() == 0 {
        Seq::empty()
    } else {
        opt_encoding(opts[0]) + opts_encoding(opts.skip(1))
    }
}

/// The exact bytes a packet occupies on the wire.
pub open spec fn spec_encode(p: PacketModel) -> Seq<u8> {
    match p {
        PacketModel::RRQ { filename, mode, options } => be16(1) + filename + seq![0u8]
            + mode_bytes(mode) + seq![0u8] + opts_encoding(options),
        PacketModel::WRQ { filename, mode, options } => be16(2) + filename + seq![0u8]
            + mode_bytes(mode) + seq![0u8] + opts_encoding(options),
        PacketModel::DATA { block_num, data } => be16(3) + be16(block_num) + data,
        PacketModel::ACK { block_num } => be16(4) + be16(block_num),
        PacketModel::ERROR { code, msg } => be16(5) + be16(error_code_num(code)) + msg
            + seq![0u8],
        PacketModel::OACK { options } => be16(6) + opts_encoding(options),
    }
}

/// Appending one option extends the encoding of a list of options.
pub proof fn lemma_opts_encoding_push(opts: Seq<TftpOption>, o: TftpOption)
    ensures
        opts_encoding(opts + seq![o]) =~= opts_encoding(opts) + opt_encoding(o),
    decreases opts.len(),
{
    if opts.len() == 0 {
        assert((opts + seq![o])[0] == o);
        assert((opts + seq![o]).skip(1) =~= Seq::<TftpOption>::empty());
        assert(opts_encoding(Seq::<TftpOption>::empty()) =~= Seq::<u8>::empty());
        assert(opts_encoding(opts) =~= Seq::<u8>::empty());
    } else {
        assert((opts + seq![o])[0] == opts[0]);
        assert((opts + seq![o]).skip(1) =~= opts.skip(1) + seq![o]);
        lemma_opts_encoding_push(opts.skip(1), o);
    }
}

// ---------------------------------------------------------------
// Encoders
// ---------------------------------------------------------------

fn push_mode(buf: &mut Vec<u8>, mode: TransferMode)
    ensures
        final(buf)@ == old(buf)@ + mode_bytes(mode),
{
    match mode {
        TransferMode::Octet => push_str_bytes(buf, "octet"),
        TransferMode::Netascii => push_str_bytes(buf, "netascii"),
        TransferMode::Mail => push_str_bytes(buf, "mail"),
    }
}

fn push_options(buf: &mut Vec<u8>, options: &[TftpOption])
    ensures
        final(buf)@ == old(buf)@ + opts_encoding(options@),
{
    let n = options.len();
    let mut i: usize = 0;
    while i < n
        invariant
            n == options@.len(),
            i <= n,
            buf@ =~= old(buf)@ + opts_encoding(options@.take(i as int)),
        decreases n - i,
    {
        let _ = options[i].write_to(buf);
        proof {
            lemma_opts_encoding_push(options@.take(i as int), options@[i as int]);
            assert(options@.take(i + 1) =~= options@.take(i as int) + seq![options@[i as int]]);
            assert(buf@ =~= old(buf)@ + opts_encoding(options@.take(i + 1)));
        }
        i += 1;
    }
    proof {
        assert(options@.take(n as int) =~= options@);
    }
}

/// Writes the wire form of a read or write request.
pub fn rw_packet_bytes(
    packet: OpCode,
    filename: &str,
    mode: TransferMode,
    options: &[TftpOption],
    buf: &mut Vec<u8>,
) -> (r: Result<(), PacketErr>)
    requires
        packet is RRQ || packet is WRQ,
    ensures
        r is Ok,
        final(buf)@ == old(buf)@ + be16(opcode_num(packet)) + filename.spec_bytes() + seq![0u8]
            + mode_bytes(mode) + seq![0u8] + opts_encoding(options@),
{
    push_be16(buf, packet.as_num());
    push_str_bytes(buf, filename);
    buf.push(0);
    push_mode(buf, mode);
    buf.push(0);
    push_options(buf, options);
    proof {
        assert(buf@ =~= old(buf)@ + be16(opcode_num(packet)) + filename.spec_bytes() + seq![0u8]
            + mode_bytes(mode) + seq![0u8] + opts_encoding(options@));
    }
    Ok(())
}

/// Writes the wire form of a DATA packet.
pub fn data_packet_bytes(block_num: u16, data: &[u8], buf: &mut Vec<u8>) -> (r: Result<
    (),
    PacketErr,
>)
    ensures
        r is Ok,
        final(buf)@ == old(buf)@ + be16(3) + be16(block_num) + data@,
{
    push_be16(buf, 3);
    push_be16(buf, block_num);
    push_bytes(buf, data);
    proof {
        assert(buf@ =~= old(buf)@ + be16(3) + be16(block_num) + data@);
    }
    Ok(())
}

/// Writes the wire form of an ACK packet.
pub fn ack_packet_bytes(block_num: u16, buf: &mut Vec<u8>) -> (r: Result<(), PacketErr>)
    ensures
        r is Ok,
        final(buf)@ == old(buf)@ + be16(4) + be16(block_num),
{
    push_be16(buf, 4);
    push_be16(buf, block_num);
    proof {
        assert(buf@ =~= old(buf)@ + be16(4) + be16(block_num));
    }
    Ok(())
}

/// Writes the wire form of an ERROR packet.
pub fn error_packet_bytes(code: ErrorCode, msg: &str, buf: &mut Vec<u8>) -> (r: Result<
    (),
    PacketErr,
>)
    ensures
        r is Ok,
        final(buf)@ == old(buf)@ + be16(5) + be16(error_code_num(code)) + msg.spec_bytes()
            + seq![0u8],
{
    push_be16(buf, 5);
    push_be16(buf, code.as_num());
    push_str_bytes(buf, msg);
    buf.push(0);
    proof {
        assert(buf@ =~= old(buf)@ + be16(5) + be16(error_code_num(code)) + msg.spec_bytes()
            + seq![0u8]);
    }
    Ok(())
}

/// Writes the wire form of an OACK packet.
pub fn oack_packet_bytes(options: &[TftpOption], buf: &mut Vec<u8>) -> (r: Result<(), PacketErr>)
    ensures
        r is Ok,
        final(buf)@ == old(buf)@ + be16(6) + opts_encoding(options@),
{
    push_be16(buf, 6);
    push_options(buf, options);
    proof {
        assert(buf@ =~= old(buf)@ + be16(6) + opts_encoding(options@));
    }
    Ok(())
}

// ---------------------------------------------------------------
// Decoding: NUL-terminated strings
// ---------------------------------------------------------------

/// Index of the first NUL byte in `b`, or -1 when there is none.
pub open spec fn index_of_nul(b: Seq<u8>) -> int
    decreases b.len(),
{
    if b.len() == 0 {
        -1
    } else if b[0] == 0 {
        0
    } else {
        let r = index_of_nul(b.skip(1));
        if r < 0 {
            -1
        } else {
            r + 1
        }
    }
}

/// What `index_of_nul` finds: the least index holding a NUL byte,
/// or a negative value when no byte is NUL.
pub proof fn lemma_index_of_nul(b: Seq<u8>)
    ensures
        index_of_nul(b) >= 0 ==> index_of_nul(b) < b.len() && b[index_of_nul(b)] == 0 && (forall|
            j: int,
        |
            0 <= j < index_of_nul(b) ==> b[j] != 0),
        index_of_nul(b) < 0 ==> forall|j: int| 0 <= j < b.len() ==> b[j] != 0,
    decreases b.len(),
{
    if b.len() == 0 {
    } else if b[0] == 0 {
    } else {
        let t = b.skip(1);
        lemma_index_of_nul(t);
        assert(forall|j: int| 0 <= j < t.len() ==> t[j] == b[j + 1]);
        let r = index_of_nul(t);
        if r >= 0 {
            assert(index_of_nul(b) == r + 1);
            assert(b[r + 1] == t[r]);
            assert forall|j: int| 0 <= j < r + 1 implies b[j] != 0 by {
                if j > 0 {
                    assert(t[j - 1] != 0);
                }
            }
        } else {
            assert(index_of_nul(b) == -1);
            assert forall|j: int| 0 <= j < b.len() implies b[j] != 0 by {
                if j > 0 {
                    assert(t[j - 1] != 0);
                }
            }
        }
    }
}

/// A NUL-free prefix followed by a NUL pins down where the first NUL
/// of the whole buffer is, and what lies on each side of it.
pub proof fn lemma_index_of_nul_concat(s: Seq<u8>, rest: Seq<u8>)
    requires
        forall|i: int| 0 <= i < s.len() ==> s[i] != 0,
    ensures
        index_of_nul(s + seq![0u8] + rest) == s.len(),
        (s + seq![0u8] + rest).take(s.len() as int) =~= s,
        (s + seq![0u8] + rest).skip(s.len() as int + 1) =~= rest,
    decreases s.len(),
{
    let b = s + seq![0u8] + rest;
    if s.len() == 0 {
        assert(b[0] == 0);
    } else {
        assert(b[0] == s[0]);
        lemma_index_of_nul_concat(s.skip(1), rest);
        assert(b.skip(1) =~= s.skip(1) + seq![0u8] + rest);
    }
}

/// One NUL-terminated string taken off the head of a buffer: the
/// bytes before the first NUL and the bytes after it, provided a NUL
/// exists and the prefix is UTF-8.
pub open spec fn spec_next_string(b: Seq<u8>) -> Option<(Seq<u8>, Seq<u8>)> {
    let r = index_of_nul(b);
    if 0 <= r < b.len() && valid_utf8(b.take(r)) {
        Some((b.take(r), b.skip(r + 1)))
    } else {
        None
    }
}

/// What remains in the iterator after one step: everything after the
/// first NUL, or the buffer unchanged when no NUL exists.
pub open spec fn spec_next_rest(b: Seq<u8>) -> Seq<u8> {
    let r = index_of_nul(b);
    if 0 <= r < b.len() {
        b.skip(r + 1)
    } else {
        b
    }
}

/// Taking a NUL-terminated string off a buffer built from a NUL-free
/// UTF-8 string yields that string and the tail.
pub proof fn lemma_next_string_of_terminated(s: Seq<u8>, rest: Seq<u8>)
    requires
        forall|i: int| 0 <= i < s.len() ==> s[i] != 0,
        valid_utf8(s),
    ensures
        spec_next_string(s + seq![0u8] + rest) == Some((s, rest)),
        spec_next_rest(s + seq![0u8] + rest) == rest,
{
    lemma_index_of_nul_concat(s, rest);
}

/// Index of the first NUL byte of a slice, if any.
fn find_nul(b: &[u8]) -> (r: Option<usize>)
    ensures
        r matches Some(i) ==> index_of_nul(b@) == i && i < b@.len(),
        r is None ==> index_of_nul(b@) < 0,
{
    let n = b.len();
    let mut i: usize = 0;
    while i < n
        invariant
            n == b@.len(),
            i <= n,
            forall|j: int| 0 <= j < i ==> b@[j] != 0,
        decreases n - i,
    {
        if b[i] == 0 {
            proof {
                lemma_index_of_nul(b@);
            }
            return Some(i);
        }
        i += 1;
    }
    proof {
        lemma_index_of_nul(b@);
    }
    None
}

/// Interprets a buffer as a series of NUL-terminated UTF-8 strings,
/// and walks them in order.
pub struct Strings<'a> {
    bytes: &'a [u8],
}

impl<'a> View for Strings<'a> {
    type V = Seq<u8>;

    closed spec fn view(&self) -> Seq<u8> {
        self.bytes@
    }
}

impl<'a> Strings<'a> {
    /// Starts walking the strings of `bytes`.
    pub fn from(bytes: &'a [u8]) -> (r: Self)
        ensures
            r@ == bytes@,
    {
        Strings { bytes }
    }

    /// The next NUL-terminated string, or nothing when no NUL is
    /// left or the bytes before it are not UTF-8. Either way the
    /// walk moves past the first NUL when one exists.
    pub fn next(&mut self) -> (r: Option<&'a str>)
        ensures
            final(self)@ == spec_next_rest(old(self)@),
            r matches Some(s) ==> (spec_next_string(old(self)@) matches Some(p) && p.0
                == s.spec_bytes() && p.1 == final(self)@),
            r is None ==> spec_next_string(old(self)@) is None,
    {
        let z = match find_nul(self.bytes) {
            Some(z) => z,
            None => {
                return None;
            },
        };
        let n = self.bytes.len();
        let s_bytes = vstd::slice::slice_subrange(self.bytes, 0, z);
        let rest = vstd::slice::slice_subrange(self.bytes, z + 1, n);
        self.bytes = rest;
        proof {
            assert(s_bytes@ =~= old(self)@.take(z as int));
            assert(rest@ =~= old(self)@.skip(z + 1));
        }
        match try_str_from_bytes(s_bytes) {
            Some(s) => Some(s),
            None => None,
        }
    }
}

// ---------------------------------------------------------------
// Decoding: packets
// ---------------------------------------------------------------

/// The options read from a buffer of (name, value) string pairs:
/// pairs that name no recognized option, or carry an unusable value,
/// are dropped, and the walk stops at the first missing string.
pub open spec fn spec_read_options(b: Seq<u8>) -> Seq<TftpOption>
    decreases b.len(),
{
    match spec_next_string(b) {
        None => Seq::empty(),
        Some((name, r1)) => match spec_next_string(r1) {
            None => Seq::empty(),
            Some((value, r2)) => {
                match opt_from_strings(name, value) {
                    Some(o) => seq![o] + spec_read_options(r2),
                    None => spec_read_options(r2),
                }
            },
        },
    }
}

/// Decoding of a read or write request body: at most 512 bytes, a
/// filename string, a mode string naming a known mode, then options.
pub open spec fn spec_decode_req(rest: Seq<u8>, write: bool) -> Result<PacketModel, PacketErr> {
    if rest.len() > 512 {
        Err(PacketErr::StrOutOfBounds)
    } else {
        match spec_next_string(rest) {
            None => Err(PacketErr::StrOutOfBounds),
            Some((filename, r1)) => match spec_next_string(r1) {
                None => Err(PacketErr::StrOutOfBounds),
                Some((mode_s, r2)) => match mode_from_bytes(mode_s) {
                    None => Err(PacketErr::UnsupportedField),
                    Some(mode) => if write {
                        Ok(
                            PacketModel::WRQ {
                                filename,
                                mode,
                                options: spec_read_options(r2),
                            },
                        )
                    } else {
                        Ok(
                            PacketModel::RRQ {
                                filename,
                                mode,
                                options: spec_read_options(r2),
                            },
                        )
                    },
                },
            },
        }
    }
}

/// Decoding of a DATA body: a block number, then the payload.
pub open spec fn spec_decode_data(rest: Seq<u8>) -> Result<PacketModel, PacketErr> {
    if rest.len() < 2 {
        Err(PacketErr::IOError)
    } else {
        Ok(
            PacketModel::DATA {
                block_num: be16_value(rest[0], rest[1]),
                data: rest.skip(2),
            },
        )
    }
}

/// Decoding of an ACK body: a block number; trailing bytes are
/// ignored.
pub open spec fn spec_decode_ack(rest: Seq<u8>) -> Result<PacketModel, PacketErr> {
    if rest.len() < 2 {
        Err(PacketErr::IOError)
    } else {
        Ok(PacketModel::ACK { block_num: be16_value(rest[0], rest[1]) })
    }
}

/// Decoding of an ERROR body: a code in 0..=8, then one message
/// string.
pub open spec fn spec_decode_error(rest: Seq<u8>) -> Result<PacketModel, PacketErr> {
    if rest.len() < 2 {
        Err(PacketErr::IOError)
    } else {
        let n = be16_value(rest[0], rest[1]);
        if n > 8 {
            Err(PacketErr::OpCodeOutOfBounds)
        } else {
            match spec_next_string(rest.skip(2)) {
                None => Err(PacketErr::StrOutOfBounds),
                Some((msg, _)) => Ok(PacketModel::ERROR { code: error_code_of(n), msg }),
            }
        }
    }
}

/// What any buffer decodes to: a packet model, or the error the
/// decoder reports.
pub open spec fn spec_decode(b: Seq<u8>) -> Result<PacketModel, PacketErr> {
    if b.len() < 2 {
        Err(PacketErr::IOError)
    } else {
        let op = be16_value(b[0], b[1]);
        let rest = b.skip(2);
        if op == 1 {
            spec_decode_req(rest, false)
        } else if op == 2 {
            spec_decode_req(rest, true)
        } else if op == 3 {
            spec_decode_data(rest)
        } else if op == 4 {
            spec_decode_ack(rest)
        } else if op == 5 {
            spec_decode_error(rest)
        } else if op == 6 {
            Ok(PacketModel::OACK { options: spec_read_options(rest) })
        } else {
            Err(PacketErr::OpCodeOutOfBounds)
        }
    }
}

/// Reads the (name, value) string pairs left in `strings` as options.
pub fn read_options(strings: Strings<'_>) -> (r: Vec<TftpOption>)
    ensures
        r@ == spec_read_options(strings@),
{
    let ghost s0 = strings@;
    let mut strings = strings;
    let mut options: Vec<TftpOption> = Vec::new();
    loop
        invariant_except_break
            spec_read_options(s0) =~= options@ + spec_read_options(strings@),
        ensures
            options@ =~= spec_read_options(s0),
        decreases strings@.len(),
    {
        let ghost pre = strings@;
        let name = match strings.next() {
            Some(s) => s,
            None => {
                proof {
                    assert(spec_read_options(pre) =~= Seq::<TftpOption>::empty());
                }
                break;
            },
        };
        let ghost mid = strings@;
        let value = match strings.next() {
            Some(s) => s,
            None => {
                proof {
                    assert(spec_read_options(pre) =~= Seq::<TftpOption>::empty());
                }
                break;
            },
        };
        let ghost prev_opts = options@;
        match TftpOption::try_from(name, value) {
            Some(o) => {
                options.push(o);
                proof {
                    assert(spec_read_options(pre) =~= seq![o] + spec_read_options(strings@));
                    assert(options@ + spec_read_options(strings@) =~= prev_opts + (seq![o]
                        + spec_read_options(strings@)));
                }
            },
            None => {
                proof {
                    assert(spec_read_options(pre) =~= spec_read_options(strings@));
                }
            },
        }
    }
    options
}

/// Reads a read-request body.
pub fn read_rrq_packet(bytes: &[u8]) -> (r: Result<Packet, PacketErr>)
    ensures
        spec_decode_req(bytes@, false) matches Ok(m) ==> (r matches Ok(p) && p@ == m),
        spec_decode_req(bytes@, false) matches Err(e) ==> r == Err::<Packet, PacketErr>(e),
{
    read_req_packet(bytes, false)
}

/// Reads a write-request body.
pub fn read_wrq_packet(bytes: &[u8]) -> (r: Result<Packet, PacketErr>)
    ensures
        spec_decode_req(bytes@, true) matches Ok(m) ==> (r matches Ok(p) && p@ == m),
        spec_decode_req(bytes@, true) matches Err(e) ==> r == Err::<Packet, PacketErr>(e),
{
    read_req_packet(bytes, true)
}

fn read_req_packet(bytes: &[u8], write: bool) -> (r: Result<Packet, PacketErr>)
    ensures
        spec_decode_req(bytes@, write) matches Ok(m) ==> (r matches Ok(p) && p@ == m),
        spec_decode_req(bytes@, write) matches Err(e) ==> r == Err::<Packet, PacketErr>(e),
{
    if bytes.len() > 512 {
        return Err(PacketErr::StrOutOfBounds);
    }
    let mut strings = Strings::from(bytes);
    let filename_s = match strings.next() {
        Some(s) => s,
        None => {
            return Err(PacketErr::StrOutOfBounds);
        },
    };
    let filename = filename_s.to_owned();
    let mode_s = match strings.next() {
        Some(s) => s,
        None => {
            return Err(PacketErr::StrOutOfBounds);
        },
    };
    let mode = match TransferMode::try_from(mode_s) {
        Ok(m) => m,
        Err(e) => {
            return Err(e);
        },
    };
    let options = read_options(strings);
    if write {
        Ok(Packet::WRQ { filename, mode, options })
    } else {
        Ok(Packet::RRQ { filename, mode, options })
    }
}

/// Reads a DATA body.
pub fn read_data_packet(bytes: &[u8]) -> (r: Result<Packet, PacketErr>)
    ensures
        spec_decode_data(bytes@) matches Ok(m) ==> (r matches Ok(p) && p@ == m),
        spec_decode_data(bytes@) matches Err(e) ==> r == Err::<Packet, PacketErr>(e),
{
    if bytes.len() < 2 {
        return Err(PacketErr::IOError);
    }
    let block_num = read_be16(bytes[0], bytes[1]);
    let data = vstd::slice::slice_to_vec(vstd::slice::slice_subrange(bytes, 2, bytes.len()));
    proof {
        assert(data@ =~= bytes@.skip(2));
    }
    Ok(Packet::DATA { block_num, data })
}

/// Reads an ACK body.
pub fn read_ack_packet(bytes: &[u8]) -> (r: Result<Packet, PacketErr>)
    ensures
        spec_decode_ack(bytes@) matches Ok(m) ==> (r matches Ok(p) && p@ == m),
        spec_decode_ack(bytes@) matches Err(e) ==> r == Err::<Packet, PacketErr>(e),
{
    if bytes.len() < 2 {
        return Err(PacketErr::IOError);
    }
    Ok(Packet::ACK(read_be16(bytes[0], bytes[1])))
}

/// Reads an ERROR body.
pub fn read_error_packet(bytes: &[u8]) -> (r: Result<Packet, PacketErr>)
    ensures
        spec_decode_error(bytes@) matches Ok(m) ==> (r matches Ok(p) && p@ == m),
        spec_decode_error(bytes@) matches Err(e) ==> r == Err::<Packet, PacketErr>(e),
{
    if bytes.len() < 2 {
        return Err(PacketErr::IOError);
    }
    let n = read_be16(bytes[0], bytes[1]);
    let code = match ErrorCode::from_u16(n) {
        Ok(c) => c,
        Err(e) => {
            return Err(e);
        },
    };
    let mut strings = Strings::from(vstd::slice::slice_subrange(bytes, 2, bytes.len()));
    proof {
        assert(strings@ =~= bytes@.skip(2));
    }
    let msg_s = match strings.next() {
        Some(s) => s,
        None => {
            return Err(PacketErr::StrOutOfBounds);
        },
    };
    Ok(Packet::ERROR { code, msg: msg_s.to_owned() })
}

/// Reads an OACK body.
pub fn read_oack_packet(bytes: &[u8]) -> (r: Result<Packet, PacketErr>)
    ensures
        r matches Ok(p) && p@ == (PacketModel::OACK { options: spec_read_options(bytes@) }),
{
    let strings = Strings::from(bytes);
    let options = read_options(strings);
    Ok(Packet::OACK { options })
}

impl Packet {
    /// The ERROR packet carrying the given code and its default
    /// message.
    pub fn from(code: ErrorCode) -> (r: Packet)
        ensures
            r@ matches PacketModel::ERROR { code: c, msg } && c == code && msg == encode_utf8(
                default_msg_view(code),
            ),
    {
        let msg = code.to_string();
        Packet::ERROR { code, msg }
    }

    /// Creates and returns a packet parsed from its byte
    /// representation.
    pub fn read(bytes: &[u8]) -> (r: Result<Packet, PacketErr>)
        ensures
            spec_decode(bytes@) matches Ok(m) ==> (r matches Ok(p) && p@ == m),
            spec_decode(bytes@) matches Err(e) ==> r == Err::<Packet, PacketErr>(e),
    {
        if bytes.len() < 2 {
            return Err(PacketErr::IOError);
        }
        let op_num = read_be16(bytes[0], bytes[1]);
        let op = match OpCode::from_u16(op_num) {
            Ok(op) => op,
            Err(e) => {
                return Err(e);
            },
        };
        let rest = vstd::slice::slice_subrange(bytes, 2, bytes.len());
        proof {
            assert(rest@ =~= bytes@.skip(2));
        }
        match op {
            OpCode::RRQ => read_rrq_packet(rest),
            OpCode::WRQ => read_wrq_packet(rest),
            OpCode::DATA => read_data_packet(rest),
            OpCode::ACK => read_ack_packet(rest),
            OpCode::ERROR => read_error_packet(rest),
            OpCode::OACK => read_oack_packet(rest),
        }
    }

    /// Appends the packet's wire form to `buf`.
    pub fn write_bytes_to(&self, buf: &mut Vec<u8>) -> (r: Result<(), PacketErr>)
        ensures
            r is Ok,
            final(buf)@ == old(buf)@ + spec_encode(self@),
    {
        match self {
            Packet::RRQ { filename, mode, options } => rw_packet_bytes(
                OpCode::RRQ,
                filename.as_str(),
                *mode,
                options.as_slice(),
                buf,
            ),
            Packet::WRQ { filename, mode, options } => rw_packet_bytes(
                OpCode::WRQ,
                filename.as_str(),
                *mode,
                options.as_slice(),
                buf,
            ),
            Packet::DATA { block_num, data } => data_packet_bytes(
                *block_num,
                data.as_slice(),
                buf,
            ),
            Packet::ACK(block_num) => ack_packet_bytes(*block_num, buf),
            Packet::ERROR { code, msg } => error_packet_bytes(*code, msg.as_str(), buf),
            Packet::OACK { options } => oack_packet_bytes(options.as_slice(), buf),
        }
    }

    /// Returns a buffer containing the packet's byte representation.
    pub fn to_bytes(&self) -> (r: Result<Vec<u8>, PacketErr>)
        ensures
            r matches Ok(v) && v@ == spec_encode(self@),
    {
        let mut buf: Vec<u8> = Vec::new();
        let _ = self.write_bytes_to(&mut buf);
        proof {
            assert(buf@ =~= spec_encode(self@));
        }
        Ok(buf)
    }

    /// Consumes the packet and returns the packet in byte
    /// representation.
    pub fn into_bytes(self) -> (r: Result<Vec<u8>, PacketErr>)
        ensures
            r matches Ok(v) && v@ == spec_encode(self@),
    {
        self.to_bytes()
    }

    /// Writes the packet bytes to the given slice, returning the
    /// number of bytes written; a slice too small for the whole
    /// packet receives as much of it as fits and the call fails.
    pub fn write_to_slice(&self, sl: &mut [u8]) -> (r: Result<usize, PacketErr>)
        ensures
            final(sl)@.len() == old(sl)@.len(),
            spec_encode(self@).len() <= old(sl)@.len() ==> r == Ok::<usize, PacketErr>(
                spec_encode(self@).len() as usize,
            ) && final(sl)@ =~= spec_encode(self@) + old(sl)@.skip(spec_encode(self@).len() as int),
            spec_encode(self@).len() > old(sl)@.len() ==> r == Err::<usize, PacketErr>(
                PacketErr::IOError,
            ),
    {
        let v = match self.to_bytes() {
            Ok(v) => v,
            Err(e) => {
                return Err(e);
            },
        };
        let fits = v.len() <= sl.len();
        let k = if fits {
            v.len()
        } else {
            sl.len()
        };
        let mut i: usize = 0;
        while i < k
        invariant
                k <= v@.len(),
                k <= sl@.len(),
                i <= k,
                v@ == spec_encode(self@),
                sl@.len() == old(sl)@.len(),
                forall|j: int| 0 <= j < i ==> sl@[j] == v@[j],
                forall|j: int| i <= j < sl@.len() ==> sl@[j] == old(sl)@[j],
            decreases k - i,
        {
            sl[i] = v[i];
            i += 1;
        }
        if fits {
            proof {
                assert(sl@ =~= spec_encode(self@) + old(sl)@.skip(spec_encode(self@).len() as int));
            }
            Ok(v.len())
        } else {
            Err(PacketErr::IOError)
        }
    }
}

} // verus!
