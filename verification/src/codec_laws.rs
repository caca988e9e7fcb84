//! The codec's round-trip laws: a well-formed packet survives
//! encoding and decoding unchanged, and whatever decodes successfully
//! re-encodes to a buffer that decodes again.

use vstd::prelude::*;
use vstd::utf8::valid_utf8;
use crate::options::{
    lemma_opt_name_ascii, lemma_opt_round_trip, opt_encoding, opt_from_strings, opt_name,
    opt_value, opt_wf, TftpOption,
};
use crate::packet::{
    error_code_num, error_code_of, lemma_mode_round_trip, lemma_next_string_of_terminated,
    mode_bytes, mode_from_bytes, opts_encoding, spec_decode, spec_decode_ack, spec_decode_data,
    spec_decode_error, spec_decode_req, spec_encode, spec_next_string, spec_read_options,
    PacketModel,
};
use crate::wire::{
    be16, be16_value, dec_digits, lemma_be16_round_trip, lemma_dec_digits_ascii,
};

verus! {

/// No byte of the string is NUL.
pub open spec fn no_nul(s: Seq<u8>) -> bool {
    forall|i: int| 0 <= i < s.len() ==> s[i] != 0
}

/// A packet value the wire format can carry faithfully: its strings
/// are NUL-free UTF-8 and each option value lies in its kind's range.
pub open spec fn packet_wf(p: PacketModel) -> bool {
    match p {
        PacketModel::RRQ { filename, mode, options } => no_nul(filename) && valid_utf8(filename)
            && (forall|i: int| 0 <= i < options.len() ==> opt_wf(#[trigger] options[i])),
        PacketModel::WRQ { filename, mode, options } => no_nul(filename) && valid_utf8(filename)
            && (forall|i: int| 0 <= i < options.len() ==> opt_wf(#[trigger] options[i])),
        PacketModel::DATA { .. } => true,
        PacketModel::ACK { .. } => true,
        PacketModel::ERROR { code, msg } => no_nul(msg) && valid_utf8(msg),
        PacketModel::OACK { options } => forall|i: int|
            0 <= i < options.len() ==> opt_wf(#[trigger] options[i]),
    }
}

/// The size envelope the decoder enforces: a request fits in 512
/// bytes after its opcode; every other packet has no cap.
pub open spec fn in_envelope(p: PacketModel) -> bool {
    match p {
        PacketModel::RRQ { .. } => spec_encode(p).len() <= 514,
        PacketModel::WRQ { .. } => spec_encode(p).len() <= 514,
        _ => true,
    }
}

/// Reading back the concatenated wire spellings of well-formed
/// options yields exactly those options.
pub proof fn lemma_read_options_round_trip(opts: Seq<TftpOption>)
    requires
        forall|i: int| 0 <= i < opts.len() ==> opt_wf(#[trigger] opts[i]),
    ensures
        spec_read_options(opts_encoding(opts)) =~= opts,
    decreases opts.len(),
{
    if opts.len() == 0 {
        assert(opts_encoding(opts) =~= Seq::<u8>::empty());
        crate::packet::lemma_index_of_nul(Seq::<u8>::empty());
        assert(spec_next_string(Seq::<u8>::empty()) is None);
    } else {
        let o = opts[0];
        let tail = opts.skip(1);
        let name = opt_name(o);
        let digits = dec_digits(opt_value(o));
        let rest = opts_encoding(tail);
        assert(opts_encoding(opts) == opt_encoding(o) + rest);
        assert(opt_encoding(o) + rest =~= name + seq![0u8] + (digits + seq![0u8] + rest));
        lemma_opt_name_ascii(o);
        lemma_next_string_of_terminated(name, digits + seq![0u8] + rest);
        lemma_dec_digits_ascii(opt_value(o));
        assert(digits + seq![0u8] + rest =~= digits + seq![0u8] + rest);
        lemma_next_string_of_terminated(digits, rest);
        lemma_opt_round_trip(o);
        assert(opt_from_strings(name, digits) == Some(o));
        assert(forall|i: int| 0 <= i < tail.len() ==> opt_wf(#[trigger] tail[i]));
        lemma_read_options_round_trip(tail);
        assert(spec_read_options(opts_encoding(opts)) =~= seq![o] + spec_read_options(rest));
    }
}

/// Decoding what the encoder wrote for a well-formed packet within
/// the size envelope gives that packet back.
pub proof fn lemma_codec_round_trip(p: PacketModel)
    requires
        packet_wf(p),
        in_envelope(p),
    ensures
        spec_decode(spec_encode(p)) == Ok::<PacketModel, crate::packet::PacketErr>(p),
{
    let b = spec_encode(p);
    match p {
        PacketModel::RRQ { filename, mode, options } => {
            lemma_req_round_trip(p, filename, mode, options, 1);
        },
        PacketModel::WRQ { filename, mode, options } => {
            lemma_req_round_trip(p, filename, mode, options, 2);
        },
        PacketModel::DATA { block_num, data } => {
            assert(b[0] == be16(3)[0] && b[1] == be16(3)[1]);
            lemma_be16_round_trip(3);
            assert(be16_value(b[0], b[1]) == 3);
            let rest = b.skip(2);
            assert(rest =~= be16(block_num) + data);
            assert(rest[0] == be16(block_num)[0] && rest[1] == be16(block_num)[1]);
            lemma_be16_round_trip(block_num);
            assert(rest.skip(2) =~= data);
        },
        PacketModel::ACK { block_num } => {
            assert(b[0] == be16(4)[0] && b[1] == be16(4)[1]);
            lemma_be16_round_trip(4);
            let rest = b.skip(2);
            assert(rest =~= be16(block_num));
            assert(rest[0] == be16(block_num)[0] && rest[1] == be16(block_num)[1]);
            lemma_be16_round_trip(block_num);
        },
        PacketModel::ERROR { code, msg } => {
            assert(b[0] == be16(5)[0] && b[1] == be16(5)[1]);
            lemma_be16_round_trip(5);
            let rest = b.skip(2);
            assert(rest =~= be16(error_code_num(code)) + (msg + seq![0u8]));
            assert(rest[0] == be16(error_code_num(code))[0] && rest[1] == be16(
                error_code_num(code),
            )[1]);
            lemma_be16_round_trip(error_code_num(code));
            assert(be16_value(rest[0], rest[1]) == error_code_num(code));
            assert(error_code_num(code) <= 8);
            assert(rest.skip(2) =~= msg + seq![0u8] + Seq::<u8>::empty());
            lemma_next_string_of_terminated(msg, Seq::<u8>::empty());
            assert(error_code_of(error_code_num(code)) == code);
        },
        PacketModel::OACK { options } => {
            assert(b[0] == be16(6)[0] && b[1] == be16(6)[1]);
            lemma_be16_round_trip(6);
            let rest = b.skip(2);
            assert(rest =~= opts_encoding(options));
            lemma_read_options_round_trip(options);
        },
    }
}

#[verifier::rlimit(60)]
proof fn lemma_req_round_trip(
    p: PacketModel,
    filename: Seq<u8>,
    mode: crate::packet::TransferMode,
    options: Seq<TftpOption>,
    op: u16,
)
    requires
        packet_wf(p),
        in_envelope(p),
        op == 1 ==> p == (PacketModel::RRQ { filename, mode, options }),
        op == 2 ==> p == (PacketModel::WRQ { filename, mode, options }),
        op == 1 || op == 2,
    ensures
        spec_decode(spec_encode(p)) == Ok::<PacketModel, crate::packet::PacketErr>(p),
{
    let b = spec_encode(p);
    assert(b =~= be16(op) + (filename + seq![0u8] + (mode_bytes(mode) + seq![0u8]
        + opts_encoding(options))));
    assert(b[0] == be16(op)[0] && b[1] == be16(op)[1]);
    lemma_be16_round_trip(op);
    assert(be16_value(b[0], b[1]) == op);
    let rest = b.skip(2);
    assert(rest =~= filename + seq![0u8] + (mode_bytes(mode) + seq![0u8]
        + opts_encoding(options)));
    assert(rest.len() <= 512);
    lemma_next_string_of_terminated(filename, mode_bytes(mode) + seq![0u8] + opts_encoding(
        options,
    ));
    lemma_mode_round_trip(mode);
    lemma_next_string_of_terminated(mode_bytes(mode), opts_encoding(options));
    assert(mode_from_bytes(mode_bytes(mode)) == Some(mode));
    lemma_read_options_round_trip(options);
}

/// An option read off the wire is well formed, and spells back into
/// no more bytes than the strings it was read from.
pub proof fn lemma_opt_from_strings_wf(name: Seq<u8>, value: Seq<u8>, o: TftpOption)
    requires
        opt_from_strings(name, value) == Some(o),
    ensures
        opt_wf(o),
        opt_name(o).len() == name.len(),
        dec_digits(opt_value(o)).len() <= value.len(),
{
    if crate::wire::bytes_eq_icase(name, crate::options::name_blksize()) {
        let v = crate::wire::parse_dec(value, 0xffff)->Some_0;
        crate::wire::lemma_parse_print_shrinks(value, 0xffff, v);
    } else if crate::wire::bytes_eq_icase(name, crate::options::name_timeout()) {
        let v = crate::wire::parse_dec(value, 0xff)->Some_0;
        crate::wire::lemma_parse_print_shrinks(value, 0xff, v);
    } else if crate::wire::bytes_eq_icase(name, crate::options::name_tsize()) {
        let v = crate::wire::parse_dec(value, u64::MAX as int)->Some_0;
        crate::wire::lemma_parse_print_shrinks(value, u64::MAX as int, v);
    } else {
        let v = crate::wire::parse_dec(value, 0xffff)->Some_0;
        crate::wire::lemma_parse_print_shrinks(value, 0xffff, v);
    }
}

/// The options read from a buffer are well formed and re-encode into
/// no more bytes than the buffer held.
pub proof fn lemma_read_options_wf_shrink(b: Seq<u8>)
    ensures
        forall|i: int|
            0 <= i < spec_read_options(b).len() ==> opt_wf(#[trigger] spec_read_options(b)[i]),
        opts_encoding(spec_read_options(b)).len() <= b.len(),
    decreases b.len(),
{
    match spec_next_string(b) {
        None => {
            assert(spec_read_options(b) =~= Seq::<TftpOption>::empty());
            assert(opts_encoding(Seq::<TftpOption>::empty()) =~= Seq::<u8>::empty());
        },
        Some((name, r1)) => {
            match spec_next_string(r1) {
                None => {
                    assert(spec_read_options(b) =~= Seq::<TftpOption>::empty());
                    assert(opts_encoding(Seq::<TftpOption>::empty()) =~= Seq::<u8>::empty());
                },
                Some((value, r2)) => {
                    lemma_read_options_wf_shrink(r2);
                    assert(name.len() + 1 + r1.len() == b.len());
                    assert(value.len() + 1 + r2.len() == r1.len());
                    match opt_from_strings(name, value) {
                        Some(o) => {
                            lemma_opt_from_strings_wf(name, value, o);
                            let tail = spec_read_options(r2);
                            assert(spec_read_options(b) == seq![o] + tail);
                            assert((seq![o] + tail)[0] == o);
                            assert((seq![o] + tail).skip(1) =~= tail);
                            assert(opts_encoding(seq![o] + tail) == opt_encoding(o)
                                + opts_encoding(tail));
                            assert(opt_encoding(o).len() == opt_name(o).len() + 1 + dec_digits(
                                opt_value(o),
                            ).len() + 1);
                        },
                        None => {
                        },
                    }
                },
            }
        },
    }
}

/// Anything the decoder accepts is well formed and within the size
/// envelope, so its re-encoding is accepted too.
pub proof fn lemma_decode_wf(b: Seq<u8>)
    ensures
        spec_decode(b) matches Ok(p) ==> packet_wf(p) && in_envelope(p),
{
    if b.len() < 2 {
    } else {
        let op = be16_value(b[0], b[1]);
        let rest = b.skip(2);
        if op == 1 || op == 2 {
            lemma_decode_req_wf(rest, op == 2);
            match spec_decode_req(rest, op == 2) {
                Ok(p) => {
                    assert(spec_decode(b) == Ok::<PacketModel, crate::packet::PacketErr>(p));
                },
                Err(_) => {
                },
            }
        } else if op == 5 {
            if rest.len() >= 2 && be16_value(rest[0], rest[1]) <= 8 {
                crate::packet::lemma_index_of_nul(rest.skip(2));
                match spec_next_string(rest.skip(2)) {
                    Some((msg, _)) => {
                        let r = crate::packet::index_of_nul(rest.skip(2));
                        assert(msg =~= rest.skip(2).take(r));
                        assert(no_nul(msg));
                    },
                    None => {
                    },
                }
            }
        } else if op == 6 {
            lemma_read_options_wf_shrink(rest);
        }
    }
}

proof fn lemma_decode_req_wf(rest: Seq<u8>, write: bool)
    ensures
        spec_decode_req(rest, write) matches Ok(p) ==> packet_wf(p) && in_envelope(p),
{
    if rest.len() > 512 {
    } else {
        crate::packet::lemma_index_of_nul(rest);
        match spec_next_string(rest) {
            None => {
            },
            Some((filename, r1)) => {
                let r = crate::packet::index_of_nul(rest);
                assert(filename =~= rest.take(r));
                assert(no_nul(filename));
                assert(filename.len() + 1 + r1.len() == rest.len());
                match spec_next_string(r1) {
                    None => {
                    },
                    Some((mode_s, r2)) => {
                        assert(mode_s.len() + 1 + r2.len() == r1.len());
                        match mode_from_bytes(mode_s) {
                            None => {
                            },
                            Some(mode) => {
                                assert(mode_bytes(mode).len() == mode_s.len());
                                lemma_read_options_wf_shrink(r2);
                                let options = spec_read_options(r2);
                                let p = if write {
                                    PacketModel::WRQ { filename, mode, options }
                                } else {
                                    PacketModel::RRQ { filename, mode, options }
                                };
                                assert(spec_encode(p).len() == 2 + filename.len() + 1
                                    + mode_bytes(mode).len() + 1 + opts_encoding(options).len());
                                assert(spec_encode(p).len() <= 514);
                            },
                        }
                    },
                }
            },
        }
    }
}

/// Whatever decodes successfully re-encodes to a buffer the decoder
/// accepts, and to the same packet.
pub proof fn lemma_decode_then_encode_accepted(b: Seq<u8>)
    ensures
        spec_decode(b) matches Ok(p) ==> spec_decode(spec_encode(p)) == Ok::<
            PacketModel,
            crate::packet::PacketErr,
        >(p),
{
    lemma_decode_wf(b);
    match spec_decode(b) {
        Ok(p) => {
            lemma_codec_round_trip(p);
        },
        Err(_) => {
        },
    }
}

} // verus!
