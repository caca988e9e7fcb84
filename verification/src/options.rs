//! TFTP transfer options: the four recognized option kinds, how an
//! option is spelled on the wire, and how a (name, value) string pair
//! read from the wire is turned back into an option.

use vstd::prelude::*;
use vstd::string::StringSliceAdditionalSpecFns;
use crate::wire::{
    bytes_eq_icase, dec_digits, eq_icase, parse_bounded_bytes, parse_dec, push_decimal,
    push_str_bytes,
};

verus! {

/// Largest block size the `blksize` option may carry.
pub const MAX_BLOCKSIZE: u16 = 65464;

/// A recognized TFTP option with its value.
#[derive(PartialEq, Eq, Structural, Clone, Copy, Debug)]
pub enum TftpOption {
    Blocksize(u16),
    TransferSize(u64),
    Timeout(u8),
    WindowSize(u16),
}

/// The wire spelling of the `blksize` option name.
pub open spec fn name_blksize() -> Seq<u8> {
    "blksize".spec_bytes()
}

/// The wire spelling of the `timeout` option name.
pub open spec fn name_timeout() -> Seq<u8> {
    "timeout".spec_bytes()
}

/// The wire spelling of the `tsize` option name.
pub open spec fn name_tsize() -> Seq<u8> {
    "tsize".spec_bytes()
}

/// The wire spelling of the `windowsize` option name.
pub open spec fn name_windowsize() -> Seq<u8> {
    "windowsize".spec_bytes()
}

/// The concrete bytes of the four option names.
pub proof fn lemma_option_name_bytes()
    ensures
        name_blksize() =~= seq![0x62u8, 0x6c, 0x6b, 0x73, 0x69, 0x7a, 0x65],
        name_timeout() =~= seq![0x74u8, 0x69, 0x6d, 0x65, 0x6f, 0x75, 0x74],
        name_tsize() =~= seq![0x74u8, 0x73, 0x69, 0x7a, 0x65],
        name_windowsize() =~= seq![0x77u8, 0x69, 0x6e, 0x64, 0x6f, 0x77, 0x73, 0x69, 0x7a, 0x65],
{
    reveal_strlit("blksize");
    reveal_strlit("timeout");
    reveal_strlit("tsize");
    reveal_strlit("windowsize");
    broadcast use vstd::string::group_string_axioms;

    assert(vstd::string::is_ascii("blksize"));
    assert(vstd::string::is_ascii("timeout"));
    assert(vstd::string::is_ascii("tsize"));
    assert(vstd::string::is_ascii("windowsize"));
}

/// The option name an option is written under.
pub open spec fn opt_name(o: TftpOption) -> Seq<u8> {
    match o {
        TftpOption::Blocksize(_) => name_blksize(),
        TftpOption::TransferSize(_) => name_tsize(),
        TftpOption::Timeout(_) => name_timeout(),
        TftpOption::WindowSize(_) => name_windowsize(),
    }
}

/// The numeric value an option carries.
pub open spec fn opt_value(o: TftpOption) -> nat {
    match o {
        TftpOption::Blocksize(v) => v as nat,
        TftpOption::TransferSize(v) => v as nat,
        TftpOption::Timeout(v) => v as nat,
        TftpOption::WindowSize(v) => v as nat,
    }
}

/// An option's value lies in the range its kind admits on the wire.
pub open spec fn opt_wf(o: TftpOption) -> bool {
    match o {
        TftpOption::Blocksize(v) => 8 <= v <= MAX_BLOCKSIZE,
        TftpOption::TransferSize(_) => true,
        TftpOption::Timeout(_) => true,
        TftpOption::WindowSize(v) => v >= 1,
    }
}

/// How an option is spelled on the wire: its name, a NUL, its value
/// in decimal ASCII, a NUL.
pub open spec fn opt_encoding(o: TftpOption) -> Seq<u8> {
    opt_name(o) + seq![0u8] + dec_digits(opt_value(o)) + seq![0u8]
}

/// The option a (name, value) pair of wire strings stands for, if any:
/// names match up to ASCII case, values are decimal, and a value out
/// of its kind's range makes the pair stand for nothing.
pub open spec fn opt_from_strings(name: Seq<u8>, value: Seq<u8>) -> Option<TftpOption> {
    if bytes_eq_icase(name, name_blksize()) {
        match parse_dec(value, 0xffff) {
            Some(v) => if 8 <= v <= MAX_BLOCKSIZE {
                Some(TftpOption::Blocksize(v as u16))
            } else {
                None
            },
            None => None,
        }
    } else if bytes_eq_icase(name, name_timeout()) {
        match parse_dec(value, 0xff) {
            Some(v) => Some(TftpOption::Timeout(v as u8)),
            None => None,
        }
    } else if bytes_eq_icase(name, name_tsize()) {
        match parse_dec(value, u64::MAX as int) {
            Some(v) => Some(TftpOption::TransferSize(v as u64)),
            None => None,
        }
    } else if bytes_eq_icase(name, name_windowsize()) {
        match parse_dec(value, 0xffff) {
            Some(v) => if v >= 1 {
                Some(TftpOption::WindowSize(v as u16))
            } else {
                None
            },
            None => None,
        }
    } else {
        None
    }
}

/// Option names hold printable ASCII bytes alone: no NUL byte, and
/// each is valid UTF-8.
pub proof fn lemma_opt_name_ascii(o: TftpOption)
    ensures
        forall|i: int| 0 <= i < opt_name(o).len() ==> 0 < #[trigger] opt_name(o)[i] < 0x80,
        vstd::utf8::valid_utf8(opt_name(o)),
{
    lemma_option_name_bytes();
    crate::wire::lemma_ascii_bytes_valid_utf8(opt_name(o));
}

/// No two different option names match, even up to ASCII case.
pub proof fn lemma_opt_names_distinct()
    ensures
        !bytes_eq_icase(name_timeout(), name_blksize()),
        !bytes_eq_icase(name_tsize(), name_blksize()),
        !bytes_eq_icase(name_tsize(), name_timeout()),
        !bytes_eq_icase(name_windowsize(), name_blksize()),
        !bytes_eq_icase(name_windowsize(), name_timeout()),
        !bytes_eq_icase(name_windowsize(), name_tsize()),
{
    lemma_option_name_bytes();
    assert(crate::wire::ascii_lower(name_timeout()[0]) != crate::wire::ascii_lower(
        name_blksize()[0],
    ));
    assert(crate::wire::ascii_lower(name_tsize()[1]) != crate::wire::ascii_lower(
        name_timeout()[1],
    ));
}

/// A `blksize` value outside `[8, MAX_BLOCKSIZE]` is dropped: the
/// pair stands for no option at all.
pub proof fn lemma_blocksize_out_of_bounds_dropped(name: Seq<u8>, value: Seq<u8>)
    requires
        bytes_eq_icase(name, name_blksize()),
        parse_dec(value, 0xffff) matches Some(v) ==> !(8 <= v <= MAX_BLOCKSIZE),
    ensures
        opt_from_strings(name, value) is None,
{
}

/// A well-formed option written to the wire and read back is itself:
/// its name matches its own spelling and no other, and its decimal
/// value parses back within the range its kind admits.
pub proof fn lemma_opt_round_trip(o: TftpOption)
    requires
        opt_wf(o),
    ensures
        opt_from_strings(opt_name(o), dec_digits(opt_value(o))) == Some(o),
{
    lemma_opt_names_distinct();
    crate::wire::lemma_dec_digits_are_digits(opt_value(o));
    crate::wire::lemma_dec_digits_value(opt_value(o));
}

impl TftpOption {
    /// Appends the option's wire spelling to `buf`.
    pub fn write_to(&self, buf: &mut Vec<u8>) -> (r: Result<(), ()>)
        ensures
            r is Ok,
            final(buf)@ == old(buf)@ + opt_encoding(*self),
    {
        match *self {
            TftpOption::Blocksize(v) => {
                push_str_bytes(buf, "blksize");
                buf.push(0);
                push_decimal(buf, v as u64);
            },
            TftpOption::TransferSize(v) => {
                push_str_bytes(buf, "tsize");
                buf.push(0);
                push_decimal(buf, v);
            },
            TftpOption::Timeout(v) => {
                push_str_bytes(buf, "timeout");
                buf.push(0);
                push_decimal(buf, v as u64);
            },
            TftpOption::WindowSize(v) => {
                push_str_bytes(buf, "windowsize");
                buf.push(0);
                push_decimal(buf, v as u64);
            },
        }
        buf.push(0);
        proof {
            assert(buf@ =~= old(buf)@ + opt_encoding(*self));
        }
        Ok(())
    }

    /// The option a (name, value) pair of strings stands for, if any.
    pub fn try_from(name: &str, value: &str) -> (r: Option<TftpOption>)
        ensures
            r == opt_from_strings(name.spec_bytes(), value.spec_bytes()),
    {
        let nb = name.as_bytes();
        let vb = value.as_bytes();
        if eq_icase(nb, "blksize".as_bytes()) {
            match parse_bounded_bytes(vb, 0xffff) {
                Some(v) => {
                    if 8 <= v && v <= MAX_BLOCKSIZE as u64 {
                        Some(TftpOption::Blocksize(v as u16))
                    } else {
                        None
                    }
                },
                None => None,
            }
        } else if eq_icase(nb, "timeout".as_bytes()) {
            match parse_bounded_bytes(vb, 0xff) {
                Some(v) => Some(TftpOption::Timeout(v as u8)),
                None => None,
            }
        } else if eq_icase(nb, "tsize".as_bytes()) {
            match parse_bounded_bytes(vb, u64::MAX) {
                Some(v) => Some(TftpOption::TransferSize(v)),
                None => None,
            }
        } else if eq_icase(nb, "windowsize".as_bytes()) {
            match parse_bounded_bytes(vb, 0xffff) {
                Some(v) => {
                    if v >= 1 {
                        Some(TftpOption::WindowSize(v as u16))
                    } else {
                        None
                    }
                },
                None => None,
            }
        } else {
            None
        }
    }
}

} // verus!
