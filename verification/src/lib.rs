//! A verified core for a TFTP server: packet codec, option handling,
//! the transfer state machines, the path-safety I/O policy, and the
//! dispatcher's bookkeeping, each with contracts proved by Verus.

pub mod serial;
pub mod wire;
pub mod options;
pub mod packet;
pub mod codec_laws;
pub mod policy;
pub mod proto;
pub mod dispatch;
