//! Decoding side of the bincode wire format, verified with Verus.
//!
//! `config` holds the decoding options (byte order and size limit),
//! `error` the error kinds, `bytes` the integer layouts, `utf8` the
//! character-width table and the UTF-8 checks, and `de` the readers and
//! the deserializer that turns bytes into plain values.
pub mod bytes;
pub mod config;
pub mod de;
pub mod error;
pub mod utf8;
