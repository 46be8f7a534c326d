//! Framing for a request/response protocol over a byte stream.
//!
//! A message is a flat run of fields: fixed-width integers in little-endian
//! order, booleans as one of two sentinel bytes, and buffers or strings behind
//! a four-byte length. Writer and reader agree on the order of the fields
//! beforehand; nothing on the wire names them.
//!
//! - [`wire`] says, as mathematics, what each field looks like in bytes, and
//!   proves that what is written is what is read.
//! - [`sheet`] builds messages field by field.
//! - [`stream`] reads them back field by field. Its [`stream::transfer`]
//!   holds the two loops that every transport needs, reading exactly N bytes
//!   and writing all of a buffer, as state machines that touch no transport
//!   themselves; [`stream::memory`] is a stream to run them on.
//! - [`command`] and [`policy`] name the bytes that requests are made of.

pub mod command;
pub mod error;
pub mod policy;
pub mod sheet;
pub mod stream;
pub mod wire;
