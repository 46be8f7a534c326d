pub mod builder;
pub mod error;

pub use crate::sheet::builder::SheetBuilder;
pub use crate::sheet::error::{ErrorKind, SheetError};

use crate::stream::{write_buf, Buffer, MemoryStream, StreamError};
use crate::wire::{decode_bool, parse_bool};
use vstd::prelude::*;

verus! {

/// One finished message: an immutable run of bytes, ready to be sent.
pub struct Sheet {
    data: Buffer,
}

impl View for Sheet {
    type V = Seq<u8>;

    /// The bytes of the message.
    closed spec fn view(&self) -> Seq<u8> {
        self.data@
    }
}

impl Sheet {
    pub fn new(data: Buffer) -> (sheet: Self)
        ensures
            sheet@ == data@,
    {
        Sheet { data }
    }

    /// The bytes to put on the wire.
    pub fn serialize(&self) -> (bytes: &[u8])
        ensures
            bytes@ == self@,
    {
        &self.data
    }

    pub fn data(&self) -> (data: &Buffer)
        ensures
            data@ == self@,
    {
        &self.data
    }

    /// The status that a response opens with: what a reader would take off
    /// the front of the message as a boolean. The message is left whole.
    pub fn status(&self) -> (status: Result<bool, StreamError>)
        ensures
            status == parse_bool(self@).0,
    {
        if self.data.len() == 0 {
            Err(StreamError::ClosedStream)
        } else {
            decode_bool(self.data[0])
        }
    }

    /// Puts the whole message on the stream, behind what was written before.
    /// A stream that has failed gives `InvalidStream`, and takes nothing.
    pub fn write(&self, writer: &mut MemoryStream) -> (done: Result<(), StreamError>)
        ensures
            (done, final(writer).outgoing()) == old(writer).writes(self@),
            final(writer).incoming() == old(writer).incoming(),
            final(writer).failed() == old(writer).failed(),
            final(writer).pace().is_suffix_of(old(writer).pace()),
    {
        match write_buf(writer, &self.data) {
            Ok(_) => Ok(()),
            Err(_) => Err(StreamError::InvalidStream),
        }
    }
}

} // verus!
