use crate::stream::error::StreamError;
use crate::stream::memory::MemoryStream;
use crate::stream::{read_buf, read_stack_buf, Buffer};
use crate::wire::{
    decode_bool, decode_string, decode_u16, decode_u32, decode_u64, parse_bool, parse_buf,
    parse_string, parse_u16, parse_u32, parse_u64, parse_u8, result_view,
};
use vstd::prelude::*;

pub use crate::wire::{FALSE_INDICATOR, TRUE_INDICATOR};

verus! {

/// Takes a message off a stream, one field per call, in the order in which
/// the fields were written. A call reads the whole field or fails; after a
/// failure the place in the stream means nothing any more.
///
/// The reader only borrows the stream. Each contract therefore ends by saying
/// that the stream goes back to its owner as the reader's last call left it.
pub struct StreamReader<'a> {
    pub stream: &'a mut MemoryStream,
}

impl<'a> StreamReader<'a> {
    pub fn new(stream: &'a mut MemoryStream) -> (reader: Self)
        ensures
            *reader.stream == *old(stream),
            *final(reader.stream) == *final(stream),
    {
        StreamReader { stream }
    }

    pub fn read_bool(&mut self) -> (value: Result<bool, StreamError>)
        ensures
            (value, final(self).stream.incoming()) == old(self).stream.reads(
                true,
                parse_bool(old(self).stream.incoming()),
            ),
            final(self).stream.outgoing() == old(self).stream.outgoing(),
            final(self).stream.failed() == old(self).stream.failed(),
            final(self).stream.pace().is_suffix_of(old(self).stream.pace()),
            *final(final(self).stream) == *final(old(self).stream),
    {
        match read_stack_buf::<1>(self.stream) {
            Ok(buf) => decode_bool(buf[0]),
            Err(error) => Err(error),
        }
    }

    pub fn read_u8(&mut self) -> (value: Result<u8, StreamError>)
        ensures
            (value, final(self).stream.incoming()) == old(self).stream.reads(
                true,
                parse_u8(old(self).stream.incoming()),
            ),
            final(self).stream.outgoing() == old(self).stream.outgoing(),
            final(self).stream.failed() == old(self).stream.failed(),
            final(self).stream.pace().is_suffix_of(old(self).stream.pace()),
            *final(final(self).stream) == *final(old(self).stream),
    {
        match read_stack_buf::<1>(self.stream) {
            Ok(buf) => Ok(buf[0]),
            Err(error) => Err(error),
        }
    }

    pub fn read_u16(&mut self) -> (value: Result<u16, StreamError>)
        ensures
            (value, final(self).stream.incoming()) == old(self).stream.reads(
                true,
                parse_u16(old(self).stream.incoming()),
            ),
            final(self).stream.outgoing() == old(self).stream.outgoing(),
            final(self).stream.failed() == old(self).stream.failed(),
            final(self).stream.pace().is_suffix_of(old(self).stream.pace()),
            *final(final(self).stream) == *final(old(self).stream),
    {
        match read_stack_buf::<2>(self.stream) {
            Ok(buf) => Ok(decode_u16(&buf)),
            Err(error) => Err(error),
        }
    }

    pub fn read_u32(&mut self) -> (value: Result<u32, StreamError>)
        ensures
            (value, final(self).stream.incoming()) == old(self).stream.reads(
                true,
                parse_u32(old(self).stream.incoming()),
            ),
            final(self).stream.outgoing() == old(self).stream.outgoing(),
            final(self).stream.failed() == old(self).stream.failed(),
            final(self).stream.pace().is_suffix_of(old(self).stream.pace()),
            *final(final(self).stream) == *final(old(self).stream),
    {
        match read_stack_buf::<4>(self.stream) {
            Ok(buf) => Ok(decode_u32(&buf)),
            Err(error) => Err(error),
        }
    }

    pub fn read_u64(&mut self) -> (value: Result<u64, StreamError>)
        ensures
            (value, final(self).stream.incoming()) == old(self).stream.reads(
                true,
                parse_u64(old(self).stream.incoming()),
            ),
            final(self).stream.outgoing() == old(self).stream.outgoing(),
            final(self).stream.failed() == old(self).stream.failed(),
            final(self).stream.pace().is_suffix_of(old(self).stream.pace()),
            *final(final(self).stream) == *final(old(self).stream),
    {
        match read_stack_buf::<8>(self.stream) {
            Ok(buf) => Ok(decode_u64(&buf)),
            Err(error) => Err(error),
        }
    }

    /// Reads a length and then that many bytes.
    pub fn read_buf(&mut self) -> (buffer: Result<Buffer, StreamError>)
        ensures
            (result_view(buffer), final(self).stream.incoming()) == old(self).stream.reads(
                true,
                parse_buf(old(self).stream.incoming()),
            ),
            final(self).stream.outgoing() == old(self).stream.outgoing(),
            final(self).stream.failed() == old(self).stream.failed(),
            final(self).stream.pace().is_suffix_of(old(self).stream.pace()),
            *final(final(self).stream) == *final(old(self).stream),
    {
        match self.read_u32() {
            Ok(size) => read_buf(self.stream, size as usize),
            Err(error) => Err(error),
        }
    }

    /// Reads a buffer and takes it for UTF-8.
    pub fn read_string(&mut self) -> (text: Result<String, StreamError>)
        ensures
            (result_view(text), final(self).stream.incoming()) == old(self).stream.reads(
                true,
                parse_string(old(self).stream.incoming()),
            ),
            final(self).stream.outgoing() == old(self).stream.outgoing(),
            final(self).stream.failed() == old(self).stream.failed(),
            final(self).stream.pace().is_suffix_of(old(self).stream.pace()),
            *final(final(self).stream) == *final(old(self).stream),
    {
        match self.read_buf() {
            Ok(buf) => decode_string(buf.into_vec()),
            Err(error) => Err(error),
        }
    }
}

} // verus!
