//! Reading and writing whole runs of bytes on a stream, and the reader that
//! takes a message apart field by field.

pub mod error;
pub mod memory;
pub mod reader;
pub mod transfer;

pub use crate::stream::error::StreamError;
pub use crate::stream::memory::MemoryStream;
pub use crate::stream::reader::StreamReader;
pub use crate::wire::{FALSE_INDICATOR, TRUE_INDICATOR};

use crate::stream::transfer::{
    ReadAction, ReadEvent, ReadExact, ReadProgress, ReadStep, Transport, WriteAction, WriteAll,
    WriteEvent, WriteProgress, WriteStep,
};
use crate::wire::{parse_bytes, result_view};
use vstd::prelude::*;
use vstd::slice::slice_subrange;

verus! {

/// Bytes on the heap: a payload that was read, or a message to send.
pub type Buffer = Box<[u8]>;

/// A fixed number of bytes on the stack: a fixed-width field as it was read.
pub type StackBuffer<const N: usize> = [u8; N];

/// `Vec::into_boxed_slice`: the same bytes in the same order; only the spare
/// capacity is given up.
#[verifier::external_body]
fn into_buffer(bytes: Vec<u8>) -> (buffer: Buffer)
    ensures
        buffer@ == bytes@,
{
    bytes.into_boxed_slice()
}

/// Runs a read of `count` bytes on the stream until it ends.
fn read_exact(reader: &mut MemoryStream, count: usize) -> (bytes: Result<Vec<u8>, StreamError>)
    ensures
        (result_view(bytes), final(reader).incoming()) == old(reader).reads(
            count > 0,
            parse_bytes(old(reader).incoming(), count as nat),
        ),
        final(reader).outgoing() == old(reader).outgoing(),
        final(reader).failed() == old(reader).failed(),
        final(reader).pace().is_suffix_of(old(reader).pace()),
{
    let ghost start = reader.incoming();
    let ghost written = reader.outgoing();
    let ghost pace = reader.pace();
    let mut step = ReadExact::start(count, Transport::NonBlocking);
    assert(start.take(0) =~= Seq::<u8>::empty());
    assert(start.skip(0) =~= start);
    loop
        invariant
            start == old(reader).incoming(),
            written == old(reader).outgoing(),
            pace == old(reader).pace(),
            reader.outgoing() == written,
            reader.failed() == old(reader).failed(),
            reader.pace().is_suffix_of(pace),
            match step@ {
                ReadProgress::Continue(state) => {
                    &&& state.wf()
                    &&& state.target == count
                    &&& state.transport == Transport::NonBlocking
                    &&& state.received.len() <= start.len()
                    &&& state.received == start.take(state.received.len() as int)
                    &&& reader.incoming() == start.skip(state.received.len() as int)
                    &&& reader.failed() ==> state.received.len() == 0 && !state.waiting
                },
                ReadProgress::Finished(result) => (result, reader.incoming()) == old(
                    reader,
                ).reads(count > 0, parse_bytes(start, count as nat)),
            },
        decreases
                match step@ {
                    ReadProgress::Continue(state) => state.missing() + reader.pace().len() + 1,
                    ReadProgress::Finished(_) => 0,
                },
                match step@ {
                    ReadProgress::Continue(state) => if state.waiting {
                        1nat
                    } else {
                        0nat
                    },
                    ReadProgress::Finished(_) => 0nat,
                },
    {
        match step {
            ReadStep::Finished(result) => {
                return result;
            },
            ReadStep::Continue(read) => {
                let ghost state = read@;
                let ghost pending = reader.incoming();
                let event = match read.action() {
                    ReadAction::Read(most) => reader.read(most),
                    ReadAction::AwaitReadable => ReadEvent::Ready,
                };
                let ghost given = event;
                step = read.step(event);
                proof {
                    if let ReadEvent::Data(chunk) = given {
                        let have = state.received.len() as int;
                        let more = chunk@.len() as int;
                        assert(state.received + chunk@ =~= start.take(have + more));
                        assert(reader.incoming() =~= start.skip(have + more));
                    }
                    if given is Closed {
                        assert(reader.incoming() =~= Seq::<u8>::empty());
                    }
                }
            },
        }
    }
}

/// Reads exactly `buf_size` bytes, however few of them the stream delivers
/// at a time. A stream that closes before it has delivered them all gives
/// `ClosedStream`, and no part of what it did deliver; a stream that has
/// failed gives `InvalidStream`.
pub fn read_buf(reader: &mut MemoryStream, buf_size: usize) -> (buffer: Result<Buffer, StreamError>)
    ensures
        (result_view(buffer), final(reader).incoming()) == old(reader).reads(
            buf_size > 0,
            parse_bytes(old(reader).incoming(), buf_size as nat),
        ),
        final(reader).outgoing() == old(reader).outgoing(),
        final(reader).failed() == old(reader).failed(),
        final(reader).pace().is_suffix_of(old(reader).pace()),
{
    match read_exact(reader, buf_size) {
        Ok(bytes) => Ok(into_buffer(bytes)),
        Err(error) => Err(error),
    }
}

/// Reads exactly `N` bytes, as [`read_buf`] does, onto the stack.
pub fn read_stack_buf<const N: usize>(reader: &mut MemoryStream) -> (buffer: Result<
    StackBuffer<N>,
    StreamError,
>)
    ensures
        (result_view(buffer), final(reader).incoming()) == old(reader).reads(
            N > 0,
            parse_bytes(old(reader).incoming(), N as nat),
        ),
        final(reader).outgoing() == old(reader).outgoing(),
        final(reader).failed() == old(reader).failed(),
        final(reader).pace().is_suffix_of(old(reader).pace()),
{
    match read_exact(reader, N) {
        Ok(bytes) => {
            let mut buffer = [0u8;N];
            let mut index: usize = 0;
            while index < N
                invariant
                    index <= N == bytes@.len(),
                    forall|i: int| 0 <= i < index ==> buffer@[i] == bytes@[i],
                decreases N - index,
            {
                buffer[index] = bytes[index];
                index = index + 1;
            }
            assert(buffer@ =~= bytes@);
            Ok(buffer)
        },
        Err(error) => Err(error),
    }
}

/// Writes all of `buf`, however little of it the stream takes at a time. A
/// stream that has failed gives `InvalidStream`, and takes nothing.
pub fn write_buf(writer: &mut MemoryStream, buf: &[u8]) -> (done: Result<(), StreamError>)
    ensures
        (done, final(writer).outgoing()) == old(writer).writes(buf@),
        final(writer).incoming() == old(writer).incoming(),
        final(writer).failed() == old(writer).failed(),
        final(writer).pace().is_suffix_of(old(writer).pace()),
{
    let ghost before = writer.outgoing();
    let ghost pending = writer.incoming();
    let ghost pace = writer.pace();
    let mut step = WriteAll::start(buf.len(), Transport::NonBlocking);
    assert(before + buf@.take(0) =~= before);
    loop
        invariant
            before == old(writer).outgoing(),
            pending == old(writer).incoming(),
            pace == old(writer).pace(),
            writer.incoming() == pending,
            writer.failed() == old(writer).failed(),
            writer.pace().is_suffix_of(pace),
            match step@ {
                WriteProgress::Continue(state) => {
                    &&& state.wf()
                    &&& state.total == buf@.len()
                    &&& state.transport == Transport::NonBlocking
                    &&& writer.outgoing() == before + buf@.take(state.sent as int)
                    &&& writer.failed() ==> state.sent == 0 && !state.waiting
                },
                WriteProgress::Finished(result) => (result, writer.outgoing()) == old(
                    writer,
                ).writes(buf@),
            },
        decreases
                match step@ {
                    WriteProgress::Continue(state) => state.missing() + writer.pace().len() + 1,
                    WriteProgress::Finished(_) => 0,
                },
                match step@ {
                    WriteProgress::Continue(state) => if state.waiting {
                        1nat
                    } else {
                        0nat
                    },
                    WriteProgress::Finished(_) => 0nat,
                },
    {
        match step {
            WriteStep::Finished(result) => {
                return result;
            },
            WriteStep::Continue(write) => {
                let ghost state = write@;
                let event = match write.action() {
                    WriteAction::Write(from) => writer.write(slice_subrange(buf, from, buf.len())),
                    WriteAction::AwaitWritable => WriteEvent::Ready,
                };
                step = write.step(event);
                proof {
                    if let WriteEvent::Wrote(count) = event {
                        let sent = state.sent as int;
                        let rest = buf@.subrange(sent, buf@.len() as int);
                        assert(buf@.take(sent) + rest.take(count as int) =~= buf@.take(
                            sent + count,
                        ));
                        assert(buf@.take(buf@.len() as int) =~= buf@);
                    }
                }
            },
        }
    }
}

} // verus!
