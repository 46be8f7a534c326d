//! Reading exactly N bytes and writing all of a buffer, as state machines.
//!
//! A transfer makes no call on a transport. It says what to attempt next, is
//! told what the attempt gave, and says what to do after that, until it ends
//! with the bytes or with an error. Whoever owns the transport runs the loop
//! and suspends where the machine says to wait: the machine never asks for a
//! second attempt on a transport that has just reported that it is not ready.

use crate::stream::error::StreamError;
use vstd::prelude::*;

verus! {

/// How the transport behaves when it cannot make progress at once.
#[derive(Debug, PartialEq, Eq, Clone, Copy, Structural)]
pub enum Transport {
    /// An attempt blocks the calling thread until it makes progress or fails.
    /// Such a transport is never "not ready": a report of that kind breaks its
    /// contract.
    Blocking,
    /// An attempt returns at once, and may report that the transport is not
    /// ready. The driver then waits for readiness before it tries again.
    NonBlocking,
}

/// What one step of a driver gave to a read.
#[derive(Debug)]
pub enum ReadEvent {
    /// The transport delivered these bytes. No bytes at all means that the
    /// peer closed the stream.
    Data(Vec<u8>),
    /// The peer closed the stream.
    Closed,
    /// The transport had nothing to deliver yet, and made no transfer.
    NotReady,
    /// The wait for readiness is over.
    Ready,
    /// The transport failed for good.
    Fault,
}

/// What the driver of a read does next.
#[derive(Debug, PartialEq, Eq, Clone, Copy, Structural)]
pub enum ReadAction {
    /// Attempt one read of at most this many bytes.
    Read(usize),
    /// Suspend until the transport signals that it can be read.
    AwaitReadable,
}

/// A read in flight, as the contracts see it.
pub struct ReadState {
    pub transport: Transport,
    /// How many bytes the read is to deliver.
    pub target: nat,
    /// The bytes delivered so far.
    pub received: Seq<u8>,
    /// Whether the last attempt found the transport not ready.
    pub waiting: bool,
}

/// Where a read stands after a step, as the contracts see it.
pub enum ReadProgress {
    Continue(ReadState),
    Finished(Result<Seq<u8>, StreamError>),
}

impl ReadState {
    /// A read in flight still misses at least one byte, and only a
    /// non-blocking transport makes it wait.
    pub open spec fn wf(self) -> bool {
        &&& self.received.len() < self.target
        &&& self.waiting ==> self.transport == Transport::NonBlocking
    }

    /// How many bytes are still to come.
    pub open spec fn missing(self) -> nat {
        (self.target - self.received.len()) as nat
    }

    pub open spec fn action(self) -> ReadAction {
        if self.waiting {
            ReadAction::AwaitReadable
        } else {
            ReadAction::Read(self.missing() as usize)
        }
    }

    /// The transport delivered `chunk`. Nothing at all is the end of the
    /// stream; more than was asked for is a transport that cannot be trusted.
    pub open spec fn deliver(self, chunk: Seq<u8>) -> ReadProgress {
        if chunk.len() == 0 {
            ReadProgress::Finished(Err(StreamError::ClosedStream))
        } else if chunk.len() > self.missing() {
            ReadProgress::Finished(Err(StreamError::InvalidStream))
        } else if chunk.len() == self.missing() {
            ReadProgress::Finished(Ok(self.received + chunk))
        } else {
            ReadProgress::Continue(
                ReadState { received: self.received + chunk, waiting: false, ..self },
            )
        }
    }

    pub open spec fn step(self, event: ReadEvent) -> ReadProgress {
        match event {
            ReadEvent::Data(chunk) => self.deliver(chunk@),
            ReadEvent::Closed => ReadProgress::Finished(Err(StreamError::ClosedStream)),
            ReadEvent::NotReady => match self.transport {
                Transport::Blocking => ReadProgress::Finished(Err(StreamError::InvalidStream)),
                Transport::NonBlocking => ReadProgress::Continue(
                    ReadState { waiting: true, ..self },
                ),
            },
            ReadEvent::Ready => ReadProgress::Continue(ReadState { waiting: false, ..self }),
            ReadEvent::Fault => ReadProgress::Finished(Err(StreamError::InvalidStream)),
        }
    }

    /// Whether the event lets a read go on: bytes, at least one of them; the
    /// end of a wait; or, from a transport that does not block, the report
    /// that it is not ready.
    pub open spec fn goes_on(self, event: ReadEvent) -> bool {
        match event {
            ReadEvent::Data(chunk) => chunk@.len() > 0,
            ReadEvent::NotReady => self.transport == Transport::NonBlocking,
            ReadEvent::Ready => true,
            ReadEvent::Closed | ReadEvent::Fault => false,
        }
    }

    /// Where the read stands after `events`, one after the other, for as
    /// long as the read was in flight.
    pub open spec fn run(self, events: Seq<ReadEvent>) -> ReadProgress
        decreases events.len(),
    {
        if events.len() == 0 {
            ReadProgress::Continue(self)
        } else {
            match self.step(events.first()) {
                ReadProgress::Continue(next) => next.run(events.drop_first()),
                finished => finished,
            }
        }
    }
}

/// The bytes that the events delivered, in order.
pub open spec fn delivered(events: Seq<ReadEvent>) -> Seq<u8>
    decreases events.len(),
{
    if events.len() == 0 {
        Seq::empty()
    } else {
        match events.first() {
            ReadEvent::Data(chunk) => chunk@ + delivered(events.drop_first()),
            _ => delivered(events.drop_first()),
        }
    }
}

/// A read of `target` bytes before its first step. A read of nothing is
/// finished before it begins, and never touches the transport.
pub open spec fn read_start(target: nat, transport: Transport) -> ReadProgress {
    if target == 0 {
        ReadProgress::Finished(Ok(Seq::empty()))
    } else {
        ReadProgress::Continue(
            ReadState { transport, target, received: Seq::empty(), waiting: false },
        )
    }
}

/// Reads exactly as many bytes as it was started for, however few the
/// transport delivers at a time.
#[derive(Debug)]
pub struct ReadExact {
    transport: Transport,
    target: usize,
    received: Vec<u8>,
    waiting: bool,
}

/// A read after a step: still in flight, or finished with all its bytes or
/// with the error that ended it.
#[derive(Debug)]
pub enum ReadStep {
    Continue(ReadExact),
    Finished(Result<Vec<u8>, StreamError>),
}

impl View for ReadExact {
    type V = ReadState;

    closed spec fn view(&self) -> ReadState {
        ReadState {
            transport: self.transport,
            target: self.target as nat,
            received: self.received@,
            waiting: self.waiting,
        }
    }
}

impl View for ReadStep {
    type V = ReadProgress;

    open spec fn view(&self) -> ReadProgress {
        match self {
            ReadStep::Continue(read) => ReadProgress::Continue(read@),
            ReadStep::Finished(Ok(bytes)) => ReadProgress::Finished(Ok(bytes@)),
            ReadStep::Finished(Err(error)) => ReadProgress::Finished(Err(*error)),
        }
    }
}

impl ReadExact {
    #[verifier::type_invariant]
    spec fn inv(self) -> bool {
        self@.wf()
    }

    /// Begins a read of `target` bytes.
    pub fn start(target: usize, transport: Transport) -> (step: ReadStep)
        ensures
            step@ == read_start(target as nat, transport),
    {
        if target == 0 {
            ReadStep::Finished(Ok(Vec::new()))
        } else {
            ReadStep::Continue(
                ReadExact { transport, target, received: Vec::new(), waiting: false },
            )
        }
    }

    /// What the driver does next. A read never asks for no bytes, nor for
    /// more than it still misses.
    pub fn action(&self) -> (action: ReadAction)
        ensures
            self@.wf(),
            action == self@.action(),
            action matches ReadAction::Read(most) ==> 1 <= most == self@.missing(),
    {
        proof {
            use_type_invariant(self);
        }
        if self.waiting {
            ReadAction::AwaitReadable
        } else {
            ReadAction::Read(self.target - self.received.len())
        }
    }

    /// Takes in what the driver's last step gave.
    pub fn step(self, event: ReadEvent) -> (next: ReadStep)
        ensures
            self@.wf(),
            next@ == self@.step(event),
            next@ matches ReadProgress::Continue(state) ==> state.wf(),
    {
        proof {
            use_type_invariant(&self);
        }
        let ReadExact { transport, target, received, waiting } = self;
        match event {
            ReadEvent::Data(chunk) => {
                let missing = target - received.len();
                if chunk.len() == 0 {
                    ReadStep::Finished(Err(StreamError::ClosedStream))
                } else if chunk.len() > missing {
                    ReadStep::Finished(Err(StreamError::InvalidStream))
                } else {
                    let mut received = received;
                    let mut chunk = chunk;
                    received.append(&mut chunk);
                    if received.len() == target {
                        ReadStep::Finished(Ok(received))
                    } else {
                        ReadStep::Continue(
                            ReadExact { transport, target, received, waiting: false },
                        )
                    }
                }
            },
            ReadEvent::Closed => ReadStep::Finished(Err(StreamError::ClosedStream)),
            ReadEvent::NotReady => match transport {
                Transport::Blocking => ReadStep::Finished(Err(StreamError::InvalidStream)),
                Transport::NonBlocking => ReadStep::Continue(
                    ReadExact { transport, target, received, waiting: true },
                ),
            },
            ReadEvent::Ready => ReadStep::Continue(
                ReadExact { transport, target, received, waiting: false },
            ),
            ReadEvent::Fault => ReadStep::Finished(Err(StreamError::InvalidStream)),
        }
    }
}

/// Partial delivery. However the transport cuts the bytes that a read
/// still misses into chunks, none of them empty, and however often it is not
/// ready in between, the read ends with exactly those bytes, in order, behind
/// the ones that it had.
pub proof fn lemma_read_any_chunking(state: ReadState, events: Seq<ReadEvent>)
    requires
        state.wf(),
        forall|i: int| 0 <= i < events.len() ==> state.goes_on(#[trigger] events[i]),
        delivered(events).len() == state.missing(),
    ensures
        state.run(events) == ReadProgress::Finished(Ok(state.received + delivered(events))),
    decreases events.len(),
{
    if events.len() > 0 {
        let rest = events.drop_first();
        assert(state.goes_on(events[0]));
        assert forall|i: int| 0 <= i < rest.len() implies state.goes_on(#[trigger] rest[i]) by {
            assert(rest[i] == events[i + 1]);
        }
        match state.step(events.first()) {
            ReadProgress::Continue(next) => {
                lemma_read_any_chunking(next, rest);
                assert(next.received + delivered(rest) == state.received + delivered(events));
            },
            ReadProgress::Finished(_) => {
                assert(delivered(rest) =~= Seq::<u8>::empty());
                assert(state.received + events[0]->Data_0@ == state.received + delivered(events));
            },
        }
    }
}

/// Disconnection. While the bytes delivered leave one missing, the read is
/// in flight and holds every byte delivered; if the peer then closes the
/// stream, the read ends with `ClosedStream` and hands out none of them.
pub proof fn lemma_read_closed_early(state: ReadState, events: Seq<ReadEvent>)
    requires
        state.wf(),
        forall|i: int| 0 <= i < events.len() ==> state.goes_on(#[trigger] events[i]),
        delivered(events).len() < state.missing(),
    ensures
        state.run(events) matches ReadProgress::Continue(last) && last.wf() && last.received
            == state.received + delivered(events) && last.step(ReadEvent::Closed)
            == ReadProgress::Finished(Err(StreamError::ClosedStream)),
    decreases events.len(),
{
    if events.len() > 0 {
        let rest = events.drop_first();
        assert(state.goes_on(events[0]));
        assert forall|i: int| 0 <= i < rest.len() implies state.goes_on(#[trigger] rest[i]) by {
            assert(rest[i] == events[i + 1]);
        }
        match state.step(events.first()) {
            ReadProgress::Continue(next) => {
                lemma_read_closed_early(next, rest);
                assert(next.received + delivered(rest) == state.received + delivered(events));
            },
            ReadProgress::Finished(_) => {},
        }
    } else {
        assert(state.received + delivered(events) == state.received);
    }
}

/// No partial results. Whatever the transport does, and in whatever order, a
/// read that ends well hands over exactly as many bytes as it was started
/// for, and a read still in flight has lost none of the bytes that it had.
pub proof fn lemma_read_never_truncated(state: ReadState, events: Seq<ReadEvent>)
    requires
        state.wf(),
    ensures
        state.run(events) matches ReadProgress::Finished(Ok(bytes)) ==> bytes.len()
            == state.target && state.received.is_prefix_of(bytes),
        state.run(events) matches ReadProgress::Continue(last) ==> last.wf() && last.target
            == state.target && state.received.is_prefix_of(last.received),
    decreases events.len(),
{
    if events.len() > 0 {
        if let ReadProgress::Continue(next) = state.step(events.first()) {
            lemma_read_never_truncated(next, events.drop_first());
        }
    }
}

/// No busy waiting. A read that finds a non-blocking transport not ready
/// asks for a wait, and asks for no further attempt until the wait is over.
pub proof fn lemma_read_never_spins(state: ReadState)
    requires
        state.wf(),
        state.transport == Transport::NonBlocking,
    ensures
        ({
            &&& state.step(ReadEvent::NotReady) matches ReadProgress::Continue(stalled)
            &&& stalled.action() == ReadAction::AwaitReadable
            &&& stalled.received == state.received
            &&& stalled.step(ReadEvent::Ready) matches ReadProgress::Continue(resumed)
            &&& resumed.action() == ReadAction::Read(state.missing() as usize)
        }),
{
}

/// What one step of a driver gave to a write.
#[derive(Debug, PartialEq, Eq, Clone, Copy, Structural)]
pub enum WriteEvent {
    /// The transport took this many bytes from the front of what it was
    /// offered.
    Wrote(usize),
    /// The transport could take nothing yet, and made no transfer.
    NotReady,
    /// The wait for readiness is over.
    Ready,
    /// The transport failed for good.
    Fault,
}

/// What the driver of a write does next.
#[derive(Debug, PartialEq, Eq, Clone, Copy, Structural)]
pub enum WriteAction {
    /// Attempt one write of the buffer from this index to its end.
    Write(usize),
    /// Suspend until the transport signals that it can be written to.
    AwaitWritable,
}

/// A write in flight, as the contracts see it.
pub struct WriteState {
    pub transport: Transport,
    /// The length of the buffer to send.
    pub total: nat,
    /// How many bytes of it the transport has taken.
    pub sent: nat,
    /// Whether the last attempt found the transport not ready.
    pub waiting: bool,
}

/// Where a write stands after a step, as the contracts see it.
pub enum WriteProgress {
    Continue(WriteState),
    Finished(Result<(), StreamError>),
}

impl WriteState {
    /// A write in flight has at least one byte left to send, and only a
    /// non-blocking transport makes it wait.
    pub open spec fn wf(self) -> bool {
        &&& self.sent < self.total
        &&& self.waiting ==> self.transport == Transport::NonBlocking
    }

    /// How many bytes are still to send.
    pub open spec fn missing(self) -> nat {
        (self.total - self.sent) as nat
    }

    pub open spec fn action(self) -> WriteAction {
        if self.waiting {
            WriteAction::AwaitWritable
        } else {
            WriteAction::Write(self.sent as usize)
        }
    }

    /// The transport took `count` bytes. A transport that takes nothing
    /// while bytes are left will never take them; one that takes more than it
    /// was offered cannot be trusted.
    pub open spec fn accept(self, count: nat) -> WriteProgress {
        if count == 0 || count > self.missing() {
            WriteProgress::Finished(Err(StreamError::InvalidStream))
        } else if count == self.missing() {
            WriteProgress::Finished(Ok(()))
        } else {
            WriteProgress::Continue(WriteState { sent: self.sent + count, waiting: false, ..self })
        }
    }

    pub open spec fn step(self, event: WriteEvent) -> WriteProgress {
        match event {
            WriteEvent::Wrote(count) => self.accept(count as nat),
            WriteEvent::NotReady => match self.transport {
                Transport::Blocking => WriteProgress::Finished(Err(StreamError::InvalidStream)),
                Transport::NonBlocking => WriteProgress::Continue(
                    WriteState { waiting: true, ..self },
                ),
            },
            WriteEvent::Ready => WriteProgress::Continue(WriteState { waiting: false, ..self }),
            WriteEvent::Fault => WriteProgress::Finished(Err(StreamError::InvalidStream)),
        }
    }

    /// Whether the event lets a write go on: bytes taken, at least one; the
    /// end of a wait; or, from a transport that does not block, the report
    /// that it is not ready.
    pub open spec fn goes_on(self, event: WriteEvent) -> bool {
        match event {
            WriteEvent::Wrote(count) => count > 0,
            WriteEvent::NotReady => self.transport == Transport::NonBlocking,
            WriteEvent::Ready => true,
            WriteEvent::Fault => false,
        }
    }

    /// Where the write stands after `events`, one after the other, for as
    /// long as the write was in flight.
    pub open spec fn run(self, events: Seq<WriteEvent>) -> WriteProgress
        decreases events.len(),
    {
        if events.len() == 0 {
            WriteProgress::Continue(self)
        } else {
            match self.step(events.first()) {
                WriteProgress::Continue(next) => next.run(events.drop_first()),
                finished => finished,
            }
        }
    }
}

/// How many bytes the transport took over the events.
pub open spec fn taken(events: Seq<WriteEvent>) -> nat
    decreases events.len(),
{
    if events.len() == 0 {
        0
    } else {
        match events.first() {
            WriteEvent::Wrote(count) => count as nat + taken(events.drop_first()),
            _ => taken(events.drop_first()),
        }
    }
}

/// A write of `total` bytes before its first step. A write of nothing is
/// finished before it begins, and never touches the transport.
pub open spec fn write_start(total: nat, transport: Transport) -> WriteProgress {
    if total == 0 {
        WriteProgress::Finished(Ok(()))
    } else {
        WriteProgress::Continue(WriteState { transport, total, sent: 0, waiting: false })
    }
}

/// Sends all of a buffer, however little of it the transport takes at a time.
#[derive(Debug)]
pub struct WriteAll {
    transport: Transport,
    total: usize,
    sent: usize,
    waiting: bool,
}

/// A write after a step: still in flight, or finished.
#[derive(Debug)]
pub enum WriteStep {
    Continue(WriteAll),
    Finished(Result<(), StreamError>),
}

impl View for WriteAll {
    type V = WriteState;

    closed spec fn view(&self) -> WriteState {
        WriteState {
            transport: self.transport,
            total: self.total as nat,
            sent: self.sent as nat,
            waiting: self.waiting,
        }
    }
}

impl View for WriteStep {
    type V = WriteProgress;

    open spec fn view(&self) -> WriteProgress {
        match self {
            WriteStep::Continue(write) => WriteProgress::Continue(write@),
            WriteStep::Finished(result) => WriteProgress::Finished(*result),
        }
    }
}

impl WriteAll {
    #[verifier::type_invariant]
    spec fn inv(self) -> bool {
        self@.wf()
    }

    /// Begins a write of a buffer of `total` bytes.
    pub fn start(total: usize, transport: Transport) -> (step: WriteStep)
        ensures
            step@ == write_start(total as nat, transport),
    {
        if total == 0 {
            WriteStep::Finished(Ok(()))
        } else {
            WriteStep::Continue(WriteAll { transport, total, sent: 0, waiting: false })
        }
    }

    /// What the driver does next. A write never offers the transport an
    /// empty rest of the buffer.
    pub fn action(&self) -> (action: WriteAction)
        ensures
            self@.wf(),
            action == self@.action(),
            action matches WriteAction::Write(from) ==> from == self@.sent < self@.total,
    {
        proof {
            use_type_invariant(self);
        }
        if self.waiting {
            WriteAction::AwaitWritable
        } else {
            WriteAction::Write(self.sent)
        }
    }

    /// Takes in what the driver's last step gave.
    pub fn step(self, event: WriteEvent) -> (next: WriteStep)
        ensures
            self@.wf(),
            next@ == self@.step(event),
            next@ matches WriteProgress::Continue(state) ==> state.wf(),
    {
        proof {
            use_type_invariant(&self);
        }
        let WriteAll { transport, total, sent, waiting } = self;
        match event {
            WriteEvent::Wrote(count) => {
                let missing = total - sent;
                if count == 0 || count > missing {
                    WriteStep::Finished(Err(StreamError::InvalidStream))
                } else if count == missing {
                    WriteStep::Finished(Ok(()))
                } else {
                    WriteStep::Continue(
                        WriteAll { transport, total, sent: sent + count, waiting: false },
                    )
                }
            },
            WriteEvent::NotReady => match transport {
                Transport::Blocking => WriteStep::Finished(Err(StreamError::InvalidStream)),
                Transport::NonBlocking => WriteStep::Continue(
                    WriteAll { transport, total, sent, waiting: true },
                ),
            },
            WriteEvent::Ready => WriteStep::Continue(
                WriteAll { transport, total, sent, waiting: false },
            ),
            WriteEvent::Fault => WriteStep::Finished(Err(StreamError::InvalidStream)),
        }
    }
}

/// Partial writes. However little of the rest the transport takes at a
/// time, and however often it is not ready in between, the write is over,
/// and well, once the transport has taken as many bytes as were left.
pub proof fn lemma_write_any_chunking(state: WriteState, events: Seq<WriteEvent>)
    requires
        state.wf(),
        forall|i: int| 0 <= i < events.len() ==> state.goes_on(#[trigger] events[i]),
        taken(events) == state.missing(),
    ensures
        state.run(events) == WriteProgress::Finished(Ok(())),
    decreases events.len(),
{
    if events.len() > 0 {
        let rest = events.drop_first();
        assert(state.goes_on(events[0]));
        assert forall|i: int| 0 <= i < rest.len() implies state.goes_on(#[trigger] rest[i]) by {
            assert(rest[i] == events[i + 1]);
        }
        match state.step(events.first()) {
            WriteProgress::Continue(next) => {
                lemma_write_any_chunking(next, rest);
            },
            WriteProgress::Finished(_) => {},
        }
    }
}

/// No busy waiting. A write that finds a non-blocking transport not ready
/// asks for a wait, and asks for no further attempt until the wait is over.
pub proof fn lemma_write_never_spins(state: WriteState)
    requires
        state.wf(),
        state.transport == Transport::NonBlocking,
    ensures
        ({
            &&& state.step(WriteEvent::NotReady) matches WriteProgress::Continue(stalled)
            &&& stalled.action() == WriteAction::AwaitWritable
            &&& stalled.sent == state.sent
            &&& stalled.step(WriteEvent::Ready) matches WriteProgress::Continue(resumed)
            &&& resumed.action() == WriteAction::Write(state.sent as usize)
        }),
{
}

} // verus!
