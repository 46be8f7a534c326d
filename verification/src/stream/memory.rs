//! A two-way stream held in memory.
//!
//! It stands where a connection would: one side of it is the bytes that the
//! peer sends before it closes, the other collects what is written. A pace
//! makes it deliver as a network does, a few bytes at a time and sometimes
//! nothing yet, so that whatever reads from it has to cope with that. It can
//! also be made to fail, as a connection that was reset.

use crate::stream::error::StreamError;
use crate::stream::transfer::{ReadEvent, WriteEvent};
use vstd::prelude::*;
use vstd::slice::slice_subrange;

verus! {

/// The stream, with the pace at which it still moves bytes.
#[derive(Debug)]
pub struct MemoryStream {
    incoming: Vec<u8>,
    outgoing: Vec<u8>,
    pace: Vec<usize>,
    failed: bool,
}

impl MemoryStream {
    /// The bytes that the peer has sent and that nobody has read yet. The
    /// peer closes the stream behind the last of them.
    pub closed spec fn incoming(&self) -> Seq<u8> {
        self.incoming@
    }

    /// Every byte that was written to the stream, in order.
    pub closed spec fn outgoing(&self) -> Seq<u8> {
        self.outgoing@
    }

    /// One entry for each coming attempt to read or write: the most bytes
    /// that the attempt moves, where 0 means that the stream is not ready
    /// then. Once the pace is used up, an attempt moves all that it is asked
    /// to.
    pub closed spec fn pace(&self) -> Seq<usize> {
        self.pace@
    }

    /// Whether the stream has failed. Every attempt on a failed stream
    /// reports a fault, and moves nothing.
    pub closed spec fn failed(&self) -> bool {
        self.failed
    }

    /// Whether the next attempt finds the stream not ready.
    pub open spec fn stalled(&self) -> bool {
        self.pace().len() > 0 && self.pace()[0] == 0
    }

    /// How many bytes the next attempt moves when it is asked for `asked`
    /// bytes and `available` are there to move.
    pub open spec fn quota(&self, asked: nat, available: nat) -> nat {
        let paced = if self.pace().len() > 0 && self.pace()[0] < asked {
            self.pace()[0] as nat
        } else {
            asked
        };
        if available < paced {
            available
        } else {
            paced
        }
    }

    /// The pace after one attempt.
    pub open spec fn pace_after(&self) -> Seq<usize> {
        if self.pace().len() > 0 {
            self.pace().drop_first()
        } else {
            self.pace()
        }
    }

    /// What reading a field gives on this stream, where `parsed` is what
    /// the bytes still to come give: that, unless the stream has failed and
    /// the read has to touch it.
    pub open spec fn reads<T>(&self, touched: bool, parsed: (Result<T, StreamError>, Seq<u8>)) -> (
        Result<T, StreamError>,
        Seq<u8>,
    ) {
        if self.failed() && touched {
            (Err(StreamError::InvalidStream), self.incoming())
        } else {
            parsed
        }
    }

    /// What writing `bytes` gives on this stream, and what has then been
    /// written to it: all of them behind what was there, unless the stream
    /// has failed and there is something to write.
    pub open spec fn writes(&self, bytes: Seq<u8>) -> (Result<(), StreamError>, Seq<u8>) {
        if self.failed() && bytes.len() > 0 {
            (Err(StreamError::InvalidStream), self.outgoing())
        } else {
            (Ok(()), self.outgoing() + bytes)
        }
    }

    /// A stream on which the peer has sent `incoming` and which delivers
    /// whatever it is asked for at once.
    pub fn new(incoming: Vec<u8>) -> (stream: Self)
        ensures
            stream.incoming() == incoming@,
            stream.outgoing() == Seq::<u8>::empty(),
            stream.pace() == Seq::<usize>::empty(),
            !stream.failed(),
    {
        MemoryStream { incoming, outgoing: Vec::new(), pace: Vec::new(), failed: false }
    }

    /// A stream on which the peer has sent `incoming` and whose first
    /// attempts move no more than `pace` says, one entry for each.
    pub fn with_pace(incoming: Vec<u8>, pace: Vec<usize>) -> (stream: Self)
        ensures
            stream.incoming() == incoming@,
            stream.outgoing() == Seq::<u8>::empty(),
            stream.pace() == pace@,
            !stream.failed(),
    {
        MemoryStream { incoming, outgoing: Vec::new(), pace, failed: false }
    }

    /// Makes the stream fail, for good.
    pub fn fail(&mut self)
        ensures
            final(self).failed(),
            final(self).incoming() == old(self).incoming(),
            final(self).outgoing() == old(self).outgoing(),
            final(self).pace() == old(self).pace(),
    {
        self.failed = true;
    }

    /// What has been written to the stream.
    pub fn written(&self) -> (bytes: &[u8])
        ensures
            bytes@ == self.outgoing(),
    {
        self.outgoing.as_slice()
    }

    /// One attempt to read at most `most` bytes. A stream that has failed
    /// reports the fault. A stream with nothing left is closed, whatever its
    /// pace. Otherwise the attempt uses up one entry of the pace and
    /// delivers the bytes at the front, or none yet.
    pub fn read(&mut self, most: usize) -> (event: ReadEvent)
        ensures
            final(self).outgoing() == old(self).outgoing(),
            final(self).failed() == old(self).failed(),
            old(self).failed() ==> {
                &&& event is Fault
                &&& final(self).incoming() == old(self).incoming()
                &&& final(self).pace() == old(self).pace()
            },
            !old(self).failed() && old(self).incoming().len() == 0 ==> {
                &&& event is Closed
                &&& final(self).incoming() == old(self).incoming()
                &&& final(self).pace() == old(self).pace()
            },
            !old(self).failed() && old(self).incoming().len() > 0 ==> {
                &&& final(self).pace() == old(self).pace_after()
                &&& if old(self).stalled() {
                    &&& event is NotReady
                    &&& final(self).incoming() == old(self).incoming()
                } else {
                    let count = old(self).quota(most as nat, old(self).incoming().len());
                    &&& event matches ReadEvent::Data(chunk)
                    &&& chunk@ == old(self).incoming().take(count as int)
                    &&& final(self).incoming() == old(self).incoming().skip(count as int)
                }
            },
    {
        if self.failed {
            return ReadEvent::Fault;
        }
        let available = self.incoming.len();
        if available == 0 {
            return ReadEvent::Closed;
        }
        let mut count = most;
        if self.pace.len() > 0 {
            let limit = self.pace.remove(0);
            if limit == 0 {
                return ReadEvent::NotReady;
            }
            if limit < count {
                count = limit;
            }
        }
        if available < count {
            count = available;
        }
        let mut chunk = self.incoming.split_off(count);
        std::mem::swap(&mut self.incoming, &mut chunk);
        ReadEvent::Data(chunk)
    }

    /// One attempt to write `bytes`. A stream that has failed reports the
    /// fault. Otherwise the attempt uses up one entry of the pace and takes
    /// bytes from the front of `bytes`, or none yet.
    pub fn write(&mut self, bytes: &[u8]) -> (event: WriteEvent)
        ensures
            final(self).incoming() == old(self).incoming(),
            final(self).failed() == old(self).failed(),
            old(self).failed() ==> {
                &&& event == WriteEvent::Fault
                &&& final(self).outgoing() == old(self).outgoing()
                &&& final(self).pace() == old(self).pace()
            },
            !old(self).failed() ==> {
                &&& final(self).pace() == old(self).pace_after()
                &&& if old(self).stalled() {
                    &&& event == WriteEvent::NotReady
                    &&& final(self).outgoing() == old(self).outgoing()
                } else {
                    let count = old(self).quota(bytes@.len(), bytes@.len());
                    &&& event == WriteEvent::Wrote(count as usize)
                    &&& final(self).outgoing() == old(self).outgoing() + bytes@.take(count as int)
                }
            },
    {
        if self.failed {
            return WriteEvent::Fault;
        }
        let mut count = bytes.len();
        if self.pace.len() > 0 {
            let limit = self.pace.remove(0);
            if limit == 0 {
                return WriteEvent::NotReady;
            }
            if limit < count {
                count = limit;
            }
        }
        self.outgoing.extend_from_slice(slice_subrange(bytes, 0, count));
        WriteEvent::Wrote(count)
    }
}

} // verus!
