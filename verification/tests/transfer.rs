use paper_utils::stream::transfer::{
    ReadAction, ReadEvent, ReadExact, ReadStep, Transport, WriteAction, WriteAll, WriteEvent,
    WriteStep,
};
use paper_utils::stream::StreamError;

fn reading(step: ReadStep) -> ReadExact {
    match step {
        ReadStep::Continue(read) => read,
        ReadStep::Finished(result) => panic!("the read is over: {:?}", result),
    }
}

fn read_result(step: ReadStep) -> Result<Vec<u8>, StreamError> {
    match step {
        ReadStep::Continue(read) => panic!("the read is in flight: {:?}", read),
        ReadStep::Finished(result) => result,
    }
}

fn writing(step: WriteStep) -> WriteAll {
    match step {
        WriteStep::Continue(write) => write,
        WriteStep::Finished(result) => panic!("the write is over: {:?}", result),
    }
}

fn write_result(step: WriteStep) -> Result<(), StreamError> {
    match step {
        WriteStep::Continue(write) => panic!("the write is in flight: {:?}", write),
        WriteStep::Finished(result) => result,
    }
}

#[test]
fn a_read_of_nothing_is_over_at_once() {
    assert_eq!(read_result(ReadExact::start(0, Transport::Blocking)), Ok(Vec::new()));
    assert_eq!(read_result(ReadExact::start(0, Transport::NonBlocking)), Ok(Vec::new()));
}

#[test]
fn a_read_asks_for_what_it_misses() {
    let read = reading(ReadExact::start(5, Transport::Blocking));
    assert_eq!(read.action(), ReadAction::Read(5));
    let read = reading(read.step(ReadEvent::Data(vec![1, 2])));
    assert_eq!(read.action(), ReadAction::Read(3));
    let read = reading(read.step(ReadEvent::Data(vec![3])));
    assert_eq!(read.action(), ReadAction::Read(2));
    assert_eq!(read_result(read.step(ReadEvent::Data(vec![4, 5]))), Ok(vec![1, 2, 3, 4, 5]));
}

#[test]
fn a_read_takes_single_bytes() {
    let mut step = ReadExact::start(4, Transport::NonBlocking);
    for byte in [9u8, 8, 7] {
        step = reading(step).step(ReadEvent::Data(vec![byte]));
    }
    let read = reading(step);
    assert_eq!(read.action(), ReadAction::Read(1));
    assert_eq!(read_result(read.step(ReadEvent::Data(vec![6]))), Ok(vec![9, 8, 7, 6]));
}

#[test]
fn a_read_in_one_delivery() {
    let read = reading(ReadExact::start(3, Transport::Blocking));
    assert_eq!(read_result(read.step(ReadEvent::Data(vec![1, 2, 3]))), Ok(vec![1, 2, 3]));
}

#[test]
fn a_closed_stream_ends_a_read() {
    let read = reading(ReadExact::start(3, Transport::Blocking));
    assert_eq!(read_result(read.step(ReadEvent::Closed)), Err(StreamError::ClosedStream));

    let read = reading(ReadExact::start(3, Transport::NonBlocking));
    let read = reading(read.step(ReadEvent::Data(vec![1, 2])));
    assert_eq!(read_result(read.step(ReadEvent::Closed)), Err(StreamError::ClosedStream));
}

#[test]
fn no_bytes_from_a_ready_stream_mean_that_it_closed() {
    let read = reading(ReadExact::start(3, Transport::NonBlocking));
    let read = reading(read.step(ReadEvent::Data(vec![1])));
    assert_eq!(read_result(read.step(ReadEvent::Data(Vec::new()))), Err(StreamError::ClosedStream));
}

#[test]
fn a_fault_ends_a_read() {
    let read = reading(ReadExact::start(3, Transport::Blocking));
    assert_eq!(read_result(read.step(ReadEvent::Fault)), Err(StreamError::InvalidStream));

    let read = reading(ReadExact::start(3, Transport::NonBlocking));
    let read = reading(read.step(ReadEvent::NotReady));
    assert_eq!(read_result(read.step(ReadEvent::Fault)), Err(StreamError::InvalidStream));
}

#[test]
fn more_bytes_than_asked_for_end_a_read() {
    let read = reading(ReadExact::start(2, Transport::Blocking));
    assert_eq!(
        read_result(read.step(ReadEvent::Data(vec![1, 2, 3]))),
        Err(StreamError::InvalidStream)
    );
}

#[test]
fn a_read_waits_for_a_stream_that_is_not_ready() {
    let read = reading(ReadExact::start(2, Transport::NonBlocking));
    let read = reading(read.step(ReadEvent::NotReady));
    assert_eq!(read.action(), ReadAction::AwaitReadable);
    let read = reading(read.step(ReadEvent::NotReady));
    assert_eq!(read.action(), ReadAction::AwaitReadable);
    let read = reading(read.step(ReadEvent::Ready));
    assert_eq!(read.action(), ReadAction::Read(2));
    let read = reading(read.step(ReadEvent::Data(vec![1])));
    let read = reading(read.step(ReadEvent::NotReady));
    assert_eq!(read.action(), ReadAction::AwaitReadable);
    let read = reading(read.step(ReadEvent::Ready));
    assert_eq!(read.action(), ReadAction::Read(1));
    assert_eq!(read_result(read.step(ReadEvent::Data(vec![2]))), Ok(vec![1, 2]));
}

#[test]
fn a_blocking_stream_that_is_not_ready_has_broken_its_word() {
    let read = reading(ReadExact::start(2, Transport::Blocking));
    assert_eq!(read_result(read.step(ReadEvent::NotReady)), Err(StreamError::InvalidStream));

    let write = writing(WriteAll::start(2, Transport::Blocking));
    assert_eq!(write_result(write.step(WriteEvent::NotReady)), Err(StreamError::InvalidStream));
}

#[test]
fn a_write_of_nothing_is_over_at_once() {
    assert_eq!(write_result(WriteAll::start(0, Transport::Blocking)), Ok(()));
    assert_eq!(write_result(WriteAll::start(0, Transport::NonBlocking)), Ok(()));
}

#[test]
fn a_write_offers_what_is_left() {
    let write = writing(WriteAll::start(10, Transport::Blocking));
    assert_eq!(write.action(), WriteAction::Write(0));
    let write = writing(write.step(WriteEvent::Wrote(4)));
    assert_eq!(write.action(), WriteAction::Write(4));
    let write = writing(write.step(WriteEvent::Wrote(1)));
    assert_eq!(write.action(), WriteAction::Write(5));
    assert_eq!(write_result(write.step(WriteEvent::Wrote(5))), Ok(()));
}

#[test]
fn a_write_that_moves_nothing_has_failed() {
    let write = writing(WriteAll::start(3, Transport::Blocking));
    assert_eq!(write_result(write.step(WriteEvent::Wrote(0))), Err(StreamError::InvalidStream));
}

#[test]
fn a_write_that_moves_too_much_has_failed() {
    let write = writing(WriteAll::start(3, Transport::NonBlocking));
    let write = writing(write.step(WriteEvent::Wrote(2)));
    assert_eq!(write_result(write.step(WriteEvent::Wrote(2))), Err(StreamError::InvalidStream));
}

#[test]
fn a_fault_ends_a_write() {
    let write = writing(WriteAll::start(3, Transport::NonBlocking));
    assert_eq!(write_result(write.step(WriteEvent::Fault)), Err(StreamError::InvalidStream));
}

#[test]
fn a_write_waits_for_a_stream_that_is_not_ready() {
    let write = writing(WriteAll::start(3, Transport::NonBlocking));
    let write = writing(write.step(WriteEvent::NotReady));
    assert_eq!(write.action(), WriteAction::AwaitWritable);
    let write = writing(write.step(WriteEvent::Ready));
    assert_eq!(write.action(), WriteAction::Write(0));
    let write = writing(write.step(WriteEvent::Wrote(2)));
    let write = writing(write.step(WriteEvent::NotReady));
    assert_eq!(write.action(), WriteAction::AwaitWritable);
    let write = writing(write.step(WriteEvent::Ready));
    assert_eq!(write.action(), WriteAction::Write(2));
    assert_eq!(write_result(write.step(WriteEvent::Wrote(1))), Ok(()));
}
