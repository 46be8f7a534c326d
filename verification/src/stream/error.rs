use vstd::prelude::*;

verus! {

/// Why an exchange over a stream failed. Every kind is final for the message
/// in flight: the position in the stream can no longer be trusted.
#[derive(Debug, PartialEq, Eq, Clone, Copy, Structural)]
pub enum StreamError {
    /// The transport reported a fault, or broke its own contract.
    InvalidStream,
    /// The peer closed the stream before the bytes asked for had arrived.
    ClosedStream,
    /// The bytes arrived but are not an encoding of the field asked for.
    InvalidData,
}

impl StreamError {
    /// The sentence that describes the error to a person.
    pub open spec fn text(self) -> Seq<char> {
        match self {
            StreamError::InvalidStream => "Could not write to stream."@,
            StreamError::ClosedStream => "Stream closed unexpectedly."@,
            StreamError::InvalidData => "Could not read data from stream."@,
        }
    }

    pub fn to_string(&self) -> (message: String)
        ensures
            message@ == self.text(),
    {
        match self {
            StreamError::InvalidStream => "Could not write to stream.".to_owned(),
            StreamError::ClosedStream => "Stream closed unexpectedly.".to_owned(),
            StreamError::InvalidData => "Could not read data from stream.".to_owned(),
        }
    }
}

} // verus!
