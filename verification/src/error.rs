use vstd::prelude::*;

verus! {

/// An error that carries a message for a person to read.
pub trait PaperError {
    /// The message, as a sequence of characters.
    spec fn message_text(&self) -> Seq<char>;

    fn message(&self) -> (message: &str)
        ensures
            message@ == self.message_text(),
    ;
}

} // verus!
