use vstd::prelude::*;

verus! {

/// A stage-local failure, described by a message.
#[derive(Debug)]
pub struct ServiceError {
    message: String,
}

impl ServiceError {
    /// The message that the error carries.
    pub closed spec fn message(&self) -> Seq<char> {
        self.message@
    }

    /// An error that carries `message`.
    pub fn new(message: String) -> (error: Self)
        ensures
            error.message() == message@,
    {
        ServiceError { message }
    }

    /// The text shown for the error: its message, unchanged.
    pub fn to_string(&self) -> (text: String)
        ensures
            text@ == self.message(),
    {
        self.message.clone()
    }
}

} // verus!
