//! Error type of shared-config parsing and serialization.

use vstd::prelude::*;

verus! {

/// Parse / serialize error for shared-config payloads, carrying its message.
#[derive(Debug, Clone)]
pub struct SharedConfigError {
    pub(crate) msg: String,
}

impl View for SharedConfigError {
    type V = Seq<char>;

    /// The error's message.
    closed spec fn view(&self) -> Seq<char> {
        self.msg@
    }
}

impl SharedConfigError {
    /// An error with the given message.
    pub fn new(msg: &str) -> (r: Self)
        ensures
            r@ == msg@,
    {
        SharedConfigError { msg: msg.to_owned() }
    }

    /// The error's message.
    pub fn message(&self) -> (r: String)
        ensures
            r@ == self@,
    {
        self.msg.clone()
    }
}

} // verus!
