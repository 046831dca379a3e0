//! The error that every conversion of the bridge reports: a message.

use vstd::prelude::*;
use vstd::string::StringExecFns;

verus! {

/// An error of the bridge, carrying the message shown to the caller.
#[derive(Debug, Clone, PartialEq, Eq)]
pub struct BridgeError {
    message: String,
}

impl View for BridgeError {
    type V = Seq<char>;

    /// The message of the error.
    closed spec fn view(&self) -> Seq<char> {
        self.message@
    }
}

impl BridgeError {
    /// An error with the given message.
    pub fn new(message: &str) -> (res: BridgeError)
        ensures
            res@ == message@,
    {
        BridgeError { message: String::from_str(message) }
    }

    /// The error reported for a payload that is not valid JSON for the
    /// expected shape: `invalid json payload: ` followed by the parser's
    /// own description.
    pub fn json_payload(detail: &str) -> (res: BridgeError)
        ensures
            res@ == "invalid json payload: "@ + detail@,
    {
        let prefix = String::from_str("invalid json payload: ");
        BridgeError { message: prefix.concat(detail) }
    }

    /// The message of the error, as its display text.
    pub fn to_string(&self) -> (res: String)
        ensures
            res@ == self@,
    {
        self.message.clone()
    }
}

} // verus!
