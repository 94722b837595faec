//! What a request can fail with.

use vstd::prelude::*;
use vstd::string::StringExecFns;

verus! {

/// Result of a request: the answer, or why there is none.
pub type RequestResult<T, E> = Result<T, RequestError<E>>;

/// A payload that was received but is not the JSON that was asked for.
#[derive(Debug)]
pub struct DecodeError {
    /// What the decoder said.
    pub reason: String,
    /// The payload as text, for diagnosis.
    pub raw: String,
}

/// Why a request has no answer. `E` is the error of the HTTP engine in use;
/// it is handed on as it came.
#[derive(Debug)]
pub enum RequestError<E> {
    /// The engine failed: the network, the protocol or the engine itself.
    Transport(E),
    /// The answer came, but its payload could not be decoded.
    Decode(DecodeError),
}

impl DecodeError {
    /// What [`DecodeError::message`] returns.
    pub open spec fn message_text(self) -> Seq<char> {
        "e: "@ + self.reason@ + "\nraw: "@ + self.raw@
    }

    /// Both the decoder's words and the payload, in one text.
    pub fn message(&self) -> (res: String)
        ensures
            res@ == self.message_text(),
    {
        let mut res = String::from_str("e: ");
        res.append(self.reason.as_str());
        res.append("\nraw: ");
        res.append(self.raw.as_str());
        res
    }
}

} // verus!
