use vstd::prelude::*;
use vstd::string::StringExecFns;

verus! {

/// The error taxonomy of the store. A `LogicError` carries a message that is
/// reported to the remote peer as a structured `Err` reply; every other kind
/// is fatal to the current connection and is never echoed back, so that no
/// internal state leaks to an unauthenticated peer.
#[derive(Debug)]
pub enum KVSError {
    /// An application-level failure whose message is sent to the peer.
    LogicError(String),
    /// An authenticated-encryption failure: a frame or envelope whose tag
    /// does not verify, or a key of the wrong shape.
    AESGcmError,
    /// An asymmetric-cryptography failure: a key that does not parse or a
    /// ciphertext that does not decrypt.
    RSAError,
    /// A frame or payload that does not decode as the expected structure.
    CodecError,
}

pub type KVSResult<T> = Result<T, KVSError>;

impl KVSError {
    /// The message of a logic error; the other kinds describe themselves
    /// with a fixed phrase.
    pub fn message(&self) -> (r: String)
        ensures
            self matches KVSError::LogicError(m) ==> r@ == m@,
            self is AESGcmError ==> r@ == "authenticated encryption failure"@,
            self is RSAError ==> r@ == "asymmetric cryptography failure"@,
            self is CodecError ==> r@ == "malformed frame or payload"@,
    {
        match self {
            KVSError::LogicError(m) => m.clone(),
            KVSError::AESGcmError => String::from_str("authenticated encryption failure"),
            KVSError::RSAError => String::from_str("asymmetric cryptography failure"),
            KVSError::CodecError => String::from_str("malformed frame or payload"),
        }
    }
}

} // verus!
