//! The version probe: no input, a version string back. Used purely to
//! check connectivity and compatibility.

use vstd::prelude::*;
use vstd::string::StringExecFns;
use crate::codec::{dec_str, read_str, read_u8, write_str, write_u8};
use crate::errors::{KVSError, KVSResult};

verus! {

/// The request that asks the server for its version.
pub struct RemoteVersionAction;

/// The version this server reports.
pub open spec fn version_str() -> Seq<char> {
    "0.1.0"@
}

impl RemoteVersionAction {
    /// The server side of a version probe: the fixed version string.
    pub fn serve(&self) -> (r: String)
        ensures
            r@ == version_str(),
    {
        String::from_str("0.1.0")
    }
}

/// What a full version-reply payload decodes to.
pub open spec fn version_reply_of(b: Seq<u8>) -> Option<Result<Seq<char>, Seq<char>>> {
    if b.len() >= 1 && b[0] == 0 {
        match dec_str(b.skip(1)) {
            Some((s, c)) => if 1 + c == b.len() {
                Some(Ok(s))
            } else {
                None
            },
            None => None,
        }
    } else if b.len() >= 1 && b[0] == 1 {
        match dec_str(b.skip(1)) {
            Some((m, c)) => if 1 + c == b.len() {
                Some(Err(m))
            } else {
                None
            },
            None => None,
        }
    } else {
        None
    }
}

/// The server's successful reply to a version probe.
pub fn encode_version_reply(s: &String) -> (r: Vec<u8>)
    ensures
        version_reply_of(r@) == Some(Result::<Seq<char>, Seq<char>>::Ok(s@)),
{
    let mut out: Vec<u8> = Vec::new();
    let _s_len: usize = s.as_str().as_bytes().len();
    write_u8(&mut out, 0);
    write_str(&mut out, s);
    proof {
        vstd::bytes::lemma_auto_spec_u64_to_from_le_bytes();
        crate::codec::lemma_dec_str(s@, Seq::empty());
        assert(out@.skip(1) =~= crate::codec::enc_str(s@) + Seq::<u8>::empty());
        assert(out@[0] == 0);
    }
    out
}

/// The client's reading of a version reply.
pub fn parse_version_reply(payload: &Vec<u8>) -> (r: KVSResult<String>)
    ensures
        r matches Ok(s) ==> version_reply_of(payload@) == Some(Result::<Seq<char>, Seq<char>>::Ok(
            s@,
        )),
        r matches Err(KVSError::LogicError(m)) ==> version_reply_of(payload@) == Some(Result::<
            Seq<char>,
            Seq<char>,
        >::Err(m@)),
        r matches Err(KVSError::CodecError) ==> version_reply_of(payload@) is None,
        r matches Err(e) ==> (e is LogicError || e is CodecError),
{
    match read_u8(payload, 0) {
        Some((tag, p)) => {
            proof {
                assert(payload@.skip(0) =~= payload@);
                assert(payload@.skip(0)[0] == payload@[0]);
            }
            if tag == 0 || tag == 1 {
                match read_str(payload, p) {
                    Some((s, p2)) => {
                        if p2 == payload.len() {
                            if tag == 0 {
                                Ok(s)
                            } else {
                                Err(KVSError::LogicError(s))
                            }
                        } else {
                            Err(KVSError::CodecError)
                        }
                    },
                    None => Err(KVSError::CodecError),
                }
            } else {
                Err(KVSError::CodecError)
            }
        },
        None => Err(KVSError::CodecError),
    }
}

} // verus!
