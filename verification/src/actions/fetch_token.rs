//! Token issuance: the challenge/response handshake that turns a public
//! key into a signed capability token, and the stateless signature check
//! the server performs on every later request.

use vstd::prelude::*;
use vstd::bytes::{lemma_auto_spec_u64_to_from_le_bytes, spec_u64_to_le_bytes, u64_to_le_bytes};
use crate::codec::{
    dec_bytes, dec_i64, dec_str, enc_bytes, enc_i64, lemma_dec_bytes, lemma_dec_i64,
    lemma_skip_skip, read_bytes, read_i64, read_str, read_u8, write_bytes, write_i64, write_u8,
};
use crate::errors::{KVSError, KVSResult};
use crate::secret::{rsa_decrypt_of, rsa_pub_of, rsa_spki_ok, Secret};
use crate::utils::{bytes_eq, clone_bytes, sgin, sgin_of};
use vstd::string::StringExecFns;

verus! {

/// The big-endian bytes of the 64-bit timestamp, as they enter the token
/// signature.
pub open spec fn i64_be_bytes(x: i64) -> Seq<u8> {
    Seq::new(8, |i: int| spec_u64_to_le_bytes(x as u64)[7 - i])
}

pub fn i64_to_be_bytes(x: i64) -> (r: Vec<u8>)
    ensures
        r@ == i64_be_bytes(x),
{
    let le = u64_to_le_bytes(x as u64);
    proof {
        lemma_auto_spec_u64_to_from_le_bytes();
    }
    let mut out: Vec<u8> = Vec::new();
    let mut i: usize = 0;
    while i < 8
        invariant
            i <= 8,
            le@ == spec_u64_to_le_bytes(x as u64),
            le@.len() == 8,
            out@.len() == i,
            forall|j: int| 0 <= j < i ==> out@[j] == le@[7 - j],
        decreases 8 - i,
    {
        out.push(le[7 - i]);
        i += 1;
    }
    proof {
        assert(out@ =~= i64_be_bytes(x));
    }
    out
}

/// The token signature: the compact signature of the identity hash, the
/// big-endian timestamp and the server secret, concatenated. Only a party
/// holding the secret can reproduce it, so the server verifies tokens it
/// never stored.
pub open spec fn token_sig_of(id: Seq<u8>, time_stamp: i64, jwt_secret: Seq<u8>) -> Seq<u8> {
    sgin_of(id + i64_be_bytes(time_stamp) + jwt_secret)
}

/// The capability token: the client's 20-byte identity hash, the issue
/// time in milliseconds, and the signature.
#[derive(Debug)]
pub struct KVSToken {
    pub id: Vec<u8>,
    pub time_stamp: i64,
    pub sign: Vec<u8>,
}

pub ghost struct TokenView {
    pub id: Seq<u8>,
    pub time_stamp: i64,
    pub sign: Seq<u8>,
}

impl View for KVSToken {
    type V = TokenView;

    open spec fn view(&self) -> TokenView {
        TokenView { id: self.id@, time_stamp: self.time_stamp, sign: self.sign@ }
    }
}

impl KVSToken {
    pub fn dup(&self) -> (r: KVSToken)
        ensures
            r@ == self@,
    {
        KVSToken {
            id: clone_bytes(&self.id),
            time_stamp: self.time_stamp,
            sign: clone_bytes(&self.sign),
        }
    }

    /// Issue a token for an identity at a time: the signature is exactly
    /// `token_sig_of`.
    pub fn issue(id: &Vec<u8>, time_stamp: i64, jwt_secret: &Vec<u8>) -> (r: KVSToken)
        ensures
            r@.id == id@,
            r@.time_stamp == time_stamp,
            r@.sign == token_sig_of(id@, time_stamp, jwt_secret@),
    {
        let mut payload = clone_bytes(id);
        let be = i64_to_be_bytes(time_stamp);
        payload.extend_from_slice(be.as_slice());
        payload.extend_from_slice(jwt_secret.as_slice());
        proof {
            assert(payload@ =~= id@ + i64_be_bytes(time_stamp) + jwt_secret@);
        }
        let sign = sgin(payload.as_slice());
        KVSToken { id: clone_bytes(id), time_stamp, sign }
    }

    /// A token is accepted exactly when its signature equals the one
    /// recomputed from its identity, its timestamp and the server secret.
    pub fn verify(&self, jwt_secret: &Vec<u8>) -> (r: bool)
        ensures
            r == (self@.sign == token_sig_of(self@.id, self@.time_stamp, jwt_secret@)),
    {
        let mut payload = clone_bytes(&self.id);
        let be = i64_to_be_bytes(self.time_stamp);
        payload.extend_from_slice(be.as_slice());
        payload.extend_from_slice(jwt_secret.as_slice());
        proof {
            assert(payload@ =~= self@.id + i64_be_bytes(self@.time_stamp) + jwt_secret@);
        }
        let s_sign = sgin(payload.as_slice());
        bytes_eq(&self.sign, &s_sign)
    }
}

// ---------------------------------------------------------------------------
// Wire encoding of tokens and of the token reply.
// ---------------------------------------------------------------------------
pub open spec fn enc_token(t: TokenView) -> Seq<u8> {
    enc_bytes(t.id) + enc_i64(t.time_stamp) + enc_bytes(t.sign)
}

pub open spec fn dec_token(b: Seq<u8>) -> Option<(TokenView, int)> {
    match dec_bytes(b) {
        Some((id, c1)) => match dec_i64(b.skip(c1)) {
            Some((ts, c2)) => match dec_bytes(b.skip(c1 + c2)) {
                Some((sign, c3)) => Some(
                    (TokenView { id, time_stamp: ts, sign }, c1 + c2 + c3),
                ),
                None => None,
            },
            None => None,
        },
        None => None,
    }
}

pub proof fn lemma_dec_token(t: TokenView, rest: Seq<u8>)
    requires
        t.id.len() <= u64::MAX,
        t.sign.len() <= u64::MAX,
    ensures
        dec_token(enc_token(t) + rest) == Some((t, enc_token(t).len() as int)),
{
    lemma_auto_spec_u64_to_from_le_bytes();
    let b = enc_token(t) + rest;
    let tail1 = enc_i64(t.time_stamp) + (enc_bytes(t.sign) + rest);
    assert(b =~= enc_bytes(t.id) + tail1);
    lemma_dec_bytes(t.id, tail1);
    let c1 = 8 + t.id.len() as int;
    assert(b.skip(c1) =~= tail1);
    lemma_dec_i64(t.time_stamp, enc_bytes(t.sign) + rest);
    assert(b.skip(c1 + 8) =~= enc_bytes(t.sign) + rest);
    lemma_dec_bytes(t.sign, rest);
}

pub fn write_token(out: &mut Vec<u8>, t: &KVSToken)
    ensures
        final(out)@ == old(out)@ + enc_token(t@),
{
    write_bytes(out, &t.id);
    write_i64(out, t.time_stamp);
    write_bytes(out, &t.sign);
    proof {
        assert(out@ =~= old(out)@ + enc_token(t@));
    }
}

pub fn read_token(buf: &Vec<u8>, pos: usize) -> (r: Option<(KVSToken, usize)>)
    requires
        pos <= buf@.len(),
    ensures
        r matches Some((t, p)) ==> pos < p <= buf@.len() && dec_token(buf@.skip(pos as int))
            == Some((t@, (p - pos) as int)),
        r is None ==> dec_token(buf@.skip(pos as int)) is None,
{
    let (id, p1) = match read_bytes(buf, pos) {
        Some(x) => x,
        None => {
            return None;
        },
    };
    proof {
        lemma_skip_skip(buf@, pos as int, p1 - pos);
    }
    let (ts, p2) = match read_i64(buf, p1) {
        Some(x) => x,
        None => {
            return None;
        },
    };
    proof {
        lemma_skip_skip(buf@, pos as int, p2 - pos);
    }
    let (sign, p3) = match read_bytes(buf, p2) {
        Some(x) => x,
        None => {
            return None;
        },
    };
    Some((KVSToken { id, time_stamp: ts, sign }, p3))
}

/// What a full token-reply payload decodes to: the token or the peer's
/// error message, provided the payload is exactly one reply.
pub open spec fn token_reply_of(b: Seq<u8>) -> Option<Result<TokenView, Seq<char>>> {
    if b.len() >= 1 && b[0] == 0 {
        match dec_token(b.skip(1)) {
            Some((t, c)) => if 1 + c == b.len() {
                Some(Ok(t))
            } else {
                None
            },
            None => None,
        }
    } else if b.len() >= 1 && b[0] == 1 {
        match dec_str(b.skip(1)) {
            Some((m, c)) => if 1 + c == b.len() {
                Some(Err(m))
            } else {
                None
            },
            None => None,
        }
    } else {
        None
    }
}

/// The server's successful reply to a token request.
pub fn encode_token_reply(t: &KVSToken) -> (r: Vec<u8>)
    ensures
        token_reply_of(r@) == Some(Result::<TokenView, Seq<char>>::Ok(t@)),
{
    let mut out: Vec<u8> = Vec::new();
    let _id_len: usize = t.id.len();
    let _sign_len: usize = t.sign.len();
    write_u8(&mut out, 0);
    write_token(&mut out, t);
    proof {
        lemma_dec_token(t@, Seq::empty());
        assert(out@.skip(1) =~= enc_token(t@) + Seq::<u8>::empty());
        assert(out@[0] == 0);
    }
    out
}

/// The client's reading of a token reply: the issued token, the server's
/// reported logic error, or a malformed-payload error, exactly as the
/// payload decodes.
pub fn parse_token_reply(payload: &Vec<u8>) -> (r: KVSResult<KVSToken>)
    ensures
        r matches Ok(t) ==> token_reply_of(payload@) == Some(Result::<TokenView, Seq<char>>::Ok(
            t@,
        )),
        r matches Err(KVSError::LogicError(m)) ==> token_reply_of(payload@) == Some(Result::<
            TokenView,
            Seq<char>,
        >::Err(m@)),
        r matches Err(KVSError::CodecError) ==> token_reply_of(payload@) is None,
        r matches Err(e) ==> (e is LogicError || e is CodecError),
    {
    match read_u8(payload, 0) {
        Some((tag, p)) => {
            proof {
                assert(payload@.skip(0) =~= payload@);
                assert(payload@.skip(0)[0] == payload@[0]);
            }
            if tag == 0 {
                match read_token(payload, p) {
                    Some((t, p2)) => {
                        if p2 == payload.len() {
                            Ok(t)
                        } else {
                            Err(KVSError::CodecError)
                        }
                    },
                    None => Err(KVSError::CodecError),
                }
            } else if tag == 1 {
                match read_str(payload, p) {
                    Some((m, p2)) => {
                        if p2 == payload.len() {
                            Err(KVSError::LogicError(m))
                        } else {
                            Err(KVSError::CodecError)
                        }
                    },
                    None => Err(KVSError::CodecError),
                }
            } else {
                Err(KVSError::CodecError)
            }
        },
        None => Err(KVSError::CodecError),
    }
}

// ---------------------------------------------------------------------------
// The FetchToken action.
// ---------------------------------------------------------------------------
/// Relies on chrono::Local::now: the wall-clock time in milliseconds,
/// stamped into an issued token. Nothing is promised of the value.
#[verifier::external_body]
pub fn now_millis() -> (r: i64) {
    chrono::Local::now().timestamp_millis()
}

/// The request that opens the authentication handshake: the client's
/// public key, sent over the already-secured session.
pub struct FetchToken {
    pub pub_key: Vec<u8>,
}

pub ghost struct FetchTokenView {
    pub pub_key: Seq<u8>,
}

impl View for FetchToken {
    type V = FetchTokenView;

    open spec fn view(&self) -> FetchTokenView {
        FetchTokenView { pub_key: self.pub_key@ }
    }
}

impl FetchToken {
    /// The server's first step: reject a public key of the wrong size,
    /// else encrypt the fresh nonce under it. Whatever ciphertext comes
    /// back decrypts, under the private key the public key belongs to,
    /// to the nonce: only that key's holder can echo it. The rejection
    /// message comes for the wrong size and nothing else; for a genuine
    /// key of the right size and a nonce that fits the padding, the
    /// challenge is produced.
    pub fn serve_begin(&self, nonce: &Vec<u8>) -> (r: KVSResult<Vec<u8>>)
        ensures
            self.pub_key@.len() != 162 ==> (r matches Err(KVSError::LogicError(m)) && m@
                == "Illegal public key"@),
            r matches Err(KVSError::LogicError(m)) ==> self.pub_key@.len() != 162,
            r matches Ok(ct) ==> self.pub_key@.len() == 162,
            r matches Ok(ct) ==> forall|sk: Seq<u8>|
                self.pub_key@ == (#[trigger] rsa_pub_of(sk)) ==> rsa_decrypt_of(sk, ct@) == Some(
                    nonce@,
                ),
            (rsa_spki_ok(self.pub_key@) && self.pub_key@.len() == 162 && nonce@.len() <= 117)
                ==> r is Ok,
    {
        if self.pub_key.len() != 162 {
            return Err(KVSError::LogicError(String::from_str("Illegal public key")));
        }
        Secret::encrypt_with_pub_key_bits(self.pub_key.as_slice(), nonce.as_slice())
    }

    /// The server's second step: the echoed nonce must match the one sent,
    /// byte for byte; on a match a token for the key's address is issued,
    /// signed with the server secret.
    pub fn serve_finish(&self, nonce: &Vec<u8>, echoed: &Vec<u8>, jwt_secret: &Vec<u8>,
        time_stamp: i64) -> (r: KVSResult<KVSToken>)
        ensures
            r is Ok <==> echoed@ == nonce@,
            r matches Ok(t) ==> t@.id == sgin_of(self.pub_key@) && t@.time_stamp == time_stamp
                && t@.sign == token_sig_of(sgin_of(self.pub_key@), time_stamp, jwt_secret@),
            r matches Err(e) ==> (e matches KVSError::LogicError(m) && m@
                == "Illegal NONCE reply"@),
    {
        if !bytes_eq(echoed, nonce) {
            return Err(KVSError::LogicError(String::from_str("Illegal NONCE reply")));
        }
        let addr = sgin(self.pub_key.as_slice());
        Ok(KVSToken::issue(&addr, time_stamp, jwt_secret))
    }

    /// The client's answer to the challenge: the nonce, recovered with its
    /// private key.
    pub fn answer_challenge(secret: &Secret, challenge: &Vec<u8>) -> (r: KVSResult<Vec<u8>>)
        ensures
            r matches Ok(m) ==> rsa_decrypt_of(secret.priv_key_bits@, challenge@) == Some(m@),
            r is Err ==> rsa_decrypt_of(secret.priv_key_bits@, challenge@) is None,
    {
        Secret::decrypt_width_priv_key_bits(
            secret.priv_key_bits.as_slice(),
            challenge.as_slice(),
        )
    }
}

} // verus!
