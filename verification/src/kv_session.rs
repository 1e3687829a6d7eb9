//! The secure session: a 32-byte channel key derived from the ephemeral
//! exchange, and the length-prefixed encrypt-then-frame / deframe-then-
//! decrypt layer built on it. A frame is `[u64 length][12-byte nonce]
//! [ciphertext with tag]`; sending seals under a fresh nonce, receiving
//! opens under the nonce carried by the frame.

use vstd::prelude::*;
use vstd::bytes::lemma_auto_spec_u64_to_from_le_bytes;
use vstd::slice::slice_subrange;
use crate::aead::{aead_open, aead_open_of, aead_seal};
use crate::codec::{dec_bytes, enc_bytes, lemma_dec_bytes, read_bytes, write_bytes};
use crate::dh::{channel_key_of, ecdh_pub_of, KeyPair};
use crate::errors::{KVSError, KVSResult};
use crate::rng::random_bytes;

verus! {

/// What opening a frame under a channel key returns: the sealed payload
/// when the frame is exactly one length-prefixed body of nonce and
/// ciphertext whose tag verifies, nothing otherwise.
pub open spec fn open_frame_spec(key: Seq<u8>, frame: Seq<u8>) -> Option<Seq<u8>> {
    match dec_bytes(frame) {
        Some((body, c)) => if c == frame.len() && body.len() >= 12 {
            aead_open_of(key, body.subrange(0, 12), body.skip(12))
        } else {
            None
        },
        None => None,
    }
}

/// The frame round trip: a frame framed as the length-prefixed nonce and
/// ciphertext of a payload opens, under the same key, to exactly that
/// payload. Sending and then receiving on one session returns the bytes
/// unchanged.
pub proof fn lemma_frame_round_trip(key: Seq<u8>, nonce: Seq<u8>, ct: Seq<u8>, payload: Seq<u8>)
    requires
        nonce.len() == 12,
        nonce.len() + ct.len() <= u64::MAX,
        aead_open_of(key, nonce, ct) == Some(payload),
    ensures
        open_frame_spec(key, enc_bytes(nonce + ct)) == Some(payload),
{
    lemma_auto_spec_u64_to_from_le_bytes();
    let body = nonce + ct;
    let frame = enc_bytes(body);
    lemma_dec_bytes(body, Seq::empty());
    assert(frame =~= enc_bytes(body) + Seq::<u8>::empty());
    assert(body.subrange(0, 12) =~= nonce);
    assert(body.skip(12) =~= ct);
}

/// One end of a secured connection: the channel key for its lifetime.
pub struct KVSSession {
    key: Vec<u8>,
}

impl KVSSession {
    /// The symmetric channel key.
    pub closed spec fn key_view(&self) -> Seq<u8> {
        self.key@
    }

    pub open spec fn wf(&self) -> bool {
        self.key_view().len() == 32
    }

    /// Both peers derive the same key: when the peer's point belongs to a
    /// private key `osk`, the session key equals the one `osk`'s owner
    /// derives from our public point.
    pub fn establish(kp: &KeyPair, peer_pk: &[u8]) -> (r: KVSResult<KVSSession>)
        requires
            kp.wf(),
        ensures
            r matches Ok(s) ==> s.wf() && s.key_view() == channel_key_of(kp.sk_view(), peer_pk@),
            (exists|osk: Seq<u8>| (#[trigger] ecdh_pub_of(osk)) == peer_pk@) ==> r is Ok,
            r matches Ok(s) ==> forall|osk: Seq<u8>|
                (#[trigger] ecdh_pub_of(osk)) == peer_pk@ ==> s.key_view() == channel_key_of(
                    osk,
                    kp.pk_view(),
                ),
    {
        match kp.to_shared_secret(peer_pk) {
            Ok(key) => Ok(KVSSession { key }),
            Err(e) => Err(e),
        }
    }

    /// A session over an agreed key, as both peers hold after the
    /// handshake.
    pub fn from_key(key: Vec<u8>) -> (r: KVSSession)
        requires
            key@.len() == 32,
        ensures
            r.wf(),
            r.key_view() == key@,
    {
        KVSSession { key }
    }

    /// Seal one payload into a frame. The frame opens, on any session with
    /// the same key, to exactly the original payload: `receive` after
    /// `send` returns the bytes unchanged. Sealing succeeds for every
    /// payload up to the cipher's size bound.
    pub fn seal_frame(&self, payload: &[u8]) -> (r: KVSResult<Vec<u8>>)
        requires
            self.wf(),
        ensures
            r matches Ok(f) ==> open_frame_spec(self.key_view(), f@) == Some(payload@),
            payload@.len() <= 0x10_0000_0000 ==> r is Ok,
    {
        let nonce = random_bytes(12);
        let ct = match aead_seal(self.key.as_slice(), nonce.as_slice(), payload) {
            Ok(ct) => ct,
            Err(e) => {
                return Err(e);
            },
        };
        let mut body = nonce;
        let ghost nonce_bytes = body@;
        body.extend_from_slice(ct.as_slice());
        let mut frame: Vec<u8> = Vec::new();
        let _body_len: usize = body.len();
        write_bytes(&mut frame, &body);
        proof {
            assert(body@ =~= nonce_bytes + ct@);
            lemma_frame_round_trip(self.key_view(), nonce_bytes, ct@, payload@);
            assert(frame@ =~= enc_bytes(body@));
        }
        Ok(frame)
    }

    /// Open one frame. Success returns the sealed payload; a frame that
    /// does not deframe, or whose tag does not verify, is an error and
    /// never a payload.
    pub fn open_frame(&self, frame: &Vec<u8>) -> (r: KVSResult<Vec<u8>>)
        requires
            self.wf(),
        ensures
            r matches Ok(m) ==> open_frame_spec(self.key_view(), frame@) == Some(m@),
            r is Err ==> open_frame_spec(self.key_view(), frame@) is None,
    {
        proof {
            assert(frame@.skip(0) =~= frame@);
        }
        match read_bytes(frame, 0) {
            Some((body, p)) => {
                if p != frame.len() {
                    return Err(KVSError::CodecError);
                }
                if body.len() < 12 {
                    return Err(KVSError::CodecError);
                }
                let nonce = slice_subrange(body.as_slice(), 0, 12);
                let ct = slice_subrange(body.as_slice(), 12, body.len());
                proof {
                    assert(nonce@ =~= body@.subrange(0, 12));
                    assert(ct@ =~= body@.skip(12));
                }
                aead_open(self.key.as_slice(), nonce, ct)
            },
            None => Err(KVSError::CodecError),
        }
    }
}

} // verus!
