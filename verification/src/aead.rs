//! Authenticated symmetric encryption of frames and envelopes, built on
//! AES-256-GCM. Every message is sealed under a fresh random 12-byte nonce
//! that travels in front of the ciphertext: a fixed nonce under a
//! long-lived key would let equal plaintexts be recognised on the wire,
//! so no nonce is ever reused deliberately.

use vstd::prelude::*;
use aes_gcm::aead::Aead;
use aes_gcm::KeyInit;
use crate::errors::KVSError;

verus! {

/// The ciphertext-with-tag that AES-256-GCM assigns to a key, a nonce and a
/// plaintext: a function of those three values alone.
pub uninterp spec fn aead_seal_of(key: Seq<u8>, nonce: Seq<u8>, msg: Seq<u8>) -> Seq<u8>;

/// What AES-256-GCM decryption returns for a key, a nonce and a ciphertext:
/// the plaintext when the tag verifies, nothing otherwise.
pub uninterp spec fn aead_open_of(key: Seq<u8>, nonce: Seq<u8>, ct: Seq<u8>) -> Option<Seq<u8>>;

/// What the owner's envelope decryption returns: the entry key is opened
/// with the first 32 bytes of the private-key encoding, then the value
/// with the entry key; each ciphertext carries its nonce in front.
pub open spec fn open_env(priv_bits: Seq<u8>, rand_ct: Seq<u8>, value_ct: Seq<u8>) -> Option<
    Seq<u8>,
> {
    if rand_ct.len() >= 12 && value_ct.len() >= 12 {
        match aead_open_of(
            priv_bits.subrange(0, 32),
            rand_ct.subrange(0, 12),
            rand_ct.skip(12),
        ) {
            Some(entry_key) => if entry_key.len() == 32 {
                aead_open_of(entry_key, value_ct.subrange(0, 12), value_ct.skip(12))
            } else {
                None
            },
            None => None,
        }
    } else {
        None
    }
}

/// The envelope round trip: a value sealed under a fresh 32-byte entry
/// key, with the entry key itself sealed under the head of the owner's
/// private-key bytes, opens for the owner to exactly the original value.
pub proof fn lemma_envelope_round_trip(
    priv_bits: Seq<u8>,
    entry_key: Seq<u8>,
    nv: Seq<u8>,
    vct: Seq<u8>,
    nr: Seq<u8>,
    rct: Seq<u8>,
    value: Seq<u8>,
)
    requires
        nv.len() == 12,
        nr.len() == 12,
        entry_key.len() == 32,
        aead_open_of(priv_bits.subrange(0, 32), nr, rct) == Some(entry_key),
        aead_open_of(entry_key, nv, vct) == Some(value),
    ensures
        open_env(priv_bits, nr + rct, nv + vct) == Some(value),
{
    assert((nr + rct).subrange(0, 12) =~= nr);
    assert((nr + rct).skip(12) =~= rct);
    assert((nv + vct).subrange(0, 12) =~= nv);
    assert((nv + vct).skip(12) =~= vct);
}

/// Relies on aes_gcm::Aes256Gcm encryption: the result is a function of
/// key, nonce and plaintext, it is the plaintext's length plus the
/// 16-byte tag, decrypting it under the same key and nonce returns the
/// plaintext, and sealing fails only for a plaintext above the cipher's
/// size bound of two-to-the-36 bytes.
#[verifier::external_body]
pub(crate) fn aead_seal(key: &[u8], nonce: &[u8], msg: &[u8]) -> (r: Result<
    Vec<u8>,
    crate::errors::KVSError,
>)
    requires
        key@.len() == 32,
        nonce@.len() == 12,
    ensures
        r matches Ok(ct) ==> ct@ == aead_seal_of(key@, nonce@, msg@),
        r matches Ok(ct) ==> aead_open_of(key@, nonce@, ct@) == Some(msg@),
        r matches Ok(ct) ==> ct@.len() == msg@.len() + 16,
        msg@.len() <= 0x10_0000_0000 ==> r is Ok,
        r matches Err(e) ==> e is AESGcmError,
{
    let k = aes_gcm::Key::<aes_gcm::Aes256Gcm>::from_slice(key);
    let cipher = aes_gcm::Aes256Gcm::new(k);
    let n = aes_gcm::Nonce::from_slice(nonce);
    match cipher.encrypt(n, msg) {
        Ok(ct) => Ok(ct),
        Err(_) => Err(crate::errors::KVSError::AESGcmError),
    }
}

/// Relies on aes_gcm::Aes256Gcm decryption: it is deterministic in key,
/// nonce and ciphertext, succeeds exactly when the authentication tag
/// verifies, and then returns the sealed plaintext.
#[verifier::external_body]
pub(crate) fn aead_open(key: &[u8], nonce: &[u8], ct: &[u8]) -> (r: Result<
    Vec<u8>,
    crate::errors::KVSError,
>)
    requires
        key@.len() == 32,
        nonce@.len() == 12,
    ensures
        r is Ok <==> aead_open_of(key@, nonce@, ct@) is Some,
        r matches Ok(m) ==> aead_open_of(key@, nonce@, ct@) == Some(m@),
        r matches Err(e) ==> e is AESGcmError,
{
    let k = aes_gcm::Key::<aes_gcm::Aes256Gcm>::from_slice(key);
    let cipher = aes_gcm::Aes256Gcm::new(k);
    let n = aes_gcm::Nonce::from_slice(nonce);
    match cipher.decrypt(n, ct) {
        Ok(m) => Ok(m),
        Err(_) => Err(crate::errors::KVSError::AESGcmError),
    }
}

} // verus!
