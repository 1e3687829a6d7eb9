//! The long-lived asymmetric identity: an RSA-1024 key pair whose public
//! key doubles, hashed, as the client's address, and whose private key
//! answers the authentication challenge and opens envelope keys.

use vstd::prelude::*;
use rand::rngs::OsRng;
use rsa::pkcs1::{DecodeRsaPrivateKey, EncodeRsaPrivateKey};
use rsa::pkcs8::{DecodePublicKey, EncodePublicKey};
use rsa::{Pkcs1v15Encrypt, RsaPrivateKey, RsaPublicKey};
use crate::errors::{KVSError, KVSResult};

verus! {

/// The SPKI encoding of the public key that belongs to a PKCS#1-encoded
/// RSA private key.
pub uninterp spec fn rsa_pub_of(priv_bits: Seq<u8>) -> Seq<u8>;

/// What RSA decryption with a PKCS#1-encoded private key returns for a
/// ciphertext: the plaintext when the padding verifies, nothing otherwise.
pub uninterp spec fn rsa_decrypt_of(priv_bits: Seq<u8>, ct: Seq<u8>) -> Option<Seq<u8>>;

/// The public keys that RsaPublicKey::from_public_key_der accepts whose
/// modulus is at least 128 bytes: every key this library generates is
/// one, and any of them encrypts a message of up to 117 bytes.
pub uninterp spec fn rsa_spki_ok(pub_bits: Seq<u8>) -> bool;

/// An identity key pair, both halves in DER encoding: the public key as
/// SPKI bytes (162 of them for this key size), the private key as PKCS#1
/// bytes.
pub struct Secret {
    pub pub_key_bits: Vec<u8>,
    pub priv_key_bits: Vec<u8>,
}

impl Secret {
    /// A key pair as the generator returns it: matching halves, the fixed
    /// public-key length, and a private encoding long enough to carve an
    /// envelope key out of.
    pub open spec fn wf(&self) -> bool {
        &&& self.pub_key_bits@ == rsa_pub_of(self.priv_key_bits@)
        &&& self.pub_key_bits@.len() == 162
        &&& self.priv_key_bits@.len() >= 32
    }

    /// Relies on rsa::RsaPrivateKey::new and the DER encoders: a fresh
    /// 1024-bit key pair; the SPKI encoding of such a public key is 162
    /// bytes, parses back, and its modulus is 128 bytes, so it satisfies
    /// `rsa_spki_ok`; the PKCS#1 encoding of the private key holds at
    /// least the 128-byte modulus.
    #[verifier::external_body]
    pub fn generate() -> (r: Secret)
        ensures
            r.wf(),
            rsa_spki_ok(r.pub_key_bits@),
    {
        let mut rng = OsRng;
        let priv_key = RsaPrivateKey::new(&mut rng, 1024).expect("failed to generate a priv key");
        let pub_key = RsaPublicKey::from(&priv_key);
        let pub_der = pub_key.to_public_key_der().expect("failed to get public key content");
        let priv_der = priv_key.to_pkcs1_der().expect("failed to get priv key content");
        Secret {
            pub_key_bits: pub_der.as_bytes().to_vec(),
            priv_key_bits: priv_der.as_bytes().to_vec(),
        }
    }

    /// Relies on rsa::RsaPublicKey::from_public_key_der and encrypt with
    /// PKCS#1 v1.5 padding: the padding is randomized, but every
    /// ciphertext it returns decrypts, under the private key the public
    /// key belongs to, back to the message; and encryption succeeds for
    /// any accepted key whose modulus (at least 128 bytes, per
    /// `rsa_spki_ok`) leaves the 11 padding bytes room, so for any
    /// message of up to 117 bytes.
    #[verifier::external_body]
    pub fn encrypt_with_pub_key_bits(pub_key_bits: &[u8], message: &[u8]) -> (r: KVSResult<
        Vec<u8>,
    >)
        ensures
            r matches Ok(ct) ==> forall|sk: Seq<u8>|
                pub_key_bits@ == (#[trigger] rsa_pub_of(sk)) ==> rsa_decrypt_of(sk, ct@) == Some(
                    message@,
                ),
            rsa_spki_ok(pub_key_bits@) && message@.len() <= 117 ==> r is Ok,
            r matches Err(e) ==> e is RSAError,
    {
        let mut rng = OsRng;
        let pub_key = match RsaPublicKey::from_public_key_der(pub_key_bits) {
            Ok(k) => k,
            Err(_) => {
                return Err(KVSError::RSAError);
            },
        };
        match pub_key.encrypt(&mut rng, Pkcs1v15Encrypt, message) {
            Ok(ct) => Ok(ct),
            Err(_) => Err(KVSError::RSAError),
        }
    }

    /// Relies on rsa::RsaPrivateKey::from_pkcs1_der and decrypt with
    /// PKCS#1 v1.5 padding: decryption is a function of key and ciphertext,
    /// returning the plaintext exactly when the padding verifies.
    #[verifier::external_body]
    pub fn decrypt_width_priv_key_bits(priv_key_bits: &[u8], enc_data: &[u8]) -> (r: KVSResult<
        Vec<u8>,
    >)
        ensures
            r matches Ok(m) ==> rsa_decrypt_of(priv_key_bits@, enc_data@) == Some(m@),
            r is Err ==> rsa_decrypt_of(priv_key_bits@, enc_data@) is None,
            r matches Err(e) ==> e is RSAError,
    {
        let priv_key = match RsaPrivateKey::from_pkcs1_der(priv_key_bits) {
            Ok(k) => k,
            Err(_) => {
                return Err(KVSError::RSAError);
            },
        };
        match priv_key.decrypt(Pkcs1v15Encrypt, enc_data) {
            Ok(m) => Ok(m),
            Err(_) => Err(KVSError::RSAError),
        }
    }
}

} // verus!
