//! The ephemeral key exchange: a fresh NIST P-256 key pair per connection,
//! whose public point is exchanged in the clear and combined with the
//! peer's into a shared secret, hashed into the 32-byte channel key.

use vstd::prelude::*;
use static_dh_ecdh::ecdh::ecdh::{FromBytes, KeyExchange, PkP256, SkP256, ToBytes, ECDHNISTP256};
use crate::errors::{KVSError, KVSResult};
use crate::utils::{clone_bytes, sha256, sha256_of};

verus! {

/// The 65-byte uncompressed public point that the P-256 exchange derives
/// from the 32 private-key bytes.
pub uninterp spec fn ecdh_pub_of(sk: Seq<u8>) -> Seq<u8>;

/// The 32-byte shared secret that the P-256 exchange computes from a
/// private key and a peer's public point.
pub uninterp spec fn ecdh_shared_of(sk: Seq<u8>, pk: Seq<u8>) -> Seq<u8>;

/// The symmetric channel key derived from an exchange: the SHA-256 digest
/// of the shared secret.
pub open spec fn channel_key_of(sk: Seq<u8>, peer_pk: Seq<u8>) -> Seq<u8> {
    sha256_of(ecdh_shared_of(sk, peer_pk))
}

/// An ephemeral key pair, generated fresh for one connection and discarded
/// with it.
pub struct KeyPair {
    sk: Vec<u8>,
    pk: Vec<u8>,
}

impl KeyPair {
    /// The private-key bytes.
    pub closed spec fn sk_view(&self) -> Seq<u8> {
        self.sk@
    }

    /// The public-point bytes that the peer receives.
    pub closed spec fn pk_view(&self) -> Seq<u8> {
        self.pk@
    }

    /// A key pair as the generator returns it: 32 private bytes, a 65-byte
    /// public point, the second derived from the first.
    pub open spec fn wf(&self) -> bool {
        &&& self.sk_view().len() == 32
        &&& self.pk_view().len() == 65
        &&& self.pk_view() == ecdh_pub_of(self.sk_view())
    }

    /// Relies on SkP256::from_bytes and ECDHNISTP256::generate_public_key:
    /// a fresh private scalar from random bytes, and the public point that
    /// belongs to it. The parse reduces the bytes into the scalar field
    /// and rejects only the zero scalar — returning an error, never
    /// panicking — so a rejected draw is simply retried.
    #[verifier::external_body]
    pub fn new() -> (r: KeyPair)
        ensures
            r.wf(),
    {
        let sk = loop {
            let mut seed = [0u8; 32];
            for v in seed.iter_mut() {
                *v = rand::random();
            }
            if let Ok(sk) = SkP256::from_bytes(&seed) {
                break sk;
            }
        };
        let pk = ECDHNISTP256::generate_public_key(&sk);
        KeyPair { sk: sk.to_bytes().to_vec(), pk: pk.to_bytes().to_vec() }
    }

    /// The public-point bytes, to be sent to the peer in the clear.
    pub fn get_pk(&self) -> (r: Vec<u8>)
        ensures
            r@ == self.pk_view(),
    {
        clone_bytes(&self.pk)
    }

    /// Relies on PkP256::from_bytes and ECDHNISTP256::generate_shared_secret:
    /// the peer's point is parsed (rejecting anything but a well-formed
    /// 65-byte uncompressed encoding of a curve point), and the shared
    /// secret is a function
    /// of the private key and that point alone. The crate demonstrates that
    /// an exchange between two generated key pairs succeeds and that both
    /// sides compute the same secret, which the third and fourth clauses
    /// state.
    #[verifier::external_body]
    fn shared_point(&self, pk_bytes: &[u8]) -> (r: KVSResult<Vec<u8>>)
        requires
            self.wf(),
        ensures
            r matches Ok(ss) ==> ss@ == ecdh_shared_of(self.sk_view(), pk_bytes@),
            r matches Ok(ss) ==> ss@.len() == 32,
            (exists|osk: Seq<u8>| (#[trigger] ecdh_pub_of(osk)) == pk_bytes@) ==> r is Ok,
            r matches Ok(ss) ==> forall|osk: Seq<u8>|
                (#[trigger] ecdh_pub_of(osk)) == pk_bytes@ ==> ss@ == ecdh_shared_of(
                    osk,
                    ecdh_pub_of(self.sk_view()),
                ),
    {
        let pk = PkP256::from_bytes(pk_bytes).map_err(|_| KVSError::RSAError)?;
        let sk = SkP256::from_bytes(self.sk.as_slice()).map_err(|_| KVSError::RSAError)?;
        match ECDHNISTP256::generate_shared_secret(&sk, &pk) {
            Ok(ss) => Ok(ss.to_bytes().to_vec()),
            Err(_) => Err(KVSError::RSAError),
        }
    }

    /// The channel key for this connection: the SHA-256 digest of the
    /// shared secret with the peer's point. Both peers of an exchange
    /// derive the same key: when the peer's point belongs to a private key
    /// `osk`, the result equals the key that `osk`'s owner derives from our
    /// public point.
    pub fn to_shared_secret(&self, pk_bytes: &[u8]) -> (r: KVSResult<Vec<u8>>)
        requires
            self.wf(),
        ensures
            r matches Ok(k) ==> k@ == channel_key_of(self.sk_view(), pk_bytes@),
            r matches Ok(k) ==> k@.len() == 32,
            (exists|osk: Seq<u8>| (#[trigger] ecdh_pub_of(osk)) == pk_bytes@) ==> r is Ok,
            r matches Ok(k) ==> forall|osk: Seq<u8>|
                (#[trigger] ecdh_pub_of(osk)) == pk_bytes@ ==> k@ == channel_key_of(
                    osk,
                    self.pk_view(),
                ),
    {
        match self.shared_point(pk_bytes) {
            Ok(ss) => Ok(sha256(ss.as_slice())),
            Err(e) => Err(e),
        }
    }
}

} // verus!
