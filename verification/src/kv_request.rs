//! Client-side request construction: the envelope encryption that guards a
//! private value before it leaves the client, and the interpretation of
//! the server's read reply.

use vstd::prelude::*;
use crate::actions::create::{seal_entry_value, CreateAction, KeyMeta};
use crate::actions::fetch_token::KVSToken;
use crate::actions::read::{cat_reply_of, parse_cat_reply};
use crate::actions::update::UpdateAction;
use crate::aead::open_env;
use crate::errors::{KVSError, KVSResult};
use crate::rng::random_bytes;
use crate::secret::Secret;
use crate::utils::{clone_bytes, sha256, sha256_of};

verus! {

/// The value and envelope of an entry: sealed under a fresh entry key for
/// a private one, the bytes as given for a public one.
fn prepare_entry(value: &Vec<u8>, private: bool, secret: &Secret) -> (r: KVSResult<
    (Vec<u8>, Option<Vec<u8>>),
>)
    requires
        secret.wf(),
    ensures
        r matches Ok(p) ==> (!private ==> p.1 is None && p.0@ == value@),
        r matches Ok(p) ==> (private ==> (p.1 matches Some(rc) && open_env(
            secret.priv_key_bits@,
            rc@,
            p.0@,
        ) == Some(value@))),
        !private ==> r is Ok,
        value@.len() <= 0x10_0000_0000 ==> r is Ok,
{
    if private {
        let entry_key = random_bytes(32);
        match seal_entry_value(value, &entry_key, secret) {
            Ok((value_ct, rand_ct)) => Ok((value_ct, Some(rand_ct))),
            Err(e) => Err(e),
        }
    } else {
        Ok((clone_bytes(value), None))
    }
}

/// The create request for a key and a value. The metadata records the
/// plaintext's size and content hash; a private value travels sealed, with
/// its envelope key in the metadata, opened again only by the owner.
pub fn create_key_value(token: &KVSToken, key: &String, value: &Vec<u8>, private: bool,
    mime: String, secret: &Secret) -> (r: KVSResult<CreateAction>)
    requires
        secret.wf(),
    ensures
        r matches Ok(a) ==> a@.token == token@ && a@.key == key@ && a@.meta.name == key@
            && a@.meta.mime == mime@ && a@.meta.owner == token@.id && a@.meta.size == value@.len()
            && a@.meta.original_hash == sha256_of(value@),
        r matches Ok(a) ==> (!private ==> a@.meta.rand is None && a@.value == value@),
        r matches Ok(a) ==> (private ==> (a@.meta.rand matches Some(rc) && open_env(
            secret.priv_key_bits@,
            rc,
            a@.value,
        ) == Some(value@))),
        !private ==> r is Ok,
        value@.len() <= 0x10_0000_0000 ==> r is Ok,
{
    let original_hash = sha256(value.as_slice());
    let size = value.len() as u64;
    let (stored_value, rand) = match prepare_entry(value, private, secret) {
        Ok(p) => p,
        Err(e) => {
            return Err(e);
        },
    };
    let meta = KeyMeta {
        mime,
        size,
        owner: clone_bytes(&token.id),
        name: key.clone(),
        rand,
        original_hash,
    };
    Ok(CreateAction { token: token.dup(), key: key.clone(), meta, value: stored_value })
}

/// The update request for a key and a value: the same construction as a
/// create, aimed at an existing key.
pub fn update_key_value(token: &KVSToken, key: &String, value: &Vec<u8>, private: bool,
    mime: String, secret: &Secret) -> (r: KVSResult<UpdateAction>)
    requires
        secret.wf(),
    ensures
        r matches Ok(a) ==> a@.token == token@ && a@.key == key@ && a@.meta.name == key@
            && a@.meta.mime == mime@ && a@.meta.owner == token@.id && a@.meta.size == value@.len()
            && a@.meta.original_hash == sha256_of(value@),
        r matches Ok(a) ==> (!private ==> a@.meta.rand is None && a@.value == value@),
        r matches Ok(a) ==> (private ==> (a@.meta.rand matches Some(rc) && open_env(
            secret.priv_key_bits@,
            rc,
            a@.value,
        ) == Some(value@))),
        !private ==> r is Ok,
        value@.len() <= 0x10_0000_0000 ==> r is Ok,
{
    let original_hash = sha256(value.as_slice());
    let size = value.len() as u64;
    let (stored_value, rand) = match prepare_entry(value, private, secret) {
        Ok(p) => p,
        Err(e) => {
            return Err(e);
        },
    };
    let meta = KeyMeta {
        mime,
        size,
        owner: clone_bytes(&token.id),
        name: key.clone(),
        rand,
        original_hash,
    };
    Ok(UpdateAction { token: token.dup(), key: key.clone(), meta, value: stored_value })
}

/// The client's handling of a read reply: decode it, surface the server's
/// reported error as it is, and open a private entry's envelope with the
/// reader's key, so that the owner recovers the plaintext. On a
/// well-formed reply it succeeds whenever the entry is public, or private
/// with an envelope this reader's key opens; a public entry's content is
/// handed back unchanged, with no decryption.
pub fn cat(payload: &Vec<u8>, secret: &Secret) -> (r: KVSResult<Vec<u8>>)
    requires
        secret.wf(),
    ensures
        cat_reply_of(payload@) matches Some(Ok(c)) ==> (r matches Ok(v) ==> ((c.meta.rand is None
            ==> v@ == c.content) && (c.meta.rand matches Some(rc) ==> open_env(
            secret.priv_key_bits@,
            rc,
            c.content,
        ) == Some(v@)))),
        cat_reply_of(payload@) matches Some(Ok(c)) ==> (c.meta.rand is None ==> r is Ok),
        cat_reply_of(payload@) matches Some(Ok(c)) ==> ((c.meta.rand matches Some(rc)
            && open_env(secret.priv_key_bits@, rc, c.content) is Some) ==> r is Ok),
        cat_reply_of(payload@) matches Some(Err(m)) ==> (r matches Err(KVSError::LogicError(ms))
            && ms@ == m),
        cat_reply_of(payload@) is None ==> r matches Err(KVSError::CodecError),
{
    let reply = match parse_cat_reply(payload) {
        Ok(c) => c,
        Err(e) => {
            return Err(e);
        },
    };
    reply.open_content(secret)
}

} // verus!
