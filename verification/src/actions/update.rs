//! Updating an entry in place: the same wire shape as a create, but the
//! address must already hold an entry, whose metadata and value are
//! overwritten.

use vstd::prelude::*;
use vstd::string::StringExecFns;
use crate::codec::{lemma_skip_skip, read_bytes, read_str, write_bytes, write_str};
use crate::errors::{KVSError, KVSResult};
use crate::store::{hash_key, key_hash_of, lookup, Store};
use crate::utils::clone_bytes;
use super::create::{
    create_fits, dec_create, enc_create, read_meta, stored_entry_view, write_meta, CreateView,
    KeyMeta,
};
use super::fetch_token::{read_token, write_token, KVSToken};
use super::{make_not_exists_msg, not_exists_msg, ReplyCode};

verus! {

/// The request that overwrites an existing key. It carries the same fields
/// as a create and is encoded the same way, so it shares that view.
pub struct UpdateAction {
    pub token: KVSToken,
    pub key: String,
    pub meta: KeyMeta,
    pub value: Vec<u8>,
}

impl View for UpdateAction {
    type V = CreateView;

    open spec fn view(&self) -> CreateView {
        CreateView { token: self.token@, key: self.key@, meta: self.meta@, value: self.value@ }
    }
}

pub fn write_update(out: &mut Vec<u8>, a: &UpdateAction)
    ensures
        final(out)@ == old(out)@ + enc_create(a@),
        create_fits(a@),
{
    let _id_len: usize = a.token.id.len();
    let _sign_len: usize = a.token.sign.len();
    let _key_len: usize = a.key.as_str().as_bytes().len();
    let _value_len: usize = a.value.len();
    write_token(out, &a.token);
    write_str(out, &a.key);
    write_meta(out, &a.meta);
    write_bytes(out, &a.value);
    proof {
        assert(out@ =~= old(out)@ + enc_create(a@));
    }
}

pub fn read_update(buf: &Vec<u8>, pos: usize) -> (r: Option<(UpdateAction, usize)>)
    requires
        pos <= buf@.len(),
    ensures
        r matches Some((a, p)) ==> pos < p <= buf@.len() && dec_create(buf@.skip(pos as int))
            == Some((a@, (p - pos) as int)),
        r is None ==> dec_create(buf@.skip(pos as int)) is None,
{
    let (token, p1) = match read_token(buf, pos) {
        Some(x) => x,
        None => {
            return None;
        },
    };
    proof {
        lemma_skip_skip(buf@, pos as int, p1 - pos);
    }
    let (key, p2) = match read_str(buf, p1) {
        Some(x) => x,
        None => {
            return None;
        },
    };
    proof {
        lemma_skip_skip(buf@, pos as int, p2 - pos);
    }
    let (meta, p3) = match read_meta(buf, p2) {
        Some(x) => x,
        None => {
            return None;
        },
    };
    proof {
        lemma_skip_skip(buf@, pos as int, p3 - pos);
    }
    let (value, p4) = match read_bytes(buf, p3) {
        Some(x) => x,
        None => {
            return None;
        },
    };
    Some((UpdateAction { token, key, meta, value }, p4))
}

impl UpdateAction {
    /// The server side of an update. A missing key fails with the
    /// not-exists message and leaves the store as it was; an existing one
    /// is overwritten in place with this entry, the owner written in from
    /// the token, and every other address reads as before.
    pub fn serve(&self, store: &mut Store) -> (r: KVSResult<ReplyCode>)
        requires
            old(store).wf(),
        ensures
            final(store).wf(),
            lookup(old(store)@, self@.token.id, key_hash_of(self@.key)) is None ==> (r matches Err(KVSError::LogicError(m))
                && m@ == not_exists_msg(self@.key) && final(store)@ == old(store)@),
            lookup(old(store)@, self@.token.id, key_hash_of(self@.key)) is Some ==> (r
                == Result::<ReplyCode, KVSError>::Ok(ReplyCode::Done) && lookup(
                final(store)@,
                self@.token.id,
                key_hash_of(self@.key),
            ) == Some(stored_entry_view(self@)) && final(store)@.len() == old(store)@.len()),
            forall|o2: Seq<u8>, k2: Seq<u8>|
                !(o2 == self@.token.id && k2 == key_hash_of(self@.key)) ==> lookup(
                    final(store)@,
                    o2,
                    k2,
                ) == lookup(old(store)@, o2, k2),
    {
        let key_hash = hash_key(&self.key);
        let mut meta = self.meta.dup();
        meta.owner = clone_bytes(&self.token.id);
        if store.update(&self.token.id, &key_hash, meta, clone_bytes(&self.value)) {
            Ok(ReplyCode::Done)
        } else {
            Err(KVSError::LogicError(make_not_exists_msg(&self.key)))
        }
    }
}

} // verus!
