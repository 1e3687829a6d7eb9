//! Deleting an entry: the address must hold one, and afterwards it holds
//! none, so that a later read fails.

use vstd::prelude::*;
use crate::errors::{KVSError, KVSResult};
use crate::store::{hash_key, key_hash_of, lookup, Store};
use super::fetch_token::KVSToken;
use super::read::{
    dec_token_key, enc_token_key, read_token_key, token_key_fits, write_token_key, TokenKeyView,
};
use super::{make_not_exists_msg, not_exists_msg, ReplyCode};

verus! {

/// The request that removes one entry.
pub struct DeleteAction {
    pub token: KVSToken,
    pub key: String,
}

impl View for DeleteAction {
    type V = TokenKeyView;

    open spec fn view(&self) -> TokenKeyView {
        TokenKeyView { token: self.token@, key: self.key@ }
    }
}

pub fn write_delete(out: &mut Vec<u8>, a: &DeleteAction)
    ensures
        final(out)@ == old(out)@ + enc_token_key(a@),
        token_key_fits(a@),
{
    write_token_key(out, &a.token, &a.key);
}

pub fn read_delete(buf: &Vec<u8>, pos: usize) -> (r: Option<(DeleteAction, usize)>)
    requires
        pos <= buf@.len(),
    ensures
        r matches Some((a, p)) ==> pos < p <= buf@.len() && dec_token_key(buf@.skip(pos as int))
            == Some((a@, (p - pos) as int)),
        r is None ==> dec_token_key(buf@.skip(pos as int)) is None,
{
    match read_token_key(buf, pos) {
        Some((token, key, p)) => Some((DeleteAction { token, key }, p)),
        None => None,
    }
}

impl DeleteAction {
    /// The server side of a delete. A missing key fails with the
    /// not-exists message and leaves the store as it was; an existing one
    /// is removed, its address reads as absent afterwards, and every
    /// other address reads as before.
    pub fn serve(&self, store: &mut Store) -> (r: KVSResult<ReplyCode>)
        requires
            old(store).wf(),
        ensures
            final(store).wf(),
            lookup(old(store)@, self@.token.id, key_hash_of(self@.key)) is None ==> (r matches Err(KVSError::LogicError(m))
                && m@ == not_exists_msg(self@.key) && final(store)@ == old(store)@),
            lookup(old(store)@, self@.token.id, key_hash_of(self@.key)) is Some ==> (r
                == Result::<ReplyCode, KVSError>::Ok(ReplyCode::Done) && lookup(
                final(store)@,
                self@.token.id,
                key_hash_of(self@.key),
            ) is None && final(store)@.len() == old(store)@.len() - 1),
            forall|o2: Seq<u8>, k2: Seq<u8>|
                !(o2 == self@.token.id && k2 == key_hash_of(self@.key)) ==> lookup(
                    final(store)@,
                    o2,
                    k2,
                ) == lookup(old(store)@, o2, k2),
    {
        let key_hash = hash_key(&self.key);
        if store.delete(&self.token.id, &key_hash) {
            Ok(ReplyCode::Done)
        } else {
            Err(KVSError::LogicError(make_not_exists_msg(&self.key)))
        }
    }
}

} // verus!
