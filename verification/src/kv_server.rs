//! The server's dispatch: verify the token carried by a request, execute
//! it against the storage engine, and produce the encrypted reply payload.
//! The surrounding loop — accepting connections, reading frames, sending
//! replies — lives outside the library and only moves bytes.

use vstd::prelude::*;
use vstd::string::StringExecFns;
use crate::actions::create::stored_entry_view;
use crate::actions::fetch_token::{token_sig_of, TokenView};
use crate::actions::list::{encode_list_reply, list_reply_of};
use crate::actions::read::{cat_reply_of, encode_cat_reply, read_owner, CatReplyView};
use crate::actions::remote_version::{encode_version_reply, version_reply_of, version_str};
use crate::actions::{
    already_exists_msg, code_reply_of, encode_code_reply, not_exists_msg, private_msg, Actions,
    ActionsView, KVSToken, ReplyCode,
};
use crate::actions::fetch_token::token_reply_of;
use crate::codec::{enc_str, write_str, write_u8};
use crate::errors::{KVSError, KVSResult};
use crate::store::{key_hash_of, lookup, metas_of, Store};

verus! {

/// A token is in order when the server secret reproduces its signature.
pub open spec fn token_ok(t: TokenView, jwt_secret: Seq<u8>) -> bool {
    t.sign == token_sig_of(t.id, t.time_stamp, jwt_secret)
}

/// A request is in order when it needs no token — fetching one, or the
/// version probe — or carries one that is in order.
pub open spec fn action_token_ok(a: ActionsView, jwt_secret: Seq<u8>) -> bool {
    match a {
        ActionsView::FetchToken(_) => true,
        ActionsView::RemoteVersionAction => true,
        ActionsView::CreateKeyValue(c) => token_ok(c.token, jwt_secret),
        ActionsView::CatAction(v) => token_ok(v.token, jwt_secret),
        ActionsView::DeleteAction(v) => token_ok(v.token, jwt_secret),
        ActionsView::UpdateAction(c) => token_ok(c.token, jwt_secret),
        ActionsView::ListAction(t) => token_ok(t, jwt_secret),
    }
}

/// A token accepted under a secret is rejected as soon as its signature
/// is altered in any way: only the recomputed signature passes.
pub proof fn lemma_altered_sign_rejected(t: TokenView, t2: TokenView, jwt_secret: Seq<u8>)
    requires
        token_ok(t, jwt_secret),
        t2.id == t.id,
        t2.time_stamp == t.time_stamp,
        t2.sign != t.sign,
    ensures
        !token_ok(t2, jwt_secret),
{
}

/// The stateless check the server performs on every request: accept
/// exactly when the request needs no token or its signature matches the
/// recomputation under the server secret.
pub fn verify_jwt_token(jwt_secret: &Vec<u8>, msg: &Actions) -> (r: KVSResult<()>)
    ensures
        r is Ok <==> action_token_ok(msg@, jwt_secret@),
        r matches Err(e) ==> (e matches KVSError::LogicError(m) && m@ == "Illegal Token"@),
{
    let token: Option<&KVSToken> = match msg {
        Actions::FetchToken(_) => None,
        Actions::RemoteVersionAction(_) => None,
        Actions::CreateKeyValue(c) => Some(&c.token),
        Actions::CatAction(a) => Some(&a.token),
        Actions::DeleteAction(d) => Some(&d.token),
        Actions::UpdateAction(u) => Some(&u.token),
        Actions::ListAction(l) => Some(&l.token),
    };
    match token {
        None => Ok(()),
        Some(t) => {
            if t.verify(jwt_secret) {
                Ok(())
            } else {
                Err(KVSError::LogicError(String::from_str("Illegal Token")))
            }
        },
    }
}

/// A structured error reply: whichever reply the client expects, it reads
/// as the server's reported message.
pub fn encode_err_reply(msg: &String) -> (r: Vec<u8>)
    ensures
        code_reply_of(r@) == Some(Result::<ReplyCode, Seq<char>>::Err(msg@)),
        cat_reply_of(r@) == Some(Result::<CatReplyView, Seq<char>>::Err(msg@)),
        token_reply_of(r@) == Some(Result::<TokenView, Seq<char>>::Err(msg@)),
        list_reply_of(r@) == Some(
            Result::<Seq<crate::actions::create::MetaView>, Seq<char>>::Err(msg@),
        ),
        version_reply_of(r@) == Some(Result::<Seq<char>, Seq<char>>::Err(msg@)),
{
    let mut out: Vec<u8> = Vec::new();
    let _msg_len: usize = msg.as_str().as_bytes().len();
    write_u8(&mut out, 1);
    write_str(&mut out, msg);
    proof {
        vstd::bytes::lemma_auto_spec_u64_to_from_le_bytes();
        crate::codec::lemma_dec_str(msg@, Seq::empty());
        assert(out@.skip(1) =~= enc_str(msg@) + Seq::<u8>::empty());
        assert(out@[0] == 1);
    }
    out
}

/// Execute one token-carrying action against the store and produce the
/// reply payload. Logic failures become structured error replies; the
/// token handshake itself is driven separately, step by step, because it
/// exchanges more than one message.
pub fn handle_action(store: &mut Store, jwt_secret: &Vec<u8>, action: &Actions) -> (r: Vec<u8>)
    requires
        old(store).wf(),
        !(action@ matches ActionsView::FetchToken(_)),
    ensures
        final(store).wf(),
        !action_token_ok(action@, jwt_secret@) ==> final(store)@ == old(store)@,
        !action_token_ok(action@, jwt_secret@) ==> code_reply_of(r@) == Some(
            Result::<ReplyCode, Seq<char>>::Err("Illegal Token"@),
        ) && cat_reply_of(r@) == Some(Result::<CatReplyView, Seq<char>>::Err("Illegal Token"@))
            && list_reply_of(r@) == Some(
            Result::<Seq<crate::actions::create::MetaView>, Seq<char>>::Err("Illegal Token"@),
        ) && version_reply_of(r@) == Some(Result::<Seq<char>, Seq<char>>::Err("Illegal Token"@)),
        action@ matches ActionsView::CreateKeyValue(c) ==> (action_token_ok(
            action@,
            jwt_secret@,
        ) && lookup(old(store)@, c.token.id, key_hash_of(c.key)) is None ==> final(store)@ == old(
            store,
        )@.push(stored_entry_view(c)) && code_reply_of(r@) == Some(
            Result::<ReplyCode, Seq<char>>::Ok(ReplyCode::Done),
        )),
        action@ matches ActionsView::CreateKeyValue(c) ==> (action_token_ok(
            action@,
            jwt_secret@,
        ) && lookup(old(store)@, c.token.id, key_hash_of(c.key)) is Some ==> final(store)@ == old(
            store,
        )@ && code_reply_of(r@) == Some(
            Result::<ReplyCode, Seq<char>>::Err(already_exists_msg(c.key)),
        )),
        action@ matches ActionsView::UpdateAction(c) ==> (action_token_ok(action@, jwt_secret@)
            && lookup(old(store)@, c.token.id, key_hash_of(c.key)) is Some ==> lookup(
            final(store)@,
            c.token.id,
            key_hash_of(c.key),
        ) == Some(stored_entry_view(c)) && final(store)@.len() == old(store)@.len() && (forall|
            o2: Seq<u8>,
            k2: Seq<u8>,
        |
            !(o2 == c.token.id && k2 == key_hash_of(c.key)) ==> lookup(final(store)@, o2, k2)
                == lookup(old(store)@, o2, k2)) && code_reply_of(r@) == Some(
            Result::<ReplyCode, Seq<char>>::Ok(ReplyCode::Done),
        )),
        action@ matches ActionsView::UpdateAction(c) ==> (action_token_ok(action@, jwt_secret@)
            && lookup(old(store)@, c.token.id, key_hash_of(c.key)) is None ==> final(store)@
            == old(store)@ && code_reply_of(r@) == Some(
            Result::<ReplyCode, Seq<char>>::Err(not_exists_msg(c.key)),
        )),
        action@ matches ActionsView::DeleteAction(v) ==> (action_token_ok(action@, jwt_secret@)
            && lookup(old(store)@, v.token.id, key_hash_of(v.key)) is Some ==> lookup(
            final(store)@,
            v.token.id,
            key_hash_of(v.key),
        ) is None && final(store)@.len() == old(store)@.len() - 1 && (forall|
            o2: Seq<u8>,
            k2: Seq<u8>,
        |
            !(o2 == v.token.id && k2 == key_hash_of(v.key)) ==> lookup(final(store)@, o2, k2)
                == lookup(old(store)@, o2, k2)) && code_reply_of(r@) == Some(
            Result::<ReplyCode, Seq<char>>::Ok(ReplyCode::Done),
        )),
        action@ matches ActionsView::DeleteAction(v) ==> (action_token_ok(action@, jwt_secret@)
            && lookup(old(store)@, v.token.id, key_hash_of(v.key)) is None ==> final(store)@
            == old(store)@ && code_reply_of(r@) == Some(
            Result::<ReplyCode, Seq<char>>::Err(not_exists_msg(v.key)),
        )),
        action@ matches ActionsView::CatAction(v) ==> final(store)@ == old(store)@,
        action@ matches ActionsView::CatAction(v) ==> (action_token_ok(action@, jwt_secret@)
            && lookup(old(store)@, read_owner(v), key_hash_of(v.key)) is None ==> cat_reply_of(r@)
            == Some(Result::<CatReplyView, Seq<char>>::Err(not_exists_msg(v.key)))),
        action@ matches ActionsView::CatAction(v) ==> (action_token_ok(action@, jwt_secret@)
            ==> (lookup(old(store)@, read_owner(v), key_hash_of(v.key)) matches Some(e) ==> ((
            e.meta.rand is Some && e.meta.owner != v.token.id) ==> cat_reply_of(r@) == Some(
                Result::<CatReplyView, Seq<char>>::Err(private_msg(v.key)),
            )) && (!(e.meta.rand is Some && e.meta.owner != v.token.id) ==> cat_reply_of(r@)
                == Some(Result::<CatReplyView, Seq<char>>::Ok(
                CatReplyView { meta: e.meta, content: e.value },
            ))))),
        action@ matches ActionsView::ListAction(t) ==> final(store)@ == old(store)@,
        action@ matches ActionsView::ListAction(t) ==> (action_token_ok(action@, jwt_secret@)
            ==> list_reply_of(r@) == Some(
            Result::<Seq<crate::actions::create::MetaView>, Seq<char>>::Ok(
                metas_of(old(store)@, t.id),
            ),
        )),
        action@ is RemoteVersionAction ==> final(store)@ == old(store)@ && version_reply_of(r@)
            == Some(Result::<Seq<char>, Seq<char>>::Ok(version_str())),
    {
    match verify_jwt_token(jwt_secret, action) {
        Ok(_) => {},
        Err(e) => {
            let msg = match e {
                KVSError::LogicError(m) => m,
                _ => String::from_str("Illegal Token"),
            };
            return encode_err_reply(&msg);
        },
    }
    match action {
        Actions::FetchToken(_) => {
            // excluded by the precondition: the handshake is served step
            // by step, never through this dispatch
            proof {
                assert(false);
            }
            encode_code_reply()
        },
        Actions::CreateKeyValue(c) => {
            match c.serve(store) {
                Ok(_) => encode_code_reply(),
                Err(e) => {
                    let msg = e.message();
                    encode_err_reply(&msg)
                },
            }
        },
        Actions::UpdateAction(u) => {
            match u.serve(store) {
                Ok(_) => encode_code_reply(),
                Err(e) => {
                    let msg = e.message();
                    encode_err_reply(&msg)
                },
            }
        },
        Actions::DeleteAction(d) => {
            match d.serve(store) {
                Ok(_) => encode_code_reply(),
                Err(e) => {
                    let msg = e.message();
                    encode_err_reply(&msg)
                },
            }
        },
        Actions::CatAction(a) => {
            match a.serve(store) {
                Ok(reply) => encode_cat_reply(&reply),
                Err(e) => {
                    let msg = e.message();
                    encode_err_reply(&msg)
                },
            }
        },
        Actions::ListAction(l) => {
            let metas = l.serve(store);
            encode_list_reply(&metas)
        },
        Actions::RemoteVersionAction(v) => {
            let s = v.serve();
            encode_version_reply(&s)
        },
    }
}

} // verus!
