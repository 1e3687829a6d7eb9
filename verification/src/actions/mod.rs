//! The closed set of request kinds, each with symmetric client-side and
//! server-side behaviour, and their wire encodings.

pub mod create;
pub mod delete;
pub mod fetch_token;
pub mod list;
pub mod read;
pub mod remote_version;
pub mod update;

pub use create::{CreateAction, KeyMeta};
pub use delete::DeleteAction;
pub use fetch_token::{FetchToken, KVSToken};
pub use list::{ListAction, LocalFileMeta};
pub use read::{CatReply, ReadAction};
pub use remote_version::RemoteVersionAction;
pub use update::UpdateAction;

use vstd::prelude::*;
use vstd::string::StringExecFns;
use vstd::utf8::encode_utf8;
use crate::codec::{dec_bytes, dec_str, enc_bytes, read_bytes, read_str, read_u8, write_bytes,
    write_str, write_u8};
use crate::errors::{KVSError, KVSResult};
use create::{
    dec_create, enc_create, create_fits, lemma_dec_create, read_create, write_create, CreateView,
};
use fetch_token::{
    dec_token, enc_token, lemma_dec_token, read_token, write_token, FetchTokenView, TokenView,
};
use list::{read_list, write_list};
use read::{
    dec_read, dec_token_key, enc_read, enc_token_key, lemma_dec_read, lemma_dec_token_key,
    read_fits, read_read_action, read_token_key, token_key_fits, write_read_action,
    write_token_key, ReadView, TokenKeyView,
};
use update::{read_update, write_update};

verus! {

/// One request on the wire, tagged by its kind: the closed action set.
pub enum Actions {
    FetchToken(FetchToken),
    CreateKeyValue(CreateAction),
    CatAction(ReadAction),
    DeleteAction(DeleteAction),
    UpdateAction(UpdateAction),
    ListAction(ListAction),
    RemoteVersionAction(RemoteVersionAction),
}

pub ghost enum ActionsView {
    FetchToken(FetchTokenView),
    CreateKeyValue(CreateView),
    CatAction(ReadView),
    DeleteAction(TokenKeyView),
    UpdateAction(CreateView),
    ListAction(TokenView),
    RemoteVersionAction,
}

impl View for Actions {
    type V = ActionsView;

    open spec fn view(&self) -> ActionsView {
        match self {
            Actions::FetchToken(f) => ActionsView::FetchToken(f@),
            Actions::CreateKeyValue(c) => ActionsView::CreateKeyValue(c@),
            Actions::CatAction(a) => ActionsView::CatAction(a@),
            Actions::DeleteAction(d) => ActionsView::DeleteAction(d@),
            Actions::UpdateAction(u) => ActionsView::UpdateAction(u@),
            Actions::ListAction(l) => ActionsView::ListAction(l@),
            Actions::RemoteVersionAction(_) => ActionsView::RemoteVersionAction,
        }
    }
}

pub open spec fn enc_actions(a: ActionsView) -> Seq<u8> {
    match a {
        ActionsView::FetchToken(f) => seq![0u8] + enc_bytes(f.pub_key),
        ActionsView::CreateKeyValue(c) => seq![1u8] + enc_create(c),
        ActionsView::CatAction(v) => seq![2u8] + enc_read(v),
        ActionsView::DeleteAction(v) => seq![3u8] + enc_token_key(v),
        ActionsView::UpdateAction(c) => seq![4u8] + enc_create(c),
        ActionsView::ListAction(t) => seq![5u8] + enc_token(t),
        ActionsView::RemoteVersionAction => seq![6u8],
    }
}

pub open spec fn actions_fits(a: ActionsView) -> bool {
    match a {
        ActionsView::FetchToken(f) => f.pub_key.len() <= u64::MAX,
        ActionsView::CreateKeyValue(c) => create_fits(c),
        ActionsView::CatAction(v) => read_fits(v),
        ActionsView::DeleteAction(v) => token_key_fits(v),
        ActionsView::UpdateAction(c) => create_fits(c),
        ActionsView::ListAction(t) => t.id.len() <= u64::MAX && t.sign.len() <= u64::MAX,
        ActionsView::RemoteVersionAction => true,
    }
}

/// What a full request payload decodes to: one action, consuming the
/// whole payload.
pub open spec fn actions_of(b: Seq<u8>) -> Option<ActionsView> {
    if b.len() < 1 {
        None
    } else if b[0] == 0 {
        match dec_bytes(b.skip(1)) {
            Some((pk, c)) => if 1 + c == b.len() {
                Some(ActionsView::FetchToken(FetchTokenView { pub_key: pk }))
            } else {
                None
            },
            None => None,
        }
    } else if b[0] == 1 {
        match dec_create(b.skip(1)) {
            Some((cv, c)) => if 1 + c == b.len() {
                Some(ActionsView::CreateKeyValue(cv))
            } else {
                None
            },
            None => None,
        }
    } else if b[0] == 2 {
        match dec_read(b.skip(1)) {
            Some((v, c)) => if 1 + c == b.len() {
                Some(ActionsView::CatAction(v))
            } else {
                None
            },
            None => None,
        }
    } else if b[0] == 3 {
        match dec_token_key(b.skip(1)) {
            Some((v, c)) => if 1 + c == b.len() {
                Some(ActionsView::DeleteAction(v))
            } else {
                None
            },
            None => None,
        }
    } else if b[0] == 4 {
        match dec_create(b.skip(1)) {
            Some((cv, c)) => if 1 + c == b.len() {
                Some(ActionsView::UpdateAction(cv))
            } else {
                None
            },
            None => None,
        }
    } else if b[0] == 5 {
        match dec_token(b.skip(1)) {
            Some((t, c)) => if 1 + c == b.len() {
                Some(ActionsView::ListAction(t))
            } else {
                None
            },
            None => None,
        }
    } else if b[0] == 6 {
        if b.len() == 1 {
            Some(ActionsView::RemoteVersionAction)
        } else {
            None
        }
    } else {
        None
    }
}

/// The request payload of an action: its encoding decodes back to it.
pub fn encode_action(a: &Actions) -> (r: Vec<u8>)
    ensures
        r@ == enc_actions(a@),
        actions_fits(a@),
        actions_of(r@) == Some(a@),
{
    match a {
        Actions::FetchToken(f) => encode_fetch_token_action(f),
        Actions::CreateKeyValue(c) => encode_create_action(c),
        Actions::CatAction(v) => encode_cat_action(v),
        Actions::DeleteAction(d) => encode_delete_action(d),
        Actions::UpdateAction(u) => encode_update_action(u),
        Actions::ListAction(l) => encode_list_action(l),
        Actions::RemoteVersionAction(_) => encode_remote_version_action(),
    }
}

fn encode_fetch_token_action(f: &FetchToken) -> (r: Vec<u8>)
    ensures
        r@ == enc_actions(ActionsView::FetchToken(f@)),
        actions_fits(ActionsView::FetchToken(f@)),
        actions_of(r@) == Some(ActionsView::FetchToken(f@)),
{
    let mut out: Vec<u8> = Vec::new();
    let _pk_len: usize = f.pub_key.len();
    write_u8(&mut out, 0);
    write_bytes(&mut out, &f.pub_key);
    proof {
        crate::codec::lemma_dec_bytes(f.pub_key@, Seq::empty());
        assert(out@ =~= enc_actions(ActionsView::FetchToken(f@)));
        assert(out@.skip(1) =~= enc_bytes(f.pub_key@) + Seq::<u8>::empty());
        vstd::bytes::lemma_auto_spec_u64_to_from_le_bytes();
        assert(out@[0] == 0);
    }
    out
}

fn encode_create_action(c: &CreateAction) -> (r: Vec<u8>)
    ensures
        r@ == enc_actions(ActionsView::CreateKeyValue(c@)),
        actions_fits(ActionsView::CreateKeyValue(c@)),
        actions_of(r@) == Some(ActionsView::CreateKeyValue(c@)),
{
    let mut out: Vec<u8> = Vec::new();
    write_u8(&mut out, 1);
    write_create(&mut out, c);
    proof {
        lemma_dec_create(c@, Seq::empty());
        assert(out@ =~= enc_actions(ActionsView::CreateKeyValue(c@)));
        assert(out@.skip(1) =~= enc_create(c@) + Seq::<u8>::empty());
        assert(out@[0] == 1);
    }
    out
}

fn encode_cat_action(v: &ReadAction) -> (r: Vec<u8>)
    ensures
        r@ == enc_actions(ActionsView::CatAction(v@)),
        actions_fits(ActionsView::CatAction(v@)),
        actions_of(r@) == Some(ActionsView::CatAction(v@)),
{
    let mut out: Vec<u8> = Vec::new();
    write_u8(&mut out, 2);
    write_read_action(&mut out, v);
    proof {
        lemma_dec_read(v@, Seq::empty());
        assert(out@ =~= enc_actions(ActionsView::CatAction(v@)));
        assert(out@.skip(1) =~= enc_read(v@) + Seq::<u8>::empty());
        assert(out@[0] == 2);
    }
    out
}

fn encode_delete_action(d: &DeleteAction) -> (r: Vec<u8>)
    ensures
        r@ == enc_actions(ActionsView::DeleteAction(d@)),
        actions_fits(ActionsView::DeleteAction(d@)),
        actions_of(r@) == Some(ActionsView::DeleteAction(d@)),
{
    let mut out: Vec<u8> = Vec::new();
    write_u8(&mut out, 3);
    write_token_key(&mut out, &d.token, &d.key);
    proof {
        lemma_dec_token_key(d@, Seq::empty());
        assert(out@ =~= enc_actions(ActionsView::DeleteAction(d@)));
        assert(out@.skip(1) =~= enc_token_key(d@) + Seq::<u8>::empty());
        assert(out@[0] == 3);
    }
    out
}

fn encode_update_action(u: &UpdateAction) -> (r: Vec<u8>)
    ensures
        r@ == enc_actions(ActionsView::UpdateAction(u@)),
        actions_fits(ActionsView::UpdateAction(u@)),
        actions_of(r@) == Some(ActionsView::UpdateAction(u@)),
{
    let mut out: Vec<u8> = Vec::new();
    write_u8(&mut out, 4);
    write_update(&mut out, u);
    proof {
        lemma_dec_create(u@, Seq::empty());
        assert(out@ =~= enc_actions(ActionsView::UpdateAction(u@)));
        assert(out@.skip(1) =~= enc_create(u@) + Seq::<u8>::empty());
        assert(out@[0] == 4);
    }
    out
}

fn encode_list_action(l: &ListAction) -> (r: Vec<u8>)
    ensures
        r@ == enc_actions(ActionsView::ListAction(l@)),
        actions_fits(ActionsView::ListAction(l@)),
        actions_of(r@) == Some(ActionsView::ListAction(l@)),
{
    let mut out: Vec<u8> = Vec::new();
    write_u8(&mut out, 5);
    write_list(&mut out, l);
    proof {
        lemma_dec_token(l@, Seq::empty());
        assert(out@ =~= enc_actions(ActionsView::ListAction(l@)));
        assert(out@.skip(1) =~= enc_token(l@) + Seq::<u8>::empty());
        assert(out@[0] == 5);
    }
    out
}

fn encode_remote_version_action() -> (r: Vec<u8>)
    ensures
        r@ == enc_actions(ActionsView::RemoteVersionAction),
        actions_fits(ActionsView::RemoteVersionAction),
        actions_of(r@) == Some(ActionsView::RemoteVersionAction),
{
    let mut out: Vec<u8> = Vec::new();
    write_u8(&mut out, 6);
    proof {
        assert(out@ =~= enc_actions(ActionsView::RemoteVersionAction));
        assert(out@[0] == 6);
    }
    out
}

/// The server's reading of a request payload: the action it encodes, or a
/// malformed-payload error.
pub fn parse_action(payload: &Vec<u8>) -> (r: KVSResult<Actions>)
    ensures
        r matches Ok(a) ==> actions_of(payload@) == Some(a@),
        r is Err ==> actions_of(payload@) is None && r matches Err(KVSError::CodecError),
{
    let (tag, p) = match read_u8(payload, 0) {
        Some(x) => x,
        None => {
            return Err(KVSError::CodecError);
        },
    };
    proof {
        assert(payload@.skip(0) =~= payload@);
        assert(payload@.skip(0)[0] == payload@[0]);
    }
    if tag == 0 {
        match read_bytes(payload, p) {
            Some((pk, p2)) => {
                if p2 == payload.len() {
                    Ok(Actions::FetchToken(FetchToken { pub_key: pk }))
                } else {
                    Err(KVSError::CodecError)
                }
            },
            None => Err(KVSError::CodecError),
        }
    } else if tag == 1 {
        match read_create(payload, p) {
            Some((c, p2)) => {
                if p2 == payload.len() {
                    Ok(Actions::CreateKeyValue(c))
                } else {
                    Err(KVSError::CodecError)
                }
            },
            None => Err(KVSError::CodecError),
        }
    } else if tag == 2 {
        match read_read_action(payload, p) {
            Some((a2, p2)) => {
                if p2 == payload.len() {
                    Ok(Actions::CatAction(a2))
                } else {
                    Err(KVSError::CodecError)
                }
            },
            None => Err(KVSError::CodecError),
        }
    } else if tag == 3 {
        match read_token_key(payload, p) {
            Some((token, key, p2)) => {
                if p2 == payload.len() {
                    Ok(Actions::DeleteAction(DeleteAction { token, key }))
                } else {
                    Err(KVSError::CodecError)
                }
            },
            None => Err(KVSError::CodecError),
        }
    } else if tag == 4 {
        match read_update(payload, p) {
            Some((u, p2)) => {
                if p2 == payload.len() {
                    Ok(Actions::UpdateAction(u))
                } else {
                    Err(KVSError::CodecError)
                }
            },
            None => Err(KVSError::CodecError),
        }
    } else if tag == 5 {
        match read_list(payload, p) {
            Some((l, p2)) => {
                if p2 == payload.len() {
                    Ok(Actions::ListAction(l))
                } else {
                    Err(KVSError::CodecError)
                }
            },
            None => Err(KVSError::CodecError),
        }
    } else if tag == 6 {
        if payload.len() == 1 {
            Ok(Actions::RemoteVersionAction(RemoteVersionAction))
        } else {
            Err(KVSError::CodecError)
        }
    } else {
        Err(KVSError::CodecError)
    }
}

/// The bare acknowledgement of a write: the reply of Create, Update and
/// Delete when they succeed.
#[derive(Debug)]
pub enum ReplyCode {
    Done,
}

/// The message reported when a key to be created is already present.
pub open spec fn already_exists_msg(name: Seq<char>) -> Seq<char> {
    "The key: `"@ + name + "` already exists."@
}

/// The message reported when a key to be read, updated or deleted is
/// absent.
pub open spec fn not_exists_msg(name: Seq<char>) -> Seq<char> {
    "The key: `"@ + name + "` is not exists."@
}

/// The message reported when a private key is read by a caller who does
/// not own it.
pub open spec fn private_msg(name: Seq<char>) -> Seq<char> {
    "The key: `"@ + name + "` is private."@
}

pub fn make_already_exists_msg(name: &String) -> (r: String)
    ensures
        r@ == already_exists_msg(name@),
{
    let mut s = String::from_str("The key: `");
    s.append(name.as_str());
    s.append("` already exists.");
    s
}

pub fn make_not_exists_msg(name: &String) -> (r: String)
    ensures
        r@ == not_exists_msg(name@),
{
    let mut s = String::from_str("The key: `");
    s.append(name.as_str());
    s.append("` is not exists.");
    s
}

pub fn make_private_msg(name: &String) -> (r: String)
    ensures
        r@ == private_msg(name@),
{
    let mut s = String::from_str("The key: `");
    s.append(name.as_str());
    s.append("` is private.");
    s
}

/// What a full write-acknowledgement payload decodes to.
pub open spec fn code_reply_of(b: Seq<u8>) -> Option<Result<ReplyCode, Seq<char>>> {
    if b.len() == 2 && b[0] == 0 && b[1] == 0 {
        Some(Ok(ReplyCode::Done))
    } else if b.len() >= 1 && b[0] == 1 {
        match dec_str(b.skip(1)) {
            Some((m, c)) => if 1 + c == b.len() {
                Some(Err(m))
            } else {
                None
            },
            None => None,
        }
    } else {
        None
    }
}

/// The server's acknowledgement of a successful write.
pub fn encode_code_reply() -> (r: Vec<u8>)
    ensures
        code_reply_of(r@) == Some(Result::<ReplyCode, Seq<char>>::Ok(ReplyCode::Done)),
{
    let mut out: Vec<u8> = Vec::new();
    write_u8(&mut out, 0);
    write_u8(&mut out, 0);
    proof {
        assert(out@ =~= seq![0u8, 0u8]);
    }
    out
}

/// The client's reading of a write acknowledgement.
pub fn parse_code_reply(payload: &Vec<u8>) -> (r: KVSResult<ReplyCode>)
    ensures
        r matches Ok(c) ==> code_reply_of(payload@) == Some(Result::<ReplyCode, Seq<char>>::Ok(
            ReplyCode::Done,
        )),
        r matches Err(KVSError::LogicError(m)) ==> code_reply_of(payload@) == Some(Result::<
            ReplyCode,
            Seq<char>,
        >::Err(m@)),
        r matches Err(KVSError::CodecError) ==> code_reply_of(payload@) is None,
        r matches Err(e) ==> (e is LogicError || e is CodecError),
{
    let (tag, p) = match read_u8(payload, 0) {
        Some(x) => x,
        None => {
            return Err(KVSError::CodecError);
        },
    };
    proof {
        assert(payload@.skip(0) =~= payload@);
        assert(payload@.skip(0)[0] == payload@[0]);
    }
    if tag == 0 {
        if payload.len() == 2 {
            let (c, _p2) = match read_u8(payload, 1) {
                Some(x) => x,
                None => {
                    return Err(KVSError::CodecError);
                },
            };
            proof {
                assert(payload@.skip(1)[0] == payload@[1]);
            }
            if c == 0 {
                Ok(ReplyCode::Done)
            } else {
                Err(KVSError::CodecError)
            }
        } else {
            Err(KVSError::CodecError)
        }
    } else if tag == 1 {
        match read_str(payload, p) {
            Some((m, p2)) => {
                if p2 == payload.len() {
                    Err(KVSError::LogicError(m))
                } else {
                    Err(KVSError::CodecError)
                }
            },
            None => Err(KVSError::CodecError),
        }
    } else {
        Err(KVSError::CodecError)
    }
}

} // verus!
