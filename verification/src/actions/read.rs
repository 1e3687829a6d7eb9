//! Reading an entry: the request addressed by token and key name, the
//! server-side ownership and privacy check, and the client-side envelope
//! decryption of a private value.

use vstd::prelude::*;
use vstd::bytes::lemma_auto_spec_u64_to_from_le_bytes;
use vstd::slice::slice_subrange;
use vstd::utf8::encode_utf8;
use crate::aead::{aead_open, open_env};
use crate::codec::{
    dec_bytes, dec_opt_bytes, dec_str, enc_bytes, enc_opt_bytes, enc_str, lemma_dec_bytes,
    lemma_dec_opt_bytes, lemma_dec_str, lemma_skip_skip, read_bytes, read_opt_bytes, read_str,
    read_u8, view_opt, write_bytes, write_opt_bytes, write_str, write_u8,
};
use crate::errors::{KVSError, KVSResult};
use crate::secret::Secret;
use crate::store::{hash_key, key_hash_of, lookup, Store};
use crate::utils::{bytes_eq, clone_bytes};
use super::create::{
    dec_meta, enc_meta, lemma_dec_meta, meta_fits, read_meta, write_meta, KeyMeta, MetaView,
};
use super::fetch_token::{
    dec_token, enc_token, lemma_dec_token, read_token, write_token, KVSToken, TokenView,
};
use super::{make_not_exists_msg, make_private_msg, not_exists_msg, private_msg};

verus! {

/// The shape shared by the requests that address one key: the caller's
/// token and the key name.
pub ghost struct TokenKeyView {
    pub token: TokenView,
    pub key: Seq<char>,
}

/// The request that reads one entry back. The optional scope names the
/// owner whose entry is read: without it the caller reads its own. A
/// caller may thus name any entry it knows of; the privacy check inside
/// `serve` decides what it learns.
pub struct ReadAction {
    pub token: KVSToken,
    pub key: String,
    pub scope: Option<Vec<u8>>,
}

pub ghost struct ReadView {
    pub token: TokenView,
    pub key: Seq<char>,
    pub scope: Option<Seq<u8>>,
}

impl View for ReadAction {
    type V = ReadView;

    open spec fn view(&self) -> ReadView {
        ReadView { token: self.token@, key: self.key@, scope: view_opt(self.scope) }
    }
}

/// The owner directory a read addresses: the scope when one is named,
/// else the caller's own identity.
pub open spec fn read_owner(v: ReadView) -> Seq<u8> {
    match v.scope {
        Some(s) => s,
        None => v.token.id,
    }
}

// ---------------------------------------------------------------------------
// Wire encoding of a token-and-key request.
// ---------------------------------------------------------------------------
pub open spec fn enc_token_key(v: TokenKeyView) -> Seq<u8> {
    enc_token(v.token) + enc_str(v.key)
}

pub open spec fn token_key_fits(v: TokenKeyView) -> bool {
    &&& v.token.id.len() <= u64::MAX
    &&& v.token.sign.len() <= u64::MAX
    &&& encode_utf8(v.key).len() <= u64::MAX
}

pub open spec fn dec_token_key(b: Seq<u8>) -> Option<(TokenKeyView, int)> {
    match dec_token(b) {
        Some((token, c1)) => match dec_str(b.skip(c1)) {
            Some((key, c2)) => Some((TokenKeyView { token, key }, c1 + c2)),
            None => None,
        },
        None => None,
    }
}

pub proof fn lemma_dec_token_key(v: TokenKeyView, rest: Seq<u8>)
    requires
        token_key_fits(v),
    ensures
        dec_token_key(enc_token_key(v) + rest) == Some((v, enc_token_key(v).len() as int)),
{
    lemma_auto_spec_u64_to_from_le_bytes();
    let b = enc_token_key(v) + rest;
    let t1 = enc_str(v.key) + rest;
    assert(b =~= enc_token(v.token) + t1);
    lemma_dec_token(v.token, t1);
    let c1 = enc_token(v.token).len() as int;
    assert(b.skip(c1) =~= t1);
    lemma_dec_str(v.key, rest);
}

pub fn write_token_key(out: &mut Vec<u8>, token: &KVSToken, key: &String)
    ensures
        final(out)@ == old(out)@ + enc_token_key(TokenKeyView { token: token@, key: key@ }),
        token_key_fits(TokenKeyView { token: token@, key: key@ }),
{
    let _id_len: usize = token.id.len();
    let _sign_len: usize = token.sign.len();
    let _key_len: usize = key.as_str().as_bytes().len();
    write_token(out, token);
    write_str(out, key);
    proof {
        assert(out@ =~= old(out)@ + enc_token_key(TokenKeyView { token: token@, key: key@ }));
    }
}

pub fn read_token_key(buf: &Vec<u8>, pos: usize) -> (r: Option<(KVSToken, String, usize)>)
    requires
        pos <= buf@.len(),
    ensures
        r matches Some((t, k, p)) ==> pos < p <= buf@.len() && dec_token_key(
            buf@.skip(pos as int),
        ) == Some((TokenKeyView { token: t@, key: k@ }, (p - pos) as int)),
        r is None ==> dec_token_key(buf@.skip(pos as int)) is None,
{
    let (token, p1) = match read_token(buf, pos) {
        Some(x) => x,
        None => {
            return None;
        },
    };
    proof {
        lemma_skip_skip(buf@, pos as int, p1 - pos);
    }
    let (key, p2) = match read_str(buf, p1) {
        Some(x) => x,
        None => {
            return None;
        },
    };
    Some((token, key, p2))
}

// ---------------------------------------------------------------------------
// Wire encoding of the read request: token, key and optional scope.
// ---------------------------------------------------------------------------
pub open spec fn enc_read(v: ReadView) -> Seq<u8> {
    enc_token(v.token) + enc_str(v.key) + enc_opt_bytes(v.scope)
}

pub open spec fn read_fits(v: ReadView) -> bool {
    &&& v.token.id.len() <= u64::MAX
    &&& v.token.sign.len() <= u64::MAX
    &&& encode_utf8(v.key).len() <= u64::MAX
    &&& (v.scope matches Some(s) ==> s.len() <= u64::MAX)
}

pub open spec fn dec_read(b: Seq<u8>) -> Option<(ReadView, int)> {
    match dec_token(b) {
        Some((token, c1)) => match dec_str(b.skip(c1)) {
            Some((key, c2)) => match dec_opt_bytes(b.skip(c1 + c2)) {
                Some((scope, c3)) => Some((ReadView { token, key, scope }, c1 + c2 + c3)),
                None => None,
            },
            None => None,
        },
        None => None,
    }
}

pub proof fn lemma_dec_read(v: ReadView, rest: Seq<u8>)
    requires
        read_fits(v),
    ensures
        dec_read(enc_read(v) + rest) == Some((v, enc_read(v).len() as int)),
{
    lemma_auto_spec_u64_to_from_le_bytes();
    let b = enc_read(v) + rest;
    let t2 = enc_opt_bytes(v.scope) + rest;
    let t1 = enc_str(v.key) + t2;
    assert(b =~= enc_token(v.token) + t1);
    lemma_dec_token(v.token, t1);
    let c1 = enc_token(v.token).len() as int;
    assert(b.skip(c1) =~= t1);
    lemma_dec_str(v.key, t2);
    let c2 = 8 + encode_utf8(v.key).len() as int;
    assert(b.skip(c1 + c2) =~= t2);
    lemma_dec_opt_bytes(v.scope, rest);
}

pub fn write_read_action(out: &mut Vec<u8>, a: &ReadAction)
    ensures
        final(out)@ == old(out)@ + enc_read(a@),
        read_fits(a@),
{
    let _id_len: usize = a.token.id.len();
    let _sign_len: usize = a.token.sign.len();
    let _key_len: usize = a.key.as_str().as_bytes().len();
    let _scope_len: usize = match &a.scope {
        Some(s) => s.len(),
        None => 0,
    };
    write_token(out, &a.token);
    write_str(out, &a.key);
    write_opt_bytes(out, &a.scope);
    proof {
        assert(out@ =~= old(out)@ + enc_read(a@));
    }
}

pub fn read_read_action(buf: &Vec<u8>, pos: usize) -> (r: Option<(ReadAction, usize)>)
    requires
        pos <= buf@.len(),
    ensures
        r matches Some((a, p)) ==> pos < p <= buf@.len() && dec_read(buf@.skip(pos as int))
            == Some((a@, (p - pos) as int)),
        r is None ==> dec_read(buf@.skip(pos as int)) is None,
{
    let (token, p1) = match read_token(buf, pos) {
        Some(x) => x,
        None => {
            return None;
        },
    };
    proof {
        lemma_skip_skip(buf@, pos as int, p1 - pos);
    }
    let (key, p2) = match read_str(buf, p1) {
        Some(x) => x,
        None => {
            return None;
        },
    };
    proof {
        lemma_skip_skip(buf@, pos as int, p2 - pos);
    }
    let (scope, p3) = match read_opt_bytes(buf, p2) {
        Some(x) => x,
        None => {
            return None;
        },
    };
    Some((ReadAction { token, key, scope }, p3))
}

// ---------------------------------------------------------------------------
// The reply: the entry's metadata and its (possibly encrypted) value.
// ---------------------------------------------------------------------------
#[derive(Debug)]
pub struct CatReply {
    meta: KeyMeta,
    content: Vec<u8>,
}

pub ghost struct CatReplyView {
    pub meta: MetaView,
    pub content: Seq<u8>,
}

impl View for CatReply {
    type V = CatReplyView;

    closed spec fn view(&self) -> CatReplyView {
        CatReplyView { meta: self.meta@, content: self.content@ }
    }
}

impl CatReply {
    pub fn new(meta: KeyMeta, content: Vec<u8>) -> (r: CatReply)
        ensures
            r@.meta == meta@,
            r@.content == content@,
    {
        CatReply { meta, content }
    }

    /// The value bytes carried by the reply.
    pub fn content(&self) -> (r: &Vec<u8>)
        ensures
            r@ == self@.content,
    {
        &self.content
    }

    /// The metadata record carried by the reply.
    pub fn meta(&self) -> (r: &KeyMeta)
        ensures
            r@ == self@.meta,
    {
        &self.meta
    }

    /// The value as the client hands it to its caller: the content as it
    /// came for a public entry; for a private entry the envelope is opened
    /// with the reader's private key, so only the owner obtains the
    /// plaintext.
    pub fn open_content(&self, secret: &Secret) -> (r: KVSResult<Vec<u8>>)
        requires
            secret.wf(),
        ensures
            self@.meta.rand is None ==> (r matches Ok(v) && v@ == self@.content),
            self@.meta.rand matches Some(rc) ==> (r matches Ok(v) ==> open_env(
                secret.priv_key_bits@,
                rc,
                self@.content,
            ) == Some(v@)),
            self@.meta.rand matches Some(rc) ==> (r is Err ==> open_env(
                secret.priv_key_bits@,
                rc,
                self@.content,
            ) is None),
    {
        match &self.meta.rand {
            None => Ok(clone_bytes(&self.content)),
            Some(rand_ct) => {
                if rand_ct.len() < 12 || self.content.len() < 12 {
                    return Err(KVSError::AESGcmError);
                }
                let priv_head = slice_subrange(secret.priv_key_bits.as_slice(), 0, 32);
                let rn = slice_subrange(rand_ct.as_slice(), 0, 12);
                let rc = slice_subrange(rand_ct.as_slice(), 12, rand_ct.len());
                let entry_key = match aead_open(priv_head, rn, rc) {
                    Ok(k) => k,
                    Err(e) => {
                        return Err(e);
                    },
                };
                if entry_key.len() != 32 {
                    return Err(KVSError::AESGcmError);
                }
                let vn = slice_subrange(self.content.as_slice(), 0, 12);
                let vc = slice_subrange(self.content.as_slice(), 12, self.content.len());
                aead_open(entry_key.as_slice(), vn, vc)
            },
        }
    }
}

/// What a full read-reply payload decodes to.
pub open spec fn cat_reply_of(b: Seq<u8>) -> Option<Result<CatReplyView, Seq<char>>> {
    if b.len() >= 1 && b[0] == 0 {
        match dec_meta(b.skip(1)) {
            Some((meta, c1)) => match dec_bytes(b.skip(1 + c1)) {
                Some((content, c2)) => if 1 + c1 + c2 == b.len() {
                    Some(Ok(CatReplyView { meta, content }))
                } else {
                    None
                },
                None => None,
            },
            None => None,
        }
    } else if b.len() >= 1 && b[0] == 1 {
        match dec_str(b.skip(1)) {
            Some((m, c)) => if 1 + c == b.len() {
                Some(Err(m))
            } else {
                None
            },
            None => None,
        }
    } else {
        None
    }
}

/// The server's successful reply to a read.
pub fn encode_cat_reply(c: &CatReply) -> (r: Vec<u8>)
    ensures
        cat_reply_of(r@) == Some(Result::<CatReplyView, Seq<char>>::Ok(c@)),
{
    let mut out: Vec<u8> = Vec::new();
    let _content_len: usize = c.content.len();
    write_u8(&mut out, 0);
    write_meta(&mut out, &c.meta);
    write_bytes(&mut out, &c.content);
    proof {
        lemma_auto_spec_u64_to_from_le_bytes();
        lemma_dec_meta(c@.meta, enc_bytes(c@.content) + Seq::empty());
        assert(out@.skip(1) =~= enc_meta(c@.meta) + (enc_bytes(c@.content) + Seq::<u8>::empty()));
        let c1 = enc_meta(c@.meta).len() as int;
        lemma_skip_skip(out@, 1, c1);
        assert(out@.skip(1).skip(c1) =~= enc_bytes(c@.content) + Seq::<u8>::empty());
        lemma_dec_bytes(c@.content, Seq::empty());
        assert(out@[0] == 0);
    }
    out
}

/// The client's reading of a read reply: the entry, the server's reported
/// logic error, or a malformed-payload error.
pub fn parse_cat_reply(payload: &Vec<u8>) -> (r: KVSResult<CatReply>)
    ensures
        r matches Ok(c) ==> cat_reply_of(payload@) == Some(Result::<CatReplyView, Seq<char>>::Ok(
            c@,
        )),
        r matches Err(KVSError::LogicError(m)) ==> cat_reply_of(payload@) == Some(Result::<
            CatReplyView,
            Seq<char>,
        >::Err(m@)),
        r matches Err(KVSError::CodecError) ==> cat_reply_of(payload@) is None,
        r matches Err(e) ==> (e is LogicError || e is CodecError),
{
    match read_u8(payload, 0) {
        Some((tag, p)) => {
            proof {
                assert(payload@.skip(0) =~= payload@);
                assert(payload@.skip(0)[0] == payload@[0]);
            }
            if tag == 0 {
                let (meta, p2) = match read_meta(payload, p) {
                    Some(x) => x,
                    None => {
                        return Err(KVSError::CodecError);
                    },
                };
                proof {
                    lemma_skip_skip(payload@, 1, p2 - 1);
                }
                let (content, p3) = match read_bytes(payload, p2) {
                    Some(x) => x,
                    None => {
                        return Err(KVSError::CodecError);
                    },
                };
                if p3 == payload.len() {
                    Ok(CatReply { meta, content })
                } else {
                    Err(KVSError::CodecError)
                }
            } else if tag == 1 {
                match read_str(payload, p) {
                    Some((m, p2)) => {
                        if p2 == payload.len() {
                            Err(KVSError::LogicError(m))
                        } else {
                            Err(KVSError::CodecError)
                        }
                    },
                    None => Err(KVSError::CodecError),
                }
            } else {
                Err(KVSError::CodecError)
            }
        },
        None => Err(KVSError::CodecError),
    }
}

impl ReadAction {
    /// The server side of a read. A missing key fails with the not-exists
    /// message. An existing private entry read under a token that does not
    /// own it fails with the privacy message, though the entry exists.
    /// Otherwise the entry's metadata and stored value come back.
    pub fn serve(&self, store: &Store) -> (r: KVSResult<CatReply>)
        ensures
            lookup(store@, read_owner(self@), key_hash_of(self@.key)) is None ==> (r matches Err(
                KVSError::LogicError(m),
            ) && m@ == not_exists_msg(self@.key)),
            lookup(store@, read_owner(self@), key_hash_of(self@.key)) matches Some(e) ==> ((
            e.meta.rand is Some && e.meta.owner != self@.token.id) ==> (r matches Err(
                KVSError::LogicError(m),
            ) && m@ == private_msg(self@.key))),
            lookup(store@, read_owner(self@), key_hash_of(self@.key)) matches Some(e) ==> (!(
            e.meta.rand is Some && e.meta.owner != self@.token.id) ==> (r matches Ok(c) && c@.meta
                == e.meta && c@.content == e.value)),
    {
        let key_hash = hash_key(&self.key);
        let owner_dir: &Vec<u8> = match &self.scope {
            Some(s) => s,
            None => &self.token.id,
        };
        match store.get(owner_dir, &key_hash) {
            None => Err(KVSError::LogicError(make_not_exists_msg(&self.key))),
            Some(entry) => {
                if entry.meta.rand.is_some() && !bytes_eq(&entry.meta.owner, &self.token.id) {
                    Err(KVSError::LogicError(make_private_msg(&self.key)))
                } else {
                    Ok(CatReply { meta: entry.meta.dup(), content: clone_bytes(&entry.value) })
                }
            },
        }
    }
}

} // verus!
