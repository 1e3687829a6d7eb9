//! Creating an entry: the metadata record that accompanies every value,
//! and the request that writes a fresh key.

use vstd::prelude::*;
use vstd::bytes::lemma_auto_spec_u64_to_from_le_bytes;
use vstd::slice::slice_subrange;
use vstd::utf8::encode_utf8;
use crate::aead::{aead_seal, lemma_envelope_round_trip, open_env};
use crate::codec::{
    dec_bytes, dec_opt_bytes, dec_str, dec_u64, enc_bytes, enc_opt_bytes, enc_str, enc_u64,
    lemma_dec_bytes, lemma_dec_opt_bytes, lemma_dec_str, lemma_dec_u64, lemma_skip_skip,
    read_bytes, read_opt_bytes, read_str, read_u64, view_opt, write_bytes, write_opt_bytes,
    write_str, write_u64,
};
use crate::errors::{KVSError, KVSResult};
use crate::secret::Secret;
use crate::store::{hash_key, key_hash_of, lookup, EntryView, Store, StoreEntry};
use crate::utils::clone_bytes;
use super::fetch_token::{
    dec_token, enc_token, lemma_dec_token, read_token, write_token, KVSToken, TokenView,
};
use super::{already_exists_msg, make_already_exists_msg, ReplyCode};
use vstd::string::StringExecFns;

verus! {

/// The metadata stored beside every value: its declared type, the
/// plaintext size, the owner written in from the verified token, the
/// original key name, the encrypted envelope key of a private entry, and
/// the content hash of the plaintext.
#[derive(Debug)]
pub struct KeyMeta {
    pub mime: String,
    pub size: u64,
    pub owner: Vec<u8>,
    pub name: String,
    pub rand: Option<Vec<u8>>,
    pub original_hash: Vec<u8>,
}

pub ghost struct MetaView {
    pub mime: Seq<char>,
    pub size: u64,
    pub owner: Seq<u8>,
    pub name: Seq<char>,
    pub rand: Option<Seq<u8>>,
    pub original_hash: Seq<u8>,
}

impl View for KeyMeta {
    type V = MetaView;

    open spec fn view(&self) -> MetaView {
        MetaView {
            mime: self.mime@,
            size: self.size,
            owner: self.owner@,
            name: self.name@,
            rand: view_opt(self.rand),
            original_hash: self.original_hash@,
        }
    }
}

impl KeyMeta {
    pub fn dup(&self) -> (r: KeyMeta)
        ensures
            r@ == self@,
    {
        KeyMeta {
            mime: self.mime.clone(),
            size: self.size,
            owner: clone_bytes(&self.owner),
            name: self.name.clone(),
            rand: match &self.rand {
                Some(v) => Some(clone_bytes(v)),
                None => None,
            },
            original_hash: clone_bytes(&self.original_hash),
        }
    }
}

// ---------------------------------------------------------------------------
// Wire encoding of the metadata record.
// ---------------------------------------------------------------------------
pub open spec fn enc_meta(m: MetaView) -> Seq<u8> {
    enc_str(m.mime) + enc_u64(m.size) + enc_bytes(m.owner) + enc_str(m.name) + enc_opt_bytes(
        m.rand,
    ) + enc_bytes(m.original_hash)
}

/// Every variable-length field of the record fits a 64-bit length prefix.
pub open spec fn meta_fits(m: MetaView) -> bool {
    &&& encode_utf8(m.mime).len() <= u64::MAX
    &&& m.owner.len() <= u64::MAX
    &&& encode_utf8(m.name).len() <= u64::MAX
    &&& (m.rand matches Some(v) ==> v.len() <= u64::MAX)
    &&& m.original_hash.len() <= u64::MAX
}

pub open spec fn dec_meta(b: Seq<u8>) -> Option<(MetaView, int)> {
    match dec_str(b) {
        Some((mime, c1)) => match dec_u64(b.skip(c1)) {
            Some((size, c2)) => match dec_bytes(b.skip(c1 + c2)) {
                Some((owner, c3)) => match dec_str(b.skip(c1 + c2 + c3)) {
                    Some((name, c4)) => match dec_opt_bytes(b.skip(c1 + c2 + c3 + c4)) {
                        Some((rand, c5)) => match dec_bytes(b.skip(c1 + c2 + c3 + c4 + c5)) {
                            Some((oh, c6)) => Some(
                                (
                                    MetaView {
                                        mime,
                                        size,
                                        owner,
                                        name,
                                        rand,
                                        original_hash: oh,
                                    },
                                    c1 + c2 + c3 + c4 + c5 + c6,
                                ),
                            ),
                            None => None,
                        },
                        None => None,
                    },
                    None => None,
                },
                None => None,
            },
            None => None,
        },
        None => None,
    }
}

#[verifier::rlimit(50)]
pub proof fn lemma_dec_meta(m: MetaView, rest: Seq<u8>)
    requires
        meta_fits(m),
    ensures
        dec_meta(enc_meta(m) + rest) == Some((m, enc_meta(m).len() as int)),
{
    lemma_auto_spec_u64_to_from_le_bytes();
    let b = enc_meta(m) + rest;
    let t5 = enc_bytes(m.original_hash) + rest;
    let t4 = enc_opt_bytes(m.rand) + t5;
    let t3 = enc_str(m.name) + t4;
    let t2 = enc_bytes(m.owner) + t3;
    let t1 = enc_u64(m.size) + t2;
    assert(b =~= enc_str(m.mime) + t1);
    lemma_dec_str(m.mime, t1);
    let c1 = 8 + encode_utf8(m.mime).len() as int;
    assert(b.skip(c1) =~= t1);
    lemma_dec_u64(m.size, t2);
    assert(b.skip(c1 + 8) =~= t2);
    lemma_dec_bytes(m.owner, t3);
    let c3 = 8 + m.owner.len() as int;
    assert(b.skip(c1 + 8 + c3) =~= t3);
    lemma_dec_str(m.name, t4);
    let c4 = 8 + encode_utf8(m.name).len() as int;
    assert(b.skip(c1 + 8 + c3 + c4) =~= t4);
    lemma_dec_opt_bytes(m.rand, t5);
    let c5 = enc_opt_bytes(m.rand).len() as int;
    assert(b.skip(c1 + 8 + c3 + c4 + c5) =~= t5);
    lemma_dec_bytes(m.original_hash, rest);
}

pub fn write_meta(out: &mut Vec<u8>, m: &KeyMeta)
    ensures
        final(out)@ == old(out)@ + enc_meta(m@),
        meta_fits(m@),
{
    let _mime_len: usize = m.mime.as_str().as_bytes().len();
    let _owner_len: usize = m.owner.len();
    let _name_len: usize = m.name.as_str().as_bytes().len();
    let _rand_len: usize = match &m.rand {
        Some(v) => v.len(),
        None => 0,
    };
    let _hash_len: usize = m.original_hash.len();
    write_str(out, &m.mime);
    write_u64(out, m.size);
    write_bytes(out, &m.owner);
    write_str(out, &m.name);
    write_opt_bytes(out, &m.rand);
    write_bytes(out, &m.original_hash);
    proof {
        assert(out@ =~= old(out)@ + enc_meta(m@));
    }
}

pub fn read_meta(buf: &Vec<u8>, pos: usize) -> (r: Option<(KeyMeta, usize)>)
    requires
        pos <= buf@.len(),
    ensures
        r matches Some((m, p)) ==> pos < p <= buf@.len() && dec_meta(buf@.skip(pos as int))
            == Some((m@, (p - pos) as int)),
        r is None ==> dec_meta(buf@.skip(pos as int)) is None,
{
    let (mime, p1) = match read_str(buf, pos) {
        Some(x) => x,
        None => {
            return None;
        },
    };
    proof {
        lemma_skip_skip(buf@, pos as int, p1 - pos);
    }
    let (size, p2) = match read_u64(buf, p1) {
        Some(x) => x,
        None => {
            return None;
        },
    };
    proof {
        lemma_skip_skip(buf@, pos as int, p2 - pos);
    }
    let (owner, p3) = match read_bytes(buf, p2) {
        Some(x) => x,
        None => {
            return None;
        },
    };
    proof {
        lemma_skip_skip(buf@, pos as int, p3 - pos);
    }
    let (name, p4) = match read_str(buf, p3) {
        Some(x) => x,
        None => {
            return None;
        },
    };
    proof {
        lemma_skip_skip(buf@, pos as int, p4 - pos);
    }
    let (rand, p5) = match read_opt_bytes(buf, p4) {
        Some(x) => x,
        None => {
            return None;
        },
    };
    proof {
        lemma_skip_skip(buf@, pos as int, p5 - pos);
    }
    let (original_hash, p6) = match read_bytes(buf, p5) {
        Some(x) => x,
        None => {
            return None;
        },
    };
    Some((KeyMeta { mime, size, owner, name, rand, original_hash }, p6))
}

// ---------------------------------------------------------------------------
// The Create action.
// ---------------------------------------------------------------------------
/// The request that writes a fresh key: the caller's token, the key name,
/// the metadata and the (possibly envelope-encrypted) value.
pub struct CreateAction {
    pub token: KVSToken,
    pub key: String,
    pub meta: KeyMeta,
    pub value: Vec<u8>,
}

pub ghost struct CreateView {
    pub token: TokenView,
    pub key: Seq<char>,
    pub meta: MetaView,
    pub value: Seq<u8>,
}

impl View for CreateAction {
    type V = CreateView;

    open spec fn view(&self) -> CreateView {
        CreateView { token: self.token@, key: self.key@, meta: self.meta@, value: self.value@ }
    }
}

pub open spec fn enc_create(a: CreateView) -> Seq<u8> {
    enc_token(a.token) + enc_str(a.key) + enc_meta(a.meta) + enc_bytes(a.value)
}

pub open spec fn create_fits(a: CreateView) -> bool {
    &&& a.token.id.len() <= u64::MAX
    &&& a.token.sign.len() <= u64::MAX
    &&& encode_utf8(a.key).len() <= u64::MAX
    &&& meta_fits(a.meta)
    &&& a.value.len() <= u64::MAX
}

pub open spec fn dec_create(b: Seq<u8>) -> Option<(CreateView, int)> {
    match dec_token(b) {
        Some((token, c1)) => match dec_str(b.skip(c1)) {
            Some((key, c2)) => match dec_meta(b.skip(c1 + c2)) {
                Some((meta, c3)) => match dec_bytes(b.skip(c1 + c2 + c3)) {
                    Some((value, c4)) => Some(
                        (CreateView { token, key, meta, value }, c1 + c2 + c3 + c4),
                    ),
                    None => None,
                },
                None => None,
            },
            None => None,
        },
        None => None,
    }
}

pub proof fn lemma_dec_create(a: CreateView, rest: Seq<u8>)
    requires
        create_fits(a),
    ensures
        dec_create(enc_create(a) + rest) == Some((a, enc_create(a).len() as int)),
{
    lemma_auto_spec_u64_to_from_le_bytes();
    let b = enc_create(a) + rest;
    let t3 = enc_bytes(a.value) + rest;
    let t2 = enc_meta(a.meta) + t3;
    let t1 = enc_str(a.key) + t2;
    assert(b =~= enc_token(a.token) + t1);
    lemma_dec_token(a.token, t1);
    let c1 = enc_token(a.token).len() as int;
    assert(b.skip(c1) =~= t1);
    lemma_dec_str(a.key, t2);
    let c2 = 8 + encode_utf8(a.key).len() as int;
    assert(b.skip(c1 + c2) =~= t2);
    lemma_dec_meta(a.meta, t3);
    let c3 = enc_meta(a.meta).len() as int;
    assert(b.skip(c1 + c2 + c3) =~= t3);
    lemma_dec_bytes(a.value, rest);
}

pub fn write_create(out: &mut Vec<u8>, a: &CreateAction)
    ensures
        final(out)@ == old(out)@ + enc_create(a@),
        create_fits(a@),
{
    let _id_len: usize = a.token.id.len();
    let _sign_len: usize = a.token.sign.len();
    let _key_len: usize = a.key.as_str().as_bytes().len();
    let _value_len: usize = a.value.len();
    write_token(out, &a.token);
    write_str(out, &a.key);
    write_meta(out, &a.meta);
    write_bytes(out, &a.value);
    proof {
        assert(out@ =~= old(out)@ + enc_create(a@));
    }
}

pub fn read_create(buf: &Vec<u8>, pos: usize) -> (r: Option<(CreateAction, usize)>)
    requires
        pos <= buf@.len(),
    ensures
        r matches Some((a, p)) ==> pos < p <= buf@.len() && dec_create(buf@.skip(pos as int))
            == Some((a@, (p - pos) as int)),
        r is None ==> dec_create(buf@.skip(pos as int)) is None,
{
    let (token, p1) = match read_token(buf, pos) {
        Some(x) => x,
        None => {
            return None;
        },
    };
    proof {
        lemma_skip_skip(buf@, pos as int, p1 - pos);
    }
    let (key, p2) = match read_str(buf, p1) {
        Some(x) => x,
        None => {
            return None;
        },
    };
    proof {
        lemma_skip_skip(buf@, pos as int, p2 - pos);
    }
    let (meta, p3) = match read_meta(buf, p2) {
        Some(x) => x,
        None => {
            return None;
        },
    };
    proof {
        lemma_skip_skip(buf@, pos as int, p3 - pos);
    }
    let (value, p4) = match read_bytes(buf, p3) {
        Some(x) => x,
        None => {
            return None;
        },
    };
    Some((CreateAction { token, key, meta, value }, p4))
}

/// The entry a create or update request stores: addressed by the token's
/// identity and the hashed key, with the owner field overwritten from the
/// verified token, never trusted from the request.
pub open spec fn stored_entry_view(a: CreateView) -> EntryView {
    EntryView {
        owner: a.token.id,
        key_hash: key_hash_of(a.key),
        meta: MetaView { owner: a.token.id, ..a.meta },
        value: a.value,
    }
}

impl CreateAction {
    /// The server side of a create. An occupied address fails with the
    /// already-exists message and leaves the store as it was; a free one
    /// gains exactly this entry, and every other address reads as before.
    pub fn serve(&self, store: &mut Store) -> (r: KVSResult<ReplyCode>)
        requires
            old(store).wf(),
        ensures
            final(store).wf(),
            lookup(old(store)@, self@.token.id, key_hash_of(self@.key)) is Some ==> (r matches Err(
                KVSError::LogicError(m),
            ) && m@ == already_exists_msg(self@.key) && final(store)@ == old(store)@),
            lookup(old(store)@, self@.token.id, key_hash_of(self@.key)) is None ==> (r
                == Result::<ReplyCode, KVSError>::Ok(ReplyCode::Done) && final(store)@ == old(
                store,
            )@.push(stored_entry_view(self@)) && lookup(
                final(store)@,
                self@.token.id,
                key_hash_of(self@.key),
            ) == Some(stored_entry_view(self@))),
            forall|o2: Seq<u8>, k2: Seq<u8>|
                !(o2 == self@.token.id && k2 == key_hash_of(self@.key)) ==> lookup(
                    final(store)@,
                    o2,
                    k2,
                ) == lookup(old(store)@, o2, k2),
    {
        let key_hash = hash_key(&self.key);
        let mut meta = self.meta.dup();
        meta.owner = clone_bytes(&self.token.id);
        let entry = StoreEntry {
            owner: clone_bytes(&self.token.id),
            key_hash,
            meta,
            value: clone_bytes(&self.value),
        };
        if store.create(entry) {
            Ok(ReplyCode::Done)
        } else {
            Err(KVSError::LogicError(make_already_exists_msg(&self.key)))
        }
    }
}

/// Seal a value for a private entry: the value under the fresh entry key,
/// and the entry key itself under the head of the owner's private-key
/// bytes. Only the owner can open the pair again; sealing succeeds for
/// every value up to the cipher's size bound.
pub fn seal_entry_value(value: &Vec<u8>, entry_key: &Vec<u8>, secret: &Secret) -> (r: KVSResult<
    (Vec<u8>, Vec<u8>),
>)
    requires
        entry_key@.len() == 32,
        secret.wf(),
    ensures
        r matches Ok(p) ==> open_env(secret.priv_key_bits@, p.1@, p.0@) == Some(value@),
        value@.len() <= 0x10_0000_0000 ==> r is Ok,
{
    let nonce_v = crate::rng::random_bytes(12);
    let ct_v = match aead_seal(entry_key.as_slice(), nonce_v.as_slice(), value.as_slice()) {
        Ok(ct) => ct,
        Err(e) => {
            return Err(e);
        },
    };
    let mut value_ct = nonce_v;
    let ghost nv = value_ct@;
    value_ct.extend_from_slice(ct_v.as_slice());
    let priv_head = slice_subrange(secret.priv_key_bits.as_slice(), 0, 32);
    let nonce_r = crate::rng::random_bytes(12);
    let ct_r = match aead_seal(priv_head, nonce_r.as_slice(), entry_key.as_slice()) {
        Ok(ct) => ct,
        Err(e) => {
            return Err(e);
        },
    };
    let mut rand_ct = nonce_r;
    let ghost nr = rand_ct@;
    rand_ct.extend_from_slice(ct_r.as_slice());
    proof {
        assert(value_ct@ =~= nv + ct_v@);
        assert(rand_ct@ =~= nr + ct_r@);
        lemma_envelope_round_trip(
            secret.priv_key_bits@,
            entry_key@,
            nv,
            ct_v@,
            nr,
            ct_r@,
            value@,
        );
    }
    Ok((value_ct, rand_ct))
}

} // verus!
