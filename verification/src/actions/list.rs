//! Listing a caller's entries: all metadata records under its own
//! identity, empty if it has none, and the local file metadata the
//! synchronisation logic compares against them.

use vstd::prelude::*;
use vstd::bytes::lemma_auto_spec_u64_to_from_le_bytes;
use crate::codec::{
    dec_str, dec_u64, enc_u64, lemma_skip_skip, read_str, read_u64, read_u8, write_u64, write_u8,
};
use crate::errors::{KVSError, KVSResult};
use crate::store::{metas_of, Store};
use crate::utils::{sha256, sha256_of};
use super::create::{
    dec_meta, enc_meta, lemma_dec_meta, meta_fits, read_meta, write_meta, KeyMeta, MetaView,
};
use super::fetch_token::{dec_token, enc_token, read_token, write_token, KVSToken, TokenView};

verus! {

/// The request that lists the caller's own entries.
pub struct ListAction {
    pub token: KVSToken,
}

impl View for ListAction {
    type V = TokenView;

    open spec fn view(&self) -> TokenView {
        self.token@
    }
}

pub fn write_list(out: &mut Vec<u8>, a: &ListAction)
    ensures
        final(out)@ == old(out)@ + enc_token(a@),
        a@.id.len() <= u64::MAX,
        a@.sign.len() <= u64::MAX,
{
    let _id_len: usize = a.token.id.len();
    let _sign_len: usize = a.token.sign.len();
    write_token(out, &a.token);
}

pub fn read_list(buf: &Vec<u8>, pos: usize) -> (r: Option<(ListAction, usize)>)
    requires
        pos <= buf@.len(),
    ensures
        r matches Some((a, p)) ==> pos < p <= buf@.len() && dec_token(buf@.skip(pos as int))
            == Some((a@, (p - pos) as int)),
        r is None ==> dec_token(buf@.skip(pos as int)) is None,
{
    match read_token(buf, pos) {
        Some((token, p)) => Some((ListAction { token }, p)),
        None => None,
    }
}

impl ListAction {
    /// The server side of a list: every metadata record stored under the
    /// caller's identity, in insertion order; an owner with no entries
    /// receives the empty collection, not an error.
    pub fn serve(&self, store: &Store) -> (r: Vec<KeyMeta>)
        ensures
            r@.map_values(|m: KeyMeta| m@) == metas_of(store@, self@.id),
    {
        store.list(&self.token.id)
    }
}

// ---------------------------------------------------------------------------
// The list reply: a count followed by that many metadata records.
// ---------------------------------------------------------------------------
pub open spec fn enc_meta_seq(ms: Seq<MetaView>) -> Seq<u8>
    decreases ms.len(),
{
    if ms.len() == 0 {
        Seq::empty()
    } else {
        enc_meta(ms[0]) + enc_meta_seq(ms.drop_first())
    }
}

pub open spec fn metas_fit(ms: Seq<MetaView>) -> bool {
    forall|i: int| 0 <= i < ms.len() ==> meta_fits(#[trigger] ms[i])
}

pub open spec fn dec_meta_seq(b: Seq<u8>, n: nat) -> Option<(Seq<MetaView>, int)>
    decreases n,
{
    if n == 0 {
        Some((Seq::empty(), 0int))
    } else {
        match dec_meta(b) {
            Some((m, c)) => match dec_meta_seq(b.skip(c), (n - 1) as nat) {
                Some((ms, c2)) => Some((seq![m] + ms, c + c2)),
                None => None,
            },
            None => None,
        }
    }
}

pub proof fn lemma_enc_meta_seq_push(ms: Seq<MetaView>, m: MetaView)
    ensures
        enc_meta_seq(ms.push(m)) == enc_meta_seq(ms) + enc_meta(m),
    decreases ms.len(),
{
    if ms.len() == 0 {
        let p = ms.push(m);
        assert(p[0] == m);
        assert(p.drop_first() =~= Seq::<MetaView>::empty());
        assert(enc_meta_seq(p.drop_first()) == Seq::<u8>::empty());
        assert(enc_meta_seq(p) =~= enc_meta(m));
        assert(enc_meta_seq(ms) == Seq::<u8>::empty());
        assert(enc_meta_seq(ms) + enc_meta(m) =~= enc_meta(m));
    } else {
        assert(ms.push(m)[0] == ms[0]);
        assert(ms.push(m).drop_first() =~= ms.drop_first().push(m));
        lemma_enc_meta_seq_push(ms.drop_first(), m);
        assert(enc_meta(ms[0]) + (enc_meta_seq(ms.drop_first()) + enc_meta(m)) =~= (enc_meta(
            ms[0],
        ) + enc_meta_seq(ms.drop_first())) + enc_meta(m));
    }
}

pub proof fn lemma_dec_meta_seq(ms: Seq<MetaView>, rest: Seq<u8>)
    requires
        metas_fit(ms),
    ensures
        dec_meta_seq(enc_meta_seq(ms) + rest, ms.len()) == Some(
            (ms, enc_meta_seq(ms).len() as int),
        ),
    decreases ms.len(),
{
    if ms.len() == 0 {
        assert(enc_meta_seq(ms) + rest =~= rest);
    } else {
        let b = enc_meta_seq(ms) + rest;
        let tail = enc_meta_seq(ms.drop_first()) + rest;
        assert(b =~= enc_meta(ms[0]) + tail);
        lemma_dec_meta(ms[0], tail);
        let c = enc_meta(ms[0]).len() as int;
        assert(b.skip(c) =~= tail);
        assert forall|i: int| 0 <= i < ms.drop_first().len() implies meta_fits(
            #[trigger] ms.drop_first()[i],
        ) by {
            assert(ms.drop_first()[i] == ms[i + 1]);
        }
        lemma_dec_meta_seq(ms.drop_first(), rest);
        assert(seq![ms[0]] + ms.drop_first() =~= ms);
    }
}

/// What a full list-reply payload decodes to.
pub open spec fn list_reply_of(b: Seq<u8>) -> Option<Result<Seq<MetaView>, Seq<char>>> {
    if b.len() >= 1 && b[0] == 0 {
        match dec_u64(b.skip(1)) {
            Some((n, c1)) => match dec_meta_seq(b.skip(1 + c1), n as nat) {
                Some((ms, c2)) => if 1 + c1 + c2 == b.len() {
                    Some(Ok(ms))
                } else {
                    None
                },
                None => None,
            },
            None => None,
        }
    } else if b.len() >= 1 && b[0] == 1 {
        match dec_str(b.skip(1)) {
            Some((m, c)) => if 1 + c == b.len() {
                Some(Err(m))
            } else {
                None
            },
            None => None,
        }
    } else {
        None
    }
}

/// The server's successful reply to a list.
pub fn encode_list_reply(metas: &Vec<KeyMeta>) -> (r: Vec<u8>)
    ensures
        list_reply_of(r@) == Some(Result::<Seq<MetaView>, Seq<char>>::Ok(
            metas@.map_values(|m: KeyMeta| m@),
        )),
{
    let ghost view = metas@.map_values(|m: KeyMeta| m@);
    let mut out: Vec<u8> = Vec::new();
    write_u8(&mut out, 0);
    write_u64(&mut out, metas.len() as u64);
    let ghost head = out@;
    let mut i: usize = 0;
    proof {
        assert(view.take(0) =~= Seq::<MetaView>::empty());
        assert(out@ =~= head + enc_meta_seq(view.take(0)));
    }
    while i < metas.len()
        invariant
            i <= metas.len(),
            view == metas@.map_values(|m: KeyMeta| m@),
            view.len() == metas@.len(),
            out@ == head + enc_meta_seq(view.take(i as int)),
            metas_fit(view.take(i as int)),
        decreases metas.len() - i,
    {
        let ghost pre = out@;
        write_meta(&mut out, &metas[i]);
        proof {
            assert(view.take(i + 1) =~= view.take(i as int).push(view[i as int]));
            lemma_enc_meta_seq_push(view.take(i as int), view[i as int]);
            assert(view[i as int] == metas@[i as int]@);
            assert(out@ =~= head + enc_meta_seq(view.take(i + 1)));
            assert forall|j: int| 0 <= j < view.take(i + 1).len() implies meta_fits(
                #[trigger] view.take(i + 1)[j],
            ) by {
                if j < i as int {
                    assert(view.take(i + 1)[j] == view.take(i as int)[j]);
                } else {
                    assert(view.take(i + 1)[j] == metas@[i as int]@);
                }
            }
        }
        i += 1;
    }
    proof {
        lemma_auto_spec_u64_to_from_le_bytes();
        assert(view.take(metas@.len() as int) =~= view);
        lemma_dec_meta_seq(view, Seq::empty());
        assert(enc_meta_seq(view) + Seq::<u8>::empty() =~= enc_meta_seq(view));
        assert(out@[0] == 0);
        assert(out@.skip(1) =~= enc_u64(metas@.len() as u64) + enc_meta_seq(view));
        crate::codec::lemma_dec_u64(metas@.len() as u64, enc_meta_seq(view));
        assert(out@.skip(1).skip(8) =~= enc_meta_seq(view));
        lemma_skip_skip(out@, 1, 8);
    }
    out
}

/// The client's reading of a list reply.
pub fn parse_list_reply(payload: &Vec<u8>) -> (r: KVSResult<Vec<KeyMeta>>)
    ensures
        r matches Ok(v) ==> list_reply_of(payload@) == Some(Result::<Seq<MetaView>, Seq<char>>::Ok(
            v@.map_values(|m: KeyMeta| m@),
        )),
        r matches Err(KVSError::LogicError(m)) ==> list_reply_of(payload@) == Some(Result::<
            Seq<MetaView>,
            Seq<char>,
        >::Err(m@)),
        r matches Err(KVSError::CodecError) ==> list_reply_of(payload@) is None,
        r matches Err(e) ==> (e is LogicError || e is CodecError),
{
    let (tag, p_tag) = match read_u8(payload, 0) {
        Some(x) => x,
        None => {
            return Err(KVSError::CodecError);
        },
    };
    proof {
        assert(payload@.skip(0) =~= payload@);
        assert(payload@.skip(0)[0] == payload@[0]);
    }
    if tag == 1 {
        return match read_str(payload, p_tag) {
            Some((m, p2)) => {
                if p2 == payload.len() {
                    Err(KVSError::LogicError(m))
                } else {
                    Err(KVSError::CodecError)
                }
            },
            None => Err(KVSError::CodecError),
        };
    }
    if tag != 0 {
        return Err(KVSError::CodecError);
    }
    let (n, p0) = match read_u64(payload, p_tag) {
        Some(x) => x,
        None => {
            proof {
                lemma_skip_skip(payload@, 0, 1);
            }
            return Err(KVSError::CodecError);
        },
    };
    proof {
        lemma_skip_skip(payload@, 0, 1);
    }
    let mut acc: Vec<KeyMeta> = Vec::new();
    let mut i: u64 = 0;
    let mut p: usize = p0;
    proof {
        assert(acc@.map_values(|m: KeyMeta| m@) =~= Seq::<MetaView>::empty());
        match dec_meta_seq(payload@.skip(p0 as int), n as nat) {
            Some((ms, c)) => {
                assert(acc@.map_values(|m: KeyMeta| m@) + ms =~= ms);
            },
            None => {},
        }
    }
    while i < n
        invariant
            i <= n,
            p0 == 9,
            payload@.len() >= 9,
            payload@[0] == 0,
            dec_u64(payload@.skip(1)) == Some((n, 8int)),
            p0 <= p <= payload@.len(),
            dec_meta_seq(payload@.skip(p0 as int), n as nat) == (match dec_meta_seq(
                payload@.skip(p as int),
                (n - i) as nat,
            ) {
                Some((ms, c)) => Some(
                    (acc@.map_values(|m: KeyMeta| m@) + ms, (p - p0) as int + c),
                ),
                None => None::<(Seq<MetaView>, int)>,
            }),
        decreases n - i,
    {
        let ghost pre_acc = acc@;
        let (m, pn) = match read_meta(payload, p) {
            Some(x) => x,
            None => {
                return Err(KVSError::CodecError);
            },
        };
        proof {
            lemma_skip_skip(payload@, p as int, pn - p);
            match dec_meta_seq(payload@.skip(pn as int), (n - i - 1) as nat) {
                Some((ms2, c2)) => {
                    assert(pre_acc.map_values(|mm: KeyMeta| mm@) + (seq![m@] + ms2)
                        =~= pre_acc.map_values(|mm: KeyMeta| mm@).push(m@) + ms2);
                },
                None => {},
            }
        }
        acc.push(m);
        proof {
            assert(acc@.map_values(|mm: KeyMeta| mm@) =~= pre_acc.map_values(
                |mm: KeyMeta| mm@,
            ).push(acc@[pre_acc.len() as int]@));
        }
        i = i + 1;
        p = pn;
    }
    proof {
        assert(dec_meta_seq(payload@.skip(p as int), (n - i) as nat) == Some(
            (Seq::<MetaView>::empty(), 0int),
        ));
        assert(acc@.map_values(|m: KeyMeta| m@) + Seq::<MetaView>::empty() =~= acc@.map_values(
            |m: KeyMeta| m@,
        ));
    }
    if p == payload.len() {
        Ok(acc)
    } else {
        Err(KVSError::CodecError)
    }
}

// ---------------------------------------------------------------------------
// Local file metadata, compared against remote records by the
// synchronisation logic.
// ---------------------------------------------------------------------------
/// A local file as the synchroniser sees it: its key name, its path, the
/// content hash of its bytes and their count.
pub struct LocalFileMeta {
    pub name: String,
    pub path: String,
    pub original_hash: Vec<u8>,
    pub size: u64,
}

pub ghost struct LocalFileMetaView {
    pub name: Seq<char>,
    pub path: Seq<char>,
    pub original_hash: Seq<u8>,
    pub size: u64,
}

impl View for LocalFileMeta {
    type V = LocalFileMetaView;

    open spec fn view(&self) -> LocalFileMetaView {
        LocalFileMetaView {
            name: self.name@,
            path: self.path@,
            original_hash: self.original_hash@,
            size: self.size,
        }
    }
}

impl LocalFileMeta {
    /// The record of one local file, from its name, its path and its
    /// bytes: the hash is the content hash of the bytes, the size their
    /// count.
    pub fn from_bytes(name: String, path: String, bytes: &Vec<u8>) -> (r: LocalFileMeta)
        requires
            bytes@.len() <= u64::MAX,
        ensures
            r@.name == name@,
            r@.path == path@,
            r@.original_hash == sha256_of(bytes@),
            r@.size == bytes@.len(),
    {
        let original_hash = sha256(bytes.as_slice());
        let size = bytes.len() as u64;
        LocalFileMeta { name, path, original_hash, size }
    }
}

} // verus!
