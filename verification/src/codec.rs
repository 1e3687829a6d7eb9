//! The binary wire codec: fixed-width little-endian lengths and integers,
//! length-prefixed byte strings, and UTF-8 text. Every structure that
//! crosses the wire is encoded field by field in declaration order.

use vstd::prelude::*;
use vstd::bytes::*;
use vstd::utf8::*;
use vstd::slice::{slice_subrange, slice_to_vec};
use vstd::string::StrSliceExecFns;

verus! {

// ---------------------------------------------------------------------------
// Specification-level encoders.
// ---------------------------------------------------------------------------
/// The view of an optional byte vector.
pub open spec fn view_opt(o: Option<Vec<u8>>) -> Option<Seq<u8>> {
    match o {
        Option::None => Option::None,
        Option::Some(v) => Option::Some(v@),
    }
}

pub open spec fn enc_u8(t: u8) -> Seq<u8> {
    seq![t]
}

pub open spec fn enc_u64(n: u64) -> Seq<u8> {
    spec_u64_to_le_bytes(n)
}

pub open spec fn enc_i64(x: i64) -> Seq<u8> {
    enc_u64(x as u64)
}

pub open spec fn enc_bytes(b: Seq<u8>) -> Seq<u8> {
    enc_u64(b.len() as u64) + b
}

pub open spec fn enc_str(s: Seq<char>) -> Seq<u8> {
    enc_bytes(encode_utf8(s))
}

pub open spec fn enc_opt_bytes(o: Option<Seq<u8>>) -> Seq<u8> {
    match o {
        Option::None => seq![0u8],
        Option::Some(b) => seq![1u8] + enc_bytes(b),
    }
}

// ---------------------------------------------------------------------------
// Specification-level decoders. Each consumes a prefix of the byte string
// and returns the decoded value with the number of bytes consumed.
// ---------------------------------------------------------------------------
pub open spec fn dec_u8(b: Seq<u8>) -> Option<(u8, int)> {
    if b.len() >= 1 {
        Some((b[0], 1int))
    } else {
        None
    }
}

pub open spec fn dec_u64(b: Seq<u8>) -> Option<(u64, int)> {
    if b.len() >= 8 {
        Some((spec_u64_from_le_bytes(b.subrange(0, 8)), 8int))
    } else {
        None
    }
}

pub open spec fn dec_i64(b: Seq<u8>) -> Option<(i64, int)> {
    match dec_u64(b) {
        Some((n, c)) => Some((n as i64, c)),
        None => None,
    }
}

pub open spec fn dec_bytes(b: Seq<u8>) -> Option<(Seq<u8>, int)> {
    match dec_u64(b) {
        Some((n, c)) => if c + n <= b.len() {
            Some((b.subrange(c, c + n), c + n))
        } else {
            None
        },
        None => None,
    }
}

pub open spec fn dec_str(b: Seq<u8>) -> Option<(Seq<char>, int)> {
    match dec_bytes(b) {
        Some((bs, c)) => if valid_utf8(bs) {
            Some((decode_utf8(bs), c))
        } else {
            None
        },
        None => None,
    }
}

pub open spec fn dec_opt_bytes(b: Seq<u8>) -> Option<(Option<Seq<u8>>, int)> {
    match dec_u8(b) {
        Some((t, c)) => if t == 0 {
            Some((Option::None, c))
        } else if t == 1 {
            match dec_bytes(b.skip(c)) {
                Some((bs, c2)) => Some((Option::Some(bs), c + c2)),
                None => None,
            }
        } else {
            None
        },
        None => None,
    }
}

// ---------------------------------------------------------------------------
// Round-trip lemmas: decoding an encoding followed by anything returns the
// encoded value and consumes exactly the encoding.
// ---------------------------------------------------------------------------
pub proof fn lemma_skip_skip(s: Seq<u8>, a: int, b: int)
    requires
        0 <= a,
        0 <= b,
        a + b <= s.len(),
    ensures
        s.skip(a).skip(b) =~= s.skip(a + b),
{
}

pub proof fn lemma_dec_u8(t: u8, rest: Seq<u8>)
    ensures
        dec_u8(enc_u8(t) + rest) == Some((t, 1int)),
{
    assert((enc_u8(t) + rest)[0] == t);
}

pub proof fn lemma_dec_u64(n: u64, rest: Seq<u8>)
    ensures
        dec_u64(enc_u64(n) + rest) == Some((n, 8int)),
{
    lemma_auto_spec_u64_to_from_le_bytes();
    assert((enc_u64(n) + rest).subrange(0, 8) =~= enc_u64(n));
}

pub proof fn lemma_dec_i64(x: i64, rest: Seq<u8>)
    ensures
        dec_i64(enc_i64(x) + rest) == Some((x, 8int)),
{
    lemma_dec_u64(x as u64, rest);
    assert(((x as u64) as i64) == x) by (bit_vector);
}

pub proof fn lemma_dec_bytes(v: Seq<u8>, rest: Seq<u8>)
    requires
        v.len() <= u64::MAX,
    ensures
        dec_bytes(enc_bytes(v) + rest) == Some((v, 8 + v.len() as int)),
{
    let n = v.len() as u64;
    let b = enc_bytes(v) + rest;
    assert(b =~= enc_u64(n) + (v + rest));
    lemma_dec_u64(n, v + rest);
    lemma_auto_spec_u64_to_from_le_bytes();
    assert(b.subrange(8, 8 + n as int) =~= v);
}

pub proof fn lemma_dec_str(s: Seq<char>, rest: Seq<u8>)
    requires
        encode_utf8(s).len() <= u64::MAX,
    ensures
        dec_str(enc_str(s) + rest) == Some((s, 8 + encode_utf8(s).len() as int)),
{
    lemma_dec_bytes(encode_utf8(s), rest);
    encode_utf8_valid_utf8(s);
    encode_utf8_decode_utf8(s);
}

pub proof fn lemma_dec_opt_bytes(o: Option<Seq<u8>>, rest: Seq<u8>)
    requires
        o matches Some(v) ==> v.len() <= u64::MAX,
    ensures
        dec_opt_bytes(enc_opt_bytes(o) + rest) == Some((o, enc_opt_bytes(o).len() as int)),
{
    match o {
        Option::None => {
            lemma_dec_u8(0, rest);
            assert(enc_opt_bytes(o) + rest =~= enc_u8(0) + rest);
        },
        Option::Some(v) => {
            lemma_auto_spec_u64_to_from_le_bytes();
            let b = enc_opt_bytes(o) + rest;
            assert(b =~= enc_u8(1) + (enc_bytes(v) + rest));
            lemma_dec_u8(1, enc_bytes(v) + rest);
            assert(b.skip(1) =~= enc_bytes(v) + rest);
            lemma_dec_bytes(v, rest);
        },
    }
}

// ---------------------------------------------------------------------------
// Executable encoders. Each appends the encoding of one value.
// ---------------------------------------------------------------------------
pub fn write_u8(out: &mut Vec<u8>, t: u8)
    ensures
        final(out)@ == old(out)@ + enc_u8(t),
{
    out.push(t);
    proof {
        assert(old(out)@.push(t) =~= old(out)@ + enc_u8(t));
    }
}

pub fn write_u64(out: &mut Vec<u8>, n: u64)
    ensures
        final(out)@ == old(out)@ + enc_u64(n),
{
    let b = u64_to_le_bytes(n);
    out.extend_from_slice(b.as_slice());
}

pub fn write_i64(out: &mut Vec<u8>, x: i64)
    ensures
        final(out)@ == old(out)@ + enc_i64(x),
{
    write_u64(out, x as u64);
}

pub fn write_bytes(out: &mut Vec<u8>, v: &Vec<u8>)
    ensures
        final(out)@ == old(out)@ + enc_bytes(v@),
{
    write_u64(out, v.len() as u64);
    out.extend_from_slice(v.as_slice());
    proof {
        assert(final(out)@ =~= old(out)@ + enc_bytes(v@));
    }
}

pub fn write_str(out: &mut Vec<u8>, s: &String)
    ensures
        final(out)@ == old(out)@ + enc_str(s@),
{
    let bs = s.as_str().as_bytes_vec();
    write_bytes(out, &bs);
}

pub fn write_opt_bytes(out: &mut Vec<u8>, o: &Option<Vec<u8>>)
    ensures
        final(out)@ == old(out)@ + enc_opt_bytes(view_opt(*o)),
{
    match o {
        Option::None => {
            write_u8(out, 0);
        },
        Option::Some(v) => {
            write_u8(out, 1);
            write_bytes(out, v);
            proof {
                assert(final(out)@ =~= old(out)@ + enc_opt_bytes(Option::Some(v@)));
            }
        },
    }
}

// ---------------------------------------------------------------------------
// Executable decoders. Each reads at a position in the buffer and mirrors
// the specification decoder on the remaining bytes.
// ---------------------------------------------------------------------------
pub fn read_u8(buf: &Vec<u8>, pos: usize) -> (r: Option<(u8, usize)>)
    requires
        pos <= buf@.len(),
    ensures
        r matches Some((v, p)) ==> pos < p <= buf@.len() && dec_u8(buf@.skip(pos as int))
            == Some((v, p - pos)),
        r is None ==> dec_u8(buf@.skip(pos as int)) is None,
{
    if pos < buf.len() {
        let v = buf[pos];
        proof {
            assert(buf@.skip(pos as int)[0] == buf@[pos as int]);
        }
        Some((v, pos + 1))
    } else {
        None
    }
}

pub fn read_u64(buf: &Vec<u8>, pos: usize) -> (r: Option<(u64, usize)>)
    requires
        pos <= buf@.len(),
    ensures
        r matches Some((v, p)) ==> pos < p <= buf@.len() && dec_u64(buf@.skip(pos as int))
            == Some((v, p - pos)),
        r is None ==> dec_u64(buf@.skip(pos as int)) is None,
{
    if buf.len() - pos >= 8 {
        let sub = slice_subrange(buf.as_slice(), pos, pos + 8);
        let v = u64_from_le_bytes(sub);
        proof {
            assert(buf@.skip(pos as int).subrange(0, 8) =~= buf@.subrange(
                pos as int,
                pos + 8,
            ));
        }
        Some((v, pos + 8))
    } else {
        None
    }
}

pub fn read_i64(buf: &Vec<u8>, pos: usize) -> (r: Option<(i64, usize)>)
    requires
        pos <= buf@.len(),
    ensures
        r matches Some((v, p)) ==> pos < p <= buf@.len() && dec_i64(buf@.skip(pos as int))
            == Some((v, p - pos)),
        r is None ==> dec_i64(buf@.skip(pos as int)) is None,
{
    match read_u64(buf, pos) {
        Some((n, p)) => Some((n as i64, p)),
        None => None,
    }
}

pub fn read_bytes(buf: &Vec<u8>, pos: usize) -> (r: Option<(Vec<u8>, usize)>)
    requires
        pos <= buf@.len(),
    ensures
        r matches Some((v, p)) ==> pos < p <= buf@.len() && dec_bytes(buf@.skip(pos as int))
            == Some((v@, p - pos)),
        r is None ==> dec_bytes(buf@.skip(pos as int)) is None,
{
    match read_u64(buf, pos) {
        Some((n, p)) => {
            if n <= (buf.len() - p) as u64 {
                let end = p + (n as usize);
                let v = slice_to_vec(slice_subrange(buf.as_slice(), p, end));
                proof {
                    let b = buf@.skip(pos as int);
                    let c = p - pos;
                    assert(b.subrange(c, c + n as int) =~= buf@.subrange(p as int, end as int));
                }
                Some((v, end))
            } else {
                None
            }
        },
        None => None,
    }
}

/// Relies on String::from_utf8: it accepts exactly the byte vectors that
/// are valid UTF-8 and preserves their bytes, here stated through vstd's
/// model of UTF-8.
#[verifier::external_body]
fn string_from_utf8(bytes: Vec<u8>) -> (r: Option<String>)
    ensures
        r is Some <==> valid_utf8(bytes@),
        r matches Some(s) ==> s@ == decode_utf8(bytes@),
{
    match String::from_utf8(bytes) {
        Ok(s) => Some(s),
        Err(_) => None,
    }
}

pub fn read_str(buf: &Vec<u8>, pos: usize) -> (r: Option<(String, usize)>)
    requires
        pos <= buf@.len(),
    ensures
        r matches Some((v, p)) ==> pos < p <= buf@.len() && dec_str(buf@.skip(pos as int))
            == Some((v@, p - pos)),
        r is None ==> dec_str(buf@.skip(pos as int)) is None,
{
    match read_bytes(buf, pos) {
        Some((bs, p)) => {
            match string_from_utf8(bs) {
                Some(s) => Some((s, p)),
                None => None,
            }
        },
        None => None,
    }
}

pub fn read_opt_bytes(buf: &Vec<u8>, pos: usize) -> (r: Option<(Option<Vec<u8>>, usize)>)
    requires
        pos <= buf@.len(),
    ensures
        r matches Some((v, p)) ==> pos < p <= buf@.len() && dec_opt_bytes(buf@.skip(pos as int))
            == Some((view_opt(v), p - pos)),
        r is None ==> dec_opt_bytes(buf@.skip(pos as int)) is None,
{
    match read_u8(buf, pos) {
        Some((t, p)) => {
            if t == 0 {
                Some((None, p))
            } else if t == 1 {
                match read_bytes(buf, p) {
                    Some((bs, p2)) => {
                        proof {
                            lemma_skip_skip(buf@, pos as int, p - pos);
                        }
                        Some((Some(bs), p2))
                    },
                    None => {
                        proof {
                            lemma_skip_skip(buf@, pos as int, p - pos);
                        }
                        None
                    },
                }
            } else {
                None
            }
        },
        None => None,
    }
}

} // verus!
