use vstd::prelude::*;
use vstd::std_specs::cmp::PartialEqSpec;
use vstd::string::StringExecFns;
use sha2::Digest;
use ripemd::Digest as RipemdDigest;

verus! {

/// True iff two byte vectors hold the same bytes.
pub fn bytes_eq(a: &Vec<u8>, b: &Vec<u8>) -> (r: bool)
    ensures
        r == (a@ == b@),
{
    let r = a == b;
    proof {
        assert(<Vec<u8> as PartialEqSpec>::obeys_eq_spec());
        if r {
            assert(a.eq_spec(b));
            assert(a@ =~= b@);
        } else {
            if a@ == b@ {
                assert(a.eq_spec(b));
            }
        }
    }
    r
}

/// A copy of a byte vector with the same bytes.
pub fn clone_bytes(v: &Vec<u8>) -> (r: Vec<u8>)
    ensures
        r@ == v@,
{
    let r = v.clone();
    proof {
        assert forall|i: int| 0 <= i < v@.len() implies r@[i] == v@[i] by {}
        assert(r@ =~= v@);
    }
    r
}

/// The 32-byte digest that SHA-256 assigns to a byte string.
pub uninterp spec fn sha256_of(payload: Seq<u8>) -> Seq<u8>;

/// The 20-byte digest that RIPEMD-160 assigns to a byte string.
pub uninterp spec fn ripemd160_of(payload: Seq<u8>) -> Seq<u8>;

/// The compact signature: a RIPEMD-160 pass over a SHA-256 pass.
pub open spec fn sgin_of(payload: Seq<u8>) -> Seq<u8> {
    ripemd160_of(sha256_of(payload))
}

/// Relies on sha2::Sha256: a 32-byte digest, a function of the input bytes
/// alone.
#[verifier::external_body]
pub fn sha256(payload: &[u8]) -> (r: Vec<u8>)
    ensures
        r@ == sha256_of(payload@),
        r@.len() == 32,
{
    let mut sha_256_worker = sha2::Sha256::new();
    sha_256_worker.update(payload);
    sha_256_worker.finalize().as_slice().to_vec()
}

/// Relies on ripemd::Ripemd160: a 20-byte digest, a function of the input
/// bytes alone.
#[verifier::external_body]
pub fn ripemd_160(payload: &[u8]) -> (r: Vec<u8>)
    ensures
        r@ == ripemd160_of(payload@),
        r@.len() == 20,
{
    let mut hasher = ripemd::Ripemd160::new();
    hasher.update(payload);
    hasher.finalize().to_vec()
}

/// The compact signature used for key addressing and token signing.
pub fn sgin(payload: &[u8]) -> (r: Vec<u8>)
    ensures
        r@ == sgin_of(payload@),
        r@.len() == 20,
{
    let first = sha256(payload);
    ripemd_160(first.as_slice())
}

/// The lower-case hexadecimal digit of a nibble.
pub open spec fn hex_digit_char(n: u8) -> char
    recommends
        n < 16,
{
    if n < 10 {
        (('0' as u8) + n) as char
    } else {
        (('a' as u8) + (n - 10)) as char
    }
}

/// The lower-case hexadecimal rendering of a byte string, two digits per
/// byte.
pub open spec fn hex_of(bytes: Seq<u8>) -> Seq<char>
    decreases bytes.len(),
{
    if bytes.len() == 0 {
        Seq::empty()
    } else {
        hex_of(bytes.drop_last()).push(hex_digit_char(bytes.last() / 16)).push(
            hex_digit_char(bytes.last() % 16),
        )
    }
}

fn push_hex_digit(s: &mut String, n: u8)
    requires
        n < 16,
    ensures
        final(s)@ == old(s)@.push(hex_digit_char(n)),
{
    proof {
        reveal_strlit("0");
        reveal_strlit("1");
        reveal_strlit("2");
        reveal_strlit("3");
        reveal_strlit("4");
        reveal_strlit("5");
        reveal_strlit("6");
        reveal_strlit("7");
        reveal_strlit("8");
        reveal_strlit("9");
        reveal_strlit("a");
        reveal_strlit("b");
        reveal_strlit("c");
        reveal_strlit("d");
        reveal_strlit("e");
        reveal_strlit("f");
    }
    match n {
        0 => s.append("0"),
        1 => s.append("1"),
        2 => s.append("2"),
        3 => s.append("3"),
        4 => s.append("4"),
        5 => s.append("5"),
        6 => s.append("6"),
        7 => s.append("7"),
        8 => s.append("8"),
        9 => s.append("9"),
        10 => s.append("a"),
        11 => s.append("b"),
        12 => s.append("c"),
        13 => s.append("d"),
        14 => s.append("e"),
        _ => s.append("f"),
    }
    proof {
        assert(old(s)@ + seq![hex_digit_char(n)] =~= old(s)@.push(hex_digit_char(n)));
    }
}

/// The hexadecimal rendering of a byte vector, lower case, two digits per
/// byte.
pub fn to_u8str(bytes: &[u8]) -> (r: String)
    ensures
        r@ == hex_of(bytes@),
{
    let mut s = String::new();
    let mut i: usize = 0;
    while i < bytes.len()
        invariant
            i <= bytes@.len(),
            s@ == hex_of(bytes@.subrange(0, i as int)),
        decreases bytes@.len() - i,
    {
        push_hex_digit(&mut s, bytes[i] / 16);
        push_hex_digit(&mut s, bytes[i] % 16);
        i += 1;
        proof {
            let pre = bytes@.subrange(0, i - 1);
            let cur = bytes@.subrange(0, i as int);
            assert(cur.drop_last() =~= pre);
            assert(cur.last() == bytes@[i - 1]);
        }
    }
    proof {
        assert(bytes@.subrange(0, bytes@.len() as int) =~= bytes@);
    }
    s
}

/// The sixteen lower-case hexadecimal digits.
pub open spec fn is_hex_char(c: char) -> bool {
    ||| c == '0'
    ||| c == '1'
    ||| c == '2'
    ||| c == '3'
    ||| c == '4'
    ||| c == '5'
    ||| c == '6'
    ||| c == '7'
    ||| c == '8'
    ||| c == '9'
    ||| c == 'a'
    ||| c == 'b'
    ||| c == 'c'
    ||| c == 'd'
    ||| c == 'e'
    ||| c == 'f'
}

/// The value of one lower-case hexadecimal digit, when the character is
/// one.
fn hex_val(c: char) -> (r: Option<u8>)
    ensures
        r matches Some(n) ==> n < 16 && hex_digit_char(n) == c,
        r is None ==> !is_hex_char(c),
{
    match c {
        '0' => Some(0),
        '1' => Some(1),
        '2' => Some(2),
        '3' => Some(3),
        '4' => Some(4),
        '5' => Some(5),
        '6' => Some(6),
        '7' => Some(7),
        '8' => Some(8),
        '9' => Some(9),
        'a' => Some(10),
        'b' => Some(11),
        'c' => Some(12),
        'd' => Some(13),
        'e' => Some(14),
        'f' => Some(15),
        _ => None,
    }
}

/// The bytes whose hexadecimal rendering is the given string: the inverse
/// of `to_u8str`. It succeeds on exactly the lower-case hexadecimal
/// strings of even length.
pub fn from_u8str(s: &String) -> (r: Option<Vec<u8>>)
    ensures
        r matches Some(v) ==> hex_of(v@) == s@ && 2 * v@.len() == s@.len(),
        s@.len() % 2 == 0 && (forall|i: int| 0 <= i < s@.len() ==> is_hex_char(#[trigger] s@[i]))
            ==> r is Some,
{
    let n = s.as_str().unicode_len();
    if n % 2 != 0 {
        return None;
    }
    let mut out: Vec<u8> = Vec::new();
    let mut i: usize = 0;
    proof {
        assert(s@.subrange(0, 0) =~= Seq::<char>::empty());
    }
    while i < n / 2
        invariant
            i <= n / 2,
            n == s@.len(),
            n % 2 == 0,
            out@.len() == i,
            hex_of(out@) == s@.subrange(0, 2 * i),
        decreases n / 2 - i,
    {
        let c1 = s.as_str().get_char(2 * i);
        let c2 = s.as_str().get_char(2 * i + 1);
        let hi = match hex_val(c1) {
            Some(v) => v,
            None => {
                return None;
            },
        };
        let lo = match hex_val(c2) {
            Some(v) => v,
            None => {
                return None;
            },
        };
        let b = hi * 16 + lo;
        let ghost pre = out@;
        out.push(b);
        proof {
            assert(b / 16 == hi && b % 16 == lo) by (nonlinear_arith)
                requires
                    hi < 16,
                    lo < 16,
                    b == hi * 16 + lo,
            ;
            assert(out@.drop_last() =~= pre);
            assert(s@.subrange(0, 2 * (i + 1)) =~= s@.subrange(0, 2 * i).push(
                s@[2 * i],
            ).push(s@[2 * i + 1]));
        }
        i += 1;
    }
    proof {
        assert(s@.subrange(0, n as int) =~= s@);
        assert(2 * i == n);
    }
    Some(out)
}

/// The printable address of a payload: `0x` followed by the hexadecimal
/// rendering of its compact signature.
pub open spec fn addr_of(payload: Seq<u8>) -> Seq<char> {
    "0x"@ + hex_of(sgin_of(payload))
}

/// The printable address derived from a payload, most often a public key.
pub fn to_addr(payload: &[u8]) -> (r: String)
    ensures
        r@ == addr_of(payload@),
{
    let data = sgin(payload);
    let mut s = String::from_str("0x");
    let hex = to_u8str(data.as_slice());
    s.append(hex.as_str());
    s
}

} // verus!
