use kvs::utils::{from_u8str, ripemd_160, sgin, sha256, to_addr, to_u8str};
use ripemd::Digest as RipemdDigest;
use sha2::Digest;

#[test]
fn test_to_u8str() {
    assert_eq!(to_u8str(&vec![0]), "00");
    assert_eq!(to_u8str(&vec![0xff]), "ff");
    assert_eq!(to_u8str(&vec![1]), "01");
}

#[test]
fn to_u8str_multi_byte() {
    assert_eq!(to_u8str(&[0xde, 0xad, 0xbe, 0xef]), "deadbeef");
    assert_eq!(to_u8str(&[]), "");
}

#[test]
fn sha256_known_vector() {
    assert_eq!(
        to_u8str(&sha256(b"abc")),
        "ba7816bf8f01cfea414140de5dae2223b00361a396177a9cb410ff61f20015ad"
    );
    assert_eq!(sha256(b"").len(), 32);
}

#[test]
fn ripemd_160_known_vector() {
    assert_eq!(
        to_u8str(&ripemd_160(b"abc")),
        "8eb208f7e05d987a9b044a8e98c6b087f15a0bfc"
    );
    assert_eq!(ripemd_160(b"").len(), 20);
}

#[test]
fn sgin_is_ripemd_of_sha256() {
    let expected = ripemd::Ripemd160::digest(sha2::Sha256::digest(b"some payload")).to_vec();
    assert_eq!(sgin(b"some payload"), expected);
    assert_eq!(sgin(b"some payload").len(), 20);
}

#[test]
fn to_addr_shape() {
    let addr = to_addr(b"pub1");
    assert!(addr.starts_with("0x"));
    assert_eq!(addr.len(), 42);
    assert_eq!(addr[2..], to_u8str(&sgin(b"pub1")));
}

#[test]
fn from_u8str_round_trip() {
    let bytes = vec![0u8, 1, 0xab, 0xff];
    let hex = to_u8str(&bytes);
    assert_eq!(from_u8str(&hex), Some(bytes));
    assert_eq!(
        from_u8str(&"deadbeef".to_string()),
        Some(vec![0xde, 0xad, 0xbe, 0xef])
    );
    assert_eq!(from_u8str(&"".to_string()), Some(vec![]));
}

#[test]
fn from_u8str_rejects_non_hex() {
    assert_eq!(from_u8str(&"abc".to_string()), None); // odd length
    assert_eq!(from_u8str(&"zz".to_string()), None); // not a digit
    assert_eq!(from_u8str(&"AB".to_string()), None); // upper case
}
