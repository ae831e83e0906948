use riptide::fingerprint::{fingerprint, to_hex};

#[test]
fn fingerprint_is_sha256_in_lowercase_hex() {
    assert_eq!(fingerprint(b""), "e3b0c44298fc1c149afbf4c8996fb92427ae41e4649b934ca495991b7852b855");
    assert_eq!(fingerprint(b"abc"), "ba7816bf8f01cfea414140de5dae2223b00361a396177a9cb410ff61f20015ad");
    assert_eq!(fingerprint(b"print('x')\n").len(), 64);
    assert_ne!(fingerprint(b"a"), fingerprint(b"b"));
}

#[test]
fn hex_of_bytes() {
    assert_eq!(to_hex(&[]), "");
    assert_eq!(to_hex(&[0, 9, 10, 15, 16, 171, 255]), "00090a0f10abff");
}
