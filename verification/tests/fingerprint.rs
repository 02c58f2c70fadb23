use akvsign::fingerprint::{public_key_material, signer_public_key_hash};

fn hex(bytes: &[u8]) -> String {
    bytes.iter().map(|byte| format!("{:02x}", byte)).collect()
}

#[test]
fn material_is_modulus_then_exponent() {
    assert_eq!(public_key_material(&[0xc3, 0x01], &[1, 0, 1]), [0xc3, 0x01, 1, 0, 1]);
    assert_eq!(public_key_material(&[], &[3]), [3]);
    assert_eq!(public_key_material(&[9], &[]), [9]);
    assert!(public_key_material(&[], &[]).is_empty());
}

#[test]
fn fingerprint_is_the_sha256_of_the_material() {
    // SHA-256 of "abc" and of the empty string, from FIPS 180-4
    assert_eq!(
        hex(&signer_public_key_hash(b"a", b"bc")),
        "ba7816bf8f01cfea414140de5dae2223b00361a396177a9cb410ff61f20015ad"
    );
    assert_eq!(
        hex(&signer_public_key_hash(b"ab", b"c")),
        "ba7816bf8f01cfea414140de5dae2223b00361a396177a9cb410ff61f20015ad"
    );
    assert_eq!(
        hex(&signer_public_key_hash(&[], &[])),
        "e3b0c44298fc1c149afbf4c8996fb92427ae41e4649b934ca495991b7852b855"
    );
}

#[test]
fn fingerprint_of_a_generated_key() {
    let rsa = openssl::rsa::Rsa::generate(2048).unwrap();
    let n = rsa.n().to_vec();
    let e = rsa.e().to_vec();
    let mut material = n.clone();
    material.extend(e.clone());
    let hash = signer_public_key_hash(&n, &e);
    assert_eq!(hash.len(), 32);
    assert_eq!(hash, openssl::sha::sha256(&material));
}
