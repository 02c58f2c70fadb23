use akvsign::cosesign1::{CoseSign1, CoseSign1Object, COSE_SIGN1_TAG, COSE_SIGN1_TAG_SIZE};
use minicbor::Decoder;
use openssl::hash::{Hasher, MessageDigest};
use openssl::pkey::PKey;
use openssl::rsa::Rsa;
use openssl::sign::{Signer, Verifier};

#[test]
fn test_create_cose_sign1_object() {
    // Generate RSA key pair
    let rsa = Rsa::generate(2048).expect("failed to generate RSA key");
    let pkey = PKey::from_rsa(rsa).expect("failed to create PKey");
    let public_key_der = pkey
        .public_key_to_der()
        .expect("failed to encode public key");

    // Create CoseSign1 object
    let payload = b"test payload".to_vec();
    let cose_sign1 = CoseSign1::new(payload.clone(), Some(public_key_der.clone()));
    let tbs = cose_sign1
        .create_tbs()
        .expect("Failed to create to-be-signed data");

    let mut hasher = Hasher::new(MessageDigest::sha256()).unwrap();
    hasher.update(&tbs).unwrap();
    let hashed_data = hasher.finish().unwrap();

    // Sign the TBS buffer
    let mut signer =
        Signer::new(MessageDigest::sha256(), &pkey).expect("failed to create signer");
    signer
        .update(&hashed_data)
        .expect("failed to update signer");
    let signature = signer.sign_to_vec().expect("failed to sign");

    // Create cbor encoded cose_sign1 object
    let fixed_signature: &[u8; 256] = signature
        .as_slice()
        .try_into()
        .expect("Signature must be exactly 256 bytes long");
    let cose_sign1_buffer = cose_sign1
        .create_cose_sign1_object(fixed_signature)
        .unwrap();

    // Check that the buffer starts with the COSE_Sign1 tag
    assert_eq!(cose_sign1_buffer[0], COSE_SIGN1_TAG);

    // Decode cose_sign1_buffer as CoseSign1Object
    let cose_sign1_obj = CoseSign1Object::decode(&cose_sign1_buffer).unwrap();
    assert_eq!(cose_sign1_obj.payload, payload);
    assert_eq!(
        cose_sign1_obj.unprotected_header.signer_pub_key_der,
        public_key_der
    );
    assert_eq!(cose_sign1_obj.signature, *fixed_signature);

    // A general CBOR decoder reads the same fields behind the tag
    let mut decoder = Decoder::new(&cose_sign1_buffer[COSE_SIGN1_TAG_SIZE..]);
    assert_eq!(decoder.array().unwrap(), Some(4));
    assert_eq!(decoder.bytes().unwrap(), cose_sign1_obj.protected_header);
    assert_eq!(decoder.map().unwrap(), Some(1));
    assert_eq!(decoder.u32().unwrap(), 248);
    assert_eq!(decoder.bytes().unwrap(), public_key_der);
    assert_eq!(decoder.bytes().unwrap(), payload);
    assert_eq!(decoder.bytes().unwrap(), signature);
    assert_eq!(decoder.position(), cose_sign1_buffer.len() - COSE_SIGN1_TAG_SIZE);

    // create tbs from CoseSign1Object and hash it
    let c2 = CoseSign1::new(
        cose_sign1_obj.payload.to_vec(),
        Some(
            cose_sign1_obj
                .unprotected_header
                .signer_pub_key_der
                .to_vec(),
        ),
    );
    let tbs2 = c2.create_tbs().expect("Failed to create to-be-signed data");
    assert_eq!(tbs, tbs2);
    let mut hasher2 = Hasher::new(MessageDigest::sha256()).unwrap();
    hasher2.update(&tbs2).unwrap();
    let hashed_data2 = hasher2.finish().unwrap();

    // Verify signature with pub key in unprotected header
    let pub_key_from_unprotected_header =
        PKey::public_key_from_der(&cose_sign1_obj.unprotected_header.signer_pub_key_der)
            .unwrap();
    let mut verifier =
        Verifier::new(MessageDigest::sha256(), &pub_key_from_unprotected_header).unwrap();
    verifier.update(&hashed_data2).unwrap();
    let is_valid = verifier.verify(&cose_sign1_obj.signature).unwrap();
    assert!(is_valid);
}
