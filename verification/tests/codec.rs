use akvsign::cosesign1::{
    encode_sig_struct, CoseSign1, CoseSign1Object, UnprotectedHeader, COSE_SIGN1_TAG,
    PROTECTED_HEADER, PROTECTED_HEADER_SIZE, PUB_KEY_MAX_SIZE, SIGNATURE_SIZE,
    SIG_STRUCTURE_CONTEXT,
};
use akvsign::error::CborError;
use minicbor::{Decoder, Encoder};

const LENGTHS: [usize; 8] = [0, 1, 23, 24, 255, 256, 65535, 65536];

fn pattern(len: usize, seed: u8) -> Vec<u8> {
    (0..len).map(|i| (i as u8).wrapping_mul(31).wrapping_add(seed)).collect()
}

fn object_bytes(key: &[u8], payload: &[u8], signature: &[u8]) -> Vec<u8> {
    let mut bytes = vec![0xd2, 0x84, 0x57];
    bytes.extend_from_slice(&PROTECTED_HEADER);
    bytes.extend_from_slice(&[0xa1, 0x18, 0xf8]);
    let mut e = Encoder::new(Vec::new());
    e.bytes(key).unwrap().bytes(payload).unwrap().bytes(signature).unwrap();
    bytes.extend_from_slice(e.writer());
    bytes
}

#[test]
fn protected_header_is_the_documented_map() {
    assert_eq!(PROTECTED_HEADER.len(), 23);
    let mut d = Decoder::new(&PROTECTED_HEADER);
    assert_eq!(d.map().unwrap(), Some(2));
    assert_eq!(d.u8().unwrap(), 1);
    assert_eq!(d.i16().unwrap(), -257);
    assert_eq!(d.u8().unwrap(), 3);
    assert_eq!(d.str().unwrap(), "application/json");
    assert_eq!(d.position(), PROTECTED_HEADER_SIZE);
    assert_eq!(&SIG_STRUCTURE_CONTEXT, b"Signature1");
}

#[test]
fn to_be_signed_of_test_payload() {
    let payload = b"test payload".to_vec();
    let key = pattern(294, 7);
    let tbs = CoseSign1::new(payload.clone(), Some(key)).create_tbs().unwrap();
    let mut expected = vec![
        0x84, 0x6a, 0x53, 0x69, 0x67, 0x6e, 0x61, 0x74, 0x75, 0x72, 0x65, 0x31, 0x57,
    ];
    expected.extend_from_slice(&[
        0xa2, 0x01, 0x39, 0x01, 0x00, 0x03, 0x70, 0x61, 0x70, 0x70, 0x6c, 0x69, 0x63, 0x61, 0x74,
        0x69, 0x6f, 0x6e, 0x2f, 0x6a, 0x73, 0x6f, 0x6e,
    ]);
    expected.push(0x40);
    expected.push(0x4c);
    expected.extend_from_slice(b"test payload");
    assert_eq!(tbs.len(), 50);
    assert_eq!(tbs, expected);
}

#[test]
fn to_be_signed_is_what_a_cbor_encoder_writes() {
    for len in LENGTHS {
        let payload = pattern(len, 3);
        let tbs = CoseSign1::new(payload.clone(), None).create_tbs().unwrap();
        let mut e = Encoder::new(Vec::new());
        e.array(4).unwrap().str("Signature1").unwrap();
        e.bytes(&PROTECTED_HEADER).unwrap().bytes(&[]).unwrap().bytes(&payload).unwrap();
        assert_eq!(&tbs, e.writer(), "payload of {} bytes", len);
    }
}

#[test]
fn to_be_signed_length_follows_the_head() {
    let sizes: Vec<usize> = LENGTHS
        .iter()
        .map(|&len| CoseSign1::new(pattern(len, 0), None).sig_struct_size())
        .collect();
    assert_eq!(sizes, [38, 39, 61, 63, 294, 296, 65575, 65578]);
    for (len, size) in LENGTHS.iter().zip(sizes) {
        let tbs = CoseSign1::new(pattern(*len, 0), None).create_tbs().unwrap();
        assert_eq!(tbs.len(), size);
    }
}

#[test]
fn to_be_signed_is_the_same_each_time() {
    let payload = pattern(300, 9);
    let a = CoseSign1::new(payload.clone(), None);
    let b = CoseSign1::new(payload.clone(), Some(pattern(100, 1)));
    assert_eq!(a.create_tbs().unwrap(), a.create_tbs().unwrap());
    assert_eq!(a.create_tbs().unwrap(), b.create_tbs().unwrap());
    let other = CoseSign1::new(pattern(300, 10), None);
    assert_ne!(a.create_tbs().unwrap(), other.create_tbs().unwrap());
}

#[test]
fn sig_struct_into_a_buffer_of_the_exact_size() {
    let payload = pattern(24, 1);
    let mut out = vec![0xeeu8; 63];
    let n = encode_sig_struct(&PROTECTED_HEADER, &payload, &mut out).unwrap();
    assert_eq!(n, 63);
    assert_eq!(&out[..12], b"\x84\x6aSignature1");
    assert_eq!(out[12], 0x57);
    assert_eq!(&out[13..36], &PROTECTED_HEADER);
    assert_eq!(&out[36..39], &[0x40, 0x58, 24]);
    assert_eq!(&out[39..], &payload[..]);
}

#[test]
fn sig_struct_leaves_the_rest_of_the_buffer() {
    let mut out = vec![0xeeu8; 64];
    let n = encode_sig_struct(&[1, 2], &[3], &mut out).unwrap();
    assert_eq!(n, 18);
    assert_eq!(&out[12..18], &[0x42, 1, 2, 0x40, 0x41, 3]);
    assert!(out[18..].iter().all(|&b| b == 0xee));
}

#[test]
fn sig_struct_into_a_short_buffer() {
    let payload = pattern(24, 1);
    for size in [0, 1, 11, 12, 13, 36, 37, 38, 62] {
        let mut out = vec![0u8; size];
        assert_eq!(
            encode_sig_struct(&PROTECTED_HEADER, &payload, &mut out),
            Err(CborError::EncodeError),
            "buffer of {} bytes",
            size
        );
        assert_eq!(out.len(), size);
    }
}

#[test]
fn unprotected_header_constructors() {
    assert!(UnprotectedHeader::new().signer_pub_key_der.is_empty());
    let key = pattern(PUB_KEY_MAX_SIZE, 5);
    let header = UnprotectedHeader::new_with_der(&key);
    assert_eq!(header.signer_pub_key_der, &key[..]);
    let copy = header;
    assert_eq!(copy.signer_pub_key_der.len(), 312);
}

#[test]
fn object_starts_with_the_tag() {
    for len in LENGTHS {
        let session = CoseSign1::new(pattern(len, 1), None);
        let bytes = session.create_cose_sign1_object(&[0u8; 256]).unwrap();
        assert_eq!(bytes[0], 0xd2);
        assert_eq!(bytes[0], COSE_SIGN1_TAG);
        assert_eq!(&bytes[1..3], &[0x84, 0x57]);
        assert_eq!(&bytes[3..26], &PROTECTED_HEADER);
    }
}

#[test]
fn object_layout_byte_for_byte() {
    let session = CoseSign1::new(vec![0xaa, 0xbb], Some(vec![1, 2, 3]));
    let signature = pattern(256, 2);
    let bytes = session.create_cose_sign1_object(&signature).unwrap();
    let mut expected = vec![0xd2, 0x84, 0x57];
    expected.extend_from_slice(&PROTECTED_HEADER);
    expected.extend_from_slice(&[0xa1, 0x18, 0xf8, 0x43, 1, 2, 3]);
    expected.extend_from_slice(&[0x42, 0xaa, 0xbb]);
    expected.extend_from_slice(&[0x59, 0x01, 0x00]);
    expected.extend_from_slice(&signature);
    assert_eq!(bytes, expected);
    assert_eq!(bytes.len(), 295);
}

#[test]
fn round_trip_over_the_length_classes() {
    let keys = [pattern(0, 0), pattern(1, 4), pattern(294, 5), pattern(312, 6)];
    let signature = pattern(256, 8);
    for len in LENGTHS {
        for key in &keys {
            let payload = pattern(len, 2);
            let session = CoseSign1::new(payload.clone(), Some(key.clone()));
            let bytes = session.create_cose_sign1_object(&signature).unwrap();
            assert_eq!(bytes, object_bytes(key, &payload, &signature));
            let object = CoseSign1Object::decode(&bytes).unwrap();
            assert_eq!(object.protected_header, PROTECTED_HEADER);
            assert_eq!(object.unprotected_header.signer_pub_key_der, &key[..]);
            assert_eq!(object.payload, &payload[..]);
            assert_eq!(&object.signature[..], &signature[..]);
        }
    }
}

#[test]
fn round_trip_of_an_object_built_by_hand() {
    let key = pattern(40, 1);
    let payload = pattern(1000, 2);
    let mut signature = [0u8; SIGNATURE_SIZE];
    signature.copy_from_slice(&pattern(256, 3));
    let object = CoseSign1Object {
        protected_header: [0x11; PROTECTED_HEADER_SIZE],
        unprotected_header: UnprotectedHeader::new_with_der(&key),
        payload: &payload,
        signature,
    };
    let mut out = vec![0x77u8; 1400];
    let n = object.encode(&mut out).unwrap();
    assert_eq!(n, 2 + 24 + 3 + 42 + 1003 + 259);
    assert_eq!(out.len(), 1400);
    assert!(out[n..].iter().all(|&b| b == 0x77));
    let back = CoseSign1Object::decode(&out).unwrap();
    assert_eq!(back.protected_header, [0x11; PROTECTED_HEADER_SIZE]);
    assert_eq!(back.unprotected_header.signer_pub_key_der, &key[..]);
    assert_eq!(back.payload, &payload[..]);
    assert_eq!(back.signature, signature);
}

#[test]
fn object_into_a_short_buffer() {
    let object = CoseSign1Object {
        protected_header: PROTECTED_HEADER,
        unprotected_header: UnprotectedHeader::new(),
        payload: &[1, 2, 3],
        signature: [0u8; SIGNATURE_SIZE],
    };
    let full = 2 + 24 + 4 + 4 + 259;
    for size in [0, 1, 2, 25, 26, 28, 29, 30, 33, 34, full - 1] {
        let mut out = vec![0u8; size];
        assert_eq!(object.encode(&mut out), Err(CborError::EncodeError), "{} bytes", size);
    }
    let mut out = vec![0u8; full];
    assert_eq!(object.encode(&mut out), Ok(full));
}

#[test]
fn signature_of_another_length_is_refused() {
    let session = CoseSign1::new(b"test payload".to_vec(), None);
    for len in [0, 1, 255, 257, 512] {
        assert_eq!(
            session.create_cose_sign1_object(&pattern(len, 0)),
            Err(CborError::EncodeError)
        );
    }
    assert!(session.create_cose_sign1_object(&pattern(256, 0)).is_ok());
}

#[test]
fn key_that_is_too_long_is_refused() {
    let signature = [0u8; 256];
    let session = CoseSign1::new(vec![1], Some(pattern(313, 0)));
    assert_eq!(session.create_cose_sign1_object(&signature), Err(CborError::EncodeError));
    let session = CoseSign1::new(vec![1], Some(pattern(312, 0)));
    assert!(session.create_cose_sign1_object(&signature).is_ok());
    let key = pattern(313, 0);
    let object = CoseSign1Object {
        protected_header: PROTECTED_HEADER,
        unprotected_header: UnprotectedHeader { signer_pub_key_der: &key },
        payload: &[1],
        signature,
    };
    let mut out = vec![0u8; 1000];
    assert_eq!(object.encode(&mut out), Err(CborError::EncodeError));
}

#[test]
fn no_key_is_an_empty_key() {
    let signature = pattern(256, 1);
    let without = CoseSign1::new(vec![9, 9], None);
    let with = CoseSign1::new(vec![9, 9], Some(Vec::new()));
    let a = without.create_cose_sign1_object(&signature).unwrap();
    let b = with.create_cose_sign1_object(&signature).unwrap();
    assert_eq!(a, b);
    assert_eq!(&a[26..30], &[0xa1, 0x18, 0xf8, 0x40]);
    let object = CoseSign1Object::decode(&a).unwrap();
    assert!(object.unprotected_header.signer_pub_key_der.is_empty());
}

fn sample() -> Vec<u8> {
    object_bytes(&[1, 2, 3], &[4, 5], &pattern(256, 1))
}

#[test]
fn decode_refuses_a_wrong_tag_or_nothing() {
    assert_eq!(CoseSign1Object::decode(&[]).err(), Some(CborError::DecodeError));
    let mut bytes = sample();
    assert!(CoseSign1Object::decode(&bytes).is_ok());
    bytes[0] = 0xd1;
    assert_eq!(CoseSign1Object::decode(&bytes).err(), Some(CborError::DecodeError));
    assert_eq!(CoseSign1Object::decode(&sample()[1..]).err(), Some(CborError::DecodeError));
}

#[test]
fn decode_refuses_a_wrong_arity() {
    for head in [0x80, 0x83, 0x85, 0x9f] {
        let mut bytes = sample();
        bytes[1] = head;
        assert_eq!(CoseSign1Object::decode(&bytes).err(), Some(CborError::DecodeError));
    }
    let mut bytes = sample();
    bytes[26] = 0xa2;
    assert_eq!(CoseSign1Object::decode(&bytes).err(), Some(CborError::DecodeError));
    bytes[26] = 0xa0;
    assert_eq!(CoseSign1Object::decode(&bytes).err(), Some(CborError::DecodeError));
}

#[test]
fn decode_refuses_a_wrong_major_type() {
    // the array, the protected header, the map, the key, the three strings
    for (at, byte) in [(1, 0xa4), (2, 0x77), (26, 0x81), (27, 0x38), (29, 0x63), (33, 0x62)] {
        let mut bytes = sample();
        bytes[at] = byte;
        assert_eq!(
            CoseSign1Object::decode(&bytes).err(),
            Some(CborError::DecodeError),
            "byte {}",
            at
        );
    }
    let mut bytes = sample();
    bytes[36] = 0x79;
    assert_eq!(CoseSign1Object::decode(&bytes).err(), Some(CborError::DecodeError));
}

#[test]
fn decode_refuses_another_key_label() {
    let mut bytes = sample();
    bytes[28] = 0xf7;
    assert_eq!(CoseSign1Object::decode(&bytes).err(), Some(CborError::DecodeError));
}

#[test]
fn decode_refuses_bad_length_prefixes() {
    for (at, byte) in [(2, 0x56), (2, 0x58), (2, 0x5f), (29, 0x5c), (33, 0x5f), (36, 0x5a)] {
        let mut bytes = sample();
        bytes[at] = byte;
        assert_eq!(
            CoseSign1Object::decode(&bytes).err(),
            Some(CborError::DecodeError),
            "byte {}",
            at
        );
    }
    let short = object_bytes(&[], &[], &pattern(255, 0));
    assert_eq!(CoseSign1Object::decode(&short).err(), Some(CborError::DecodeError));
    let long = object_bytes(&[], &[], &pattern(257, 0));
    assert_eq!(CoseSign1Object::decode(&long).err(), Some(CborError::DecodeError));
    let key = object_bytes(&pattern(313, 0), &[], &pattern(256, 0));
    assert_eq!(CoseSign1Object::decode(&key).err(), Some(CborError::DecodeError));
}

#[test]
fn decode_refuses_every_truncation() {
    let bytes = sample();
    for len in 0..bytes.len() {
        assert_eq!(
            CoseSign1Object::decode(&bytes[..len]).err(),
            Some(CborError::DecodeError),
            "{} bytes",
            len
        );
    }
}

#[test]
fn decode_reads_longer_heads_and_stops_at_the_end() {
    let signature = pattern(256, 1);
    let mut bytes = vec![0xd2, 0x98, 0x04, 0x58, 23];
    bytes.extend_from_slice(&PROTECTED_HEADER);
    bytes.extend_from_slice(&[0xb8, 0x01, 0x19, 0x00, 0xf8, 0x59, 0x00, 0x01, 7]);
    bytes.extend_from_slice(&[0x5a, 0, 0, 0, 2, 8, 9]);
    bytes.extend_from_slice(&[0x5b, 0, 0, 0, 0, 0, 0, 1, 0]);
    bytes.extend_from_slice(&signature);
    bytes.extend_from_slice(&[0xff, 0xff]);
    let object = CoseSign1Object::decode(&bytes).unwrap();
    assert_eq!(object.protected_header, PROTECTED_HEADER);
    assert_eq!(object.unprotected_header.signer_pub_key_der, &[7]);
    assert_eq!(object.payload, &[8, 9]);
    assert_eq!(&object.signature[..], &signature[..]);
}

#[test]
fn error_values_are_distinct() {
    assert_ne!(CborError::DecodeError, CborError::EncodeError);
    assert_eq!(format!("{:?}", CborError::EncodeError), "EncodeError");
}
