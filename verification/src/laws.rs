//! What holds of the encoders and the decoder together.

use crate::cbor::{
    bstr, bstr_len, head, lemma_lengths, lemma_parse_bstr_of_bstr, lemma_parse_head_of_head,
    lemma_pow256, parse_bstr, parse_head, ByteString, Head, MAJOR_ARRAY, MAJOR_BYTES, MAJOR_MAP,
    MAJOR_TEXT, MAJOR_UNSIGNED,
};
use crate::cosesign1::{
    cose_sign1, parse_cose_sign1, sig_structure, sig_structure_lead, unprotected_header_bytes,
    CoseSign1ObjectView, CoseSign1View, COSE_SIGN1_ARRAY_4, COSE_SIGN1_MAP_1, COSE_SIGN1_STR_10,
    COSE_SIGN1_TAG, COSE_SIGN1_UINT_8, PROTECTED_HEADER, PROTECTED_HEADER_SIZE,
    SIGNER_PUB_KEY_LABEL, SIG_STRUCTURE_CONTEXT_SIZE,
};
use vstd::prelude::*;

verus! {

/// Where the fixed bytes of the format come from: each is the shortest head
/// of its major type and argument.
pub proof fn lemma_fixed_heads()
    ensures
        head(MAJOR_ARRAY, 4) == seq![COSE_SIGN1_ARRAY_4],
        head(MAJOR_TEXT, SIG_STRUCTURE_CONTEXT_SIZE as nat) == seq![COSE_SIGN1_STR_10],
        head(MAJOR_MAP, 1) == seq![COSE_SIGN1_MAP_1],
        head(MAJOR_UNSIGNED, SIGNER_PUB_KEY_LABEL as nat) == seq![
            COSE_SIGN1_UINT_8,
            SIGNER_PUB_KEY_LABEL,
        ],
        head(MAJOR_BYTES, PROTECTED_HEADER_SIZE as nat) == seq![0x57u8],
        head(MAJOR_BYTES, 0) == seq![0x40u8],
        COSE_SIGN1_TAG == 0xc0 + 18,
{
    lemma_pow256();
}

/// What is left of eight sequences set one behind the other, grouped as the
/// object's encoding groups its fields, when they are taken off the front one
/// by one.
proof fn lemma_fields_in_turn(
    tag: Seq<u8>,
    array: Seq<u8>,
    protected: Seq<u8>,
    map: Seq<u8>,
    label: Seq<u8>,
    key: Seq<u8>,
    payload: Seq<u8>,
    signature: Seq<u8>,
    rest: Seq<u8>,
)
    ensures
        ({
            let s = tag + array + protected + (map + label + key) + payload + signature + rest;
            let at_array = tag.len() as int;
            let at_protected = at_array + array.len();
            let at_map = at_protected + protected.len();
            let at_label = at_map + map.len();
            let at_key = at_label + label.len();
            let at_payload = at_key + key.len();
            let at_signature = at_payload + payload.len();
            &&& s.skip(at_array) == array + (protected + map + label + key + payload + signature
                + rest)
            &&& s.skip(at_protected) == protected + (map + label + key + payload + signature
                + rest)
            &&& s.skip(at_map) == map + (label + key + payload + signature + rest)
            &&& s.skip(at_label) == label + (key + payload + signature + rest)
            &&& s.skip(at_key) == key + (payload + signature + rest)
            &&& s.skip(at_payload) == payload + (signature + rest)
            &&& s.skip(at_signature) == signature + rest
        }),
{
    let s = tag + array + protected + (map + label + key) + payload + signature + rest;
    let at_array = tag.len() as int;
    let at_protected = at_array + array.len();
    let at_map = at_protected + protected.len();
    let at_label = at_map + map.len();
    let at_key = at_label + label.len();
    let at_payload = at_key + key.len();
    let at_signature = at_payload + payload.len();
    assert(s.skip(at_array) =~= array + (protected + map + label + key + payload + signature
        + rest));
    assert(s.skip(at_protected) =~= protected + (map + label + key + payload + signature + rest));
    assert(s.skip(at_map) =~= map + (label + key + payload + signature + rest));
    assert(s.skip(at_label) =~= label + (key + payload + signature + rest));
    assert(s.skip(at_key) =~= key + (payload + signature + rest));
    assert(s.skip(at_payload) =~= payload + (signature + rest));
    assert(s.skip(at_signature) =~= signature + rest);
}

/// Each field of an encoded object is read where the one before it ended.
proof fn lemma_fields_are_read(v: CoseSign1ObjectView, rest: Seq<u8>)
    requires
        v.wf(),
        v.payload.len() <= u64::MAX,
    ensures
        ({
            let s = cose_sign1(v) + rest;
            let key_size = bstr_len(v.signer_pub_key_der.len());
            let payload_size = bstr_len(v.payload.len());
            &&& s.len() > 0 && s[0] == COSE_SIGN1_TAG
            &&& parse_head(s.skip(1)) == Some(Head { major: MAJOR_ARRAY, arg: 4, size: 1 })
            &&& parse_bstr(s.skip(2)) == Some(
                ByteString { bytes: v.protected_header, size: 24 },
            )
            &&& parse_head(s.skip(26)) == Some(Head { major: MAJOR_MAP, arg: 1, size: 1 })
            &&& parse_head(s.skip(27)) == Some(
                Head { major: MAJOR_UNSIGNED, arg: 248, size: 2 },
            )
            &&& parse_bstr(s.skip(29)) == Some(
                ByteString { bytes: v.signer_pub_key_der, size: key_size },
            )
            &&& parse_bstr(s.skip((29 + key_size) as int)) == Some(
                ByteString { bytes: v.payload, size: payload_size },
            )
            &&& parse_bstr(s.skip((29 + key_size + payload_size) as int)) == Some(
                ByteString { bytes: v.signature, size: 259 },
            )
        }),
{
    let tag = seq![COSE_SIGN1_TAG];
    let array = head(MAJOR_ARRAY, 4);
    let protected = bstr(v.protected_header);
    let map = head(MAJOR_MAP, 1);
    let label = head(MAJOR_UNSIGNED, SIGNER_PUB_KEY_LABEL as nat);
    let key = bstr(v.signer_pub_key_der);
    let payload = bstr(v.payload);
    let signature = bstr(v.signature);
    lemma_fixed_heads();
    lemma_lengths(MAJOR_BYTES, v.protected_header);
    lemma_lengths(MAJOR_BYTES, v.signer_pub_key_der);
    lemma_lengths(MAJOR_BYTES, v.payload);
    lemma_lengths(MAJOR_BYTES, v.signature);
    assert(tag.len() == 1 && array.len() == 1 && protected.len() == 24 && map.len() == 1
        && label.len() == 2 && signature.len() == 259);
    lemma_fields_in_turn(tag, array, protected, map, label, key, payload, signature, rest);
    lemma_parse_head_of_head(
        MAJOR_ARRAY,
        4,
        protected + map + label + key + payload + signature + rest,
    );
    lemma_parse_bstr_of_bstr(v.protected_header, map + label + key + payload + signature + rest);
    lemma_parse_head_of_head(MAJOR_MAP, 1, label + key + payload + signature + rest);
    lemma_parse_head_of_head(
        MAJOR_UNSIGNED,
        SIGNER_PUB_KEY_LABEL as nat,
        key + payload + signature + rest,
    );
    lemma_parse_bstr_of_bstr(v.signer_pub_key_der, payload + signature + rest);
    lemma_parse_bstr_of_bstr(v.payload, signature + rest);
    lemma_parse_bstr_of_bstr(v.signature, rest);
    assert((cose_sign1(v) + rest)[0] == tag[0]);
}

/// Decoding is the inverse of encoding: for every object whose fields have the
/// lengths that the format admits, reading its encoding gives the object back,
/// field for field, the key also where it is empty, and whatever bytes follow
/// the encoding.
pub proof fn lemma_decode_of_encode(v: CoseSign1ObjectView, rest: Seq<u8>)
    requires
        v.wf(),
        v.payload.len() <= u64::MAX,
    ensures
        parse_cose_sign1(cose_sign1(v) + rest) == Some(v),
{
    lemma_fields_are_read(v, rest);
}

/// What was signed can be had again from the object: reading the object that
/// a session makes gives a protected header and a payload whose
/// `Sig_structure` is the one that the session gave out to be signed.
pub proof fn lemma_object_carries_what_was_signed(session: CoseSign1View, signature: Seq<u8>)
    requires
        session.object(signature).wf(),
        session.payload.len() <= u64::MAX,
    ensures
        parse_cose_sign1(cose_sign1(session.object(signature))) matches Some(read)
            && sig_structure(read.protected_header, read.payload) == sig_structure(
            PROTECTED_HEADER@,
            session.payload,
        ),
{
    let object = session.object(signature);
    lemma_decode_of_encode(object, Seq::<u8>::empty());
    assert(cose_sign1(object) + Seq::<u8>::empty() =~= cose_sign1(object));
}

/// The bytes to be signed are a function of the protected header and the
/// payload, and of nothing else: the same pair gives the same bytes, and two
/// pairs that differ give bytes that differ.
pub proof fn lemma_sig_structure_one_to_one(
    body_protected: Seq<u8>,
    payload: Seq<u8>,
    other_protected: Seq<u8>,
    other_payload: Seq<u8>,
)
    requires
        body_protected.len() <= u64::MAX,
        payload.len() <= u64::MAX,
        other_protected.len() <= u64::MAX,
        other_payload.len() <= u64::MAX,
    ensures
        sig_structure(body_protected, payload) == sig_structure(other_protected, other_payload)
            <==> body_protected == other_protected && payload == other_payload,
{
    let empty = Seq::<u8>::empty();
    let lead = sig_structure_lead();
    let s = sig_structure(body_protected, payload);
    let t = sig_structure(other_protected, other_payload);
    if s == t {
        let after = bstr(empty) + bstr(payload);
        let other_after = bstr(empty) + bstr(other_payload);
        assert(s.skip(lead.len() as int) =~= bstr(body_protected) + after);
        assert(t.skip(lead.len() as int) =~= bstr(other_protected) + other_after);
        lemma_parse_bstr_of_bstr(body_protected, after);
        lemma_parse_bstr_of_bstr(other_protected, other_after);
        assert(body_protected == other_protected);
        let at = lead.len() + bstr(body_protected).len() + bstr(empty).len();
        assert(s.skip(at as int) =~= bstr(payload) + empty);
        assert(t.skip(at as int) =~= bstr(other_payload) + empty);
        lemma_parse_bstr_of_bstr(payload, empty);
        lemma_parse_bstr_of_bstr(other_payload, empty);
    }
}

/// The protected header on the wire is the fixed one, whatever the payload,
/// the key and the signature: in the object it follows the tag, the array's
/// head and the head of a byte string of 23 bytes; in the bytes to be signed
/// it follows the leading bytes and the same head.
pub proof fn lemma_protected_header_is_fixed(session: CoseSign1View, signature: Seq<u8>)
    ensures
        PROTECTED_HEADER@ == seq![
            0xa2u8, 0x01, 0x39, 0x01, 0x00, 0x03, 0x70, 0x61, 0x70, 0x70, 0x6c, 0x69, 0x63, 0x61,
            0x74, 0x69, 0x6f, 0x6e, 0x2f, 0x6a, 0x73, 0x6f, 0x6e,
        ],
        cose_sign1(session.object(signature)).subrange(0, 3) == seq![COSE_SIGN1_TAG, 0x84, 0x57],
        cose_sign1(session.object(signature)).subrange(3, 3 + PROTECTED_HEADER_SIZE as int)
            == PROTECTED_HEADER@,
        sig_structure(PROTECTED_HEADER@, session.payload).subrange(12, 13) == seq![0x57u8],
        sig_structure(PROTECTED_HEADER@, session.payload).subrange(
            13,
            13 + PROTECTED_HEADER_SIZE as int,
        ) == PROTECTED_HEADER@,
{
    let object = cose_sign1(session.object(signature));
    let tbs = sig_structure(PROTECTED_HEADER@, session.payload);
    assert(PROTECTED_HEADER@ =~= seq![
        0xa2u8, 0x01, 0x39, 0x01, 0x00, 0x03, 0x70, 0x61, 0x70, 0x70, 0x6c, 0x69, 0x63, 0x61,
        0x74, 0x69, 0x6f, 0x6e, 0x2f, 0x6a, 0x73, 0x6f, 0x6e,
    ]);
    assert(object.subrange(0, 3) =~= seq![COSE_SIGN1_TAG, 0x84, 0x57]);
    assert(object.subrange(3, 3 + PROTECTED_HEADER_SIZE as int) =~= PROTECTED_HEADER@);
    assert(tbs.subrange(12, 13) =~= seq![0x57u8]);
    assert(tbs.subrange(13, 13 + PROTECTED_HEADER_SIZE as int) =~= PROTECTED_HEADER@);
}

/// The first byte of an encoded object is the tag, whatever the object.
pub proof fn lemma_first_byte_is_tag(v: CoseSign1ObjectView)
    ensures
        cose_sign1(v).len() > 0,
        cose_sign1(v)[0] == COSE_SIGN1_TAG,
        COSE_SIGN1_TAG == 0xd2,
{
}

/// A session without a key and a session with an empty key make the same
/// object: the unprotected header is in both the map of one entry, key 248,
/// with an empty byte string as its value.
pub proof fn lemma_no_key_is_empty_key(without: CoseSign1View, with: CoseSign1View, signature: Seq<u8>)
    requires
        without.payload == with.payload,
        without.signer_pub_key_der is None,
        with.signer_pub_key_der == Some(Seq::<u8>::empty()),
    ensures
        cose_sign1(without.object(signature)) == cose_sign1(with.object(signature)),
        unprotected_header_bytes(without.key_bytes()) == seq![
            COSE_SIGN1_MAP_1,
            COSE_SIGN1_UINT_8,
            SIGNER_PUB_KEY_LABEL,
            0x40,
        ],
{
    lemma_pow256();
    assert(unprotected_header_bytes(without.key_bytes()) =~= seq![
        COSE_SIGN1_MAP_1,
        COSE_SIGN1_UINT_8,
        SIGNER_PUB_KEY_LABEL,
        0x40,
    ]);
}

} // verus!
