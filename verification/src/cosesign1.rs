//! COSE_Sign1 (RFC 9052): the `Sig_structure` that is hashed and signed, and the
//! tagged object that carries the payload, the signer's key and the signature.

use crate::cbor::{
    bstr, bstr_len, encoded_bstr_len, head, lemma_lengths, parse_bstr, parse_head, read_bstr,
    read_head, Head, MAJOR_ARRAY, MAJOR_BYTES, MAJOR_MAP, MAJOR_UNSIGNED,
};
use crate::encoder::put_bytes;
use crate::error::CborError;
use vstd::prelude::*;

verus! {

/// The first byte of an encoded object: major type 6 (a tag, `0b110`) with tag
/// number 18 (`0b10010`), which marks a COSE_Sign1 value.
pub const COSE_SIGN1_TAG: u8 = 0xd2;

/// The size of the tag.
pub const COSE_SIGN1_TAG_SIZE: usize = 1;

/// The size of the encoded protected header.
pub const PROTECTED_HEADER_SIZE: usize = 23;

/// The protected header, already encoded: the map `{1: -257, 3: "application/json"}`,
/// that is algorithm RS256 and the content type.
pub const PROTECTED_HEADER: [u8; PROTECTED_HEADER_SIZE] = [
    0xa2, // map of 2 pairs
    0x01, // key 1: alg
    0x39, 0x01, 0x00, // -257: RS256
    0x03, // key 3: content type
    0x70, // text of 16 bytes
    0x61, 0x70, 0x70, 0x6c, 0x69, 0x63, 0x61, 0x74, 0x69, 0x6f, 0x6e, 0x2f, 0x6a, 0x73, 0x6f,
    0x6e, // "application/json"
];

/// The size of a signature: RSA with a key of 2048 bits.
pub const SIGNATURE_SIZE: usize = 256;

/// The largest public key, in DER form, that the unprotected header carries.
pub const PUB_KEY_MAX_SIZE: usize = 312;

/// The size of the context string.
pub const SIG_STRUCTURE_CONTEXT_SIZE: usize = 10;

/// The context string of a `Sig_structure` for COSE_Sign1: ASCII "Signature1".
pub const SIG_STRUCTURE_CONTEXT: [u8; SIG_STRUCTURE_CONTEXT_SIZE] = [
    0x53, 0x69, 0x67, 0x6e, 0x61, 0x74, 0x75, 0x72, 0x65, 0x31,
];

/// The head of an array of 4 items: major type 4 (`0b100`), length 4.
pub const COSE_SIGN1_ARRAY_4: u8 = 0x84;

/// The head of a text string of 10 bytes: major type 3 (`0b011`), length 10.
pub const COSE_SIGN1_STR_10: u8 = 0x6a;

/// The key of the unprotected header's one entry: the signer's public key.
pub const SIGNER_PUB_KEY_LABEL: u8 = 248;

/// The head of a map of 1 entry: major type 5 (`0b101`), length 1.
pub const COSE_SIGN1_MAP_1: u8 = 0xa1;

/// The first byte of an unsigned integer that takes one more byte: major type
/// 0, argument in the next byte.
pub const COSE_SIGN1_UINT_8: u8 = 0x18;

/// The unprotected header: a map with the one key 248, whose value is the
/// signer's public key in DER form. No key is an empty byte string, never a
/// missing entry.
#[derive(Copy, Clone)]
pub struct UnprotectedHeader<'a> {
    pub signer_pub_key_der: &'a [u8],
}

impl<'a> UnprotectedHeader<'a> {
    /// Whether the key is one that the format admits: at most 312 bytes.
    pub open spec fn wf(&self) -> bool {
        self.signer_pub_key_der@.len() <= PUB_KEY_MAX_SIZE
    }

    /// A header without a key.
    pub fn new() -> (r: Self)
        ensures
            r.signer_pub_key_der@ == Seq::<u8>::empty(),
            r.wf(),
    {
        let empty: &'static [u8] = &[];
        assert(empty@ =~= Seq::<u8>::empty()) by {
            assert(empty@.len() == 0);
        }
        UnprotectedHeader { signer_pub_key_der: empty }
    }

    /// A header with the key `pub_key`, which it borrows as it is: the key is
    /// neither copied nor padded to the largest size.
    pub fn new_with_der(pub_key: &'a Vec<u8>) -> (r: Self)
        requires
            pub_key@.len() <= PUB_KEY_MAX_SIZE,
        ensures
            r.signer_pub_key_der@ == pub_key@,
            r.wf(),
    {
        UnprotectedHeader { signer_pub_key_der: pub_key.as_slice() }
    }
}

/// What a COSE_Sign1 object holds, as four byte sequences.
pub struct CoseSign1ObjectView {
    pub protected_header: Seq<u8>,
    pub signer_pub_key_der: Seq<u8>,
    pub payload: Seq<u8>,
    pub signature: Seq<u8>,
}

impl CoseSign1ObjectView {
    /// Whether the fields have the lengths that the format admits: a protected
    /// header of 23 bytes, a key of at most 312, a signature of 256.
    pub open spec fn wf(self) -> bool {
        &&& self.protected_header.len() == PROTECTED_HEADER_SIZE
        &&& self.signer_pub_key_der.len() <= PUB_KEY_MAX_SIZE
        &&& self.signature.len() == SIGNATURE_SIZE
    }
}

/// A COSE_Sign1 object (RFC 9052, section 4.2): an array of four items.
pub struct CoseSign1Object<'a> {
    /// The encoded protected header, which goes into a byte string.
    pub protected_header: [u8; PROTECTED_HEADER_SIZE],
    /// The unprotected header, a map.
    pub unprotected_header: UnprotectedHeader<'a>,
    /// The payload, which goes into a byte string.
    pub payload: &'a [u8],
    /// The signature, a byte string.
    pub signature: [u8; SIGNATURE_SIZE],
}

impl<'a> View for CoseSign1Object<'a> {
    type V = CoseSign1ObjectView;

    open spec fn view(&self) -> CoseSign1ObjectView {
        CoseSign1ObjectView {
            protected_header: self.protected_header@,
            signer_pub_key_der: self.unprotected_header.signer_pub_key_der@,
            payload: self.payload@,
            signature: self.signature@,
        }
    }
}

/// The unprotected header on the wire: a map of one entry, the key 248, the
/// public key as a byte string.
pub open spec fn unprotected_header_bytes(signer_pub_key_der: Seq<u8>) -> Seq<u8> {
    head(MAJOR_MAP, 1) + head(MAJOR_UNSIGNED, SIGNER_PUB_KEY_LABEL as nat) + bstr(
        signer_pub_key_der,
    )
}

/// The object on the wire: the tag byte, then an array of the protected header
/// as a byte string, the unprotected header, the payload as a byte string and
/// the signature as a byte string.
pub open spec fn cose_sign1(v: CoseSign1ObjectView) -> Seq<u8> {
    seq![COSE_SIGN1_TAG] + head(MAJOR_ARRAY, 4) + bstr(v.protected_header)
        + unprotected_header_bytes(v.signer_pub_key_der) + bstr(v.payload) + bstr(v.signature)
}

/// The length of `cose_sign1` for an object with a key of `key` bytes and a
/// payload of `payload` bytes, the other two fields being of their fixed sizes.
pub open spec fn cose_sign1_len(key: nat, payload: nat) -> nat {
    2 + bstr_len(PROTECTED_HEADER_SIZE as nat) + 3 + bstr_len(key) + bstr_len(payload) + bstr_len(
        SIGNATURE_SIZE as nat,
    )
}

/// `cose_sign1` has the length that `cose_sign1_len` gives, and starts with
/// the tag, the array's head and the head of a byte string of 23 bytes.
pub proof fn lemma_cose_sign1_shape(v: CoseSign1ObjectView)
    requires
        v.wf(),
    ensures
        cose_sign1(v).len() == cose_sign1_len(v.signer_pub_key_der.len(), v.payload.len()),
        cose_sign1(v)[0] == COSE_SIGN1_TAG,
        cose_sign1(v)[1] == COSE_SIGN1_ARRAY_4,
        cose_sign1(v).subrange(3, 3 + PROTECTED_HEADER_SIZE as int) == v.protected_header,
        unprotected_header_bytes(v.signer_pub_key_der) == seq![
            COSE_SIGN1_MAP_1,
            COSE_SIGN1_UINT_8,
            SIGNER_PUB_KEY_LABEL,
        ] + bstr(v.signer_pub_key_der),
{
    lemma_lengths(MAJOR_BYTES, v.protected_header);
    lemma_lengths(MAJOR_BYTES, v.signer_pub_key_der);
    lemma_lengths(MAJOR_BYTES, v.payload);
    lemma_lengths(MAJOR_BYTES, v.signature);
    crate::cbor::lemma_pow256();
    assert(cose_sign1(v).subrange(3, 3 + PROTECTED_HEADER_SIZE as int) =~= v.protected_header);
    assert(head(MAJOR_MAP, 1) + head(MAJOR_UNSIGNED, SIGNER_PUB_KEY_LABEL as nat) =~= seq![
        COSE_SIGN1_MAP_1,
        COSE_SIGN1_UINT_8,
        SIGNER_PUB_KEY_LABEL,
    ]);
}

/// The bytes that come before the three byte strings of a `Sig_structure`: the
/// array's head, the text string's head, the context.
pub open spec fn sig_structure_lead() -> Seq<u8> {
    seq![COSE_SIGN1_ARRAY_4, COSE_SIGN1_STR_10] + SIG_STRUCTURE_CONTEXT@
}

/// The `Sig_structure` of RFC 9052, section 4.4, for one signer and no
/// external data, byte for byte:
/// `["Signature1", body_protected, h'', payload]`.
pub open spec fn sig_structure(body_protected: Seq<u8>, payload: Seq<u8>) -> Seq<u8> {
    sig_structure_lead() + bstr(body_protected) + bstr(Seq::<u8>::empty()) + bstr(payload)
}

/// The length of `sig_structure` for a protected header of `body_protected`
/// bytes and a payload of `payload` bytes.
pub open spec fn sig_structure_len(body_protected: nat, payload: nat) -> nat {
    2 + SIG_STRUCTURE_CONTEXT_SIZE as nat + bstr_len(body_protected) + 1 + bstr_len(payload)
}

/// `sig_structure` has the length that `sig_structure_len` gives.
pub proof fn lemma_sig_structure_len(body_protected: Seq<u8>, payload: Seq<u8>)
    ensures
        sig_structure(body_protected, payload).len() == sig_structure_len(
            body_protected.len(),
            payload.len(),
        ),
{
    lemma_lengths(MAJOR_BYTES, body_protected);
    lemma_lengths(MAJOR_BYTES, payload);
}

/// Writes `bytes` as a byte string at `at` in `out`, behind what is already
/// written there, and returns the position after it. `None`, and only then,
/// where it does not fit; `out` is then of no use. `before` is the buffer as
/// the caller got it: what lies behind the written part is still as in `before`.
fn put_field(out: &mut [u8], at: usize, bytes: &[u8], Ghost(before): Ghost<Seq<u8>>) -> (r: Option<
    usize,
>)
    requires
        at <= old(out)@.len() == before.len(),
        forall|k: int| at <= k < before.len() ==> old(out)@[k] == before[k],
    ensures
        final(out)@.len() == old(out)@.len(),
        r is Some <==> at + bstr_len(bytes@.len()) <= old(out)@.len(),
        r matches Some(next) ==> {
            &&& next == at + bstr_len(bytes@.len())
            &&& final(out)@.subrange(0, next as int) == old(out)@.subrange(0, at as int) + bstr(
                bytes@,
            )
            &&& forall|k: int| next <= k < before.len() ==> final(out)@[k] == before[k]
        },
{
    let out_size: usize = out.len();
    let ghost prev = out@;
    match put_bytes(out, at, bytes) {
        Ok(left) => {
            let next: usize = out_size - left;
            assert(out@.subrange(0, next as int) =~= out@.subrange(0, at as int) + out@.subrange(
                at as int,
                next as int,
            ));
            assert forall|k: int| next <= k < before.len() implies out@[k] == before[k] by {
                assert(out@.subrange(next as int, out_size as int)[k - next] == prev.subrange(
                    next as int,
                    out_size as int,
                )[k - next]);
            }
            Some(next)
        },
        Err(_) => None,
    }
}

/// Writes the `Sig_structure` for `body_protected` and `payload` to the front
/// of `out` and returns its length. What lies behind it in `out` stays. Fails
/// with `EncodeError`, and only then, where `out` is too short for it; nothing
/// is then said of what `out` holds.
pub fn encode_sig_struct(body_protected: &[u8], payload: &[u8], out: &mut [u8]) -> (r: Result<
    usize,
    CborError,
>)
    ensures
        final(out)@.len() == old(out)@.len(),
        r is Ok <==> sig_structure(body_protected@, payload@).len() <= old(out)@.len(),
        r matches Ok(n) ==> {
            &&& n == sig_structure(body_protected@, payload@).len()
            &&& final(out)@.subrange(0, n as int) == sig_structure(body_protected@, payload@)
            &&& final(out)@.subrange(n as int, old(out)@.len() as int) == old(out)@.subrange(
                n as int,
                old(out)@.len() as int,
            )
        },
        r matches Err(e) ==> e == CborError::EncodeError,
{
    let ghost before = out@;
    let ghost lead = sig_structure_lead();
    let out_size: usize = out.len();
    proof {
        lemma_sig_structure_len(body_protected@, payload@);
    }
    if out_size < 2 + SIG_STRUCTURE_CONTEXT_SIZE {
        return Err(CborError::EncodeError);
    }
    // The leading bytes are fixed, so they are written as they are.
    out[0] = COSE_SIGN1_ARRAY_4;
    out[1] = COSE_SIGN1_STR_10;
    let mut i: usize = 0;
    while i < SIG_STRUCTURE_CONTEXT_SIZE
        invariant
            i <= SIG_STRUCTURE_CONTEXT_SIZE,
            out@.len() == before.len() == out_size,
            out_size >= 2 + SIG_STRUCTURE_CONTEXT_SIZE,
            lead == sig_structure_lead(),
            forall|k: int| 0 <= k < 2 + i ==> out@[k] == lead[k],
            forall|k: int| 2 + i <= k < out_size ==> out@[k] == before[k],
        decreases SIG_STRUCTURE_CONTEXT_SIZE - i,
    {
        out[2 + i] = SIG_STRUCTURE_CONTEXT[i];
        i = i + 1;
    }
    let index: usize = 2 + SIG_STRUCTURE_CONTEXT_SIZE;
    assert(out@.subrange(0, index as int) =~= lead);

    let index: usize = match put_field(out, index, body_protected, Ghost(before)) {
        Some(next) => next,
        None => {
            return Err(CborError::EncodeError);
        },
    };
    let empty: [u8; 0] = [];
    assert(empty@ =~= Seq::<u8>::empty());
    let index: usize = match put_field(out, index, &empty, Ghost(before)) {
        Some(next) => next,
        None => {
            return Err(CborError::EncodeError);
        },
    };
    let index: usize = match put_field(out, index, payload, Ghost(before)) {
        Some(next) => next,
        None => {
            return Err(CborError::EncodeError);
        },
    };
    assert(out@.subrange(index as int, out_size as int) =~= before.subrange(
        index as int,
        out_size as int,
    ));
    Ok(index)
}

/// Writes the object `object` to the front of `out`, tag byte first, and
/// returns its length.
fn encode_object(object: &CoseSign1Object, out: &mut [u8]) -> (r: Result<usize, CborError>)
    ensures
        final(out)@.len() == old(out)@.len(),
        r is Ok <==> object.unprotected_header.wf() && cose_sign1(object@).len() <= old(
            out,
        )@.len(),
        r matches Ok(n) ==> {
            &&& n == cose_sign1(object@).len()
            &&& final(out)@.subrange(0, n as int) == cose_sign1(object@)
            &&& final(out)@.subrange(n as int, old(out)@.len() as int) == old(out)@.subrange(
                n as int,
                old(out)@.len() as int,
            )
        },
        r matches Err(e) ==> e == CborError::EncodeError,
{
    let ghost before = out@;
    let ghost v = object@;
    let out_size: usize = out.len();
    let key: &[u8] = object.unprotected_header.signer_pub_key_der;
    if key.len() > PUB_KEY_MAX_SIZE {
        return Err(CborError::EncodeError);
    }
    proof {
        lemma_cose_sign1_shape(v);
    }
    if out_size < 2 {
        return Err(CborError::EncodeError);
    }
    out[0] = COSE_SIGN1_TAG;
    out[1] = COSE_SIGN1_ARRAY_4;
    let ghost lead = seq![COSE_SIGN1_TAG] + head(MAJOR_ARRAY, 4);
    assert(out@.subrange(0, 2) =~= lead);

    let index: usize = match put_field(out, 2, &object.protected_header, Ghost(before)) {
        Some(next) => next,
        None => {
            return Err(CborError::EncodeError);
        },
    };
    if out_size - index < 3 {
        return Err(CborError::EncodeError);
    }
    let ghost written = out@.subrange(0, index as int);
    out[index] = COSE_SIGN1_MAP_1;
    out[index + 1] = COSE_SIGN1_UINT_8;
    out[index + 2] = SIGNER_PUB_KEY_LABEL;
    let index: usize = index + 3;
    assert(out@.subrange(0, index as int) =~= written + seq![
        COSE_SIGN1_MAP_1,
        COSE_SIGN1_UINT_8,
        SIGNER_PUB_KEY_LABEL,
    ]);

    let index: usize = match put_field(out, index, key, Ghost(before)) {
        Some(next) => next,
        None => {
            return Err(CborError::EncodeError);
        },
    };
    assert(out@.subrange(0, index as int) =~= lead + bstr(v.protected_header)
        + unprotected_header_bytes(v.signer_pub_key_der));
    let index: usize = match put_field(out, index, object.payload, Ghost(before)) {
        Some(next) => next,
        None => {
            return Err(CborError::EncodeError);
        },
    };
    let index: usize = match put_field(out, index, &object.signature, Ghost(before)) {
        Some(next) => next,
        None => {
            return Err(CborError::EncodeError);
        },
    };
    assert(out@.subrange(index as int, out_size as int) =~= before.subrange(
        index as int,
        out_size as int,
    ));
    Ok(index)
}

/// Whether `h` is a head of major type `major` with argument `arg`, in any of
/// the forms that can carry it.
pub open spec fn is_head(h: Option<Head>, major: u8, arg: u64) -> bool {
    h matches Some(found) && found.major == major && found.arg == arg
}

/// Reads an object off the front of `s`, field by field, each where the one
/// before it ended: the tag byte; the head of an array of 4; the protected
/// header, a byte string of 23 bytes; the head of a map of 1; the key 248; the
/// public key, a byte string of at most 312 bytes; the payload, a byte string;
/// the signature, a byte string of 256 bytes. `None` where one of them is not
/// there as described. What follows the signature in `s` is not read.
pub open spec fn parse_cose_sign1(s: Seq<u8>) -> Option<CoseSign1ObjectView> {
    let array = parse_head(s.skip(1));
    let at_protected = 1 + array.unwrap().size;
    let protected = parse_bstr(s.skip(at_protected));
    let at_map = at_protected + protected.unwrap().size;
    let map = parse_head(s.skip(at_map));
    let at_label = at_map + map.unwrap().size;
    let label = parse_head(s.skip(at_label));
    let at_key = at_label + label.unwrap().size;
    let key = parse_bstr(s.skip(at_key));
    let at_payload = at_key + key.unwrap().size;
    let payload = parse_bstr(s.skip(at_payload));
    let at_signature = at_payload + payload.unwrap().size;
    let signature = parse_bstr(s.skip(at_signature));
    if {
        &&& s.len() > 0 && s[0] == COSE_SIGN1_TAG
        &&& is_head(array, MAJOR_ARRAY, 4)
        &&& protected is Some && protected.unwrap().bytes.len() == PROTECTED_HEADER_SIZE
        &&& is_head(map, MAJOR_MAP, 1)
        &&& is_head(label, MAJOR_UNSIGNED, SIGNER_PUB_KEY_LABEL as u64)
        &&& key is Some && key.unwrap().bytes.len() <= PUB_KEY_MAX_SIZE
        &&& payload is Some
        &&& signature is Some && signature.unwrap().bytes.len() == SIGNATURE_SIZE
    } {
        Some(
            CoseSign1ObjectView {
                protected_header: protected.unwrap().bytes,
                signer_pub_key_der: key.unwrap().bytes,
                payload: payload.unwrap().bytes,
                signature: signature.unwrap().bytes,
            },
        )
    } else {
        None
    }
}

/// Reads the head at `at` in `input` and gives the position after it where it
/// is a head of major type `major` with argument `arg`.
fn expect_head(input: &[u8], at: usize, major: u8, arg: u64) -> (r: Option<usize>)
    requires
        at <= input@.len(),
    ensures
        r is Some <==> is_head(parse_head(input@.skip(at as int)), major, arg),
        r matches Some(next) ==> next == at + parse_head(input@.skip(at as int)).unwrap().size && next
            <= input@.len(),
{
    match read_head(input, at) {
        Some(h) => if h.major == major && h.arg == arg {
            Some(at + h.size)
        } else {
            None
        },
        None => None,
    }
}

/// The `N` bytes of `bytes` as an array.
fn to_array<const N: usize>(bytes: &[u8]) -> (r: [u8; N])
    requires
        bytes@.len() == N,
    ensures
        r@ == bytes@,
{
    let mut r: [u8; N] = [0u8; N];
    let mut i: usize = 0;
    while i < N
        invariant
            i <= N,
            bytes@.len() == N,
            forall|k: int| 0 <= k < i ==> r@[k] == bytes@[k],
        decreases N - i,
    {
        r[i] = bytes[i];
        i = i + 1;
    }
    assert(r@ =~= bytes@);
    r
}

impl<'a> CoseSign1Object<'a> {
    /// Reads an object off the front of `input`: the object that
    /// `parse_cose_sign1` finds there, and `DecodeError` where it finds none.
    /// The key and the payload of the object lie in `input`.
    pub fn decode(input: &'a [u8]) -> (r: Result<CoseSign1Object<'a>, CborError>)
        ensures
            match parse_cose_sign1(input@) {
                Some(v) => r matches Ok(object) && object@ == v,
                None => r matches Err(e) && e == CborError::DecodeError,
            },
            r matches Ok(object) ==> object@.wf(),
    {
        if input.len() == 0 || input[0] != COSE_SIGN1_TAG {
            return Err(CborError::DecodeError);
        }
        let at: usize = match expect_head(input, COSE_SIGN1_TAG_SIZE, MAJOR_ARRAY, 4) {
            Some(next) => next,
            None => {
                return Err(CborError::DecodeError);
            },
        };
        let (protected, at) = match read_bstr(input, at) {
            Some(found) => found,
            None => {
                return Err(CborError::DecodeError);
            },
        };
        if protected.len() != PROTECTED_HEADER_SIZE {
            return Err(CborError::DecodeError);
        }
        let at: usize = match expect_head(input, at, MAJOR_MAP, 1) {
            Some(next) => next,
            None => {
                return Err(CborError::DecodeError);
            },
        };
        let at: usize = match expect_head(input, at, MAJOR_UNSIGNED, SIGNER_PUB_KEY_LABEL as u64) {
            Some(next) => next,
            None => {
                return Err(CborError::DecodeError);
            },
        };
        let (key, at) = match read_bstr(input, at) {
            Some(found) => found,
            None => {
                return Err(CborError::DecodeError);
            },
        };
        if key.len() > PUB_KEY_MAX_SIZE {
            return Err(CborError::DecodeError);
        }
        let (payload, at) = match read_bstr(input, at) {
            Some(found) => found,
            None => {
                return Err(CborError::DecodeError);
            },
        };
        let (signature, _) = match read_bstr(input, at) {
            Some(found) => found,
            None => {
                return Err(CborError::DecodeError);
            },
        };
        if signature.len() != SIGNATURE_SIZE {
            return Err(CborError::DecodeError);
        }
        Ok(
            CoseSign1Object {
                protected_header: to_array::<PROTECTED_HEADER_SIZE>(protected),
                unprotected_header: UnprotectedHeader { signer_pub_key_der: key },
                payload,
                signature: to_array::<SIGNATURE_SIZE>(signature),
            },
        )
    }

    /// Writes the object to the front of `out`, tag byte first, and returns its
    /// length. `out` is a buffer of fixed size: it keeps its length, and what
    /// lies behind the object in it stays. Fails with `EncodeError`, and only
    /// then, where the key is longer than 312 bytes or `out` is too short for
    /// the object; nothing is then said of what `out` holds.
    pub fn encode(&self, out: &mut Vec<u8>) -> (r: Result<usize, CborError>)
        ensures
            final(out)@.len() == old(out)@.len(),
            r is Ok <==> self.unprotected_header.wf() && cose_sign1(self@).len() <= old(
                out,
            )@.len(),
            r matches Ok(n) ==> {
                &&& n == cose_sign1(self@).len()
                &&& final(out)@.subrange(0, n as int) == cose_sign1(self@)
                &&& final(out)@[0] == COSE_SIGN1_TAG
                &&& final(out)@.subrange(n as int, old(out)@.len() as int) == old(out)@.subrange(
                    n as int,
                    old(out)@.len() as int,
                )
            },
            r matches Err(e) ==> e == CborError::EncodeError,
    {
        let r = encode_object(self, out.as_mut_slice());
        proof {
            if r is Ok {
                assert(out@[0] == out@.subrange(0, r->Ok_0 as int)[0]);
            }
        }
        r
    }
}

/// What a signing session holds besides the fixed protected header.
pub struct CoseSign1View {
    pub payload: Seq<u8>,
    pub signer_pub_key_der: Option<Seq<u8>>,
}

impl CoseSign1View {
    /// The key as the unprotected header carries it: an empty byte string where
    /// there is none.
    pub open spec fn key_bytes(self) -> Seq<u8> {
        match self.signer_pub_key_der {
            Some(key) => key,
            None => Seq::<u8>::empty(),
        }
    }

    /// The object that the session makes of the signature `signature`: the
    /// fixed protected header, the session's key and payload, the signature.
    pub open spec fn object(self, signature: Seq<u8>) -> CoseSign1ObjectView {
        CoseSign1ObjectView {
            protected_header: PROTECTED_HEADER@,
            signer_pub_key_der: self.key_bytes(),
            payload: self.payload,
            signature,
        }
    }
}

/// A signing session: it makes the bytes to be signed, and later the object
/// with the signature, both from the one payload and the one protected header
/// that it holds.
pub struct CoseSign1 {
    protected_header: [u8; PROTECTED_HEADER_SIZE],
    payload: Vec<u8>,
    signer_pub_key_der: Option<Vec<u8>>,
}

impl View for CoseSign1 {
    type V = CoseSign1View;

    closed spec fn view(&self) -> CoseSign1View {
        CoseSign1View {
            payload: self.payload@,
            signer_pub_key_der: match self.signer_pub_key_der {
                Some(key) => Some(key@),
                None => None,
            },
        }
    }
}

impl CoseSign1 {
    /// The protected header of a session is the fixed one.
    #[verifier::type_invariant]
    spec fn inv(self) -> bool {
        self.protected_header@ == PROTECTED_HEADER@
    }

    /// A session for `payload`, signed by the holder of `signer_pub_key_der`.
    pub fn new(payload: Vec<u8>, signer_pub_key_der: Option<Vec<u8>>) -> (r: Self)
        ensures
            r@.payload == payload@,
            r@.signer_pub_key_der == match signer_pub_key_der {
                Some(key) => Some(key@),
                None => None,
            },
    {
        Self { protected_header: PROTECTED_HEADER, payload, signer_pub_key_der }
    }

    /// The length of the bytes to be signed.
    pub fn sig_struct_size(&self) -> (r: usize)
        requires
            sig_structure_len(PROTECTED_HEADER_SIZE as nat, self@.payload.len()) <= usize::MAX,
        ensures
            r == sig_structure_len(PROTECTED_HEADER_SIZE as nat, self@.payload.len()),
    {
        let payload_size: usize = encoded_bstr_len(self.payload.len()).unwrap();
        2 + SIG_STRUCTURE_CONTEXT_SIZE + (1 + PROTECTED_HEADER_SIZE) + 1 + payload_size
    }

    /// The bytes to be signed: the `Sig_structure` of the fixed protected
    /// header and the session's payload. Fails with `EncodeError`, and only
    /// then, where their length does not fit in `usize`.
    pub fn create_tbs(&self) -> (r: Result<Vec<u8>, CborError>)
        ensures
            r is Ok <==> sig_structure_len(PROTECTED_HEADER_SIZE as nat, self@.payload.len())
                <= usize::MAX,
            r matches Ok(bytes) ==> bytes@ == sig_structure(PROTECTED_HEADER@, self@.payload),
            r matches Err(e) ==> e == CborError::EncodeError,
    {
        proof {
            use_type_invariant(self);
            lemma_sig_structure_len(PROTECTED_HEADER@, self@.payload);
        }
        let fits: bool = match encoded_bstr_len(self.payload.len()) {
            Some(size) => size <= usize::MAX - (2 + SIG_STRUCTURE_CONTEXT_SIZE + (1
                + PROTECTED_HEADER_SIZE) + 1),
            None => false,
        };
        if !fits {
            return Err(CborError::EncodeError);
        }
        let size: usize = self.sig_struct_size();
        let mut sig_struct_buffer: Vec<u8> = Vec::with_capacity(size);
        sig_struct_buffer.resize(size, 0);
        match encode_sig_struct(
            &self.protected_header,
            self.payload.as_slice(),
            sig_struct_buffer.as_mut_slice(),
        ) {
            Ok(written) => {
                assert(sig_struct_buffer@ =~= sig_struct_buffer@.subrange(0, written as int));
                Ok(sig_struct_buffer)
            },
            Err(_) => Err(CborError::EncodeError),
        }
    }

    /// The length of `obj` on the wire, tag byte included: `None` where it does
    /// not fit in `usize`.
    fn tagged_cose_sign1_object_size(&self, obj: &CoseSign1Object) -> (r: Option<usize>)
        ensures
            r matches Some(size) ==> size == cose_sign1_len(
                obj@.signer_pub_key_der.len(),
                obj@.payload.len(),
            ),
            r is None <==> cose_sign1_len(obj@.signer_pub_key_der.len(), obj@.payload.len())
                > usize::MAX,
    {
        let fixed: usize = COSE_SIGN1_TAG_SIZE + 1 + (1 + PROTECTED_HEADER_SIZE) + 3 + (3
            + SIGNATURE_SIZE);
        let key_size: usize = match encoded_bstr_len(obj.unprotected_header.signer_pub_key_der.len()) {
            Some(size) => size,
            None => {
                return None;
            },
        };
        let payload_size: usize = match encoded_bstr_len(obj.payload.len()) {
            Some(size) => size,
            None => {
                return None;
            },
        };
        match key_size.checked_add(payload_size) {
            Some(size) => size.checked_add(fixed),
            None => None,
        }
    }

    /// The object for the signature `signature`, on the wire: `cose_sign1` of
    /// the fixed protected header, the session's key (an empty byte string
    /// where it has none), the session's payload and the signature. Fails with
    /// `EncodeError`, and only then, where the signature is not of 256 bytes,
    /// the key is longer than 312 bytes, or the object's length does not fit in
    /// `usize`.
    pub fn create_cose_sign1_object(&self, signature: &[u8]) -> (r: Result<Vec<u8>, CborError>)
        ensures
            r is Ok <==> {
                &&& signature@.len() == SIGNATURE_SIZE
                &&& self@.key_bytes().len() <= PUB_KEY_MAX_SIZE
                &&& cose_sign1_len(self@.key_bytes().len(), self@.payload.len()) <= usize::MAX
            },
            r matches Ok(bytes) ==> bytes@ == cose_sign1(self@.object(signature@)),
            r matches Err(e) ==> e == CborError::EncodeError,
    {
        proof {
            use_type_invariant(self);
        }
        if signature.len() != SIGNATURE_SIZE {
            return Err(CborError::EncodeError);
        }
        let unprotected_header = match &self.signer_pub_key_der {
            Some(pub_key) => {
                if pub_key.len() > PUB_KEY_MAX_SIZE {
                    return Err(CborError::EncodeError);
                }
                UnprotectedHeader::new_with_der(pub_key)
            },
            None => UnprotectedHeader::new(),
        };
        let cose_sign1 = CoseSign1Object {
            protected_header: self.protected_header,
            unprotected_header,
            payload: self.payload.as_slice(),
            signature: to_array::<SIGNATURE_SIZE>(signature),
        };
        assert(cose_sign1@ == self@.object(signature@));
        proof {
            lemma_cose_sign1_shape(cose_sign1@);
        }
        let size: usize = match self.tagged_cose_sign1_object_size(&cose_sign1) {
            Some(size) => size,
            None => {
                return Err(CborError::EncodeError);
            },
        };
        let mut cose_sign1_buffer: Vec<u8> = Vec::with_capacity(size);
        cose_sign1_buffer.resize(size, 0);
        match cose_sign1.encode(&mut cose_sign1_buffer) {
            Ok(written) => {
                assert(cose_sign1_buffer@ =~= cose_sign1_buffer@.subrange(0, written as int));
                Ok(cose_sign1_buffer)
            },
            Err(_) => Err(CborError::EncodeError),
        }
    }
}

} // verus!
