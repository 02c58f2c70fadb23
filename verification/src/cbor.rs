//! The CBOR primitives this format needs: the head of a data item (major type
//! and argument, RFC 8949 section 3) and the definite-length byte string.

use vstd::prelude::*;

verus! {

/// Major type 0, an unsigned integer, as the high three bits of a head's first byte.
pub const MAJOR_UNSIGNED: u8 = 0x00;

/// Major type 2, a byte string.
pub const MAJOR_BYTES: u8 = 0x40;

/// Major type 3, a text string.
pub const MAJOR_TEXT: u8 = 0x60;

/// Major type 4, an array.
pub const MAJOR_ARRAY: u8 = 0x80;

/// Major type 5, a map.
pub const MAJOR_MAP: u8 = 0xa0;

/// Whether `major` is one of the eight major types in the position it has in a
/// head's first byte: a multiple of 32.
pub open spec fn is_major(major: u8) -> bool {
    major % 32 == 0
}

/// Byte `k` of `n`, counted from the least significant one.
pub open spec fn byte_of(n: nat, k: nat) -> u8 {
    ((n / pow256(k)) % 256) as u8
}

/// 256 to the power `k`.
pub open spec fn pow256(k: nat) -> nat
    decreases k,
{
    if k == 0 {
        1
    } else {
        256 * pow256((k - 1) as nat)
    }
}

/// The shortest head for major type `major` with argument `n`: the argument sits
/// in the first byte below 24, and in 1, 2, 4 or 8 big-endian bytes after it
/// from there on.
pub open spec fn head(major: u8, n: nat) -> Seq<u8> {
    if n < 24 {
        seq![(major + n) as u8]
    } else if n < 0x100 {
        seq![(major + 24) as u8, byte_of(n, 0)]
    } else if n < 0x1_0000 {
        seq![(major + 25) as u8, byte_of(n, 1), byte_of(n, 0)]
    } else if n < 0x1_0000_0000 {
        seq![(major + 26) as u8, byte_of(n, 3), byte_of(n, 2), byte_of(n, 1), byte_of(n, 0)]
    } else {
        seq![
            (major + 27) as u8,
            byte_of(n, 7),
            byte_of(n, 6),
            byte_of(n, 5),
            byte_of(n, 4),
            byte_of(n, 3),
            byte_of(n, 2),
            byte_of(n, 1),
            byte_of(n, 0),
        ]
    }
}

/// How many bytes `head` takes for argument `n`.
pub open spec fn head_len(n: nat) -> nat {
    if n < 24 {
        1
    } else if n < 0x100 {
        2
    } else if n < 0x1_0000 {
        3
    } else if n < 0x1_0000_0000 {
        5
    } else {
        9
    }
}

/// A byte string on the wire: the head that carries its length, then its bytes.
pub open spec fn bstr(bytes: Seq<u8>) -> Seq<u8> {
    head(MAJOR_BYTES, bytes.len()) + bytes
}

/// How many bytes `bstr` takes for a string of `n` bytes.
pub open spec fn bstr_len(n: nat) -> nat {
    head_len(n) + n
}

/// The number of bytes that a byte string of `n` bytes takes on the wire, head
/// included: `None` where that number does not fit in `usize`.
pub fn encoded_bstr_len(n: usize) -> (r: Option<usize>)
    ensures
        r matches Some(len) ==> len == bstr_len(n as nat),
        r is None <==> bstr_len(n as nat) > usize::MAX,
{
    let head_size: usize = if n < 24 {
        1
    } else if n < 0x100 {
        2
    } else if n < 0x1_0000 {
        3
    } else if (n as u64) < 0x1_0000_0000 {
        5
    } else {
        9
    };
    n.checked_add(head_size)
}

/// `head` and `bstr` have the lengths that `head_len` and `bstr_len` give.
pub proof fn lemma_lengths(major: u8, bytes: Seq<u8>)
    ensures
        head(major, bytes.len()).len() == head_len(bytes.len()),
        bstr(bytes).len() == bstr_len(bytes.len()),
{
}

/// The number that `width` big-endian bytes of `s` spell, starting at index 1.
pub open spec fn argument(s: Seq<u8>, width: nat) -> nat
    decreases width,
{
    if width == 0 {
        0
    } else {
        argument(s, (width - 1) as nat) * 256 + s[width as int] as nat
    }
}

/// A head as a reader finds it: the major type, the argument, and how many
/// bytes the head took.
pub struct Head {
    pub major: u8,
    pub arg: u64,
    pub size: usize,
}

/// Reads a head off the front of `s`. Every definite form is read, shortest or
/// not; the reserved forms and the indefinite one (low five bits 28 to 31) are
/// not, nor is a head that `s` ends in the middle of.
pub open spec fn parse_head(s: Seq<u8>) -> Option<Head> {
    if s.len() == 0 {
        None
    } else {
        let major = (s[0] - s[0] % 32) as u8;
        let info = s[0] % 32;
        let width: nat = if info < 24 {
            0
        } else if info == 24 {
            1
        } else if info == 25 {
            2
        } else if info == 26 {
            4
        } else {
            8
        };
        if info >= 28 || s.len() < 1 + width {
            None
        } else if info < 24 {
            Some(Head { major, arg: info as u64, size: 1 })
        } else {
            Some(Head { major, arg: argument(s, width) as u64, size: (1 + width) as usize })
        }
    }
}

/// The powers of 256 that a head's argument can reach.
pub proof fn lemma_pow256()
    ensures
        pow256(0) == 1,
        pow256(1) == 0x100,
        pow256(2) == 0x1_0000,
        pow256(3) == 0x100_0000,
        pow256(4) == 0x1_0000_0000,
        pow256(5) == 0x100_0000_0000,
        pow256(6) == 0x1_0000_0000_0000,
        pow256(7) == 0x100_0000_0000_0000,
        pow256(8) == 0x1_0000_0000_0000_0000,
{
    reveal_with_fuel(pow256, 9);
}

/// `width` bytes spell a number below 256 to the power `width`.
pub proof fn lemma_argument_bound(s: Seq<u8>, width: nat)
    ensures
        argument(s, width) < pow256(width),
    decreases width,
{
    if width > 0 {
        lemma_argument_bound(s, (width - 1) as nat);
    }
}

/// Reads the head that starts at `at` in `input`: `None` where `parse_head`
/// finds none in what is left of the input from there.
pub fn read_head(input: &[u8], at: usize) -> (r: Option<Head>)
    requires
        at <= input@.len(),
    ensures
        r == parse_head(input@.skip(at as int)),
        r matches Some(h) ==> at + h.size <= input@.len() <= usize::MAX,
{
    let ghost s = input@.skip(at as int);
    if at >= input.len() {
        return None;
    }
    let first: u8 = input[at];
    assert(first == s[0]);
    let info: u8 = first % 32;
    let major: u8 = first - info;
    if info < 24 {
        return Some(Head { major, arg: info as u64, size: 1 });
    }
    if info >= 28 {
        return None;
    }
    let width: usize = if info == 24 {
        1
    } else if info == 25 {
        2
    } else if info == 26 {
        4
    } else {
        8
    };
    if input.len() - at < 1 + width {
        return None;
    }
    let mut arg: u64 = 0;
    let mut i: usize = 0;
    while i < width
        invariant
            i <= width <= 8,
            at + 1 + width <= input@.len() <= usize::MAX,
            s == input@.skip(at as int),
            arg == argument(s, i as nat),
        decreases width - i,
    {
        proof {
            lemma_argument_bound(s, i as nat);
            lemma_pow256();
        }
        let byte: u8 = input[at + 1 + i];
        assert(byte == s[i + 1]);
        arg = arg * 256 + byte as u64;
        i = i + 1;
    }
    Some(Head { major, arg, size: 1 + width })
}

/// Every power of 256 is positive.
pub proof fn lemma_pow256_positive(k: nat)
    ensures
        pow256(k) > 0,
    decreases k,
{
    if k > 0 {
        lemma_pow256_positive((k - 1) as nat);
    }
}

/// Where the bytes of `s` from index 1 on are those of `n`, most significant
/// first, the first `k` of them spell `n` without its low `width - k` bytes.
pub proof fn lemma_argument_of_bytes(s: Seq<u8>, n: nat, width: nat, k: nat)
    requires
        k <= width,
        n < pow256(width),
        forall|i: int| 1 <= i <= width ==> s[i] == byte_of(n, (width - i) as nat),
    ensures
        argument(s, k) == n / pow256((width - k) as nat),
    decreases k,
{
    if k == 0 {
        vstd::arithmetic::div_mod::lemma_basic_div(n as int, pow256(width) as int);
    } else {
        lemma_argument_of_bytes(s, n, width, (k - 1) as nat);
        let low = pow256((width - k) as nat);
        lemma_pow256_positive((width - k) as nat);
        assert(pow256((width - k + 1) as nat) == 256 * low);
        vstd::arithmetic::div_mod::lemma_div_denominator(n as int, low as int, 256);
        assert(low * 256 == 256 * low) by (nonlinear_arith);
        assert(s[k as int] == byte_of(n, (width - k) as nat));
    }
}

/// Reading gives back what `head` wrote, whatever follows it.
pub proof fn lemma_parse_head_of_head(major: u8, n: nat, rest: Seq<u8>)
    requires
        is_major(major),
        n <= u64::MAX,
    ensures
        parse_head(head(major, n) + rest) == Some(
            Head { major, arg: n as u64, size: head_len(n) as usize },
        ),
{
    let s = head(major, n) + rest;
    let width: nat = (head_len(n) - 1) as nat;
    lemma_pow256();
    assert(s[0] == head(major, n)[0]);
    if n >= 24 {
        assert forall|i: int| 1 <= i <= width implies s[i] == byte_of(n, (width - i) as nat) by {
            assert(s[i] == head(major, n)[i]);
        }
        lemma_argument_of_bytes(s, n, width, width);
    }
}

/// A byte string as a reader finds it: its bytes, and how many bytes it took
/// on the wire, head included.
pub struct ByteString {
    pub bytes: Seq<u8>,
    pub size: nat,
}

/// Reads a definite-length byte string off the front of `s`. `None` where `s`
/// does not start with the head of a byte string, or ends before the string
/// does.
pub open spec fn parse_bstr(s: Seq<u8>) -> Option<ByteString> {
    match parse_head(s) {
        Some(h) => if h.major == MAJOR_BYTES && h.size + h.arg <= s.len() {
            Some(
                ByteString {
                    bytes: s.subrange(h.size as int, h.size + h.arg),
                    size: (h.size + h.arg) as nat,
                },
            )
        } else {
            None
        },
        None => None,
    }
}

/// Reading gives back the bytes that `bstr` wrapped, whatever follows them.
pub proof fn lemma_parse_bstr_of_bstr(bytes: Seq<u8>, rest: Seq<u8>)
    requires
        bytes.len() <= u64::MAX,
    ensures
        parse_bstr(bstr(bytes) + rest) == Some(
            ByteString { bytes, size: bstr_len(bytes.len()) },
        ),
{
    let h = head(MAJOR_BYTES, bytes.len());
    assert(bstr(bytes) + rest =~= h + (bytes + rest));
    lemma_parse_head_of_head(MAJOR_BYTES, bytes.len(), bytes + rest);
    assert((bstr(bytes) + rest).subrange(h.len() as int, (h.len() + bytes.len()) as int) =~= bytes);
}

/// Reads the byte string that starts at `at` in `input`, and gives it with the
/// position after it: `None` where `parse_bstr` finds none in what is left of
/// the input from `at`.
pub fn read_bstr<'a>(input: &'a [u8], at: usize) -> (r: Option<(&'a [u8], usize)>)
    requires
        at <= input@.len(),
    ensures
        match parse_bstr(input@.skip(at as int)) {
            Some(found) => r matches Some((slice, next)) && slice@ == found.bytes && next == at
                + found.size && next <= input@.len(),
            None => r is None,
        },
{
    let ghost s = input@.skip(at as int);
    match read_head(input, at) {
        Some(h) => {
            if h.major != MAJOR_BYTES {
                return None;
            }
            let left: usize = input.len() - at - h.size;
            if h.arg > left as u64 {
                return None;
            }
            let start: usize = at + h.size;
            let end: usize = start + h.arg as usize;
            let slice = vstd::slice::slice_subrange(input, start, end);
            assert(slice@ =~= s.subrange(h.size as int, h.size + h.arg));
            Some((slice, end))
        },
        None => None,
    }
}

} // verus!
