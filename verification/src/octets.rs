//! Byte buffers and little-endian integers.

use vstd::prelude::*;
use vstd::utf8::{encode_utf8, valid_utf8};

verus! {

/// The shared byte buffer of the `bytes` crate.
#[verifier::external_type_specification]
#[verifier::external_body]
pub struct ExBytes(bytes::Bytes);

/// The bytes that a buffer holds.
pub uninterp spec fn bytes_of(b: bytes::Bytes) -> Seq<u8>;

/// `Bytes::copy_from_slice`: the new buffer holds the bytes of the slice.
pub assume_specification[ bytes::Bytes::copy_from_slice ](data: &[u8]) -> (b: bytes::Bytes)
    ensures
        bytes_of(b) == data@,
;

/// `Bytes::len`: the number of bytes that the buffer holds.
#[verifier::external_body]
pub(crate) fn bytes_len(b: &bytes::Bytes) -> (n: usize)
    ensures
        n == bytes_of(*b).len(),
{
    b.len()
}

/// `Clone` of `Bytes`: the copy holds the same bytes.
pub assume_specification[ <bytes::Bytes as Clone>::clone ](b: &bytes::Bytes) -> (r: bytes::Bytes)
    ensures
        bytes_of(r) == bytes_of(*b),
;

/// `AsRef<[u8]>` of `Bytes`: the slice shows the bytes that the buffer holds.
#[verifier::external_body]
pub(crate) fn bytes_slice(b: &bytes::Bytes) -> (s: &[u8])
    ensures
        s@ == bytes_of(*b),
{
    b.as_ref()
}

/// The message with which the standard library refuses bytes that are not UTF-8.
pub uninterp spec fn utf8_refusal(bytes: Seq<u8>) -> Seq<char>;

/// `String::from_utf8`: the text that the bytes encode, exactly where they are
/// valid UTF-8; otherwise the message of the refusal.
#[verifier::external_body]
pub(crate) fn bytes_to_text(bytes: Vec<u8>) -> (r: Result<String, String>)
    ensures
        match r {
            Ok(text) => valid_utf8(bytes@) && encode_utf8(text@) == bytes@,
            Err(message) => !valid_utf8(bytes@) && message@ == utf8_refusal(bytes@),
        },
{
    String::from_utf8(bytes).map_err(|e| e.to_string())
}

/// The text that the standard library makes of bytes that may not be UTF-8.
pub uninterp spec fn lossy_text(bytes: Seq<u8>) -> Seq<char>;

/// `String::from_utf8_lossy`.
#[verifier::external_body]
pub(crate) fn bytes_to_lossy_text(bytes: &[u8]) -> (r: String)
    ensures
        r@ == lossy_text(bytes@),
{
    String::from_utf8_lossy(bytes).into_owned()
}

/// The number that a little-endian byte sequence writes.
pub open spec fn le_value(b: Seq<u8>) -> nat
    decreases b.len(),
{
    if b.len() == 0 {
        0
    } else {
        b[0] as nat + 256 * le_value(b.skip(1))
    }
}

/// The `width` little-endian bytes of a number.
pub open spec fn le_bytes(n: nat, width: nat) -> Seq<u8>
    decreases width,
{
    if width == 0 {
        Seq::empty()
    } else {
        seq![(n % 256) as u8] + le_bytes(n / 256, (width - 1) as nat)
    }
}

/// How many numbers `width` bytes can write.
pub open spec fn byte_range(width: nat) -> nat
    decreases width,
{
    if width == 0 {
        1
    } else {
        256 * byte_range((width - 1) as nat)
    }
}

/// Little-endian bytes have the stated width.
pub proof fn lemma_le_bytes_len(n: nat, width: nat)
    ensures
        le_bytes(n, width).len() == width,
    decreases width,
{
    if width > 0 {
        lemma_le_bytes_len(n / 256, (width - 1) as nat);
    }
}

/// A number that fits its width is read back from its little-endian bytes.
pub proof fn lemma_le_round_trip(n: nat, width: nat)
    requires
        n < byte_range(width),
    ensures
        le_value(le_bytes(n, width)) == n,
    decreases width,
{
    if width > 0 {
        let rest = le_bytes(n / 256, (width - 1) as nat);
        lemma_le_round_trip(n / 256, (width - 1) as nat);
        assert(le_bytes(n, width).skip(1) =~= rest);
    }
}

/// A little-endian byte sequence writes a number of its width.
pub proof fn lemma_le_value_bound(b: Seq<u8>)
    ensures
        le_value(b) < byte_range(b.len()),
    decreases b.len(),
{
    if b.len() > 0 {
        lemma_le_value_bound(b.skip(1));
    }
}

/// Eight bytes write exactly the 64-bit numbers, four exactly the 32-bit ones.
pub proof fn lemma_byte_ranges()
    ensures
        byte_range(4) == 0x1_0000_0000,
        byte_range(8) == 0x1_0000_0000_0000_0000,
{
    reveal_with_fuel(byte_range, 9);
}

proof fn lemma_byte_range_monotone(a: nat, b: nat)
    requires
        a <= b,
    ensures
        1 <= byte_range(a) <= byte_range(b),
    decreases b,
{
    if b > 0 {
        if a == b {
            lemma_byte_range_monotone((a - 1) as nat, (b - 1) as nat);
        } else {
            lemma_byte_range_monotone(a, (b - 1) as nat);
        }
    }
}

/// Read a little-endian number of `width` bytes at `at`.
pub fn read_le(bytes: &[u8], at: usize, width: usize) -> (n: u64)
    requires
        width <= 8,
        at + width <= bytes@.len(),
    ensures
        n == le_value(bytes@.subrange(at as int, at + width)),
        n < byte_range(width as nat),
{
    let total: usize = bytes.len();
    let mut n: u64 = 0;
    let mut left: usize = width;
    assert(bytes@.subrange(at + width, at + width) =~= Seq::<u8>::empty());
    while left > 0
        invariant
            left <= width <= 8,
            at + width <= total,
            total == bytes@.len(),
            n == le_value(bytes@.subrange(at + left, at + width)),
            n < byte_range((width - left) as nat),
        decreases left,
    {
        let ghost tail = bytes@.subrange(at + left, at + width);
        left = left - 1;
        let ghost here = bytes@.subrange(at + left, at + width);
        proof {
            assert(here.skip(1) =~= tail);
            lemma_le_value_bound(here);
            lemma_byte_range_monotone((width - left) as nat, 8);
            lemma_byte_ranges();
            assert(le_value(here) == here[0] as nat + 256 * le_value(tail));
        }
        n = bytes[at + left] as u64 + 256 * n;
    }
    n
}

/// Append the `width` little-endian bytes of a number.
pub fn push_le(out: &mut Vec<u8>, n: u64, width: usize)
    ensures
        final(out)@ == old(out)@ + le_bytes(n as nat, width as nat),
{
    let ghost start = out@;
    let mut rest: u64 = n;
    let mut i: usize = 0;
    assert(start + le_bytes(n as nat, width as nat) =~= out@ + le_bytes(n as nat, width as nat));
    while i < width
        invariant
            i <= width,
            out@ + le_bytes(rest as nat, (width - i) as nat) == start + le_bytes(
                n as nat,
                width as nat,
            ),
        decreases width - i,
    {
        let ghost before = out@;
        let low: u8 = (rest % 256) as u8;
        out.push(low);
        proof {
            let tail = le_bytes((rest / 256) as nat, (width - i - 1) as nat);
            assert(before + (seq![low] + tail) =~= before.push(low) + tail);
        }
        rest = rest / 256;
        i = i + 1;
    }
    assert(out@ + le_bytes(rest as nat, 0) =~= out@);
}

/// The 64-bit two's complement pattern of an integer.
pub open spec fn twos_complement(i: int) -> nat {
    if i < 0 {
        (i + 0x1_0000_0000_0000_0000) as nat
    } else {
        i as nat
    }
}

/// The integer that a 64-bit two's complement pattern writes.
pub open spec fn from_twos_complement(n: nat) -> int {
    if n < 0x8000_0000_0000_0000 {
        n as int
    } else {
        n - 0x1_0000_0000_0000_0000
    }
}

/// The two's complement pattern of an integer.
pub fn to_pattern(i: i64) -> (n: u64)
    ensures
        n == twos_complement(i as int),
{
    if i >= 0 {
        i as u64
    } else {
        u64::MAX - ((-(i + 1)) as u64)
    }
}

/// The integer that a two's complement pattern writes.
pub fn from_pattern(n: u64) -> (i: i64)
    ensures
        i == from_twos_complement(n as nat),
{
    if n <= 0x7fff_ffff_ffff_ffff {
        n as i64
    } else {
        -((u64::MAX - n) as i64) - 1
    }
}

/// The low byte comes first: it is the remainder by 256, and what follows it
/// writes the quotient.
pub proof fn low_byte_comes_first(n: nat, width: nat)
    requires
        width > 0,
    ensures
        le_bytes(n, width)[0] as nat == n % 256,
        le_bytes(n, width).skip(1) == le_bytes(n / 256, (width - 1) as nat),
{
    assert(le_bytes(n, width).skip(1) =~= le_bytes(n / 256, (width - 1) as nat));
}

/// The pattern of a 64-bit integer fits 64 bits, differs from the integer by a
/// multiple of what 64 bits can write, and is read back as the integer.
pub proof fn patterns_write_their_integers(i: i64)
    ensures
        twos_complement(i as int) <= u64::MAX,
        twos_complement(i as int) == i || twos_complement(i as int) == i + byte_range(8),
        from_twos_complement(twos_complement(i as int)) == i,
{
    lemma_byte_ranges();
}

/// Every 64-bit pattern is that of the integer that it is read as.
pub proof fn patterns_are_read_as_their_integers(n: u64)
    ensures
        i64::MIN <= from_twos_complement(n as nat) <= i64::MAX,
        twos_complement(from_twos_complement(n as nat)) == n,
{
}

} // verus!
