//! 4-bit grayscale alpha: quantization of 8-bit coverage and nibble packing.

use vstd::prelude::*;

verus! {

/// The 4-bit alpha that 8-bit coverage `c` rounds to: `round(c * 15 / 255)`.
pub open spec fn quantized(c: u8) -> u8 {
    ((c as int * 15 + 127) / 255) as u8
}

/// The low nibble of a byte.
pub open spec fn low_nibble(b: u8) -> u8 {
    b & 0x0f
}

/// The byte holding nibble `hi` in its high half and nibble `lo` in its low half.
pub open spec fn nibble_pair(hi: u8, lo: u8) -> u8 {
    ((low_nibble(hi) << 4u8) | low_nibble(lo)) as u8
}

/// The alpha value at position `i`, or 0 past the end (the padding of an odd count).
pub open spec fn alpha_or_zero(alpha: Seq<u8>, i: int) -> u8 {
    if 0 <= i < alpha.len() {
        alpha[i]
    } else {
        0
    }
}

/// Byte `i` of the packed form of `alpha`: pixels `2i` and `2i + 1`, the first
/// in the high nibble.
pub open spec fn packed_byte(alpha: Seq<u8>, i: int) -> u8 {
    nibble_pair(alpha_or_zero(alpha, 2 * i), alpha_or_zero(alpha, 2 * i + 1))
}

/// Number of bytes that hold `n` 4-bit pixels.
pub open spec fn packed_len(n: nat) -> nat {
    (n + 1) / 2
}

/// The packed form of `alpha`: two 4-bit pixels per byte, high nibble first,
/// the final low nibble padded with 0 when the count is odd.
pub open spec fn packed(alpha: Seq<u8>) -> Seq<u8> {
    Seq::new(packed_len(alpha.len()), |i: int| packed_byte(alpha, i))
}

/// Pixel `i` of packed bytes: the high nibble of byte `i / 2` for even `i`,
/// the low nibble for odd `i`.
pub open spec fn unpacked_pixel(bytes: Seq<u8>, i: int) -> u8 {
    if i % 2 == 0 {
        bytes[i / 2] >> 4u8
    } else {
        low_nibble(bytes[i / 2])
    }
}

/// The first `n` pixels held by `bytes` (all of them when `bytes` holds fewer).
pub open spec fn unpacked(bytes: Seq<u8>, n: nat) -> Seq<u8> {
    let count = if n <= 2 * bytes.len() { n } else { 2 * bytes.len() };
    Seq::new(count, |i: int| unpacked_pixel(bytes, i))
}

/// Every value fits in a nibble.
pub open spec fn all_nibbles(alpha: Seq<u8>) -> bool {
    forall|i: int| 0 <= i < alpha.len() ==> #[trigger] alpha[i] < 16
}

/// Quantizes 8-bit coverage to 4-bit alpha with rounding.
pub fn quantize_8_to_4(coverage: u8) -> (alpha: u8)
    ensures
        alpha == quantized(coverage),
        alpha as int == (coverage as int * 15 + 127) / 255,
        alpha <= 15,
{
    let rounded: u16 = ((coverage as u16) * 15 + 127) / 255;
    rounded as u8
}

/// Quantizes every coverage value of a bitmap.
pub fn quantize_bitmap(coverage: &[u8]) -> (alpha: Vec<u8>)
    ensures
        alpha@ == coverage@.map_values(|c: u8| quantized(c)),
        all_nibbles(alpha@),
{
    let mut alpha: Vec<u8> = Vec::new();
    let mut i: usize = 0;
    while i < coverage.len()
        invariant
            i <= coverage.len(),
            alpha@ == coverage@.take(i as int).map_values(|c: u8| quantized(c)),
            all_nibbles(alpha@),
        decreases coverage.len() - i,
    {
        let q = quantize_8_to_4(coverage[i]);
        alpha.push(q);
        i += 1;
        assert(coverage@.take(i as int) == coverage@.take(i - 1).push(coverage@[i - 1]));
    }
    assert(coverage@.take(i as int) == coverage@);
    alpha
}

proof fn lemma_nibble_pair_bits(hi: u8, lo: u8)
    ensures
        nibble_pair(hi, lo) >> 4u8 == low_nibble(hi),
        low_nibble(nibble_pair(hi, lo)) == low_nibble(lo),
{
    assert((((hi & 0x0f) << 4u8) | (lo & 0x0f)) as u8 >> 4u8 == hi & 0x0f) by (bit_vector);
    assert((((hi & 0x0f) << 4u8) | (lo & 0x0f)) as u8 & 0x0f == lo & 0x0f) by (bit_vector);
}

proof fn lemma_low_nibble_small(b: u8)
    requires
        b < 16,
    ensures
        low_nibble(b) == b,
{
    assert(b < 16 ==> b & 0x0f == b) by (bit_vector);
}

/// Packs 4-bit alpha values two per byte, the first pixel in the high nibble;
/// an odd count pads the final low nibble with 0. Bits above the low nibble
/// of each input value are dropped.
pub fn pack_4bit_alpha(alpha: &[u8]) -> (bytes: Vec<u8>)
    ensures
        bytes@ == packed(alpha@),
        bytes@.len() == packed_len(alpha@.len()),
{
    let mut bytes: Vec<u8> = Vec::new();
    let n = alpha.len();
    let pairs = n / 2 + n % 2;
    let mut k: usize = 0;
    while k < pairs
        invariant
            n == alpha@.len(),
            pairs == packed_len(n as nat),
            k <= pairs,
            bytes@.len() == k,
            forall|j: int| 0 <= j < bytes@.len() ==> #[trigger] bytes@[j] == packed_byte(alpha@, j),
        decreases pairs - k,
    {
        let i = 2 * k;
        let high: u8 = alpha[i] & 0x0f;
        let low: u8 = if i + 1 < n {
            alpha[i + 1] & 0x0f
        } else {
            0
        };
        let byte: u8 = high << 4u8 | low;
        proof {
            assert(0u8 & 0x0f == 0u8) by (bit_vector);
        }
        bytes.push(byte);
        k += 1;
    }
    assert(bytes@ == packed(alpha@));
    bytes
}

/// Unpacking the packed form of 4-bit alpha values gives them back.
pub proof fn lemma_unpack_pack(alpha: Seq<u8>)
    requires
        all_nibbles(alpha),
    ensures
        unpacked(packed(alpha), alpha.len()) == alpha,
{
    let p = packed(alpha);
    assert(alpha.len() <= 2 * p.len());
    assert forall|i: int| 0 <= i < alpha.len() implies #[trigger] unpacked(p, alpha.len())[i]
        == alpha[i] by {
        let j = i / 2;
        lemma_nibble_pair_bits(alpha_or_zero(alpha, 2 * j), alpha_or_zero(alpha, 2 * j + 1));
        lemma_low_nibble_small(alpha[i]);
    }
    assert(unpacked(p, alpha.len()) =~= alpha);
}

/// Every unpacked pixel is a 4-bit value.
pub proof fn lemma_unpacked_nibbles(bytes: Seq<u8>, n: nat)
    ensures
        all_nibbles(unpacked(bytes, n)),
{
    assert forall|i: int| 0 <= i < unpacked(bytes, n).len() implies #[trigger] unpacked(
        bytes,
        n,
    )[i] < 16 by {
        let b = bytes[i / 2];
        assert(b >> 4u8 < 16) by (bit_vector);
        assert(b & 0x0f < 16) by (bit_vector);
    }
}

/// The padding of an odd pixel count unpacks as zero: every nibble of the
/// packed bytes past the last pixel is 0.
pub proof fn lemma_packed_padding(alpha: Seq<u8>, i: int)
    requires
        alpha.len() <= i < 2 * packed(alpha).len(),
    ensures
        unpacked_pixel(packed(alpha), i) == 0,
{
    let j = i / 2;
    lemma_nibble_pair_bits(alpha_or_zero(alpha, 2 * j), alpha_or_zero(alpha, 2 * j + 1));
    assert(i % 2 == 1 && i == 2 * j + 1);
    lemma_low_nibble_small(0);
}

} // verus!
