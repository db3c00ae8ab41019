//! Bit-level model of the embedding: how a byte splits into bits, how a
//! bitstream is laid over sample low bits, and how bytes are read back.

use vstd::arithmetic::power2::{lemma2_to64, lemma_pow2_unfold, pow2};
use vstd::prelude::*;

verus! {

/// Bit `i` of `b`, counting from the most significant bit (`i == 0`) down to
/// the least significant one (`i == 7`).
pub open spec fn bit_at(b: u8, i: int) -> u8 {
    (b >> ((7 - i) as u8)) & 1u8
}

/// The eight bits of `b`, most significant first.
pub open spec fn bits_of_byte(b: u8) -> Seq<u8> {
    Seq::new(8, |i: int| bit_at(b, i))
}

/// Every byte of `text` split into eight bits, most significant first.
pub open spec fn bitstream_of(text: Seq<u8>) -> Seq<u8> {
    Seq::new(8 * text.len(), |i: int| bit_at(text[i / 8], i % 8))
}

/// `samples` with the low bit of sample `i` replaced by `bits[i]`, for each
/// `i` that `bits` reaches; the other samples are kept as they are.
pub open spec fn embed(samples: Seq<u8>, bits: Seq<u8>) -> Seq<u8> {
    Seq::new(
        samples.len(),
        |i: int|
            if i < bits.len() {
                (samples[i] - samples[i] % 2 + bits[i]) as u8
            } else {
                samples[i]
            },
    )
}

/// The number whose binary digits, most significant first, are the low bits
/// of the `n` samples starting at `start`.
pub open spec fn lsb_value(samples: Seq<u8>, start: int, n: nat) -> int
    decreases n,
{
    if n == 0 {
        0
    } else {
        2 * lsb_value(samples, start, (n - 1) as nat) + samples[start + n - 1] % 2
    }
}

/// The byte carried by the `k`-th run of eight samples.
pub open spec fn group_value(samples: Seq<u8>, k: int) -> int {
    lsb_value(samples, 8 * k, 8)
}

/// Run `k` is the first run of eight samples that carries a zero byte.
pub open spec fn is_sentinel_group(samples: Seq<u8>, k: int) -> bool {
    &&& 0 <= k
    &&& 8 * k + 8 <= samples.len()
    &&& group_value(samples, k) == 0
    &&& forall|j: int| 0 <= j < k ==> group_value(samples, j) != 0
}

/// The bytes carried before the first zero byte, or `None` where the samples
/// run out before a zero byte is assembled.
pub open spec fn extracted(samples: Seq<u8>) -> Option<Seq<u8>> {
    if exists|k: int| is_sentinel_group(samples, k) {
        let k = choose|k: int| is_sentinel_group(samples, k);
        Some(Seq::new(k as nat, |j: int| group_value(samples, j) as u8))
    } else {
        None
    }
}

/// Splits one byte into its eight bits, most significant first; each bit is
/// kept in a `u8` so that it can be added to a sample directly.
pub fn byte_to_8bits(byte: &u8) -> (r: [u8; 8])
    ensures
        r@ == bits_of_byte(*byte),
{
    let b = *byte;
    let mut x: u8 = b;
    let mut bits: [u8; 8] = [0; 8];
    let mut i: usize = 0;
    assert(b >> 0u8 == b) by (bit_vector);
    while i < 8
        invariant
            i <= 8,
            bits@.len() == 8,
            x == b >> (i as u8),
            forall|j: int| 8 - i <= j < 8 ==> bits@[j] == bit_at(b, j),
        decreases 8 - i,
    {
        let iu: u8 = i as u8;
        assert((b >> iu) % 2 == (b >> iu) & 1u8 && (b >> iu) / 2 == b >> ((iu + 1) as u8))
            by (bit_vector)
            requires
                iu < 8,
        ;
        bits[7 - i] = x % 2;
        x = x / 2;
        i = i + 1;
    }
    assert(bits@ =~= bits_of_byte(b));
    bits
}

/// Splits every byte of `text` into eight bits, most significant first, and
/// returns all of them in order.
pub fn to_bitstream(text: &Vec<u8>) -> (r: Vec<u8>)
    requires
        8 * text@.len() <= usize::MAX,
    ensures
        r@ == bitstream_of(text@),
{
    let mut out: Vec<u8> = Vec::new();
    let mut i: usize = 0;
    while i < text.len()
        invariant
            i <= text@.len(),
            8 * text@.len() <= usize::MAX,
            out@.len() == 8 * i,
            forall|j: int| 0 <= j < 8 * i ==> out@[j] == bit_at(text@[j / 8], j % 8),
        decreases text@.len() - i,
    {
        let bits = byte_to_8bits(&text[i]);
        let mut k: usize = 0;
        while k < 8
            invariant
                i < text@.len(),
                k <= 8,
                bits@ == bits_of_byte(text@[i as int]),
                out@.len() == 8 * i + k,
                forall|j: int| 0 <= j < 8 * i + k ==> out@[j] == bit_at(text@[j / 8], j % 8),
            decreases 8 - k,
        {
            out.push(bits[k]);
            k = k + 1;
        }
        i = i + 1;
    }
    assert(out@ =~= bitstream_of(text@));
    out
}

/// A bit is zero or one.
pub proof fn lemma_bit_at_is_bit(b: u8, i: int)
    ensures
        bit_at(b, i) <= 1,
{
    let n: u8 = (7 - i) as u8;
    assert((b >> n) & 1u8 <= 1u8) by (bit_vector);
}

/// A byte is the sum of its bits, each weighted by its place.
pub proof fn lemma_byte_from_bits(b: u8)
    ensures
        b as int == 128 * bit_at(b, 0) + 64 * bit_at(b, 1) + 32 * bit_at(b, 2) + 16 * bit_at(b, 3)
            + 8 * bit_at(b, 4) + 4 * bit_at(b, 5) + 2 * bit_at(b, 6) + bit_at(b, 7),
{
    assert(b as int == 128 * ((b >> 7u8) & 1u8) + 64 * ((b >> 6u8) & 1u8) + 32 * ((b >> 5u8)
        & 1u8) + 16 * ((b >> 4u8) & 1u8) + 8 * ((b >> 3u8) & 1u8) + 4 * ((b >> 2u8) & 1u8) + 2
        * ((b >> 1u8) & 1u8) + ((b >> 0u8) & 1u8)) by (bit_vector);
}

/// After embedding the bitstream of `text`, the `j`-th run of eight samples
/// carries `text[j]`.
pub proof fn lemma_group_of_embedded(samples: Seq<u8>, text: Seq<u8>, j: int)
    requires
        8 * text.len() <= samples.len(),
        0 <= j < text.len(),
    ensures
        group_value(embed(samples, bitstream_of(text)), j) == text[j] as int,
{
    let bits = bitstream_of(text);
    let e = embed(samples, bits);
    let b = text[j];
    assert forall|i: int| 0 <= i < 8 implies #[trigger] e[8 * j + i] % 2 == bit_at(b, i) as int by {
        assert((8 * j + i) / 8 == j);
        assert((8 * j + i) % 8 == i);
        lemma_bit_at_is_bit(b, i);
        let x = samples[8 * j + i];
        assert((x - x % 2 + bit_at(b, i)) % 2 == bit_at(b, i) as int);
    }
    reveal_with_fuel(lsb_value, 9);
    assert(e[8 * j + 0] % 2 == bit_at(b, 0) as int);
    assert(e[8 * j + 1] % 2 == bit_at(b, 1) as int);
    assert(e[8 * j + 2] % 2 == bit_at(b, 2) as int);
    assert(e[8 * j + 3] % 2 == bit_at(b, 3) as int);
    assert(e[8 * j + 4] % 2 == bit_at(b, 4) as int);
    assert(e[8 * j + 5] % 2 == bit_at(b, 5) as int);
    assert(e[8 * j + 6] % 2 == bit_at(b, 6) as int);
    assert(e[8 * j + 7] % 2 == bit_at(b, 7) as int);
    lemma_byte_from_bits(b);
}

/// `n` low bits make a number below `2^n`.
pub proof fn lemma_lsb_value_bound(samples: Seq<u8>, start: int, n: nat)
    ensures
        0 <= lsb_value(samples, start, n) < pow2(n),
    decreases n,
{
    if n == 0 {
        lemma2_to64();
    } else {
        lemma_lsb_value_bound(samples, start, (n - 1) as nat);
        lemma_pow2_unfold(n);
    }
}

/// There is at most one first zero run.
pub proof fn lemma_sentinel_unique(samples: Seq<u8>, k1: int, k2: int)
    requires
        is_sentinel_group(samples, k1),
        is_sentinel_group(samples, k2),
    ensures
        k1 == k2,
{
    if k1 < k2 {
        assert(group_value(samples, k1) != 0);
    } else if k2 < k1 {
        assert(group_value(samples, k2) != 0);
    }
}

/// Where run `k` is the first zero run, the bytes before it are what is
/// extracted.
pub proof fn lemma_extracted_at(samples: Seq<u8>, k: int)
    requires
        is_sentinel_group(samples, k),
    ensures
        extracted(samples) == Some(Seq::new(k as nat, |j: int| group_value(samples, j) as u8)),
{
    let c = choose|c: int| is_sentinel_group(samples, c);
    lemma_sentinel_unique(samples, c, k);
}

/// Embedding the bitstream of `text`, where `text` has its first zero byte at
/// position `k`, makes the samples carry exactly the bytes before it.
pub proof fn lemma_extracted_of_embedded(samples: Seq<u8>, text: Seq<u8>, k: int)
    requires
        8 * text.len() <= samples.len(),
        0 <= k < text.len(),
        text[k] == 0,
        forall|j: int| 0 <= j < k ==> text[j] != 0,
    ensures
        extracted(embed(samples, bitstream_of(text))) == Some(text.subrange(0, k)),
{
    let e = embed(samples, bitstream_of(text));
    assert forall|j: int| 0 <= j < text.len() implies #[trigger] group_value(e, j)
        == text[j] as int by {
        lemma_group_of_embedded(samples, text, j);
    }
    assert(is_sentinel_group(e, k));
    lemma_extracted_at(e, k);
    assert(Seq::new(k as nat, |j: int| group_value(e, j) as u8) =~= text.subrange(0, k));
}

} // verus!
