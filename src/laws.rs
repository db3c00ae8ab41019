//! Laws that tie the writer, the reader and the encoder together, stated over
//! the models their contracts use: `PngSecretWriter::write_image` turns
//! samples `s` into `embed(s, bitstream_of(text))`, `NaiveEncoder` holds
//! `sentinel_framed(message)`, and `PngSecretReader::read_image` returns what
//! its decoder makes of `extracted(s)`.

use vstd::prelude::*;
use crate::bits::{
    bit_at, bitstream_of, embed, extracted, lemma_bit_at_is_bit, lemma_extracted_of_embedded,
};
use crate::codec::sentinel_framed;

verus! {

/// Round trip: a message with no zero byte, written into samples that have
/// room for its bitstream, is read back unchanged.
pub proof fn lemma_round_trip(samples: Seq<u8>, message: Seq<u8>)
    requires
        forall|i: int| 0 <= i < message.len() ==> message[i] != 0,
        8 * (message.len() + 1) <= samples.len(),
    ensures
        extracted(embed(samples, bitstream_of(sentinel_framed(message)))) == Some(message),
{
    let text = sentinel_framed(message);
    lemma_extracted_of_embedded(samples, text, message.len() as int);
    assert(text.subrange(0, message.len() as int) =~= message);
}

/// The bitstream of a framed message has eight bits for each message byte and
/// eight more, all zero, for the closing byte; the empty message gives
/// exactly eight zero bits.
pub proof fn lemma_sentinel_bits(message: Seq<u8>)
    ensures
        bitstream_of(sentinel_framed(message)).len() == 8 * (message.len() + 1),
        forall|i: int|
            8 * message.len() <= i < 8 * (message.len() + 1) ==> #[trigger] bitstream_of(
                sentinel_framed(message),
            )[i] == 0,
{
    let bits = bitstream_of(sentinel_framed(message));
    assert forall|i: int| 8 * message.len() <= i < 8 * (message.len() + 1) implies #[trigger] bits[i]
        == 0 by {
        assert(i / 8 == message.len());
        let n: u8 = (7 - i % 8) as u8;
        assert((0u8 >> n) & 1u8 == 0u8) by (bit_vector);
        assert(bit_at(0u8, i % 8) == 0);
    }
}

/// Writing the same bytes twice leaves the samples as writing them once.
pub proof fn lemma_write_idempotent(samples: Seq<u8>, text: Seq<u8>)
    ensures
        embed(embed(samples, bitstream_of(text)), bitstream_of(text)) == embed(
            samples,
            bitstream_of(text),
        ),
{
    let bits = bitstream_of(text);
    let once = embed(samples, bits);
    let twice = embed(once, bits);
    assert forall|i: int| 0 <= i < samples.len() implies #[trigger] twice[i] == once[i] by {
        if i < bits.len() {
            lemma_bit_at_is_bit(text[i / 8], i % 8);
        }
    }
    assert(twice =~= once);
}

/// A bitstream exactly as long as the samples puts its bits into every
/// sample's low bit.
pub proof fn lemma_full_capacity(samples: Seq<u8>, text: Seq<u8>)
    requires
        8 * text.len() == samples.len(),
    ensures
        forall|i: int|
            0 <= i < samples.len() ==> #[trigger] embed(samples, bitstream_of(text))[i] % 2
                == bitstream_of(text)[i] as int,
{
    let bits = bitstream_of(text);
    assert forall|i: int| 0 <= i < samples.len() implies #[trigger] embed(samples, bits)[i] % 2
        == bits[i] as int by {
        lemma_bit_at_is_bit(text[i / 8], i % 8);
    }
}

/// A message whose first zero byte stands at position `k` is read back as
/// its first `k` bytes only: the zero byte ends it as the closing byte would.
pub proof fn lemma_early_termination(samples: Seq<u8>, message: Seq<u8>, k: int)
    requires
        0 <= k < message.len(),
        message[k] == 0,
        forall|j: int| 0 <= j < k ==> message[j] != 0,
        8 * (message.len() + 1) <= samples.len(),
    ensures
        extracted(embed(samples, bitstream_of(sentinel_framed(message)))) == Some(
            message.subrange(0, k),
        ),
{
    let text = sentinel_framed(message);
    lemma_extracted_of_embedded(samples, text, k);
    assert(text.subrange(0, k) =~= message.subrange(0, k));
}

} // verus!
