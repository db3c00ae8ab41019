//! Lays an encoder's bitstream over the low bits of a raster's samples.

use vstd::prelude::*;
use crate::bits::{bitstream_of, embed, lemma_bit_at_is_bit, to_bitstream};
use crate::codec::PngSecretEncoder;
use crate::raster::RasterBuffer;

verus! {

/// Why a message could not be written into an image.
#[derive(Debug, Clone, Copy, PartialEq, Eq)]
pub enum WriteError {
    /// The bitstream has more bits than the raster has samples.
    CapacityViolation,
    /// The modified image could not be stored.
    PersistFailure,
}

/// Writes one bit of the message into the least-significant bit of each
/// channel sample of its raster.
pub struct PngSecretWriter<E: PngSecretEncoder> {
    pub buffer: RasterBuffer,
    pub encoder: E,
}

impl<E: PngSecretEncoder> PngSecretWriter<E> {
    pub fn new(img: RasterBuffer, encoder: E) -> (r: Self)
        ensures
            r.buffer == img,
            r.encoder == encoder,
    {
        PngSecretWriter { buffer: img, encoder }
    }

    /// How many bytes the raster can carry, the closing zero byte included.
    pub fn capacity(&self) -> (r: usize)
        ensures
            r == self.buffer@.len() / 8,
    {
        self.buffer.sample_count() / 8
    }

    /// Lays the bitstream of the encoder's bytes over the samples in raster
    /// order, one bit per sample, and leaves the samples after it untouched.
    /// Where the bitstream is longer than the sample count nothing is
    /// written and the capacity is reported as violated.
    pub fn write_image(&mut self) -> (r: Result<(), WriteError>)
        ensures
            final(self).encoder == old(self).encoder,
            final(self).buffer.spec_width() == old(self).buffer.spec_width(),
            final(self).buffer.spec_height() == old(self).buffer.spec_height(),
            8 * old(self).encoder.text_view().len() > old(self).buffer@.len() ==> r == Err::<
                (),
                WriteError,
            >(WriteError::CapacityViolation) && final(self).buffer@ == old(self).buffer@,
            8 * old(self).encoder.text_view().len() <= old(self).buffer@.len() ==> r == Ok::<
                (),
                WriteError,
            >(()) && final(self).buffer@ == embed(
                old(self).buffer@,
                bitstream_of(old(self).encoder.text_view()),
            ),
    {
        let text = self.encoder.get_text();
        if text.len() > self.buffer.sample_count() / 8 {
            return Err(WriteError::CapacityViolation);
        }
        let bits = to_bitstream(&text);
        let ghost orig = self.buffer@;
        let mut i: usize = 0;
        while i < bits.len()
            invariant
                i <= bits@.len(),
                bits@ == bitstream_of(text@),
                bits@.len() <= orig.len(),
                self.buffer@.len() == orig.len(),
                self.encoder == old(self).encoder,
                self.buffer.spec_width() == old(self).buffer.spec_width(),
                self.buffer.spec_height() == old(self).buffer.spec_height(),
                forall|j: int| 0 <= j < i ==> self.buffer@[j] == embed(orig, bits@)[j],
                forall|j: int| i <= j < orig.len() ==> self.buffer@[j] == orig[j],
            decreases bits@.len() - i,
        {
            let s = self.buffer.sample(i);
            let bit = bits[i];
            proof {
                lemma_bit_at_is_bit(text@[i as int / 8], i as int % 8);
            }
            self.buffer.set_sample(i, s - s % 2 + bit);
            i = i + 1;
        }
        assert(self.buffer@ =~= embed(orig, bits@));
        Ok(())
    }
}

} // verus!
