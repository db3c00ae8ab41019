//! Reads bytes back out of the low bits of a raster's samples.

use vstd::arithmetic::power2::{lemma2_to64, pow2};
use vstd::prelude::*;
use crate::bits::{
    extracted, group_value, is_sentinel_group, lemma_extracted_at, lemma_lsb_value_bound,
    lsb_value,
};
use crate::codec::PngSecretDecoder;
use crate::raster::RasterBuffer;

verus! {

/// Why no message could be read from an image.
#[derive(Debug, Clone, Copy, PartialEq, Eq)]
pub enum ReaderError {
    /// The samples ran out before a zero byte was assembled.
    NoEmbeddedMessage,
}

/// Reassembles bytes from every eight consecutive sample low bits of its
/// raster and hands them to its decoder.
pub struct PngSecretReader<D: PngSecretDecoder> {
    pub buffer: RasterBuffer,
    pub decoder: D,
}

impl<D: PngSecretDecoder> PngSecretReader<D> {
    pub fn new(img: RasterBuffer, decoder: D) -> (r: Self)
        ensures
            r.buffer == img,
            r.decoder == decoder,
    {
        PngSecretReader { buffer: img, decoder }
    }

    /// Reads bytes, eight sample low bits each, most significant first, up
    /// to the first zero byte, and returns what the decoder makes of them;
    /// fails where no zero byte is assembled before the samples run out.
    pub fn read_image(&mut self) -> (r: Result<Vec<u8>, ReaderError>)
        ensures
            final(self).buffer == old(self).buffer,
            match extracted(old(self).buffer@) {
                Some(m) => r is Ok && r->Ok_0@ == old(self).decoder.decoded(m),
                None => r == Err::<Vec<u8>, ReaderError>(ReaderError::NoEmbeddedMessage),
            },
    {
        let ghost s = self.buffer@;
        let n = self.buffer.sample_count();
        let mut message: Vec<u8> = Vec::new();
        let mut count: usize = 0;
        let mut sum: u8 = 0;
        let mut i: usize = 0;
        while i < n
            invariant
                n == s.len(),
                s == self.buffer@,
                self.buffer == old(self).buffer,
                self.decoder == old(self).decoder,
                i <= n,
                count < 8,
                i == 8 * message@.len() + count,
                sum as int == lsb_value(s, 8 * (message@.len() as int), count as nat),
                forall|j: int|
                    0 <= j < message@.len() ==> message@[j] as int == group_value(s, j)
                        && group_value(s, j) != 0,
            decreases n - i,
        {
            let v = self.buffer.sample(i);
            proof {
                lemma_lsb_value_bound(s, 8 * (message@.len() as int), count as nat);
                lemma2_to64();
                assert(pow2(count as nat) <= 128) by {
                    assert(count <= 7);
                }
            }
            sum = sum * 2 + v % 2;
            count = count + 1;
            i = i + 1;
            if count == 8 {
                let ghost k = message@.len() as int;
                if sum == 0 {
                    proof {
                        assert(is_sentinel_group(s, k));
                        lemma_extracted_at(s, k);
                        assert(message@ =~= Seq::new(k as nat, |j: int| group_value(s, j) as u8));
                    }
                    return Ok(self.decoder.decode(message));
                }
                message.push(sum);
                count = 0;
                sum = 0;
            }
        }
        proof {
            if exists|k: int| is_sentinel_group(s, k) {
                let k = choose|k: int| is_sentinel_group(s, k);
                assert(k < message@.len());
                assert(group_value(s, k) != 0);
            }
        }
        Err(ReaderError::NoEmbeddedMessage)
    }
}

} // verus!
