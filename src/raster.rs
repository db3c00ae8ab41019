//! The decoded image: a grid of RGBA pixels held as a flat run of 8-bit
//! channel samples in raster order, channel by channel within each pixel.

use vstd::prelude::*;

verus! {

/// Channel samples per pixel: red, green, blue and alpha.
pub const CHANNELS: u32 = 4;

/// An RGBA raster whose sample count is always `width * height * 4`.
pub struct RasterBuffer {
    width: u32,
    height: u32,
    samples: Vec<u8>,
}

impl View for RasterBuffer {
    type V = Seq<u8>;

    /// The channel samples in raster order.
    closed spec fn view(&self) -> Seq<u8> {
        self.samples@
    }
}

impl RasterBuffer {
    /// Width in pixels.
    pub closed spec fn spec_width(&self) -> nat {
        self.width as nat
    }

    /// Height in pixels.
    pub closed spec fn spec_height(&self) -> nat {
        self.height as nat
    }

    /// The sample count matches the dimensions.
    pub open spec fn wf(&self) -> bool {
        self@.len() == self.spec_width() * self.spec_height() * (CHANNELS as nat)
    }

    /// Builds a raster from its dimensions and its samples in raster order;
    /// `None` where the sample count is not `width * height * 4`.
    pub fn from_raw(width: u32, height: u32, samples: Vec<u8>) -> (r: Option<RasterBuffer>)
        ensures
            r is Some <==> samples@.len() == width * height * (CHANNELS as nat),
            r matches Some(buf) ==> buf.wf() && buf@ == samples@ && buf.spec_width() == width
                && buf.spec_height() == height,
    {
        let w: u128 = width as u128;
        let h: u128 = height as u128;
        assert(w * h <= 0xffff_ffff_ffff_ffff_ffff_ffff) by (nonlinear_arith)
            requires
                w <= 0xffff_ffff,
                h <= 0xffff_ffff,
        ;
        let needed: u128 = w * h * (CHANNELS as u128);
        if samples.len() as u128 == needed {
            Some(RasterBuffer { width, height, samples })
        } else {
            None
        }
    }

    /// Width in pixels.
    pub fn width(&self) -> (r: u32)
        ensures
            r == self.spec_width(),
    {
        self.width
    }

    /// Height in pixels.
    pub fn height(&self) -> (r: u32)
        ensures
            r == self.spec_height(),
    {
        self.height
    }

    /// The number of channel samples.
    pub fn sample_count(&self) -> (r: usize)
        ensures
            r == self@.len(),
    {
        self.samples.len()
    }

    /// The channel sample at position `i` in raster order.
    pub fn sample(&self, i: usize) -> (r: u8)
        requires
            i < self@.len(),
        ensures
            r == self@[i as int],
    {
        self.samples[i]
    }

    /// Replaces the channel sample at position `i`; the dimensions stay.
    pub fn set_sample(&mut self, i: usize, v: u8)
        requires
            i < old(self)@.len(),
        ensures
            final(self)@ == old(self)@.update(i as int, v),
            final(self).spec_width() == old(self).spec_width(),
            final(self).spec_height() == old(self).spec_height(),
    {
        self.samples.set(i, v);
    }

    /// Gives the samples back, in raster order.
    pub fn into_raw(self) -> (r: Vec<u8>)
        ensures
            r@ == self@,
    {
        self.samples
    }
}

} // verus!
