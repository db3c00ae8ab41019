//! What is embedded for a message, and what is handed back for the bytes
//! that were extracted.

use vstd::prelude::*;
use vstd::slice::slice_to_vec;

verus! {

/// A message followed by the single zero byte that ends it.
pub open spec fn sentinel_framed(message: Seq<u8>) -> Seq<u8> {
    message.push(0u8)
}

/// Turns a message into the bytes that are laid into the image.
pub trait PngSecretEncoder {
    /// The bytes that the encoder currently holds for embedding.
    spec fn text_view(&self) -> Seq<u8>;

    /// The bytes that this encoder holds after it has encoded `message`.
    spec fn framing(&self, message: Seq<u8>) -> Seq<u8>;

    /// Takes in a message; the encoder keeps what is to be embedded.
    fn encode(&mut self, seq: &[u8])
        ensures
            final(self).text_view() == old(self).framing(seq@),
    ;

    /// The bytes to embed.
    fn get_text(&self) -> (r: Vec<u8>)
        ensures
            r@ == self.text_view(),
    ;
}

/// Turns the bytes read from an image back into a message.
pub trait PngSecretDecoder {
    /// The message that this decoder gives back for the extracted bytes `seq`.
    spec fn decoded(&self, seq: Seq<u8>) -> Seq<u8>;

    fn decode(&mut self, seq: Vec<u8>) -> (r: Vec<u8>)
        ensures
            r@ == old(self).decoded(seq@),
    ;
}

/// Embeds the message as it is, followed by one zero byte.
pub struct NaiveEncoder {
    text: Vec<u8>,
}

/// Hands the extracted bytes back unchanged.
pub struct NaiveDecoder {}

impl PngSecretEncoder for NaiveEncoder {
    closed spec fn text_view(&self) -> Seq<u8> {
        self.text@
    }

    open spec fn framing(&self, message: Seq<u8>) -> Seq<u8> {
        sentinel_framed(message)
    }

    fn encode(&mut self, seq: &[u8]) {
        self.text = slice_to_vec(seq);
        self.text.push(0);
    }

    fn get_text(&self) -> (r: Vec<u8>) {
        self.text.clone()
    }
}

impl NaiveEncoder {
    /// An encoder that holds nothing yet.
    pub fn new() -> (r: Self)
        ensures
            r.text_view() == Seq::<u8>::empty(),
    {
        NaiveEncoder { text: Vec::new() }
    }
}

impl PngSecretDecoder for NaiveDecoder {
    open spec fn decoded(&self, seq: Seq<u8>) -> Seq<u8> {
        seq
    }

    fn decode(&mut self, seq: Vec<u8>) -> (r: Vec<u8>) {
        seq
    }
}

impl NaiveDecoder {
    pub fn new() -> (r: Self) {
        NaiveDecoder {  }
    }
}

} // verus!
