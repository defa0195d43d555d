//! The software H.264 decoder, OpenH264, and the BGRA frames it yields.

use openh264::decoder::Decoder;
use openh264::formats::YUVSource;
use vstd::prelude::*;

use crate::backend::DecodeBackendKind;
use crate::pixel::{swap_red_blue, swapped_byte};

verus! {

/// Declares OpenH264's decoder, which holds the decoding state of a stream.
#[verifier::external_type_specification]
#[verifier::external_body]
pub struct ExOpenH264Decoder(Decoder);

/// Calls `openh264::decoder::Decoder::new`, which builds a decoder from
/// the bundled OpenH264 sources; `None` when that reports an error.
/// Nothing is claimed of when it fails.
#[verifier::external_body]
fn new_openh264_decoder() -> (r: Option<Decoder>) {
    Decoder::new().ok()
}

/// Calls `Decoder::decode` on `packet` and, when it yields a picture,
/// writes it with `write_rgba8` into a buffer of `rgba8_len` bytes, which
/// OpenH264 defines as width times height times four.  The picture depends
/// on what the decoder was fed before, so only its size is claimed.
#[verifier::external_body]
fn decode_to_rgba(decoder: &mut Decoder, packet: &[u8]) -> (r: Option<(usize, usize, Vec<u8>)>)
    ensures
        r matches Some((width, height, rgba)) ==> rgba@.len() == width * height * 4,
{
    match decoder.decode(packet) {
        Ok(Some(yuv)) => {
            let (width, height) = yuv.dimensions();
            let mut rgba = vec![0u8; yuv.rgba8_len()];
            yuv.write_rgba8(&mut rgba);
            Some((width, height, rgba))
        },
        _ => None,
    }
}

/// A decoded picture, four bytes per pixel in blue, green, red, alpha order.
pub struct DecodedFrame {
    pub width: usize,
    pub height: usize,
    pub bgra: Vec<u8>,
}

impl DecodedFrame {
    pub fn empty() -> (r: DecodedFrame)
        ensures
            r.width == 0,
            r.height == 0,
            r.bgra@.len() == 0,
    {
        DecodedFrame { width: 0, height: 0, bgra: Vec::new() }
    }
}

/// The frame of a `width` by `height` RGBA picture: red and blue swapped in
/// every pixel.
pub fn frame_from_rgba(width: usize, height: usize, rgba: Vec<u8>) -> (r: DecodedFrame)
    ensures
        r.width == width,
        r.height == height,
        r.bgra@.len() == rgba@.len(),
        forall|k: int| 0 <= k < rgba@.len() ==> #[trigger] r.bgra@[k] == swapped_byte(rgba@, k),
{
    let mut bgra = rgba;
    swap_red_blue(bgra.as_mut_slice());
    DecodedFrame { width, height, bgra }
}

/// A stream's software decoder.
pub struct OpenH264Decoder {
    decoder: Decoder,
}

impl OpenH264Decoder {
    /// A new decoder, or `None` when OpenH264 could not be set up.
    pub fn new() -> (r: Option<OpenH264Decoder>) {
        match new_openh264_decoder() {
            Some(decoder) => Some(OpenH264Decoder { decoder }),
            None => None,
        }
    }

    pub fn backend_kind(&self) -> (r: DecodeBackendKind)
        ensures
            r == DecodeBackendKind::OpenH264,
    {
        DecodeBackendKind::OpenH264
    }

    /// Feeds a chunk in Annex B form to the decoder.  When a picture comes
    /// out, `frame` becomes it, as BGRA of its width and height, and the
    /// result is `true`; otherwise `frame` is left as it was.
    pub fn decode_into(&mut self, packet: &[u8], frame: &mut DecodedFrame) -> (produced: bool)
        ensures
            produced ==> final(frame).bgra@.len() == final(frame).width * final(frame).height * 4,
            !produced ==> final(frame).width == old(frame).width && final(frame).height == old(
                frame,
            ).height && final(frame).bgra@ == old(frame).bgra@,
    {
        match decode_to_rgba(&mut self.decoder, packet) {
            Some((width, height, rgba)) => {
                *frame = frame_from_rgba(width, height, rgba);
                true
            },
            None => false,
        }
    }
}

} // verus!
