//! JPEG images: decoding and encoding in memory, through the
//! `jpeg_decoder` and `jpeg_encoder` crates. Reading and writing files
//! is the caller's business.

use vstd::prelude::*;

use super::{Error, Frame, Image};
use crate::traits::{FramedResource, Resource};

verus! {

/// What the JPEG decoder yields for a byte sequence: the pixel bytes and
/// the dimensions, or nothing when it rejects the input. The decoder is
/// built with its platform-independent feature, so its machine-specific
/// kernels are compiled out and decoding is a function of the bytes
/// alone.
pub uninterp spec fn jpeg_decoded(bytes: Seq<u8>) -> Option<(Seq<u8>, u16, u16)>;

/// Walks the marker segments the way the decoder does — extraneous bytes
/// before a marker skipped, fill bytes and byte stuffing honoured,
/// length-prefixed segments stepped over, restart and temporary markers
/// passed by — and yields the component count of the first frame header
/// reached; `None` when the walk ends (end of image, a scan before any
/// frame, a stray start marker, a truncated segment) without one.
pub open spec fn sof_scan(b: Seq<u8>, i: int) -> Option<u8>
    decreases b.len() - i,
{
    if i < 0 || i + 1 >= b.len() {
        None
    } else if b[i] != 0xFF {
        sof_scan(b, i + 1)
    } else if b[i + 1] == 0xFF {
        sof_scan(b, i + 1)
    } else if b[i + 1] == 0x00 {
        sof_scan(b, i + 2)
    } else {
        let m = b[i + 1];
        if 0xC0 <= m && m <= 0xCF && m != 0xC4 && m != 0xC8 && m != 0xCC {
            if i + 9 < b.len() {
                Some(b[i + 9])
            } else {
                None
            }
        } else if m == 0x01 || (0xD0 <= m && m <= 0xD7) {
            sof_scan(b, i + 2)
        } else if m == 0xD8 || m == 0xD9 || m == 0xDA {
            None
        } else if i + 3 < b.len() {
            let seg = b[i + 2] * 256 + b[i + 3];
            if seg >= 2 && i + 2 + seg <= b.len() {
                sof_scan(b, i + 2 + seg)
            } else {
                None
            }
        } else {
            None
        }
    }
}

/// The component count of the first frame header of a byte sequence that
/// opens with the start-of-image marker.
pub open spec fn sof_components(b: Seq<u8>) -> Option<u8> {
    if b.len() >= 2 && b[0] == 0xFF && b[1] == 0xD8 {
        sof_scan(b, 2)
    } else {
        None
    }
}

/// Whether the bytes declare a frame the decoder supports: a frame
/// header is reachable and its component count is one, three or four.
/// Everything else is rejected before the decoder is handed the bytes.
pub open spec fn sof_ok(b: Seq<u8>) -> bool {
    match sof_components(b) {
        Some(c) => c == 1 || c == 3 || c == 4,
        None => false,
    }
}

/// Runs [`sof_scan`] over the bytes.
fn sof_scan_x(b: &Vec<u8>, i: usize) -> (r: Option<u8>)
    requires
        i <= b@.len(),
    ensures
        r == sof_scan(b@, i as int),
    decreases b@.len() - i,
{
    if b.len() - i < 2 {
        return None;
    }
    if b[i] != 0xFF {
        return sof_scan_x(b, i + 1);
    }
    if b[i + 1] == 0xFF {
        return sof_scan_x(b, i + 1);
    }
    if b[i + 1] == 0x00 {
        return sof_scan_x(b, i + 2);
    }
    let m = b[i + 1];
    if 0xC0 <= m && m <= 0xCF && m != 0xC4 && m != 0xC8 && m != 0xCC {
        if b.len() - i > 9 {
            Some(b[i + 9])
        } else {
            None
        }
    } else if m == 0x01 || (0xD0 <= m && m <= 0xD7) {
        sof_scan_x(b, i + 2)
    } else if m == 0xD8 || m == 0xD9 || m == 0xDA {
        None
    } else if b.len() - i > 3 {
        let seg: usize = (b[i + 2] as usize) * 256 + (b[i + 3] as usize);
        if seg >= 2 && b.len() - (i + 2) >= seg {
            sof_scan_x(b, i + 2 + seg)
        } else {
            None
        }
    } else {
        None
    }
}

/// Whether the bytes pass the frame-header pre-check, per [`sof_ok`].
fn sof_check(b: &Vec<u8>) -> (r: bool)
    ensures
        r == sof_ok(b@),
{
    if b.len() >= 2 && b[0] == 0xFF && b[1] == 0xD8 {
        match sof_scan_x(b, 2) {
            Some(c) => c == 1 || c == 3 || c == 4,
            None => false,
        }
    } else {
        false
    }
}

/// Relies on `jpeg_decoder::Decoder`: `decode` yields the pixel bytes,
/// and after a successful decode `info` reports the image's dimensions;
/// both depend on the input bytes alone. The caller has checked the
/// frame header ([`sof_ok`]), so the component count is one the decoder
/// accepts, keeping its color-conversion and pixel-format dispatch away
/// from their unreachable arms.
#[verifier::external_body]
fn decode(bytes: &Vec<u8>) -> (r: Result<(Vec<u8>, u16, u16), Error>)
    requires
        sof_ok(bytes@),
    ensures
        match jpeg_decoded(bytes@) {
            Some((px, w, h)) => r is Ok && r->Ok_0.0@ == px && r->Ok_0.1 == w && r->Ok_0.2 == h,
            None => r is Err,
        },
{
    let mut d = jpeg_decoder::Decoder::new(bytes.as_slice());
    let data = match d.decode() {
        Ok(v) => v,
        Err(jpeg_decoder::Error::Io(_)) => return Err(Error::IO),
        Err(jpeg_decoder::Error::Format(_)) => return Err(Error::Format),
        Err(jpeg_decoder::Error::Unsupported(_)) => return Err(Error::UnsupportedJPEGFeature),
        Err(jpeg_decoder::Error::Internal(_)) => return Err(Error::Internal),
    };
    match d.info() {
        Some(i) => Ok((data, i.width, i.height)),
        None => Err(Error::Internal),
    }
}

/// What the JPEG encoder writes for a frame: a function of the pixel
/// bytes, the dimensions and the quality alone.
pub uninterp spec fn jpeg_encoded(data: Seq<u8>, width: u16, height: u16, quality: u8) -> Seq<u8>;

/// Relies on `jpeg_encoder::Encoder`: encoding RGB data to a byte buffer
/// fails exactly when a dimension is zero or the data is shorter than
/// the three bytes per pixel the color type requires; writing to a byte
/// buffer itself cannot fail.
#[verifier::external_body]
fn encode(data: &Vec<u8>, width: u16, height: u16, quality: u8) -> (r: Result<Vec<u8>, Error>)
    ensures
        r is Ok <==> (width > 0 && height > 0 && data@.len() >= width * height * 3),
        r is Ok ==> r->Ok_0@ == jpeg_encoded(data@, width, height, quality),
{
    let mut out: Vec<u8> = Vec::new();
    let enc = jpeg_encoder::Encoder::new(&mut out, quality);
    match enc.encode(data.as_slice(), width, height, jpeg_encoder::ColorType::Rgb) {
        Ok(()) => Ok(out),
        Err(_) => Err(Error::Format),
    }
}

/// Decodes JPEG bytes into an image, per [`jpeg_decoded`]. Bytes whose
/// frame header fails the pre-check ([`sof_ok`]) are rejected up front
/// as an unsupported feature.
pub fn load(bytes: &Vec<u8>) -> (r: Result<Image, Error>)
    ensures
        sof_ok(bytes@) ==> match jpeg_decoded(bytes@) {
            Some((px, w, h)) => r is Ok && r->Ok_0@.data == px && r->Ok_0@.width == w as u32
                && r->Ok_0@.height == h as u32,
            None => r is Err,
        },
        !sof_ok(bytes@) ==> r == Err::<Image, Error>(Error::UnsupportedJPEGFeature),
{
    if !sof_check(bytes) {
        return Err(Error::UnsupportedJPEGFeature);
    }
    match decode(bytes) {
        Ok((data, w, h)) => Ok(Image::new(Frame::new(data, w as u32, h as u32))),
        Err(e) => Err(e),
    }
}

/// Encodes an image's frame as RGB JPEG bytes, per [`jpeg_encoded`]. An
/// image whose dimensions exceed the format's 16-bit limits is rejected
/// with the `Format` error; one with a zero dimension, or whose data
/// holds fewer than three bytes per pixel, is rejected by the encoder.
pub fn save(img: &Image, quality: u8) -> (r: Result<Vec<u8>, Error>)
    ensures
        (img@.width > u16::MAX || img@.height > u16::MAX) ==> r == Err::<Vec<u8>, Error>(
            Error::Format,
        ),
        (img@.width <= u16::MAX && img@.height <= u16::MAX) ==> {
            &&& r is Ok <==> (img@.width > 0 && img@.height > 0 && img@.data.len()
                >= img@.width * img@.height * 3)
            &&& r is Ok ==> r->Ok_0@ == jpeg_encoded(
                img@.data,
                img@.width as u16,
                img@.height as u16,
                quality,
            )
        },
{
    let (w, h) = img.dimensions();
    if w > 65535 || h > 65535 {
        return Err(Error::Format);
    }
    let frame = img.data();
    encode(frame.data(), w as u16, h as u16, quality)
}

} // verus!
