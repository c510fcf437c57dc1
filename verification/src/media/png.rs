//! PNG images: decoding and encoding in memory, through the `png` crate.
//! Reading and writing files is the caller's business.

use vstd::prelude::*;

use super::{Error, Frame, Image};
use crate::traits::{FramedResource, Resource};

verus! {

#[verifier::external_type_specification]
#[verifier::external_body]
pub struct ExPngDecodingError(png::DecodingError);

#[verifier::external_type_specification]
#[verifier::external_body]
pub struct ExPngEncodingError(png::EncodingError);

/// Relies on `png::DecodingError`: each variant maps to the matching
/// error of this library.
#[verifier::external_body]
fn map_decoding_error(e: png::DecodingError) -> Error {
    match e {
        png::DecodingError::IoError(_) => Error::IO,
        png::DecodingError::Format(_) => Error::Format,
        png::DecodingError::Parameter(_) => Error::ParameterPNG,
        png::DecodingError::LimitsExceeded => Error::LimitsExceededPNG,
    }
}

/// Relies on `png::EncodingError`: each variant maps to the matching
/// error of this library.
#[verifier::external_body]
fn map_encoding_error(e: png::EncodingError) -> Error {
    match e {
        png::EncodingError::IoError(_) => Error::IO,
        png::EncodingError::Format(_) => Error::Format,
        png::EncodingError::Parameter(_) => Error::ParameterPNG,
        png::EncodingError::LimitsExceeded => Error::LimitsExceededPNG,
    }
}

/// What the PNG decoder yields for a byte sequence: the frame's bytes
/// and the dimensions, or nothing when it rejects the input. Decoding is
/// a function of the bytes alone.
pub uninterp spec fn png_decoded(bytes: Seq<u8>) -> Option<(Seq<u8>, u32, u32)>;

/// Relies on `png::Decoder`: `read_info` then `next_frame` yield the
/// first frame's bytes, `output_buffer_size` bounds the buffer, and the
/// returned `OutputInfo` carries the dimensions and the frame's byte
/// count; all depend on the input bytes alone.
#[verifier::external_body]
fn decode(bytes: &Vec<u8>) -> (r: Result<(Vec<u8>, u32, u32), Error>)
    ensures
        match png_decoded(bytes@) {
            Some((px, w, h)) => r is Ok && r->Ok_0.0@ == px && r->Ok_0.1 == w && r->Ok_0.2 == h,
            None => r is Err,
        },
{
    let decoder = png::Decoder::new(std::io::Cursor::new(bytes.as_slice()));
    let mut reader = decoder.read_info().map_err(map_decoding_error)?;
    let size = reader.output_buffer_size().ok_or(Error::LimitsExceededPNG)?;
    let mut buf = vec![0u8; size];
    let info = reader.next_frame(&mut buf).map_err(map_decoding_error)?;
    buf.truncate(info.buffer_size());
    Ok((buf, info.width, info.height))
}

/// What the PNG encoder writes for a frame under its default color type
/// and depth: a function of the frame bytes and the dimensions alone.
pub uninterp spec fn png_encoded(data: Seq<u8>, width: u32, height: u32) -> Seq<u8>;

/// Relies on `png::Encoder`: the header and the frame data are written
/// into a byte buffer under the encoder's default color type and depth
/// (one byte per pixel). Writing the header rejects a zero dimension;
/// writing the data demands exactly one byte per pixel; past those
/// checks, writing to a byte buffer cannot fail.
#[verifier::external_body]
fn encode(data: &Vec<u8>, width: u32, height: u32) -> (r: Result<Vec<u8>, Error>)
    ensures
        r is Ok <==> (width > 0 && height > 0 && data@.len() == width * height),
        r is Ok ==> r->Ok_0@ == png_encoded(data@, width, height) && r->Ok_0@.len() > 0,
{
    let mut out: Vec<u8> = Vec::new();
    let encoder = png::Encoder::new(&mut out, width, height);
    let mut writer = encoder.write_header().map_err(map_encoding_error)?;
    writer.write_image_data(data.as_slice()).map_err(map_encoding_error)?;
    drop(writer);
    Ok(out)
}

/// Decodes PNG bytes into an image, per [`png_decoded`].
pub fn load(bytes: &Vec<u8>) -> (r: Result<Image, Error>)
    ensures
        match png_decoded(bytes@) {
            Some((px, w, h)) => r is Ok && r->Ok_0@.data == px && r->Ok_0@.width == w
                && r->Ok_0@.height == h,
            None => r is Err,
        },
{
    match decode(bytes) {
        Ok((data, w, h)) => Ok(Image::new(Frame::new(data, w, h))),
        Err(e) => Err(e),
    }
}

/// Encodes an image's frame as PNG bytes, per [`png_encoded`]: it
/// succeeds exactly when both dimensions are nonzero and the frame holds
/// one byte per pixel, the encoder's default color depth.
pub fn save(img: &Image) -> (r: Result<Vec<u8>, Error>)
    ensures
        r is Ok <==> (img@.width > 0 && img@.height > 0 && img@.data.len() == img@.width
            * img@.height),
        r is Ok ==> r->Ok_0@ == png_encoded(img@.data, img@.width, img@.height)
            && r->Ok_0@.len() > 0,
{
    let (w, h) = img.dimensions();
    let frame = img.data();
    encode(frame.data(), w, h)
}

} // verus!
