//! Raster images: the frame data model, and thin verified fronts over
//! the third-party JPEG and PNG codecs.

use vstd::prelude::*;

use crate::traits::{FramedResource, Resource};

pub mod jpeg;
pub mod png;

verus! {

/// What can go wrong while loading or saving an image.
#[derive(Debug, Copy, Clone, PartialEq, Eq, Structural)]
pub enum Error {
    /// An internal codec failure.
    Internal,
    /// An input or output failure.
    IO,
    /// The data is not formatted properly.
    Format,
    /// A PNG parameter was misused.
    ParameterPNG,
    /// The PNG decoder's limits were exceeded.
    LimitsExceededPNG,
    /// The JPEG uses a feature the decoder does not support.
    UnsupportedJPEGFeature,
}

/// A marker for data no codec has interpreted yet.
#[derive(Debug, Clone, Copy, PartialEq, Eq, Structural)]
pub struct RawData;

/// One frame of pixel data with its dimensions.
#[derive(Debug, Clone, PartialEq)]
pub struct Frame {
    data: Vec<u8>,
    width: u32,
    height: u32,
}

/// The mathematical shape of a [`Frame`].
pub struct FrameModel {
    pub data: Seq<u8>,
    pub width: u32,
    pub height: u32,
}

impl View for Frame {
    type V = FrameModel;

    closed spec fn view(&self) -> FrameModel {
        FrameModel { data: self.data@, width: self.width, height: self.height }
    }
}

impl Frame {
    /// A frame from its pixel bytes and dimensions.
    pub fn new(data: Vec<u8>, width: u32, height: u32) -> (r: Frame)
        ensures
            r@.data == data@,
            r@.width == width,
            r@.height == height,
    {
        Frame { data, width, height }
    }
}

impl Resource for Frame {
    type Data = Vec<u8>;

    fn data(&self) -> (r: &Vec<u8>)
        ensures
            r@ == self@.data,
    {
        &self.data
    }
}

impl FramedResource for Frame {
    fn dimensions(&self) -> (r: (u32, u32))
        ensures
            r.0 == self@.width,
            r.1 == self@.height,
    {
        (self.width, self.height)
    }

    fn width(&self) -> (r: u32)
        ensures
            r == self@.width,
    {
        self.width
    }

    fn height(&self) -> (r: u32)
        ensures
            r == self@.height,
    {
        self.height
    }
}

/// A single-frame image.
#[derive(Debug, Clone, PartialEq)]
pub struct Image {
    frame: Frame,
}

impl View for Image {
    type V = FrameModel;

    closed spec fn view(&self) -> FrameModel {
        self.frame@
    }
}

impl Image {
    /// An image from its single frame.
    pub fn new(frame: Frame) -> (r: Image)
        ensures
            r@ == frame@,
    {
        Image { frame }
    }
}

impl Resource for Image {
    type Data = Frame;

    fn data(&self) -> (r: &Frame)
        ensures
            r@ == self@,
    {
        &self.frame
    }
}

impl FramedResource for Image {
    fn dimensions(&self) -> (r: (u32, u32))
        ensures
            r.0 == self@.width,
            r.1 == self@.height,
    {
        self.frame.dimensions()
    }

    fn width(&self) -> (r: u32)
        ensures
            r == self@.width,
    {
        self.frame.width()
    }

    fn height(&self) -> (r: u32)
        ensures
            r == self@.height,
    {
        self.frame.height()
    }
}

} // verus!
