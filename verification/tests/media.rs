use styleparse::media::{jpeg, png, Error, Frame, Image};
use styleparse::traits::{FramedResource, Resource};

#[test]
fn frame_and_image_report_their_shape() {
    let frame = Frame::new(vec![1, 2, 3, 4], 2, 2);
    assert_eq!(frame.dimensions(), (2, 2));
    assert_eq!(frame.width(), 2);
    assert_eq!(frame.height(), 2);
    assert_eq!(frame.data(), &vec![1, 2, 3, 4]);
    let img = Image::new(frame);
    assert_eq!(img.dimensions(), (2, 2));
    assert_eq!(img.data().data(), &vec![1, 2, 3, 4]);
}

#[test]
fn png_round_trip() {
    // the encoder's default color type is one byte per pixel
    let img = Image::new(Frame::new(vec![7, 200, 33, 91], 2, 2));
    let bytes = png::save(&img).expect("encoding to memory must work");
    assert!(bytes.len() > 0);
    let back = png::load(&bytes).expect("decoding what was encoded must work");
    assert_eq!(back.dimensions(), (2, 2));
    assert_eq!(back.data().data(), &vec![7, 200, 33, 91]);
}

#[test]
fn png_garbage_is_rejected() {
    let res = png::load(&vec![1, 2, 3, 4, 5]);
    assert!(res.is_err());
}

#[test]
fn jpeg_round_trip_keeps_dimensions() {
    let mut data = Vec::new();
    for _ in 0..(8 * 8) {
        data.push(200u8);
        data.push(40u8);
        data.push(90u8);
    }
    let img = Image::new(Frame::new(data, 8, 8));
    let bytes = jpeg::save(&img, 90).expect("encoding to memory must work");
    assert_eq!(&bytes[0..2], &[0xFF, 0xD8]);
    let back = jpeg::load(&bytes).expect("decoding what was encoded must work");
    assert_eq!(back.dimensions(), (8, 8));
}

#[test]
fn jpeg_short_data_is_rejected() {
    let img = Image::new(Frame::new(vec![1, 2, 3], 8, 8));
    assert!(jpeg::save(&img, 90).is_err());
    let huge = Image::new(Frame::new(Vec::new(), 70000, 1));
    assert_eq!(jpeg::save(&huge, 90), Err(Error::Format));
}

#[test]
fn jpeg_frame_header_pre_check() {
    // a frame header declaring two components is rejected before the
    // decoder sees it
    let crafted = vec![
        0xFF, 0xD8, // start of image
        0xFF, 0xC0, // baseline frame header
        0x00, 0x0C, // segment length
        0x08, // precision
        0x00, 0x10, // height
        0x00, 0x10, // width
        0x02, // two components
        0x01, 0x11, 0x00, 0x02, 0x11, 0x00,
    ];
    assert_eq!(jpeg::load(&crafted), Err(Error::UnsupportedJPEGFeature));
    // no frame header at all
    assert_eq!(jpeg::load(&vec![1, 2, 3]), Err(Error::UnsupportedJPEGFeature));
    assert_eq!(
        jpeg::load(&vec![0xFF, 0xD8, 0xFF, 0xD9]),
        Err(Error::UnsupportedJPEGFeature)
    );
}

#[test]
fn zero_dimension_encodes_are_rejected() {
    let empty = Image::new(Frame::new(Vec::new(), 0, 0));
    assert!(png::save(&empty).is_err());
    assert!(jpeg::save(&empty, 90).is_err());
}

#[test]
fn png_demands_one_byte_per_pixel() {
    let short = Image::new(Frame::new(vec![1, 2, 3], 2, 2));
    assert!(png::save(&short).is_err());
    let long = Image::new(Frame::new(vec![0; 5], 2, 2));
    assert!(png::save(&long).is_err());
    let exact = Image::new(Frame::new(vec![9; 4], 2, 2));
    assert!(png::save(&exact).is_ok());
}
