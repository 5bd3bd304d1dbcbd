//! The trusted boundary to the `image` crate: decoding a byte string into a
//! pixel buffer, Gaussian resampling, and animated-GIF encoding. Each
//! wrapper's contract names what the call returns as a function of its
//! arguments alone; everything around these three calls is verified.

use vstd::prelude::*;

use crate::img::{views_of_imgs, Img, ImgV, Rgb};

verus! {

/// The image that the decoder yields for a byte string: `Some` pixels for a
/// byte string in a supported raster format, `None` otherwise. A function
/// of the bytes alone.
pub uninterp spec fn decoded_rgb(bytes: Seq<u8>) -> Option<ImgV>;

/// The Gaussian-filtered resampling of an image to `w` by `h` pixels. A
/// function of the pixels and the target size alone.
pub uninterp spec fn resized(img: ImgV, w: nat, h: nat) -> ImgV;

/// The byte string the GIF encoder produces for a frame sequence — each
/// frame opaque RGBA, the loop flag infinite — or `None` where the encoder
/// rejects the input. A function of the frames alone.
pub uninterp spec fn gif_encoding(frames: Seq<ImgV>) -> Option<Seq<u8>>;

/// Relies on `image::load_from_memory` and `DynamicImage::to_rgb8`: decodes
/// a byte string in any format the crate supports into an RGB buffer whose
/// dimensions fit in `u32`, deterministically in the bytes.
#[verifier::external_body]
pub(crate) fn decode_rgb(bytes: &Vec<u8>) -> (r: Option<Img>)
    ensures
        match r {
            Some(img) => {
                &&& decoded_rgb(bytes@) == Some(img@)
                &&& img.wf()
                &&& img@.width <= u32::MAX
                &&& img@.height <= u32::MAX
            },
            None => decoded_rgb(bytes@) is None,
        },
{
    match image::load_from_memory(bytes) {
        Ok(decoded) => {
            let buf: image::RgbImage = decoded.to_rgb8();
            let width: usize = buf.width() as usize;
            let height: usize = buf.height() as usize;
            let pixels: Vec<Rgb> =
                buf.pixels().map(|p| Rgb { r: p.0[0], g: p.0[1], b: p.0[2] }).collect();
            Some(Img { width, height, pixels })
        },
        Err(_) => None,
    }
}

/// Relies on `image::imageops::resize` with `FilterType::Gaussian`: a
/// deterministic resampling of the pixels alone, yielding exactly the
/// requested dimensions.
#[verifier::external_body]
pub(crate) fn resize_rgb(img: &Img, w: u32, h: u32) -> (r: Img)
    requires
        img.wf(),
        1 <= img@.width <= u32::MAX,
        1 <= img@.height <= u32::MAX,
        1 <= w <= 0xffff,
        1 <= h <= 0xffff,
    ensures
        r.wf(),
        r@ == resized(img@, w as nat, h as nat),
        r@.width == w,
        r@.height == h,
{
    let flat: Vec<u8> = img.pixels.iter().flat_map(|p| [p.r, p.g, p.b]).collect();
    let buf: image::RgbImage =
        image::RgbImage::from_raw(img.width as u32, img.height as u32, flat).unwrap();
    let out: image::RgbImage =
        image::imageops::resize(&buf, w, h, image::imageops::FilterType::Gaussian);
    let pixels: Vec<Rgb> =
        out.pixels().map(|p| Rgb { r: p.0[0], g: p.0[1], b: p.0[2] }).collect();
    Img { width: w as usize, height: h as usize, pixels }
}

/// Relies on `image::codecs::gif::GifEncoder`: sets the repeat flag to
/// infinite looping, converts each frame to opaque RGBA (alpha 255) and
/// writes the frames in order to an in-memory buffer, deterministically in
/// the frames. Frame dimensions must fit the format's 16-bit fields.
#[verifier::external_body]
pub(crate) fn encode_gif(frames: &Vec<Img>) -> (r: Option<Vec<u8>>)
    requires
        frames@.len() >= 1,
        forall|i: int|
            0 <= i < frames@.len() ==> {
                &&& (#[trigger] frames@[i]).wf()
                &&& 1 <= frames@[i]@.width <= 0xffff
                &&& 1 <= frames@[i]@.height <= 0xffff
            },
    ensures
        match r {
            Some(bytes) => gif_encoding(views_of_imgs(frames@)) == Some(bytes@),
            None => gif_encoding(views_of_imgs(frames@)) is None,
        },
{
    let mut out: Vec<u8> = Vec::new();
    let mut enc = image::codecs::gif::GifEncoder::new(&mut out);
    if enc.set_repeat(image::codecs::gif::Repeat::Infinite).is_err() {
        return None;
    }
    for f in frames.iter() {
        let raw: Vec<u8> = f.pixels.iter().flat_map(|p| [p.r, p.g, p.b, 255]).collect();
        let buf: image::RgbaImage =
            image::RgbaImage::from_raw(f.width as u32, f.height as u32, raw).unwrap();
        if enc.encode_frame(image::Frame::new(buf)).is_err() {
            return None;
        }
    }
    drop(enc);
    Some(out)
}

} // verus!
