use std::io::Cursor;

use image::AnimationDecoder;

use dumpy::compose::compose;
use dumpy::img::{Img, Rgb};
use dumpy::sus::{sus1, SusError};

fn rgb(r: u8, g: u8, b: u8) -> Rgb {
    Rgb { r, g, b }
}

fn solid_img(width: usize, height: usize, c: Rgb) -> Img {
    Img { width, height, pixels: vec![c; width * height] }
}

fn png_bytes(width: u32, height: u32, pixels: &[(u8, u8, u8)]) -> Vec<u8> {
    let mut buf = image::RgbImage::new(width, height);
    for (i, p) in buf.pixels_mut().enumerate() {
        *p = image::Rgb([pixels[i].0, pixels[i].1, pixels[i].2]);
    }
    let mut out: Vec<u8> = Vec::new();
    image::DynamicImage::ImageRgb8(buf)
        .write_to(&mut out, image::ImageOutputFormat::Png)
        .unwrap();
    out
}

/// A sprite template: all highlight marker, except the top-left pixel,
/// which carries the shadow marker.
fn sprite_png() -> Vec<u8> {
    let mut pixels = vec![(255u8, 0u8, 0u8); 74 * 63];
    pixels[0] = (0, 0, 255);
    png_bytes(74, 63, &pixels)
}

fn bg_png() -> Vec<u8> {
    png_bytes(8, 8, &vec![(255u8, 255u8, 255u8); 64])
}

#[test]
fn compose_returns_six_frames_of_identical_size() {
    let input = Img { width: 2, height: 1, pixels: vec![rgb(255, 0, 0), rgb(0, 255, 0)] };
    let sprites: Vec<Img> = (0..6).map(|_| solid_img(74, 63, rgb(255, 0, 0))).collect();
    let bg = solid_img(8, 8, rgb(255, 255, 255));
    let frames = compose(&input, &sprites, &bg, 2, 1);
    assert_eq!(frames.len(), 6);
    for f in frames.iter() {
        assert_eq!(f.width, 2 * 74 + 20);
        assert_eq!(f.height, 1 * 63 + 20);
        assert_eq!(f.pixels.len(), f.width * f.height);
    }
}

#[test]
fn compose_shades_each_cell_from_its_sample() {
    let input = Img { width: 2, height: 1, pixels: vec![rgb(255, 0, 0), rgb(0, 255, 0)] };
    let sprites: Vec<Img> = (0..6).map(|_| solid_img(74, 63, rgb(255, 0, 0))).collect();
    let bg = solid_img(8, 8, rgb(128, 128, 128));
    let frames = compose(&input, &sprites, &bg, 2, 1);
    // Cell (0,0) is pasted at (10,10) and sampled red; the all-highlight
    // sprite becomes solid entry colour, red itself.
    assert_eq!(frames[0].get(10, 10), rgb(255, 0, 0));
    assert_eq!(frames[0].get(10 + 73, 10 + 62), rgb(255, 0, 0));
    // Cell (1,0) starts at (84,10) and is sampled green.
    assert_eq!(frames[0].get(84, 10), rgb(0, 255, 0));
}

#[test]
fn compose_nudges_pure_white_samples() {
    let input = Img { width: 1, height: 1, pixels: vec![rgb(255, 255, 255)] };
    let sprites: Vec<Img> = (0..6).map(|_| solid_img(74, 63, rgb(255, 0, 0))).collect();
    let bg = solid_img(8, 8, rgb(128, 128, 128));
    let frames = compose(&input, &sprites, &bg, 1, 1);
    // A pure white sample is nudged to (254,254,254), so the cell cannot be
    // swallowed by the white-marker background substitution.
    assert_eq!(frames[0].get(10, 10), rgb(254, 254, 254));
}

#[test]
fn generation_end_to_end_red_pixel() {
    let input = png_bytes(1, 1, &[(255, 0, 0)]);
    let sprites: Vec<Vec<u8>> = (0..6).map(|_| sprite_png()).collect();
    let r = sus1(&input, &bg_png(), &sprites, 1);
    let gif = r.expect("generation should succeed");

    let decoder = image::codecs::gif::GifDecoder::new(Cursor::new(&gif)).unwrap();
    let frames = decoder.into_frames().collect_frames().unwrap();
    assert_eq!(frames.len(), 6);
    for f in frames.iter() {
        assert_eq!(f.buffer().width(), 1 * 74 + 20);
        assert_eq!(f.buffer().height(), 1 * 63 + 20);
    }
    // The single cell sits at (10,10). Its top-left sprite pixel carried
    // the shadow marker: recoloured to the shade of red, (168,0,64). Its
    // neighbour carried the highlight marker: recoloured to the entry
    // colour, red itself.
    let first = frames[0].buffer();
    assert_eq!(*first.get_pixel(10, 10), image::Rgba([168, 0, 64, 255]));
    assert_eq!(*first.get_pixel(11, 10), image::Rgba([255, 0, 0, 255]));
    assert_eq!(*first.get_pixel(11, 11), image::Rgba([255, 0, 0, 255]));
}

#[test]
fn tile_height_out_of_range_is_rejected() {
    let input = png_bytes(1, 1, &[(255, 0, 0)]);
    let sprites: Vec<Vec<u8>> = (0..6).map(|_| sprite_png()).collect();
    assert_eq!(sus1(&input, &bg_png(), &sprites, 0), Err(SusError::DimensionError));
    assert_eq!(sus1(&input, &bg_png(), &sprites, 51), Err(SusError::DimensionError));
}

#[test]
fn unreadable_input_is_rejected() {
    let garbage: Vec<u8> = vec![1, 2, 3, 4];
    let sprites: Vec<Vec<u8>> = (0..6).map(|_| sprite_png()).collect();
    assert_eq!(sus1(&garbage, &bg_png(), &sprites, 15), Err(SusError::InputDecodeError));
}

#[test]
fn unreadable_background_is_rejected() {
    let input = png_bytes(1, 1, &[(255, 0, 0)]);
    let garbage: Vec<u8> = vec![9, 9, 9];
    let sprites: Vec<Vec<u8>> = (0..6).map(|_| sprite_png()).collect();
    assert_eq!(sus1(&input, &garbage, &sprites, 15), Err(SusError::AssetLoadError));
}

#[test]
fn wrongly_sized_sprite_is_rejected() {
    let input = png_bytes(1, 1, &[(255, 0, 0)]);
    let mut sprites: Vec<Vec<u8>> = (0..5).map(|_| sprite_png()).collect();
    sprites.push(png_bytes(1, 1, &[(255, 0, 0)]));
    assert_eq!(sus1(&input, &bg_png(), &sprites, 15), Err(SusError::AssetLoadError));
}

#[test]
fn degenerate_aspect_ratio_is_rejected() {
    // A 1 x 100 input with tile height 1 rounds to zero columns.
    let input = png_bytes(1, 100, &vec![(10u8, 20u8, 30u8); 100]);
    let sprites: Vec<Vec<u8>> = (0..6).map(|_| sprite_png()).collect();
    assert_eq!(sus1(&input, &bg_png(), &sprites, 1), Err(SusError::DimensionError));
}

#[test]
fn oversized_grid_is_rejected() {
    // A 2000 x 1 input with tile height 1 yields 1724 columns, beyond the
    // GIF format's frame-size limit.
    let input = png_bytes(2000, 1, &vec![(10u8, 20u8, 30u8); 2000]);
    let sprites: Vec<Vec<u8>> = (0..6).map(|_| sprite_png()).collect();
    assert_eq!(sus1(&input, &bg_png(), &sprites, 1), Err(SusError::EncodeError));
}
