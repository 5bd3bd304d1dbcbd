//! The full generation pipeline: from a user image, a background template
//! and six sprite templates — all as raw bytes — to the bytes of a looping
//! six-frame animated GIF.
//!
//! Every failure aborts the generation: a bad tile height or a degenerate
//! grid, an unreadable user image, a missing or malformed template, or a
//! refusal by the encoder. The caller owns all file traffic, so a failed
//! generation can never leave a partial file behind.

use vstd::prelude::*;

use vstd::arithmetic::div_mod::lemma_basic_div;

use crate::codec::{decode_rgb, decoded_rgb, encode_gif, gif_encoding, resize_rgb, resized};
use crate::compose::{compose, frame_spec};
use crate::grid::{grid_tx, grid_tx_spec, MAX_TX, MAX_TY, SPRITE_COUNT};
use crate::img::{views_of_imgs, Img, ImgV};

verus! {

/// Why a generation was aborted.
#[derive(Clone, Copy, PartialEq, Eq, Structural, Debug)]
pub enum SusError {
    /// The background or a sprite template is missing, malformed, or of the
    /// wrong shape.
    AssetLoadError,
    /// The user's image does not decode.
    InputDecodeError,
    /// The tile height is out of range, or the grid degenerates to zero
    /// columns.
    DimensionError,
    /// The frames cannot be written as a GIF.
    EncodeError,
}

/// A sprite template's bytes decode to the fixed 74 by 63 footprint.
pub open spec fn sprite_ok(bytes: Seq<u8>) -> bool {
    match decoded_rgb(bytes) {
        Some(s) => s.width == 74 && s.height == 63,
        None => false,
    }
}

/// The image a sprite template's bytes decode to.
pub open spec fn sprite_view(bytes: Seq<u8>) -> ImgV {
    match decoded_rgb(bytes) {
        Some(s) => s,
        None => ImgV { width: 0, height: 0, pixels: Seq::empty() },
    }
}

/// The byte views of a sequence of byte vectors.
pub open spec fn byte_views(s: Seq<Vec<u8>>) -> Seq<Seq<u8>> {
    s.map_values(|v: Vec<u8>| v@)
}

/// The decoded views of a sequence of sprite templates.
pub open spec fn sprite_views(sprites: Seq<Seq<u8>>) -> Seq<ImgV> {
    sprites.map_values(|b: Seq<u8>| sprite_view(b))
}

/// The six frames of the animation, in playback order.
pub open spec fn frames6(small: ImgV, sviews: Seq<ImgV>, bg: ImgV, tx: int, ty: int) -> Seq<
    ImgV,
> {
    Seq::new(6, |a: int| frame_spec(small, sviews, bg, a, tx, ty))
}

/// What the whole generation returns, step by step: the checks in the
/// order the pipeline makes them, and on success the GIF encoding of the
/// six composed frames.
pub open spec fn sus1_spec(
    input: Seq<u8>,
    bg: Seq<u8>,
    sprites: Seq<Seq<u8>>,
    ty: int,
) -> Result<Seq<u8>, SusError> {
    if !(1 <= ty <= MAX_TY) {
        Err(SusError::DimensionError)
    } else {
        match decoded_rgb(bg) {
            Option::None => Err(SusError::AssetLoadError),
            Option::Some(bgv) => if bgv.width < 1 || bgv.height < 1 {
                Err(SusError::AssetLoadError)
            } else {
                match decoded_rgb(input) {
                    Option::None => Err(SusError::InputDecodeError),
                    Option::Some(inv) => {
                        if exists|i: int| 0 <= i < sprites.len() && !sprite_ok(#[trigger] sprites[i]) {
                            Err(SusError::AssetLoadError)
                        } else if inv.height < 1 {
                            Err(SusError::DimensionError)
                        } else {
                            let tx: int = grid_tx_spec(ty, inv.width as int, inv.height as int);
                            if tx < 1 {
                                Err(SusError::DimensionError)
                            } else if tx > MAX_TX {
                                Err(SusError::EncodeError)
                            } else {
                                let small = resized(inv, tx as nat, ty as nat);
                                let frames = frames6(small, sprite_views(sprites), bgv, tx, ty);
                                match gif_encoding(frames) {
                                    Option::Some(bytes) => Ok(bytes),
                                    Option::None => Err(SusError::EncodeError),
                                }
                            }
                        }
                    },
                }
            },
        }
    }
}

/// Generate the mosaic GIF: decode the templates and the user image,
/// derive the grid from the tile height and the input's aspect ratio,
/// compose the six frames, and encode them. Returns the GIF's bytes.
#[verifier::loop_isolation(false)]
pub fn sus1(input: &Vec<u8>, bg: &Vec<u8>, sprites: &Vec<Vec<u8>>, ty: u64) -> (r: Result<
    Vec<u8>,
    SusError,
>)
    requires
        sprites@.len() == 6,
    ensures
        ({
            let spec_r = sus1_spec(input@, bg@, byte_views(sprites@), ty as int);
            match r {
                Ok(bytes) => spec_r == Ok::<Seq<u8>, SusError>(bytes@),
                Err(e) => spec_r == Err::<Seq<u8>, SusError>(e),
            }
        }),
{
    let ghost sprite_bytes: Seq<Seq<u8>> = byte_views(sprites@);
    if ty < 1 || ty > MAX_TY {
        return Err(SusError::DimensionError);
    }
    let bg_img: Img = match decode_rgb(bg) {
        Option::Some(img) => img,
        Option::None => { return Err(SusError::AssetLoadError) },
    };
    if bg_img.width < 1 || bg_img.height < 1 {
        return Err(SusError::AssetLoadError);
    }
    let input_img: Img = match decode_rgb(input) {
        Option::Some(img) => img,
        Option::None => { return Err(SusError::InputDecodeError) },
    };
    let mut sprite_imgs: Vec<Img> = Vec::new();
    let mut i: usize = 0;
    while i < SPRITE_COUNT
        invariant
            i <= 6,
            sprite_imgs@.len() == i,
            sprites@.len() == 6,
            sprite_bytes == byte_views(sprites@),
            forall|j: int|
                0 <= j < i ==> {
                    &&& sprite_ok(#[trigger] sprite_bytes[j])
                    &&& sprite_imgs@[j].wf()
                    &&& sprite_imgs@[j]@ == sprite_view(sprite_bytes[j])
                    &&& sprite_imgs@[j]@.width == 74
                    &&& sprite_imgs@[j]@.height == 63
                },
        decreases 6 - i,
    {
        let sprite: Img = match decode_rgb(&sprites[i]) {
            Option::Some(img) => img,
            Option::None => {
                proof {
                    assert(sprite_bytes.len() == 6);
                    assert(!sprite_ok(sprite_bytes[i as int]));
                    assert(exists|j: int|
                        0 <= j < sprite_bytes.len() && !sprite_ok(#[trigger] sprite_bytes[j]));
                }
                return Err(SusError::AssetLoadError);
            },
        };
        if sprite.width != 74 || sprite.height != 63 {
            proof {
                assert(sprite_bytes.len() == 6);
                assert(!sprite_ok(sprite_bytes[i as int]));
                assert(exists|j: int|
                    0 <= j < sprite_bytes.len() && !sprite_ok(#[trigger] sprite_bytes[j]));
            }
            return Err(SusError::AssetLoadError);
        }
        sprite_imgs.push(sprite);
        i = i + 1;
    }
    if input_img.height < 1 {
        return Err(SusError::DimensionError);
    }
    let w: u64 = input_img.width as u64;
    let h: u64 = input_img.height as u64;
    let tx: u64 = grid_tx(ty, w, h);
    if tx < 1 {
        return Err(SusError::DimensionError);
    }
    if tx > MAX_TX {
        return Err(SusError::EncodeError);
    }
    proof {
        if input_img.width == 0 {
            assert((862 * (ty as int)) * 0 == 0) by (nonlinear_arith);
            lemma_basic_div(500 * (h as int), 1000 * (h as int));
            assert(false);
        }
    }
    let small: Img = resize_rgb(&input_img, tx as u32, ty as u32);
    proof {
        assert forall|s: int| 0 <= s < 6 implies {
            &&& (#[trigger] sprite_imgs@[s]).wf()
            &&& sprite_imgs@[s]@.width == 74
            &&& sprite_imgs@[s]@.height == 63
        } by {
            assert(sprite_ok(sprite_bytes[s]));
        }
    }
    let frames: Vec<Img> = compose(&small, &sprite_imgs, &bg_img, tx as usize, ty as usize);
    proof {
        assert(views_of_imgs(sprite_imgs@) =~= sprite_views(sprite_bytes));
        assert(views_of_imgs(frames@) =~= frames6(
            resized(input_img@, tx as nat, ty as nat),
            sprite_views(sprite_bytes),
            bg_img@,
            tx as int,
            ty as int,
        ));
    }
    match encode_gif(&frames) {
        Option::Some(bytes) => Ok(bytes),
        Option::None => Err(SusError::EncodeError),
    }
}

} // verus!
