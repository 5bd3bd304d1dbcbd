//! The colour-substitution filter: exact-match, per-pixel replacement.
//!
//! A substitution rule is a pair `(from, to)`. Applying it to an image
//! replaces every pixel that equals `from` exactly and leaves every other
//! pixel untouched.

use vstd::prelude::*;

use crate::img::{Img, ImgV, Rgb};

verus! {

/// What one rule does to one pixel: replaced iff it equals `from` exactly.
pub open spec fn subst_pixel(p: Rgb, from: Rgb, to: Rgb) -> Rgb {
    if p == from {
        to
    } else {
        p
    }
}

/// What one rule does to a whole image: every pixel independently, the
/// dimensions unchanged.
pub open spec fn subst_img(img: ImgV, from: Rgb, to: Rgb) -> ImgV {
    ImgV {
        width: img.width,
        height: img.height,
        pixels: img.pixels.map_values(|p: Rgb| subst_pixel(p, from, to)),
    }
}

/// Substitution is exact-match only: a rule never alters a pixel that does
/// not equal `from` precisely.
pub proof fn lemma_subst_exact_match(img: ImgV, from: Rgb, to: Rgb, i: int)
    requires
        0 <= i < img.pixels.len(),
        img.pixels[i] != from,
    ensures
        subst_img(img, from, to).pixels[i] == img.pixels[i],
{
}

/// One substitution rule: replace `from` by `to`, by exact equality.
#[derive(Clone, Copy, PartialEq, Eq, Structural, Debug)]
pub struct ColourMapper {
    pub from: Rgb,
    pub to: Rgb,
}

impl ColourMapper {
    pub fn new(from: Rgb, to: Rgb) -> (m: ColourMapper)
        ensures
            m.from == from,
            m.to == to,
    {
        ColourMapper { from, to }
    }

    /// Apply the rule to one pixel.
    pub fn lookup_pixel(&self, src: &Rgb) -> (r: Rgb)
        ensures
            r == subst_pixel(*src, self.from, self.to),
    {
        if *src == self.from {
            self.to
        } else {
            *src
        }
    }
}

/// Applies one substitution rule over a whole image.
pub struct ImageShader {
    pub colour_mapper: ColourMapper,
}

impl ImageShader {
    pub fn new(colour_mapper: ColourMapper) -> (s: ImageShader)
        ensures
            s.colour_mapper == colour_mapper,
    {
        ImageShader { colour_mapper }
    }

    /// Apply the rule to every pixel, returning a fresh image of the same
    /// size.
    pub fn filter(&self, image: &Img) -> (out: Img)
        requires
            image.wf(),
        ensures
            out.wf(),
            out@ == subst_img(image@, self.colour_mapper.from, self.colour_mapper.to),
    {
        let n: usize = image.pixels.len();
        let mut pixels: Vec<Rgb> = Vec::new();
        let mut i: usize = 0;
        while i < n
            invariant
                i <= n,
                n == image@.pixels.len(),
                pixels@.len() == i,
                forall|j: int| 0 <= j < i ==> pixels@[j] == subst_pixel(
                    image@.pixels[j],
                    self.colour_mapper.from,
                    self.colour_mapper.to,
                ),
            decreases n - i,
        {
            let p: Rgb = self.colour_mapper.lookup_pixel(&image.pixels[i]);
            pixels.push(p);
            i = i + 1;
        }
        proof {
            assert(pixels@ =~= image@.pixels.map_values(
                |p: Rgb| subst_pixel(p, self.colour_mapper.from, self.colour_mapper.to),
            ));
        }
        Img { width: image.width, height: image.height, pixels }
    }
}

} // verus!
