//! The pixel and image-buffer types that every stage of the pipeline works on.
//!
//! An image is a rectangular, row-major buffer of RGB pixels. Buffers are
//! immutable between stages: each transformation returns a fresh image, and
//! only the compositor mutates a frame while it is being assembled.

use vstd::prelude::*;

use vstd::arithmetic::div_mod::{lemma_fundamental_div_mod, lemma_mod_pos_bound};

verus! {

/// One pixel: red, green and blue channels, each in `0..=255`.
#[derive(Clone, Copy, PartialEq, Eq, Structural, Debug)]
pub struct Rgb {
    pub r: u8,
    pub g: u8,
    pub b: u8,
}

/// The mathematical model of an image: dimensions and a row-major pixel
/// sequence.
pub ghost struct ImgV {
    pub width: nat,
    pub height: nat,
    pub pixels: Seq<Rgb>,
}

impl ImgV {
    /// The buffer holds exactly one pixel per coordinate.
    pub open spec fn wf(self) -> bool {
        self.pixels.len() == self.width * self.height
    }

    /// The pixel at column `x`, row `y`.
    pub open spec fn pixel(self, x: int, y: int) -> Rgb {
        self.pixels[y * self.width + x]
    }
}

/// A row-major index stays inside the buffer.
pub proof fn lemma_row_major_bound(w: int, h: int, x: int, y: int)
    by (nonlinear_arith)
    requires
        0 <= x < w,
        0 <= y < h,
    ensures
        0 <= y * w + x < w * h,
{
}

/// Two in-range coordinates with the same row-major index are the same
/// coordinate.
pub proof fn lemma_row_major_injective(w: int, x1: int, y1: int, x2: int, y2: int)
    by (nonlinear_arith)
    requires
        0 <= x1 < w,
        0 <= x2 < w,
        0 <= y1,
        0 <= y2,
        y1 * w + x1 == y2 * w + x2,
    ensures
        x1 == x2,
        y1 == y2,
{
}

/// The views of a sequence of images.
pub open spec fn views_of_imgs(s: Seq<Img>) -> Seq<ImgV> {
    s.map_values(|x: Img| x@)
}

/// A rectangular RGB image, stored row by row.
pub struct Img {
    pub width: usize,
    pub height: usize,
    pub pixels: Vec<Rgb>,
}

impl View for Img {
    type V = ImgV;

    open spec fn view(&self) -> ImgV {
        ImgV { width: self.width as nat, height: self.height as nat, pixels: self.pixels@ }
    }
}

impl Img {
    pub open spec fn wf(&self) -> bool {
        self@.wf()
    }

    /// A solid image of the given size, every pixel `fill`.
    pub fn new_fill(width: usize, height: usize, fill: Rgb) -> (img: Img)
        requires
            width * height <= usize::MAX,
        ensures
            img.wf(),
            img@.width == width,
            img@.height == height,
            img@.pixels == Seq::new((width * height) as nat, |i: int| fill),
    {
        let mut pixels: Vec<Rgb> = Vec::new();
        let total: usize = width * height;
        let mut i: usize = 0;
        while i < total
            invariant
                i <= total,
                total == width * height,
                pixels@.len() == i,
                forall|j: int| 0 <= j < i ==> pixels@[j] == fill,
            decreases total - i,
        {
            pixels.push(fill);
            i = i + 1;
        }
        proof {
            assert(pixels@ =~= Seq::new((width * height) as nat, |i: int| fill));
        }
        Img { width, height, pixels }
    }

    /// Read the pixel at column `x`, row `y`.
    pub fn get(&self, x: usize, y: usize) -> (p: Rgb)
        requires
            self.wf(),
            x < self.width,
            y < self.height,
        ensures
            p == self@.pixel(x as int, y as int),
    {
        let len: usize = self.pixels.len();
        proof {
            lemma_row_major_bound(self.width as int, self.height as int, x as int, y as int);
            assert(y * self.width + x < len);
        }
        let i: usize = y * self.width + x;
        self.pixels[i]
    }

    /// Overwrite the pixel at column `x`, row `y`.
    pub fn set(&mut self, x: usize, y: usize, p: Rgb)
        requires
            old(self).wf(),
            x < old(self).width,
            y < old(self).height,
        ensures
            final(self).wf(),
            final(self).width == old(self).width,
            final(self).height == old(self).height,
            final(self)@.pixels == old(self)@.pixels.update(y * old(self)@.width + x, p),
    {
        let len: usize = self.pixels.len();
        proof {
            lemma_row_major_bound(self.width as int, self.height as int, x as int, y as int);
            assert(y * self.width + x < len);
        }
        let i: usize = y * self.width + x;
        self.pixels.set(i, p);
    }
}

/// Whether column `x`, row `y` of the base image falls under a sprite of
/// `sp`'s size pasted at offset `(ox, oy)`.
pub open spec fn paste_region(sp: ImgV, ox: int, oy: int, x: int, y: int) -> bool {
    ox <= x < ox + sp.width && oy <= y < oy + sp.height
}

/// The pixel at flat index `i` after pasting: the sprite's pixel inside the
/// pasted rectangle, the base's pixel everywhere else.
pub open spec fn paste_pixel(base: ImgV, sp: ImgV, ox: int, oy: int, i: int) -> Rgb {
    let x: int = i % (base.width as int);
    let y: int = i / (base.width as int);
    if paste_region(sp, ox, oy, x, y) {
        sp.pixel(x - ox, y - oy)
    } else {
        base.pixels[i]
    }
}

/// The base image with `sp` pasted over it at offset `(ox, oy)`: dimensions
/// unchanged, the pasted rectangle replaced wholesale.
pub open spec fn paste_spec(base: ImgV, sp: ImgV, ox: int, oy: int) -> ImgV {
    ImgV {
        width: base.width,
        height: base.height,
        pixels: Seq::new(base.pixels.len(), |i: int| paste_pixel(base, sp, ox, oy, i)),
    }
}

/// The pixel at flat index `i` once the paste has covered the sprite rows
/// before `dy` wholly and the current row `dy` up to column `dx`.
spec fn paste_pixel_upto(base: ImgV, sp: ImgV, ox: int, oy: int, dy: int, dx: int, i: int) -> Rgb {
    let x: int = i % (base.width as int);
    let y: int = i / (base.width as int);
    if paste_region(sp, ox, oy, x, y) && (y - oy < dy || (y - oy == dy && x - ox < dx)) {
        sp.pixel(x - ox, y - oy)
    } else {
        base.pixels[i]
    }
}

/// Copy the whole of `sp` into `dst` at offset `(ox, oy)`; the sprite must
/// fit inside `dst`.
#[verifier::loop_isolation(false)]
pub fn paste(dst: &mut Img, sp: &Img, ox: usize, oy: usize)
    requires
        old(dst).wf(),
        sp.wf(),
        1 <= old(dst)@.width,
        ox + sp@.width <= old(dst)@.width,
        oy + sp@.height <= old(dst)@.height,
    ensures
        final(dst).wf(),
        final(dst).width == old(dst).width,
        final(dst).height == old(dst).height,
        final(dst)@ == paste_spec(old(dst)@, sp@, ox as int, oy as int),
{
    let ghost base: ImgV = dst@;
    let mut dy: usize = 0;
    while dy < sp.height
        invariant
            dy <= sp@.height,
            dst.width == old(dst).width,
            dst.height == old(dst).height,
            dst.wf(),
            forall|i: int|
                0 <= i < base.pixels.len() ==> #[trigger] dst@.pixels[i] == paste_pixel_upto(
                    base,
                    sp@,
                    ox as int,
                    oy as int,
                    dy as int,
                    0,
                    i,
                ),
        decreases sp@.height - dy,
    {
        let mut dx: usize = 0;
        while dx < sp.width
            invariant
                dx <= sp@.width,
                dy < sp@.height,
                dst.width == old(dst).width,
                dst.height == old(dst).height,
                dst.wf(),
                forall|i: int|
                    0 <= i < base.pixels.len() ==> #[trigger] dst@.pixels[i] == paste_pixel_upto(
                        base,
                        sp@,
                        ox as int,
                        oy as int,
                        dy as int,
                        dx as int,
                        i,
                    ),
            decreases sp@.width - dx,
        {
            let px: Rgb = sp.get(dx, dy);
            dst.set(ox + dx, oy + dy, px);
            proof {
                let wi: int = base.width as int;
                let idx: int = (oy + dy) * wi + (ox + dx);
                lemma_row_major_bound(wi, base.height as int, ox + dx, oy + dy);
                assert forall|i: int| 0 <= i < base.pixels.len() implies #[trigger] dst@.pixels[i]
                    == paste_pixel_upto(
                    base,
                    sp@,
                    ox as int,
                    oy as int,
                    dy as int,
                    dx + 1,
                    i,
                ) by {
                    lemma_fundamental_div_mod(i, wi);
                    assert(wi * (i / wi) == (i / wi) * wi) by (nonlinear_arith);
                    lemma_mod_pos_bound(i, wi);
                    let x: int = i % wi;
                    let y: int = i / wi;
                    if i == idx {
                        lemma_row_major_injective(wi, x, y, ox + dx, oy + dy);
                    } else if x == ox + dx && y == oy + dy {
                        assert(i == y * wi + x);
                        assert(false);
                    }
                }
            }
            dx = dx + 1;
        }
        proof {
            assert forall|i: int| 0 <= i < base.pixels.len() implies paste_pixel_upto(
                base,
                sp@,
                ox as int,
                oy as int,
                dy as int,
                sp@.width as int,
                i,
            ) == paste_pixel_upto(base, sp@, ox as int, oy as int, dy + 1, 0, i) by {}
        }
        dy = dy + 1;
    }
    proof {
        assert(dst@.pixels =~= paste_spec(base, sp@, ox as int, oy as int).pixels);
    }
}

} // verus!
