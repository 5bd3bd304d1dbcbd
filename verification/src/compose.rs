//! The grid compositor: builds the six animation frames.
//!
//! For each animation index the background template is resampled to the
//! frame size, every grid cell is shaded from the downsampled input and
//! pasted in the diagonal marching pattern, and finally the reserved white
//! marker is substituted by the near-black background fill.

use vstd::prelude::*;

use vstd::arithmetic::div_mod::lemma_mod_pos_bound;

use crate::codec::{resize_rgb, resized};
use crate::filter::{subst_img, ColourMapper, ImageShader};
use crate::grid::{cell_index, cell_index_spec, CELL_H, CELL_W, PAD, SPRITE_COUNT};
use crate::img::{paste, paste_spec, views_of_imgs, Img, ImgV, Rgb};
use crate::shader::{shader, shader_spec};

verus! {

/// Pure white: the reserved background marker colour.
pub open spec fn white() -> Rgb {
    Rgb { r: 255, g: 255, b: 255 }
}

/// The near-black fill that replaces the white marker once a frame is
/// assembled.
pub open spec fn bg_fill() -> Rgb {
    Rgb { r: 0, g: 2, b: 0 }
}

/// The colour a cell is shaded with: the downsampled input's pixel at the
/// cell, with pure white nudged to (254,254,254) so it cannot collide with
/// the reserved white marker.
pub open spec fn sample_spec(input: ImgV, x: int, y: int) -> Rgb {
    if input.pixel(x, y) == white() {
        Rgb { r: 254, g: 254, b: 254 }
    } else {
        input.pixel(x, y)
    }
}

/// The canvas of frame `a` after the first `n` cells, in row-major order,
/// have been shaded and pasted. Cell `k` sits at column `k % tx`, row
/// `k / tx`; its sprite is picked by the diagonal pattern and shaded from
/// the sampled colour.
pub open spec fn cells_spec(
    canvas: ImgV,
    input: ImgV,
    sprites: Seq<ImgV>,
    a: int,
    tx: int,
    n: nat,
) -> ImgV
    decreases n,
{
    if n == 0 {
        canvas
    } else {
        let k: int = n - 1;
        let x: int = k % tx;
        let y: int = k / tx;
        paste_spec(
            cells_spec(canvas, input, sprites, a, tx, (n - 1) as nat),
            shader_spec(sprites[cell_index_spec(a, x, y)], sample_spec(input, x, y)),
            x * 74 + 10,
            y * 63 + 10,
        )
    }
}

/// Frame `a` of the animation: the background resampled to the frame size,
/// all `tx * ty` cells pasted, and the white marker substituted by the
/// near-black fill.
pub open spec fn frame_spec(
    input: ImgV,
    sprites: Seq<ImgV>,
    bg: ImgV,
    a: int,
    tx: int,
    ty: int,
) -> ImgV {
    let canvas = resized(bg, (tx * 74 + 20) as nat, (ty * 63 + 20) as nat);
    subst_img(cells_spec(canvas, input, sprites, a, tx, (tx * ty) as nat), white(), bg_fill())
}

/// Pasting never changes an image's dimensions: however many cells have
/// been placed, the canvas keeps its size and pixel count.
pub proof fn lemma_cells_dims(
    canvas: ImgV,
    input: ImgV,
    sprites: Seq<ImgV>,
    a: int,
    tx: int,
    n: nat,
)
    ensures
        cells_spec(canvas, input, sprites, a, tx, n).width == canvas.width,
        cells_spec(canvas, input, sprites, a, tx, n).height == canvas.height,
        cells_spec(canvas, input, sprites, a, tx, n).pixels.len() == canvas.pixels.len(),
    decreases n,
{
    if n > 0 {
        lemma_cells_dims(canvas, input, sprites, a, tx, (n - 1) as nat);
    }
}

/// After at least `cy*tx + cx + 1` cells are placed, the pixel at offset
/// `(dx, dy)` inside cell `(cx, cy)` shows the shaded sprite of that cell,
/// and no later cell touches it again.
proof fn lemma_cells_pixel_upto(
    canvas: ImgV,
    input: ImgV,
    sprites: Seq<ImgV>,
    a: int,
    tx: int,
    n: nat,
    cx: int,
    cy: int,
    dx: int,
    dy: int,
)
    requires
        canvas.wf(),
        1 <= tx,
        canvas.width == tx * 74 + 20,
        0 <= cx < tx,
        0 <= cy,
        cy * 63 + 10 + dy < canvas.height,
        0 <= dx < 74,
        0 <= dy < 63,
        cy * tx + cx < n,
        forall|i: int|
            0 <= i < sprites.len() ==> {
                &&& (#[trigger] sprites[i]).wf()
                &&& sprites[i].width == 74
                &&& sprites[i].height == 63
            },
        sprites.len() == 6,
    ensures
        cells_spec(canvas, input, sprites, a, tx, n).pixel(cx * 74 + 10 + dx, cy * 63 + 10 + dy)
            == shader_spec(
            sprites[cell_index_spec(a, cx, cy)],
            sample_spec(input, cx, cy),
        ).pixel(dx, dy),
    decreases n,
{
    let wi: int = canvas.width as int;
    let px: int = cx * 74 + 10 + dx;
    let py: int = cy * 63 + 10 + dy;
    let i: int = py * wi + px;
    let k: int = n - 1;
    let xk: int = k % tx;
    let yk: int = k / tx;
    let prev = cells_spec(canvas, input, sprites, a, tx, (n - 1) as nat);
    lemma_cells_dims(canvas, input, sprites, a, tx, (n - 1) as nat);
    vstd::arithmetic::div_mod::lemma_mod_pos_bound(k, tx);
    vstd::arithmetic::div_mod::lemma_fundamental_div_mod(k, tx);
    assert(tx * (k / tx) == (k / tx) * tx) by (nonlinear_arith);
    crate::img::lemma_row_major_bound(wi, canvas.height as int, px, py);
    vstd::arithmetic::div_mod::lemma_fundamental_div_mod_converse(i, wi, py, px);
    assert(0 <= yk);
    let sp = shader_spec(sprites[cell_index_spec(a, xk, yk)], sample_spec(input, xk, yk));
    vstd::arithmetic::div_mod::lemma_mod_bound(a + xk - yk, 6);
    assert(sp.width == 74 && sp.height == 63);
    if k == cy * tx + cx {
        vstd::arithmetic::div_mod::lemma_fundamental_div_mod_converse(k, tx, cy, cx);
        assert(xk == cx && yk == cy);
        assert(cells_spec(canvas, input, sprites, a, tx, n).pixel(px, py) == sp.pixel(dx, dy));
    } else {
        if xk == cx && yk == cy {
            assert(k == yk * tx + xk);
            assert(false);
        }
        // A different cell's rectangle is disjoint from this pixel, so the
        // later paste leaves it alone.
        assert(!crate::img::paste_region(sp, xk * 74 + 10, yk * 63 + 10, px, py));
        lemma_cells_pixel_upto(canvas, input, sprites, a, tx, (n - 1) as nat, cx, cy, dx, dy);
        assert(cells_spec(canvas, input, sprites, a, tx, n).pixel(px, py) == prev.pixels[i]);
        assert(prev.pixel(px, py) == prev.pixels[i]);
    }
}

/// A pixel outside the mosaic band is never touched by a paste.
proof fn lemma_cells_border_pixel_upto(
    canvas: ImgV,
    input: ImgV,
    sprites: Seq<ImgV>,
    a: int,
    tx: int,
    ty: int,
    n: nat,
    px: int,
    py: int,
)
    requires
        canvas.wf(),
        1 <= tx,
        1 <= ty,
        canvas.width == tx * 74 + 20,
        canvas.height == ty * 63 + 20,
        0 <= px < canvas.width,
        0 <= py < canvas.height,
        !(10 <= px < 10 + 74 * tx) || !(10 <= py < 10 + 63 * ty),
        n <= tx * ty,
        forall|i: int|
            0 <= i < sprites.len() ==> {
                &&& (#[trigger] sprites[i]).wf()
                &&& sprites[i].width == 74
                &&& sprites[i].height == 63
            },
        sprites.len() == 6,
    ensures
        cells_spec(canvas, input, sprites, a, tx, n).pixel(px, py) == canvas.pixel(px, py),
    decreases n,
{
    if n > 0 {
        let wi: int = canvas.width as int;
        let i: int = py * wi + px;
        let k: int = n - 1;
        let xk: int = k % tx;
        let yk: int = k / tx;
        lemma_cells_dims(canvas, input, sprites, a, tx, (n - 1) as nat);
        vstd::arithmetic::div_mod::lemma_mod_pos_bound(k, tx);
        assert(yk < ty) by (nonlinear_arith)
            requires
                1 <= tx,
                0 <= k < tx * ty,
                yk == k / tx,
        ;
        vstd::arithmetic::div_mod::lemma_div_pos_is_pos(k, tx);
        crate::img::lemma_row_major_bound(wi, canvas.height as int, px, py);
        vstd::arithmetic::div_mod::lemma_fundamental_div_mod_converse(i, wi, py, px);
        let sp = shader_spec(sprites[cell_index_spec(a, xk, yk)], sample_spec(input, xk, yk));
        vstd::arithmetic::div_mod::lemma_mod_bound(a + xk - yk, 6);
        assert(sp.width == 74 && sp.height == 63);
        // The cell's rectangle lies wholly inside the mosaic band, so it
        // cannot reach this pixel.
        assert(!crate::img::paste_region(sp, xk * 74 + 10, yk * 63 + 10, px, py));
        lemma_cells_border_pixel_upto(canvas, input, sprites, a, tx, ty, (n - 1) as nat, px, py);
    }
}

/// What one frame shows around the mosaic: a pixel of the padding band —
/// outside every pasted cell — is the resampled background's pixel, passed
/// through the final white-to-fill background substitution.
pub proof fn lemma_frame_border_pixel(
    canvas: ImgV,
    input: ImgV,
    sprites: Seq<ImgV>,
    a: int,
    tx: int,
    ty: int,
    px: int,
    py: int,
)
    requires
        canvas.wf(),
        canvas.width == tx * 74 + 20,
        canvas.height == ty * 63 + 20,
        1 <= tx,
        1 <= ty,
        0 <= px < canvas.width,
        0 <= py < canvas.height,
        !(10 <= px < 10 + 74 * tx) || !(10 <= py < 10 + 63 * ty),
        forall|i: int|
            0 <= i < sprites.len() ==> {
                &&& (#[trigger] sprites[i]).wf()
                &&& sprites[i].width == 74
                &&& sprites[i].height == 63
            },
        sprites.len() == 6,
    ensures
        subst_img(
            cells_spec(canvas, input, sprites, a, tx, (tx * ty) as nat),
            white(),
            bg_fill(),
        ).pixel(px, py) == crate::filter::subst_pixel(canvas.pixel(px, py), white(), bg_fill()),
{
    let wi: int = canvas.width as int;
    assert(0 <= tx * ty) by (nonlinear_arith)
        requires
            1 <= tx,
            1 <= ty,
    ;
    lemma_cells_border_pixel_upto(canvas, input, sprites, a, tx, ty, (tx * ty) as nat, px, py);
    lemma_cells_dims(canvas, input, sprites, a, tx, (tx * ty) as nat);
    crate::img::lemma_row_major_bound(wi, canvas.height as int, px, py);
}

/// What one frame shows where a sprite was pasted: the pixel at offset
/// `(dx, dy)` inside cell `(cx, cy)` of the finished frame is the shaded
/// sprite pixel of that cell — the sprite picked by the diagonal pattern,
/// recoloured from the cell's sample — passed through the final white-to-
/// fill background substitution.
pub proof fn lemma_frame_cell_pixel(
    canvas: ImgV,
    input: ImgV,
    sprites: Seq<ImgV>,
    a: int,
    tx: int,
    ty: int,
    cx: int,
    cy: int,
    dx: int,
    dy: int,
)
    requires
        canvas.wf(),
        canvas.width == tx * 74 + 20,
        canvas.height == ty * 63 + 20,
        1 <= tx,
        1 <= ty,
        0 <= cx < tx,
        0 <= cy < ty,
        0 <= dx < 74,
        0 <= dy < 63,
        forall|i: int|
            0 <= i < sprites.len() ==> {
                &&& (#[trigger] sprites[i]).wf()
                &&& sprites[i].width == 74
                &&& sprites[i].height == 63
            },
        sprites.len() == 6,
    ensures
        subst_img(
            cells_spec(canvas, input, sprites, a, tx, (tx * ty) as nat),
            white(),
            bg_fill(),
        ).pixel(cx * 74 + 10 + dx, cy * 63 + 10 + dy) == crate::filter::subst_pixel(
            shader_spec(sprites[cell_index_spec(a, cx, cy)], sample_spec(input, cx, cy)).pixel(
                dx,
                dy,
            ),
            white(),
            bg_fill(),
        ),
{
    let wi: int = canvas.width as int;
    let px: int = cx * 74 + 10 + dx;
    let py: int = cy * 63 + 10 + dy;
    crate::img::lemma_row_major_bound(tx, ty, cx, cy);
    lemma_cells_pixel_upto(canvas, input, sprites, a, tx, (tx * ty) as nat, cx, cy, dx, dy);
    lemma_cells_dims(canvas, input, sprites, a, tx, (tx * ty) as nat);
    crate::img::lemma_row_major_bound(wi, canvas.height as int, px, py);
}

/// Build the six animation frames. Always returns exactly six frames of
/// identical size: `tx*74 + 20` by `ty*63 + 20` pixels.
#[verifier::loop_isolation(false)]
pub fn compose(input: &Img, sprites: &Vec<Img>, bg: &Img, tx: usize, ty: usize) -> (frames: Vec<
    Img,
>)
    requires
        input.wf(),
        bg.wf(),
        input@.width == tx,
        input@.height == ty,
        1 <= tx <= 885,
        1 <= ty <= 50,
        sprites@.len() == 6,
        forall|s: int|
            0 <= s < 6 ==> {
                &&& (#[trigger] sprites@[s]).wf()
                &&& sprites@[s]@.width == 74
                &&& sprites@[s]@.height == 63
            },
        1 <= bg@.width <= u32::MAX,
        1 <= bg@.height <= u32::MAX,
    ensures
        frames@.len() == 6,
        forall|a: int|
            0 <= a < 6 ==> {
                &&& (#[trigger] frames@[a]).wf()
                &&& frames@[a]@.width == tx * 74 + 20
                &&& frames@[a]@.height == ty * 63 + 20
                &&& frames@[a]@ == frame_spec(
                    input@,
                    views_of_imgs(sprites@),
                    bg@,
                    a,
                    tx as int,
                    ty as int,
                )
            },
{
    let ghost spv: Seq<ImgV> = views_of_imgs(sprites@);
    proof {
        assert(tx * ty <= 885 * 50) by (nonlinear_arith)
            requires
                1 <= tx <= 885,
                1 <= ty <= 50,
        ;
    }
    let ix: usize = tx * CELL_W + 2 * PAD;
    let iy: usize = ty * CELL_H + 2 * PAD;
    let total: usize = tx * ty;
    let mut frames: Vec<Img> = Vec::new();
    let mut a: usize = 0;
    while a < SPRITE_COUNT
        invariant
            a <= 6,
            frames@.len() == a,
            forall|j: int|
                0 <= j < a ==> {
                    &&& (#[trigger] frames@[j]).wf()
                    &&& frames@[j]@.width == tx * 74 + 20
                    &&& frames@[j]@.height == ty * 63 + 20
                    &&& frames@[j]@ == frame_spec(input@, spv, bg@, j, tx as int, ty as int)
                },
        decreases 6 - a,
    {
        let mut canvas: Img = resize_rgb(bg, ix as u32, iy as u32);
        let ghost canvas0: ImgV = canvas@;
        let mut k: usize = 0;
        while k < total
            invariant
                k <= total,
                canvas.wf(),
                canvas@.width == ix,
                canvas@.height == iy,
                canvas@ == cells_spec(canvas0, input@, spv, a as int, tx as int, k as nat),
            decreases total - k,
        {
            let x: usize = k % tx;
            let y: usize = k / tx;
            proof {
                lemma_mod_pos_bound(k as int, tx as int);
                assert((k as int) / (tx as int) < ty) by (nonlinear_arith)
                    requires
                        1 <= tx,
                        0 <= k,
                        (k as int) < tx * ty,
                ;
            }
            let sx: usize = cell_index(a, x, y);
            let sample0: Rgb = input.get(x, y);
            let sample: Rgb = if sample0.r == 255 && sample0.g == 255 && sample0.b == 255 {
                Rgb { r: 254, g: 254, b: 254 }
            } else {
                sample0
            };
            let sh: Img = shader(&sprites[sx], sample);
            paste(&mut canvas, &sh, x * CELL_W + PAD, y * CELL_H + PAD);
            k = k + 1;
        }
        let set_bg_colour = ImageShader::new(
            ColourMapper::new(Rgb { r: 255, g: 255, b: 255 }, Rgb { r: 0, g: 2, b: 0 }),
        );
        let filtered: Img = set_bg_colour.filter(&canvas);
        frames.push(filtered);
        a = a + 1;
    }
    frames
}

} // verus!
