//! Grid geometry: the mosaic's column count, the frame dimensions, and the
//! diagonal sprite-selection pattern.

use vstd::prelude::*;

use vstd::arithmetic::div_mod::{
    lemma_fundamental_div_mod, lemma_mod_multiples_vanish, lemma_mod_pos_bound,
};

verus! {

/// Width of one sprite cell in pixels.
pub const CELL_W: usize = 74;

/// Height of one sprite cell in pixels.
pub const CELL_H: usize = 63;

/// Padding around the mosaic on every side of a frame.
pub const PAD: usize = 10;

/// Number of sprite templates, and of animation frames.
pub const SPRITE_COUNT: usize = 6;

/// Largest accepted tile height.
pub const MAX_TY: u64 = 50;

/// Largest column count whose frame width still fits the GIF format's
/// 16-bit dimensions: `885 * 74 + 20 <= 65535`.
pub const MAX_TX: u64 = 885;

/// The mosaic's column count for a tile height `ty` and an input of `w` by
/// `h` pixels: `round(ty * (w/h) * 0.862)`, the constant correcting for the
/// sprite footprint's non-square aspect. As an integer: `0.862 = 431/500`,
/// and rounding half up makes it `(862*ty*w + 500*h) / (1000*h)`.
pub open spec fn grid_tx_spec(ty: int, w: int, h: int) -> int {
    (862 * ty * w + 500 * h) / (1000 * h)
}

/// Compute the column count.
pub fn grid_tx(ty: u64, w: u64, h: u64) -> (tx: u64)
    requires
        1 <= ty <= MAX_TY,
        1 <= h <= u32::MAX,
        w <= u32::MAX,
    ensures
        tx == grid_tx_spec(ty as int, w as int, h as int),
{
    proof {
        assert((862 * ty) * w <= 43100 * 0xffff_ffff) by (nonlinear_arith)
            requires
                862 * ty <= 43100,
                w <= 0xffff_ffff,
        ;
    }
    let num: u64 = 862 * ty * w + 500 * h;
    let den: u64 = 1000 * h;
    num / den
}

/// The sprite chosen for column `x`, row `y` of animation frame `a`: the
/// row starts at `(a - y) mod 6` and the index advances by one per column,
/// wrapping — the diagonal marching pattern.
pub open spec fn cell_index_spec(a: int, x: int, y: int) -> int {
    (a + x - y) % 6
}

/// Compute the sprite index for one cell.
pub fn cell_index(a: usize, x: usize, y: usize) -> (i: usize)
    requires
        a < 6,
        x <= 0xffff,
        y <= 0xffff,
    ensures
        i < 6,
        i == cell_index_spec(a as int, x as int, y as int),
{
    let ym: usize = y % 6;
    let i: usize = (a + x + 6 - ym) % 6;
    proof {
        lemma_mod_pos_bound(y as int, 6);
        lemma_mod_pos_bound((a + x + 6 - ym) as int, 6);
        lemma_fundamental_div_mod(y as int, 6);
        // The argument differs from a + x - y by the multiple 6 * (1 + y/6).
        lemma_mod_multiples_vanish(1 + y as int / 6, a + x - y, 6);
        assert(6 * (1 + y as int / 6) + (a + x - y) == a + x + 6 - ym);
    }
    i
}

} // verus!
