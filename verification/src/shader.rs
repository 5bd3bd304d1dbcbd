//! The sprite shader: recolours one sprite template from one sampled colour.
//!
//! The sampled colour is lifted to a black-level floor of one fifth in HSV
//! value, a darker shade is derived from it (each channel scaled by 33/50,
//! then the hue shifted down by 127/2000, wrapping into `[0, 1)`), and the
//! template's two reserved marker colours are substituted by the entry and
//! shade colours in turn.

use vstd::prelude::*;

use crate::colour::{hsv_to_rgb, hsv_to_rgb_spec, max_channel, rgb_to_hsv, rgb_to_hsv_spec, Hsv};
use crate::filter::{subst_img, ColourMapper, ImageShader};
use crate::img::{Img, ImgV, Rgb};

verus! {

/// The template colour that marks a sprite's lit side.
pub open spec fn highlight_marker() -> Rgb {
    Rgb { r: 255, g: 0, b: 0 }
}

/// The template colour that marks a sprite's shadow side.
pub open spec fn shadow_marker() -> Rgb {
    Rgb { r: 0, g: 0, b: 255 }
}

/// Exec copy of [`highlight_marker`].
pub fn highlight_marker_px() -> (c: Rgb)
    ensures
        c == highlight_marker(),
{
    Rgb { r: 255, g: 0, b: 0 }
}

/// Exec copy of [`shadow_marker`].
pub fn shadow_marker_px() -> (c: Rgb)
    ensures
        c == shadow_marker(),
{
    Rgb { r: 0, g: 0, b: 255 }
}

/// The entry colour: the sampled colour itself, unless its HSV value falls
/// below the black-level floor of one fifth, in which case it is
/// reconstructed with the value pinned at exactly one fifth.
pub open spec fn entry_spec(c: Rgb) -> Rgb {
    let hsv = rgb_to_hsv_spec(c);
    if 5 * hsv.vn < hsv.vd {
        hsv_to_rgb_spec(Hsv { hn: hsv.hn, hd: hsv.hd, sn: hsv.sn, sd: hsv.sd, vn: 1, vd: 5 })
    } else {
        c
    }
}

/// One channel of the darker variant: scaled by 33/50, truncated.
pub open spec fn dim_channel(x: u8) -> int {
    (x * 33) / 50
}

/// The shade colour: the entry colour dimmed channel-wise, then hue-shifted
/// down by 127/2000 with wrap-around into `[0, 1)`.
pub open spec fn shade_spec(c: Rgb) -> Rgb {
    let e = entry_spec(c);
    let dimmed = Rgb {
        r: dim_channel(e.r) as u8,
        g: dim_channel(e.g) as u8,
        b: dim_channel(e.b) as u8,
    };
    let hsv = rgb_to_hsv_spec(dimmed);
    let shifted: int = if 2000 * hsv.hn >= 127 * hsv.hd {
        2000 * hsv.hn - 127 * hsv.hd
    } else {
        2000 * hsv.hn + 2000 * hsv.hd - 127 * hsv.hd
    };
    hsv_to_rgb_spec(
        Hsv {
            hn: shifted as u64,
            hd: (2000 * hsv.hd) as u64,
            sn: hsv.sn,
            sd: hsv.sd,
            vn: hsv.vn,
            vd: hsv.vd,
        },
    )
}

/// What the shader does to a whole template: substitute the highlight
/// marker by the entry colour, then the shadow marker by the shade colour.
pub open spec fn shader_spec(t: ImgV, c: Rgb) -> ImgV {
    subst_img(subst_img(t, highlight_marker(), entry_spec(c)), shadow_marker(), shade_spec(c))
}

/// The shader is deterministic: its output is a function of the template
/// and the sampled colour alone, so two runs on identical inputs are
/// byte-identical.
pub proof fn lemma_shader_deterministic(t: ImgV, c: Rgb, out1: ImgV, out2: ImgV)
    requires
        out1 == shader_spec(t, c),
        out2 == shader_spec(t, c),
    ensures
        out1 == out2,
{
}

/// Black-level clamp: where the sampled colour's HSV value sits strictly
/// below one fifth, the derived entry colour's value is exactly one fifth
/// — its largest channel is 51, and 51 * 5 == 255 — never less.
pub proof fn lemma_black_level_clamp(c: Rgb)
    requires
        5 * rgb_to_hsv_spec(c).vn < rgb_to_hsv_spec(c).vd,
    ensures
        max_channel(entry_spec(c)) == 51,
        5 * max_channel(entry_spec(c)) == 255,
{
    let hsv = rgb_to_hsv_spec(c);
    crate::colour::lemma_rgb_to_hsv_wf(c);
    let clamped = Hsv { hn: hsv.hn, hd: hsv.hd, sn: hsv.sn, sd: hsv.sd, vn: 1, vd: 5 };
    crate::colour::lemma_hsv_to_rgb_value(clamped);
}

/// Compute the entry colour for a sampled colour.
pub fn entry_colour(c: Rgb) -> (e: Rgb)
    ensures
        e == entry_spec(c),
{
    let hsv: Hsv = rgb_to_hsv(c);
    if 5 * hsv.vn < hsv.vd {
        hsv_to_rgb(Hsv { hn: hsv.hn, hd: hsv.hd, sn: hsv.sn, sd: hsv.sd, vn: 1, vd: 5 })
    } else {
        c
    }
}

/// Compute the shade colour for a sampled colour.
pub fn shade_colour(c: Rgb) -> (s: Rgb)
    ensures
        s == shade_spec(c),
{
    let e: Rgb = entry_colour(c);
    let dimmed = Rgb {
        r: (e.r as u64 * 33 / 50) as u8,
        g: (e.g as u64 * 33 / 50) as u8,
        b: (e.b as u64 * 33 / 50) as u8,
    };
    let hsv: Hsv = rgb_to_hsv(dimmed);
    let shifted: u64 = if 2000 * hsv.hn >= 127 * hsv.hd {
        2000 * hsv.hn - 127 * hsv.hd
    } else {
        2000 * hsv.hn + 2000 * hsv.hd - 127 * hsv.hd
    };
    hsv_to_rgb(
        Hsv {
            hn: shifted,
            hd: 2000 * hsv.hd,
            sn: hsv.sn,
            sd: hsv.sd,
            vn: hsv.vn,
            vd: hsv.vd,
        },
    )
}

/// Recolour one sprite template from one sampled colour.
pub fn shader(t: &Img, p_rgb: Rgb) -> (out: Img)
    requires
        t.wf(),
    ensures
        out.wf(),
        out@ == shader_spec(t@, p_rgb),
        out@.width == t@.width,
        out@.height == t@.height,
{
    let entry: Rgb = entry_colour(p_rgb);
    let shade: Rgb = shade_colour(p_rgb);
    let lookup = ImageShader::new(ColourMapper::new(highlight_marker_px(), entry));
    let lookup2 = ImageShader::new(ColourMapper::new(shadow_marker_px(), shade));
    let converted: Img = lookup.filter(t);
    lookup2.filter(&converted)
}

} // verus!
