use dumpy::colour::{hsv_to_rgb, rgb_to_hsv, Hsv};
use dumpy::filter::{ColourMapper, ImageShader};
use dumpy::grid::{cell_index, grid_tx};
use dumpy::img::{paste, Img, Rgb};
use dumpy::shader::{entry_colour, shade_colour, shader};

fn rgb(r: u8, g: u8, b: u8) -> Rgb {
    Rgb { r, g, b }
}

#[test]
fn hsv_round_trip_is_exact_on_samples() {
    let vals: [u8; 13] = [0, 1, 2, 3, 50, 51, 52, 127, 128, 200, 253, 254, 255];
    for &r in vals.iter() {
        for &g in vals.iter() {
            for &b in vals.iter() {
                let c = rgb(r, g, b);
                assert_eq!(hsv_to_rgb(rgb_to_hsv(c)), c);
            }
        }
    }
}

#[test]
fn hsv_round_trip_is_exact_on_gray_ramp() {
    for v in 0..=255u8 {
        let c = rgb(v, v, v);
        assert_eq!(hsv_to_rgb(rgb_to_hsv(c)), c);
    }
}

#[test]
fn rgb_to_hsv_of_pure_red() {
    let h = rgb_to_hsv(rgb(255, 0, 0));
    assert_eq!(
        h,
        Hsv { hn: 0, hd: 1530, sn: 255, sd: 255, vn: 255, vd: 255 }
    );
}

#[test]
fn rgb_to_hsv_of_gray_has_zero_hue_and_saturation() {
    let h = rgb_to_hsv(rgb(77, 77, 77));
    assert_eq!(h.hn, 0);
    assert_eq!(h.sn, 0);
    assert_eq!(h.vn, 77);
    assert_eq!(h.vd, 255);
}

#[test]
fn hsv_to_rgb_with_zero_saturation_is_gray() {
    let c = hsv_to_rgb(Hsv { hn: 3, hd: 7, sn: 0, sd: 1, vn: 128, vd: 255 });
    assert_eq!(c, rgb(128, 128, 128));
}

#[test]
fn grid_sizing_concrete() {
    // A 16:9 input with tile height 15: round(15 * (16/9) * 0.862) = 23.
    assert_eq!(grid_tx(15, 16, 9), 23);
    assert_eq!(grid_tx(15, 1920, 1080), 23);
    assert_eq!(grid_tx(1, 1, 1), 1);
    // A very tall input degenerates to zero columns.
    assert_eq!(grid_tx(1, 1, 100), 0);
}

#[test]
fn diagonal_pattern_indices() {
    // Row base is (a - y) mod 6; one more per column, wrapping.
    assert_eq!(cell_index(0, 0, 0), 0);
    assert_eq!(cell_index(0, 1, 0), 1);
    assert_eq!(cell_index(0, 5, 0), 5);
    assert_eq!(cell_index(0, 6, 0), 0);
    assert_eq!(cell_index(0, 0, 1), 5);
    assert_eq!(cell_index(0, 0, 2), 4);
    assert_eq!(cell_index(3, 2, 1), 4);
    assert_eq!(cell_index(5, 1, 0), 0);
}

#[test]
fn substitution_is_exact_match_only() {
    let m = ColourMapper::new(rgb(1, 2, 3), rgb(9, 9, 9));
    assert_eq!(m.lookup_pixel(&rgb(1, 2, 3)), rgb(9, 9, 9));
    // A pixel that differs in any one channel passes through unchanged.
    assert_eq!(m.lookup_pixel(&rgb(1, 2, 4)), rgb(1, 2, 4));
    assert_eq!(m.lookup_pixel(&rgb(0, 2, 3)), rgb(0, 2, 3));
    assert_eq!(m.lookup_pixel(&rgb(1, 3, 3)), rgb(1, 3, 3));
}

#[test]
fn filter_replaces_only_matching_pixels() {
    let img = Img {
        width: 3,
        height: 1,
        pixels: vec![rgb(1, 2, 3), rgb(4, 5, 6), rgb(1, 2, 3)],
    };
    let s = ImageShader::new(ColourMapper::new(rgb(1, 2, 3), rgb(7, 7, 7)));
    let out = s.filter(&img);
    assert_eq!(out.width, 3);
    assert_eq!(out.height, 1);
    assert_eq!(out.pixels, vec![rgb(7, 7, 7), rgb(4, 5, 6), rgb(7, 7, 7)]);
}

#[test]
fn shader_is_deterministic() {
    let t = Img {
        width: 2,
        height: 2,
        pixels: vec![rgb(255, 0, 0), rgb(0, 0, 255), rgb(12, 34, 56), rgb(255, 0, 0)],
    };
    let c = rgb(200, 150, 30);
    let out1 = shader(&t, c);
    let out2 = shader(&t, c);
    assert_eq!(out1.pixels, out2.pixels);
    assert_eq!(out1.width, out2.width);
    assert_eq!(out1.height, out2.height);
}

#[test]
fn entry_keeps_bright_colours() {
    assert_eq!(entry_colour(rgb(255, 0, 0)), rgb(255, 0, 0));
    assert_eq!(entry_colour(rgb(60, 200, 10)), rgb(60, 200, 10));
}

#[test]
fn entry_clamps_near_black_to_one_fifth_value() {
    // Value below 51/255 = 0.2: the entry colour's largest channel becomes
    // exactly 51, never less.
    for c in [rgb(10, 0, 0), rgb(0, 50, 49), rgb(3, 1, 2), rgb(0, 0, 1)] {
        let e = entry_colour(c);
        let maxc = e.r.max(e.g).max(e.b);
        assert_eq!(maxc, 51);
    }
    // The boundary: value exactly 51 is not below the floor.
    assert_eq!(entry_colour(rgb(51, 0, 0)), rgb(51, 0, 0));
}

#[test]
fn shade_of_red_concrete() {
    // entry = (255,0,0); dimmed = (168,0,0); hue 0 shifts to 1873/2000,
    // sector 5 with value 168/255 gives (168, 0, 64).
    assert_eq!(shade_colour(rgb(255, 0, 0)), rgb(168, 0, 64));
}

#[test]
fn shader_recolours_both_markers() {
    let t = Img {
        width: 3,
        height: 1,
        pixels: vec![rgb(255, 0, 0), rgb(0, 0, 255), rgb(8, 8, 8)],
    };
    let out = shader(&t, rgb(255, 0, 0));
    assert_eq!(out.pixels[0], rgb(255, 0, 0)); // highlight -> entry (red itself)
    assert_eq!(out.pixels[1], rgb(168, 0, 64)); // shadow -> shade of red
    assert_eq!(out.pixels[2], rgb(8, 8, 8)); // anything else untouched
}

#[test]
fn paste_overwrites_only_the_target_rectangle() {
    let mut base = Img::new_fill(3, 2, rgb(0, 0, 0));
    let sp = Img { width: 1, height: 1, pixels: vec![rgb(5, 5, 5)] };
    paste(&mut base, &sp, 1, 0);
    assert_eq!(
        base.pixels,
        vec![
            rgb(0, 0, 0),
            rgb(5, 5, 5),
            rgb(0, 0, 0),
            rgb(0, 0, 0),
            rgb(0, 0, 0),
            rgb(0, 0, 0),
        ]
    );
}

#[test]
fn image_get_and_set() {
    let mut img = Img::new_fill(2, 2, rgb(1, 1, 1));
    img.set(1, 0, rgb(9, 8, 7));
    assert_eq!(img.get(1, 0), rgb(9, 8, 7));
    assert_eq!(img.get(0, 0), rgb(1, 1, 1));
    assert_eq!(img.get(1, 1), rgb(1, 1, 1));
}

#[test]
fn hsv_to_rgb_mid_hue_is_cyan() {
    // Hue one half, full saturation and value: sector 3 with no fraction.
    let c = hsv_to_rgb(Hsv { hn: 1, hd: 2, sn: 255, sd: 255, vn: 255, vd: 255 });
    assert_eq!(c, rgb(0, 255, 255));
}
