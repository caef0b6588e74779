use ordered_dither::{
    channel_offset, closest_color, dither, dither_named, dither_pixel, palette, perturb,
    DitherError, PerturbedColor, Pixel, Tile, PALETTE_LEN,
};

fn px(r: u8, g: u8, b: u8) -> Pixel {
    Pixel { r, g, b }
}

fn wide(r: i32, g: i32, b: i32) -> PerturbedColor {
    PerturbedColor { r, g, b }
}

fn tile(name: &str) -> Tile {
    match Tile::from_name(name) {
        Ok(t) => t,
        Err(e) => panic!("tile {} refused: {:?}", name, e),
    }
}

const NAMES: [&str; 9] = ["2x2", "4x4", "8x8", "4x2", "8x2", "8x4", "3x3", "5x3", "4x1"];

#[test]
fn palette_has_eighteen_fixed_entries() {
    let p = palette();
    assert_eq!(p.len(), PALETTE_LEN);
    assert_eq!(p[0], px(0, 0, 0));
    assert_eq!(p[4], px(0x00, 0x80, 0xFF));
    assert_eq!(p[17], px(0xFF, 0xFF, 0xFF));
}

#[test]
fn all_named_tiles_are_permutations() {
    let sizes = [(2, 2), (4, 4), (8, 8), (4, 2), (8, 2), (8, 4), (3, 3), (5, 3), (4, 1)];
    for (name, (w, h)) in NAMES.iter().zip(sizes.iter()) {
        let t = tile(name);
        assert_eq!(t.width(), *w);
        assert_eq!(t.height(), *h);
        assert_eq!(t.divisor(), w * h);
    }
}

#[test]
fn four_by_four_tile_matches_bayer_matrix() {
    let t = tile("4x4");
    let expected = [0, 12, 3, 15, 8, 4, 11, 7, 2, 14, 1, 13, 10, 6, 9, 5];
    for y in 0..4 {
        for x in 0..4 {
            assert_eq!(t.rank_at(x, y), expected[y * 4 + x]);
        }
    }
}

#[test]
fn non_square_tile_uses_height_as_row_stride() {
    // 8x4: row 1, column 0 reads flat index 1 * 4 + 0 = 4, rank 2.
    let t = tile("8x4");
    assert_eq!(t.rank_at(0, 1), 2);
    // Row 3, column 7 reads flat index 3 * 4 + 7 = 19, rank 27.
    assert_eq!(t.rank_at(7, 3), 27);
    // 5x3: row 2, column 4 reads flat index 2 * 3 + 4 = 10, rank 6.
    let t = tile("5x3");
    assert_eq!(t.rank_at(4, 2), 6);
}

#[test]
fn unknown_tile_name_is_rejected() {
    for name in ["6x6", "", "4x", "4x44", "4X4", "1x4", " 4x4"] {
        assert!(matches!(Tile::from_name(name), Err(DitherError::InvalidTileName)));
    }
}

#[test]
fn unsupported_tile_fails_without_output() {
    let src = vec![px(10, 20, 30); 4];
    assert_eq!(dither_named(&src, 2, 2, "6x6"), Err(DitherError::InvalidTileName));
}

#[test]
fn channel_offsets_truncate_toward_zero() {
    // 2x2 ranks 0..3 give factors -0.4, -0.15, 0.1, 0.35.
    assert_eq!(channel_offset(0, 4, 85, 1), -34);
    assert_eq!(channel_offset(1, 4, 85, 1), -12);
    assert_eq!(channel_offset(2, 4, 85, 1), 8);
    assert_eq!(channel_offset(3, 4, 85, 1), 29);
    assert_eq!(channel_offset(0, 4, 255, 2), -51);
    assert_eq!(channel_offset(1, 4, 255, 2), -19);
    assert_eq!(channel_offset(2, 4, 255, 2), 12);
    assert_eq!(channel_offset(3, 4, 255, 2), 44);
    // (14 / 15 - 0.4) * 127.5 is exactly 68.
    assert_eq!(channel_offset(14, 15, 255, 2), 68);
    assert_eq!(channel_offset(2, 15, 255, 2), -34);
}

#[test]
fn perturbation_stays_within_six_tenths_of_amplitude() {
    for d in [1u32, 4, 8, 9, 15, 16, 32, 64] {
        for r in 0..d {
            let rg = channel_offset(r, d, 85, 1);
            let b = channel_offset(r, d, 255, 2);
            assert!(-34 <= rg && rg < 51, "rank {} of {}", r, d);
            assert!(-51 <= b && b <= 76, "rank {} of {}", r, d);
        }
    }
}

#[test]
fn perturb_moves_each_channel() {
    assert_eq!(perturb(px(128, 128, 128), 0, 4), wide(94, 94, 77));
    assert_eq!(perturb(px(128, 128, 128), 3, 4), wide(157, 157, 172));
    assert_eq!(perturb(px(0, 0, 0), 0, 16), wide(-34, -34, -51));
}

#[test]
fn quantizer_picks_nearest_entry() {
    assert_eq!(closest_color(wide(250, 5, 3)), px(0xFF, 0, 0));
    assert_eq!(closest_color(wide(300, 300, 300)), px(0xFF, 0xFF, 0xFF));
    assert_eq!(closest_color(wide(-1000, -5, -5)), px(0, 0, 0));
    assert_eq!(closest_color(wide(i32::MAX, i32::MIN, i32::MAX)), px(0xFF, 0, 0xFF));
}

#[test]
fn quantizer_tie_goes_to_later_entry() {
    // (64, 0, 0) is 64 away from both black and (0x80, 0, 0).
    assert_eq!(closest_color(wide(64, 0, 0)), px(0x80, 0, 0));
    // (0, 64, 0) is 64 away from both black and (0, 0x80, 0).
    assert_eq!(closest_color(wide(0, 64, 0)), px(0, 0x80, 0));
}

#[test]
fn black_stays_black_with_four_by_four() {
    let src = vec![px(0, 0, 0); 16];
    let out = dither_named(&src, 4, 4, "4x4").unwrap();
    assert_eq!(out.len(), 16);
    for p in out {
        assert_eq!(p, px(0, 0, 0));
    }
}

#[test]
fn white_pixel_stays_white_with_any_tile() {
    let src = vec![px(255, 255, 255)];
    for name in NAMES {
        let out = dither_named(&src, 1, 1, name).unwrap();
        assert_eq!(out, vec![px(0xFF, 0xFF, 0xFF)]);
    }
}

#[test]
fn mid_gray_two_by_two_follows_tile_ranks() {
    let src = vec![px(128, 128, 128); 4];
    let out = dither_named(&src, 2, 2, "2x2").unwrap();
    // Ranks 0, 3 on the first row and 2, 1 on the second.
    assert_eq!(out[0], closest_color(wide(94, 94, 77)));
    assert_eq!(out[1], closest_color(wide(157, 157, 172)));
    assert_eq!(out[2], closest_color(wide(136, 136, 140)));
    assert_eq!(out[3], closest_color(wide(116, 116, 109)));
    assert_eq!(out, vec![px(128, 128, 0), px(128, 128, 255), px(128, 128, 255), px(128, 128, 0)]);
}

#[test]
fn tile_modulus_wraps_columns_and_rows() {
    let t = tile("8x4");
    assert_eq!(t.rank_at(8, 0), t.rank_at(0, 0));
    assert_eq!(t.rank_at(0, 4), t.rank_at(0, 0));
    assert_eq!(t.rank_at(13, 6), t.rank_at(5, 2));
}

#[test]
fn output_repeats_with_tile_period() {
    let t = tile("3x3");
    let (w, h) = (7usize, 5usize);
    let src = vec![px(90, 160, 40); w * h];
    let out = dither(&src, w, h, &t);
    for y in 0..h {
        for x in 0..w {
            let (x0, y0) = (x % 3, y % 3);
            assert_eq!(out[y * w + x], out[y0 * w + x0]);
            assert_eq!(out[y * w + x], dither_pixel(px(90, 160, 40), x, y, &t));
        }
    }
}

#[test]
fn dithering_is_deterministic() {
    let (w, h) = (6usize, 5usize);
    let src: Vec<Pixel> = (0..w * h)
        .map(|i| px((i * 37 % 256) as u8, (i * 91 % 256) as u8, (i * 13 % 256) as u8))
        .collect();
    for name in NAMES {
        let a = dither_named(&src, w, h, name).unwrap();
        let b = dither_named(&src, w, h, name).unwrap();
        assert_eq!(a, b);
    }
}

#[test]
fn output_is_always_a_palette_colour() {
    let pal = palette();
    let (w, h) = (9usize, 7usize);
    let src: Vec<Pixel> = (0..w * h)
        .map(|i| px((i * 29 % 256) as u8, (i * 53 % 256) as u8, (255 - i * 7 % 256) as u8))
        .collect();
    for name in NAMES {
        let out = dither_named(&src, w, h, name).unwrap();
        assert_eq!(out.len(), src.len());
        for p in out {
            assert!(pal.contains(&p));
        }
    }
}

#[test]
fn empty_grid_gives_empty_output() {
    let src: Vec<Pixel> = Vec::new();
    assert_eq!(dither_named(&src, 0, 0, "8x8"), Ok(Vec::new()));
    assert_eq!(dither_named(&src, 5, 0, "4x1"), Ok(Vec::new()));
}
