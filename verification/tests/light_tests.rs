use aquarium_espresso::light::{
    clamp_to_screen, load_backdrop, pool_sweep_in_range, prep_backdrop, shade_row, tone_backdrop, LightState, LUT_N,
    SCR_H, SCR_W,
};

fn flat_light() -> LightState {
    LightState::new(&[255i32; LUT_N], &[255i32; LUT_N], [100u8; SCR_H])
}

#[test]
fn new_light_clamps_wave_levels() {
    let mut caustic = [128i32; LUT_N];
    caustic[0] = -40;
    caustic[1] = 300;
    caustic[2] = 7;
    let mut pool = [128i32; LUT_N];
    pool[511] = 1000;
    let l = LightState::new(&caustic, &pool, [3u8; SCR_H]);
    assert_eq!(&l.caustic_lut[..4], &[0, 255, 7, 128]);
    assert_eq!(l.pool_lut[511], 255);
    assert_eq!(l.pool_lut[0], 128);
    assert_eq!(l.row_amp[479], 3);
}

#[test]
fn new_light_is_calm() {
    let l = flat_light();
    assert_eq!(l.amp_scale, 256);
    assert_eq!(l.gain_q, 256);
    assert!(l.row_ph_a.iter().all(|&v| v == 0));
    assert!(l.row_step_d.iter().all(|&v| v == 0));
}

#[test]
fn flat_tables_give_unity_gain() {
    let l = flat_light();
    assert_eq!(l.light_gain_at(10, 10, 0), 256);
}

#[test]
fn full_ripple_of_three_waves() {
    let mut l = flat_light();
    l.caustic_lut[0] = 0;
    // 765 * 100 >> 9 = 149
    assert_eq!(l.light_gain_at(10, 10, 0), 107);
}

#[test]
fn pool_wave_wraps_its_phase() {
    let mut l = flat_light();
    l.pool_lut[3] = 0;
    // 255 * 30 >> 9 = 14
    assert_eq!(l.light_gain_at(0, 0, 3 + 512), 242);
    assert_eq!(l.light_gain_at(0, 0, 4), 256);
}

#[test]
fn gain_is_clamped_to_the_floor() {
    let mut l = flat_light();
    l.caustic_lut[0] = 0;
    l.gain_q = 40;
    assert_eq!(l.light_gain_at(3, 3, 0), 32);
}

#[test]
fn gain_is_clamped_to_unity() {
    let mut l = flat_light();
    l.gain_q = 300;
    assert_eq!(l.light_gain_at(3, 3, 0), 256);
}

#[test]
fn row_phase_selects_the_table_entry() {
    let mut l = flat_light();
    l.row_ph_a[5] = 65536 * 3;
    l.caustic_lut[3] = 55;
    // ripple 200 * 100 >> 9 = 39
    assert_eq!(l.light_gain_at(0, 5, 0), 217);
    assert_eq!(l.light_gain_at(0, 6, 0), 256);
}

#[test]
fn negative_phase_wraps_to_the_table_end() {
    let mut l = flat_light();
    l.row_ph_a[7] = -65536;
    l.caustic_lut[511] = 0;
    // 255 * 100 >> 9 = 49
    assert_eq!(l.light_gain_at(0, 7, 0), 207);
}

#[test]
fn phase_step_advances_per_pixel_and_points_are_clamped() {
    let mut l = flat_light();
    l.row_step_a[9] = 65536;
    l.caustic_lut[4] = 155;
    assert_eq!(l.light_gain_at(4, 9, 0), 237);
    l.caustic_lut[127] = 0;
    // x = 1000 is clamped to 639, whose entry is 639 % 512 = 127
    assert_eq!(l.light_gain_at(1000, 9, 0), 207);
    l.row_step_a[0] = 65536;
    // y = -5 is clamped to row 0
    assert_eq!(l.light_gain_at(4, -5, 0), 237);
}

#[test]
fn amplitude_scale_strengthens_ripples() {
    let mut l = flat_light();
    l.caustic_lut[0] = 0;
    l.amp_scale = 512;
    // amp = 100 * 512 >> 8 = 200; 765 * 200 >> 9 = 298
    assert_eq!(l.light_gain_at(1, 1, 0), 32);
    l.amp_scale = 128;
    // amp = 50; 765 * 50 >> 9 = 74
    assert_eq!(l.light_gain_at(1, 1, 0), 182);
}

#[test]
fn clamping_points_onto_the_screen() {
    assert_eq!(clamp_to_screen(-3, 500), (0, 479));
    assert_eq!(clamp_to_screen(700, -1), (639, 0));
    assert_eq!(clamp_to_screen(12, 34), (12, 34));
}

fn backdrop_row() -> Vec<u8> {
    (0..SCR_W * 3).map(|i| (i % 251) as u8).collect()
}

#[test]
fn unity_light_copies_the_backdrop_opaque() {
    let l = flat_light();
    let src = backdrop_row();
    let mut row = vec![7u8; SCR_W * 4];
    shade_row(&mut row, &src, &l, 0, 0, 0);
    for px in 0..SCR_W {
        for c in 0..3 {
            assert_eq!(row[px * 4 + c], src[px * 3 + c]);
        }
        assert_eq!(row[px * 4 + 3], 255);
    }
}

#[test]
fn shading_scales_by_the_gain() {
    let mut l = flat_light();
    l.caustic_lut[0] = 0;
    let src = vec![200u8; SCR_W * 3];
    let mut row = vec![0u8; SCR_W * 4];
    shade_row(&mut row, &src, &l, 3, 0, 0);
    // gain 107: 200 * 107 >> 8 = 83
    assert!(row.chunks(4).all(|p| p[0] == 83 && p[1] == 83 && p[2] == 83 && p[3] == 255));
}

#[test]
fn pool_wave_is_read_once_per_pixel_pair() {
    let mut l = flat_light();
    l.pool_lut[2] = 0;
    let src = vec![200u8; SCR_W * 3];
    let mut row = vec![0u8; SCR_W * 4];
    // pool phase advances one table entry per pixel
    shade_row(&mut row, &src, &l, 0, 0, 65536);
    // pixels 2 and 3 share the pair's gain 242: 200 * 242 >> 8 = 189
    assert_eq!(row[2 * 4], 189);
    assert_eq!(row[3 * 4], 189);
    assert_eq!(row[1 * 4], 200);
    assert_eq!(row[4 * 4], 200);
}

#[test]
fn render_gain_matches_the_sampled_gain() {
    let mut l = flat_light();
    l.row_ph_b[11] = 65536 * 40;
    l.row_step_b[11] = 30000;
    l.caustic_lut[45] = 10;
    l.pool_lut[6] = 100;
    let src = vec![255u8; SCR_W * 3];
    let mut row = vec![0u8; SCR_W * 4];
    shade_row(&mut row, &src, &l, 11, 65536 * 6, 0);
    for x in (0..SCR_W).step_by(2) {
        let g = l.light_gain_at(x as i32, 11, 6) as u32;
        assert_eq!(row[x * 4] as u32, (255 * g >> 8).min(255));
    }
}

#[test]
fn shading_never_brightens() {
    let mut l = flat_light();
    l.caustic_lut[0] = 90;
    l.gain_q = 1000;
    let src = backdrop_row();
    let mut row = vec![0u8; SCR_W * 4];
    shade_row(&mut row, &src, &l, 2, 0, 0);
    for px in 0..SCR_W {
        for c in 0..3 {
            let s = src[px * 3 + c];
            let d = row[px * 4 + c];
            assert!(d <= s && d >= s / 8);
        }
    }
}

#[test]
fn tone_mapping_clamps_the_curve() {
    let mut exposed = [0i32; 256];
    for i in 0..256 {
        exposed[i] = i as i32 - 3;
    }
    exposed[255] = 400;
    let mut rgb = vec![0u8, 3, 4, 255, 100];
    prep_backdrop(&mut rgb, &exposed);
    assert_eq!(rgb, vec![0, 0, 1, 255, 97]);
}

#[test]
fn tone_mapping_maps_each_byte_independently() {
    let mut exposed = [0i32; 256];
    for i in 0..256 {
        exposed[i] = 255 - i as i32;
    }
    let mut rgb: Vec<u8> = (0..=255).collect();
    prep_backdrop(&mut rgb, &exposed);
    let want: Vec<u8> = (0..=255).rev().collect();
    assert_eq!(rgb, want);
}

fn jpeg_of(w: u32, h: u32) -> Vec<u8> {
    let img = image::RgbImage::from_fn(w, h, |x, y| image::Rgb([(x % 256) as u8, (y % 256) as u8, ((x + y) % 256) as u8]));
    let mut out = std::io::Cursor::new(Vec::new());
    image::DynamicImage::ImageRgb8(img).write_to(&mut out, image::ImageOutputFormat::Jpeg(90)).unwrap();
    out.into_inner()
}

fn inverse_curve() -> [i32; 256] {
    let mut exposed = [0i32; 256];
    for i in 0..256 {
        exposed[i] = 255 - i as i32;
    }
    exposed
}

#[test]
fn loading_a_backdrop_decodes_and_tone_maps() {
    let jpeg = jpeg_of(SCR_W as u32, SCR_H as u32);
    let raw = image::load_from_memory_with_format(&jpeg, image::ImageFormat::Jpeg).unwrap().to_rgb8().into_raw();
    let v = load_backdrop(&jpeg, &inverse_curve()).unwrap();
    assert_eq!(v.len(), SCR_W * SCR_H * 3);
    assert!(v.iter().zip(raw.iter()).all(|(&a, &b)| a == 255 - b));
}

#[test]
fn loading_a_backdrop_of_the_wrong_size_fails() {
    let jpeg = jpeg_of(320, 240);
    assert!(load_backdrop(&jpeg, &inverse_curve()).is_none());
}

#[test]
fn loading_garbage_fails() {
    assert!(load_backdrop(&[1, 2, 3, 4, 5], &inverse_curve()).is_none());
    assert!(load_backdrop(&[], &inverse_curve()).is_none());
}

#[test]
fn range_checks() {
    let mut l = flat_light();
    assert!(l.in_range() && l.gain_in_range());
    l.row_ph_b[100] = i32::MAX - 10;
    l.row_step_b[100] = 1;
    assert!(l.gain_in_range());
    assert!(!l.in_range());
    l.row_step_b[100] = -1;
    assert!(l.in_range());
    l.amp_scale = -1;
    assert!(!l.gain_in_range() && !l.in_range());
    assert!(pool_sweep_in_range(0, 65536));
    assert!(!pool_sweep_in_range(0, i32::MAX / 100));
    assert!(!pool_sweep_in_range(i32::MAX, 1));
}

#[test]
fn rising_curve_keeps_brightness_order() {
    let mut exposed = [0i32; 256];
    for i in 0..256 {
        exposed[i] = (i as i32 * 3) / 2 - 20;
    }
    let before: Vec<u8> = (0..=255).rev().chain(0..=255).collect();
    let mut after = before.clone();
    prep_backdrop(&mut after, &exposed);
    for i in 0..before.len() {
        for j in 0..before.len() {
            if before[i] <= before[j] {
                assert!(after[i] <= after[j]);
            }
        }
    }
}

#[test]
fn toning_decoded_pixels() {
    let raw: Vec<u8> = (0..SCR_W * SCR_H * 3).map(|i| (i % 256) as u8).collect();
    let v = tone_backdrop(raw.clone(), &inverse_curve()).unwrap();
    assert!(v.iter().zip(raw.iter()).all(|(&a, &b)| a == 255 - b));
    assert!(tone_backdrop(vec![0u8; 12], &inverse_curve()).is_none());
    assert!(tone_backdrop(Vec::new(), &inverse_curve()).is_none());
}
