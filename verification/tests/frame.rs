use audio_reactive::config::{AudioConfig, COLS, NUM_BANDS, ROWS};
use audio_reactive::frame::{
    bands_to_frame, column_hue, is_amplified, is_renderable, Animation, BandLevel, ColorMode, Paint, MATRIX_LEN,
};
use audio_reactive::palette::DazzlePalette;
use audio_reactive::rng::SlotRng;
use audio_reactive::single::Single;

fn level(raw: f32, lit_rows: usize) -> BandLevel {
    BandLevel { raw: Single { bits: raw.to_bits() }, lit_rows }
}

fn config(mode: &str) -> AudioConfig {
    let mut c = AudioConfig::default();
    c.color_mode = mode.to_string();
    c
}

fn color(c: (u8, u8, u8)) -> Paint {
    Paint::Rgb(c.0, c.1, c.2)
}

#[test]
fn generator_steps() {
    let mut rng = SlotRng::new(0);
    assert_eq!(rng.state, 0xdeadbeefcafe);
    assert_eq!(rng.next(), 6517529158658568693);
    assert_eq!(rng.next(), 8836872489986020448);
    let mut rng = SlotRng::new(u64::MAX);
    assert_eq!(rng.next(), 8450468772982116732);
    let mut rng = SlotRng::new(0);
    assert_eq!(rng.next_usize(7), 6);
    assert_eq!(rng.next_usize(7), 3);
    assert_eq!(rng.next_usize(1), 0);
}

#[test]
fn picking_goes_round() {
    let p = DazzlePalette { name: "p".to_string(), colors: vec![(1, 1, 1), (2, 2, 2), (3, 3, 3)] };
    assert_eq!(p.len(), 3);
    assert_eq!(p.pick(0), (1, 1, 1));
    assert_eq!(p.pick(2), (3, 3, 3));
    assert_eq!(p.pick(3), (1, 1, 1));
    assert_eq!(p.pick(usize::MAX), p.colors[usize::MAX % 3]);
}

#[test]
fn modes_go_by_their_names() {
    assert_eq!(config("solid").mode(), ColorMode::Solid);
    assert_eq!(config("gradient").mode(), ColorMode::Gradient);
    assert_eq!(config("dazzle").mode(), ColorMode::Dazzle);
    assert_eq!(config("dazzleband").mode(), ColorMode::DazzleBand);
    assert_eq!(config("spectrum").mode(), ColorMode::Spectrum);
    assert_eq!(config("Solid").mode(), ColorMode::Spectrum);
    assert_eq!(config("").mode(), ColorMode::Spectrum);
}

#[test]
fn hues_run_from_bass_to_treble() {
    let hues: Vec<u32> = (0..COLS).map(column_hue).collect();
    assert_eq!(hues, vec![0, 15, 30, 45, 60, 75, 100, 120, 150, 180, 200, 220, 240, 260, 280, 300]);
}

#[test]
fn bars_grow_from_the_bottom_row() {
    let levels: [BandLevel; NUM_BANDS] = [0, 1, 2, 3, 4, 5, 6, 9].map(|n| level(0.5, n));
    let c = config("spectrum");
    let mut a = Animation::new();
    let frame = a.next_frame(&levels, &c);
    assert_eq!(frame.len(), 96);
    let layout = c.active_layout();
    for row in 0..ROWS {
        for col in 0..COLS {
            let lit = levels[layout[col]].lit_rows;
            let from_bottom = ROWS - 1 - row;
            let expected = if from_bottom < lit {
                Paint::Spectrum { hue: column_hue(col), from_bottom, lit_rows: lit }
            } else {
                Paint::Off
            };
            assert_eq!(frame[row * COLS + col], expected);
        }
    }
}

#[test]
fn computed_modes_say_what_to_compute() {
    let levels = [level(0.75, 2); NUM_BANDS];
    let raw = Single { bits: 0.75f32.to_bits() };
    let mut a = Animation::new();
    let solid = a.next_frame(&levels, &config("solid"));
    assert_eq!(solid[5 * COLS + 3], Paint::Solid { raw });
    assert_eq!(solid[3 * COLS + 3], Paint::Off);
    let gradient = a.next_frame(&levels, &config("gradient"));
    assert_eq!(gradient[4 * COLS + 6], Paint::Gradient { hue: 100, from_bottom: 1, lit_rows: 2, raw });
}

#[test]
fn first_state() {
    let a = Animation::new();
    assert_eq!(a.dazzle_seeds[0][0], 0);
    assert_eq!(a.dazzle_seeds[15][5], 1505);
    assert_eq!(a.band_color_seeds[0], 0xFFFF_FFFF_0000_0000);
    assert_eq!(a.band_color_seeds[7], 0xFFFF_FFFF_0000_0007);
    assert_eq!(a.bar_heights, [0; COLS]);
    assert_eq!(a.frame_counter, 0);
}

#[test]
fn band_colors_hold_for_the_configured_frames() {
    let levels = [level(1.0, 6); NUM_BANDS];
    let mut c = config("dazzleband");
    c.dazzle_band_frames = 3;
    let rainbow = c.palettes[0].colors.clone();
    let layout = *c.active_layout();
    let mut a = Animation::new();
    let first = a.next_frame(&levels, &c);
    assert_eq!(a.band_color_seeds, [5, 1, 5, 1, 5, 1, 5, 1]);
    for place in 0..MATRIX_LEN {
        let index = [5, 1, 5, 1, 5, 1, 5, 1][layout[place % COLS]];
        assert_eq!(first[place], color(rainbow[index]));
    }
    let second = a.next_frame(&levels, &c);
    let third = a.next_frame(&levels, &c);
    assert_eq!(first, second);
    assert_eq!(first, third);
    let fourth = a.next_frame(&levels, &c);
    assert_eq!(
        a.band_color_seeds,
        [0x100000001, 0x100000006, 0x100000007, 0x100000004, 0x100000005, 0x100000002, 0x100000003, 0x100000000]
    );
    assert_eq!(fourth[0], color(rainbow[1]));
    assert_eq!(fourth[15], color(rainbow[0]));
    assert_eq!(a.frame_counter, 4);
    assert_eq!(a.dazzle_seeds, Animation::new().dazzle_seeds);
}

#[test]
fn no_frames_per_color_means_one() {
    let levels = [level(1.0, 6); NUM_BANDS];
    let mut c = config("dazzleband");
    c.dazzle_band_frames = 0;
    let mut a = Animation::new();
    a.next_frame(&levels, &c);
    a.next_frame(&levels, &c);
    assert_eq!(a.band_color_seeds[0], 0x100000001);
}

#[test]
fn dazzle_draws_at_the_tops_of_the_bars() {
    let levels = [level(1.0, 6); NUM_BANDS];
    let c = config("dazzle");
    let rainbow = c.palettes[0].colors.clone();
    let mut a = Animation::new();
    let first = a.next_frame(&levels, &c);
    assert_eq!(a.dazzle_seeds[0][0], 8686599461278331381);
    assert_eq!(a.dazzle_seeds[15][0], 3162665761183025225);
    assert_eq!(a.dazzle_seeds[0][5], 5);
    assert_eq!(first[0], color(rainbow[6]));
    assert_eq!(first[5 * COLS], color(rainbow[6]));
    assert_eq!(first[15], color(rainbow[2]));
    assert_eq!(a.band_color_seeds, Animation::new().band_color_seeds);
    assert_eq!(a.bar_heights, [6; COLS]);
    let seeds = a.dazzle_seeds;
    let second = a.next_frame(&levels, &c);
    assert_eq!(first, second);
    assert_eq!(a.dazzle_seeds, seeds);
    let dark = a.next_frame(&[level(0.0, 0); NUM_BANDS], &c);
    assert_eq!(dark, [Paint::Off; MATRIX_LEN]);
    assert_eq!(a.dazzle_seeds, seeds);
    assert_eq!(a.bar_heights, [0; COLS]);
    a.next_frame(&levels, &c);
    for col in 0..COLS {
        assert_ne!(a.dazzle_seeds[col][0], seeds[col][0]);
        assert_eq!(a.dazzle_seeds[col][1..], seeds[col][1..]);
    }
}

#[test]
fn dazzle_keeps_its_colors_while_the_level_moves_within_a_row() {
    let c = config("dazzle");
    let mut a = Animation::new();
    let first = a.next_frame(&[level(0.5, 3); NUM_BANDS], &c);
    let second = a.next_frame(&[level(0.51, 3); NUM_BANDS], &c);
    assert_eq!(first, second);
    let third = a.next_frame(&[level(0.7, 4); NUM_BANDS], &c);
    for row in 3..ROWS {
        for col in 0..COLS {
            assert_eq!(first[row * COLS + col], third[row * COLS + col]);
        }
    }
}

#[test]
fn bass_amplifies_the_other_bands() {
    let amplified: Vec<bool> = (0..NUM_BANDS).map(is_amplified).collect();
    assert_eq!(amplified, vec![false, false, true, true, true, true, true, true]);
}

#[test]
fn columns_beyond_the_last_band_show_the_last() {
    let mut levels = [level(0.0, 0); NUM_BANDS];
    levels[7] = level(1.0, 1);
    let mut c = config("spectrum");
    c.layouts[0].1[0] = 100;
    let mut a = Animation::new();
    let frame = bands_to_frame(&levels, &c, &mut a.dazzle_seeds, &mut a.bar_heights, &mut a.band_color_seeds, 0);
    assert_eq!(frame[5 * COLS], Paint::Spectrum { hue: 0, from_bottom: 0, lit_rows: 1 });
    assert_eq!(frame[5 * COLS + 1], Paint::Off);
}

#[test]
fn frame_counter_wraps() {
    let mut a = Animation::new();
    a.frame_counter = u32::MAX;
    a.next_frame(&[level(0.0, 0); NUM_BANDS], &config("solid"));
    assert_eq!(a.frame_counter, 0);
}

#[test]
fn frames_need_a_palette_and_a_layout() {
    let dark = [level(0.0, 0); NUM_BANDS];
    let lit = [level(1.0, 6); NUM_BANDS];
    assert!(is_renderable(&lit, &config("dazzle")));
    let mut c = config("dazzle");
    c.palettes[0].colors.clear();
    assert!(is_renderable(&dark, &c));
    assert!(!is_renderable(&lit, &c));
    c.color_mode = "dazzleband".to_string();
    assert!(!is_renderable(&dark, &c));
    c.color_mode = "solid".to_string();
    assert!(is_renderable(&lit, &c));
    let mut c = config("solid");
    c.palettes.clear();
    assert!(!is_renderable(&dark, &c));
    let mut c = config("solid");
    c.layouts.clear();
    assert!(!is_renderable(&dark, &c));
}

#[test]
fn treble_is_smoothed_more_than_bass() {
    let values = AudioConfig::default().band_smoothing.values;
    for i in 1..NUM_BANDS {
        assert!(values[i - 1].le(values[i]));
    }
}
