use audio_reactive::config::{AudioConfig, BandSensitivity, BandSmoothing, FrequencySet};
use audio_reactive::single::Single;

fn single(v: f32) -> Single {
    Single { bits: v.to_bits() }
}

fn samples() -> Vec<f32> {
    let mut v = vec![
        0.0,
        -0.0,
        1.0,
        -1.0,
        0.0005,
        f32::MIN_POSITIVE,
        -f32::MIN_POSITIVE,
        f32::MAX,
        f32::MIN,
        f32::INFINITY,
        f32::NEG_INFINITY,
        f32::NAN,
        -f32::NAN,
        f32::from_bits(1),
        f32::from_bits(0x8000_0001),
        f32::from_bits(0x7f80_0001),
    ];
    let mut bits: u32 = 12345;
    for _ in 0..200 {
        bits = bits.wrapping_mul(1664525).wrapping_add(1013904223);
        v.push(f32::from_bits(bits));
    }
    v
}

#[test]
fn comparison_is_that_of_floating_point() {
    let all = samples();
    for a in &all {
        assert_eq!(single(*a).abs().bits, a.abs().to_bits());
        for b in &all {
            assert_eq!(single(*a).lt(single(*b)), a < b, "{a} {b}");
            assert_eq!(single(*a).le(single(*b)), a <= b, "{a} {b}");
            let m = f32::from_bits(single(*a).max(single(*b)).bits);
            let expected = a.max(*b);
            assert!(m == expected || (m.is_nan() && expected.is_nan()), "{a} {b}");
        }
    }
}

#[test]
fn default_bands_are_those_documented() {
    let sens = [1.0f32, 1.0, 1.1, 1.2, 1.4, 1.6, 2.2, 3.0];
    let smooth = [0.05f32, 0.05, 0.1, 0.15, 0.2, 0.25, 0.3, 0.3];
    for i in 0..8 {
        assert_eq!(BandSensitivity::default().values[i], single(sens[i]));
        assert_eq!(BandSmoothing::default().values[i], single(smooth[i]));
    }
}

#[test]
fn default_sets_are_those_documented() {
    let default = [
        (20.0f32, 100.0f32, 2.5f32),
        (60.0, 150.0, 1.5),
        (150.0, 400.0, 1.2),
        (400.0, 1000.0, 1.0),
        (1000.0, 2500.0, 1.0),
        (2500.0, 6000.0, 1.2),
        (6000.0, 12000.0, 1.5),
        (12000.0, 20000.0, 2.0),
    ];
    let drums = [
        (50.0f32, 100.0f32, 3.0f32),
        (100.0, 200.0, 2.0),
        (200.0, 400.0, 1.5),
        (400.0, 800.0, 1.5),
        (800.0, 3000.0, 1.2),
        (3000.0, 7000.0, 1.3),
        (7000.0, 12000.0, 1.8),
        (12000.0, 20000.0, 2.5),
    ];
    let d = FrequencySet::default_set();
    let k = FrequencySet::drums_set();
    assert_eq!(d.name, "default");
    assert_eq!(k.name, "drums");
    for i in 0..8 {
        let (lo, hi, w) = default[i];
        assert_eq!(d.bands[i], (single(lo), single(hi), single(w)));
        let (lo, hi, w) = drums[i];
        assert_eq!(k.bands[i], (single(lo), single(hi), single(w)));
    }
}

#[test]
fn default_configuration_is_that_documented() {
    let c = AudioConfig::default();
    assert_eq!(c.source, None);
    assert_eq!(c.color_mode, "spectrum");
    assert_eq!(c.dazzle_palette, "rainbow");
    assert_eq!(c.palettes.len(), 21);
    assert_eq!(c.palettes[0].name, "rainbow");
    assert_eq!(c.palettes[0].len(), 8);
    assert_eq!(c.palettes[8].name, "volcano");
    assert_eq!(c.palettes[8].colors[4], (255, 240, 180));
    assert_eq!(c.palettes[20].name, "synthwave");
    assert_eq!(c.palettes[20].colors, vec![(255, 0, 120), (180, 0, 255), (0, 220, 255), (120, 0, 220), (255, 60, 180)]);
    assert_eq!(c.base_hue, single(0.0));
    assert_eq!(c.sensitivity, single(1.0));
    assert_eq!(c.smoothing, single(0.15));
    assert_eq!(c.bass_amplify, single(0.5));
    assert_eq!(c.fps, 20);
    assert_eq!(c.freq_set, "default");
    assert_eq!(c.freq_sets.len(), 2);
    assert_eq!(c.layout, "default");
    assert_eq!(c.layouts.len(), 3);
    assert_eq!(c.layouts[1].0, "symmetric");
    assert_eq!(c.layouts[1].1, [0, 1, 2, 3, 4, 5, 6, 7, 7, 6, 5, 4, 3, 2, 1, 0]);
    assert_eq!(c.layouts[2].1, [3, 3, 4, 4, 4, 5, 5, 5, 6, 6, 6, 7, 7, 7, 7, 7]);
    assert_eq!(c.global_mix, single(0.4));
    assert_eq!(c.local_mix, single(0.6));
    assert_eq!(c.global_decay, single(0.998));
    assert_eq!(c.band_decay, single(0.999));
    assert_eq!(c.response_curve, single(0.6));
    assert_eq!(c.dazzle_band_frames, 8);
}
