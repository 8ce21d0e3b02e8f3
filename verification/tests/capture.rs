use audio_reactive::capture::{clamp_fps, frame_millis, pause_after, SampleBuffer};
use audio_reactive::config::FrequencySet;
use audio_reactive::single::Single;
use audio_reactive::spectrum::{
    assign_bins, follow, kept_share, loudest, peak, upper_frequency, worth_analyzing, FFT_SIZE,
};

fn single(v: f32) -> Single {
    Single { bits: v.to_bits() }
}

fn singles(v: &[f32]) -> Vec<Single> {
    v.iter().map(|x| single(*x)).collect()
}

#[test]
fn buffer_keeps_the_end_of_the_stream() {
    let mut b: SampleBuffer<f32> = SampleBuffer::new();
    assert_eq!(b.window(0.0), vec![0.0; FFT_SIZE]);
    let stream: Vec<f32> = (0..40000).map(|i| i as f32).collect();
    let mut seen = 0;
    for block in stream.chunks(777) {
        b.extend(block);
        seen += block.len();
        assert!(b.samples.len() <= FFT_SIZE * 8);
        assert!(b.samples.len() >= seen.min(FFT_SIZE * 4));
        assert_eq!(b.samples, stream[seen - b.samples.len()..seen]);
        if seen >= FFT_SIZE {
            assert_eq!(b.window(0.0), stream[seen - FFT_SIZE..seen]);
        } else {
            assert_eq!(b.window(0.0), vec![0.0; FFT_SIZE]);
        }
    }
}

#[test]
fn buffer_is_cut_above_its_limit_only() {
    let mut b: SampleBuffer<u8> = SampleBuffer::new();
    b.extend(&vec![1; FFT_SIZE * 8]);
    assert_eq!(b.samples.len(), FFT_SIZE * 8);
    b.extend(&[2]);
    assert_eq!(b.samples.len(), FFT_SIZE * 4);
    assert_eq!(b.samples[FFT_SIZE * 4 - 1], 2);
}

#[test]
fn pauses_fill_the_round() {
    assert_eq!(pause_after(3, 8), Some(5));
    assert_eq!(pause_after(8, 8), None);
    assert_eq!(pause_after(u128::MAX, u64::MAX), None);
    assert_eq!(frame_millis(20), 50);
    assert_eq!(frame_millis(3), 333);
    assert_eq!(frame_millis(1001), 0);
}

#[test]
fn frame_rates_are_clamped() {
    assert_eq!(clamp_fps(0), 1);
    assert_eq!(clamp_fps(1), 1);
    assert_eq!(clamp_fps(42), 42);
    assert_eq!(clamp_fps(61), 60);
}

#[test]
fn peaks_are_magnitudes() {
    assert_eq!(peak(&singles(&[0.25, -0.75, 0.5])), single(0.75));
    assert_eq!(peak(&singles(&[f32::NAN, -0.5])), single(0.5));
    assert_eq!(peak(&[]), single(0.0));
    assert_eq!(peak(&singles(&[f32::NEG_INFINITY])), single(f32::INFINITY));
}

#[test]
fn quiet_and_short_blocks_are_passed_over() {
    let mut block = vec![0.0f32; FFT_SIZE];
    assert!(!worth_analyzing(&singles(&block)));
    block[17] = -0.0005;
    assert!(worth_analyzing(&singles(&block)));
    block[17] = 0.00049;
    assert!(!worth_analyzing(&singles(&block)));
    block[17] = 1.0;
    assert!(worth_analyzing(&singles(&block)));
    assert!(!worth_analyzing(&singles(&block[1..])));
}

#[test]
fn loudest_band_decides() {
    let levels = [0.1f32, 0.2, 0.9, 0.3, 0.0, 0.0, f32::NAN, 0.8].map(single);
    assert_eq!(loudest(&levels), Some(single(0.9)));
    assert_eq!(loudest(&[single(0.0004); 8]), None);
    assert_eq!(loudest(&[single(-1.0); 8]), None);
}

#[test]
fn bins_go_to_every_band_that_covers_them() {
    let set = FrequencySet::default_set();
    let f = singles(&[20.0, 59.9, 60.0, 99.9, 100.0, 150.0, 11999.0, 12000.0, 20000.0, f32::NAN]);
    let bins = assign_bins(&f, &set);
    assert_eq!(bins.len(), 8);
    assert_eq!(bins[0], vec![0, 1, 2, 3]);
    assert_eq!(bins[1], vec![2, 3, 4]);
    assert_eq!(bins[2], vec![5]);
    assert!(bins[3].is_empty() && bins[4].is_empty() && bins[5].is_empty());
    assert_eq!(bins[6], vec![6]);
    assert_eq!(bins[7], vec![7]);
}

#[test]
fn frequencies_end_at_half_the_sample_rate() {
    assert_eq!(upper_frequency(44100), 20000);
    assert_eq!(upper_frequency(32001), 16000);
    assert_eq!(upper_frequency(40000), 20000);
    assert_eq!(upper_frequency(0), 0);
}

#[test]
fn references_follow_and_decay() {
    assert_eq!(follow(single(0.5), single(0.4), single(0.3)), single(0.5));
    assert_eq!(follow(single(0.4), single(0.4), single(0.3)), single(0.3));
    assert_eq!(follow(single(f32::NAN), single(0.4), single(0.3)), single(0.3));
    assert_eq!(kept_share(single(0.5), single(0.4), single(0.1), single(0.2)), single(0.1));
    assert_eq!(kept_share(single(0.3), single(0.4), single(0.1), single(0.2)), single(0.2));
}
