use audio_reactive::config::AudioConfig;
use audio_reactive::load::{number_texts, Warning};
use audio_reactive::single::Single;

fn single(v: f32) -> Single {
    Single { bits: v.to_bits() }
}

fn load(content: &str) -> (AudioConfig, Vec<Warning>) {
    let numbers: Vec<Vec<Option<Single>>> = number_texts(content)
        .iter()
        .map(|texts| texts.iter().map(|t| t.parse::<f32>().ok().map(single)).collect())
        .collect();
    AudioConfig::load(content, &numbers)
}

#[test]
fn empty_file_gives_the_defaults() {
    let (c, w) = load("");
    assert!(w.is_empty());
    assert_eq!(format!("{c:?}"), format!("{:?}", AudioConfig::default()));
}

#[test]
fn general_settings_are_read() {
    let (c, w) = load(
        "# a comment\n\n  source = \"alsa_output.monitor\"  # where from\r\ncolor_mode=dazzle\ndazzle_palette = \"fire\"\n\
         layout = symmetric\nfreq_set = \"drums\"\nsensitivity = 1.5\nsmoothing = 0.3\nbass_amplify = 0\nfps = 30\n\
         global_mix = 0.1\nlocal_mix = 0.9\nglobal_decay = 0.5\nband_decay = 1e-1\nresponse_curve = 2\ndazzle_band_frames = 4\n",
    );
    assert!(w.is_empty());
    assert_eq!(c.source, Some("alsa_output.monitor".to_string()));
    assert_eq!(c.color_mode, "dazzle");
    assert_eq!(c.active_palette().name, "fire");
    assert_eq!(c.active_layout()[1], 1);
    assert_eq!(c.active_freq_set().name, "drums");
    assert_eq!(c.sensitivity, single(1.5));
    assert_eq!(c.smoothing, single(0.3));
    assert_eq!(c.bass_amplify, single(0.0));
    assert_eq!(c.fps, 30);
    assert_eq!(c.global_mix, single(0.1));
    assert_eq!(c.local_mix, single(0.9));
    assert_eq!(c.global_decay, single(0.5));
    assert_eq!(c.band_decay, single(0.1));
    assert_eq!(c.response_curve, single(2.0));
    assert_eq!(c.dazzle_band_frames, 4);
}

#[test]
fn unreadable_numbers_leave_what_was_set() {
    let (c, w) = load("sensitivity = 2\nsensitivity = loud\nfps = 60\nfps = -1\nfps = 4294967296\nsmoothing = \" 1\"\n");
    assert!(w.is_empty());
    assert_eq!(c.sensitivity, single(2.0));
    assert_eq!(c.fps, 60);
    assert_eq!(c.smoothing, single(0.15));
}

#[test]
fn last_setting_counts() {
    let (c, _) = load("color_mode = solid\nfps = 1\ncolor_mode = gradient\nfps = 2\nfps = x\n");
    assert_eq!(c.color_mode, "gradient");
    assert_eq!(c.fps, 2);
}

#[test]
fn unknown_keys_and_sections_are_passed_over() {
    let (c, w) = load("nonsense = 1\nno setting here\n[elsewhere]\nfps = 5\n[]\nlayout = treble\n[band_sensitivity]\nfps = 7\n");
    assert!(w.is_empty());
    assert_eq!(c.fps, 20);
    assert_eq!(c.layout, "treble");
    assert_eq!(c.band_sensitivity.values, AudioConfig::default().band_sensitivity.values);
}

#[test]
fn bands_are_set_or_reset() {
    let (c, _) = load(
        "[band_sensitivity]\nsub_bass = 4\nbass = 5\nair = 2\nair = ?\nlow_mid=1\nmid=2\nupper_mid=3\npresence=4\nbrilliance=5\n\
         [band_smoothing]\nsub_bass = 0.5\nbrilliance = 0.75\nbrilliance = none\nair = 1\n",
    );
    let s = c.band_sensitivity.values;
    assert_eq!(s, [4.0f32, 5.0, 1.0, 2.0, 3.0, 4.0, 5.0, 3.0].map(single));
    let m = c.band_smoothing.values;
    assert_eq!(m, [0.5f32, 0.05, 0.1, 0.15, 0.2, 0.25, 0.3, 1.0].map(single));
}

#[test]
fn frequency_sets_need_three_numbers_for_each_band() {
    let mut list: Vec<String> = (0..24).map(|i| format!("{i}.5")).collect();
    let full = list.join(", ");
    let (c, w) = load(&format!("[freq_sets]\nmine = [{full}]\ndrums = [{full},oops]\n"));
    assert!(w.is_empty());
    assert_eq!(c.freq_sets.len(), 3);
    assert_eq!(c.freq_sets[2].name, "mine");
    assert_eq!(c.freq_sets[2].bands[7], (single(21.5), single(22.5), single(23.5)));
    assert_eq!(c.freq_sets[1].name, "drums");
    assert_eq!(c.freq_sets[1].bands[0], (single(0.5), single(1.5), single(2.5)));
    list.pop();
    let (c, w) = load(&format!("[freq_sets]\nmine = [{}]\n", list.join(",")));
    assert_eq!(c.freq_sets.len(), 2);
    assert_eq!(w.len(), 1);
    assert!(matches!(&w[0], Warning::FreqSetValues { name, got: 23 } if name == "mine"));
}

#[test]
fn layouts_need_one_entry_for_each_column() {
    let (c, w) = load(
        "[layouts]\nmine = [0,1,2,3,4,5,6,7,8,99,+2,18446744073709551616,1,1,1,1,1]\n\
         default = [7,7,7,7,7,7,7,7,7,7,7,7,7,7,7,7]\nshort = [1,2,3]\n",
    );
    assert_eq!(c.layouts.len(), 4);
    assert_eq!(c.layouts[3].0, "mine");
    assert_eq!(c.layouts[3].1, [0, 1, 2, 3, 4, 5, 6, 7, 7, 7, 2, 1, 1, 1, 1, 1]);
    assert_eq!(*c.active_layout(), [7usize; 16]);
    assert_eq!(w.len(), 1);
    assert!(matches!(&w[0], Warning::LayoutEntries { name, got: 3 } if name == "short"));
}

#[test]
fn palettes_need_a_color() {
    let (c, w) = load(
        "[palettes]\nmine = [[1,2,3],[4,5,6] , [7,8], [256,0,0],[9, 10, 11]]\nrainbow = [[0,0,0]]\nnone = [[1,2]]\nempty = []\n",
    );
    assert_eq!(c.palettes.len(), 22);
    assert_eq!(c.palettes[21].name, "mine");
    assert_eq!(c.palettes[21].colors, vec![(1, 2, 3), (4, 5, 6), (9, 10, 11)]);
    assert_eq!(c.palettes[0].colors, vec![(0, 0, 0)]);
    assert_eq!(c.active_palette().colors, vec![(0, 0, 0)]);
    assert_eq!(w.len(), 2);
    assert!(matches!(&w[0], Warning::NoColors { name } if name == "none"));
    assert!(matches!(&w[1], Warning::NoColors { name } if name == "empty"));
}

#[test]
fn names_that_are_not_there_fall_back_to_the_first() {
    let (c, _) = load("dazzle_palette = nowhere\nlayout = nowhere\nfreq_set = nowhere\n");
    assert_eq!(c.active_palette().name, "rainbow");
    assert_eq!(*c.active_layout(), [0, 0, 0, 1, 1, 1, 2, 2, 3, 3, 4, 4, 5, 5, 6, 7]);
    assert_eq!(c.active_freq_set().name, "default");
}

#[test]
fn comments_may_be_left_out() {
    let with = "fps = 9\n# fps = 10\n[layouts]\n   # x\nlayouts\n\nshort = [1] # y\n";
    let without = "fps = 9\n[layouts]\nshort = [1]\n";
    let (a, wa) = load(with);
    let (b, wb) = load(without);
    assert_eq!(format!("{a:?} {wa:?}"), format!("{b:?} {wb:?}"));
}

#[test]
fn quoted_and_commented_values() {
    let (c, _) = load("color_mode = \"a\"b\" # c\"\nsource = a=b\ndazzle_palette = \"x#y\"\n");
    assert_eq!(c.color_mode, "a\"b");
    assert_eq!(c.source, Some("a=b".to_string()));
    assert_eq!(c.dazzle_palette, "x");
}

#[test]
fn source_named_by_the_user_takes_precedence() {
    let (mut c, _) = load("source = one\n");
    c.override_source(None);
    assert_eq!(c.source, Some("one".to_string()));
    c.override_source(Some("two"));
    assert_eq!(c.source, Some("two".to_string()));
}

#[test]
fn base_hue_is_read() {
    let (c, w) = load("base_hue = 120.0\n");
    assert!(w.is_empty());
    assert_eq!(c.base_hue, single(120.0));
    let mut expected = AudioConfig::default();
    expected.base_hue = single(120.0);
    assert_eq!(format!("{c:?}"), format!("{expected:?}"));
    let (c, _) = load("base_hue = 10\nbase_hue = red\n");
    assert_eq!(c.base_hue, single(10.0));
}

#[test]
fn a_file_twice_is_the_file_once() {
    let c = "fps = 9\ncolor_mode = solid\nfps = 8\n[palettes]\na = [[1,2,3]]\nrainbow = [[1,1,1]]\nb = [[4,5,6]]\na = [[7,8,9]]\n\
             [layouts]\nx = [1,1,1,1,1,1,1,1,1,1,1,1,1,1,1,1]\n[band_sensitivity]\nair = 2\nair = ?\r";
    for c in [c, "", "\n", "fps = 3\n\n"] {
        let (once, _) = load(c);
        let (twice, _) = load(&format!("{c}\n[]\n{c}"));
        assert_eq!(format!("{once:?}"), format!("{twice:?}"));
    }
}
