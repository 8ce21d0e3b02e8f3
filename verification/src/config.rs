//! The configuration of the audio reactive mode and its built-in values.
use crate::palette::{built_in_palettes, find_palette, DazzlePalette, PaletteView};
use crate::single::Single;
use vstd::prelude::*;

verus! {

/// Number of frequency bands to analyze.
pub const NUM_BANDS: usize = 8;

/// Columns of the key matrix.
pub const COLS: usize = 16;

/// Rows of the key matrix.
pub const ROWS: usize = 6;

// ---------------------------------------------------------------------------
// Per-band numbers
// ---------------------------------------------------------------------------

/// Per-band sensitivity multipliers.
#[derive(Clone, Debug)]
pub struct BandSensitivity {
    pub values: [Single; NUM_BANDS],
}

/// Per-band smoothing factors.
#[derive(Clone, Debug)]
pub struct BandSmoothing {
    pub values: [Single; NUM_BANDS],
}


/// The sensitivity of each band where nothing else is configured.
pub open spec fn default_sensitivities() -> Seq<Single> {
    seq![
        Single { bits: 0x3f800000 },  // 1.0
        Single { bits: 0x3f800000 },  // 1.0
        Single { bits: 0x3f8ccccd },  // 1.1
        Single { bits: 0x3f99999a },  // 1.2
        Single { bits: 0x3fb33333 },  // 1.4
        Single { bits: 0x3fcccccd },  // 1.6
        Single { bits: 0x400ccccd },  // 2.2
        Single { bits: 0x40400000 },  // 3.0
    ]
}


/// The smoothing of each band where nothing else is configured: bass is fast, treble slower.
pub open spec fn default_smoothings() -> Seq<Single> {
    seq![
        Single { bits: 0x3d4ccccd },  // 0.05
        Single { bits: 0x3d4ccccd },  // 0.05
        Single { bits: 0x3dcccccd },  // 0.1
        Single { bits: 0x3e19999a },  // 0.15
        Single { bits: 0x3e4ccccd },  // 0.2
        Single { bits: 0x3e800000 },  // 0.25
        Single { bits: 0x3e99999a },  // 0.3
        Single { bits: 0x3e99999a },  // 0.3
    ]
}

impl Default for BandSensitivity {
    fn default() -> (r: Self)
        ensures
            r.values@ == default_sensitivities(),
    {
        let values: [Single; NUM_BANDS] = [
            Single { bits: 0x3f800000 },
            Single { bits: 0x3f800000 },
            Single { bits: 0x3f8ccccd },
            Single { bits: 0x3f99999a },
            Single { bits: 0x3fb33333 },
            Single { bits: 0x3fcccccd },
            Single { bits: 0x400ccccd },
            Single { bits: 0x40400000 },
        ];
        assert(values@ =~= default_sensitivities());
        BandSensitivity { values }
    }
}

impl Default for BandSmoothing {
    fn default() -> (r: Self)
        ensures
            r.values@ == default_smoothings(),
    {
        let values: [Single; NUM_BANDS] = [
            Single { bits: 0x3d4ccccd },
            Single { bits: 0x3d4ccccd },
            Single { bits: 0x3dcccccd },
            Single { bits: 0x3e19999a },
            Single { bits: 0x3e4ccccd },
            Single { bits: 0x3e800000 },
            Single { bits: 0x3e99999a },
            Single { bits: 0x3e99999a },
        ];
        assert(values@ =~= default_smoothings());
        BandSmoothing { values }
    }
}

// ---------------------------------------------------------------------------
// Frequency sets
// ---------------------------------------------------------------------------

/// A named frequency band set.
#[derive(Clone, Debug)]
pub struct FrequencySet {
    pub name: String,
    /// (low_hz, high_hz, weight) for each band.
    pub bands: [(Single, Single, Single); NUM_BANDS],
}

/// What a frequency set holds.
pub struct FrequencySetView {
    pub name: Seq<char>,
    pub bands: Seq<(Single, Single, Single)>,
}

impl View for FrequencySet {
    type V = FrequencySetView;

    open spec fn view(&self) -> FrequencySetView {
        FrequencySetView { name: self.name@, bands: self.bands@ }
    }
}

/// The bands of the set "default".
pub open spec fn default_bands() -> Seq<(Single, Single, Single)> {
    seq![
        // 20 to 100 Hz, weight 2.5
        (Single { bits: 0x41a00000 }, Single { bits: 0x42c80000 }, Single { bits: 0x40200000 }),
        // 60 to 150 Hz, weight 1.5
        (Single { bits: 0x42700000 }, Single { bits: 0x43160000 }, Single { bits: 0x3fc00000 }),
        // 150 to 400 Hz, weight 1.2
        (Single { bits: 0x43160000 }, Single { bits: 0x43c80000 }, Single { bits: 0x3f99999a }),
        // 400 to 1000 Hz, weight 1
        (Single { bits: 0x43c80000 }, Single { bits: 0x447a0000 }, Single { bits: 0x3f800000 }),
        // 1000 to 2500 Hz, weight 1
        (Single { bits: 0x447a0000 }, Single { bits: 0x451c4000 }, Single { bits: 0x3f800000 }),
        // 2500 to 6000 Hz, weight 1.2
        (Single { bits: 0x451c4000 }, Single { bits: 0x45bb8000 }, Single { bits: 0x3f99999a }),
        // 6000 to 12000 Hz, weight 1.5
        (Single { bits: 0x45bb8000 }, Single { bits: 0x463b8000 }, Single { bits: 0x3fc00000 }),
        // 12000 to 20000 Hz, weight 2
        (Single { bits: 0x463b8000 }, Single { bits: 0x469c4000 }, Single { bits: 0x40000000 }),
    ]
}

/// The bands of the set "drums".
pub open spec fn drums_bands() -> Seq<(Single, Single, Single)> {
    seq![
        // 50 to 100 Hz, weight 3
        (Single { bits: 0x42480000 }, Single { bits: 0x42c80000 }, Single { bits: 0x40400000 }),
        // 100 to 200 Hz, weight 2
        (Single { bits: 0x42c80000 }, Single { bits: 0x43480000 }, Single { bits: 0x40000000 }),
        // 200 to 400 Hz, weight 1.5
        (Single { bits: 0x43480000 }, Single { bits: 0x43c80000 }, Single { bits: 0x3fc00000 }),
        // 400 to 800 Hz, weight 1.5
        (Single { bits: 0x43c80000 }, Single { bits: 0x44480000 }, Single { bits: 0x3fc00000 }),
        // 800 to 3000 Hz, weight 1.2
        (Single { bits: 0x44480000 }, Single { bits: 0x453b8000 }, Single { bits: 0x3f99999a }),
        // 3000 to 7000 Hz, weight 1.3
        (Single { bits: 0x453b8000 }, Single { bits: 0x45dac000 }, Single { bits: 0x3fa66666 }),
        // 7000 to 12000 Hz, weight 1.8
        (Single { bits: 0x45dac000 }, Single { bits: 0x463b8000 }, Single { bits: 0x3fe66666 }),
        // 12000 to 20000 Hz, weight 2.5
        (Single { bits: 0x463b8000 }, Single { bits: 0x469c4000 }, Single { bits: 0x40200000 }),
    ]
}

impl FrequencySet {
    /// The set that covers the whole audible range.
    pub fn default_set() -> (r: Self)
        ensures
            r@ == (FrequencySetView { name: "default"@, bands: default_bands() }),
    {
        let bands: [(Single, Single, Single); NUM_BANDS] = [
            (Single { bits: 0x41a00000 }, Single { bits: 0x42c80000 }, Single { bits: 0x40200000 }),
            (Single { bits: 0x42700000 }, Single { bits: 0x43160000 }, Single { bits: 0x3fc00000 }),
            (Single { bits: 0x43160000 }, Single { bits: 0x43c80000 }, Single { bits: 0x3f99999a }),
            (Single { bits: 0x43c80000 }, Single { bits: 0x447a0000 }, Single { bits: 0x3f800000 }),
            (Single { bits: 0x447a0000 }, Single { bits: 0x451c4000 }, Single { bits: 0x3f800000 }),
            (Single { bits: 0x451c4000 }, Single { bits: 0x45bb8000 }, Single { bits: 0x3f99999a }),
            (Single { bits: 0x45bb8000 }, Single { bits: 0x463b8000 }, Single { bits: 0x3fc00000 }),
            (Single { bits: 0x463b8000 }, Single { bits: 0x469c4000 }, Single { bits: 0x40000000 }),
        ];
        assert(bands@ =~= default_bands());
        FrequencySet { name: "default".to_string(), bands }
    }

    /// The set that follows the parts of a drum kit.
    pub fn drums_set() -> (r: Self)
        ensures
            r@ == (FrequencySetView { name: "drums"@, bands: drums_bands() }),
    {
        let bands: [(Single, Single, Single); NUM_BANDS] = [
            // Kick drum body.
            (Single { bits: 0x42480000 }, Single { bits: 0x42c80000 }, Single { bits: 0x40400000 }),
            // Kick attack and bass guitar.
            (Single { bits: 0x42c80000 }, Single { bits: 0x43480000 }, Single { bits: 0x40000000 }),
            // Snare body and low toms.
            (Single { bits: 0x43480000 }, Single { bits: 0x43c80000 }, Single { bits: 0x3fc00000 }),
            // Snare crack and upper toms.
            (Single { bits: 0x43c80000 }, Single { bits: 0x44480000 }, Single { bits: 0x3fc00000 }),
            // Closed hi-hat and rimshot.
            (Single { bits: 0x44480000 }, Single { bits: 0x453b8000 }, Single { bits: 0x3f99999a }),
            // Open hi-hat and cymbal body.
            (Single { bits: 0x453b8000 }, Single { bits: 0x45dac000 }, Single { bits: 0x3fa66666 }),
            // Cymbal shimmer.
            (Single { bits: 0x45dac000 }, Single { bits: 0x463b8000 }, Single { bits: 0x3fe66666 }),
            // Cymbal air and room.
            (Single { bits: 0x463b8000 }, Single { bits: 0x469c4000 }, Single { bits: 0x40200000 }),
        ];
        assert(bands@ =~= drums_bands());
        FrequencySet { name: "drums".to_string(), bands }
    }

}

/// What a list of frequency sets holds.
pub open spec fn freq_set_views(s: Seq<FrequencySet>) -> Seq<FrequencySetView> {
    Seq::new(s.len(), |i: int| s[i]@)
}

/// What a list of layouts holds: for each its name and the band of every column.
pub open spec fn layout_views(s: Seq<(String, [usize; COLS])>) -> Seq<(Seq<char>, Seq<usize>)> {
    Seq::new(s.len(), |i: int| (s[i].0@, s[i].1@))
}


/// The names of frequency sets.
pub open spec fn set_names(sets: Seq<FrequencySetView>) -> Seq<Seq<char>> {
    Seq::new(sets.len(), |i: int| sets[i].name)
}

/// The names of layouts.
pub open spec fn layout_names(layouts: Seq<(Seq<char>, Seq<usize>)>) -> Seq<Seq<char>> {
    Seq::new(layouts.len(), |i: int| layouts[i].0)
}

/// Finds the first frequency set of a name, or the number of sets where there is none.
pub fn find_set(sets: &Vec<FrequencySet>, name: &String) -> (r: usize)
    ensures
        r == crate::names::first_named(set_names(freq_set_views(sets@)), name@),
        r <= sets.len(),
{
    let ghost names = set_names(freq_set_views(sets@));
    let mut i: usize = 0;
    while i < sets.len() && sets[i].name != *name
        invariant
            i <= sets.len(),
            names == set_names(freq_set_views(sets@)),
            forall|j: int| 0 <= j < i ==> names[j] != name@,
        ensures
            i < sets.len() ==> names[i as int] == name@,
        decreases sets.len() - i,
    {
        i = i + 1;
    }
    proof {
        crate::names::first_is_first_named(names, name@, i as int);
    }
    i
}

/// Finds the first layout of a name, or the number of layouts where there is none.
pub fn find_layout(layouts: &Vec<(String, [usize; COLS])>, name: &String) -> (r: usize)
    ensures
        r == crate::names::first_named(layout_names(layout_views(layouts@)), name@),
        r <= layouts.len(),
{
    let ghost names = layout_names(layout_views(layouts@));
    let mut i: usize = 0;
    while i < layouts.len() && layouts[i].0 != *name
        invariant
            i <= layouts.len(),
            names == layout_names(layout_views(layouts@)),
            forall|j: int| 0 <= j < i ==> names[j] != name@,
        ensures
            i < layouts.len() ==> names[i as int] == name@,
        decreases layouts.len() - i,
    {
        i = i + 1;
    }
    proof {
        crate::names::first_is_first_named(names, name@, i as int);
    }
    i
}

// ---------------------------------------------------------------------------
// The whole configuration
// ---------------------------------------------------------------------------

/// Full audio reactive configuration.
#[derive(Clone, Debug)]
pub struct AudioConfig {
    /// Audio source device name.
    pub source: Option<String>,
    /// Color mode: "spectrum", "dazzle", "dazzleband", "solid", "gradient".
    pub color_mode: String,
    /// Active dazzle palette name.
    pub dazzle_palette: String,
    /// Available dazzle palettes.
    pub palettes: Vec<DazzlePalette>,
    /// Base hue for solid/gradient modes (0-360).
    pub base_hue: Single,
    /// Global sensitivity multiplier.
    pub sensitivity: Single,
    /// Smoothing factor; the smoothing of each band takes precedence.
    pub smoothing: Single,
    /// Bass amplification of other bands (0.0 = off, 1.0 = strong).
    pub bass_amplify: Single,
    /// Target frames per second.
    pub fps: u32,
    /// Per-band sensitivity.
    pub band_sensitivity: BandSensitivity,
    /// Per-band smoothing.
    pub band_smoothing: BandSmoothing,
    /// Active frequency set name.
    pub freq_set: String,
    /// Named frequency sets.
    pub freq_sets: Vec<FrequencySet>,
    /// Active layout name.
    pub layout: String,
    /// Named column layouts: the band of each column.
    pub layouts: Vec<(String, [usize; COLS])>,
    pub global_mix: Single,
    pub local_mix: Single,
    pub global_decay: Single,
    pub band_decay: Single,
    pub response_curve: Single,
    /// How many frames each band holds its color in dazzleband mode.
    pub dazzle_band_frames: u32,
}

/// What a configuration holds.
pub struct ConfigView {
    pub source: Option<Seq<char>>,
    pub color_mode: Seq<char>,
    pub dazzle_palette: Seq<char>,
    pub palettes: Seq<PaletteView>,
    pub base_hue: Single,
    pub sensitivity: Single,
    pub smoothing: Single,
    pub bass_amplify: Single,
    pub fps: u32,
    pub band_sensitivity: Seq<Single>,
    pub band_smoothing: Seq<Single>,
    pub freq_set: Seq<char>,
    pub freq_sets: Seq<FrequencySetView>,
    pub layout: Seq<char>,
    pub layouts: Seq<(Seq<char>, Seq<usize>)>,
    pub global_mix: Single,
    pub local_mix: Single,
    pub global_decay: Single,
    pub band_decay: Single,
    pub response_curve: Single,
    pub dazzle_band_frames: u32,
}

/// What an optional string holds.
pub open spec fn text_view(s: Option<String>) -> Option<Seq<char>> {
    match s {
        Some(t) => Some(t@),
        None => None,
    }
}

impl View for AudioConfig {
    type V = ConfigView;

    open spec fn view(&self) -> ConfigView {
        ConfigView {
            source: text_view(self.source),
            color_mode: self.color_mode@,
            dazzle_palette: self.dazzle_palette@,
            palettes: crate::palette::palette_views(self.palettes@),
            base_hue: self.base_hue,
            sensitivity: self.sensitivity,
            smoothing: self.smoothing,
            bass_amplify: self.bass_amplify,
            fps: self.fps,
            band_sensitivity: self.band_sensitivity.values@,
            band_smoothing: self.band_smoothing.values@,
            freq_set: self.freq_set@,
            freq_sets: freq_set_views(self.freq_sets@),
            layout: self.layout@,
            layouts: layout_views(self.layouts@),
            global_mix: self.global_mix,
            local_mix: self.local_mix,
            global_decay: self.global_decay,
            band_decay: self.band_decay,
            response_curve: self.response_curve,
            dazzle_band_frames: self.dazzle_band_frames,
        }
    }
}

impl ConfigView {
    /// The active frequency set: the first one of the configured name, and the first of all where
    /// there is none.
    pub open spec fn active_set(self) -> FrequencySetView {
        self.freq_sets[crate::names::chosen(set_names(self.freq_sets), self.freq_set)]
    }

    /// The active layout: the first one of the configured name, and the first of all where there is
    /// none.
    pub open spec fn active_columns(self) -> Seq<usize> {
        self.layouts[crate::names::chosen(layout_names(self.layouts), self.layout)].1
    }

    /// The active palette: the first one of the configured name, and the first of all where there
    /// is none.
    pub open spec fn active_colors(self) -> PaletteView {
        self.palettes[crate::names::chosen(crate::palette::palette_names(self.palettes), self.dazzle_palette)]
    }

    /// What every usable configuration keeps: there is a frequency set, a layout and a palette to
    /// fall back on, no palette is empty, every column of a layout has a band, and no two sets,
    /// layouts or palettes share a name.
    pub open spec fn well_formed(self) -> bool {
        &&& self.band_sensitivity.len() == NUM_BANDS
        &&& self.band_smoothing.len() == NUM_BANDS
        &&& self.freq_sets.len() > 0
        &&& forall|i: int|
            0 <= i < self.freq_sets.len() ==> (#[trigger] self.freq_sets[i]).bands.len() == NUM_BANDS
        &&& self.layouts.len() > 0
        &&& forall|i: int|
            0 <= i < self.layouts.len() ==> #[trigger] valid_columns(self.layouts[i].1)
        &&& self.palettes.len() > 0
        &&& forall|i: int|
            0 <= i < self.palettes.len() ==> (#[trigger] self.palettes[i]).colors.len() > 0
        &&& set_names(self.freq_sets).no_duplicates()
        &&& layout_names(self.layouts).no_duplicates()
        &&& crate::palette::palette_names(self.palettes).no_duplicates()
    }
}

/// Whether a layout gives one of the bands to each of the columns.
pub open spec fn valid_columns(columns: Seq<usize>) -> bool {
    &&& columns.len() == COLS
    &&& forall|c: int| 0 <= c < columns.len() ==> #[trigger] columns[c] < NUM_BANDS
}

/// The built-in layouts.
pub open spec fn default_layouts() -> Seq<(Seq<char>, Seq<usize>)> {
    seq![
        ("default"@, seq![0usize, 0, 0, 1, 1, 1, 2, 2, 3, 3, 4, 4, 5, 5, 6, 7]),
        ("symmetric"@, seq![0usize, 1, 2, 3, 4, 5, 6, 7, 7, 6, 5, 4, 3, 2, 1, 0]),
        ("treble"@, seq![3usize, 3, 4, 4, 4, 5, 5, 5, 6, 6, 6, 7, 7, 7, 7, 7]),
    ]
}

/// The configuration where nothing is configured.
pub open spec fn default_config() -> ConfigView {
    ConfigView {
        source: None,
        color_mode: "spectrum"@,
        dazzle_palette: "rainbow"@,
        palettes: crate::palette::default_palettes(),
        base_hue: Single { bits: 0x00000000 },
        sensitivity: Single { bits: 0x3f800000 },
        smoothing: Single { bits: 0x3e19999a },
        bass_amplify: Single { bits: 0x3f000000 },
        fps: 20,
        band_sensitivity: default_sensitivities(),
        band_smoothing: default_smoothings(),
        freq_set: "default"@,
        freq_sets: seq![
            FrequencySetView { name: "default"@, bands: default_bands() },
            FrequencySetView { name: "drums"@, bands: drums_bands() },
        ],
        layout: "default"@,
        layouts: default_layouts(),
        global_mix: Single { bits: 0x3ecccccd },
        local_mix: Single { bits: 0x3f19999a },
        global_decay: Single { bits: 0x3f7f7cee },
        band_decay: Single { bits: 0x3f7fbe77 },
        response_curve: Single { bits: 0x3f19999a },
        dazzle_band_frames: 8,
    }
}

/// Puts the built-in layouts together.
fn built_in_layouts() -> (r: Vec<(String, [usize; COLS])>)
    ensures
        layout_views(r@) == default_layouts(),
{
    let mut r: Vec<(String, [usize; COLS])> = Vec::new();
    r.push(("default".to_string(), [0, 0, 0, 1, 1, 1, 2, 2, 3, 3, 4, 4, 5, 5, 6, 7]));
    assert(r@[0].1@ =~= default_layouts()[0].1);
    r.push(("symmetric".to_string(), [0, 1, 2, 3, 4, 5, 6, 7, 7, 6, 5, 4, 3, 2, 1, 0]));
    assert(r@[1].1@ =~= default_layouts()[1].1);
    r.push(("treble".to_string(), [3, 3, 4, 4, 4, 5, 5, 5, 6, 6, 6, 7, 7, 7, 7, 7]));
    assert(r@[2].1@ =~= default_layouts()[2].1);
    assert(layout_views(r@) =~= default_layouts());
    r
}

impl Default for AudioConfig {
    fn default() -> (r: Self)
        ensures
            r@ == default_config(),
    {
        let mut freq_sets: Vec<FrequencySet> = Vec::new();
        freq_sets.push(FrequencySet::default_set());
        freq_sets.push(FrequencySet::drums_set());
        assert(freq_set_views(freq_sets@) =~= default_config().freq_sets);
        AudioConfig {
            source: None,
            color_mode: "spectrum".to_string(),
            dazzle_palette: "rainbow".to_string(),
            palettes: built_in_palettes(),
            base_hue: Single { bits: 0x00000000 },
            sensitivity: Single { bits: 0x3f800000 },
            smoothing: Single { bits: 0x3e19999a },
            bass_amplify: Single { bits: 0x3f000000 },
            fps: 20,
            band_sensitivity: BandSensitivity::default(),
            band_smoothing: BandSmoothing::default(),
            freq_set: "default".to_string(),
            freq_sets,
            layout: "default".to_string(),
            layouts: built_in_layouts(),
            global_mix: Single { bits: 0x3ecccccd },
            local_mix: Single { bits: 0x3f19999a },
            global_decay: Single { bits: 0x3f7f7cee },
            band_decay: Single { bits: 0x3f7fbe77 },
            response_curve: Single { bits: 0x3f19999a },
            dazzle_band_frames: 8,
        }
    }
}

impl AudioConfig {
    /// Get the active frequency set.
    pub fn active_freq_set(&self) -> (r: &FrequencySet)
        requires
            self.freq_sets.len() > 0,
        ensures
            r@ == self@.active_set(),
    {
        let i: usize = find_set(&self.freq_sets, &self.freq_set);
        if i < self.freq_sets.len() {
            &self.freq_sets[i]
        } else {
            &self.freq_sets[0]
        }
    }

    /// Get the active column layout.
    pub fn active_layout(&self) -> (r: &[usize; COLS])
        requires
            self.layouts.len() > 0,
        ensures
            r@ == self@.active_columns(),
    {
        let i: usize = find_layout(&self.layouts, &self.layout);
        if i < self.layouts.len() {
            &self.layouts[i].1
        } else {
            &self.layouts[0].1
        }
    }

    /// Get the active dazzle palette.
    pub fn active_palette(&self) -> (r: &DazzlePalette)
        requires
            self.palettes.len() > 0,
        ensures
            r@ == self@.active_colors(),
    {
        let i: usize = find_palette(&self.palettes, &self.dazzle_palette);
        if i < self.palettes.len() {
            &self.palettes[i]
        } else {
            &self.palettes[0]
        }
    }

    /// Lets a source named by the user take the place of the configured one.
    pub fn override_source(&mut self, source: Option<&str>)
        ensures
            source is None ==> *final(self) == *old(self),
            source matches Some(s) ==> final(self)@ == (ConfigView {
                source: Some(s@),
                ..old(self)@
            }),
    {
        if let Some(s) = source {
            self.source = Some(s.to_string());
        }
    }
}

// ---------------------------------------------------------------------------
// Laws of the built-in configuration
// ---------------------------------------------------------------------------

/// The built-in configuration is a usable one.
pub proof fn default_config_is_well_formed()
    ensures
        default_config().well_formed(),
{
    crate::palette::default_palette_names_differ();
    reveal_strlit("default");
    reveal_strlit("drums");
    reveal_strlit("symmetric");
    reveal_strlit("treble");
    let d = default_config();
    assert(set_names(d.freq_sets)[0].len() != set_names(d.freq_sets)[1].len());
    let l = layout_names(d.layouts);
    assert(l[0].len() == 7 && l[1].len() == 9 && l[2].len() == 6);
    assert(valid_columns(d.layouts[0].1));
    assert(valid_columns(d.layouts[1].1));
    assert(valid_columns(d.layouts[2].1));
}

/// Whether the numbers are the nearest ones to the given multiples of `1 / den`.
pub open spec fn all_nearest(numbers: Seq<Single>, multiples: Seq<int>, den: int) -> bool {
    &&& numbers.len() == multiples.len()
    &&& forall|i: int|
        0 <= i < numbers.len() ==> (#[trigger] numbers[i]).nearest_to(multiples[i], den)
}

/// Whether the bands of a set are the nearest numbers to whole limits in hertz and to weights in
/// tenths.
pub open spec fn bands_nearest(
    bands: Seq<(Single, Single, Single)>,
    lows: Seq<int>,
    highs: Seq<int>,
    weights: Seq<int>,
) -> bool {
    &&& bands.len() == lows.len() == highs.len() == weights.len()
    &&& forall|i: int|
        0 <= i < bands.len() ==> {
            &&& (#[trigger] bands[i]).0.nearest_to(lows[i], 1)
            &&& bands[i].1.nearest_to(highs[i], 1)
            &&& bands[i].2.nearest_to(weights[i], 10)
        }
}

/// The single built-in numbers are decimal fractions, each rounded to the nearest number there is.
pub proof fn default_numbers_are_decimal()
    ensures
        default_config().sensitivity.nearest_to(1, 1),
        default_config().smoothing.nearest_to(15, 100),
        default_config().bass_amplify.nearest_to(5, 10),
        default_config().global_mix.nearest_to(4, 10),
        default_config().local_mix.nearest_to(6, 10),
        default_config().global_decay.nearest_to(998, 1000),
        default_config().band_decay.nearest_to(999, 1000),
        default_config().response_curve.nearest_to(6, 10),
{
    vstd::arithmetic::power2::lemma2_to64();
}

/// The built-in sensitivities are tenths, each rounded to the nearest number there is.
pub proof fn default_sensitivities_are_decimal()
    ensures
        all_nearest(default_sensitivities(), seq![10int, 10, 11, 12, 14, 16, 22, 30], 10),
{
    vstd::arithmetic::power2::lemma2_to64();
    let numbers = default_sensitivities();
    assert(numbers[0].nearest_to(10, 10));
    assert(numbers[1].nearest_to(10, 10));
    assert(numbers[2].nearest_to(11, 10));
    assert(numbers[3].nearest_to(12, 10));
    assert(numbers[4].nearest_to(14, 10));
    assert(numbers[5].nearest_to(16, 10));
    assert(numbers[6].nearest_to(22, 10));
    assert(numbers[7].nearest_to(30, 10));
}

/// The built-in smoothings are hundredths, each rounded to the nearest number there is.
pub proof fn default_smoothings_are_decimal()
    ensures
        all_nearest(default_smoothings(), seq![5int, 5, 10, 15, 20, 25, 30, 30], 100),
{
    vstd::arithmetic::power2::lemma2_to64();
    let numbers = default_smoothings();
    assert(numbers[0].nearest_to(5, 100));
    assert(numbers[1].nearest_to(5, 100));
    assert(numbers[2].nearest_to(10, 100));
    assert(numbers[3].nearest_to(15, 100));
    assert(numbers[4].nearest_to(20, 100));
    assert(numbers[5].nearest_to(25, 100));
    assert(numbers[6].nearest_to(30, 100));
    assert(numbers[7].nearest_to(30, 100));
}

/// The limits of the set "default" are whole hertz and its weights tenths, each rounded to the nearest
/// number there is.
pub proof fn default_bands_are_decimal()
    ensures
        bands_nearest(
            default_bands(),
            seq![20int, 60, 150, 400, 1000, 2500, 6000, 12000],
            seq![100int, 150, 400, 1000, 2500, 6000, 12000, 20000],
            seq![25int, 15, 12, 10, 10, 12, 15, 20],
        ),
{
    vstd::arithmetic::power2::lemma2_to64();
    let bands = default_bands();
    assert(bands[0].0.nearest_to(20, 1));
    assert(bands[0].1.nearest_to(100, 1));
    assert(bands[0].2.nearest_to(25, 10));
    assert(bands[1].0.nearest_to(60, 1));
    assert(bands[1].1.nearest_to(150, 1));
    assert(bands[1].2.nearest_to(15, 10));
    assert(bands[2].0.nearest_to(150, 1));
    assert(bands[2].1.nearest_to(400, 1));
    assert(bands[2].2.nearest_to(12, 10));
    assert(bands[3].0.nearest_to(400, 1));
    assert(bands[3].1.nearest_to(1000, 1));
    assert(bands[3].2.nearest_to(10, 10));
    assert(bands[4].0.nearest_to(1000, 1));
    assert(bands[4].1.nearest_to(2500, 1));
    assert(bands[4].2.nearest_to(10, 10));
    assert(bands[5].0.nearest_to(2500, 1));
    assert(bands[5].1.nearest_to(6000, 1));
    assert(bands[5].2.nearest_to(12, 10));
    assert(bands[6].0.nearest_to(6000, 1));
    assert(bands[6].1.nearest_to(12000, 1));
    assert(bands[6].2.nearest_to(15, 10));
    assert(bands[7].0.nearest_to(12000, 1));
    assert(bands[7].1.nearest_to(20000, 1));
    assert(bands[7].2.nearest_to(20, 10));
}

/// The limits of the set "drums" are whole hertz and its weights tenths, each rounded to the nearest
/// number there is.
pub proof fn drums_bands_are_decimal()
    ensures
        bands_nearest(
            drums_bands(),
            seq![50int, 100, 200, 400, 800, 3000, 7000, 12000],
            seq![100int, 200, 400, 800, 3000, 7000, 12000, 20000],
            seq![30int, 20, 15, 15, 12, 13, 18, 25],
        ),
{
    vstd::arithmetic::power2::lemma2_to64();
    let bands = drums_bands();
    assert(bands[0].0.nearest_to(50, 1));
    assert(bands[0].1.nearest_to(100, 1));
    assert(bands[0].2.nearest_to(30, 10));
    assert(bands[1].0.nearest_to(100, 1));
    assert(bands[1].1.nearest_to(200, 1));
    assert(bands[1].2.nearest_to(20, 10));
    assert(bands[2].0.nearest_to(200, 1));
    assert(bands[2].1.nearest_to(400, 1));
    assert(bands[2].2.nearest_to(15, 10));
    assert(bands[3].0.nearest_to(400, 1));
    assert(bands[3].1.nearest_to(800, 1));
    assert(bands[3].2.nearest_to(15, 10));
    assert(bands[4].0.nearest_to(800, 1));
    assert(bands[4].1.nearest_to(3000, 1));
    assert(bands[4].2.nearest_to(12, 10));
    assert(bands[5].0.nearest_to(3000, 1));
    assert(bands[5].1.nearest_to(7000, 1));
    assert(bands[5].2.nearest_to(13, 10));
    assert(bands[6].0.nearest_to(7000, 1));
    assert(bands[6].1.nearest_to(12000, 1));
    assert(bands[6].2.nearest_to(18, 10));
    assert(bands[7].0.nearest_to(12000, 1));
    assert(bands[7].1.nearest_to(20000, 1));
    assert(bands[7].2.nearest_to(25, 10));
}

/// Bass is smoothed least and treble most: the built-in smoothings never fall from one band to the
/// next.
pub proof fn treble_is_smoothed_more(low: int, high: int)
    requires
        0 <= low <= high < NUM_BANDS,
    ensures
        default_smoothings()[low].at_most(default_smoothings()[high]),
{
    let s = default_smoothings();
    assert(s[0].rank() <= s[1].rank() <= s[2].rank() <= s[3].rank() <= s[4].rank() <= s[5].rank()
        <= s[6].rank() <= s[7].rank());
}

/// What is built in: no source, the spectrum, the rainbow palette, and the set and the layout that are
/// named "default"; twenty frames in a second and eight frames for a color.
pub proof fn built_in_settings()
    ensures
        default_config().source is None,
        default_config().color_mode == "spectrum"@,
        default_config().dazzle_palette == "rainbow"@,
        default_config().freq_set == "default"@,
        default_config().layout == "default"@,
        default_config().base_hue.bits == 0,
        default_config().fps == 20,
        default_config().dazzle_band_frames == 8,
        default_config().palettes == crate::palette::default_palettes(),
        all_nearest(
            default_config().band_sensitivity,
            seq![10int, 10, 11, 12, 14, 16, 22, 30],
            10,
        ),
        all_nearest(default_config().band_smoothing, seq![5int, 5, 10, 15, 20, 25, 30, 30], 100),
{
    default_sensitivities_are_decimal();
    default_smoothings_are_decimal();
}

/// The built-in frequency sets, by their limits in hertz and their weights in tenths.
pub proof fn built_in_sets()
    ensures
        default_config().freq_sets.len() == 2,
        default_config().freq_sets[0].name == "default"@,
        default_config().freq_sets[1].name == "drums"@,
        bands_nearest(
            default_config().freq_sets[0].bands,
            seq![20int, 60, 150, 400, 1000, 2500, 6000, 12000],
            seq![100int, 150, 400, 1000, 2500, 6000, 12000, 20000],
            seq![25int, 15, 12, 10, 10, 12, 15, 20],
        ),
        bands_nearest(
            default_config().freq_sets[1].bands,
            seq![50int, 100, 200, 400, 800, 3000, 7000, 12000],
            seq![100int, 200, 400, 800, 3000, 7000, 12000, 20000],
            seq![30int, 20, 15, 15, 12, 13, 18, 25],
        ),
{
    default_bands_are_decimal();
    drums_bands_are_decimal();
}

/// The built-in layouts: one from bass to treble with wide bass, one that is the same from both sides,
/// and one with nothing below the middle.
pub proof fn built_in_layouts_by_column(c: int)
    requires
        0 <= c < 16,
    ensures
        default_config().layouts.len() == 3,
        default_config().layouts[0].0 == "default"@,
        default_config().layouts[1].0 == "symmetric"@,
        default_config().layouts[2].0 == "treble"@,
        default_config().layouts[0].1.len() == 16,
        default_config().layouts[1].1.len() == 16,
        default_config().layouts[2].1.len() == 16,
        default_config().layouts[0].1[c] == (if c < 6 {
            c / 3
        } else if c < 14 {
            c / 2 - 1
        } else {
            c - 8
        }),
        default_config().layouts[1].1[c] == (if c < 8 {
            c
        } else {
            15 - c
        }),
        default_config().layouts[2].1[c] == (if c < 2 {
            3
        } else if c < 14 {
            (c + 10) / 3
        } else {
            7
        }),
{
}

/// What a usable configuration has: a number for each of the eight bands, sets with eight bands,
/// layouts that give one of the eight bands to each of sixteen columns, palettes with colors, at least
/// one of each, and no two of one name.
pub proof fn usable_configurations_are_complete(c: ConfigView, i: int, j: int)
    requires
        c.well_formed(),
    ensures
        c.band_sensitivity.len() == 8,
        c.band_smoothing.len() == 8,
        c.freq_sets.len() > 0 && c.layouts.len() > 0 && c.palettes.len() > 0,
        0 <= i < c.freq_sets.len() ==> c.freq_sets[i].bands.len() == 8,
        0 <= i < c.layouts.len() ==> c.layouts[i].1.len() == 16,
        0 <= i < c.layouts.len() && 0 <= j < 16 ==> c.layouts[i].1[j] <= 7,
        0 <= i < c.palettes.len() ==> c.palettes[i].colors.len() > 0,
        0 <= i < j < c.freq_sets.len() ==> c.freq_sets[i].name != c.freq_sets[j].name,
        0 <= i < j < c.layouts.len() ==> c.layouts[i].0 != c.layouts[j].0,
        0 <= i < j < c.palettes.len() ==> c.palettes[i].name != c.palettes[j].name,
{
    if 0 <= i < c.layouts.len() {
        assert(valid_columns(c.layouts[i].1));
    }
    if 0 <= i < j < c.freq_sets.len() {
        assert(set_names(c.freq_sets)[i] != set_names(c.freq_sets)[j]);
    }
    if 0 <= i < j < c.layouts.len() {
        assert(layout_names(c.layouts)[i] != layout_names(c.layouts)[j]);
    }
    if 0 <= i < j < c.palettes.len() {
        let names = crate::palette::palette_names(c.palettes);
        assert(names[i] != names[j]);
    }
}

/// Names and views of sets and layouts are those of the sets and layouts, one for one.
pub proof fn sets_and_layouts_keep_their_names(
    sets: Seq<FrequencySet>,
    set_list: Seq<FrequencySetView>,
    layouts: Seq<(String, [usize; COLS])>,
    layout_list: Seq<(Seq<char>, Seq<usize>)>,
    i: int,
)
    ensures
        freq_set_views(sets).len() == sets.len(),
        set_names(set_list).len() == set_list.len(),
        layout_views(layouts).len() == layouts.len(),
        layout_names(layout_list).len() == layout_list.len(),
        0 <= i < sets.len() ==> freq_set_views(sets)[i].name == sets[i].name@ && freq_set_views(
            sets,
        )[i].bands == sets[i].bands@,
        0 <= i < set_list.len() ==> set_names(set_list)[i] == set_list[i].name,
        0 <= i < layouts.len() ==> layout_views(layouts)[i].0 == layouts[i].0@ && layout_views(
            layouts,
        )[i].1 == layouts[i].1@,
        0 <= i < layout_list.len() ==> layout_names(layout_list)[i] == layout_list[i].0,
{
}

/// The view of a configuration holds what the configuration holds.
pub proof fn configurations_are_viewed_as_they_are(c: AudioConfig)
    ensures
        c@.source is Some <==> c.source is Some,
        c.source matches Some(s) ==> c@.source == Some(s@),
        c@.color_mode == c.color_mode@,
        c@.dazzle_palette == c.dazzle_palette@,
        c@.freq_set == c.freq_set@,
        c@.layout == c.layout@,
        c@.base_hue == c.base_hue,
        c@.sensitivity == c.sensitivity,
        c@.smoothing == c.smoothing,
        c@.bass_amplify == c.bass_amplify,
        c@.fps == c.fps,
        c@.band_sensitivity == c.band_sensitivity.values@,
        c@.band_smoothing == c.band_smoothing.values@,
        c@.global_mix == c.global_mix,
        c@.local_mix == c.local_mix,
        c@.global_decay == c.global_decay,
        c@.band_decay == c.band_decay,
        c@.response_curve == c.response_curve,
        c@.dazzle_band_frames == c.dazzle_band_frames,
        c@.palettes.len() == c.palettes@.len(),
        c@.freq_sets.len() == c.freq_sets@.len(),
        c@.layouts.len() == c.layouts@.len(),
{
}

} // verus!
