//! From the settings of a file to a configuration.
//!
//! The texts that spell single-precision numbers are handed out first and come back as numbers, each
//! of them `None` where its text spells none.
use crate::config::{
    find_layout, find_set, AudioConfig, BandSensitivity, BandSmoothing, ConfigView, FrequencySet,
    FrequencySetView, COLS, NUM_BANDS,
};
use crate::entry::{read_entries, CountKey, Entry, EntryView, NumberKey, TextKey};
use crate::palette::{find_palette, DazzlePalette, PaletteView};
use crate::single::Single;
use vstd::prelude::*;
use vstd::slice::slice_to_vec;

verus! {

// ---------------------------------------------------------------------------
// The numbers of a setting
// ---------------------------------------------------------------------------

/// The texts of a setting that spell single-precision numbers.
pub open spec fn texts_of(e: EntryView) -> Seq<Seq<char>> {
    match e {
        EntryView::Number { text, .. } => seq![text],
        EntryView::Sensitivity { text, .. } => seq![text],
        EntryView::Smoothing { text, .. } => seq![text],
        EntryView::FreqSet { texts, .. } => texts,
        _ => seq![],
    }
}

/// The texts of all settings of a file that spell single-precision numbers.
pub open spec fn all_texts(entries: Seq<EntryView>) -> Seq<Seq<Seq<char>>> {
    Seq::new(entries.len(), |i: int| texts_of(entries[i]))
}

/// What nested lists of strings hold.
pub open spec fn nested_views(s: Seq<Vec<String>>) -> Seq<Seq<Seq<char>>> {
    Seq::new(s.len(), |i: int| crate::entry::string_views(s[i]@))
}

impl Entry {
    /// The texts of the setting that spell single-precision numbers.
    pub fn number_texts(&self) -> (r: Vec<String>)
        ensures
            crate::entry::string_views(r@) == texts_of(self@),
    {
        let mut r: Vec<String> = Vec::new();
        match self {
            Entry::Number { text, .. } => {
                r.push(text.clone());
            },
            Entry::Sensitivity { text, .. } => {
                r.push(text.clone());
            },
            Entry::Smoothing { text, .. } => {
                r.push(text.clone());
            },
            Entry::FreqSet { texts, .. } => {
                let mut i: usize = 0;
                while i < texts.len()
                    invariant
                        i <= texts.len(),
                        r.len() == i,
                        forall|j: int| 0 <= j < i ==> (#[trigger] r@[j])@ == texts@[j]@,
                    decreases texts.len() - i,
                {
                    r.push(texts[i].clone());
                    i = i + 1;
                }
            },
            _ => {},
        }
        assert(crate::entry::string_views(r@) =~= texts_of(self@));
        r
    }
}

/// For each setting of a file the texts that spell single-precision numbers.
pub fn number_texts(content: &str) -> (r: Vec<Vec<String>>)
    ensures
        nested_views(r@) == all_texts(crate::entry::file_entries(content@)),
{
    let entries: Vec<Entry> = read_entries(content);
    let mut r: Vec<Vec<String>> = Vec::new();
    let mut i: usize = 0;
    while i < entries.len()
        invariant
            i <= entries.len(),
            r.len() == i,
            forall|j: int|
                0 <= j < i ==> crate::entry::string_views((#[trigger] r@[j])@) == texts_of(
                    entries@[j]@,
                ),
        decreases entries.len() - i,
    {
        r.push(entries[i].number_texts());
        i = i + 1;
    }
    assert(nested_views(r@) =~= all_texts(crate::entry::entry_views(entries@)));
    r
}

// ---------------------------------------------------------------------------
// What a setting does to a configuration
// ---------------------------------------------------------------------------

/// The numbers among the readings.
pub open spec fn readable(numbers: Seq<Option<Single>>) -> Seq<Single>
    decreases numbers.len(),
{
    if numbers.len() == 0 {
        seq![]
    } else {
        match numbers.last() {
            Some(v) => readable(numbers.drop_last()).push(v),
            None => readable(numbers.drop_last()),
        }
    }
}

/// The numbers by threes: low limit, high limit and weight of each band.
pub open spec fn by_threes(v: Seq<Single>) -> Seq<(Single, Single, Single)> {
    Seq::new(NUM_BANDS as nat, |i: int| (v[3 * i], v[3 * i + 1], v[3 * i + 2]))
}

/// The column bands, each cut down to the last band there is.
pub open spec fn clamped(columns: Seq<u64>) -> Seq<usize> {
    Seq::new(
        columns.len(),
        |i: int|
            if columns[i] < NUM_BANDS {
                columns[i] as usize
            } else {
                (NUM_BANDS - 1) as usize
            },
    )
}

/// The sets with the bands of one name replaced, or added at the end where the name is new.
pub open spec fn with_set(
    sets: Seq<FrequencySetView>,
    name: Seq<char>,
    bands: Seq<(Single, Single, Single)>,
) -> Seq<FrequencySetView> {
    let i = crate::names::first_named(crate::config::set_names(sets), name) as int;
    if i < sets.len() {
        sets.update(i, FrequencySetView { name, bands })
    } else {
        sets.push(FrequencySetView { name, bands })
    }
}

/// The layouts with the columns of one name replaced, or added at the end where the name is new.
pub open spec fn with_layout(
    layouts: Seq<(Seq<char>, Seq<usize>)>,
    name: Seq<char>,
    columns: Seq<usize>,
) -> Seq<(Seq<char>, Seq<usize>)> {
    let i = crate::names::first_named(crate::config::layout_names(layouts), name) as int;
    if i < layouts.len() {
        layouts.update(i, (name, columns))
    } else {
        layouts.push((name, columns))
    }
}

/// The palettes with the colors of one name replaced, or added at the end where the name is new.
pub open spec fn with_palette(
    palettes: Seq<PaletteView>,
    name: Seq<char>,
    colors: Seq<(u8, u8, u8)>,
) -> Seq<PaletteView> {
    let i = crate::names::first_named(crate::palette::palette_names(palettes), name) as int;
    if i < palettes.len() {
        palettes.update(i, PaletteView { name, colors })
    } else {
        palettes.push(PaletteView { name, colors })
    }
}

/// The configuration with one text set.
pub open spec fn with_text(c: ConfigView, key: TextKey, value: Seq<char>) -> ConfigView {
    match key {
        TextKey::Source => ConfigView { source: Some(value), ..c },
        TextKey::ColorMode => ConfigView { color_mode: value, ..c },
        TextKey::DazzlePalette => ConfigView { dazzle_palette: value, ..c },
        TextKey::Layout => ConfigView { layout: value, ..c },
        TextKey::FreqSet => ConfigView { freq_set: value, ..c },
    }
}

/// The configuration with one number set.
pub open spec fn with_number(c: ConfigView, number: NumberKey, v: Single) -> ConfigView {
    match number {
        NumberKey::BaseHue => ConfigView { base_hue: v, ..c },
        NumberKey::Sensitivity => ConfigView { sensitivity: v, ..c },
        NumberKey::Smoothing => ConfigView { smoothing: v, ..c },
        NumberKey::BassAmplify => ConfigView { bass_amplify: v, ..c },
        NumberKey::GlobalMix => ConfigView { global_mix: v, ..c },
        NumberKey::LocalMix => ConfigView { local_mix: v, ..c },
        NumberKey::GlobalDecay => ConfigView { global_decay: v, ..c },
        NumberKey::BandDecay => ConfigView { band_decay: v, ..c },
        NumberKey::ResponseCurve => ConfigView { response_curve: v, ..c },
    }
}

/// The configuration with one whole number set.
pub open spec fn with_count(c: ConfigView, count: CountKey, v: u32) -> ConfigView {
    match count {
        CountKey::Fps => ConfigView { fps: v, ..c },
        CountKey::DazzleBandFrames => ConfigView { dazzle_band_frames: v, ..c },
    }
}

/// A reading, or else what stands in for it.
pub open spec fn reading_or(number: Option<Single>, fallback: Single) -> Single {
    match number {
        Some(v) => v,
        None => fallback,
    }
}

/// What one setting makes of a configuration. A number that cannot be read leaves what was set
/// before it, but resets a band to its built-in value; a frequency set needs three numbers for each
/// band, a layout one for each column, and a palette at least one color.
pub open spec fn applied(c: ConfigView, e: EntryView, numbers: Seq<Option<Single>>) -> ConfigView {
    match e {
        EntryView::Text { key, value } => with_text(c, key, value),
        EntryView::Number { number, .. } => match numbers[0] {
            Some(v) => with_number(c, number, v),
            None => c,
        },
        EntryView::Count { count, amount } => match amount {
            Some(v) => with_count(c, count, v),
            None => c,
        },
        EntryView::Sensitivity { band, .. } => ConfigView {
            band_sensitivity: c.band_sensitivity.update(
                band,
                reading_or(numbers[0], crate::config::default_sensitivities()[band]),
            ),
            ..c
        },
        EntryView::Smoothing { band, .. } => ConfigView {
            band_smoothing: c.band_smoothing.update(
                band,
                reading_or(numbers[0], crate::config::default_smoothings()[band]),
            ),
            ..c
        },
        EntryView::FreqSet { name, .. } => if readable(numbers).len() == 3 * NUM_BANDS {
            ConfigView {
                freq_sets: with_set(c.freq_sets, name, by_threes(readable(numbers))),
                ..c
            }
        } else {
            c
        },
        EntryView::Layout { name, columns } => if columns.len() == COLS {
            ConfigView { layouts: with_layout(c.layouts, name, clamped(columns)), ..c }
        } else {
            c
        },
        EntryView::Palette { name, colors } => if colors.len() > 0 {
            ConfigView { palettes: with_palette(c.palettes, name, colors), ..c }
        } else {
            c
        },
    }
}

/// A setting that is left out because it cannot be used.
#[derive(Debug)]
pub enum Warning {
    /// A frequency set with another number of values than three for each band.
    FreqSetValues { name: String, got: usize },
    /// A layout with another number of entries than one for each column.
    LayoutEntries { name: String, got: usize },
    /// A palette without a color.
    NoColors { name: String },
}

/// What a warning holds.
pub enum WarningView {
    FreqSetValues { name: Seq<char>, got: nat },
    LayoutEntries { name: Seq<char>, got: nat },
    NoColors { name: Seq<char> },
}

impl View for Warning {
    type V = WarningView;

    open spec fn view(&self) -> WarningView {
        match *self {
            Warning::FreqSetValues { name, got } => WarningView::FreqSetValues {
                name: name@,
                got: got as nat,
            },
            Warning::LayoutEntries { name, got } => WarningView::LayoutEntries {
                name: name@,
                got: got as nat,
            },
            Warning::NoColors { name } => WarningView::NoColors { name: name@ },
        }
    }
}

/// The warning that a setting deserves.
pub open spec fn warning_of(e: EntryView, numbers: Seq<Option<Single>>) -> Option<WarningView> {
    match e {
        EntryView::FreqSet { name, .. } => if readable(numbers).len() == 3 * NUM_BANDS {
            None
        } else {
            Some(WarningView::FreqSetValues { name, got: readable(numbers).len() })
        },
        EntryView::Layout { name, columns } => if columns.len() == COLS {
            None
        } else {
            Some(WarningView::LayoutEntries { name, got: columns.len() })
        },
        EntryView::Palette { name, colors } => if colors.len() > 0 {
            None
        } else {
            Some(WarningView::NoColors { name })
        },
        _ => None,
    }
}

/// What an optional warning holds.
pub open spec fn warning_view(w: Option<Warning>) -> Option<WarningView> {
    match w {
        Some(w) => Some(w@),
        None => None,
    }
}

/// Whether the band that a setting is about exists.
pub open spec fn band_exists(e: EntryView) -> bool {
    match e {
        EntryView::Sensitivity { band, .. } => 0 <= band < NUM_BANDS,
        EntryView::Smoothing { band, .. } => 0 <= band < NUM_BANDS,
        _ => true,
    }
}

/// Collects the numbers among the readings.
fn collect_readable(numbers: &Vec<Option<Single>>) -> (r: Vec<Single>)
    ensures
        r@ == readable(numbers@),
{
    let mut r: Vec<Single> = Vec::new();
    let mut i: usize = 0;
    assert(numbers@.take(0) =~= seq![]);
    while i < numbers.len()
        invariant
            i <= numbers.len(),
            r@ == readable(numbers@.take(i as int)),
        decreases numbers.len() - i,
    {
        assert(numbers@.take(i + 1).drop_last() =~= numbers@.take(i as int));
        if let Some(v) = numbers[i] {
            r.push(v);
        }
        i = i + 1;
    }
    assert(numbers@.take(i as int) =~= numbers@);
    r
}

/// Groups the numbers by threes.
fn group_by_threes(v: &Vec<Single>) -> (r: [(Single, Single, Single); NUM_BANDS])
    requires
        v.len() == 3 * NUM_BANDS,
    ensures
        r@ == by_threes(v@),
{
    let zero: Single = Single { bits: 0 };
    let mut r: [(Single, Single, Single); NUM_BANDS] = [(zero, zero, zero);NUM_BANDS];
    let mut i: usize = 0;
    while i < NUM_BANDS
        invariant
            i <= NUM_BANDS,
            v.len() == 3 * NUM_BANDS,
            forall|j: int| 0 <= j < i ==> r@[j] == by_threes(v@)[j],
        decreases NUM_BANDS - i,
    {
        r[i] = (v[3 * i], v[3 * i + 1], v[3 * i + 2]);
        i = i + 1;
    }
    assert(r@ =~= by_threes(v@));
    r
}

/// Cuts the column bands down to the last band.
fn clamp_columns(columns: &Vec<u64>) -> (r: [usize; COLS])
    requires
        columns.len() == COLS,
    ensures
        r@ == clamped(columns@),
{
    let mut r: [usize; COLS] = [0;COLS];
    let mut i: usize = 0;
    while i < COLS
        invariant
            i <= COLS,
            columns.len() == COLS,
            forall|j: int| 0 <= j < i ==> r@[j] == clamped(columns@)[j],
        decreases COLS - i,
    {
        r[i] =
        if columns[i] < NUM_BANDS as u64 {
            columns[i] as usize
        } else {
            NUM_BANDS - 1
        };
        i = i + 1;
    }
    assert(r@ =~= clamped(columns@));
    r
}

// ---------------------------------------------------------------------------
// Applying settings
// ---------------------------------------------------------------------------

impl AudioConfig {
    fn set_text(&mut self, key: TextKey, value: &String)
        ensures
            final(self)@ == with_text(old(self)@, key, value@),
    {
        match key {
            TextKey::Source => {
                self.source = Some(value.clone());
            },
            TextKey::ColorMode => {
                self.color_mode = value.clone();
            },
            TextKey::DazzlePalette => {
                self.dazzle_palette = value.clone();
            },
            TextKey::Layout => {
                self.layout = value.clone();
            },
            TextKey::FreqSet => {
                self.freq_set = value.clone();
            },
        }
    }

    fn set_number(&mut self, number: NumberKey, v: Single)
        ensures
            final(self)@ == with_number(old(self)@, number, v),
    {
        match number {
            NumberKey::BaseHue => {
                self.base_hue = v;
            },
            NumberKey::Sensitivity => {
                self.sensitivity = v;
            },
            NumberKey::Smoothing => {
                self.smoothing = v;
            },
            NumberKey::BassAmplify => {
                self.bass_amplify = v;
            },
            NumberKey::GlobalMix => {
                self.global_mix = v;
            },
            NumberKey::LocalMix => {
                self.local_mix = v;
            },
            NumberKey::GlobalDecay => {
                self.global_decay = v;
            },
            NumberKey::BandDecay => {
                self.band_decay = v;
            },
            NumberKey::ResponseCurve => {
                self.response_curve = v;
            },
        }
    }

    fn set_count(&mut self, count: CountKey, v: u32)
        ensures
            final(self)@ == with_count(old(self)@, count, v),
    {
        match count {
            CountKey::Fps => {
                self.fps = v;
            },
            CountKey::DazzleBandFrames => {
                self.dazzle_band_frames = v;
            },
        }
    }

    fn set_sensitivity(&mut self, band: usize, number: Option<Single>)
        requires
            band < NUM_BANDS,
        ensures
            final(self)@ == (ConfigView {
                band_sensitivity: old(self)@.band_sensitivity.update(
                    band as int,
                    reading_or(number, crate::config::default_sensitivities()[band as int]),
                ),
                ..old(self)@
            }),
    {
        let v: Single = match number {
            Some(v) => v,
            None => BandSensitivity::default().values[band],
        };
        self.band_sensitivity.values[band] = v;
    }

    fn set_smoothing(&mut self, band: usize, number: Option<Single>)
        requires
            band < NUM_BANDS,
        ensures
            final(self)@ == (ConfigView {
                band_smoothing: old(self)@.band_smoothing.update(
                    band as int,
                    reading_or(number, crate::config::default_smoothings()[band as int]),
                ),
                ..old(self)@
            }),
    {
        let v: Single = match number {
            Some(v) => v,
            None => BandSmoothing::default().values[band],
        };
        self.band_smoothing.values[band] = v;
    }

    fn set_freq_set(&mut self, name: &String, bands: [(Single, Single, Single); NUM_BANDS])
        ensures
            final(self)@ == (ConfigView {
                freq_sets: with_set(old(self)@.freq_sets, name@, bands@),
                ..old(self)@
            }),
    {
        let ghost before = self@.freq_sets;
        let i: usize = find_set(&self.freq_sets, name);
        if i < self.freq_sets.len() {
            self.freq_sets[i] = FrequencySet { name: name.clone(), bands };
        } else {
            self.freq_sets.push(FrequencySet { name: name.clone(), bands });
        }
        assert(self@.freq_sets =~= with_set(before, name@, bands@));
    }

    fn set_layout(&mut self, name: &String, columns: [usize; COLS])
        ensures
            final(self)@ == (ConfigView {
                layouts: with_layout(old(self)@.layouts, name@, columns@),
                ..old(self)@
            }),
    {
        let ghost before = self@.layouts;
        let i: usize = find_layout(&self.layouts, name);
        if i < self.layouts.len() {
            self.layouts[i] = (name.clone(), columns);
        } else {
            self.layouts.push((name.clone(), columns));
        }
        assert(self@.layouts =~= with_layout(before, name@, columns@));
    }

    fn set_palette(&mut self, name: &String, colors: Vec<(u8, u8, u8)>)
        ensures
            final(self)@ == (ConfigView {
                palettes: with_palette(old(self)@.palettes, name@, colors@),
                ..old(self)@
            }),
    {
        let ghost before = self@.palettes;
        let ghost c = colors@;
        let i: usize = find_palette(&self.palettes, name);
        if i < self.palettes.len() {
            self.palettes[i] = DazzlePalette { name: name.clone(), colors };
        } else {
            self.palettes.push(DazzlePalette { name: name.clone(), colors });
        }
        assert(self@.palettes =~= with_palette(before, name@, c));
    }

    /// Takes one setting in, with the numbers that its texts spell. Gives the warning that it
    /// deserves.
    pub fn apply(&mut self, e: &Entry, numbers: &Vec<Option<Single>>) -> (w: Option<Warning>)
        requires
            band_exists(e@),
            numbers.len() == texts_of(e@).len(),
        ensures
            final(self)@ == applied(old(self)@, e@, numbers@),
            warning_view(w) == warning_of(e@, numbers@),
    {
        match e {
            Entry::Text { key, value } => {
                self.set_text(*key, value);
                None
            },
            Entry::Number { number, .. } => {
                if let Some(v) = numbers[0] {
                    self.set_number(*number, v);
                }
                None
            },
            Entry::Count { count, amount } => {
                if let Some(v) = amount {
                    self.set_count(*count, *v);
                }
                None
            },
            Entry::Sensitivity { band, .. } => {
                self.set_sensitivity(*band, numbers[0]);
                None
            },
            Entry::Smoothing { band, .. } => {
                self.set_smoothing(*band, numbers[0]);
                None
            },
            Entry::FreqSet { name, .. } => {
                let v: Vec<Single> = collect_readable(numbers);
                if v.len() == 3 * NUM_BANDS {
                    self.set_freq_set(name, group_by_threes(&v));
                    None
                } else {
                    Some(Warning::FreqSetValues { name: name.clone(), got: v.len() })
                }
            },
            Entry::Layout { name, columns } => {
                if columns.len() == COLS {
                    self.set_layout(name, clamp_columns(columns));
                    None
                } else {
                    Some(Warning::LayoutEntries { name: name.clone(), got: columns.len() })
                }
            },
            Entry::Palette { name, colors } => {
                if colors.len() > 0 {
                    self.set_palette(name, slice_to_vec(colors.as_slice()));
                    None
                } else {
                    Some(Warning::NoColors { name: name.clone() })
                }
            },
        }
    }
}

// ---------------------------------------------------------------------------
// Whole files
// ---------------------------------------------------------------------------

/// What nested lists of readings hold.
pub open spec fn reading_views(s: Seq<Vec<Option<Single>>>) -> Seq<Seq<Option<Single>>> {
    Seq::new(s.len(), |i: int| s[i]@)
}

/// Whether there is one reading for each of the texts.
pub open spec fn readings_fit(
    entries: Seq<EntryView>,
    numbers: Seq<Seq<Option<Single>>>,
) -> bool {
    &&& numbers.len() == entries.len()
    &&& forall|i: int|
        0 <= i < entries.len() ==> (#[trigger] numbers[i]).len() == texts_of(entries[i]).len()
}

/// What the settings make of the built-in configuration, one after the other.
pub open spec fn configured(
    entries: Seq<EntryView>,
    numbers: Seq<Seq<Option<Single>>>,
) -> ConfigView
    decreases entries.len(),
{
    if entries.len() == 0 {
        crate::config::default_config()
    } else {
        applied(
            configured(entries.drop_last(), numbers.drop_last()),
            entries.last(),
            numbers.last(),
        )
    }
}

/// The warnings that the settings deserve, in their order.
pub open spec fn warnings(
    entries: Seq<EntryView>,
    numbers: Seq<Seq<Option<Single>>>,
) -> Seq<WarningView>
    decreases entries.len(),
{
    if entries.len() == 0 {
        seq![]
    } else {
        let before = warnings(entries.drop_last(), numbers.drop_last());
        match warning_of(entries.last(), numbers.last()) {
            Some(w) => before.push(w),
            None => before,
        }
    }
}

/// What a list of warnings holds.
pub open spec fn warning_views(s: Seq<Warning>) -> Seq<WarningView> {
    Seq::new(s.len(), |i: int| s[i]@)
}

/// The bands that the settings of a file are about exist.
pub proof fn bands_of_entries_exist(lines: Seq<Seq<char>>)
    ensures
        forall|i: int|
            0 <= i < crate::entry::entries(lines).len() ==> #[trigger] band_exists(
                crate::entry::entries(lines)[i],
            ),
    decreases lines.len(),
{
    if lines.len() > 0 {
        bands_of_entries_exist(lines.drop_last());
        let before = crate::entry::entries(lines.drop_last());
        let all = crate::entry::entries(lines);
        assert forall|i: int| 0 <= i < all.len() implies #[trigger] band_exists(all[i]) by {
            if i < before.len() {
                assert(band_exists(before[i]));
            }
        }
    }
}

impl AudioConfig {
    /// The configuration of a file, and the warnings that its settings deserve. `numbers` holds for
    /// each of the texts that `number_texts` finds in the file the number that it spells.
    pub fn load(content: &str, numbers: &Vec<Vec<Option<Single>>>) -> (r: (AudioConfig, Vec<Warning>))
        requires
            readings_fit(crate::entry::file_entries(content@), reading_views(numbers@)),
        ensures
            r.0@ == configured(crate::entry::file_entries(content@), reading_views(numbers@)),
            warning_views(r.1@) == warnings(
                crate::entry::file_entries(content@),
                reading_views(numbers@),
            ),
            r.0@.well_formed(),
    {
        let entries: Vec<Entry> = read_entries(content);
        let mut config: AudioConfig = AudioConfig::default();
        let mut found: Vec<Warning> = Vec::new();
        let mut i: usize = 0;
        let ghost all = crate::entry::file_entries(content@);
        let ghost readings = reading_views(numbers@);
        proof {
            bands_of_entries_exist(crate::text::lines(content@));
            crate::config::default_config_is_well_formed();
            assert(all.take(0) =~= seq![]);
            assert(warning_views(found@) =~= seq![]);
        }
        while i < entries.len()
            invariant
                i <= entries.len(),
                all == crate::entry::entry_views(entries@),
                readings == reading_views(numbers@),
                readings_fit(all, readings),
                forall|j: int| 0 <= j < all.len() ==> #[trigger] band_exists(all[j]),
                config@ == configured(all.take(i as int), readings.take(i as int)),
                warning_views(found@) == warnings(all.take(i as int), readings.take(i as int)),
                config@.well_formed(),
            decreases entries.len() - i,
        {
            let ghost before = found@;
            proof {
                assert(all.take(i + 1).drop_last() =~= all.take(i as int));
                assert(readings.take(i + 1).drop_last() =~= readings.take(i as int));
                assert(band_exists(all[i as int]));
                assert(readings[i as int] == numbers@[i as int]@);
                applied_keeps_well_formed(config@, all[i as int], readings[i as int]);
            }
            if let Some(w) = config.apply(&entries[i], &numbers[i]) {
                found.push(w);
                assert(warning_views(found@) =~= warning_views(before).push(w@));
            }
            i = i + 1;
        }
        assert(all.take(i as int) =~= all);
        assert(readings.take(i as int) =~= readings);
        (config, found)
    }
}

// ---------------------------------------------------------------------------
// Laws
// ---------------------------------------------------------------------------

/// Replacing the entry of a name, or adding one of a new name, keeps the names apart.
proof fn replaced_names_differ(before: Seq<Seq<char>>, after: Seq<Seq<char>>, name: Seq<char>)
    requires
        before.no_duplicates(),
        ({
            let i = crate::names::first_named(before, name) as int;
            if i < before.len() {
                after == before.update(i, name)
            } else {
                after == before.push(name)
            }
        }),
    ensures
        after.no_duplicates(),
        before.is_prefix_of(after),
{
    crate::names::first_named_is_first(before, name);
    let i = crate::names::first_named(before, name) as int;
    if i < before.len() {
        assert(after =~= before);
    } else {
        assert forall|a: int, b: int|
            0 <= a < after.len() && 0 <= b < after.len() && a != b implies after[a] != after[b] by {
            if a < before.len() && b < before.len() {
                assert(before[a] != before[b]);
            }
        }
    }
}

/// Whatever setting is applied to it, a usable configuration stays usable: sets, layouts and palettes
/// are replaced or added, never taken away, and none of them becomes empty or refers to a band that
/// does not exist.
pub proof fn applied_keeps_well_formed(c: ConfigView, e: EntryView, numbers: Seq<Option<Single>>)
    requires
        c.well_formed(),
        band_exists(e),
        numbers.len() == texts_of(e).len(),
    ensures
        applied(c, e, numbers).well_formed(),
        crate::config::set_names(c.freq_sets).is_prefix_of(
            crate::config::set_names(applied(c, e, numbers).freq_sets),
        ),
        crate::config::layout_names(c.layouts).is_prefix_of(
            crate::config::layout_names(applied(c, e, numbers).layouts),
        ),
        crate::palette::palette_names(c.palettes).is_prefix_of(
            crate::palette::palette_names(applied(c, e, numbers).palettes),
        ),
{
    let a = applied(c, e, numbers);
    match e {
        EntryView::FreqSet { name, .. } => {
            if readable(numbers).len() == 3 * NUM_BANDS {
                let before = crate::config::set_names(c.freq_sets);
                let after = crate::config::set_names(a.freq_sets);
                let i = crate::names::first_named(before, name) as int;
                if i < before.len() {
                    assert(after =~= before.update(i, name));
                } else {
                    assert(after =~= before.push(name));
                }
                replaced_names_differ(before, after, name);
            }
        },
        EntryView::Layout { name, columns } => {
            if columns.len() == COLS {
                let before = crate::config::layout_names(c.layouts);
                let after = crate::config::layout_names(a.layouts);
                let i = crate::names::first_named(before, name) as int;
                if i < before.len() {
                    assert(after =~= before.update(i, name));
                } else {
                    assert(after =~= before.push(name));
                }
                replaced_names_differ(before, after, name);
                assert(crate::config::valid_columns(clamped(columns)));
                assert forall|k: int|
                    0 <= k < a.layouts.len() implies #[trigger] crate::config::valid_columns(
                    a.layouts[k].1,
                ) by {
                    if k < c.layouts.len() {
                        assert(crate::config::valid_columns(c.layouts[k].1));
                    }
                }
            }
        },
        EntryView::Palette { name, colors } => {
            if colors.len() > 0 {
                let before = crate::palette::palette_names(c.palettes);
                let after = crate::palette::palette_names(a.palettes);
                let i = crate::names::first_named(before, name) as int;
                if i < before.len() {
                    assert(after =~= before.update(i, name));
                } else {
                    assert(after =~= before.push(name));
                }
                replaced_names_differ(before, after, name);
            }
        },
        _ => {},
    }
}

} // verus!
