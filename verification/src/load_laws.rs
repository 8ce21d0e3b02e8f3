//! Laws of reading a configuration file.
use crate::config::{ConfigView, FrequencySetView, NUM_BANDS};
use crate::entry::{CountKey, Entry, EntryView, NumberKey, TextKey};
use crate::load::{Warning, WarningView};
use crate::palette::PaletteView;
use crate::single::Single;
use vstd::prelude::*;

verus! {

/// Every file gives a usable configuration, and what is built in keeps its place in the lists of
/// sets, layouts and palettes.
pub proof fn configured_keeps_built_ins(
    entries: Seq<EntryView>,
    numbers: Seq<Seq<Option<Single>>>,
)
    requires
        crate::load::readings_fit(entries, numbers),
        forall|i: int| 0 <= i < entries.len() ==> #[trigger] crate::load::band_exists(entries[i]),
    ensures
        crate::load::configured(entries, numbers).well_formed(),
        crate::config::set_names(crate::config::default_config().freq_sets).is_prefix_of(
            crate::config::set_names(crate::load::configured(entries, numbers).freq_sets),
        ),
        crate::config::layout_names(crate::config::default_layouts()).is_prefix_of(
            crate::config::layout_names(crate::load::configured(entries, numbers).layouts),
        ),
        crate::palette::palette_names(crate::palette::default_palettes()).is_prefix_of(
            crate::palette::palette_names(crate::load::configured(entries, numbers).palettes),
        ),
    decreases entries.len(),
{
    if entries.len() == 0 {
        crate::config::default_config_is_well_formed();
    } else {
        let e = entries.drop_last();
        let n = numbers.drop_last();
        assert forall|i: int| 0 <= i < e.len() implies #[trigger] crate::load::band_exists(e[i]) by {
            assert(crate::load::band_exists(entries[i]));
        }
        assert(crate::load::readings_fit(e, n)) by {
            assert forall|i: int| 0 <= i < e.len() implies (#[trigger] n[i]).len() == crate::load::texts_of(
                e[i],
            ).len() by {
                assert(numbers[i].len() == crate::load::texts_of(entries[i]).len());
            }
        }
        configured_keeps_built_ins(e, n);
        assert(crate::load::band_exists(entries[entries.len() - 1]));
        crate::load::applied_keeps_well_formed(crate::load::configured(e, n), entries.last(), numbers.last());
    }
}

/// An empty file gives the built-in configuration.
pub proof fn empty_file_is_default(numbers: Seq<Seq<Option<Single>>>)
    ensures
        crate::load::configured(crate::entry::file_entries(seq![]), numbers) == crate::config::default_config(),
{
    assert(crate::text::lines(seq![]) =~= seq![]);
}

/// A line that opens no section and holds no setting of its section may be left out: a blank line,
/// a comment, a line without an equals sign, an unknown key or a key of an unknown section.
pub proof fn line_without_setting_changes_nothing(
    before: Seq<Seq<char>>,
    line: Seq<char>,
    after: Seq<Seq<char>>,
)
    requires
        !(crate::entry::line_of(line) is Header),
        crate::entry::line_entry(crate::entry::section_after(before), line) is None,
    ensures
        crate::entry::entries(before.push(line) + after) == crate::entry::entries(before + after),
        crate::entry::section_after(before.push(line) + after) == crate::entry::section_after(
            before + after,
        ),
    decreases after.len(),
{
    let with = before.push(line) + after;
    let without = before + after;
    if after.len() == 0 {
        assert(with.drop_last() =~= before);
        assert(with =~= before.push(line));
        assert(without =~= before);
    } else {
        line_without_setting_changes_nothing(before, line, after.drop_last());
        assert(with.drop_last() =~= before.push(line) + after.drop_last());
        assert(without.drop_last() =~= before + after.drop_last());
        assert(with.last() == without.last());
    }
}

/// A blank line and a comment hold no setting in any section.
pub proof fn blank_lines_and_comments_hold_no_setting(section: Seq<char>, line: Seq<char>)
    requires
        ({
            let t = crate::text::trimmed(line, crate::text::Trim::White);
            t.len() == 0 || t[0] == '#'
        }),
    ensures
        !(crate::entry::line_of(line) is Header),
        crate::entry::line_entry(section, line) is None,
{
}

/// The text that a key sets.
pub open spec fn text_field(c: ConfigView, key: TextKey) -> Option<Seq<char>> {
    match key {
        TextKey::Source => c.source,
        TextKey::ColorMode => Some(c.color_mode),
        TextKey::DazzlePalette => Some(c.dazzle_palette),
        TextKey::Layout => Some(c.layout),
        TextKey::FreqSet => Some(c.freq_set),
    }
}

/// The number that a key sets.
pub open spec fn number_field(c: ConfigView, number: NumberKey) -> Single {
    match number {
        NumberKey::BaseHue => c.base_hue,
        NumberKey::Sensitivity => c.sensitivity,
        NumberKey::Smoothing => c.smoothing,
        NumberKey::BassAmplify => c.bass_amplify,
        NumberKey::GlobalMix => c.global_mix,
        NumberKey::LocalMix => c.local_mix,
        NumberKey::GlobalDecay => c.global_decay,
        NumberKey::BandDecay => c.band_decay,
        NumberKey::ResponseCurve => c.response_curve,
    }
}

/// The whole number that a key sets.
pub open spec fn count_field(c: ConfigView, count: CountKey) -> u32 {
    match count {
        CountKey::Fps => c.fps,
        CountKey::DazzleBandFrames => c.dazzle_band_frames,
    }
}

/// Whether a setting gives a text to the key.
pub open spec fn sets_text(e: EntryView, key: TextKey) -> bool {
    e matches EntryView::Text { key: k, .. } && k == key
}

/// Whether a setting gives a number that can be read to the key.
pub open spec fn sets_number(
    e: EntryView,
    numbers: Seq<Option<Single>>,
    number: NumberKey,
) -> bool {
    e matches EntryView::Number { number: k, .. } && k == number && numbers[0] is Some
}

/// Whether a setting gives a whole number that can be read to the key.
pub open spec fn sets_count(e: EntryView, count: CountKey) -> bool {
    e matches EntryView::Count { count: k, amount } && k == count && amount is Some
}

/// Of all the texts given to a key the last one counts.
pub proof fn last_text_counts(
    entries: Seq<EntryView>,
    numbers: Seq<Seq<Option<Single>>>,
    key: TextKey,
    i: int,
)
    requires
        numbers.len() == entries.len(),
        0 <= i < entries.len(),
        sets_text(entries[i], key),
        forall|j: int| i < j < entries.len() ==> !sets_text(#[trigger] entries[j], key),
    ensures
        entries[i] matches EntryView::Text { value, .. } && text_field(
            crate::load::configured(entries, numbers),
            key,
        ) == Some(value),
    decreases entries.len(),
{
    if i < entries.len() - 1 {
        assert(!sets_text(entries[entries.len() - 1], key));
        last_text_counts(entries.drop_last(), numbers.drop_last(), key, i);
    }
}

/// A key to which no text is given keeps its built-in one.
pub proof fn text_not_given_is_built_in(
    entries: Seq<EntryView>,
    numbers: Seq<Seq<Option<Single>>>,
    key: TextKey,
)
    requires
        numbers.len() == entries.len(),
        forall|j: int| 0 <= j < entries.len() ==> !sets_text(#[trigger] entries[j], key),
    ensures
        text_field(crate::load::configured(entries, numbers), key) == text_field(
            crate::config::default_config(),
            key,
        ),
    decreases entries.len(),
{
    if entries.len() > 0 {
        assert(!sets_text(entries[entries.len() - 1], key));
        text_not_given_is_built_in(entries.drop_last(), numbers.drop_last(), key);
    }
}

/// Of all the numbers given to a key the last one that can be read counts.
pub proof fn last_readable_number_counts(
    entries: Seq<EntryView>,
    numbers: Seq<Seq<Option<Single>>>,
    number: NumberKey,
    i: int,
)
    requires
        numbers.len() == entries.len(),
        0 <= i < entries.len(),
        sets_number(entries[i], numbers[i], number),
        forall|j: int|
            i < j < entries.len() ==> !sets_number(#[trigger] entries[j], numbers[j], number),
    ensures
        Some(number_field(crate::load::configured(entries, numbers), number)) == numbers[i][0],
    decreases entries.len(),
{
    if i < entries.len() - 1 {
        assert(!sets_number(entries[entries.len() - 1], numbers[entries.len() - 1], number));
        last_readable_number_counts(entries.drop_last(), numbers.drop_last(), number, i);
    }
}

/// A key to which no number that can be read is given keeps its built-in one.
pub proof fn number_not_given_is_built_in(
    entries: Seq<EntryView>,
    numbers: Seq<Seq<Option<Single>>>,
    number: NumberKey,
)
    requires
        numbers.len() == entries.len(),
        forall|j: int|
            0 <= j < entries.len() ==> !sets_number(#[trigger] entries[j], numbers[j], number),
    ensures
        number_field(crate::load::configured(entries, numbers), number) == number_field(
            crate::config::default_config(),
            number,
        ),
    decreases entries.len(),
{
    if entries.len() > 0 {
        assert(!sets_number(entries[entries.len() - 1], numbers[entries.len() - 1], number));
        number_not_given_is_built_in(entries.drop_last(), numbers.drop_last(), number);
    }
}

/// Of all the whole numbers given to a key the last one that can be read counts.
pub proof fn last_readable_count_counts(
    entries: Seq<EntryView>,
    numbers: Seq<Seq<Option<Single>>>,
    count: CountKey,
    i: int,
)
    requires
        numbers.len() == entries.len(),
        0 <= i < entries.len(),
        sets_count(entries[i], count),
        forall|j: int| i < j < entries.len() ==> !sets_count(#[trigger] entries[j], count),
    ensures
        entries[i] matches EntryView::Count { amount, .. } && Some(
            count_field(crate::load::configured(entries, numbers), count),
        ) == amount,
    decreases entries.len(),
{
    if i < entries.len() - 1 {
        assert(!sets_count(entries[entries.len() - 1], count));
        last_readable_count_counts(entries.drop_last(), numbers.drop_last(), count, i);
    }
}

/// A key to which no whole number that can be read is given keeps its built-in one.
pub proof fn count_not_given_is_built_in(
    entries: Seq<EntryView>,
    numbers: Seq<Seq<Option<Single>>>,
    count: CountKey,
)
    requires
        numbers.len() == entries.len(),
        forall|j: int| 0 <= j < entries.len() ==> !sets_count(#[trigger] entries[j], count),
    ensures
        count_field(crate::load::configured(entries, numbers), count) == count_field(
            crate::config::default_config(),
            count,
        ),
    decreases entries.len(),
{
    if entries.len() > 0 {
        assert(!sets_count(entries[entries.len() - 1], count));
        count_not_given_is_built_in(entries.drop_last(), numbers.drop_last(), count);
    }
}

/// The sensitivity of a band is that of the last setting about it, and the built-in one where that
/// cannot be read.
pub proof fn last_sensitivity_counts(
    entries: Seq<EntryView>,
    numbers: Seq<Seq<Option<Single>>>,
    band: int,
    i: int,
)
    requires
        numbers.len() == entries.len(),
        0 <= band < NUM_BANDS,
        forall|j: int| 0 <= j < entries.len() ==> #[trigger] crate::load::band_exists(entries[j]),
        0 <= i < entries.len(),
        entries[i] matches EntryView::Sensitivity { band: b, .. } && b == band,
        forall|j: int|
            i < j < entries.len() ==> !((#[trigger] entries[j]) matches EntryView::Sensitivity {
                band: b,
                ..
            } && b == band),
    ensures
        crate::load::configured(entries, numbers).band_sensitivity.len() == NUM_BANDS,
        crate::load::configured(entries, numbers).band_sensitivity[band] == crate::load::reading_or(
            numbers[i][0],
            crate::config::default_sensitivities()[band],
        ),
    decreases entries.len(),
{
    assert(crate::load::band_exists(entries[entries.len() - 1]));
    assert forall|j: int| 0 <= j < entries.len() - 1 implies #[trigger] crate::load::band_exists(
        entries.drop_last()[j],
    ) by {
        assert(crate::load::band_exists(entries[j]));
    }
    band_lists_keep_their_lengths(entries.drop_last(), numbers.drop_last());
    if i < entries.len() - 1 {
        assert(!(entries[entries.len() - 1] matches EntryView::Sensitivity { band: b, .. } && b
            == band));
        last_sensitivity_counts(entries.drop_last(), numbers.drop_last(), band, i);
    }
}

/// The smoothing of a band is that of the last setting about it, and the built-in one where that
/// cannot be read.
pub proof fn last_smoothing_counts(
    entries: Seq<EntryView>,
    numbers: Seq<Seq<Option<Single>>>,
    band: int,
    i: int,
)
    requires
        numbers.len() == entries.len(),
        0 <= band < NUM_BANDS,
        forall|j: int| 0 <= j < entries.len() ==> #[trigger] crate::load::band_exists(entries[j]),
        0 <= i < entries.len(),
        entries[i] matches EntryView::Smoothing { band: b, .. } && b == band,
        forall|j: int|
            i < j < entries.len() ==> !((#[trigger] entries[j]) matches EntryView::Smoothing {
                band: b,
                ..
            } && b == band),
    ensures
        crate::load::configured(entries, numbers).band_smoothing.len() == NUM_BANDS,
        crate::load::configured(entries, numbers).band_smoothing[band] == crate::load::reading_or(
            numbers[i][0],
            crate::config::default_smoothings()[band],
        ),
    decreases entries.len(),
{
    assert(crate::load::band_exists(entries[entries.len() - 1]));
    assert forall|j: int| 0 <= j < entries.len() - 1 implies #[trigger] crate::load::band_exists(
        entries.drop_last()[j],
    ) by {
        assert(crate::load::band_exists(entries[j]));
    }
    band_lists_keep_their_lengths(entries.drop_last(), numbers.drop_last());
    if i < entries.len() - 1 {
        assert(!(entries[entries.len() - 1] matches EntryView::Smoothing { band: b, .. } && b
            == band));
        last_smoothing_counts(entries.drop_last(), numbers.drop_last(), band, i);
    }
}

/// There is always one sensitivity and one smoothing for each band.
pub proof fn band_lists_keep_their_lengths(
    entries: Seq<EntryView>,
    numbers: Seq<Seq<Option<Single>>>,
)
    requires
        forall|j: int| 0 <= j < entries.len() ==> #[trigger] crate::load::band_exists(entries[j]),
    ensures
        crate::load::configured(entries, numbers).band_sensitivity.len() == NUM_BANDS,
        crate::load::configured(entries, numbers).band_smoothing.len() == NUM_BANDS,
    decreases entries.len(),
{
    if entries.len() > 0 {
        assert(crate::load::band_exists(entries[entries.len() - 1]));
        assert forall|j: int| 0 <= j < entries.len() - 1 implies #[trigger] crate::load::band_exists(
            entries.drop_last()[j],
        ) by {
            assert(crate::load::band_exists(entries[j]));
        }
        band_lists_keep_their_lengths(entries.drop_last(), numbers.drop_last());
    }
}

/// The place of a name does not change where another name is added behind it.
pub(crate) proof fn place_is_kept(before: Seq<Seq<char>>, name: Seq<char>, other: Seq<char>)
    requires
        crate::names::first_named(before, name) < before.len() || name != other,
    ensures
        crate::names::first_named(before, name) < before.len() ==> crate::names::first_named(
            before.push(other),
            name,
        ) == crate::names::first_named(before, name),
        crate::names::first_named(before, name) >= before.len() ==> crate::names::first_named(
            before.push(other),
            name,
        ) == before.len() + 1,
{
    crate::names::first_named_is_first(before, name);
    let i = crate::names::first_named(before, name) as int;
    let after = before.push(other);
    if i < before.len() {
        crate::names::first_is_first_named(after, name, i);
    } else {
        crate::names::first_is_first_named(after, name, after.len() as int);
    }
}

/// A new name is found where it was added.
pub(crate) proof fn new_name_is_last(before: Seq<Seq<char>>, name: Seq<char>)
    requires
        crate::names::first_named(before, name) >= before.len(),
    ensures
        crate::names::first_named(before.push(name), name) == before.len(),
{
    crate::names::first_named_is_first(before, name);
    crate::names::first_is_first_named(before.push(name), name, before.len() as int);
}

/// The colors of the palette of a name.
pub open spec fn colors_named(palettes: Seq<PaletteView>, name: Seq<char>) -> Option<
    Seq<(u8, u8, u8)>,
> {
    let i = crate::names::first_named(crate::palette::palette_names(palettes), name) as int;
    if i < palettes.len() {
        Some(palettes[i].colors)
    } else {
        None
    }
}

/// The columns of the layout of a name.
pub open spec fn columns_named(
    layouts: Seq<(Seq<char>, Seq<usize>)>,
    name: Seq<char>,
) -> Option<Seq<usize>> {
    let i = crate::names::first_named(crate::config::layout_names(layouts), name) as int;
    if i < layouts.len() {
        Some(layouts[i].1)
    } else {
        None
    }
}

/// The bands of the frequency set of a name.
pub open spec fn bands_named(sets: Seq<FrequencySetView>, name: Seq<char>) -> Option<
    Seq<(Single, Single, Single)>,
> {
    let i = crate::names::first_named(crate::config::set_names(sets), name) as int;
    if i < sets.len() {
        Some(sets[i].bands)
    } else {
        None
    }
}

/// A palette reads back as it was set, and the palettes of other names as they were.
pub proof fn palette_reads_back(
    palettes: Seq<PaletteView>,
    name: Seq<char>,
    colors: Seq<(u8, u8, u8)>,
    asked: Seq<char>,
)
    ensures
        colors_named(crate::load::with_palette(palettes, name, colors), asked) == (if asked == name {
            Some(colors)
        } else {
            colors_named(palettes, asked)
        }),
{
    let before = crate::palette::palette_names(palettes);
    let after = crate::palette::palette_names(crate::load::with_palette(palettes, name, colors));
    let i = crate::names::first_named(before, name) as int;
    crate::names::first_named_is_first(before, name);
    crate::names::first_named_is_first(before, asked);
    if i < palettes.len() {
        assert(after =~= before);
    } else {
        assert(after =~= before.push(name));
        if asked == name {
            new_name_is_last(before, name);
        } else {
            place_is_kept(before, asked, name);
        }
    }
}

/// A layout reads back as it was set, and the layouts of other names as they were.
pub proof fn layout_reads_back(
    layouts: Seq<(Seq<char>, Seq<usize>)>,
    name: Seq<char>,
    columns: Seq<usize>,
    asked: Seq<char>,
)
    ensures
        columns_named(crate::load::with_layout(layouts, name, columns), asked) == (if asked == name {
            Some(columns)
        } else {
            columns_named(layouts, asked)
        }),
{
    let before = crate::config::layout_names(layouts);
    let after = crate::config::layout_names(crate::load::with_layout(layouts, name, columns));
    let i = crate::names::first_named(before, name) as int;
    crate::names::first_named_is_first(before, name);
    crate::names::first_named_is_first(before, asked);
    if i < layouts.len() {
        assert(after =~= before);
    } else {
        assert(after =~= before.push(name));
        if asked == name {
            new_name_is_last(before, name);
        } else {
            place_is_kept(before, asked, name);
        }
    }
}

/// A frequency set reads back as it was set, and the sets of other names as they were.
pub proof fn freq_set_reads_back(
    sets: Seq<FrequencySetView>,
    name: Seq<char>,
    bands: Seq<(Single, Single, Single)>,
    asked: Seq<char>,
)
    ensures
        bands_named(crate::load::with_set(sets, name, bands), asked) == (if asked == name {
            Some(bands)
        } else {
            bands_named(sets, asked)
        }),
{
    let before = crate::config::set_names(sets);
    let after = crate::config::set_names(crate::load::with_set(sets, name, bands));
    let i = crate::names::first_named(before, name) as int;
    crate::names::first_named_is_first(before, name);
    crate::names::first_named_is_first(before, asked);
    if i < sets.len() {
        assert(after =~= before);
    } else {
        assert(after =~= before.push(name));
        if asked == name {
            new_name_is_last(before, name);
        } else {
            place_is_kept(before, asked, name);
        }
    }
}

// ---------------------------------------------------------------------------
// What a setting changes, and what it leaves
// ---------------------------------------------------------------------------

/// A text goes to the field that its key names, and nothing else changes.
pub proof fn texts_go_to_their_fields(c: ConfigView, value: Seq<char>)
    ensures
        crate::load::applied(c, EntryView::Text { key: TextKey::Source, value }, seq![]) == (ConfigView {
            source: Some(value),
            ..c
        }),
        crate::load::applied(c, EntryView::Text { key: TextKey::ColorMode, value }, seq![]) == (ConfigView {
            color_mode: value,
            ..c
        }),
        crate::load::applied(c, EntryView::Text { key: TextKey::DazzlePalette, value }, seq![]) == (ConfigView {
            dazzle_palette: value,
            ..c
        }),
        crate::load::applied(c, EntryView::Text { key: TextKey::Layout, value }, seq![]) == (ConfigView {
            layout: value,
            ..c
        }),
        crate::load::applied(c, EntryView::Text { key: TextKey::FreqSet, value }, seq![]) == (ConfigView {
            freq_set: value,
            ..c
        }),
{
}

/// A number that can be read goes to the field that its key names, and nothing else changes; one that
/// cannot be read changes nothing.
pub proof fn numbers_go_to_their_fields(c: ConfigView, number: NumberKey, text: Seq<char>, v: Single)
    ensures
        crate::load::applied(c, EntryView::Number { number, text }, seq![None]) == c,
        crate::load::applied(c, EntryView::Number { number, text }, seq![Some(v)]) == (match number {
            NumberKey::BaseHue => ConfigView { base_hue: v, ..c },
            NumberKey::Sensitivity => ConfigView { sensitivity: v, ..c },
            NumberKey::Smoothing => ConfigView { smoothing: v, ..c },
            NumberKey::BassAmplify => ConfigView { bass_amplify: v, ..c },
            NumberKey::GlobalMix => ConfigView { global_mix: v, ..c },
            NumberKey::LocalMix => ConfigView { local_mix: v, ..c },
            NumberKey::GlobalDecay => ConfigView { global_decay: v, ..c },
            NumberKey::BandDecay => ConfigView { band_decay: v, ..c },
            NumberKey::ResponseCurve => ConfigView { response_curve: v, ..c },
        }),
{
}

/// A whole number that can be read goes to the field that its key names, and nothing else changes; one
/// that cannot be read changes nothing.
pub proof fn counts_go_to_their_fields(c: ConfigView, count: CountKey, v: u32)
    ensures
        crate::load::applied(c, EntryView::Count { count, amount: None }, seq![]) == c,
        crate::load::applied(c, EntryView::Count { count, amount: Some(v) }, seq![]) == (match count {
            CountKey::Fps => ConfigView { fps: v, ..c },
            CountKey::DazzleBandFrames => ConfigView { dazzle_band_frames: v, ..c },
        }),
{
}

/// A number that can be read goes to the band that it is about, and one that cannot be read gives the
/// band its built-in number back. Nothing else changes.
pub proof fn band_numbers_go_to_their_bands(
    c: ConfigView,
    band: int,
    text: Seq<char>,
    v: Single,
)
    requires
        0 <= band < 8,
        c.band_sensitivity.len() == 8,
        c.band_smoothing.len() == 8,
    ensures
        crate::load::applied(c, EntryView::Sensitivity { band, text }, seq![Some(v)])
            == (ConfigView { band_sensitivity: c.band_sensitivity.update(band, v), ..c }),
        crate::load::applied(c, EntryView::Smoothing { band, text }, seq![Some(v)])
            == (ConfigView { band_smoothing: c.band_smoothing.update(band, v), ..c }),
        crate::load::applied(c, EntryView::Sensitivity { band, text }, seq![None]) == (ConfigView {
            band_sensitivity: c.band_sensitivity.update(
                band,
                crate::config::default_config().band_sensitivity[band],
            ),
            ..c
        }),
        crate::load::applied(c, EntryView::Smoothing { band, text }, seq![None]) == (ConfigView {
            band_smoothing: c.band_smoothing.update(
                band,
                crate::config::default_config().band_smoothing[band],
            ),
            ..c
        }),
{
}

/// A palette with a color can be asked for by its name, and so can every other palette as before. One
/// without a color changes nothing. Nothing but the palettes ever changes.
pub proof fn palettes_go_to_the_palettes(
    c: ConfigView,
    name: Seq<char>,
    colors: Seq<(u8, u8, u8)>,
    asked: Seq<char>,
)
    ensures
        ({
            let after = crate::load::applied(c, EntryView::Palette { name, colors }, seq![]);
            &&& after == (ConfigView { palettes: after.palettes, ..c })
            &&& colors.len() == 0 ==> after == c
            &&& colors.len() > 0 ==> colors_named(after.palettes, asked) == (if asked == name {
                Some(colors)
            } else {
                colors_named(c.palettes, asked)
            })
        }),
{
    palette_reads_back(c.palettes, name, colors, asked);
}

/// A layout with sixteen numbers can be asked for by its name, and so can every other layout as
/// before. A number above seven stands for seven. A layout with fewer or more numbers changes nothing.
/// Nothing but the layouts ever changes.
pub proof fn layouts_go_to_the_layouts(
    c: ConfigView,
    name: Seq<char>,
    columns: Seq<u64>,
    asked: Seq<char>,
)
    ensures
        ({
            let after = crate::load::applied(c, EntryView::Layout { name, columns }, seq![]);
            &&& after == (ConfigView { layouts: after.layouts, ..c })
            &&& columns.len() != 16 ==> after == c
            &&& columns.len() == 16 && asked != name ==> columns_named(after.layouts, asked)
                == columns_named(c.layouts, asked)
            &&& columns.len() == 16 ==> (columns_named(after.layouts, name) matches Some(bands)
                && bands.len() == 16 && (forall|i: int|
                0 <= i < 16 ==> #[trigger] bands[i] == (if columns[i] <= 7 {
                    columns[i] as int
                } else {
                    7
                })))
        }),
{
    layout_reads_back(c.layouts, name, crate::load::clamped(columns), asked);
    layout_reads_back(c.layouts, name, crate::load::clamped(columns), name);
}

/// The low limits, high limits and weights of bands, one after the other.
pub open spec fn flat(bands: Seq<(Single, Single, Single)>) -> Seq<Single> {
    Seq::new(
        3 * bands.len(),
        |j: int|
            if j % 3 == 0 {
                bands[j / 3].0
            } else if j % 3 == 1 {
                bands[j / 3].1
            } else {
                bands[j / 3].2
            },
    )
}

/// The readings of numbers that can all be read.
pub open spec fn all_read(numbers: Seq<Single>) -> Seq<Option<Single>> {
    Seq::new(numbers.len(), |i: int| Some(numbers[i]))
}

/// Readings one after the other: those that are no numbers are passed over.
pub proof fn unreadable_numbers_are_passed_over(
    before: Seq<Option<Single>>,
    v: Single,
    after: Seq<Option<Single>>,
)
    ensures
        crate::load::readable(seq![]) == Seq::<Single>::empty(),
        crate::load::readable(seq![Some(v)]) == seq![v],
        crate::load::readable(seq![None]) == Seq::<Single>::empty(),
        crate::load::readable(before + after) == crate::load::readable(before)
            + crate::load::readable(after),
    decreases after.len(),
{
    assert(seq![Some(v)].drop_last() =~= seq![]);
    assert(seq![None::<Single>].drop_last() =~= seq![]);
    reveal_with_fuel(crate::load::readable, 2);
    assert(crate::load::readable(seq![Some(v)]) =~= seq![v]);
    if after.len() == 0 {
        assert(before + after =~= before);
        assert(crate::load::readable(before + after) =~= crate::load::readable(before)
            + crate::load::readable(after));
    } else {
        unreadable_numbers_are_passed_over(before, v, after.drop_last());
        assert((before + after).drop_last() =~= before + after.drop_last());
        assert(crate::load::readable(before + after) =~= crate::load::readable(before)
            + crate::load::readable(after));
    }
}

proof fn readable_numbers_are_all_kept(numbers: Seq<Single>)
    ensures
        crate::load::readable(all_read(numbers)) == numbers,
    decreases numbers.len(),
{
    if numbers.len() > 0 {
        readable_numbers_are_all_kept(numbers.drop_last());
        assert(all_read(numbers).drop_last() =~= all_read(numbers.drop_last()));
        assert(crate::load::readable(all_read(numbers)) =~= numbers);
    } else {
        assert(crate::load::readable(all_read(numbers)) =~= numbers);
    }
}

/// A frequency set with a low limit, a high limit and a weight for each of the eight bands can be asked
/// for by its name, and so can every other set as before. Nothing but the sets changes.
pub proof fn freq_sets_go_to_the_sets(
    c: ConfigView,
    name: Seq<char>,
    texts: Seq<Seq<char>>,
    bands: Seq<(Single, Single, Single)>,
    asked: Seq<char>,
)
    requires
        bands.len() == 8,
    ensures
        ({
            let after = crate::load::applied(
                c,
                EntryView::FreqSet { name, texts },
                all_read(flat(bands)),
            );
            &&& after == (ConfigView { freq_sets: after.freq_sets, ..c })
            &&& bands_named(after.freq_sets, asked) == (if asked == name {
                Some(bands)
            } else {
                bands_named(c.freq_sets, asked)
            })
        }),
{
    readable_numbers_are_all_kept(flat(bands));
    assert(crate::load::by_threes(flat(bands)) =~= bands);
    freq_set_reads_back(c.freq_sets, name, bands, asked);
}

/// A frequency set with another number of readable numbers than 24 changes nothing.
pub proof fn other_freq_sets_change_nothing(
    c: ConfigView,
    name: Seq<char>,
    texts: Seq<Seq<char>>,
    numbers: Seq<Option<Single>>,
)
    requires
        crate::load::readable(numbers).len() != 24,
    ensures
        crate::load::applied(c, EntryView::FreqSet { name, texts }, numbers) == c,
{
}

/// The settings of a file are applied to the built-in configuration one after the other, each to what
/// those in front of it have made.
pub proof fn settings_are_applied_in_turn(
    entries: Seq<EntryView>,
    numbers: Seq<Seq<Option<Single>>>,
    e: EntryView,
    n: Seq<Option<Single>>,
)
    requires
        entries.len() == numbers.len(),
    ensures
        crate::load::configured(seq![], seq![]) == crate::config::default_config(),
        crate::load::configured(entries.push(e), numbers.push(n)) == crate::load::applied(
            crate::load::configured(entries, numbers),
            e,
            n,
        ),
{
    assert(entries.push(e).drop_last() =~= entries);
    assert(numbers.push(n).drop_last() =~= numbers);
}

/// The texts of a setting that spell single-precision numbers: the value of a number, and all of a
/// frequency set. One reading for each of them is what reading a file asks for.
pub proof fn numbers_are_asked_for(
    number: NumberKey,
    band: int,
    name: Seq<char>,
    text: Seq<char>,
    texts: Seq<Seq<char>>,
    e: EntryView,
    readings: Seq<Option<Single>>,
)
    ensures
        crate::load::texts_of(EntryView::Number { number, text }) == seq![text],
        crate::load::texts_of(EntryView::Sensitivity { band, text }) == seq![text],
        crate::load::texts_of(EntryView::Smoothing { band, text }) == seq![text],
        crate::load::texts_of(EntryView::FreqSet { name, texts }) == texts,
        e is Text || e is Count || e is Layout || e is Palette ==> crate::load::texts_of(e).len()
            == 0,
        readings.len() == crate::load::texts_of(e).len() ==> crate::load::readings_fit(
            seq![e],
            seq![readings],
        ),
{
}

// ---------------------------------------------------------------------------
// Lists: the last setting of a name counts
// ---------------------------------------------------------------------------

/// Whether a setting gives a palette of the name a color.
pub open spec fn sets_palette(e: EntryView, name: Seq<char>) -> bool {
    e matches EntryView::Palette { name: k, colors } && k == name && colors.len() > 0
}

/// Whether a setting gives a layout of the name a number for each of the sixteen columns.
pub open spec fn sets_layout(e: EntryView, name: Seq<char>) -> bool {
    e matches EntryView::Layout { name: k, columns } && k == name && columns.len() == 16
}

/// Whether a setting gives a frequency set of the name three numbers for each of the eight bands.
pub open spec fn sets_bands(e: EntryView, numbers: Seq<Option<Single>>, name: Seq<char>) -> bool {
    e matches EntryView::FreqSet { name: k, .. } && k == name && crate::load::readable(
        numbers,
    ).len() == 24
}

/// A palette is that of the last setting of its name with a color, and else the built-in one.
pub proof fn last_palette_counts(
    entries: Seq<EntryView>,
    numbers: Seq<Seq<Option<Single>>>,
    name: Seq<char>,
    i: int,
)
    requires
        numbers.len() == entries.len(),
        -1 <= i < entries.len(),
        i >= 0 ==> sets_palette(entries[i], name),
        forall|j: int| i < j < entries.len() ==> !sets_palette(#[trigger] entries[j], name),
    ensures
        ({
            let asked = colors_named(crate::load::configured(entries, numbers).palettes, name);
            if i >= 0 {
                entries[i] matches EntryView::Palette { colors, .. } && asked == Some(colors)
            } else {
                asked == colors_named(crate::config::default_config().palettes, name)
            }
        }),
    decreases entries.len(),
{
    if entries.len() > 0 {
        let e = entries[entries.len() - 1];
        let c = crate::load::configured(entries.drop_last(), numbers.drop_last());
        if e is Palette {
            palette_reads_back(c.palettes, e->Palette_name, e->Palette_colors, name);
        }
        if i < entries.len() - 1 {
            assert(!sets_palette(entries[entries.len() - 1], name));
            last_palette_counts(entries.drop_last(), numbers.drop_last(), name, i);
        }
    }
}

/// A layout is that of the last setting of its name with sixteen numbers, and else the built-in one.
pub proof fn last_layout_counts(
    entries: Seq<EntryView>,
    numbers: Seq<Seq<Option<Single>>>,
    name: Seq<char>,
    i: int,
)
    requires
        numbers.len() == entries.len(),
        -1 <= i < entries.len(),
        i >= 0 ==> sets_layout(entries[i], name),
        forall|j: int| i < j < entries.len() ==> !sets_layout(#[trigger] entries[j], name),
    ensures
        ({
            let asked = columns_named(crate::load::configured(entries, numbers).layouts, name);
            if i >= 0 {
                entries[i] matches EntryView::Layout { columns, .. } && (asked matches Some(bands)
                    && bands.len() == 16 && (forall|k: int|
                    0 <= k < 16 ==> #[trigger] bands[k] == (if columns[k] <= 7 {
                        columns[k] as int
                    } else {
                        7
                    })))
            } else {
                asked == columns_named(crate::config::default_config().layouts, name)
            }
        }),
    decreases entries.len(),
{
    if entries.len() > 0 {
        let e = entries[entries.len() - 1];
        let c = crate::load::configured(entries.drop_last(), numbers.drop_last());
        if e is Layout {
            layout_reads_back(
                c.layouts,
                e->Layout_name,
                crate::load::clamped(e->Layout_columns),
                name,
            );
        }
        if i < entries.len() - 1 {
            assert(!sets_layout(entries[entries.len() - 1], name));
            last_layout_counts(entries.drop_last(), numbers.drop_last(), name, i);
        }
    }
}

/// By threes the numbers keep their order.
proof fn bands_hold_all_numbers(numbers: Seq<Single>)
    requires
        numbers.len() == 24,
    ensures
        flat(crate::load::by_threes(numbers)) == numbers,
{
    let f = flat(crate::load::by_threes(numbers));
    assert forall|j: int| 0 <= j < 24 implies f[j] == numbers[j] by {
        assert(j == 3 * (j / 3) + j % 3);
    }
    assert(f =~= numbers);
}

/// A frequency set is that of the last setting of its name with 24 readable numbers, and else the
/// built-in one.
pub proof fn last_freq_set_counts(
    entries: Seq<EntryView>,
    numbers: Seq<Seq<Option<Single>>>,
    name: Seq<char>,
    i: int,
)
    requires
        numbers.len() == entries.len(),
        -1 <= i < entries.len(),
        i >= 0 ==> sets_bands(entries[i], numbers[i], name),
        forall|j: int|
            i < j < entries.len() ==> !sets_bands(#[trigger] entries[j], numbers[j], name),
    ensures
        ({
            let asked = bands_named(crate::load::configured(entries, numbers).freq_sets, name);
            if i >= 0 {
                asked matches Some(bands) && bands.len() == 8 && flat(bands)
                    == crate::load::readable(numbers[i])
            } else {
                asked == bands_named(crate::config::default_config().freq_sets, name)
            }
        }),
    decreases entries.len(),
{
    if entries.len() > 0 {
        let e = entries[entries.len() - 1];
        let n = numbers[entries.len() - 1];
        let c = crate::load::configured(entries.drop_last(), numbers.drop_last());
        if e is FreqSet {
            let bands = crate::load::by_threes(crate::load::readable(n));
            freq_set_reads_back(c.freq_sets, e->FreqSet_name, bands, name);
            if crate::load::readable(n).len() == 24 {
                bands_hold_all_numbers(crate::load::readable(n));
            }
        }
        if i < entries.len() - 1 {
            assert(!sets_bands(entries[entries.len() - 1], n, name));
            last_freq_set_counts(entries.drop_last(), numbers.drop_last(), name, i);
        }
    }
}

/// A band about which nothing is set keeps its built-in sensitivity and smoothing.
pub proof fn band_not_given_is_built_in(
    entries: Seq<EntryView>,
    numbers: Seq<Seq<Option<Single>>>,
    band: int,
)
    requires
        numbers.len() == entries.len(),
        0 <= band < 8,
        forall|j: int| 0 <= j < entries.len() ==> #[trigger] crate::load::band_exists(entries[j]),
    ensures
        (forall|j: int|
            0 <= j < entries.len() ==> !((#[trigger] entries[j]) matches EntryView::Sensitivity {
                band: b,
                ..
            } && b == band)) ==> crate::load::configured(entries, numbers).band_sensitivity[band]
            == crate::config::default_config().band_sensitivity[band],
        (forall|j: int|
            0 <= j < entries.len() ==> !((#[trigger] entries[j]) matches EntryView::Smoothing {
                band: b,
                ..
            } && b == band)) ==> crate::load::configured(entries, numbers).band_smoothing[band]
            == crate::config::default_config().band_smoothing[band],
    decreases entries.len(),
{
    if entries.len() > 0 {
        let before = entries.drop_last();
        assert(crate::load::band_exists(entries[entries.len() - 1]));
        assert forall|j: int| 0 <= j < before.len() implies #[trigger] crate::load::band_exists(
            before[j],
        ) by {
            assert(crate::load::band_exists(entries[j]));
        }
        band_lists_keep_their_lengths(before, numbers.drop_last());
        band_not_given_is_built_in(before, numbers.drop_last(), band);
        let last = entries[entries.len() - 1];
        assert(last == entries.last());
        if forall|j: int|
            0 <= j < entries.len() ==> !((#[trigger] entries[j]) matches EntryView::Sensitivity {
                band: b,
                ..
            } && b == band) {
            assert forall|j: int| 0 <= j < before.len() implies !((
            #[trigger] before[j]) matches EntryView::Sensitivity { band: b, .. } && b == band) by {
                assert(before[j] == entries[j]);
            }
        }
        if forall|j: int|
            0 <= j < entries.len() ==> !((#[trigger] entries[j]) matches EntryView::Smoothing {
                band: b,
                ..
            } && b == band) {
            assert forall|j: int| 0 <= j < before.len() implies !((
            #[trigger] before[j]) matches EntryView::Smoothing { band: b, .. } && b == band) by {
                assert(before[j] == entries[j]);
            }
        }
    }
}

/// A reading counts, and what stands in for it only where there is none.
pub proof fn readings_count(v: Single, fallback: Single)
    ensures
        crate::load::reading_or(Some(v), fallback) == v,
        crate::load::reading_or(None, fallback) == fallback,
{
}

// ---------------------------------------------------------------------------
// Warnings
// ---------------------------------------------------------------------------

/// A warning tells of exactly the sets, layouts and palettes that are left out, with their names and
/// with the number of values that were found.
pub proof fn warnings_tell_of_what_is_left_out(
    name: Seq<char>,
    texts: Seq<Seq<char>>,
    columns: Seq<u64>,
    colors: Seq<(u8, u8, u8)>,
    numbers: Seq<Option<Single>>,
    e: EntryView,
)
    ensures
        crate::load::warning_of(EntryView::FreqSet { name, texts }, numbers) == (
        if crate::load::readable(numbers).len() != 24 {
            Some(WarningView::FreqSetValues { name, got: crate::load::readable(numbers).len() })
        } else {
            None
        }),
        crate::load::warning_of(EntryView::Layout { name, columns }, numbers) == (if columns.len()
            != 16 {
            Some(WarningView::LayoutEntries { name, got: columns.len() })
        } else {
            None
        }),
        crate::load::warning_of(EntryView::Palette { name, colors }, numbers) == (if colors.len()
            == 0 {
            Some(WarningView::NoColors { name })
        } else {
            None
        }),
        !(e is FreqSet || e is Layout || e is Palette) ==> crate::load::warning_of(e, numbers) is None,
{
}

/// Warnings come in the order of the settings: those of a file in two parts are those of the first part
/// and then those of the second.
pub proof fn warnings_come_in_order(
    before: Seq<EntryView>,
    numbers_before: Seq<Seq<Option<Single>>>,
    after: Seq<EntryView>,
    numbers_after: Seq<Seq<Option<Single>>>,
)
    requires
        before.len() == numbers_before.len(),
        after.len() == numbers_after.len(),
    ensures
        crate::load::warnings(before + after, numbers_before + numbers_after)
            == crate::load::warnings(before, numbers_before) + crate::load::warnings(
            after,
            numbers_after,
        ),
        after.len() == 1 ==> crate::load::warnings(after, numbers_after) == (
        match crate::load::warning_of(after[0], numbers_after[0]) {
            Some(w) => seq![w],
            None => seq![],
        }),
    decreases after.len(),
{
    let all = before + after;
    let numbers = numbers_before + numbers_after;
    if after.len() == 0 {
        assert(all =~= before);
        assert(numbers =~= numbers_before);
        assert(crate::load::warnings(all, numbers) =~= crate::load::warnings(
            before,
            numbers_before,
        ) + crate::load::warnings(after, numbers_after));
    } else {
        warnings_come_in_order(
            before,
            numbers_before,
            after.drop_last(),
            numbers_after.drop_last(),
        );
        assert(all.drop_last() =~= before + after.drop_last());
        assert(numbers.drop_last() =~= numbers_before + numbers_after.drop_last());
        assert(crate::load::warnings(all, numbers) =~= crate::load::warnings(
            before,
            numbers_before,
        ) + crate::load::warnings(after, numbers_after));
        if after.len() == 1 {
            assert(after.drop_last() =~= seq![]);
            assert(crate::load::warnings(after.drop_last(), numbers_after.drop_last()) =~= seq![]);
            assert(crate::load::warnings(after, numbers_after) =~= (
            match crate::load::warning_of(after[0], numbers_after[0]) {
                Some(w) => seq![w],
                None => seq![],
            }));
        }
    }
}

/// Warnings and lists are viewed as they are, one for one.
pub proof fn lists_are_viewed_as_they_are(
    name: String,
    got: usize,
    warnings: Seq<Warning>,
    entries: Seq<Entry>,
    strings: Seq<String>,
    readings: Seq<Vec<Option<Single>>>,
    texts: Seq<Vec<String>>,
    i: int,
)
    ensures
        (Warning::FreqSetValues { name, got })@ == (WarningView::FreqSetValues {
            name: name@,
            got: got as nat,
        }),
        (Warning::LayoutEntries { name, got })@ == (WarningView::LayoutEntries {
            name: name@,
            got: got as nat,
        }),
        (Warning::NoColors { name })@ == (WarningView::NoColors { name: name@ }),
        crate::load::warning_views(warnings).len() == warnings.len(),
        0 <= i < warnings.len() ==> crate::load::warning_views(warnings)[i] == warnings[i]@,
        crate::entry::entry_views(entries).len() == entries.len(),
        0 <= i < entries.len() ==> crate::entry::entry_views(entries)[i] == entries[i]@,
        crate::entry::string_views(strings).len() == strings.len(),
        0 <= i < strings.len() ==> crate::entry::string_views(strings)[i] == strings[i]@,
        crate::load::reading_views(readings).len() == readings.len(),
        0 <= i < readings.len() ==> crate::load::reading_views(readings)[i] == readings[i]@,
        crate::load::nested_views(texts).len() == texts.len(),
        0 <= i < texts.len() ==> crate::load::nested_views(texts)[i].len() == texts[i]@.len(),
{
}

/// Settings are viewed as they are.
pub proof fn settings_are_viewed_as_they_are(
    key: TextKey,
    number: NumberKey,
    count: CountKey,
    amount: Option<u32>,
    band: usize,
    text: String,
    texts: Vec<String>,
    columns: Vec<u64>,
    colors: Vec<(u8, u8, u8)>,
)
    ensures
        (Entry::Text { key, value: text })@ == (EntryView::Text { key, value: text@ }),
        (Entry::Number { number, text })@ == (EntryView::Number { number, text: text@ }),
        (Entry::Count { count, amount })@ == (EntryView::Count { count, amount }),
        (Entry::Sensitivity { band, text })@ == (EntryView::Sensitivity {
            band: band as int,
            text: text@,
        }),
        (Entry::Smoothing { band, text })@ == (EntryView::Smoothing {
            band: band as int,
            text: text@,
        }),
        (Entry::FreqSet { name: text, texts })@ == (EntryView::FreqSet {
            name: text@,
            texts: crate::entry::string_views(texts@),
        }),
        (Entry::Layout { name: text, columns })@ == (EntryView::Layout {
            name: text@,
            columns: columns@,
        }),
        (Entry::Palette { name: text, colors })@ == (EntryView::Palette {
            name: text@,
            colors: colors@,
        }),
{
}

/// The texts to read are those of the settings, one list for each of them.
pub proof fn texts_are_those_of_the_settings(entries: Seq<EntryView>, i: int)
    ensures
        crate::load::all_texts(entries).len() == entries.len(),
        0 <= i < entries.len() ==> crate::load::all_texts(entries)[i] == crate::load::texts_of(
            entries[i],
        ),
{
}

} // verus!
