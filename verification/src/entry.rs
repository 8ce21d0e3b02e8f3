//! The grammar of the configuration file.
//!
//! A file is read line by line. A blank line or one that starts with `#` says nothing, a line in
//! square brackets opens a section, and a line with an equals sign is a setting of the section it
//! stands in.
use crate::text::{
    chars_of, find_char, parse_unsigned, pieces, spells, split_chars, split_lines, string_of, trim_chars,
    Trim,
};
use vstd::prelude::*;
use vstd::slice::slice_subrange;

verus! {

// ---------------------------------------------------------------------------
// Lines
// ---------------------------------------------------------------------------

/// What a line of the file is.
pub enum LineView {
    /// Nothing to read: blank, a comment, or no setting.
    Nothing,
    /// The header that opens the section of that name.
    Header(Seq<char>),
    /// A setting: its key and its value.
    Setting(Seq<char>, Seq<char>),
}

/// The value behind an equals sign: what stands in front of a comment, without the white space
/// around it and then without quotes.
pub open spec fn value_of(s: Seq<char>) -> Seq<char> {
    let raw = crate::text::trimmed(s.take(crate::text::until(s, '#') as int), Trim::White);
    crate::text::trimmed(raw, Trim::Either('"', '"'))
}

/// How a line is read.
pub open spec fn line_of(s: Seq<char>) -> LineView {
    let t = crate::text::trimmed(s, Trim::White);
    let eq = crate::text::until(t, '=') as int;
    if t.len() == 0 || t[0] == '#' {
        LineView::Nothing
    } else if t[0] == '[' {
        LineView::Header(crate::text::trimmed(t, Trim::Either('[', ']')))
    } else if eq >= t.len() {
        LineView::Nothing
    } else {
        LineView::Setting(crate::text::trimmed(t.take(eq), Trim::White), value_of(t.skip(eq + 1)))
    }
}

/// A line, read.
pub enum Line<'a> {
    /// Nothing to read.
    Nothing,
    /// The header that opens the section of that name.
    Header(&'a [char]),
    /// A setting: its key and its value.
    Setting(&'a [char], &'a [char]),
}

impl<'a> View for Line<'a> {
    type V = LineView;

    open spec fn view(&self) -> LineView {
        match *self {
            Line::Nothing => LineView::Nothing,
            Line::Header(name) => LineView::Header(name@),
            Line::Setting(key, value) => LineView::Setting(key@, value@),
        }
    }
}

fn read_value<'a>(s: &'a [char]) -> (r: &'a [char])
    ensures
        r@ == value_of(s@),
{
    let end: usize = find_char(s, '#');
    let raw: &'a [char] = slice_subrange(s, 0, end);
    assert(raw@ =~= s@.take(end as int));
    trim_chars(trim_chars(raw, Trim::White), Trim::Either('"', '"'))
}

/// Reads a line.
pub fn read_line<'a>(s: &'a [char]) -> (r: Line<'a>)
    ensures
        r@ == line_of(s@),
{
    let t: &'a [char] = trim_chars(s, Trim::White);
    if t.len() == 0 || t[0] == '#' {
        return Line::Nothing;
    }
    if t[0] == '[' {
        return Line::Header(trim_chars(t, Trim::Either('[', ']')));
    }
    let eq: usize = find_char(t, '=');
    if eq == t.len() {
        return Line::Nothing;
    }
    let key: &'a [char] = slice_subrange(t, 0, eq);
    let rest: &'a [char] = slice_subrange(t, eq + 1, t.len());
    assert(key@ =~= t@.take(eq as int));
    assert(rest@ =~= t@.skip(eq + 1));
    Line::Setting(trim_chars(key, Trim::White), read_value(rest))
}

// ---------------------------------------------------------------------------
// Settings
// ---------------------------------------------------------------------------

/// A setting whose value is a text.
#[derive(Clone, Copy, Debug, PartialEq, Eq, Structural)]
pub enum TextKey {
    Source,
    ColorMode,
    DazzlePalette,
    Layout,
    FreqSet,
}

/// A setting whose value is a single-precision number.
#[derive(Clone, Copy, Debug, PartialEq, Eq, Structural)]
pub enum NumberKey {
    BaseHue,
    Sensitivity,
    Smoothing,
    BassAmplify,
    GlobalMix,
    LocalMix,
    GlobalDecay,
    BandDecay,
    ResponseCurve,
}

/// A setting whose value is a whole number.
#[derive(Clone, Copy, Debug, PartialEq, Eq, Structural)]
pub enum CountKey {
    Fps,
    DazzleBandFrames,
}

/// One setting of the file. Single-precision numbers are still the texts that spell them.
#[derive(Debug)]
pub enum Entry {
    /// A text.
    Text { key: TextKey, value: String },
    /// A number.
    Number { number: NumberKey, text: String },
    /// A whole number; `None` where the value spells none.
    Count { count: CountKey, amount: Option<u32> },
    /// The sensitivity of a band.
    Sensitivity { band: usize, text: String },
    /// The smoothing of a band.
    Smoothing { band: usize, text: String },
    /// A frequency set: what stands between the commas of its value.
    FreqSet { name: String, texts: Vec<String> },
    /// A layout: the whole numbers among what stands between the commas of its value.
    Layout { name: String, columns: Vec<u64> },
    /// A palette: the triples of its value that are colors.
    Palette { name: String, colors: Vec<(u8, u8, u8)> },
}

/// What a setting holds.
pub enum EntryView {
    Text { key: TextKey, value: Seq<char> },
    Number { number: NumberKey, text: Seq<char> },
    Count { count: CountKey, amount: Option<u32> },
    Sensitivity { band: int, text: Seq<char> },
    Smoothing { band: int, text: Seq<char> },
    FreqSet { name: Seq<char>, texts: Seq<Seq<char>> },
    Layout { name: Seq<char>, columns: Seq<u64> },
    Palette { name: Seq<char>, colors: Seq<(u8, u8, u8)> },
}

/// What a list of strings holds.
pub open spec fn string_views(s: Seq<String>) -> Seq<Seq<char>> {
    Seq::new(s.len(), |i: int| s[i]@)
}

impl View for Entry {
    type V = EntryView;

    open spec fn view(&self) -> EntryView {
        match *self {
            Entry::Text { key, value } => EntryView::Text { key, value: value@ },
            Entry::Number { number, text } => EntryView::Number { number, text: text@ },
            Entry::Count { count, amount } => EntryView::Count { count, amount },
            Entry::Sensitivity { band, text } => EntryView::Sensitivity {
                band: band as int,
                text: text@,
            },
            Entry::Smoothing { band, text } => EntryView::Smoothing {
                band: band as int,
                text: text@,
            },
            Entry::FreqSet { name, texts } => EntryView::FreqSet {
                name: name@,
                texts: string_views(texts@),
            },
            Entry::Layout { name, columns } => EntryView::Layout { name: name@, columns: columns@ },
            Entry::Palette { name, colors } => EntryView::Palette { name: name@, colors: colors@ },
        }
    }
}

/// The band that a key of the band sections names.
pub open spec fn band_named(key: Seq<char>) -> Option<int> {
    if key == "sub_bass"@ {
        Some(0)
    } else if key == "bass"@ {
        Some(1)
    } else if key == "low_mid"@ {
        Some(2)
    } else if key == "mid"@ {
        Some(3)
    } else if key == "upper_mid"@ {
        Some(4)
    } else if key == "presence"@ {
        Some(5)
    } else if key == "brilliance"@ {
        Some(6)
    } else if key == "air"@ {
        Some(7)
    } else {
        None
    }
}

/// The whole number that a value spells.
pub open spec fn count_of(value: Seq<char>) -> Option<u32> {
    match crate::text::unsigned(value, u32::MAX as nat) {
        Some(n) => Some(n as u32),
        None => None,
    }
}

/// What a setting in front of all sections says.
pub open spec fn general_entry(key: Seq<char>, value: Seq<char>) -> Option<EntryView> {
    if key == "source"@ {
        Some(EntryView::Text { key: TextKey::Source, value })
    } else if key == "color_mode"@ {
        Some(EntryView::Text { key: TextKey::ColorMode, value })
    } else if key == "dazzle_palette"@ {
        Some(EntryView::Text { key: TextKey::DazzlePalette, value })
    } else if key == "layout"@ {
        Some(EntryView::Text { key: TextKey::Layout, value })
    } else if key == "freq_set"@ {
        Some(EntryView::Text { key: TextKey::FreqSet, value })
    } else if key == "base_hue"@ {
        Some(EntryView::Number { number: NumberKey::BaseHue, text: value })
    } else if key == "sensitivity"@ {
        Some(EntryView::Number { number: NumberKey::Sensitivity, text: value })
    } else if key == "smoothing"@ {
        Some(EntryView::Number { number: NumberKey::Smoothing, text: value })
    } else if key == "bass_amplify"@ {
        Some(EntryView::Number { number: NumberKey::BassAmplify, text: value })
    } else if key == "fps"@ {
        Some(EntryView::Count { count: CountKey::Fps, amount: count_of(value) })
    } else if key == "global_mix"@ {
        Some(EntryView::Number { number: NumberKey::GlobalMix, text: value })
    } else if key == "local_mix"@ {
        Some(EntryView::Number { number: NumberKey::LocalMix, text: value })
    } else if key == "global_decay"@ {
        Some(EntryView::Number { number: NumberKey::GlobalDecay, text: value })
    } else if key == "band_decay"@ {
        Some(EntryView::Number { number: NumberKey::BandDecay, text: value })
    } else if key == "response_curve"@ {
        Some(EntryView::Number { number: NumberKey::ResponseCurve, text: value })
    } else if key == "dazzle_band_frames"@ {
        Some(EntryView::Count { count: CountKey::DazzleBandFrames, amount: count_of(value) })
    } else {
        None
    }
}

/// A list without the square brackets at its ends.
pub open spec fn without_brackets(value: Seq<char>) -> Seq<char> {
    crate::text::trimmed(value, Trim::Either('[', ']'))
}

/// The parts without the white space around them.
pub open spec fn all_trimmed(parts: Seq<Seq<char>>) -> Seq<Seq<char>> {
    Seq::new(parts.len(), |i: int| crate::text::trimmed(parts[i], Trim::White))
}

/// The whole numbers up to `max` among the parts. The other parts are passed over.
pub open spec fn numbers_among(parts: Seq<Seq<char>>, max: nat) -> Seq<u64>
    decreases parts.len(),
{
    if parts.len() == 0 {
        seq![]
    } else {
        let before = numbers_among(parts.drop_last(), max);
        match crate::text::unsigned(crate::text::trimmed(parts.last(), Trim::White), max) {
            Some(n) => before.push(n as u64),
            None => before,
        }
    }
}

/// The numbers of one entry of a palette.
pub open spec fn channels_of(part: Seq<char>) -> Seq<u64> {
    let inner = crate::text::trimmed(
        crate::text::trimmed(part, Trim::White),
        Trim::Either('[', ','),
    );
    numbers_among(crate::text::split(inner, ','), 255)
}

/// The colors among the entries of a palette: those with three numbers. The other entries are passed
/// over.
pub open spec fn colors_among(parts: Seq<Seq<char>>) -> Seq<(u8, u8, u8)>
    decreases parts.len(),
{
    if parts.len() == 0 {
        seq![]
    } else {
        let before = colors_among(parts.drop_last());
        let n = channels_of(parts.last());
        if n.len() == 3 {
            before.push((n[0] as u8, n[1] as u8, n[2] as u8))
        } else {
            before
        }
    }
}

/// The colors of a palette value, as in `[[255,0,0],[0,255,0]]`.
pub open spec fn palette_colors(value: Seq<char>) -> Seq<(u8, u8, u8)> {
    colors_among(
        crate::text::split(without_brackets(crate::text::trimmed(value, Trim::White)), ']'),
    )
}

/// What a setting says in the section it stands in. `None` where the section or the key is unknown.
pub open spec fn entry_of(section: Seq<char>, key: Seq<char>, value: Seq<char>) -> Option<
    EntryView,
> {
    if section.len() == 0 {
        general_entry(key, value)
    } else if section == "band_sensitivity"@ {
        match band_named(key) {
            Some(band) => Some(EntryView::Sensitivity { band, text: value }),
            None => None,
        }
    } else if section == "band_smoothing"@ {
        match band_named(key) {
            Some(band) => Some(EntryView::Smoothing { band, text: value }),
            None => None,
        }
    } else if section == "freq_sets"@ {
        Some(
            EntryView::FreqSet {
                name: key,
                texts: all_trimmed(crate::text::split(without_brackets(value), ',')),
            },
        )
    } else if section == "layouts"@ {
        Some(
            EntryView::Layout {
                name: key,
                columns: numbers_among(
                    crate::text::split(without_brackets(value), ','),
                    usize::MAX as nat,
                ),
            },
        )
    } else if section == "palettes"@ {
        Some(EntryView::Palette { name: key, colors: palette_colors(value) })
    } else {
        None
    }
}

// ---------------------------------------------------------------------------
// Reading settings
// ---------------------------------------------------------------------------

fn read_band(key: &[char]) -> (r: Option<usize>)
    ensures
        r is Some <==> band_named(key@) is Some,
        r matches Some(band) ==> band_named(key@) == Some(band as int),
{
    if spells(key, "sub_bass") {
        Some(0)
    } else if spells(key, "bass") {
        Some(1)
    } else if spells(key, "low_mid") {
        Some(2)
    } else if spells(key, "mid") {
        Some(3)
    } else if spells(key, "upper_mid") {
        Some(4)
    } else if spells(key, "presence") {
        Some(5)
    } else if spells(key, "brilliance") {
        Some(6)
    } else if spells(key, "air") {
        Some(7)
    } else {
        None
    }
}

fn read_count(value: &[char]) -> (r: Option<u32>)
    ensures
        r == count_of(value@),
{
    match parse_unsigned(value, u32::MAX as u64) {
        Some(n) => Some(n as u32),
        None => None,
    }
}

fn read_numbers(parts: &Vec<&[char]>, max: u64) -> (r: Vec<u64>)
    ensures
        r@ == numbers_among(pieces(parts@), max as nat),
        forall|i: int| 0 <= i < r.len() ==> r@[i] <= max,
{
    let mut r: Vec<u64> = Vec::new();
    let mut i: usize = 0;
    assert(pieces(parts@).take(0) =~= seq![]);
    while i < parts.len()
        invariant
            i <= parts.len(),
            r@ == numbers_among(pieces(parts@).take(i as int), max as nat),
            forall|j: int| 0 <= j < r.len() ==> r@[j] <= max,
        decreases parts.len() - i,
    {
        let ghost upto = pieces(parts@).take(i + 1);
        assert(upto.drop_last() =~= pieces(parts@).take(i as int));
        assert(upto.last() == parts@[i as int]@);
        if let Some(n) = parse_unsigned(trim_chars(parts[i], Trim::White), max) {
            r.push(n);
        }
        i = i + 1;
    }
    assert(pieces(parts@).take(i as int) =~= pieces(parts@));
    r
}

fn read_texts(parts: &Vec<&[char]>) -> (r: Vec<String>)
    ensures
        string_views(r@) == all_trimmed(pieces(parts@)),
{
    let mut r: Vec<String> = Vec::new();
    let mut i: usize = 0;
    while i < parts.len()
        invariant
            i <= parts.len(),
            r.len() == i,
            forall|j: int|
                0 <= j < i ==> (#[trigger] r@[j])@ == crate::text::trimmed(
                    parts@[j]@,
                    Trim::White,
                ),
        decreases parts.len() - i,
    {
        r.push(string_of(trim_chars(parts[i], Trim::White)));
        i = i + 1;
    }
    assert(string_views(r@) =~= all_trimmed(pieces(parts@)));
    r
}

fn read_colors(value: &[char]) -> (r: Vec<(u8, u8, u8)>)
    ensures
        r@ == palette_colors(value@),
{
    let stripped: &[char] = trim_chars(trim_chars(value, Trim::White), Trim::Either('[', ']'));
    let parts: Vec<&[char]> = split_chars(stripped, ']');
    let mut r: Vec<(u8, u8, u8)> = Vec::new();
    let mut i: usize = 0;
    assert(pieces(parts@).take(0) =~= seq![]);
    while i < parts.len()
        invariant
            i <= parts.len(),
            r@ == colors_among(pieces(parts@).take(i as int)),
        decreases parts.len() - i,
    {
        let ghost upto = pieces(parts@).take(i + 1);
        assert(upto.drop_last() =~= pieces(parts@).take(i as int));
        assert(upto.last() == parts@[i as int]@);
        let inner: &[char] = trim_chars(trim_chars(parts[i], Trim::White), Trim::Either('[', ','));
        let n: Vec<u64> = read_numbers(&split_chars(inner, ','), 255);
        if n.len() == 3 {
            r.push((n[0] as u8, n[1] as u8, n[2] as u8));
        }
        i = i + 1;
    }
    assert(pieces(parts@).take(i as int) =~= pieces(parts@));
    r
}

/// What an optional setting holds.
pub open spec fn entry_view(e: Option<Entry>) -> Option<EntryView> {
    match e {
        Some(e) => Some(e@),
        None => None,
    }
}

fn read_general(key: &[char], value: &[char]) -> (r: Option<Entry>)
    ensures
        entry_view(r) == general_entry(key@, value@),
{
    if spells(key, "source") {
        Some(Entry::Text { key: TextKey::Source, value: string_of(value) })
    } else if spells(key, "color_mode") {
        Some(Entry::Text { key: TextKey::ColorMode, value: string_of(value) })
    } else if spells(key, "dazzle_palette") {
        Some(Entry::Text { key: TextKey::DazzlePalette, value: string_of(value) })
    } else if spells(key, "layout") {
        Some(Entry::Text { key: TextKey::Layout, value: string_of(value) })
    } else if spells(key, "freq_set") {
        Some(Entry::Text { key: TextKey::FreqSet, value: string_of(value) })
    } else if spells(key, "base_hue") {
        Some(Entry::Number { number: NumberKey::BaseHue, text: string_of(value) })
    } else if spells(key, "sensitivity") {
        Some(Entry::Number { number: NumberKey::Sensitivity, text: string_of(value) })
    } else if spells(key, "smoothing") {
        Some(Entry::Number { number: NumberKey::Smoothing, text: string_of(value) })
    } else if spells(key, "bass_amplify") {
        Some(Entry::Number { number: NumberKey::BassAmplify, text: string_of(value) })
    } else if spells(key, "fps") {
        Some(Entry::Count { count: CountKey::Fps, amount: read_count(value) })
    } else if spells(key, "global_mix") {
        Some(Entry::Number { number: NumberKey::GlobalMix, text: string_of(value) })
    } else if spells(key, "local_mix") {
        Some(Entry::Number { number: NumberKey::LocalMix, text: string_of(value) })
    } else if spells(key, "global_decay") {
        Some(Entry::Number { number: NumberKey::GlobalDecay, text: string_of(value) })
    } else if spells(key, "band_decay") {
        Some(Entry::Number { number: NumberKey::BandDecay, text: string_of(value) })
    } else if spells(key, "response_curve") {
        Some(Entry::Number { number: NumberKey::ResponseCurve, text: string_of(value) })
    } else if spells(key, "dazzle_band_frames") {
        Some(Entry::Count { count: CountKey::DazzleBandFrames, amount: read_count(value) })
    } else {
        None
    }
}

fn read_setting(section: &[char], key: &[char], value: &[char]) -> (r: Option<Entry>)
    ensures
        entry_view(r) == entry_of(section@, key@, value@),
{
    if section.len() == 0 {
        read_general(key, value)
    } else if spells(section, "band_sensitivity") {
        match read_band(key) {
            Some(band) => Some(Entry::Sensitivity { band, text: string_of(value) }),
            None => None,
        }
    } else if spells(section, "band_smoothing") {
        match read_band(key) {
            Some(band) => Some(Entry::Smoothing { band, text: string_of(value) }),
            None => None,
        }
    } else if spells(section, "freq_sets") {
        let stripped: &[char] = trim_chars(value, Trim::Either('[', ']'));
        let texts: Vec<String> = read_texts(&split_chars(stripped, ','));
        Some(Entry::FreqSet { name: string_of(key), texts })
    } else if spells(section, "layouts") {
        let stripped: &[char] = trim_chars(value, Trim::Either('[', ']'));
        let columns: Vec<u64> = read_numbers(&split_chars(stripped, ','), usize::MAX as u64);
        Some(Entry::Layout { name: string_of(key), columns })
    } else if spells(section, "palettes") {
        Some(Entry::Palette { name: string_of(key), colors: read_colors(value) })
    } else {
        None
    }
}

// ---------------------------------------------------------------------------
// Files
// ---------------------------------------------------------------------------

/// The section that the lines leave open: that of the last header among them.
pub open spec fn section_after(lines: Seq<Seq<char>>) -> Seq<char>
    decreases lines.len(),
{
    if lines.len() == 0 {
        seq![]
    } else {
        match line_of(lines.last()) {
            LineView::Header(name) => name,
            _ => section_after(lines.drop_last()),
        }
    }
}

/// What a line says behind the given section header.
pub open spec fn line_entry(section: Seq<char>, line: Seq<char>) -> Option<EntryView> {
    match line_of(line) {
        LineView::Setting(key, value) => entry_of(section, key, value),
        _ => None,
    }
}

/// The settings that the lines hold, in their order.
pub open spec fn entries(lines: Seq<Seq<char>>) -> Seq<EntryView>
    decreases lines.len(),
{
    if lines.len() == 0 {
        seq![]
    } else {
        let before = entries(lines.drop_last());
        match line_entry(section_after(lines.drop_last()), lines.last()) {
            Some(e) => before.push(e),
            None => before,
        }
    }
}

/// The settings that a file holds.
pub open spec fn file_entries(content: Seq<char>) -> Seq<EntryView> {
    entries(crate::text::lines(content))
}

/// What a list of settings holds.
pub open spec fn entry_views(s: Seq<Entry>) -> Seq<EntryView> {
    Seq::new(s.len(), |i: int| s[i]@)
}

/// Reads the settings of a file.
pub fn read_entries(content: &str) -> (r: Vec<Entry>)
    ensures
        entry_views(r@) == file_entries(content@),
{
    let chars: Vec<char> = chars_of(content);
    let parts: Vec<&[char]> = split_lines(chars.as_slice());
    let empty: Vec<char> = Vec::new();
    let mut section: &[char] = empty.as_slice();
    let mut r: Vec<Entry> = Vec::new();
    let mut i: usize = 0;
    let ghost all = pieces(parts@);
    assert(all.take(0) =~= seq![]);
    assert(section@ =~= seq![]);
    assert(entry_views(r@) =~= seq![]);
    while i < parts.len()
        invariant
            i <= parts.len(),
            all == pieces(parts@),
            section@ == section_after(all.take(i as int)),
            entry_views(r@) == entries(all.take(i as int)),
        decreases parts.len() - i,
    {
        let ghost upto = all.take(i + 1);
        let ghost before = r@;
        assert(upto.drop_last() =~= all.take(i as int));
        assert(upto.last() == parts@[i as int]@);
        match read_line(parts[i]) {
            Line::Nothing => {},
            Line::Header(name) => {
                section = name;
            },
            Line::Setting(key, value) => {
                if let Some(e) = read_setting(section, key, value) {
                    r.push(e);
                    assert(entry_views(r@) =~= entry_views(before).push(e@));
                }
            },
        }
        i = i + 1;
    }
    assert(all.take(i as int) =~= all);
    r
}

} // verus!
