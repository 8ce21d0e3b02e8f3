//! Laws of rendering: what each color mode shows, and when random colors are drawn.
use crate::config::ConfigView;
use crate::frame::{BandLevel, ColorMode, Paint, Scene};
use vstd::prelude::*;

verus! {

// ---------------------------------------------------------------------------
// What a frame is made of
// ---------------------------------------------------------------------------

/// Each mode goes by its name, and the spectrum by every other name.
pub proof fn modes_go_by_their_names(name: Seq<char>)
    ensures
        crate::frame::mode_named("solid"@) == ColorMode::Solid,
        crate::frame::mode_named("gradient"@) == ColorMode::Gradient,
        crate::frame::mode_named("dazzle"@) == ColorMode::Dazzle,
        crate::frame::mode_named("dazzleband"@) == ColorMode::DazzleBand,
        crate::frame::mode_named("spectrum"@) == ColorMode::Spectrum,
        !seq!["solid"@, "gradient"@, "dazzle"@, "dazzleband"@].contains(name)
            ==> crate::frame::mode_named(name) == ColorMode::Spectrum,
{
    reveal_strlit("solid");
    reveal_strlit("gradient");
    reveal_strlit("dazzle");
    reveal_strlit("dazzleband");
    reveal_strlit("spectrum");
    assert("gradient"@[0] == 'g');
    assert("spectrum"@[0] == 's');
    assert("solid"@.len() == 5 && "gradient"@.len() == 8 && "dazzle"@.len() == 6
        && "dazzleband"@.len() == 10 && "spectrum"@.len() == 8);
    let others = seq!["solid"@, "gradient"@, "dazzle"@, "dazzleband"@];
    assert(others[0] == "solid"@);
    assert(others[1] == "gradient"@);
    assert(others[2] == "dazzle"@);
    assert(others[3] == "dazzleband"@);
}

/// Whether a layout is the active one: the first of the configured name, or the first of all where no
/// layout has that name.
pub open spec fn layout_is_active(config: ConfigView, l: int) -> bool {
    &&& 0 <= l < config.layouts.len()
    &&& config.layouts[l].0 == config.layout && (forall|j: int|
        0 <= j < l ==> (#[trigger] config.layouts[j]).0 != config.layout) || l == 0 && (forall|j: int|
        0 <= j < config.layouts.len() ==> (#[trigger] config.layouts[j]).0 != config.layout)
}

/// Whether a palette is the active one: the first of the configured name, or the first of all where no
/// palette has that name.
pub open spec fn palette_is_active(config: ConfigView, p: int) -> bool {
    &&& 0 <= p < config.palettes.len()
    &&& config.palettes[p].name == config.dazzle_palette && (forall|j: int|
        0 <= j < p ==> (#[trigger] config.palettes[j]).name != config.dazzle_palette) || p == 0 && (
    forall|j: int|
        0 <= j < config.palettes.len() ==> (#[trigger] config.palettes[j]).name
            != config.dazzle_palette)
}

/// Whether a frequency set is the active one: the first of the configured name, or the first of all
/// where no set has that name.
pub open spec fn set_is_active(config: ConfigView, s: int) -> bool {
    &&& 0 <= s < config.freq_sets.len()
    &&& config.freq_sets[s].name == config.freq_set && (forall|j: int|
        0 <= j < s ==> (#[trigger] config.freq_sets[j]).name != config.freq_set) || s == 0 && (
    forall|j: int|
        0 <= j < config.freq_sets.len() ==> (#[trigger] config.freq_sets[j]).name
            != config.freq_set)
}

/// What is asked for by name is the first of that name, and the first of all where there is none.
pub proof fn active_ones_go_by_their_names(config: ConfigView, l: int, p: int, s: int)
    ensures
        layout_is_active(config, l) ==> config.active_columns() == config.layouts[l].1,
        palette_is_active(config, p) ==> config.active_colors() == config.palettes[p],
        set_is_active(config, s) ==> config.active_set() == config.freq_sets[s],
{
    let layouts = crate::config::layout_names(config.layouts);
    let palettes = crate::palette::palette_names(config.palettes);
    let sets = crate::config::set_names(config.freq_sets);
    if layout_is_active(config, l) {
        let i = if config.layouts[l].0 == config.layout {
            l
        } else {
            layouts.len() as int
        };
        assert forall|j: int| 0 <= j < i implies layouts[j] != config.layout by {
            assert(config.layouts[j].0 != config.layout);
        }
        crate::names::first_is_first_named(layouts, config.layout, i);
    }
    if palette_is_active(config, p) {
        let i = if config.palettes[p].name == config.dazzle_palette {
            p
        } else {
            palettes.len() as int
        };
        assert forall|j: int| 0 <= j < i implies palettes[j] != config.dazzle_palette by {
            assert(config.palettes[j].name != config.dazzle_palette);
        }
        crate::names::first_is_first_named(palettes, config.dazzle_palette, i);
    }
    if set_is_active(config, s) {
        let i = if config.freq_sets[s].name == config.freq_set {
            s
        } else {
            sets.len() as int
        };
        assert forall|j: int| 0 <= j < i implies sets[j] != config.freq_set by {
            assert(config.freq_sets[j].name != config.freq_set);
        }
        crate::names::first_is_first_named(sets, config.freq_set, i);
    }
}

/// The place of the key of a row and a column: row after row of sixteen keys.
pub proof fn keys_are_placed_row_by_row(row: int, col: int)
    ensures
        crate::frame::key_at(row, col) == 16 * row + col,
{
}

/// The level of the band that a layout gives to a column; a band above the last one stands for it.
pub open spec fn shown(config: ConfigView, levels: Seq<BandLevel>, l: int, col: int) -> BandLevel {
    let band = config.layouts[l].1[col];
    if band <= 7 {
        levels[band as int]
    } else {
        levels[7]
    }
}

/// A column shows the level of the band that the active layout gives to it, and a bar lights the rows
/// from the bottom up to its height.
pub proof fn columns_show_their_bands(
    config: ConfigView,
    levels: Seq<BandLevel>,
    l: int,
    row: int,
    col: int,
)
    requires
        layout_is_active(config, l),
        0 <= row < 6,
        0 <= col < 16,
    ensures
        ({
            let scene = Scene::of(config, levels);
            let level = shown(config, levels, l, col);
            &&& scene.level(col) == level
            &&& scene.lit(row, col) <==> 5 - row < level.lit_rows
            &&& crate::frame::band_shown(scene.columns, col) == (if config.layouts[l].1[col] <= 7 {
                config.layouts[l].1[col] as int
            } else {
                7
            })
        }),
{
    active_ones_go_by_their_names(config, l, 0, 0);
}

// ---------------------------------------------------------------------------
// What the modes show
// ---------------------------------------------------------------------------

/// The hue of each column in degrees.
pub open spec fn hues() -> Seq<u32> {
    seq![0u32, 15, 30, 45, 60, 75, 100, 120, 150, 180, 200, 220, 240, 260, 280, 300]
}

/// Whether a key of a frame shows its part of the bar of its column: it is off above the bar, and else
/// it shows what the mode makes of its column and of the level.
pub open spec fn shows_the_bar(
    config: ConfigView,
    levels: Seq<BandLevel>,
    l: int,
    leds: Seq<Paint>,
    row: int,
    col: int,
) -> bool {
    let level = shown(config, levels, l, col);
    let paint = leds[16 * row + col];
    if 5 - row >= level.lit_rows {
        paint == Paint::Off
    } else {
        &&& paint != Paint::Off
        &&& config.color_mode == "gradient"@ ==> paint == (Paint::Gradient {
            hue: hues()[col],
            from_bottom: (5 - row) as usize,
            lit_rows: level.lit_rows,
            raw: level.raw,
        })
        &&& config.color_mode == "solid"@ ==> paint == (Paint::Solid { raw: level.raw })
        &&& config.color_mode == "spectrum"@ ==> paint == (Paint::Spectrum {
            hue: hues()[col],
            from_bottom: (5 - row) as usize,
            lit_rows: level.lit_rows,
        })
    }
}

/// In gradient mode a key that the bar reaches shows the hue of its column, its height above the bottom
/// row, and the height and level of the bar. Every other key is off.
pub proof fn gradient_shows_the_hue_of_the_column(
    config: ConfigView,
    levels: Seq<BandLevel>,
    l: int,
    key_seed: u64,
    band_seed: u64,
    row: int,
    col: int,
)
    requires
        config.color_mode == "gradient"@,
        layout_is_active(config, l),
        0 <= row < 6,
        0 <= col < 16,
    ensures
        Scene::of(config, levels).paint(key_seed, band_seed, row, col) == (if 5 - row < shown(
            config,
            levels,
            l,
            col,
        ).lit_rows {
            Paint::Gradient {
                hue: hues()[col],
                from_bottom: (5 - row) as usize,
                lit_rows: shown(config, levels, l, col).lit_rows,
                raw: shown(config, levels, l, col).raw,
            }
        } else {
            Paint::Off
        }),
{
    modes_go_by_their_names(config.color_mode);
    columns_show_their_bands(config, levels, l, row, col);
    assert(crate::frame::column_hues() =~= hues());
}

/// In spectrum mode a key that the bar reaches shows the hue of its column, its height above the bottom
/// row and the height of the bar. Every other key is off. Every name that is not that of another mode
/// stands for this one.
pub proof fn spectrum_shows_the_hue_of_the_column(
    config: ConfigView,
    levels: Seq<BandLevel>,
    l: int,
    key_seed: u64,
    band_seed: u64,
    row: int,
    col: int,
)
    requires
        !seq!["solid"@, "gradient"@, "dazzle"@, "dazzleband"@].contains(config.color_mode),
        layout_is_active(config, l),
        0 <= row < 6,
        0 <= col < 16,
    ensures
        Scene::of(config, levels).paint(key_seed, band_seed, row, col) == (if 5 - row < shown(
            config,
            levels,
            l,
            col,
        ).lit_rows {
            Paint::Spectrum {
                hue: hues()[col],
                from_bottom: (5 - row) as usize,
                lit_rows: shown(config, levels, l, col).lit_rows,
            }
        } else {
            Paint::Off
        }),
{
    modes_go_by_their_names(config.color_mode);
    columns_show_their_bands(config, levels, l, row, col);
    assert(crate::frame::column_hues() =~= hues());
}

/// In solid mode a key that the bar reaches shows the level of the bar, and every other key is off.
pub proof fn solid_shows_the_level(
    config: ConfigView,
    levels: Seq<BandLevel>,
    l: int,
    key_seed: u64,
    band_seed: u64,
    row: int,
    col: int,
)
    requires
        config.color_mode == "solid"@,
        layout_is_active(config, l),
        0 <= row < 6,
        0 <= col < 16,
    ensures
        Scene::of(config, levels).paint(key_seed, band_seed, row, col) == (if 5 - row < shown(
            config,
            levels,
            l,
            col,
        ).lit_rows {
            Paint::Solid { raw: shown(config, levels, l, col).raw }
        } else {
            Paint::Off
        }),
{
    modes_go_by_their_names(config.color_mode);
    columns_show_their_bands(config, levels, l, row, col);
}

/// From left to right the hues of the lit keys of a gradient or spectrum frame ascend.
pub proof fn hues_ascend_across_a_frame(
    config: ConfigView,
    levels: Seq<BandLevel>,
    l: int,
    seeds: Seq<u64>,
    row1: int,
    left: int,
    row2: int,
    right: int,
)
    requires
        layout_is_active(config, l),
        0 <= row1 < 6,
        0 <= row2 < 6,
        0 <= left < right < 16,
        5 - row1 < shown(config, levels, l, left).lit_rows,
        5 - row2 < shown(config, levels, l, right).lit_rows,
    ensures
        ({
            let one = Scene::of(config, levels).paint(seeds[0], seeds[1], row1, left);
            let other = Scene::of(config, levels).paint(seeds[2], seeds[3], row2, right);
            &&& config.color_mode == "gradient"@ ==> (one matches Paint::Gradient { hue: a, .. } && (
            other matches Paint::Gradient { hue: b, .. } && a < b < 360))
            &&& config.color_mode == "spectrum"@ ==> (one matches Paint::Spectrum { hue: a, .. } && (
            other matches Paint::Spectrum { hue: b, .. } && a < b < 360))
        }),
{
    columns_show_their_bands(config, levels, l, row1, left);
    columns_show_their_bands(config, levels, l, row2, right);
    modes_go_by_their_names(config.color_mode);
    crate::frame::hues_ascend(left, right);
}

// ---------------------------------------------------------------------------
// Random colors
// ---------------------------------------------------------------------------

/// The first number that the generator draws from a seed.
pub open spec fn drawn(seed: u64) -> int {
    ((seed ^ 0xdead_beef_cafeu64) * 6364136223846793005int + 1442695040888963407int)
        % 0x1_0000_0000_0000_0000
}

/// The generator is a linear congruence: it draws what its factor and addend make of its state.
pub proof fn draws_follow_the_congruence(seed: u64, state: u64)
    ensures
        crate::rng::first_draw(seed) == drawn(seed),
        crate::rng::advance(state) == (state * 6364136223846793005int + 1442695040888963407int)
            % 0x1_0000_0000_0000_0000,
        crate::rng::SEED_MASK == 0xdead_beef_cafe,
{
}

/// In dazzle mode the key at the top of a bar is drawn anew whenever the bar had another height in the
/// frame before, from its old seed and the level. Every other key keeps its seed, and so does every key
/// in the other modes.
pub proof fn top_key_is_drawn_anew_when_the_top_moves(
    config: ConfigView,
    levels: Seq<BandLevel>,
    l: int,
    height_before: usize,
    seed: u64,
    row: int,
    col: int,
)
    requires
        layout_is_active(config, l),
        0 <= row < 6,
        0 <= col < 16,
    ensures
        ({
            let level = shown(config, levels, l, col);
            let after = Scene::of(config, levels).seed_after(height_before, seed, row, col);
            if config.color_mode == "dazzle"@ && 5 - row == level.lit_rows - 1 && level.lit_rows
                != height_before {
                after == drawn(seed ^ (level.raw.bits as u64))
            } else {
                after == seed
            }
        }),
{
    modes_go_by_their_names(config.color_mode);
    modes_are_apart(config.color_mode);
    columns_show_their_bands(config, levels, l, row, col);
    draws_follow_the_congruence(seed ^ (shown(config, levels, l, col).raw.bits as u64), 0);
}

/// Whether a frame leaves a key with the seed that it should: that of before, or a new one for the key
/// at the top of a bar of another height than before, in dazzle mode.
pub open spec fn seed_is_up_to_date(
    config: ConfigView,
    levels: Seq<BandLevel>,
    l: int,
    height_before: usize,
    before: u64,
    after: u64,
    row: int,
    col: int,
) -> bool {
    let level = shown(config, levels, l, col);
    if config.color_mode == "dazzle"@ && 5 - row == level.lit_rows - 1 && level.lit_rows
        != height_before {
        after == drawn(before ^ (level.raw.bits as u64))
    } else {
        after == before
    }
}

/// Whether a key of a frame shows the palette color that it should: the one that its seed draws in
/// dazzle mode, and the one that the seed of its band holds in dazzleband mode.
pub open spec fn shows_the_palette(
    config: ConfigView,
    levels: Seq<BandLevel>,
    l: int,
    p: int,
    leds: Seq<Paint>,
    key_seed: u64,
    band_seeds: Seq<u64>,
    row: int,
    col: int,
) -> bool {
    let colors = config.palettes[p].colors;
    let band = config.layouts[l].1[col];
    let a = colors[(drawn(key_seed) as u64 as usize) as int % colors.len() as int];
    let b = colors[band_seeds[if band <= 7 {
        band as int
    } else {
        7
    }] as int % 0x1_0000_0000 % colors.len() as int];
    5 - row < shown(config, levels, l, col).lit_rows ==> {
        &&& config.color_mode == "dazzle"@ ==> leds[16 * row + col] == Paint::Rgb(a.0, a.1, a.2)
        &&& config.color_mode == "dazzleband"@ ==> leds[16 * row + col] == Paint::Rgb(b.0, b.1, b.2)
    }
}

/// A mode is that of its name only.
proof fn modes_are_apart(name: Seq<char>)
    ensures
        crate::frame::mode_named(name) == ColorMode::Dazzle <==> name == "dazzle"@,
        crate::frame::mode_named(name) == ColorMode::DazzleBand <==> name == "dazzleband"@,
{
    modes_go_by_their_names(name);
}

/// In dazzle mode a key that the bar reaches shows the palette color that its seed draws, and every
/// other key is off.
pub proof fn dazzle_shows_the_drawn_color(
    config: ConfigView,
    levels: Seq<BandLevel>,
    l: int,
    p: int,
    key_seed: u64,
    band_seed: u64,
    row: int,
    col: int,
)
    requires
        config.color_mode == "dazzle"@,
        layout_is_active(config, l),
        palette_is_active(config, p),
        config.palettes[p].colors.len() > 0,
        0 <= row < 6,
        0 <= col < 16,
    ensures
        ({
            let colors = config.palettes[p].colors;
            let c = colors[(drawn(key_seed) as u64 as usize) as int % colors.len() as int];
            Scene::of(config, levels).paint(key_seed, band_seed, row, col) == (if 5 - row < shown(
                config,
                levels,
                l,
                col,
            ).lit_rows {
                Paint::Rgb(c.0, c.1, c.2)
            } else {
                Paint::Off
            })
        }),
{
    modes_go_by_their_names(config.color_mode);
    columns_show_their_bands(config, levels, l, row, col);
    active_ones_go_by_their_names(config, l, p, 0);
    draws_follow_the_congruence(key_seed, 0);
}

/// In dazzleband mode a key that the bar reaches shows the palette color that the seed of its band
/// holds in its low half, and every other key is off.
pub proof fn dazzleband_shows_the_color_of_the_band(
    config: ConfigView,
    levels: Seq<BandLevel>,
    l: int,
    p: int,
    key_seed: u64,
    band_seed: u64,
    row: int,
    col: int,
)
    requires
        config.color_mode == "dazzleband"@,
        layout_is_active(config, l),
        palette_is_active(config, p),
        0 < config.palettes[p].colors.len(),
        0 <= row < 6,
        0 <= col < 16,
    ensures
        ({
            let colors = config.palettes[p].colors;
            let c = colors[band_seed as int % 0x1_0000_0000 % colors.len() as int];
            Scene::of(config, levels).paint(key_seed, band_seed, row, col) == (if 5 - row < shown(
                config,
                levels,
                l,
                col,
            ).lit_rows {
                Paint::Rgb(c.0, c.1, c.2)
            } else {
                Paint::Off
            })
        }),
{
    modes_go_by_their_names(config.color_mode);
    columns_show_their_bands(config, levels, l, row, col);
    active_ones_go_by_their_names(config, l, p, 0);
    assert(band_seed & 0xFFFF_FFFF == band_seed % 0x1_0000_0000) by (bit_vector);
}

/// In dazzleband mode the seed of a band stays while it holds the stretch of frames in its high half.
/// Else it holds the new stretch, and in its low half a palette index that is drawn from the old seed,
/// the stretch and the band. In the other modes it stays. A palette index has 32 bits to live in.
pub proof fn band_seeds_are_drawn_once_in_a_stretch(
    config: ConfigView,
    levels: Seq<BandLevel>,
    p: int,
    seeds: Seq<u64>,
    slot: u32,
    band: int,
)
    requires
        palette_is_active(config, p),
        0 < config.palettes[p].colors.len() <= 0x1_0000_0000,
        seeds.len() == 8,
        0 <= band < 8,
    ensures
        ({
            let n = config.palettes[p].colors.len() as int;
            let after = crate::frame::band_seeds_after(Scene::of(config, levels), seeds, slot);
            let mixed = seeds[band] ^ (slot as u64) ^ (((band * 0x9e37_79b9_7f4a_7c15)
                % 0x1_0000_0000_0000_0000) as u64);
            &&& after.len() == 8
            &&& after[band] == (if config.color_mode == "dazzleband"@ && seeds[band] as int
                / 0x1_0000_0000 != slot {
                slot * 0x1_0000_0000 + (drawn(mixed) as u64 as usize) as int % n
            } else {
                seeds[band] as int
            })
        }),
{
    let seed = seeds[band];
    let n = config.palettes[p].colors.len() as int;
    let mixed = seed ^ (slot as u64) ^ (((band * 0x9e37_79b9_7f4a_7c15)
        % 0x1_0000_0000_0000_0000) as u64);
    modes_are_apart(config.color_mode);
    active_ones_go_by_their_names(config, 0, p, 0);
    draws_follow_the_congruence(mixed, 0);
    let index = (drawn(mixed) as u64 as usize) as int % n;
    assert(0 <= index < n);
    let i = index as u64;
    assert(((slot as u64) << 32) | i == slot * 0x1_0000_0000 + i) by (bit_vector)
        requires
            i < 0x1_0000_0000,
    ;
    assert(seed >> 32 == seed / 0x1_0000_0000) by (bit_vector);
    assert(crate::frame::band_draw_seed(seed, slot, band) == mixed);
}

/// A stretch has the configured number of frames, and one frame where none is configured: frames belong
/// to the same stretch exactly where they are that close.
pub proof fn stretches_have_their_length(frames: u32, frame: u32)
    ensures
        crate::frame::slot_of(0, frame) == frame,
        frames > 0 ==> crate::frame::slot_of(frames, frame) * frames <= frame
            < crate::frame::slot_of(frames, frame) * frames + frames,
{
    if frames > 0 {
        vstd::arithmetic::div_mod::lemma_fundamental_div_mod(frame as int, frames as int);
        let q = crate::frame::slot_of(frames, frame) as int;
        let f = frames as int;
        assert(f * q == q * f) by (nonlinear_arith);
        vstd::arithmetic::div_mod::lemma_mod_bound(frame as int, frames as int);
    }
}

/// Before the first frame every key has a seed of its own, and every band one that belongs to no
/// stretch.
pub proof fn first_seeds(row: int, col: int, band: int)
    requires
        0 <= row < 6,
        0 <= col < 16,
        0 <= band < 8,
    ensures
        crate::frame::first_key_seed(row, col) == 100 * col + row,
        crate::frame::first_band_seed(band) == 0xFFFF_FFFFint * 0x1_0000_0000 + band,
{
    let b = band as u64;
    assert(0xFFFF_FFFF_0000_0000u64 | b == 0xFFFF_FFFF_0000_0000u64 + b) by (bit_vector)
        requires
            b < 8,
    ;
}

/// A frame can be rendered exactly where there is a palette and a layout, and where the active palette
/// has a color or none is drawn: dazzleband always draws one, dazzle where a bar lights a key, and the
/// other modes never.
pub proof fn frames_need_colors_only_to_draw(
    config: ConfigView,
    levels: Seq<BandLevel>,
    l: int,
    p: int,
)
    requires
        layout_is_active(config, l),
        palette_is_active(config, p),
    ensures
        crate::frame::renderable(config, levels) <==> (config.palettes[p].colors.len() > 0 || !(
        config.color_mode == "dazzleband"@ || config.color_mode == "dazzle"@ && (exists|col: int|
            0 <= col < 16 && (#[trigger] shown(config, levels, l, col)).lit_rows > 0))),
{
    let scene = Scene::of(config, levels);
    modes_are_apart(config.color_mode);
    active_ones_go_by_their_names(config, l, p, 0);
    assert forall|col: int| 0 <= col < 16 implies #[trigger] scene.level(col) == shown(
        config,
        levels,
        l,
        col,
    ) by {
        columns_show_their_bands(config, levels, l, 0, col);
    }
    if exists|col: int| 0 <= col < 16 && (#[trigger] shown(config, levels, l, col)).lit_rows > 0 {
        let col = choose|col: int|
            0 <= col < 16 && (#[trigger] shown(config, levels, l, col)).lit_rows > 0;
        assert(scene.level(col).lit_rows > 0);
    }
    if exists|col: int| 0 <= col < 16 && (#[trigger] scene.level(col)).lit_rows > 0 {
        let col = choose|col: int| 0 <= col < 16 && (#[trigger] scene.level(col)).lit_rows > 0;
        assert(shown(config, levels, l, col).lit_rows > 0);
    }
}

} // verus!
