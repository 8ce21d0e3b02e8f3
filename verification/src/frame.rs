//! From the levels of the bands to the colors of the keys.
//!
//! Each column of the key matrix shows the level of one band as a bar that grows from the bottom
//! row. What a lit key shows depends on the color mode. The modes that compute a hue and a
//! brightness are described by a `Paint`; the dazzle modes give the color itself.
use crate::config::{AudioConfig, ConfigView, COLS, NUM_BANDS, ROWS};
use crate::palette::{DazzlePalette, PaletteView};
use crate::rng::SlotRng;
use crate::single::Single;
use crate::text::{chars_of, spells};
use vstd::prelude::*;

verus! {

/// Number of keys of the matrix.
#[verifier::nonlinear]
pub const MATRIX_LEN: usize = ROWS * COLS;

// ---------------------------------------------------------------------------
// Modes, levels and paints
// ---------------------------------------------------------------------------

/// How lit keys get their color.
#[derive(Clone, Copy, Debug, PartialEq, Eq, Structural)]
pub enum ColorMode {
    /// One hue, as bright as the level.
    Solid,
    /// Hues across the columns from a base hue, brighter at the bottom and with the level.
    Gradient,
    /// A random palette color for each key.
    Dazzle,
    /// A random palette color for each band.
    DazzleBand,
    /// A rainbow across the columns, brighter at the bottom.
    Spectrum,
}

/// The mode of a name. A name that stands for no other mode stands for the spectrum.
pub open spec fn mode_named(name: Seq<char>) -> ColorMode {
    if name == "solid"@ {
        ColorMode::Solid
    } else if name == "gradient"@ {
        ColorMode::Gradient
    } else if name == "dazzle"@ {
        ColorMode::Dazzle
    } else if name == "dazzleband"@ {
        ColorMode::DazzleBand
    } else {
        ColorMode::Spectrum
    }
}

impl AudioConfig {
    /// The configured color mode.
    pub fn mode(&self) -> (r: ColorMode)
        ensures
            r == mode_named(self@.color_mode),
    {
        let name: Vec<char> = chars_of(self.color_mode.as_str());
        if spells(name.as_slice(), "solid") {
            ColorMode::Solid
        } else if spells(name.as_slice(), "gradient") {
            ColorMode::Gradient
        } else if spells(name.as_slice(), "dazzle") {
            ColorMode::Dazzle
        } else if spells(name.as_slice(), "dazzleband") {
            ColorMode::DazzleBand
        } else {
            ColorMode::Spectrum
        }
    }
}

/// The level of a band in one frame: the amplified level, at most 1, and the number of rows that it
/// lights.
#[derive(Clone, Copy, Debug, PartialEq, Eq, Structural)]
pub struct BandLevel {
    pub raw: Single,
    pub lit_rows: usize,
}

/// How many of the bands are bass. Their energy amplifies the other bands.
pub const BASS_BANDS: usize = 2;

/// Whether the bass amplifies a band: it does so for the other bands only.
pub fn is_amplified(band: usize) -> (r: bool)
    ensures
        r == (band >= BASS_BANDS),
        r == (band != 0 && band != 1),
{
    band >= BASS_BANDS
}

/// What a key shows.
#[derive(Clone, Copy, Debug, PartialEq, Eq, Structural)]
pub enum Paint {
    /// Nothing.
    Off,
    /// A color.
    Rgb(u8, u8, u8),
    /// The base hue, as bright as the level.
    Solid { raw: Single },
    /// The base hue turned by `hue` degrees, brighter at the bottom of the bar and with the level.
    Gradient { hue: u32, from_bottom: usize, lit_rows: usize, raw: Single },
    /// The hue of `hue` degrees, brighter at the bottom of the bar.
    Spectrum { hue: u32, from_bottom: usize, lit_rows: usize },
}

/// Hue of each column in degrees (smooth rainbow from bass to treble).
pub open spec fn column_hues() -> Seq<u32> {
    seq![0u32, 15, 30, 45, 60, 75, 100, 120, 150, 180, 200, 220, 240, 260, 280, 300]
}

/// The hue of a column in degrees.
pub fn column_hue(col: usize) -> (r: u32)
    requires
        col < COLS,
    ensures
        r == column_hues()[col as int],
{
    let hues: [u32; COLS] = [
        0,
        15,
        30,
        45,
        60,
        75,
        100,
        120,
        150,
        180,
        200,
        220,
        240,
        260,
        280,
        300,
    ];
    assert(hues@ =~= column_hues());
    hues[col]
}

/// The band that a column shows: the one of the layout, cut down to the last one there is.
pub open spec fn band_shown(columns: Seq<usize>, col: int) -> int {
    if columns[col] < NUM_BANDS {
        columns[col] as int
    } else {
        NUM_BANDS - 1
    }
}

/// Finds the band that a column shows.
fn find_band(layout: &[usize; COLS], col: usize) -> (r: usize)
    requires
        col < COLS,
    ensures
        r == band_shown(layout@, col as int),
        r < NUM_BANDS,
{
    if layout[col] < NUM_BANDS {
        layout[col]
    } else {
        NUM_BANDS - 1
    }
}

/// How far above the bottom row a row is.
pub open spec fn height(row: int) -> int {
    ROWS - 1 - row
}

/// The place of a key in the frame.
pub open spec fn key_at(row: int, col: int) -> int {
    row * COLS + col
}

// ---------------------------------------------------------------------------
// Dazzleband: one palette color for each band
// ---------------------------------------------------------------------------

/// The factor that keeps the random colors of the bands apart.
pub const BAND_FACTOR: u64 = 0x9e3779b97f4a7c15;

/// Which stretch of frames of one color a frame belongs to.
pub open spec fn slot_of(frames_per_slot: u32, frame_counter: u32) -> u32 {
    if frames_per_slot == 0 {
        frame_counter
    } else {
        frame_counter / frames_per_slot
    }
}

/// The stretch of frames that a band seed was drawn for: its high half.
pub open spec fn seed_slot(seed: u64) -> u32 {
    (seed >> 32) as u32
}

/// The palette index that a band seed holds: its low half.
pub open spec fn seed_index(seed: u64) -> usize {
    (seed & 0xFFFF_FFFF) as usize
}

/// What the index of a band is drawn from.
pub open spec fn band_draw_seed(seed: u64, slot: u32, band: int) -> u64 {
    seed ^ (slot as u64) ^ ((band * BAND_FACTOR) % 0x1_0000_0000_0000_0000) as u64
}

/// The band seed in a frame of the given stretch. It stays where it was drawn for that stretch; else
/// a new palette index is drawn.
pub open spec fn band_seed_in(seed: u64, slot: u32, band: int, colors: int) -> u64 {
    if seed_slot(seed) == slot {
        seed
    } else {
        ((slot as u64) << 32) | (crate::rng::first_index(
            band_draw_seed(seed, slot, band),
            colors,
        ) as u64)
    }
}

/// The band seeds in a frame of the given stretch.
pub open spec fn band_seeds_in(seeds: Seq<u64>, slot: u32, colors: int) -> Seq<u64> {
    Seq::new(seeds.len(), |i: int| band_seed_in(seeds[i], slot, i, colors))
}

/// The palette color that a band seed holds.
pub open spec fn seed_color(palette: PaletteView, seed: u64) -> (u8, u8, u8) {
    palette.colors[seed_index(seed) as int % palette.colors.len() as int]
}

/// Brings a band seed up to the given stretch of frames.
fn refresh_band_seed(seed: u64, slot: u32, band: usize, colors: usize) -> (r: u64)
    requires
        colors > 0,
        band < NUM_BANDS,
    ensures
        r == band_seed_in(seed, slot, band as int, colors as int),
{
    let stored: u32 = (seed >> 32) as u32;
    if slot != stored {
        let mut rng: SlotRng = SlotRng::new(
            seed ^ slot as u64 ^ (band as u64).wrapping_mul(BAND_FACTOR),
        );
        let pick: usize = rng.next_usize(colors);
        ((slot as u64) << 32) | (pick as u64)
    } else {
        seed
    }
}

/// Brings the band seeds up to the given stretch of frames.
fn refresh_band_seeds(seeds: &mut [u64; NUM_BANDS], slot: u32, colors: usize)
    requires
        colors > 0,
    ensures
        final(seeds)@ == band_seeds_in(old(seeds)@, slot, colors as int),
{
    let ghost before = seeds@;
    let mut i: usize = 0;
    while i < NUM_BANDS
        invariant
            i <= NUM_BANDS,
            colors > 0,
            before.len() == NUM_BANDS,
            forall|j: int|
                0 <= j < i ==> seeds@[j] == band_seed_in(before[j], slot, j, colors as int),
            forall|j: int| i <= j < NUM_BANDS ==> seeds@[j] == before[j],
        decreases NUM_BANDS - i,
    {
        seeds[i] = refresh_band_seed(seeds[i], slot, i, colors);
        i = i + 1;
    }
    assert(seeds@ =~= band_seeds_in(before, slot, colors as int));
}

// ---------------------------------------------------------------------------
// Dazzle: one palette color for each key
// ---------------------------------------------------------------------------

/// Whether a key at the given height is the top of a bar.
pub open spec fn bar_top(height: int, lit_rows: int) -> bool {
    height == lit_rows - 1
}

/// The seed of a key after a frame. In dazzle mode it is drawn anew where the key is the top of a bar
/// that was of another height before; `height_before` is that height in rows.
pub open spec fn key_seed_after(
    mode: ColorMode,
    level: BandLevel,
    height_before: usize,
    seed: u64,
    row: int,
) -> u64 {
    if mode == ColorMode::Dazzle && bar_top(height(row), level.lit_rows as int) && level.lit_rows
        != height_before {
        crate::rng::first_draw(seed ^ (level.raw.bits as u64))
    } else {
        seed
    }
}

/// The palette color that the seed of a key draws.
pub open spec fn key_color(palette: PaletteView, seed: u64) -> (u8, u8, u8) {
    palette.colors[crate::rng::first_index(seed, palette.colors.len() as int)]
}

/// Draws the palette color of a key.
fn draw_key_color(palette: &DazzlePalette, seed: u64) -> (r: (u8, u8, u8))
    requires
        palette.colors.len() > 0,
    ensures
        r == key_color(palette@, seed),
{
    let mut rng: SlotRng = SlotRng::new(seed);
    let pick: usize = rng.next_usize(palette.len());
    proof {
        vstd::arithmetic::div_mod::lemma_small_mod(pick as nat, palette.colors@.len());
    }
    palette.pick(pick)
}

// ---------------------------------------------------------------------------
// Frames
// ---------------------------------------------------------------------------

/// The color of a triple.
pub open spec fn rgb(c: (u8, u8, u8)) -> Paint {
    Paint::Rgb(c.0, c.1, c.2)
}

/// What a key shows under the given level, its seed and the seed of its band after the frame.
pub open spec fn key_paint(
    mode: ColorMode,
    palette: PaletteView,
    level: BandLevel,
    key_seed: u64,
    band_seed: u64,
    row: int,
    col: int,
) -> Paint {
    if height(row) >= level.lit_rows {
        Paint::Off
    } else {
        match mode {
            ColorMode::Solid => Paint::Solid { raw: level.raw },
            ColorMode::Gradient => Paint::Gradient {
                hue: column_hues()[col],
                from_bottom: height(row) as usize,
                lit_rows: level.lit_rows,
                raw: level.raw,
            },
            ColorMode::Dazzle => rgb(key_color(palette, key_seed)),
            ColorMode::DazzleBand => rgb(seed_color(palette, band_seed)),
            ColorMode::Spectrum => Paint::Spectrum {
                hue: column_hues()[col],
                from_bottom: height(row) as usize,
                lit_rows: level.lit_rows,
            },
        }
    }
}

/// Everything that the colors of a frame depend on but the seeds.
pub struct Scene {
    pub mode: ColorMode,
    pub columns: Seq<usize>,
    pub palette: PaletteView,
    pub levels: Seq<BandLevel>,
}

impl Scene {
    /// The scene of a configuration and the levels of its bands.
    pub open spec fn of(config: ConfigView, levels: Seq<BandLevel>) -> Scene {
        Scene {
            mode: mode_named(config.color_mode),
            columns: config.active_columns(),
            palette: config.active_colors(),
            levels,
        }
    }

    /// The level that a column shows.
    pub open spec fn level(self, col: int) -> BandLevel {
        self.levels[band_shown(self.columns, col)]
    }

    /// Whether a key is lit: the bar of its column reaches it.
    pub open spec fn lit(self, row: int, col: int) -> bool {
        height(row) < self.level(col).lit_rows
    }

    /// The seed of a key after the frame. The bar of its column had `height_before` rows before.
    pub open spec fn seed_after(
        self,
        height_before: usize,
        seed: u64,
        row: int,
        col: int,
    ) -> u64 {
        key_seed_after(self.mode, self.level(col), height_before, seed, row)
    }

    /// What a key shows, given its seed and the seed of its band after the frame.
    pub open spec fn paint(self, key_seed: u64, band_seed: u64, row: int, col: int) -> Paint {
        key_paint(self.mode, self.palette, self.level(col), key_seed, band_seed, row, col)
    }

    /// Whether a palette color is drawn in this frame.
    pub open spec fn draws(self) -> bool {
        ||| self.mode == ColorMode::DazzleBand
        ||| self.mode == ColorMode::Dazzle && exists|col: int|
            0 <= col < COLS && (#[trigger] self.level(col)).lit_rows > 0
    }
}

/// The band seeds after a frame of the given stretch.
pub open spec fn band_seeds_after(scene: Scene, seeds: Seq<u64>, slot: u32) -> Seq<u64> {
    if scene.mode == ColorMode::DazzleBand {
        band_seeds_in(seeds, slot, scene.palette.colors.len() as int)
    } else {
        seeds
    }
}

/// Whether there is a frame to render: there is a palette and a layout, and the palette has a color
/// where one is drawn.
pub open spec fn renderable(config: ConfigView, levels: Seq<BandLevel>) -> bool {
    &&& config.palettes.len() > 0
    &&& config.layouts.len() > 0
    &&& Scene::of(config, levels).draws() ==> config.active_colors().colors.len() > 0
}

/// Finds out whether there is a frame to render.
pub fn is_renderable(levels: &[BandLevel; NUM_BANDS], config: &AudioConfig) -> (r: bool)
    ensures
        r == renderable(config@, levels@),
{
    if config.palettes.len() == 0 || config.layouts.len() == 0 {
        return false;
    }
    if config.active_palette().len() > 0 {
        return true;
    }
    let ghost scene = Scene::of(config@, levels@);
    match config.mode() {
        ColorMode::DazzleBand => false,
        ColorMode::Dazzle => {
            let layout: &[usize; COLS] = config.active_layout();
            let mut col: usize = 0;
            while col < COLS
                invariant
                    col <= COLS,
                    scene == Scene::of(config@, levels@),
                    scene.columns == layout@,
                    scene.mode == ColorMode::Dazzle,
                    scene.palette.colors.len() == 0,
                    forall|c: int| 0 <= c < col ==> (#[trigger] scene.level(c)).lit_rows == 0,
                decreases COLS - col,
            {
                let band: usize = find_band(layout, col);
                assert(levels@[band as int] == scene.level(col as int));
                if levels[band].lit_rows > 0 {
                    return false;
                }
                col = col + 1;
            }
            true
        },
        _ => true,
    }
}

/// Finds out what a key shows.
fn paint_key(
    mode: ColorMode,
    palette: &DazzlePalette,
    level: BandLevel,
    key_seed: u64,
    band_seed: u64,
    row: usize,
    col: usize,
) -> (r: Paint)
    requires
        row < ROWS,
        col < COLS,
        level.lit_rows > 0 && (mode == ColorMode::Dazzle || mode == ColorMode::DazzleBand)
            ==> palette.colors.len() > 0,
    ensures
        r == key_paint(mode, palette@, level, key_seed, band_seed, row as int, col as int),
{
    let from_bottom: usize = ROWS - 1 - row;
    if from_bottom >= level.lit_rows {
        return Paint::Off;
    }
    match mode {
        ColorMode::Solid => Paint::Solid { raw: level.raw },
        ColorMode::Gradient => Paint::Gradient {
            hue: column_hue(col),
            from_bottom,
            lit_rows: level.lit_rows,
            raw: level.raw,
        },
        ColorMode::Dazzle => {
            let c: (u8, u8, u8) = draw_key_color(palette, key_seed);
            Paint::Rgb(c.0, c.1, c.2)
        },
        ColorMode::DazzleBand => {
            let c: (u8, u8, u8) = palette.pick((band_seed & 0xFFFF_FFFF) as usize);
            Paint::Rgb(c.0, c.1, c.2)
        },
        ColorMode::Spectrum => Paint::Spectrum {
            hue: column_hue(col),
            from_bottom,
            lit_rows: level.lit_rows,
        },
    }
}

/// Renders a column: brings its seeds up to date and puts what its keys show into the frame.
fn render_column(
    mode: ColorMode,
    palette: &DazzlePalette,
    level: BandLevel,
    height_before: usize,
    seeds: [u64; ROWS],
    band_seed: u64,
    col: usize,
    leds: &mut [Paint; MATRIX_LEN],
) -> (r: [u64; ROWS])
    requires
        col < COLS,
        level.lit_rows > 0 && (mode == ColorMode::Dazzle || mode == ColorMode::DazzleBand)
            ==> palette.colors.len() > 0,
    ensures
        forall|row: int|
            0 <= row < ROWS ==> #[trigger] r@[row] == key_seed_after(
                mode,
                level,
                height_before,
                seeds@[row],
                row,
            ),
        forall|row: int|
            0 <= row < ROWS ==> final(leds)@[#[trigger] key_at(row, col as int)] == key_paint(
                mode,
                palette@,
                level,
                r@[row],
                band_seed,
                row,
                col as int,
            ),
        forall|row: int, c: int|
            0 <= row < ROWS && 0 <= c < COLS && c != col ==> final(leds)@[#[trigger] key_at(row, c)]
                == old(leds)@[key_at(row, c)],
{
    let mut r: [u64; ROWS] = seeds;
    let ghost before = leds@;
    let mut row: usize = 0;
    while row < ROWS
        invariant
            row <= ROWS,
            col < COLS,
            level.lit_rows > 0 && (mode == ColorMode::Dazzle || mode == ColorMode::DazzleBand)
                ==> palette.colors.len() > 0,
            forall|j: int|
                0 <= j < row ==> #[trigger] r@[j] == key_seed_after(
                    mode,
                    level,
                    height_before,
                    seeds@[j],
                    j,
                ),
            forall|j: int| row <= j < ROWS ==> #[trigger] r@[j] == seeds@[j],
            forall|j: int|
                0 <= j < row ==> leds@[#[trigger] key_at(j, col as int)] == key_paint(
                    mode,
                    palette@,
                    level,
                    r@[j],
                    band_seed,
                    j,
                    col as int,
                ),
            forall|j: int, c: int|
                0 <= j < ROWS && 0 <= c < COLS && c != col ==> leds@[#[trigger] key_at(j, c)]
                    == before[key_at(j, c)],
        decreases ROWS - row,
    {
        let from_bottom: usize = ROWS - 1 - row;
        if mode == ColorMode::Dazzle && level.lit_rows > 0 && from_bottom == level.lit_rows - 1
            && level.lit_rows != height_before {
            let mut rng: SlotRng = SlotRng::new(r[row] ^ (level.raw.bits as u64));
            r[row] = rng.next();
        }
        let led_idx: usize = row * COLS + col;
        leds[led_idx] = paint_key(mode, palette, level, r[row], band_seed, row, col);
        row = row + 1;
    }
    r
}

/// Renders a frame: brings the seeds up to date and says what every key shows.
pub fn bands_to_frame(
    levels: &[BandLevel; NUM_BANDS],
    config: &AudioConfig,
    dazzle_seeds: &mut [[u64; ROWS]; COLS],
    bar_heights: &mut [usize; COLS],
    band_color_seeds: &mut [u64; NUM_BANDS],
    frame_counter: u32,
) -> (r: [Paint; MATRIX_LEN])
    requires
        renderable(config@, levels@),
    ensures
        ({
            let scene = Scene::of(config@, levels@);
            let slot = slot_of(config@.dazzle_band_frames, frame_counter);
            &&& final(band_color_seeds)@ == band_seeds_after(scene, old(band_color_seeds)@, slot)
            &&& forall|row: int, col: int|
                0 <= row < ROWS && 0 <= col < COLS ==> #[trigger] final(dazzle_seeds)@[col]@[row]
                    == scene.seed_after(
                    old(bar_heights)@[col],
                    old(dazzle_seeds)@[col]@[row],
                    row,
                    col,
                )
            &&& forall|col: int|
                0 <= col < COLS ==> #[trigger] final(bar_heights)@[col] == scene.level(col).lit_rows
            &&& forall|row: int, col: int|
                0 <= row < ROWS && 0 <= col < COLS ==> r@[#[trigger] key_at(row, col)]
                    == scene.paint(
                    final(dazzle_seeds)@[col]@[row],
                    final(band_color_seeds)@[band_shown(scene.columns, col)],
                    row,
                    col,
                )
        }),
{
    let ghost scene = Scene::of(config@, levels@);
    let ghost old_grid = dazzle_seeds@;
    let ghost old_heights = bar_heights@;
    let palette: &DazzlePalette = config.active_palette();
    let layout: &[usize; COLS] = config.active_layout();
    let mode: ColorMode = config.mode();
    if mode == ColorMode::DazzleBand {
        let interval: u32 = if config.dazzle_band_frames < 1 {
            1
        } else {
            config.dazzle_band_frames
        };
        let slot: u32 = frame_counter / interval;
        refresh_band_seeds(band_color_seeds, slot, palette.len());
    }
    let ghost bands_now = band_color_seeds@;
    let mut leds: [Paint; MATRIX_LEN] = [Paint::Off;MATRIX_LEN];
    let mut col: usize = 0;
    while col < COLS
        invariant
            col <= COLS,
            scene == Scene::of(config@, levels@),
            scene.mode == mode,
            scene.columns == layout@,
            scene.palette == palette@,
            scene.draws() ==> palette.colors.len() > 0,
            band_color_seeds@ == bands_now,
            forall|r: int, c: int|
                0 <= r < ROWS && 0 <= c < col ==> #[trigger] dazzle_seeds@[c]@[r]
                    == scene.seed_after(old_heights[c], old_grid[c]@[r], r, c),
            forall|c: int| col <= c < COLS ==> #[trigger] dazzle_seeds@[c] == old_grid[c],
            forall|c: int|
                0 <= c < col ==> #[trigger] bar_heights@[c] == scene.level(c).lit_rows,
            forall|c: int| col <= c < COLS ==> #[trigger] bar_heights@[c] == old_heights[c],
            forall|r: int, c: int|
                0 <= r < ROWS && 0 <= c < col ==> leds@[#[trigger] key_at(r, c)] == scene.paint(
                    dazzle_seeds@[c]@[r],
                    bands_now[band_shown(scene.columns, c)],
                    r,
                    c,
                ),
        decreases COLS - col,
    {
        let band: usize = find_band(layout, col);
        let level: BandLevel = levels[band];
        assert(level == scene.level(col as int));
        dazzle_seeds[col] =
        render_column(
            mode,
            palette,
            level,
            bar_heights[col],
            dazzle_seeds[col],
            band_color_seeds[band],
            col,
            &mut leds,
        );
        bar_heights[col] = level.lit_rows;
        col = col + 1;
    }
    leds
}

// ---------------------------------------------------------------------------
// Frame after frame
// ---------------------------------------------------------------------------

/// The stretch of frames that the band seeds hold before the first frame. It is not that of the first
/// frame, which therefore draws the color of every band.
pub const NO_SLOT: u32 = 0xFFFF_FFFF;

/// The seed of a key before the first frame.
pub open spec fn first_key_seed(row: int, col: int) -> u64 {
    (col * 100 + row) as u64
}

/// The seed of a band before the first frame.
pub open spec fn first_band_seed(band: int) -> u64 {
    0xFFFF_FFFF_0000_0000u64 | (band as u64)
}

/// What one frame hands on to the next.
#[derive(Clone, Debug)]
pub struct Animation {
    /// The seeds of the keys, by column and row.
    pub dazzle_seeds: [[u64; ROWS]; COLS],
    /// The heights of the bars in the last frame, in rows.
    pub bar_heights: [usize; COLS],
    /// The seeds of the bands: the stretch of frames in the high half, the palette index in the low.
    pub band_color_seeds: [u64; NUM_BANDS],
    /// The number of the next frame.
    pub frame_counter: u32,
}

fn first_column_seeds(col: usize) -> (r: [u64; ROWS])
    requires
        col < COLS,
    ensures
        forall|row: int| 0 <= row < ROWS ==> #[trigger] r@[row] == first_key_seed(row, col as int),
{
    let mut r: [u64; ROWS] = [0;ROWS];
    let mut row: usize = 0;
    while row < ROWS
        invariant
            row <= ROWS,
            col < COLS,
            forall|j: int| 0 <= j < row ==> #[trigger] r@[j] == first_key_seed(j, col as int),
        decreases ROWS - row,
    {
        r[row] = (col * 100 + row) as u64;
        row = row + 1;
    }
    r
}

impl Animation {
    /// The state before the first frame.
    pub fn new() -> (r: Self)
        ensures
            forall|row: int, col: int|
                0 <= row < ROWS && 0 <= col < COLS ==> #[trigger] r.dazzle_seeds@[col]@[row]
                    == first_key_seed(row, col),
            forall|col: int| 0 <= col < COLS ==> #[trigger] r.bar_heights@[col] == 0,
            forall|band: int|
                0 <= band < NUM_BANDS ==> #[trigger] r.band_color_seeds@[band] == first_band_seed(
                    band,
                ),
            r.frame_counter == 0,
            forall|row: int, col: int|
                0 <= row < 6 && 0 <= col < 16 ==> #[trigger] r.dazzle_seeds@[col]@[row] == 100 * col
                    + row,
            forall|band: int|
                0 <= band < 8 ==> #[trigger] r.band_color_seeds@[band] == 0xFFFF_FFFFint
                    * 0x1_0000_0000 + band,
    {
        let mut dazzle_seeds: [[u64; ROWS]; COLS] = [[0;ROWS];COLS];
        let mut col: usize = 0;
        while col < COLS
            invariant
                col <= COLS,
                forall|r: int, c: int|
                    0 <= r < ROWS && 0 <= c < col ==> #[trigger] dazzle_seeds@[c]@[r]
                        == first_key_seed(r, c),
            decreases COLS - col,
        {
            dazzle_seeds[col] = first_column_seeds(col);
            col = col + 1;
        }
        let mut band_color_seeds: [u64; NUM_BANDS] = [0;NUM_BANDS];
        let mut i: usize = 0;
        while i < NUM_BANDS
            invariant
                i <= NUM_BANDS,
                forall|j: int|
                    0 <= j < i ==> #[trigger] band_color_seeds@[j] == first_band_seed(j),
            decreases NUM_BANDS - i,
        {
            band_color_seeds[i] = 0xFFFF_FFFF_0000_0000u64 | (i as u64);
            i = i + 1;
        }
        proof {
            assert forall|row: int, col: int| 0 <= row < 6 && 0 <= col < 16 implies
                #[trigger] dazzle_seeds@[col]@[row] == 100 * col + row by {
                crate::frame_laws::first_seeds(row, col, 0);
            }
            assert forall|band: int| 0 <= band < 8 implies #[trigger] band_color_seeds@[band]
                == 0xFFFF_FFFFint * 0x1_0000_0000 + band by {
                crate::frame_laws::first_seeds(0, 0, band);
            }
        }
        Animation { dazzle_seeds, bar_heights: [0;COLS], band_color_seeds, frame_counter: 0 }
    }

    /// Renders the next frame.
    pub fn next_frame(&mut self, levels: &[BandLevel; NUM_BANDS], config: &AudioConfig) -> (r: [Paint;
        MATRIX_LEN])
        requires
            renderable(config@, levels@),
        ensures
            ({
                let scene = Scene::of(config@, levels@);
                let slot = slot_of(config@.dazzle_band_frames, old(self).frame_counter);
                &&& final(self).frame_counter == (old(self).frame_counter + 1) % 0x1_0000_0000
                &&& final(self).band_color_seeds@ == band_seeds_after(
                    scene,
                    old(self).band_color_seeds@,
                    slot,
                )
                &&& forall|row: int, col: int|
                    0 <= row < ROWS && 0 <= col < COLS
                        ==> #[trigger] final(self).dazzle_seeds@[col]@[row] == scene.seed_after(
                        old(self).bar_heights@[col],
                        old(self).dazzle_seeds@[col]@[row],
                        row,
                        col,
                    )
                &&& forall|col: int|
                    0 <= col < COLS ==> #[trigger] final(self).bar_heights@[col] == scene.level(
                        col,
                    ).lit_rows
                &&& forall|row: int, col: int|
                    0 <= row < ROWS && 0 <= col < COLS ==> r@[#[trigger] key_at(row, col)]
                        == scene.paint(
                        final(self).dazzle_seeds@[col]@[row],
                        final(self).band_color_seeds@[band_shown(scene.columns, col)],
                        row,
                        col,
                    )
            }),
            old(self).frame_counter < u32::MAX ==> final(self).frame_counter == old(self).frame_counter + 1,
            forall|l: int, row: int, col: int|
                crate::frame_laws::layout_is_active(config@, l) && 0 <= row < 6 && 0 <= col < 16
                    ==> #[trigger] crate::frame_laws::shows_the_bar(
                    config@,
                    levels@,
                    l,
                    r@,
                    row,
                    col,
                ),
            forall|l: int, p: int, row: int, col: int|
                crate::frame_laws::layout_is_active(config@, l)
                    && crate::frame_laws::palette_is_active(config@, p)
                    && config@.palettes[p].colors.len() > 0 && 0 <= row < 6 && 0 <= col < 16
                    ==> #[trigger] crate::frame_laws::shows_the_palette(
                    config@,
                    levels@,
                    l,
                    p,
                    r@,
                    final(self).dazzle_seeds@[col]@[row],
                    final(self).band_color_seeds@,
                    row,
                    col,
                ),
            forall|l: int, row: int, col: int|
                crate::frame_laws::layout_is_active(config@, l) && 0 <= row < 6 && 0 <= col < 16
                    ==> #[trigger] crate::frame_laws::seed_is_up_to_date(
                    config@,
                    levels@,
                    l,
                    old(self).bar_heights@[col],
                    old(self).dazzle_seeds@[col]@[row],
                    final(self).dazzle_seeds@[col]@[row],
                    row,
                    col,
                ),
            forall|l: int, col: int|
                crate::frame_laws::layout_is_active(config@, l) && 0 <= col < 16 ==> final(self).bar_heights@[col] == (#[trigger] crate::frame_laws::shown(
                    config@,
                    levels@,
                    l,
                    col,
                )).lit_rows,
    {
        let counter: u32 = self.frame_counter;
        let leds: [Paint; MATRIX_LEN] = bands_to_frame(
            levels,
            config,
            &mut self.dazzle_seeds,
            &mut self.bar_heights,
            &mut self.band_color_seeds,
            counter,
        );
        self.frame_counter = counter.wrapping_add(1);
        proof {
            assert forall|l: int, row: int, col: int|
                crate::frame_laws::layout_is_active(config@, l) && 0 <= row < 6 && 0 <= col
                    < 16 implies #[trigger] crate::frame_laws::shows_the_bar(
                config@,
                levels@,
                l,
                leds@,
                row,
                col,
            ) by {
                crate::frame_laws::keys_are_placed_row_by_row(row, col);
                crate::frame_laws::columns_show_their_bands(config@, levels@, l, row, col);
                crate::frame_laws::modes_go_by_their_names(config@.color_mode);
                assert(column_hues() =~= crate::frame_laws::hues());
            }
            assert forall|l: int, p: int, row: int, col: int|
                crate::frame_laws::layout_is_active(config@, l)
                    && crate::frame_laws::palette_is_active(config@, p)
                    && config@.palettes[p].colors.len() > 0 && 0 <= row < 6 && 0 <= col
                    < 16 implies #[trigger] crate::frame_laws::shows_the_palette(
                config@,
                levels@,
                l,
                p,
                leds@,
                self.dazzle_seeds@[col]@[row],
                self.band_color_seeds@,
                row,
                col,
            ) by {
                let key_seed = self.dazzle_seeds@[col]@[row];
                let band = band_shown(Scene::of(config@, levels@).columns, col);
                let band_seed = self.band_color_seeds@[band];
                crate::frame_laws::keys_are_placed_row_by_row(row, col);
                crate::frame_laws::columns_show_their_bands(config@, levels@, l, row, col);
                if config@.color_mode == "dazzle"@ {
                    crate::frame_laws::dazzle_shows_the_drawn_color(
                        config@,
                        levels@,
                        l,
                        p,
                        key_seed,
                        band_seed,
                        row,
                        col,
                    );
                }
                if config@.color_mode == "dazzleband"@ {
                    crate::frame_laws::dazzleband_shows_the_color_of_the_band(
                        config@,
                        levels@,
                        l,
                        p,
                        key_seed,
                        band_seed,
                        row,
                        col,
                    );
                }
            }
            assert forall|l: int, row: int, col: int|
                crate::frame_laws::layout_is_active(config@, l) && 0 <= row < 6 && 0 <= col
                    < 16 implies #[trigger] crate::frame_laws::seed_is_up_to_date(
                config@,
                levels@,
                l,
                old(self).bar_heights@[col],
                old(self).dazzle_seeds@[col]@[row],
                self.dazzle_seeds@[col]@[row],
                row,
                col,
            ) by {
                crate::frame_laws::top_key_is_drawn_anew_when_the_top_moves(
                    config@,
                    levels@,
                    l,
                    old(self).bar_heights@[col],
                    old(self).dazzle_seeds@[col]@[row],
                    row,
                    col,
                );
            }
            assert forall|l: int, col: int|
                crate::frame_laws::layout_is_active(config@, l) && 0 <= col
                    < 16 implies self.bar_heights@[col] == (#[trigger] crate::frame_laws::shown(
                config@,
                levels@,
                l,
                col,
            )).lit_rows by {
                crate::frame_laws::columns_show_their_bands(config@, levels@, l, 0, col);
            }
        }
        leds
    }
}

// ---------------------------------------------------------------------------
// Laws
// ---------------------------------------------------------------------------

/// Rows and columns count the places of the frame off: every place is that of one key.
pub proof fn every_place_is_a_key(place: int)
    requires
        0 <= place < MATRIX_LEN,
    ensures
        0 <= place / (COLS as int) < ROWS,
        0 <= place % (COLS as int) < COLS,
        key_at(place / (COLS as int), place % (COLS as int)) == place,
{
}

/// A usable configuration has all that a frame needs, whatever the levels, and its layout is shown
/// as it stands.
pub proof fn well_formed_config_renders(config: ConfigView)
    requires
        config.well_formed(),
    ensures
        forall|levels: Seq<BandLevel>| #[trigger] renderable(config, levels),
        forall|col: int|
            0 <= col < COLS ==> #[trigger] band_shown(config.active_columns(), col)
                == config.active_columns()[col],
{
    crate::names::first_named_is_first(
        crate::palette::palette_names(config.palettes),
        config.dazzle_palette,
    );
    crate::names::first_named_is_first(
        crate::config::layout_names(config.layouts),
        config.layout,
    );
    let l = crate::names::chosen(crate::config::layout_names(config.layouts), config.layout);
    assert(crate::config::valid_columns(config.layouts[l].1));
}

/// A bar grows from the bottom row: below a lit key every key is lit.
pub proof fn bars_grow_from_the_bottom(scene: Scene, row: int, below: int, col: int)
    requires
        row <= below < ROWS,
        scene.lit(row, col),
    ensures
        scene.lit(below, col),
{
}

/// A key is off exactly where the bar does not reach it.
pub proof fn off_is_out_of_reach(scene: Scene, key_seed: u64, band_seed: u64, row: int, col: int)
    ensures
        scene.paint(key_seed, band_seed, row, col) == Paint::Off <==> !scene.lit(row, col),
{
}

/// In dazzleband mode all lit keys of the columns that show one band have the same color.
pub proof fn columns_of_a_band_share_a_color(
    scene: Scene,
    key_seed1: u64,
    key_seed2: u64,
    band_seeds: Seq<u64>,
    row1: int,
    col1: int,
    row2: int,
    col2: int,
)
    requires
        scene.mode == ColorMode::DazzleBand,
        band_shown(scene.columns, col1) == band_shown(scene.columns, col2),
        scene.lit(row1, col1),
        scene.lit(row2, col2),
    ensures
        scene.paint(key_seed1, band_seeds[band_shown(scene.columns, col1)], row1, col1)
            == scene.paint(key_seed2, band_seeds[band_shown(scene.columns, col2)], row2, col2),
{
}

/// A drawn band seed holds the stretch of frames it was drawn for and an index of the palette.
pub proof fn drawn_seed_halves(slot: u32, index: u64)
    requires
        index < 0x1_0000_0000,
    ensures
        seed_slot(((slot as u64) << 32) | index) == slot,
        seed_index(((slot as u64) << 32) | index) == index,
{
    assert((((slot as u64) << 32) | index) >> 32 == slot as u64) by (bit_vector)
        requires
            index < 0x1_0000_0000,
    ;
    assert((((slot as u64) << 32) | index) & 0xFFFF_FFFF == index) by (bit_vector)
        requires
            index < 0x1_0000_0000,
    ;
}

/// In dazzleband mode a stretch of frames keeps its colors: once the seeds have been brought up to
/// the stretch, further frames of it leave them as they are. A palette index has 32 bits to live in.
pub proof fn colors_hold_within_a_slot(seeds: Seq<u64>, slot: u32, colors: int)
    requires
        0 < colors <= 0x1_0000_0000,
    ensures
        band_seeds_in(band_seeds_in(seeds, slot, colors), slot, colors) == band_seeds_in(
            seeds,
            slot,
            colors,
        ),
        forall|i: int|
            0 <= i < seeds.len() ==> seed_slot(#[trigger] band_seeds_in(seeds, slot, colors)[i])
                == slot,
{
    let once = band_seeds_in(seeds, slot, colors);
    assert forall|i: int| 0 <= i < seeds.len() implies seed_slot(#[trigger] once[i]) == slot by {
        if seed_slot(seeds[i]) != slot {
            let index = crate::rng::first_index(band_draw_seed(seeds[i], slot, i), colors);
            assert(0 <= index < colors);
            drawn_seed_halves(slot, index as u64);
        }
    }
    assert(band_seeds_in(once, slot, colors) =~= once);
}

/// In dazzleband mode a key that is lit in two frames of one stretch has the same color in both.
pub proof fn key_keeps_its_band_color(
    one: Scene,
    next: Scene,
    seeds: Seq<u64>,
    slot: u32,
    key_seed1: u64,
    key_seed2: u64,
    row: int,
    col: int,
)
    requires
        one.mode == ColorMode::DazzleBand,
        next.mode == ColorMode::DazzleBand,
        one.palette == next.palette,
        one.columns == next.columns,
        0 < one.palette.colors.len() <= 0x1_0000_0000,
        one.lit(row, col),
        next.lit(row, col),
    ensures
        ({
            let colors = one.palette.colors.len() as int;
            let after_one = band_seeds_in(seeds, slot, colors);
            let after_next = band_seeds_in(after_one, slot, colors);
            one.paint(key_seed1, after_one[band_shown(one.columns, col)], row, col) == next.paint(
                key_seed2,
                after_next[band_shown(next.columns, col)],
                row,
                col,
            )
        }),
{
    colors_hold_within_a_slot(seeds, slot, one.palette.colors.len() as int);
}

/// In dazzleband mode the frames of another stretch draw the colors anew: the seed then holds that
/// stretch and the index drawn for it.
pub proof fn colors_are_drawn_anew_in_another_slot(seed: u64, slot: u32, band: int, colors: int)
    requires
        seed_slot(seed) != slot,
        0 < colors <= 0x1_0000_0000,
    ensures
        seed_slot(band_seed_in(seed, slot, band, colors)) == slot,
        seed_index(band_seed_in(seed, slot, band, colors)) == crate::rng::first_index(
            band_draw_seed(seed, slot, band),
            colors,
        ),
{
    let index = crate::rng::first_index(band_draw_seed(seed, slot, band), colors);
    assert(0 <= index < colors);
    drawn_seed_halves(slot, index as u64);
}

/// Every stretch has the configured number of frames: frame `slot * frames + k` belongs to it for
/// every `k` below that number.
pub proof fn slots_have_the_configured_length(frames: u32, slot: int, k: int)
    requires
        frames > 0,
        0 <= slot,
        0 <= k < frames,
        slot * frames + k <= u32::MAX,
    ensures
        slot_of(frames, (slot * frames + k) as u32) == slot,
{
    vstd::arithmetic::div_mod::lemma_fundamental_div_mod_converse(
        slot * frames + k,
        frames as int,
        slot,
        k,
    );
}

/// The first frame draws a color for every band: the seeds before it belong to no stretch.
pub proof fn first_frame_draws_every_band(frames: u32, band: int, colors: int)
    requires
        0 <= band < NUM_BANDS,
        0 < colors <= 0x1_0000_0000,
    ensures
        seed_slot(first_band_seed(band)) == NO_SLOT,
        seed_slot(band_seed_in(first_band_seed(band), slot_of(frames, 0), band, colors)) == 0,
        seed_index(band_seed_in(first_band_seed(band), slot_of(frames, 0), band, colors))
            == crate::rng::first_index(band_draw_seed(first_band_seed(band), 0, band), colors),
{
    let b = band as u64;
    assert((0xFFFF_FFFF_0000_0000u64 | b) >> 32 == 0xFFFF_FFFFu64) by (bit_vector)
        requires
            b < 8,
    ;
    let index = crate::rng::first_index(band_draw_seed(first_band_seed(band), 0, band), colors);
    assert(0 <= index < colors);
    drawn_seed_halves(0, index as u64);
    assert(slot_of(frames, 0) == 0) by {
        if frames > 0 {
            vstd::arithmetic::div_mod::lemma_div_basics(frames as int);
        }
    }
}

/// In dazzle mode a key that is lit in two frames in a row keeps its color, unless it is the top of a
/// bar whose height has changed.
pub proof fn key_keeps_its_color_until_the_top_moves(
    one: Scene,
    next: Scene,
    height_before: usize,
    seed: u64,
    band_seed: u64,
    row: int,
    col: int,
)
    requires
        one.mode == ColorMode::Dazzle,
        next.mode == ColorMode::Dazzle,
        one.palette == next.palette,
        one.lit(row, col),
        next.lit(row, col),
        bar_top(height(row), next.level(col).lit_rows as int) ==> next.level(col).lit_rows
            == one.level(col).lit_rows,
    ensures
        ({
            let after_one = one.seed_after(height_before, seed, row, col);
            let after_next = next.seed_after(one.level(col).lit_rows, after_one, row, col);
            &&& after_next == after_one
            &&& next.paint(after_next, band_seed, row, col) == one.paint(
                after_one,
                band_seed,
                row,
                col,
            )
        }),
{
}

/// A second frame with the same levels and configuration, in the same stretch of frames, equals the
/// first: no seed changes, and every key shows what it showed. A palette index has 32 bits to live in.
pub proof fn same_levels_give_the_same_frame(
    scene: Scene,
    height_before: usize,
    key_seed: u64,
    band_seeds: Seq<u64>,
    slot: u32,
    row: int,
    col: int,
)
    requires
        scene.mode == ColorMode::DazzleBand ==> 0 < scene.palette.colors.len() <= 0x1_0000_0000,
    ensures
        ({
            let key_one = scene.seed_after(height_before, key_seed, row, col);
            let key_two = scene.seed_after(scene.level(col).lit_rows, key_one, row, col);
            let bands_one = band_seeds_after(scene, band_seeds, slot);
            let bands_two = band_seeds_after(scene, bands_one, slot);
            let band = band_shown(scene.columns, col);
            &&& key_two == key_one
            &&& bands_two == bands_one
            &&& scene.paint(key_two, bands_two[band], row, col) == scene.paint(
                key_one,
                bands_one[band],
                row,
                col,
            )
        }),
{
    if scene.mode == ColorMode::DazzleBand {
        colors_hold_within_a_slot(band_seeds, slot, scene.palette.colors.len() as int);
    }
}

/// The dazzle modes show colors of the palette.
pub proof fn dazzle_shows_palette_colors(
    scene: Scene,
    key_seed: u64,
    band_seed: u64,
    row: int,
    col: int,
)
    requires
        scene.mode == ColorMode::Dazzle || scene.mode == ColorMode::DazzleBand,
        scene.palette.colors.len() > 0,
        scene.lit(row, col),
    ensures
        exists|i: int|
            0 <= i < scene.palette.colors.len() && scene.paint(key_seed, band_seed, row, col)
                == rgb(#[trigger] scene.palette.colors[i]),
{
    let n = scene.palette.colors.len() as int;
    let a = crate::rng::first_index(key_seed, n);
    let b = seed_index(band_seed) as int % n;
    assert(0 <= a < n && 0 <= b < n);
    if scene.mode == ColorMode::Dazzle {
        assert(scene.paint(key_seed, band_seed, row, col) == rgb(scene.palette.colors[a]));
    } else {
        assert(scene.paint(key_seed, band_seed, row, col) == rgb(scene.palette.colors[b]));
    }
}

/// Only dazzle mode changes the seeds of the keys, and there only at the top of a bar whose height has
/// changed.
pub proof fn key_seeds_change_where_a_top_moves(
    scene: Scene,
    height_before: usize,
    seed: u64,
    row: int,
    col: int,
)
    requires
        scene.mode != ColorMode::Dazzle || !bar_top(
            height(row),
            scene.level(col).lit_rows as int,
        ) || scene.level(col).lit_rows == height_before,
    ensures
        scene.seed_after(height_before, seed, row, col) == seed,
{
}

/// The hues of the columns run in one direction, from bass to treble, and stay within a turn.
pub proof fn hues_ascend(left: int, right: int)
    requires
        0 <= left < right < COLS,
    ensures
        column_hues()[left] < column_hues()[right] < 360,
{
}

} // verus!
