//! Reading a configuration file a second time changes nothing.
use crate::config::{ConfigView, FrequencySetView, COLS, NUM_BANDS};
use crate::entry::{EntryView, LineView};
use crate::palette::PaletteView;
use crate::single::Single;
use crate::text::Trim;
use vstd::prelude::*;

verus! {

// ---------------------------------------------------------------------------
// Lists
// ---------------------------------------------------------------------------

/// Names of frequency sets after one of them was set.
proof fn set_names_after(
    list: Seq<FrequencySetView>,
    name: Seq<char>,
    v: Seq<(Single, Single, Single)>,
)
    ensures
        ({
            let before = crate::config::set_names(list);
            let after = crate::config::set_names(crate::load::with_set(list, name, v));
            if crate::names::first_named(before, name) < before.len() {
                after == before
            } else {
                after == before.push(name)
            }
        }),
{
    let before = crate::config::set_names(list);
    let after = crate::config::set_names(crate::load::with_set(list, name, v));
    crate::names::first_named_is_first(before, name);
    if crate::names::first_named(before, name) < before.len() {
        assert(after =~= before);
    } else {
        assert(after =~= before.push(name));
    }
}

/// Of two settings of one name among the frequency sets the second counts.
proof fn set_overwritten(
    list: Seq<FrequencySetView>,
    name: Seq<char>,
    v: Seq<(Single, Single, Single)>,
    u: Seq<(Single, Single, Single)>,
)
    ensures
        ({
            let once = crate::load::with_set(list, name, v);
            crate::load::with_set(once, name, u) == crate::load::with_set(list, name, u)
        }),
{
    let before = crate::config::set_names(list);
    set_names_after(list, name, v);
    if crate::names::first_named(before, name) >= before.len() {
        crate::load_laws::new_name_is_last(before, name);
    }
    let once = crate::load::with_set(list, name, v);
    assert(crate::load::with_set(once, name, u) =~= crate::load::with_set(list, name, u));
}

/// Settings of two names among the frequency sets may change places where the first name is there
/// already.
proof fn sets_commute(
    list: Seq<FrequencySetView>,
    name: Seq<char>,
    v: Seq<(Single, Single, Single)>,
    other: Seq<char>,
    u: Seq<(Single, Single, Single)>,
)
    requires
        name != other,
        crate::names::first_named(crate::config::set_names(list), name) < list.len(),
    ensures
        ({
            let first = crate::load::with_set(list, name, v);
            let second = crate::load::with_set(list, other, u);
            crate::load::with_set(first, other, u) == crate::load::with_set(second, name, v)
        }),
        crate::names::first_named(
            crate::config::set_names(crate::load::with_set(list, other, u)),
            name,
        ) < crate::load::with_set(list, other, u).len(),
{
    let before = crate::config::set_names(list);
    set_names_after(list, name, v);
    set_names_after(list, other, u);
    crate::names::first_named_is_first(before, name);
    crate::names::first_named_is_first(before, other);
    crate::load_laws::place_is_kept(before, name, other);
    let first = crate::load::with_set(list, name, v);
    let second = crate::load::with_set(list, other, u);
    assert(crate::load::with_set(first, other, u) =~= crate::load::with_set(second, name, v));
}

/// Names of layouts after one of them was set.
proof fn layout_names_after(
    list: Seq<(Seq<char>, Seq<usize>)>,
    name: Seq<char>,
    v: Seq<usize>,
)
    ensures
        ({
            let before = crate::config::layout_names(list);
            let after = crate::config::layout_names(crate::load::with_layout(list, name, v));
            if crate::names::first_named(before, name) < before.len() {
                after == before
            } else {
                after == before.push(name)
            }
        }),
{
    let before = crate::config::layout_names(list);
    let after = crate::config::layout_names(crate::load::with_layout(list, name, v));
    crate::names::first_named_is_first(before, name);
    if crate::names::first_named(before, name) < before.len() {
        assert(after =~= before);
    } else {
        assert(after =~= before.push(name));
    }
}

/// Of two settings of one name among the layouts the second counts.
proof fn layout_overwritten(
    list: Seq<(Seq<char>, Seq<usize>)>,
    name: Seq<char>,
    v: Seq<usize>,
    u: Seq<usize>,
)
    ensures
        ({
            let once = crate::load::with_layout(list, name, v);
            crate::load::with_layout(once, name, u) == crate::load::with_layout(list, name, u)
        }),
{
    let before = crate::config::layout_names(list);
    layout_names_after(list, name, v);
    if crate::names::first_named(before, name) >= before.len() {
        crate::load_laws::new_name_is_last(before, name);
    }
    let once = crate::load::with_layout(list, name, v);
    assert(crate::load::with_layout(once, name, u) =~= crate::load::with_layout(list, name, u));
}

/// Settings of two names among the layouts may change places where the first name is there
/// already.
proof fn layouts_commute(
    list: Seq<(Seq<char>, Seq<usize>)>,
    name: Seq<char>,
    v: Seq<usize>,
    other: Seq<char>,
    u: Seq<usize>,
)
    requires
        name != other,
        crate::names::first_named(crate::config::layout_names(list), name) < list.len(),
    ensures
        ({
            let first = crate::load::with_layout(list, name, v);
            let second = crate::load::with_layout(list, other, u);
            crate::load::with_layout(first, other, u) == crate::load::with_layout(second, name, v)
        }),
        crate::names::first_named(
            crate::config::layout_names(crate::load::with_layout(list, other, u)),
            name,
        ) < crate::load::with_layout(list, other, u).len(),
{
    let before = crate::config::layout_names(list);
    layout_names_after(list, name, v);
    layout_names_after(list, other, u);
    crate::names::first_named_is_first(before, name);
    crate::names::first_named_is_first(before, other);
    crate::load_laws::place_is_kept(before, name, other);
    let first = crate::load::with_layout(list, name, v);
    let second = crate::load::with_layout(list, other, u);
    assert(crate::load::with_layout(first, other, u) =~= crate::load::with_layout(second, name, v));
}

/// Names of palettes after one of them was set.
proof fn palette_names_after(
    list: Seq<PaletteView>,
    name: Seq<char>,
    v: Seq<(u8, u8, u8)>,
)
    ensures
        ({
            let before = crate::palette::palette_names(list);
            let after = crate::palette::palette_names(crate::load::with_palette(list, name, v));
            if crate::names::first_named(before, name) < before.len() {
                after == before
            } else {
                after == before.push(name)
            }
        }),
{
    let before = crate::palette::palette_names(list);
    let after = crate::palette::palette_names(crate::load::with_palette(list, name, v));
    crate::names::first_named_is_first(before, name);
    if crate::names::first_named(before, name) < before.len() {
        assert(after =~= before);
    } else {
        assert(after =~= before.push(name));
    }
}

/// Of two settings of one name among the palettes the second counts.
proof fn palette_overwritten(
    list: Seq<PaletteView>,
    name: Seq<char>,
    v: Seq<(u8, u8, u8)>,
    u: Seq<(u8, u8, u8)>,
)
    ensures
        ({
            let once = crate::load::with_palette(list, name, v);
            crate::load::with_palette(once, name, u) == crate::load::with_palette(list, name, u)
        }),
{
    let before = crate::palette::palette_names(list);
    palette_names_after(list, name, v);
    if crate::names::first_named(before, name) >= before.len() {
        crate::load_laws::new_name_is_last(before, name);
    }
    let once = crate::load::with_palette(list, name, v);
    assert(crate::load::with_palette(once, name, u) =~= crate::load::with_palette(list, name, u));
}

/// Settings of two names among the palettes may change places where the first name is there
/// already.
proof fn palettes_commute(
    list: Seq<PaletteView>,
    name: Seq<char>,
    v: Seq<(u8, u8, u8)>,
    other: Seq<char>,
    u: Seq<(u8, u8, u8)>,
)
    requires
        name != other,
        crate::names::first_named(crate::palette::palette_names(list), name) < list.len(),
    ensures
        ({
            let first = crate::load::with_palette(list, name, v);
            let second = crate::load::with_palette(list, other, u);
            crate::load::with_palette(first, other, u) == crate::load::with_palette(second, name, v)
        }),
        crate::names::first_named(
            crate::palette::palette_names(crate::load::with_palette(list, other, u)),
            name,
        ) < crate::load::with_palette(list, other, u).len(),
{
    let before = crate::palette::palette_names(list);
    palette_names_after(list, name, v);
    palette_names_after(list, other, u);
    crate::names::first_named_is_first(before, name);
    crate::names::first_named_is_first(before, other);
    crate::load_laws::place_is_kept(before, name, other);
    let first = crate::load::with_palette(list, name, v);
    let second = crate::load::with_palette(list, other, u);
    assert(crate::load::with_palette(first, other, u) =~= crate::load::with_palette(second, name, v));
}

// ---------------------------------------------------------------------------
// Settings
// ---------------------------------------------------------------------------

/// Whether a setting has an effect at all.
spec fn effective(e: EntryView, numbers: Seq<Option<Single>>) -> bool {
    match e {
        EntryView::Number { .. } => numbers[0] is Some,
        EntryView::Count { amount, .. } => amount is Some,
        EntryView::FreqSet { .. } => crate::load::readable(numbers).len() == 3 * NUM_BANDS,
        EntryView::Layout { columns, .. } => columns.len() == COLS,
        EntryView::Palette { colors, .. } => colors.len() > 0,
        _ => true,
    }
}

/// Whether two settings are about the same thing.
spec fn same_target(a: EntryView, b: EntryView) -> bool {
    match (a, b) {
        (EntryView::Text { key: j, .. }, EntryView::Text { key: k, .. }) => j == k,
        (EntryView::Number { number: j, .. }, EntryView::Number { number: k, .. }) => j == k,
        (EntryView::Count { count: j, .. }, EntryView::Count { count: k, .. }) => j == k,
        (EntryView::Sensitivity { band: j, .. }, EntryView::Sensitivity { band: k, .. }) => j == k,
        (EntryView::Smoothing { band: j, .. }, EntryView::Smoothing { band: k, .. }) => j == k,
        (EntryView::FreqSet { name: j, .. }, EntryView::FreqSet { name: k, .. }) => j == k,
        (EntryView::Layout { name: j, .. }, EntryView::Layout { name: k, .. }) => j == k,
        (EntryView::Palette { name: j, .. }, EntryView::Palette { name: k, .. }) => j == k,
        _ => false,
    }
}

/// Whether what a setting is about is there already.
spec fn present(c: ConfigView, e: EntryView) -> bool {
    match e {
        EntryView::FreqSet { name, .. } => crate::names::first_named(
            crate::config::set_names(c.freq_sets),
            name,
        ) < c.freq_sets.len(),
        EntryView::Layout { name, .. } => crate::names::first_named(
            crate::config::layout_names(c.layouts),
            name,
        ) < c.layouts.len(),
        EntryView::Palette { name, .. } => crate::names::first_named(
            crate::palette::palette_names(c.palettes),
            name,
        ) < c.palettes.len(),
        _ => true,
    }
}

/// Whether there is one sensitivity and one smoothing for each band.
spec fn bands_complete(c: ConfigView) -> bool {
    c.band_sensitivity.len() == NUM_BANDS && c.band_smoothing.len() == NUM_BANDS
}

/// Of two settings about the same thing the second counts, if it has an effect.
proof fn overwritten(
    c: ConfigView,
    a: EntryView,
    m: Seq<Option<Single>>,
    b: EntryView,
    n: Seq<Option<Single>>,
)
    requires
        same_target(a, b),
        effective(b, n),
        crate::load::band_exists(a),
        crate::load::band_exists(b),
        bands_complete(c),
    ensures
        crate::load::applied(crate::load::applied(c, a, m), b, n) == crate::load::applied(c, b, n),
{
    match (a, b) {
        (EntryView::FreqSet { name, .. }, EntryView::FreqSet { .. }) => {
            let v = crate::load::by_threes(crate::load::readable(m));
            let u = crate::load::by_threes(crate::load::readable(n));
            set_overwritten(c.freq_sets, name, v, u);
        },
        (
            EntryView::Layout { name, columns: v },
            EntryView::Layout { columns: u, .. },
        ) => {
            layout_overwritten(
                c.layouts,
                name,
                crate::load::clamped(v),
                crate::load::clamped(u),
            );
        },
        (EntryView::Palette { name, colors: v }, EntryView::Palette { colors: u, .. }) => {
            palette_overwritten(c.palettes, name, v, u);
        },
        (EntryView::Sensitivity { .. }, EntryView::Sensitivity { .. }) => {
            let first = crate::load::applied(c, a, m);
            assert(crate::load::applied(first, b, n).band_sensitivity =~= crate::load::applied(
                c,
                b,
                n,
            ).band_sensitivity);
        },
        (EntryView::Smoothing { .. }, EntryView::Smoothing { .. }) => {
            let first = crate::load::applied(c, a, m);
            assert(crate::load::applied(first, b, n).band_smoothing =~= crate::load::applied(
                c,
                b,
                n,
            ).band_smoothing);
        },
        _ => {},
    }
}

/// Settings about two things may change places where what the first is about is there already.
proof fn commute(
    c: ConfigView,
    a: EntryView,
    m: Seq<Option<Single>>,
    b: EntryView,
    n: Seq<Option<Single>>,
)
    requires
        !same_target(a, b) || !effective(b, n),
        present(c, a),
        crate::load::band_exists(a),
        crate::load::band_exists(b),
        bands_complete(c),
    ensures
        crate::load::applied(crate::load::applied(c, a, m), b, n) == crate::load::applied(
            crate::load::applied(c, b, n),
            a,
            m,
        ),
        present(crate::load::applied(c, b, n), a),
{
    match (a, b) {
        (EntryView::FreqSet { name, .. }, EntryView::FreqSet { name: other, .. }) => {
            if effective(b, n) {
                let v = crate::load::by_threes(crate::load::readable(m));
                let u = crate::load::by_threes(crate::load::readable(n));
                sets_commute(c.freq_sets, name, v, other, u);
            }
        },
        (
            EntryView::Layout { name, columns: v },
            EntryView::Layout { name: other, columns: u },
        ) => {
            if effective(b, n) {
                layouts_commute(
                    c.layouts,
                    name,
                    crate::load::clamped(v),
                    other,
                    crate::load::clamped(u),
                );
            }
        },
        (
            EntryView::Palette { name, colors: v },
            EntryView::Palette { name: other, colors: u },
        ) => {
            if effective(b, n) {
                palettes_commute(c.palettes, name, v, other, u);
            }
        },
        (EntryView::Sensitivity { .. }, EntryView::Sensitivity { .. }) => {
            let first = crate::load::applied(c, a, m);
            let second = crate::load::applied(c, b, n);
            assert(crate::load::applied(first, b, n).band_sensitivity =~= crate::load::applied(
                second,
                a,
                m,
            ).band_sensitivity);
        },
        (EntryView::Smoothing { .. }, EntryView::Smoothing { .. }) => {
            let first = crate::load::applied(c, a, m);
            let second = crate::load::applied(c, b, n);
            assert(crate::load::applied(first, b, n).band_smoothing =~= crate::load::applied(
                second,
                a,
                m,
            ).band_smoothing);
        },
        _ => {},
    }
}

/// What a setting with an effect is about is there afterwards.
proof fn present_afterwards(c: ConfigView, e: EntryView, n: Seq<Option<Single>>)
    requires
        effective(e, n),
    ensures
        present(crate::load::applied(c, e, n), e),
{
    match e {
        EntryView::FreqSet { name, .. } => {
            let before = crate::config::set_names(c.freq_sets);
            set_names_after(c.freq_sets, name, crate::load::by_threes(crate::load::readable(n)));
            if crate::names::first_named(before, name) >= before.len() {
                crate::load_laws::new_name_is_last(before, name);
            }
        },
        EntryView::Layout { name, columns } => {
            let before = crate::config::layout_names(c.layouts);
            layout_names_after(c.layouts, name, crate::load::clamped(columns));
            if crate::names::first_named(before, name) >= before.len() {
                crate::load_laws::new_name_is_last(before, name);
            }
        },
        EntryView::Palette { name, colors } => {
            let before = crate::palette::palette_names(c.palettes);
            palette_names_after(c.palettes, name, colors);
            if crate::names::first_named(before, name) >= before.len() {
                crate::load_laws::new_name_is_last(before, name);
            }
        },
        _ => {},
    }
}

// ---------------------------------------------------------------------------
// Lists of settings
// ---------------------------------------------------------------------------

/// What the settings make of a configuration, one after the other.
spec fn reconfigured(
    c: ConfigView,
    entries: Seq<EntryView>,
    numbers: Seq<Seq<Option<Single>>>,
) -> ConfigView
    decreases entries.len(),
{
    if entries.len() == 0 {
        c
    } else {
        reconfigured(
            crate::load::applied(c, entries[0], numbers[0]),
            entries.skip(1),
            numbers.skip(1),
        )
    }
}

/// Whether the bands that the settings are about exist.
spec fn bands_exist(entries: Seq<EntryView>) -> bool {
    forall|i: int| 0 <= i < entries.len() ==> #[trigger] crate::load::band_exists(entries[i])
}

proof fn bands_exist_in_rest(entries: Seq<EntryView>, i: int)
    requires
        bands_exist(entries),
        0 <= i <= entries.len(),
    ensures
        bands_exist(entries.skip(i)),
        bands_exist(entries.take(i)),
{
    assert forall|j: int| 0 <= j < entries.skip(i).len() implies #[trigger] crate::load::band_exists(
        entries.skip(i)[j],
    ) by {
        assert(crate::load::band_exists(entries[i + j]));
    }
    assert forall|j: int| 0 <= j < entries.take(i).len() implies #[trigger] crate::load::band_exists(
        entries.take(i)[j],
    ) by {
        assert(crate::load::band_exists(entries[j]));
    }
}

/// More settings go on from what the settings before them have made.
proof fn configured_goes_on(
    e: Seq<EntryView>,
    n: Seq<Seq<Option<Single>>>,
    f: Seq<EntryView>,
    m: Seq<Seq<Option<Single>>>,
)
    requires
        e.len() == n.len(),
        f.len() == m.len(),
    ensures
        crate::load::configured(e + f, n + m) == reconfigured(crate::load::configured(e, n), f, m),
    decreases f.len(),
{
    if f.len() == 0 {
        assert(e + f =~= e);
        assert(n + m =~= n);
    } else {
        let e1 = e.push(f[0]);
        let n1 = n.push(m[0]);
        assert(e1.drop_last() =~= e);
        assert(n1.drop_last() =~= n);
        configured_goes_on(e1, n1, f.skip(1), m.skip(1));
        assert(e + f =~= e1 + f.skip(1));
        assert(n + m =~= n1 + m.skip(1));
    }
}

/// A setting makes no difference where a later one with an effect is about the same thing.
proof fn overwritten_later(
    c: ConfigView,
    a: EntryView,
    k: Seq<Option<Single>>,
    f: Seq<EntryView>,
    m: Seq<Seq<Option<Single>>>,
    j: int,
)
    requires
        f.len() == m.len(),
        0 <= j < f.len(),
        same_target(a, f[j]),
        effective(f[j], m[j]),
        present(c, a),
        crate::load::band_exists(a),
        bands_exist(f),
        bands_complete(c),
    ensures
        reconfigured(crate::load::applied(c, a, k), f, m) == reconfigured(c, f, m),
    decreases f.len(),
{
    assert(crate::load::band_exists(f[0]));
    if same_target(a, f[0]) && effective(f[0], m[0]) {
        overwritten(c, a, k, f[0], m[0]);
    } else {
        commute(c, a, k, f[0], m[0]);
        bands_exist_in_rest(f, 1);
        overwritten_later(crate::load::applied(c, f[0], m[0]), a, k, f.skip(1), m.skip(1), j - 1);
    }
}

/// A setting that makes no difference to a configuration makes none after others either, where none
/// of those with an effect is about the same thing.
proof fn absorbed_later(
    c: ConfigView,
    a: EntryView,
    k: Seq<Option<Single>>,
    f: Seq<EntryView>,
    m: Seq<Seq<Option<Single>>>,
)
    requires
        f.len() == m.len(),
        forall|j: int|
            0 <= j < f.len() ==> !(same_target(a, #[trigger] f[j]) && effective(f[j], m[j])),
        crate::load::applied(c, a, k) == c,
        present(c, a),
        crate::load::band_exists(a),
        bands_exist(f),
        bands_complete(c),
    ensures
        crate::load::applied(reconfigured(c, f, m), a, k) == reconfigured(c, f, m),
    decreases f.len(),
{
    if f.len() > 0 {
        assert(crate::load::band_exists(f[0]));
        assert(!(same_target(a, f[0]) && effective(f[0], m[0])));
        commute(c, a, k, f[0], m[0]);
        bands_exist_in_rest(f, 1);
        let rest = f.skip(1);
        let readings = m.skip(1);
        assert forall|j: int| 0 <= j < rest.len() implies !(same_target(a, #[trigger] rest[j])
            && effective(rest[j], readings[j])) by {
            assert(!(same_target(a, f[j + 1]) && effective(f[j + 1], m[j + 1])));
        }
        absorbed_later(crate::load::applied(c, f[0], m[0]), a, k, rest, readings);
    }
}

/// What a setting is about stays there.
proof fn stays_present(
    c: ConfigView,
    a: EntryView,
    f: Seq<EntryView>,
    m: Seq<Seq<Option<Single>>>,
)
    requires
        f.len() == m.len(),
        present(c, a),
    ensures
        present(reconfigured(c, f, m), a),
    decreases f.len(),
{
    if f.len() > 0 {
        one_stays_present(c, a, f[0], m[0]);
        stays_present(crate::load::applied(c, f[0], m[0]), a, f.skip(1), m.skip(1));
    }
}

proof fn one_stays_present(c: ConfigView, a: EntryView, b: EntryView, n: Seq<Option<Single>>)
    requires
        present(c, a),
    ensures
        present(crate::load::applied(c, b, n), a),
{
    match (a, b) {
        (EntryView::FreqSet { name, .. }, EntryView::FreqSet { name: other, .. }) => {
            set_names_after(c.freq_sets, other, crate::load::by_threes(crate::load::readable(n)));
            crate::load_laws::place_is_kept(crate::config::set_names(c.freq_sets), name, other);
        },
        (EntryView::Layout { name, .. }, EntryView::Layout { name: other, columns }) => {
            layout_names_after(c.layouts, other, crate::load::clamped(columns));
            crate::load_laws::place_is_kept(crate::config::layout_names(c.layouts), name, other);
        },
        (EntryView::Palette { name, .. }, EntryView::Palette { name: other, colors }) => {
            palette_names_after(c.palettes, other, colors);
            crate::load_laws::place_is_kept(crate::palette::palette_names(c.palettes), name, other);
        },
        _ => {},
    }
}

/// The settings from any one of them on, applied to what all of them have made, change nothing.
proof fn rest_changes_nothing(e: Seq<EntryView>, n: Seq<Seq<Option<Single>>>, i: int)
    requires
        e.len() == n.len(),
        0 <= i <= e.len(),
        bands_exist(e),
    ensures
        reconfigured(crate::load::configured(e, n), e.skip(i), n.skip(i)) == crate::load::configured(
            e,
            n,
        ),
    decreases e.len() - i,
{
    let c = crate::load::configured(e, n);
    if i < e.len() {
        rest_changes_nothing(e, n, i + 1);
        let a = e[i];
        let k = n[i];
        let f = e.skip(i + 1);
        let m = n.skip(i + 1);
        let before = crate::load::configured(e.take(i), n.take(i));
        assert(e.skip(i)[0] == a);
        assert(n.skip(i)[0] == k);
        assert(e.skip(i).skip(1) =~= f);
        assert(n.skip(i).skip(1) =~= m);
        assert(crate::load::band_exists(e[i]));
        bands_exist_in_rest(e, i);
        bands_exist_in_rest(e, i + 1);
        crate::load_laws::band_lists_keep_their_lengths(e, n);
        crate::load_laws::band_lists_keep_their_lengths(e.take(i), n.take(i));
        let upto = crate::load::applied(before, a, k);
        assert(c == reconfigured(upto, f, m)) by {
            configured_goes_on(e.take(i + 1), n.take(i + 1), f, m);
            assert(e.take(i + 1) + f =~= e);
            assert(n.take(i + 1) + m =~= n);
            assert(e.take(i + 1).drop_last() =~= e.take(i));
            assert(n.take(i + 1).drop_last() =~= n.take(i));
        }
        if !effective(a, k) {
            assert(crate::load::applied(c, a, k) == c);
        } else {
            present_afterwards(before, a, k);
            stays_present(upto, a, f, m);
            if exists|j: int|
                0 <= j < f.len() && same_target(a, #[trigger] f[j]) && effective(f[j], m[j]) {
                let j = choose|j: int|
                    0 <= j < f.len() && same_target(a, #[trigger] f[j]) && effective(f[j], m[j]);
                overwritten_later(c, a, k, f, m, j);
            } else {
                overwritten(before, a, k, a, k);
                absorbed_later(upto, a, k, f, m);
            }
        }
    } else {
        assert(e.skip(i) =~= seq![]);
    }
}

/// The same settings a second time change nothing, and add nothing to any list.
pub proof fn settings_twice_are_settings_once(
    entries: Seq<EntryView>,
    numbers: Seq<Seq<Option<Single>>>,
)
    requires
        crate::load::readings_fit(entries, numbers),
        forall|i: int| 0 <= i < entries.len() ==> #[trigger] crate::load::band_exists(entries[i]),
    ensures
        crate::load::configured(entries + entries, numbers + numbers) == crate::load::configured(
            entries,
            numbers,
        ),
{
    configured_goes_on(entries, numbers, entries, numbers);
    rest_changes_nothing(entries, numbers, 0);
    assert(entries.skip(0) =~= entries);
    assert(numbers.skip(0) =~= numbers);
}

// ---------------------------------------------------------------------------
// Files
// ---------------------------------------------------------------------------

/// White space at the end of a line is trimmed off.
proof fn trimmed_with_white_space_behind(s: Seq<char>, c: char)
    requires
        crate::text::white_space(c),
    ensures
        crate::text::trimmed(s.push(c), Trim::White) == crate::text::trimmed(s, Trim::White),
    decreases s.len(),
{
    let t = s.push(c);
    if s.len() == 0 {
        assert(t.skip(1) =~= s);
        assert(crate::text::trim_start(t, Trim::White) == crate::text::trim_start(s, Trim::White));
    } else if crate::text::white_space(s[0]) {
        assert(t.skip(1) =~= s.skip(1).push(c));
        trimmed_with_white_space_behind(s.skip(1), c);
    } else {
        assert(t.drop_last() =~= s);
    }
}

/// A line is read the same with and without the carriage return that ends it.
proof fn carriage_return_says_nothing(s: Seq<char>)
    ensures
        crate::entry::line_of(crate::text::without_cr(s)) == crate::entry::line_of(s),
{
    if s.len() > 0 && s.last() == '\r' {
        assert(s.drop_last().push('\r') =~= s);
        trimmed_with_white_space_behind(s.drop_last(), '\r');
    }
}

/// What matters of a line is how it is read.
proof fn line_matters_as_read(
    before: Seq<Seq<char>>,
    line: Seq<char>,
    other: Seq<char>,
    after: Seq<Seq<char>>,
)
    requires
        crate::entry::line_of(line) == crate::entry::line_of(other),
    ensures
        crate::entry::entries(before.push(line) + after) == crate::entry::entries(
            before.push(other) + after,
        ),
        crate::entry::section_after(before.push(line) + after) == crate::entry::section_after(
            before.push(other) + after,
        ),
    decreases after.len(),
{
    let a = before.push(line) + after;
    let b = before.push(other) + after;
    if after.len() == 0 {
        assert(a.drop_last() =~= before);
        assert(b.drop_last() =~= before);
    } else {
        line_matters_as_read(before, line, other, after.drop_last());
        assert(a.drop_last() =~= before.push(line) + after.drop_last());
        assert(b.drop_last() =~= before.push(other) + after.drop_last());
    }
}

/// The lines of two texts with a line feed between them.
proof fn lines_of_joined(a: Seq<char>, b: Seq<char>)
    ensures
        ({
            let before = crate::text::lines(a);
            let joined = crate::text::lines(a + seq!['\n'] + b);
            if a.len() == 0 || a.last() == '\n' {
                joined == before.push(seq![]) + crate::text::lines(b)
            } else {
                &&& before.len() > 0
                &&& joined == before.drop_last().push(crate::text::without_cr(before.last()))
                    + crate::text::lines(b)
            }
        }),
    decreases a.len(),
{
    let all = a + seq!['\n'] + b;
    let before = crate::text::lines(a);
    let i = crate::text::until(a, '\n') as int;
    crate::text::until_is_first(a, '\n');
    crate::text::first_is_until(all, '\n', i);
    assert(all.take(i) =~= a.take(i));
    if i < a.len() {
        let rest = a.skip(i + 1);
        let line = crate::text::without_cr(a.take(i));
        assert(all.skip(i + 1) =~= rest + seq!['\n'] + b);
        lines_of_joined(rest, b);
        let after = crate::text::lines(rest);
        assert(before == seq![line] + after);
        if rest.len() == 0 || rest.last() == '\n' {
            assert(a.last() == '\n');
            assert(crate::text::lines(all) =~= before.push(seq![]) + crate::text::lines(b));
        } else {
            assert(a.last() == rest.last());
            assert(before.last() == after.last());
            assert(crate::text::lines(all) =~= before.drop_last().push(
                crate::text::without_cr(before.last()),
            ) + crate::text::lines(b));
        }
    } else {
        assert(all.skip(i + 1) =~= b);
        assert(a.take(i) =~= a);
        if a.len() > 0 {
            assert(crate::text::lines(all) =~= before.drop_last().push(crate::text::without_cr(a))
                + crate::text::lines(b));
        } else {
            assert(a =~= seq![]);
            assert(crate::text::lines(all) =~= before.push(seq![]) + crate::text::lines(b));
        }
    }
}

/// Two texts with a line feed between them are read as the lines of the one and then of the other.
proof fn joined_texts_are_read_in_turn(a: Seq<char>, b: Seq<char>)
    ensures
        crate::entry::file_entries(a + seq!['\n'] + b) == crate::entry::entries(
            crate::text::lines(a) + crate::text::lines(b),
        ),
{
    let before = crate::text::lines(a);
    let after = crate::text::lines(b);
    lines_of_joined(a, b);
    if a.len() == 0 || a.last() == '\n' {
        crate::load_laws::blank_lines_and_comments_hold_no_setting(
            crate::entry::section_after(before),
            seq![],
        );
        crate::load_laws::line_without_setting_changes_nothing(before, seq![], after);
    } else {
        let last = before.last();
        carriage_return_says_nothing(last);
        line_matters_as_read(before.drop_last(), crate::text::without_cr(last), last, after);
        assert(before.drop_last().push(last) =~= before);
    }
}

/// Behind a header without a name the lines are read as those of a file of their own.
proof fn nameless_header_starts_anew(
    before: Seq<Seq<char>>,
    header: Seq<char>,
    after: Seq<Seq<char>>,
)
    requires
        crate::entry::line_of(header) == LineView::Header(seq![]),
    ensures
        crate::entry::entries(before.push(header) + after) == crate::entry::entries(before)
            + crate::entry::entries(after),
        crate::entry::section_after(before.push(header) + after) == crate::entry::section_after(
            after,
        ),
    decreases after.len(),
{
    let all = before.push(header) + after;
    if after.len() == 0 {
        assert(all =~= before.push(header));
        assert(all.drop_last() =~= before);
        assert(crate::entry::entries(all) =~= crate::entry::entries(before)
            + crate::entry::entries(after));
    } else {
        nameless_header_starts_anew(before, header, after.drop_last());
        assert(all.drop_last() =~= before.push(header) + after.drop_last());
        assert(crate::entry::entries(all) =~= crate::entry::entries(before)
            + crate::entry::entries(after));
    }
}

/// `[]` on a line of its own is a header without a name.
proof fn brackets_are_a_nameless_header()
    ensures
        crate::entry::line_of(seq!['[', ']']) == LineView::Header(seq![]),
        crate::text::lines(seq!['[', ']']) == seq![seq!['[', ']']],
{
    let s = seq!['[', ']'];
    let both = Trim::Either('[', ']');
    assert(crate::text::trimmed(s, Trim::White) == s);
    assert(s.skip(1).skip(1) =~= seq![]);
    assert(crate::text::trim_start(s.skip(1), both) == crate::text::trim_start(seq![], both));
    crate::text::first_is_until(s, '\n', 2);
}

/// The text of a file, and once more behind a header that closes its last section.
pub open spec fn text_twice(content: Seq<char>) -> Seq<char> {
    content + seq!['\n', '[', ']', '\n'] + content
}

/// A file that holds its text twice, with the header `[]` between, gives the configuration of the
/// text: settings that come again change nothing, and add nothing to any list.
pub proof fn file_twice_is_file_once(content: Seq<char>, numbers: Seq<Seq<Option<Single>>>)
    requires
        crate::load::readings_fit(crate::entry::file_entries(content), numbers),
    ensures
        crate::entry::file_entries(text_twice(content)) == crate::entry::file_entries(content)
            + crate::entry::file_entries(content),
        crate::load::readings_fit(
            crate::entry::file_entries(text_twice(content)),
            numbers + numbers,
        ),
        crate::load::configured(
            crate::entry::file_entries(text_twice(content)),
            numbers + numbers,
        ) == crate::load::configured(crate::entry::file_entries(content), numbers),
{
    let header = seq!['[', ']'];
    let again = header + seq!['\n'] + content;
    let lines = crate::text::lines(content);
    let e = crate::entry::file_entries(content);
    assert(text_twice(content) =~= content + seq!['\n'] + again);
    joined_texts_are_read_in_turn(content, again);
    lines_of_joined(header, content);
    brackets_are_a_nameless_header();
    assert(lines + crate::text::lines(again) =~= lines.push(header) + lines);
    nameless_header_starts_anew(lines, header, lines);
    assert forall|i: int| 0 <= i < (e + e).len() implies (#[trigger] (numbers + numbers)[i]).len()
        == crate::load::texts_of((e + e)[i]).len() by {
        let j = if i < e.len() {
            i
        } else {
            i - e.len()
        };
        assert(numbers[j].len() == crate::load::texts_of(e[j]).len());
    }
    crate::load::bands_of_entries_exist(lines);
    settings_twice_are_settings_once(e, numbers);
}

} // verus!
