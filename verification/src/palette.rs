//! Color palettes for the dazzle modes.
use vstd::prelude::*;

verus! {

/// A named palette of colors for dazzle mode.
#[derive(Clone, Debug)]
pub struct DazzlePalette {
    pub name: String,
    pub colors: Vec<(u8, u8, u8)>,
}

/// What a palette holds.
pub struct PaletteView {
    pub name: Seq<char>,
    pub colors: Seq<(u8, u8, u8)>,
}

impl View for DazzlePalette {
    type V = PaletteView;

    open spec fn view(&self) -> PaletteView {
        PaletteView { name: self.name@, colors: self.colors@ }
    }
}

impl DazzlePalette {
    /// The color at `idx`, counted round and round through the palette.
    pub fn pick(&self, idx: usize) -> (r: (u8, u8, u8))
        requires
            self.colors.len() > 0,
        ensures
            r == self.colors@[idx as int % self.colors.len() as int],
            idx < self.colors.len() ==> r == self.colors@[idx as int],
            idx >= self.colors.len() ==> r == self.colors@[(idx - self.colors.len())
                % self.colors.len() as int],
    {
        proof {
            let n = self.colors.len() as int;
            if idx < n {
                vstd::arithmetic::div_mod::lemma_small_mod(idx as nat, n as nat);
            } else {
                vstd::arithmetic::div_mod::lemma_mod_sub_multiples_vanish(idx as int, n);
            }
        }
        self.colors[idx % self.colors.len()]
    }

    /// The number of colors.
    pub fn len(&self) -> (r: usize)
        ensures
            r == self.colors@.len(),
    {
        self.colors.len()
    }

    fn named(name: &str, colors: Vec<(u8, u8, u8)>) -> (r: Self)
        ensures
            r@ == (PaletteView { name: name@, colors: colors@ }),
    {
        DazzlePalette { name: name.to_string(), colors }
    }
}

/// Picking starts over after the last color.
pub proof fn picking_goes_round(colors: Seq<(u8, u8, u8)>, idx: int)
    requires
        colors.len() > 0,
        0 <= idx,
    ensures
        colors[(idx + colors.len()) % colors.len() as int] == colors[idx % colors.len() as int],
{
    vstd::arithmetic::div_mod::lemma_mod_add_multiples_vanish(idx, colors.len() as int);
}

/// What a list of palettes holds.
pub open spec fn palette_views(s: Seq<DazzlePalette>) -> Seq<PaletteView> {
    Seq::new(s.len(), |i: int| s[i]@)
}

/// The names of palettes.
pub open spec fn palette_names(palettes: Seq<PaletteView>) -> Seq<Seq<char>> {
    Seq::new(palettes.len(), |i: int| palettes[i].name)
}

/// Finds the first palette of a name, or the number of palettes where there is none.
pub fn find_palette(palettes: &Vec<DazzlePalette>, name: &String) -> (r: usize)
    ensures
        r == crate::names::first_named(palette_names(palette_views(palettes@)), name@),
        r <= palettes.len(),
{
    let ghost names = palette_names(palette_views(palettes@));
    let mut i: usize = 0;
    while i < palettes.len() && palettes[i].name != *name
        invariant
            i <= palettes.len(),
            names == palette_names(palette_views(palettes@)),
            forall|j: int| 0 <= j < i ==> names[j] != name@,
        ensures
            i < palettes.len() ==> names[i as int] == name@,
        decreases palettes.len() - i,
    {
        i = i + 1;
    }
    proof {
        crate::names::first_is_first_named(names, name@, i as int);
    }
    i
}

// ---------------------------------------------------------------------------
// Built-in palettes
// ---------------------------------------------------------------------------

/// The built-in palettes.
pub open spec fn default_palettes() -> Seq<PaletteView> {
    seq![
        PaletteView {
            name: "rainbow"@,
            colors: seq![
                (255u8, 0u8, 0u8),
                (255u8, 127u8, 0u8),
                (255u8, 255u8, 0u8),
                (0u8, 255u8, 0u8),
                (0u8, 255u8, 255u8),
                (0u8, 0u8, 255u8),
                (139u8, 0u8, 255u8),
                (255u8, 0u8, 255u8),
            ],
        },
        PaletteView {
            name: "reddish"@,
            colors: seq![
                (255u8, 0u8, 0u8),
                (220u8, 20u8, 20u8),
                (255u8, 80u8, 0u8),
                (200u8, 0u8, 50u8),
                (255u8, 30u8, 30u8),
            ],
        },
        PaletteView {
            name: "bluish"@,
            colors: seq![
                (0u8, 0u8, 255u8),
                (0u8, 100u8, 255u8),
                (0u8, 200u8, 255u8),
                (0u8, 255u8, 255u8),
                (30u8, 30u8, 220u8),
            ],
        },
        PaletteView {
            name: "purplish"@,
            colors: seq![
                (148u8, 0u8, 211u8),
                (180u8, 0u8, 255u8),
                (100u8, 0u8, 200u8),
                (220u8, 50u8, 255u8),
                (75u8, 0u8, 130u8),
            ],
        },
        PaletteView {
            name: "fire"@,
            colors: seq![
                (255u8, 0u8, 0u8),
                (255u8, 60u8, 0u8),
                (255u8, 120u8, 0u8),
                (255u8, 200u8, 0u8),
                (255u8, 255u8, 0u8),
            ],
        },
        PaletteView {
            name: "redwhiteblue"@,
            colors: seq![
                (255u8, 0u8, 0u8),
                (255u8, 255u8, 255u8),
                (0u8, 0u8, 255u8),
                (200u8, 0u8, 0u8),
                (255u8, 255u8, 255u8),
                (0u8, 0u8, 200u8),
            ],
        },
        PaletteView {
            name: "ember"@,
            colors: seq![
                (180u8, 10u8, 0u8),
                (220u8, 40u8, 0u8),
                (255u8, 80u8, 0u8),
                (255u8, 140u8, 0u8),
                (255u8, 200u8, 20u8),
            ],
        },
        PaletteView {
            name: "sunset"@,
            colors: seq![
                (255u8, 80u8, 50u8),
                (255u8, 30u8, 80u8),
                (255u8, 120u8, 0u8),
                (255u8, 180u8, 0u8),
                (220u8, 80u8, 20u8),
            ],
        },
        PaletteView {
            name: "volcano"@,
            colors: seq![
                (120u8, 0u8, 0u8),
                (200u8, 20u8, 0u8),
                (255u8, 60u8, 0u8),
                (255u8, 160u8, 0u8),
                (255u8, 240u8, 180u8),
            ],
        },
        PaletteView {
            name: "arctic"@,
            colors: seq![
                (255u8, 255u8, 255u8),
                (180u8, 230u8, 255u8),
                (80u8, 180u8, 255u8),
                (20u8, 100u8, 220u8),
                (0u8, 40u8, 180u8),
            ],
        },
        PaletteView {
            name: "aurora"@,
            colors: seq![
                (0u8, 200u8, 150u8),
                (0u8, 230u8, 80u8),
                (100u8, 0u8, 200u8),
                (180u8, 0u8, 255u8),
                (255u8, 255u8, 255u8),
            ],
        },
        PaletteView {
            name: "ocean"@,
            colors: seq![
                (0u8, 20u8, 100u8),
                (0u8, 60u8, 200u8),
                (0u8, 160u8, 220u8),
                (0u8, 210u8, 180u8),
                (180u8, 240u8, 240u8),
            ],
        },
        PaletteView {
            name: "neon"@,
            colors: seq![
                (255u8, 0u8, 100u8),
                (0u8, 255u8, 60u8),
                (0u8, 230u8, 255u8),
                (255u8, 230u8, 0u8),
                (255u8, 0u8, 200u8),
            ],
        },
        PaletteView {
            name: "candy"@,
            colors: seq![
                (255u8, 100u8, 180u8),
                (150u8, 255u8, 180u8),
                (200u8, 150u8, 255u8),
                (255u8, 240u8, 100u8),
                (255u8, 140u8, 120u8),
            ],
        },
        PaletteView {
            name: "toxic"@,
            colors: seq![
                (0u8, 255u8, 60u8),
                (180u8, 255u8, 0u8),
                (0u8, 255u8, 200u8),
                (255u8, 255u8, 0u8),
                (200u8, 255u8, 100u8),
            ],
        },
        PaletteView {
            name: "void"@,
            colors: seq![
                (40u8, 0u8, 80u8),
                (20u8, 0u8, 120u8),
                (80u8, 0u8, 100u8),
                (10u8, 0u8, 60u8),
                (120u8, 0u8, 180u8),
            ],
        },
        PaletteView {
            name: "blood"@,
            colors: seq![
                (80u8, 0u8, 0u8),
                (160u8, 0u8, 0u8),
                (220u8, 0u8, 20u8),
                (255u8, 20u8, 20u8),
                (120u8, 0u8, 10u8),
            ],
        },
        PaletteView {
            name: "midnight"@,
            colors: seq![
                (0u8, 10u8, 60u8),
                (0u8, 30u8, 80u8),
                (20u8, 0u8, 80u8),
                (40u8, 0u8, 100u8),
                (0u8, 60u8, 80u8),
            ],
        },
        PaletteView {
            name: "christmas"@,
            colors: seq![
                (220u8, 0u8, 0u8),
                (255u8, 30u8, 30u8),
                (255u8, 255u8, 255u8),
                (0u8, 160u8, 40u8),
                (255u8, 200u8, 0u8),
            ],
        },
        PaletteView {
            name: "halloween"@,
            colors: seq![
                (220u8, 80u8, 0u8),
                (150u8, 0u8, 180u8),
                (255u8, 120u8, 0u8),
                (60u8, 180u8, 0u8),
                (180u8, 0u8, 120u8),
            ],
        },
        PaletteView {
            name: "synthwave"@,
            colors: seq![
                (255u8, 0u8, 120u8),
                (180u8, 0u8, 255u8),
                (0u8, 220u8, 255u8),
                (120u8, 0u8, 220u8),
                (255u8, 60u8, 180u8),
            ],
        },
    ]
}

/// Puts the built-in palettes together.
pub fn built_in_palettes() -> (r: Vec<DazzlePalette>)
    ensures
        palette_views(r@) == default_palettes(),
{
    let mut r: Vec<DazzlePalette> = Vec::new();
    r.push(DazzlePalette::named("rainbow", vec![(255, 0, 0), (255, 127, 0), (255, 255, 0), (0, 255, 0), (0, 255, 255), (0, 0, 255), (139, 0, 255), (255, 0, 255)]));
    assert(r@[0]@.colors =~= default_palettes()[0].colors);
    r.push(DazzlePalette::named("reddish", vec![(255, 0, 0), (220, 20, 20), (255, 80, 0), (200, 0, 50), (255, 30, 30)]));
    assert(r@[1]@.colors =~= default_palettes()[1].colors);
    r.push(DazzlePalette::named("bluish", vec![(0, 0, 255), (0, 100, 255), (0, 200, 255), (0, 255, 255), (30, 30, 220)]));
    assert(r@[2]@.colors =~= default_palettes()[2].colors);
    r.push(DazzlePalette::named("purplish", vec![(148, 0, 211), (180, 0, 255), (100, 0, 200), (220, 50, 255), (75, 0, 130)]));
    assert(r@[3]@.colors =~= default_palettes()[3].colors);
    r.push(DazzlePalette::named("fire", vec![(255, 0, 0), (255, 60, 0), (255, 120, 0), (255, 200, 0), (255, 255, 0)]));
    assert(r@[4]@.colors =~= default_palettes()[4].colors);
    r.push(DazzlePalette::named("redwhiteblue", vec![(255, 0, 0), (255, 255, 255), (0, 0, 255), (200, 0, 0), (255, 255, 255), (0, 0, 200)]));
    assert(r@[5]@.colors =~= default_palettes()[5].colors);
    r.push(DazzlePalette::named("ember", vec![(180, 10, 0), (220, 40, 0), (255, 80, 0), (255, 140, 0), (255, 200, 20)]));
    assert(r@[6]@.colors =~= default_palettes()[6].colors);
    r.push(DazzlePalette::named("sunset", vec![(255, 80, 50), (255, 30, 80), (255, 120, 0), (255, 180, 0), (220, 80, 20)]));
    assert(r@[7]@.colors =~= default_palettes()[7].colors);
    r.push(DazzlePalette::named("volcano", vec![(120, 0, 0), (200, 20, 0), (255, 60, 0), (255, 160, 0), (255, 240, 180)]));
    assert(r@[8]@.colors =~= default_palettes()[8].colors);
    r.push(DazzlePalette::named("arctic", vec![(255, 255, 255), (180, 230, 255), (80, 180, 255), (20, 100, 220), (0, 40, 180)]));
    assert(r@[9]@.colors =~= default_palettes()[9].colors);
    r.push(DazzlePalette::named("aurora", vec![(0, 200, 150), (0, 230, 80), (100, 0, 200), (180, 0, 255), (255, 255, 255)]));
    assert(r@[10]@.colors =~= default_palettes()[10].colors);
    r.push(DazzlePalette::named("ocean", vec![(0, 20, 100), (0, 60, 200), (0, 160, 220), (0, 210, 180), (180, 240, 240)]));
    assert(r@[11]@.colors =~= default_palettes()[11].colors);
    r.push(DazzlePalette::named("neon", vec![(255, 0, 100), (0, 255, 60), (0, 230, 255), (255, 230, 0), (255, 0, 200)]));
    assert(r@[12]@.colors =~= default_palettes()[12].colors);
    r.push(DazzlePalette::named("candy", vec![(255, 100, 180), (150, 255, 180), (200, 150, 255), (255, 240, 100), (255, 140, 120)]));
    assert(r@[13]@.colors =~= default_palettes()[13].colors);
    r.push(DazzlePalette::named("toxic", vec![(0, 255, 60), (180, 255, 0), (0, 255, 200), (255, 255, 0), (200, 255, 100)]));
    assert(r@[14]@.colors =~= default_palettes()[14].colors);
    r.push(DazzlePalette::named("void", vec![(40, 0, 80), (20, 0, 120), (80, 0, 100), (10, 0, 60), (120, 0, 180)]));
    assert(r@[15]@.colors =~= default_palettes()[15].colors);
    r.push(DazzlePalette::named("blood", vec![(80, 0, 0), (160, 0, 0), (220, 0, 20), (255, 20, 20), (120, 0, 10)]));
    assert(r@[16]@.colors =~= default_palettes()[16].colors);
    r.push(DazzlePalette::named("midnight", vec![(0, 10, 60), (0, 30, 80), (20, 0, 80), (40, 0, 100), (0, 60, 80)]));
    assert(r@[17]@.colors =~= default_palettes()[17].colors);
    r.push(DazzlePalette::named("christmas", vec![(220, 0, 0), (255, 30, 30), (255, 255, 255), (0, 160, 40), (255, 200, 0)]));
    assert(r@[18]@.colors =~= default_palettes()[18].colors);
    r.push(DazzlePalette::named("halloween", vec![(220, 80, 0), (150, 0, 180), (255, 120, 0), (60, 180, 0), (180, 0, 120)]));
    assert(r@[19]@.colors =~= default_palettes()[19].colors);
    r.push(DazzlePalette::named("synthwave", vec![(255, 0, 120), (180, 0, 255), (0, 220, 255), (120, 0, 220), (255, 60, 180)]));
    assert(r@[20]@.colors =~= default_palettes()[20].colors);
    assert(palette_views(r@) =~= default_palettes());
    r
}

/// No two built-in palettes share a name.
pub proof fn default_palette_names_differ()
    ensures
        palette_names(default_palettes()).no_duplicates(),
{
    reveal_strlit("rainbow");
    reveal_strlit("reddish");
    reveal_strlit("bluish");
    reveal_strlit("purplish");
    reveal_strlit("fire");
    reveal_strlit("redwhiteblue");
    reveal_strlit("ember");
    reveal_strlit("sunset");
    reveal_strlit("volcano");
    reveal_strlit("arctic");
    reveal_strlit("aurora");
    reveal_strlit("ocean");
    reveal_strlit("neon");
    reveal_strlit("candy");
    reveal_strlit("toxic");
    reveal_strlit("void");
    reveal_strlit("blood");
    reveal_strlit("midnight");
    reveal_strlit("christmas");
    reveal_strlit("halloween");
    reveal_strlit("synthwave");
    let names = palette_names(default_palettes());
    assert(names.len() == 21);
    assert(names[0] == "rainbow"@);
    assert(names[1] == "reddish"@);
    assert(names[2] == "bluish"@);
    assert(names[3] == "purplish"@);
    assert(names[4] == "fire"@);
    assert(names[5] == "redwhiteblue"@);
    assert(names[6] == "ember"@);
    assert(names[7] == "sunset"@);
    assert(names[8] == "volcano"@);
    assert(names[9] == "arctic"@);
    assert(names[10] == "aurora"@);
    assert(names[11] == "ocean"@);
    assert(names[12] == "neon"@);
    assert(names[13] == "candy"@);
    assert(names[14] == "toxic"@);
    assert(names[15] == "void"@);
    assert(names[16] == "blood"@);
    assert(names[17] == "midnight"@);
    assert(names[18] == "christmas"@);
    assert(names[19] == "halloween"@);
    assert(names[20] == "synthwave"@);
    assert forall|i: int, j: int| 0 <= i < names.len() && 0 <= j < names.len() && i != j implies names[i]
        != names[j] by {
        assert(names[i].len() != names[j].len() || names[i][0] != names[j][0] || names[i][1]
            != names[j][1] || names[i][2] != names[j][2]);
    }
}

/// A color as one number: its channels as the three bytes of it.
pub open spec fn packed(c: (u8, u8, u8)) -> int {
    c.0 * 0x1_0000 + c.1 * 0x100 + c.2
}

/// Colors as numbers.
pub open spec fn all_packed(colors: Seq<(u8, u8, u8)>) -> Seq<int> {
    Seq::new(colors.len(), |i: int| packed(colors[i]))
}

/// The built-in palettes by their names and the numbers of their colors.
pub proof fn default_palettes_by_number()
    ensures
        default_palettes().len() == 21,
        default_palettes()[0].name == "rainbow"@,
        all_packed(default_palettes()[0].colors) == seq![
            0xff0000int, 0xff7f00, 0xffff00, 0x00ff00, 0x00ffff, 0x0000ff, 0x8b00ff, 0xff00ff
        ],
        default_palettes()[1].name == "reddish"@,
        all_packed(default_palettes()[1].colors) == seq![
            0xff0000int, 0xdc1414, 0xff5000, 0xc80032, 0xff1e1e
        ],
        default_palettes()[2].name == "bluish"@,
        all_packed(default_palettes()[2].colors) == seq![
            0x0000ffint, 0x0064ff, 0x00c8ff, 0x00ffff, 0x1e1edc
        ],
        default_palettes()[3].name == "purplish"@,
        all_packed(default_palettes()[3].colors) == seq![
            0x9400d3int, 0xb400ff, 0x6400c8, 0xdc32ff, 0x4b0082
        ],
        default_palettes()[4].name == "fire"@,
        all_packed(default_palettes()[4].colors) == seq![
            0xff0000int, 0xff3c00, 0xff7800, 0xffc800, 0xffff00
        ],
        default_palettes()[5].name == "redwhiteblue"@,
        all_packed(default_palettes()[5].colors) == seq![
            0xff0000int, 0xffffff, 0x0000ff, 0xc80000, 0xffffff, 0x0000c8
        ],
        default_palettes()[6].name == "ember"@,
        all_packed(default_palettes()[6].colors) == seq![
            0xb40a00int, 0xdc2800, 0xff5000, 0xff8c00, 0xffc814
        ],
        default_palettes()[7].name == "sunset"@,
        all_packed(default_palettes()[7].colors) == seq![
            0xff5032int, 0xff1e50, 0xff7800, 0xffb400, 0xdc5014
        ],
        default_palettes()[8].name == "volcano"@,
        all_packed(default_palettes()[8].colors) == seq![
            0x780000int, 0xc81400, 0xff3c00, 0xffa000, 0xfff0b4
        ],
        default_palettes()[9].name == "arctic"@,
        all_packed(default_palettes()[9].colors) == seq![
            0xffffffint, 0xb4e6ff, 0x50b4ff, 0x1464dc, 0x0028b4
        ],
        default_palettes()[10].name == "aurora"@,
        all_packed(default_palettes()[10].colors) == seq![
            0x00c896int, 0x00e650, 0x6400c8, 0xb400ff, 0xffffff
        ],
        default_palettes()[11].name == "ocean"@,
        all_packed(default_palettes()[11].colors) == seq![
            0x001464int, 0x003cc8, 0x00a0dc, 0x00d2b4, 0xb4f0f0
        ],
        default_palettes()[12].name == "neon"@,
        all_packed(default_palettes()[12].colors) == seq![
            0xff0064int, 0x00ff3c, 0x00e6ff, 0xffe600, 0xff00c8
        ],
        default_palettes()[13].name == "candy"@,
        all_packed(default_palettes()[13].colors) == seq![
            0xff64b4int, 0x96ffb4, 0xc896ff, 0xfff064, 0xff8c78
        ],
        default_palettes()[14].name == "toxic"@,
        all_packed(default_palettes()[14].colors) == seq![
            0x00ff3cint, 0xb4ff00, 0x00ffc8, 0xffff00, 0xc8ff64
        ],
        default_palettes()[15].name == "void"@,
        all_packed(default_palettes()[15].colors) == seq![
            0x280050int, 0x140078, 0x500064, 0x0a003c, 0x7800b4
        ],
        default_palettes()[16].name == "blood"@,
        all_packed(default_palettes()[16].colors) == seq![
            0x500000int, 0xa00000, 0xdc0014, 0xff1414, 0x78000a
        ],
        default_palettes()[17].name == "midnight"@,
        all_packed(default_palettes()[17].colors) == seq![
            0x000a3cint, 0x001e50, 0x140050, 0x280064, 0x003c50
        ],
        default_palettes()[18].name == "christmas"@,
        all_packed(default_palettes()[18].colors) == seq![
            0xdc0000int, 0xff1e1e, 0xffffff, 0x00a028, 0xffc800
        ],
        default_palettes()[19].name == "halloween"@,
        all_packed(default_palettes()[19].colors) == seq![
            0xdc5000int, 0x9600b4, 0xff7800, 0x3cb400, 0xb40078
        ],
        default_palettes()[20].name == "synthwave"@,
        all_packed(default_palettes()[20].colors) == seq![
            0xff0078int, 0xb400ff, 0x00dcff, 0x7800dc, 0xff3cb4
        ],
{
    let d = default_palettes();
    assert(all_packed(d[0].colors) =~= seq![
        0xff0000int, 0xff7f00, 0xffff00, 0x00ff00, 0x00ffff, 0x0000ff, 0x8b00ff, 0xff00ff
    ]);
    assert(all_packed(d[1].colors) =~= seq![0xff0000int, 0xdc1414, 0xff5000, 0xc80032, 0xff1e1e]);
    assert(all_packed(d[2].colors) =~= seq![0x0000ffint, 0x0064ff, 0x00c8ff, 0x00ffff, 0x1e1edc]);
    assert(all_packed(d[3].colors) =~= seq![0x9400d3int, 0xb400ff, 0x6400c8, 0xdc32ff, 0x4b0082]);
    assert(all_packed(d[4].colors) =~= seq![0xff0000int, 0xff3c00, 0xff7800, 0xffc800, 0xffff00]);
    assert(all_packed(d[5].colors) =~= seq![
        0xff0000int, 0xffffff, 0x0000ff, 0xc80000, 0xffffff, 0x0000c8
    ]);
    assert(all_packed(d[6].colors) =~= seq![0xb40a00int, 0xdc2800, 0xff5000, 0xff8c00, 0xffc814]);
    assert(all_packed(d[7].colors) =~= seq![0xff5032int, 0xff1e50, 0xff7800, 0xffb400, 0xdc5014]);
    assert(all_packed(d[8].colors) =~= seq![0x780000int, 0xc81400, 0xff3c00, 0xffa000, 0xfff0b4]);
    assert(all_packed(d[9].colors) =~= seq![0xffffffint, 0xb4e6ff, 0x50b4ff, 0x1464dc, 0x0028b4]);
    assert(all_packed(d[10].colors) =~= seq![0x00c896int, 0x00e650, 0x6400c8, 0xb400ff, 0xffffff]);
    assert(all_packed(d[11].colors) =~= seq![0x001464int, 0x003cc8, 0x00a0dc, 0x00d2b4, 0xb4f0f0]);
    assert(all_packed(d[12].colors) =~= seq![0xff0064int, 0x00ff3c, 0x00e6ff, 0xffe600, 0xff00c8]);
    assert(all_packed(d[13].colors) =~= seq![0xff64b4int, 0x96ffb4, 0xc896ff, 0xfff064, 0xff8c78]);
    assert(all_packed(d[14].colors) =~= seq![0x00ff3cint, 0xb4ff00, 0x00ffc8, 0xffff00, 0xc8ff64]);
    assert(all_packed(d[15].colors) =~= seq![0x280050int, 0x140078, 0x500064, 0x0a003c, 0x7800b4]);
    assert(all_packed(d[16].colors) =~= seq![0x500000int, 0xa00000, 0xdc0014, 0xff1414, 0x78000a]);
    assert(all_packed(d[17].colors) =~= seq![0x000a3cint, 0x001e50, 0x140050, 0x280064, 0x003c50]);
    assert(all_packed(d[18].colors) =~= seq![0xdc0000int, 0xff1e1e, 0xffffff, 0x00a028, 0xffc800]);
    assert(all_packed(d[19].colors) =~= seq![0xdc5000int, 0x9600b4, 0xff7800, 0x3cb400, 0xb40078]);
    assert(all_packed(d[20].colors) =~= seq![0xff0078int, 0xb400ff, 0x00dcff, 0x7800dc, 0xff3cb4]);
}

/// Names and views of palettes are those of the palettes, one for one.
pub proof fn palettes_keep_their_names(
    palettes: Seq<DazzlePalette>,
    views: Seq<PaletteView>,
    i: int,
)
    ensures
        palette_views(palettes).len() == palettes.len(),
        palette_names(views).len() == views.len(),
        0 <= i < palettes.len() ==> palette_views(palettes)[i].name == palettes[i].name@
            && palette_views(palettes)[i].colors == palettes[i].colors@,
        0 <= i < views.len() ==> palette_names(views)[i] == views[i].name,
{
}

} // verus!
