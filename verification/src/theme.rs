//! Theme names and the colors a theme file specifies.
use crate::text::{chars_of, same_text};
use vstd::prelude::*;

verus! {

/// The number of themes.
pub const THEME_COUNT: usize = 5;

/// The names of the themes, in selection order.
pub open spec fn theme_names() -> Seq<Seq<char>> {
    seq!["porcelain"@, "graphite"@, "linen"@, "midnight"@, "ink"@]
}

/// The name of theme `index`, counting cyclically.
pub fn theme_name(index: usize) -> (name: &'static str)
    ensures
        name@ == theme_names()[(index % THEME_COUNT) as int],
{
    match index % THEME_COUNT {
        0 => "porcelain",
        1 => "graphite",
        2 => "linen",
        3 => "midnight",
        _ => "ink",
    }
}

/// The theme names differ from one another.
pub proof fn lemma_theme_names_distinct()
    ensures
        forall|i: int, j: int| 0 <= i < j < THEME_COUNT ==> theme_names()[i] != theme_names()[j],
{
    reveal_strlit("porcelain");
    reveal_strlit("graphite");
    reveal_strlit("linen");
    reveal_strlit("midnight");
    reveal_strlit("ink");
    assert("porcelain"@[0] != "graphite"@[0]);
    assert("porcelain"@[0] != "linen"@[0]);
    assert("porcelain"@[0] != "midnight"@[0]);
    assert("porcelain"@[0] != "ink"@[0]);
    assert("graphite"@[0] != "linen"@[0]);
    assert("graphite"@[0] != "midnight"@[0]);
    assert("graphite"@[0] != "ink"@[0]);
    assert("linen"@[0] != "midnight"@[0]);
    assert("linen"@[1] != "ink"@[1]);
    assert("midnight"@[0] != "ink"@[0]);
}

/// The index of the theme called `name`, if any.
pub fn theme_index(name: &str) -> (index: Option<usize>)
    ensures
        match index {
            Some(i) => i < THEME_COUNT && theme_names()[i as int] == name@ && forall|j: int|
                0 <= j < i ==> theme_names()[j] != name@,
            None => forall|j: int| 0 <= j < THEME_COUNT ==> theme_names()[j] != name@,
        },
{
    let mut i: usize = 0;
    while i < THEME_COUNT
        invariant
            i <= THEME_COUNT,
            forall|j: int| 0 <= j < i ==> theme_names()[j] != name@,
        decreases THEME_COUNT - i,
    {
        if same_text(theme_name(i), name) {
            return Some(i);
        }
        i = i + 1;
    }
    None
}

/// A theme color: an RGB value, or the terminal's own (dimmed) color.
#[derive(Clone, Copy, Debug, PartialEq, Eq, Structural)]
pub enum Ink {
    Rgb(u8, u8, u8),
    Default,
    Dim,
}

/// The value of a hexadecimal digit, if `c` is one.
pub open spec fn hex_digit(c: char) -> Option<u8> {
    if '0' <= c <= '9' {
        Some((c as u32 - '0' as u32) as u8)
    } else if 'a' <= c <= 'f' {
        Some((c as u32 - 'a' as u32 + 10) as u8)
    } else if 'A' <= c <= 'F' {
        Some((c as u32 - 'A' as u32 + 10) as u8)
    } else {
        None
    }
}

/// Whether `value` names a color: `terminal`, `terminal-dim` or `#rrggbb`.
pub open spec fn is_color(value: Seq<char>) -> bool {
    ||| value == "terminal"@
    ||| value == "terminal-dim"@
    ||| value.len() == 7 && value[0] == '#' && forall|i: int| 1 <= i < 7 ==> #[trigger] hex_digit(value[i]) is Some
}

/// The color `value` names.
pub open spec fn color_of(value: Seq<char>) -> Ink {
    if value == "terminal"@ {
        Ink::Default
    } else if value == "terminal-dim"@ {
        Ink::Dim
    } else {
        let channel = |i: int| (hex_digit(value[i])->0 * 16 + hex_digit(value[i + 1])->0) as u8;
        Ink::Rgb(channel(1), channel(3), channel(5))
    }
}

fn hex(c: char) -> (value: Option<u8>)
    ensures
        value == hex_digit(c),
{
    if '0' <= c && c <= '9' {
        Some((c as u32 - '0' as u32) as u8)
    } else if 'a' <= c && c <= 'f' {
        Some((c as u32 - 'a' as u32 + 10) as u8)
    } else if 'A' <= c && c <= 'F' {
        Some((c as u32 - 'A' as u32 + 10) as u8)
    } else {
        None
    }
}

impl Ink {
    /// The color a theme file names.
    pub fn parse(value: &str) -> (ink: Ink)
        requires
            is_color(value@),
        ensures
            ink == color_of(value@),
    {
        if same_text(value, "terminal") {
            return Ink::Default;
        }
        if same_text(value, "terminal-dim") {
            return Ink::Dim;
        }
        let chars = chars_of(value);
        let mut channels: [u8; 3] = [0, 0, 0];
        let mut k: usize = 0;
        while k < 3
            invariant
                chars@ == value@,
                chars@.len() == 7,
                forall|i: int| 1 <= i < 7 ==> #[trigger] hex_digit(chars@[i]) is Some,
                k <= 3,
                forall|j: int| 0 <= j < k ==> #[trigger] channels@[j] == (hex_digit(chars@[2 * j + 1])->0 * 16
                    + hex_digit(chars@[2 * j + 2])->0) as u8,
            decreases 3 - k,
        {
            let high = hex(chars[2 * k + 1]).unwrap();
            let low = hex(chars[2 * k + 2]).unwrap();
            assert(high < 16 && low < 16);
            channels.set(k, high * 16 + low);
            k = k + 1;
        }
        Ink::Rgb(channels[0], channels[1], channels[2])
    }
}

/// The color the last entry for `token` gives, if any entry does.
pub open spec fn last_color(entries: Seq<(Seq<char>, Ink)>, token: Seq<char>) -> Option<Ink>
    decreases entries.len(),
{
    if entries.len() == 0 {
        None
    } else if entries.last().0 == token {
        Some(entries.last().1)
    } else {
        last_color(entries.drop_last(), token)
    }
}

/// Theme entries `(token, color text)` as tokens and the colors they name.
pub open spec fn parsed_entries(entries: Seq<(String, String)>) -> Seq<(Seq<char>, Ink)> {
    entries.map_values(|e: (String, String)| (e.0@, color_of(e.1@)))
}

/// Whether every entry names a color.
pub open spec fn all_colors(entries: Seq<(String, String)>) -> bool {
    forall|i: int| 0 <= i < entries.len() ==> is_color(#[trigger] entries[i].1@)
}

/// Whether every override token is one the theme already has.
pub open spec fn known_tokens(overrides: Seq<(String, String)>, colors: Seq<(String, String)>) -> bool {
    forall|i: int| 0 <= i < overrides.len() ==> exists|j: int|
        0 <= j < colors.len() && #[trigger] colors[j].0@ == #[trigger] overrides[i].0@
}

/// Stored entries as tokens and colors.
pub open spec fn table_of(entries: Seq<(String, Ink)>) -> Seq<(Seq<char>, Ink)> {
    entries.map_values(|e: (String, Ink)| (e.0@, e.1))
}

/// The colors of one theme, by token.
#[derive(Clone, Debug)]
pub struct Palette {
    pub name: String,
    pub colors: Vec<(String, Ink)>,
}

impl Palette {
    /// The theme's entries in order; a later entry for a token replaces an earlier one.
    pub open spec fn table(&self) -> Seq<(Seq<char>, Ink)> {
        table_of(self.colors@)
    }

    /// The color of `token`, if the theme has one.
    pub open spec fn color(&self, token: Seq<char>) -> Option<Ink> {
        last_color(self.table(), token)
    }

    /// The palette of the theme called `name` with its `colors`; with a `transparent`
    /// background the `overrides` replace some of them, each for a token the theme has.
    pub fn new(
        name: String,
        colors: &Vec<(String, String)>,
        overrides: &Vec<(String, String)>,
        transparent: bool,
    ) -> (palette: Palette)
        requires
            all_colors(colors@),
            transparent ==> all_colors(overrides@) && known_tokens(overrides@, colors@),
        ensures
            palette.name == name,
            palette.table() == parsed_entries(colors@) + if transparent {
                parsed_entries(overrides@)
            } else {
                Seq::empty()
            },
    {
        let mut table: Vec<(String, Ink)> = Vec::new();
        let mut i: usize = 0;
        while i < colors.len()
            invariant
                i <= colors@.len(),
                all_colors(colors@),
                table_of(table@) =~= parsed_entries(colors@).take(i as int),
            decreases colors@.len() - i,
        {
            let token = colors[i].0.clone();
            assert(is_color(colors@[i as int].1@));
            let ink = Ink::parse(colors[i].1.as_str());
            let ghost before = table@;
            table.push((token, ink));
            assert(table_of(table@) =~= table_of(before).push(parsed_entries(colors@)[i as int]));
            assert(parsed_entries(colors@).take(i + 1) =~= parsed_entries(colors@).take(i as int).push(
                parsed_entries(colors@)[i as int],
            ));
            i = i + 1;
        }
        assert(parsed_entries(colors@).take(colors@.len() as int) =~= parsed_entries(colors@));
        if transparent {
            let ghost base = table_of(table@);
            let mut k: usize = 0;
            while k < overrides.len()
                invariant
                    k <= overrides@.len(),
                    all_colors(overrides@),
                    base == parsed_entries(colors@),
                    table_of(table@) =~= base + parsed_entries(overrides@).take(k as int),
                decreases overrides@.len() - k,
            {
                let token = overrides[k].0.clone();
                assert(is_color(overrides@[k as int].1@));
                let ink = Ink::parse(overrides[k].1.as_str());
                let ghost before = table@;
                table.push((token, ink));
                assert(table_of(table@) =~= table_of(before).push(parsed_entries(overrides@)[k as int]));
                assert(parsed_entries(overrides@).take(k + 1) =~= parsed_entries(overrides@).take(
                    k as int,
                ).push(parsed_entries(overrides@)[k as int]));
                k = k + 1;
            }
            assert(parsed_entries(overrides@).take(overrides@.len() as int) =~= parsed_entries(overrides@));
        }
        Palette { name, colors: table }
    }

    /// The color of `token`; the theme must have one.
    pub fn ink(&self, token: &str) -> (ink: Ink)
        requires
            self.color(token@) is Some,
        ensures
            Some(ink) == self.color(token@),
    {
        let ghost all = self.table();
        assert(all.take(all.len() as int) =~= all);
        let mut i: usize = self.colors.len();
        while i > 0
            invariant
                i <= self.colors@.len(),
                all == self.table(),
                last_color(all, token@) == last_color(all.take(i as int), token@),
            decreases i,
        {
            assert(all.take(i as int).drop_last() =~= all.take(i - 1));
            if same_text(self.colors[i - 1].0.as_str(), token) {
                return self.colors[i - 1].1;
            }
            i = i - 1;
        }
        assert(all.take(0).len() == 0);
        Ink::Default
    }
}

} // verus!
