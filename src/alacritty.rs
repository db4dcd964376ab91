use vstd::prelude::*;
use serde_yaml::Value;
use crate::patch::segments;
use crate::target::ToConfig;
use crate::theme::Theme;
use crate::yaml::{mapping_value, string_value, yaml_entries, yaml_str};

verus! {

/// The `primary` group of Alacritty's color block.
#[derive(Debug, Clone)]
pub struct PrimaryColors {
    pub background: String,
    pub foreground: String,
}

/// The `cursor` group of Alacritty's color block.
#[derive(Debug, Clone)]
pub struct CursorColors {
    pub text: String,
    pub cursor: String,
}

/// Eight named colors: Alacritty's `normal` and `bright` groups.
#[derive(Debug, Clone)]
pub struct Palette {
    pub black: String,
    pub red: String,
    pub green: String,
    pub yellow: String,
    pub blue: String,
    pub magenta: String,
    pub cyan: String,
    pub white: String,
}

/// The color block of an Alacritty configuration file.
#[derive(Debug, Clone)]
pub struct AlacrityColors {
    pub primary: PrimaryColors,
    pub cursor: CursorColors,
    pub normal: Palette,
    pub bright: Palette,
}

impl Palette {
    pub open spec fn colors(&self) -> Seq<Seq<char>> {
        seq![
            self.black@, self.red@, self.green@, self.yellow@,
            self.blue@, self.magenta@, self.cyan@, self.white@,
        ]
    }
}

impl AlacrityColors {
    /// The twenty colors, group by group, in the order the block lists them.
    pub open spec fn colors(&self) -> Seq<Seq<char>> {
        seq![
            self.primary.background@, self.primary.foreground@,
            self.cursor.text@, self.cursor.cursor@,
        ] + self.normal.colors() + self.bright.colors()
    }

    /// The theme that a block carries back.
    pub open spec fn spec_to_theme(&self) -> Theme {
        Theme {
            background: self.primary.background,
            foreground: self.primary.foreground,
            text: self.cursor.text,
            cursor: self.cursor.cursor,
            black: self.normal.black,
            red: self.normal.red,
            green: self.normal.green,
            yellow: self.normal.yellow,
            blue: self.normal.blue,
            magenta: self.normal.magenta,
            cyan: self.normal.cyan,
            white: self.normal.white,
            light_black: self.bright.black,
            light_red: self.bright.red,
            light_green: self.bright.green,
            light_yellow: self.bright.yellow,
            light_blue: self.bright.blue,
            light_magenta: self.bright.magenta,
            light_cyan: self.bright.cyan,
            light_white: self.bright.white,
        }
    }

    /// Reads the theme back out of the block.
    pub fn to_theme(self) -> (r: Theme)
        ensures
            r == self.spec_to_theme(),
            r.colors() == self.colors(),
    {
        let r = Theme {
            background: self.primary.background,
            foreground: self.primary.foreground,
            text: self.cursor.text,
            cursor: self.cursor.cursor,
            black: self.normal.black,
            red: self.normal.red,
            green: self.normal.green,
            yellow: self.normal.yellow,
            blue: self.normal.blue,
            magenta: self.normal.magenta,
            cyan: self.normal.cyan,
            white: self.normal.white,
            light_black: self.bright.black,
            light_red: self.bright.red,
            light_green: self.bright.green,
            light_yellow: self.bright.yellow,
            light_blue: self.bright.blue,
            light_magenta: self.bright.magenta,
            light_cyan: self.bright.cyan,
            light_white: self.bright.white,
        };
        assert(r.colors() =~= self.colors());
        r
    }
}

/// `v` is a mapping with the given keys, in order, each holding the given
/// string.
pub open spec fn string_mapping(v: Value, kvs: Seq<(Seq<char>, Seq<char>)>) -> bool {
    &&& yaml_entries(v) is Some
    &&& yaml_entries(v)->0.len() == kvs.len()
    &&& forall|i: int|
        0 <= i < kvs.len() ==> yaml_str(#[trigger] yaml_entries(v)->0[i].0) == Some(kvs[i].0)
            && yaml_str(yaml_entries(v)->0[i].1) == Some(kvs[i].1)
}

/// The key texts are pairwise distinct.
pub open spec fn distinct_keys(kvs: Seq<(Seq<char>, Seq<char>)>) -> bool {
    forall|i: int, j: int| 0 <= i < j < kvs.len() ==> kvs[i].0 != kvs[j].0
}

/// An index below eight is one of the eight; splits a claim about the keys
/// of a literal list into one case per key.
proof fn lemma_small_index(i: int)
    requires
        0 <= i < 8,
    ensures
        i == 0 || i == 1 || i == 2 || i == 3 || i == 4 || i == 5 || i == 6 || i == 7,
{
}

/// A mapping from each key to its string.
fn string_mapping_value(kvs: Vec<(String, String)>) -> (r: Value)
    requires
        distinct_keys(kvs@.map_values(|p: (String, String)| (p.0@, p.1@))),
    ensures
        string_mapping(r, kvs@.map_values(|p: (String, String)| (p.0@, p.1@))),
{
    let ghost src = kvs@;
    let ghost view = src.map_values(|p: (String, String)| (p.0@, p.1@));
    let mut entries: Vec<(String, Value)> = Vec::new();
    let n = kvs.len();
    let mut i: usize = 0;
    while i < n
        invariant
            n == src.len(),
            kvs@ == src,
            i <= n,
            entries@.len() == i,
            forall|j: int|
                0 <= j < i ==> (#[trigger] entries@[j]).0@ == src[j].0@ && yaml_str(
                    entries@[j].1,
                ) == Some(src[j].1@),
        decreases n - i,
    {
        let value = string_value(kvs[i].1.clone());
        entries.push((kvs[i].0.clone(), value));
        i = i + 1;
    }
    assert forall|a: int, b: int| 0 <= a < b < entries@.len() implies entries@[a].0@
        != entries@[b].0@ by {
        assert(view[a].0 != view[b].0);
    }
    mapping_value(entries)
}

impl PrimaryColors {
    pub open spec fn entries(&self) -> Seq<(Seq<char>, Seq<char>)> {
        seq![("background"@, self.background@), ("foreground"@, self.foreground@)]
    }

    fn to_value(&self) -> (r: Value)
        ensures
            string_mapping(r, self.entries()),
    {
        proof {
            reveal_strlit("background");
            reveal_strlit("foreground");
        }
        let kvs = vec![
            ("background".to_owned(), self.background.clone()),
            ("foreground".to_owned(), self.foreground.clone()),
        ];
        assert(kvs@.map_values(|p: (String, String)| (p.0@, p.1@)) =~= self.entries());
        let ghost e = self.entries();
        assert forall|i: int, j: int| 0 <= i < j < e.len() implies e[i].0 != e[j].0 by {
            lemma_small_index(i);
            lemma_small_index(j);
            assert(e[i].0.len() != e[j].0.len() || e[i].0[0] != e[j].0[0]);
        }
        string_mapping_value(kvs)
    }
}

impl CursorColors {
    pub open spec fn entries(&self) -> Seq<(Seq<char>, Seq<char>)> {
        seq![("text"@, self.text@), ("cursor"@, self.cursor@)]
    }

    fn to_value(&self) -> (r: Value)
        ensures
            string_mapping(r, self.entries()),
    {
        proof {
            reveal_strlit("text");
            reveal_strlit("cursor");
        }
        let kvs = vec![
            ("text".to_owned(), self.text.clone()),
            ("cursor".to_owned(), self.cursor.clone()),
        ];
        assert(kvs@.map_values(|p: (String, String)| (p.0@, p.1@)) =~= self.entries());
        let ghost e = self.entries();
        assert forall|i: int, j: int| 0 <= i < j < e.len() implies e[i].0 != e[j].0 by {
            lemma_small_index(i);
            lemma_small_index(j);
            assert(e[i].0.len() != e[j].0.len() || e[i].0[0] != e[j].0[0]);
        }
        string_mapping_value(kvs)
    }
}

impl Palette {
    pub open spec fn entries(&self) -> Seq<(Seq<char>, Seq<char>)> {
        seq![
            ("black"@, self.black@), ("red"@, self.red@), ("green"@, self.green@),
            ("yellow"@, self.yellow@), ("blue"@, self.blue@), ("magenta"@, self.magenta@),
            ("cyan"@, self.cyan@), ("white"@, self.white@),
        ]
    }

    fn to_value(&self) -> (r: Value)
        ensures
            string_mapping(r, self.entries()),
    {
        proof {
            reveal_strlit("black");
            reveal_strlit("red");
            reveal_strlit("green");
            reveal_strlit("yellow");
            reveal_strlit("blue");
            reveal_strlit("magenta");
            reveal_strlit("cyan");
            reveal_strlit("white");
        }
        let kvs = vec![
            ("black".to_owned(), self.black.clone()),
            ("red".to_owned(), self.red.clone()),
            ("green".to_owned(), self.green.clone()),
            ("yellow".to_owned(), self.yellow.clone()),
            ("blue".to_owned(), self.blue.clone()),
            ("magenta".to_owned(), self.magenta.clone()),
            ("cyan".to_owned(), self.cyan.clone()),
            ("white".to_owned(), self.white.clone()),
        ];
        assert(kvs@.map_values(|p: (String, String)| (p.0@, p.1@)) =~= self.entries());
        let ghost e = self.entries();
        assert forall|i: int, j: int| 0 <= i < j < e.len() implies e[i].0 != e[j].0 by {
            lemma_small_index(i);
            lemma_small_index(j);
            assert(e[i].0.len() != e[j].0.len() || e[i].0[0] != e[j].0[0]);
        }
        string_mapping_value(kvs)
    }
}

impl ToConfig for AlacrityColors {
    open spec fn spec_from_theme(t: Theme) -> AlacrityColors {
        AlacrityColors {
            primary: PrimaryColors { background: t.background, foreground: t.foreground },
            cursor: CursorColors { text: t.text, cursor: t.cursor },
            normal: Palette {
                black: t.black,
                red: t.red,
                green: t.green,
                yellow: t.yellow,
                blue: t.blue,
                magenta: t.magenta,
                cyan: t.cyan,
                white: t.white,
            },
            bright: Palette {
                black: t.light_black,
                red: t.light_red,
                green: t.light_green,
                yellow: t.light_yellow,
                blue: t.light_blue,
                magenta: t.light_magenta,
                cyan: t.light_cyan,
                white: t.light_white,
            },
        }
    }

    /// Distributes the theme's colors over Alacritty's groups: the role colors
    /// into `primary` and `cursor`, the named slots into `normal`, and their
    /// light counterparts into `bright`.
    fn from_theme(theme: Theme) -> (r: AlacrityColors)
        ensures
            r == Self::spec_from_theme(theme),
    {
        let r = AlacrityColors {
            primary: PrimaryColors { background: theme.background, foreground: theme.foreground },
            cursor: CursorColors { text: theme.text, cursor: theme.cursor },
            normal: Palette {
                black: theme.black,
                red: theme.red,
                green: theme.green,
                yellow: theme.yellow,
                blue: theme.blue,
                magenta: theme.magenta,
                cyan: theme.cyan,
                white: theme.white,
            },
            bright: Palette {
                black: theme.light_black,
                red: theme.light_red,
                green: theme.light_green,
                yellow: theme.light_yellow,
                blue: theme.light_blue,
                magenta: theme.light_magenta,
                cyan: theme.light_cyan,
                white: theme.light_white,
            },
        };
        r
    }


    /// A YAML mapping of `primary`, `cursor`, `normal` and `bright`, in that
    /// order, each a mapping of its colors.
    open spec fn is_value(&self, v: Value) -> bool {
        let es = yaml_entries(v)->0;
        &&& yaml_entries(v) is Some
        &&& es.len() == 4
        &&& yaml_str(es[0].0) == Some("primary"@)
        &&& yaml_str(es[1].0) == Some("cursor"@)
        &&& yaml_str(es[2].0) == Some("normal"@)
        &&& yaml_str(es[3].0) == Some("bright"@)
        &&& string_mapping(es[0].1, self.primary.entries())
        &&& string_mapping(es[1].1, self.cursor.entries())
        &&& string_mapping(es[2].1, self.normal.entries())
        &&& string_mapping(es[3].1, self.bright.entries())
    }

    fn to_value(&self) -> (r: Value)
        ensures
            self.is_value(r),
    {
        proof {
            reveal_strlit("primary");
            reveal_strlit("cursor");
            reveal_strlit("normal");
            reveal_strlit("bright");
        }
        let entries = vec![
            ("primary".to_owned(), self.primary.to_value()),
            ("cursor".to_owned(), self.cursor.to_value()),
            ("normal".to_owned(), self.normal.to_value()),
            ("bright".to_owned(), self.bright.to_value()),
        ];
        let ghost keys = seq!["primary"@, "cursor"@, "normal"@, "bright"@];
        assert forall|i: int, j: int| 0 <= i < j < entries@.len() implies entries@[i].0@
            != entries@[j].0@ by {
            lemma_small_index(i);
            lemma_small_index(j);
            assert(entries@[i].0@ == keys[i] && entries@[j].0@ == keys[j]);
            assert(keys[i].len() != keys[j].len() || keys[i][0] != keys[j][0]);
        }
        mapping_value(entries)
    }

    /// The `colors` entry at the top of the document.
    open spec fn spec_key_path() -> Seq<Seq<char>> {
        seq!["colors"@]
    }

    fn key_path() -> (r: Vec<String>)
        ensures
            segments(r@) == Self::spec_key_path(),
    {
        let r = vec!["colors".to_owned()];
        assert(segments(r@) =~= Self::spec_key_path());
        r
    }
}

/// Every color of the theme lands in exactly one field of the block, and the
/// theme read back from the block is the theme itself.
pub proof fn lemma_from_theme_total(t: Theme)
    ensures
        AlacrityColors::spec_from_theme(t).colors() == t.colors(),
        AlacrityColors::spec_from_theme(t).spec_to_theme() == t,
        t.well_formed() ==> forall|i: int|
            0 <= i < 20 ==> #[trigger] AlacrityColors::spec_from_theme(t).colors()[i].len() > 0,
{
    assert(AlacrityColors::spec_from_theme(t).colors() =~= t.colors());
}

/// Themes with the same colors map to blocks with the same colors.
pub proof fn lemma_from_theme_deterministic(t1: Theme, t2: Theme)
    requires
        t1.colors() == t2.colors(),
    ensures
        AlacrityColors::spec_from_theme(t1).colors() == AlacrityColors::spec_from_theme(t2).colors(),
{
    lemma_from_theme_total(t1);
    lemma_from_theme_total(t2);
}

} // verus!
