//! Colour themes: the built-in catalogue, lookup by name and a preview.
use vstd::prelude::*;

use crate::config::Config;
use crate::text::{chars_of, push_str, str_eq};

verus! {

/// A colour given by its red, green and blue channels.
#[derive(Clone, Copy, Debug, PartialEq, Eq, Structural)]
pub struct Rgb {
    pub r: u8,
    pub g: u8,
    pub b: u8,
}

#[derive(Clone, Debug)]
pub struct Theme {
    pub name: String,
    pub background: Rgb,
    pub foreground: Rgb,
    pub primary: Rgb,
    pub secondary: Rgb,
    pub accent: Rgb,
    pub warning: Rgb,
    pub danger: Rgb,
    pub muted: Rgb,
    pub border: Rgb,
    pub progress_full: Rgb,
    pub progress_empty: Rgb,
}

/// The text without its leading `#` characters.
pub open spec fn trim_hashes(s: Seq<char>) -> Seq<char>
    decreases s.len(),
{
    if s.len() > 0 && s[0] == '#' {
        trim_hashes(s.drop_first())
    } else {
        s
    }
}

/// The value of a hexadecimal digit.
pub open spec fn hex_value(c: char) -> Option<nat> {
    let u = c as u32;
    if 48 <= u <= 57 {
        Some((u - 48) as nat)
    } else if 97 <= u <= 102 {
        Some((u - 87) as nat)
    } else if 65 <= u <= 70 {
        Some((u - 55) as nat)
    } else {
        None
    }
}

/// What `u8::from_str_radix` gives for two characters in base 16: an optional `+`
/// and one digit, or two digits.
pub open spec fn hex_pair(a: char, b: char) -> Option<u8> {
    if a == '+' {
        match hex_value(b) {
            Some(v) => Some(v as u8),
            None => None,
        }
    } else {
        match (hex_value(a), hex_value(b)) {
            (Some(x), Some(y)) => Some((x * 16 + y) as u8),
            _ => None,
        }
    }
}

/// A channel of a colour text: the pair of characters at `k`, or 255 where they are
/// not a hexadecimal number.
pub open spec fn channel(s: Seq<char>, k: int) -> u8 {
    let t = trim_hashes(s);
    match hex_pair(t[2 * k], t[2 * k + 1]) {
        Some(v) => v,
        None => 255,
    }
}

/// The colour that a text `#rrggbb` gives.
pub open spec fn hex_color(s: Seq<char>) -> Rgb {
    Rgb { r: channel(s, 0), g: channel(s, 1), b: channel(s, 2) }
}

/// A colour text whose first six characters after the `#` are ASCII.
pub open spec fn hex_ok(s: Seq<char>) -> bool {
    let t = trim_hashes(s);
    &&& t.len() >= 6
    &&& forall|i: int| 0 <= i < 6 ==> (t[i] as u32) < 128
}

/// A hexadecimal digit in either case: `0`-`9`, `a`-`f` or `A`-`F`.
pub open spec fn is_hex_digit(c: char) -> bool {
    ||| 48 <= c as u32 <= 57
    ||| 97 <= c as u32 <= 102
    ||| 65 <= c as u32 <= 70
}

/// The worth of a hexadecimal digit: its place in `0123456789abcdef`, with the capital
/// letters worth the same as the small ones.
pub open spec fn base16_worth(c: char) -> int {
    let u = c as u32;
    if u <= 57 {
        u - 48
    } else if u >= 97 {
        u - 97 + 10
    } else {
        u - 65 + 10
    }
}

/// Hexadecimal digits are read in either case: each is worth its place in
/// `0123456789abcdef`, a small letter is worth what its capital is, and nothing else is
/// a digit.
pub proof fn lemma_hex_digits(c: char)
    ensures
        is_hex_digit(c) ==> hex_value(c) == Some(base16_worth(c) as nat) && base16_worth(c) < 16,
        !is_hex_digit(c) ==> hex_value(c) is None,
        97 <= c as u32 <= 102 ==> hex_value(c) == hex_value(((c as u32) - 32) as char),
{
    if 97 <= c as u32 <= 102 {
        let d = ((c as u32) - 32) as char;
        assert(d as u32 == (c as u32) - 32);
    }
}

/// The colour of a text `#` and six hexadecimal digits (in either case) is read pair by
/// pair in base 16: red from the first two digits, green from the next two, blue from
/// the last two.
pub proof fn lemma_colour_of_hex_text(s: Seq<char>)
    requires
        s.len() == 7,
        s[0] == '#',
        forall|i: int| 1 <= i < 7 ==> is_hex_digit(#[trigger] s[i]),
    ensures
        hex_color(s).r == 16 * base16_worth(s[1]) + base16_worth(s[2]),
        hex_color(s).g == 16 * base16_worth(s[3]) + base16_worth(s[4]),
        hex_color(s).b == 16 * base16_worth(s[5]) + base16_worth(s[6]),
{
    let t = s.drop_first();
    assert(is_hex_digit(s[1]));
    assert(t[0] == s[1]);
    assert(trim_hashes(s) == trim_hashes(t));
    assert(trim_hashes(t) == t);
    assert forall|i: int| 0 <= i < 6 implies hex_value(#[trigger] t[i]) == Some(base16_worth(t[i]) as nat)
        && base16_worth(t[i]) < 16 by {
        assert(t[i] == s[i + 1]);
        assert(is_hex_digit(s[i + 1]));
        lemma_hex_digits(t[i]);
    }
    assert(hex_value(t[0]) is Some && hex_value(t[1]) is Some);
    assert(hex_value(t[2]) is Some && hex_value(t[3]) is Some);
    assert(hex_value(t[4]) is Some && hex_value(t[5]) is Some);
    assert(t[0] != '+' && t[2] != '+' && t[4] != '+');
}

fn hex_digit(c: char) -> (r: Option<u8>)
    ensures
        r matches Some(v) ==> hex_value(c) == Some(v as nat),
        r is None ==> hex_value(c) is None,
{
    let u = c as u32;
    if 48 <= u && u <= 57 {
        Some((u - 48) as u8)
    } else if 97 <= u && u <= 102 {
        Some((u - 87) as u8)
    } else if 65 <= u && u <= 70 {
        Some((u - 55) as u8)
    } else {
        None
    }
}

fn pair_value(a: char, b: char) -> (r: u8)
    ensures
        r == match hex_pair(a, b) {
            Some(v) => v,
            None => 255u8,
        },
{
    if a == '+' {
        match hex_digit(b) {
            Some(v) => v,
            None => 255,
        }
    } else {
        match (hex_digit(a), hex_digit(b)) {
            (Some(x), Some(y)) => x * 16 + y,
            _ => 255,
        }
    }
}

/// The colour of a text `#rrggbb`; a channel that is not a hexadecimal number is 255.
fn color(hex: &str) -> (c: Rgb)
    requires
        hex_ok(hex@),
    ensures
        c == hex_color(hex@),
{
    let chars = chars_of(hex);
    let mut i: usize = 0;
    assert(chars@.skip(0) =~= chars@);
    while i < chars.len() && chars[i] == '#'
        invariant
            i <= chars@.len(),
            trim_hashes(chars@) == trim_hashes(chars@.skip(i as int)),
        decreases chars@.len() - i,
    {
        assert(chars@.skip(i as int).drop_first() =~= chars@.skip(i + 1));
        i = i + 1;
    }
    let ghost t = chars@.skip(i as int);
    proof {
        assert(trim_hashes(t) == t);
        assert(t == trim_hashes(hex@));
    }
    Rgb {
        r: pair_value(chars[i], chars[i + 1]),
        g: pair_value(chars[i + 2], chars[i + 3]),
        b: pair_value(chars[i + 4], chars[i + 5]),
    }
}

/// The names of the built-in themes, in catalogue order.
#[verifier::opaque]
pub open spec fn catalog_name(i: int) -> Seq<char> {
    if i == 0 {
        "gruvbox-dark"@
    } else if i == 1 {
        "gruvbox-light"@
    } else if i == 2 {
        "everforest-dark"@
    } else if i == 3 {
        "everforest-light"@
    } else if i == 4 {
        "catppuccin-mocha"@
    } else if i == 5 {
        "catppuccin-macchiato"@
    } else if i == 6 {
        "catppuccin-frappe"@
    } else if i == 7 {
        "catppuccin-latte"@
    } else if i == 8 {
        "monochrome"@
    } else {
        "high-contrast"@
    }
}

/// The names of the themes that the program offers, as its documentation lists them.
pub open spec fn offered_theme_names() -> Set<Seq<char>> {
    set!["gruvbox-dark"@, "gruvbox-light"@, "everforest-dark"@, "everforest-light"@, "catppuccin-mocha"@, "catppuccin-macchiato"@, "catppuccin-frappe"@, "catppuccin-latte"@, "monochrome"@, "high-contrast"@]
}

/// The built-in themes are exactly the ten offered ones, each under its own name, so
/// that a name finds one theme.
pub proof fn lemma_catalog_names()
    ensures
        forall|i: int, j: int| 0 <= i < j < 10 ==> catalog_name(i) != catalog_name(j),
        forall|n: Seq<char>|
            offered_theme_names().contains(n) <==> exists|i: int| 0 <= i < 10 && #[trigger] catalog_name(i) == n,
{
    reveal(catalog_name);
    reveal_strlit("gruvbox-dark");
    reveal_strlit("gruvbox-light");
    reveal_strlit("everforest-dark");
    reveal_strlit("everforest-light");
    reveal_strlit("catppuccin-mocha");
    reveal_strlit("catppuccin-macchiato");
    reveal_strlit("catppuccin-frappe");
    reveal_strlit("catppuccin-latte");
    reveal_strlit("monochrome");
    reveal_strlit("high-contrast");
    assert(catalog_name(0).len() != catalog_name(1).len());
    assert(catalog_name(0).len() != catalog_name(2).len());
    assert(catalog_name(0).len() != catalog_name(3).len());
    assert(catalog_name(0).len() != catalog_name(4).len());
    assert(catalog_name(0).len() != catalog_name(5).len());
    assert(catalog_name(0).len() != catalog_name(6).len());
    assert(catalog_name(0).len() != catalog_name(7).len());
    assert(catalog_name(0).len() != catalog_name(8).len());
    assert(catalog_name(0).len() != catalog_name(9).len());
    assert(catalog_name(1).len() != catalog_name(2).len());
    assert(catalog_name(1).len() != catalog_name(3).len());
    assert(catalog_name(1).len() != catalog_name(4).len());
    assert(catalog_name(1).len() != catalog_name(5).len());
    assert(catalog_name(1).len() != catalog_name(6).len());
    assert(catalog_name(1).len() != catalog_name(7).len());
    assert(catalog_name(1).len() != catalog_name(8).len());
    assert(catalog_name(1)[0] != catalog_name(9)[0]);
    assert(catalog_name(2).len() != catalog_name(3).len());
    assert(catalog_name(2).len() != catalog_name(4).len());
    assert(catalog_name(2).len() != catalog_name(5).len());
    assert(catalog_name(2).len() != catalog_name(6).len());
    assert(catalog_name(2).len() != catalog_name(7).len());
    assert(catalog_name(2).len() != catalog_name(8).len());
    assert(catalog_name(2).len() != catalog_name(9).len());
    assert(catalog_name(3)[0] != catalog_name(4)[0]);
    assert(catalog_name(3).len() != catalog_name(5).len());
    assert(catalog_name(3).len() != catalog_name(6).len());
    assert(catalog_name(3)[0] != catalog_name(7)[0]);
    assert(catalog_name(3).len() != catalog_name(8).len());
    assert(catalog_name(3).len() != catalog_name(9).len());
    assert(catalog_name(4).len() != catalog_name(5).len());
    assert(catalog_name(4).len() != catalog_name(6).len());
    assert(catalog_name(4)[11] != catalog_name(7)[11]);
    assert(catalog_name(4).len() != catalog_name(8).len());
    assert(catalog_name(4).len() != catalog_name(9).len());
    assert(catalog_name(5).len() != catalog_name(6).len());
    assert(catalog_name(5).len() != catalog_name(7).len());
    assert(catalog_name(5).len() != catalog_name(8).len());
    assert(catalog_name(5).len() != catalog_name(9).len());
    assert(catalog_name(6).len() != catalog_name(7).len());
    assert(catalog_name(6).len() != catalog_name(8).len());
    assert(catalog_name(6).len() != catalog_name(9).len());
    assert(catalog_name(7).len() != catalog_name(8).len());
    assert(catalog_name(7).len() != catalog_name(9).len());
    assert(catalog_name(8).len() != catalog_name(9).len());
    assert forall|n: Seq<char>| offered_theme_names().contains(n) implies exists|i: int|
        0 <= i < 10 && #[trigger] catalog_name(i) == n by {
        if n == "gruvbox-dark"@ {
            assert(catalog_name(0) == n);
        }
        if n == "gruvbox-light"@ {
            assert(catalog_name(1) == n);
        }
        if n == "everforest-dark"@ {
            assert(catalog_name(2) == n);
        }
        if n == "everforest-light"@ {
            assert(catalog_name(3) == n);
        }
        if n == "catppuccin-mocha"@ {
            assert(catalog_name(4) == n);
        }
        if n == "catppuccin-macchiato"@ {
            assert(catalog_name(5) == n);
        }
        if n == "catppuccin-frappe"@ {
            assert(catalog_name(6) == n);
        }
        if n == "catppuccin-latte"@ {
            assert(catalog_name(7) == n);
        }
        if n == "monochrome"@ {
            assert(catalog_name(8) == n);
        }
        if n == "high-contrast"@ {
            assert(catalog_name(9) == n);
        }
    }
}

/// The colour texts of the built-in themes: background, foreground, primary, secondary,
/// accent, warning, danger, muted, border, progress full, progress empty.
#[verifier::opaque]
pub open spec fn catalog_palette(i: int) -> Seq<Seq<char>> {
    if i == 0 {
        seq!["#282828"@, "#ebdbb2"@, "#83a598"@, "#d3869b"@, "#b8bb26"@, "#fabd2f"@, "#fb4934"@, "#928374"@, "#3c3836"@, "#b8bb26"@, "#504945"@]
    } else if i == 1 {
        seq!["#fbf1c7"@, "#3c3836"@, "#076678"@, "#8f3f71"@, "#79740e"@, "#b57614"@, "#9d0006"@, "#928374"@, "#d5c4a1"@, "#79740e"@, "#ebdbb2"@]
    } else if i == 2 {
        seq!["#2d353b"@, "#d3c6aa"@, "#7fbbb3"@, "#d699b6"@, "#a7c080"@, "#dbbc7f"@, "#e67e80"@, "#859289"@, "#475258"@, "#a7c080"@, "#3d484d"@]
    } else if i == 3 {
        seq!["#fdf6e3"@, "#5c6a72"@, "#3a94c5"@, "#df69ba"@, "#8da101"@, "#dfa000"@, "#f85552"@, "#939f91"@, "#e0dcc7"@, "#8da101"@, "#f4f0d9"@]
    } else if i == 4 {
        seq!["#1e1e2e"@, "#cdd6f4"@, "#89b4fa"@, "#f5c2e7"@, "#a6e3a1"@, "#f9e2af"@, "#f38ba8"@, "#6c7086"@, "#313244"@, "#a6e3a1"@, "#45475a"@]
    } else if i == 5 {
        seq!["#24273a"@, "#cad3f5"@, "#8aadf4"@, "#f5bde6"@, "#a6da95"@, "#eed49f"@, "#ed8796"@, "#6e738d"@, "#363a4f"@, "#a6da95"@, "#494d64"@]
    } else if i == 6 {
        seq!["#303446"@, "#c6d0f5"@, "#8caaee"@, "#f4b8e4"@, "#a6d189"@, "#e5c890"@, "#e78284"@, "#737994"@, "#414559"@, "#a6d189"@, "#51576d"@]
    } else if i == 7 {
        seq!["#eff1f5"@, "#4c4f69"@, "#1e66f5"@, "#ea76cb"@, "#40a02b"@, "#df8e1d"@, "#d20f39"@, "#8c8fa1"@, "#dce0e8"@, "#40a02b"@, "#ccd0da"@]
    } else if i == 8 {
        seq!["#111111"@, "#eeeeee"@, "#ffffff"@, "#cccccc"@, "#bbbbbb"@, "#dddddd"@, "#ffffff"@, "#777777"@, "#555555"@, "#ffffff"@, "#333333"@]
    } else {
        seq!["#000000"@, "#ffffff"@, "#00ffff"@, "#ff00ff"@, "#00ff00"@, "#ffff00"@, "#ff5555"@, "#bbbbbb"@, "#ffffff"@, "#00ff00"@, "#333333"@]
    }
}

/// The theme has that name and the colours of that palette.
pub open spec fn theme_matches(t: Theme, name: Seq<char>, p: Seq<Seq<char>>) -> bool {
    &&& t.name@ == name
    &&& t.background == hex_color(p[0])
    &&& t.foreground == hex_color(p[1])
    &&& t.primary == hex_color(p[2])
    &&& t.secondary == hex_color(p[3])
    &&& t.accent == hex_color(p[4])
    &&& t.warning == hex_color(p[5])
    &&& t.danger == hex_color(p[6])
    &&& t.muted == hex_color(p[7])
    &&& t.border == hex_color(p[8])
    &&& t.progress_full == hex_color(p[9])
    &&& t.progress_empty == hex_color(p[10])
}

/// A text of `#` and six ASCII characters other than `#` is a colour text.
proof fn lemma_hex_text(s: &str)
    requires
        s@.len() == 7,
        s@[0] == '#',
        forall|i: int| 1 <= i < 7 ==> (s@[i] as u32) < 128 && s@[i] != '#',
    ensures
        hex_ok(s@),
{
    let t = s@.drop_first();
    assert(trim_hashes(s@) == trim_hashes(t));
    assert(t[0] != '#');
    assert(trim_hashes(t) == t);
}

/// The palette texts, one by one.
proof fn lemma_palette_texts(p: [&'static str; 11], i: int)
    requires
        forall|k: int| 0 <= k < 11 ==> #[trigger] p@[k]@ == catalog_palette(i)[k],
    ensures
        p@[0]@ == catalog_palette(i)[0],
        p@[1]@ == catalog_palette(i)[1],
        p@[2]@ == catalog_palette(i)[2],
        p@[3]@ == catalog_palette(i)[3],
        p@[4]@ == catalog_palette(i)[4],
        p@[5]@ == catalog_palette(i)[5],
        p@[6]@ == catalog_palette(i)[6],
        p@[7]@ == catalog_palette(i)[7],
        p@[8]@ == catalog_palette(i)[8],
        p@[9]@ == catalog_palette(i)[9],
        p@[10]@ == catalog_palette(i)[10],
{
    assert(p@[0]@ == catalog_palette(i)[0]);
    assert(p@[1]@ == catalog_palette(i)[1]);
    assert(p@[2]@ == catalog_palette(i)[2]);
    assert(p@[3]@ == catalog_palette(i)[3]);
    assert(p@[4]@ == catalog_palette(i)[4]);
    assert(p@[5]@ == catalog_palette(i)[5]);
    assert(p@[6]@ == catalog_palette(i)[6]);
    assert(p@[7]@ == catalog_palette(i)[7]);
    assert(p@[8]@ == catalog_palette(i)[8]);
    assert(p@[9]@ == catalog_palette(i)[9]);
    assert(p@[10]@ == catalog_palette(i)[10]);
}

/// The name and colour texts of built-in theme `i`.
fn palette(i: usize) -> (r: (&'static str, [&'static str; 11]))
    requires
        i < 10,
    ensures
        r.0@ == catalog_name(i as int),
        forall|k: int| 0 <= k < 11 ==> #[trigger] r.1@[k]@ == catalog_palette(i as int)[k],
        forall|k: int| 0 <= k < 11 ==> hex_ok(#[trigger] r.1@[k]@),
{
    reveal(catalog_name);
    reveal(catalog_palette);
    if i == 0 {
        proof {
            reveal_strlit("#282828");
            lemma_hex_text("#282828");
            reveal_strlit("#ebdbb2");
            lemma_hex_text("#ebdbb2");
            reveal_strlit("#83a598");
            lemma_hex_text("#83a598");
            reveal_strlit("#d3869b");
            lemma_hex_text("#d3869b");
            reveal_strlit("#b8bb26");
            lemma_hex_text("#b8bb26");
            reveal_strlit("#fabd2f");
            lemma_hex_text("#fabd2f");
            reveal_strlit("#fb4934");
            lemma_hex_text("#fb4934");
            reveal_strlit("#928374");
            lemma_hex_text("#928374");
            reveal_strlit("#3c3836");
            lemma_hex_text("#3c3836");
            reveal_strlit("#b8bb26");
            lemma_hex_text("#b8bb26");
            reveal_strlit("#504945");
            lemma_hex_text("#504945");
        }
        let r: (&'static str, [&'static str; 11]) = ("gruvbox-dark", ["#282828", "#ebdbb2", "#83a598", "#d3869b", "#b8bb26", "#fabd2f", "#fb4934", "#928374", "#3c3836", "#b8bb26", "#504945"]);
        r
    } else if i == 1 {
        proof {
            reveal_strlit("#fbf1c7");
            lemma_hex_text("#fbf1c7");
            reveal_strlit("#3c3836");
            lemma_hex_text("#3c3836");
            reveal_strlit("#076678");
            lemma_hex_text("#076678");
            reveal_strlit("#8f3f71");
            lemma_hex_text("#8f3f71");
            reveal_strlit("#79740e");
            lemma_hex_text("#79740e");
            reveal_strlit("#b57614");
            lemma_hex_text("#b57614");
            reveal_strlit("#9d0006");
            lemma_hex_text("#9d0006");
            reveal_strlit("#928374");
            lemma_hex_text("#928374");
            reveal_strlit("#d5c4a1");
            lemma_hex_text("#d5c4a1");
            reveal_strlit("#79740e");
            lemma_hex_text("#79740e");
            reveal_strlit("#ebdbb2");
            lemma_hex_text("#ebdbb2");
        }
        let r: (&'static str, [&'static str; 11]) = ("gruvbox-light", ["#fbf1c7", "#3c3836", "#076678", "#8f3f71", "#79740e", "#b57614", "#9d0006", "#928374", "#d5c4a1", "#79740e", "#ebdbb2"]);
        r
    } else if i == 2 {
        proof {
            reveal_strlit("#2d353b");
            lemma_hex_text("#2d353b");
            reveal_strlit("#d3c6aa");
            lemma_hex_text("#d3c6aa");
            reveal_strlit("#7fbbb3");
            lemma_hex_text("#7fbbb3");
            reveal_strlit("#d699b6");
            lemma_hex_text("#d699b6");
            reveal_strlit("#a7c080");
            lemma_hex_text("#a7c080");
            reveal_strlit("#dbbc7f");
            lemma_hex_text("#dbbc7f");
            reveal_strlit("#e67e80");
            lemma_hex_text("#e67e80");
            reveal_strlit("#859289");
            lemma_hex_text("#859289");
            reveal_strlit("#475258");
            lemma_hex_text("#475258");
            reveal_strlit("#a7c080");
            lemma_hex_text("#a7c080");
            reveal_strlit("#3d484d");
            lemma_hex_text("#3d484d");
        }
        let r: (&'static str, [&'static str; 11]) = ("everforest-dark", ["#2d353b", "#d3c6aa", "#7fbbb3", "#d699b6", "#a7c080", "#dbbc7f", "#e67e80", "#859289", "#475258", "#a7c080", "#3d484d"]);
        r
    } else if i == 3 {
        proof {
            reveal_strlit("#fdf6e3");
            lemma_hex_text("#fdf6e3");
            reveal_strlit("#5c6a72");
            lemma_hex_text("#5c6a72");
            reveal_strlit("#3a94c5");
            lemma_hex_text("#3a94c5");
            reveal_strlit("#df69ba");
            lemma_hex_text("#df69ba");
            reveal_strlit("#8da101");
            lemma_hex_text("#8da101");
            reveal_strlit("#dfa000");
            lemma_hex_text("#dfa000");
            reveal_strlit("#f85552");
            lemma_hex_text("#f85552");
            reveal_strlit("#939f91");
            lemma_hex_text("#939f91");
            reveal_strlit("#e0dcc7");
            lemma_hex_text("#e0dcc7");
            reveal_strlit("#8da101");
            lemma_hex_text("#8da101");
            reveal_strlit("#f4f0d9");
            lemma_hex_text("#f4f0d9");
        }
        let r: (&'static str, [&'static str; 11]) = ("everforest-light", ["#fdf6e3", "#5c6a72", "#3a94c5", "#df69ba", "#8da101", "#dfa000", "#f85552", "#939f91", "#e0dcc7", "#8da101", "#f4f0d9"]);
        r
    } else if i == 4 {
        proof {
            reveal_strlit("#1e1e2e");
            lemma_hex_text("#1e1e2e");
            reveal_strlit("#cdd6f4");
            lemma_hex_text("#cdd6f4");
            reveal_strlit("#89b4fa");
            lemma_hex_text("#89b4fa");
            reveal_strlit("#f5c2e7");
            lemma_hex_text("#f5c2e7");
            reveal_strlit("#a6e3a1");
            lemma_hex_text("#a6e3a1");
            reveal_strlit("#f9e2af");
            lemma_hex_text("#f9e2af");
            reveal_strlit("#f38ba8");
            lemma_hex_text("#f38ba8");
            reveal_strlit("#6c7086");
            lemma_hex_text("#6c7086");
            reveal_strlit("#313244");
            lemma_hex_text("#313244");
            reveal_strlit("#a6e3a1");
            lemma_hex_text("#a6e3a1");
            reveal_strlit("#45475a");
            lemma_hex_text("#45475a");
        }
        let r: (&'static str, [&'static str; 11]) = ("catppuccin-mocha", ["#1e1e2e", "#cdd6f4", "#89b4fa", "#f5c2e7", "#a6e3a1", "#f9e2af", "#f38ba8", "#6c7086", "#313244", "#a6e3a1", "#45475a"]);
        r
    } else if i == 5 {
        proof {
            reveal_strlit("#24273a");
            lemma_hex_text("#24273a");
            reveal_strlit("#cad3f5");
            lemma_hex_text("#cad3f5");
            reveal_strlit("#8aadf4");
            lemma_hex_text("#8aadf4");
            reveal_strlit("#f5bde6");
            lemma_hex_text("#f5bde6");
            reveal_strlit("#a6da95");
            lemma_hex_text("#a6da95");
            reveal_strlit("#eed49f");
            lemma_hex_text("#eed49f");
            reveal_strlit("#ed8796");
            lemma_hex_text("#ed8796");
            reveal_strlit("#6e738d");
            lemma_hex_text("#6e738d");
            reveal_strlit("#363a4f");
            lemma_hex_text("#363a4f");
            reveal_strlit("#a6da95");
            lemma_hex_text("#a6da95");
            reveal_strlit("#494d64");
            lemma_hex_text("#494d64");
        }
        let r: (&'static str, [&'static str; 11]) = ("catppuccin-macchiato", ["#24273a", "#cad3f5", "#8aadf4", "#f5bde6", "#a6da95", "#eed49f", "#ed8796", "#6e738d", "#363a4f", "#a6da95", "#494d64"]);
        r
    } else if i == 6 {
        proof {
            reveal_strlit("#303446");
            lemma_hex_text("#303446");
            reveal_strlit("#c6d0f5");
            lemma_hex_text("#c6d0f5");
            reveal_strlit("#8caaee");
            lemma_hex_text("#8caaee");
            reveal_strlit("#f4b8e4");
            lemma_hex_text("#f4b8e4");
            reveal_strlit("#a6d189");
            lemma_hex_text("#a6d189");
            reveal_strlit("#e5c890");
            lemma_hex_text("#e5c890");
            reveal_strlit("#e78284");
            lemma_hex_text("#e78284");
            reveal_strlit("#737994");
            lemma_hex_text("#737994");
            reveal_strlit("#414559");
            lemma_hex_text("#414559");
            reveal_strlit("#a6d189");
            lemma_hex_text("#a6d189");
            reveal_strlit("#51576d");
            lemma_hex_text("#51576d");
        }
        let r: (&'static str, [&'static str; 11]) = ("catppuccin-frappe", ["#303446", "#c6d0f5", "#8caaee", "#f4b8e4", "#a6d189", "#e5c890", "#e78284", "#737994", "#414559", "#a6d189", "#51576d"]);
        r
    } else if i == 7 {
        proof {
            reveal_strlit("#eff1f5");
            lemma_hex_text("#eff1f5");
            reveal_strlit("#4c4f69");
            lemma_hex_text("#4c4f69");
            reveal_strlit("#1e66f5");
            lemma_hex_text("#1e66f5");
            reveal_strlit("#ea76cb");
            lemma_hex_text("#ea76cb");
            reveal_strlit("#40a02b");
            lemma_hex_text("#40a02b");
            reveal_strlit("#df8e1d");
            lemma_hex_text("#df8e1d");
            reveal_strlit("#d20f39");
            lemma_hex_text("#d20f39");
            reveal_strlit("#8c8fa1");
            lemma_hex_text("#8c8fa1");
            reveal_strlit("#dce0e8");
            lemma_hex_text("#dce0e8");
            reveal_strlit("#40a02b");
            lemma_hex_text("#40a02b");
            reveal_strlit("#ccd0da");
            lemma_hex_text("#ccd0da");
        }
        let r: (&'static str, [&'static str; 11]) = ("catppuccin-latte", ["#eff1f5", "#4c4f69", "#1e66f5", "#ea76cb", "#40a02b", "#df8e1d", "#d20f39", "#8c8fa1", "#dce0e8", "#40a02b", "#ccd0da"]);
        r
    } else if i == 8 {
        proof {
            reveal_strlit("#111111");
            lemma_hex_text("#111111");
            reveal_strlit("#eeeeee");
            lemma_hex_text("#eeeeee");
            reveal_strlit("#ffffff");
            lemma_hex_text("#ffffff");
            reveal_strlit("#cccccc");
            lemma_hex_text("#cccccc");
            reveal_strlit("#bbbbbb");
            lemma_hex_text("#bbbbbb");
            reveal_strlit("#dddddd");
            lemma_hex_text("#dddddd");
            reveal_strlit("#ffffff");
            lemma_hex_text("#ffffff");
            reveal_strlit("#777777");
            lemma_hex_text("#777777");
            reveal_strlit("#555555");
            lemma_hex_text("#555555");
            reveal_strlit("#ffffff");
            lemma_hex_text("#ffffff");
            reveal_strlit("#333333");
            lemma_hex_text("#333333");
        }
        let r: (&'static str, [&'static str; 11]) = ("monochrome", ["#111111", "#eeeeee", "#ffffff", "#cccccc", "#bbbbbb", "#dddddd", "#ffffff", "#777777", "#555555", "#ffffff", "#333333"]);
        r
    } else {
        proof {
            reveal_strlit("#000000");
            lemma_hex_text("#000000");
            reveal_strlit("#ffffff");
            lemma_hex_text("#ffffff");
            reveal_strlit("#00ffff");
            lemma_hex_text("#00ffff");
            reveal_strlit("#ff00ff");
            lemma_hex_text("#ff00ff");
            reveal_strlit("#00ff00");
            lemma_hex_text("#00ff00");
            reveal_strlit("#ffff00");
            lemma_hex_text("#ffff00");
            reveal_strlit("#ff5555");
            lemma_hex_text("#ff5555");
            reveal_strlit("#bbbbbb");
            lemma_hex_text("#bbbbbb");
            reveal_strlit("#ffffff");
            lemma_hex_text("#ffffff");
            reveal_strlit("#00ff00");
            lemma_hex_text("#00ff00");
            reveal_strlit("#333333");
            lemma_hex_text("#333333");
        }
        let r: (&'static str, [&'static str; 11]) = ("high-contrast", ["#000000", "#ffffff", "#00ffff", "#ff00ff", "#00ff00", "#ffff00", "#ff5555", "#bbbbbb", "#ffffff", "#00ff00", "#333333"]);
        r
    }
}

/// The theme of that name and palette.
fn theme(name: &str, palette: [&'static str; 11]) -> (t: Theme)
    requires
        forall|k: int| 0 <= k < 11 ==> hex_ok(#[trigger] palette@[k]@),
    ensures
        t.name@ == name@,
        t.background == hex_color(palette@[0]@),
        t.foreground == hex_color(palette@[1]@),
        t.primary == hex_color(palette@[2]@),
        t.secondary == hex_color(palette@[3]@),
        t.accent == hex_color(palette@[4]@),
        t.warning == hex_color(palette@[5]@),
        t.danger == hex_color(palette@[6]@),
        t.muted == hex_color(palette@[7]@),
        t.border == hex_color(palette@[8]@),
        t.progress_full == hex_color(palette@[9]@),
        t.progress_empty == hex_color(palette@[10]@),
{
    Theme {
        name: String::from_str(name),
        background: color(palette[0]),
        foreground: color(palette[1]),
        primary: color(palette[2]),
        secondary: color(palette[3]),
        accent: color(palette[4]),
        warning: color(palette[5]),
        danger: color(palette[6]),
        muted: color(palette[7]),
        border: color(palette[8]),
        progress_full: color(palette[9]),
        progress_empty: color(palette[10]),
    }
}

/// Why a theme was not found.
#[derive(Clone, Debug)]
pub struct UnknownTheme {
    pub name: String,
}

impl UnknownTheme {
    /// The error as text.
    pub fn message(&self) -> (r: String)
        ensures
            r@ == "unknown theme: "@ + self.name@,
    {
        String::from_str("unknown theme: ").concat(self.name.as_str())
    }
}

impl Theme {
    /// The built-in themes.
    pub fn catalog() -> (r: Vec<Self>)
        ensures
            r@.len() == 10,
            forall|i: int| 0 <= i < 10 ==> theme_matches(#[trigger] r@[i], catalog_name(i), catalog_palette(i)),
    {
        let mut v: Vec<Theme> = Vec::new();
        let mut i: usize = 0;
        while i < 10
            invariant
                i <= 10,
                v@.len() == i,
                forall|j: int| 0 <= j < i ==> theme_matches(#[trigger] v@[j], catalog_name(j), catalog_palette(j)),
            decreases 10 - i,
        {
            let (name, p) = palette(i);
            let t = theme(name, p);
            proof {
                lemma_palette_texts(p, i as int);
            }
            v.push(t);
            i = i + 1;
        }
        v
    }

    /// The built-in theme of that name.
    pub fn by_name(name: &str) -> (r: Result<Self, UnknownTheme>)
        ensures
            r is Ok <==> exists|i: int| 0 <= i < 10 && catalog_name(i) == name@,
            r matches Ok(t) ==> exists|i: int|
                0 <= i < 10 && catalog_name(i) == name@ && theme_matches(t, catalog_name(i), catalog_palette(i)),
            r matches Err(e) ==> e.name@ == name@,
    {
        let mut i: usize = 0;
        while i < 10
            invariant
                i <= 10,
                forall|j: int| 0 <= j < i ==> catalog_name(j) != name@,
            decreases 10 - i,
        {
            let (n, p) = palette(i);
            if str_eq(n, name) {
                let t = theme(n, p);
                proof {
                    lemma_palette_texts(p, i as int);
                }
                return Ok(t);
            }
            i = i + 1;
        }
        Err(UnknownTheme { name: String::from_str(name) })
    }

    /// Built-in theme `i`.
    pub fn at(i: usize) -> (t: Self)
        requires
            i < 10,
        ensures
            theme_matches(t, catalog_name(i as int), catalog_palette(i as int)),
    {
        let (n, p) = palette(i);
        let t = theme(n, p);
        proof {
            lemma_palette_texts(p, i as int);
        }
        t
    }

    /// A short sample of the theme: its name, the colours' names and a progress bar.
    pub fn preview(&self) -> (r: String)
        ensures
            r@ == self.name@ + "\nforeground / primary / accent / warning / danger\n["@
                + Seq::new(10, |i: int| '\u{2588}') + Seq::new(6, |i: int| '\u{2591}') + "] 62%"@,
    {
        let mut s = self.name.clone();
        push_str(&mut s, "\nforeground / primary / accent / warning / danger\n[");
        crate::text::push_repeated(&mut s, '\u{2588}', 10);
        crate::text::push_repeated(&mut s, '\u{2591}', 6);
        push_str(&mut s, "] 62%");
        s
    }
}

/// Makes the built-in theme of that name the configured one; an unknown name is refused
/// and the configuration left as it was.
pub fn select_theme(config: &mut Config, name: &str) -> (r: Result<(), UnknownTheme>)
    ensures
        r is Ok <==> exists|i: int| 0 <= i < 10 && catalog_name(i) == name@,
        r is Ok ==> final(config).visuals.theme@ == name@ && (Config {
            visuals: crate::config::VisualConfig {
                theme: old(config).visuals.theme,
                ..final(config).visuals
            },
            ..*final(config)
        }) == *old(config),
        r matches Err(e) ==> e.name@ == name@ && *final(config) == *old(config),
{
    match Theme::by_name(name) {
        Ok(_) => {
            config.visuals.theme = String::from_str(name);
            Ok(())
        },
        Err(e) => Err(e),
    }
}

} // verus!
