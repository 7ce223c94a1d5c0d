//! Big digits for the timer, drawn with block characters.
use vstd::prelude::*;

use crate::text::{digit_char, push_char, push_str, str_eq};

verus! {

/// How many font names there are.
pub const FONT_COUNT: usize = 8;

/// The font names, in the order the user cycles through them.
pub open spec fn font_names() -> Seq<Seq<char>> {
    seq!["digital"@, "block"@, "tiny"@, "minimal"@, "rounded"@, "shadow"@, "big"@, "slant"@]
}

/// Font name `i`.
pub fn font_name(i: usize) -> (r: &'static str)
    requires
        i < FONT_COUNT,
    ensures
        r@ == font_names()[i as int],
{
    if i == 0 {
        "digital"
    } else if i == 1 {
        "block"
    } else if i == 2 {
        "tiny"
    } else if i == 3 {
        "minimal"
    } else if i == 4 {
        "rounded"
    } else if i == 5 {
        "shadow"
    } else if i == 6 {
        "big"
    } else {
        "slant"
    }
}

/// The rows of a small glyph; a character without a glyph gets the blank one.
#[verifier::opaque]
pub open spec fn digital_rows(c: char) -> Seq<Seq<char>> {
    if c == '0' {
        seq![" ███ "@, "█   █"@, "█   █"@, "█   █"@, " ███ "@]
    } else if c == '1' {
        seq!["  █  "@, " ██  "@, "  █  "@, "  █  "@, " ███ "@]
    } else if c == '2' {
        seq!["████ "@, "    █"@, " ███ "@, "█    "@, "█████"@]
    } else if c == '3' {
        seq!["████ "@, "    █"@, " ███ "@, "    █"@, "████ "@]
    } else if c == '4' {
        seq!["█  █ "@, "█  █ "@, "█████"@, "   █ "@, "   █ "@]
    } else if c == '5' {
        seq!["█████"@, "█    "@, "████ "@, "    █"@, "████ "@]
    } else if c == '6' {
        seq![" ███ "@, "█    "@, "████ "@, "█   █"@, " ███ "@]
    } else if c == '7' {
        seq!["█████"@, "   █ "@, "  █  "@, " █   "@, "█    "@]
    } else if c == '8' {
        seq![" ███ "@, "█   █"@, " ███ "@, "█   █"@, " ███ "@]
    } else if c == '9' {
        seq![" ███ "@, "█   █"@, " ████"@, "    █"@, " ███ "@]
    } else if c == ':' {
        seq!["     "@, "  █  "@, "     "@, "  █  "@, "     "@]
    } else {
        seq!["     "@, "     "@, "     "@, "     "@, "     "@]
    }
}

fn digital_glyph(c: char) -> (r: [&'static str; 5])
    ensures
        forall|k: int| 0 <= k < 5 ==> #[trigger] r@[k]@ == digital_rows(c)[k],
{
    reveal(digital_rows);
    if c == '0' {
        [" ███ ", "█   █", "█   █", "█   █", " ███ "]
    } else if c == '1' {
        ["  █  ", " ██  ", "  █  ", "  █  ", " ███ "]
    } else if c == '2' {
        ["████ ", "    █", " ███ ", "█    ", "█████"]
    } else if c == '3' {
        ["████ ", "    █", " ███ ", "    █", "████ "]
    } else if c == '4' {
        ["█  █ ", "█  █ ", "█████", "   █ ", "   █ "]
    } else if c == '5' {
        ["█████", "█    ", "████ ", "    █", "████ "]
    } else if c == '6' {
        [" ███ ", "█    ", "████ ", "█   █", " ███ "]
    } else if c == '7' {
        ["█████", "   █ ", "  █  ", " █   ", "█    "]
    } else if c == '8' {
        [" ███ ", "█   █", " ███ ", "█   █", " ███ "]
    } else if c == '9' {
        [" ███ ", "█   █", " ████", "    █", " ███ "]
    } else if c == ':' {
        ["     ", "  █  ", "     ", "  █  ", "     "]
    } else {
        ["     ", "     ", "     ", "     ", "     "]
    }
}

/// The rows of a large glyph; a character without a glyph gets the blank one.
#[verifier::opaque]
pub open spec fn large_rows(c: char) -> Seq<Seq<char>> {
    if c == '0' {
        seq![" █████ "@, "██   ██"@, "██  ███"@, "██ █ ██"@, "███  ██"@, "██   ██"@, " █████ "@]
    } else if c == '1' {
        seq!["  ██   "@, " ███   "@, "  ██   "@, "  ██   "@, "  ██   "@, "  ██   "@, "██████ "@]
    } else if c == '2' {
        seq!["██████ "@, "     ██"@, "     ██"@, " █████ "@, "██     "@, "██     "@, "███████"@]
    } else if c == '3' {
        seq!["██████ "@, "     ██"@, "     ██"@, " █████ "@, "     ██"@, "     ██"@, "██████ "@]
    } else if c == '4' {
        seq!["██  ██ "@, "██  ██ "@, "██  ██ "@, "███████"@, "    ██ "@, "    ██ "@, "    ██ "@]
    } else if c == '5' {
        seq!["███████"@, "██     "@, "██     "@, "██████ "@, "     ██"@, "     ██"@, "██████ "@]
    } else if c == '6' {
        seq![" █████ "@, "██     "@, "██     "@, "██████ "@, "██   ██"@, "██   ██"@, " █████ "@]
    } else if c == '7' {
        seq!["███████"@, "    ██ "@, "   ██  "@, "  ██   "@, " ██    "@, "██     "@, "██     "@]
    } else if c == '8' {
        seq![" █████ "@, "██   ██"@, "██   ██"@, " █████ "@, "██   ██"@, "██   ██"@, " █████ "@]
    } else if c == '9' {
        seq![" █████ "@, "██   ██"@, "██   ██"@, " ██████"@, "     ██"@, "     ██"@, " █████ "@]
    } else if c == ':' {
        seq!["   "@, "██ "@, "██ "@, "   "@, "██ "@, "██ "@, "   "@]
    } else {
        seq!["       "@, "       "@, "       "@, "       "@, "       "@, "       "@, "       "@]
    }
}

fn large_glyph(c: char) -> (r: [&'static str; 7])
    ensures
        forall|k: int| 0 <= k < 7 ==> #[trigger] r@[k]@ == large_rows(c)[k],
{
    reveal(large_rows);
    if c == '0' {
        [" █████ ", "██   ██", "██  ███", "██ █ ██", "███  ██", "██   ██", " █████ "]
    } else if c == '1' {
        ["  ██   ", " ███   ", "  ██   ", "  ██   ", "  ██   ", "  ██   ", "██████ "]
    } else if c == '2' {
        ["██████ ", "     ██", "     ██", " █████ ", "██     ", "██     ", "███████"]
    } else if c == '3' {
        ["██████ ", "     ██", "     ██", " █████ ", "     ██", "     ██", "██████ "]
    } else if c == '4' {
        ["██  ██ ", "██  ██ ", "██  ██ ", "███████", "    ██ ", "    ██ ", "    ██ "]
    } else if c == '5' {
        ["███████", "██     ", "██     ", "██████ ", "     ██", "     ██", "██████ "]
    } else if c == '6' {
        [" █████ ", "██     ", "██     ", "██████ ", "██   ██", "██   ██", " █████ "]
    } else if c == '7' {
        ["███████", "    ██ ", "   ██  ", "  ██   ", " ██    ", "██     ", "██     "]
    } else if c == '8' {
        [" █████ ", "██   ██", "██   ██", " █████ ", "██   ██", "██   ██", " █████ "]
    } else if c == '9' {
        [" █████ ", "██   ██", "██   ██", " ██████", "     ██", "     ██", " █████ "]
    } else if c == ':' {
        ["   ", "██ ", "██ ", "   ", "██ ", "██ ", "   "]
    } else {
        ["       ", "       ", "       ", "       ", "       ", "       ", "       "]
    }
}

/// Row `k` of `value` drawn with `rows`: each character's row followed by a space.
pub open spec fn drawn_row(value: Seq<char>, k: int, large: bool) -> Seq<char>
    decreases value.len(),
{
    if value.len() == 0 {
        seq![]
    } else {
        let glyph = if large {
            large_rows(value.last())
        } else {
            digital_rows(value.last())
        };
        drawn_row(value.drop_last(), k, large) + glyph[k] + seq![' ']
    }
}

/// The lines that `render_time` draws.
pub open spec fn drawn(value: Seq<char>, font: Seq<char>, max_width: u16) -> Seq<Seq<char>> {
    if max_width < 42 || font == "tiny"@ || font == "minimal"@ {
        seq![value]
    } else if max_width >= 54 && (font == "block"@ || font == "big"@ || font == "shadow"@
        || font == "digital"@) {
        Seq::new(7, |k: int| drawn_row(value, k, true))
    } else {
        Seq::new(5, |k: int| drawn_row(value, k, false))
    }
}

/// Draws `value` in `rows` lines.
fn draw(value: &str, rows: usize, large: bool) -> (lines: Vec<String>)
    requires
        rows == (if large {
            7usize
        } else {
            5usize
        }),
    ensures
        lines@.len() == rows,
        forall|k: int| 0 <= k < rows ==> #[trigger] lines@[k]@ == drawn_row(value@, k, large),
{
    let mut lines: Vec<String> = Vec::new();
    let mut k: usize = 0;
    while k < rows
        invariant
            k <= rows,
            lines@.len() == k,
            forall|j: int| 0 <= j < k ==> #[trigger] lines@[j]@ == Seq::<char>::empty(),
        decreases rows - k,
    {
        lines.push(String::new());
        k = k + 1;
    }
    let n = vstd::string::StrSliceExecFns::unicode_len(value);
    let mut i: usize = 0;
    proof {
        assert(value@.take(0) =~= Seq::<char>::empty());
    }
    while i < n
        invariant
            n == value@.len(),
            i <= n,
            rows == (if large {
                7usize
            } else {
                5usize
            }),
            lines@.len() == rows,
            forall|j: int| 0 <= j < rows ==> #[trigger] lines@[j]@ == drawn_row(value@.take(i as int), j, large),
        decreases n - i,
    {
        let c = vstd::string::StrSliceExecFns::get_char(value, i);
        proof {
            assert(value@.take(i + 1).drop_last() =~= value@.take(i as int));
            assert(value@.take(i + 1).last() == c);
        }
        let mut k: usize = 0;
        while k < rows
            invariant
                n == value@.len(),
                i < n,
                c == value@[i as int],
                value@.take(i + 1).drop_last() == value@.take(i as int),
                value@.take(i + 1).last() == c,
                rows == (if large {
                    7usize
                } else {
                    5usize
                }),
                k <= rows,
                lines@.len() == rows,
                forall|j: int| 0 <= j < k ==> #[trigger] lines@[j]@ == drawn_row(value@.take(i + 1), j, large),
                forall|j: int| k <= j < rows ==> #[trigger] lines@[j]@ == drawn_row(value@.take(i as int), j, large),
            decreases rows - k,
        {
            let row: &str = if large {
                large_glyph(c)[k]
            } else {
                digital_glyph(c)[k]
            };
            let mut line = lines[k].clone();
            push_str(&mut line, row);
            push_char(&mut line, ' ');
            lines.set(k, line);
            k = k + 1;
        }
        i = i + 1;
    }
    proof {
        assert(value@.take(n as int) =~= value@);
    }
    lines
}

/// Draws the time `value` in the font, within `max_width` columns: the plain text where
/// the room is under 42 columns or the font is `tiny` or `minimal`, large glyphs where
/// there are at least 54 columns and the font is `block`, `big`, `shadow` or `digital`,
/// and small glyphs otherwise.
pub fn render_time(value: &str, font: &str, max_width: u16) -> (lines: Vec<String>)
    ensures
        lines@.len() == drawn(value@, font@, max_width).len(),
        forall|k: int| 0 <= k < lines@.len() ==> #[trigger] lines@[k]@ == drawn(value@, font@, max_width)[k],
{
    if max_width < 42 || str_eq(font, "tiny") || str_eq(font, "minimal") {
        let mut v: Vec<String> = Vec::new();
        v.push(String::from_str(value));
        return v;
    }
    if max_width >= 54 && (str_eq(font, "block") || str_eq(font, "big") || str_eq(font, "shadow")
        || str_eq(font, "digital")) {
        return render_large(value);
    }
    draw(value, 5, false)
}

/// Draws `value` in large glyphs, seven lines.
fn render_large(value: &str) -> (lines: Vec<String>)
    ensures
        lines@.len() == 7,
        forall|k: int| 0 <= k < 7 ==> #[trigger] lines@[k]@ == drawn_row(value@, k, true),
{
    draw(value, 7, true)
}

proof fn lemma_large_rows_apart()
    ensures
        large_rows('0') != large_rows('1'),
        large_rows('0') != large_rows('2'),
        large_rows('0') != large_rows('3'),
        large_rows('0') != large_rows('4'),
        large_rows('0') != large_rows('5'),
        large_rows('0') != large_rows('6'),
        large_rows('0') != large_rows('7'),
        large_rows('0') != large_rows('8'),
        large_rows('0') != large_rows('9'),
        large_rows('0') != large_rows(' '),
        large_rows('1') != large_rows('2'),
        large_rows('1') != large_rows('3'),
        large_rows('1') != large_rows('4'),
        large_rows('1') != large_rows('5'),
        large_rows('1') != large_rows('6'),
        large_rows('1') != large_rows('7'),
        large_rows('1') != large_rows('8'),
        large_rows('1') != large_rows('9'),
        large_rows('1') != large_rows(' '),
        large_rows('2') != large_rows('3'),
        large_rows('2') != large_rows('4'),
        large_rows('2') != large_rows('5'),
        large_rows('2') != large_rows('6'),
        large_rows('2') != large_rows('7'),
        large_rows('2') != large_rows('8'),
        large_rows('2') != large_rows('9'),
        large_rows('2') != large_rows(' '),
        large_rows('3') != large_rows('4'),
        large_rows('3') != large_rows('5'),
        large_rows('3') != large_rows('6'),
        large_rows('3') != large_rows('7'),
        large_rows('3') != large_rows('8'),
        large_rows('3') != large_rows('9'),
        large_rows('3') != large_rows(' '),
        large_rows('4') != large_rows('5'),
        large_rows('4') != large_rows('6'),
        large_rows('4') != large_rows('7'),
        large_rows('4') != large_rows('8'),
        large_rows('4') != large_rows('9'),
        large_rows('4') != large_rows(' '),
        large_rows('5') != large_rows('6'),
        large_rows('5') != large_rows('7'),
        large_rows('5') != large_rows('8'),
        large_rows('5') != large_rows('9'),
        large_rows('5') != large_rows(' '),
        large_rows('6') != large_rows('7'),
        large_rows('6') != large_rows('8'),
        large_rows('6') != large_rows('9'),
        large_rows('6') != large_rows(' '),
        large_rows('7') != large_rows('8'),
        large_rows('7') != large_rows('9'),
        large_rows('7') != large_rows(' '),
        large_rows('8') != large_rows('9'),
        large_rows('8') != large_rows(' '),
        large_rows('9') != large_rows(' '),
{
    reveal(large_rows);
    reveal_strlit("       ");
    reveal_strlit("     ██");
    reveal_strlit("    ██ ");
    reveal_strlit("  ██   ");
    reveal_strlit(" █████ ");
    reveal_strlit(" ██████");
    reveal_strlit("██     ");
    reveal_strlit("██   ██");
    reveal_strlit("██  ██ ");
    reveal_strlit("██  ███");
    reveal_strlit("██████ ");
    reveal_strlit("███████");
    assert(large_rows('0')[0][1] != large_rows('1')[0][1]);
    assert(large_rows('0')[0][0] != large_rows('2')[0][0]);
    assert(large_rows('0')[0][0] != large_rows('3')[0][0]);
    assert(large_rows('0')[0][0] != large_rows('4')[0][0]);
    assert(large_rows('0')[0][0] != large_rows('5')[0][0]);
    assert(large_rows('0')[1][5] != large_rows('6')[1][5]);
    assert(large_rows('0')[0][0] != large_rows('7')[0][0]);
    assert(large_rows('0')[2][4] != large_rows('8')[2][4]);
    assert(large_rows('0')[2][4] != large_rows('9')[2][4]);
    assert(large_rows('0')[0][1] != large_rows(' ')[0][1]);
    assert(large_rows('1')[0][0] != large_rows('2')[0][0]);
    assert(large_rows('1')[0][0] != large_rows('3')[0][0]);
    assert(large_rows('1')[0][0] != large_rows('4')[0][0]);
    assert(large_rows('1')[0][0] != large_rows('5')[0][0]);
    assert(large_rows('1')[0][1] != large_rows('6')[0][1]);
    assert(large_rows('1')[0][0] != large_rows('7')[0][0]);
    assert(large_rows('1')[0][1] != large_rows('8')[0][1]);
    assert(large_rows('1')[0][1] != large_rows('9')[0][1]);
    assert(large_rows('1')[0][2] != large_rows(' ')[0][2]);
    assert(large_rows('2')[4][0] != large_rows('3')[4][0]);
    assert(large_rows('2')[0][2] != large_rows('4')[0][2]);
    assert(large_rows('2')[0][6] != large_rows('5')[0][6]);
    assert(large_rows('2')[0][0] != large_rows('6')[0][0]);
    assert(large_rows('2')[0][6] != large_rows('7')[0][6]);
    assert(large_rows('2')[0][0] != large_rows('8')[0][0]);
    assert(large_rows('2')[0][0] != large_rows('9')[0][0]);
    assert(large_rows('2')[0][0] != large_rows(' ')[0][0]);
    assert(large_rows('3')[0][2] != large_rows('4')[0][2]);
    assert(large_rows('3')[0][6] != large_rows('5')[0][6]);
    assert(large_rows('3')[0][0] != large_rows('6')[0][0]);
    assert(large_rows('3')[0][6] != large_rows('7')[0][6]);
    assert(large_rows('3')[0][0] != large_rows('8')[0][0]);
    assert(large_rows('3')[0][0] != large_rows('9')[0][0]);
    assert(large_rows('3')[0][0] != large_rows(' ')[0][0]);
    assert(large_rows('4')[0][2] != large_rows('5')[0][2]);
    assert(large_rows('4')[0][0] != large_rows('6')[0][0]);
    assert(large_rows('4')[0][2] != large_rows('7')[0][2]);
    assert(large_rows('4')[0][0] != large_rows('8')[0][0]);
    assert(large_rows('4')[0][0] != large_rows('9')[0][0]);
    assert(large_rows('4')[0][0] != large_rows(' ')[0][0]);
    assert(large_rows('5')[0][0] != large_rows('6')[0][0]);
    assert(large_rows('5')[1][0] != large_rows('7')[1][0]);
    assert(large_rows('5')[0][0] != large_rows('8')[0][0]);
    assert(large_rows('5')[0][0] != large_rows('9')[0][0]);
    assert(large_rows('5')[0][0] != large_rows(' ')[0][0]);
    assert(large_rows('6')[0][0] != large_rows('7')[0][0]);
    assert(large_rows('6')[1][5] != large_rows('8')[1][5]);
    assert(large_rows('6')[1][5] != large_rows('9')[1][5]);
    assert(large_rows('6')[0][1] != large_rows(' ')[0][1]);
    assert(large_rows('7')[0][0] != large_rows('8')[0][0]);
    assert(large_rows('7')[0][0] != large_rows('9')[0][0]);
    assert(large_rows('7')[0][0] != large_rows(' ')[0][0]);
    assert(large_rows('8')[3][6] != large_rows('9')[3][6]);
    assert(large_rows('8')[0][1] != large_rows(' ')[0][1]);
    assert(large_rows('9')[0][1] != large_rows(' ')[0][1]);
}

proof fn lemma_digital_rows_apart()
    ensures
        digital_rows('0') != digital_rows('1'),
        digital_rows('0') != digital_rows('2'),
        digital_rows('0') != digital_rows('3'),
        digital_rows('0') != digital_rows('4'),
        digital_rows('0') != digital_rows('5'),
        digital_rows('0') != digital_rows('6'),
        digital_rows('0') != digital_rows('7'),
        digital_rows('0') != digital_rows('8'),
        digital_rows('0') != digital_rows('9'),
        digital_rows('0') != digital_rows(' '),
        digital_rows('1') != digital_rows('2'),
        digital_rows('1') != digital_rows('3'),
        digital_rows('1') != digital_rows('4'),
        digital_rows('1') != digital_rows('5'),
        digital_rows('1') != digital_rows('6'),
        digital_rows('1') != digital_rows('7'),
        digital_rows('1') != digital_rows('8'),
        digital_rows('1') != digital_rows('9'),
        digital_rows('1') != digital_rows(' '),
        digital_rows('2') != digital_rows('3'),
        digital_rows('2') != digital_rows('4'),
        digital_rows('2') != digital_rows('5'),
        digital_rows('2') != digital_rows('6'),
        digital_rows('2') != digital_rows('7'),
        digital_rows('2') != digital_rows('8'),
        digital_rows('2') != digital_rows('9'),
        digital_rows('2') != digital_rows(' '),
        digital_rows('3') != digital_rows('4'),
        digital_rows('3') != digital_rows('5'),
        digital_rows('3') != digital_rows('6'),
        digital_rows('3') != digital_rows('7'),
        digital_rows('3') != digital_rows('8'),
        digital_rows('3') != digital_rows('9'),
        digital_rows('3') != digital_rows(' '),
        digital_rows('4') != digital_rows('5'),
        digital_rows('4') != digital_rows('6'),
        digital_rows('4') != digital_rows('7'),
        digital_rows('4') != digital_rows('8'),
        digital_rows('4') != digital_rows('9'),
        digital_rows('4') != digital_rows(' '),
        digital_rows('5') != digital_rows('6'),
        digital_rows('5') != digital_rows('7'),
        digital_rows('5') != digital_rows('8'),
        digital_rows('5') != digital_rows('9'),
        digital_rows('5') != digital_rows(' '),
        digital_rows('6') != digital_rows('7'),
        digital_rows('6') != digital_rows('8'),
        digital_rows('6') != digital_rows('9'),
        digital_rows('6') != digital_rows(' '),
        digital_rows('7') != digital_rows('8'),
        digital_rows('7') != digital_rows('9'),
        digital_rows('7') != digital_rows(' '),
        digital_rows('8') != digital_rows('9'),
        digital_rows('8') != digital_rows(' '),
        digital_rows('9') != digital_rows(' '),
{
    reveal(digital_rows);
    reveal_strlit("     ");
    reveal_strlit("    █");
    reveal_strlit("   █ ");
    reveal_strlit("  █  ");
    reveal_strlit(" ███ ");
    reveal_strlit(" ████");
    reveal_strlit("█    ");
    reveal_strlit("█   █");
    reveal_strlit("█  █ ");
    reveal_strlit("████ ");
    reveal_strlit("█████");
    assert(digital_rows('0')[0][1] != digital_rows('1')[0][1]);
    assert(digital_rows('0')[0][0] != digital_rows('2')[0][0]);
    assert(digital_rows('0')[0][0] != digital_rows('3')[0][0]);
    assert(digital_rows('0')[0][0] != digital_rows('4')[0][0]);
    assert(digital_rows('0')[0][0] != digital_rows('5')[0][0]);
    assert(digital_rows('0')[1][4] != digital_rows('6')[1][4]);
    assert(digital_rows('0')[0][0] != digital_rows('7')[0][0]);
    assert(digital_rows('0')[2][0] != digital_rows('8')[2][0]);
    assert(digital_rows('0')[2][0] != digital_rows('9')[2][0]);
    assert(digital_rows('0')[0][1] != digital_rows(' ')[0][1]);
    assert(digital_rows('1')[0][0] != digital_rows('2')[0][0]);
    assert(digital_rows('1')[0][0] != digital_rows('3')[0][0]);
    assert(digital_rows('1')[0][0] != digital_rows('4')[0][0]);
    assert(digital_rows('1')[0][0] != digital_rows('5')[0][0]);
    assert(digital_rows('1')[0][1] != digital_rows('6')[0][1]);
    assert(digital_rows('1')[0][0] != digital_rows('7')[0][0]);
    assert(digital_rows('1')[0][1] != digital_rows('8')[0][1]);
    assert(digital_rows('1')[0][1] != digital_rows('9')[0][1]);
    assert(digital_rows('1')[0][2] != digital_rows(' ')[0][2]);
    assert(digital_rows('2')[3][0] != digital_rows('3')[3][0]);
    assert(digital_rows('2')[0][1] != digital_rows('4')[0][1]);
    assert(digital_rows('2')[0][4] != digital_rows('5')[0][4]);
    assert(digital_rows('2')[0][0] != digital_rows('6')[0][0]);
    assert(digital_rows('2')[0][4] != digital_rows('7')[0][4]);
    assert(digital_rows('2')[0][0] != digital_rows('8')[0][0]);
    assert(digital_rows('2')[0][0] != digital_rows('9')[0][0]);
    assert(digital_rows('2')[0][0] != digital_rows(' ')[0][0]);
    assert(digital_rows('3')[0][1] != digital_rows('4')[0][1]);
    assert(digital_rows('3')[0][4] != digital_rows('5')[0][4]);
    assert(digital_rows('3')[0][0] != digital_rows('6')[0][0]);
    assert(digital_rows('3')[0][4] != digital_rows('7')[0][4]);
    assert(digital_rows('3')[0][0] != digital_rows('8')[0][0]);
    assert(digital_rows('3')[0][0] != digital_rows('9')[0][0]);
    assert(digital_rows('3')[0][0] != digital_rows(' ')[0][0]);
    assert(digital_rows('4')[0][1] != digital_rows('5')[0][1]);
    assert(digital_rows('4')[0][0] != digital_rows('6')[0][0]);
    assert(digital_rows('4')[0][1] != digital_rows('7')[0][1]);
    assert(digital_rows('4')[0][0] != digital_rows('8')[0][0]);
    assert(digital_rows('4')[0][0] != digital_rows('9')[0][0]);
    assert(digital_rows('4')[0][0] != digital_rows(' ')[0][0]);
    assert(digital_rows('5')[0][0] != digital_rows('6')[0][0]);
    assert(digital_rows('5')[1][0] != digital_rows('7')[1][0]);
    assert(digital_rows('5')[0][0] != digital_rows('8')[0][0]);
    assert(digital_rows('5')[0][0] != digital_rows('9')[0][0]);
    assert(digital_rows('5')[0][0] != digital_rows(' ')[0][0]);
    assert(digital_rows('6')[0][0] != digital_rows('7')[0][0]);
    assert(digital_rows('6')[1][4] != digital_rows('8')[1][4]);
    assert(digital_rows('6')[1][4] != digital_rows('9')[1][4]);
    assert(digital_rows('6')[0][1] != digital_rows(' ')[0][1]);
    assert(digital_rows('7')[0][0] != digital_rows('8')[0][0]);
    assert(digital_rows('7')[0][0] != digital_rows('9')[0][0]);
    assert(digital_rows('7')[0][0] != digital_rows(' ')[0][0]);
    assert(digital_rows('8')[2][4] != digital_rows('9')[2][4]);
    assert(digital_rows('8')[0][1] != digital_rows(' ')[0][1]);
    assert(digital_rows('9')[0][1] != digital_rows(' ')[0][1]);
}

/// Every digit has a glyph of its own, in both sizes: no digit is drawn blank (as a
/// character without a glyph is), and no two digits are drawn alike.
pub proof fn lemma_digit_glyphs_apart(x: int, y: int)
    requires
        0 <= x < 10,
        0 <= y < 10,
    ensures
        large_rows(digit_char(x)) != large_rows(' '),
        digital_rows(digit_char(x)) != digital_rows(' '),
        x != y ==> large_rows(digit_char(x)) != large_rows(digit_char(y)),
        x != y ==> digital_rows(digit_char(x)) != digital_rows(digit_char(y)),
{
    lemma_large_rows_apart();
    lemma_digital_rows_apart();
    assert(digit_char(0) == '0') by {
        vstd::utf8::char_u32_cast(digit_char(0), 48);
    }
    assert(digit_char(1) == '1') by {
        vstd::utf8::char_u32_cast(digit_char(1), 49);
    }
    assert(digit_char(2) == '2') by {
        vstd::utf8::char_u32_cast(digit_char(2), 50);
    }
    assert(digit_char(3) == '3') by {
        vstd::utf8::char_u32_cast(digit_char(3), 51);
    }
    assert(digit_char(4) == '4') by {
        vstd::utf8::char_u32_cast(digit_char(4), 52);
    }
    assert(digit_char(5) == '5') by {
        vstd::utf8::char_u32_cast(digit_char(5), 53);
    }
    assert(digit_char(6) == '6') by {
        vstd::utf8::char_u32_cast(digit_char(6), 54);
    }
    assert(digit_char(7) == '7') by {
        vstd::utf8::char_u32_cast(digit_char(7), 55);
    }
    assert(digit_char(8) == '8') by {
        vstd::utf8::char_u32_cast(digit_char(8), 56);
    }
    assert(digit_char(9) == '9') by {
        vstd::utf8::char_u32_cast(digit_char(9), 57);
    }
}

} // verus!
