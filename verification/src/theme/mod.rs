//! The kinds of theme that can be generated.

use vstd::prelude::*;
use crate::hex::{all_dec_digits, dec_spec, law_dec_reads_back, push_byte_dec};

verus! {

/// Represents the theme type.
#[derive(Debug, Clone, Copy, PartialEq, Eq, Structural)]
pub enum ThemeType {
    Dark,
    Light,
}

impl Default for ThemeType {
    /// A theme is dark unless told otherwise.
    fn default() -> (r: Self)
        ensures
            r == ThemeType::Dark,
    {
        ThemeType::Dark
    }
}

/// The terminal escape that paints the background in a color:
/// `ESC[48;2;r;g;bm`.
pub open spec fn ansi_background_spec(c: (u8, u8, u8)) -> Seq<char> {
    "\x1b[48;2;"@ + dec_spec(c.0) + seq![';'] + dec_spec(c.1) + seq![';'] + dec_spec(c.2) + seq!['m']
}

/// Writes the terminal escape that paints the background in the color (what
/// a color displays as in a terminal).
pub fn ansi_background(c: (u8, u8, u8)) -> (s: String)
    ensures
        s@ == ansi_background_spec(c),
{
    let mut s = String::from_str("\x1b[48;2;");
    push_byte_dec(&mut s, c.0);
    s.append(";");
    push_byte_dec(&mut s, c.1);
    s.append(";");
    push_byte_dec(&mut s, c.2);
    s.append("m");
    proof {
        reveal_strlit(";");
        reveal_strlit("m");
    }
    assert(s@ =~= ansi_background_spec(c));
    s
}

/// The labels of the colors of a theme, in the order they are shown.
pub open spec fn theme_labels() -> Seq<Seq<char>> {
    seq![
        "Primary:    "@,
        "Secondary:  "@,
        "Background: "@,
        "Surface:    "@,
        "Border:     "@,
        "Foreground: "@,
        "Muted:      "@,
        "Success:    "@,
        "Warning:    "@,
        "Error:      "@,
    ]
}

/// One line of the theme listing: the label, a swatch of the color and the
/// escape that resets the colors.
pub open spec fn theme_line(label: Seq<char>, c: (u8, u8, u8)) -> Seq<char> {
    label + ansi_background_spec(c) + "  \x1b[0m"@
}

/// The first `n` lines of the theme listing, each ended by a newline.
pub open spec fn theme_lines(colors: Seq<(u8, u8, u8)>, n: int) -> Seq<char>
    decreases n,
{
    if n <= 0 {
        Seq::empty()
    } else {
        theme_lines(colors, n - 1) + theme_line(theme_labels()[n - 1], colors[n - 1]) + seq!['\n']
    }
}

/// The theme listing: a line per color, the last without a newline.
pub open spec fn theme_text_spec(colors: Seq<(u8, u8, u8)>) -> Seq<char> {
    theme_lines(colors, 9) + theme_line(theme_labels()[9], colors[9])
}

/// Whether a text holds no newline.
pub open spec fn no_newline(s: Seq<char>) -> bool {
    forall|i: int| 0 <= i < s.len() ==> #[trigger] s[i] != '\n'
}

/// The lines of `s`, the first of them starting with `cur`: `s` split at
/// every newline.
pub open spec fn split_from(s: Seq<char>, cur: Seq<char>) -> Seq<Seq<char>>
    decreases s.len(),
{
    if s.len() == 0 {
        seq![cur]
    } else if s[0] == '\n' {
        seq![cur] + split_from(s.drop_first(), Seq::empty())
    } else {
        split_from(s.drop_first(), cur.push(s[0]))
    }
}

/// The lines of a text: the text split at every newline.
pub open spec fn split_lines(s: Seq<char>) -> Seq<Seq<char>> {
    split_from(s, Seq::empty())
}

proof fn lemma_split_no_newline(a: Seq<char>, b: Seq<char>, cur: Seq<char>)
    requires
        no_newline(a),
    ensures
        split_from(a + b, cur) == split_from(b, cur + a),
    decreases a.len(),
{
    if a.len() == 0 {
        assert(a + b =~= b);
        assert(cur + a =~= cur);
    } else {
        assert((a + b)[0] == a[0]);
        assert((a + b).drop_first() =~= a.drop_first() + b);
        assert(no_newline(a.drop_first())) by {
            assert forall|i: int| 0 <= i < a.drop_first().len() implies #[trigger] a.drop_first()[i] != '\n' by {
                assert(a.drop_first()[i] == a[i + 1]);
            }
        }
        lemma_split_no_newline(a.drop_first(), b, cur.push(a[0]));
        assert(cur.push(a[0]) + a.drop_first() =~= cur + a);
    }
}

proof fn lemma_line_no_newline(label: Seq<char>, c: (u8, u8, u8))
    requires
        no_newline(label),
    ensures
        no_newline(theme_line(label, c)),
{
    reveal_strlit("\x1b[48;2;");
    reveal_strlit("  \x1b[0m");
    law_dec_reads_back(c.0);
    law_dec_reads_back(c.1);
    law_dec_reads_back(c.2);
    let l = theme_line(label, c);
    assert forall|i: int| 0 <= i < l.len() implies #[trigger] l[i] != '\n' by {
        let p0 = label;
        let p1 = p0 + "\x1b[48;2;"@;
        let p2 = p1 + dec_spec(c.0);
        let p3 = p2 + seq![';'];
        let p4 = p3 + dec_spec(c.1);
        let p5 = p4 + seq![';'];
        let p6 = p5 + dec_spec(c.2);
        let p7 = p6 + seq!['m'];
        assert(l =~= p7 + "  \x1b[0m"@);
        if i >= p7.len() {
        } else if i >= p6.len() {
        } else if i >= p5.len() {
            assert(p6[i] == dec_spec(c.2)[i - p5.len()]);
        } else if i >= p4.len() {
        } else if i >= p3.len() {
            assert(p4[i] == dec_spec(c.1)[i - p3.len()]);
        } else if i >= p2.len() {
        } else if i >= p1.len() {
            assert(p2[i] == dec_spec(c.0)[i - p1.len()]);
        } else if i >= p0.len() {
        } else {
            assert(p1[i] == label[i]);
        }
    }
}

proof fn lemma_labels_no_newline(k: int)
    requires
        0 <= k < 10,
    ensures
        no_newline(theme_labels()[k]),
{
    reveal_strlit("Primary:    ");
    reveal_strlit("Secondary:  ");
    reveal_strlit("Background: ");
    reveal_strlit("Surface:    ");
    reveal_strlit("Border:     ");
    reveal_strlit("Foreground: ");
    reveal_strlit("Muted:      ");
    reveal_strlit("Success:    ");
    reveal_strlit("Warning:    ");
    reveal_strlit("Error:      ");
}

/// The lines of the theme listing, each a label and the swatch of its color.
pub open spec fn listing_lines(colors: Seq<(u8, u8, u8)>, n: int) -> Seq<Seq<char>> {
    Seq::new(n as nat, |k: int| theme_line(theme_labels()[k], colors[k]))
}

proof fn lemma_split_theme_lines(colors: Seq<(u8, u8, u8)>, n: int, rest: Seq<char>)
    requires
        0 <= n <= 9,
        colors.len() == 10,
    ensures
        split_from(theme_lines(colors, n) + rest, Seq::empty()) == listing_lines(colors, n) + split_from(
            rest,
            Seq::empty(),
        ),
    decreases n,
{
    if n == 0 {
        assert(theme_lines(colors, 0) + rest =~= rest);
        assert(listing_lines(colors, 0) + split_from(rest, Seq::empty()) =~= split_from(rest, Seq::empty()));
    } else {
        let line = theme_line(theme_labels()[n - 1], colors[n - 1]);
        let tail = seq!['\n'] + rest;
        assert(theme_lines(colors, n) + rest =~= theme_lines(colors, n - 1) + (line + tail));
        lemma_split_theme_lines(colors, n - 1, line + tail);
        lemma_labels_no_newline(n - 1);
        lemma_line_no_newline(theme_labels()[n - 1], colors[n - 1]);
        lemma_split_no_newline(line, tail, Seq::empty());
        assert(Seq::<char>::empty() + line =~= line);
        assert(tail.drop_first() =~= rest);
        assert(split_from(tail, line) == seq![line] + split_from(rest, Seq::empty()));
        assert(listing_lines(colors, n) =~= listing_lines(colors, n - 1).push(line));
        assert(listing_lines(colors, n - 1) + (seq![line] + split_from(rest, Seq::empty()))
            =~= listing_lines(colors, n) + split_from(rest, Seq::empty()));
    }
}

/// Line `k` of the theme listing is the `k`-th label followed by the swatch
/// of the `k`-th color: split at its newlines, the listing gives exactly the
/// ten lines, in order, and no line holds a newline of its own.
pub proof fn law_theme_text_lines(colors: Seq<(u8, u8, u8)>)
    requires
        colors.len() == 10,
    ensures
        split_lines(theme_text_spec(colors)).len() == 10,
        forall|k: int|
            0 <= k < 10 ==> #[trigger] split_lines(theme_text_spec(colors))[k] == theme_line(
                theme_labels()[k],
                colors[k],
            ),
        forall|k: int| 0 <= k < 10 ==> no_newline(#[trigger] theme_line(theme_labels()[k], colors[k])),
{
    let last = theme_line(theme_labels()[9], colors[9]);
    lemma_split_theme_lines(colors, 9, last);
    lemma_labels_no_newline(9);
    lemma_line_no_newline(theme_labels()[9], colors[9]);
    lemma_split_no_newline(last, Seq::empty(), Seq::empty());
    assert(last + Seq::<char>::empty() =~= last);
    assert(Seq::<char>::empty() + last =~= last);
    assert(split_from(Seq::<char>::empty(), last) == seq![last]);
    assert(listing_lines(colors, 9) + seq![last] =~= listing_lines(colors, 10));
    assert forall|k: int| 0 <= k < 10 implies no_newline(#[trigger] theme_line(theme_labels()[k], colors[k])) by {
        lemma_labels_no_newline(k);
        lemma_line_no_newline(theme_labels()[k], colors[k]);
    }
}

fn theme_label(i: usize) -> (s: &'static str)
    requires
        i < 10,
    ensures
        s@ == theme_labels()[i as int],
{
    match i {
        0 => "Primary:    ",
        1 => "Secondary:  ",
        2 => "Background: ",
        3 => "Surface:    ",
        4 => "Border:     ",
        5 => "Foreground: ",
        6 => "Muted:      ",
        7 => "Success:    ",
        8 => "Warning:    ",
        _ => "Error:      ",
    }
}

/// Writes a theme's colors, given as sRGB bytes in the order primary,
/// secondary, background, surface, border, foreground, muted, success,
/// warning and error, as a labelled listing with a swatch per color (what a
/// theme displays as).
pub fn theme_text(colors: [(u8, u8, u8); 10]) -> (s: String)
    ensures
        s@ == theme_text_spec(colors@),
        split_lines(s@).len() == 10,
        forall|k: int|
            0 <= k < 10 ==> #[trigger] split_lines(s@)[k] == theme_line(theme_labels()[k], colors@[k]),
{
    let mut s = String::new();
    let mut i: usize = 0;
    proof {
        reveal_strlit("\n");
    }
    while i < 9
        invariant
            i <= 9,
            s@ == theme_lines(colors@, i as int),
        decreases 9 - i,
    {
        let ghost prev = s@;
        let label = theme_label(i);
        s.append(label);
        let sw = ansi_background(colors[i]);
        s.append(sw.as_str());
        s.append("  \x1b[0m");
        s.append("\n");
        proof {
            reveal_strlit("\n");
        }
        assert(colors@[i as int] == colors[i as int]);
        assert(s@ =~= prev + theme_line(theme_labels()[i as int], colors@[i as int]) + seq!['\n']);
        i = i + 1;
        assert(s@ =~= theme_lines(colors@, i as int));
    }
    s.append(theme_label(9));
    let sw = ansi_background(colors[9]);
    s.append(sw.as_str());
    s.append("  \x1b[0m");
    assert(s@ =~= theme_text_spec(colors@));
    proof {
        law_theme_text_lines(colors@);
    }
    s
}

} // verus!
