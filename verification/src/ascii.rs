//! The art/text compositor: lays out pre-split art lines and description
//! lines as rows of text, interleaved beside the art, stacked under it, or
//! the art alone. The rows are returned; the surrounding program prints
//! them one per line.

use vstd::prelude::*;
use crate::strutil::{pad_to_width, spaces, spec_pad, spec_lines, spec_spaces,
    split_lines, views};

verus! {

/// The row at which the description block starts beside the art: one row
/// above the midpoint for art of three or more lines, the midpoint itself
/// for shorter art.
pub open spec fn spec_desc_start(n: nat) -> nat {
    if n >= 3 {
        (n / 2 - 1) as nat
    } else {
        n / 2
    }
}

/// The width a description line is padded to: the left padding plus the
/// widest description line plus one, capped at the machine limit.
pub open spec fn spec_sep_width(pad: nat, w: nat) -> nat {
    if pad + w + 1 <= usize::MAX {
        pad + w + 1
    } else {
        usize::MAX as nat
    }
}

/// The width of the widest line, in characters.
pub open spec fn spec_max_width(lines: Seq<Seq<char>>) -> nat
    decreases lines.len(),
{
    if lines.len() == 0 {
        0
    } else if spec_max_width(lines.drop_last()) >= lines.last().len() {
        spec_max_width(lines.drop_last())
    } else {
        lines.last().len()
    }
}

/// A description line as printed: dimmed, padded to the separator width,
/// and reset.
pub open spec fn spec_styled(s: Seq<char>, width: nat) -> Seq<char> {
    "\u{1b}[37m"@ + spec_pad(s, width) + "\u{1b}[0m"@
}

/// The notice printed when a record has no description in the language.
pub open spec fn spec_no_desc_notice(pad: nat, language: Seq<char>) -> Seq<char> {
    spec_spaces(pad) + "No descriptions available for language: "@ + language
}

/// The rows of the interleaved layout: each art line padded, two tab
/// stops, and the description line of that row if one applies; one notice
/// row after the art when there is no description at all.
pub open spec fn spec_interleave_rows(
    lines: Seq<Seq<char>>,
    descs: Seq<Seq<char>>,
    pad: nat,
    language: Seq<char>,
) -> Seq<Seq<char>> {
    let start = spec_desc_start(lines.len());
    let w = spec_sep_width(pad, spec_max_width(descs));
    let art_rows = Seq::new(
        lines.len(),
        |i: int|
            spec_pad(lines[i], pad) + "\t\t"@ + if start <= i && i - start < descs.len() {
                spec_styled(descs[i - start], w)
            } else {
                Seq::<char>::empty()
            },
    );
    if descs.len() == 0 {
        art_rows.push(spec_no_desc_notice(pad, language))
    } else {
        art_rows
    }
}

/// The rows of the stacked layout: every art line padded, then every
/// description line styled, or the notice row when there is none.
pub open spec fn spec_stacked_rows(
    lines: Seq<Seq<char>>,
    descs: Seq<Seq<char>>,
    pad: nat,
    language: Seq<char>,
) -> Seq<Seq<char>> {
    let w = spec_sep_width(pad, spec_max_width(descs));
    let art_rows = Seq::new(lines.len(), |i: int| spec_pad(lines[i], pad));
    if descs.len() == 0 {
        art_rows.push(spec_no_desc_notice(pad, language))
    } else {
        art_rows + Seq::new(descs.len(), |j: int| spec_styled(descs[j], w))
    }
}

/// The rows of the plain layout: every art line padded, nothing else.
pub open spec fn spec_plain_rows(lines: Seq<Seq<char>>, pad: nat) -> Seq<Seq<char>> {
    Seq::new(lines.len(), |i: int| spec_pad(lines[i], pad))
}

/// The widest of the given lines, in characters.
pub fn max_width(lines: &Vec<String>) -> (r: usize)
    ensures
        r == spec_max_width(views(lines@)),
{
    let n = lines.len();
    let mut r: usize = 0;
    let mut i: usize = 0;
    proof {
        assert(views(lines@).take(0) =~= Seq::<Seq<char>>::empty());
    }
    while i < n
        invariant
            i <= n,
            n == lines@.len(),
            r == spec_max_width(views(lines@).take(i as int)),
        decreases n - i,
    {
        let w = lines[i].as_str().unicode_len();
        proof {
            assert(views(lines@).take(i + 1).drop_last() =~= views(lines@).take(i as int));
            assert(views(lines@).take(i + 1).last() == lines@[i as int]@);
        }
        if w > r {
            r = w;
        }
        i = i + 1;
    }
    proof {
        assert(views(lines@).take(n as int) =~= views(lines@));
    }
    r
}

/// The separator width as `spec_sep_width` has it, without overflowing.
fn sep_width(pad: usize, w: usize) -> (r: usize)
    ensures
        r == spec_sep_width(pad as nat, w as nat),
{
    if pad <= usize::MAX - 1 && w <= usize::MAX - 1 - pad {
        pad + w + 1
    } else {
        usize::MAX
    }
}

/// One styled description row.
fn styled_line(s: &str, width: usize) -> (r: String)
    ensures
        r@ == spec_styled(s@, width as nat),
{
    let mut l = "\u{1b}[37m".to_owned();
    let p = pad_to_width(s, width);
    l.append(p.as_str());
    l.append("\u{1b}[0m");
    l
}

/// The notice row for a language with no descriptions.
fn no_desc_notice(pad: usize, language: &str) -> (r: String)
    ensures
        r@ == spec_no_desc_notice(pad as nat, language@),
{
    let mut l = spaces(pad);
    l.append("No descriptions available for language: ");
    l.append(language);
    l
}

/// Lays out the art with the description beside it. The description block
/// starts one row above the art's midpoint when the art has three or more
/// lines, and at the midpoint otherwise; description lines beyond the art
/// are not shown; with no description at all, a notice row follows the
/// art.
pub fn draw_pokemon_art(art: &str, desc_lines: &Vec<String>, padding_left: usize, language:
    &str) -> (r: Vec<String>)
    ensures
        views(r@) == spec_interleave_rows(
            spec_lines(art@),
            views(desc_lines@),
            padding_left as nat,
            language@,
        ),
{
    let lines = split_lines(art);
    let desc_width = max_width(desc_lines);
    let w = sep_width(padding_left, desc_width);
    let n = lines.len();
    let start: usize = if n >= 3 {
        n / 2 - 1
    } else {
        n / 2
    };
    let ghost descs = views(desc_lines@);
    let ghost rows = spec_interleave_rows(spec_lines(art@), descs, padding_left as nat, language@);
    let mut r: Vec<String> = Vec::new();
    let mut i: usize = 0;
    while i < n
        invariant
            i <= n,
            n == lines@.len(),
            views(lines@) == spec_lines(art@),
            descs == views(desc_lines@),
            rows == spec_interleave_rows(spec_lines(art@), descs, padding_left as nat, language@),
            start == spec_desc_start(lines@.len() as nat),
            w == spec_sep_width(padding_left as nat, spec_max_width(descs)),
            r@.len() == i,
            forall|j: int| 0 <= j < i ==> (#[trigger] r@[j])@ == rows[j],
        decreases n - i,
    {
        let mut row = pad_to_width(lines[i].as_str(), padding_left);
        row.append("\t\t");
        if i >= start && i - start < desc_lines.len() {
            let styled = styled_line(desc_lines[i - start].as_str(), w);
            row.append(styled.as_str());
        }
        proof {
            assert(views(lines@)[i as int] == lines@[i as int]@);
            if i >= start && i - start < descs.len() {
                assert(descs[i - start] == desc_lines@[i - start]@);
            } else {
                assert(row@ =~= spec_pad(lines@[i as int]@, padding_left as nat) + "\t\t"@
                    + Seq::<char>::empty());
            }
        }
        r.push(row);
        i = i + 1;
    }
    if desc_lines.len() == 0 {
        let notice = no_desc_notice(padding_left, language);
        r.push(notice);
    }
    proof {
        assert(views(r@) =~= rows);
    }
    r
}

/// Lays out the art with the description under it: every art line padded,
/// then every description line styled, or the notice row when the record
/// has no description in the language.
pub fn draw_pokemon_art_under(art: &str, desc_lines: &Vec<String>, padding_left: usize, language:
    &str) -> (r: Vec<String>)
    ensures
        views(r@) == spec_stacked_rows(
            spec_lines(art@),
            views(desc_lines@),
            padding_left as nat,
            language@,
        ),
{
    let lines = split_lines(art);
    let desc_width = max_width(desc_lines);
    let w = sep_width(padding_left, desc_width);
    let n = lines.len();
    let ghost descs = views(desc_lines@);
    let ghost rows = spec_stacked_rows(spec_lines(art@), descs, padding_left as nat, language@);
    let mut r: Vec<String> = Vec::new();
    let mut i: usize = 0;
    while i < n
        invariant
            i <= n,
            n == lines@.len(),
            views(lines@) == spec_lines(art@),
            r@.len() == i,
            forall|j: int|
                0 <= j < i ==> (#[trigger] r@[j])@ == spec_pad(
                    views(lines@)[j],
                    padding_left as nat,
                ),
        decreases n - i,
    {
        proof {
            assert(views(lines@)[i as int] == lines@[i as int]@);
        }
        let row = pad_to_width(lines[i].as_str(), padding_left);
        r.push(row);
        i = i + 1;
    }
    let m = desc_lines.len();
    if m > 0 {
        let mut j: usize = 0;
        while j < m
            invariant
                j <= m,
                m == desc_lines@.len(),
                m > 0,
                n == lines@.len(),
                views(lines@) == spec_lines(art@),
                descs == views(desc_lines@),
                w == spec_sep_width(padding_left as nat, spec_max_width(descs)),
                r@.len() == n + j,
                forall|k: int|
                    0 <= k < n ==> (#[trigger] r@[k])@ == spec_pad(
                        views(lines@)[k],
                        padding_left as nat,
                    ),
                forall|k: int|
                    0 <= k < j ==> (#[trigger] r@[n + k])@ == spec_styled(descs[k], w as nat),
            decreases m - j,
        {
            proof {
                assert(descs[j as int] == desc_lines@[j as int]@);
            }
            let row = styled_line(desc_lines[j].as_str(), w);
            r.push(row);
            j = j + 1;
        }
    } else {
        let notice = no_desc_notice(padding_left, language);
        r.push(notice);
    }
    proof {
        assert forall|k: int| 0 <= k < views(r@).len() implies views(r@)[k] == rows[k] by {
            assert(views(r@)[k] == r@[k]@);
            if k >= n {
                let j = k - n;
                if desc_lines@.len() > 0 {
                    assert(r@[n + j]@ == spec_styled(descs[j], w as nat));
                }
            }
        }
        assert(views(r@) =~= rows);
    }
    r
}

/// Lays out the art alone, every line padded to the left padding width.
pub fn print_ascii_art(art: &str, padding_left: usize) -> (r: Vec<String>)
    ensures
        views(r@) == spec_plain_rows(spec_lines(art@), padding_left as nat),
{
    let lines = split_lines(art);
    let n = lines.len();
    let mut r: Vec<String> = Vec::new();
    let mut i: usize = 0;
    while i < n
        invariant
            i <= n,
            n == lines@.len(),
            views(lines@) == spec_lines(art@),
            r@.len() == i,
            forall|j: int|
                0 <= j < i ==> (#[trigger] r@[j])@ == spec_pad(
                    views(lines@)[j],
                    padding_left as nat,
                ),
        decreases n - i,
    {
        proof {
            assert(views(lines@)[i as int] == lines@[i as int]@);
        }
        let row = pad_to_width(lines[i].as_str(), padding_left);
        r.push(row);
        i = i + 1;
    }
    proof {
        assert(views(r@) =~= spec_plain_rows(spec_lines(art@), padding_left as nat));
    }
    r
}

} // verus!
