//! The line drawn around a rectangle: what is printed where.
use crate::editor::fileexplorer::{push_repeat, repeat};
use crate::editor::textfmt::char_str;
use crate::prelude::{Position, Rect};
use vstd::prelude::*;

verus! {

/// A horizontal edge `width` columns wide: the two corners and the line
/// between them.
pub open spec fn edge(left: char, right: char, width: int) -> Seq<char> {
    seq![left] + repeat('─', width - 2) + seq![right]
}

/// What drawing the border of `rect` prints, in order: the top edge, then
/// for each inner row its left and its right side, then the bottom edge.
/// Nothing for a rectangle less than two cells wide or high.
pub open spec fn border_prints(rect: Rect) -> Seq<(Position, Seq<char>)> {
    let row = rect.position.row as int;
    let col = rect.position.col as int;
    let height = rect.size.height as int;
    let width = rect.size.width as int;
    if width < 2 || height < 2 {
        Seq::empty()
    } else {
        let top = (rect.position, edge('┌', '┐', width));
        let sides = Seq::new(
            (2 * (height - 2)) as nat,
            |i: int|
                (
                    Position {
                        row: (row + 1 + i / 2) as usize,
                        col: (if i % 2 == 0 {
                            col
                        } else {
                            col + width - 1
                        }) as usize,
                    },
                    seq!['│'],
                ),
        );
        let bottom = (Position { row: (row + height - 1) as usize, col: rect.position.col }, edge('└', '┘', width));
        seq![top] + sides + seq![bottom]
    }
}

/// The texts of `r`, each with its position.
pub open spec fn printed(r: Seq<(Position, String)>) -> Seq<(Position, Seq<char>)> {
    r.map_values(|e: (Position, String)| (e.0, e.1@))
}

/// Whether the border of `rect` stays on rows and columns that a `usize`
/// can number.
pub open spec fn border_fits(rect: Rect) -> bool {
    rect.size.width >= 2 && rect.size.height >= 2 ==> {
        &&& rect.position.row + rect.size.height - 1 <= usize::MAX
        &&& rect.position.col + rect.size.width - 1 <= usize::MAX
    }
}

fn edge_text(left: char, right: char, width: usize) -> (s: String)
    requires
        width >= 2,
    ensures
        s@ == edge(left, right, width as int),
{
    let mut s = char_str(left);
    push_repeat(&mut s, '─', width - 2);
    crate::editor::stdtext::string_push(&mut s, right);
    s
}

/// What drawing the border of `rect` prints, and where (see
/// [`border_prints`]).
pub fn border_lines(rect: Rect) -> (r: Vec<(Position, String)>)
    requires
        border_fits(rect),
    ensures
        r@.len() == border_prints(rect).len(),
        forall|i: int|
            0 <= i < r@.len() ==> (#[trigger] r@[i]).0 == border_prints(rect)[i].0 && r@[i].1@
                == border_prints(rect)[i].1,
{
    let row = rect.position.row;
    let col = rect.position.col;
    let height = rect.size.height;
    let width = rect.size.width;
    let mut r: Vec<(Position, String)> = Vec::new();
    if width < 2 || height < 2 {
        return r;
    }
    let ghost spec_r = border_prints(rect);
    r.push((rect.position, edge_text('┌', '┐', width)));
    let mut k: usize = 0;
    while k < height - 2
        invariant
            spec_r == border_prints(rect),
            width >= 2 && height >= 2,
            row == rect.position.row && col == rect.position.col,
            height == rect.size.height && width == rect.size.width,
            border_fits(rect),
            k <= height - 2,
            r@.len() == 1 + 2 * k,
            forall|i: int|
                0 <= i < r@.len() ==> (#[trigger] r@[i]).0 == spec_r[i].0 && r@[i].1@ == spec_r[i].1,
        decreases height - 2 - k,
    {
        let side_row = row + 1 + k;
        r.push((Position { row: side_row, col }, char_str('│')));
        r.push((Position { row: side_row, col: col + (width - 1) }, char_str('│')));
        proof {
            assert(spec_r[1 + 2 * k as int] == (Position { row: side_row, col }, seq!['│']));
            assert(spec_r[2 + 2 * k as int] == (Position { row: side_row, col: (col + width - 1) as usize }, seq!['│']));
        }
        k = k + 1;
    }
    r.push((Position { row: row + (height - 1), col }, edge_text('└', '┘', width)));
    r
}

} // verus!
