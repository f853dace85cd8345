//! Drawing a board as text: every cell becomes a box of three lines of five
//! characters, chosen by the symbol in the cell.

use crate::board::{Board, EMPTY_CELL};
use crate::grid::{lemma_index_in_range, BoardView};
use crate::piece::{lemma_footprint_valid, TetrisBlock};
use vstd::prelude::*;
use vstd::string::StringExecFns;

verus! {

/// The three lines of the box that stands for one cell.
pub type DisplayCell = (&'static str, &'static str, &'static str);

/// The box for each symbol that a cell can hold.
pub const ENLARGED: [(char, DisplayCell); 15] = [
    (EMPTY_CELL, ("     ", "  •  ", "     ")),
    ('┏', ("┏━━━━", "┃    ", "┃   ┏")),
    ('┓', ("━━━━┓", "    ┃", "┓   ┃")),
    ('┗', ("┃   ┗", "┃    ", "┗━━━━")),
    ('┛', ("┛   ┃", "    ┃", "━━━━┛")),
    ('┻', ("┛   ┗", "     ", "━━━━━")),
    ('┣', ("┃   ┗", "┃    ", "┃   ┏")),
    ('┳', ("━━━━━", "     ", "┓   ┏")),
    ('┫', ("┛   ┃", "    ┃", "┓   ┃")),
    ('┃', ("┃   ┃", "┃   ┃", "┃   ┃")),
    ('━', ("━━━━━", "     ", "━━━━━")),
    ('╻', ("┏━━━┓", "┃   ┃", "┃   ┃")),
    ('╹', ("┃   ┃", "┃   ┃", "┗━━━┛")),
    ('╺', ("┏━━━━", "┃    ", "┗━━━━")),
    ('╸', ("━━━━┓", "    ┃", "━━━━┛")),
];

/// Whether there is a box for the symbol.
pub open spec fn known(symbol: char) -> bool {
    exists|i: int| 0 <= i < 15 && (#[trigger] ENLARGED@[i]).0 == symbol
}

/// The box for the symbol, if there is one.
pub open spec fn enlarged(symbol: char) -> Option<DisplayCell> {
    if known(symbol) {
        Some(ENLARGED@[choose|i: int| 0 <= i < 15 && (#[trigger] ENLARGED@[i]).0 == symbol].1)
    } else {
        None
    }
}

/// Line `r` of a box, counted from zero.
pub open spec fn part(cell: DisplayCell, r: int) -> Seq<char> {
    if r == 0 {
        cell.0@
    } else if r == 1 {
        cell.1@
    } else {
        cell.2@
    }
}

/// Line `r` of each of the first `upto` boxes, one after the other.
pub open spec fn joined(row: Seq<DisplayCell>, r: int, upto: int) -> Seq<char>
    decreases upto,
{
    if upto <= 0 {
        Seq::empty()
    } else {
        joined(row, r, upto - 1) + part(row[upto - 1], r)
    }
}

impl BoardView {
    /// Whether there is a box for the symbol of every cell.
    pub open spec fn drawable(self) -> bool {
        forall|x: int, y: int| self.in_bounds(x, y) ==> known(#[trigger] self.at(x, y))
    }

    /// The boxes of the cells of row `y`, from the left.
    pub open spec fn boxes(self, y: int) -> Seq<DisplayCell> {
        Seq::new(self.width as nat, |x: int| enlarged(self.at(x, y)).unwrap())
    }

    /// The three lines of text that show row `y`, each ended by a line
    /// feed.
    pub open spec fn strip(self, y: int) -> Seq<char> {
        joined(self.boxes(y), 0, self.width) + "\n"@ + joined(self.boxes(y), 1, self.width) + "\n"@
            + joined(self.boxes(y), 2, self.width) + "\n"@
    }

    /// The text that shows the first `upto` rows.
    pub open spec fn text(self, upto: int) -> Seq<char>
        decreases upto,
    {
        if upto <= 0 {
            Seq::empty()
        } else {
            self.text(upto - 1) + self.strip(upto - 1)
        }
    }
}

/// The box for a symbol, if there is one.
pub fn enlarge(symbol: char) -> (cell: Option<DisplayCell>)
    ensures
        cell == enlarged(symbol),
{
    let mut i: usize = 0;
    while i < 15
        invariant
            0 <= i <= 15,
            forall|k: int| 0 <= k < i ==> (#[trigger] ENLARGED@[k]).0 != symbol,
        decreases 15 - i,
    {
        if ENLARGED[i].0 == symbol {
            proof {
                lemma_keys_differ();
            }
            return Some(ENLARGED[i].1);
        }
        i += 1;
    }
    None
}

/// No symbol has two boxes.
proof fn lemma_keys_differ()
    ensures
        forall|i: int, j: int|
            0 <= i < j < 15 ==> (#[trigger] ENLARGED@[i]).0 != (#[trigger] ENLARGED@[j]).0,
{
}

/// Appends line `r` of each box of the row, and a line feed.
fn append_line(out: &mut String, row: &Vec<DisplayCell>, r: usize)
    requires
        r < 3,
    ensures
        final(out)@ == old(out)@ + joined(row@, r as int, row@.len() as int) + "\n"@,
{
    let ghost before = out@;
    let mut k: usize = 0;
    while k < row.len()
        invariant
            0 <= k <= row.len(),
            r < 3,
            out@ == before + joined(row@, r as int, k as int),
        decreases row.len() - k,
    {
        let cell = row[k];
        let line = if r == 0 {
            cell.0
        } else if r == 1 {
            cell.1
        } else {
            cell.2
        };
        out.append(line);
        k += 1;
        assert(out@ =~= before + joined(row@, r as int, k as int));
    }
    out.append("\n");
}

impl Board {
    /// The board as text, three lines for every row of cells; `None` if a
    /// cell holds a symbol for which there is no box.
    pub fn render(&self) -> (out: Option<String>)
        requires
            self@.inv(),
        ensures
            match out {
                Some(text) => self@.drawable() && text@ == self@.text(self@.height),
                None => !self@.drawable(),
            },
    {
        let height = self.height();
        let width = self.width();
        let mut out = String::new();
        let mut y: u8 = 0;
        while y < height
            invariant
                0 <= y <= height,
                self@.inv(),
                height == self@.height,
                width == self@.width,
                out@ == self@.text(y as int),
                forall|u: int, v: int|
                    self@.in_bounds(u, v) && v < y ==> known(#[trigger] self@.at(u, v)),
            decreases height - y,
        {
            let mut row: Vec<DisplayCell> = Vec::new();
            let mut x: u8 = 0;
            while x < width
                invariant
                    0 <= x <= width,
                    0 <= y < height,
                    self@.inv(),
                    height == self@.height,
                    width == self@.width,
                    row@.len() == x,
                    forall|u: int| 0 <= u < x ==> row@[u] == #[trigger] self@.boxes(y as int)[u],
                    forall|u: int, v: int|
                        self@.in_bounds(u, v) && (v < y || (v == y && u < x)) ==> known(
                            #[trigger] self@.at(u, v),
                        ),
                decreases width - x,
            {
                proof {
                    lemma_index_in_range(self@, x as int, y as int);
                }
                if let Some(symbol) = self.get((x, y)) {
                    if let Some(cell) = enlarge(*symbol) {
                        row.push(cell);
                    } else {
                        assert(!known(self@.at(x as int, y as int)));
                        return None;
                    }
                } else {
                    return None;
                }
                x += 1;
            }
            assert(row@ =~= self@.boxes(y as int));
            append_line(&mut out, &row, 0);
            append_line(&mut out, &row, 1);
            append_line(&mut out, &row, 2);
            y += 1;
            assert(out@ =~= self@.text(y as int));
        }
        Some(out)
    }
}

/// There is a box for every symbol that a piece draws.
pub proof fn lemma_symbols_known(block: TetrisBlock)
    ensures
        forall|k: int| 0 <= k < 4 ==> known(#[trigger] block.symbol(k)),
        known(EMPTY_CELL),
{
    assert(known(ENLARGED@[0].0));
    assert(known(ENLARGED@[1].0));
    assert(known(ENLARGED@[2].0));
    assert(known(ENLARGED@[3].0));
    assert(known(ENLARGED@[4].0));
    assert(known(ENLARGED@[5].0));
    assert(known(ENLARGED@[6].0));
    assert(known(ENLARGED@[7].0));
    assert(known(ENLARGED@[8].0));
    assert(known(ENLARGED@[9].0));
    assert(known(ENLARGED@[10].0));
    assert(known(ENLARGED@[11].0));
    assert(known(ENLARGED@[12].0));
    assert(known(ENLARGED@[13].0));
    assert(known(ENLARGED@[14].0));
}

/// A well-formed board can be drawn: an empty cell holds the symbol for
/// empty cells, and every other cell a symbol of the piece that occupies it.
pub proof fn lemma_wf_drawable(v: BoardView)
    requires
        v.wf(),
    ensures
        v.drawable(),
{
    assert forall|x: int, y: int| v.in_bounds(x, y) implies known(#[trigger] v.at(x, y)) by {
        if v.at(x, y) == EMPTY_CELL {
            lemma_symbols_known(TetrisBlock::O);
        } else {
            assert(v.occupied(x, y));
            let i = choose|i: int| 0 <= i < v.placed.len() && (#[trigger] v.placed[i]).covers(x, y);
            let p = v.placed[i];
            assert(v.shows(p));
            lemma_symbols_known(p.block);
            lemma_footprint_valid(p.block);
        }
    }
}

} // verus!
