//! The board: a grid of symbols and the stack of pieces placed on it.

use crate::grid::{
    lemma_index_in_range, lemma_place_inv, lemma_place_wf, lemma_unplace_wf, BoardView,
};
pub use crate::piece::{
    Direction, Line, Placement, Sigil, SigilCell, TetrisBlock, TetrisShape, EMPTY_CELL,
    TETRIS_SHAPE_COUNT,
};
use vstd::prelude::*;

verus! {

/// A rectangular grid of cells, each empty or marked with the symbol of the
/// piece that occupies it, and the pieces placed so far, the latest on top.
pub struct Board {
    shape: (u8, u8),
    cells: Vec<char>,
    sigils: Vec<Sigil>,
}

impl View for Board {
    type V = BoardView;

    closed spec fn view(&self) -> BoardView {
        BoardView {
            width: self.shape.0 as int,
            height: self.shape.1 as int,
            cells: self.cells@,
            placed: self.sigils@.map_values(|s: Sigil| s@),
        }
    }
}

impl Board {
    /// An empty board of the given size.
    pub fn new(width: u8, height: u8) -> (board: Self)
        ensures
            board@ == BoardView::blank(width as int, height as int),
            board@.wf(),
    {
        assert(width as usize * height as usize <= 255 * 255) by (nonlinear_arith)
            requires
                width <= 255,
                height <= 255,
        ;
        let cells = vec![EMPTY_CELL; width as usize * height as usize];
        let board = Board { shape: (width, height), cells, sigils: Vec::new() };
        proof {
            let blank = BoardView::blank(width as int, height as int);
            assert(board@.cells =~= blank.cells);
            assert(board@.placed =~= blank.placed);
            assert forall|x: int, y: int| #[trigger] blank.occupied(x, y) implies blank.owned(
                x,
                y,
            ) by {
                lemma_index_in_range(blank, x, y);
            }
        }
        board
    }

    /// The number of pieces on the board.
    pub fn sigil_count(&self) -> (count: usize)
        ensures
            count == self@.placed.len(),
    {
        self.sigils.len()
    }

    /// How many more pieces the area of the grid has room for: a quarter of
    /// the number of cells, rounded down, less the pieces already placed.
    pub fn capacity(&self) -> (room: usize)
        requires
            self@.placed.len() <= self@.width * self@.height / 4,
        ensures
            room == self@.width * self@.height / 4 - self@.placed.len(),
    {
        assert(self.shape.0 as usize * self.shape.1 as usize <= 255 * 255) by (nonlinear_arith)
            requires
                self.shape.0 <= 255,
                self.shape.1 <= 255,
        ;
        self.width() as usize * self.height() as usize / 4 - self.sigil_count()
    }

    /// The number of columns.
    pub fn width(&self) -> (width: u8)
        ensures
            width == self@.width,
    {
        self.shape.0
    }

    /// The number of rows.
    pub fn height(&self) -> (height: u8)
        ensures
            height == self@.height,
    {
        self.shape.1
    }

    /// The place of a cell in row-major order.
    pub fn calc_index(&self, cell: (u8, u8)) -> (index: usize)
        ensures
            index == self@.index(cell.0 as int, cell.1 as int),
    {
        assert(self.shape.0 as usize * cell.1 as usize <= 255 * 255) by (nonlinear_arith)
            requires
                self.shape.0 <= 255,
                cell.1 <= 255,
        ;
        cell.0 as usize + self.width() as usize * cell.1 as usize
    }

    /// The symbol at the cell's place in row-major order, if the grid has
    /// that many cells.
    pub fn get(&self, cell: (u8, u8)) -> (symbol: Option<&char>)
        ensures
            self@.index(cell.0 as int, cell.1 as int) < self@.cells.len() ==> symbol == Some(
                &self@.at(cell.0 as int, cell.1 as int),
            ),
            self@.index(cell.0 as int, cell.1 as int) >= self@.cells.len() ==> symbol.is_none(),
    {
        let index = self.calc_index(cell);
        if index < self.cells.len() {
            Some(&self.cells[index])
        } else {
            None
        }
    }

    /// Whether the cell lies on the grid and is empty.
    pub fn is_cell_avaiable(&self, cell: (i16, i16)) -> (free: bool)
        requires
            self@.inv(),
        ensures
            free == self@.is_available(cell.0 as int, cell.1 as int),
    {
        let (x, y) = cell;
        if x < 0 || y < 0 || x >= self.width() as i16 || y >= self.height() as i16 {
            return false;
        }
        proof {
            lemma_index_in_range(self@, x as int, y as int);
        }
        self.cells[self.calc_index((x as u8, y as u8))] == EMPTY_CELL
    }

    /// Whether all four cells of the piece lie on the grid and are empty.
    pub fn can_sigil_be_placed(&self, sigil: &Sigil) -> (fits: bool)
        requires
            self@.inv(),
        ensures
            fits == self@.can_place(sigil@),
    {
        let cells = sigil.cells();
        self.is_cell_avaiable(cells[0].0) && self.is_cell_avaiable(cells[1].0)
            && self.is_cell_avaiable(cells[2].0) && self.is_cell_avaiable(cells[3].0)
    }

    /// Writes a symbol into the cell at the given place in row-major order.
    /// The pieces on the board stay as they are, so the board is well-formed
    /// afterwards only if the symbol is the one that the cell held.
    pub fn update(&mut self, cell: (u8, u8), item: char)
        requires
            old(self)@.index(cell.0 as int, cell.1 as int) < old(self)@.cells.len(),
        ensures
            final(self)@ == (BoardView {
                cells: old(self)@.cells.update(
                    old(self)@.index(cell.0 as int, cell.1 as int),
                    item,
                ),
                ..old(self)@
            }),
    {
        let idx = self.calc_index(cell);
        self.cells[idx] = item;
    }

    /// Places the piece if its four cells lie on the grid and are empty, and
    /// hands it back otherwise, leaving the board as it was.
    pub fn add_sigil(&mut self, sigil: Sigil) -> (outcome: Result<(), Sigil>)
        requires
            old(self)@.inv(),
        ensures
            final(self)@.inv(),
            match outcome {
                Ok(()) => old(self)@.can_place(sigil@) && final(self)@ == old(self)@.place(sigil@),
                Err(back) => !old(self)@.can_place(sigil@) && back == sigil && final(self)@ == old(
                    self,
                )@,
            },
            old(self)@.wf() ==> final(self)@.wf(),
    {
        if !self.can_sigil_be_placed(&sigil) {
            return Err(sigil);
        }
        let ghost before = self@;
        let ghost piece = sigil@;
        proof {
            if before.wf() {
                lemma_place_wf(before, piece);
            }
        }
        let cells = sigil.cells();
        let mut k: usize = 0;
        while k < 4
            invariant
                0 <= k <= 4,
                before.inv(),
                before.within(piece),
                self@.width == before.width,
                self@.height == before.height,
                self@.placed == before.placed,
                self@.cells == before.stamped(piece, k as int),
                self@.cells.len() == before.cells.len(),
                forall|j: int|
                    0 <= j < 4 ==> {
                        &&& (#[trigger] cells[j]).0.0 == piece.cell(j).0
                        &&& cells[j].0.1 == piece.cell(j).1
                        &&& cells[j].1 == piece.block.symbol(j)
                    },
            decreases 4 - k,
        {
            let ((x, y), symbol) = cells[k];
            proof {
                lemma_index_in_range(
                    before,
                    piece.cell(k as int).0,
                    piece.cell(k as int).1,
                );
            }
            self.update((x as u8, y as u8), symbol);
            k += 1;
        }
        proof {
            assert(self.sigils@.push(sigil).map_values(|s: Sigil| s@) =~= self.sigils@.map_values(
                |s: Sigil| s@,
            ).push(piece));
            lemma_place_inv(before, piece);
        }
        self.sigils.push(sigil);
        Ok(())
    }

    /// Takes the most recently placed piece off the board, emptying its four
    /// cells, and returns it; does nothing on a board without pieces.
    pub fn pop_sigil(&mut self) -> (top: Option<Sigil>)
        requires
            old(self)@.inv(),
        ensures
            final(self)@.inv(),
            match top {
                Some(sigil) => old(self)@.placed.len() > 0 && sigil@ == old(self)@.placed.last()
                    && final(self)@ == old(self)@.unplace(),
                None => old(self)@.placed.len() == 0 && final(self)@ == old(self)@,
            },
            old(self)@.wf() ==> final(self)@.wf(),
    {
        let ghost before = self@;
        proof {
            if before.wf() && before.placed.len() > 0 {
                lemma_unplace_wf(before);
            }
            if self.sigils@.len() > 0 {
                assert(self.sigils@.drop_last().map_values(|s: Sigil| s@)
                    =~= self.sigils@.map_values(|s: Sigil| s@).drop_last());
                assert(before.within(before.placed[before.placed.len() - 1]));
                lemma_unplace_inv(before);
            }
        }
        if let Some(sigil) = self.sigils.pop() {
            let ghost piece = sigil@;
            let cells = sigil.cells();
            let mut k: usize = 0;
            while k < 4
                invariant
                    0 <= k <= 4,
                    before.inv(),
                    before.within(piece),
                    self@.width == before.width,
                    self@.height == before.height,
                    self@.placed == before.placed.drop_last(),
                    self@.cells == before.cleared(piece, k as int),
                    self@.cells.len() == before.cells.len(),
                    forall|j: int|
                        0 <= j < 4 ==> {
                            &&& (#[trigger] cells[j]).0.0 == piece.cell(j).0
                            &&& cells[j].0.1 == piece.cell(j).1
                        },
                decreases 4 - k,
            {
                let ((x, y), _) = cells[k];
                proof {
                    lemma_index_in_range(
                        before,
                        piece.cell(k as int).0,
                        piece.cell(k as int).1,
                    );
                }
                self.update((x as u8, y as u8), EMPTY_CELL);
                k += 1;
            }
            Some(sigil)
        } else {
            None
        }
    }
}

/// A board keeps its invariant when its latest piece is taken off the
/// stack, whatever is then written into its cells.
proof fn lemma_unplace_inv(v: BoardView)
    requires
        v.inv(),
        v.placed.len() > 0,
    ensures
        forall|i: int|
            0 <= i < v.placed.drop_last().len() ==> v.within(#[trigger] v.placed.drop_last()[i]),
{
    assert forall|i: int| 0 <= i < v.placed.drop_last().len() implies v.within(
        #[trigger] v.placed.drop_last()[i],
    ) by {
        assert(v.placed.drop_last()[i] == v.placed[i]);
    }
}

} // verus!
