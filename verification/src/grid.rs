//! The mathematical model of a board: a grid of symbols in row-major order
//! and the pieces placed on it, in the order in which they were placed.
//!
//! A board is well-formed when its occupied cells are exactly the cells of
//! its placed pieces, each cell belonging to one piece only.

use crate::piece::{lemma_cells_differ, lemma_footprint_valid, Placement, EMPTY_CELL};
use vstd::prelude::*;

verus! {

/// What a [`crate::board::Board`] stands for.
pub struct BoardView {
    pub width: int,
    pub height: int,
    /// The symbol of each cell, row after row.
    pub cells: Seq<char>,
    /// The pieces on the board, the most recent one last.
    pub placed: Seq<Placement>,
}

/// The number of empty cells among `cells`.
pub open spec fn count_free(cells: Seq<char>) -> nat
    decreases cells.len(),
{
    if cells.len() == 0 {
        0
    } else {
        count_free(cells.drop_last()) + if cells.last() == EMPTY_CELL {
            1nat
        } else {
            0nat
        }
    }
}

impl BoardView {
    /// Whether `(x, y)` is a cell of the grid.
    pub open spec fn in_bounds(self, x: int, y: int) -> bool {
        0 <= x < self.width && 0 <= y < self.height
    }

    /// The place of the cell `(x, y)` in `cells`.
    pub open spec fn index(self, x: int, y: int) -> int {
        x + self.width * y
    }

    /// The symbol in the cell `(x, y)`.
    pub open spec fn at(self, x: int, y: int) -> char {
        self.cells[self.index(x, y)]
    }

    /// Whether `(x, y)` is a cell of the grid that no symbol marks.
    pub open spec fn is_available(self, x: int, y: int) -> bool {
        self.in_bounds(x, y) && self.at(x, y) == EMPTY_CELL
    }

    /// Whether `(x, y)` is a cell of the grid that a symbol marks.
    pub open spec fn occupied(self, x: int, y: int) -> bool {
        self.in_bounds(x, y) && self.at(x, y) != EMPTY_CELL
    }

    /// Whether the four cells of `p` lie on the grid.
    pub open spec fn within(self, p: Placement) -> bool {
        &&& self.in_bounds(p.cell(0).0, p.cell(0).1)
        &&& self.in_bounds(p.cell(1).0, p.cell(1).1)
        &&& self.in_bounds(p.cell(2).0, p.cell(2).1)
        &&& self.in_bounds(p.cell(3).0, p.cell(3).1)
    }

    /// Whether the four cells of `p` lie on the grid and are empty.
    pub open spec fn can_place(self, p: Placement) -> bool {
        &&& self.is_available(p.cell(0).0, p.cell(0).1)
        &&& self.is_available(p.cell(1).0, p.cell(1).1)
        &&& self.is_available(p.cell(2).0, p.cell(2).1)
        &&& self.is_available(p.cell(3).0, p.cell(3).1)
    }

    /// Whether each cell of `p` carries the symbol that `p` draws there.
    pub open spec fn shows(self, p: Placement) -> bool {
        &&& self.at(p.cell(0).0, p.cell(0).1) == p.block.symbol(0)
        &&& self.at(p.cell(1).0, p.cell(1).1) == p.block.symbol(1)
        &&& self.at(p.cell(2).0, p.cell(2).1) == p.block.symbol(2)
        &&& self.at(p.cell(3).0, p.cell(3).1) == p.block.symbol(3)
    }

    /// Whether one of the placed pieces occupies `(x, y)`.
    pub open spec fn owned(self, x: int, y: int) -> bool {
        exists|i: int| 0 <= i < self.placed.len() && (#[trigger] self.placed[i]).covers(x, y)
    }

    /// The symbols after the first `k` cells of `p` have been drawn.
    pub open spec fn stamped(self, p: Placement, k: int) -> Seq<char>
        decreases k,
    {
        if k <= 0 {
            self.cells
        } else {
            self.stamped(p, k - 1).update(
                self.index(p.cell(k - 1).0, p.cell(k - 1).1),
                p.block.symbol(k - 1),
            )
        }
    }

    /// The symbols after the first `k` cells of `p` have been emptied.
    pub open spec fn cleared(self, p: Placement, k: int) -> Seq<char>
        decreases k,
    {
        if k <= 0 {
            self.cells
        } else {
            self.cleared(p, k - 1).update(self.index(p.cell(k - 1).0, p.cell(k - 1).1), EMPTY_CELL)
        }
    }

    /// The board with `p` placed on it.
    pub open spec fn place(self, p: Placement) -> BoardView {
        BoardView {
            width: self.width,
            height: self.height,
            cells: self.stamped(p, 4),
            placed: self.placed.push(p),
        }
    }

    /// The board with its most recent piece taken off.
    pub open spec fn unplace(self) -> BoardView {
        BoardView {
            width: self.width,
            height: self.height,
            cells: self.cleared(self.placed.last(), 4),
            placed: self.placed.drop_last(),
        }
    }

    /// The board of the same size with nothing on it.
    pub open spec fn blank(width: int, height: int) -> BoardView {
        BoardView {
            width,
            height,
            cells: Seq::new((width * height) as nat, |i: int| EMPTY_CELL),
            placed: Seq::empty(),
        }
    }

    /// What holds of every board, whatever was written into its cells: the
    /// grid has a symbol for each cell, and every placed piece lies on it.
    pub open spec fn inv(self) -> bool {
        &&& 0 <= self.width <= u8::MAX
        &&& 0 <= self.height <= u8::MAX
        &&& self.cells.len() == self.width * self.height
        &&& forall|i: int| 0 <= i < self.placed.len() ==> self.within(#[trigger] self.placed[i])
    }

    /// The occupied cells are exactly the cells of the placed pieces, and no
    /// two pieces share a cell. Each occupied cell carries the symbol that
    /// its piece draws there.
    pub open spec fn wf(self) -> bool {
        &&& self.inv()
        &&& forall|i: int| 0 <= i < self.placed.len() ==> self.shows(#[trigger] self.placed[i])
        &&& forall|i: int, j: int|
            0 <= i < j < self.placed.len() ==> !(#[trigger] self.placed[i]).overlaps(
                #[trigger] self.placed[j],
            )
        &&& forall|x: int, y: int| #[trigger] self.occupied(x, y) ==> self.owned(x, y)
    }

    /// Whether `(x, y)` is the first empty cell in row-major order.
    pub open spec fn first_free(self, x: int, y: int) -> bool {
        &&& self.is_available(x, y)
        &&& forall|u: int, v: int|
            self.in_bounds(u, v) && (v < y || (v == y && u < x)) ==> !#[trigger] self.is_available(
                u,
                v,
            )
    }

    /// Whether no cell of the grid is empty.
    pub open spec fn full(self) -> bool {
        forall|x: int, y: int| !#[trigger] self.is_available(x, y)
    }
}

/// A cell of the grid has a place in `cells`.
pub proof fn lemma_index_in_range(v: BoardView, x: int, y: int)
    requires
        v.in_bounds(x, y),
    ensures
        0 <= v.index(x, y) < v.width * v.height,
{
    assert(0 <= x + v.width * y < v.width * v.height) by (nonlinear_arith)
        requires
            0 <= x < v.width,
            0 <= y < v.height,
    ;
}

/// Two cells of the grid with the same place in `cells` are the same cell.
pub proof fn lemma_index_injective(v: BoardView, x1: int, y1: int, x2: int, y2: int)
    requires
        v.in_bounds(x1, y1),
        v.in_bounds(x2, y2),
        v.index(x1, y1) == v.index(x2, y2),
    ensures
        x1 == x2,
        y1 == y2,
{
    assert(y1 == y2) by (nonlinear_arith)
        requires
            0 <= x1 < v.width,
            0 <= x2 < v.width,
            x1 + v.width * y1 == x2 + v.width * y2,
    ;
}

/// Every place in `cells` belongs to a cell of the grid.
pub proof fn lemma_index_onto(v: BoardView, i: int)
    requires
        0 <= i < v.width * v.height,
        0 <= v.width,
    ensures
        v.in_bounds(i % v.width, i / v.width),
        v.index(i % v.width, i / v.width) == i,
{
    let w = v.width;
    assert(w > 0) by (nonlinear_arith)
        requires
            0 <= i < w * v.height,
            0 <= w,
    ;
    vstd::arithmetic::div_mod::lemma_fundamental_div_mod(i, w);
    vstd::arithmetic::div_mod::lemma_mod_bound(i, w);
    assert(0 <= i / w < v.height) by (nonlinear_arith)
        requires
            0 <= i < w * v.height,
            w > 0,
            i == w * (i / w) + i % w,
            0 <= i % w < w,
    ;
}

/// Drawing a piece that lies on the grid changes its four cells, and
/// nothing else.
pub proof fn lemma_stamped(v: BoardView, p: Placement)
    requires
        v.inv(),
        v.within(p),
    ensures
        v.stamped(p, 4).len() == v.cells.len(),
        forall|x: int, y: int|
            v.in_bounds(x, y) ==> #[trigger] v.place(p).at(x, y) == (if p.cell(0) == (x, y) {
                p.block.symbol(0)
            } else if p.cell(1) == (x, y) {
                p.block.symbol(1)
            } else if p.cell(2) == (x, y) {
                p.block.symbol(2)
            } else if p.cell(3) == (x, y) {
                p.block.symbol(3)
            } else {
                v.at(x, y)
            }),
{
    reveal_with_fuel(BoardView::stamped, 5);
    lemma_cells_differ(p);
    lemma_index_in_range(v, p.cell(0).0, p.cell(0).1);
    lemma_index_in_range(v, p.cell(1).0, p.cell(1).1);
    lemma_index_in_range(v, p.cell(2).0, p.cell(2).1);
    lemma_index_in_range(v, p.cell(3).0, p.cell(3).1);
    assert forall|x: int, y: int| v.in_bounds(x, y) implies #[trigger] v.place(p).at(x, y) == (
    if p.cell(0) == (x, y) {
        p.block.symbol(0)
    } else if p.cell(1) == (x, y) {
        p.block.symbol(1)
    } else if p.cell(2) == (x, y) {
        p.block.symbol(2)
    } else if p.cell(3) == (x, y) {
        p.block.symbol(3)
    } else {
        v.at(x, y)
    }) by {
        lemma_index_in_range(v, x, y);
        lemma_same_index(v, p, 0, x, y);
        lemma_same_index(v, p, 1, x, y);
        lemma_same_index(v, p, 2, x, y);
        lemma_same_index(v, p, 3, x, y);
    }
}

/// A cell of the grid has the place of the `k`-th cell of `p` only if it is
/// that cell.
proof fn lemma_same_index(v: BoardView, p: Placement, k: int, x: int, y: int)
    requires
        v.in_bounds(x, y),
        v.in_bounds(p.cell(k).0, p.cell(k).1),
    ensures
        v.index(p.cell(k).0, p.cell(k).1) == v.index(x, y) <==> p.cell(k) == (x, y),
{
    if v.index(p.cell(k).0, p.cell(k).1) == v.index(x, y) {
        lemma_index_injective(v, p.cell(k).0, p.cell(k).1, x, y);
    }
}

/// Emptying the cells of a piece that lies on the grid changes its four
/// cells, and nothing else.
pub proof fn lemma_cleared(v: BoardView, p: Placement)
    requires
        v.inv(),
        v.within(p),
    ensures
        v.cleared(p, 4).len() == v.cells.len(),
        forall|x: int, y: int|
            v.in_bounds(x, y) ==> #[trigger] v.cleared(p, 4)[v.index(x, y)] == (if p.covers(x, y) {
                EMPTY_CELL
            } else {
                v.at(x, y)
            }),
{
    reveal_with_fuel(BoardView::cleared, 5);
    lemma_index_in_range(v, p.cell(0).0, p.cell(0).1);
    lemma_index_in_range(v, p.cell(1).0, p.cell(1).1);
    lemma_index_in_range(v, p.cell(2).0, p.cell(2).1);
    lemma_index_in_range(v, p.cell(3).0, p.cell(3).1);
    assert forall|x: int, y: int| v.in_bounds(x, y) implies #[trigger] v.cleared(p, 4)[v.index(
        x,
        y,
    )] == (if p.covers(x, y) {
        EMPTY_CELL
    } else {
        v.at(x, y)
    }) by {
        lemma_index_in_range(v, x, y);
        lemma_same_index(v, p, 0, x, y);
        lemma_same_index(v, p, 1, x, y);
        lemma_same_index(v, p, 2, x, y);
        lemma_same_index(v, p, 3, x, y);
    }
}

/// A board keeps its invariant when a piece that lies on the grid is
/// placed.
pub proof fn lemma_place_inv(v: BoardView, p: Placement)
    requires
        v.inv(),
        v.within(p),
    ensures
        v.place(p).inv(),
{
    lemma_stamped(v, p);
    let n = v.place(p);
    assert forall|i: int| 0 <= i < n.placed.len() implies n.within(#[trigger] n.placed[i]) by {
        if i < v.placed.len() {
            assert(n.placed[i] == v.placed[i]);
            assert(v.within(v.placed[i]));
        }
    }
}

/// Two grids of the same size with the same symbol in every cell are the
/// same grid.
pub proof fn lemma_cells_equal(a: BoardView, b: BoardView)
    requires
        a.inv(),
        a.width == b.width,
        a.height == b.height,
        a.cells.len() == b.cells.len(),
        forall|x: int, y: int| a.in_bounds(x, y) ==> a.cells[a.index(x, y)] == b.cells[a.index(x, y)],
    ensures
        a.cells == b.cells,
{
    assert forall|i: int| 0 <= i < a.cells.len() implies a.cells[i] == b.cells[i] by {
        lemma_index_onto(a, i);
        let x = i % a.width;
        let y = i / a.width;
        assert(a.in_bounds(x, y));
        assert(a.cells[a.index(x, y)] == b.cells[a.index(x, y)]);
    }
    assert(a.cells =~= b.cells);
}

/// A piece whose cells carry its symbols shares no cell with a piece that
/// lies on empty cells.
pub proof fn lemma_apart(v: BoardView, q: Placement, p: Placement)
    requires
        v.shows(q),
        v.can_place(p),
    ensures
        !q.overlaps(p),
        !p.overlaps(q),
{
    lemma_footprint_valid(q.block);
}

/// Placing a piece changes no cell of a piece that shares no cell with it.
pub proof fn lemma_place_keeps(v: BoardView, p: Placement, q: Placement)
    requires
        v.inv(),
        v.within(p),
        v.within(q),
        !q.overlaps(p),
    ensures
        v.place(p).at(q.cell(0).0, q.cell(0).1) == v.at(q.cell(0).0, q.cell(0).1),
        v.place(p).at(q.cell(1).0, q.cell(1).1) == v.at(q.cell(1).0, q.cell(1).1),
        v.place(p).at(q.cell(2).0, q.cell(2).1) == v.at(q.cell(2).0, q.cell(2).1),
        v.place(p).at(q.cell(3).0, q.cell(3).1) == v.at(q.cell(3).0, q.cell(3).1),
{
    lemma_stamped(v, p);
}

/// A piece whose cells carry its symbols still shows after another piece is
/// placed on empty cells.
proof fn lemma_still_shows(v: BoardView, q: Placement, p: Placement)
    requires
        v.inv(),
        v.within(q),
        v.shows(q),
        v.can_place(p),
    ensures
        v.place(p).shows(q),
{
    lemma_apart(v, q, p);
    lemma_place_keeps(v, p, q);
}

/// A piece that is placed on empty cells shows.
pub proof fn lemma_newly_shows(v: BoardView, p: Placement)
    requires
        v.inv(),
        v.can_place(p),
    ensures
        v.place(p).shows(p),
{
    let n = v.place(p);
    lemma_stamped(v, p);
    lemma_footprint_valid(p.block);
    assert(n.at(p.cell(0).0, p.cell(0).1) == p.block.symbol(0));
    assert(n.at(p.cell(1).0, p.cell(1).1) == p.block.symbol(1));
    assert(n.at(p.cell(2).0, p.cell(2).1) == p.block.symbol(2));
    assert(n.at(p.cell(3).0, p.cell(3).1) == p.block.symbol(3));
}

/// A cell that is occupied after a piece was placed belongs to that piece
/// or was occupied before.
proof fn lemma_occupied_after(v: BoardView, p: Placement, x: int, y: int)
    requires
        v.inv(),
        v.can_place(p),
        v.place(p).occupied(x, y),
    ensures
        p.covers(x, y) || v.occupied(x, y),
{
    lemma_stamped(v, p);
    if !p.covers(x, y) {
        assert(v.place(p).at(x, y) == v.at(x, y));
    }
}

/// Placing a piece on empty cells of a well-formed board leaves the board
/// well-formed.
pub proof fn lemma_place_wf(v: BoardView, p: Placement)
    requires
        v.wf(),
        v.can_place(p),
    ensures
        v.place(p).wf(),
{
    let n = v.place(p);
    let len = v.placed.len() as int;
    lemma_place_inv(v, p);
    assert(n.placed[len] == p);
    assert forall|i: int| 0 <= i < n.placed.len() implies n.shows(#[trigger] n.placed[i]) by {
        if i < len {
            assert(n.placed[i] == v.placed[i]);
            assert(v.within(v.placed[i]));
            lemma_still_shows(v, v.placed[i], p);
        } else {
            lemma_newly_shows(v, p);
        }
    }
    assert forall|i: int, j: int| 0 <= i < j < n.placed.len() implies !(
    #[trigger] n.placed[i]).overlaps(#[trigger] n.placed[j]) by {
        assert(n.placed[i] == v.placed[i]);
        if j < len {
            assert(n.placed[j] == v.placed[j]);
        } else {
            lemma_apart(v, v.placed[i], p);
        }
    }
    assert forall|x: int, y: int| #[trigger] n.occupied(x, y) implies n.owned(x, y) by {
        lemma_occupied_after(v, p, x, y);
        if p.covers(x, y) {
            assert(n.placed[len].covers(x, y));
        } else {
            let i = choose|i: int| 0 <= i < v.placed.len() && (#[trigger] v.placed[i]).covers(x, y);
            assert(n.placed[i] == v.placed[i]);
        }
    }
}

/// Taking off a piece that was just placed on empty cells gives back the
/// board as it was.
pub proof fn lemma_place_unplace(v: BoardView, p: Placement)
    requires
        v.inv(),
        v.can_place(p),
    ensures
        v.place(p).unplace() == v,
{
    let n = v.place(p);
    let u = n.unplace();
    lemma_stamped(v, p);
    assert(n.placed.last() == p);
    lemma_place_inv(v, p);
    lemma_cleared(n, p);
    assert(u.placed =~= v.placed);
    assert forall|x: int, y: int| v.in_bounds(x, y) implies v.cells[v.index(x, y)] == u.cells[v.index(
        x,
        y,
    )] by {
        assert(n.in_bounds(x, y));
        assert(n.index(x, y) == v.index(x, y));
        assert(u.cells[n.index(x, y)] == (if p.covers(x, y) {
            EMPTY_CELL
        } else {
            n.at(x, y)
        }));
        assert(n.at(x, y) == v.place(p).at(x, y));
    }
    lemma_cells_equal(v, u);
}

/// After the latest piece is taken off, a cell of the grid is empty if it
/// belonged to that piece, and as it was otherwise.
proof fn lemma_unplace_at(v: BoardView, x: int, y: int)
    requires
        v.inv(),
        v.placed.len() > 0,
        v.in_bounds(x, y),
    ensures
        v.unplace().at(x, y) == (if v.placed.last().covers(x, y) {
            EMPTY_CELL
        } else {
            v.at(x, y)
        }),
{
    assert(v.within(v.placed[v.placed.len() - 1]));
    lemma_cleared(v, v.placed.last());
    assert(v.unplace().at(x, y) == v.unplace().cells[v.index(x, y)]);
}

/// After the latest piece is taken off, the four cells of a piece that lies
/// on the grid are empty where they belonged to that piece, and as they were
/// otherwise.
proof fn lemma_unplace_cells(v: BoardView, q: Placement)
    requires
        v.inv(),
        v.placed.len() > 0,
        v.within(q),
    ensures
        forall|k: int|
            0 <= k < 4 ==> v.unplace().at((#[trigger] q.cell(k)).0, q.cell(k).1) == (
            if v.placed.last().covers(q.cell(k).0, q.cell(k).1) {
                EMPTY_CELL
            } else {
                v.at(q.cell(k).0, q.cell(k).1)
            }),
{
    lemma_unplace_at(v, q.cell(0).0, q.cell(0).1);
    lemma_unplace_at(v, q.cell(1).0, q.cell(1).1);
    lemma_unplace_at(v, q.cell(2).0, q.cell(2).1);
    lemma_unplace_at(v, q.cell(3).0, q.cell(3).1);
}

/// Taking the most recent piece off a well-formed board leaves the board
/// well-formed, and placing the piece again gives back the board as it was.
pub proof fn lemma_unplace_wf(v: BoardView)
    requires
        v.wf(),
        v.placed.len() > 0,
    ensures
        v.unplace().wf(),
        v.unplace().can_place(v.placed.last()),
        v.unplace().place(v.placed.last()) == v,
{
    let p = v.placed.last();
    let last = v.placed.len() - 1;
    let u = v.unplace();
    assert(v.placed[last] == p);
    assert(v.within(p));
    assert(v.shows(p));
    lemma_cleared(v, p);
    lemma_footprint_valid(p.block);
    assert forall|i: int| 0 <= i < u.placed.len() implies u.within(#[trigger] u.placed[i])
        && u.shows(u.placed[i]) by {
        let q = v.placed[i];
        assert(u.placed[i] == q);
        assert(v.within(q));
        assert(v.shows(q));
        assert(!q.overlaps(v.placed[last]));
        lemma_unplace_cells(v, q);
    }
    assert forall|i: int, j: int| 0 <= i < j < u.placed.len() implies !(
    #[trigger] u.placed[i]).overlaps(#[trigger] u.placed[j]) by {
        assert(u.placed[i] == v.placed[i]);
        assert(u.placed[j] == v.placed[j]);
    }
    assert forall|x: int, y: int| #[trigger] u.occupied(x, y) implies u.owned(x, y) by {
        lemma_unplace_at(v, x, y);
        assert(!p.covers(x, y));
        assert(v.occupied(x, y));
        let i = choose|i: int| 0 <= i < v.placed.len() && (#[trigger] v.placed[i]).covers(x, y);
        assert(i != last);
        assert(u.placed[i] == v.placed[i]);
    }
    assert(u.can_place(p)) by {
        lemma_unplace_cells(v, p);
    }
    let r = u.place(p);
    lemma_stamped(u, p);
    assert(r.placed =~= v.placed);
    assert forall|x: int, y: int| v.in_bounds(x, y) implies v.cells[v.index(x, y)] == r.cells[v.index(
        x,
        y,
    )] by {
        assert(u.in_bounds(x, y));
        assert(r.cells[v.index(x, y)] == u.place(p).at(x, y));
        lemma_unplace_at(v, x, y);
    }
    lemma_cells_equal(v, r);
}

/// There are no more empty cells than cells; there is none exactly when
/// every cell is marked, and as many as cells exactly when none is.
pub proof fn lemma_count_free_bounds(cells: Seq<char>)
    ensures
        count_free(cells) <= cells.len(),
        count_free(cells) == 0 <==> forall|i: int| 0 <= i < cells.len() ==> cells[i] != EMPTY_CELL,
        count_free(cells) == cells.len() <==> forall|i: int|
            0 <= i < cells.len() ==> cells[i] == EMPTY_CELL,
    decreases cells.len(),
{
    if cells.len() > 0 {
        let front = cells.drop_last();
        lemma_count_free_bounds(front);
        assert forall|i: int| 0 <= i < front.len() implies front[i] == cells[i] by {}
        if count_free(cells) == 0 {
            assert forall|i: int| 0 <= i < cells.len() implies cells[i] != EMPTY_CELL by {
                if i < front.len() {
                    assert(front[i] == cells[i]);
                }
            }
        }
        if count_free(cells) == cells.len() {
            assert forall|i: int| 0 <= i < cells.len() implies cells[i] == EMPTY_CELL by {
                if i < front.len() {
                    assert(front[i] == cells[i]);
                }
            }
        }
        if forall|i: int| 0 <= i < cells.len() ==> cells[i] != EMPTY_CELL {
            assert forall|i: int| 0 <= i < front.len() implies front[i] != EMPTY_CELL by {
                assert(front[i] == cells[i]);
            }
        }
        if forall|i: int| 0 <= i < cells.len() ==> cells[i] == EMPTY_CELL {
            assert forall|i: int| 0 <= i < front.len() implies front[i] == EMPTY_CELL by {
                assert(front[i] == cells[i]);
            }
        }
    }
}

/// Writing a symbol into one cell changes the number of empty cells by at
/// most one, according to what the cell held and what it holds now.
pub proof fn lemma_count_free_update(cells: Seq<char>, i: int, c: char)
    requires
        0 <= i < cells.len(),
    ensures
        count_free(cells.update(i, c)) + (if cells[i] == EMPTY_CELL {
            1int
        } else {
            0int
        }) == count_free(cells) + (if c == EMPTY_CELL {
            1int
        } else {
            0int
        }),
    decreases cells.len(),
{
    let after = cells.update(i, c);
    if i == cells.len() - 1 {
        assert(after.drop_last() =~= cells.drop_last());
    } else {
        assert(after.drop_last() =~= cells.drop_last().update(i, c));
        lemma_count_free_update(cells.drop_last(), i, c);
    }
}

/// Placing a piece on empty cells takes four cells from the empty ones.
pub proof fn lemma_place_count(v: BoardView, p: Placement)
    requires
        v.inv(),
        v.can_place(p),
    ensures
        count_free(v.place(p).cells) + 4 == count_free(v.cells),
{
    reveal_with_fuel(BoardView::stamped, 5);
    lemma_footprint_valid(p.block);
    lemma_cells_differ(p);
    let i0 = v.index(p.cell(0).0, p.cell(0).1);
    let i1 = v.index(p.cell(1).0, p.cell(1).1);
    let i2 = v.index(p.cell(2).0, p.cell(2).1);
    let i3 = v.index(p.cell(3).0, p.cell(3).1);
    lemma_index_in_range(v, p.cell(0).0, p.cell(0).1);
    lemma_index_in_range(v, p.cell(1).0, p.cell(1).1);
    lemma_index_in_range(v, p.cell(2).0, p.cell(2).1);
    lemma_index_in_range(v, p.cell(3).0, p.cell(3).1);
    lemma_same_index(v, p, 0, p.cell(1).0, p.cell(1).1);
    lemma_same_index(v, p, 0, p.cell(2).0, p.cell(2).1);
    lemma_same_index(v, p, 0, p.cell(3).0, p.cell(3).1);
    lemma_same_index(v, p, 1, p.cell(2).0, p.cell(2).1);
    lemma_same_index(v, p, 1, p.cell(3).0, p.cell(3).1);
    lemma_same_index(v, p, 2, p.cell(3).0, p.cell(3).1);
    let s0 = v.cells;
    let s1 = v.stamped(p, 1);
    let s2 = v.stamped(p, 2);
    let s3 = v.stamped(p, 3);
    lemma_count_free_update(s0, i0, p.block.symbol(0));
    lemma_count_free_update(s1, i1, p.block.symbol(1));
    lemma_count_free_update(s2, i2, p.block.symbol(2));
    lemma_count_free_update(s3, i3, p.block.symbol(3));
}

/// On a well-formed board every piece takes up four cells of its own: the
/// empty cells and four cells for each piece make up the grid.
pub proof fn lemma_wf_area(v: BoardView)
    requires
        v.wf(),
    ensures
        count_free(v.cells) + 4 * v.placed.len() == v.width * v.height,
    decreases v.placed.len(),
{
    if v.placed.len() == 0 {
        assert forall|i: int| 0 <= i < v.cells.len() implies v.cells[i] == EMPTY_CELL by {
            lemma_index_onto(v, i);
            let x = i % v.width;
            let y = i / v.width;
            if v.cells[i] != EMPTY_CELL {
                assert(v.occupied(x, y));
                assert(v.owned(x, y));
            }
        }
        lemma_count_free_bounds(v.cells);
    } else {
        let u = v.unplace();
        lemma_unplace_wf(v);
        lemma_wf_area(u);
        lemma_place_count(u, v.placed.last());
    }
}

/// A board has an empty cell exactly when it is not full.
pub proof fn lemma_full_iff_no_free(v: BoardView)
    requires
        v.inv(),
    ensures
        v.full() <==> count_free(v.cells) == 0,
{
    lemma_count_free_bounds(v.cells);
    if v.full() {
        assert forall|i: int| 0 <= i < v.cells.len() implies v.cells[i] != EMPTY_CELL by {
            lemma_index_onto(v, i);
            assert(!v.is_available(i % v.width, i / v.width));
        }
    }
    if count_free(v.cells) == 0 {
        assert forall|x: int, y: int| !#[trigger] v.is_available(x, y) by {
            if v.in_bounds(x, y) {
                lemma_index_in_range(v, x, y);
            }
        }
    }
}

/// On a well-formed board the occupied cells are exactly the cells of the
/// placed pieces, and no cell belongs to two of them.
pub proof fn lemma_occupancy(v: BoardView)
    requires
        v.wf(),
    ensures
        forall|x: int, y: int| #[trigger] v.occupied(x, y) <==> v.owned(x, y),
        forall|i: int, j: int, x: int, y: int|
            0 <= i < v.placed.len() && 0 <= j < v.placed.len() && i != j ==> !(
            #[trigger] v.placed[i].covers(x, y) && #[trigger] v.placed[j].covers(x, y)),
{
    assert forall|x: int, y: int| v.owned(x, y) implies #[trigger] v.occupied(x, y) by {
        let i = choose|i: int| 0 <= i < v.placed.len() && (#[trigger] v.placed[i]).covers(x, y);
        let p = v.placed[i];
        assert(v.within(p));
        assert(v.shows(p));
        lemma_footprint_valid(p.block);
    }
    assert forall|i: int, j: int, x: int, y: int|
        0 <= i < v.placed.len() && 0 <= j < v.placed.len() && i != j implies !(
    #[trigger] v.placed[i].covers(x, y) && #[trigger] v.placed[j].covers(x, y)) by {
        if i < j {
            assert(!v.placed[i].overlaps(v.placed[j]));
        } else {
            assert(!v.placed[j].overlaps(v.placed[i]));
        }
    }
}

} // verus!
