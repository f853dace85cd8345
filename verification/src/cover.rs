//! Tilings in any order: why it is enough to fill the first empty cell.
//!
//! The search only ever anchors a piece on the first empty cell. Because the
//! anchor of every piece is its topmost cell, and the leftmost of those, the
//! piece that covers the first empty cell in any tiling has its anchor there.
//! So the pieces of any tiling fill the board in the order of the search.

use crate::grid::{
    lemma_apart, lemma_index_in_range, lemma_index_onto, lemma_newly_shows, lemma_place_inv,
    lemma_place_keeps, lemma_place_wf, lemma_stamped, lemma_wf_area, BoardView,
};
use crate::inventory::with_one_more;
use crate::piece::{lemma_footprint_valid, Placement, EMPTY_CELL};
use crate::tiling::{fills, lemma_tally_first, solvable, tally, tally_of};
use vstd::prelude::*;

verus! {

/// Whether one of the pieces `ps` occupies `(x, y)`.
#[verifier::opaque]
pub open spec fn covered(ps: Seq<Placement>, x: int, y: int) -> bool {
    exists|i: int| 0 <= i < ps.len() && (#[trigger] ps[i]).covers(x, y)
}

/// A piece among `ps` that occupies a covered cell.
pub proof fn lemma_covering_piece(ps: Seq<Placement>, x: int, y: int) -> (i: int)
    requires
        covered(ps, x, y),
    ensures
        0 <= i < ps.len(),
        ps[i].covers(x, y),
{
    reveal(covered);
    choose|i: int| 0 <= i < ps.len() && (#[trigger] ps[i]).covers(x, y)
}

/// A cell that one of the pieces occupies is covered.
pub proof fn lemma_covered_by(ps: Seq<Placement>, i: int, x: int, y: int)
    requires
        0 <= i < ps.len(),
        ps[i].covers(x, y),
    ensures
        covered(ps, x, y),
{
    reveal(covered);
}

/// Whether the pieces `ps` fit on the board together: each lies on empty
/// cells, and no two share a cell.
pub open spec fn packs(v: BoardView, ps: Seq<Placement>) -> bool {
    &&& forall|i: int| 0 <= i < ps.len() ==> v.can_place(#[trigger] ps[i])
    &&& forall|i: int, j: int|
        0 <= i < j < ps.len() ==> !(#[trigger] ps[i]).overlaps(#[trigger] ps[j])
}

/// Whether the pieces `ps` tile the empty cells of the board: they fit on
/// the board together, and every empty cell belongs to one of them.
pub open spec fn tiles(v: BoardView, ps: Seq<Placement>) -> bool {
    &&& packs(v, ps)
    &&& forall|x: int, y: int| #[trigger] v.is_available(x, y) ==> covered(ps, x, y)
}

/// Whether the pieces of an inventory with the given counts can tile the
/// empty cells of the board.
#[verifier::opaque]
pub open spec fn tileable(v: BoardView, counts: Seq<nat>) -> bool {
    exists|ps: Seq<Placement>| #[trigger] tiles(v, ps) && tally(ps) =~= counts
}

/// Whether `(u, v)` comes before `(x, y)` in row-major order.
pub open spec fn before(u: int, v: int, x: int, y: int) -> bool {
    v < y || (v == y && u < x)
}

/// A cell that comes before another in row-major order has the smaller
/// place in the grid.
proof fn lemma_row_major(b: BoardView, u: int, v: int, x: int, y: int)
    requires
        b.in_bounds(u, v),
        b.in_bounds(x, y),
    ensures
        before(u, v, x, y) <==> b.index(u, v) < b.index(x, y),
{
    let w = b.width;
    if v < y {
        assert(u + w * v < x + w * y) by (nonlinear_arith)
            requires
                0 <= u < w,
                0 <= x < w,
                v < y,
        ;
    } else if v > y {
        assert(x + w * y < u + w * v) by (nonlinear_arith)
            requires
                0 <= u < w,
                0 <= x < w,
                y < v,
        ;
    }
}

/// Among the places up to an empty one, there is a first empty one.
proof fn lemma_least_free(cells: Seq<char>, n: int) -> (m: int)
    requires
        0 <= n < cells.len(),
        cells[n] == EMPTY_CELL,
    ensures
        0 <= m <= n,
        cells[m] == EMPTY_CELL,
        forall|j: int| 0 <= j < m ==> cells[j] != EMPTY_CELL,
    decreases n,
{
    if exists|j: int| 0 <= j < n && cells[j] == EMPTY_CELL {
        let j = choose|j: int| 0 <= j < n && cells[j] == EMPTY_CELL;
        lemma_least_free(cells, j)
    } else {
        n
    }
}

/// A board that is not full has a first empty cell.
pub proof fn lemma_first_free_exists(v: BoardView)
    requires
        v.inv(),
        !v.full(),
    ensures
        exists|x: int, y: int| v.first_free(x, y),
{
    let (x0, y0) = choose|x: int, y: int| #[trigger] v.is_available(x, y);
    lemma_index_in_range(v, x0, y0);
    let m = lemma_least_free(v.cells, v.index(x0, y0));
    lemma_index_onto(v, m);
    let x = m % v.width;
    let y = m / v.width;
    assert forall|a: int, b: int| v.in_bounds(a, b) && (b < y || (b == y && a < x)) implies !(
    #[trigger] v.is_available(a, b)) by {
        lemma_row_major(v, a, b, x, y);
    }
    assert(v.first_free(x, y));
}

/// A piece that lies on empty cells and occupies the first empty cell has
/// its anchor there.
pub proof fn lemma_anchor_on_first_free(v: BoardView, p: Placement, x: int, y: int)
    requires
        v.first_free(x, y),
        v.can_place(p),
        p.covers(x, y),
    ensures
        p.x == x,
        p.y == y,
{
    lemma_footprint_valid(p.block);
    assert(v.is_available(p.x, p.y));
    if p.x != x || p.y != y {
        assert(before(p.x, p.y, x, y));
        assert(!v.is_available(p.x, p.y));
    }
}

/// The counts of the families among some pieces, one of which is taken out.
pub proof fn lemma_tally_remove(ps: Seq<Placement>, k: int)
    requires
        0 <= k < ps.len(),
    ensures
        tally(ps) =~= with_one_more(tally(ps.remove(k)), ps[k].block.family().ord()),
    decreases k,
{
    let f = ps[k].block.family().ord();
    assert(0 <= f < 7);
    if k == 0 {
        assert(ps.remove(0) =~= ps.drop_first());
    } else {
        let rest = ps.drop_first();
        lemma_tally_remove(rest, k - 1);
        assert(ps.remove(k).drop_first() =~= rest.remove(k - 1));
        assert(ps.remove(k)[0] == ps[0]);
        assert(rest[k - 1] == ps[k]);
        assert forall|i: int| 0 <= i < 7 implies tally_of(ps, i) == with_one_more(
            tally(ps.remove(k)),
            f,
        )[i] by {
            assert(tally(rest)[i] == with_one_more(tally(rest.remove(k - 1)), f)[i]);
        }
    }
}

/// With one of some pieces that fit together placed, the others still fit
/// together.
pub proof fn lemma_packs_step(v: BoardView, ps: Seq<Placement>, k: int)
    requires
        v.inv(),
        packs(v, ps),
        0 <= k < ps.len(),
    ensures
        v.can_place(ps[k]),
        v.place(ps[k]).inv(),
        packs(v.place(ps[k]), ps.remove(k)),
{
    let p = ps[k];
    let n = v.place(p);
    let rest = ps.remove(k);
    assert(v.can_place(p));
    lemma_place_inv(v, p);
    lemma_stamped(v, p);
    lemma_footprint_valid(p.block);
    assert forall|i: int| 0 <= i < rest.len() implies n.can_place(#[trigger] rest[i]) by {
        let j = if i < k {
            i
        } else {
            i + 1
        };
        let q = ps[j];
        assert(rest[i] == q);
        assert(v.can_place(q));
        if j < k {
            assert(!q.overlaps(p));
        } else {
            assert(!p.overlaps(q));
        }
        lemma_place_keeps(v, p, q);
    }
    assert forall|i: int, j: int| 0 <= i < j < rest.len() implies !(#[trigger] rest[i]).overlaps(
        #[trigger] rest[j],
    ) by {
        let a = if i < k {
            i
        } else {
            i + 1
        };
        let b = if j < k {
            j
        } else {
            j + 1
        };
        assert(rest[i] == ps[a]);
        assert(rest[j] == ps[b]);
    }
}

/// A quarter of the area, less the pieces already placed, bounds the number
/// of pieces that still fit on a well-formed board, whatever their shapes.
pub proof fn lemma_packs_area(v: BoardView, ps: Seq<Placement>)
    requires
        v.wf(),
        packs(v, ps),
    ensures
        v.placed.len() + ps.len() <= v.width * v.height / 4,
    decreases ps.len(),
{
    if ps.len() == 0 {
        lemma_wf_area(v);
    } else {
        lemma_packs_step(v, ps, 0);
        lemma_place_wf(v, ps[0]);
        lemma_packs_area(v.place(ps[0]), ps.remove(0));
    }
}

/// With one piece of a tiling placed, the others tile what is left.
pub proof fn lemma_tiles_step(v: BoardView, ps: Seq<Placement>, k: int)
    requires
        v.inv(),
        tiles(v, ps),
        0 <= k < ps.len(),
    ensures
        v.place(ps[k]).inv(),
        tiles(v.place(ps[k]), ps.remove(k)),
{
    let p = ps[k];
    let n = v.place(p);
    let rest = ps.remove(k);
    lemma_packs_step(v, ps, k);
    lemma_stamped(v, p);
    lemma_footprint_valid(p.block);
    assert forall|x: int, y: int| #[trigger] n.is_available(x, y) implies covered(rest, x, y) by {
        assert(n.at(x, y) == v.place(p).at(x, y));
        assert(!p.covers(x, y));
        assert(v.is_available(x, y));
        let i = lemma_covering_piece(ps, x, y);
        assert(i != k);
        let j = if i < k {
            i
        } else {
            i - 1
        };
        assert(rest[j] == ps[i]);
        lemma_covered_by(rest, j, x, y);
    }
}

/// The pieces of a tiling fill the board in the order of the search: one
/// after the other, each with its anchor on the first empty cell.
pub proof fn lemma_tiling_ordered(v: BoardView, ps: Seq<Placement>)
    requires
        v.inv(),
        tiles(v, ps),
    ensures
        solvable(v, tally(ps)),
    decreases ps.len(),
{
    if ps.len() == 0 {
        assert forall|x: int, y: int| !#[trigger] v.is_available(x, y) by {
            if v.is_available(x, y) {
                let i = lemma_covering_piece(ps, x, y);
            }
        }
        assert(fills(v, ps));
    } else {
        assert(v.can_place(ps[0]));
        assert(v.is_available(ps[0].cell(0).0, ps[0].cell(0).1));
        lemma_first_free_exists(v);
        let (x, y) = choose|x: int, y: int| v.first_free(x, y);
        assert(v.is_available(x, y));
        let k = lemma_covering_piece(ps, x, y);
        let p = ps[k];
        lemma_anchor_on_first_free(v, p, x, y);
        lemma_tiles_step(v, ps, k);
        lemma_tiling_ordered(v.place(p), ps.remove(k));
        let rest = choose|qs: Seq<Placement>| #[trigger]
            fills(v.place(p), qs) && tally(qs) =~= tally(ps.remove(k));
        let all = seq![p] + rest;
        assert(all.drop_first() =~= rest);
        assert(all[0] == p);
        assert(fills(v, all));
        lemma_tally_first(p, rest);
        lemma_tally_remove(ps, k);
        assert(tally(all) =~= tally(ps));
    }
}

/// Pieces that fill a board in the order of the search tile the cells that
/// were empty.
pub proof fn lemma_fill_tiles(v: BoardView, ps: Seq<Placement>)
    requires
        v.inv(),
        fills(v, ps),
    ensures
        tiles(v, ps),
    decreases ps.len(),
{
    if ps.len() == 0 {
        assert forall|x: int, y: int| #[trigger] v.is_available(x, y) implies covered(ps, x, y) by {
            assert(v.full());
        }
    } else {
        let p = ps[0];
        let n = v.place(p);
        let rest = ps.drop_first();
        lemma_place_inv(v, p);
        lemma_stamped(v, p);
        lemma_newly_shows(v, p);
        lemma_fill_tiles(n, rest);
        assert forall|i: int| 0 < i < ps.len() implies v.can_place(#[trigger] ps[i]) && !p.overlaps(
            ps[i],
        ) by {
            let q = rest[i - 1];
            assert(ps[i] == q);
            assert(n.can_place(q));
            lemma_apart(n, p, q);
            lemma_place_keeps(v, p, q);
        }
        assert forall|i: int, j: int| 0 <= i < j < ps.len() implies !(#[trigger] ps[i]).overlaps(
            #[trigger] ps[j],
        ) by {
            assert(ps[j] == rest[j - 1]);
            if i > 0 {
                assert(ps[i] == rest[i - 1]);
            }
        }
        assert forall|x: int, y: int| #[trigger] v.is_available(x, y) implies covered(ps, x, y) by {
            if p.covers(x, y) {
                lemma_covered_by(ps, 0, x, y);
            } else {
                assert(n.at(x, y) == v.at(x, y));
                assert(n.is_available(x, y));
                let i = lemma_covering_piece(rest, x, y);
                assert(ps[i + 1] == rest[i]);
                lemma_covered_by(ps, i + 1, x, y);
            }
        }
    }
}

/// The pieces of an inventory can fill a board in the order of the search
/// exactly when they can tile its empty cells at all.
pub proof fn lemma_solvable_iff_tiling(v: BoardView, counts: Seq<nat>)
    requires
        v.inv(),
    ensures
        solvable(v, counts) == tileable(v, counts),
{
    reveal(tileable);
    if solvable(v, counts) {
        let ps = choose|ps: Seq<Placement>| #[trigger] fills(v, ps) && tally(ps) =~= counts;
        lemma_fill_tiles(v, ps);
        assert(tiles(v, ps) && tally(ps) =~= counts);
    }
    if tileable(v, counts) {
        let ps = choose|ps: Seq<Placement>| #[trigger] tiles(v, ps) && tally(ps) =~= counts;
        lemma_tiling_ordered(v, ps);
        assert(tally(ps) == counts);
    }
}

} // verus!
