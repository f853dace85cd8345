//! What the search looks for: a way to place every piece of an inventory,
//! one after the other, each with its anchor on the first empty cell of the
//! board as the pieces before it have left it, so that no cell stays empty.

use crate::grid::{
    count_free, lemma_full_iff_no_free, lemma_place_wf, lemma_wf_area, BoardView,
};
use crate::inventory::{total, with_one_less, with_one_more};
use crate::piece::{lemma_cycle_reaches, Placement, TetrisBlock, TetrisShape};
use vstd::prelude::*;

verus! {

/// The number of pieces among `ps` whose family is at position `i` of the
/// order O, I, S, Z, T, L, J.
pub open spec fn tally_of(ps: Seq<Placement>, i: int) -> nat
    decreases ps.len(),
{
    if ps.len() == 0 {
        0
    } else {
        tally_of(ps.drop_first(), i) + if ps[0].block.family().ord() == i {
            1nat
        } else {
            0nat
        }
    }
}

/// The number of pieces of each family among `ps`.
pub open spec fn tally(ps: Seq<Placement>) -> Seq<nat> {
    Seq::new(7, |i: int| tally_of(ps, i))
}

/// The board after the pieces `ps` have been placed on it, the first one
/// first.
pub open spec fn place_all(v: BoardView, ps: Seq<Placement>) -> BoardView
    decreases ps.len(),
{
    if ps.len() == 0 {
        v
    } else {
        place_all(v.place(ps[0]), ps.drop_first())
    }
}

/// Whether the pieces `ps` fill the board: they can be placed one after the
/// other, each on empty cells and with its anchor on the first empty cell of
/// the board that it finds, and the last of them leaves no cell empty.
pub open spec fn fills(v: BoardView, ps: Seq<Placement>) -> bool
    decreases ps.len(),
{
    if ps.len() == 0 {
        v.full()
    } else {
        &&& v.first_free(ps[0].x, ps[0].y)
        &&& v.can_place(ps[0])
        &&& fills(v.place(ps[0]), ps.drop_first())
    }
}

/// Whether the pieces of an inventory with the given counts can fill the
/// board: all of them placed, each with its anchor on the first empty cell,
/// and no cell left empty.
pub open spec fn solvable(v: BoardView, counts: Seq<nat>) -> bool {
    exists|ps: Seq<Placement>| #[trigger] fills(v, ps) && tally(ps) =~= counts
}

/// The pieces that `after` holds on top of those of `before`.
pub open spec fn added(before: BoardView, after: BoardView) -> Seq<Placement> {
    after.placed.subrange(before.placed.len() as int, after.placed.len() as int)
}

/// Whether `after` is `before` with the pieces of an inventory with the
/// given counts placed on top, each with its anchor on the first empty cell
/// that it found, and has no empty cell.
pub open spec fn solves(before: BoardView, counts: Seq<nat>, after: BoardView) -> bool {
    &&& before.placed.len() <= after.placed.len()
    &&& fills(before, added(before, after))
    &&& tally(added(before, after)) =~= counts
    &&& after == place_all(before, added(before, after))
}

/// The piece of the family at position `i` with its anchor on `(x, y)`, in
/// the orientation in which the family starts.
pub open spec fn starting(x: int, y: int, i: int) -> Placement {
    Placement { x, y, block: TetrisBlock::initial(TetrisShape::nth(i)) }
}

/// Whether `p`, turned `j` times, can be placed, and the pieces of the
/// inventory can then fill the board.
pub open spec fn fits_turned(v: BoardView, p: Placement, counts: Seq<nat>, j: nat) -> bool {
    v.can_place(p.rotated_by(j)) && solvable(v.place(p.rotated_by(j)), counts)
}

/// Whether `p` can be placed in one of the orientations of its family, and
/// the pieces of the inventory can then fill the board.
pub open spec fn fits_some_way(v: BoardView, p: Placement, counts: Seq<nat>) -> bool {
    exists|j: nat| j < p.block.states() && #[trigger] fits_turned(v, p, counts, j)
}

/// The place of a piece among those that the search tries on one anchor:
/// the families in the order O, I, S, Z, T, L, J, and the orientations of a
/// family in the order of its rotation cycle.
pub open spec fn rank(p: Placement) -> int {
    4 * p.block.family().ord() + p.block.turn()
}

/// Whether the search comes upon the pieces `ps` no later than upon `qs`:
/// at the first piece in which they differ, `ps` has the one that is tried
/// first.
pub open spec fn no_later(ps: Seq<Placement>, qs: Seq<Placement>) -> bool
    decreases ps.len(),
{
    ps.len() == 0 || (qs.len() > 0 && (rank(ps[0]) < rank(qs[0]) || (ps[0] == qs[0] && no_later(
        ps.drop_first(),
        qs.drop_first(),
    ))))
}

/// Whether the search comes upon `ps` no later than upon any way to fill
/// the board with the pieces of the inventory.
pub open spec fn leads(v: BoardView, counts: Seq<nat>, ps: Seq<Placement>) -> bool {
    forall|qs: Seq<Placement>| #[trigger] fills(v, qs) && tally(qs) =~= counts ==> no_later(ps, qs)
}

/// Whether the first of the pieces `ps` is `first` in the earliest
/// orientation in which it can be placed so that the pieces of the inventory
/// fill the board after it, and the search comes upon the others no later
/// than upon any way to fill the board with those pieces.
pub open spec fn leads_after(
    v: BoardView,
    first: Placement,
    counts: Seq<nat>,
    ps: Seq<Placement>,
) -> bool {
    &&& ps.len() > 0
    &&& ps[0] == first.rotated_by(ps[0].block.turn())
    &&& forall|t: nat| t < ps[0].block.turn() ==> !#[trigger] fits_turned(v, first, counts, t)
    &&& leads(v.place(ps[0]), counts, ps.drop_first())
}

/// Placing pieces puts them on the stack in the order in which they were
/// placed, and leaves the size of the grid alone.
pub proof fn lemma_place_all_placed(v: BoardView, ps: Seq<Placement>)
    ensures
        place_all(v, ps).placed =~= v.placed + ps,
        place_all(v, ps).width == v.width,
        place_all(v, ps).height == v.height,
        added(v, place_all(v, ps)) =~= ps,
    decreases ps.len(),
{
    if ps.len() > 0 {
        lemma_place_all_placed(v.place(ps[0]), ps.drop_first());
        assert(v.placed.push(ps[0]) + ps.drop_first() =~= v.placed + ps);
    }
}

/// Pieces placed one after the other on empty cells of a well-formed board
/// leave the board well-formed.
pub proof fn lemma_fills_wf(v: BoardView, ps: Seq<Placement>)
    requires
        v.wf(),
        fills(v, ps),
    ensures
        place_all(v, ps).wf(),
    decreases ps.len(),
{
    if ps.len() > 0 {
        lemma_place_wf(v, ps[0]);
        lemma_fills_wf(v.place(ps[0]), ps.drop_first());
    }
}

/// Pieces that fill a board leave no cell of it empty.
pub proof fn lemma_fills_full(v: BoardView, ps: Seq<Placement>)
    requires
        fills(v, ps),
    ensures
        place_all(v, ps).full(),
    decreases ps.len(),
{
    if ps.len() > 0 {
        lemma_fills_full(v.place(ps[0]), ps.drop_first());
    }
}

/// The counts of the families among some pieces add up to the number of the
/// pieces.
pub proof fn lemma_tally_total(ps: Seq<Placement>)
    ensures
        total(tally(ps)) == ps.len(),
    decreases ps.len(),
{
    if ps.len() > 0 {
        lemma_tally_total(ps.drop_first());
        let i = ps[0].block.family().ord();
        assert(0 <= i < 7);
    }
}

/// The counts of the families among some pieces, the first of which is `p`.
pub proof fn lemma_tally_first(p: Placement, rest: Seq<Placement>)
    ensures
        tally(seq![p] + rest) =~= with_one_more(tally(rest), p.block.family().ord()),
        tally(rest) =~= with_one_less(tally(seq![p] + rest), p.block.family().ord()),
        tally(seq![p] + rest)[p.block.family().ord()] > 0,
{
    let ps = seq![p] + rest;
    assert(ps.drop_first() =~= rest);
    assert(ps[0] == p);
    let i = p.block.family().ord();
    assert(0 <= i < 7);
}

/// The first empty cell of a board is one cell.
pub proof fn lemma_first_free_unique(v: BoardView, x1: int, y1: int, x2: int, y2: int)
    requires
        v.first_free(x1, y1),
        v.first_free(x2, y2),
    ensures
        x1 == x2,
        y1 == y2,
{
    if y1 < y2 || (y1 == y2 && x1 < x2) {
        assert(!v.is_available(x1, y1));
    }
    if y2 < y1 || (y1 == y2 && x2 < x1) {
        assert(!v.is_available(x2, y2));
    }
}

/// With no piece to place, the board is filled exactly when it is full
/// already.
pub proof fn lemma_solvable_empty(v: BoardView, counts: Seq<nat>)
    requires
        counts.len() == 7,
        total(counts) == 0,
    ensures
        solvable(v, counts) == v.full(),
        v.full() ==> solves(v, counts, v),
{
    let none = Seq::<Placement>::empty();
    if v.full() {
        assert(added(v, v) =~= none);
        assert(fills(v, none));
        assert(tally(none) =~= counts);
    }
    if solvable(v, counts) {
        let ps = choose|ps: Seq<Placement>| #[trigger] fills(v, ps) && tally(ps) =~= counts;
        lemma_tally_total(ps);
    }
}

/// A way to place one piece and then the others is a way to place them all.
pub proof fn lemma_solves_first(v: BoardView, p: Placement, counts: Seq<nat>, after: BoardView)
    requires
        v.first_free(p.x, p.y),
        v.can_place(p),
        solves(v.place(p), counts, after),
    ensures
        solves(v, with_one_more(counts, p.block.family().ord()), after),
        added(v, after) =~= seq![p] + added(v.place(p), after),
        added(v, after).drop_first() =~= added(v.place(p), after),
{
    let rest = added(v.place(p), after);
    let ps = seq![p] + rest;
    lemma_place_all_placed(v.place(p), rest);
    assert(after.placed =~= v.placed.push(p) + rest);
    assert(added(v, after) =~= ps);
    assert(ps.drop_first() =~= rest);
    assert(ps[0] == p);
    lemma_tally_first(p, rest);
}

/// Where the pieces were placed, they can be placed.
pub proof fn lemma_solves_solvable(v: BoardView, counts: Seq<nat>, after: BoardView)
    requires
        solves(v, counts, after),
    ensures
        solvable(v, counts),
{
    assert(fills(v, added(v, after)));
}

/// Every piece takes up four cells: the pieces of an inventory can fill a
/// well-formed board only if they and the pieces already on it take up its
/// area exactly.
pub proof fn lemma_solvable_area(v: BoardView, counts: Seq<nat>)
    requires
        v.wf(),
        solvable(v, counts),
    ensures
        4 * (v.placed.len() + total(counts)) == v.width * v.height,
{
    let ps = choose|ps: Seq<Placement>| #[trigger] fills(v, ps) && tally(ps) =~= counts;
    let after = place_all(v, ps);
    lemma_tally_total(ps);
    lemma_fills_wf(v, ps);
    lemma_fills_full(v, ps);
    lemma_place_all_placed(v, ps);
    lemma_wf_area(after);
    lemma_full_iff_no_free(after);
}

/// Where the pieces of an inventory have filled a well-formed board, the
/// board is well-formed, holds as many pieces more as the inventory had,
/// and has no empty cell.
pub proof fn lemma_solves_full(v: BoardView, counts: Seq<nat>, after: BoardView)
    requires
        v.wf(),
        solves(v, counts, after),
    ensures
        after.wf(),
        after.full(),
        after.placed.len() == v.placed.len() + total(counts),
        after.width == v.width,
        after.height == v.height,
{
    let ps = added(v, after);
    lemma_tally_total(ps);
    lemma_fills_wf(v, ps);
    lemma_fills_full(v, ps);
    lemma_place_all_placed(v, ps);
}

/// What the first of some pieces that fill the board is: a piece of a
/// family of which the inventory has one, with its anchor on the first empty
/// cell, in the orientation that its turn says; and the others fill the
/// board after it.
pub proof fn lemma_fills_first(v: BoardView, counts: Seq<nat>, x: int, y: int, ps: Seq<Placement>)
    requires
        counts.len() == 7,
        total(counts) > 0,
        v.first_free(x, y),
        fills(v, ps),
        tally(ps) =~= counts,
    ensures
        ps.len() > 0,
        0 <= ps[0].block.family().ord() < 7,
        counts[ps[0].block.family().ord()] > 0,
        ps[0] == starting(x, y, ps[0].block.family().ord()).rotated_by(ps[0].block.turn()),
        ps[0].block.turn() < ps[0].block.states(),
        starting(x, y, ps[0].block.family().ord()).block.states() == ps[0].block.states(),
        v.can_place(ps[0]),
        fills(v.place(ps[0]), ps.drop_first()),
        tally(ps.drop_first()) =~= with_one_less(counts, ps[0].block.family().ord()),
        fits_turned(
            v,
            starting(x, y, ps[0].block.family().ord()),
            with_one_less(counts, ps[0].block.family().ord()),
            ps[0].block.turn(),
        ),
{
    lemma_tally_total(ps);
    let p = ps[0];
    let rest = ps.drop_first();
    assert(seq![p] + rest =~= ps);
    lemma_tally_first(p, rest);
    lemma_first_free_unique(v, x, y, p.x, p.y);
    let i = p.block.family().ord();
    assert(TetrisShape::nth(i) == p.block.family());
    lemma_cycle_reaches(p.block);
    assert(starting(x, y, i).rotated_by(p.block.turn()) == p);
    assert(fills(v.place(p), rest));
}

/// If the pieces of an inventory can fill the board, then a piece of one of
/// its families, in one of its orientations, can be placed with its anchor
/// on the first empty cell, and the others fill the board after it.
pub proof fn lemma_solvable_first(v: BoardView, counts: Seq<nat>, x: int, y: int)
    requires
        counts.len() == 7,
        total(counts) > 0,
        v.first_free(x, y),
        solvable(v, counts),
    ensures
        exists|i: int|
            0 <= i < 7 && counts[i] > 0 && #[trigger] fits_some_way(
                v,
                starting(x, y, i),
                with_one_less(counts, i),
            ),
{
    let ps = choose|ps: Seq<Placement>| #[trigger] fills(v, ps) && tally(ps) =~= counts;
    lemma_fills_first(v, counts, x, y, ps);
    let i = ps[0].block.family().ord();
    assert(fits_some_way(v, starting(x, y, i), with_one_less(counts, i)));
}

/// The pieces that the search places are the first that it could have
/// placed: no piece of an earlier family fits on the first empty cell with
/// the others after it, nor does the first piece in an earlier orientation,
/// and the same holds of the pieces after it.
pub proof fn lemma_leads_first(v: BoardView, counts: Seq<nat>, x: int, y: int, ps: Seq<Placement>)
    requires
        counts.len() == 7,
        total(counts) > 0,
        v.first_free(x, y),
        ps.len() > 0,
        forall|k: int|
            0 <= k < ps[0].block.family().ord() && counts[k] > 0 ==> !#[trigger] fits_some_way(
                v,
                starting(x, y, k),
                with_one_less(counts, k),
            ),
        leads_after(
            v,
            starting(x, y, ps[0].block.family().ord()),
            with_one_less(counts, ps[0].block.family().ord()),
            ps,
        ),
    ensures
        leads(v, counts, ps),
{
    let p = ps[0];
    let i = p.block.family().ord();
    lemma_cycle_reaches(p.block);
    assert forall|qs: Seq<Placement>| #[trigger] fills(v, qs) && tally(qs) =~= counts implies no_later(
        ps,
        qs,
    ) by {
        lemma_fills_first(v, counts, x, y, qs);
        let q = qs[0];
        let f = q.block.family().ord();
        lemma_cycle_reaches(q.block);
        if f < i {
            assert(fits_some_way(v, starting(x, y, f), with_one_less(counts, f)));
        } else if f == i {
            if q.block.turn() < p.block.turn() {
                assert(fits_turned(
                    v,
                    starting(x, y, i),
                    with_one_less(counts, i),
                    q.block.turn(),
                ));
            } else if q.block.turn() == p.block.turn() {
                assert(q == p);
                assert(fills(v.place(p), qs.drop_first()));
                assert(no_later(ps.drop_first(), qs.drop_first()));
            }
        }
    }
}

/// Of two different rows of as many pieces, the search comes upon one
/// first.
pub proof fn lemma_no_later_both_ways(ps: Seq<Placement>, qs: Seq<Placement>)
    requires
        ps.len() == qs.len(),
        no_later(ps, qs),
        no_later(qs, ps),
    ensures
        ps == qs,
    decreases ps.len(),
{
    if ps.len() > 0 {
        lemma_no_later_both_ways(ps.drop_first(), qs.drop_first());
        assert(ps =~= seq![ps[0]] + ps.drop_first());
        assert(qs =~= seq![qs[0]] + qs.drop_first());
    } else {
        assert(ps =~= qs);
    }
}

/// What the search leaves on the board depends on nothing but the board and
/// the inventory that it started from: there is one board only that the
/// pieces of the inventory fill as the search would place them first.
pub proof fn lemma_solution_unique(v: BoardView, counts: Seq<nat>, a: BoardView, b: BoardView)
    requires
        solves(v, counts, a),
        leads(v, counts, added(v, a)),
        solves(v, counts, b),
        leads(v, counts, added(v, b)),
    ensures
        a == b,
{
    let ps = added(v, a);
    let qs = added(v, b);
    lemma_tally_total(ps);
    lemma_tally_total(qs);
    assert(fills(v, qs) && tally(qs) =~= counts);
    assert(fills(v, ps) && tally(ps) =~= counts);
    lemma_no_later_both_ways(ps, qs);
}

/// On a well-formed board whose area has room for a piece more, some cell
/// is empty.
pub proof fn lemma_room_left(v: BoardView)
    requires
        v.wf(),
        4 * (v.placed.len() + 1) <= v.width * v.height,
    ensures
        !v.full(),
{
    lemma_wf_area(v);
    lemma_full_iff_no_free(v);
    assert(count_free(v.cells) > 0);
}

} // verus!
