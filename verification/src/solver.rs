//! The search: depth-first, always filling the first empty cell of the
//! board next, with each family that has a piece left, in each of its
//! orientations, until the pieces are used up and no cell is empty.

use crate::board::{Board, Sigil, TetrisBlock, TetrisShape, TETRIS_SHAPE_COUNT};
use crate::cover::{lemma_solvable_iff_tiling, tileable};
use crate::grid::{lemma_place_unplace, lemma_wf_area};
use crate::inventory::{total, with_one_less, with_one_more, TetrisSet};
use crate::piece::{lemma_cycle_reaches, lemma_rotation_keeps_family};
use crate::tiling::{
    added, fits_some_way, fits_turned, leads, leads_after, lemma_leads_first, lemma_room_left,
    lemma_solvable_area, lemma_solvable_empty, lemma_solvable_first, lemma_solves_first,
    lemma_solves_full, lemma_solves_solvable, solvable, solves, starting,
};
use vstd::prelude::*;

verus! {

/// Fills the board with the pieces of the inventory, if they can tile its
/// empty cells, and says whether it did.
///
/// On success every piece of the inventory is on the board, no cell is
/// empty, and the inventory is. Otherwise the board and the counts of the
/// inventory are as they were: so it is when the pieces do not take up the
/// empty cells exactly, be they too many or too few.
pub fn solve(board: &mut Board, blocks: &mut TetrisSet) -> (solved: bool)
    requires
        old(board)@.wf(),
        old(blocks).wf(),
    ensures
        final(board)@.wf(),
        final(blocks).wf(),
        solved == tileable(old(board)@, old(blocks)@),
        solved == solvable(old(board)@, old(blocks)@),
        solved ==> solves(old(board)@, old(blocks)@, final(board)@),
        solved ==> leads(old(board)@, old(blocks)@, added(old(board)@, final(board)@)),
        solved ==> total(final(blocks)@) == 0,
        solved ==> final(board)@.placed.len() == old(board)@.placed.len() + total(old(blocks)@),
        solved ==> final(board)@.full(),
        4 * (old(board)@.placed.len() + total(old(blocks)@)) != old(board)@.width * old(
            board,
        )@.height ==> !solved,
        !solved ==> final(board)@ == old(board)@ && final(blocks)@ == old(blocks)@,
    decreases total(old(blocks)@), 0int,
{
    let ghost start = board@;
    let ghost counts = blocks@;
    proof {
        lemma_wf_area(start);
        lemma_solvable_iff_tiling(start, counts);
        if solvable(start, counts) {
            lemma_solvable_area(start, counts);
        }
    }
    if blocks.is_empty() {
        let full = find_anchore(board).is_none();
        proof {
            lemma_solvable_empty(start, counts);
            if full {
                lemma_solves_full(start, counts, start);
            }
        }
        return full;
    }
    if board.capacity() < blocks.total_block_count() {
        return false;
    }
    proof {
        lemma_room_left(start);
    }
    if let Some(pos) = find_anchore(board) {
        let mut i: usize = 0;
        while i < TETRIS_SHAPE_COUNT
            invariant
                0 <= i <= 7,
                board@ == start,
                blocks@ == counts,
                start == old(board)@,
                counts == old(blocks)@,
                start.wf(),
                blocks.wf(),
                total(counts) > 0,
                solvable(start, counts) == tileable(start, counts),
                start.first_free(pos.0 as int, pos.1 as int),
                forall|k: int|
                    0 <= k < i && counts[k] > 0 ==> !#[trigger] fits_some_way(
                        start,
                        starting(pos.0 as int, pos.1 as int, k),
                        with_one_less(counts, k),
                    ),
            decreases 7 - i,
        {
            if let Some(shape) = TetrisShape::from_index(i) {
                if blocks.remove(shape) {
                    let sigil = Sigil::new(pos, TetrisBlock::default(shape));
                    assert(sigil@ == starting(pos.0 as int, pos.1 as int, i as int));
                    assert(sigil@.block.family().ord() == i);
                    assert(with_one_more(with_one_less(counts, i as int), i as int) =~= counts);
                    assert(total(blocks@) < total(counts));
                    if solve_from_anchore(sigil, board, blocks) {
                        proof {
                            let ps = added(start, board@);
                            lemma_cycle_reaches(ps[0].block);
                            lemma_rotation_keeps_family(sigil@.block, ps[0].block.turn());
                            lemma_leads_first(start, counts, pos.0 as int, pos.1 as int, ps);
                            lemma_solves_solvable(start, counts, board@);
                            lemma_solvable_area(start, counts);
                            lemma_solves_full(start, counts, board@);
                        }
                        return true;
                    }
                    blocks.push(shape);
                }
            }
            i += 1;
        }
        proof {
            if solvable(start, counts) {
                lemma_solvable_first(start, counts, pos.0 as int, pos.1 as int);
            }
        }
        return false;
    }
    // A well-formed board whose area has room for another piece always has
    // an empty cell.
    false
}

/// The first empty cell of the board, rows from the top and each row from
/// the left; `None` if no cell is empty.
pub fn find_anchore(board: &Board) -> (anchor: Option<(u8, u8)>)
    requires
        board@.inv(),
    ensures
        match anchor {
            Some(pos) => board@.first_free(pos.0 as int, pos.1 as int),
            None => board@.full(),
        },
{
    let height = board.height();
    let width = board.width();
    let mut y: u8 = 0;
    while y < height
        invariant
            0 <= y <= height,
            board@.inv(),
            height == board@.height,
            width == board@.width,
            forall|u: int, v: int|
                board@.in_bounds(u, v) && v < y ==> !#[trigger] board@.is_available(u, v),
        decreases height - y,
    {
        let mut x: u8 = 0;
        while x < width
            invariant
                0 <= x <= width,
                0 <= y < height,
                board@.inv(),
                height == board@.height,
                width == board@.width,
                forall|u: int, v: int|
                    board@.in_bounds(u, v) && (v < y || (v == y && u < x))
                        ==> !#[trigger] board@.is_available(u, v),
            decreases width - x,
        {
            if board.is_cell_avaiable((x as i16, y as i16)) {
                return Some((x, y));
            }
            x += 1;
        }
        y += 1;
    }
    None
}

/// Tries the piece on its anchor in each orientation of its family, from
/// the one in which the family starts, and after each that can be placed,
/// the rest of the search; says whether one of them led to every piece being
/// placed.
fn solve_from_anchore(sigil: Sigil, board: &mut Board, blocks: &mut TetrisSet) -> (solved: bool)
    requires
        old(board)@.wf(),
        old(blocks).wf(),
        old(board)@.first_free(sigil@.x, sigil@.y),
        sigil@.block == TetrisBlock::initial(sigil@.block.family()),
    ensures
        final(board)@.wf(),
        final(blocks).wf(),
        solved == fits_some_way(old(board)@, sigil@, old(blocks)@),
        solved ==> leads_after(
            old(board)@,
            sigil@,
            old(blocks)@,
            added(old(board)@, final(board)@),
        ),
        solved ==> solves(
            old(board)@,
            with_one_more(old(blocks)@, sigil@.block.family().ord()),
            final(board)@,
        ),
        solved ==> total(final(blocks)@) == 0,
        !solved ==> final(board)@ == old(board)@ && final(blocks)@ == old(blocks)@,
    decreases total(old(blocks)@), 1int,
{
    let ghost start = board@;
    let ghost counts = blocks@;
    let ghost first = sigil@;
    let mut piece = sigil;
    let n = piece.n_states();
    let mut j: i32 = 0;
    while j < n
        invariant
            0 <= j <= n,
            n == first.block.states(),
            first == sigil@,
            first.block == TetrisBlock::initial(first.block.family()),
            piece@ == first.rotated_by(j as nat),
            board@ == start,
            blocks@ == counts,
            start == old(board)@,
            counts == old(blocks)@,
            start.wf(),
            blocks.wf(),
            start.first_free(first.x, first.y),
            forall|k: nat| k < j ==> !#[trigger] fits_turned(start, first, counts, k),
        decreases n - j,
    {
        let ghost turned = piece@;
        match board.add_sigil(piece) {
            Ok(()) => {
                if solve(board, blocks) {
                    proof {
                        lemma_solves_first(start, turned, counts, board@);
                        lemma_rotation_keeps_family(first.block, j as nat);
                        lemma_cycle_reaches(turned.block);
                        assert(fits_turned(start, first, counts, j as nat));
                        assert(added(start, board@)[0] == turned);
                        assert(turned.block.turn() == j);
                    }
                    return true;
                }
                proof {
                    lemma_place_unplace(start, turned);
                }
                if let Some(s) = board.pop_sigil() {
                    piece = s;
                } else {
                    return false;
                }
            },
            Err(sig) => {
                piece = sig;
            },
        }
        piece.rotate();
        j += 1;
    }
    false
}

} // verus!
