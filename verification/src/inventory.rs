//! The inventory of pieces still to be placed: a count for each family, and
//! a cursor that rests on a family with pieces left whenever there is one.

use crate::piece::{TetrisShape, TETRIS_SHAPE_COUNT};
use vstd::prelude::*;

verus! {

/// The number of pieces in an inventory with the given counts.
pub open spec fn total(counts: Seq<nat>) -> nat {
    counts[0] + counts[1] + counts[2] + counts[3] + counts[4] + counts[5] + counts[6]
}

/// One if the count is positive, zero otherwise.
pub open spec fn present(count: nat) -> nat {
    if count > 0 {
        1
    } else {
        0
    }
}

/// The number of families of which an inventory with the given counts has
/// a piece.
pub open spec fn distinct(counts: Seq<nat>) -> nat {
    present(counts[0]) + present(counts[1]) + present(counts[2]) + present(counts[3]) + present(
        counts[4],
    ) + present(counts[5]) + present(counts[6])
}

/// The number of pieces of the first `n` families.
pub open spec fn total_of_first(counts: Seq<nat>, n: int) -> nat
    decreases n,
{
    if n <= 0 {
        0
    } else {
        total_of_first(counts, n - 1) + counts[n - 1]
    }
}

/// The number of those among the first `n` families of which there is a
/// piece.
pub open spec fn distinct_of_first(counts: Seq<nat>, n: int) -> nat
    decreases n,
{
    if n <= 0 {
        0
    } else {
        distinct_of_first(counts, n - 1) + present(counts[n - 1])
    }
}

/// The number of steps, from one to seven, that lead from the family at
/// position `from` to the one at position `to` in the cyclic order.
pub open spec fn gap(from: int, to: int) -> int {
    if to > from {
        to - from
    } else {
        to - from + 7
    }
}

/// Whether a cursor that leaves `from` comes to rest on `to`: on the next
/// family in cyclic order that has a piece, which is the family at `from`
/// itself when no other has one, or on `from` when the inventory is empty.
pub open spec fn advanced(counts: Seq<nat>, from: int, to: int) -> bool {
    if total(counts) == 0 {
        to == from
    } else {
        &&& 0 <= to < 7
        &&& counts[to] > 0
        &&& forall|k: int|
            0 <= k < 7 && gap(from, k) < gap(from, to) ==> #[trigger] counts[k] == 0
    }
}

/// Whether a cursor at `from` is at rest on `to`: it stays where it is on a
/// family that has a piece, and advances otherwise.
pub open spec fn settled(counts: Seq<nat>, from: int, to: int) -> bool {
    if counts[from] > 0 {
        to == from
    } else {
        advanced(counts, from, to)
    }
}

/// The counts with one piece more of the family at position `i`.
pub open spec fn with_one_more(counts: Seq<nat>, i: int) -> Seq<nat> {
    counts.update(i, counts[i] + 1)
}

/// The counts with one piece less of the family at position `i`.
pub open spec fn with_one_less(counts: Seq<nat>, i: int) -> Seq<nat> {
    counts.update(i, (counts[i] - 1) as nat)
}

/// A multiset of piece families: how many pieces of each family are left.
pub struct TetrisSet {
    ptr: usize,
    block_count: [u8; TETRIS_SHAPE_COUNT],
}

impl View for TetrisSet {
    type V = Seq<nat>;

    /// The number of pieces of each family, in the order O, I, S, Z, T, L, J.
    closed spec fn view(&self) -> Seq<nat> {
        Seq::new(7, |i: int| self.block_count@[i] as nat)
    }
}

impl TetrisSet {
    /// The position of the family on which the cursor rests.
    pub closed spec fn cursor(&self) -> int {
        self.ptr as int
    }

    /// There is a count of at most 255 for each of the seven families, and
    /// the cursor rests on a family with a piece left unless there is none.
    pub open spec fn wf(&self) -> bool {
        &&& self@.len() == 7
        &&& forall|i: int| 0 <= i < 7 ==> self@[i] <= u8::MAX
        &&& 0 <= self.cursor() < 7
        &&& self@[self.cursor()] == 0 ==> total(self@) == 0
    }

    /// The number of pieces of a family.
    pub open spec fn count_of(&self, shape: TetrisShape) -> nat {
        self@[shape.ord()]
    }

    /// An inventory without pieces.
    pub fn new() -> (set: Self)
        ensures
            set.wf(),
            set.cursor() == 0,
            forall|i: int| 0 <= i < 7 ==> set@[i] == 0,
    {
        TetrisSet { ptr: 0, block_count: [0;TETRIS_SHAPE_COUNT] }
    }

    /// Whether no piece is left.
    pub fn is_empty(&self) -> (empty: bool)
        requires
            self.wf(),
        ensures
            empty == (total(self@) == 0),
    {
        self.block_count[self.ptr] == 0
    }

    /// The inventory with the given number of pieces of each family, in the
    /// order O, I, S, Z, T, L, J.
    pub fn from_count_array(array: [u8; TETRIS_SHAPE_COUNT]) -> (set: Self)
        ensures
            set.wf(),
            forall|i: int| 0 <= i < 7 ==> set@[i] == array@[i],
            settled(set@, 0, set.cursor()),
    {
        let mut tetris_set = TetrisSet { ptr: 0, block_count: array };
        tetris_set.rotate_to_nonempty();
        tetris_set
    }

    /// Adds `count` pieces of a family.
    pub fn add(&mut self, block_shape: TetrisShape, count: u8)
        requires
            old(self).wf(),
            old(self).count_of(block_shape) + count <= u8::MAX,
        ensures
            final(self).wf(),
            final(self)@ == old(self)@.update(
                block_shape.ord(),
                old(self).count_of(block_shape) + count as nat,
            ),
            settled(final(self)@, old(self).cursor(), final(self).cursor()),
    {
        let i = block_shape.index();
        self.block_count[i] = self.block_count[i] + count;
        assert(self@ =~= old(self)@.update(
            block_shape.ord(),
            old(self).count_of(block_shape) + count as nat,
        ));
        self.rotate_to_nonempty();
    }

    /// Adds one piece of a family.
    pub fn push(&mut self, block_shape: TetrisShape)
        requires
            old(self).wf(),
            old(self).count_of(block_shape) < u8::MAX,
        ensures
            final(self).wf(),
            final(self)@ == with_one_more(old(self)@, block_shape.ord()),
            settled(final(self)@, old(self).cursor(), final(self).cursor()),
    {
        self.add(block_shape, 1);
    }

    /// Takes one piece of the family under the cursor out of the inventory.
    fn decrement_count_on_ptr(&mut self)
        requires
            old(self).wf(),
            old(self)@[old(self).cursor()] > 0,
        ensures
            final(self).wf(),
            final(self)@ == with_one_less(old(self)@, old(self).cursor()),
            settled(final(self)@, old(self).cursor(), final(self).cursor()),
    {
        self.block_count[self.ptr] = self.block_count[self.ptr] - 1;
        assert(self@ =~= with_one_less(old(self)@, old(self).cursor()));
        self.rotate_to_nonempty();
    }

    /// Takes one piece of the family under the cursor out of the inventory
    /// and returns its family; `None`, and no change, if no piece is left.
    pub fn pop(&mut self) -> (taken: Option<TetrisShape>)
        requires
            old(self).wf(),
        ensures
            final(self).wf(),
            match taken {
                Some(shape) => {
                    &&& total(old(self)@) > 0
                    &&& shape == TetrisShape::nth(old(self).cursor())
                    &&& final(self)@ == with_one_less(old(self)@, old(self).cursor())
                    &&& settled(final(self)@, old(self).cursor(), final(self).cursor())
                },
                None => {
                    &&& total(old(self)@) == 0
                    &&& final(self)@ == old(self)@
                    &&& final(self).cursor() == old(self).cursor()
                },
            },
    {
        if self.block_count[self.ptr] == 0 {
            return None;
        }
        let block_id = self.ptr;
        self.decrement_count_on_ptr();
        TetrisShape::from_index(block_id)
    }

    /// The number of pieces of a family.
    pub fn count(&self, block_shape: TetrisShape) -> (count: u8)
        requires
            self.wf(),
        ensures
            count == self.count_of(block_shape),
    {
        self.block_count[block_shape.index()]
    }

    /// Takes one piece of the given family out of the inventory, if there is
    /// one, and says whether it did.
    pub fn remove(&mut self, block_shape: TetrisShape) -> (taken: bool)
        requires
            old(self).wf(),
        ensures
            final(self).wf(),
            taken == (old(self).count_of(block_shape) > 0),
            taken ==> final(self)@ == with_one_less(old(self)@, block_shape.ord()),
            !taken ==> final(self)@ == old(self)@,
            settled(final(self)@, old(self).cursor(), final(self).cursor()),
    {
        let i = block_shape.index();
        if self.block_count[i] == 0 {
            return false;
        }
        self.block_count[i] = self.block_count[i] - 1;
        assert(self@ =~= with_one_less(old(self)@, block_shape.ord()));
        self.rotate_to_nonempty();
        true
    }

    /// The number of pieces of all families together.
    pub fn total_block_count(&self) -> (count: usize)
        requires
            self.wf(),
        ensures
            count == total(self@),
    {
        let mut count: usize = 0;
        let mut i: usize = 0;
        while i < TETRIS_SHAPE_COUNT
            invariant
                0 <= i <= 7,
                self.wf(),
                count <= 255 * i,
                count == total_of_first(self@, i as int),
            decreases 7 - i,
        {
            count = count + self.block_count[i] as usize;
            i += 1;
        }
        proof {
            reveal_with_fuel(total_of_first, 8);
        }
        count
    }

    /// The number of families of which a piece is left.
    pub fn distinct_shapes_count(&self) -> (count: u8)
        requires
            self.wf(),
        ensures
            count == distinct(self@),
    {
        let mut count: u8 = 0;
        let mut i: usize = 0;
        while i < TETRIS_SHAPE_COUNT
            invariant
                0 <= i <= 7,
                self.wf(),
                count <= i,
                count == distinct_of_first(self@, i as int),
            decreases 7 - i,
        {
            if self.block_count[i] > 0 {
                count = count + 1;
            }
            i += 1;
        }
        proof {
            reveal_with_fuel(distinct_of_first, 8);
        }
        count
    }

    /// Moves the cursor on if it rests on a family of which no piece is left.
    fn rotate_to_nonempty(&mut self)
        requires
            old(self).cursor() < 7,
        ensures
            final(self).wf(),
            final(self)@ == old(self)@,
            settled(final(self)@, old(self).cursor(), final(self).cursor()),
    {
        if self.block_count[self.ptr] == 0 {
            self.rotate();
        }
    }

    /// Moves the cursor on to the next family, in cyclic order, of which a
    /// piece is left.
    pub fn rotate(&mut self)
        requires
            old(self).cursor() < 7,
        ensures
            final(self).wf(),
            final(self)@ == old(self)@,
            advanced(final(self)@, old(self).cursor(), final(self).cursor()),
    {
        let ghost start = self.ptr as int;
        let mut i: usize = 0;
        while i < TETRIS_SHAPE_COUNT
            invariant_except_break
                self.ptr as int == (if start + i < 7 {
                    start + i
                } else {
                    start + i - 7
                }),
            invariant
                0 <= i <= 7,
                0 <= start < 7,
                self.ptr < 7,
                self@ == old(self)@,
                self@.len() == 7,
                forall|k: int| 0 <= k < 7 && gap(start, k) <= i ==> #[trigger] self@[k] == 0,
            ensures
                i < 7 ==> gap(start, self.ptr as int) == i + 1 && self@[self.ptr as int] > 0,
                i == 7 ==> self.ptr as int == start,
            decreases 7 - i,
        {
            self.ptr = (self.ptr + 1) % TETRIS_SHAPE_COUNT;
            assert(gap(start, self.ptr as int) == i + 1);
            if self.block_count[self.ptr] > 0 {
                break ;
            }
            assert forall|k: int| 0 <= k < 7 && gap(start, k) <= i + 1 implies #[trigger] self@[k]
                == 0 by {
                if gap(start, k) == i + 1 {
                    assert(k == self.ptr);
                }
            }
            i += 1;
        }
        proof {
            if i == 7 {
                assert(self@[0] == 0 && self@[1] == 0 && self@[2] == 0 && self@[3] == 0);
                assert(self@[4] == 0 && self@[5] == 0 && self@[6] == 0);
            }
        }
    }
}

} // verus!
