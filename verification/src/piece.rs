//! The piece catalog: the seven tetromino families, their orientations, and
//! the four cells that each orientation occupies relative to its anchor.
//!
//! The anchor of every orientation is its topmost cell, and among those its
//! leftmost one, so a piece anchored on the first free cell of a board in
//! row-major order never reaches back over cells that come before it.

use vstd::prelude::*;

verus! {

/// One cell of a footprint: its offset from the anchor and the symbol drawn in it.
pub type SigilCell = ((i8, i8), char);

/// The symbol of a cell that no piece occupies.
pub const EMPTY_CELL: char = '•';

/// The number of piece families.
pub const TETRIS_SHAPE_COUNT: usize = 7;

pub const SQUARE: [SigilCell; 4] = [((0, 0), '┏'), ((1, 0), '┓'), ((0, 1), '┗'), ((1, 1), '┛')];

pub const H_LINE: [SigilCell; 4] = [((0, 0), '╺'), ((1, 0), '━'), ((2, 0), '━'), ((3, 0), '╸')];

pub const V_LINE: [SigilCell; 4] = [((0, 0), '╻'), ((0, 1), '┃'), ((0, 2), '┃'), ((0, 3), '╹')];

pub const SH: [SigilCell; 4] = [((-1, 1), '╺'), ((0, 1), '┛'), ((0, 0), '┏'), ((1, 0), '╸')];

pub const SV: [SigilCell; 4] = [((0, 0), '╻'), ((0, 1), '┗'), ((1, 1), '┓'), ((1, 2), '╹')];

pub const ZH: [SigilCell; 4] = [((0, 0), '╺'), ((1, 0), '┓'), ((1, 1), '┗'), ((2, 1), '╸')];

pub const ZV: [SigilCell; 4] = [((0, 0), '╻'), ((0, 1), '┛'), ((-1, 1), '┏'), ((-1, 2), '╹')];

pub const T_UP: [SigilCell; 4] = [((-1, 1), '╺'), ((0, 1), '┻'), ((0, 0), '╻'), ((1, 1), '╸')];

pub const T_RIGHT: [SigilCell; 4] = [((0, 0), '╻'), ((0, 1), '┣'), ((1, 1), '╸'), ((0, 2), '╹')];

pub const T_DOWN: [SigilCell; 4] = [((0, 0), '╺'), ((1, 0), '┳'), ((1, 1), '╹'), ((2, 0), '╸')];

pub const T_LEFT: [SigilCell; 4] = [((0, 0), '╻'), ((0, 1), '┫'), ((-1, 1), '╺'), ((0, 2), '╹')];

pub const L_UP: [SigilCell; 4] = [((0, 0), '╻'), ((0, 1), '┃'), ((0, 2), '┗'), ((1, 2), '╸')];

pub const L_RIGHT: [SigilCell; 4] = [((0, 0), '┏'), ((0, 1), '╹'), ((1, 0), '━'), ((2, 0), '╸')];

pub const L_DOWN: [SigilCell; 4] = [((0, 0), '╺'), ((1, 0), '┓'), ((1, 1), '┃'), ((1, 2), '╹')];

pub const L_LEFT: [SigilCell; 4] = [((-2, 1), '╺'), ((-1, 1), '━'), ((0, 1), '┛'), ((0, 0), '╻')];

pub const J_UP: [SigilCell; 4] = [((0, 0), '╻'), ((0, 1), '┃'), ((0, 2), '┛'), ((-1, 2), '╺')];

pub const J_RIGHT: [SigilCell; 4] = [((0, 0), '╻'), ((0, 1), '┗'), ((1, 1), '━'), ((2, 1), '╸')];

pub const J_DOWN: [SigilCell; 4] = [((0, 0), '┏'), ((1, 0), '╸'), ((0, 1), '┃'), ((0, 2), '╹')];

pub const J_LEFT: [SigilCell; 4] = [((0, 0), '╺'), ((1, 0), '━'), ((2, 0), '┓'), ((2, 1), '╹')];

/// The axis of a piece with two orientations.
#[derive(Clone, Copy, Debug, PartialEq, Eq, Structural)]
pub enum Line {
    Horizontal,
    Vertical,
}

impl Line {
    /// The other axis.
    pub open spec fn rotated(self) -> Line {
        match self {
            Line::Horizontal => Line::Vertical,
            Line::Vertical => Line::Horizontal,
        }
    }

    /// The other axis.
    pub fn rotate(self) -> (next: Line)
        ensures
            next == self.rotated(),
    {
        match self {
            Line::Horizontal => Line::Vertical,
            Line::Vertical => Line::Horizontal,
        }
    }
}

/// The facing of a piece with four orientations.
#[derive(Clone, Copy, Debug, PartialEq, Eq, Structural)]
pub enum Direction {
    Up,
    Right,
    Down,
    Left,
}

impl Direction {
    /// The facing a quarter turn clockwise from this one.
    pub open spec fn rotated(self) -> Direction {
        match self {
            Direction::Up => Direction::Right,
            Direction::Right => Direction::Down,
            Direction::Down => Direction::Left,
            Direction::Left => Direction::Up,
        }
    }

    /// The facing a quarter turn clockwise from this one.
    pub fn rotate(self) -> (next: Self)
        ensures
            next == self.rotated(),
    {
        match self {
            Direction::Up => Direction::Right,
            Direction::Right => Direction::Down,
            Direction::Down => Direction::Left,
            Direction::Left => Direction::Up,
        }
    }
}

/// A piece family.
#[derive(Clone, Copy, Debug, PartialEq, Eq, Structural)]
pub enum TetrisShape {
    O,
    I,
    S,
    Z,
    T,
    L,
    J,
}

impl TetrisShape {
    /// The position of the family in the fixed order O, I, S, Z, T, L, J.
    pub open spec fn ord(self) -> int {
        match self {
            TetrisShape::O => 0,
            TetrisShape::I => 1,
            TetrisShape::S => 2,
            TetrisShape::Z => 3,
            TetrisShape::T => 4,
            TetrisShape::L => 5,
            TetrisShape::J => 6,
        }
    }

    /// The family at position `i` of the fixed order; `O` outside `0..7`.
    pub open spec fn nth(i: int) -> TetrisShape {
        if i == 1 {
            TetrisShape::I
        } else if i == 2 {
            TetrisShape::S
        } else if i == 3 {
            TetrisShape::Z
        } else if i == 4 {
            TetrisShape::T
        } else if i == 5 {
            TetrisShape::L
        } else if i == 6 {
            TetrisShape::J
        } else {
            TetrisShape::O
        }
    }

    /// The position of the family in the fixed order O, I, S, Z, T, L, J.
    pub fn index(self) -> (i: usize)
        ensures
            i == self.ord(),
            i < TETRIS_SHAPE_COUNT,
    {
        match self {
            TetrisShape::O => 0,
            TetrisShape::I => 1,
            TetrisShape::S => 2,
            TetrisShape::Z => 3,
            TetrisShape::T => 4,
            TetrisShape::L => 5,
            TetrisShape::J => 6,
        }
    }

    /// The family at position `i` of the fixed order, if there is one.
    pub fn from_index(i: usize) -> (shape: Option<TetrisShape>)
        ensures
            i < TETRIS_SHAPE_COUNT ==> shape == Some(TetrisShape::nth(i as int)),
            i >= TETRIS_SHAPE_COUNT ==> shape.is_none(),
    {
        match i {
            0 => Some(TetrisShape::O),
            1 => Some(TetrisShape::I),
            2 => Some(TetrisShape::S),
            3 => Some(TetrisShape::Z),
            4 => Some(TetrisShape::T),
            5 => Some(TetrisShape::L),
            6 => Some(TetrisShape::J),
            _ => None,
        }
    }
}

/// A piece family in one of its orientations.
#[derive(Clone, Copy, Debug, PartialEq, Eq, Structural)]
pub enum TetrisBlock {
    O,
    I(Line),
    S(Line),
    Z(Line),
    T(Direction),
    L(Direction),
    J(Direction),
}

impl TetrisBlock {
    /// The orientation in which a piece of the family starts.
    pub open spec fn initial(shape: TetrisShape) -> TetrisBlock {
        match shape {
            TetrisShape::O => TetrisBlock::O,
            TetrisShape::I => TetrisBlock::I(Line::Horizontal),
            TetrisShape::S => TetrisBlock::S(Line::Horizontal),
            TetrisShape::Z => TetrisBlock::Z(Line::Horizontal),
            TetrisShape::T => TetrisBlock::T(Direction::Down),
            TetrisShape::L => TetrisBlock::L(Direction::Right),
            TetrisShape::J => TetrisBlock::J(Direction::Up),
        }
    }

    /// The family that this orientation belongs to.
    pub open spec fn family(self) -> TetrisShape {
        match self {
            TetrisBlock::O => TetrisShape::O,
            TetrisBlock::I(_) => TetrisShape::I,
            TetrisBlock::S(_) => TetrisShape::S,
            TetrisBlock::Z(_) => TetrisShape::Z,
            TetrisBlock::T(_) => TetrisShape::T,
            TetrisBlock::L(_) => TetrisShape::L,
            TetrisBlock::J(_) => TetrisShape::J,
        }
    }

    /// The number of orientations of this piece's family.
    pub open spec fn states(self) -> int {
        match self {
            TetrisBlock::O => 1,
            TetrisBlock::I(_) => 2,
            TetrisBlock::S(_) => 2,
            TetrisBlock::Z(_) => 2,
            TetrisBlock::T(_) => 4,
            TetrisBlock::L(_) => 4,
            TetrisBlock::J(_) => 4,
        }
    }

    /// The number of rotations that lead to this orientation from the one in
    /// which its family starts.
    pub open spec fn turn(self) -> nat {
        match self {
            TetrisBlock::O => 0,
            TetrisBlock::I(Line::Horizontal) => 0,
            TetrisBlock::I(Line::Vertical) => 1,
            TetrisBlock::S(Line::Horizontal) => 0,
            TetrisBlock::S(Line::Vertical) => 1,
            TetrisBlock::Z(Line::Horizontal) => 0,
            TetrisBlock::Z(Line::Vertical) => 1,
            TetrisBlock::T(Direction::Down) => 0,
            TetrisBlock::T(Direction::Left) => 1,
            TetrisBlock::T(Direction::Up) => 2,
            TetrisBlock::T(Direction::Right) => 3,
            TetrisBlock::L(Direction::Right) => 0,
            TetrisBlock::L(Direction::Down) => 1,
            TetrisBlock::L(Direction::Left) => 2,
            TetrisBlock::L(Direction::Up) => 3,
            TetrisBlock::J(Direction::Up) => 0,
            TetrisBlock::J(Direction::Right) => 1,
            TetrisBlock::J(Direction::Down) => 2,
            TetrisBlock::J(Direction::Left) => 3,
        }
    }

    /// The next orientation in the family's rotation cycle.
    pub open spec fn rotated(self) -> TetrisBlock {
        match self {
            TetrisBlock::O => self,
            TetrisBlock::I(line) => TetrisBlock::I(line.rotated()),
            TetrisBlock::S(line) => TetrisBlock::S(line.rotated()),
            TetrisBlock::Z(line) => TetrisBlock::Z(line.rotated()),
            TetrisBlock::T(dir) => TetrisBlock::T(dir.rotated()),
            TetrisBlock::L(dir) => TetrisBlock::L(dir.rotated()),
            TetrisBlock::J(dir) => TetrisBlock::J(dir.rotated()),
        }
    }

    /// The orientation reached after `n` rotations.
    pub open spec fn rotated_by(self, n: nat) -> TetrisBlock
        decreases n,
    {
        if n == 0 {
            self
        } else {
            self.rotated_by((n - 1) as nat).rotated()
        }
    }

    /// The four cells of this orientation, as offsets from the anchor, each
    /// with its symbol.
    pub open spec fn table(self) -> [SigilCell; 4] {
        match self {
            TetrisBlock::O => SQUARE,
            TetrisBlock::I(Line::Horizontal) => H_LINE,
            TetrisBlock::I(Line::Vertical) => V_LINE,
            TetrisBlock::S(Line::Horizontal) => SH,
            TetrisBlock::S(Line::Vertical) => SV,
            TetrisBlock::Z(Line::Horizontal) => ZH,
            TetrisBlock::Z(Line::Vertical) => ZV,
            TetrisBlock::T(Direction::Up) => T_UP,
            TetrisBlock::T(Direction::Right) => T_RIGHT,
            TetrisBlock::T(Direction::Down) => T_DOWN,
            TetrisBlock::T(Direction::Left) => T_LEFT,
            TetrisBlock::L(Direction::Up) => L_UP,
            TetrisBlock::L(Direction::Right) => L_RIGHT,
            TetrisBlock::L(Direction::Down) => L_DOWN,
            TetrisBlock::L(Direction::Left) => L_LEFT,
            TetrisBlock::J(Direction::Up) => J_UP,
            TetrisBlock::J(Direction::Right) => J_RIGHT,
            TetrisBlock::J(Direction::Down) => J_DOWN,
            TetrisBlock::J(Direction::Left) => J_LEFT,
        }
    }

    /// The offset of the `k`-th cell from the anchor.
    pub open spec fn offset(self, k: int) -> (int, int) {
        (self.table()@[k].0.0 as int, self.table()@[k].0.1 as int)
    }

    /// The symbol of the `k`-th cell.
    pub open spec fn symbol(self, k: int) -> char {
        self.table()@[k].1
    }

    /// The orientation in which a piece of the family starts.
    pub fn default(shape: TetrisShape) -> (block: Self)
        ensures
            block == TetrisBlock::initial(shape),
    {
        match shape {
            TetrisShape::O => TetrisBlock::O,
            TetrisShape::I => TetrisBlock::I(Line::Horizontal),
            TetrisShape::S => TetrisBlock::S(Line::Horizontal),
            TetrisShape::Z => TetrisBlock::Z(Line::Horizontal),
            TetrisShape::T => TetrisBlock::T(Direction::Down),
            TetrisShape::L => TetrisBlock::L(Direction::Right),
            TetrisShape::J => TetrisBlock::J(Direction::Up),
        }
    }

    /// The next orientation in the family's rotation cycle.
    pub fn rotate(self) -> (next: Self)
        ensures
            next == self.rotated(),
    {
        match self {
            TetrisBlock::O => self,
            TetrisBlock::I(line) => TetrisBlock::I(line.rotate()),
            TetrisBlock::S(line) => TetrisBlock::S(line.rotate()),
            TetrisBlock::Z(line) => TetrisBlock::Z(line.rotate()),
            TetrisBlock::T(dir) => TetrisBlock::T(dir.rotate()),
            TetrisBlock::L(dir) => TetrisBlock::L(dir.rotate()),
            TetrisBlock::J(dir) => TetrisBlock::J(dir.rotate()),
        }
    }

    /// The family that this orientation belongs to.
    pub fn shape(self) -> (shape: TetrisShape)
        ensures
            shape == self.family(),
    {
        match self {
            TetrisBlock::O => TetrisShape::O,
            TetrisBlock::I(_) => TetrisShape::I,
            TetrisBlock::S(_) => TetrisShape::S,
            TetrisBlock::Z(_) => TetrisShape::Z,
            TetrisBlock::T(_) => TetrisShape::T,
            TetrisBlock::L(_) => TetrisShape::L,
            TetrisBlock::J(_) => TetrisShape::J,
        }
    }
}

/// A piece in a given orientation with its anchor on a given cell: what a
/// [`Sigil`] stands for.
pub struct Placement {
    pub x: int,
    pub y: int,
    pub block: TetrisBlock,
}

impl Placement {
    /// The `k`-th cell that the piece occupies.
    pub open spec fn cell(self, k: int) -> (int, int) {
        (self.x + self.block.offset(k).0, self.y + self.block.offset(k).1)
    }

    /// Whether the piece occupies the cell `(x, y)`.
    pub open spec fn covers(self, x: int, y: int) -> bool {
        self.cell(0) == (x, y) || self.cell(1) == (x, y) || self.cell(2) == (x, y) || self.cell(3)
            == (x, y)
    }

    /// Whether the two pieces have a cell in common.
    pub open spec fn overlaps(self, other: Placement) -> bool {
        other.covers(self.cell(0).0, self.cell(0).1) || other.covers(
            self.cell(1).0,
            self.cell(1).1,
        ) || other.covers(self.cell(2).0, self.cell(2).1) || other.covers(
            self.cell(3).0,
            self.cell(3).1,
        )
    }

    /// The same piece at the same anchor, turned to its next orientation.
    pub open spec fn rotated(self) -> Placement {
        Placement { x: self.x, y: self.y, block: self.block.rotated() }
    }

    /// The same piece at the same anchor after `n` rotations.
    pub open spec fn rotated_by(self, n: nat) -> Placement {
        Placement { x: self.x, y: self.y, block: self.block.rotated_by(n) }
    }
}

/// A piece instance: an anchor cell and a family in one orientation.
#[derive(Debug)]
pub struct Sigil {
    pos: (u8, u8),
    class: TetrisBlock,
}

impl View for Sigil {
    type V = Placement;

    closed spec fn view(&self) -> Placement {
        Placement { x: self.pos.0 as int, y: self.pos.1 as int, block: self.class }
    }
}

impl Sigil {
    /// The piece with its anchor on `pos`.
    pub fn new(pos: (u8, u8), tetris: TetrisBlock) -> (sigil: Self)
        ensures
            sigil@ == (Placement { x: pos.0 as int, y: pos.1 as int, block: tetris }),
    {
        Sigil { pos, class: tetris }
    }

    /// The anchor cell.
    pub fn pos(&self) -> (pos: (u8, u8))
        ensures
            pos.0 == self@.x,
            pos.1 == self@.y,
    {
        self.pos
    }

    /// The family and orientation.
    pub fn class(&self) -> (class: TetrisBlock)
        ensures
            class == self@.block,
    {
        self.class
    }

    /// The four offsets and symbols of the piece's orientation.
    pub fn shape(&self) -> (cells: [SigilCell; 4])
        ensures
            cells == self@.block.table(),
    {
        match self.class {
            TetrisBlock::O => SQUARE,
            TetrisBlock::I(Line::Horizontal) => H_LINE,
            TetrisBlock::I(Line::Vertical) => V_LINE,
            TetrisBlock::S(Line::Horizontal) => SH,
            TetrisBlock::S(Line::Vertical) => SV,
            TetrisBlock::Z(Line::Horizontal) => ZH,
            TetrisBlock::Z(Line::Vertical) => ZV,
            TetrisBlock::T(Direction::Up) => T_UP,
            TetrisBlock::T(Direction::Right) => T_RIGHT,
            TetrisBlock::T(Direction::Down) => T_DOWN,
            TetrisBlock::T(Direction::Left) => T_LEFT,
            TetrisBlock::L(Direction::Up) => L_UP,
            TetrisBlock::L(Direction::Right) => L_RIGHT,
            TetrisBlock::L(Direction::Down) => L_DOWN,
            TetrisBlock::L(Direction::Left) => L_LEFT,
            TetrisBlock::J(Direction::Up) => J_UP,
            TetrisBlock::J(Direction::Right) => J_RIGHT,
            TetrisBlock::J(Direction::Down) => J_DOWN,
            TetrisBlock::J(Direction::Left) => J_LEFT,
        }
    }

    /// The four cells that the piece occupies, each with its symbol. A cell
    /// may lie left of or above the grid, hence the signed coordinates.
    pub fn cells(&self) -> (cells: [((i16, i16), char); 4])
        ensures
            forall|k: int|
                0 <= k < 4 ==> {
                    &&& (#[trigger] cells[k]).0.0 == self@.cell(k).0
                    &&& cells[k].0.1 == self@.cell(k).1
                    &&& cells[k].1 == self@.block.symbol(k)
                },
    {
        let x: i16 = self.pos.0 as i16;
        let y: i16 = self.pos.1 as i16;
        let shape = self.shape();
        proof {
            lemma_offsets_small(self.class);
        }
        [
            ((x + shape[0].0.0 as i16, y + shape[0].0.1 as i16), shape[0].1),
            ((x + shape[1].0.0 as i16, y + shape[1].0.1 as i16), shape[1].1),
            ((x + shape[2].0.0 as i16, y + shape[2].0.1 as i16), shape[2].1),
            ((x + shape[3].0.0 as i16, y + shape[3].0.1 as i16), shape[3].1),
        ]
    }

    /// The number of orientations of the piece's family.
    pub fn n_states(&self) -> (n: i32)
        ensures
            n == self@.block.states(),
    {
        match self.class {
            TetrisBlock::O => 1,
            TetrisBlock::I(_) => 2,
            TetrisBlock::S(_) => 2,
            TetrisBlock::Z(_) => 2,
            TetrisBlock::T(_) => 4,
            TetrisBlock::L(_) => 4,
            TetrisBlock::J(_) => 4,
        }
    }

    /// Turns the piece to its next orientation, on the same anchor.
    pub fn rotate(&mut self)
        ensures
            final(self)@ == old(self)@.rotated(),
    {
        self.class = self.class.rotate();
    }
}

/// Whether two cells share an edge.
pub open spec fn adjacent(a: (int, int), b: (int, int)) -> bool {
    ||| a.0 == b.0 && (a.1 == b.1 + 1 || b.1 == a.1 + 1)
    ||| a.1 == b.1 && (a.0 == b.0 + 1 || b.0 == a.0 + 1)
}

/// The cell onto which a quarter turn clockwise about the origin, followed
/// by a shift by `(dx, dy)`, brings the cell `c`. Rows grow downwards.
pub open spec fn quarter_turn(c: (int, int), dx: int, dy: int) -> (int, int) {
    (dx - c.1, dy + c.0)
}

impl TetrisBlock {
    /// Whether `c` is one of the four offsets.
    pub open spec fn has_offset(self, c: (int, int)) -> bool {
        self.offset(0) == c || self.offset(1) == c || self.offset(2) == c || self.offset(3) == c
    }

    /// No two of the four offsets are the same cell.
    pub open spec fn distinct_cells(self) -> bool {
        forall|j: int, k: int| 0 <= j < k < 4 ==> self.offset(j) != self.offset(k)
    }

    /// Every cell after the first shares an edge with a cell listed before
    /// it, so the four cells hang together.
    pub open spec fn connected(self) -> bool {
        &&& adjacent(self.offset(1), self.offset(0))
        &&& adjacent(self.offset(2), self.offset(0)) || adjacent(self.offset(2), self.offset(1))
        &&& adjacent(self.offset(3), self.offset(0)) || adjacent(self.offset(3), self.offset(1))
            || adjacent(self.offset(3), self.offset(2))
    }

    /// The anchor is one of the four cells, and no cell lies above it or
    /// in its row to the left of it.
    pub open spec fn anchored(self) -> bool {
        &&& self.has_offset((0, 0))
        &&& forall|k: int|
            0 <= k < 4 ==> (#[trigger] self.offset(k)).1 > 0 || (self.offset(k).1 == 0
                && self.offset(k).0 >= 0)
    }

    /// Whether a quarter turn clockwise and a shift by `(dx, dy)` bring every
    /// cell of `self` onto a cell of `other`.
    pub open spec fn turns_onto(self, other: TetrisBlock, dx: int, dy: int) -> bool {
        &&& other.has_offset(quarter_turn(self.offset(0), dx, dy))
        &&& other.has_offset(quarter_turn(self.offset(1), dx, dy))
        &&& other.has_offset(quarter_turn(self.offset(2), dx, dy))
        &&& other.has_offset(quarter_turn(self.offset(3), dx, dy))
    }
}

/// Every offset of the catalog is at most two cells to the left and three
/// to the right of or below the anchor, and never above it.
pub proof fn lemma_offsets_small(block: TetrisBlock)
    ensures
        forall|k: int|
            0 <= k < 4 ==> -2 <= (#[trigger] block.offset(k)).0 <= 3 && 0 <= block.offset(k).1
                <= 3,
{
}

/// The footprint of every family in every orientation is a tetromino: four
/// different cells that hang together edge to edge. Its anchor is its
/// topmost cell, and the leftmost of those; and none of its symbols is the
/// one that marks an empty cell.
pub proof fn lemma_footprint_valid(block: TetrisBlock)
    ensures
        block.distinct_cells(),
        block.connected(),
        block.anchored(),
        forall|k: int| 0 <= k < 4 ==> #[trigger] block.symbol(k) != EMPTY_CELL,
{
}

/// The four cells of a piece are four different cells.
pub proof fn lemma_cells_differ(p: Placement)
    ensures
        p.cell(0) != p.cell(1),
        p.cell(0) != p.cell(2),
        p.cell(0) != p.cell(3),
        p.cell(1) != p.cell(2),
        p.cell(1) != p.cell(3),
        p.cell(2) != p.cell(3),
{
    lemma_footprint_valid(p.block);
    assert(p.block.offset(0) != p.block.offset(1));
    assert(p.block.offset(0) != p.block.offset(2));
    assert(p.block.offset(0) != p.block.offset(3));
    assert(p.block.offset(1) != p.block.offset(2));
    assert(p.block.offset(1) != p.block.offset(3));
    assert(p.block.offset(2) != p.block.offset(3));
}

/// A rotation moves the four cells as a quarter turn clockwise does: the
/// next orientation is the same tetromino, turned and shifted back to its
/// anchor.
pub proof fn lemma_rotation_is_quarter_turn(block: TetrisBlock)
    ensures
        exists|dx: int, dy: int| block.turns_onto(block.rotated(), dx, dy),
{
    let (dx, dy): (int, int) = match block {
        TetrisBlock::O => (1, 0),
        TetrisBlock::I(Line::Horizontal) => (0, 0),
        TetrisBlock::I(Line::Vertical) => (3, 0),
        TetrisBlock::S(Line::Horizontal) => (1, 1),
        TetrisBlock::S(Line::Vertical) => (1, 0),
        TetrisBlock::Z(Line::Horizontal) => (0, 0),
        TetrisBlock::Z(Line::Vertical) => (2, 1),
        TetrisBlock::T(Direction::Up) => (1, 1),
        TetrisBlock::T(Direction::Right) => (2, 0),
        TetrisBlock::T(Direction::Down) => (0, 0),
        TetrisBlock::T(Direction::Left) => (1, 1),
        TetrisBlock::L(Direction::Up) => (2, 0),
        TetrisBlock::L(Direction::Right) => (1, 0),
        TetrisBlock::L(Direction::Down) => (0, 0),
        TetrisBlock::L(Direction::Left) => (1, 2),
        TetrisBlock::J(Direction::Up) => (2, 1),
        TetrisBlock::J(Direction::Right) => (1, 0),
        TetrisBlock::J(Direction::Down) => (2, 0),
        TetrisBlock::J(Direction::Left) => (0, 0),
    };
    assert(block.turns_onto(block.rotated(), dx, dy));
}

/// Rotating a piece as many times as its family has orientations brings it
/// back to the orientation it started in, and no smaller number of
/// rotations does. A rotation never changes the family.
pub proof fn lemma_rotation_cycle(block: TetrisBlock)
    ensures
        block.rotated_by(block.states() as nat) == block,
        forall|j: nat| 0 < j < block.states() ==> block.rotated_by(j) != block,
        forall|j: nat| (#[trigger] block.rotated_by(j)).family() == block.family(),
{
    reveal_with_fuel(TetrisBlock::rotated_by, 5);
    assert forall|j: nat| (#[trigger] block.rotated_by(j)).family() == block.family() by {
        lemma_rotation_keeps_family(block, j);
    }
}

/// A piece keeps its family through any number of rotations.
pub proof fn lemma_rotation_keeps_family(block: TetrisBlock, n: nat)
    ensures
        block.rotated_by(n).family() == block.family(),
        block.rotated_by(n).states() == block.states(),
    decreases n,
{
    if n > 0 {
        lemma_rotation_keeps_family(block, (n - 1) as nat);
    }
}

/// The rotation cycle that starts at the orientation in which a family
/// starts passes through every orientation of the family, each once: an
/// orientation is reached after as many rotations as its turn says, and
/// after no other number of rotations below the number of orientations.
pub proof fn lemma_cycle_reaches(block: TetrisBlock)
    ensures
        block.turn() < block.states(),
        TetrisBlock::initial(block.family()).rotated_by(block.turn()) == block,
        forall|j: nat|
            j < block.states() && #[trigger] TetrisBlock::initial(block.family()).rotated_by(j)
                == block ==> j == block.turn(),
{
    reveal_with_fuel(TetrisBlock::rotated_by, 5);
}

} // verus!
