use sigils::board::{Direction, Line, Sigil, TetrisBlock, TetrisShape, EMPTY_CELL};
use sigils::piece::{H_LINE, T_UP};

fn all_blocks() -> Vec<TetrisBlock> {
    vec![
        TetrisBlock::O,
        TetrisBlock::I(Line::Horizontal),
        TetrisBlock::I(Line::Vertical),
        TetrisBlock::S(Line::Horizontal),
        TetrisBlock::S(Line::Vertical),
        TetrisBlock::Z(Line::Horizontal),
        TetrisBlock::Z(Line::Vertical),
        TetrisBlock::T(Direction::Up),
        TetrisBlock::T(Direction::Right),
        TetrisBlock::T(Direction::Down),
        TetrisBlock::T(Direction::Left),
        TetrisBlock::L(Direction::Up),
        TetrisBlock::L(Direction::Right),
        TetrisBlock::L(Direction::Down),
        TetrisBlock::L(Direction::Left),
        TetrisBlock::J(Direction::Up),
        TetrisBlock::J(Direction::Right),
        TetrisBlock::J(Direction::Down),
        TetrisBlock::J(Direction::Left),
    ]
}

fn all_shapes() -> Vec<TetrisShape> {
    vec![
        TetrisShape::O,
        TetrisShape::I,
        TetrisShape::S,
        TetrisShape::Z,
        TetrisShape::T,
        TetrisShape::L,
        TetrisShape::J,
    ]
}

fn touch(a: (i16, i16), b: (i16, i16)) -> bool {
    (a.0 - b.0).abs() + (a.1 - b.1).abs() == 1
}

#[test]
fn line_rotation_swaps_the_axis() {
    assert_eq!(Line::Horizontal.rotate(), Line::Vertical);
    assert_eq!(Line::Vertical.rotate(), Line::Horizontal);
}

#[test]
fn direction_rotation_goes_clockwise() {
    assert_eq!(Direction::Up.rotate(), Direction::Right);
    assert_eq!(Direction::Right.rotate(), Direction::Down);
    assert_eq!(Direction::Down.rotate(), Direction::Left);
    assert_eq!(Direction::Left.rotate(), Direction::Up);
}

#[test]
fn default_orientation_of_each_family() {
    assert_eq!(TetrisBlock::default(TetrisShape::O), TetrisBlock::O);
    assert_eq!(TetrisBlock::default(TetrisShape::I), TetrisBlock::I(Line::Horizontal));
    assert_eq!(TetrisBlock::default(TetrisShape::S), TetrisBlock::S(Line::Horizontal));
    assert_eq!(TetrisBlock::default(TetrisShape::Z), TetrisBlock::Z(Line::Horizontal));
    assert_eq!(TetrisBlock::default(TetrisShape::T), TetrisBlock::T(Direction::Down));
    assert_eq!(TetrisBlock::default(TetrisShape::L), TetrisBlock::L(Direction::Right));
    assert_eq!(TetrisBlock::default(TetrisShape::J), TetrisBlock::J(Direction::Up));
}

#[test]
fn default_orientation_belongs_to_its_family() {
    for shape in all_shapes() {
        assert_eq!(TetrisBlock::default(shape).shape(), shape);
    }
}

#[test]
fn orientation_counts_are_one_two_or_four() {
    let expected = [1, 2, 2, 2, 4, 4, 4];
    for (shape, n) in all_shapes().into_iter().zip(expected) {
        let sigil = Sigil::new((0, 0), TetrisBlock::default(shape));
        assert_eq!(sigil.n_states(), n);
    }
}

#[test]
fn block_rotation_cycles() {
    assert_eq!(TetrisBlock::O.rotate(), TetrisBlock::O);
    assert_eq!(TetrisBlock::I(Line::Horizontal).rotate(), TetrisBlock::I(Line::Vertical));
    assert_eq!(TetrisBlock::S(Line::Vertical).rotate(), TetrisBlock::S(Line::Horizontal));
    assert_eq!(TetrisBlock::Z(Line::Horizontal).rotate(), TetrisBlock::Z(Line::Vertical));
    assert_eq!(TetrisBlock::T(Direction::Down).rotate(), TetrisBlock::T(Direction::Left));
    assert_eq!(TetrisBlock::L(Direction::Left).rotate(), TetrisBlock::L(Direction::Up));
    assert_eq!(TetrisBlock::J(Direction::Up).rotate(), TetrisBlock::J(Direction::Right));
}

#[test]
fn rotating_n_states_times_returns_to_the_start() {
    for block in all_blocks() {
        let mut sigil = Sigil::new((3, 4), block);
        let n = sigil.n_states();
        for turn in 1..n {
            sigil.rotate();
            assert_ne!(sigil.class(), block, "{:?} came back after {} turns", block, turn);
            assert_eq!(sigil.class().shape(), block.shape());
        }
        sigil.rotate();
        assert_eq!(sigil.class(), block);
        assert_eq!(sigil.pos(), (3, 4));
    }
}

#[test]
fn rotation_from_the_default_reaches_every_orientation() {
    for block in all_blocks() {
        let mut sigil = Sigil::new((0, 0), TetrisBlock::default(block.shape()));
        let mut seen = false;
        for _ in 0..sigil.n_states() {
            seen = seen || sigil.class() == block;
            sigil.rotate();
        }
        assert!(seen, "{:?} is not reached", block);
    }
}

#[test]
fn footprint_cells_are_distinct() {
    for block in all_blocks() {
        let cells = Sigil::new((10, 10), block).cells();
        for i in 0..4 {
            for j in (i + 1)..4 {
                assert_ne!(cells[i].0, cells[j].0, "{:?}", block);
            }
        }
    }
}

#[test]
fn footprint_cells_hang_together() {
    for block in all_blocks() {
        let cells = Sigil::new((10, 10), block).cells();
        for k in 1..4 {
            assert!((0..k).any(|j| touch(cells[k].0, cells[j].0)), "{:?} cell {}", block, k);
        }
    }
}

#[test]
fn anchor_is_the_topmost_leftmost_cell() {
    for block in all_blocks() {
        let cells = Sigil::new((10, 10), block).cells();
        assert!(cells.iter().any(|c| c.0 == (10, 10)), "{:?}", block);
        for c in cells.iter() {
            let (x, y) = c.0;
            assert!(y > 10 || (y == 10 && x >= 10), "{:?}", block);
        }
    }
}

#[test]
fn no_footprint_symbol_is_the_empty_symbol() {
    for block in all_blocks() {
        for cell in Sigil::new((0, 0), block).shape().iter() {
            assert_ne!(cell.1, EMPTY_CELL);
        }
    }
}

#[test]
fn rotation_is_a_quarter_turn() {
    for block in all_blocks() {
        let from = Sigil::new((0, 0), block).shape();
        let to = Sigil::new((0, 0), block.rotate()).shape();
        let fits = |dx: i8, dy: i8| {
            from.iter().all(|c| {
                let turned = (dx - c.0 .1, dy + c.0 .0);
                to.iter().any(|d| d.0 == turned)
            })
        };
        assert!((-4..=4).any(|dx| (-4..=4).any(|dy| fits(dx, dy))), "{:?}", block);
    }
}

#[test]
fn shape_is_the_catalog_entry() {
    assert_eq!(Sigil::new((9, 9), TetrisBlock::T(Direction::Up)).shape(), T_UP);
    assert_eq!(Sigil::new((0, 0), TetrisBlock::I(Line::Horizontal)).shape(), H_LINE);
    assert_eq!(
        Sigil::new((0, 0), TetrisBlock::L(Direction::Left)).shape(),
        [((-2, 1), '╺'), ((-1, 1), '━'), ((0, 1), '┛'), ((0, 0), '╻')]
    );
}

#[test]
fn cells_are_the_offsets_moved_to_the_anchor() {
    let sigil = Sigil::new((5, 7), TetrisBlock::T(Direction::Up));
    assert_eq!(
        sigil.cells(),
        [((4, 8), '╺'), ((5, 8), '┻'), ((5, 7), '╻'), ((6, 8), '╸')]
    );
    let square = Sigil::new((0, 0), TetrisBlock::O);
    assert_eq!(
        square.cells(),
        [((0, 0), '┏'), ((1, 0), '┓'), ((0, 1), '┗'), ((1, 1), '┛')]
    );
}

#[test]
fn cells_left_of_the_grid_are_negative() {
    let sigil = Sigil::new((0, 0), TetrisBlock::L(Direction::Left));
    assert_eq!(
        sigil.cells(),
        [((-2, 1), '╺'), ((-1, 1), '━'), ((0, 1), '┛'), ((0, 0), '╻')]
    );
}

#[test]
fn cells_at_the_far_corner_do_not_wrap() {
    let sigil = Sigil::new((255, 255), TetrisBlock::I(Line::Horizontal));
    assert_eq!(
        sigil.cells(),
        [((255, 255), '╺'), ((256, 255), '━'), ((257, 255), '━'), ((258, 255), '╸')]
    );
    let tall = Sigil::new((255, 255), TetrisBlock::I(Line::Vertical));
    assert_eq!(tall.cells()[3].0, (255, 258));
}

#[test]
fn sigil_keeps_what_it_was_made_of() {
    let sigil = Sigil::new((12, 200), TetrisBlock::J(Direction::Down));
    assert_eq!(sigil.pos(), (12, 200));
    assert_eq!(sigil.class(), TetrisBlock::J(Direction::Down));
}

#[test]
fn family_positions_follow_the_fixed_order() {
    for (i, shape) in all_shapes().into_iter().enumerate() {
        assert_eq!(shape.index(), i);
        assert_eq!(TetrisShape::from_index(i), Some(shape));
    }
    assert_eq!(TetrisShape::from_index(7), None);
    assert_eq!(TetrisShape::from_index(usize::MAX), None);
}
