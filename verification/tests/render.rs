use sigils::board::{Board, Direction, Line, Sigil, TetrisBlock, EMPTY_CELL};
use sigils::render::{enlarge, ENLARGED};
use sigils::{solve, TetrisSet};

#[test]
fn every_symbol_of_the_table_has_its_box() {
    for entry in ENLARGED.iter() {
        assert_eq!(enlarge(entry.0), Some(entry.1));
    }
    assert_eq!(ENLARGED.len(), 15);
}

#[test]
fn boxes_of_some_symbols() {
    assert_eq!(enlarge(EMPTY_CELL), Some(("     ", "  •  ", "     ")));
    assert_eq!(enlarge('┏'), Some(("┏━━━━", "┃    ", "┃   ┏")));
    assert_eq!(enlarge('┫'), Some(("┛   ┃", "    ┃", "┓   ┃")));
    assert_eq!(enlarge('╸'), Some(("━━━━┓", "    ┃", "━━━━┛")));
}

#[test]
fn other_characters_have_no_box() {
    assert_eq!(enlarge('x'), None);
    assert_eq!(enlarge(' '), None);
    assert_eq!(enlarge('┼'), None);
}

#[test]
fn every_symbol_of_every_piece_has_a_box() {
    let blocks = vec![
        TetrisBlock::O,
        TetrisBlock::I(Line::Horizontal),
        TetrisBlock::I(Line::Vertical),
        TetrisBlock::S(Line::Horizontal),
        TetrisBlock::S(Line::Vertical),
        TetrisBlock::Z(Line::Horizontal),
        TetrisBlock::Z(Line::Vertical),
        TetrisBlock::T(Direction::Up),
        TetrisBlock::T(Direction::Right),
        TetrisBlock::T(Direction::Down),
        TetrisBlock::T(Direction::Left),
        TetrisBlock::L(Direction::Up),
        TetrisBlock::L(Direction::Right),
        TetrisBlock::L(Direction::Down),
        TetrisBlock::L(Direction::Left),
        TetrisBlock::J(Direction::Up),
        TetrisBlock::J(Direction::Right),
        TetrisBlock::J(Direction::Down),
        TetrisBlock::J(Direction::Left),
    ];
    for block in blocks {
        for cell in Sigil::new((0, 0), block).shape().iter() {
            assert!(enlarge(cell.1).is_some(), "{:?}", block);
        }
    }
}

#[test]
fn an_empty_board_is_drawn_as_dots() {
    let board = Board::new(2, 1);
    assert_eq!(board.render(), Some(String::from("          \n  •    •  \n          \n")));
}

#[test]
fn a_board_without_cells_is_drawn_as_nothing() {
    assert_eq!(Board::new(0, 0).render(), Some(String::new()));
    assert_eq!(Board::new(3, 0).render(), Some(String::new()));
    assert_eq!(Board::new(0, 2).render(), Some(String::from("\n\n\n\n\n\n")));
}

#[test]
fn four_squares_are_drawn() {
    let mut board = Board::new(4, 4);
    let mut blocks = TetrisSet::from_count_array([4, 0, 0, 0, 0, 0, 0]);
    assert!(solve(&mut board, &mut blocks));
    let expected = concat_lines(&[
        "┏━━━━━━━━┓┏━━━━━━━━┓",
        "┃        ┃┃        ┃",
        "┃   ┏┓   ┃┃   ┏┓   ┃",
        "┃   ┗┛   ┃┃   ┗┛   ┃",
        "┃        ┃┃        ┃",
        "┗━━━━━━━━┛┗━━━━━━━━┛",
        "┏━━━━━━━━┓┏━━━━━━━━┓",
        "┃        ┃┃        ┃",
        "┃   ┏┓   ┃┃   ┏┓   ┃",
        "┃   ┗┛   ┃┃   ┗┛   ┃",
        "┃        ┃┃        ┃",
        "┗━━━━━━━━┛┗━━━━━━━━┛",
    ]);
    assert_eq!(board.render(), Some(expected));
}

#[test]
fn two_t_and_one_l_are_drawn() {
    let mut board = Board::new(3, 4);
    let mut blocks = TetrisSet::from_count_array([0, 0, 0, 0, 2, 1, 0]);
    assert!(solve(&mut board, &mut blocks));
    let expected = concat_lines(&[
        "┏━━━━━━━━━━━━━┓",
        "┃             ┃",
        "┗━━━━┓   ┏━━━━┛",
        "┏━━━┓┃   ┃┏━━━┓",
        "┃   ┃┃   ┃┃   ┃",
        "┃   ┃┗━━━┛┃   ┃",
        "┃   ┃┏━━━━┛   ┃",
        "┃   ┃┃        ┃",
        "┃   ┃┗━━━━┓   ┃",
        "┃   ┗━━━━┓┃   ┃",
        "┃        ┃┃   ┃",
        "┗━━━━━━━━┛┗━━━┛",
    ]);
    assert_eq!(board.render(), Some(expected));
}

#[test]
fn a_cell_with_an_unknown_symbol_cannot_be_drawn() {
    let mut board = Board::new(3, 2);
    board.update((2, 1), 'x');
    assert_eq!(board.render(), None);
    board.update((2, 1), '━');
    assert!(board.render().is_some());
}

fn concat_lines(lines: &[&str]) -> String {
    let mut text = String::new();
    for line in lines {
        text.push_str(line);
        text.push('\n');
    }
    text
}
