use sigils::board::{Board, Direction, Line, Sigil, TetrisBlock, EMPTY_CELL};

fn occupied(board: &Board) -> Vec<(u8, u8)> {
    let mut cells = Vec::new();
    for y in 0..board.height() {
        for x in 0..board.width() {
            if board.get((x, y)) != Some(&EMPTY_CELL) {
                cells.push((x, y));
            }
        }
    }
    cells
}

fn footprint(pos: (u8, u8), class: TetrisBlock) -> Vec<(u8, u8)> {
    Sigil::new(pos, class)
        .cells()
        .iter()
        .map(|c| (c.0 .0 as u8, c.0 .1 as u8))
        .collect()
}

fn sorted(mut cells: Vec<(u8, u8)>) -> Vec<(u8, u8)> {
    cells.sort();
    cells
}

#[test]
fn new_board_is_empty() {
    let board = Board::new(5, 3);
    assert_eq!(board.width(), 5);
    assert_eq!(board.height(), 3);
    assert_eq!(board.sigil_count(), 0);
    for y in 0..3 {
        for x in 0..5 {
            assert_eq!(board.get((x, y)), Some(&EMPTY_CELL));
            assert!(board.is_cell_avaiable((x as i16, y as i16)));
        }
    }
    assert_eq!(board.get((0, 3)), None);
}

#[test]
fn board_without_cells() {
    let mut board = Board::new(0, 7);
    assert_eq!(board.capacity(), 0);
    assert_eq!(board.get((0, 0)), None);
    assert!(!board.is_cell_avaiable((0, 0)));
    assert!(board.add_sigil(Sigil::new((0, 0), TetrisBlock::O)).is_err());
    assert!(board.pop_sigil().is_none());
}

#[test]
fn capacity_is_a_quarter_of_the_area_rounded_down() {
    assert_eq!(Board::new(4, 4).capacity(), 4);
    assert_eq!(Board::new(5, 3).capacity(), 3);
    assert_eq!(Board::new(1, 3).capacity(), 0);
    assert_eq!(Board::new(255, 255).capacity(), 16256);
}

#[test]
fn capacity_goes_down_with_every_piece() {
    let mut board = Board::new(6, 3);
    assert_eq!(board.capacity(), 4);
    assert!(board.add_sigil(Sigil::new((0, 0), TetrisBlock::O)).is_ok());
    assert_eq!(board.capacity(), 3);
    assert!(board.add_sigil(Sigil::new((2, 0), TetrisBlock::I(Line::Horizontal))).is_ok());
    assert_eq!(board.capacity(), 2);
    assert!(board.pop_sigil().is_some());
    assert_eq!(board.capacity(), 3);
}

#[test]
fn index_is_row_major() {
    let board = Board::new(5, 4);
    assert_eq!(board.calc_index((0, 0)), 0);
    assert_eq!(board.calc_index((4, 0)), 4);
    assert_eq!(board.calc_index((0, 1)), 5);
    assert_eq!(board.calc_index((2, 3)), 17);
    assert_eq!(Board::new(255, 255).calc_index((255, 255)), 65280);
}

#[test]
fn get_reads_by_index() {
    let mut board = Board::new(3, 2);
    board.update((0, 1), 'x');
    assert_eq!(board.get((0, 1)), Some(&'x'));
    assert_eq!(board.get((3, 0)), Some(&'x'));
    assert_eq!(board.get((2, 1)), Some(&EMPTY_CELL));
    assert_eq!(board.get((3, 1)), None);
    assert_eq!(board.get((0, 2)), None);
}

#[test]
fn update_writes_one_cell() {
    let mut board = Board::new(4, 3);
    board.update((2, 1), '┃');
    for y in 0..3 {
        for x in 0..4 {
            let expected = if (x, y) == (2, 1) { '┃' } else { EMPTY_CELL };
            assert_eq!(board.get((x, y)), Some(&expected));
        }
    }
    assert!(!board.is_cell_avaiable((2, 1)));
    board.update((2, 1), EMPTY_CELL);
    assert!(board.is_cell_avaiable((2, 1)));
    assert_eq!(board.sigil_count(), 0);
}

#[test]
fn cells_outside_the_grid_are_not_available() {
    let board = Board::new(4, 3);
    assert!(!board.is_cell_avaiable((-1, 0)));
    assert!(!board.is_cell_avaiable((0, -1)));
    assert!(!board.is_cell_avaiable((4, 0)));
    assert!(!board.is_cell_avaiable((0, 3)));
    assert!(!board.is_cell_avaiable((i16::MIN, i16::MIN)));
    assert!(!board.is_cell_avaiable((i16::MAX, i16::MAX)));
    assert!(board.is_cell_avaiable((3, 2)));
}

#[test]
fn occupied_cells_are_not_available() {
    let mut board = Board::new(4, 4);
    assert!(board.add_sigil(Sigil::new((1, 1), TetrisBlock::O)).is_ok());
    assert!(!board.is_cell_avaiable((1, 1)));
    assert!(!board.is_cell_avaiable((2, 1)));
    assert!(!board.is_cell_avaiable((1, 2)));
    assert!(!board.is_cell_avaiable((2, 2)));
    assert!(board.is_cell_avaiable((0, 0)));
    assert!(board.is_cell_avaiable((3, 3)));
}

#[test]
fn a_piece_fits_only_on_free_cells_of_the_grid() {
    let mut board = Board::new(4, 4);
    assert!(board.can_sigil_be_placed(&Sigil::new((0, 0), TetrisBlock::I(Line::Horizontal))));
    assert!(!board.can_sigil_be_placed(&Sigil::new((1, 0), TetrisBlock::I(Line::Horizontal))));
    assert!(board.can_sigil_be_placed(&Sigil::new((3, 0), TetrisBlock::I(Line::Vertical))));
    assert!(!board.can_sigil_be_placed(&Sigil::new((3, 1), TetrisBlock::I(Line::Vertical))));
    assert!(!board.can_sigil_be_placed(&Sigil::new((0, 0), TetrisBlock::S(Line::Horizontal))));
    assert!(board.can_sigil_be_placed(&Sigil::new((1, 0), TetrisBlock::S(Line::Horizontal))));
    assert!(!board.can_sigil_be_placed(&Sigil::new((1, 0), TetrisBlock::L(Direction::Left))));
    assert!(board.can_sigil_be_placed(&Sigil::new((2, 0), TetrisBlock::L(Direction::Left))));
    assert!(board.add_sigil(Sigil::new((0, 0), TetrisBlock::O)).is_ok());
    assert!(!board.can_sigil_be_placed(&Sigil::new((1, 1), TetrisBlock::O)));
    assert!(board.can_sigil_be_placed(&Sigil::new((2, 0), TetrisBlock::O)));
    assert_eq!(board.sigil_count(), 1);
}

#[test]
fn placing_marks_the_four_cells() {
    let mut board = Board::new(4, 3);
    assert!(board.add_sigil(Sigil::new((1, 0), TetrisBlock::T(Direction::Up))).is_ok());
    assert_eq!(board.sigil_count(), 1);
    assert_eq!(board.get((1, 0)), Some(&'╻'));
    assert_eq!(board.get((0, 1)), Some(&'╺'));
    assert_eq!(board.get((1, 1)), Some(&'┻'));
    assert_eq!(board.get((2, 1)), Some(&'╸'));
    assert_eq!(occupied(&board), vec![(1, 0), (0, 1), (1, 1), (2, 1)]);
}

#[test]
fn a_piece_that_does_not_fit_comes_back() {
    let mut board = Board::new(4, 4);
    assert!(board.add_sigil(Sigil::new((0, 0), TetrisBlock::O)).is_ok());
    match board.add_sigil(Sigil::new((1, 1), TetrisBlock::Z(Line::Horizontal))) {
        Ok(()) => panic!("placed on an occupied cell"),
        Err(back) => {
            assert_eq!(back.pos(), (1, 1));
            assert_eq!(back.class(), TetrisBlock::Z(Line::Horizontal));
        }
    }
    match board.add_sigil(Sigil::new((3, 3), TetrisBlock::J(Direction::Left))) {
        Ok(()) => panic!("placed outside the grid"),
        Err(back) => {
            assert_eq!(back.pos(), (3, 3));
            assert_eq!(back.class(), TetrisBlock::J(Direction::Left));
        }
    }
    assert_eq!(board.sigil_count(), 1);
    assert_eq!(occupied(&board), vec![(0, 0), (1, 0), (0, 1), (1, 1)]);
}

#[test]
fn a_returned_piece_can_be_rotated_and_tried_again() {
    let mut board = Board::new(2, 4);
    let sigil = Sigil::new((0, 0), TetrisBlock::I(Line::Horizontal));
    let mut back = board.add_sigil(sigil).unwrap_err();
    back.rotate();
    assert!(board.add_sigil(back).is_ok());
    assert_eq!(occupied(&board), vec![(0, 0), (0, 1), (0, 2), (0, 3)]);
}

#[test]
fn pop_on_an_empty_board_does_nothing() {
    let mut board = Board::new(3, 3);
    board.update((1, 1), '━');
    assert!(board.pop_sigil().is_none());
    assert_eq!(board.sigil_count(), 0);
    assert_eq!(board.get((1, 1)), Some(&'━'));
    assert_eq!(occupied(&board), vec![(1, 1)]);
}

#[test]
fn pop_returns_the_latest_piece_and_clears_it() {
    let mut board = Board::new(6, 4);
    assert!(board.add_sigil(Sigil::new((0, 0), TetrisBlock::O)).is_ok());
    assert!(board.add_sigil(Sigil::new((2, 0), TetrisBlock::L(Direction::Down))).is_ok());
    assert!(board.add_sigil(Sigil::new((4, 0), TetrisBlock::J(Direction::Down))).is_ok());
    let top = board.pop_sigil().unwrap();
    assert_eq!(top.pos(), (4, 0));
    assert_eq!(top.class(), TetrisBlock::J(Direction::Down));
    assert_eq!(board.sigil_count(), 2);
    assert!(board.is_cell_avaiable((4, 0)));
    assert!(board.is_cell_avaiable((5, 0)));
    assert!(board.is_cell_avaiable((4, 1)));
    assert!(board.is_cell_avaiable((4, 2)));
    let next = board.pop_sigil().unwrap();
    assert_eq!(next.pos(), (2, 0));
    assert_eq!(next.class(), TetrisBlock::L(Direction::Down));
    let last = board.pop_sigil().unwrap();
    assert_eq!(last.pos(), (0, 0));
    assert_eq!(last.class(), TetrisBlock::O);
    assert!(board.pop_sigil().is_none());
    assert!(occupied(&board).is_empty());
}

#[test]
fn place_then_pop_restores_the_board() {
    let mut board = Board::new(5, 5);
    assert!(board.add_sigil(Sigil::new((0, 0), TetrisBlock::Z(Line::Horizontal))).is_ok());
    let before = occupied(&board);
    assert!(board.add_sigil(Sigil::new((3, 0), TetrisBlock::T(Direction::Right))).is_ok());
    assert!(board.pop_sigil().is_some());
    assert_eq!(occupied(&board), before);
    assert_eq!(board.get((0, 0)), Some(&'╺'));
    assert_eq!(board.get((1, 0)), Some(&'┓'));
    assert_eq!(board.get((1, 1)), Some(&'┗'));
    assert_eq!(board.get((2, 1)), Some(&'╸'));
}

#[test]
fn occupied_cells_are_the_footprints_of_the_placed_pieces() {
    let moves: Vec<Option<((u8, u8), TetrisBlock)>> = vec![
        Some(((0, 0), TetrisBlock::O)),
        Some(((2, 0), TetrisBlock::I(Line::Horizontal))),
        Some(((1, 1), TetrisBlock::O)),
        Some(((3, 1), TetrisBlock::S(Line::Horizontal))),
        None,
        Some(((2, 1), TetrisBlock::T(Direction::Down))),
        Some(((5, 1), TetrisBlock::I(Line::Vertical))),
        Some(((0, 2), TetrisBlock::L(Direction::Up))),
        None,
        None,
        Some(((0, 2), TetrisBlock::J(Direction::Down))),
        None,
        None,
        None,
        None,
        None,
    ];
    let mut board = Board::new(6, 5);
    let mut stack: Vec<((u8, u8), TetrisBlock)> = Vec::new();
    for step in moves {
        match step {
            Some((pos, class)) => {
                let free = footprint(pos, class).iter().all(|c| {
                    c.0 < 6 && c.1 < 5 && !stack.iter().any(|p| footprint(p.0, p.1).contains(c))
                });
                let placed = board.add_sigil(Sigil::new(pos, class)).is_ok();
                assert_eq!(placed, free);
                if placed {
                    stack.push((pos, class));
                }
            }
            None => {
                let top = board.pop_sigil();
                match stack.pop() {
                    Some((pos, class)) => {
                        let top = top.unwrap();
                        assert_eq!(top.pos(), pos);
                        assert_eq!(top.class(), class);
                    }
                    None => assert!(top.is_none()),
                }
            }
        }
        let mut expected: Vec<(u8, u8)> = Vec::new();
        for p in stack.iter() {
            for c in footprint(p.0, p.1) {
                assert!(!expected.contains(&c), "two pieces share {:?}", c);
                expected.push(c);
            }
        }
        assert_eq!(sorted(occupied(&board)), sorted(expected));
        assert_eq!(board.sigil_count(), stack.len());
    }
}

#[test]
fn pieces_fit_beyond_the_first_127_columns() {
    let mut board = Board::new(200, 140);
    assert!(board.is_cell_avaiable((199, 139)));
    assert!(board.add_sigil(Sigil::new((196, 130), TetrisBlock::I(Line::Horizontal))).is_ok());
    assert!(board.add_sigil(Sigil::new((150, 136), TetrisBlock::I(Line::Vertical))).is_ok());
    assert!(board.add_sigil(Sigil::new((197, 130), TetrisBlock::I(Line::Horizontal))).is_err());
    assert!(board.add_sigil(Sigil::new((150, 137), TetrisBlock::I(Line::Vertical))).is_err());
    assert_eq!(board.get((199, 130)), Some(&'╸'));
    assert_eq!(board.get((150, 139)), Some(&'╹'));
    assert_eq!(board.capacity(), 6998);
    assert_eq!(
        occupied(&board),
        vec![(196, 130), (197, 130), (198, 130), (199, 130), (150, 136), (150, 137), (150, 138), (150, 139)]
    );
}

#[test]
fn a_piece_at_the_far_corner_of_the_largest_board_does_not_fit() {
    let mut board = Board::new(255, 255);
    assert!(board.add_sigil(Sigil::new((254, 254), TetrisBlock::O)).is_err());
    assert!(board.add_sigil(Sigil::new((253, 253), TetrisBlock::O)).is_ok());
    assert!(!board.is_cell_avaiable((254, 254)));
    assert!(!board.is_cell_avaiable((255, 255)));
}

#[test]
fn occupancy_holds_through_a_long_run_of_places_and_pops() {
    let blocks = [
        TetrisBlock::O,
        TetrisBlock::I(Line::Horizontal),
        TetrisBlock::I(Line::Vertical),
        TetrisBlock::S(Line::Horizontal),
        TetrisBlock::S(Line::Vertical),
        TetrisBlock::Z(Line::Horizontal),
        TetrisBlock::Z(Line::Vertical),
        TetrisBlock::T(Direction::Up),
        TetrisBlock::T(Direction::Right),
        TetrisBlock::T(Direction::Down),
        TetrisBlock::T(Direction::Left),
        TetrisBlock::L(Direction::Up),
        TetrisBlock::L(Direction::Right),
        TetrisBlock::L(Direction::Down),
        TetrisBlock::L(Direction::Left),
        TetrisBlock::J(Direction::Up),
        TetrisBlock::J(Direction::Right),
        TetrisBlock::J(Direction::Down),
        TetrisBlock::J(Direction::Left),
    ];
    let (width, height) = (10u8, 8u8);
    let mut board = Board::new(width, height);
    let mut stack: Vec<((u8, u8), TetrisBlock)> = Vec::new();
    let mut seed: u32 = 20240229;
    let mut placed = 0;
    let mut refused = 0;
    for _ in 0..3000 {
        seed = seed.wrapping_mul(1664525).wrapping_add(1013904223);
        let roll = (seed >> 8) as usize;
        if roll % 4 == 0 {
            let top = board.pop_sigil();
            match stack.pop() {
                Some((pos, class)) => {
                    let top = top.unwrap();
                    assert_eq!(top.pos(), pos);
                    assert_eq!(top.class(), class);
                }
                None => assert!(top.is_none()),
            }
        } else {
            let pos = ((roll / 4 % 10) as u8, (roll / 40 % 8) as u8);
            let class = blocks[roll / 320 % 19];
            let free = Sigil::new(pos, class).cells().iter().all(|c| {
                let (x, y) = c.0;
                x >= 0
                    && y >= 0
                    && x < width as i16
                    && y < height as i16
                    && !stack.iter().any(|p| footprint(p.0, p.1).contains(&(x as u8, y as u8)))
            });
            match board.add_sigil(Sigil::new(pos, class)) {
                Ok(()) => {
                    assert!(free);
                    stack.push((pos, class));
                    placed += 1;
                }
                Err(back) => {
                    assert!(!free);
                    assert_eq!(back.pos(), pos);
                    assert_eq!(back.class(), class);
                    refused += 1;
                }
            }
        }
        let mut expected = vec![EMPTY_CELL; width as usize * height as usize];
        for p in stack.iter() {
            for cell in Sigil::new(p.0, p.1).cells() {
                let index = cell.0 .0 as usize + width as usize * cell.0 .1 as usize;
                assert_eq!(expected[index], EMPTY_CELL, "two pieces share a cell");
                expected[index] = cell.1;
            }
        }
        for y in 0..height {
            for x in 0..width {
                assert_eq!(board.get((x, y)), Some(&expected[board.calc_index((x, y))]));
            }
        }
        assert_eq!(board.sigil_count(), stack.len());
        assert_eq!(board.capacity(), 20 - stack.len());
    }
    assert!(placed > 100);
    assert!(refused > 100);
}
