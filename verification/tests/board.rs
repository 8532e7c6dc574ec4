use locking_game::{c, Board, Cell, Coordinate, Move, Token, WinState};

fn play(board: &Board, moves: &[Move]) -> Board {
    let mut current = board.clone();
    for m in moves {
        current = current.advance(*m).expect("the move applies");
    }
    current
}

/// Eight placements on a 3×3 grid: player 0 on the upper, left, middle and
/// right cells of the cross, player 1 on the corners; the lower cell of the
/// cross stays empty.
fn cross_without_foot() -> Board {
    play(
        &Board::new((3, 3)),
        &[
            Move::Place(c(1, 0)),
            Move::Place(c(0, 0)),
            Move::Place(c(0, 1)),
            Move::Place(c(2, 0)),
            Move::Place(c(1, 1)),
            Move::Place(c(0, 2)),
            Move::Place(c(2, 1)),
            Move::Place(c(2, 2)),
        ],
    )
}

fn token(player: u32, locked: bool) -> Cell {
    Some(Token { player, locked })
}

fn cells_of(board: &Board) -> Vec<Cell> {
    let (width, height) = board.size();
    let mut cells = Vec::new();
    for y in 0..height {
        for x in 0..width {
            cells.push(board.get_cell(c(x, y)));
        }
    }
    cells
}

#[test]
fn coordinate_is_column_then_row() {
    assert_eq!(c(2, 5), Coordinate { x: 2, y: 5 });
    assert_ne!(c(2, 5), c(5, 2));
}

#[test]
fn new_board_is_empty_with_player_zero_to_move() {
    let board = Board::new((3, 2));
    assert_eq!(board.size(), (3, 2));
    assert_eq!(board.current_turn(), 0);
    assert_eq!(cells_of(&board), vec![None; 6]);
}

#[test]
fn board_without_columns_or_rows_has_no_moves() {
    for size in [(0, 0), (0, 4), (4, 0)] {
        let board = Board::new(size);
        assert_eq!(board.size(), size);
        assert!(board.get_legal_moves().is_empty());
        assert!(board.cells_and_neighbors().is_empty());
        assert_eq!(board.count_victory_points(), vec![0, 0]);
        assert_eq!(board.check_win_condition(), WinState::Draw);
    }
}

#[test]
fn place_on_empty_cell_succeeds() {
    let board = Board::new((3, 3));
    let next = board.advance(Move::Place(c(0, 0))).unwrap();
    assert_eq!(next.get_cell(c(0, 0)), token(0, false));
    assert_eq!(next.get_cell(c(0, 0)).unwrap().glyph(), 'x');
    assert_eq!(next.current_turn(), 1);
    let mut expected = vec![None; 9];
    expected[0] = token(0, false);
    assert_eq!(cells_of(&next), expected);
}

#[test]
fn place_on_occupied_cell_fails() {
    let board = Board::new((3, 3)).advance(Move::Place(c(0, 0))).unwrap();
    assert_eq!(board.advance(Move::Place(c(0, 0))).err(), Some(()));
    assert_eq!(board.get_cell(c(0, 0)), token(0, false));
    assert_eq!(board.current_turn(), 1);
}

#[test]
fn second_placement_belongs_to_player_one() {
    let board = play(&Board::new((3, 3)), &[Move::Place(c(1, 1)), Move::Place(c(2, 0))]);
    assert_eq!(board.get_cell(c(1, 1)), token(0, false));
    assert_eq!(board.get_cell(c(2, 0)), token(1, false));
    assert_eq!(board.current_turn(), 0);
}

#[test]
fn cells_are_stored_row_by_row() {
    let board = Board::new((3, 2)).advance(Move::Place(c(1, 1))).unwrap();
    let mut expected = vec![None; 6];
    expected[3 * 1 + 1] = token(0, false);
    assert_eq!(cells_of(&board), expected);
}

#[test]
fn coordinate_past_the_row_end_leads_to_the_next_row() {
    let board = Board::new((3, 3)).advance(Move::Place(c(4, 0))).unwrap();
    assert_eq!(board.get_cell(c(1, 1)), token(0, false));
    assert_eq!(board.get_cell(c(4, 0)), token(0, false));
}

#[test]
fn swap_with_an_empty_cell_fails() {
    let board = Board::new((3, 3)).advance(Move::Place(c(0, 0))).unwrap();
    assert!(board.advance(Move::Swap(c(0, 0), c(1, 0))).is_err());
    assert!(board.advance(Move::Swap(c(1, 0), c(0, 0))).is_err());
    assert!(board.advance(Move::Swap(c(1, 0), c(2, 0))).is_err());
}

#[test]
fn swap_exchanges_and_locks_both_tokens() {
    let board = play(&Board::new((3, 3)), &[Move::Place(c(0, 0)), Move::Place(c(2, 1))]);
    let next = board.advance(Move::Swap(c(0, 0), c(2, 1))).unwrap();
    assert_eq!(next.get_cell(c(0, 0)), token(1, true));
    assert_eq!(next.get_cell(c(2, 1)), token(0, true));
    assert_eq!(next.current_turn(), 1);
    let mut expected = vec![None; 9];
    expected[0] = token(1, true);
    expected[5] = token(0, true);
    assert_eq!(cells_of(&next), expected);
}

#[test]
fn swap_of_a_cell_with_itself_locks_it() {
    let board = Board::new((2, 2)).advance(Move::Place(c(1, 0))).unwrap();
    let next = board.advance(Move::Swap(c(1, 0), c(1, 0))).unwrap();
    assert_eq!(next.get_cell(c(1, 0)), token(0, true));
    assert_eq!(next.current_turn(), 0);
}

#[test]
fn swap_accepts_locked_tokens() {
    let board = play(
        &Board::new((2, 2)),
        &[Move::Place(c(0, 0)), Move::Place(c(1, 0)), Move::Swap(c(0, 0), c(1, 0))],
    );
    assert_eq!(board.get_cell(c(0, 0)), token(1, true));
    let next = board.advance(Move::Swap(c(0, 0), c(1, 0))).unwrap();
    assert_eq!(next.get_cell(c(0, 0)), token(0, true));
    assert_eq!(next.get_cell(c(1, 0)), token(1, true));
}

#[test]
fn empty_five_by_five_board_has_25_placements() {
    let moves = Board::new((5, 5)).get_legal_moves();
    assert_eq!(moves.len(), 25);
    let mut expected = Vec::new();
    for y in 0..5 {
        for x in 0..5 {
            expected.push(Move::Place(c(x, y)));
        }
    }
    assert_eq!(moves, expected);
}

#[test]
fn legal_moves_follow_the_rows() {
    let moves = Board::new((3, 2)).get_legal_moves();
    assert_eq!(
        moves,
        vec![
            Move::Place(c(0, 0)),
            Move::Place(c(1, 0)),
            Move::Place(c(2, 0)),
            Move::Place(c(0, 1)),
            Move::Place(c(1, 1)),
            Move::Place(c(2, 1)),
        ]
    );
}

#[test]
fn swaps_are_listed_from_either_end() {
    let board = play(
        &Board::new((2, 2)),
        &[Move::Place(c(1, 0)), Move::Place(c(0, 1)), Move::Place(c(1, 1))],
    );
    assert_eq!(
        board.get_legal_moves(),
        vec![
            Move::Place(c(0, 0)),
            Move::Swap(c(1, 0), c(0, 1)),
            Move::Swap(c(1, 0), c(1, 1)),
            Move::Swap(c(0, 1), c(1, 0)),
            Move::Swap(c(0, 1), c(1, 1)),
            Move::Swap(c(1, 1), c(1, 0)),
            Move::Swap(c(1, 1), c(0, 1)),
        ]
    );
}

#[test]
fn locked_tokens_offer_no_moves() {
    let board = play(
        &Board::new((2, 2)),
        &[
            Move::Place(c(0, 0)),
            Move::Place(c(1, 0)),
            Move::Place(c(0, 1)),
            Move::Swap(c(0, 0), c(1, 0)),
        ],
    );
    assert_eq!(board.get_legal_moves(), vec![Move::Place(c(1, 1))]);
    let full = board.advance(Move::Place(c(1, 1))).unwrap();
    assert_eq!(
        full.get_legal_moves(),
        vec![Move::Swap(c(0, 1), c(1, 1)), Move::Swap(c(1, 1), c(0, 1))]
    );
}

#[test]
fn a_single_unlocked_token_cannot_be_swapped() {
    let board = Board::new((1, 1)).advance(Move::Place(c(0, 0))).unwrap();
    assert!(board.get_legal_moves().is_empty());
}

#[test]
fn advance_leaves_the_board_as_it_was() {
    let board = cross_without_foot();
    let moves_before = board.get_legal_moves();
    let text_before = board.render();
    let cells_before = cells_of(&board);
    let _ = board.advance(Move::Place(c(1, 2))).unwrap();
    let _ = board.advance(Move::Swap(c(0, 0), c(1, 1))).unwrap();
    let _ = board.advance(Move::Place(c(0, 0))).unwrap_err();
    assert_eq!(board.get_legal_moves(), moves_before);
    assert_eq!(board.render(), text_before);
    assert_eq!(cells_of(&board), cells_before);
    assert_eq!(board.current_turn(), 0);
}

#[test]
fn every_legal_move_applies() {
    let mut boards = vec![Board::new((3, 3)), Board::new((2, 3)), cross_without_foot()];
    boards.push(cross_without_foot().advance(Move::Place(c(1, 2))).unwrap());
    boards.push(cross_without_foot().advance(Move::Swap(c(0, 0), c(1, 1))).unwrap());
    for board in &boards {
        for m in board.get_legal_moves() {
            assert!(board.advance(m).is_ok());
        }
    }
}

#[test]
fn occupied_cells_stay_occupied() {
    let board = cross_without_foot();
    for m in board.get_legal_moves() {
        let next = board.advance(m).unwrap();
        for y in 0..3 {
            for x in 0..3 {
                if board.get_cell(c(x, y)).is_some() {
                    assert!(next.get_cell(c(x, y)).is_some());
                }
            }
        }
    }
}

#[test]
fn locked_tokens_stay_as_they_are() {
    let board = play(
        &cross_without_foot(),
        &[Move::Place(c(1, 2)), Move::Swap(c(0, 0), c(1, 0))],
    );
    assert_eq!(board.get_cell(c(0, 0)), token(0, true));
    assert_eq!(board.get_cell(c(1, 0)), token(1, true));
    assert_eq!(board.get_cell(c(1, 1)), token(0, true));
    for m in board.get_legal_moves() {
        let next = board.advance(m).unwrap();
        assert_eq!(next.get_cell(c(0, 0)), token(0, true));
        assert_eq!(next.get_cell(c(1, 0)), token(1, true));
        assert_eq!(next.get_cell(c(1, 1)), token(0, true));
    }
}

#[test]
fn turns_alternate() {
    let mut board = Board::new((2, 2));
    let moves = [
        Move::Place(c(0, 0)),
        Move::Place(c(1, 1)),
        Move::Swap(c(0, 0), c(1, 1)),
        Move::Place(c(1, 0)),
        Move::Place(c(0, 1)),
    ];
    let mut expected = 0;
    for m in moves {
        assert_eq!(board.current_turn(), expected);
        board = board.advance(m).unwrap();
        expected = (expected + 1) % 2;
    }
    assert_eq!(board.current_turn(), 1);
}

#[test]
fn game_is_not_over_while_a_move_is_left() {
    let mut board = Board::new((2, 2));
    loop {
        let moves = board.get_legal_moves();
        let state = board.check_win_condition();
        assert_eq!(state == WinState::NotOver, !moves.is_empty());
        match moves.last() {
            Some(m) => board = board.advance(*m).unwrap(),
            None => break,
        }
    }
    assert_eq!(board.check_win_condition(), WinState::Draw);
}

#[test]
fn surrounded_token_is_locked_by_the_sweep() {
    let board = cross_without_foot();
    assert_eq!(board.get_cell(c(1, 1)), token(0, false));
    let next = board.advance(Move::Place(c(1, 2))).unwrap();
    assert_eq!(
        cells_of(&next),
        vec![
            token(1, false),
            token(0, false),
            token(1, false),
            token(0, false),
            token(0, true),
            token(0, false),
            token(1, false),
            token(0, false),
            token(1, false),
        ]
    );
}

#[test]
fn token_with_a_foreign_neighbor_is_not_locked() {
    let board = play(
        &Board::new((3, 3)),
        &[
            Move::Place(c(1, 0)),
            Move::Place(c(1, 2)),
            Move::Place(c(0, 1)),
            Move::Place(c(0, 0)),
            Move::Place(c(1, 1)),
            Move::Place(c(2, 0)),
            Move::Place(c(2, 1)),
        ],
    );
    assert_eq!(board.get_cell(c(1, 1)), token(0, false));
    assert_eq!(board.count_victory_points(), vec![0, 0]);
}

#[test]
fn victory_points_count_locked_and_unlocked_tokens() {
    let before = cross_without_foot();
    assert_eq!(before.count_victory_points(), vec![0, 0]);
    let after = before.advance(Move::Place(c(1, 2))).unwrap();
    assert_eq!(after.count_victory_points(), vec![1, 0]);
    // Player 1 takes the middle by a swap: the cross around it still
    // belongs to player 0, so nobody scores.
    let taken = before.advance(Move::Swap(c(1, 1), c(0, 0))).unwrap();
    let full = taken.advance(Move::Place(c(1, 2))).unwrap();
    assert_eq!(full.get_cell(c(1, 1)), token(1, true));
    assert_eq!(full.count_victory_points(), vec![0, 0]);
}

#[test]
fn winner_has_more_victory_points() {
    let end = play(
        &cross_without_foot(),
        &[
            Move::Place(c(1, 2)),
            Move::Swap(c(0, 0), c(2, 0)),
            Move::Swap(c(0, 2), c(2, 2)),
            Move::Swap(c(1, 0), c(0, 1)),
            Move::Swap(c(2, 1), c(1, 2)),
        ],
    );
    assert!(end.get_legal_moves().is_empty());
    assert_eq!(end.count_victory_points(), vec![1, 0]);
    assert_eq!(end.check_win_condition(), WinState::Winner(0));
}

#[test]
fn player_one_wins_with_the_cross() {
    let end = play(
        &Board::new((3, 3)),
        &[
            Move::Place(c(0, 0)),
            Move::Place(c(1, 0)),
            Move::Place(c(2, 0)),
            Move::Place(c(0, 1)),
            Move::Place(c(0, 2)),
            Move::Place(c(1, 1)),
            Move::Place(c(2, 2)),
            Move::Place(c(2, 1)),
            Move::Swap(c(0, 0), c(2, 0)),
            Move::Place(c(1, 2)),
            Move::Swap(c(0, 2), c(2, 2)),
            Move::Swap(c(1, 0), c(0, 1)),
            Move::Swap(c(2, 1), c(1, 2)),
        ],
    );
    assert!(end.get_legal_moves().is_empty());
    assert_eq!(end.get_cell(c(1, 1)), token(1, true));
    assert_eq!(end.count_victory_points(), vec![0, 1]);
    assert_eq!(end.check_win_condition(), WinState::Winner(1));
}

#[test]
fn equal_points_are_a_draw() {
    let end = Board::new((1, 1)).advance(Move::Place(c(0, 0))).unwrap();
    assert_eq!(end.count_victory_points(), vec![0, 0]);
    assert_eq!(end.check_win_condition(), WinState::Draw);
}

#[test]
fn neighbors_are_left_right_above_below() {
    let board = cross_without_foot();
    let listed = board.cells_and_neighbors();
    assert_eq!(listed.len(), 9);
    assert_eq!(listed[0].0, (token(1, false), c(0, 0)));
    assert_eq!(listed[0].1, vec![(token(0, false), c(1, 0)), (token(0, false), c(0, 1))]);
    assert_eq!(listed[4].0, (token(0, false), c(1, 1)));
    assert_eq!(
        listed[4].1,
        vec![
            (token(0, false), c(0, 1)),
            (token(0, false), c(2, 1)),
            (token(0, false), c(1, 0)),
            (None, c(1, 2)),
        ]
    );
    assert_eq!(listed[8].0, (token(1, false), c(2, 2)));
    assert_eq!(listed[8].1, vec![(None, c(1, 2)), (token(0, false), c(2, 1))]);
    for (i, entry) in listed.iter().enumerate() {
        assert_eq!(entry.0 .1, c(i % 3, i / 3));
    }
}

#[test]
fn lower_border_lies_at_the_width_on_a_tall_grid() {
    let listed = Board::new((2, 4)).cells_and_neighbors();
    let around = |i: usize| -> Vec<Coordinate> { listed[i].1.iter().map(|n| n.1).collect() };
    // Row 0 is above row width - 1 and has a lower neighbour.
    assert_eq!(around(0), vec![c(1, 0), c(0, 1)]);
    // From row 1 = width - 1 on, no cell has one, though the grid goes on.
    assert_eq!(around(2), vec![c(1, 1), c(0, 0)]);
    assert_eq!(around(5), vec![c(0, 2), c(1, 1)]);
    assert_eq!(around(7), vec![c(0, 3), c(1, 2)]);
}

#[test]
fn lower_neighbor_below_a_wide_grid_holds_nothing() {
    let board = play(&Board::new((3, 2)), &[Move::Place(c(1, 1)), Move::Place(c(1, 0))]);
    let listed = board.cells_and_neighbors();
    assert_eq!(listed.len(), 6);
    assert_eq!(
        listed[4].1,
        vec![(None, c(0, 1)), (None, c(2, 1)), (token(1, false), c(1, 0)), (None, c(1, 2))]
    );
    assert_eq!(board.count_victory_points(), vec![0, 0]);
    assert_eq!(board.get_legal_moves().len(), 6);
}

#[test]
fn surrounded_token_in_row_width_minus_one_does_not_score() {
    // On a grid of 3 columns and 4 rows the cell (1, 2) has four cells
    // around it, but the rule gives it no lower neighbour.
    let board = play(
        &Board::new((3, 4)),
        &[
            Move::Place(c(1, 1)),
            Move::Place(c(0, 0)),
            Move::Place(c(0, 2)),
            Move::Place(c(2, 0)),
            Move::Place(c(2, 2)),
            Move::Place(c(0, 3)),
            Move::Place(c(1, 3)),
            Move::Place(c(2, 3)),
            Move::Place(c(1, 2)),
        ],
    );
    assert_eq!(board.get_cell(c(1, 2)), token(0, false));
    assert_eq!(board.count_victory_points(), vec![0, 0]);
}

#[test]
fn clone_is_an_equal_board() {
    let board = cross_without_foot();
    let copy = board.clone();
    assert_eq!(cells_of(&copy), cells_of(&board));
    assert_eq!(copy.size(), board.size());
    assert_eq!(copy.current_turn(), board.current_turn());
}
