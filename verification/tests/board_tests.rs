use rust_backend::board::{get_cell, set_cell, BoardState, Point};
use rust_backend::game::{copy_board, filled_board};
use rust_backend::grid::neighbor_at;

const ALL_STATES: [BoardState; 12] = [
    BoardState::Flag,
    BoardState::Mine,
    BoardState::Unknown,
    BoardState::Zero,
    BoardState::One,
    BoardState::Two,
    BoardState::Three,
    BoardState::Four,
    BoardState::Five,
    BoardState::Six,
    BoardState::Seven,
    BoardState::Eight,
];

#[test]
fn increment_steps_through_the_numbers() {
    assert_eq!(BoardState::Zero.increment(), BoardState::One);
    assert_eq!(BoardState::One.increment(), BoardState::Two);
    assert_eq!(BoardState::Two.increment(), BoardState::Three);
    assert_eq!(BoardState::Three.increment(), BoardState::Four);
    assert_eq!(BoardState::Four.increment(), BoardState::Five);
    assert_eq!(BoardState::Five.increment(), BoardState::Six);
    assert_eq!(BoardState::Six.increment(), BoardState::Seven);
    assert_eq!(BoardState::Seven.increment(), BoardState::Eight);
}

#[test]
fn increment_leaves_the_other_states() {
    assert_eq!(BoardState::Eight.increment(), BoardState::Eight);
    assert_eq!(BoardState::Mine.increment(), BoardState::Mine);
    assert_eq!(BoardState::Flag.increment(), BoardState::Flag);
    assert_eq!(BoardState::Unknown.increment(), BoardState::Unknown);
}

#[test]
fn codes_are_the_wire_codes() {
    assert_eq!(BoardState::Flag.code(), -3);
    assert_eq!(BoardState::Mine.code(), -2);
    assert_eq!(BoardState::Unknown.code(), -1);
    assert_eq!(BoardState::Zero.code(), 0);
    assert_eq!(BoardState::One.code(), 1);
    assert_eq!(BoardState::Two.code(), 2);
    assert_eq!(BoardState::Three.code(), 3);
    assert_eq!(BoardState::Four.code(), 4);
    assert_eq!(BoardState::Five.code(), 5);
    assert_eq!(BoardState::Six.code(), 6);
    assert_eq!(BoardState::Seven.code(), 7);
    assert_eq!(BoardState::Eight.code(), 8);
}

#[test]
fn codes_round_trip() {
    for state in ALL_STATES {
        assert_eq!(BoardState::from_code(state.code()), Some(state));
    }
}

#[test]
fn unknown_codes_are_refused() {
    assert_eq!(BoardState::from_code(9), None);
    assert_eq!(BoardState::from_code(-4), None);
    assert_eq!(BoardState::from_code(i8::MAX), None);
    assert_eq!(BoardState::from_code(i8::MIN), None);
}

#[test]
fn points_compare_by_value() {
    assert_eq!(Point { x: 3, y: 4 }, Point { x: 3, y: 4 });
    assert_ne!(Point { x: 3, y: 4 }, Point { x: 4, y: 3 });
}

#[test]
fn neighbor_places_run_column_by_column() {
    let p = Point { x: 5, y: 5 };
    let expected = [
        Point { x: 4, y: 4 },
        Point { x: 4, y: 5 },
        Point { x: 4, y: 6 },
        Point { x: 5, y: 4 },
        Point { x: 5, y: 5 },
        Point { x: 5, y: 6 },
        Point { x: 6, y: 4 },
        Point { x: 6, y: 5 },
        Point { x: 6, y: 6 },
    ];
    for k in 0..9 {
        assert_eq!(neighbor_at(p, k, 10, 10), Some(expected[k]));
    }
}

#[test]
fn neighbors_are_clipped_at_the_corner() {
    let p = Point { x: 0, y: 0 };
    let found: Vec<Point> = (0..9).filter_map(|k| neighbor_at(p, k, 3, 3)).collect();
    assert_eq!(
        found,
        vec![
            Point { x: 0, y: 0 },
            Point { x: 0, y: 1 },
            Point { x: 1, y: 0 },
            Point { x: 1, y: 1 },
        ]
    );
}

#[test]
fn neighbors_are_clipped_at_the_far_edge() {
    let p = Point { x: 2, y: 1 };
    let found: Vec<Point> = (0..9).filter_map(|k| neighbor_at(p, k, 3, 3)).collect();
    assert_eq!(found.len(), 6);
    assert!(found.iter().all(|q| q.x < 3 && q.y < 3));
}

#[test]
fn neighbors_of_the_largest_point_do_not_overflow() {
    let p = Point { x: usize::MAX, y: usize::MAX };
    for k in 0..9 {
        assert_eq!(neighbor_at(p, k, 4, 4), None);
    }
    assert_eq!(
        neighbor_at(p, 0, usize::MAX, usize::MAX),
        Some(Point { x: usize::MAX - 1, y: usize::MAX - 1 })
    );
}

#[test]
fn a_point_just_off_the_grid_still_has_neighbors_on_it() {
    let p = Point { x: 3, y: 0 };
    let found: Vec<Point> = (0..9).filter_map(|k| neighbor_at(p, k, 3, 3)).collect();
    assert_eq!(found, vec![Point { x: 2, y: 0 }, Point { x: 2, y: 1 }]);
}

#[test]
fn filled_board_has_its_shape() {
    let board = filled_board(4, 2, BoardState::Unknown);
    assert_eq!(board.len(), 4);
    for column in &board {
        assert_eq!(column.len(), 2);
        for cell in column {
            assert_eq!(*cell, BoardState::Unknown);
        }
    }
    assert!(filled_board(0, 5, BoardState::Zero).is_empty());
    assert_eq!(filled_board(5, 0, BoardState::Zero), vec![Vec::<BoardState>::new(); 5]);
}

#[test]
fn set_cell_changes_one_cell() {
    let mut board = filled_board(3, 3, BoardState::Zero);
    set_cell(&mut board, 3, 3, Point { x: 1, y: 2 }, BoardState::Five);
    for x in 0..3 {
        for y in 0..3 {
            let expected = if x == 1 && y == 2 { BoardState::Five } else { BoardState::Zero };
            assert_eq!(get_cell(&board, Point { x, y }), expected);
        }
    }
}

#[test]
fn copy_board_copies_every_cell() {
    let mut board = filled_board(2, 3, BoardState::Zero);
    set_cell(&mut board, 2, 3, Point { x: 0, y: 1 }, BoardState::Mine);
    let copy = copy_board(&board);
    assert_eq!(copy, board);
}
