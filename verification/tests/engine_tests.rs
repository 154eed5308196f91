use rust_backend::board::{BoardState, Point};
use rust_backend::engine::{BoardEngine, MinesweeperEngine};
use rust_backend::game::MinesweeperGame;
use rust_backend::mines::{
    bump_neighbors, first_free_point, mark_mines, place_mines, safe_zone_points,
};
use rust_backend::game::filled_board;
use rust_backend::platform::Timestamp;
use rust_backend::points::PointSet;

fn stamp() -> Timestamp {
    Timestamp { secs: 0, nanos: 0 }
}

fn game_with_mines(cols: usize, rows: usize, mines: &[Point]) -> MinesweeperGame {
    let mut game = MinesweeperGame::fresh(42, stamp(), cols, rows, mines.len());
    let mut set = PointSet::new();
    for m in mines {
        if set.insert(*m) {
            bump_neighbors(&mut game.board, cols, rows, *m);
        }
    }
    mark_mines(&mut game.board, cols, rows, &set);
    game.mine_points = set;
    game.mines_generated = true;
    game
}

fn chebyshev(a: Point, b: Point) -> usize {
    let dx = if a.x > b.x { a.x - b.x } else { b.x - a.x };
    let dy = if a.y > b.y { a.y - b.y } else { b.y - a.y };
    if dx > dy {
        dx
    } else {
        dy
    }
}

fn sorted(mut points: Vec<Point>) -> Vec<(usize, usize)> {
    let mut pairs: Vec<(usize, usize)> = points.drain(..).map(|p| (p.x, p.y)).collect();
    pairs.sort();
    pairs
}

/// The number of mines that touch `p`, counted from the mine set.
fn mines_around(game: &MinesweeperGame, p: Point) -> usize {
    game.mine_points.to_vec().iter().filter(|m| **m != p && chebyshev(**m, p) <= 1).count()
}

fn assert_board_counts_mines(game: &MinesweeperGame) {
    assert!(game.is_well_formed());
    assert_eq!(game.board.len(), game.cols);
    for x in 0..game.cols {
        assert_eq!(game.board[x].len(), game.rows);
        for y in 0..game.rows {
            let p = Point { x, y };
            if game.mine_points.contains(&p) {
                assert_eq!(game.board[x][y], BoardState::Mine);
            } else {
                assert_eq!(game.board[x][y].code() as usize, mines_around(game, p));
            }
        }
    }
}

#[test]
fn safe_zone_in_the_middle_has_nine_cells() {
    let zone = safe_zone_points(10, 10, Point { x: 5, y: 5 });
    assert_eq!(zone.len(), 9);
    for x in 4..=6 {
        for y in 4..=6 {
            assert!(zone.contains(&Point { x, y }));
        }
    }
}

#[test]
fn safe_zone_is_clipped() {
    assert_eq!(
        sorted(safe_zone_points(10, 10, Point { x: 0, y: 0 }).to_vec()),
        vec![(0, 0), (0, 1), (1, 0), (1, 1)]
    );
    assert_eq!(safe_zone_points(10, 10, Point { x: 0, y: 5 }).len(), 6);
    assert_eq!(safe_zone_points(10, 10, Point { x: 9, y: 9 }).len(), 4);
    assert_eq!(safe_zone_points(1, 1, Point { x: 0, y: 0 }).len(), 1);
    assert_eq!(safe_zone_points(0, 0, Point { x: 0, y: 0 }).len(), 0);
    assert_eq!(safe_zone_points(3, 3, Point { x: 7, y: 7 }).len(), 0);
}

#[test]
fn bump_neighbors_counts_around_one_mine() {
    let mut board = filled_board(3, 3, BoardState::Zero);
    bump_neighbors(&mut board, 3, 3, Point { x: 0, y: 0 });
    assert_eq!(
        board,
        vec![
            vec![BoardState::Zero, BoardState::One, BoardState::Zero],
            vec![BoardState::One, BoardState::One, BoardState::Zero],
            vec![BoardState::Zero, BoardState::Zero, BoardState::Zero],
        ]
    );
    bump_neighbors(&mut board, 3, 3, Point { x: 1, y: 1 });
    assert_eq!(
        board,
        vec![
            vec![BoardState::One, BoardState::Two, BoardState::One],
            vec![BoardState::Two, BoardState::One, BoardState::One],
            vec![BoardState::One, BoardState::One, BoardState::One],
        ]
    );
}

#[test]
fn a_cell_between_eight_mines_shows_eight() {
    let mut mines = Vec::new();
    for x in 0..3 {
        for y in 0..3 {
            if (x, y) != (1, 1) {
                mines.push(Point { x, y });
            }
        }
    }
    let game = game_with_mines(3, 3, &mines);
    assert_eq!(game.board[1][1], BoardState::Eight);
    assert_board_counts_mines(&game);
}

#[test]
fn mark_mines_overwrites_the_counts() {
    let mut board = filled_board(2, 2, BoardState::Three);
    let mut mines = PointSet::new();
    mines.insert(Point { x: 1, y: 0 });
    mark_mines(&mut board, 2, 2, &mines);
    assert_eq!(
        board,
        vec![
            vec![BoardState::Three, BoardState::Three],
            vec![BoardState::Mine, BoardState::Three],
        ]
    );
}

#[test]
fn first_free_point_scans_column_by_column() {
    let mut safe = PointSet::new();
    safe.insert(Point { x: 0, y: 0 });
    safe.insert(Point { x: 0, y: 1 });
    let mut mines = PointSet::new();
    mines.insert(Point { x: 1, y: 0 });
    assert_eq!(first_free_point(2, 2, &safe, &mines), Point { x: 1, y: 1 });
    assert_eq!(first_free_point(2, 2, &PointSet::new(), &mines), Point { x: 0, y: 0 });
}

#[test]
fn place_mines_places_the_number_asked_for_outside_the_safe_zone() {
    for _ in 0..50 {
        let mut board = filled_board(6, 5, BoardState::Zero);
        let safe = safe_zone_points(6, 5, Point { x: 2, y: 2 });
        let mines = place_mines(&mut board, 6, 5, &safe, 7);
        assert_eq!(mines.len(), 7);
        for m in mines.to_vec() {
            assert!(m.x < 6 && m.y < 5);
            assert!(!safe.contains(&m));
        }
    }
}

#[test]
fn place_mines_fills_every_free_cell_when_asked_to() {
    let mut board = filled_board(4, 4, BoardState::Zero);
    let safe = safe_zone_points(4, 4, Point { x: 0, y: 0 });
    let mines = place_mines(&mut board, 4, 4, &safe, 12);
    assert_eq!(mines.len(), 12);
    for x in 0..4 {
        for y in 0..4 {
            let p = Point { x, y };
            assert_eq!(mines.contains(&p), !safe.contains(&p));
        }
    }
}

#[test]
fn generation_keeps_the_first_click_safe() {
    let engine = MinesweeperEngine;
    for _ in 0..50 {
        let first = Point { x: 3, y: 4 };
        let mut game = MinesweeperGame::fresh(1, stamp(), 8, 8, 20);
        engine.generate_mines(&mut game, first);
        assert!(game.mines_generated);
        for m in game.mine_points.to_vec() {
            assert!(chebyshev(m, first) > 1);
            assert!(m.x < 8 && m.y < 8);
        }
        assert_ne!(game.board[3][4], BoardState::Mine);
        assert_eq!(game.board[3][4], BoardState::Zero);
        assert!(game.is_well_formed());
    }
}

#[test]
fn generation_places_the_requested_number_of_mines() {
    let engine = MinesweeperEngine;
    let mut game = MinesweeperGame::fresh(1, stamp(), 10, 10, 10);
    engine.generate_mines(&mut game, Point { x: 5, y: 5 });
    assert_eq!(game.mine_points.len(), 10);
    assert_eq!(game.mine_count(), 10);
    assert_board_counts_mines(&game);
}

#[test]
fn generation_places_no_more_mines_than_fit() {
    let engine = MinesweeperEngine;
    // 5 * 5 cells, 9 of them safe: 16 are left.
    let mut game = MinesweeperGame::fresh(1, stamp(), 5, 5, 100);
    engine.generate_mines(&mut game, Point { x: 2, y: 2 });
    assert_eq!(game.mine_points.len(), 16);
    // A corner click keeps 4 cells safe: 21 are left.
    let mut corner = MinesweeperGame::fresh(1, stamp(), 5, 5, 25);
    engine.generate_mines(&mut corner, Point { x: 0, y: 0 });
    assert_eq!(corner.mine_points.len(), 21);
    assert_board_counts_mines(&corner);
    // A 3 by 3 board clicked in the middle has no room at all.
    let mut small = MinesweeperGame::fresh(1, stamp(), 3, 3, 1);
    engine.generate_mines(&mut small, Point { x: 1, y: 1 });
    assert_eq!(small.mine_points.len(), 0);
    assert!(small.mines_generated);
}

#[test]
fn generation_on_an_empty_board_places_nothing() {
    let engine = MinesweeperEngine;
    let mut game = MinesweeperGame::fresh(1, stamp(), 0, 0, 3);
    engine.generate_mines(&mut game, Point { x: 0, y: 0 });
    assert!(game.mines_generated);
    assert!(game.mine_points.is_empty());
    let mut flat = MinesweeperGame::fresh(1, stamp(), 4, 0, 3);
    engine.generate_mines(&mut flat, Point { x: 0, y: 0 });
    assert!(flat.mine_points.is_empty());
}

#[test]
fn generation_happens_once() {
    let engine = MinesweeperEngine;
    let mut game = MinesweeperGame::fresh(1, stamp(), 6, 6, 8);
    engine.generate_mines(&mut game, Point { x: 0, y: 0 });
    let mines = game.mine_points.to_vec();
    let board = game.board.clone();
    engine.generate_mines(&mut game, Point { x: 5, y: 5 });
    assert_eq!(game.mine_points.to_vec(), mines);
    assert_eq!(game.board, board);
}

#[test]
fn generation_leaves_moves_and_flags_alone() {
    let engine = MinesweeperEngine;
    let mut game = MinesweeperGame::fresh(77, stamp(), 6, 6, 8);
    game.add_flag(Point { x: 5, y: 5 });
    engine.generate_mines(&mut game, Point { x: 0, y: 0 });
    assert_eq!(game.id, 77);
    assert_eq!(game.flag_points.to_vec(), vec![Point { x: 5, y: 5 }]);
    assert!(game.moves.is_empty());
    assert_eq!(game.mine_count_target, 8);
    assert_eq!((game.cols, game.rows), (6, 6));
}

#[test]
fn a_click_before_generation_reveals_the_cell_alone() {
    let engine = MinesweeperEngine;
    let game = MinesweeperGame::fresh(1, stamp(), 4, 4, 2);
    assert_eq!(
        engine.get_reveal_points(&game, Point { x: 2, y: 3 }),
        vec![Point { x: 2, y: 3 }]
    );
}

#[test]
fn a_click_on_a_number_reveals_the_cell_alone() {
    let engine = MinesweeperEngine;
    let game = game_with_mines(4, 4, &[Point { x: 0, y: 0 }]);
    assert_eq!(game.board[1][1], BoardState::One);
    assert_eq!(
        engine.get_reveal_points(&game, Point { x: 1, y: 1 }),
        vec![Point { x: 1, y: 1 }]
    );
}

#[test]
fn a_click_on_a_mine_reveals_every_mine() {
    let engine = MinesweeperEngine;
    let mines = [Point { x: 0, y: 0 }, Point { x: 3, y: 1 }, Point { x: 2, y: 3 }];
    let game = game_with_mines(4, 4, &mines);
    let revealed = engine.get_reveal_points(&game, Point { x: 3, y: 1 });
    assert_eq!(revealed.len(), 3);
    assert_eq!(sorted(revealed), sorted(mines.to_vec()));
}

#[test]
fn a_click_on_a_zero_opens_the_area_up_to_its_rim() {
    let engine = MinesweeperEngine;
    //  column 0 holds the mine at row 0; columns 2 and 3 are all zero.
    let game = game_with_mines(4, 3, &[Point { x: 0, y: 0 }]);
    let revealed = engine.get_reveal_points(&game, Point { x: 3, y: 2 });
    assert_eq!(
        sorted(revealed),
        vec![
            (0, 1),
            (0, 2),
            (1, 0),
            (1, 1),
            (1, 2),
            (2, 0),
            (2, 1),
            (2, 2),
            (3, 0),
            (3, 1),
            (3, 2),
        ]
    );
}

#[test]
fn the_open_area_comes_in_breadth_first_order() {
    let engine = MinesweeperEngine;
    let game = game_with_mines(3, 1, &[]);
    assert_eq!(
        engine.get_zero_moves(&game, Point { x: 0, y: 0 }),
        vec![Point { x: 0, y: 0 }, Point { x: 1, y: 0 }, Point { x: 2, y: 0 }]
    );
    let square = game_with_mines(2, 2, &[]);
    assert_eq!(
        engine.get_zero_moves(&square, Point { x: 1, y: 1 }),
        vec![
            Point { x: 1, y: 1 },
            Point { x: 0, y: 0 },
            Point { x: 0, y: 1 },
            Point { x: 1, y: 0 },
        ]
    );
}

#[test]
fn the_open_area_stops_at_numbers() {
    let engine = MinesweeperEngine;
    // A wall of mines in column 2 parts the board in two.
    let wall: Vec<Point> = (0..5).map(|y| Point { x: 2, y }).collect();
    let game = game_with_mines(5, 5, &wall);
    let revealed = engine.get_reveal_points(&game, Point { x: 0, y: 0 });
    assert_eq!(revealed.len(), 10);
    assert!(revealed.iter().all(|p| p.x <= 1));
    let other = engine.get_reveal_points(&game, Point { x: 4, y: 4 });
    assert_eq!(other.len(), 10);
    assert!(other.iter().all(|p| p.x >= 3));
}

#[test]
fn the_open_area_is_closed_and_without_repeats() {
    let engine = MinesweeperEngine;
    for _ in 0..30 {
        let mut game = MinesweeperGame::fresh(1, stamp(), 9, 9, 10);
        let click = Point { x: 4, y: 4 };
        engine.generate_mines(&mut game, click);
        let revealed = engine.get_reveal_points(&game, click);
        let mut unique = PointSet::new();
        for p in &revealed {
            assert!(unique.insert(*p));
        }
        assert!(unique.contains(&click));
        for p in &revealed {
            assert_ne!(game.board[p.x][p.y], BoardState::Mine);
            if game.board[p.x][p.y] == BoardState::Zero {
                for x in 0..9 {
                    for y in 0..9 {
                        let q = Point { x, y };
                        if q != *p && chebyshev(q, *p) <= 1 {
                            assert!(unique.contains(&q));
                        }
                    }
                }
            }
        }
    }
}
