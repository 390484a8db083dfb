use tetris::{
    line_clear_award, Color, Rotation, TetrisGame, TetrisPart, TetrisPiece, TetrisPieceType, CLEAR_ANIMATION_FRAMES,
    HEIGHT, TOP_ROW, WIDTH,
};

fn fresh() -> TetrisGame {
    TetrisGame::new(1, [(0, 0), (0, 0), (0, 0)])
}

fn coords(p: &TetrisPiece) -> Vec<(i64, i64)> {
    p.parts.iter().map(|q| (q.x, q.y)).collect()
}

fn custom(cells: [(i64, i64); 4]) -> TetrisPiece {
    TetrisPiece {
        parts: [
            TetrisPart::new(cells[0].0, cells[0].1),
            TetrisPart::new(cells[1].0, cells[1].1),
            TetrisPart::new(cells[2].0, cells[2].1),
            TetrisPart::new(cells[3].0, cells[3].1),
        ],
        color: Color::Green,
        piece_type: TetrisPieceType::I,
        rotation: Rotation::R0,
    }
}

fn drop_to_floor(g: &mut TetrisGame) -> usize {
    let mut moves = 0;
    while g.active_piece().is_some() {
        g.move_down();
        moves += 1;
    }
    moves
}

fn occupied_count(g: &TetrisGame) -> usize {
    let mut n = 0;
    for y in TOP_ROW..HEIGHT {
        for x in 0..WIDTH {
            if g.occupant(x, y).is_some() {
                n += 1;
            }
        }
    }
    n
}

fn visible_count(g: &TetrisGame) -> usize {
    let mut n = 0;
    for id in 0..g.piece_count() {
        let p = g.piece(id);
        for q in p.parts.iter() {
            if q.visible {
                assert_eq!(g.occupant(q.x, q.y), Some(id));
                n += 1;
            }
        }
    }
    n
}

#[test]
fn new_game_queue_from_bags() {
    let g = fresh();
    let next = g.next_pieces();
    assert_eq!(next.len(), 3);
    assert_eq!(next[0], TetrisPiece::new(TetrisPieceType::Q, 3, Color::Pink));
    assert_eq!(next[1], TetrisPiece::new(TetrisPieceType::Z, 3, Color::Red));
    assert_eq!(next[2], TetrisPiece::new(TetrisPieceType::S, 3, Color::Yellow));
    assert_eq!(g.score(), 0);
    assert_eq!(g.level(), 1);
    assert_eq!(g.active_piece(), None);
    assert_eq!(g.piece_count(), 0);
    assert_eq!(occupied_count(&g), 0);
}

#[test]
fn new_game_other_rolls() {
    let g = TetrisGame::new(2, [(4, 13), (0, 0), (5, 1)]);
    let next = g.next_pieces();
    // types: I (index 4), Q (index 0), then index 5 mod 5 of [Z, S, T, L, J];
    // colours: index 13 mod 7, index 0, then index 1 of what is left
    assert_eq!(next[0], TetrisPiece::new(TetrisPieceType::I, 3, Color::DarkBlue));
    assert_eq!(next[1], TetrisPiece::new(TetrisPieceType::Q, 3, Color::Pink));
    assert_eq!(next[2], TetrisPiece::new(TetrisPieceType::Z, 3, Color::Yellow));
    assert_eq!(g.level(), 2);
}

#[test]
fn tick_spawns_front_and_refills_queue() {
    let mut g = fresh();
    g.tick(0, 0);
    assert_eq!(g.active_piece(), Some(0));
    assert_eq!(g.piece(0), TetrisPiece::new(TetrisPieceType::Q, 3, Color::Pink));
    for (x, y) in [(3, 0), (4, 0), (3, 1), (4, 1)] {
        assert_eq!(g.occupant(x, y), Some(0));
    }
    let next = g.next_pieces();
    assert_eq!(next[0], TetrisPiece::new(TetrisPieceType::Z, 3, Color::Red));
    assert_eq!(next[1], TetrisPiece::new(TetrisPieceType::S, 3, Color::Yellow));
    assert_eq!(next[2], TetrisPiece::new(TetrisPieceType::T, 3, Color::Green));
    g.tick(0, 0);
    assert_eq!(coords(&g.piece(0)), vec![(3, 1), (4, 1), (3, 2), (4, 2)]);
    assert_eq!(g.occupant(3, 0), None);
}

#[test]
fn move_left_and_right_stop_at_walls() {
    let mut g = fresh();
    assert!(g.add_piece(TetrisPiece::new(TetrisPieceType::I, 0, Color::Red)));
    g.move_left();
    assert_eq!(coords(&g.piece(0)), vec![(0, 0), (1, 0), (2, 0), (3, 0)]);
    assert_eq!(g.active_piece(), Some(0));
    for _ in 0..10 {
        g.move_right();
    }
    assert_eq!(coords(&g.piece(0)), vec![(6, 0), (7, 0), (8, 0), (9, 0)]);
    assert_eq!(g.active_piece(), Some(0));
    assert_eq!(g.occupant(5, 0), None);
    assert_eq!(g.occupant(9, 0), Some(0));
}

#[test]
fn sideways_move_blocked_by_other_piece() {
    let mut g = fresh();
    assert!(g.add_piece(custom([(7, 0), (7, 1), (7, 2), (7, 3)])));
    assert!(g.add_piece(TetrisPiece::new(TetrisPieceType::I, 3, Color::Red)));
    g.move_right();
    assert_eq!(coords(&g.piece(1)), vec![(3, 0), (4, 0), (5, 0), (6, 0)]);
    assert_eq!(g.active_piece(), Some(1));
    g.move_left();
    assert_eq!(coords(&g.piece(1)), vec![(2, 0), (3, 0), (4, 0), (5, 0)]);
    assert_eq!(g.occupant(6, 0), None);
    assert_eq!(g.occupant(7, 0), Some(0));
}

#[test]
fn landing_on_floor_from_second_last_row() {
    let mut g = fresh();
    assert!(g.add_piece(TetrisPiece::new(TetrisPieceType::I, 3, Color::Red)));
    for _ in 0..(HEIGHT - 2) {
        g.tick(0, 0);
    }
    assert_eq!(g.piece(0).parts[0].y, HEIGHT - 2);
    assert_eq!(g.active_piece(), Some(0));
    g.tick(0, 0);
    assert_eq!(g.piece(0).parts[0].y, HEIGHT - 1);
    assert_eq!(g.active_piece(), Some(0));
    g.tick(0, 0);
    assert_eq!(g.active_piece(), None);
    assert_eq!(coords(&g.piece(0)), vec![(3, 21), (4, 21), (5, 21), (6, 21)]);
}

#[test]
fn landing_on_another_piece() {
    let mut g = fresh();
    assert!(g.add_piece(TetrisPiece::new(TetrisPieceType::I, 3, Color::Red)));
    drop_to_floor(&mut g);
    assert!(g.add_piece(TetrisPiece::new(TetrisPieceType::I, 4, Color::Red)));
    for _ in 0..(HEIGHT - 2) {
        g.tick(0, 0);
    }
    assert_eq!(g.piece(1).parts[0].y, HEIGHT - 2);
    assert_eq!(g.active_piece(), Some(1));
    g.tick(0, 0);
    assert_eq!(g.active_piece(), None);
    assert_eq!(coords(&g.piece(1)), vec![(4, 20), (5, 20), (6, 20), (7, 20)]);
}

#[test]
fn rotation_above_top_row_accepted() {
    let mut g = fresh();
    assert!(g.add_piece(TetrisPiece::new(TetrisPieceType::I, 3, Color::Red)));
    g.rotate();
    assert_eq!(coords(&g.piece(0)), vec![(5, -1), (5, 0), (5, 1), (5, 2)]);
    assert_eq!(g.piece(0).rotation, Rotation::R1);
    for y in -1..3 {
        assert_eq!(g.occupant(5, y), Some(0));
    }
    assert_eq!(g.occupant(3, 0), None);
    assert_eq!(occupied_count(&g), 4);
    g.rotate();
    assert_eq!(coords(&g.piece(0)), vec![(6, 1), (5, 1), (4, 1), (3, 1)]);
    assert_eq!(g.piece(0).rotation, Rotation::R2);
    assert_eq!(g.occupant(5, -1), None);
    assert_eq!(occupied_count(&g), 4);
}

#[test]
fn rotation_after_a_drop() {
    let mut g = fresh();
    assert!(g.add_piece(TetrisPiece::new(TetrisPieceType::I, 3, Color::Red)));
    g.move_down();
    g.rotate();
    assert_eq!(coords(&g.piece(0)), vec![(5, 0), (5, 1), (5, 2), (5, 3)]);
    assert_eq!(g.piece(0).rotation, Rotation::R1);
    for y in 0..4 {
        assert_eq!(g.occupant(5, y), Some(0));
    }
    assert_eq!(g.occupant(3, 1), None);
    assert_eq!(occupied_count(&g), 4);
}

#[test]
fn part_above_board_moves_down_in_a_clear() {
    let mut g = fresh();
    fill_bottom_row(&mut g);
    assert!(g.add_piece(custom([(5, 3), (5, 4), (5, 5), (5, 6)])));
    assert!(g.add_piece(TetrisPiece::new(TetrisPieceType::I, 3, Color::Red)));
    g.rotate();
    g.move_down();
    assert_eq!(g.active_piece(), None);
    assert_eq!(coords(&g.piece(4)), vec![(5, -1), (5, 0), (5, 1), (5, 2)]);
    g.tick(0, 0);
    assert_eq!(g.score(), 100);
    assert_eq!(coords(&g.piece(4)), vec![(5, 0), (5, 1), (5, 2), (5, 3)]);
    assert_eq!(g.occupant(5, -1), None);
    assert_eq!(g.occupant(5, 0), Some(4));
    assert_eq!(g.occupant(5, 4), Some(3));
    assert_eq!(occupied_count(&g), visible_count(&g));
}

#[test]
fn rotation_rejected_onto_other_piece() {
    let mut g = fresh();
    assert!(g.add_piece(custom([(5, 3), (6, 3), (5, 4), (6, 4)])));
    assert!(g.add_piece(TetrisPiece::new(TetrisPieceType::I, 3, Color::Red)));
    g.move_down();
    g.rotate();
    assert_eq!(coords(&g.piece(1)), vec![(3, 1), (4, 1), (5, 1), (6, 1)]);
    assert_eq!(g.piece(1).rotation, Rotation::R0);
    assert_eq!(g.occupant(5, 3), Some(0));
}

#[test]
fn rotation_rejected_at_side_wall() {
    let mut g = fresh();
    assert!(g.add_piece(TetrisPiece::new(TetrisPieceType::I, 3, Color::Red)));
    g.move_down();
    g.rotate();
    for _ in 0..6 {
        g.move_right();
    }
    assert_eq!(coords(&g.piece(0)), vec![(9, 0), (9, 1), (9, 2), (9, 3)]);
    // R1 -> R2 of I moves part 0 one column right
    g.rotate();
    assert_eq!(coords(&g.piece(0)), vec![(9, 0), (9, 1), (9, 2), (9, 3)]);
    assert_eq!(g.piece(0).rotation, Rotation::R1);
}

#[test]
fn square_rotation_changes_nothing() {
    let mut g = fresh();
    g.tick(0, 0);
    let before = g.piece(0);
    g.rotate();
    assert_eq!(g.piece(0), before);
}

#[test]
fn moves_without_active_piece_do_nothing() {
    let mut g = fresh();
    g.move_left();
    g.move_right();
    g.move_down();
    g.rotate();
    assert_eq!(g.piece_count(), 0);
    assert_eq!(g.active_piece(), None);
}

#[test]
fn add_piece_refusals() {
    let mut g = fresh();
    assert!(g.add_piece(TetrisPiece::new(TetrisPieceType::I, 3, Color::Red)));
    assert!(!g.add_piece(TetrisPiece::new(TetrisPieceType::I, 3, Color::Red)));
    assert!(!g.add_piece(TetrisPiece::new(TetrisPieceType::I, 7, Color::Red)));
    assert!(!g.add_piece(custom([(-1, 5), (0, 5), (1, 5), (2, 5)])));
    assert!(!g.add_piece(custom([(1, 5), (1, 5), (2, 5), (3, 5)])));
    let mut turned = custom([(1, 5), (2, 5), (3, 5), (4, 5)]);
    turned.rotation = Rotation::R1;
    assert!(!g.add_piece(turned));
    let mut hidden = custom([(1, 5), (2, 5), (3, 5), (4, 5)]);
    hidden.parts[2].visible = false;
    assert!(!g.add_piece(hidden));
    assert_eq!(g.piece_count(), 1);
    assert_eq!(g.active_piece(), Some(0));
}

fn fill_bottom_row(g: &mut TetrisGame) {
    assert!(g.add_piece(TetrisPiece::new(TetrisPieceType::I, 3, Color::Red)));
    drop_to_floor(g);
    assert!(g.add_piece(TetrisPiece::new(TetrisPieceType::J, 0, Color::Green)));
    drop_to_floor(g);
    assert!(g.add_piece(TetrisPiece::new(TetrisPieceType::L, 7, Color::Orange)));
    drop_to_floor(g);
}

#[test]
fn end_to_end_clear() {
    let mut g = fresh();
    assert!(g.add_piece(TetrisPiece::new(TetrisPieceType::I, 3, Color::Red)));
    let moves = drop_to_floor(&mut g);
    assert_eq!(moves, 22);
    for x in 3..7 {
        assert_eq!(g.occupant(x, 21), Some(0));
    }
    assert_eq!(g.active_piece(), None);
    assert!(g.add_piece(TetrisPiece::new(TetrisPieceType::J, 0, Color::Green)));
    drop_to_floor(&mut g);
    assert!(g.add_piece(TetrisPiece::new(TetrisPieceType::L, 7, Color::Orange)));
    drop_to_floor(&mut g);
    for x in 0..WIDTH {
        assert!(g.occupant(x, 21).is_some());
    }
    let level = g.level() as u64;
    let before = g.score();
    g.tick(0, 0);
    assert_eq!(g.score(), before + 100 * level);
    assert!(g.piece(0).parts.iter().all(|q| !q.visible));
    assert_eq!(g.occupant(0, 21), Some(1));
    assert_eq!(g.occupant(9, 21), Some(2));
    for x in 1..9 {
        assert_eq!(g.occupant(x, 21), None);
    }
    assert_eq!(g.occupant(0, 20), None);
    assert_eq!(g.clear_ticks(), CLEAR_ANIMATION_FRAMES);
    assert_eq!(g.cleared_rows(), vec![21]);
    assert_eq!(g.active_piece(), Some(3));
}

#[test]
fn check_and_clear_rows_single_row() {
    let mut g = fresh();
    fill_bottom_row(&mut g);
    assert_eq!(g.check_and_clear_rows(), Some(21));
    let j = g.piece(1);
    assert_eq!(coords(&j), vec![(0, 21), (0, 21), (1, 21), (2, 21)]);
    let vis: Vec<bool> = j.parts.iter().map(|q| q.visible).collect();
    assert_eq!(vis, vec![true, false, false, false]);
    assert_eq!(g.occupant(0, 21), Some(1));
    assert_eq!(g.occupant(9, 21), Some(2));
    assert_eq!(g.check_and_clear_rows(), None);
    assert_eq!(occupied_count(&g), visible_count(&g));
    assert_eq!(occupied_count(&g), 2);
}

#[test]
fn check_and_clear_rows_waits_for_falling_piece() {
    let mut g = fresh();
    fill_bottom_row(&mut g);
    assert!(g.add_piece(TetrisPiece::new(TetrisPieceType::Q, 3, Color::Pink)));
    assert_eq!(g.check_and_clear_rows(), None);
    assert!(g.occupant(5, 21).is_some());
}

#[test]
fn scoring_table() {
    assert_eq!(line_clear_award(0, 1), 0);
    assert_eq!(line_clear_award(1, 1), 100);
    assert_eq!(line_clear_award(2, 1), 300);
    assert_eq!(line_clear_award(3, 1), 500);
    assert_eq!(line_clear_award(4, 1), 800);
    assert_eq!(line_clear_award(1, 3), 300);
    assert_eq!(line_clear_award(2, 3), 900);
    assert_eq!(line_clear_award(3, 3), 1500);
    assert_eq!(line_clear_award(4, 3), 2400);
    assert_eq!(line_clear_award(5, 3), 0);
    assert_eq!(line_clear_award(4, u32::MAX), 800 * u32::MAX as u64);
}

#[test]
fn two_rows_in_one_tick() {
    let mut g = TetrisGame::new(2, [(0, 0), (0, 0), (0, 0)]);
    // columns 0..8 of the two bottom rows, as four squares and a vertical bar
    for x in [0, 2, 4, 6] {
        assert!(g.add_piece(TetrisPiece::new(TetrisPieceType::Q, x, Color::Pink)));
        drop_to_floor(&mut g);
    }
    assert!(g.add_piece(custom([(8, 18), (8, 19), (8, 20), (8, 21)])));
    drop_to_floor(&mut g);
    assert!(g.add_piece(custom([(9, 18), (9, 19), (9, 20), (9, 21)])));
    drop_to_floor(&mut g);
    g.tick(0, 0);
    assert_eq!(g.score(), 600);
    assert_eq!(g.cleared_rows(), vec![21, 21]);
    assert_eq!(g.occupant(8, 21), Some(4));
    assert_eq!(g.occupant(9, 20), Some(5));
    assert_eq!(occupied_count(&g), visible_count(&g));
}

#[test]
fn blocked_spawn_leaves_no_active_piece() {
    let mut g = fresh();
    for top in [18, 14, 10, 6, 2] {
        assert!(g.add_piece(custom([(3, top), (3, top + 1), (3, top + 2), (3, top + 3)])));
    }
    assert!(g.add_piece(custom([(3, 0), (4, 0), (3, 1), (4, 1)])));
    g.move_down();
    assert_eq!(g.active_piece(), None);
    let queue = g.next_pieces();
    g.tick(0, 0);
    assert_eq!(g.active_piece(), None);
    assert_eq!(g.piece_count(), 6);
    assert_eq!(g.next_pieces(), queue);
}

#[test]
fn occupancy_matches_visible_parts_after_play() {
    let mut g = TetrisGame::new(1, [(3, 1), (6, 2), (2, 5)]);
    let rolls = [(1usize, 4usize), (5, 0), (2, 2), (0, 6), (4, 3)];
    for k in 0..300 {
        let (a, b) = rolls[k % rolls.len()];
        match k % 7 {
            0 => g.move_left(),
            3 => g.rotate(),
            5 => g.move_right(),
            _ => g.tick(a + k, b + 2 * k),
        }
        assert_eq!(occupied_count(&g), visible_count(&g));
        for id in 0..g.piece_count() {
            for q in g.piece(id).parts.iter() {
                assert!(q.x >= 0 && q.x < WIDTH && q.y >= TOP_ROW && q.y < HEIGHT);
            }
        }
    }
}

#[test]
fn draw_paints_visible_cells_and_counts_down_highlight() {
    let mut g = fresh();
    fill_bottom_row(&mut g);
    let frame = g.draw();
    assert_eq!(frame.cells.len(), 12);
    assert_eq!((frame.cells[0].x, frame.cells[0].y, frame.cells[0].color), (3, 21, Color::Red));
    assert!(frame.flash_rows.is_empty());
    g.tick(0, 0);
    let frame = g.draw();
    assert_eq!(frame.flash_rows, vec![21]);
    assert_eq!(g.clear_ticks(), CLEAR_ANIMATION_FRAMES - 1);
    // I hidden, J and L keep one part each, the new square has four
    assert_eq!(frame.cells.len(), 6);
    for _ in 0..CLEAR_ANIMATION_FRAMES {
        g.draw();
    }
    assert_eq!(g.clear_ticks(), 0);
    assert!(g.draw().flash_rows.is_empty());
}

#[test]
fn game_board_lines() {
    let lines = TetrisGame::draw_game_board();
    assert_eq!(lines.len(), 34);
    let l = |k: usize| (lines[k].x0, lines[k].y0, lines[k].x1, lines[k].y1);
    assert_eq!(l(0), (0, 0, 10, 0));
    assert_eq!(l(22), (0, 22, 10, 22));
    assert_eq!(l(23), (0, 0, 0, 22));
    assert_eq!(l(33), (10, 0, 10, 22));
}

#[test]
fn level_multiplies_award() {
    let mut g = fresh();
    g.set_level(3);
    assert_eq!(g.level(), 3);
    fill_bottom_row(&mut g);
    g.tick(0, 0);
    assert_eq!(g.score(), 300);
}
