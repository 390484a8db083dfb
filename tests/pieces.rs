use tetris::{Bag, Color, Rotation, TetrisGame, TetrisPart, TetrisPiece, TetrisPieceType};

fn coords(p: &TetrisPiece) -> Vec<(i64, i64)> {
    p.parts.iter().map(|q| (q.x, q.y)).collect()
}

#[test]
fn part_new_is_visible() {
    let p = TetrisPart::new(4, 7);
    assert_eq!(p, TetrisPart { x: 4, y: 7, visible: true });
}

#[test]
fn spawn_layouts() {
    let cases = [
        (TetrisPieceType::Q, vec![(3, 0), (4, 0), (3, 1), (4, 1)]),
        (TetrisPieceType::Z, vec![(3, 0), (4, 0), (4, 1), (5, 1)]),
        (TetrisPieceType::S, vec![(4, 0), (5, 0), (3, 1), (4, 1)]),
        (TetrisPieceType::T, vec![(3, 1), (4, 1), (5, 1), (4, 0)]),
        (TetrisPieceType::I, vec![(3, 0), (4, 0), (5, 0), (6, 0)]),
        (TetrisPieceType::L, vec![(3, 1), (4, 1), (5, 1), (5, 0)]),
        (TetrisPieceType::J, vec![(3, 0), (3, 1), (4, 1), (5, 1)]),
    ];
    for (t, expected) in cases {
        let p = TetrisPiece::new(t, 3, Color::Green);
        assert_eq!(coords(&p), expected);
        assert_eq!(p.rotation, Rotation::R0);
        assert_eq!(p.piece_type, t);
        assert_eq!(p.color, Color::Green);
        assert!(p.parts.iter().all(|q| q.visible));
    }
}

#[test]
fn rotation_of_i_piece() {
    let p = TetrisPiece::new(TetrisPieceType::I, 3, Color::Red);
    let r = p.rotated();
    assert_eq!(coords(&r), vec![(5, -1), (5, 0), (5, 1), (5, 2)]);
    assert_eq!(r.rotation, Rotation::R1);
}

#[test]
fn rotation_of_t_piece_two_steps() {
    let p = TetrisPiece::new(TetrisPieceType::T, 3, Color::Red);
    let r = p.rotated().rotated();
    // R0: (+1,-1),(0,0),(-1,+1),(+1,+1); R1: (+1,+1),(0,0),(-1,-1),(-1,+1)
    assert_eq!(coords(&r), vec![(5, 1), (4, 1), (3, 1), (4, 2)]);
    assert_eq!(r.rotation, Rotation::R2);
}

#[test]
fn rotation_closure_every_type() {
    let types = [
        TetrisPieceType::Z,
        TetrisPieceType::S,
        TetrisPieceType::T,
        TetrisPieceType::I,
        TetrisPieceType::L,
        TetrisPieceType::J,
    ];
    for t in types {
        let mut p = TetrisPiece::new(t, 3, Color::Pink);
        for _ in 0..2 {
            p = p.rotated();
        }
        let start = p;
        let back = p.rotated().rotated().rotated().rotated();
        assert_eq!(back, start);
        assert_ne!(p.rotated(), start);
    }
}

#[test]
fn square_does_not_turn() {
    let p = TetrisPiece::new(TetrisPieceType::Q, 3, Color::Yellow);
    assert_eq!(p.rotated(), p);
}

#[test]
fn hide_row_hides_only_that_row() {
    let mut p = TetrisPiece::new(TetrisPieceType::T, 0, Color::Orange);
    p.hide_row(1);
    let vis: Vec<bool> = p.parts.iter().map(|q| q.visible).collect();
    assert_eq!(vis, vec![false, false, false, true]);
    assert_eq!(coords(&p), vec![(0, 1), (1, 1), (2, 1), (1, 0)]);
}

#[test]
fn lower_row_moves_parts_of_that_row() {
    let mut p = TetrisPiece::new(TetrisPieceType::T, 0, Color::Orange);
    p.lower_row(1, 2);
    assert_eq!(coords(&p), vec![(0, 3), (1, 3), (2, 3), (1, 0)]);
    p.hide_row(3);
    p.lower_row(3, 1);
    assert_eq!(coords(&p), vec![(0, 4), (1, 4), (2, 4), (1, 0)]);
}

#[test]
fn lower_row_moves_hidden_parts_too() {
    let mut p = TetrisPiece::new(TetrisPieceType::I, 3, Color::Red);
    p.hide_row(0);
    p.lower_row(0, 1);
    assert_eq!(coords(&p), vec![(3, 1), (4, 1), (5, 1), (6, 1)]);
    assert!(p.parts.iter().all(|q| !q.visible));
}

#[test]
fn bag_draw_exact_values() {
    let mut b = Bag::new(vec![10u32, 20, 30]);
    assert_eq!(b.draw(4), 20);
    assert_eq!(b.remaining(), 2);
    assert_eq!(b.draw(1), 30);
    assert_eq!(b.draw(7), 10);
    assert_eq!(b.remaining(), 3);
    assert_eq!(b.draw(0), 10);
}

#[test]
fn bag_cycle_of_seven() {
    let full = TetrisGame::new_piece_type_bag();
    assert_eq!(full.len(), 7);
    let mut b = Bag::new(TetrisGame::new_piece_type_bag());
    let rolls = [3usize, 9, 0, 5, 2, 2, 1];
    let mut drawn = Vec::new();
    for r in rolls {
        drawn.push(b.draw(r));
    }
    for t in &full {
        assert_eq!(drawn.iter().filter(|d| *d == t).count(), 1);
    }
    assert_eq!(b.remaining(), 7);
    let eighth = b.draw(5);
    assert_eq!(eighth, full[5]);
    assert_eq!(b.remaining(), 6);
}

#[test]
fn color_bag_holds_seven_colors() {
    let c = TetrisGame::new_color_bag();
    assert_eq!(
        c,
        vec![
            Color::Pink,
            Color::Red,
            Color::Yellow,
            Color::Green,
            Color::Orange,
            Color::LightBlue,
            Color::DarkBlue
        ]
    );
}

#[test]
fn moved_by_shifts_every_part() {
    let p = TetrisPiece::new(TetrisPieceType::I, 3, Color::Red);
    let m = p.moved_by(-2, 5);
    assert_eq!(coords(&m), vec![(1, 5), (2, 5), (3, 5), (4, 5)]);
    assert_eq!(m.rotation, p.rotation);
    assert_eq!(m.color, p.color);
}
