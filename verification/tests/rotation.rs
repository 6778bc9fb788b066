//! The integer rotation algebra on single pieces.

use rustbik::rubik::piece::{rot_x_cw, rot_x_ccw, rot_y_cw, rot_z_cw};
use rustbik::rubik::{Color, Piece};

#[test]
fn cubelet_indexing() {
    assert_eq!(Piece::new((-1, 1, -1), (Color::Hidden, Color::Hidden, Color::Hidden)).cubelet(), 0);
    assert_eq!(Piece::new((0, 0, 0), (Color::Hidden, Color::Hidden, Color::Hidden)).cubelet(), 13);
    assert_eq!(Piece::new((1, -1, 1), (Color::Hidden, Color::Hidden, Color::Hidden)).cubelet(), 26);
    assert_eq!(Piece::new((1, 1, 1), (Color::Hidden, Color::Hidden, Color::Hidden)).cubelet(), 20);
}

#[test]
fn corner_rotation_moves_and_swaps_slots() {
    // A corner of the left face under a clockwise x turn: (x,y,z) -> (x,-z,y).
    let mut p = Piece::new((-1, 1, 1), (Color::Blue, Color::Yellow, Color::Red));
    let (prev, new) = p.rotate(rot_x_cw()).unwrap();
    assert_eq!(prev, (-1, 1, 1));
    assert_eq!(new, (-1, -1, 1));
    assert_eq!(p.position, (-1, -1, 1));
    // The y and z slots trade places; the x slot stays.
    assert_eq!(p.color, (Color::Blue, Color::Red, Color::Yellow));
}

#[test]
fn edge_rotation_needs_the_correction_step() {
    // An edge on the turn plane's diagonal: the raw delta vanishes on two
    // axes and the correction step resolves it. (x,y,z) -> (y,-x,z).
    let mut p = Piece::new((1, 1, 0), (Color::Green, Color::Yellow, Color::Hidden));
    let (prev, new) = p.rotate(rot_z_cw()).unwrap();
    assert_eq!(prev, (1, 1, 0));
    assert_eq!(new, (1, -1, 0));
    assert_eq!(p.position, (1, -1, 0));
    // The x and y slots trade places.
    assert_eq!(p.color, (Color::Yellow, Color::Green, Color::Hidden));
}

#[test]
fn face_center_is_a_no_op() {
    let mut p = Piece::new((1, 0, 0), (Color::Green, Color::Hidden, Color::Hidden));
    let (prev, new) = p.rotate(rot_x_cw()).unwrap();
    assert_eq!(prev, (1, 0, 0));
    assert_eq!(new, (1, 0, 0));
    assert_eq!(p.position, (1, 0, 0));
    assert_eq!(p.color, (Color::Green, Color::Hidden, Color::Hidden));
}

#[test]
fn opposite_turns_cancel() {
    let start = Piece::new((-1, -1, 1), (Color::Blue, Color::White, Color::Red));
    let mut p = start;
    p.rotate(rot_x_cw()).unwrap();
    p.rotate(rot_x_ccw()).unwrap();
    assert_eq!(p.position, start.position);
    assert_eq!(p.color, start.color);
}

#[test]
fn four_quarter_turns_cancel() {
    let start = Piece::new((0, 1, 1), (Color::Hidden, Color::Yellow, Color::Red));
    let mut p = start;
    for _ in 0..4 {
        p.rotate(rot_y_cw()).unwrap();
    }
    assert_eq!(p.position, start.position);
    assert_eq!(p.color, start.color);
}

#[test]
fn face_color_shows_exterior_slots_only() {
    let p = Piece::new((-1, 1, 0), (Color::Blue, Color::Yellow, Color::Hidden));
    assert_eq!(p.face_color(0), Color::Blue);
    assert_eq!(p.face_color(1), Color::Yellow);
    assert_eq!(p.face_color(2), Color::Hidden);
    assert_eq!(p.face_color(3), Color::Hidden);
    assert_eq!(p.face_color(4), Color::Hidden);
    assert_eq!(p.face_color(5), Color::Hidden);
}
