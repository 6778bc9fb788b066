//! The cube: construction, the move queue, and the animation state machine.

use std::collections::HashSet;

use rustbik::rubik::{AnimationStep, Color, Cube, CubeAnimationOptions, CubeError, Move};

const SOLVED: &str = "BBBBBBBBBYYYYYYYYYRRRRRRRRRWWWWWWWWWGGGGGGGGGOOOOOOOOO";

fn opts() -> CubeAnimationOptions {
    CubeAnimationOptions { move_time: 1200 }
}

/// Drive the state machine until the queue is drained, advancing a monotone
/// clock; checks the invariant callback after every completed turn.
fn finish_moves(cube: &mut Cube, now: &mut u64, mut after_each: impl FnMut(&Cube)) {
    loop {
        match cube.animate(*now) {
            AnimationStep::Idle => break,
            AnimationStep::Started(_) => {
                *now += cube.move_time();
            },
            AnimationStep::InProgress(_, _) => {
                *now += 1;
            },
            AnimationStep::Completed(_) => {
                after_each(cube);
            },
        }
    }
}

fn run_sequence(cube: &mut Cube, now: &mut u64, seq: &str) {
    let moves = Move::from_sequence(seq).unwrap();
    cube.queue(&moves);
    finish_moves(cube, now, |_| {});
}

#[test]
fn solved_cube_reads_back_solved() {
    let cube = Cube::solved(opts());
    assert_eq!(cube.to_facelet_str(), SOLVED);
}

#[test]
fn construction_reads_back_any_valid_string() {
    let fstr = "BYRWGO".repeat(9);
    assert_eq!(fstr.len(), 54);
    let cube = Cube::from_facelet_str(&fstr, opts()).unwrap();
    assert_eq!(cube.to_facelet_str(), fstr);
}

#[test]
fn extra_characters_are_ignored() {
    let fstr = format!("{}WWBB", SOLVED);
    let cube = Cube::from_facelet_str(&fstr, opts()).unwrap();
    assert_eq!(cube.to_facelet_str(), SOLVED);
}

#[test]
fn short_string_is_invalid_length() {
    match Cube::from_facelet_str("BBB", opts()) {
        Err(CubeError::InvalidLength) => {},
        other => panic!("constructed from a short string: {:?}", other.map(|_| ())),
    }
    let one_short = &SOLVED[..53];
    match Cube::from_facelet_str(one_short, opts()) {
        Err(CubeError::InvalidLength) => {},
        other => panic!("constructed from 53 characters: {:?}", other.map(|_| ())),
    }
}

#[test]
fn bad_character_is_reported() {
    let mut fstr = String::from(SOLVED);
    fstr.replace_range(7..8, "x");
    match Cube::from_facelet_str(&fstr, opts()) {
        Err(CubeError::InvalidColorChar(c)) => assert_eq!(c, 'x'),
        other => panic!("constructed from a bad string: {:?}", other.map(|_| ())),
    }
}

#[test]
fn bad_character_wins_over_short_length() {
    // The scan runs in facelet order: an invalid character at index 3 is hit
    // before the missing character at index 10.
    match Cube::from_facelet_str("BBBxYYYYYY", opts()) {
        Err(CubeError::InvalidColorChar(c)) => assert_eq!(c, 'x'),
        other => panic!("expected a color error: {:?}", other.map(|_| ())),
    }
}

#[test]
fn solved_cube_has_nine_slots_of_each_color() {
    let cube = Cube::solved(opts());
    let mut counts = [0usize; 6];
    let mut hidden = 0usize;
    for i in 0..27 {
        let p = cube.piece(i);
        for c in [p.color.0, p.color.1, p.color.2] {
            match c {
                Color::Blue => counts[0] += 1,
                Color::Yellow => counts[1] += 1,
                Color::Red => counts[2] += 1,
                Color::White => counts[3] += 1,
                Color::Green => counts[4] += 1,
                Color::Orange => counts[5] += 1,
                Color::Hidden => hidden += 1,
            }
        }
    }
    assert_eq!(counts, [9, 9, 9, 9, 9, 9]);
    assert_eq!(hidden, 27);
}

#[test]
fn single_r_move_scenario() {
    let mut cube = Cube::solved(opts());
    cube.queue(&[Move::R]);
    assert_eq!(cube.queue_len(), 1);

    // At the first frame the move is popped and starts.
    assert_eq!(cube.animate(0), AnimationStep::Started(Move::R));
    assert_eq!(cube.current_move(), Some(Move::R));
    assert_eq!(cube.queue_len(), 0);

    // Mid-flight frames change nothing discrete.
    assert_eq!(cube.animate(600), AnimationStep::InProgress(Move::R, 600));
    assert_eq!(cube.to_facelet_str(), SOLVED);

    // At exactly move_time the turn completes and is applied once.
    assert_eq!(cube.animate(1200), AnimationStep::Completed(Move::R));
    assert_eq!(cube.current_move(), None);
    assert_eq!(cube.queue_len(), 0);

    // The piece that sat at (1,1,1) rotated into (1,1,-1), its y and z
    // sticker slots trading places.
    let moved = (0..27).map(|i| *cube.piece(i)).find(|p| p.position == (1, 1, -1)).unwrap();
    assert_eq!(moved.color, (Color::Green, Color::Red, Color::Yellow));
    assert_ne!(cube.to_facelet_str(), SOLVED);
}

#[test]
fn started_move_caches_the_nine_face_pieces() {
    let mut cube = Cube::solved(opts());
    cube.queue(&[Move::R]);
    cube.animate(0);
    let ix = cube.current_face().unwrap().clone();
    assert_eq!(ix.len(), 9);
    for w in ix.windows(2) {
        assert!(w[0] < w[1]);
    }
    for &i in &ix {
        assert_eq!(cube.piece(i).position.0, 1);
    }
}

#[test]
fn lattice_stays_fully_covered_after_every_turn() {
    let mut cube = Cube::solved(opts());
    let moves = Move::from_sequence("U R2 F B R B2 R U2 L B2 R U' D' R2 F R' L B2 U2 F2").unwrap();
    cube.queue(&moves);
    let mut now = 0u64;
    let mut completed = 0usize;
    finish_moves(&mut cube, &mut now, |cube| {
        completed += 1;
        let mut seen = HashSet::new();
        for i in 0..27 {
            let (x, y, z) = cube.piece(i).position;
            assert!((-1..=1).contains(&x) && (-1..=1).contains(&y) && (-1..=1).contains(&z));
            assert!(seen.insert((x, y, z)), "duplicate position after a turn");
        }
        assert_eq!(seen.len(), 27);
    });
    assert_eq!(completed, 20);
    assert_eq!(cube.current_move(), None);
    assert_eq!(cube.queue_len(), 0);
}

#[test]
fn move_then_inverse_restores_the_cube() {
    for pair in ["R R'", "R' R", "U2 U2", "F' F", "L2 L2", "D D'", "B' B"] {
        let mut cube = Cube::solved(opts());
        let mut now = 0u64;
        run_sequence(&mut cube, &mut now, "U R2 F");
        let before = cube.to_facelet_str();
        run_sequence(&mut cube, &mut now, pair);
        assert_eq!(cube.to_facelet_str(), before, "pair {} did not cancel", pair);
    }
}

#[test]
fn four_equal_turns_restore_the_cube() {
    for mv in ["R", "U", "F'", "L2", "B2", "D"] {
        let mut cube = Cube::solved(opts());
        let mut now = 0u64;
        let four = format!("{m} {m} {m} {m}", m = mv);
        run_sequence(&mut cube, &mut now, &four);
        assert_eq!(cube.to_facelet_str(), SOLVED, "{} four times did not cancel", mv);
    }
}

#[test]
fn turns_apply_strictly_in_queue_order() {
    let mut queued = Cube::solved(opts());
    let mut now = 0u64;
    queued.queue(&[Move::R, Move::U]);

    // First completion must be R alone, matching a cube that only did R.
    assert_eq!(queued.animate(now), AnimationStep::Started(Move::R));
    now += 1200;
    assert_eq!(queued.animate(now), AnimationStep::Completed(Move::R));
    let mut only_r = Cube::solved(opts());
    let mut now_r = 0u64;
    run_sequence(&mut only_r, &mut now_r, "R");
    assert_eq!(queued.to_facelet_str(), only_r.to_facelet_str());

    // Then U follows.
    assert_eq!(queued.animate(now), AnimationStep::Started(Move::U));
    now += 1200;
    assert_eq!(queued.animate(now), AnimationStep::Completed(Move::U));
    let mut r_then_u = Cube::solved(opts());
    let mut now_ru = 0u64;
    run_sequence(&mut r_then_u, &mut now_ru, "R U");
    assert_eq!(queued.to_facelet_str(), r_then_u.to_facelet_str());
}

#[test]
fn idle_cube_stays_idle() {
    let mut cube = Cube::solved(opts());
    assert_eq!(cube.animate(0), AnimationStep::Idle);
    assert_eq!(cube.animate(5000), AnimationStep::Idle);
    assert_eq!(cube.to_facelet_str(), SOLVED);
    assert_eq!(cube.current_move(), None);
}

#[test]
fn enqueuing_never_interrupts_a_turn() {
    let mut cube = Cube::solved(opts());
    cube.queue(&[Move::R]);
    assert_eq!(cube.animate(0), AnimationStep::Started(Move::R));
    cube.queue(&[Move::U]);
    // The in-flight R keeps animating; U waits its turn.
    assert_eq!(cube.animate(600), AnimationStep::InProgress(Move::R, 600));
    assert_eq!(cube.animate(1200), AnimationStep::Completed(Move::R));
    assert_eq!(cube.animate(1200), AnimationStep::Started(Move::U));
}

#[test]
fn turn_completes_only_at_full_move_time() {
    let mut cube = Cube::solved(opts());
    cube.queue(&[Move::R]);
    assert_eq!(cube.animate(100), AnimationStep::Started(Move::R));
    // One short of the duration: still in flight, nothing discrete changed.
    assert_eq!(cube.animate(1299), AnimationStep::InProgress(Move::R, 1199));
    assert_eq!(cube.to_facelet_str(), SOLVED);
    assert_eq!(cube.animate(1300), AnimationStep::Completed(Move::R));
    assert_ne!(cube.to_facelet_str(), SOLVED);
}

#[test]
fn scramble_then_inverse_scramble_solves() {
    let mut cube = Cube::solved(opts());
    let mut now = 0u64;
    run_sequence(&mut cube, &mut now, "U R2 F B R B2 R U2 L B2");
    assert_ne!(cube.to_facelet_str(), SOLVED);
    run_sequence(&mut cube, &mut now, "B2 L' U2 R' B2 R' B' F' R2 U'");
    assert_eq!(cube.to_facelet_str(), SOLVED);
}

#[test]
fn default_options() {
    assert_eq!(CubeAnimationOptions::default().move_time, 1200);
    assert_eq!(Color::default(), Color::Hidden);
}
