//! Move-notation parsing.

use rustbik::rubik::{CubeError, Move};

#[test]
fn single_tokens_parse() {
    assert_eq!(Move::from_str("L").unwrap(), Move::L);
    assert_eq!(Move::from_str("L'").unwrap(), Move::LP);
    assert_eq!(Move::from_str("L2").unwrap(), Move::L2);
    assert_eq!(Move::from_str("R").unwrap(), Move::R);
    assert_eq!(Move::from_str("R'").unwrap(), Move::RP);
    assert_eq!(Move::from_str("R2").unwrap(), Move::R2);
    assert_eq!(Move::from_str("U").unwrap(), Move::U);
    assert_eq!(Move::from_str("U'").unwrap(), Move::UP);
    assert_eq!(Move::from_str("U2").unwrap(), Move::U2);
    assert_eq!(Move::from_str("D").unwrap(), Move::D);
    assert_eq!(Move::from_str("D'").unwrap(), Move::DP);
    assert_eq!(Move::from_str("D2").unwrap(), Move::D2);
    assert_eq!(Move::from_str("F").unwrap(), Move::F);
    assert_eq!(Move::from_str("F'").unwrap(), Move::FP);
    assert_eq!(Move::from_str("F2").unwrap(), Move::F2);
    assert_eq!(Move::from_str("B").unwrap(), Move::B);
    assert_eq!(Move::from_str("B'").unwrap(), Move::BP);
    assert_eq!(Move::from_str("B2").unwrap(), Move::B2);
}

#[test]
fn bad_tokens_are_rejected() {
    for bad in ["", "X", "l", "L3", "R2'", "RR", "'", "2", "L '", "L''"] {
        match Move::from_str(bad) {
            Err(CubeError::InvalidMove(tok)) => assert_eq!(tok, bad),
            other => panic!("{:?} parsed as {:?}", bad, other),
        }
    }
}

#[test]
fn faces_are_indexed_in_table_order() {
    assert_eq!(Move::L.face(), 0);
    assert_eq!(Move::LP.face(), 0);
    assert_eq!(Move::L2.face(), 0);
    assert_eq!(Move::U.face(), 1);
    assert_eq!(Move::UP.face(), 1);
    assert_eq!(Move::U2.face(), 1);
    assert_eq!(Move::F.face(), 2);
    assert_eq!(Move::FP.face(), 2);
    assert_eq!(Move::F2.face(), 2);
    assert_eq!(Move::D.face(), 3);
    assert_eq!(Move::DP.face(), 3);
    assert_eq!(Move::D2.face(), 3);
    assert_eq!(Move::R.face(), 4);
    assert_eq!(Move::RP.face(), 4);
    assert_eq!(Move::R2.face(), 4);
    assert_eq!(Move::B.face(), 5);
    assert_eq!(Move::BP.face(), 5);
    assert_eq!(Move::B2.face(), 5);
}

#[test]
fn sequences_parse_in_order() {
    let moves = Move::from_sequence("R U R' U'").unwrap();
    assert_eq!(moves, vec![Move::R, Move::U, Move::RP, Move::UP]);
}

#[test]
fn sequence_whitespace_is_flexible() {
    let moves = Move::from_sequence("  R2\t B'\n U  ").unwrap();
    assert_eq!(moves, vec![Move::R2, Move::BP, Move::U]);
}

#[test]
fn empty_sequence_is_no_moves() {
    assert_eq!(Move::from_sequence("").unwrap(), vec![]);
    assert_eq!(Move::from_sequence("   ").unwrap(), vec![]);
}

#[test]
fn sequence_fails_on_first_bad_token() {
    match Move::from_sequence("R xyz U qq") {
        Err(CubeError::InvalidMove(tok)) => assert_eq!(tok, "xyz"),
        other => panic!("parsed as {:?}", other),
    }
}

#[test]
fn sequence_fails_on_trailing_bad_token() {
    match Move::from_sequence("R U zz") {
        Err(CubeError::InvalidMove(tok)) => assert_eq!(tok, "zz"),
        other => panic!("parsed as {:?}", other),
    }
}

#[test]
fn scramble_sequence_parses() {
    let moves = Move::from_sequence("U R2 F B R B2 R U2 L B2 R U' D' R2 F R' L B2 U2 F2").unwrap();
    assert_eq!(moves.len(), 20);
    assert_eq!(moves[0], Move::U);
    assert_eq!(moves[19], Move::F2);
}
