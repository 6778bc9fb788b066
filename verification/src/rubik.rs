//! The puzzle model: colors, moves, and the cube with its move queue.

use std::collections::VecDeque;

use vstd::prelude::*;

pub mod facelets;
pub mod piece;

pub use piece::Piece;
pub use piece::Mat3i;

verus! {

/// Standard colors of the puzzle's stickers.
/// `Hidden` marks a color slot whose face is not visible on the exterior.
#[derive(Clone, Copy, PartialEq, Eq, Structural, Debug)]
pub enum Color {
    Blue,
    Yellow,
    Red,
    White,
    Green,
    Orange,
    Hidden,
}

impl Default for Color {
    fn default() -> (c: Color)
        ensures
            c is Hidden,
    {
        Color::Hidden
    }
}

/// Everything that can go wrong in this core.
///
/// The first three report malformed input and are returned to the caller;
/// `RotationInconsistency` reports a broken internal invariant of the
/// rotation algebra and is proved unreachable for quarter-turn matrices.
#[derive(Debug)]
pub enum CubeError {
    /// The facelet string has fewer than 54 characters.
    InvalidLength,
    /// The facelet string holds a character outside the color alphabet.
    InvalidColorChar(char),
    /// A move token is not part of the standard notation.
    InvalidMove(String),
    /// The rotation algebra could not resolve which two axes a turn changed.
    RotationInconsistency { position: (i32, i32, i32), rotation: (i32, i32, i32) },
}

/// One face turn in standard notation: a face letter, optionally suffixed
/// `P` (printed `'`, counter-clockwise) or `2` (a half turn).
#[derive(Clone, Copy, PartialEq, Eq, Structural, Debug)]
pub enum Move {
    L,
    LP,
    L2,
    R,
    RP,
    R2,
    U,
    UP,
    U2,
    D,
    DP,
    D2,
    F,
    FP,
    F2,
    B,
    BP,
    B2,
}

/// The face a move turns, as an index in the facelet table's face order:
/// L=0, U=1, F=2, D=3, R=4, B=5.
pub open spec fn face_of(mv: Move) -> int {
    match mv {
        Move::L | Move::LP | Move::L2 => 0,
        Move::U | Move::UP | Move::U2 => 1,
        Move::F | Move::FP | Move::F2 => 2,
        Move::D | Move::DP | Move::D2 => 3,
        Move::R | Move::RP | Move::R2 => 4,
        Move::B | Move::BP | Move::B2 => 5,
    }
}

/// The move a face letter stands for: `kind` 0 is the plain clockwise
/// quarter turn, 1 the counter-clockwise one, 2 the half turn.
pub open spec fn move_token(c: char, kind: int) -> Option<Move> {
    if c == 'L' {
        Some(
            if kind == 0 {
                Move::L
            } else if kind == 1 {
                Move::LP
            } else {
                Move::L2
            },
        )
    } else if c == 'R' {
        Some(
            if kind == 0 {
                Move::R
            } else if kind == 1 {
                Move::RP
            } else {
                Move::R2
            },
        )
    } else if c == 'U' {
        Some(
            if kind == 0 {
                Move::U
            } else if kind == 1 {
                Move::UP
            } else {
                Move::U2
            },
        )
    } else if c == 'D' {
        Some(
            if kind == 0 {
                Move::D
            } else if kind == 1 {
                Move::DP
            } else {
                Move::D2
            },
        )
    } else if c == 'F' {
        Some(
            if kind == 0 {
                Move::F
            } else if kind == 1 {
                Move::FP
            } else {
                Move::F2
            },
        )
    } else if c == 'B' {
        Some(
            if kind == 0 {
                Move::B
            } else if kind == 1 {
                Move::BP
            } else {
                Move::B2
            },
        )
    } else {
        None
    }
}

/// What a whole token denotes: one face letter, optionally followed by `'`
/// or `2`. Anything else is not a move.
pub open spec fn parse_move(tok: Seq<char>) -> Option<Move> {
    if tok.len() == 1 {
        move_token(tok[0], 0)
    } else if tok.len() == 2 && tok[1] == '\'' {
        move_token(tok[0], 1)
    } else if tok.len() == 2 && tok[1] == '2' {
        move_token(tok[0], 2)
    } else {
        None
    }
}

/// The separators between move tokens: ASCII whitespace.
pub open spec fn is_space(c: char) -> bool {
    c == ' ' || c == '\t' || c == '\n' || c == '\u{c}' || c == '\r'
}

/// Executable counterpart of [`is_space`].
fn is_space_char(c: char) -> (r: bool)
    ensures
        r == is_space(c),
{
    c == ' ' || c == '\t' || c == '\n' || c == '\u{c}' || c == '\r'
}

/// Whitespace splitting as a left-to-right scan: `cur` is the token being
/// read and `acc` the tokens already completed before position `i`.
pub open spec fn split_tokens(s: Seq<char>, i: int, cur: Seq<char>, acc: Seq<Seq<char>>) -> Seq<
    Seq<char>,
>
    decreases s.len() - i,
{
    if i < 0 || i >= s.len() {
        if cur.len() == 0 {
            acc
        } else {
            acc.push(cur)
        }
    } else if is_space(s[i]) {
        if cur.len() == 0 {
            split_tokens(s, i + 1, cur, acc)
        } else {
            split_tokens(s, i + 1, Seq::empty(), acc.push(cur))
        }
    } else {
        split_tokens(s, i + 1, cur.push(s[i]), acc)
    }
}

/// The whitespace-separated tokens of `s`.
pub open spec fn tokens_of(s: Seq<char>) -> Seq<Seq<char>> {
    split_tokens(s, 0, Seq::empty(), Seq::empty())
}

/// Parse a token list left to right; the first token that is not a move is
/// the error, and nothing after it is considered.
pub open spec fn parse_tokens(toks: Seq<Seq<char>>) -> Result<Seq<Move>, Seq<char>>
    decreases toks.len(),
{
    if toks.len() == 0 {
        Ok(Seq::empty())
    } else {
        match parse_tokens(toks.drop_last()) {
            Ok(ms) => match parse_move(toks.last()) {
                Some(mv) => Ok(ms.push(mv)),
                None => Err(toks.last()),
            },
            Err(e) => Err(e),
        }
    }
}

/// The accumulator of the token scan only ever gets prepended to the result.
proof fn lemma_split_tokens_acc(s: Seq<char>, i: int, cur: Seq<char>, acc: Seq<Seq<char>>)
    ensures
        split_tokens(s, i, cur, acc) == acc + split_tokens(s, i, cur, Seq::empty()),
    decreases s.len() - i,
{
    if i < 0 || i >= s.len() {
        if cur.len() == 0 {
            assert(split_tokens(s, i, cur, acc) =~= acc + split_tokens(s, i, cur, Seq::empty()));
        } else {
            assert(split_tokens(s, i, cur, acc) =~= acc + split_tokens(s, i, cur, Seq::empty()));
        }
    } else if is_space(s[i]) {
        if cur.len() == 0 {
            lemma_split_tokens_acc(s, i + 1, cur, acc);
        } else {
            lemma_split_tokens_acc(s, i + 1, Seq::empty(), acc.push(cur));
            lemma_split_tokens_acc(s, i + 1, Seq::empty(), Seq::empty().push(cur));
            assert(acc.push(cur) =~= acc + Seq::empty().push(cur));
            assert(acc.push(cur) + split_tokens(s, i + 1, Seq::empty(), Seq::empty()) =~= acc + (
            Seq::empty().push(cur) + split_tokens(s, i + 1, Seq::empty(), Seq::empty())));
        }
    } else {
        lemma_split_tokens_acc(s, i + 1, cur.push(s[i]), acc);
    }
}

/// Parsing distributes over concatenation of token lists, with the earliest
/// error winning.
proof fn lemma_parse_tokens_append(a: Seq<Seq<char>>, b: Seq<Seq<char>>)
    ensures
        parse_tokens(a + b) == match parse_tokens(a) {
            Ok(ms) => match parse_tokens(b) {
                Ok(ms2) => Ok::<Seq<Move>, Seq<char>>(ms + ms2),
                Err(e) => Err(e),
            },
            Err(e) => Err(e),
        },
    decreases b.len(),
{
    if b.len() == 0 {
        assert(a + b =~= a);
        match parse_tokens(a) {
            Ok(ms) => {
                assert(ms + Seq::<Move>::empty() =~= ms);
            },
            Err(_) => {},
        }
    } else {
        lemma_parse_tokens_append(a, b.drop_last());
        assert((a + b).drop_last() =~= a + b.drop_last());
        assert((a + b).last() == b.last());
    }
}

/// The color of one slot of a color triple.
pub open spec fn slot_color(c: (Color, Color, Color), s: int) -> Color {
    if s == 0 {
        c.0
    } else if s == 1 {
        c.1
    } else {
        c.2
    }
}

/// A color triple with one slot replaced.
pub open spec fn set_slot(c: (Color, Color, Color), s: int, v: Color) -> (Color, Color, Color) {
    if s == 0 {
        (v, c.1, c.2)
    } else if s == 1 {
        (c.0, v, c.2)
    } else {
        (c.0, c.1, v)
    }
}

/// The color a facelet character denotes, `Hidden` if it denotes none.
pub open spec fn char_color(ch: char) -> Color {
    match facelets::color_of_char(ch) {
        Some(c) => c,
        None => Color::Hidden,
    }
}

/// The 27 pieces before any facelet is applied: each at its home position,
/// all slots hidden.
pub open spec fn initial_pieces() -> Seq<Piece> {
    Seq::new(
        27,
        |i: int|
            Piece {
                position: facelets::position_of_index(i),
                color: (Color::Hidden, Color::Hidden, Color::Hidden),
            },
    )
}

/// Applying facelet `k` of string `s`: the piece the facelet map points at
/// gets the face's slot set to the character's color.
pub open spec fn write_facelet(ps: Seq<Piece>, s: Seq<char>, k: int) -> Seq<Piece> {
    let c = facelets::facelet_cubelet(k);
    let p = ps[c];
    ps.update(
        c,
        Piece {
            position: p.position,
            color: set_slot(p.color, facelets::slot_of_face(k / 9), char_color(s[k])),
        },
    )
}

/// The pieces after the first `k` facelets of `s` have been applied.
pub open spec fn built_pieces(s: Seq<char>, k: int) -> Seq<Piece>
    decreases k,
{
    if k <= 0 {
        initial_pieces()
    } else {
        write_facelet(built_pieces(s, k - 1), s, k - 1)
    }
}

/// The discrete cube state a facelet string denotes.
pub open spec fn pieces_from_facelets(s: Seq<char>) -> Seq<Piece> {
    built_pieces(s, 54)
}

/// A facelet string is valid when it has at least 54 characters and the
/// first 54 all belong to the color alphabet.
pub open spec fn valid_facelets(s: Seq<char>) -> bool {
    &&& s.len() >= 54
    &&& forall|k: int| 0 <= k < 54 ==> (#[trigger] facelets::color_of_char(s[k])) is Some
}

/// The error construction reports for `s`, scanning facelets in order from
/// `k`: a missing character is `InvalidLength`, a character outside the
/// alphabet `InvalidColorChar`.
pub open spec fn facelet_scan_error(s: Seq<char>, k: int) -> Option<CubeError>
    decreases 54 - k,
{
    if k < 0 || k >= 54 {
        None
    } else if k >= s.len() {
        Some(CubeError::InvalidLength)
    } else if facelets::color_of_char(s[k]) is None {
        Some(CubeError::InvalidColorChar(s[k]))
    } else {
        facelet_scan_error(s, k + 1)
    }
}

/// Scanning from 0 equals scanning from `k` while the prefix is clean.
proof fn lemma_scan_error_skip(s: Seq<char>, k: int)
    requires
        0 <= k <= 54,
        forall|j: int| 0 <= j < k ==> j < s.len() && (#[trigger] facelets::color_of_char(s[j])) is Some,
    ensures
        facelet_scan_error(s, 0) == facelet_scan_error(s, k),
    decreases k,
{
    if k > 0 {
        lemma_scan_error_skip(s, k - 1);
    }
}

/// What the first `k` facelet writes leave behind: positions are untouched,
/// each written slot holds its facelet's color, everything else is hidden.
pub proof fn lemma_built_pieces_model(s: Seq<char>, k: int)
    requires
        0 <= k <= 54,
    ensures
        built_pieces(s, k).len() == 27,
        forall|i: int|
            0 <= i < 27 ==> (#[trigger] built_pieces(s, k)[i]).position
                == facelets::position_of_index(i),
        forall|i: int, sl: int|
            0 <= i < 27 && 0 <= sl < 3 ==> #[trigger] slot_color(built_pieces(s, k)[i].color, sl)
                == (if facelets::exterior_slot(i, sl) && facelets::facelet_for(i, sl) < k {
                char_color(s[facelets::facelet_for(i, sl)])
            } else {
                Color::Hidden
            }),
    decreases k,
{
    facelets::lemma_facelet_targets();
    facelets::lemma_facelet_unique();
    facelets::lemma_facelet_coverage();
    if k > 0 {
        lemma_built_pieces_model(s, k - 1);
        let prev = built_pieces(s, k - 1);
        let ps = built_pieces(s, k);
        let c = facelets::facelet_cubelet(k - 1);
        let sl0 = facelets::slot_of_face((k - 1) / 9);
        assert(ps == write_facelet(prev, s, k - 1));
        assert(facelets::facelet_for(c, sl0) == k - 1);
        assert forall|i: int, sl: int| 0 <= i < 27 && 0 <= sl < 3 implies #[trigger] slot_color(
            ps[i].color,
            sl,
        ) == (if facelets::exterior_slot(i, sl) && facelets::facelet_for(i, sl) < k {
            char_color(s[facelets::facelet_for(i, sl)])
        } else {
            Color::Hidden
        }) by {
            assert(slot_color(prev[i].color, sl) == (if facelets::exterior_slot(i, sl)
                && facelets::facelet_for(i, sl) < k - 1 {
                char_color(s[facelets::facelet_for(i, sl)])
            } else {
                Color::Hidden
            }));
            if i == c && sl == sl0 {
                assert(ps[i].color == set_slot(prev[i].color, sl0, char_color(s[k - 1])));
            } else {
                if i == c {
                    assert(ps[i].color == set_slot(prev[i].color, sl0, char_color(s[k - 1])));
                    assert(slot_color(ps[i].color, sl) == slot_color(prev[i].color, sl));
                } else {
                    assert(ps[i] == prev[i]);
                }
                if facelets::exterior_slot(i, sl) && facelets::facelet_for(i, sl) == k - 1 {
                    assert(facelets::facelet_cubelet(facelets::facelet_for(i, sl)) == i);
                    assert(facelets::slot_of_face(facelets::facelet_for(i, sl) / 9) == sl);
                    assert(false);
                }
            }
        }
        assert forall|i: int| 0 <= i < 27 implies (#[trigger] ps[i]).position
            == facelets::position_of_index(i) by {
            if i == c {
                assert(ps[i].position == prev[i].position);
            } else {
                assert(ps[i] == prev[i]);
            }
        }
    }
}

/// A piece list covers the lattice position `v`.
pub open spec fn occupied(ps: Seq<Piece>, v: (i32, i32, i32)) -> bool {
    exists|i: int| 0 <= i < ps.len() && (#[trigger] ps[i]).position == v
}

/// The cube's central invariant: 27 well-formed pieces whose positions
/// cover the lattice exactly — no duplicates, no gaps.
pub open spec fn pieces_wf(ps: Seq<Piece>) -> bool {
    &&& ps.len() == 27
    &&& forall|i: int| 0 <= i < 27 ==> piece::piece_wf(#[trigger] ps[i])
    &&& forall|i: int, j: int|
        0 <= i < 27 && 0 <= j < 27 && i != j ==> (#[trigger] ps[i]).position != (
        #[trigger] ps[j]).position
    &&& forall|c: int| 0 <= c < 27 ==> occupied(ps, #[trigger] facelets::position_of_index(c))
}

/// A valid facelet string constructs a well-formed piece list.
pub proof fn lemma_pieces_from_facelets_wf(s: Seq<char>)
    requires
        valid_facelets(s),
    ensures
        pieces_wf(pieces_from_facelets(s)),
{
    lemma_built_pieces_model(s, 54);
    facelets::lemma_index_position_roundtrip();
    facelets::lemma_facelet_coverage();
    let ps = pieces_from_facelets(s);
    assert forall|i: int| 0 <= i < 27 implies piece::piece_wf(#[trigger] ps[i]) by {
        assert(slot_color(ps[i].color, 0) == ps[i].color.0);
        assert(slot_color(ps[i].color, 1) == ps[i].color.1);
        assert(slot_color(ps[i].color, 2) == ps[i].color.2);
    }
    assert forall|i: int, j: int|
        0 <= i < 27 && 0 <= j < 27 && i != j implies (#[trigger] ps[i]).position != (
    #[trigger] ps[j]).position by {
        assert(piece::cubelet_of(facelets::position_of_index(i)) == i);
        assert(piece::cubelet_of(facelets::position_of_index(j)) == j);
    }
    assert forall|c: int| 0 <= c < 27 implies occupied(ps, #[trigger] facelets::position_of_index(
        c,
    )) by {
        assert(0 <= c < ps.len() && ps[c].position == facelets::position_of_index(c));
    }
}

/// A token list holding one unparsable token parses to that token's error.
proof fn lemma_parse_single_err(cur: Seq<char>)
    requires
        parse_move(cur) is None,
    ensures
        parse_tokens(Seq::empty().push(cur)) == Err::<Seq<Move>, Seq<char>>(cur),
{
    let single = Seq::<Seq<char>>::empty().push(cur);
    assert(single.last() == cur);
    assert(single.drop_last() =~= Seq::<Seq<char>>::empty());
    assert(parse_tokens(single.drop_last()) == Ok::<Seq<Move>, Seq<char>>(Seq::empty()));
}

impl Move {
    /// The index of the face this move turns; see [`face_of`].
    pub fn face(&self) -> (f: usize)
        ensures
            f == face_of(*self),
            f < 6,
    {
        match self {
            Move::L | Move::LP | Move::L2 => 0,
            Move::U | Move::UP | Move::U2 => 1,
            Move::F | Move::FP | Move::F2 => 2,
            Move::D | Move::DP | Move::D2 => 3,
            Move::R | Move::RP | Move::R2 => 4,
            Move::B | Move::BP | Move::B2 => 5,
        }
    }

    /// Parse one token of standard notation, e.g. `R`, `R'` or `R2`.
    pub fn from_str(input: &str) -> (r: Result<Move, CubeError>)
        ensures
            match r {
                Ok(mv) => parse_move(input@) == Some(mv),
                Err(e) => {
                    &&& parse_move(input@) is None
                    &&& e matches CubeError::InvalidMove(tok) && tok@ == input@
                },
            },
    {
        let n = input.unicode_len();
        if n == 1 {
            let c = input.get_char(0);
            if let Some(mv) = Self::letter_move(c, 0) {
                return Ok(mv);
            }
        } else if n == 2 {
            let c = input.get_char(0);
            let suffix = input.get_char(1);
            let kind: u8 = if suffix == '\'' {
                1
            } else if suffix == '2' {
                2
            } else {
                3
            };
            if kind != 3 {
                if let Some(mv) = Self::letter_move(c, kind) {
                    return Ok(mv);
                }
            }
        }
        Err(CubeError::InvalidMove(input.to_owned()))
    }

    /// Parse a whitespace-separated sequence of tokens in standard notation.
    /// Either every token is a move, or the first bad token is reported and
    /// nothing is returned: a failure anywhere aborts the whole sequence.
    pub fn from_sequence(input: &str) -> (r: Result<Vec<Move>, CubeError>)
        ensures
            match r {
                Ok(moves) => parse_tokens(tokens_of(input@)) == Ok::<Seq<Move>, Seq<char>>(moves@),
                Err(e) => e matches CubeError::InvalidMove(tok) && parse_tokens(tokens_of(input@))
                    == Err::<Seq<Move>, Seq<char>>(tok@),
            },
    {
        let n = input.unicode_len();
        let mut moves: Vec<Move> = Vec::new();
        let mut i: usize = 0;
        let mut inside = false;
        let mut start: usize = 0;
        let ghost mut acc: Seq<Seq<char>> = Seq::empty();
        while i < n
            invariant
                n == input@.len(),
                i <= n,
                inside ==> start < i,
                parse_tokens(acc) == Ok::<Seq<Move>, Seq<char>>(moves@),
                tokens_of(input@) == split_tokens(
                    input@,
                    i as int,
                    if inside {
                        input@.subrange(start as int, i as int)
                    } else {
                        Seq::empty()
                    },
                    acc,
                ),
            decreases n - i,
        {
            let c = input.get_char(i);
            if is_space_char(c) {
                if inside {
                    let ghost cur = input@.subrange(start as int, i as int);
                    let tok = input.substring_char(start, i);
                    match Self::from_str(tok) {
                        Ok(mv) => {
                            moves.push(mv);
                            proof {
                                assert(acc.push(cur).drop_last() =~= acc);
                                acc = acc.push(cur);
                            }
                            inside = false;
                        },
                        Err(e) => {
                            proof {
                                lemma_split_tokens_acc(input@, i as int, cur, acc);
                                lemma_split_tokens_acc(
                                    input@,
                                    i as int + 1,
                                    Seq::empty(),
                                    Seq::empty().push(cur),
                                );
                                let rest = split_tokens(
                                    input@,
                                    i as int + 1,
                                    Seq::empty(),
                                    Seq::empty(),
                                );
                                assert(tokens_of(input@) == acc + (Seq::empty().push(cur) + rest));
                                lemma_parse_tokens_append(acc, Seq::empty().push(cur) + rest);
                                lemma_parse_tokens_append(Seq::empty().push(cur), rest);
                                lemma_parse_single_err(cur);
                            }
                            return Err(e);
                        },
                    }
                }
            } else {
                if !inside {
                    inside = true;
                    start = i;
                    proof {
                        assert(Seq::empty().push(input@[i as int]) =~= input@.subrange(
                            i as int,
                            i as int + 1,
                        ));
                    }
                } else {
                    proof {
                        assert(input@.subrange(start as int, i as int).push(input@[i as int])
                            =~= input@.subrange(start as int, i as int + 1));
                    }
                }
            }
            i = i + 1;
        }
        if inside {
            let ghost cur = input@.subrange(start as int, n as int);
            let tok = input.substring_char(start, n);
            match Self::from_str(tok) {
                Ok(mv) => {
                    moves.push(mv);
                    proof {
                        assert(acc.push(cur).drop_last() =~= acc);
                        acc = acc.push(cur);
                    }
                    Ok(moves)
                },
                Err(e) => {
                    proof {
                        lemma_split_tokens_acc(input@, n as int, cur, acc);
                        assert(split_tokens(input@, n as int, cur, Seq::empty())
                            =~= Seq::empty().push(cur));
                        lemma_parse_tokens_append(acc, Seq::empty().push(cur));
                        lemma_parse_single_err(cur);
                    }
                    Err(e)
                },
            }
        } else {
            Ok(moves)
        }
    }

    /// Executable counterpart of [`move_token`].
    fn letter_move(c: char, kind: u8) -> (r: Option<Move>)
        requires
            kind <= 2,
        ensures
            r == move_token(c, kind as int),
    {
        let plain = kind == 0;
        let prime = kind == 1;
        match c {
            'L' => Some(
                if plain {
                    Move::L
                } else if prime {
                    Move::LP
                } else {
                    Move::L2
                },
            ),
            'R' => Some(
                if plain {
                    Move::R
                } else if prime {
                    Move::RP
                } else {
                    Move::R2
                },
            ),
            'U' => Some(
                if plain {
                    Move::U
                } else if prime {
                    Move::UP
                } else {
                    Move::U2
                },
            ),
            'D' => Some(
                if plain {
                    Move::D
                } else if prime {
                    Move::DP
                } else {
                    Move::D2
                },
            ),
            'F' => Some(
                if plain {
                    Move::F
                } else if prime {
                    Move::FP
                } else {
                    Move::F2
                },
            ),
            'B' => Some(
                if plain {
                    Move::B
                } else if prime {
                    Move::BP
                } else {
                    Move::B2
                },
            ),
            _ => None,
        }
    }
}

/// Animation timing for the cube; the time unit is the caller's, as long as
/// it matches the timestamps later passed to [`Cube::animate`].
#[derive(Clone, Copy, Debug)]
pub struct CubeAnimationOptions {
    /// How long one turn takes, in the caller's time unit.
    pub move_time: u64,
}

impl Default for CubeAnimationOptions {
    fn default() -> (d: CubeAnimationOptions)
        ensures
            d.move_time == 1200,
    {
        CubeAnimationOptions { move_time: 1200 }
    }
}

/// What one [`Cube::animate`] call did, so the embedding renderer knows
/// which transforms to draw.
#[derive(Clone, Copy, PartialEq, Eq, Structural, Debug)]
pub enum AnimationStep {
    /// No turn in flight and none pending.
    Idle,
    /// A turn was popped from the queue and starts at this frame.
    Started(Move),
    /// A turn is in flight; the second field is the time elapsed since it
    /// started, strictly less than the cube's move time.
    InProgress(Move, u64),
    /// The turn reached its full duration this frame and its permutation
    /// was applied to the discrete state.
    Completed(Move),
}

/// The cube: 27 pieces, a FIFO of pending turns, and the in-flight turn.
pub struct Cube {
    pieces: Vec<Piece>,
    current_move: Option<Move>,
    current_face: Option<Vec<usize>>,
    move_start: u64,
    move_queue: VecDeque<Move>,
    move_time: u64,
}

/// The cube's abstract state.
pub ghost struct CubeView {
    pub pieces: Seq<Piece>,
    pub current_move: Option<Move>,
    pub current_face: Option<Seq<usize>>,
    pub move_start: u64,
    pub move_queue: Seq<Move>,
    pub move_time: u64,
}

impl View for Cube {
    type V = CubeView;

    closed spec fn view(&self) -> CubeView {
        CubeView {
            pieces: self.pieces@,
            current_move: self.current_move,
            current_face: match self.current_face {
                Some(v) => Some(v@),
                None => None,
            },
            move_start: self.move_start,
            move_queue: self.move_queue@,
            move_time: self.move_time,
        }
    }
}

impl Cube {
    /// The cube's invariant: the lattice is covered exactly, and the cached
    /// face indices (if any) are in range.
    pub open spec fn wf(&self) -> bool {
        &&& pieces_wf(self@.pieces)
        &&& match self@.current_face {
            Some(ix) => forall|j: int| 0 <= j < ix.len() ==> (#[trigger] ix[j]) < 27,
            None => true,
        }
    }

    /// Build a cube from a 54-character facelet string; see the module doc
    /// of [`facelets`] for the facelet order. Pieces start at rest: no turn
    /// in flight, empty queue.
    pub fn from_facelet_str(fstr: &str, anim: CubeAnimationOptions) -> (r: Result<Cube, CubeError>)
        ensures
            match r {
                Ok(cube) => {
                    &&& facelet_scan_error(fstr@, 0) is None
                    &&& valid_facelets(fstr@)
                    &&& cube@.pieces == pieces_from_facelets(fstr@)
                    &&& cube@.current_move is None
                    &&& cube@.current_face is None
                    &&& cube@.move_queue == Seq::<Move>::empty()
                    &&& cube@.move_start == 0
                    &&& cube@.move_time == anim.move_time
                    &&& cube.wf()
                },
                Err(e) => facelet_scan_error(fstr@, 0) == Some(e),
            },
    {
        let ghost s = fstr@;
        let mut pieces: Vec<Piece> = Vec::new();
        let mut i: usize = 0;
        while i < 27
            invariant
                i <= 27,
                pieces@.len() == i,
                forall|j: int| 0 <= j < i ==> pieces@[j] == initial_pieces()[j],
            decreases 27 - i,
        {
            let x = (i / 9) as i32 - 1;
            let y = 1 - ((i / 3) % 3) as i32;
            let z = (i % 3) as i32 - 1;
            pieces.push(Piece::new((x, y, z), (Color::Hidden, Color::Hidden, Color::Hidden)));
            i = i + 1;
        }
        assert(pieces@ =~= initial_pieces());

        let len = fstr.unicode_len();
        let mut k: usize = 0;
        while k < 54
            invariant
                k <= 54,
                len == s.len(),
                s == fstr@,
                pieces@ == built_pieces(s, k as int),
                forall|j: int|
                    0 <= j < k ==> j < s.len() && (#[trigger] facelets::color_of_char(
                        s[j],
                    )) is Some,
            decreases 54 - k,
        {
            proof {
                lemma_built_pieces_model(s, k as int);
            }
            if k >= len {
                proof {
                    lemma_scan_error_skip(s, k as int);
                }
                return Err(CubeError::InvalidLength);
            }
            let ch = fstr.get_char(k);
            let col = match facelets::parse_color_char(ch) {
                Some(col) => col,
                None => {
                    proof {
                        lemma_scan_error_skip(s, k as int);
                    }
                    return Err(CubeError::InvalidColorChar(ch));
                },
            };
            let ci = facelets::facelet_piece(k);
            let p = pieces[ci];
            let f = k / 9;
            let newc = if f == 0 || f == 4 {
                (col, p.color.1, p.color.2)
            } else if f == 1 || f == 3 {
                (p.color.0, col, p.color.2)
            } else {
                (p.color.0, p.color.1, col)
            };
            pieces.set(ci, Piece { position: p.position, color: newc });
            proof {
                assert(pieces@ =~= built_pieces(s, k as int + 1));
            }
            k = k + 1;
        }
        proof {
            lemma_scan_error_skip(s, 54);
            lemma_pieces_from_facelets_wf(s);
        }
        Ok(
            Cube {
                pieces,
                current_move: None,
                current_face: None,
                move_start: 0,
                move_queue: VecDeque::new(),
                move_time: anim.move_time,
            },
        )
    }

    /// The canonical solved state: nine facelets of each color, face by face.
    pub fn solved(anim: CubeAnimationOptions) -> (cube: Cube)
        ensures
            valid_facelets(solved_facelets()),
            cube@.pieces == pieces_from_facelets(solved_facelets()),
            cube@.current_move is None,
            cube@.current_face is None,
            cube@.move_queue == Seq::<Move>::empty(),
            cube@.move_start == 0,
            cube@.move_time == anim.move_time,
            cube.wf(),
    {
        proof {
            reveal_strlit("BBBBBBBBBYYYYYYYYYRRRRRRRRRWWWWWWWWWGGGGGGGGGOOOOOOOOO");
            assert forall|k: int| 0 <= k < 54 implies (#[trigger] facelets::color_of_char(
                solved_facelets()[k],
            )) is Some by {
                let c = solved_facelets()[k];
                assert(c == 'B' || c == 'Y' || c == 'R' || c == 'W' || c == 'G' || c == 'O');
            }
        }
        match Cube::from_facelet_str(
            "BBBBBBBBBYYYYYYYYYRRRRRRRRRWWWWWWWWWGGGGGGGGGOOOOOOOOO",
            anim,
        ) {
            Ok(cube) => cube,
            Err(_) => {
                proof {
                    lemma_valid_scan_none(solved_facelets());
                }
                unreached()
            },
        }
    }

    /// Append moves to the pending queue, in order. Nothing else changes; an
    /// in-flight turn is never interrupted or reordered.
    pub fn queue(&mut self, moves: &[Move])
        ensures
            final(self)@.move_queue == old(self)@.move_queue + moves@,
            final(self)@.pieces == old(self)@.pieces,
            final(self)@.current_move == old(self)@.current_move,
            final(self)@.current_face == old(self)@.current_face,
            final(self)@.move_start == old(self)@.move_start,
            final(self)@.move_time == old(self)@.move_time,
            old(self).wf() ==> final(self).wf(),
    {
        let mut i: usize = 0;
        while i < moves.len()
            invariant
                i <= moves@.len(),
                self@.move_queue == old(self)@.move_queue + moves@.take(i as int),
                self@.pieces == old(self)@.pieces,
                self@.current_move == old(self)@.current_move,
                self@.current_face == old(self)@.current_face,
                self@.move_start == old(self)@.move_start,
                self@.move_time == old(self)@.move_time,
            decreases moves@.len() - i,
        {
            self.move_queue.push_back(moves[i]);
            proof {
                assert(old(self)@.move_queue + moves@.take(i as int + 1) =~= (old(
                    self,
                )@.move_queue + moves@.take(i as int)).push(moves@[i as int]));
            }
            i = i + 1;
        }
        proof {
            assert(moves@.take(moves@.len() as int) =~= moves@);
        }
    }
}

/// Whether a lattice position lies on face `f` (facelet face order).
pub open spec fn on_face(f: int, v: (i32, i32, i32)) -> bool {
    if f == 0 {
        v.0 == -1
    } else if f == 1 {
        v.1 == 1
    } else if f == 2 {
        v.2 == 1
    } else if f == 3 {
        v.1 == -1
    } else if f == 4 {
        v.0 == 1
    } else {
        v.2 == -1
    }
}

/// The axis whose coordinate singles out face `f`.
pub open spec fn axis_of_face(f: int) -> int {
    if f == 0 || f == 4 {
        0int
    } else if f == 1 || f == 3 {
        1int
    } else {
        2int
    }
}

/// One quarter turn of face `f` with matrix `m`: the nine pieces on the
/// face rotate, the rest stay put.
pub open spec fn rotate_face_spec(ps: Seq<Piece>, f: int, m: Mat3i) -> Seq<Piece> {
    Seq::new(
        ps.len(),
        |i: int|
            if on_face(f, ps[i].position) {
                piece::rotated_piece(ps[i], m)
            } else {
                ps[i]
            },
    )
}

/// The quarter-turn matrix a move applies (a half turn applies it twice).
pub open spec fn move_matrix(mv: Move) -> Mat3i {
    match mv {
        Move::L | Move::L2 => piece::spec_rot_x_cw(),
        Move::LP => piece::spec_rot_x_ccw(),
        Move::R | Move::R2 => piece::spec_rot_x_ccw(),
        Move::RP => piece::spec_rot_x_cw(),
        Move::U | Move::U2 => piece::spec_rot_y_cw(),
        Move::UP => piece::spec_rot_y_ccw(),
        Move::D | Move::D2 => piece::spec_rot_y_ccw(),
        Move::DP => piece::spec_rot_y_cw(),
        Move::F | Move::F2 => piece::spec_rot_z_cw(),
        Move::FP => piece::spec_rot_z_ccw(),
        Move::B | Move::B2 => piece::spec_rot_z_ccw(),
        Move::BP => piece::spec_rot_z_cw(),
    }
}

/// Whether a move is a 180-degree turn.
pub open spec fn is_half_turn(mv: Move) -> bool {
    mv == Move::L2 || mv == Move::R2 || mv == Move::U2 || mv == Move::D2 || mv == Move::F2 || mv
        == Move::B2
}

/// What a completed move does to the discrete state.
pub open spec fn apply_move_spec(ps: Seq<Piece>, mv: Move) -> Seq<Piece> {
    let once = rotate_face_spec(ps, face_of(mv), move_matrix(mv));
    if is_half_turn(mv) {
        rotate_face_spec(once, face_of(mv), move_matrix(mv))
    } else {
        once
    }
}

/// Every move pairs its face with a quarter turn about that face's axis.
pub proof fn lemma_move_matrix_facts(mv: Move)
    ensures
        piece::is_quarter_turn(move_matrix(mv)),
        piece::fixed_axis(move_matrix(mv)) == axis_of_face(face_of(mv)),
        0 <= face_of(mv) < 6,
{
}

/// A face turn preserves the cube's invariant: the nine rotated pieces land
/// exactly on the face's nine positions, so the lattice stays covered with
/// no duplicates. This is why the piece count and coverage hold after every
/// completed turn.
pub proof fn lemma_rotate_face_wf(ps: Seq<Piece>, f: int, m: Mat3i)
    requires
        pieces_wf(ps),
        0 <= f < 6,
        piece::is_quarter_turn(m),
        piece::fixed_axis(m) == axis_of_face(f),
    ensures
        pieces_wf(rotate_face_spec(ps, f, m)),
{
    let nps = rotate_face_spec(ps, f, m);
    facelets::lemma_index_position_roundtrip();
    assert forall|i: int| 0 <= i < 27 implies piece::piece_wf(#[trigger] nps[i]) by {
        if on_face(f, ps[i].position) {
            piece::lemma_rotate_preserves_piece_wf(ps[i], m);
        }
    }
    assert forall|i: int| 0 <= i < 27 implies (#[trigger] nps[i]).position == (if on_face(
        f,
        ps[i].position,
    ) {
        piece::mat_apply_pos(m, ps[i].position)
    } else {
        ps[i].position
    }) && (on_face(f, nps[i].position) <==> on_face(f, ps[i].position)) by {
        if on_face(f, ps[i].position) {
            piece::lemma_rotated_position(ps[i], m);
            piece::lemma_mat_pos_facts(m, ps[i].position);
        }
    }
    assert forall|i: int, j: int|
        0 <= i < 27 && 0 <= j < 27 && i != j implies (#[trigger] nps[i]).position != (
    #[trigger] nps[j]).position by {
        if on_face(f, ps[i].position) && on_face(f, ps[j].position) {
            if nps[i].position == nps[j].position {
                piece::lemma_mat_pos_facts(m, ps[i].position);
                piece::lemma_mat_pos_facts(m, ps[j].position);
                piece::lemma_rotation_injective(ps[i].position, ps[j].position, m);
            }
        }
    }
    assert forall|c: int| 0 <= c < 27 implies occupied(
        nps,
        #[trigger] facelets::position_of_index(c),
    ) by {
        let v = facelets::position_of_index(c);
        if on_face(f, v) {
            let u = piece::mat_apply_pos(piece::inverse_mat(m), v);
            piece::lemma_inverse_mat(m, v);
            piece::lemma_mat_pos_facts(piece::inverse_mat(m), v);
            assert(occupied(ps, facelets::position_of_index(piece::cubelet_of(u))));
            assert(facelets::position_of_index(piece::cubelet_of(u)) == u);
            let i = choose|i: int| 0 <= i < ps.len() && (#[trigger] ps[i]).position == u;
            assert(on_face(f, ps[i].position));
            assert(nps[i].position == v);
        } else {
            let i = choose|i: int| 0 <= i < ps.len() && (#[trigger] ps[i]).position == v;
            assert(nps[i].position == v);
        }
    }
}

/// A completed move preserves the cube's invariant: after every turn the 27
/// lattice positions are each occupied by exactly one piece.
pub proof fn lemma_apply_move_wf(ps: Seq<Piece>, mv: Move)
    requires
        pieces_wf(ps),
    ensures
        pieces_wf(apply_move_spec(ps, mv)),
{
    lemma_move_matrix_facts(mv);
    lemma_rotate_face_wf(ps, face_of(mv), move_matrix(mv));
    if is_half_turn(mv) {
        lemma_rotate_face_wf(
            rotate_face_spec(ps, face_of(mv), move_matrix(mv)),
            face_of(mv),
            move_matrix(mv),
        );
    }
}

/// What a whole sequence of completed moves does to the discrete state, in
/// order.
pub open spec fn apply_moves_spec(ps: Seq<Piece>, moves: Seq<Move>) -> Seq<Piece>
    decreases moves.len(),
{
    if moves.len() == 0 {
        ps
    } else {
        apply_move_spec(apply_moves_spec(ps, moves.drop_last()), moves.last())
    }
}

/// Coverage law: for any sequence of moves, the 27 lattice positions stay
/// exactly covered — no collisions, no gaps — and since every move preserves
/// the invariant, this holds after every single completed turn, not just at
/// the end.
pub proof fn lemma_moves_preserve_cover(ps: Seq<Piece>, moves: Seq<Move>)
    requires
        pieces_wf(ps),
    ensures
        pieces_wf(apply_moves_spec(ps, moves)),
    decreases moves.len(),
{
    if moves.len() > 0 {
        lemma_moves_preserve_cover(ps, moves.drop_last());
        lemma_apply_move_wf(apply_moves_spec(ps, moves.drop_last()), moves.last());
    }
}

/// The move that algebraically undoes a move: the opposite turn of the same
/// face; a half turn undoes itself.
pub open spec fn inverse_of(mv: Move) -> Move {
    match mv {
        Move::L => Move::LP,
        Move::LP => Move::L,
        Move::L2 => Move::L2,
        Move::R => Move::RP,
        Move::RP => Move::R,
        Move::R2 => Move::R2,
        Move::U => Move::UP,
        Move::UP => Move::U,
        Move::U2 => Move::U2,
        Move::D => Move::DP,
        Move::DP => Move::D,
        Move::D2 => Move::D2,
        Move::F => Move::FP,
        Move::FP => Move::F,
        Move::F2 => Move::F2,
        Move::B => Move::BP,
        Move::BP => Move::B,
        Move::B2 => Move::B2,
    }
}

/// A move's inverse turns the same face with the opposite matrix; a half
/// turn's inverse reuses its own matrix.
proof fn lemma_inverse_move_facts(mv: Move)
    ensures
        face_of(inverse_of(mv)) == face_of(mv),
        is_half_turn(inverse_of(mv)) == is_half_turn(mv),
        !is_half_turn(mv) ==> move_matrix(inverse_of(mv)) == piece::inverse_mat(move_matrix(mv)),
        is_half_turn(mv) ==> move_matrix(inverse_of(mv)) == move_matrix(mv),
{
}

/// Turning a face and then turning it back restores every piece.
proof fn lemma_rotate_face_inverse(ps: Seq<Piece>, f: int, m: Mat3i)
    requires
        0 <= f < 6,
        piece::is_quarter_turn(m),
        piece::fixed_axis(m) == axis_of_face(f),
        forall|i: int| 0 <= i < ps.len() ==> piece::in_lattice((#[trigger] ps[i]).position),
    ensures
        rotate_face_spec(rotate_face_spec(ps, f, m), f, piece::inverse_mat(m)) == ps,
{
    let nps = rotate_face_spec(ps, f, m);
    let nnps = rotate_face_spec(nps, f, piece::inverse_mat(m));
    assert forall|i: int| 0 <= i < ps.len() implies #[trigger] nnps[i] == ps[i] by {
        if on_face(f, ps[i].position) {
            piece::lemma_rotated_position(ps[i], m);
            piece::lemma_mat_pos_facts(m, ps[i].position);
            piece::lemma_rotated_piece_inverse(ps[i], m);
            assert(on_face(f, nps[i].position));
        } else {
            assert(nps[i] == ps[i]);
        }
    }
    assert(nnps =~= ps);
}

/// Turning a face four times with the same quarter turn restores every piece.
proof fn lemma_rotate_face_four(ps: Seq<Piece>, f: int, m: Mat3i)
    requires
        0 <= f < 6,
        piece::is_quarter_turn(m),
        piece::fixed_axis(m) == axis_of_face(f),
        forall|i: int| 0 <= i < ps.len() ==> piece::in_lattice((#[trigger] ps[i]).position),
    ensures
        rotate_face_spec(
            rotate_face_spec(rotate_face_spec(rotate_face_spec(ps, f, m), f, m), f, m),
            f,
            m,
        ) == ps,
{
    let ps1 = rotate_face_spec(ps, f, m);
    let ps2 = rotate_face_spec(ps1, f, m);
    let ps3 = rotate_face_spec(ps2, f, m);
    let ps4 = rotate_face_spec(ps3, f, m);
    assert forall|i: int| 0 <= i < ps.len() implies #[trigger] ps4[i] == ps[i] by {
        if on_face(f, ps[i].position) {
            let p1 = piece::rotated_piece(ps[i], m);
            let p2 = piece::rotated_piece(p1, m);
            let p3 = piece::rotated_piece(p2, m);
            piece::lemma_rotated_position(ps[i], m);
            piece::lemma_mat_pos_facts(m, ps[i].position);
            piece::lemma_rotated_position(p1, m);
            piece::lemma_mat_pos_facts(m, p1.position);
            piece::lemma_rotated_position(p2, m);
            piece::lemma_mat_pos_facts(m, p2.position);
            piece::lemma_rotated_piece_four(ps[i], m);
            assert(ps1[i] == p1 && on_face(f, p1.position));
            assert(ps2[i] == p2 && on_face(f, p2.position));
            assert(ps3[i] == p3 && on_face(f, p3.position));
        } else {
            assert(ps1[i] == ps[i]);
            assert(ps2[i] == ps[i]);
            assert(ps3[i] == ps[i]);
        }
    }
    assert(ps4 =~= ps);
}

/// Round-trip law of the rotation algebra: a move followed by its algebraic
/// inverse restores every piece's position and colors.
pub proof fn lemma_move_inverse_roundtrip(ps: Seq<Piece>, mv: Move)
    requires
        forall|i: int| 0 <= i < ps.len() ==> piece::in_lattice((#[trigger] ps[i]).position),
    ensures
        apply_move_spec(apply_move_spec(ps, mv), inverse_of(mv)) == ps,
{
    lemma_move_matrix_facts(mv);
    lemma_inverse_move_facts(mv);
    let f = face_of(mv);
    let m = move_matrix(mv);
    if !is_half_turn(mv) {
        lemma_rotate_face_inverse(ps, f, m);
    } else {
        lemma_rotate_face_four(ps, f, m);
    }
}

/// Order-four law: any single-face move applied four times restores every
/// piece.
pub proof fn lemma_move_four_times(ps: Seq<Piece>, mv: Move)
    requires
        forall|i: int| 0 <= i < ps.len() ==> piece::in_lattice((#[trigger] ps[i]).position),
    ensures
        apply_move_spec(apply_move_spec(apply_move_spec(apply_move_spec(ps, mv), mv), mv), mv)
            == ps,
{
    lemma_move_matrix_facts(mv);
    let f = face_of(mv);
    let m = move_matrix(mv);
    lemma_rotate_face_four(ps, f, m);
    if is_half_turn(mv) {
        let ps4 = rotate_face_spec(
            rotate_face_spec(rotate_face_spec(rotate_face_spec(ps, f, m), f, m), f, m),
            f,
            m,
        );
        assert(ps4 == ps);
        lemma_rotate_face_four(ps4, f, m);
    }
}

/// Whether the piece's current cubelet lies among face `f`'s facelets.
fn piece_on_face(p: &Piece, f: usize) -> (r: bool)
    requires
        piece::in_lattice(p.position),
        f < 6,
    ensures
        r == on_face(f as int, p.position),
{
    let c = p.cubelet();
    if f == 0 {
        c / 9 == 0
    } else if f == 1 {
        (c / 3) % 3 == 0
    } else if f == 2 {
        c % 3 == 2
    } else if f == 3 {
        (c / 3) % 3 == 2
    } else if f == 4 {
        c / 9 == 2
    } else {
        c % 3 == 0
    }
}

impl Piece {
    /// The sticker color this piece shows toward face `f`: the slot on that
    /// face's axis when the piece lies on the face, hidden otherwise. This
    /// is what a renderer paints each side of the piece with.
    pub fn face_color(&self, f: usize) -> (c: Color)
        requires
            piece::in_lattice(self.position),
            f < 6,
        ensures
            c == (if on_face(f as int, self.position) {
                slot_color(self.color, axis_of_face(f as int))
            } else {
                Color::Hidden
            }),
    {
        if !piece_on_face(self, f) {
            return Color::Hidden;
        }
        if f == 0 || f == 4 {
            self.color.0
        } else if f == 1 || f == 3 {
            self.color.1
        } else {
            self.color.2
        }
    }
}

/// Executable counterpart of [`move_matrix`].
fn move_rotation(mv: Move) -> (m: Mat3i)
    ensures
        m == move_matrix(mv),
{
    match mv {
        Move::L | Move::L2 => piece::rot_x_cw(),
        Move::LP => piece::rot_x_ccw(),
        Move::R | Move::R2 => piece::rot_x_ccw(),
        Move::RP => piece::rot_x_cw(),
        Move::U | Move::U2 => piece::rot_y_cw(),
        Move::UP => piece::rot_y_ccw(),
        Move::D | Move::D2 => piece::rot_y_ccw(),
        Move::DP => piece::rot_y_cw(),
        Move::F | Move::F2 => piece::rot_z_cw(),
        Move::FP => piece::rot_z_ccw(),
        Move::B | Move::B2 => piece::rot_z_ccw(),
        Move::BP => piece::rot_z_cw(),
    }
}

impl Cube {
    /// Rotate every piece currently on face `f` by `mat`.
    fn rotate_face(&mut self, face: usize, mat: Mat3i)
        requires
            pieces_wf(old(self)@.pieces),
            face < 6,
            piece::is_quarter_turn(mat),
        ensures
            final(self)@.pieces == rotate_face_spec(old(self)@.pieces, face as int, mat),
            final(self)@.current_move == old(self)@.current_move,
            final(self)@.current_face == old(self)@.current_face,
            final(self)@.move_start == old(self)@.move_start,
            final(self)@.move_queue == old(self)@.move_queue,
            final(self)@.move_time == old(self)@.move_time,
    {
        let ghost orig = self@.pieces;
        let mut i: usize = 0;
        while i < 27
            invariant
                i <= 27,
                pieces_wf(orig),
                piece::is_quarter_turn(mat),
                face < 6,
                self.pieces@.len() == 27,
                forall|j: int| i <= j < 27 ==> self.pieces@[j] == orig[j],
                forall|j: int|
                    0 <= j < i ==> self.pieces@[j] == (if on_face(face as int, orig[j].position) {
                        piece::rotated_piece(#[trigger] orig[j], mat)
                    } else {
                        orig[j]
                    }),
                self.current_move == old(self).current_move,
                self.current_face == old(self).current_face,
                self.move_start == old(self).move_start,
                self.move_queue == old(self).move_queue,
                self.move_time == old(self).move_time,
                orig == old(self)@.pieces,
            decreases 27 - i,
        {
            let p = self.pieces[i];
            proof {
                assert(p == orig[i as int]);
                assert(piece::piece_wf(orig[i as int]));
            }
            if piece_on_face(&p, face) {
                let mut q = p;
                let _ = q.rotate(mat);
                self.pieces.set(i, q);
            }
            i = i + 1;
        }
        proof {
            assert(self.pieces@ =~= rotate_face_spec(orig, face as int, mat));
        }
    }

    /// Apply a completed move's permutation to the discrete state; a half
    /// turn is two quarter turns of the same face.
    fn apply_move(&mut self, mv: Move)
        requires
            pieces_wf(old(self)@.pieces),
        ensures
            final(self)@.pieces == apply_move_spec(old(self)@.pieces, mv),
            pieces_wf(final(self)@.pieces),
            final(self)@.current_move == old(self)@.current_move,
            final(self)@.current_face == old(self)@.current_face,
            final(self)@.move_start == old(self)@.move_start,
            final(self)@.move_queue == old(self)@.move_queue,
            final(self)@.move_time == old(self)@.move_time,
    {
        proof {
            lemma_move_matrix_facts(mv);
            lemma_apply_move_wf(old(self)@.pieces, mv);
            lemma_rotate_face_wf(old(self)@.pieces, face_of(mv), move_matrix(mv));
        }
        let f = mv.face();
        let m = move_rotation(mv);
        self.rotate_face(f, m);
        if matches!(mv, Move::L2 | Move::R2 | Move::U2 | Move::D2 | Move::F2 | Move::B2) {
            self.rotate_face(f, m);
        }
    }
}

/// `ix` lists exactly the indices of the pieces currently on face `f`, in
/// ascending order.
pub open spec fn face_indices(ix: Seq<usize>, ps: Seq<Piece>, f: int) -> bool {
    &&& forall|j: int|
        0 <= j < ix.len() ==> (#[trigger] ix[j]) < 27 && on_face(f, ps[ix[j] as int].position)
    &&& forall|i: int| 0 <= i < 27 && on_face(f, (#[trigger] ps[i]).position) ==> ix.contains(i as usize)
    &&& forall|j1: int, j2: int| 0 <= j1 < j2 < ix.len() ==> ix[j1] < ix[j2]
}

impl Cube {
    /// The indices of the pieces currently on face `f`, resolved from their
    /// current positions, not their original facelet identities.
    fn face(&self, f: usize) -> (ix: Vec<usize>)
        requires
            pieces_wf(self@.pieces),
            f < 6,
        ensures
            face_indices(ix@, self@.pieces, f as int),
    {
        let ghost ps = self@.pieces;
        let mut ix: Vec<usize> = Vec::new();
        let mut i: usize = 0;
        while i < 27
            invariant
                i <= 27,
                pieces_wf(ps),
                ps == self@.pieces,
                f < 6,
                forall|j: int|
                    0 <= j < ix@.len() ==> (#[trigger] ix@[j]) < i && on_face(
                        f as int,
                        ps[ix@[j] as int].position,
                    ),
                forall|i2: int|
                    0 <= i2 < i && on_face(f as int, (#[trigger] ps[i2]).position) ==> ix@.contains(
                        i2 as usize,
                    ),
                forall|j1: int, j2: int| 0 <= j1 < j2 < ix@.len() ==> ix@[j1] < ix@[j2],
            decreases 27 - i,
        {
            let p = self.pieces[i];
            proof {
                assert(p == ps[i as int]);
                assert(piece::piece_wf(ps[i as int]));
            }
            if piece_on_face(&p, f) {
                let ghost old_ix = ix@;
                ix.push(i);
                proof {
                    assert forall|i2: int|
                        0 <= i2 < i + 1 && on_face(
                            f as int,
                            (#[trigger] ps[i2]).position,
                        ) implies ix@.contains(i2 as usize) by {
                        if i2 < i {
                            assert(old_ix.contains(i2 as usize));
                            let j = choose|j: int| 0 <= j < old_ix.len() && old_ix[j] == i2 as usize;
                            assert(ix@[j] == i2 as usize);
                        } else {
                            assert(ix@[old_ix.len() as int] == i as usize);
                        }
                    }
                }
            }
            i = i + 1;
        }
        ix
    }

    /// Advance the animation state machine to `time`.
    ///
    /// If a turn is in flight and has run for at least the cube's move time,
    /// its permutation is applied to the discrete state — exactly once,
    /// atomically with this call — and the machine goes idle. If it is still
    /// short of that, nothing discrete changes and the elapsed time is
    /// reported for the renderer to ease. If nothing is in flight, the next
    /// queued turn (if any) starts at `time`. Turns are applied strictly in
    /// queue order, one at a time; `time` must not precede the in-flight
    /// turn's start (timestamps come from one monotone frame clock).
    pub fn animate(&mut self, time: u64) -> (step: AnimationStep)
        requires
            old(self).wf(),
            time >= old(self)@.move_start,
        ensures
            final(self).wf(),
            final(self)@.move_time == old(self)@.move_time,
            match old(self)@.current_move {
                Some(mv) => {
                    if time - old(self)@.move_start >= old(self)@.move_time {
                        &&& step == AnimationStep::Completed(mv)
                        &&& final(self)@.pieces == apply_move_spec(old(self)@.pieces, mv)
                        &&& final(self)@.current_move is None
                        &&& final(self)@.current_face == old(self)@.current_face
                        &&& final(self)@.move_queue == old(self)@.move_queue
                        &&& final(self)@.move_start == old(self)@.move_start
                    } else {
                        &&& step == AnimationStep::InProgress(
                            mv,
                            (time - old(self)@.move_start) as u64,
                        )
                        &&& final(self)@ == old(self)@
                    }
                },
                None => {
                    if old(self)@.move_queue.len() > 0 {
                        &&& step == AnimationStep::Started(old(self)@.move_queue[0])
                        &&& final(self)@.current_move == Some(old(self)@.move_queue[0])
                        &&& final(self)@.move_queue == old(self)@.move_queue.drop_first()
                        &&& final(self)@.move_start == time
                        &&& final(self)@.pieces == old(self)@.pieces
                        &&& final(self)@.current_face matches Some(ix) && face_indices(
                            ix,
                            final(self)@.pieces,
                            face_of(old(self)@.move_queue[0]),
                        )
                    } else {
                        &&& step == AnimationStep::Idle
                        &&& final(self)@ == old(self)@
                    }
                },
            },
    {
        match self.current_move {
            Some(mv) => {
                let elapsed = time - self.move_start;
                if elapsed >= self.move_time {
                    self.apply_move(mv);
                    self.current_move = None;
                    AnimationStep::Completed(mv)
                } else {
                    AnimationStep::InProgress(mv, elapsed)
                }
            },
            None => {
                match self.move_queue.pop_front() {
                    Some(nmv) => {
                        let ix = self.face(nmv.face());
                        self.current_move = Some(nmv);
                        self.current_face = Some(ix);
                        self.move_start = time;
                        AnimationStep::Started(nmv)
                    },
                    None => AnimationStep::Idle,
                }
            },
        }
    }

    /// The turn in flight, if any.
    pub fn current_move(&self) -> (r: Option<Move>)
        ensures
            r == self@.current_move,
    {
        self.current_move
    }

    /// The indices of the pieces the in-flight (or last started) turn moves.
    pub fn current_face(&self) -> (r: Option<&Vec<usize>>)
        ensures
            match r {
                Some(ix) => self@.current_face == Some(ix@),
                None => self@.current_face is None,
            },
    {
        self.current_face.as_ref()
    }

    /// When the in-flight turn started.
    pub fn move_start(&self) -> (r: u64)
        ensures
            r == self@.move_start,
    {
        self.move_start
    }

    /// How long one turn takes.
    pub fn move_time(&self) -> (r: u64)
        ensures
            r == self@.move_time,
    {
        self.move_time
    }

    /// How many turns are queued behind the in-flight one.
    pub fn queue_len(&self) -> (r: usize)
        ensures
            r == self@.move_queue.len(),
    {
        self.move_queue.len()
    }

    /// One of the 27 pieces.
    pub fn piece(&self, i: usize) -> (p: &Piece)
        requires
            i < self@.pieces.len(),
        ensures
            *p == self@.pieces[i as int],
    {
        &self.pieces[i]
    }
}

/// The index of the piece currently sitting at flat lattice index `c`.
/// Well defined whenever the lattice is covered without duplicates.
pub open spec fn piece_index_at(ps: Seq<Piece>, c: int) -> int {
    choose|i: int|
        0 <= i < ps.len() && (#[trigger] ps[i]).position == facelets::position_of_index(c)
}

/// The facelet string a piece list currently shows: for each facelet, the
/// color the piece sitting at that facelet's lattice position carries in
/// the facelet's slot.
pub open spec fn facelet_string_of(ps: Seq<Piece>) -> Seq<char> {
    Seq::new(
        54,
        |k: int|
            facelets::char_of_color(
                slot_color(
                    ps[piece_index_at(ps, facelets::facelet_cubelet(k))].color,
                    facelets::slot_of_face(k / 9),
                ),
            ),
    )
}

impl Cube {
    /// The index of the piece currently at flat lattice index `c`.
    fn piece_at_cubelet(&self, c: usize) -> (i: usize)
        requires
            pieces_wf(self@.pieces),
            c < 27,
        ensures
            i < 27,
            self@.pieces[i as int].position == facelets::position_of_index(c as int),
            i == piece_index_at(self@.pieces, c as int),
    {
        let ghost ps = self@.pieces;
        let x = (c / 9) as i32 - 1;
        let y = 1 - ((c / 3) % 3) as i32;
        let z = (c % 3) as i32 - 1;
        let mut i: usize = 0;
        while i < 27
            invariant
                i <= 27,
                pieces_wf(ps),
                ps == self@.pieces,
                c < 27,
                (x, y, z) == facelets::position_of_index(c as int),
                forall|j: int|
                    0 <= j < i ==> (#[trigger] ps[j]).position != facelets::position_of_index(
                        c as int,
                    ),
            decreases 27 - i,
        {
            let p = self.pieces[i];
            if p.position.0 == x && p.position.1 == y && p.position.2 == z {
                proof {
                    let w = piece_index_at(ps, c as int);
                    assert(0 <= w < ps.len() && ps[w].position == facelets::position_of_index(
                        c as int,
                    ));
                }
                return i;
            }
            i = i + 1;
        }
        proof {
            assert(occupied(ps, facelets::position_of_index(c as int)));
            assert(false);
        }
        unreached()
    }

    /// Read the cube's current state back as a facelet string: the inverse
    /// of [`Cube::from_facelet_str`] under the facelet map.
    pub fn to_facelet_str(&self) -> (r: String)
        requires
            pieces_wf(self@.pieces),
        ensures
            r@ == facelet_string_of(self@.pieces),
    {
        let ghost ps = self@.pieces;
        let mut out = String::new();
        let mut k: usize = 0;
        while k < 54
            invariant
                k <= 54,
                pieces_wf(ps),
                ps == self@.pieces,
                out@.len() == k,
                forall|j: int| 0 <= j < k ==> out@[j] == facelet_string_of(ps)[j],
            decreases 54 - k,
        {
            proof {
                facelets::lemma_facelet_targets();
                facelets::lemma_index_position_roundtrip();
            }
            let c = facelets::facelet_piece(k);
            let i = self.piece_at_cubelet(c);
            let p = self.pieces[i];
            let f = k / 9;
            let col = if f == 0 || f == 4 {
                p.color.0
            } else if f == 1 || f == 3 {
                p.color.1
            } else {
                p.color.2
            };
            proof {
                assert(piece::piece_wf(ps[i as int]));
                assert(facelets::exterior_slot(c as int, facelets::slot_of_face(k as int / 9)));
                assert(col == slot_color(ps[i as int].color, facelets::slot_of_face(k as int / 9)));
            }
            out.append(facelets::color_str(col));
            k = k + 1;
        }
        proof {
            assert(out@ =~= facelet_string_of(ps));
        }
        out
    }
}

/// The facelet string of the canonical solved cube.
pub open spec fn solved_facelets() -> Seq<char> {
    "BBBBBBBBBYYYYYYYYYRRRRRRRRRWWWWWWWWWGGGGGGGGGOOOOOOOOO"@
}

/// Round-trip law of construction: building a cube from any valid facelet
/// string and reading the facelets back under the facelet map reproduces
/// the string's first 54 characters.
pub proof fn lemma_construction_readback(s: Seq<char>)
    requires
        valid_facelets(s),
    ensures
        facelet_string_of(pieces_from_facelets(s)) == s.subrange(0, 54),
{
    lemma_built_pieces_model(s, 54);
    lemma_pieces_from_facelets_wf(s);
    facelets::lemma_facelet_targets();
    facelets::lemma_facelet_unique();
    facelets::lemma_index_position_roundtrip();
    let ps = pieces_from_facelets(s);
    assert forall|k: int| 0 <= k < 54 implies facelet_string_of(ps)[k] == s[k] by {
        let c = facelets::facelet_cubelet(k);
        assert(ps[c].position == facelets::position_of_index(c));
        let i = piece_index_at(ps, c);
        assert(0 <= i < 27 && ps[i].position == facelets::position_of_index(c));
        assert(piece::cubelet_of(facelets::position_of_index(i)) == i);
        assert(piece::cubelet_of(facelets::position_of_index(c)) == c);
        assert(i == c);
        let sl = facelets::slot_of_face(k / 9);
        assert(slot_color(ps[c].color, sl) == char_color(s[facelets::facelet_for(c, sl)]));
        assert(facelets::facelet_for(c, sl) == k);
        assert(facelets::color_of_char(s[k]) is Some);
    }
    assert(facelet_string_of(ps) =~= s.subrange(0, 54));
}

/// The colors of the solved cube's pieces, read off the piece's position:
/// blue on the left, green on the right, yellow up, white down, red front,
/// orange back, hidden inside.
pub open spec fn solved_piece_color(i: int) -> (Color, Color, Color) {
    let p = facelets::position_of_index(i);
    (
        if p.0 == -1 {
            Color::Blue
        } else if p.0 == 1 {
            Color::Green
        } else {
            Color::Hidden
        },
        if p.1 == 1 {
            Color::Yellow
        } else if p.1 == -1 {
            Color::White
        } else {
            Color::Hidden
        },
        if p.2 == 1 {
            Color::Red
        } else if p.2 == -1 {
            Color::Orange
        } else {
            Color::Hidden
        },
    )
}

/// The canonical solved construction in closed form: every piece at its
/// home position, colored by which faces it touches.
pub proof fn lemma_solved_state()
    ensures
        pieces_from_facelets(solved_facelets()).len() == 27,
        forall|i: int|
            0 <= i < 27 ==> (#[trigger] pieces_from_facelets(solved_facelets())[i]).position
                == facelets::position_of_index(i),
        forall|i: int|
            0 <= i < 27 ==> (#[trigger] pieces_from_facelets(solved_facelets())[i]).color
                == solved_piece_color(i),
{
    reveal_strlit("BBBBBBBBBYYYYYYYYYRRRRRRRRRWWWWWWWWWGGGGGGGGGOOOOOOOOO");
    lemma_built_pieces_model(solved_facelets(), 54);
    facelets::lemma_facelet_coverage();
    let s = solved_facelets();
    let ps = pieces_from_facelets(s);
    assert forall|i: int| 0 <= i < 27 implies (#[trigger] ps[i]).color == solved_piece_color(
        i,
    ) by {
        assert(slot_color(ps[i].color, 0) == ps[i].color.0);
        assert(slot_color(ps[i].color, 1) == ps[i].color.1);
        assert(slot_color(ps[i].color, 2) == ps[i].color.2);
    }
}

/// How many slots of one piece carry a given color.
pub open spec fn piece_color_count(p: Piece, col: Color) -> int {
    (if p.color.0 == col {
        1int
    } else {
        0int
    }) + (if p.color.1 == col {
        1int
    } else {
        0int
    }) + (if p.color.2 == col {
        1int
    } else {
        0int
    })
}

/// How many slots of the first `n` pieces carry a given color.
pub open spec fn count_color_upto(ps: Seq<Piece>, col: Color, n: int) -> int
    decreases n,
{
    if n <= 0 {
        0
    } else {
        count_color_upto(ps, col, n - 1) + piece_color_count(ps[n - 1], col)
    }
}

/// Color-count law of the solved construction: each of the six colors shows
/// on exactly 9 slots. (Interior slots are all `Hidden`, so nothing else
/// carries a visible color.)
pub proof fn lemma_solved_color_count(col: Color)
    requires
        !(col is Hidden),
    ensures
        count_color_upto(pieces_from_facelets(solved_facelets()), col, 27) == 9,
{
    lemma_solved_state();
    let ps = pieces_from_facelets(solved_facelets());
    assert(count_color_upto(ps, col, 27) == 9) by {
        reveal_with_fuel(count_color_upto, 28);
    }
}

/// A string the scan finds no fault with is valid, and conversely.
proof fn lemma_valid_scan_none(s: Seq<char>)
    requires
        valid_facelets(s),
    ensures
        facelet_scan_error(s, 0) is None,
{
    lemma_scan_error_skip(s, 54);
}

} // verus!
