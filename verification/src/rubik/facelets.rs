//! The facelet map: how the 54 exterior stickers of the cube correspond to
//! the 27 pieces and their color slots.
//!
//! A facelet string lists the faces in the order L, U, F, D, R, B (indices
//! 0..6), each face as 9 characters in row-major order. Facelet `k` belongs
//! to face `k / 9` and fills one color slot of one piece: faces 0 and 4 (the
//! x faces) fill slot 0, faces 1 and 3 (the y faces) slot 1, faces 2 and 5
//! (the z faces) slot 2. `facelet_cubelet` gives the piece's flat lattice
//! index for each facelet; `facelet_for` is its inverse, from an exterior
//! (piece, slot) pair back to the facelet.

use vstd::prelude::*;

use super::Color;
use super::piece::cubelet_of;
use super::piece::in_lattice;

verus! {

/// The lattice position laid out at flat index `i`, 0..27: x major, then y
/// descending, then z. Inverse of [`cubelet_of`].
pub open spec fn position_of_index(i: int) -> (i32, i32, i32) {
    ((i / 9 - 1) as i32, (1 - (i / 3) % 3) as i32, (i % 3 - 1) as i32)
}

/// Which color slot the facelets of face `f` fill.
pub open spec fn slot_of_face(f: int) -> int {
    if f == 0 || f == 4 {
        0int
    } else if f == 1 || f == 3 {
        1int
    } else {
        2int
    }
}

/// The flat lattice index of the piece that facelet `k` colors.
pub open spec fn facelet_cubelet(k: int) -> int {
    let f = k / 9;
    let j = k % 9;
    if f == 0 {
        j
    } else if f == 1 {
        (j % 3) * 9 + j / 3
    } else if f == 2 {
        (j % 3) * 9 + (j / 3) * 3 + 2
    } else if f == 3 {
        (j % 3) * 9 + 6 + (2 - j / 3)
    } else if f == 4 {
        18 + (j / 3) * 3 + (2 - j % 3)
    } else {
        (2 - j % 3) * 9 + (j / 3) * 3
    }
}

/// Whether color slot `s` of the piece at flat index `i` faces outward.
pub open spec fn exterior_slot(i: int, s: int) -> bool {
    let p = position_of_index(i);
    if s == 0 {
        p.0 != 0
    } else if s == 1 {
        p.1 != 0
    } else {
        p.2 != 0
    }
}

/// The facelet that colors slot `s` of the piece at flat index `i`; the
/// inverse of [`facelet_cubelet`] paired with [`slot_of_face`]. Meaningful
/// only for exterior slots.
pub open spec fn facelet_for(i: int, s: int) -> int {
    let p = position_of_index(i);
    if s == 0 {
        if p.0 < 0 {
            i
        } else {
            36 + ((i - 18) / 3) * 3 + (2 - (i - 18) % 3)
        }
    } else if s == 1 {
        if p.1 > 0 {
            9 + 3 * (i % 3) + i / 9
        } else {
            27 + 6 - 3 * (i % 3) + i / 9
        }
    } else {
        if p.2 > 0 {
            18 + 3 * ((i / 3) % 3) + i / 9
        } else {
            45 + 3 * ((i / 3) % 3) + 2 - i / 9
        }
    }
}

/// The color a facelet character denotes, if any.
pub open spec fn color_of_char(c: char) -> Option<Color> {
    if c == 'B' {
        Some(Color::Blue)
    } else if c == 'Y' {
        Some(Color::Yellow)
    } else if c == 'R' {
        Some(Color::Red)
    } else if c == 'W' {
        Some(Color::White)
    } else if c == 'G' {
        Some(Color::Green)
    } else if c == 'O' {
        Some(Color::Orange)
    } else {
        None
    }
}

/// The facelet character for a visible color; inverse of [`color_of_char`].
pub open spec fn char_of_color(c: Color) -> char {
    match c {
        Color::Blue => 'B',
        Color::Yellow => 'Y',
        Color::Red => 'R',
        Color::White => 'W',
        Color::Green => 'G',
        Color::Orange => 'O',
        Color::Hidden => ' ',
    }
}

/// Executable counterpart of [`color_of_char`].
pub fn parse_color_char(c: char) -> (r: Option<Color>)
    ensures
        r == color_of_char(c),
{
    match c {
        'B' => Some(Color::Blue),
        'Y' => Some(Color::Yellow),
        'R' => Some(Color::Red),
        'W' => Some(Color::White),
        'G' => Some(Color::Green),
        'O' => Some(Color::Orange),
        _ => None,
    }
}

/// Executable counterpart of [`char_of_color`] for visible colors.
pub fn color_char(c: Color) -> (r: char)
    requires
        !(c is Hidden),
    ensures
        r == char_of_color(c),
{
    match c {
        Color::Blue => 'B',
        Color::Yellow => 'Y',
        Color::Red => 'R',
        Color::White => 'W',
        Color::Green => 'G',
        Color::Orange => 'O',
        Color::Hidden => ' ',
    }
}

/// The facelet character of a visible color, as a one-character string
/// slice for building facelet strings.
pub fn color_str(c: Color) -> (r: &'static str)
    requires
        !(c is Hidden),
    ensures
        r@ == seq![char_of_color(c)],
{
    match c {
        Color::Blue => {
            proof {
                reveal_strlit("B");
                assert("B"@ =~= seq![char_of_color(Color::Blue)]);
            }
            "B"
        },
        Color::Yellow => {
            proof {
                reveal_strlit("Y");
                assert("Y"@ =~= seq![char_of_color(Color::Yellow)]);
            }
            "Y"
        },
        Color::Red => {
            proof {
                reveal_strlit("R");
                assert("R"@ =~= seq![char_of_color(Color::Red)]);
            }
            "R"
        },
        Color::White => {
            proof {
                reveal_strlit("W");
                assert("W"@ =~= seq![char_of_color(Color::White)]);
            }
            "W"
        },
        Color::Green => {
            proof {
                reveal_strlit("G");
                assert("G"@ =~= seq![char_of_color(Color::Green)]);
            }
            "G"
        },
        Color::Orange => {
            proof {
                reveal_strlit("O");
                assert("O"@ =~= seq![char_of_color(Color::Orange)]);
            }
            "O"
        },
        Color::Hidden => {
            proof {
                assert(false);
            }
            unreached()
        },
    }
}

/// Executable counterpart of [`facelet_cubelet`].
pub fn facelet_piece(k: usize) -> (c: usize)
    requires
        k < 54,
    ensures
        c == facelet_cubelet(k as int),
        c < 27,
{
    let f = k / 9;
    let j = k % 9;
    if f == 0 {
        j
    } else if f == 1 {
        (j % 3) * 9 + j / 3
    } else if f == 2 {
        (j % 3) * 9 + (j / 3) * 3 + 2
    } else if f == 3 {
        (j % 3) * 9 + 6 + (2 - j / 3)
    } else if f == 4 {
        18 + (j / 3) * 3 + (2 - j % 3)
    } else {
        (2 - j % 3) * 9 + (j / 3) * 3
    }
}

/// Round trips between flat indices and lattice positions.
pub proof fn lemma_index_position_roundtrip()
    ensures
        forall|i: int|
            0 <= i < 27 ==> in_lattice(#[trigger] position_of_index(i)) && cubelet_of(
                position_of_index(i),
            ) == i,
        forall|v: (i32, i32, i32)|
            in_lattice(v) ==> 0 <= #[trigger] cubelet_of(v) < 27 && position_of_index(
                cubelet_of(v),
            ) == v,
{
}

/// Every facelet targets a piece index in range and an exterior slot.
pub proof fn lemma_facelet_targets()
    ensures
        forall|k: int|
            0 <= k < 54 ==> 0 <= #[trigger] facelet_cubelet(k) < 27 && exterior_slot(
                facelet_cubelet(k),
                slot_of_face(k / 9),
            ),
{
}

/// Each facelet is the unique one that colors its (piece, slot) pair.
pub proof fn lemma_facelet_unique()
    ensures
        forall|k: int|
            0 <= k < 54 ==> facelet_for(#[trigger] facelet_cubelet(k), slot_of_face(k / 9)) == k,
{
}

/// Every exterior (piece, slot) pair is colored by exactly one facelet.
pub proof fn lemma_facelet_coverage()
    ensures
        forall|i: int, s: int|
            0 <= i < 27 && 0 <= s < 3 && exterior_slot(i, s) ==> {
                let k = #[trigger] facelet_for(i, s);
                &&& 0 <= k < 54
                &&& facelet_cubelet(k) == i
                &&& slot_of_face(k / 9) == s
            },
{
}

} // verus!
