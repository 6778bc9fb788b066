//! A single puzzle piece and the integer rotation algebra applied to it.
//!
//! All position bookkeeping is exact integer lattice arithmetic: a quarter
//! turn is a 3x3 matrix with entries in {-1, 0, 1}, applied to positions in
//! {-1, 0, 1}^3. No floating point is involved, so repeated turns cannot
//! drift.

use vstd::prelude::*;

use super::Color;
use super::CubeError;

verus! {

/// A 3x3 integer matrix, row-major: `m * v` is the tuple of dot products of
/// the rows `(mi0, mi1, mi2)` with `v`.
#[derive(Clone, Copy, PartialEq, Eq, Structural, Debug)]
pub struct Mat3i {
    pub m00: i32,
    pub m01: i32,
    pub m02: i32,
    pub m10: i32,
    pub m11: i32,
    pub m12: i32,
    pub m20: i32,
    pub m21: i32,
    pub m22: i32,
}

/// Clockwise quarter turn about the x axis: (x, y, z) -> (x, -z, y).
pub open spec fn spec_rot_x_cw() -> Mat3i {
    Mat3i { m00: 1, m01: 0, m02: 0, m10: 0, m11: 0, m12: -1i32, m20: 0, m21: 1, m22: 0 }
}

/// Counter-clockwise quarter turn about the x axis: (x, y, z) -> (x, z, -y).
pub open spec fn spec_rot_x_ccw() -> Mat3i {
    Mat3i { m00: 1, m01: 0, m02: 0, m10: 0, m11: 0, m12: 1, m20: 0, m21: -1i32, m22: 0 }
}

/// Clockwise quarter turn about the y axis: (x, y, z) -> (-z, y, x).
pub open spec fn spec_rot_y_cw() -> Mat3i {
    Mat3i { m00: 0, m01: 0, m02: -1i32, m10: 0, m11: 1, m12: 0, m20: 1, m21: 0, m22: 0 }
}

/// Counter-clockwise quarter turn about the y axis: (x, y, z) -> (z, y, -x).
pub open spec fn spec_rot_y_ccw() -> Mat3i {
    Mat3i { m00: 0, m01: 0, m02: 1, m10: 0, m11: 1, m12: 0, m20: -1i32, m21: 0, m22: 0 }
}

/// Clockwise quarter turn about the z axis: (x, y, z) -> (y, -x, z).
pub open spec fn spec_rot_z_cw() -> Mat3i {
    Mat3i { m00: 0, m01: 1, m02: 0, m10: -1i32, m11: 0, m12: 0, m20: 0, m21: 0, m22: 1 }
}

/// Counter-clockwise quarter turn about the z axis: (x, y, z) -> (-y, x, z).
pub open spec fn spec_rot_z_ccw() -> Mat3i {
    Mat3i { m00: 0, m01: -1i32, m02: 0, m10: 1, m11: 0, m12: 0, m20: 0, m21: 0, m22: 1 }
}

/// Executable counterpart of [`spec_rot_x_cw`].
pub fn rot_x_cw() -> (m: Mat3i)
    ensures
        m == spec_rot_x_cw(),
{
    Mat3i { m00: 1, m01: 0, m02: 0, m10: 0, m11: 0, m12: -1, m20: 0, m21: 1, m22: 0 }
}

/// Executable counterpart of [`spec_rot_x_ccw`].
pub fn rot_x_ccw() -> (m: Mat3i)
    ensures
        m == spec_rot_x_ccw(),
{
    Mat3i { m00: 1, m01: 0, m02: 0, m10: 0, m11: 0, m12: 1, m20: 0, m21: -1, m22: 0 }
}

/// Executable counterpart of [`spec_rot_y_cw`].
pub fn rot_y_cw() -> (m: Mat3i)
    ensures
        m == spec_rot_y_cw(),
{
    Mat3i { m00: 0, m01: 0, m02: -1, m10: 0, m11: 1, m12: 0, m20: 1, m21: 0, m22: 0 }
}

/// Executable counterpart of [`spec_rot_y_ccw`].
pub fn rot_y_ccw() -> (m: Mat3i)
    ensures
        m == spec_rot_y_ccw(),
{
    Mat3i { m00: 0, m01: 0, m02: 1, m10: 0, m11: 1, m12: 0, m20: -1, m21: 0, m22: 0 }
}

/// Executable counterpart of [`spec_rot_z_cw`].
pub fn rot_z_cw() -> (m: Mat3i)
    ensures
        m == spec_rot_z_cw(),
{
    Mat3i { m00: 0, m01: 1, m02: 0, m10: -1, m11: 0, m12: 0, m20: 0, m21: 0, m22: 1 }
}

/// Executable counterpart of [`spec_rot_z_ccw`].
pub fn rot_z_ccw() -> (m: Mat3i)
    ensures
        m == spec_rot_z_ccw(),
{
    Mat3i { m00: 0, m01: -1, m02: 0, m10: 1, m11: 0, m12: 0, m20: 0, m21: 0, m22: 1 }
}

/// The six quarter-turn matrices are the only matrices the cube ever applies;
/// a 180-degree turn is two applications of the same quarter turn.
pub open spec fn is_quarter_turn(m: Mat3i) -> bool {
    ||| m == spec_rot_x_cw()
    ||| m == spec_rot_x_ccw()
    ||| m == spec_rot_y_cw()
    ||| m == spec_rot_y_ccw()
    ||| m == spec_rot_z_cw()
    ||| m == spec_rot_z_ccw()
}

/// The axis a quarter turn rotates about: that coordinate never changes.
pub open spec fn fixed_axis(m: Mat3i) -> int {
    if m == spec_rot_x_cw() || m == spec_rot_x_ccw() {
        0int
    } else if m == spec_rot_y_cw() || m == spec_rot_y_ccw() {
        1int
    } else {
        2int
    }
}

/// A position or delta vector as mathematical integers.
pub open spec fn to_int(v: (i32, i32, i32)) -> (int, int, int) {
    (v.0 as int, v.1 as int, v.2 as int)
}

/// `m * v` over the mathematical integers.
pub open spec fn mat_apply(m: Mat3i, v: (int, int, int)) -> (int, int, int) {
    (
        m.m00 * v.0 + m.m01 * v.1 + m.m02 * v.2,
        m.m10 * v.0 + m.m11 * v.1 + m.m12 * v.2,
        m.m20 * v.0 + m.m21 * v.1 + m.m22 * v.2,
    )
}

/// A lattice position: each coordinate is -1, 0 or 1.
pub open spec fn in_lattice(v: (i32, i32, i32)) -> bool {
    &&& -1 <= v.0 <= 1
    &&& -1 <= v.1 <= 1
    &&& -1 <= v.2 <= 1
}

/// The flat index of a lattice position, 0..27. This is the order pieces are
/// laid out in at construction: x major, then y descending, then z.
pub open spec fn cubelet_of(v: (i32, i32, i32)) -> int {
    (v.0 + 1) * 9 + (1 - v.1) * 3 + (v.2 + 1)
}

/// A turn about an axis exchanges the color slots of the other two axes.
pub open spec fn rotate_colors(c: (Color, Color, Color), axis: int) -> (Color, Color, Color) {
    if axis == 0 {
        (c.0, c.2, c.1)
    } else if axis == 1 {
        (c.2, c.1, c.0)
    } else {
        (c.1, c.0, c.2)
    }
}

/// How many components of a delta vector are zero.
pub open spec fn zero_axes(r: (int, int, int)) -> int {
    (if r.0 == 0 {
        1int
    } else {
        0int
    }) + (if r.1 == 0 {
        1int
    } else {
        0int
    }) + (if r.2 == 0 {
        1int
    } else {
        0int
    })
}

/// The single zero component of `r` sits on the turn's fixed axis.
pub open spec fn zero_axis_is_fixed(m: Mat3i, r: (int, int, int)) -> bool {
    &&& (r.0 == 0 <==> fixed_axis(m) == 0)
    &&& (r.1 == 0 <==> fixed_axis(m) == 1)
    &&& (r.2 == 0 <==> fixed_axis(m) == 2)
}

/// A single puzzle piece. There are 27 in a cube.
#[derive(Clone, Copy, PartialEq, Eq, Debug)]
pub struct Piece {
    /// Lattice position, each coordinate in {-1, 0, 1}.
    pub position: (i32, i32, i32),
    /// One color per positive-facing axis slot (+x, +y, +z). A slot whose
    /// axis coordinate is 0 faces the cube's interior and stays `Hidden`.
    pub color: (Color, Color, Color),
}

/// What one quarter turn does to a piece: a piece on the turn's axis keeps
/// its position and colors; any other piece moves to `m * position` and the
/// two color slots whose axes the turn mixes trade places.
pub open spec fn rotated_piece(p: Piece, m: Mat3i) -> Piece {
    let np = mat_apply(m, to_int(p.position));
    if np == to_int(p.position) {
        p
    } else {
        Piece {
            position: (np.0 as i32, np.1 as i32, np.2 as i32),
            color: rotate_colors(p.color, fixed_axis(m)),
        }
    }
}

/// A piece is well formed when it sits on the lattice and exactly its
/// exterior-facing slots carry a color.
pub open spec fn piece_wf(p: Piece) -> bool {
    &&& in_lattice(p.position)
    &&& (p.position.0 == 0 <==> p.color.0 is Hidden)
    &&& (p.position.1 == 0 <==> p.color.1 is Hidden)
    &&& (p.position.2 == 0 <==> p.color.2 is Hidden)
}

/// What multiplying by -1, 0 or 1 does; the one nonlinear fact used here.
proof fn lemma_unit_mul(a: int, x: int, b: int)
    requires
        -1 <= a <= 1,
        0 <= b,
        -b <= x <= b,
    ensures
        a == 0 ==> a * x == 0,
        a == 1 ==> a * x == x,
        a == -1 ==> a * x == -x,
        -b <= a * x <= b,
{
    assert((a == 0 ==> a * x == 0) && (a == 1 ==> a * x == x) && (a == -1 ==> a * x == -x) && -b
        <= a * x <= b) by (nonlinear_arith)
        requires
            -1 <= a <= 1,
            0 <= b,
            -b <= x <= b,
    ;
}

/// Rewrites every entry-times-component product of a quarter turn into its
/// linear value, so later proofs can reason about `mat_apply` case by case.
proof fn lemma_mat_products(m: Mat3i, v: (int, int, int), b: int)
    requires
        is_quarter_turn(m),
        0 <= b,
        -b <= v.0 <= b,
        -b <= v.1 <= b,
        -b <= v.2 <= b,
    ensures
        -b <= m.m00 * v.0 <= b && (m.m00 == 0 ==> m.m00 * v.0 == 0) && (m.m00 == 1 ==> m.m00 * v.0
            == v.0) && (m.m00 == -1 ==> m.m00 * v.0 == -v.0),
        -b <= m.m01 * v.1 <= b && (m.m01 == 0 ==> m.m01 * v.1 == 0) && (m.m01 == 1 ==> m.m01 * v.1
            == v.1) && (m.m01 == -1 ==> m.m01 * v.1 == -v.1),
        -b <= m.m02 * v.2 <= b && (m.m02 == 0 ==> m.m02 * v.2 == 0) && (m.m02 == 1 ==> m.m02 * v.2
            == v.2) && (m.m02 == -1 ==> m.m02 * v.2 == -v.2),
        -b <= m.m10 * v.0 <= b && (m.m10 == 0 ==> m.m10 * v.0 == 0) && (m.m10 == 1 ==> m.m10 * v.0
            == v.0) && (m.m10 == -1 ==> m.m10 * v.0 == -v.0),
        -b <= m.m11 * v.1 <= b && (m.m11 == 0 ==> m.m11 * v.1 == 0) && (m.m11 == 1 ==> m.m11 * v.1
            == v.1) && (m.m11 == -1 ==> m.m11 * v.1 == -v.1),
        -b <= m.m12 * v.2 <= b && (m.m12 == 0 ==> m.m12 * v.2 == 0) && (m.m12 == 1 ==> m.m12 * v.2
            == v.2) && (m.m12 == -1 ==> m.m12 * v.2 == -v.2),
        -b <= m.m20 * v.0 <= b && (m.m20 == 0 ==> m.m20 * v.0 == 0) && (m.m20 == 1 ==> m.m20 * v.0
            == v.0) && (m.m20 == -1 ==> m.m20 * v.0 == -v.0),
        -b <= m.m21 * v.1 <= b && (m.m21 == 0 ==> m.m21 * v.1 == 0) && (m.m21 == 1 ==> m.m21 * v.1
            == v.1) && (m.m21 == -1 ==> m.m21 * v.1 == -v.1),
        -b <= m.m22 * v.2 <= b && (m.m22 == 0 ==> m.m22 * v.2 == 0) && (m.m22 == 1 ==> m.m22 * v.2
            == v.2) && (m.m22 == -1 ==> m.m22 * v.2 == -v.2),
{
    lemma_unit_mul(m.m00 as int, v.0, b);
    lemma_unit_mul(m.m01 as int, v.1, b);
    lemma_unit_mul(m.m02 as int, v.2, b);
    lemma_unit_mul(m.m10 as int, v.0, b);
    lemma_unit_mul(m.m11 as int, v.1, b);
    lemma_unit_mul(m.m12 as int, v.2, b);
    lemma_unit_mul(m.m20 as int, v.0, b);
    lemma_unit_mul(m.m21 as int, v.1, b);
    lemma_unit_mul(m.m22 as int, v.2, b);
}

/// Each component of `m * v` stays within the bound on `v`'s components:
/// every row of a quarter turn has a single nonzero entry.
proof fn lemma_mat_apply_bounds(m: Mat3i, v: (int, int, int), b: int)
    requires
        is_quarter_turn(m),
        0 <= b,
        -b <= v.0 <= b,
        -b <= v.1 <= b,
        -b <= v.2 <= b,
    ensures
        -b <= m.m00 * v.0 <= b,
        -b <= m.m01 * v.1 <= b,
        -b <= m.m02 * v.2 <= b,
        -b <= m.m10 * v.0 <= b,
        -b <= m.m11 * v.1 <= b,
        -b <= m.m12 * v.2 <= b,
        -b <= m.m20 * v.0 <= b,
        -b <= m.m21 * v.1 <= b,
        -b <= m.m22 * v.2 <= b,
        -b <= mat_apply(m, v).0 <= b,
        -b <= mat_apply(m, v).1 <= b,
        -b <= mat_apply(m, v).2 <= b,
{
    lemma_mat_products(m, v, b);
    if m == spec_rot_x_cw() {
    } else if m == spec_rot_x_ccw() {
    } else if m == spec_rot_y_cw() {
    } else if m == spec_rot_y_ccw() {
    } else if m == spec_rot_z_cw() {
    } else {
        assert(m == spec_rot_z_ccw());
    }
}

/// The delta `m * v - v` of a quarter turn on the lattice: it vanishes on
/// the fixed axis, and when it vanishes on two axes the correction step
/// (adding `m * delta` back in) leaves it nonzero exactly off the fixed
/// axis. This is the fact the rotation algebra's color bookkeeping rests on.
proof fn lemma_rotation_delta(m: Mat3i, v: (i32, i32, i32))
    requires
        is_quarter_turn(m),
        in_lattice(v),
    ensures
        ({
            let np = mat_apply(m, to_int(v));
            let r = (np.0 - v.0, np.1 - v.1, np.2 - v.2);
            let c = mat_apply(m, r);
            let r2 = (r.0 + c.0, r.1 + c.1, r.2 + c.2);
            &&& -1 <= np.0 <= 1 && -1 <= np.1 <= 1 && -1 <= np.2 <= 1
            &&& zero_axes(r) >= 1
            &&& (zero_axes(r) == 3 <==> np == to_int(v))
            &&& (zero_axes(r) == 2 ==> zero_axes(r2) == 1 && zero_axis_is_fixed(m, r2))
            &&& (zero_axes(r) == 1 ==> zero_axis_is_fixed(m, r))
        }),
{
    let np = mat_apply(m, to_int(v));
    let r = (np.0 - v.0, np.1 - v.1, np.2 - v.2);
    lemma_mat_products(m, to_int(v), 1);
    lemma_mat_apply_bounds(m, to_int(v), 1);
    lemma_mat_products(m, r, 2);
    if m == spec_rot_x_cw() {
    } else if m == spec_rot_x_ccw() {
    } else if m == spec_rot_y_cw() {
    } else if m == spec_rot_y_ccw() {
    } else if m == spec_rot_z_cw() {
    } else {
        assert(m == spec_rot_z_ccw());
    }
}

impl Piece {
    pub fn new(position: (i32, i32, i32), color: (Color, Color, Color)) -> (p: Piece)
        ensures
            p.position == position,
            p.color == color,
    {
        Piece { position, color }
    }

    /// The piece's current flat lattice index, 0..27.
    pub fn cubelet(&self) -> (c: usize)
        requires
            in_lattice(self.position),
        ensures
            c == cubelet_of(self.position),
            c < 27,
    {
        let c: i32 = (self.position.0 + 1) * 9 + (1 - self.position.1) * 3 + (self.position.2 + 1);
        c as usize
    }

    /// Apply one quarter turn to the piece's discrete state.
    ///
    /// The matrix is applied to the position; the delta between old and new
    /// position identifies the two axes the turn changed, whose color slots
    /// are then exchanged. When the delta is zero on two axes (a piece that
    /// the matrix maps to a position differing on one axis only),
    /// re-applying the matrix to the delta and adding the result back in
    /// resolves the ambiguity to the correct pair of changed axes. Returns
    /// the (previous, new) position pair.
    pub fn rotate(&mut self, mat: Mat3i) -> (r: Result<
        ((i32, i32, i32), (i32, i32, i32)),
        CubeError,
    >)
        requires
            is_quarter_turn(mat),
            in_lattice(old(self).position),
        ensures
            *final(self) == rotated_piece(*old(self), mat),
            r matches Ok(pair) && pair.0 == old(self).position && pair.1 == final(self).position,
    {
        let prev = self.position;
        proof {
            lemma_mat_apply_bounds(mat, to_int(prev), 1);
            lemma_rotation_delta(mat, prev);
        }
        let nx = mat.m00 * prev.0 + mat.m01 * prev.1 + mat.m02 * prev.2;
        let ny = mat.m10 * prev.0 + mat.m11 * prev.1 + mat.m12 * prev.2;
        let nz = mat.m20 * prev.0 + mat.m21 * prev.1 + mat.m22 * prev.2;
        let mut rx = nx - prev.0;
        let mut ry = ny - prev.1;
        let mut rz = nz - prev.2;

        let unchanged = count_zero_axes(rx, ry, rz);
        if unchanged == 3 {
            return Ok((prev, (nx, ny, nz)));
        } else if unchanged == 2 {
            proof {
                lemma_mat_apply_bounds(mat, to_int((rx, ry, rz)), 2);
            }
            let cx = mat.m00 * rx + mat.m01 * ry + mat.m02 * rz;
            let cy = mat.m10 * rx + mat.m11 * ry + mat.m12 * rz;
            let cz = mat.m20 * rx + mat.m21 * ry + mat.m22 * rz;
            rx = rx + cx;
            ry = ry + cy;
            rz = rz + cz;
        }

        if count_zero_axes(rx, ry, rz) != 1 {
            return Err(CubeError::RotationInconsistency {
                position: prev,
                rotation: (rx, ry, rz),
            });
        }
        let c = self.color;
        if rx == 0 {
            self.color = (c.0, c.2, c.1);
        } else if ry == 0 {
            self.color = (c.2, c.1, c.0);
        } else {
            self.color = (c.1, c.0, c.2);
        }
        self.position = (nx, ny, nz);
        Ok((prev, (nx, ny, nz)))
    }
}

/// How many components of the delta vector are zero.
fn count_zero_axes(rx: i32, ry: i32, rz: i32) -> (n: u32)
    ensures
        n == zero_axes((rx as int, ry as int, rz as int)),
{
    let mut n: u32 = 0;
    if rx == 0 {
        n = n + 1;
    }
    if ry == 0 {
        n = n + 1;
    }
    if rz == 0 {
        n = n + 1;
    }
    n
}

/// `m * v` on the lattice, back in lattice coordinates.
pub open spec fn mat_apply_pos(m: Mat3i, v: (i32, i32, i32)) -> (i32, i32, i32) {
    let np = mat_apply(m, to_int(v));
    (np.0 as i32, np.1 as i32, np.2 as i32)
}

/// The quarter turn that undoes `m`: the opposite turn about the same axis.
pub open spec fn inverse_mat(m: Mat3i) -> Mat3i {
    if m == spec_rot_x_cw() {
        spec_rot_x_ccw()
    } else if m == spec_rot_x_ccw() {
        spec_rot_x_cw()
    } else if m == spec_rot_y_cw() {
        spec_rot_y_ccw()
    } else if m == spec_rot_y_ccw() {
        spec_rot_y_cw()
    } else if m == spec_rot_z_cw() {
        spec_rot_z_ccw()
    } else {
        spec_rot_z_cw()
    }
}

/// A quarter turn maps the lattice to the lattice and never moves the
/// coordinate on its own axis.
pub proof fn lemma_mat_pos_facts(m: Mat3i, v: (i32, i32, i32))
    requires
        is_quarter_turn(m),
        in_lattice(v),
    ensures
        in_lattice(mat_apply_pos(m, v)),
        to_int(mat_apply_pos(m, v)) == mat_apply(m, to_int(v)),
        fixed_axis(m) == 0 ==> mat_apply_pos(m, v).0 == v.0,
        fixed_axis(m) == 1 ==> mat_apply_pos(m, v).1 == v.1,
        fixed_axis(m) == 2 ==> mat_apply_pos(m, v).2 == v.2,
{
    lemma_mat_products(m, to_int(v), 1);
    lemma_mat_apply_bounds(m, to_int(v), 1);
    if m == spec_rot_x_cw() {
    } else if m == spec_rot_x_ccw() {
    } else if m == spec_rot_y_cw() {
    } else if m == spec_rot_y_ccw() {
    } else if m == spec_rot_z_cw() {
    } else {
        assert(m == spec_rot_z_ccw());
    }
}

/// The opposite turn about the same axis undoes a quarter turn, in both
/// orders.
pub proof fn lemma_inverse_mat(m: Mat3i, v: (i32, i32, i32))
    requires
        is_quarter_turn(m),
        in_lattice(v),
    ensures
        is_quarter_turn(inverse_mat(m)),
        fixed_axis(inverse_mat(m)) == fixed_axis(m),
        mat_apply_pos(m, mat_apply_pos(inverse_mat(m), v)) == v,
        mat_apply_pos(inverse_mat(m), mat_apply_pos(m, v)) == v,
{
    let im = inverse_mat(m);
    lemma_mat_pos_facts(m, v);
    lemma_mat_pos_facts(im, v);
    lemma_mat_pos_facts(im, mat_apply_pos(m, v));
    lemma_mat_pos_facts(m, mat_apply_pos(im, v));
    lemma_mat_products(m, to_int(v), 1);
    lemma_mat_products(im, to_int(v), 1);
    lemma_mat_products(m, to_int(mat_apply_pos(im, v)), 1);
    lemma_mat_products(im, to_int(mat_apply_pos(m, v)), 1);
    if m == spec_rot_x_cw() {
    } else if m == spec_rot_x_ccw() {
    } else if m == spec_rot_y_cw() {
    } else if m == spec_rot_y_ccw() {
    } else if m == spec_rot_z_cw() {
    } else {
        assert(m == spec_rot_z_ccw());
    }
}

/// Where a quarter turn puts a piece: always `m * position`, whether or not
/// the piece moved.
pub proof fn lemma_rotated_position(p: Piece, m: Mat3i)
    requires
        is_quarter_turn(m),
        in_lattice(p.position),
    ensures
        rotated_piece(p, m).position == mat_apply_pos(m, p.position),
        in_lattice(rotated_piece(p, m).position),
{
    lemma_mat_pos_facts(m, p.position);
}

/// The opposite quarter turn undoes what a quarter turn did to a piece,
/// position and colors alike.
pub proof fn lemma_rotated_piece_inverse(p: Piece, m: Mat3i)
    requires
        is_quarter_turn(m),
        in_lattice(p.position),
    ensures
        rotated_piece(rotated_piece(p, m), inverse_mat(m)) == p,
{
    let im = inverse_mat(m);
    let q = rotated_piece(p, m);
    lemma_inverse_mat(m, p.position);
    lemma_rotated_position(p, m);
    lemma_mat_pos_facts(m, p.position);
    lemma_mat_pos_facts(im, q.position);
    lemma_rotated_position(q, im);
    if mat_apply_pos(m, p.position) == p.position {
        assert(q == p);
        assert(mat_apply_pos(im, p.position) == p.position);
    } else {
        assert(q.position == mat_apply_pos(m, p.position));
        assert(mat_apply_pos(im, q.position) == p.position);
        assert(q.position != p.position);
        assert(rotated_piece(q, im).color == rotate_colors(
            rotate_colors(p.color, fixed_axis(m)),
            fixed_axis(im),
        ));
        assert(fixed_axis(im) == fixed_axis(m));
    }
}

/// Four equal quarter turns bring every lattice position back.
proof fn lemma_quad_apply(m: Mat3i, v: (i32, i32, i32))
    requires
        is_quarter_turn(m),
        in_lattice(v),
    ensures
        mat_apply_pos(m, mat_apply_pos(m, mat_apply_pos(m, mat_apply_pos(m, v)))) == v,
{
    let v1 = mat_apply_pos(m, v);
    let v2 = mat_apply_pos(m, v1);
    let v3 = mat_apply_pos(m, v2);
    lemma_mat_pos_facts(m, v);
    lemma_mat_pos_facts(m, v1);
    lemma_mat_pos_facts(m, v2);
    lemma_mat_pos_facts(m, v3);
    lemma_mat_products(m, to_int(v), 1);
    lemma_mat_products(m, to_int(v1), 1);
    lemma_mat_products(m, to_int(v2), 1);
    lemma_mat_products(m, to_int(v3), 1);
    if m == spec_rot_x_cw() {
    } else if m == spec_rot_x_ccw() {
    } else if m == spec_rot_y_cw() {
    } else if m == spec_rot_y_ccw() {
    } else if m == spec_rot_z_cw() {
    } else {
        assert(m == spec_rot_z_ccw());
    }
}

/// Four applications of the same quarter turn restore a piece exactly.
pub proof fn lemma_rotated_piece_four(p: Piece, m: Mat3i)
    requires
        is_quarter_turn(m),
        in_lattice(p.position),
    ensures
        rotated_piece(rotated_piece(rotated_piece(rotated_piece(p, m), m), m), m) == p,
{
    let p1 = rotated_piece(p, m);
    let p2 = rotated_piece(p1, m);
    let p3 = rotated_piece(p2, m);
    let p4 = rotated_piece(p3, m);
    lemma_rotated_position(p, m);
    lemma_rotated_position(p1, m);
    lemma_rotated_position(p2, m);
    lemma_rotated_position(p3, m);
    lemma_mat_pos_facts(m, p.position);
    lemma_mat_pos_facts(m, p1.position);
    lemma_mat_pos_facts(m, p2.position);
    lemma_mat_pos_facts(m, p3.position);
    lemma_quad_apply(m, p.position);
    if mat_apply_pos(m, p.position) == p.position {
        assert(p1 == p);
        assert(p2 == p);
        assert(p3 == p);
        assert(p4 == p);
    } else {
        // Every intermediate piece keeps moving: a quarter turn that fixed a
        // moved position would contradict injectivity. So the same two color
        // slots trade places four times, which is the identity.
        if mat_apply_pos(m, p1.position) == p1.position {
            lemma_rotation_injective(p1.position, p.position, m);
        }
        if mat_apply_pos(m, p2.position) == p2.position {
            lemma_rotation_injective(p2.position, p1.position, m);
        }
        if mat_apply_pos(m, p3.position) == p3.position {
            lemma_rotation_injective(p3.position, p2.position, m);
        }
    }
}

/// A quarter turn keeps positions on the lattice and never misassigns which
/// slots face the exterior: a well-formed piece stays well formed.
pub proof fn lemma_rotate_preserves_piece_wf(p: Piece, m: Mat3i)
    requires
        is_quarter_turn(m),
        piece_wf(p),
    ensures
        piece_wf(rotated_piece(p, m)),
{
    lemma_mat_products(m, to_int(p.position), 1);
    lemma_mat_apply_bounds(m, to_int(p.position), 1);
    if m == spec_rot_x_cw() {
    } else if m == spec_rot_x_ccw() {
    } else if m == spec_rot_y_cw() {
    } else if m == spec_rot_y_ccw() {
    } else if m == spec_rot_z_cw() {
    } else {
        assert(m == spec_rot_z_ccw());
    }
}

/// A quarter turn is injective on lattice positions.
pub proof fn lemma_rotation_injective(a: (i32, i32, i32), b: (i32, i32, i32), m: Mat3i)
    requires
        is_quarter_turn(m),
        in_lattice(a),
        in_lattice(b),
        mat_apply(m, to_int(a)) == mat_apply(m, to_int(b)),
    ensures
        a == b,
{
    lemma_mat_products(m, to_int(a), 1);
    lemma_mat_products(m, to_int(b), 1);
    if m == spec_rot_x_cw() {
    } else if m == spec_rot_x_ccw() {
    } else if m == spec_rot_y_cw() {
    } else if m == spec_rot_y_ccw() {
    } else if m == spec_rot_z_cw() {
    } else {
        assert(m == spec_rot_z_ccw());
    }
}

} // verus!
