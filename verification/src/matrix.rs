//! 4x4 transforms: their layout, their product and the model transform.
//!
//! Entry `(row, column)` of a matrix multiplies component `column` of a
//! column vector into component `row` of the result. The fields are named
//! column by column: `m0..m3` is the first column, `m12..m15` the last.

use vstd::prelude::*;
use crate::fixed::ONE;
use crate::fixed::store;
use crate::fixed::stored;
use crate::vector::Vector3;

verus! {

/// A 4x4 matrix of fixed-point entries.
#[derive(Clone, Copy, Debug, PartialEq, Eq, Structural)]
pub struct Matrix {
    pub m0: i32,
    pub m1: i32,
    pub m2: i32,
    pub m3: i32,
    pub m4: i32,
    pub m5: i32,
    pub m6: i32,
    pub m7: i32,
    pub m8: i32,
    pub m9: i32,
    pub m10: i32,
    pub m11: i32,
    pub m12: i32,
    pub m13: i32,
    pub m14: i32,
    pub m15: i32,
}

/// The sum of four products of fixed-point numbers, stored on the grid.
pub open spec fn dot4_stored(
    a0: int,
    b0: int,
    a1: int,
    b1: int,
    a2: int,
    b2: int,
    a3: int,
    b3: int,
) -> int {
    stored(a0 * b0 + a1 * b1 + a2 * b2 + a3 * b3, ONE as int)
}

proof fn lemma_product_of_words(a: int, b: int)
    by (nonlinear_arith)
    requires
        -0x8000_0000 <= a <= 0x8000_0000,
        -0x8000_0000 <= b <= 0x8000_0000,
    ensures
        -0x4000_0000_0000_0000 <= a * b <= 0x4000_0000_0000_0000,
{
}

/// Evaluates a sum of four products exactly and stores it.
pub fn dot4(a0: i32, b0: i32, a1: i32, b1: i32, a2: i32, b2: i32, a3: i32, b3: i32) -> (r: i32)
    ensures
        r as int == dot4_stored(
            a0 as int,
            b0 as int,
            a1 as int,
            b1 as int,
            a2 as int,
            b2 as int,
            a3 as int,
            b3 as int,
        ),
{
    proof {
        lemma_product_of_words(a0 as int, b0 as int);
        lemma_product_of_words(a1 as int, b1 as int);
        lemma_product_of_words(a2 as int, b2 as int);
        lemma_product_of_words(a3 as int, b3 as int);
    }
    let sum: i128 = a0 as i128 * b0 as i128 + a1 as i128 * b1 as i128 + a2 as i128 * b2 as i128
        + a3 as i128 * b3 as i128;
    store(sum, 65536)
}

/// The matrix whose rows are written out left to right, top to bottom.
pub open spec fn matrix_of_rows(
    r0c0: i32,
    r0c1: i32,
    r0c2: i32,
    r0c3: i32,
    r1c0: i32,
    r1c1: i32,
    r1c2: i32,
    r1c3: i32,
    r2c0: i32,
    r2c1: i32,
    r2c2: i32,
    r2c3: i32,
    r3c0: i32,
    r3c1: i32,
    r3c2: i32,
    r3c3: i32,
) -> Matrix {
    Matrix {
        m0: r0c0,
        m1: r1c0,
        m2: r2c0,
        m3: r3c0,
        m4: r0c1,
        m5: r1c1,
        m6: r2c1,
        m7: r3c1,
        m8: r0c2,
        m9: r1c2,
        m10: r2c2,
        m11: r3c2,
        m12: r0c3,
        m13: r1c3,
        m14: r2c3,
        m15: r3c3,
    }
}

/// Builds a matrix from its sixteen entries given row by row.
pub fn new_matrix4(
    r0c0: i32,
    r0c1: i32,
    r0c2: i32,
    r0c3: i32,
    r1c0: i32,
    r1c1: i32,
    r1c2: i32,
    r1c3: i32,
    r2c0: i32,
    r2c1: i32,
    r2c2: i32,
    r2c3: i32,
    r3c0: i32,
    r3c1: i32,
    r3c2: i32,
    r3c3: i32,
) -> (m: Matrix)
    ensures
        m == matrix_of_rows(
            r0c0,
            r0c1,
            r0c2,
            r0c3,
            r1c0,
            r1c1,
            r1c2,
            r1c3,
            r2c0,
            r2c1,
            r2c2,
            r2c3,
            r3c0,
            r3c1,
            r3c2,
            r3c3,
        ),
{
    Matrix {
        m0: r0c0,
        m1: r1c0,
        m2: r2c0,
        m3: r3c0,
        m4: r0c1,
        m5: r1c1,
        m6: r2c1,
        m7: r3c1,
        m8: r0c2,
        m9: r1c2,
        m10: r2c2,
        m11: r3c2,
        m12: r0c3,
        m13: r1c3,
        m14: r2c3,
        m15: r3c3,
    }
}

impl Matrix {
    /// Entry `(row, column)`, for `row` and `column` in `0..4`.
    pub open spec fn at(self, row: int, column: int) -> int {
        let i = column * 4 + row;
        if i == 0 {
            self.m0 as int
        } else if i == 1 {
            self.m1 as int
        } else if i == 2 {
            self.m2 as int
        } else if i == 3 {
            self.m3 as int
        } else if i == 4 {
            self.m4 as int
        } else if i == 5 {
            self.m5 as int
        } else if i == 6 {
            self.m6 as int
        } else if i == 7 {
            self.m7 as int
        } else if i == 8 {
            self.m8 as int
        } else if i == 9 {
            self.m9 as int
        } else if i == 10 {
            self.m10 as int
        } else if i == 11 {
            self.m11 as int
        } else if i == 12 {
            self.m12 as int
        } else if i == 13 {
            self.m13 as int
        } else if i == 14 {
            self.m14 as int
        } else {
            self.m15 as int
        }
    }
}

/// Entry `(row, column)` of the transform that applies `first` and then
/// `second`: row `row` of `second` times column `column` of `first`.
pub open spec fn composed_entry(first: Matrix, second: Matrix, row: int, column: int) -> int {
    dot4_stored(
        second.at(row, 0),
        first.at(0, column),
        second.at(row, 1),
        first.at(1, column),
        second.at(row, 2),
        first.at(2, column),
        second.at(row, 3),
        first.at(3, column),
    )
}

/// The transform that applies `first` and then `second`, each entry stored
/// on the grid.
pub open spec fn composed(first: Matrix, second: Matrix) -> Matrix {
    Matrix {
        m0: composed_entry(first, second, 0, 0) as i32,
        m1: composed_entry(first, second, 1, 0) as i32,
        m2: composed_entry(first, second, 2, 0) as i32,
        m3: composed_entry(first, second, 3, 0) as i32,
        m4: composed_entry(first, second, 0, 1) as i32,
        m5: composed_entry(first, second, 1, 1) as i32,
        m6: composed_entry(first, second, 2, 1) as i32,
        m7: composed_entry(first, second, 3, 1) as i32,
        m8: composed_entry(first, second, 0, 2) as i32,
        m9: composed_entry(first, second, 1, 2) as i32,
        m10: composed_entry(first, second, 2, 2) as i32,
        m11: composed_entry(first, second, 3, 2) as i32,
        m12: composed_entry(first, second, 0, 3) as i32,
        m13: composed_entry(first, second, 1, 3) as i32,
        m14: composed_entry(first, second, 2, 3) as i32,
        m15: composed_entry(first, second, 3, 3) as i32,
    }
}

/// Multiplies left to right: the result applies `left` first, then `right`.
pub fn matrix_multiply(left: &Matrix, right: &Matrix) -> (m: Matrix)
    ensures
        m == composed(*left, *right),
{
    Matrix {
        m0: dot4(right.m0, left.m0, right.m4, left.m1, right.m8, left.m2, right.m12, left.m3),
        m1: dot4(right.m1, left.m0, right.m5, left.m1, right.m9, left.m2, right.m13, left.m3),
        m2: dot4(right.m2, left.m0, right.m6, left.m1, right.m10, left.m2, right.m14, left.m3),
        m3: dot4(right.m3, left.m0, right.m7, left.m1, right.m11, left.m2, right.m15, left.m3),
        m4: dot4(right.m0, left.m4, right.m4, left.m5, right.m8, left.m6, right.m12, left.m7),
        m5: dot4(right.m1, left.m4, right.m5, left.m5, right.m9, left.m6, right.m13, left.m7),
        m6: dot4(right.m2, left.m4, right.m6, left.m5, right.m10, left.m6, right.m14, left.m7),
        m7: dot4(right.m3, left.m4, right.m7, left.m5, right.m11, left.m6, right.m15, left.m7),
        m8: dot4(right.m0, left.m8, right.m4, left.m9, right.m8, left.m10, right.m12, left.m11),
        m9: dot4(right.m1, left.m8, right.m5, left.m9, right.m9, left.m10, right.m13, left.m11),
        m10: dot4(right.m2, left.m8, right.m6, left.m9, right.m10, left.m10, right.m14, left.m11),
        m11: dot4(right.m3, left.m8, right.m7, left.m9, right.m11, left.m10, right.m15, left.m11),
        m12: dot4(right.m0, left.m12, right.m4, left.m13, right.m8, left.m14, right.m12, left.m15),
        m13: dot4(right.m1, left.m12, right.m5, left.m13, right.m9, left.m14, right.m13, left.m15),
        m14: dot4(right.m2, left.m12, right.m6, left.m13, right.m10, left.m14, right.m14, left.m15),
        m15: dot4(right.m3, left.m12, right.m7, left.m13, right.m11, left.m14, right.m15, left.m15),
    }
}

/// The negation of a fixed-point number, saturated.
pub open spec fn negated(v: i32) -> i32 {
    if v == i32::MIN {
        i32::MAX
    } else {
        (-v) as i32
    }
}

fn negate(v: i32) -> (r: i32)
    ensures
        r == negated(v),
{
    if v == i32::MIN {
        i32::MAX
    } else {
        -v
    }
}

/// Uniform scaling by `scale`.
pub open spec fn scaling(scale: i32) -> Matrix {
    matrix_of_rows(scale, 0, 0, 0, 0, scale, 0, 0, 0, 0, scale, 0, 0, 0, 0, ONE)
}

/// Rotation about the x axis by the angle with this sine and cosine.
pub open spec fn rotation_about_x(sin: i32, cos: i32) -> Matrix {
    matrix_of_rows(ONE, 0, 0, 0, 0, cos, negated(sin), 0, 0, sin, cos, 0, 0, 0, 0, ONE)
}

/// Rotation about the y axis.
pub open spec fn rotation_about_y(sin: i32, cos: i32) -> Matrix {
    matrix_of_rows(cos, 0, sin, 0, 0, ONE, 0, 0, negated(sin), 0, cos, 0, 0, 0, 0, ONE)
}

/// Rotation about the z axis.
pub open spec fn rotation_about_z(sin: i32, cos: i32) -> Matrix {
    matrix_of_rows(cos, negated(sin), 0, 0, sin, cos, 0, 0, 0, 0, ONE, 0, 0, 0, 0, ONE)
}

/// Translation by `t`.
pub open spec fn translation_by(t: Vector3) -> Matrix {
    matrix_of_rows(ONE, 0, 0, t.x, 0, ONE, 0, t.y, 0, 0, ONE, t.z, 0, 0, 0, ONE)
}

/// The model transform: scale, then rotate about z, then y, then x, then
/// translate.
pub open spec fn model_matrix(translation: Vector3, scale: i32, sines: Vector3, cosines: Vector3) -> Matrix {
    let rotation = composed(
        composed(rotation_about_z(sines.z, cosines.z), rotation_about_y(sines.y, cosines.y)),
        rotation_about_x(sines.x, cosines.x),
    );
    composed(composed(scaling(scale), rotation), translation_by(translation))
}

/// Combines a translation, a uniform scale and three rotations into one
/// transform. The rotations are given by the sines and cosines of the angles
/// about the x, y and z axes.
pub fn create_model_matrix(translation: Vector3, scale: i32, sines: Vector3, cosines: Vector3) -> (m:
    Matrix)
    ensures
        m == model_matrix(translation, scale, sines, cosines),
{
    let rotation_x = new_matrix4(
        65536,
        0,
        0,
        0,
        0,
        cosines.x,
        negate(sines.x),
        0,
        0,
        sines.x,
        cosines.x,
        0,
        0,
        0,
        0,
        65536,
    );
    let rotation_y = new_matrix4(
        cosines.y,
        0,
        sines.y,
        0,
        0,
        65536,
        0,
        0,
        negate(sines.y),
        0,
        cosines.y,
        0,
        0,
        0,
        0,
        65536,
    );
    let rotation_z = new_matrix4(
        cosines.z,
        negate(sines.z),
        0,
        0,
        sines.z,
        cosines.z,
        0,
        0,
        0,
        0,
        65536,
        0,
        0,
        0,
        0,
        65536,
    );
    let rotation = matrix_multiply(&matrix_multiply(&rotation_z, &rotation_y), &rotation_x);
    let scale_matrix = new_matrix4(scale, 0, 0, 0, 0, scale, 0, 0, 0, 0, scale, 0, 0, 0, 0, 65536);
    let translation_matrix = new_matrix4(
        65536,
        0,
        0,
        translation.x,
        0,
        65536,
        0,
        translation.y,
        0,
        0,
        65536,
        translation.z,
        0,
        0,
        0,
        65536,
    );
    matrix_multiply(&matrix_multiply(&scale_matrix, &rotation), &translation_matrix)
}

} // verus!
