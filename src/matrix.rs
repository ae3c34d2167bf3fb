//! 3x3 and 4x4 integer matrices.
use vstd::prelude::*;
use crate::linear_algebra::{dot3, dot3_fits, dot4, dot4_fits, Vec3, Vec4};

verus! {

/// A 3x3 matrix, stored as rows.
#[derive(Copy, Clone, Debug, PartialEq, Eq)]
pub struct Mat3<T>(pub [[T; 3]; 3]);

/// A 4x4 matrix, stored as rows.
#[derive(Copy, Clone, Debug, PartialEq, Eq)]
pub struct Mat4<T>(pub [[T; 4]; 4]);

/// Column `j` of a 3x3 matrix.
pub open spec fn col3(m: [[i64; 3]; 3], j: int) -> [i64; 3] {
    [m[0][j], m[1][j], m[2][j]]
}

/// Column `j` of a 4x4 matrix.
pub open spec fn col4(m: [[i64; 4]; 4], j: int) -> [i64; 4] {
    [m[0][j], m[1][j], m[2][j], m[3][j]]
}

/// Every entry of the product `l * r` can be computed in `i64`.
pub open spec fn mat3_mul_fits(l: [[i64; 3]; 3], r: [[i64; 3]; 3]) -> bool {
    forall|i: int, j: int| 0 <= i < 3 && 0 <= j < 3 ==> #[trigger] dot3_fits(l[i], col3(r, j))
}

/// Every entry of the product `l * r` can be computed in `i64`.
pub open spec fn mat4_mul_fits(l: [[i64; 4]; 4], r: [[i64; 4]; 4]) -> bool {
    forall|i: int, j: int| 0 <= i < 4 && 0 <= j < 4 ==> #[trigger] dot4_fits(l[i], col4(r, j))
}

/// The product `l * r`, entry by entry.
pub open spec fn mat4_product(l: Mat4<i64>, r: Mat4<i64>) -> Mat4<i64> {
    Mat4([
            [dot4(l.0[0], col4(r.0, 0)) as i64, dot4(l.0[0], col4(r.0, 1)) as i64,
             dot4(l.0[0], col4(r.0, 2)) as i64, dot4(l.0[0], col4(r.0, 3)) as i64],
            [dot4(l.0[1], col4(r.0, 0)) as i64, dot4(l.0[1], col4(r.0, 1)) as i64,
             dot4(l.0[1], col4(r.0, 2)) as i64, dot4(l.0[1], col4(r.0, 3)) as i64],
            [dot4(l.0[2], col4(r.0, 0)) as i64, dot4(l.0[2], col4(r.0, 1)) as i64,
             dot4(l.0[2], col4(r.0, 2)) as i64, dot4(l.0[2], col4(r.0, 3)) as i64],
            [dot4(l.0[3], col4(r.0, 0)) as i64, dot4(l.0[3], col4(r.0, 1)) as i64,
             dot4(l.0[3], col4(r.0, 2)) as i64, dot4(l.0[3], col4(r.0, 3)) as i64],
        ])
}

impl Mat3<i64> {
    /// Matrix product: entry `(i, j)` is row `i` of `self` dotted with column `j` of `rhs`.
    pub fn mul_mat(self, rhs: Self) -> (r: Self)
        requires
            mat3_mul_fits(self.0, rhs.0),
        ensures
            forall|i: int, j: int|
                0 <= i < 3 && 0 <= j < 3 ==> r.0[i][j] == dot3(self.0[i], col3(rhs.0, j)),
    {
        let l = self.0;
        let m = rhs.0;
        let mut result = [[0i64; 3]; 3];
        let mut i: usize = 0;
        while i < 3
            invariant
                0 <= i <= 3,
                mat3_mul_fits(l, m),
                forall|a: int, b: int|
                    0 <= a < i && 0 <= b < 3 ==> result[a][b] == dot3(l[a], col3(m, b)),
            decreases 3 - i,
        {
            let mut row = [0i64; 3];
            let mut j: usize = 0;
            while j < 3
                invariant
                    0 <= i < 3,
                    0 <= j <= 3,
                    mat3_mul_fits(l, m),
                    forall|b: int| 0 <= b < j ==> row[b] == dot3(l[i as int], col3(m, b)),
                decreases 3 - j,
            {
                assert(dot3_fits(l[i as int], col3(m, j as int)));
                row.set(j, l[i][0] * m[0][j] + l[i][1] * m[1][j] + l[i][2] * m[2][j]);
                j += 1;
            }
            result.set(i, row);
            i += 1;
        }
        Mat3(result)
    }

    /// Matrix application: component `i` is row `i` dotted with `v`.
    pub fn apply(self, v: Vec3<i64>) -> (r: Vec3<i64>)
        requires
            forall|i: int| 0 <= i < 3 ==> #[trigger] dot3_fits(self.0[i], v.0),
        ensures
            forall|i: int| 0 <= i < 3 ==> r.0[i] == dot3(self.0[i], v.0),
    {
        let l = self.0;
        let x = v.0;
        let mut result = [0i64; 3];
        let mut i: usize = 0;
        while i < 3
            invariant
                0 <= i <= 3,
                forall|a: int| 0 <= a < 3 ==> #[trigger] dot3_fits(l[a], x),
                forall|a: int| 0 <= a < i ==> result[a] == dot3(l[a], x),
            decreases 3 - i,
        {
            assert(dot3_fits(l[i as int], x));
            result.set(i, l[i][0] * x[0] + l[i][1] * x[1] + l[i][2] * x[2]);
            i += 1;
        }
        Vec3(result)
    }

    /// The rows as an array.
    pub fn to_array(self) -> (r: [[i64; 3]; 3])
        ensures
            r == self.0,
    {
        self.0
    }
}

impl Mat4<i64> {
    /// Matrix product: entry `(i, j)` is row `i` of `self` dotted with column `j` of `rhs`.
    pub fn mul_mat(self, rhs: Self) -> (r: Self)
        requires
            mat4_mul_fits(self.0, rhs.0),
        ensures
            forall|i: int, j: int|
                0 <= i < 4 && 0 <= j < 4 ==> r.0[i][j] == dot4(self.0[i], col4(rhs.0, j)),
    {
        let l = self.0;
        let m = rhs.0;
        let mut result = [[0i64; 4]; 4];
        let mut i: usize = 0;
        while i < 4
            invariant
                0 <= i <= 4,
                mat4_mul_fits(l, m),
                forall|a: int, b: int|
                    0 <= a < i && 0 <= b < 4 ==> result[a][b] == dot4(l[a], col4(m, b)),
            decreases 4 - i,
        {
            let mut row = [0i64; 4];
            let mut j: usize = 0;
            while j < 4
                invariant
                    0 <= i < 4,
                    0 <= j <= 4,
                    mat4_mul_fits(l, m),
                    forall|b: int| 0 <= b < j ==> row[b] == dot4(l[i as int], col4(m, b)),
                decreases 4 - j,
            {
                assert(dot4_fits(l[i as int], col4(m, j as int)));
                row.set(
                    j,
                    l[i][0] * m[0][j] + l[i][1] * m[1][j] + l[i][2] * m[2][j] + l[i][3] * m[3][j],
                );
                j += 1;
            }
            result.set(i, row);
            i += 1;
        }
        Mat4(result)
    }

    /// Matrix application: component `i` is row `i` dotted with `v`.
    pub fn apply(self, v: Vec4<i64>) -> (r: Vec4<i64>)
        requires
            forall|i: int| 0 <= i < 4 ==> #[trigger] dot4_fits(self.0[i], v.0),
        ensures
            forall|i: int| 0 <= i < 4 ==> r.0[i] == dot4(self.0[i], v.0),
    {
        let l = self.0;
        let x = v.0;
        let mut result = [0i64; 4];
        let mut i: usize = 0;
        while i < 4
            invariant
                0 <= i <= 4,
                forall|a: int| 0 <= a < 4 ==> #[trigger] dot4_fits(l[a], x),
                forall|a: int| 0 <= a < i ==> result[a] == dot4(l[a], x),
            decreases 4 - i,
        {
            assert(dot4_fits(l[i as int], x));
            result.set(i, l[i][0] * x[0] + l[i][1] * x[1] + l[i][2] * x[2] + l[i][3] * x[3]);
            i += 1;
        }
        Vec4(result)
    }

    /// The upper-left 3x3 block.
    pub fn to_mat3(self) -> (r: Mat3<i64>)
        ensures
            forall|i: int, j: int| 0 <= i < 3 && 0 <= j < 3 ==> r.0[i][j] == self.0[i][j],
    {
        let x = self.0;
        Mat3([[x[0][0], x[0][1], x[0][2]], [x[1][0], x[1][1], x[1][2]], [x[2][0], x[2][1], x[2][2]]])
    }

    /// The rows as an array.
    pub fn to_array(self) -> (r: [[i64; 4]; 4])
        ensures
            r == self.0,
    {
        self.0
    }
}

impl core::ops::Mul for Mat4<i64> {
    type Output = Self;

    fn mul(self, rhs: Self) -> (r: Self) {
        let r = self.mul_mat(rhs);
        proof {
            let s = mat4_product(self, rhs);
            assert forall|i: int, j: int| 0 <= i < 4 && 0 <= j < 4 implies r.0[i][j] == s.0[i][j] by {
                assert(dot4_fits(self.0[i], col4(rhs.0, j)));
            }
            assert(r.0[0] =~= s.0[0]);
            assert(r.0[1] =~= s.0[1]);
            assert(r.0[2] =~= s.0[2]);
            assert(r.0[3] =~= s.0[3]);
            assert(r.0 =~= s.0);
        }
        r
    }
}

impl vstd::std_specs::ops::MulSpecImpl for Mat4<i64> {
    open spec fn obeys_mul_spec() -> bool {
        true
    }

    open spec fn mul_req(self, rhs: Self) -> bool {
        mat4_mul_fits(self.0, rhs.0)
    }

    open spec fn mul_spec(self, rhs: Self) -> Self {
        mat4_product(self, rhs)
    }
}

impl From<[[i64; 3]; 3]> for Mat3<i64> {
    fn from(other: [[i64; 3]; 3]) -> (r: Self) {
        Mat3(other)
    }
}

impl vstd::std_specs::convert::FromSpecImpl<[[i64; 3]; 3]> for Mat3<i64> {
    open spec fn obeys_from_spec() -> bool {
        true
    }

    open spec fn from_spec(v: [[i64; 3]; 3]) -> Self {
        Mat3(v)
    }
}

impl From<[[i64; 4]; 4]> for Mat4<i64> {
    fn from(other: [[i64; 4]; 4]) -> (r: Self) {
        Mat4(other)
    }
}

impl vstd::std_specs::convert::FromSpecImpl<[[i64; 4]; 4]> for Mat4<i64> {
    open spec fn obeys_from_spec() -> bool {
        true
    }

    open spec fn from_spec(v: [[i64; 4]; 4]) -> Self {
        Mat4(v)
    }
}

} // verus!
