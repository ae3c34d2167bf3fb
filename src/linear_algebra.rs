//! Small fixed-size vectors and matrices over integers.
use vstd::prelude::*;

verus! {

/// Fits an integer into `i64`.
pub open spec fn fits_i64(v: int) -> bool {
    i64::MIN <= v <= i64::MAX
}

/// A 3D vector.
#[derive(Copy, Clone, Debug, PartialEq, Eq)]
pub struct Vec3<T>(pub [T; 3]);

/// A 4D vector.
#[derive(Copy, Clone, Debug, PartialEq, Eq)]
pub struct Vec4<T>(pub [T; 4]);

/// Mathematical dot product of two integer triples.
pub open spec fn dot3(l: [i64; 3], r: [i64; 3]) -> int {
    l[0] * r[0] + l[1] * r[1] + l[2] * r[2]
}

/// Mathematical dot product of two integer quadruples.
pub open spec fn dot4(l: [i64; 4], r: [i64; 4]) -> int {
    l[0] * r[0] + l[1] * r[1] + l[2] * r[2] + l[3] * r[3]
}

/// Component `i` of the cross product `l x r`.
pub open spec fn cross3(l: [i64; 3], r: [i64; 3], i: int) -> int {
    if i == 0 {
        l[1] * r[2] - l[2] * r[1]
    } else if i == 1 {
        l[2] * r[0] - l[0] * r[2]
    } else {
        l[0] * r[1] - l[1] * r[0]
    }
}

/// Every partial sum of the dot product of `l` and `r` fits in `i64`.
pub open spec fn dot3_fits(l: [i64; 3], r: [i64; 3]) -> bool {
    &&& fits_i64(l[0] * r[0])
    &&& fits_i64(l[1] * r[1])
    &&& fits_i64(l[2] * r[2])
    &&& fits_i64(l[0] * r[0] + l[1] * r[1])
    &&& fits_i64(dot3(l, r))
}

/// Every partial sum of the dot product of `l` and `r` fits in `i64`.
pub open spec fn dot4_fits(l: [i64; 4], r: [i64; 4]) -> bool {
    &&& fits_i64(l[0] * r[0])
    &&& fits_i64(l[1] * r[1])
    &&& fits_i64(l[2] * r[2])
    &&& fits_i64(l[3] * r[3])
    &&& fits_i64(l[0] * r[0] + l[1] * r[1])
    &&& fits_i64(l[0] * r[0] + l[1] * r[1] + l[2] * r[2])
    &&& fits_i64(dot4(l, r))
}

/// Every product and difference in the cross product of `l` and `r` fits in `i64`.
pub open spec fn cross3_fits(l: [i64; 3], r: [i64; 3]) -> bool {
    &&& fits_i64(l[1] * r[2])
    &&& fits_i64(l[2] * r[1])
    &&& fits_i64(l[2] * r[0])
    &&& fits_i64(l[0] * r[2])
    &&& fits_i64(l[0] * r[1])
    &&& fits_i64(l[1] * r[0])
    &&& forall|i: int| 0 <= i < 3 ==> #[trigger] fits_i64(cross3(l, r, i))
}

impl Vec3<i64> {
    /// Dot product of two 3D vectors.
    pub fn dot(self, rhs: Self) -> (r: i64)
        requires
            dot3_fits(self.0, rhs.0),
        ensures
            r == dot3(self.0, rhs.0),
    {
        let l = self.0;
        let r = rhs.0;
        l[0] * r[0] + l[1] * r[1] + l[2] * r[2]
    }

    /// Cross product of two 3D vectors.
    pub fn cross(self, rhs: Self) -> (r: Self)
        requires
            cross3_fits(self.0, rhs.0),
        ensures
            forall|i: int| 0 <= i < 3 ==> r.0[i] == cross3(self.0, rhs.0, i),
    {
        let l = self.0;
        let r = rhs.0;
        assert(fits_i64(cross3(l, r, 0)) && fits_i64(cross3(l, r, 1)) && fits_i64(cross3(l, r, 2)));
        Vec3([l[1] * r[2] - l[2] * r[1], l[2] * r[0] - l[0] * r[2], l[0] * r[1] - l[1] * r[0]])
    }

    /// Component-wise sum.
    pub fn add(self, rhs: Self) -> (r: Self)
        requires
            forall|i: int| 0 <= i < 3 ==> fits_i64(self.0[i] + rhs.0[i]),
        ensures
            forall|i: int| 0 <= i < 3 ==> r.0[i] == self.0[i] + rhs.0[i],
    {
        let l = self.0;
        let r = rhs.0;
        assert(fits_i64(l[0] + r[0]) && fits_i64(l[1] + r[1]) && fits_i64(l[2] + r[2]));
        Vec3([l[0] + r[0], l[1] + r[1], l[2] + r[2]])
    }

    /// Component-wise difference.
    pub fn sub(self, rhs: Self) -> (r: Self)
        requires
            forall|i: int| 0 <= i < 3 ==> fits_i64(self.0[i] - rhs.0[i]),
        ensures
            forall|i: int| 0 <= i < 3 ==> r.0[i] == self.0[i] - rhs.0[i],
    {
        let l = self.0;
        let r = rhs.0;
        assert(fits_i64(l[0] - r[0]) && fits_i64(l[1] - r[1]) && fits_i64(l[2] - r[2]));
        Vec3([l[0] - r[0], l[1] - r[1], l[2] - r[2]])
    }

    /// Scales every component by `k`.
    pub fn scale(self, k: i64) -> (r: Self)
        requires
            forall|i: int| 0 <= i < 3 ==> fits_i64(self.0[i] * k),
        ensures
            forall|i: int| 0 <= i < 3 ==> r.0[i] == self.0[i] * k,
    {
        let l = self.0;
        assert(fits_i64(l[0] * k) && fits_i64(l[1] * k) && fits_i64(l[2] * k));
        Vec3([l[0] * k, l[1] * k, l[2] * k])
    }

    /// The components as an array.
    pub fn to_array(self) -> (r: [i64; 3])
        ensures
            r == self.0,
    {
        self.0
    }

    /// The first three components of a 4D vector.
    pub fn from_vec4(v: Vec4<i64>) -> (r: Self)
        ensures
            r.0[0] == v.0[0],
            r.0[1] == v.0[1],
            r.0[2] == v.0[2],
    {
        Vec3([v.0[0], v.0[1], v.0[2]])
    }
}

impl Vec4<i64> {
    /// Dot product of two 4D vectors.
    pub fn dot(self, rhs: Self) -> (r: i64)
        requires
            dot4_fits(self.0, rhs.0),
        ensures
            r == dot4(self.0, rhs.0),
    {
        let l = self.0;
        let r = rhs.0;
        l[0] * r[0] + l[1] * r[1] + l[2] * r[2] + l[3] * r[3]
    }

    /// The components as an array.
    pub fn to_array(self) -> (r: [i64; 4])
        ensures
            r == self.0,
    {
        self.0
    }
}

impl From<[i64; 3]> for Vec3<i64> {
    fn from(other: [i64; 3]) -> (r: Self) {
        Vec3(other)
    }
}

impl vstd::std_specs::convert::FromSpecImpl<[i64; 3]> for Vec3<i64> {
    open spec fn obeys_from_spec() -> bool {
        true
    }

    open spec fn from_spec(v: [i64; 3]) -> Self {
        Vec3(v)
    }
}

impl From<[i64; 4]> for Vec4<i64> {
    fn from(other: [i64; 4]) -> (r: Self) {
        Vec4(other)
    }
}

impl vstd::std_specs::convert::FromSpecImpl<[i64; 4]> for Vec4<i64> {
    open spec fn obeys_from_spec() -> bool {
        true
    }

    open spec fn from_spec(v: [i64; 4]) -> Self {
        Vec4(v)
    }
}

} // verus!
