use terrain::linear_algebra::{Vec3, Vec4};
use terrain::matrix::{Mat3, Mat4};

#[test]
fn linear_algebra_test_mat4_mul() {
    let lhs = Mat4::from([
        [1, 2, 3, 4],
        [5, 6, 7, 8],
        [9, 10, 11, 12],
        [13, 14, 15, 16],
    ]);
    let rhs = Mat4::from([
        [17, 18, 19, 20],
        [21, 22, 23, 24],
        [25, 26, 27, 28],
        [29, 30, 31, 32],
    ]);
    let expected = Mat4::from([
        [250, 260, 270, 280],
        [618, 644, 670, 696],
        [986, 1028, 1070, 1112],
        [1354, 1412, 1470, 1528],
    ]);
    let actual = lhs * rhs;
    assert_eq!(expected, actual);
}

#[test]
fn linear_algebra_test_vec3_cross() {
    let lhs = Vec3::from([1, 2, 3]);
    let rhs = Vec3::from([4, 5, 6]);
    let expected = Vec3::from([-3, 6, -3]);
    let actual = lhs.cross(rhs);
    assert_eq!(expected, actual);
}

#[test]
fn mod_test_mat4_mul() {
    let lhs = Mat4::from([
        [1, 2, 3, 4],
        [5, 6, 7, 8],
        [9, 10, 11, 12],
        [13, 14, 15, 16],
    ]);
    let rhs = Mat4::from([
        [17, 18, 19, 20],
        [21, 22, 23, 24],
        [25, 26, 27, 28],
        [29, 30, 31, 32],
    ]);
    let expected = Mat4::from([
        [250, 260, 270, 280],
        [618, 644, 670, 696],
        [986, 1028, 1070, 1112],
        [1354, 1412, 1470, 1528],
    ]);
    let actual = lhs * rhs;
    assert_eq!(expected, actual);
}

#[test]
fn mod_test_vec3_cross() {
    let lhs = Vec3::from([1, 2, 3]);
    let rhs = Vec3::from([4, 5, 6]);
    let expected = Vec3::from([-3, 6, -3]);
    let actual = lhs.cross(rhs);
    assert_eq!(expected, actual);
}

#[test]
fn vec3_dot_and_arithmetic() {
    let a = Vec3::from([1, 2, 3]);
    let b = Vec3::from([4, -5, 6]);
    assert_eq!(a.dot(b), 12);
    assert_eq!(a.add(b), Vec3::from([5, -3, 9]));
    assert_eq!(a.sub(b), Vec3::from([-3, 7, -3]));
    assert_eq!(a.scale(-2), Vec3::from([-2, -4, -6]));
    assert_eq!(Vec3::from_vec4(Vec4::from([7, 8, 9, 10])).to_array(), [7, 8, 9]);
}

#[test]
fn vec4_dot() {
    let a = Vec4::from([1, 2, 3, 4]);
    let b = Vec4::from([5, 6, 7, 8]);
    assert_eq!(a.dot(b), 70);
    assert_eq!(a.to_array(), [1, 2, 3, 4]);
}

#[test]
fn mat3_product_and_application() {
    let l = Mat3::from([[1, 2, 0], [0, 1, 0], [3, 0, 1]]);
    let r = Mat3::from([[2, 0, 1], [1, 1, 0], [0, 4, 1]]);
    assert_eq!(l.mul_mat(r), Mat3::from([[4, 2, 1], [1, 1, 0], [6, 4, 4]]));
    assert_eq!(l.apply(Vec3::from([1, 1, 1])), Vec3::from([3, 1, 4]));
}

#[test]
fn mat4_application_and_block() {
    let m = Mat4::from([[1, 0, 0, 5], [0, 2, 0, 0], [0, 0, 3, 0], [0, 0, 0, 1]]);
    assert_eq!(m.apply(Vec4::from([1, 1, 1, 1])), Vec4::from([6, 2, 3, 1]));
    assert_eq!(m.to_mat3(), Mat3::from([[1, 0, 0], [0, 2, 0], [0, 0, 3]]));
}
