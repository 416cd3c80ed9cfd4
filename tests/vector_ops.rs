use initial_conditions::error::PhysicsError;
use initial_conditions::vector::{AddVec, Dot, EuclideanNorm, ScalarDiv, ScalarMult, SubVec};

const EPSILON: f64 = 1e-10;

fn dot64(v1: Vec<f64>, v2: Vec<f64>) -> Result<f64, PhysicsError> {
    v1.dot(v2, 0.0, |acc: f64, x: f64, y: f64| acc + x * y, |s: f64| s)
}

fn plus(a: f64, b: f64) -> f64 {
    a + b
}

fn minus(a: f64, b: f64) -> f64 {
    a - b
}

fn times(a: f64, b: f64) -> f64 {
    a * b
}

fn over(a: f64, b: f64) -> f64 {
    a / b
}

fn is_zero(k: f64) -> bool {
    k == 0.0
}

fn scale_by(v: &Vec<f64>, k: f64) -> Vec<f64> {
    v.scalar_mult(k, times)
}

fn divide_by(v: &Vec<f64>, k: f64) -> Vec<f64> {
    v.scalar_div(k, over, is_zero, f64::INFINITY)
}

fn norm64(v: Vec<f64>) -> f64 {
    v.euc_norm(0.0, |acc: f64, x: f64| acc + x * x, |s: f64| s.sqrt(), 0.0)
}

#[test]
fn utils_dot() {
    let v = vec![2.0, 2.0, 2.0];
    let v2 = vec![2.0, 2.0, 2.0];
    let expected = 12 as f64;
    assert_eq!(dot64(v, v2), Ok(expected));
}

#[test]
fn utils_dot_should_panic() {
    let v = vec![2.0, 2.0, 2.0];
    let v2 = vec![2.0, 2.0];
    assert_eq!(dot64(v, v2), Err(PhysicsError::LengthMismatch));
}

#[test]
fn utils_scalar_mult() {
    let v = vec![2.0, 2.0, 2.0];
    let w = scale_by(&v, 2.0);
    let expected = vec![4.0, 4.0, 4.0];
    assert_eq!(&w, &expected);
}

#[test]
fn utils_scalar_div() {
    let v = vec![2.0, 2.0, 2.0];
    let w = divide_by(&v, 2.0);
    let expected = vec![1.0, 1.0, 1.0];
    assert_eq!(&w, &expected);
}

#[test]
fn utils_add_vec() {
    let v = vec![2.0, 2.0, 2.0];
    let v2 = vec![1.0, -2.0, 4.0];
    let new_v = v.add_vec(v2, plus);
    let expected = vec![3.0, 0.0, 6.0];
    assert_eq!(new_v, Ok(expected));
}

#[test]
fn utils_add_vec_should_panic() {
    let v = vec![2.0, 2.0, 2.0];
    let v2 = vec![2.0, 2.0];
    assert_eq!(v.add_vec(v2, plus), Err(PhysicsError::LengthMismatch));
}

#[test]
fn utils_sub_vec() {
    let v = vec![2.0, 2.0, 2.0];
    let v2 = vec![1.0, -2.0, 4.0];
    let new_v = v.sub_vec(v2, minus);
    let expected = vec![1.0, 4.0, -2.0];
    assert_eq!(new_v, Ok(expected));
}

#[test]
fn utils_sub_vec_should_panic() {
    let v = vec![2.0, 2.0, 2.0];
    let v2 = vec![2.0, 2.0];
    assert_eq!(v.sub_vec(v2, minus), Err(PhysicsError::LengthMismatch));
}

#[test]
fn vec_traits_dot() {
    let v = vec![2.0, 2.0, 2.0];
    let v2 = vec![2.0, 2.0, 2.0];
    let expected = 12 as f64;
    assert_eq!(dot64(v, v2), Ok(expected));
}

#[test]
fn vec_traits_dot_should_panic() {
    let v = vec![2.0, 2.0, 2.0];
    let v2 = vec![2.0, 2.0];
    assert_eq!(dot64(v, v2), Err(PhysicsError::LengthMismatch));
}

#[test]
fn vec_traits_scalar_mult() {
    let v = vec![2.0, 2.0, 2.0];
    let w = scale_by(&v, 2.0);
    let expected = vec![4.0, 4.0, 4.0];
    assert_eq!(&w, &expected);
}

#[test]
fn vec_traits_scalar_div() {
    let v = vec![2.0, 2.0, 2.0];
    let w = divide_by(&v, 2.0);
    let expected = vec![1.0, 1.0, 1.0];
    assert_eq!(&w, &expected);
}

#[test]
fn vec_traits_add_vec() {
    let v = vec![2.0, 2.0, 2.0];
    let v2 = vec![1.0, -2.0, 4.0];
    let new_v = v.add_vec(v2, plus);
    let expected = vec![3.0, 0.0, 6.0];
    assert_eq!(new_v, Ok(expected));
}

#[test]
fn vec_traits_add_vec_should_panic() {
    let v = vec![2.0, 2.0, 2.0];
    let v2 = vec![2.0, 2.0];
    assert_eq!(v.add_vec(v2, plus), Err(PhysicsError::LengthMismatch));
}

#[test]
fn vec_traits_sub_vec() {
    let v = vec![2.0, 2.0, 2.0];
    let v2 = vec![1.0, -2.0, 4.0];
    let new_v = v.sub_vec(v2, minus);
    let expected = vec![1.0, 4.0, -2.0];
    assert_eq!(new_v, Ok(expected));
}

#[test]
fn vec_traits_sub_vec_should_panic() {
    let v = vec![2.0, 2.0, 2.0];
    let v2 = vec![2.0, 2.0];
    assert_eq!(v.sub_vec(v2, minus), Err(PhysicsError::LengthMismatch));
}

#[test]
fn euc_norm1() {
    let v = vec![1.0, 2.0, 1.0];
    let norm = norm64(v);
    let expected = 2.449489742783178;
    let diff = (norm - expected).abs();
    assert!(diff <= EPSILON);
}

#[test]
fn euc_norm2() {
    let v: Vec<f64> = Vec::new();
    let norm = norm64(v);
    let expected = 0.0;
    assert_eq!(norm, expected);
}

#[test]
fn dot_is_commutative() {
    let a = vec![1.5, -2.25, 3.0, 0.1];
    let b = vec![-4.0, 0.3, 7.5, 2.0];
    assert_eq!(dot64(a.clone(), b.clone()), dot64(b, a));
}

#[test]
fn dot_of_empty_vectors_is_zero() {
    assert_eq!(dot64(Vec::new(), Vec::new()), Ok(0.0));
}

#[test]
fn dot_accumulates_wide_and_narrows() {
    let a: Vec<f32> = vec![1.5, 2.0, -3.0];
    let b: Vec<f32> = vec![2.0, 0.5, 1.0];
    let r = a.dot(
        b,
        0.0f64,
        |acc: f64, x: f32, y: f32| acc + (x as f64) * (y as f64),
        |s: f64| s as f32,
    );
    assert_eq!(r, Ok(1.0f32));
}

#[test]
fn norm_is_not_negative() {
    let v = vec![-3.0, -4.0];
    let norm = norm64(v);
    assert!(norm >= 0.0);
    assert_eq!(norm, 5.0);
}

#[test]
fn unequal_lengths_are_refused_everywhere() {
    let a = vec![1.0];
    let b = vec![1.0, 2.0];
    assert_eq!(dot64(a.clone(), b.clone()), Err(PhysicsError::LengthMismatch));
    assert_eq!(a.clone().add_vec(b.clone(), plus), Err(PhysicsError::LengthMismatch));
    assert_eq!(b.sub_vec(a, minus), Err(PhysicsError::LengthMismatch));
}

#[test]
fn empty_vectors_add_to_empty() {
    let a: Vec<f64> = Vec::new();
    let b: Vec<f64> = Vec::new();
    assert_eq!(a.add_vec(b, plus), Ok(Vec::new()));
}

#[test]
fn scaling_round_trip() {
    let v = vec![1.25, -7.5, 3.0e5, 0.0];
    for k in [3.0, -0.5, 1.0e-3] {
        let back = divide_by(&scale_by(&v, k), k);
        assert_eq!(back.len(), v.len());
        for i in 0..v.len() {
            assert!((back[i] - v[i]).abs() <= EPSILON * v[i].abs().max(1.0));
        }
    }
}

#[test]
fn scalar_mult_by_zero_and_negative() {
    let v = vec![1.0, -2.0, 3.0];
    assert_eq!(scale_by(&v, 0.0), vec![0.0, -0.0, 0.0]);
    assert_eq!(scale_by(&v, -2.0), vec![-2.0, 4.0, -6.0]);
    assert_eq!(v, vec![1.0, -2.0, 3.0]);
}

#[test]
fn divide_by_zero_is_positive_infinity() {
    // The sign of the element does not matter: this is the library's rule,
    // not IEEE division.
    let v = vec![-1.0, 0.0, 2.5];
    let w = divide_by(&v, 0.0);
    assert_eq!(w, vec![f64::INFINITY, f64::INFINITY, f64::INFINITY]);
    let empty: Vec<f64> = Vec::new();
    assert_eq!(divide_by(&empty, 0.0), Vec::<f64>::new());
}
