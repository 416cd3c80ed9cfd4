//! Equations of uniformly accelerated motion on vectors, and the work done by
//! a constant force.
//!
//! Time and distance are elapsed quantities: a negative one is refused with
//! `InvalidArgument`. That is a convention of this library, not something the
//! formulas themselves need. A zero time is accepted, and where a formula
//! divides by it the division-by-zero rule of `ScalarDiv` applies.
use vstd::prelude::*;

use crate::error::PhysicsError;
use crate::vector::{
    is_scalar_div, is_scaled, is_zip_with, zip_result, AddVec, ScalarDiv, ScalarMult, SubVec,
};

verus! {

/// What `first_velocity` returns: `v_i + acc * time`, refused when `time` is
/// negative or when the two vectors differ in length.
pub open spec fn first_velocity_result<T, P: Fn(T) -> bool, M: Fn(T, T) -> T, A: Fn(T, T) -> T>(
    nonnegative: P,
    product: M,
    sum: A,
    acc: Seq<T>,
    v_i: Seq<T>,
    time: T,
    r: Result<Vec<T>, PhysicsError>,
) -> bool {
    ||| nonnegative.ensures((time,), false) && r == Err::<Vec<T>, PhysicsError>(PhysicsError::InvalidArgument)
    ||| nonnegative.ensures((time,), true) && exists|scaled: Seq<T>|
        #[trigger] is_scaled(product, acc, time, scaled) && zip_result(sum, v_i, scaled, r)
}

/// What `first_accel` returns: `(v_f - v_i) / time`, refused when `time` is
/// negative or when the two vectors differ in length.
pub open spec fn first_accel_result<
    T,
    P: Fn(T) -> bool,
    B: Fn(T, T) -> T,
    D: Fn(T, T) -> T,
    Z: Fn(T) -> bool,
>(
    nonnegative: P,
    difference: B,
    quotient: D,
    is_zero: Z,
    infinity: T,
    v_f: Seq<T>,
    v_i: Seq<T>,
    time: T,
    r: Result<Vec<T>, PhysicsError>,
) -> bool {
    ||| nonnegative.ensures((time,), false) && r == Err::<Vec<T>, PhysicsError>(PhysicsError::InvalidArgument)
    ||| nonnegative.ensures((time,), true) && v_f.len() != v_i.len()
        && r == Err::<Vec<T>, PhysicsError>(PhysicsError::LengthMismatch)
    ||| nonnegative.ensures((time,), true) && v_f.len() == v_i.len() && (r matches Ok(a) && exists|diff: Seq<T>|
        #[trigger] is_zip_with(difference, v_f, v_i, diff) && is_scalar_div(quotient, is_zero, infinity, diff, time, a@))
}

/// The terms of `x_i + v_i * time + acc * time² / 2`, each as the operations
/// compute it: `vt = v_i * time`, `t2 = time * time`, `at2 = acc * t2`,
/// `half = at2 / two`, `xv = x_i + vt`, and `x = xv + half`.
pub open spec fn is_position<T, M: Fn(T, T) -> T, D: Fn(T, T) -> T, Z: Fn(T) -> bool, A: Fn(T, T) -> T>(
    product: M,
    quotient: D,
    is_zero: Z,
    infinity: T,
    two: T,
    sum: A,
    x_i: Seq<T>,
    v_i: Seq<T>,
    time: T,
    acc: Seq<T>,
    vt: Seq<T>,
    t2: T,
    at2: Seq<T>,
    half: Seq<T>,
    xv: Seq<T>,
    x: Seq<T>,
) -> bool {
    &&& is_scaled(product, v_i, time, vt)
    &&& product.ensures((time, time), t2)
    &&& is_scaled(product, acc, t2, at2)
    &&& is_scalar_div(quotient, is_zero, infinity, at2, two, half)
    &&& is_zip_with(sum, x_i, vt, xv)
    &&& is_zip_with(sum, xv, half, x)
}

/// What `second_position` returns: `x_i + v_i * time + acc * time² / 2`,
/// refused when `time` is negative or when the three vectors differ in length.
pub open spec fn second_position_result<
    T,
    P: Fn(T) -> bool,
    M: Fn(T, T) -> T,
    D: Fn(T, T) -> T,
    Z: Fn(T) -> bool,
    A: Fn(T, T) -> T,
>(
    nonnegative: P,
    product: M,
    quotient: D,
    is_zero: Z,
    infinity: T,
    two: T,
    sum: A,
    x_i: Seq<T>,
    v_i: Seq<T>,
    time: T,
    acc: Seq<T>,
    r: Result<Vec<T>, PhysicsError>,
) -> bool {
    ||| nonnegative.ensures((time,), false) && r == Err::<Vec<T>, PhysicsError>(PhysicsError::InvalidArgument)
    ||| nonnegative.ensures((time,), true) && (x_i.len() != v_i.len() || x_i.len() != acc.len())
        && r == Err::<Vec<T>, PhysicsError>(PhysicsError::LengthMismatch)
    ||| nonnegative.ensures((time,), true) && x_i.len() == v_i.len() && x_i.len() == acc.len() && (r matches Ok(x)
        && exists|vt: Seq<T>, t2: T, at2: Seq<T>, half: Seq<T>, xv: Seq<T>|
        #[trigger] is_position(product, quotient, is_zero, infinity, two, sum, x_i, v_i, time, acc, vt, t2, at2, half, xv, x@))
}

/// What `work` returns: `(f * cos(theta)) * d`, refused when `d` is negative.
pub open spec fn work_result<T, P: Fn(T) -> bool, C: Fn(T) -> T, M: Fn(T, T) -> T>(
    nonnegative: P,
    cos: C,
    product: M,
    f: T,
    theta: T,
    d: T,
    r: Result<T, PhysicsError>,
) -> bool {
    ||| nonnegative.ensures((d,), false) && r == Err::<T, PhysicsError>(PhysicsError::InvalidArgument)
    ||| nonnegative.ensures((d,), true) && (r matches Ok(w) && exists|c: T, fc: T|
        #[trigger] cos.ensures((theta,), c) && #[trigger] product.ensures((f, c), fc) && product.ensures((fc, d), w))
}

/// First equation of motion: the velocity reached from `v_i` after a constant
/// acceleration `acc` during `time`, that is `v_i + acc * time`.
///
/// `nonnegative` tells whether a scalar is at least zero (a `NaN` time is not);
/// `product` and `sum` are the scalar product and sum.
pub fn first_velocity<T: Copy, P: Fn(T) -> bool, M: Fn(T, T) -> T, A: Fn(T, T) -> T>(
    acc: Vec<T>,
    v_i: Vec<T>,
    time: T,
    nonnegative: P,
    product: M,
    sum: A,
) -> (r: Result<Vec<T>, PhysicsError>)
    requires
        forall|x: T| nonnegative.requires((x,)),
        forall|x: T, y: T| product.requires((x, y)),
        forall|x: T, y: T| sum.requires((x, y)),
    ensures
        first_velocity_result(nonnegative, product, sum, acc@, v_i@, time, r),
{
    if !nonnegative(time) {
        return Err(PhysicsError::InvalidArgument);
    }
    let scaled = acc.scalar_mult(time, product);
    let r = v_i.add_vec(scaled, sum);
    assert(is_scaled(product, acc@, time, scaled@));
    r
}

/// First equation of motion solved for the acceleration: the constant
/// acceleration that takes `v_i` to `v_f` in `time`, that is
/// `(v_f - v_i) / time`. A zero time gives infinity in every place.
pub fn first_accel<
    T: Copy,
    P: Fn(T) -> bool,
    B: Fn(T, T) -> T,
    D: Fn(T, T) -> T,
    Z: Fn(T) -> bool,
>(
    v_f: Vec<T>,
    v_i: Vec<T>,
    time: T,
    nonnegative: P,
    difference: B,
    quotient: D,
    is_zero: Z,
    infinity: T,
) -> (r: Result<Vec<T>, PhysicsError>)
    requires
        forall|x: T| nonnegative.requires((x,)),
        forall|x: T, y: T| difference.requires((x, y)),
        forall|x: T, y: T| quotient.requires((x, y)),
        forall|x: T| is_zero.requires((x,)),
    ensures
        first_accel_result(nonnegative, difference, quotient, is_zero, infinity, v_f@, v_i@, time, r),
{
    if !nonnegative(time) {
        return Err(PhysicsError::InvalidArgument);
    }
    let ghost vf = v_f@;
    let ghost vi = v_i@;
    match v_f.sub_vec(v_i, difference) {
        Err(e) => Err(e),
        Ok(diff) => {
            let a = diff.scalar_div(time, quotient, is_zero, infinity);
            assert(is_zip_with(difference, vf, vi, diff@));
            Ok(a)
        },
    }
}

/// Second equation of motion: the position reached from `x_i` with initial
/// velocity `v_i` and constant acceleration `acc` after `time`, that is
/// `x_i + v_i * time + acc * time² / 2`. `two` is the scalar 2.
pub fn second_position<
    T: Copy,
    P: Fn(T) -> bool,
    M: Fn(T, T) -> T,
    D: Fn(T, T) -> T,
    Z: Fn(T) -> bool,
    A: Fn(T, T) -> T,
>(
    x_i: Vec<T>,
    v_i: Vec<T>,
    time: T,
    acc: Vec<T>,
    nonnegative: P,
    product: M,
    quotient: D,
    is_zero: Z,
    infinity: T,
    two: T,
    sum: A,
) -> (r: Result<Vec<T>, PhysicsError>)
    requires
        forall|x: T| nonnegative.requires((x,)),
        forall|x: T, y: T| product.requires((x, y)),
        forall|x: T, y: T| quotient.requires((x, y)),
        forall|x: T| is_zero.requires((x,)),
        forall|x: T, y: T| sum.requires((x, y)),
    ensures
        second_position_result(nonnegative, product, quotient, is_zero, infinity, two, sum, x_i@, v_i@, time, acc@, r),
{
    if !nonnegative(time) {
        return Err(PhysicsError::InvalidArgument);
    }
    let ghost xi = x_i@;
    let vt = v_i.scalar_mult(time, &product);
    let t2 = product(time, time);
    let at2 = acc.scalar_mult(t2, &product);
    let half = at2.scalar_div(two, quotient, is_zero, infinity);
    let ghost vt_s = vt@;
    let ghost half_s = half@;
    match x_i.add_vec(vt, &sum) {
        Err(e) => Err(e),
        Ok(xv) => {
            let ghost xv_s = xv@;
            match xv.add_vec(half, &sum) {
                Err(e) => Err(e),
                Ok(x) => {
                    assert(is_position(
                        product, quotient, is_zero, infinity, two, sum, xi, v_i@, time, acc@, vt_s, t2, at2@, half_s, xv_s, x@,
                    ));
                    Ok(x)
                },
            }
        },
    }
}

/// Work done by a constant force `f` acting at angle `theta` (in radians) to
/// the displacement, over a distance `d`: `(f * cos(theta)) * d`.
pub fn work<T: Copy, P: Fn(T) -> bool, C: Fn(T) -> T, M: Fn(T, T) -> T>(
    f: &T,
    theta: &T,
    d: &T,
    nonnegative: P,
    cos: C,
    product: M,
) -> (r: Result<T, PhysicsError>)
    requires
        forall|x: T| nonnegative.requires((x,)),
        forall|x: T| cos.requires((x,)),
        forall|x: T, y: T| product.requires((x, y)),
    ensures
        work_result(nonnegative, cos, product, *f, *theta, *d, r),
{
    if !nonnegative(*d) {
        return Err(PhysicsError::InvalidArgument);
    }
    let c = cos(*theta);
    let fc = product(*f, c);
    Ok(product(fc, *d))
}

} // verus!
