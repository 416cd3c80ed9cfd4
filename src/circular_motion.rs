//! Uniform circular motion: speed and centripetal acceleration on a circular
//! path. A negative radius or period is refused with `InvalidArgument`.
use vstd::prelude::*;

use crate::error::PhysicsError;

verus! {

/// What `average_speed` returns: `(two * pi) * r / period`, refused when the
/// radius or the period is negative.
pub open spec fn average_speed_result<T, P: Fn(T) -> bool, M: Fn(T, T) -> T, D: Fn(T, T) -> T>(
    nonnegative: P,
    product: M,
    quotient: D,
    two: T,
    pi: T,
    period: T,
    r: T,
    res: Result<T, PhysicsError>,
) -> bool {
    ||| (nonnegative.ensures((r,), false) || nonnegative.ensures((period,), false))
        && res == Err::<T, PhysicsError>(PhysicsError::InvalidArgument)
    ||| nonnegative.ensures((r,), true) && nonnegative.ensures((period,), true) && (res matches Ok(s)
        && exists|tp: T, tpr: T|
        #[trigger] product.ensures((two, pi), tp) && #[trigger] product.ensures((tp, r), tpr)
            && quotient.ensures((tpr, period), s))
}

/// What `acceleration` returns: `(v * v) / r`, refused when the radius is negative.
pub open spec fn acceleration_result<T, P: Fn(T) -> bool, M: Fn(T, T) -> T, D: Fn(T, T) -> T>(
    nonnegative: P,
    product: M,
    quotient: D,
    v: T,
    r: T,
    res: Result<T, PhysicsError>,
) -> bool {
    ||| nonnegative.ensures((r,), false) && res == Err::<T, PhysicsError>(PhysicsError::InvalidArgument)
    ||| nonnegative.ensures((r,), true) && (res matches Ok(a) && exists|vv: T|
        #[trigger] product.ensures((v, v), vv) && quotient.ensures((vv, r), a))
}

/// The average speed along a circle of radius `r` covered once per `period`:
/// `2π r / period`. `two` and `pi` are the scalars 2 and π.
pub fn average_speed<T: Copy, P: Fn(T) -> bool, M: Fn(T, T) -> T, D: Fn(T, T) -> T>(
    period: T,
    r: T,
    nonnegative: P,
    product: M,
    quotient: D,
    two: T,
    pi: T,
) -> (res: Result<T, PhysicsError>)
    requires
        forall|x: T| nonnegative.requires((x,)),
        forall|x: T, y: T| product.requires((x, y)),
        forall|x: T, y: T| quotient.requires((x, y)),
    ensures
        average_speed_result(nonnegative, product, quotient, two, pi, period, r, res),
{
    if !nonnegative(r) {
        return Err(PhysicsError::InvalidArgument);
    }
    if !nonnegative(period) {
        return Err(PhysicsError::InvalidArgument);
    }
    let tp = product(two, pi);
    let tpr = product(tp, r);
    Ok(quotient(tpr, period))
}

/// The centripetal acceleration of a body moving at speed `v` on a circle of
/// radius `r`: `v² / r`.
pub fn acceleration<T: Copy, P: Fn(T) -> bool, M: Fn(T, T) -> T, D: Fn(T, T) -> T>(
    v: T,
    r: T,
    nonnegative: P,
    product: M,
    quotient: D,
) -> (res: Result<T, PhysicsError>)
    requires
        forall|x: T| nonnegative.requires((x,)),
        forall|x: T, y: T| product.requires((x, y)),
        forall|x: T, y: T| quotient.requires((x, y)),
    ensures
        acceleration_result(nonnegative, product, quotient, v, r, res),
{
    if !nonnegative(r) {
        return Err(PhysicsError::InvalidArgument);
    }
    let vv = product(v, v);
    Ok(quotient(vv, r))
}

} // verus!
