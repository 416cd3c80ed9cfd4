use vstd::prelude::*;

use crate::error::PhysicsError;

verus! {

// ---------------------------------------------------------------------------
// What the operations compute
// ---------------------------------------------------------------------------
/// `r` combines `a` and `b` element by element: each of its elements is a
/// result that `op` may give on the two elements at that index.
pub open spec fn is_zip_with<T, F: Fn(T, T) -> T>(op: F, a: Seq<T>, b: Seq<T>, r: Seq<T>) -> bool {
    &&& r.len() == a.len()
    &&& r.len() == b.len()
    &&& forall|i: int| 0 <= i < r.len() ==> op.ensures((a[i], b[i]), #[trigger] r[i])
}

/// What an element-wise operation on `a` and `b` returns: the combined vector when
/// the lengths agree, `LengthMismatch` when they do not.
pub open spec fn zip_result<T, F: Fn(T, T) -> T>(
    op: F,
    a: Seq<T>,
    b: Seq<T>,
    r: Result<Vec<T>, PhysicsError>,
) -> bool {
    if a.len() == b.len() {
        r matches Ok(v) && is_zip_with(op, a, b, v@)
    } else {
        r == Err::<Vec<T>, PhysicsError>(PhysicsError::LengthMismatch)
    }
}

/// `r` is `v` with each element combined with the scalar `k` through `op`.
pub open spec fn is_scaled<T, F: Fn(T, T) -> T>(op: F, v: Seq<T>, k: T, r: Seq<T>) -> bool {
    &&& r.len() == v.len()
    &&& forall|i: int| 0 <= i < r.len() ==> op.ensures((v[i], k), #[trigger] r[i])
}

/// The sequence of `n` copies of `x`.
pub open spec fn filled<T>(n: nat, x: T) -> Seq<T> {
    Seq::new(n, |i: int| x)
}

/// What dividing `v` by `k` returns: when `k` is zero every element is
/// `infinity`, whatever its sign; otherwise each element is divided by `k`.
pub open spec fn is_scalar_div<T, F: Fn(T, T) -> T, Z: Fn(T) -> bool>(
    quotient: F,
    is_zero: Z,
    infinity: T,
    v: Seq<T>,
    k: T,
    r: Seq<T>,
) -> bool {
    ||| is_zero.ensures((k,), true) && r == filled(v.len(), infinity)
    ||| is_zero.ensures((k,), false) && is_scaled(quotient, v, k, r)
}

/// `trace` is the run of partial sums of a dot product: it starts at `init`
/// and `step` adds the `i`th pair of elements to the `i`th partial sum.
pub open spec fn is_dot_trace<S, T, F: Fn(S, T, T) -> S>(
    step: F,
    init: S,
    a: Seq<T>,
    b: Seq<T>,
    trace: Seq<S>,
) -> bool {
    &&& a.len() == b.len()
    &&& trace.len() == a.len() + 1
    &&& trace[0] == init
    &&& forall|i: int|
        #![trigger a[i]]
        #![trigger step.ensures((trace[i], a[i], b[i]), trace[i + 1])]
        0 <= i < a.len() ==> step.ensures((trace[i], a[i], b[i]), trace[i + 1])
}

/// What the dot product of `a` and `b` returns: the last partial sum, narrowed
/// by `narrow`, when the lengths agree; `LengthMismatch` when they do not.
pub open spec fn dot_result<S, T, F: Fn(S, T, T) -> S, N: Fn(S) -> T>(
    step: F,
    init: S,
    narrow: N,
    a: Seq<T>,
    b: Seq<T>,
    r: Result<T, PhysicsError>,
) -> bool {
    if a.len() == b.len() {
        r matches Ok(x) && exists|trace: Seq<S>|
            #[trigger] is_dot_trace(step, init, a, b, trace) && narrow.ensures((trace[a.len() as int],), x)
    } else {
        r == Err::<T, PhysicsError>(PhysicsError::LengthMismatch)
    }
}

/// `trace` is the run of partial sums of squares: `step` adds the square of
/// the `i`th element to the `i`th partial sum.
pub open spec fn is_square_trace<S, T, F: Fn(S, T) -> S>(step: F, init: S, v: Seq<T>, trace: Seq<S>) -> bool {
    &&& trace.len() == v.len() + 1
    &&& trace[0] == init
    &&& forall|i: int|
        #![trigger v[i]]
        #![trigger step.ensures((trace[i], v[i]), trace[i + 1])]
        0 <= i < v.len() ==> step.ensures((trace[i], v[i]), trace[i + 1])
}

/// What the Euclidean norm of `v` is: `zero` for the empty vector, otherwise
/// `root` of the sum of the squares.
pub open spec fn is_norm<S, T, F: Fn(S, T) -> S, N: Fn(S) -> T>(
    step: F,
    init: S,
    root: N,
    zero: T,
    v: Seq<T>,
    r: T,
) -> bool {
    if v.len() == 0 {
        r == zero
    } else {
        exists|trace: Seq<S>|
            #[trigger] is_square_trace(step, init, v, trace) && root.ensures((trace[v.len() as int],), r)
    }
}

// ---------------------------------------------------------------------------
// The operations, as methods on `Vec`
// ---------------------------------------------------------------------------
/// Combines two equal-length vectors element by element.
fn zip_with<T: Copy, F: Fn(T, T) -> T>(a: &Vec<T>, b: &Vec<T>, op: &F) -> (r: Result<Vec<T>, PhysicsError>)
    requires
        forall|x: T, y: T| op.requires((x, y)),
    ensures
        zip_result(*op, a@, b@, r),
{
    if a.len() != b.len() {
        return Err(PhysicsError::LengthMismatch);
    }
    let mut out: Vec<T> = Vec::with_capacity(a.len());
    let mut i: usize = 0;
    while i < a.len()
        invariant
            a@.len() == b@.len(),
            i <= a@.len(),
            out@.len() == i,
            forall|x: T, y: T| op.requires((x, y)),
            forall|j: int| 0 <= j < i ==> #[trigger] op.ensures((a@[j], b@[j]), out@[j]),
        decreases a@.len() - i,
    {
        let x = op(a[i], b[i]);
        out.push(x);
        i = i + 1;
    }
    Ok(out)
}

/// Combines each element of a vector with one scalar.
fn scale_with<T: Copy, F: Fn(T, T) -> T>(v: &Vec<T>, k: T, op: &F) -> (r: Vec<T>)
    requires
        forall|x: T, y: T| op.requires((x, y)),
    ensures
        is_scaled(*op, v@, k, r@),
{
    let mut out: Vec<T> = Vec::with_capacity(v.len());
    let mut i: usize = 0;
    while i < v.len()
        invariant
            i <= v@.len(),
            out@.len() == i,
            forall|x: T, y: T| op.requires((x, y)),
            forall|j: int| 0 <= j < i ==> #[trigger] op.ensures((v@[j], k), out@[j]),
        decreases v@.len() - i,
    {
        let x = op(v[i], k);
        out.push(x);
        i = i + 1;
    }
    out
}

/// Dot product of two vectors.
pub trait Dot<T>: Sized + View<V = Seq<T>> {
    /// Sums `step` over the pairs of elements, starting from `init`, in an
    /// accumulator type `S` that may be wider than `T`, and narrows the sum with
    /// `narrow`. Two empty vectors give `narrow(init)`. `LengthMismatch` when the
    /// lengths differ.
    fn dot<S, F: Fn(S, T, T) -> S, N: Fn(S) -> T>(
        self,
        v2: Vec<T>,
        init: S,
        step: F,
        narrow: N,
    ) -> (r: Result<T, PhysicsError>)
        requires
            forall|s: S, x: T, y: T| step.requires((s, x, y)),
            forall|s: S| narrow.requires((s,)),
        ensures
            dot_result(step, init, narrow, self@, v2@, r),
    ;
}

/// Multiplication of a vector by a scalar.
pub trait ScalarMult<T>: Sized + View<V = Seq<T>> {
    /// A new vector holding `product(x, k)` for each element `x`; `self` is left as it was.
    fn scalar_mult<F: Fn(T, T) -> T>(&self, k: T, product: F) -> (r: Vec<T>)
        requires
            forall|x: T, y: T| product.requires((x, y)),
        ensures
            is_scaled(product, self@, k, r@),
    ;
}

/// Division of a vector by a scalar.
pub trait ScalarDiv<T>: Sized + View<V = Seq<T>> {
    /// A new vector holding `quotient(x, k)` for each element `x`, or, when `is_zero`
    /// says that `k` is zero, `infinity` in every place; `self` is left as it was.
    fn scalar_div<F: Fn(T, T) -> T, Z: Fn(T) -> bool>(&self, k: T, quotient: F, is_zero: Z, infinity: T) -> (r: Vec<T>)
        requires
            forall|x: T, y: T| quotient.requires((x, y)),
            forall|x: T| is_zero.requires((x,)),
        ensures
            is_scalar_div(quotient, is_zero, infinity, self@, k, r@),
    ;
}

/// Element-wise sum of two vectors.
pub trait AddVec<T>: Sized + View<V = Seq<T>> {
    /// The vector whose `i`th element is `sum` of the `i`th elements of `self`
    /// and `v2`; `LengthMismatch` when the lengths differ.
    fn add_vec<F: Fn(T, T) -> T>(self, v2: Vec<T>, sum: F) -> (r: Result<Vec<T>, PhysicsError>)
        requires
            forall|x: T, y: T| sum.requires((x, y)),
        ensures
            zip_result(sum, self@, v2@, r),
    ;
}

/// Element-wise difference of two vectors.
pub trait SubVec<T>: Sized + View<V = Seq<T>> {
    /// The vector whose `i`th element is `difference` of the `i`th elements of `self`
    /// and `v2`; `LengthMismatch` when the lengths differ.
    fn sub_vec<F: Fn(T, T) -> T>(self, v2: Vec<T>, difference: F) -> (r: Result<Vec<T>, PhysicsError>)
        requires
            forall|x: T, y: T| difference.requires((x, y)),
        ensures
            zip_result(difference, self@, v2@, r),
    ;
}

/// Euclidean norm (length) of a vector.
pub trait EuclideanNorm<T>: Sized + View<V = Seq<T>> {
    /// `zero` for the empty vector; otherwise `root` of the sum of squares,
    /// summed by `step` from `init` in an accumulator type `S`.
    fn euc_norm<S, F: Fn(S, T) -> S, N: Fn(S) -> T>(self, init: S, step: F, root: N, zero: T) -> (r: T)
        requires
            forall|s: S, x: T| step.requires((s, x)),
            forall|s: S| root.requires((s,)),
        ensures
            is_norm(step, init, root, zero, self@, r),
    ;
}

impl<T: Copy> Dot<T> for Vec<T> {
    fn dot<S, F: Fn(S, T, T) -> S, N: Fn(S) -> T>(
        self,
        v2: Vec<T>,
        init: S,
        step: F,
        narrow: N,
    ) -> (r: Result<T, PhysicsError>) {
        if self.len() != v2.len() {
            return Err(PhysicsError::LengthMismatch);
        }
        let ghost mut trace: Seq<S> = seq![init];
        let mut acc = init;
        let mut i: usize = 0;
        while i < self.len()
            invariant
                self@.len() == v2@.len(),
                i <= self@.len(),
                trace.len() == i + 1,
                trace[0] == init,
                trace[i as int] == acc,
                forall|s: S, x: T, y: T| step.requires((s, x, y)),
                forall|j: int| 0 <= j < i ==> #[trigger] step.ensures((trace[j], self@[j], v2@[j]), trace[j + 1]),
            decreases self@.len() - i,
        {
            acc = step(acc, self[i], v2[i]);
            proof {
                trace = trace.push(acc);
            }
            i = i + 1;
        }
        let x = narrow(acc);
        assert(is_dot_trace(step, init, self@, v2@, trace));
        Ok(x)
    }
}

impl<T: Copy> ScalarMult<T> for Vec<T> {
    fn scalar_mult<F: Fn(T, T) -> T>(&self, k: T, product: F) -> (r: Vec<T>) {
        scale_with(self, k, &product)
    }
}

impl<T: Copy> ScalarDiv<T> for Vec<T> {
    fn scalar_div<F: Fn(T, T) -> T, Z: Fn(T) -> bool>(&self, k: T, quotient: F, is_zero: Z, infinity: T) -> (r: Vec<T>) {
        if is_zero(k) {
            let mut out: Vec<T> = Vec::with_capacity(self.len());
            let mut i: usize = 0;
            while i < self.len()
                invariant
                    i <= self@.len(),
                    out@ == filled(i as nat, infinity),
                decreases self@.len() - i,
            {
                out.push(infinity);
                i = i + 1;
                assert(out@ =~= filled(i as nat, infinity));
            }
            out
        } else {
            scale_with(self, k, &quotient)
        }
    }
}

impl<T: Copy> AddVec<T> for Vec<T> {
    fn add_vec<F: Fn(T, T) -> T>(self, v2: Vec<T>, sum: F) -> (r: Result<Vec<T>, PhysicsError>) {
        zip_with(&self, &v2, &sum)
    }
}

impl<T: Copy> SubVec<T> for Vec<T> {
    fn sub_vec<F: Fn(T, T) -> T>(self, v2: Vec<T>, difference: F) -> (r: Result<Vec<T>, PhysicsError>) {
        zip_with(&self, &v2, &difference)
    }
}

impl<T: Copy> EuclideanNorm<T> for Vec<T> {
    fn euc_norm<S, F: Fn(S, T) -> S, N: Fn(S) -> T>(self, init: S, step: F, root: N, zero: T) -> (r: T) {
        if self.len() == 0 {
            return zero;
        }
        let ghost mut trace: Seq<S> = seq![init];
        let mut acc = init;
        let mut i: usize = 0;
        while i < self.len()
            invariant
                i <= self@.len(),
                trace.len() == i + 1,
                trace[0] == init,
                trace[i as int] == acc,
                forall|s: S, x: T| step.requires((s, x)),
                forall|j: int| 0 <= j < i ==> #[trigger] step.ensures((trace[j], self@[j]), trace[j + 1]),
            decreases self@.len() - i,
        {
            acc = step(acc, self[i]);
            proof {
                trace = trace.push(acc);
            }
            i = i + 1;
        }
        let x = root(acc);
        assert(is_square_trace(step, init, self@, trace));
        x
    }
}

// ---------------------------------------------------------------------------
// Laws
// ---------------------------------------------------------------------------
/// The dot product is commutative: when `step` treats its two element
/// arguments alike (as `acc + x * y` does), every result of `a · b` is also a
/// result of `b · a`. For a deterministic `step` the two are equal.
pub proof fn lemma_dot_commutes<S, T, F: Fn(S, T, T) -> S, N: Fn(S) -> T>(
    step: F,
    init: S,
    narrow: N,
    a: Seq<T>,
    b: Seq<T>,
    r: Result<T, PhysicsError>,
)
    requires
        forall|s: S, x: T, y: T, o: S| #[trigger] step.ensures((s, x, y), o) ==> step.ensures((s, y, x), o),
        dot_result(step, init, narrow, a, b, r),
    ensures
        dot_result(step, init, narrow, b, a, r),
{
    if a.len() == b.len() {
        let x = r->Ok_0;
        let trace = choose|trace: Seq<S>|
            #[trigger] is_dot_trace(step, init, a, b, trace) && narrow.ensures((trace[a.len() as int],), x);
        assert forall|i: int| 0 <= i < b.len() implies #[trigger] step.ensures((trace[i], b[i], a[i]), trace[i + 1]) by {
            assert(step.ensures((trace[i], a[i], b[i]), trace[i + 1]));
        }
        assert(is_dot_trace(step, init, b, a, trace));
    }
}

/// The Euclidean norm is never negative, and the norm of the empty vector is
/// `zero`: with `nonnegative` the sign test on the scalar type, this holds as
/// long as `zero` passes it and every root that `root` gives does.
pub proof fn lemma_norm_nonnegative<S, T, F: Fn(S, T) -> S, N: Fn(S) -> T>(
    step: F,
    init: S,
    root: N,
    zero: T,
    nonnegative: spec_fn(T) -> bool,
    v: Seq<T>,
    r: T,
)
    requires
        nonnegative(zero),
        forall|s: S, x: T| #[trigger] root.ensures((s,), x) ==> nonnegative(x),
        is_norm(step, init, root, zero, v, r),
    ensures
        nonnegative(r),
        v.len() == 0 ==> r == zero,
{
    if v.len() != 0 {
        let trace = choose|trace: Seq<S>|
            #[trigger] is_square_trace(step, init, v, trace) && root.ensures((trace[v.len() as int],), r);
        assert(root.ensures((trace[v.len() as int],), r));
    }
}

/// Vectors of unequal length are refused with `LengthMismatch` by the dot
/// product, by addition and by subtraction alike.
pub proof fn lemma_length_mismatch<S, T, F: Fn(S, T, T) -> S, N: Fn(S) -> T, A: Fn(T, T) -> T, B: Fn(T, T) -> T>(
    step: F,
    init: S,
    narrow: N,
    sum: A,
    difference: B,
    a: Seq<T>,
    b: Seq<T>,
    dot_r: Result<T, PhysicsError>,
    add_r: Result<Vec<T>, PhysicsError>,
    sub_r: Result<Vec<T>, PhysicsError>,
)
    requires
        a.len() != b.len(),
        dot_result(step, init, narrow, a, b, dot_r),
        zip_result(sum, a, b, add_r),
        zip_result(difference, a, b, sub_r),
    ensures
        dot_r == Err::<T, PhysicsError>(PhysicsError::LengthMismatch),
        add_r == Err::<Vec<T>, PhysicsError>(PhysicsError::LengthMismatch),
        sub_r == Err::<Vec<T>, PhysicsError>(PhysicsError::LengthMismatch),
{
}

/// Multiplying a vector by a non-zero `k` and dividing the result by `k` gives
/// back the vector, element by element, to within `close`, as long as dividing
/// by `k` undoes multiplying by `k` to within `close` on single scalars.
pub proof fn lemma_scale_round_trip<T, M: Fn(T, T) -> T, D: Fn(T, T) -> T, Z: Fn(T) -> bool>(
    product: M,
    quotient: D,
    is_zero: Z,
    infinity: T,
    close: spec_fn(T, T) -> bool,
    v: Seq<T>,
    k: T,
    scaled: Seq<T>,
    back: Seq<T>,
)
    requires
        forall|z: bool| #[trigger] is_zero.ensures((k,), z) ==> !z,
        forall|x: T, y: T, z: T|
            #[trigger] product.ensures((x, k), y) && #[trigger] quotient.ensures((y, k), z) ==> close(z, x),
        is_scaled(product, v, k, scaled),
        is_scalar_div(quotient, is_zero, infinity, scaled, k, back),
    ensures
        back.len() == v.len(),
        forall|i: int| 0 <= i < v.len() ==> close(#[trigger] back[i], v[i]),
{
    assert(is_scaled(quotient, scaled, k, back));
    assert forall|i: int| 0 <= i < v.len() implies close(#[trigger] back[i], v[i]) by {
        assert(product.ensures((v[i], k), scaled[i]));
        assert(quotient.ensures((scaled[i], k), back[i]));
    }
}

/// Dividing by zero gives positive infinity in every place, whatever the
/// elements are, negative ones included.
pub proof fn lemma_divide_by_zero<T, D: Fn(T, T) -> T, Z: Fn(T) -> bool>(
    quotient: D,
    is_zero: Z,
    infinity: T,
    v: Seq<T>,
    k: T,
    r: Seq<T>,
)
    requires
        forall|z: bool| #[trigger] is_zero.ensures((k,), z) ==> z,
        is_scalar_div(quotient, is_zero, infinity, v, k, r),
    ensures
        r.len() == v.len(),
        forall|i: int| 0 <= i < r.len() ==> #[trigger] r[i] == infinity,
{
}

} // verus!
