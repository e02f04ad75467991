use vstd::prelude::*;

use crate::errors::MathError;

verus! {

/// The coefficient Simpson's composite rule assigns to sample index `i`
/// in a sequence of `len` samples: 1 at the first and last index, 4 at
/// odd interior indices, 2 at even interior indices. Classification is by
/// index parity alone, so a sequence lengthened by one drifted point is
/// still weighted uniformly.
pub open spec fn simpson_weight(i: int, len: int) -> u32 {
    if i == 0 || i == len - 1 {
        1u32
    } else if i % 2 == 1 {
        4u32
    } else {
        2u32
    }
}

/// The coefficient the composite trapezoidal rule assigns to sample index
/// `i` in a sequence of `len` samples: 1 at the first and last index, 2
/// everywhere inside.
pub open spec fn trapezoid_weight(i: int, len: int) -> u32 {
    if i == 0 || i == len - 1 {
        1u32
    } else {
        2u32
    }
}

/// Validation for sequence generation alone: a sample walk needs a
/// positive step count, or the interval it is built from would be
/// degenerate, but it has no parity demand. A non-positive count fails
/// with `InvalidStepCount`.
pub fn validate_step_count(steps: i32) -> (r: Result<(), MathError>)
    ensures
        r is Ok <==> steps > 0,
        steps > 0 ==> r == Ok::<(), MathError>(()),
        steps <= 0 ==> r == Err::<(), MathError>(MathError::InvalidStepCount),
{
    if steps <= 0 {
        return Err(MathError::InvalidStepCount);
    }
    Ok(())
}

/// Shared input validation for both quadrature rules.
///
/// `bounds_inverted` is the caller's verdict of `lower > upper` on its
/// scalar type. The request is accepted exactly when the bounds are in
/// order and the step count is positive and even; inverted bounds fail
/// with `InvalidBounds`, and a non-positive or odd step count fails with
/// `InvalidStepCount`, in that order of precedence. The even count is
/// demanded by Simpson's pairing and kept for the trapezoidal rule as a
/// shared contract.
pub fn validate_integration_request(bounds_inverted: bool, steps: i32) -> (r: Result<
    (),
    MathError,
>)
    ensures
        r is Ok <==> !bounds_inverted && steps > 0 && steps % 2 == 0,
        !bounds_inverted && steps > 0 && steps % 2 == 0 ==> r == Ok::<(), MathError>(()),
        bounds_inverted ==> r == Err::<(), MathError>(MathError::InvalidBounds),
        !bounds_inverted && (steps <= 0 || steps % 2 != 0) ==> r == Err::<(), MathError>(
            MathError::InvalidStepCount,
        ),
{
    if bounds_inverted {
        return Err(MathError::InvalidBounds);
    }
    if steps <= 0 || steps % 2 != 0 {
        return Err(MathError::InvalidStepCount);
    }
    Ok(())
}

/// Returns the Simpson coefficient vector for a sample sequence of `len`
/// points: element `i` is exactly `simpson_weight(i, len)`.
pub fn simpson_coefficients(len: usize) -> (r: Vec<u32>)
    requires
        len >= 1,
    ensures
        r@.len() == len,
        forall|i: int| 0 <= i < len ==> #[trigger] r@[i] == simpson_weight(i, len as int),
{
    let mut r: Vec<u32> = Vec::new();
    let mut i: usize = 0;
    while i < len
        invariant
            i <= len,
            r@.len() == i,
            forall|k: int| 0 <= k < i ==> #[trigger] r@[k] == simpson_weight(k, len as int),
        decreases len - i,
    {
        if i == 0 || i == len - 1 {
            r.push(1);
        } else if i % 2 == 1 {
            r.push(4);
        } else {
            r.push(2);
        }
        i += 1;
    }
    r
}

/// Returns the trapezoidal coefficient vector for a sample sequence of
/// `len` points: element `i` is exactly `trapezoid_weight(i, len)`.
pub fn trapezoid_coefficients(len: usize) -> (r: Vec<u32>)
    requires
        len >= 1,
    ensures
        r@.len() == len,
        forall|i: int| 0 <= i < len ==> #[trigger] r@[i] == trapezoid_weight(i, len as int),
{
    let mut r: Vec<u32> = Vec::new();
    let mut i: usize = 0;
    while i < len
        invariant
            i <= len,
            r@.len() == i,
            forall|k: int| 0 <= k < i ==> #[trigger] r@[k] == trapezoid_weight(k, len as int),
        decreases len - i,
    {
        if i == 0 || i == len - 1 {
            r.push(1);
        } else {
            r.push(2);
        }
        i += 1;
    }
    r
}

/// The relation between one sample, its coefficient and the term built
/// from them by [`weighted_terms`]: some function value `y` of the sample
/// `x` under `f` satisfies `t == weight(y, c)`.
pub open spec fn is_weighted_term<T, F: Fn(T) -> T, W: Fn(T, u32) -> T>(
    f: F,
    weight: W,
    x: T,
    c: u32,
    t: T,
) -> bool {
    exists|y: T|
        #![trigger f.ensures((x,), y)]
        f.ensures((x,), y) && weight.ensures((y, c), t)
}

/// Evaluates the integrand once per sample point, in ascending index
/// order, and pairs each function value with the coefficient of the same
/// index: element `i` of the result is `weight(f(values[i]),
/// coefficients[i])`. A caller integrating over numeric scalars passes
/// the weighting `(y, c) -> y * c`.
pub fn weighted_terms<T: Copy, F: Fn(T) -> T, W: Fn(T, u32) -> T>(
    values: &Vec<T>,
    coefficients: &Vec<u32>,
    f: F,
    weight: W,
) -> (r: Vec<T>)
    requires
        values@.len() == coefficients@.len(),
        forall|i: int| 0 <= i < values@.len() ==> f.requires((#[trigger] values@[i],)),
        forall|i: int, y: T| #![trigger f.ensures((values@[i],), y)]
            0 <= i < values@.len() && f.ensures((values@[i],), y) ==> weight.requires(
                (y, coefficients@[i]),
            ),
    ensures
        r@.len() == values@.len(),
        forall|i: int|
            0 <= i < values@.len() ==> #[trigger] is_weighted_term(
                f,
                weight,
                values@[i],
                coefficients@[i],
                r@[i],
            ),
{
    let mut r: Vec<T> = Vec::new();
    let ghost mut ys: Seq<T> = Seq::empty();
    let mut i: usize = 0;
    while i < values.len()
        invariant
            values@.len() == coefficients@.len(),
            forall|i2: int| 0 <= i2 < values@.len() ==> f.requires((#[trigger] values@[i2],)),
            forall|i2: int, y: T| #![trigger f.ensures((values@[i2],), y)]
                0 <= i2 < values@.len() && f.ensures((values@[i2],), y) ==> weight.requires(
                    (y, coefficients@[i2]),
                ),
            i <= values@.len(),
            r@.len() == i,
            ys.len() == i,
            forall|k: int| 0 <= k < i ==> f.ensures((values@[k],), #[trigger] ys[k]),
            forall|k: int|
                0 <= k < i ==> weight.ensures((ys[k], coefficients@[k]), #[trigger] r@[k]),
        decreases values@.len() - i,
    {
        let y = f(values[i]);
        let t = weight(y, coefficients[i]);
        r.push(t);
        proof {
            ys = ys.push(y);
        }
        i += 1;
    }
    proof {
        assert forall|k: int| 0 <= k < values@.len() implies #[trigger] is_weighted_term(
            f,
            weight,
            values@[k],
            coefficients@[k],
            r@[k],
        ) by {
            assert(f.ensures((values@[k],), ys[k]) && weight.ensures(
                (ys[k], coefficients@[k]),
                r@[k],
            ));
        }
    }
    r
}

/// The accumulation relation behind [`accumulate`]: `partials` records the
/// running value after each addition, starting from `init` and folding in
/// the terms strictly from left to right.
pub open spec fn is_accumulation<T, A: Fn(T, T) -> T>(
    partials: Seq<T>,
    terms: Seq<T>,
    init: T,
    add_op: A,
) -> bool {
    &&& partials.len() == terms.len() + 1
    &&& partials[0] == init
    &&& forall|i: int|
        0 <= i < terms.len() ==> add_op.ensures((#[trigger] partials[i], terms[i]), partials[i
            + 1])
}

/// Folds the terms into a single value strictly in ascending index order:
/// the result is the last of a chain of running values that starts at
/// `init` and absorbs one term per step. The order is part of the
/// contract because the caller's addition need not be associative — for
/// rounded numeric scalars, a different order gives a different result.
pub fn accumulate<T: Copy, A: Fn(T, T) -> T>(terms: &Vec<T>, init: T, add_op: A) -> (r: T)
    requires
        forall|x: T, y: T| #[trigger] add_op.requires((x, y)),
    ensures
        exists|partials: Seq<T>|
            #![trigger is_accumulation(partials, terms@, init, add_op)]
            is_accumulation(partials, terms@, init, add_op) && r == partials[partials.len() - 1],
{
    let mut r = init;
    let ghost mut partials = seq![init];
    let mut i: usize = 0;
    while i < terms.len()
        invariant
            forall|x: T, y: T| #[trigger] add_op.requires((x, y)),
            i <= terms@.len(),
            partials.len() == i + 1,
            partials[0] == init,
            partials[partials.len() - 1] == r,
            forall|k: int|
                0 <= k < i ==> add_op.ensures((#[trigger] partials[k], terms@[k]), partials[k
                    + 1]),
        decreases terms@.len() - i,
    {
        r = add_op(r, terms[i]);
        proof {
            partials = partials.push(r);
        }
        i += 1;
    }
    proof {
        assert(is_accumulation(partials, terms@, init, add_op));
    }
    r
}

} // verus!
