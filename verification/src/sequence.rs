use vstd::prelude::*;

verus! {

/// The shape of a sample sequence produced by [`create_sequential_vec`].
///
/// `r` is a walk from `start` towards `end`: every element but the last
/// passed the continuation test `before_end` against `end`, each interior
/// element after the first was produced by `advance` from its predecessor,
/// and the mandated final bound `end` was appended unconditionally. At most
/// `cap` elements come from the walk itself, so `r` never holds more than
/// `cap + 1` elements.
pub open spec fn is_sample_walk<T, F: Fn(T, T) -> bool, G: Fn(T) -> T>(
    r: Seq<T>,
    start: T,
    end: T,
    before_end: F,
    advance: G,
    cap: nat,
) -> bool {
    &&& r.len() >= 1
    &&& r.len() - 1 <= cap
    &&& r[r.len() - 1] == end
    &&& (r.len() > 1 ==> r[0] == start)
    &&& (forall|i: int| 1 <= i < r.len() - 1 ==> advance.ensures((r[i - 1],), #[trigger] r[i]))
    &&& (forall|i: int|
        0 <= i < r.len() - 1 ==> before_end.ensures((#[trigger] r[i], end), true))
    &&& (r.len() == 1 && cap > 0 ==> before_end.ensures((start, end), false))
    &&& (1 <= r.len() - 1 < cap ==> exists|next: T|
        advance.ensures((r[r.len() - 2],), next) && before_end.ensures((next, end), false))
}

/// Produces the ordered sequence of evaluation points between `start` and
/// `end`: starting from `start`, it appends the current point and advances
/// it with `advance` while `before_end` accepts the point, then appends
/// `end` unconditionally, so the final bound is held exactly even when the
/// advanced points accumulate rounding drift.
///
/// The caller supplies the scalar order and the step as closures; an
/// integration routine over numeric scalars passes the strict order
/// `(a, b) -> a < b` and the step `x -> x + interval` with
/// `interval == (end - start) / steps`.
///
/// `max_interior` bounds how many points the walk may append before the
/// final bound, so the walk always terminates; a caller that allows for
/// one point of drift past `steps` samples passes `steps + 2`. The
/// contract records the bound, and records that the walk stopped at the
/// test, not at the bound, whenever fewer than `max_interior` points were
/// taken.
pub fn create_sequential_vec<T: Copy, F: Fn(T, T) -> bool, G: Fn(T) -> T>(
    start: T,
    end: T,
    before_end: F,
    advance: G,
    max_interior: usize,
) -> (r: Vec<T>)
    requires
        forall|x: T| #[trigger] before_end.requires((x, end)),
        forall|x: T| #[trigger] advance.requires((x,)),
    ensures
        is_sample_walk(r@, start, end, before_end, advance, max_interior as nat),
{
    let mut r: Vec<T> = Vec::new();
    let mut current = start;
    let mut more = before_end(current, end);
    while more && r.len() < max_interior
        invariant
            forall|x: T| #[trigger] before_end.requires((x, end)),
            forall|x: T| #[trigger] advance.requires((x,)),
            r@.len() <= max_interior,
            r@.len() == 0 ==> current == start,
            r@.len() > 0 ==> r@[0] == start,
            r@.len() > 0 ==> advance.ensures((r@[r@.len() - 1],), current),
            forall|i: int| 1 <= i < r@.len() ==> advance.ensures((r@[i - 1],), #[trigger] r@[i]),
            forall|i: int|
                0 <= i < r@.len() ==> before_end.ensures((#[trigger] r@[i], end), true),
            before_end.ensures((current, end), more),
        decreases max_interior - r@.len(),
    {
        r.push(current);
        current = advance(current);
        more = before_end(current, end);
    }
    let ghost interior = r@;
    r.push(end);
    proof {
        assert(r@ == interior.push(end));
        assert(r@.len() - 1 == interior.len());
        if interior.len() == 0 && max_interior > 0 {
            assert(before_end.ensures((start, end), false));
        }
        if 1 <= interior.len() < max_interior as int {
            assert(advance.ensures((interior[interior.len() - 1],), current));
            assert(before_end.ensures((current, end), false));
        }
    }
    r
}

/// A walk whose continuation test already rejects its starting point is
/// the single-element sequence holding the final bound alone. In
/// particular, with a strict order as the test and equal bounds
/// `start == end`, the result is exactly the one-element sequence of that
/// bound, however many steps were requested.
pub proof fn lemma_walk_single_when_start_rejected<T, F: Fn(T, T) -> bool, G: Fn(T) -> T>(
    r: Seq<T>,
    start: T,
    end: T,
    before_end: F,
    advance: G,
    cap: nat,
)
    requires
        is_sample_walk(r, start, end, before_end, advance, cap),
        cap > 0,
        forall|b: bool| before_end.ensures((start, end), b) ==> !b,
    ensures
        r == seq![end],
{
    if r.len() > 1 {
        assert(before_end.ensures((r[0], end), true));
        assert(r[0] == start);
        assert(false);
    }
    assert(r =~= seq![end]);
}

/// Endpoint law: the last element of a walk is always the requested
/// `end`. The first element is the requested `start` whenever the bounds
/// are equal, and also whenever the continuation test must accept
/// `(start, end)` — for a strict order on numbers, those two cases cover
/// every pair with `start <= end`.
pub proof fn lemma_walk_endpoints<T, F: Fn(T, T) -> bool, G: Fn(T) -> T>(
    r: Seq<T>,
    start: T,
    end: T,
    before_end: F,
    advance: G,
    cap: nat,
)
    requires
        is_sample_walk(r, start, end, before_end, advance, cap),
        cap > 0,
    ensures
        r[r.len() - 1] == end,
        start == end ==> r[0] == start,
        (forall|b: bool| before_end.ensures((start, end), b) ==> b) ==> r[0] == start,
{
    if r.len() == 1 {
        assert(before_end.ensures((start, end), false));
    }
}

} // verus!
