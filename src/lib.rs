//! Evenly spaced sample points between two bounds.
//!
//! A linspace of `n_steps` points from `start` to `end` places point `n` at
//! `start + (end - start) * n / segments`. What this crate decides is the
//! integer side of that layout: how many points there are, how many equal
//! segments the interval is cut into, and when no step is taken at all. The
//! arithmetic on the bounds themselves is left to the caller.
//!
//! Each point is described by its weight `n / segments`, the share of the
//! interval `end - start` that lies between `start` and the point. Weights
//! are exact fractions, so the laws below hold in exact arithmetic.
use vstd::prelude::*;

verus! {

/// The number of points of a linspace asked for `n_steps` points.
pub open spec fn point_count(n_steps: int) -> nat {
    if n_steps > 0 {
        n_steps as nat
    } else {
        0
    }
}

/// How the interval between the two bounds of a linspace is laid out.
#[derive(PartialEq, Eq, Structural, Clone, Copy, Debug)]
pub enum Spacing {
    /// No point at all.
    Empty,
    /// The one point `start`, reached without computing a step.
    Single,
    /// `count` points; the interval is cut into `segments` equal steps and
    /// point `n` lies `n` steps after `start`.
    Even { count: u32, segments: u32 },
}

impl Spacing {
    /// The number of points of the layout.
    pub open spec fn num_points(self) -> nat {
        match self {
            Spacing::Empty => 0,
            Spacing::Single => 1,
            Spacing::Even { count, .. } => count as nat,
        }
    }

    /// The denominator of every weight: the number of equal segments, or
    /// 1 where no step is taken.
    pub open spec fn denominator(self) -> int {
        match self {
            Spacing::Even { segments, .. } => segments as int,
            _ => 1,
        }
    }

    /// The numerator of the weight of point `n`: point `n` lies at
    /// `start + (end - start) * weight_num(n) / denominator()`.
    pub open spec fn weight_num(self, n: int) -> int {
        match self {
            Spacing::Even { .. } => n,
            _ => 0,
        }
    }

    /// The layout is usable: a step is only ever taken over a positive
    /// number of segments.
    pub open spec fn wf(self) -> bool {
        self matches Spacing::Even { count, segments } ==> count >= 1 && segments >= 1
    }
}

/// The layout of a linspace of `n_steps` points. With `include_end` the
/// last point falls on `end` and the interval is cut into `n_steps - 1`
/// segments; without it the interval is cut into `n_steps` segments and
/// `end` lies one step past the last point. A single point with
/// `include_end` has no segment to divide by: it is `start` itself.
pub open spec fn layout(n_steps: int, include_end: bool) -> Spacing {
    if n_steps <= 0 {
        Spacing::Empty
    } else if include_end && n_steps == 1 {
        Spacing::Single
    } else {
        Spacing::Even {
            count: n_steps as u32,
            segments: (if include_end { n_steps - 1 } else { n_steps }) as u32,
        }
    }
}

/// Decides how a linspace of `n_steps` points is laid out.
pub fn spacing(n_steps: i32, include_end: bool) -> (r: Spacing)
    ensures
        r == layout(n_steps as int, include_end),
        r.wf(),
        r.num_points() == point_count(n_steps as int),
        n_steps <= 0 <==> r is Empty,
        r is Single <==> include_end && n_steps == 1,
        r is Even ==> r->count == n_steps && r->segments == if include_end {
            n_steps - 1
        } else {
            n_steps as int
        },
{
    if n_steps <= 0 {
        Spacing::Empty
    } else if include_end && n_steps == 1 {
        Spacing::Single
    } else {
        let segments: i32 = if include_end { n_steps - 1 } else { n_steps };
        Spacing::Even { count: n_steps as u32, segments: segments as u32 }
    }
}

/// With the end included and at least two points, there are `n_steps`
/// points, the first has weight 0 (it is `start`) and the last has weight 1
/// (it is `end`). Over exact bounds, scaled by the common denominator as in
/// `lemma_monotone`, the first point is `start` and the last is `end`.
pub proof fn lemma_inclusive_endpoints(start: int, end: int, n_steps: i32)
    requires
        start < end,
        n_steps >= 2,
    ensures
        ({
            let s = layout(n_steps as int, true);
            let d = s.denominator();
            &&& s.num_points() == n_steps
            &&& s.weight_num(0) == 0
            &&& s.weight_num(n_steps - 1) == d
            &&& start * d + (end - start) * s.weight_num(0) == start * d
            &&& start * d + (end - start) * s.weight_num(n_steps - 1) == end * d
        }),
{
    let d = layout(n_steps as int, true).denominator();
    assert(start * d + (end - start) * d == end * d) by (nonlinear_arith);
}

/// With the end excluded and at least one point, there are `n_steps`
/// points, the first has weight 0 (it is `start`), point `n` has weight
/// `n / n_steps`, so that consecutive points lie `(end - start) / n_steps`
/// apart, and every weight is below 1. Over exact bounds, scaled by the
/// common denominator as in `lemma_monotone`, consecutive points differ by
/// `end - start` and no point is `end`.
pub proof fn lemma_exclusive_spacing(start: int, end: int, n_steps: i32)
    requires
        start < end,
        n_steps >= 1,
    ensures
        ({
            let s = layout(n_steps as int, false);
            let d = s.denominator();
            &&& s.num_points() == n_steps
            &&& d == n_steps
            &&& s.weight_num(0) == 0
            &&& forall|n: int|
                0 <= n < s.num_points() ==> #[trigger] s.weight_num(n) == n && s.weight_num(n) < d
            &&& forall|n: int|
                0 <= n < s.num_points() - 1 ==> (start * d + (end - start) * s.weight_num(n + 1))
                    - (start * d + (end - start) * #[trigger] s.weight_num(n)) == end - start
            &&& forall|n: int|
                0 <= n < s.num_points() ==> start * d + (end - start) * #[trigger] s.weight_num(n)
                    != end * d
        }),
{
    let s = layout(n_steps as int, false);
    let d = s.denominator();
    assert forall|n: int| 0 <= n < s.num_points() - 1 implies (start * d + (end - start)
        * s.weight_num(n + 1)) - (start * d + (end - start) * #[trigger] s.weight_num(n)) == end
        - start by {
        assert((end - start) * (n + 1) == (end - start) * n + (end - start)) by (nonlinear_arith);
    }
    assert forall|n: int| 0 <= n < s.num_points() implies start * d + (end - start)
        * #[trigger] s.weight_num(n) != end * d by {
        assert((end - start) * n < (end - start) * d) by (nonlinear_arith)
            requires
                start < end,
                n < d,
        ;
        assert(start * d + (end - start) * d == end * d) by (nonlinear_arith);
    }
}

/// In both modes the weights never decrease along the points and stay
/// between 0 and 1, so the points run from `start` towards `end`:
/// non-decreasing where `end >= start`, non-increasing otherwise. Over exact
/// bounds `start` and `end`, point `n` times the common denominator is
/// `start * denominator() + (end - start) * weight_num(n)`.
pub proof fn lemma_monotone(n_steps: i32, include_end: bool, start: int, end: int, i: int, j: int)
    requires
        0 <= i <= j < layout(n_steps as int, include_end).num_points(),
    ensures
        ({
            let s = layout(n_steps as int, include_end);
            let d = s.denominator();
            let pi = start * d + (end - start) * s.weight_num(i);
            let pj = start * d + (end - start) * s.weight_num(j);
            &&& d > 0
            &&& 0 <= s.weight_num(i) <= s.weight_num(j) <= d
            &&& end >= start ==> pi <= pj
            &&& end < start ==> pi >= pj
        }),
{
    let s = layout(n_steps as int, include_end);
    let (wi, wj) = (s.weight_num(i), s.weight_num(j));
    assert(wi <= wj);
    assert(end >= start ==> (end - start) * wi <= (end - start) * wj) by (nonlinear_arith)
        requires
            wi <= wj,
    ;
    assert(end < start ==> (end - start) * wi >= (end - start) * wj) by (nonlinear_arith)
        requires
            wi <= wj,
    ;
}

/// Whatever the mode, a linspace asked for `n_steps` points has
/// `max(n_steps, 0)` of them.
pub proof fn lemma_length(n_steps: i32, include_end: bool)
    ensures
        layout(n_steps as int, include_end).num_points() == if n_steps > 0 {
            n_steps as int
        } else {
            0
        },
{
}

} // verus!
