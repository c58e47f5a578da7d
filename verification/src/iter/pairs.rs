//! The ranges between consecutive points, as a mathematical sequence.

use vstd::prelude::*;
use crate::iter::points::{
    lemma_advanced_wf,
    lemma_initial_wf,
    lemma_points_follow_cursor,
    lemma_points_monotonic,
    PointModel,
};
use crate::timestamp::Instant;

verus! {

/// The state of a walk that yields the ranges between consecutive points.
pub struct RangeModel {
    /// The walk over the points.
    pub inner: PointModel,
    /// The point taken last from `inner`; `None` before the first advance.
    pub prev: Option<Instant>,
    /// The direction, fixed at creation: whether the step is positive.
    pub asc: bool,
}

impl RangeModel {
    /// The walk before its first range.
    pub open spec fn initial(lo: Instant, hi: Instant, step: int) -> RangeModel {
        RangeModel { inner: PointModel::initial(lo, hi, step), prev: None, asc: step > 0 }
    }

    /// The point walk is well formed, the direction is that of its step, and the
    /// buffered point lies in the interval, before the cursor in walking order.
    pub open spec fn wf(self) -> bool {
        &&& self.inner.wf()
        &&& self.asc == self.inner.ascending()
        &&& self.prev matches Some(p) ==> {
            &&& self.inner.contains(p)
            &&& self.inner.cursor matches Some(c) ==> self.inner.strictly_in_order(p, c)
        }
    }

    /// The range between two consecutive points, the earlier instant first.
    pub open spec fn oriented(self, prev: Instant, curr: Instant) -> (Instant, Instant) {
        if self.asc {
            (prev, curr)
        } else {
            (curr, prev)
        }
    }

    /// The state once the buffer holds a point, if there is one to take.
    pub open spec fn primed(self) -> RangeModel {
        match (self.prev, self.inner.cursor) {
            (None, Some(c)) => RangeModel { inner: self.inner.advanced(), prev: Some(c), ..self },
            _ => self,
        }
    }

    /// The range that one advance yields.
    pub open spec fn emitted(self) -> Option<(Instant, Instant)> {
        match (self.primed().prev, self.primed().inner.cursor) {
            (Some(p), Some(c)) => Some(self.oriented(p, c)),
            _ => None,
        }
    }

    /// The state after one advance.
    pub open spec fn advanced(self) -> RangeModel {
        let primed = self.primed();
        match (primed.prev, primed.inner.cursor) {
            (Some(_), Some(c)) => RangeModel {
                inner: primed.inner.advanced(),
                prev: Some(c),
                ..primed
            },
            _ => primed,
        }
    }

    /// The points that the ranges still to come lie between: the buffered point,
    /// then the points still to come.
    pub open spec fn trail(self) -> Seq<Instant> {
        match self.prev {
            Some(p) => seq![p] + self.inner.points(),
            None => self.inner.points(),
        }
    }

    /// The ranges still to come, in the order in which they are yielded: one
    /// between each two neighbours of the trail.
    pub open spec fn pairs(self) -> Seq<(Instant, Instant)> {
        let trail = self.trail();
        Seq::new(
            if trail.len() >= 1 {
                (trail.len() - 1) as nat
            } else {
                0
            },
            |i: int| self.oriented(trail[i], trail[i + 1]),
        )
    }
}

/// An advance yields the first of the ranges still to come and leaves the rest.
pub proof fn lemma_advance_yields_first_pair(s: RangeModel)
    ensures
        s.pairs() == match s.emitted() {
            Some(pair) => seq![pair] + s.advanced().pairs(),
            None => Seq::empty(),
        },
        s.emitted() is None ==> s.advanced().pairs() == s.pairs(),
{
    let primed = s.primed();
    assert(primed.trail() =~= s.trail());
    match (primed.prev, primed.inner.cursor) {
        (Some(p), Some(c)) => {
            let next = s.advanced();
            assert(primed.trail() =~= seq![p] + next.trail());
            assert(next.trail()[0] == c);
            assert(s.pairs() =~= seq![s.oriented(p, c)] + next.pairs());
        },
        _ => {
            assert(s.pairs() =~= Seq::empty());
            assert(s.advanced().trail() =~= s.trail());
        },
    }
}

/// A walk over an ordered interval with a step that is not zero starts well formed.
pub proof fn lemma_range_initial_wf(lo: Instant, hi: Instant, step: int)
    requires
        lo.at_or_before(hi),
        step != 0,
    ensures
        RangeModel::initial(lo, hi, step).wf(),
{
    lemma_initial_wf(lo, hi, step);
}

/// An advance keeps a walk well formed.
pub proof fn lemma_range_advanced_wf(s: RangeModel)
    requires
        s.wf(),
    ensures
        s.advanced().wf(),
{
    lemma_advanced_wf(s.inner);
    lemma_advanced_wf(s.primed().inner);
}

/// The trail runs strictly in the direction of the walk.
proof fn lemma_trail_monotonic(s: RangeModel)
    requires
        s.wf(),
    ensures
        forall|i: int, j: int|
            0 <= i < j < s.trail().len() ==> s.inner.strictly_in_order(
                #[trigger] s.trail()[i],
                #[trigger] s.trail()[j],
            ),
{
    let points = s.inner.points();
    lemma_points_monotonic(s.inner);
    if s.prev is Some && s.inner.cursor is Some {
        lemma_points_follow_cursor(s.inner);
        assert forall|i: int, j: int| 0 <= i < j < s.trail().len() implies s.inner.strictly_in_order(
            #[trigger] s.trail()[i],
            #[trigger] s.trail()[j],
        ) by {
            assert(s.trail()[j] == points[j - 1]);
            if i > 0 {
                assert(s.trail()[i] == points[i - 1]);
            } else {
                assert(s.inner.in_order(s.inner.cursor->0, points[j - 1]));
            }
        }
    }
}

/// Range orientation: in every range the first instant is before the second.
pub proof fn lemma_pairs_oriented(s: RangeModel)
    requires
        s.wf(),
    ensures
        forall|k: int|
            0 <= k < s.pairs().len() ==> (#[trigger] s.pairs()[k]).0.before(s.pairs()[k].1),
{
    lemma_trail_monotonic(s);
    assert forall|k: int| 0 <= k < s.pairs().len() implies (#[trigger] s.pairs()[k]).0.before(
        s.pairs()[k].1,
    ) by {
        assert(s.inner.strictly_in_order(s.trail()[k], s.trail()[k + 1]));
    }
}

/// Pair count: a walk of `n` points has `n - 1` ranges, and none when `n` is zero.
pub proof fn lemma_pair_count(lo: Instant, hi: Instant, step: int)
    ensures
        RangeModel::initial(lo, hi, step).pairs().len() == {
            let n = PointModel::initial(lo, hi, step).points().len();
            if n >= 1 {
                n - 1
            } else {
                0
            }
        },
{
}

/// The ranges of a walk lie between its consecutive points, each with the earlier
/// point first.
pub proof fn lemma_pairs_between_points(lo: Instant, hi: Instant, step: int)
    ensures
        forall|k: int|
            #![trigger RangeModel::initial(lo, hi, step).pairs()[k]]
            0 <= k < RangeModel::initial(lo, hi, step).pairs().len() ==> {
                let points = PointModel::initial(lo, hi, step).points();
                RangeModel::initial(lo, hi, step).pairs()[k] == if step > 0 {
                    (points[k], points[k + 1])
                } else {
                    (points[k + 1], points[k])
                }
            },
{
}

/// Adjacency: consecutive ranges share an endpoint. Ascending, a range ends where
/// the next one starts; descending, it starts where the next one ends.
pub proof fn lemma_pairs_adjacent(s: RangeModel)
    ensures
        forall|k: int|
            0 <= k && k + 1 < s.pairs().len() ==> if s.asc {
                (#[trigger] s.pairs()[k]).1 == s.pairs()[k + 1].0
            } else {
                s.pairs()[k].0 == s.pairs()[k + 1].1
            },
{
}

} // verus!
