//! The points of an interval, as a mathematical sequence.

use vstd::prelude::*;
use crate::timestamp::Instant;

verus! {

/// The state of a walk over the closed interval `[lo, hi]`.
pub struct PointModel {
    /// Early endpoint.
    pub lo: Instant,
    /// Late endpoint.
    pub hi: Instant,
    /// Distance between consecutive points in nanoseconds; its sign is the direction.
    pub step: int,
    /// The point that is yielded next; `None` once the far endpoint has been yielded.
    pub cursor: Option<Instant>,
}

impl PointModel {
    /// The walk before its first point: the cursor is on the near endpoint.
    pub open spec fn initial(lo: Instant, hi: Instant, step: int) -> PointModel {
        PointModel { lo, hi, step, cursor: Some(if step > 0 { lo } else { hi }) }
    }

    /// The walk goes from `lo` to `hi`.
    pub open spec fn ascending(self) -> bool {
        self.step > 0
    }

    /// The endpoint where the walk ends.
    pub open spec fn far(self) -> Instant {
        if self.ascending() {
            self.hi
        } else {
            self.lo
        }
    }

    /// `a` comes no later than `b` in the direction of the walk.
    pub open spec fn in_order(self, a: Instant, b: Instant) -> bool {
        if self.ascending() {
            a.at_or_before(b)
        } else {
            b.at_or_before(a)
        }
    }

    /// `a` comes strictly earlier than `b` in the direction of the walk.
    pub open spec fn strictly_in_order(self, a: Instant, b: Instant) -> bool {
        if self.ascending() {
            a.before(b)
        } else {
            b.before(a)
        }
    }

    /// `p` lies in `[lo, hi]`.
    pub open spec fn contains(self, p: Instant) -> bool {
        self.lo.at_or_before(p) && p.at_or_before(self.hi)
    }

    /// The endpoints are in order, the step is not zero, and the cursor is inside
    /// the interval.
    pub open spec fn wf(self) -> bool {
        &&& self.lo.at_or_before(self.hi)
        &&& self.step != 0
        &&& self.cursor matches Some(c) ==> self.contains(c)
    }

    /// Where the cursor settles after `cur`, short of the far endpoint, when the
    /// calendar gives `tentative` for `cur + step`.
    ///
    /// The tentative instant is taken when it lies beyond `cur` and not beyond the
    /// far endpoint. Any other step is clamped to the far endpoint: one that
    /// overshoots it, one that the calendar cannot represent, one that fails to
    /// move on.
    pub open spec fn settled(self, cur: Instant, tentative: Option<Instant>) -> Instant {
        match tentative {
            Some(t) => if self.strictly_in_order(cur, t) && self.in_order(t, self.far()) {
                t
            } else {
                self.far()
            },
            None => self.far(),
        }
    }

    /// The cursor that follows `cur`: none on the far endpoint, else where the sum
    /// `cur + step` settles.
    pub open spec fn successor(self, cur: Instant) -> Option<Instant> {
        if self.strictly_in_order(cur, self.far()) {
            Some(self.settled(cur, cur.plus(self.step)))
        } else {
            None
        }
    }

    /// The state after one advance.
    pub open spec fn advanced(self) -> PointModel {
        match self.cursor {
            Some(c) => PointModel { cursor: self.successor(c), ..self },
            None => self,
        }
    }

    /// An upper bound on the number of points still to come.
    pub open spec fn distance(self) -> nat {
        match self.cursor {
            Some(c) => {
                let gap = if self.ascending() {
                    self.hi.rank() - c.rank()
                } else {
                    c.rank() - self.lo.rank()
                };
                if gap > 0 {
                    (1 + gap) as nat
                } else {
                    1
                }
            },
            None => 0,
        }
    }

    /// The points still to come, in the order in which they are yielded.
    pub open spec fn points(self) -> Seq<Instant>
        decreases self.distance(),
    {
        match self.cursor {
            Some(c) => seq![c] + self.advanced().points(),
            None => Seq::empty(),
        }
    }
}

/// A walk over an ordered interval with a step that is not zero starts well formed.
pub proof fn lemma_initial_wf(lo: Instant, hi: Instant, step: int)
    requires
        lo.at_or_before(hi),
        step != 0,
    ensures
        PointModel::initial(lo, hi, step).wf(),
{
}

/// An advance keeps a walk well formed, leaves its interval and step alone, and
/// brings it closer to its end.
pub proof fn lemma_advanced_wf(s: PointModel)
    requires
        s.wf(),
    ensures
        s.advanced().wf(),
        s.advanced().lo == s.lo,
        s.advanced().hi == s.hi,
        s.advanced().step == s.step,
        s.cursor is Some ==> s.advanced().distance() < s.distance(),
{
}

/// First element: an ascending walk starts on `lo`, a descending walk on `hi`.
pub proof fn lemma_first_point(lo: Instant, hi: Instant, step: int)
    requires
        lo.at_or_before(hi),
        step != 0,
    ensures
        PointModel::initial(lo, hi, step).points().len() >= 1,
        PointModel::initial(lo, hi, step).points().first() == if step > 0 {
            lo
        } else {
            hi
        },
{
}

/// Last element: a walk that has not ended ends on the far endpoint, `hi` when
/// ascending and `lo` when descending, whether or not the step divides the
/// interval.
pub proof fn lemma_last_point(s: PointModel)
    requires
        s.wf(),
        s.cursor is Some,
    ensures
        s.points().len() >= 1,
        s.points().last() == if s.ascending() {
            s.hi
        } else {
            s.lo
        },
    decreases s.distance(),
{
    let next = s.advanced();
    lemma_advanced_wf(s);
    if next.cursor is Some {
        lemma_last_point(next);
        assert(s.points().last() == next.points().last());
    } else {
        assert(next.points() =~= Seq::empty());
        assert(s.points() =~= seq![s.cursor->0]);
    }
}

/// Containment: every point lies in `[lo, hi]`.
pub proof fn lemma_points_contained(s: PointModel)
    requires
        s.wf(),
    ensures
        forall|i: int|
            0 <= i < s.points().len() ==> s.lo.at_or_before(#[trigger] s.points()[i])
                && s.points()[i].at_or_before(s.hi),
    decreases s.distance(),
{
    if s.cursor is Some {
        let next = s.advanced();
        lemma_advanced_wf(s);
        lemma_points_contained(next);
        assert forall|i: int| 0 <= i < s.points().len() implies s.lo.at_or_before(
            #[trigger] s.points()[i],
        ) && s.points()[i].at_or_before(s.hi) by {
            if i > 0 {
                assert(s.points()[i] == next.points()[i - 1]);
            }
        }
    }
}

/// No point comes before the cursor in the direction of the walk.
pub proof fn lemma_points_follow_cursor(s: PointModel)
    requires
        s.wf(),
        s.cursor is Some,
    ensures
        forall|i: int|
            0 <= i < s.points().len() ==> s.in_order(s.cursor->0, #[trigger] s.points()[i]),
    decreases s.distance(),
{
    let next = s.advanced();
    lemma_advanced_wf(s);
    if next.cursor is Some {
        lemma_points_follow_cursor(next);
    }
    assert forall|i: int| 0 <= i < s.points().len() implies s.in_order(
        s.cursor->0,
        #[trigger] s.points()[i],
    ) by {
        if i > 0 {
            assert(s.points()[i] == next.points()[i - 1]);
            assert(next.in_order(next.cursor->0, next.points()[i - 1]));
        }
    }
}

/// Monotonicity: the points of an ascending walk strictly increase, those of a
/// descending walk strictly decrease.
pub proof fn lemma_points_monotonic(s: PointModel)
    requires
        s.wf(),
    ensures
        forall|i: int, j: int|
            0 <= i < j < s.points().len() ==> if s.ascending() {
                (#[trigger] s.points()[i]).before(#[trigger] s.points()[j])
            } else {
                s.points()[j].before(s.points()[i])
            },
    decreases s.distance(),
{
    if s.cursor is Some {
        let next = s.advanced();
        lemma_advanced_wf(s);
        lemma_points_monotonic(next);
        if next.cursor is Some {
            lemma_points_follow_cursor(next);
        }
        assert forall|i: int, j: int| 0 <= i < j < s.points().len() implies if s.ascending() {
            (#[trigger] s.points()[i]).before(#[trigger] s.points()[j])
        } else {
            s.points()[j].before(s.points()[i])
        } by {
            assert(s.points()[j] == next.points()[j - 1]);
            if i > 0 {
                assert(s.points()[i] == next.points()[i - 1]);
            } else {
                assert(next.in_order(next.cursor->0, next.points()[j - 1]));
            }
        }
    }
}

} // verus!
