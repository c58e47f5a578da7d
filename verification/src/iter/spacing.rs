//! Where the points of a walk lie when no leap second is involved.

use vstd::prelude::*;
use crate::iter::points::{lemma_advanced_wf, PointModel};
use crate::timestamp::Instant;

verus! {

/// Without leap seconds, instants are ordered as their nanoseconds since the epoch
/// are, and an instant is found again from that number.
pub proof fn lemma_plain_order(a: Instant, b: Instant)
    requires
        a.valid(),
        b.valid(),
        !a.is_leap(),
        !b.is_leap(),
    ensures
        a.before(b) <==> a.epoch_nanos() < b.epoch_nanos(),
        a == b <==> a.epoch_nanos() == b.epoch_nanos(),
        Instant::at(a.epoch_nanos()) == a,
{
}

/// Between two valid instants without leap seconds every number of nanoseconds is
/// a valid instant without leap second.
pub proof fn lemma_plain_between(a: Instant, b: Instant, n: int)
    requires
        a.valid(),
        b.valid(),
        !a.is_leap(),
        !b.is_leap(),
        a.epoch_nanos() <= n <= b.epoch_nanos(),
    ensures
        Instant::at(n).valid(),
        !Instant::at(n).is_leap(),
        Instant::at(n).epoch_nanos() == n,
{
}

/// Without leap seconds a sum lies on the side of its start that the span points
/// to: a step of a walk never fails to move on.
pub proof fn lemma_plain_sum_moves_on(a: Instant, span: int)
    requires
        a.valid(),
        !a.is_leap(),
    ensures
        a.plain_sum(span) matches Some(t) ==> {
            &&& !t.is_leap()
            &&& span > 0 ==> a.before(t)
            &&& span < 0 ==> t.before(a)
            &&& span == 0 ==> t == a
        },
{
}

/// Single instant: over an interval of one instant the walk has that one point.
pub proof fn lemma_single_point(p: Instant, step: int)
    ensures
        PointModel::initial(p, p, step).points() == seq![p],
{
    let s = PointModel::initial(p, p, step);
    assert(s.advanced().points() =~= Seq::empty());
    assert(s.points() =~= seq![p]);
}

/// The length and the places of the points that follow the cursor of an ascending
/// walk.
proof fn lemma_spacing_ascending(s: PointModel)
    requires
        s.wf(),
        s.step > 0,
        s.cursor is Some,
        s.cursor->0.valid(),
        !s.cursor->0.is_leap(),
        s.hi.valid(),
        !s.hi.is_leap(),
    ensures
        ({
            let points = s.points();
            let n = points.len() as int;
            let from = s.cursor->0.epoch_nanos();
            let gap = s.hi.epoch_nanos() - from;
            &&& n >= 1
            &&& (n - 1) * s.step >= gap
            &&& n >= 2 ==> (n - 2) * s.step < gap
            &&& forall|i: int| 0 <= i < n - 1 ==> #[trigger] points[i] == Instant::at(from + i * s.step)
            &&& points[n - 1] == s.hi
        }),
    decreases s.distance(),
{
    let c = s.cursor->0;
    let from = c.epoch_nanos();
    let gap = s.hi.epoch_nanos() - from;
    let step = s.step;
    let next = s.advanced();
    let points = s.points();
    let n = points.len() as int;
    lemma_advanced_wf(s);
    lemma_plain_order(c, s.hi);
    if c.before(s.hi) {
        let t = Instant::at(from + step);
        assert(t.epoch_nanos() == from + step);
        if from + step <= s.hi.epoch_nanos() {
            lemma_plain_between(c, s.hi, from + step);
            lemma_plain_order(c, t);
            lemma_plain_order(t, s.hi);
            assert(next.cursor == Some(t));
            lemma_spacing_ascending(next);
            let rest = next.points();
            let m = rest.len() as int;
            assert(n == m + 1);
            assert((n - 1) * step == (m - 1) * step + step) by (nonlinear_arith)
                requires
                    n == m + 1,
            ;
            if n >= 2 {
                if m >= 2 {
                    assert((n - 2) * step == (m - 2) * step + step) by (nonlinear_arith)
                        requires
                            n == m + 1,
                    ;
                } else {
                    assert((n - 2) * step == 0) by (nonlinear_arith)
                        requires
                            n == 2,
                    ;
                }
            }
            assert forall|i: int| 0 <= i < n - 1 implies #[trigger] points[i] == Instant::at(
                from + i * step,
            ) by {
                if i > 0 {
                    assert(points[i] == rest[i - 1]);
                    assert(from + step + (i - 1) * step == from + i * step) by (nonlinear_arith);
                } else {
                    assert(from + 0 * step == from);
                }
            }
            assert(points[n - 1] == rest[m - 1]);
        } else {
            if t.valid() {
                lemma_plain_order(t, s.hi);
            }
            assert(next.cursor == Some(s.hi));
            assert(next.advanced().points() =~= Seq::empty());
            assert(next.points() =~= seq![s.hi]);
            assert(points =~= seq![c, s.hi]);
            assert((n - 1) * step == step) by (nonlinear_arith)
                requires
                    n == 2,
            ;
            assert((n - 2) * step == 0) by (nonlinear_arith)
                requires
                    n == 2,
            ;
            assert(from + 0 * step == from);
        }
    } else {
        assert(next.points() =~= Seq::empty());
        assert(points =~= seq![c]);
        assert((n - 1) * step == 0) by (nonlinear_arith)
            requires
                n == 1,
        ;
    }
}

/// The length and the places of the points that follow the cursor of a descending
/// walk.
proof fn lemma_spacing_descending(s: PointModel)
    requires
        s.wf(),
        s.step < 0,
        s.cursor is Some,
        s.cursor->0.valid(),
        !s.cursor->0.is_leap(),
        s.lo.valid(),
        !s.lo.is_leap(),
    ensures
        ({
            let points = s.points();
            let n = points.len() as int;
            let from = s.cursor->0.epoch_nanos();
            let gap = from - s.lo.epoch_nanos();
            &&& n >= 1
            &&& (n - 1) * (-s.step) >= gap
            &&& n >= 2 ==> (n - 2) * (-s.step) < gap
            &&& forall|i: int| 0 <= i < n - 1 ==> #[trigger] points[i] == Instant::at(from + i * s.step)
            &&& points[n - 1] == s.lo
        }),
    decreases s.distance(),
{
    let c = s.cursor->0;
    let from = c.epoch_nanos();
    let gap = from - s.lo.epoch_nanos();
    let step = s.step;
    let next = s.advanced();
    let points = s.points();
    let n = points.len() as int;
    lemma_advanced_wf(s);
    lemma_plain_order(s.lo, c);
    if s.lo.before(c) {
        let t = Instant::at(from + step);
        assert(t.epoch_nanos() == from + step);
        if from + step >= s.lo.epoch_nanos() {
            lemma_plain_between(s.lo, c, from + step);
            lemma_plain_order(t, c);
            lemma_plain_order(s.lo, t);
            assert(next.cursor == Some(t));
            lemma_spacing_descending(next);
            let rest = next.points();
            let m = rest.len() as int;
            assert(n == m + 1);
            assert((n - 1) * (-step) == (m - 1) * (-step) - step) by (nonlinear_arith)
                requires
                    n == m + 1,
            ;
            if n >= 2 {
                if m >= 2 {
                    assert((n - 2) * (-step) == (m - 2) * (-step) - step) by (nonlinear_arith)
                        requires
                            n == m + 1,
                    ;
                } else {
                    assert((n - 2) * (-step) == 0) by (nonlinear_arith)
                        requires
                            n == 2,
                    ;
                }
            }
            assert forall|i: int| 0 <= i < n - 1 implies #[trigger] points[i] == Instant::at(
                from + i * step,
            ) by {
                if i > 0 {
                    assert(points[i] == rest[i - 1]);
                    assert(from + step + (i - 1) * step == from + i * step) by (nonlinear_arith);
                } else {
                    assert(from + 0 * step == from);
                }
            }
            assert(points[n - 1] == rest[m - 1]);
        } else {
            if t.valid() {
                lemma_plain_order(s.lo, t);
            }
            assert(next.cursor == Some(s.lo));
            assert(next.advanced().points() =~= Seq::empty());
            assert(next.points() =~= seq![s.lo]);
            assert(points =~= seq![c, s.lo]);
            assert((n - 1) * (-step) == -step) by (nonlinear_arith)
                requires
                    n == 2,
            ;
            assert((n - 2) * (-step) == 0) by (nonlinear_arith)
                requires
                    n == 2,
            ;
            assert(from + 0 * step == from);
        }
    } else {
        assert(next.points() =~= Seq::empty());
        assert(points =~= seq![c]);
        assert((n - 1) * (-step) == 0) by (nonlinear_arith)
            requires
                n == 1,
        ;
    }
}

/// Spacing: between endpoints without leap seconds the walk has the near endpoint,
/// then every whole number of steps from it that falls short of the far endpoint,
/// then the far endpoint. With `n` points, `n - 1` steps are the fewest that cover
/// the interval.
pub proof fn lemma_points_spacing(lo: Instant, hi: Instant, step: int)
    requires
        lo.valid(),
        hi.valid(),
        !lo.is_leap(),
        !hi.is_leap(),
        lo.at_or_before(hi),
        step != 0,
    ensures
        ({
            let points = PointModel::initial(lo, hi, step).points();
            let n = points.len() as int;
            let near = if step > 0 {
                lo
            } else {
                hi
            };
            let far = if step > 0 {
                hi
            } else {
                lo
            };
            let width = if step > 0 {
                step
            } else {
                -step
            };
            let gap = hi.epoch_nanos() - lo.epoch_nanos();
            &&& n >= 1
            &&& (n - 1) * width >= gap
            &&& n >= 2 ==> (n - 2) * width < gap
            &&& forall|i: int|
                0 <= i < n - 1 ==> #[trigger] points[i] == Instant::at(
                    near.epoch_nanos() + i * step,
                )
            &&& points[n - 1] == far
        }),
{
    let s = PointModel::initial(lo, hi, step);
    if step > 0 {
        lemma_spacing_ascending(s);
    } else {
        lemma_spacing_descending(s);
    }
}

} // verus!
