use vstd::multiset::Multiset;
use vstd::prelude::*;

use crate::control::signalled;
use crate::direction::Direction;
use crate::limited_int::clamp;
use crate::velocity::{
    abs, accelerated, axis_speed, decelerated, direction_of, is_rounded_ratio, lemma_rounded_at_most,
    lemma_rounded_ratio_exists, rounded_ratio, within,
};

verus! {

/// The step pair after a run of control signals, each a direction and
/// whether it is pressed (accelerate) or released (decelerate), in order.
pub open spec fn after_signals(steps: (int, int), signals: Seq<(Direction, bool)>, limit: int) -> (
    int,
    int,
)
    decreases signals.len(),
{
    if signals.len() == 0 {
        steps
    } else {
        let last = signals.last();
        signalled(after_signals(steps, signals.drop_last(), limit), last.0, last.1, limit)
    }
}

/// The step pair after accelerating towards each of `directions` in order.
pub open spec fn after_accelerating(steps: (int, int), directions: Seq<Direction>, limit: int) -> (
    int,
    int,
)
    decreases directions.len(),
{
    if directions.len() == 0 {
        steps
    } else {
        accelerated(
            after_accelerating(steps, directions.drop_last(), limit),
            directions.last(),
            limit,
        )
    }
}

/// Whether `directions` never holds both of two opposing directions.
pub open spec fn non_opposing(directions: Seq<Direction>) -> bool {
    &&& !(directions.contains(Direction::Up) && directions.contains(Direction::Down))
    &&& !(directions.contains(Direction::Left) && directions.contains(Direction::Right))
}

/// The step component of `steps` that points towards `direction`.
pub open spec fn toward(steps: (int, int), direction: Direction) -> int {
    match direction {
        Direction::Up => steps.1,
        Direction::Down => -steps.1,
        Direction::Left => -steps.0,
        Direction::Right => steps.0,
    }
}

/// Whatever signals arrive, both step counts stay within
/// `[-limit, limit]`.
pub proof fn lemma_steps_stay_within_limit(
    steps: (int, int),
    signals: Seq<(Direction, bool)>,
    limit: int,
)
    requires
        limit >= 0,
        within(steps, limit),
    ensures
        within(after_signals(steps, signals, limit), limit),
    decreases signals.len(),
{
    if signals.len() > 0 {
        lemma_steps_stay_within_limit(steps, signals.drop_last(), limit);
    }
}

/// Accelerating through directions without opposing pairs lands on the
/// step counts shifted by how often each direction occurs, clamped.
proof fn lemma_after_accelerating_counts(steps: (int, int), directions: Seq<Direction>, limit: int)
    requires
        limit >= 0,
        within(steps, limit),
        non_opposing(directions),
    ensures
        after_accelerating(steps, directions, limit) == (
            clamp(
                steps.0 + directions.to_multiset().count(Direction::Right)
                    - directions.to_multiset().count(Direction::Left),
                limit,
            ),
            clamp(
                steps.1 + directions.to_multiset().count(Direction::Up)
                    - directions.to_multiset().count(Direction::Down),
                limit,
            ),
        ),
    decreases directions.len(),
{
    broadcast use vstd::seq_lib::group_to_multiset_ensures;

    if directions.len() == 0 {
        assert(directions.to_multiset() =~= Multiset::empty());
    } else {
        let rest = directions.drop_last();
        let last = directions.last();
        assert(directions =~= rest.push(last));
        assert forall|d: Direction| rest.contains(d) implies directions.contains(d) by {
            let i = choose|i: int| 0 <= i < rest.len() && rest[i] == d;
            assert(directions[i] == d);
        }
        assert(directions.contains(last)) by {
            assert(directions[directions.len() - 1] == last);
        }
        lemma_after_accelerating_counts(steps, rest, limit);
    }
}

/// Accelerating through a run of directions without opposing pairs gives
/// the same step counts, and so the same speeds and facing, in any order.
pub proof fn lemma_acceleration_commutes(
    steps: (int, int),
    directions: Seq<Direction>,
    reordered: Seq<Direction>,
    limit: int,
    max_speed: int,
)
    requires
        limit >= 0,
        within(steps, limit),
        non_opposing(directions),
        directions.to_multiset() == reordered.to_multiset(),
    ensures
        after_accelerating(steps, directions, limit) == after_accelerating(steps, reordered, limit),
        ({
            let a = after_accelerating(steps, directions, limit);
            let b = after_accelerating(steps, reordered, limit);
            &&& axis_speed(a.0, a.1, limit, max_speed) == axis_speed(b.0, b.1, limit, max_speed)
            &&& axis_speed(a.1, a.0, limit, max_speed) == axis_speed(b.1, b.0, limit, max_speed)
            &&& direction_of(a) == direction_of(b)
        }),
{
    broadcast use vstd::seq_lib::group_to_multiset_ensures;

    assert(non_opposing(reordered)) by {
        directions.to_multiset_ensures();
        reordered.to_multiset_ensures();
        assert(directions.contains(Direction::Up) == reordered.contains(Direction::Up));
        assert(directions.contains(Direction::Down) == reordered.contains(Direction::Down));
        assert(directions.contains(Direction::Left) == reordered.contains(Direction::Left));
        assert(directions.contains(Direction::Right) == reordered.contains(Direction::Right));
    }
    lemma_after_accelerating_counts(steps, directions, limit);
    lemma_after_accelerating_counts(steps, reordered, limit);
}

/// Pressing a direction and releasing it right away restores the step
/// counts, unless that axis already stood at the limit in that direction or
/// pointed the other way.
pub proof fn lemma_accelerate_then_decelerate(steps: (int, int), direction: Direction, limit: int)
    requires
        within(steps, limit),
        0 <= toward(steps, direction) < limit,
    ensures
        decelerated(accelerated(steps, direction, limit), direction) == steps,
{
}

/// From rest on the axis of `direction`, accelerating twice and then
/// releasing twice comes back to rest, and releasing at rest changes nothing.
pub proof fn lemma_release_from_rest(steps: (int, int), direction: Direction, limit: int)
    requires
        limit >= 0,
        within(steps, limit),
        toward(steps, direction) == 0,
    ensures
        decelerated(
            decelerated(
                accelerated(accelerated(steps, direction, limit), direction, limit),
                direction,
            ),
            direction,
        ) == steps,
        decelerated(steps, direction) == steps,
{
}

/// Releasing moves the component towards `direction` one step toward zero
/// when it is positive and changes nothing otherwise, so it never passes
/// zero; the other axis is untouched.
pub proof fn lemma_decelerate_never_overshoots(steps: (int, int), direction: Direction)
    ensures
        toward(steps, direction) > 0 ==> toward(decelerated(steps, direction), direction)
            == toward(steps, direction) - 1,
        toward(steps, direction) > 0 ==> toward(decelerated(steps, direction), direction) >= 0,
        toward(steps, direction) <= 0 ==> decelerated(steps, direction) == steps,
        toward(decelerated(steps, direction), direction.turned()) == toward(steps, direction.turned()),
{
}

/// A point inside the circle of radius `m` stays, moved by one along both
/// axes, inside the circle of radius `m + 2`.
proof fn lemma_shifted_point_inside(p: int, q: int, m: int)
    requires
        p >= 0,
        q >= 0,
        m >= 0,
        p * p + q * q <= m * m,
    ensures
        (p + 1) * (p + 1) + (q + 1) * (q + 1) <= (m + 2) * (m + 2),
{
    assert((p + q) * (p + q) <= 2 * (p * p + q * q)) by (nonlinear_arith);
    assert(p + q <= 2 * m) by (nonlinear_arith)
        requires
            (p + q) * (p + q) <= 2 * (p * p + q * q),
            p * p + q * q <= m * m,
            p >= 0,
            q >= 0,
            m >= 0,
    ;
    assert((p + 1) * (p + 1) + (q + 1) * (q + 1) == p * p + q * q + 2 * (p + q) + 2)
        by (nonlinear_arith);
    assert((m + 2) * (m + 2) == m * m + 4 * m + 4) by (nonlinear_arith);
}

/// From `p * d < q * d` with `d > 0` follows `p < q`; likewise for `<=`.
proof fn lemma_cancel_positive_factor(p: int, q: int, d: int)
    requires
        d > 0,
    ensures
        p * d < q * d ==> p < q,
        p * d <= q * d ==> p <= q,
{
    if p >= q {
        assert(p * d >= q * d) by (nonlinear_arith)
            requires
                p >= q,
                d > 0,
        ;
    }
    if p > q {
        assert(p * d > q * d) by (nonlinear_arith)
            requires
                p > q,
                d > 0,
        ;
    }
}

/// Two components of a vector of length `speed`, each rounded to the
/// nearest integer, make a vector whose length is within one of `speed`.
proof fn lemma_rounded_components(rx: int, ry: int, a: int, b: int, speed: int)
    requires
        a >= 0,
        b >= 0,
        a * a + b * b > 0,
        speed >= 0,
        is_rounded_ratio(rx, a * speed, a * a + b * b),
        is_rounded_ratio(ry, b * speed, a * a + b * b),
    ensures
        rx * rx + ry * ry <= (speed + 1) * (speed + 1),
        speed >= 1 ==> (speed - 1) * (speed - 1) <= rx * rx + ry * ry,
{
    let d = a * a + b * b;
    let n = 2 * speed;
    assert(4 * (a * speed) * (a * speed) + 4 * (b * speed) * (b * speed) == n * n * d)
        by (nonlinear_arith)
        requires
            d == a * a + b * b,
            n == 2 * speed,
    ;
    // Rounding up from below: the rounded vector shifted by one half per
    // axis reaches beyond the exact one.
    let hx = 2 * rx + 1;
    let hy = 2 * ry + 1;
    assert((hx * hx + hy * hy) * d == hx * hx * d + hy * hy * d) by (nonlinear_arith);
    lemma_cancel_positive_factor(n * n, hx * hx + hy * hy, d);
    assert(hx * hx + hy * hy > n * n);
    if speed >= 1 {
        let m = n - 2;
        if 4 * rx * rx + 4 * ry * ry < m * m {
            assert((2 * rx) * (2 * rx) + (2 * ry) * (2 * ry) <= m * m) by (nonlinear_arith)
                requires
                    4 * rx * rx + 4 * ry * ry < m * m,
            ;
            lemma_shifted_point_inside(2 * rx, 2 * ry, m);
        }
        assert((speed - 1) * (speed - 1) <= rx * rx + ry * ry) by (nonlinear_arith)
            requires
                4 * rx * rx + 4 * ry * ry >= m * m,
                m == 2 * speed - 2,
        ;
    }
    // Rounding down from above: the rounded vector shifted back by one half
    // per axis stays within the exact one.
    if rx == 0 {
        lemma_rounded_at_most(ry, b, speed, d);
        assert(ry * ry <= (speed + 1) * (speed + 1)) by (nonlinear_arith)
            requires
                0 <= ry <= speed,
        ;
    } else if ry == 0 {
        lemma_rounded_at_most(rx, a, speed, d);
        assert(rx * rx <= (speed + 1) * (speed + 1)) by (nonlinear_arith)
            requires
                0 <= rx <= speed,
        ;
    } else {
        let lx = 2 * rx - 1;
        let ly = 2 * ry - 1;
        assert((lx * lx + ly * ly) * d == lx * lx * d + ly * ly * d) by (nonlinear_arith);
        lemma_cancel_positive_factor(lx * lx + ly * ly, n * n, d);
        lemma_shifted_point_inside(lx, ly, n);
        assert(rx * rx + ry * ry <= (speed + 1) * (speed + 1)) by (nonlinear_arith)
            requires
                (lx + 1) * (lx + 1) + (ly + 1) * (ly + 1) <= (n + 2) * (n + 2),
                lx == 2 * rx - 1,
                ly == 2 * ry - 1,
                n == 2 * speed,
        ;
    }
}

/// On a diagonal the two axis speeds together make the speed of the
/// dominant axis, up to rounding: the length of the speed vector is within
/// one of it, never the sum of both axes' speeds.
pub proof fn lemma_diagonal_speed_follows_dominant_axis(
    x_step: int,
    y_step: int,
    limit: int,
    max_speed: int,
)
    requires
        0 < abs(x_step) <= limit,
        0 < abs(y_step) <= limit,
        max_speed >= 0,
    ensures
        ({
            let dominant = if abs(x_step) >= abs(y_step) { abs(x_step) } else { abs(y_step) };
            let current_speed = max_speed * dominant / limit;
            let sx = axis_speed(x_step, y_step, limit, max_speed);
            let sy = axis_speed(y_step, x_step, limit, max_speed);
            &&& sx * sx + sy * sy <= (current_speed + 1) * (current_speed + 1)
            &&& current_speed >= 1 ==> (current_speed - 1) * (current_speed - 1) <= sx * sx
                + sy * sy
        }),
{
    let a = abs(x_step);
    let b = abs(y_step);
    let dominant = if a >= b { a } else { b };
    let current_speed = max_speed * dominant / limit;
    assert(max_speed * dominant >= 0) by (nonlinear_arith)
        requires
            max_speed >= 0,
            dominant >= 0,
    ;
    assert(current_speed >= 0);
    let d = a * a + b * b;
    assert(d == x_step * x_step + y_step * y_step && d == y_step * y_step + x_step * x_step && d
        > 0) by (nonlinear_arith)
        requires
            a == abs(x_step),
            b == abs(y_step),
            a > 0,
            d == a * a + b * b,
    ;
    let rx = rounded_ratio(a * current_speed, d);
    let ry = rounded_ratio(b * current_speed, d);
    assert(a * current_speed >= 0 && b * current_speed >= 0) by (nonlinear_arith)
        requires
            a >= 0,
            b >= 0,
            current_speed >= 0,
    ;
    lemma_rounded_ratio_exists(a * current_speed, d);
    lemma_rounded_ratio_exists(b * current_speed, d);
    lemma_rounded_components(rx, ry, a, b, current_speed);
    let sx = axis_speed(x_step, y_step, limit, max_speed);
    let sy = axis_speed(y_step, x_step, limit, max_speed);
    assert(sx == rx || sx == -rx);
    assert(sy == ry || sy == -ry);
    assert(sx * sx + sy * sy == rx * rx + ry * ry) by (nonlinear_arith)
        requires
            sx == rx || sx == -rx,
            sy == ry || sy == -ry,
    ;
}

} // verus!
