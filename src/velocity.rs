use vstd::prelude::*;

use crate::direction::Direction;
use crate::limited_int::{clamp, LimitedInt};

verus! {

/// Absolute value.
pub open spec fn abs(v: int) -> int {
    if v < 0 {
        -v
    } else {
        v
    }
}

/// Whether both step counts of `steps` lie in `[-limit, limit]`.
pub open spec fn within(steps: (int, int), limit: int) -> bool {
    &&& -limit <= steps.0 <= limit
    &&& -limit <= steps.1 <= limit
}

/// The step pair `(x, y)` after accelerating towards `direction`: the
/// matching axis moves one step that way, saturating at `limit`.
pub open spec fn accelerated(steps: (int, int), direction: Direction, limit: int) -> (int, int) {
    match direction {
        Direction::Up => (steps.0, clamp(steps.1 + 1, limit)),
        Direction::Down => (steps.0, clamp(steps.1 - 1, limit)),
        Direction::Left => (clamp(steps.0 - 1, limit), steps.1),
        Direction::Right => (clamp(steps.0 + 1, limit), steps.1),
    }
}

/// The step pair `(x, y)` after releasing `direction`: the matching axis
/// moves one step toward zero, and only if it points towards `direction`.
pub open spec fn decelerated(steps: (int, int), direction: Direction) -> (int, int) {
    match direction {
        Direction::Up => if steps.1 > 0 { (steps.0, steps.1 - 1) } else { steps },
        Direction::Down => if steps.1 < 0 { (steps.0, steps.1 + 1) } else { steps },
        Direction::Left => if steps.0 < 0 { (steps.0 + 1, steps.1) } else { steps },
        Direction::Right => if steps.0 > 0 { (steps.0 - 1, steps.1) } else { steps },
    }
}

/// Whether `r` is the real number `n / sqrt(d)` rounded to the nearest
/// integer, a half rounded up (for `n >= 0`, `d > 0`).
pub open spec fn is_rounded_ratio(r: int, n: int, d: int) -> bool {
    &&& r >= 0
    &&& (r == 0 || (2 * r - 1) * (2 * r - 1) * d <= 4 * n * n)
    &&& 4 * n * n < (2 * r + 1) * (2 * r + 1) * d
}

/// `n / sqrt(d)` rounded to the nearest integer, a half rounded up.
pub open spec fn rounded_ratio(n: int, d: int) -> int {
    choose|r: int| is_rounded_ratio(r, n, d)
}

/// Speed along one axis whose step count is `coord`, while the orthogonal
/// axis stands at `other`, for `limit` steps and top speed `max_speed`.
///
/// Along a single axis the speed grows linearly with the steps (truncated
/// toward zero) and is exactly `max_speed` at the limit. On a diagonal the
/// overall speed follows the dominant axis, and the step vector is rescaled
/// to that length; each component is rounded half away from zero.
pub open spec fn axis_speed(coord: int, other: int, limit: int, max_speed: int) -> int {
    if other == 0 {
        if coord == limit {
            max_speed
        } else if coord == -limit {
            -max_speed
        } else if coord >= 0 {
            coord * max_speed / limit
        } else {
            -((-coord) * max_speed / limit)
        }
    } else {
        let dominant = if abs(coord) >= abs(other) { abs(coord) } else { abs(other) };
        let current_speed = max_speed * dominant / limit;
        let magnitude = rounded_ratio(abs(coord) * current_speed, coord * coord + other * other);
        if coord >= 0 {
            magnitude
        } else {
            -magnitude
        }
    }
}

/// The facing of a step pair: four slices of the plane cut by the lines
/// `y = x` and `y = -x`; the origin faces down.
pub open spec fn direction_of(steps: (int, int)) -> Direction {
    let (x, y) = steps;
    if -y > abs(x) {
        Direction::Down
    } else if -y == abs(x) && x <= 0 {
        Direction::Down
    } else if x > abs(y) {
        Direction::Right
    } else if x == abs(y) && y < 0 {
        Direction::Right
    } else if x <= -abs(y) {
        Direction::Left
    } else {
        Direction::Up
    }
}

/// Distinct values cannot both be `n / sqrt(d)` rounded to the nearest
/// integer.
pub proof fn lemma_rounded_ratio_unique(r1: int, r2: int, n: int, d: int)
    requires
        d > 0,
        is_rounded_ratio(r1, n, d),
        is_rounded_ratio(r2, n, d),
    ensures
        r1 == r2,
{
    if r1 < r2 {
        lemma_square_monotone(2 * r1 + 1, 2 * r2 - 1, d);
    } else if r2 < r1 {
        lemma_square_monotone(2 * r2 + 1, 2 * r1 - 1, d);
    }
}

proof fn lemma_square_monotone(a: int, b: int, d: int)
    requires
        0 <= a <= b,
        d >= 0,
    ensures
        a * a * d <= b * b * d,
{
    assert(a * a <= b * b) by (nonlinear_arith)
        requires
            0 <= a <= b,
    ;
    assert(a * a * d <= b * b * d) by (nonlinear_arith)
        requires
            a * a <= b * b,
            d >= 0,
    ;
}

/// Some rounded value exists at or above any `k` that is not yet too large.
proof fn lemma_rounded_ratio_from(k: int, n: int, d: int)
    requires
        n >= 0,
        d > 0,
        0 <= k <= n + 1,
        k == 0 || (2 * k - 1) * (2 * k - 1) * d <= 4 * n * n,
    ensures
        exists|r: int| is_rounded_ratio(r, n, d),
    decreases n + 1 - k,
{
    if 4 * n * n < (2 * k + 1) * (2 * k + 1) * d {
        assert(is_rounded_ratio(k, n, d));
    } else {
        if k == n + 1 {
            assert((2 * k - 1) * (2 * k - 1) * d > 4 * n * n) by (nonlinear_arith)
                requires
                    k == n + 1,
                    n >= 0,
                    d >= 1,
            ;
        }
        lemma_rounded_ratio_from(k + 1, n, d);
    }
}

/// `n / sqrt(d)` always has a rounded value, so `rounded_ratio` is it.
pub proof fn lemma_rounded_ratio_exists(n: int, d: int)
    requires
        n >= 0,
        d > 0,
    ensures
        is_rounded_ratio(rounded_ratio(n, d), n, d),
{
    lemma_rounded_ratio_from(0, n, d);
}

/// `rounded_ratio` is the value that `is_rounded_ratio` describes.
pub proof fn lemma_rounded_ratio_is(r: int, n: int, d: int)
    requires
        d > 0,
        is_rounded_ratio(r, n, d),
    ensures
        rounded_ratio(n, d) == r,
{
    let c = rounded_ratio(n, d);
    assert(is_rounded_ratio(c, n, d));
    lemma_rounded_ratio_unique(c, r, n, d);
}

/// `n / sqrt(d)` rounded to the nearest integer, a half rounded up, found by
/// bisection on the integers.
fn nearest_ratio(n: u64, d: u64) -> (r: u64)
    requires
        0 < d <= 0x4_0000_0000,
        n <= 0xFFFF_FFFF,
    ensures
        is_rounded_ratio(r as int, n as int, d as int),
        r <= n,
{
    assert(4 * n * n <= 4 * 0xFFFF_FFFF * 0xFFFF_FFFF) by (nonlinear_arith)
        requires
            n <= 0xFFFF_FFFF,
    ;
    let four_n_squared: u128 = 4 * (n as u128) * (n as u128);
    let mut low: u64 = 0;
    let mut high: u64 = n + 1;
    proof {
        let h = high as int;
        assert((2 * h - 1) * (2 * h - 1) * d > 4 * n * n) by (nonlinear_arith)
            requires
                h == n + 1,
                n >= 0,
                d >= 1,
        ;
    }
    while high - low > 1
        invariant
            low < high <= n + 1,
            n <= 0xFFFF_FFFF,
            0 < d <= 0x4_0000_0000,
            four_n_squared == 4 * n * n,
            low == 0 || (2 * low - 1) * (2 * low - 1) * d <= 4 * n * n,
            (2 * high - 1) * (2 * high - 1) * d > 4 * n * n,
        decreases high - low,
    {
        let mid = low + (high - low) / 2;
        let odd = 2 * (mid as u128) - 1;
        assert(odd * odd <= 0x2_0000_0000 * 0x2_0000_0000 && odd * odd * (d as u128)
            <= 0x2_0000_0000 * 0x2_0000_0000 * 0x4_0000_0000) by (nonlinear_arith)
            requires
                odd <= 0x2_0000_0000,
                d <= 0x4_0000_0000,
        ;
        if odd * odd * (d as u128) <= four_n_squared {
            low = mid;
        } else {
            high = mid;
        }
    }
    low
}

/// A share `part / whole` of a speed is at most the speed.
proof fn lemma_scaled_at_most(part: int, speed: int, whole: int)
    requires
        0 <= part <= whole,
        whole > 0,
        speed >= 0,
    ensures
        0 <= part * speed / whole <= speed,
{
    assert(0 <= part * speed <= whole * speed) by (nonlinear_arith)
        requires
            0 <= part <= whole,
            speed >= 0,
    ;
    vstd::arithmetic::div_mod::lemma_div_is_ordered(part * speed, whole * speed, whole);
    vstd::arithmetic::div_mod::lemma_div_multiples_vanish(speed, whole);
    vstd::arithmetic::div_mod::lemma_div_pos_is_pos(part * speed, whole);
}

/// Rescaling `c` to length `speed` on a vector of squared length `d >= c * c`
/// never exceeds `speed`.
pub(crate) proof fn lemma_rounded_at_most(r: int, c: int, speed: int, d: int)
    requires
        c >= 0,
        speed >= 0,
        d >= c * c,
        d > 0,
        is_rounded_ratio(r, c * speed, d),
    ensures
        r <= speed,
{
    if r > speed {
        lemma_square_monotone(2 * speed + 1, 2 * r - 1, d);
        assert(4 * (c * speed) * (c * speed) <= 4 * speed * speed * d) by (nonlinear_arith)
            requires
                d >= c * c,
                c >= 0,
                speed >= 0,
        ;
        assert(4 * speed * speed * d < (2 * speed + 1) * (2 * speed + 1) * d) by (nonlinear_arith)
            requires
                d > 0,
                speed >= 0,
        ;
    }
}

/// The velocity of an actor: a step count per axis, each within
/// `[-ACCELERATION_STEPS, ACCELERATION_STEPS]`, and the top speed.
#[derive(Clone, Copy, Debug)]
pub struct Velocity<const ACCELERATION_STEPS: u16> {
    x: LimitedInt<ACCELERATION_STEPS>,
    y: LimitedInt<ACCELERATION_STEPS>,
    max_speed: u16,
}

impl<const ACCELERATION_STEPS: u16> View for Velocity<ACCELERATION_STEPS> {
    /// The step counts `(x, y)`.
    type V = (int, int);

    closed spec fn view(&self) -> (int, int) {
        (self.x@, self.y@)
    }
}

impl<const ACCELERATION_STEPS: u16> Velocity<ACCELERATION_STEPS> {
    #[verifier::type_invariant]
    spec fn steps_within_limit(self) -> bool {
        within(self@, ACCELERATION_STEPS as int)
    }

    /// The top speed, reached along one axis at the step limit.
    pub closed spec fn spec_max_speed(&self) -> int {
        self.max_speed as int
    }

    /// Speed along the x axis.
    pub open spec fn spec_x(&self) -> int {
        axis_speed(self@.0, self@.1, ACCELERATION_STEPS as int, self.spec_max_speed())
    }

    /// Speed along the y axis.
    pub open spec fn spec_y(&self) -> int {
        axis_speed(self@.1, self@.0, ACCELERATION_STEPS as int, self.spec_max_speed())
    }

    /// Whether either step count is non-zero.
    pub open spec fn spec_is_moving(&self) -> bool {
        self@.0 != 0 || self@.1 != 0
    }

    /// A velocity at rest with top speed `max_speed`.
    pub fn new(max_speed: u16) -> (r: Velocity<ACCELERATION_STEPS>)
        ensures
            r@ == (0int, 0int),
            r.spec_max_speed() == max_speed as int,
            !r.spec_is_moving(),
            direction_of(r@) == Direction::Down,
    {
        Velocity { x: LimitedInt::new(0), y: LimitedInt::new(0), max_speed }
    }

    /// The raw step count of the x axis.
    pub fn x_step(&self) -> (r: i32)
        ensures
            r == self@.0,
            within(self@, ACCELERATION_STEPS as int),
    {
        proof {
            use_type_invariant(self);
        }
        self.x.value()
    }

    /// The raw step count of the y axis.
    pub fn y_step(&self) -> (r: i32)
        ensures
            r == self@.1,
            within(self@, ACCELERATION_STEPS as int),
    {
        proof {
            use_type_invariant(self);
        }
        self.y.value()
    }

    /// Speed along an axis at `coordinate` steps while the other axis is at
    /// rest.
    fn scale_coordinate_by_acceleration_steps(&self, coordinate: i32) -> (r: i32)
        requires
            -(ACCELERATION_STEPS as int) <= coordinate <= ACCELERATION_STEPS as int,
        ensures
            r == axis_speed(coordinate as int, 0, ACCELERATION_STEPS as int, self.spec_max_speed()),
            -self.spec_max_speed() <= r <= self.spec_max_speed(),
    {
        let acceleration_steps = ACCELERATION_STEPS as i32;
        let max_speed = self.max_speed as u64;
        if coordinate == acceleration_steps {
            self.max_speed as i32
        } else if coordinate == -acceleration_steps {
            -(self.max_speed as i32)
        } else {
            let steps = ACCELERATION_STEPS as u64;
            let magnitude = if coordinate >= 0 { coordinate as u64 } else { -coordinate as u64 };
            proof {
                lemma_scaled_at_most(magnitude as int, max_speed as int, steps as int);
            }
            assert(magnitude * max_speed <= 0xFFFF * 0xFFFF) by (nonlinear_arith)
                requires
                    magnitude <= 0xFFFF,
                    max_speed <= 0xFFFF,
            ;
            let scaled = (magnitude * max_speed / steps) as i32;
            if coordinate >= 0 {
                scaled
            } else {
                -scaled
            }
        }
    }

    /// Speed along an axis at `coord` steps while the other axis is at
    /// `other_coord` steps, not zero: the step vector rescaled to the speed of
    /// the dominant axis.
    fn scale_coordinate_by_length(&self, coord: i32, other_coord: i32) -> (r: i32)
        requires
            -(ACCELERATION_STEPS as int) <= coord <= ACCELERATION_STEPS as int,
            -(ACCELERATION_STEPS as int) <= other_coord <= ACCELERATION_STEPS as int,
            other_coord != 0,
        ensures
            r == axis_speed(coord as int, other_coord as int, ACCELERATION_STEPS as int, self.spec_max_speed()),
            -self.spec_max_speed() <= r <= self.spec_max_speed(),
    {
        let steps = ACCELERATION_STEPS as u64;
        let max_speed = self.max_speed as u64;
        let c = if coord >= 0 { coord as u64 } else { -coord as u64 };
        let o = if other_coord >= 0 { other_coord as u64 } else { -other_coord as u64 };
        let dominant = if c >= o { c } else { o };
        proof {
            lemma_scaled_at_most(dominant as int, max_speed as int, steps as int);
        }
        assert(max_speed * dominant <= 0xFFFF * 0xFFFF && max_speed * dominant == dominant
            * max_speed) by (nonlinear_arith)
            requires
                dominant <= 0xFFFF,
                max_speed <= 0xFFFF,
        ;
        let current_speed = max_speed * dominant / steps;
        assert(c * current_speed <= 0xFFFF * 0xFFFF) by (nonlinear_arith)
            requires
                c <= 0xFFFF,
                current_speed <= 0xFFFF,
        ;
        assert(c * c + o * o <= 2 * 0xFFFF * 0xFFFF) by (nonlinear_arith)
            requires
                c <= 0xFFFF,
                o <= 0xFFFF,
        ;
        assert(c * c + o * o > 0) by (nonlinear_arith)
            requires
                o > 0,
        ;
        let n = c * current_speed;
        let d = c * c + o * o;
        assert(d == coord * coord + other_coord * other_coord) by (nonlinear_arith)
            requires
                c == abs(coord as int),
                o == abs(other_coord as int),
                d == c * c + o * o,
        ;
        let magnitude = nearest_ratio(n, d);
        proof {
            lemma_rounded_ratio_is(magnitude as int, n as int, d as int);
            lemma_rounded_at_most(magnitude as int, c as int, current_speed as int, d as int);
        }
        if coord >= 0 {
            magnitude as i32
        } else {
            -(magnitude as i32)
        }
    }

    /// Speed along the x axis.
    pub fn x(&self) -> (r: i32)
        ensures
            r == self.spec_x(),
            -self.spec_max_speed() <= r <= self.spec_max_speed(),
    {
        let x = self.x.value();
        let y = self.y.value();
        if y == 0 {
            self.scale_coordinate_by_acceleration_steps(x)
        } else {
            self.scale_coordinate_by_length(x, y)
        }
    }

    /// Speed along the y axis.
    pub fn y(&self) -> (r: i32)
        ensures
            r == self.spec_y(),
            -self.spec_max_speed() <= r <= self.spec_max_speed(),
    {
        let x = self.x.value();
        let y = self.y.value();
        if x == 0 {
            self.scale_coordinate_by_acceleration_steps(y)
        } else {
            self.scale_coordinate_by_length(y, x)
        }
    }

    /// Accelerates one step towards `direction`, saturating at the limit.
    pub fn accelerate(&mut self, direction: Direction)
        ensures
            final(self)@ == accelerated(old(self)@, direction, ACCELERATION_STEPS as int),
            final(self).spec_max_speed() == old(self).spec_max_speed(),
            within(final(self)@, ACCELERATION_STEPS as int),
    {
        proof {
            use_type_invariant(&*self);
            self.x.lemma_added(1);
            self.x.lemma_added(-1);
            self.y.lemma_added(1);
            self.y.lemma_added(-1);
        }
        match direction {
            Direction::Up => self.y = self.y + 1,
            Direction::Down => self.y = self.y - 1,
            Direction::Left => self.x = self.x - 1,
            Direction::Right => self.x = self.x + 1,
        }
    }

    /// Releases `direction`: the matching axis moves one step toward zero if
    /// it points towards `direction`, and stays as it is otherwise.
    pub fn decelerate(&mut self, direction: Direction)
        ensures
            final(self)@ == decelerated(old(self)@, direction),
            final(self).spec_max_speed() == old(self).spec_max_speed(),
            within(final(self)@, ACCELERATION_STEPS as int),
    {
        proof {
            use_type_invariant(&*self);
            self.x.lemma_added(1);
            self.x.lemma_added(-1);
            self.y.lemma_added(1);
            self.y.lemma_added(-1);
        }
        match direction {
            Direction::Up => if self.y > 0 {
                self.y = self.y - 1
            },
            Direction::Down => if self.y < 0 {
                self.y = self.y + 1
            },
            Direction::Left => if self.x < 0 {
                self.x = self.x + 1
            },
            Direction::Right => if self.x > 0 {
                self.x = self.x - 1
            },
        }
    }

    /// Whether the velocity is non-zero, judged on the step counts.
    pub fn is_moving(&self) -> (r: bool)
        ensures
            r == self.spec_is_moving(),
    {
        self.x != 0 || self.y != 0
    }

    /// The facing that the current step counts point to.
    pub fn get_direction(&self) -> (r: Direction)
        ensures
            r == direction_of(self@),
    {
        let x = self.x.value();
        let y = self.y.value();
        let abs_x = self.x.abs();
        let abs_y = self.y.abs();
        if -y > abs_x {
            Direction::Down
        } else if -y == abs_x && x <= 0 {
            Direction::Down
        } else if x > abs_y {
            Direction::Right
        } else if x == abs_y && y < 0 {
            Direction::Right
        } else if x <= -abs_y {
            Direction::Left
        } else {
            Direction::Up
        }
    }
}

} // verus!
