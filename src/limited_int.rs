use vstd::prelude::*;

verus! {

/// `v` clamped into the symmetric range `[-limit, limit]`.
pub open spec fn clamp(v: int, limit: int) -> int {
    if v > limit {
        limit
    } else if v < -limit {
        -limit
    } else {
        v
    }
}

/// An integer that never leaves `[-LIMIT, LIMIT]`: additions and
/// subtractions saturate at the bounds.
#[derive(Clone, Copy, Debug)]
pub struct LimitedInt<const LIMIT: u16> {
    value: i32,
}

impl<const LIMIT: u16> View for LimitedInt<LIMIT> {
    type V = int;

    closed spec fn view(&self) -> int {
        self.value as int
    }
}

impl<const LIMIT: u16> LimitedInt<LIMIT> {
    #[verifier::type_invariant]
    spec fn within_limit(self) -> bool {
        -(LIMIT as int) <= self.value <= LIMIT as int
    }

    /// Creates a value, clamping `value` into `[-LIMIT, LIMIT]`.
    pub fn new(value: i32) -> (r: LimitedInt<LIMIT>)
        ensures
            r@ == clamp(value as int, LIMIT as int),
    {
        let limit = LIMIT as i32;
        let clamped = if value > limit {
            limit
        } else if value < -limit {
            -limit
        } else {
            value
        };
        LimitedInt { value: clamped }
    }

    /// The current value.
    pub fn value(&self) -> (r: i32)
        ensures
            r as int == self@,
            -(LIMIT as int) <= self@ <= LIMIT as int,
    {
        proof {
            use_type_invariant(self);
        }
        self.value
    }

    /// The absolute value of the current value.
    pub fn abs(&self) -> (r: i32)
        ensures
            r as int == if self@ < 0 { -self@ } else { self@ },
            0 <= r <= LIMIT,
    {
        proof {
            use_type_invariant(self);
        }
        if self.value < 0 {
            -self.value
        } else {
            self.value
        }
    }
}

impl<const LIMIT: u16> LimitedInt<LIMIT> {
    /// The value that results from adding `delta` to `self` with saturation.
    pub closed spec fn added(self, delta: int) -> LimitedInt<LIMIT> {
        LimitedInt { value: clamp(self@ + delta, LIMIT as int) as i32 }
    }

    /// A saturated addition lands on `self@ + delta` clamped into range.
    pub proof fn lemma_added(self, delta: int)
        ensures
            self.added(delta)@ == clamp(self@ + delta, LIMIT as int),
    {
    }

    /// `self@ + delta` clamped into range, computed without overflow.
    fn saturating_sum(self, delta: i64) -> (r: LimitedInt<LIMIT>)
        requires
            -0x8000_0000 <= delta <= 0x8000_0000,
        ensures
            r == self.added(delta as int),
    {
        let limit = LIMIT as i64;
        let sum = self.value as i64 + delta;
        let clamped = if sum > limit {
            limit
        } else if sum < -limit {
            -limit
        } else {
            sum
        };
        LimitedInt { value: clamped as i32 }
    }
}

impl<const LIMIT: u16> core::ops::Add<i32> for LimitedInt<LIMIT> {
    type Output = LimitedInt<LIMIT>;

    /// Adds `rhs`, saturating at `LIMIT` and at `-LIMIT`.
    fn add(self, rhs: i32) -> (r: LimitedInt<LIMIT>) {
        self.saturating_sum(rhs as i64)
    }
}

impl<const LIMIT: u16> vstd::std_specs::ops::AddSpecImpl<i32> for LimitedInt<LIMIT> {
    open spec fn obeys_add_spec() -> bool {
        true
    }

    open spec fn add_req(self, rhs: i32) -> bool {
        true
    }

    open spec fn add_spec(self, rhs: i32) -> LimitedInt<LIMIT> {
        self.added(rhs as int)
    }
}

impl<const LIMIT: u16> core::ops::AddAssign<i32> for LimitedInt<LIMIT> {
    /// Adds `rhs` in place, saturating at `LIMIT` and at `-LIMIT`.
    fn add_assign(&mut self, rhs: i32)
        ensures
            final(self)@ == clamp(old(self)@ + rhs as int, LIMIT as int),
    {
        proof {
            old(self).lemma_added(rhs as int);
        }
        *self = self.saturating_sum(rhs as i64);
    }
}

impl<const LIMIT: u16> core::ops::Sub<i32> for LimitedInt<LIMIT> {
    type Output = LimitedInt<LIMIT>;

    /// Subtracts `rhs`, saturating at `-LIMIT` and at `LIMIT`.
    fn sub(self, rhs: i32) -> (r: LimitedInt<LIMIT>) {
        self.saturating_sum(-(rhs as i64))
    }
}

impl<const LIMIT: u16> vstd::std_specs::ops::SubSpecImpl<i32> for LimitedInt<LIMIT> {
    open spec fn obeys_sub_spec() -> bool {
        true
    }

    open spec fn sub_req(self, rhs: i32) -> bool {
        true
    }

    open spec fn sub_spec(self, rhs: i32) -> LimitedInt<LIMIT> {
        self.added(-(rhs as int))
    }
}

impl<const LIMIT: u16> core::ops::SubAssign<i32> for LimitedInt<LIMIT> {
    /// Subtracts `rhs` in place, saturating at `-LIMIT` and at `LIMIT`.
    fn sub_assign(&mut self, rhs: i32)
        ensures
            final(self)@ == clamp(old(self)@ - rhs as int, LIMIT as int),
    {
        proof {
            old(self).lemma_added(-(rhs as int));
        }
        *self = self.saturating_sum(-(rhs as i64));
    }
}

impl<const LIMIT: u16> PartialEq<i32> for LimitedInt<LIMIT> {
    fn eq(&self, other: &i32) -> (r: bool) {
        self.value == *other
    }
}

impl<const LIMIT: u16> vstd::std_specs::cmp::PartialEqSpecImpl<i32> for LimitedInt<LIMIT> {
    open spec fn obeys_eq_spec() -> bool {
        true
    }

    open spec fn eq_spec(&self, other: &i32) -> bool {
        self@ == *other as int
    }
}

impl<const LIMIT: u16> PartialOrd<i32> for LimitedInt<LIMIT> {
    fn partial_cmp(&self, other: &i32) -> (r: Option<core::cmp::Ordering>) {
        if self.value < *other {
            Some(core::cmp::Ordering::Less)
        } else if self.value == *other {
            Some(core::cmp::Ordering::Equal)
        } else {
            Some(core::cmp::Ordering::Greater)
        }
    }
}

impl<const LIMIT: u16> vstd::std_specs::cmp::PartialOrdSpecImpl<i32> for LimitedInt<LIMIT> {
    open spec fn obeys_partial_cmp_spec() -> bool {
        true
    }

    open spec fn partial_cmp_spec(&self, other: &i32) -> Option<core::cmp::Ordering> {
        if self@ < *other as int {
            Some(core::cmp::Ordering::Less)
        } else if self@ == *other as int {
            Some(core::cmp::Ordering::Equal)
        } else {
            Some(core::cmp::Ordering::Greater)
        }
    }
}

} // verus!
