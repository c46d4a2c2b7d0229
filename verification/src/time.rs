//! Points in time and lengths of time, in whole nanoseconds.
use vstd::prelude::*;

verus! {

/// The longest length of time: `u64::MAX` seconds and 999,999,999 nanoseconds.
pub const MAX_NANOS: u128 = 18_446_744_073_709_551_615_999_999_999;

/// A length of time.
#[derive(Clone, Copy, Debug, PartialEq, Eq, PartialOrd, Ord, Structural)]
pub struct Duration {
    nanos: u128,
}

/// A point in time, as the length of time since a fixed origin.
#[derive(Clone, Copy, Debug, PartialEq, Eq, PartialOrd, Ord, Structural)]
pub struct Moment {
    nanos: u128,
}

impl View for Duration {
    type V = nat;

    /// The nanoseconds.
    closed spec fn view(&self) -> nat {
        self.nanos as nat
    }
}

impl View for Moment {
    type V = nat;

    /// The nanoseconds since the origin.
    closed spec fn view(&self) -> nat {
        self.nanos as nat
    }
}

/// Two lengths of time with the same nanoseconds are the same.
pub broadcast proof fn same_duration(a: Duration, b: Duration)
    requires
        #[trigger] a@ == #[trigger] b@,
    ensures
        a == b,
{
}

/// The length of time of so many nanoseconds.
pub open spec fn duration(nanos: nat) -> Duration {
    choose|d: Duration| d@ == nanos
}

pub broadcast proof fn duration_of_its_nanos(d: Duration)
    ensures
        duration(#[trigger] d@) == d,
{
    same_duration(duration(d@), d);
}

impl Duration {
    #[verifier::type_invariant]
    spec fn in_range(self) -> bool {
        self.nanos <= MAX_NANOS
    }

    /// No time.
    pub fn zero() -> (d: Duration)
        ensures
            d@ == 0,
    {
        Duration { nanos: 0 }
    }

    /// The longest length of time.
    pub fn max() -> (d: Duration)
        ensures
            d@ == MAX_NANOS,
    {
        Duration { nanos: MAX_NANOS }
    }

    pub fn from_nanos(nanos: u64) -> (d: Duration)
        ensures
            d@ == nanos,
    {
        Duration { nanos: nanos as u128 }
    }

    pub fn from_millis(millis: u64) -> (d: Duration)
        ensures
            d@ == millis * 1_000_000,
    {
        Duration { nanos: millis as u128 * 1_000_000 }
    }

    pub fn from_secs(secs: u64) -> (d: Duration)
        ensures
            d@ == secs * 1_000_000_000,
    {
        Duration { nanos: secs as u128 * 1_000_000_000 }
    }

    pub fn as_nanos(self) -> (nanos: u128)
        ensures
            nanos == self@,
            nanos <= MAX_NANOS,
    {
        proof {
            use_type_invariant(&self);
        }
        self.nanos
    }

    /// The whole milliseconds.
    pub fn as_millis(self) -> (millis: u128)
        ensures
            millis == self@ / 1_000_000,
            millis <= MAX_NANOS / 1_000_000,
    {
        proof {
            use_type_invariant(&self);
        }
        self.nanos / 1_000_000
    }

    /// The product, unless it is out of range.
    pub fn checked_mul(self, factor: u32) -> (product: Option<Duration>)
        ensures
            match product {
                Some(product) => product@ == self@ * factor,
                None => self@ * factor > MAX_NANOS,
            },
    {
        proof {
            use_type_invariant(&self);
            assert(self.nanos * factor <= 18_446_744_073_709_551_615_999_999_999 * 4294967295)
                by (nonlinear_arith)
                requires
                    self.nanos <= 18_446_744_073_709_551_615_999_999_999,
                    factor <= 4294967295,
            ;
        }
        let product: u128 = self.nanos * (factor as u128);
        if product <= MAX_NANOS {
            Some(Duration { nanos: product })
        } else {
            None
        }
    }

    /// A part of the length of time, in whole nanoseconds.
    pub fn divided_by(self, parts: u32) -> (part: Duration)
        requires
            parts > 0,
        ensures
            part@ == self@ / (parts as nat),
    {
        proof {
            use_type_invariant(&self);
            vstd::arithmetic::div_mod::lemma_div_is_ordered_by_denominator(
                self.nanos as int,
                1,
                parts as int,
            );
            vstd::arithmetic::div_mod::lemma_div_basics(self.nanos as int);
        }
        Duration { nanos: self.nanos / (parts as u128) }
    }

    /// What is left after taking off a length of time; none if that was longer.
    pub fn saturating_sub(self, other: Duration) -> (rest: Duration)
        ensures
            rest@ == (if self@ >= other@ {
                (self@ - other@) as nat
            } else {
                0
            }),
    {
        proof {
            use_type_invariant(&self);
        }
        if self.nanos >= other.nanos {
            Duration { nanos: self.nanos - other.nanos }
        } else {
            Duration { nanos: 0 }
        }
    }
}

impl Moment {
    #[verifier::type_invariant]
    spec fn in_range(self) -> bool {
        self.nanos <= MAX_NANOS
    }

    /// The point in time that lies a length of time after the origin.
    pub fn after_origin(elapsed: Duration) -> (at: Moment)
        ensures
            at@ == elapsed@,
    {
        proof {
            use_type_invariant(&elapsed);
        }
        Moment { nanos: elapsed.nanos }
    }

    pub fn as_nanos(self) -> (nanos: u128)
        ensures
            nanos == self@,
            nanos <= MAX_NANOS,
    {
        proof {
            use_type_invariant(&self);
        }
        self.nanos
    }

    /// The point in time a length of time later, unless it is out of range.
    pub fn checked_add(self, later: Duration) -> (at: Option<Moment>)
        ensures
            match at {
                Some(at) => at@ == self@ + later@ && at@ <= MAX_NANOS,
                None => self@ + later@ > MAX_NANOS,
            },
    {
        proof {
            use_type_invariant(&self);
            use_type_invariant(&later);
        }
        if later.nanos <= MAX_NANOS - self.nanos {
            Some(Moment { nanos: self.nanos + later.nanos })
        } else {
            None
        }
    }

    /// The point in time a length of time later.
    pub fn plus(self, later: Duration) -> (at: Moment)
        requires
            self@ + later@ <= MAX_NANOS,
        ensures
            at@ == self@ + later@,
    {
        Moment { nanos: self.nanos + later.nanos }
    }

    /// The time that passed since an earlier point in time; none if that lies later.
    pub fn saturating_duration_since(self, earlier: Moment) -> (elapsed: Duration)
        ensures
            elapsed@ == elapsed_since(self@, earlier@),
    {
        proof {
            use_type_invariant(&self);
        }
        if self.nanos >= earlier.nanos {
            Duration { nanos: self.nanos - earlier.nanos }
        } else {
            Duration { nanos: 0 }
        }
    }
}

/// The nanoseconds from `earlier` to `now`, or none if `earlier` lies later.
pub open spec fn elapsed_since(now: nat, earlier: nat) -> nat {
    if now >= earlier {
        (now - earlier) as nat
    } else {
        0
    }
}

/// The time that passed leads from the earlier point in time to the later one; from a point that lies
/// later none passed, and the later it is now the more did.
pub proof fn elapsed_time_leads_to_now(now: nat, earlier: nat, later: nat)
    requires
        now <= later,
    ensures
        earlier <= now ==> earlier + elapsed_since(now, earlier) == now,
        earlier >= now ==> elapsed_since(now, earlier) == 0,
        elapsed_since(now, earlier) <= elapsed_since(later, earlier),
{
}

} // verus!
