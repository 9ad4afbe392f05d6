//! Internal representation of requests: hashes, budgets, envelopes.

use vstd::prelude::*;

use crate::id::Id;

verus! {

/// A 32-byte BLAKE3 content hash.
pub type Hash = [u8; 32];

/// The four-dimensional request budget. Every billable request declares
/// one; the cost engine treats it as a running remainder that is
/// decremented as work is done and refunded on termination.
#[derive(Clone, Copy, Debug, PartialEq, Eq, Structural)]
pub struct Costs {
    /// Budget in the time currency, priced per millisecond.
    pub time: i64,
    /// Budget for new persistent bytes, priced per day per KB.
    pub space: i64,
    /// Budget for server-to-client bytes, priced per byte.
    pub traffic: i64,
    /// Budget available to be transferred to other users.
    pub tip: i64,
}

impl Costs {
    /// The total over the four dimensions, as a mathematical integer.
    pub open spec fn spec_sum(&self) -> int {
        self.time + self.space + self.traffic + self.tip
    }

    /// Whether every dimension is non-negative.
    pub open spec fn non_negative(&self) -> bool {
        self.time >= 0 && self.space >= 0 && self.traffic >= 0 && self.tip >= 0
    }

    /// Whether every dimension of `self` is at most that of `other`.
    pub open spec fn within(&self, other: &Costs) -> bool {
        self.time <= other.time && self.space <= other.space
            && self.traffic <= other.traffic && self.tip <= other.tip
    }

    /// The total of the four dimensions.
    pub fn sum(&self) -> (r: i64)
        requires
            i64::MIN <= self.spec_sum() <= i64::MAX,
        ensures
            r == self.spec_sum(),
    {
        let wide: i128 = self.time as i128 + self.space as i128 + self.traffic as i128
            + self.tip as i128;
        wide as i64
    }

    /// The total of the four dimensions, `None` when it does not fit.
    pub fn checked_sum(&self) -> (r: Option<i64>)
        ensures
            r is Some <==> i64::MIN <= self.spec_sum() <= i64::MAX,
            r is Some ==> r->Some_0 == self.spec_sum(),
    {
        let wide: i128 = self.time as i128 + self.space as i128 + self.traffic as i128
            + self.tip as i128;
        if wide < i64::MIN as i128 || wide > i64::MAX as i128 {
            None
        } else {
            Some(wide as i64)
        }
    }

    /// The all-zero budget.
    pub fn zero() -> (r: Costs)
        ensures
            r == (Costs { time: 0, space: 0, traffic: 0, tip: 0 }),
    {
        Costs { time: 0, space: 0, traffic: 0, tip: 0 }
    }
}

/// The envelope of every billable request.
#[derive(Clone, Copy, Debug)]
pub struct Head {
    /// The access token to resolve to a user.
    pub access: Id,
    /// The declared budget.
    pub costs: Costs,
    /// The optional federation target.
    pub fed: Option<Id>,
}

} // verus!
