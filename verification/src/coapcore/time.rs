//! Time as used to consider token expiration.

use vstd::prelude::*;

verus! {

/// A clock by which time stamps on authorization credentials are compared.
pub trait TimeProvider {
    /// The lower bound of the clock's confidence interval, as the next call of
    /// [`TimeProvider::now`] reports it.
    spec fn lower_bound(&self) -> u64;

    /// Confidence interval of the clock as lower and upper bound.
    fn now(&mut self) -> (r: (u64, Option<u64>))
        ensures
            r.0 == old(self).lower_bound(),
    ;

    /// Informs the clock that a credential has been ingested from a trusted source that claims
    /// this time to be in the past.
    fn past_trusted(&mut self, timestamp: u64) {
    }
}

/// A time provider that knows nothing: it ignores any input and always produces the maximum
/// uncertainty.
pub struct TimeUnknown;

impl TimeProvider for TimeUnknown {
    /// The clock knows nothing: its lower bound is the start of time.
    open spec fn lower_bound(&self) -> u64 {
        0
    }

    fn now(&mut self) -> (r: (u64, Option<u64>))
        ensures
            r == (0u64, None::<u64>),
    {
        (0, None)
    }
}

/// The claims of a token that bear on time: its expiry (`exp`) and issue time (`iat`).
#[derive(Clone, Copy, Debug)]
pub struct ClaimsTimes {
    /// Expiration time.
    pub exp: u64,
    /// Issued-at time.
    pub iat: u64,
}

/// A processed set of token claims that limit it in time.
#[derive(Clone, Copy, Debug)]
pub struct TimeConstraint {
    /// Expiry; `None` means valid at any time.
    pub exp: Option<u64>,
}

impl TimeConstraint {
    /// Creates a constraint with no bounds; it is valid at any time.
    pub fn unbounded() -> (r: Self)
        ensures
            r.exp is None,
    {
        TimeConstraint { exp: None }
    }

    /// Extracts the time constraint of a token's claims: it expires at its `exp`.
    pub fn from_claims_set(claims: &ClaimsTimes) -> (r: Self)
        ensures
            r.exp == Some(claims.exp),
    {
        TimeConstraint { exp: Some(claims.exp) }
    }

    /// Whether the constraint holds when the clock's lower bound is `now_early`: a constraint
    /// without expiry always holds, one with expiry `exp` holds while `exp > now_early`.
    ///
    /// Any uncertainty of the clock is counted for the benefit of the client.
    pub fn is_valid_at(&self, now_early: u64) -> (r: bool)
        ensures
            r == match self.exp {
                None => true,
                Some(exp) => exp > now_early,
            },
    {
        match self.exp {
            None => true,
            Some(exp) => exp > now_early,
        }
    }

    /// An unbounded constraint holds at any time; a token's constraint holds exactly before its
    /// expiry.
    pub proof fn lemma_validity(now: u64, claims: ClaimsTimes)
        ensures
            (TimeConstraint { exp: None }).is_valid_spec(now),
            (TimeConstraint { exp: Some(claims.exp) }).is_valid_spec(now) <==> now < claims.exp,
    {
    }

    /// With a clock that knows nothing (its lower bound is 0, as [`TimeUnknown`] reports), every
    /// constraint holds but an expiry at time 0 itself: expired tokens are accepted.
    pub proof fn lemma_unknown_time_accepts_expired(c: TimeConstraint)
        requires
            c.exp != Some(0u64),
        ensures
            c.is_valid_spec(0),
    {
    }

    /// Whether the constraint holds when the clock's lower bound is `now_early`.
    pub open spec fn is_valid_spec(&self, now_early: u64) -> bool {
        match self.exp {
            None => true,
            Some(exp) => exp > now_early,
        }
    }

    /// Evaluates the constraint against the time provided by `time_provider`, which is only
    /// asked if the constraint has an expiry: the constraint holds at the lower bound of the
    /// clock (see [`TimeConstraint::is_valid_at`]).
    pub fn is_valid_with<T: TimeProvider>(&self, time_provider: &mut T) -> (r: bool)
        ensures
            r == self.is_valid_spec(old(time_provider).lower_bound()),
            self.exp is None ==> r && *final(time_provider) == *old(time_provider),
    {
        if self.exp.is_none() {
            return true;
        }
        let (now_early, _now_late) = time_provider.now();
        self.is_valid_at(now_early)
    }
}

} // verus!
