//! Points and spans of time on one monotonic clock, in whole nanoseconds.

use vstd::prelude::*;

verus! {

/// A span of time.
#[derive(Debug, Clone, Copy, PartialEq, Eq, Structural)]
pub struct Duration {
    pub nanos: u64,
}

/// A point on the monotonic clock, counted from the clock's own epoch.
#[derive(Debug, Clone, Copy, PartialEq, Eq, Structural)]
pub struct Instant {
    pub nanos: u64,
}

/// How far `later` lies after `earlier`, zero when it does not.
pub open spec fn span(earlier: nat, later: nat) -> nat {
    if later >= earlier {
        (later - earlier) as nat
    } else {
        0
    }
}

impl View for Duration {
    type V = nat;

    open spec fn view(&self) -> nat {
        self.nanos as nat
    }
}

impl View for Instant {
    type V = nat;

    open spec fn view(&self) -> nat {
        self.nanos as nat
    }
}

/// The clock reading of a moment that may not have happened.
pub open spec fn moment(at: Option<Instant>) -> Option<nat> {
    match at {
        Some(at) => Some(at@),
        None => None,
    }
}

impl Instant {
    /// The time since `earlier`, zero when `earlier` is later than `self`.
    pub fn saturating_duration_since(self, earlier: Instant) -> (since: Duration)
        ensures
            since@ == span(earlier@, self@),
    {
        if self.nanos >= earlier.nanos {
            Duration { nanos: self.nanos - earlier.nanos }
        } else {
            Duration { nanos: 0 }
        }
    }
}

/// When a drawable was shown, seen from now.
#[derive(Debug, Clone, Copy, PartialEq, Eq, Structural)]
pub enum HostTime {
    /// It never was.
    Never,
    /// So long ago.
    Ago(Duration),
    /// So much later than now.
    Ahead(Duration),
}

/// The moment `shown` speaks of at `now`, on a clock that counts to `u64::MAX`.
pub open spec fn shown_at(now: nat, shown: HostTime) -> Option<nat> {
    match shown {
        HostTime::Never => None,
        HostTime::Ago(age) => if age@ <= now {
            Some((now - age@) as nat)
        } else {
            None
        },
        HostTime::Ahead(wait) => if now + wait@ <= u64::MAX {
            Some(now + wait@)
        } else {
            None
        },
    }
}

/// The moment `shown` speaks of, `None` for one that never was or that the clock cannot name.
pub fn host_time_to_instant(now: Instant, shown: HostTime) -> (at: Option<Instant>)
    ensures
        moment(at) == shown_at(now@, shown),
        moment(at) == match shown {
            HostTime::Never => None,
            HostTime::Ago(age) => if age@ <= now@ {
                Some((now@ - age@) as nat)
            } else {
                None
            },
            HostTime::Ahead(wait) => if now@ + wait@ <= u64::MAX {
                Some(now@ + wait@)
            } else {
                None
            },
        },
{
    match shown {
        HostTime::Never => None,
        HostTime::Ago(age) => if age.nanos <= now.nanos {
            Some(Instant { nanos: now.nanos - age.nanos })
        } else {
            None
        },
        HostTime::Ahead(wait) => match now.nanos.checked_add(wait.nanos) {
            Some(nanos) => Some(Instant { nanos }),
            None => None,
        },
    }
}

} // verus!
