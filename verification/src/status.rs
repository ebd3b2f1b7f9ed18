//! Health reporting for the service's health endpoint.

use vstd::prelude::*;

verus! {

/// Outcome reported by a health check.
#[derive(Clone, Copy, Debug, PartialEq, Eq, Structural)]
pub enum Status {
    Pass,
    Warn,
    Fail,
}

/// A health report carrying a single status.
#[derive(Clone, Copy, Debug, PartialEq, Eq, Structural)]
pub struct Health {
    status: Status,
}

impl Health {
    /// The status this report carries.
    pub closed spec fn spec_status(&self) -> Status {
        self.status
    }

    pub fn new(status: Status) -> (r: Health)
        ensures
            r.spec_status() == status,
    {
        Health { status }
    }

    pub fn status(&self) -> (r: Status)
        ensures
            r == self.spec_status(),
    {
        self.status
    }
}

} // verus!
