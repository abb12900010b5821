//! The status bar: whether a session is live, and the message shown when it
//! is not.

use vstd::prelude::*;

verus! {

/// The session state the bar reports.
#[derive(Clone, Debug)]
pub enum Status {
    /// A CPU session is live.
    Attached,
    /// No session, optionally with the reason.
    Detached(Option<String>),
}

/// Whether two session states read the same.
pub open spec fn status_matches(a: Status, b: Status) -> bool {
    match (a, b) {
        (Status::Attached, Status::Attached) => true,
        (Status::Detached(None), Status::Detached(None)) => true,
        (Status::Detached(Some(x)), Status::Detached(Some(y))) => x@ == y@,
        _ => false,
    }
}

/// Compare two session states.
pub fn status_eq(a: &Status, b: &Status) -> (r: bool)
    ensures
        r == status_matches(*a, *b),
{
    match (a, b) {
        (Status::Attached, Status::Attached) => true,
        (Status::Detached(None), Status::Detached(None)) => true,
        (Status::Detached(Some(x)), Status::Detached(Some(y))) => x.eq(y),
        _ => false,
    }
}

/// The status bar's state.
pub struct StatusBar {
    status: Status,
}

impl StatusBar {
    /// The state the bar currently shows.
    pub closed spec fn shown(&self) -> Status {
        self.status
    }

    /// A bar showing the given state.
    pub fn new(status: Status) -> (r: StatusBar)
        ensures
            r.shown() == status,
    {
        StatusBar { status }
    }

    /// Read the shown state.
    pub fn current(&self) -> (r: Status)
        ensures
            status_matches(r, self.shown()),
    {
        match &self.status {
            Status::Attached => Status::Attached,
            Status::Detached(None) => Status::Detached(None),
            Status::Detached(Some(m)) => Status::Detached(Some(m.clone())),
        }
    }

    /// Take a new state: re-render exactly when it reads differently from
    /// the shown one.
    pub fn change(&mut self, status: Status) -> (r: bool)
        ensures
            r == !status_matches(old(self).shown(), status),
            r ==> final(self).shown() == status,
            !r ==> *final(self) == *old(self),
    {
        if !status_eq(&self.status, &status) {
            self.status = status;
            true
        } else {
            false
        }
    }
}

} // verus!
