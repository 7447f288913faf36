//! Admission of updates to a bounded pool of sessions.
//!
//! The dispatcher counts the sessions in flight and never lets them exceed
//! its limit. An update that finds every slot taken waits in a backlog of
//! at most `limit` updates and is started, first come first served, as
//! sessions finish; an update that finds the backlog full is handed back to
//! the caller, who holds it until a session has finished. After shutdown no
//! update is admitted; what was admitted before still runs.

use vstd::prelude::*;
use crate::tle::{TLEUpdate, UpdateView};

verus! {

/// What becomes of an offered update.
#[derive(Debug)]
pub enum Admission {
    /// A slot was free: the caller starts a session on the update now.
    Start { update: TLEUpdate },
    /// Every slot is taken: the update waits in the backlog.
    Queued,
    /// The update is handed back: the dispatcher is shut down or full.
    Refused { update: TLEUpdate },
}

/// The three ways an offer can end.
#[derive(Debug, Clone, Copy, PartialEq, Eq, Structural)]
pub enum Verdict {
    Start,
    Queue,
    Refuse,
}

/// The bounded pool's bookkeeping.
#[derive(Debug)]
pub struct Dispatcher {
    /// Most sessions that may run at once.
    pub limit: usize,
    /// Sessions running now.
    pub in_flight: usize,
    /// Cleared by shutdown.
    pub accepting: bool,
    /// Updates waiting for a slot, oldest first.
    pub backlog: Vec<TLEUpdate>,
}

impl Dispatcher {
    /// The waiting updates as plain values.
    pub open spec fn waiting(&self) -> Seq<UpdateView> {
        self.backlog@.map_values(|u: TLEUpdate| u@)
    }

    /// The invariant: the limit bounds the sessions in flight and the
    /// backlog, and an update waits only while every slot is taken.
    pub open spec fn wf(&self) -> bool {
        &&& self.in_flight <= self.limit
        &&& self.backlog@.len() <= self.limit
        &&& self.backlog@.len() > 0 ==> self.in_flight == self.limit
    }

    /// What an offer made now would come to.
    pub open spec fn verdict(&self) -> Verdict {
        if !self.accepting {
            Verdict::Refuse
        } else if self.in_flight < self.limit {
            Verdict::Start
        } else if self.backlog@.len() < self.limit {
            Verdict::Queue
        } else {
            Verdict::Refuse
        }
    }

    /// A dispatcher with no session in flight.
    pub fn new(limit: usize) -> (r: Dispatcher)
        ensures
            r.limit == limit,
            r.in_flight == 0,
            r.accepting,
            r.backlog@.len() == 0,
            r.wf(),
    {
        Dispatcher { limit, in_flight: 0, accepting: true, backlog: Vec::new() }
    }

    /// Offers an update. It starts at once while a slot is free, waits while
    /// the backlog has room, and is handed back otherwise.
    pub fn offer(&mut self, update: TLEUpdate) -> (r: Admission)
        requires
            old(self).wf(),
        ensures
            final(self).wf(),
            final(self).limit == old(self).limit,
            final(self).accepting == old(self).accepting,
            match old(self).verdict() {
                Verdict::Start => {
                    &&& r == (Admission::Start { update })
                    &&& final(self).in_flight == old(self).in_flight + 1
                    &&& final(self).backlog@ == old(self).backlog@
                },
                Verdict::Queue => {
                    &&& r == Admission::Queued
                    &&& final(self).in_flight == old(self).in_flight
                    &&& final(self).backlog@ == old(self).backlog@.push(update)
                },
                Verdict::Refuse => {
                    &&& r == (Admission::Refused { update })
                    &&& final(self).in_flight == old(self).in_flight
                    &&& final(self).backlog@ == old(self).backlog@
                },
            },
    {
        if !self.accepting {
            Admission::Refused { update }
        } else if self.in_flight < self.limit {
            self.in_flight = self.in_flight + 1;
            Admission::Start { update }
        } else if self.backlog.len() < self.limit {
            self.backlog.push(update);
            Admission::Queued
        } else {
            Admission::Refused { update }
        }
    }

    /// Records that a session has finished. Where an update waits, the
    /// oldest takes the slot and is returned for the caller to start;
    /// otherwise the slot is freed. With no session in flight nothing
    /// changes.
    pub fn finish(&mut self) -> (r: Option<TLEUpdate>)
        requires
            old(self).wf(),
        ensures
            final(self).wf(),
            final(self).limit == old(self).limit,
            final(self).accepting == old(self).accepting,
            if old(self).in_flight == 0 {
                &&& r is None
                &&& final(self).in_flight == 0
                &&& final(self).backlog@ == old(self).backlog@
            } else if old(self).backlog@.len() > 0 {
                &&& r == Some(old(self).backlog@[0])
                &&& final(self).in_flight == old(self).in_flight
                &&& final(self).backlog@ == old(self).backlog@.remove(0)
            } else {
                &&& r is None
                &&& final(self).in_flight == old(self).in_flight - 1
                &&& final(self).backlog@ == old(self).backlog@
            },
    {
        if self.in_flight == 0 {
            None
        } else if self.backlog.len() > 0 {
            Some(self.backlog.remove(0))
        } else {
            self.in_flight = self.in_flight - 1;
            None
        }
    }

    /// Stops admission. Sessions in flight and updates in the backlog are
    /// left to run.
    pub fn shutdown(&mut self)
        ensures
            !final(self).accepting,
            final(self).limit == old(self).limit,
            final(self).in_flight == old(self).in_flight,
            final(self).backlog@ == old(self).backlog@,
    {
        self.accepting = false;
    }

    /// Tells whether nothing runs and nothing waits.
    pub fn is_drained(&self) -> (r: bool)
        ensures
            r == (self.in_flight == 0 && self.backlog@.len() == 0),
    {
        self.in_flight == 0 && self.backlog.len() == 0
    }
}

} // verus!
