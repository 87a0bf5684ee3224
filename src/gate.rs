//! The one-shot delivery gate: of all the responses a round may hand back,
//! only the first is accepted.
use vstd::prelude::*;

verus! {

/// A response handed back to the inbound caller.
pub struct Delivery {
    pub status: u16,
    pub body: String,
}

/// A single-use slot: empty until the first commit, unchanged after it.
pub struct DeliveryGate {
    committed: Option<Delivery>,
}

impl View for DeliveryGate {
    type V = Option<Delivery>;

    closed spec fn view(&self) -> Option<Delivery> {
        self.committed
    }
}

impl DeliveryGate {
    /// An open gate: nothing committed yet.
    pub fn new() -> (r: DeliveryGate)
        ensures
            r@.is_none(),
    {
        DeliveryGate { committed: None }
    }

    /// Commits `(status, body)` if nothing was committed before; returns
    /// whether this call was the one that committed. Later calls change nothing.
    pub fn commit(&mut self, status: u16, body: String) -> (r: bool)
        ensures
            r == old(self)@.is_none(),
            final(self)@ == if r {
                Some(Delivery { status, body })
            } else {
                old(self)@
            },
    {
        if self.committed.is_none() {
            self.committed = Some(Delivery { status, body });
            true
        } else {
            false
        }
    }

    /// Whether a response was committed.
    pub fn is_committed(&self) -> (r: bool)
        ensures
            r == self@.is_some(),
    {
        self.committed.is_some()
    }

    /// The committed response, if any.
    pub fn committed(&self) -> (r: Option<&Delivery>)
        ensures
            r.is_some() == self@.is_some(),
            r.is_some() ==> *r.unwrap() == self@.unwrap(),
    {
        match &self.committed {
            Some(d) => Some(d),
            None => None,
        }
    }
}

} // verus!
