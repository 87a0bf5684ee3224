//! One fan-out round: the decisions taken as each backend's call completes,
//! and the quarantine update once every call has settled.
use vstd::prelude::*;
use vstd::string::StringExecFns;
use crate::gate::{Delivery, DeliveryGate};
use crate::json::{body_freshness, extract_freshness};
use crate::quarantine::{lagging_hosts, QuarantineSet};

verus! {

/// The body of the response that a round hands back when no backend won.
pub const NO_SERVERS_BODY: &'static str = "No servers available";

/// The status of that response.
pub const NO_SERVERS_STATUS: u16 = 500;

/// A reply that reached the round, with what was judged of it when it arrived.
pub struct Observed {
    pub host: String,
    pub status: u16,
    pub body: String,
    /// The freshness counter that the body carried, if any.
    pub freshness: Option<u64>,
    /// Whether the backend was quarantined when the reply was processed.
    pub quarantined: bool,
}

/// The (freshness, backend) pairs that the replies `seen` give, in order of
/// arrival; replies without a freshness counter give none.
pub open spec fn observations_of(seen: Seq<Observed>) -> Seq<(u64, String)>
    decreases seen.len(),
{
    if seen.len() == 0 {
        Seq::empty()
    } else {
        let rest = observations_of(seen.drop_last());
        match seen.last().freshness {
            Some(v) => rest.push((v, seen.last().host)),
            None => rest,
        }
    }
}

/// The response of the first reply among `seen` whose backend was not
/// quarantined when it arrived.
pub open spec fn winner_of(seen: Seq<Observed>) -> Option<Delivery>
    decreases seen.len(),
{
    if seen.len() == 0 {
        None
    } else {
        match winner_of(seen.drop_last()) {
            Some(d) => Some(d),
            None => if seen.last().quarantined {
                None
            } else {
                Some(Delivery { status: seen.last().status, body: seen.last().body })
            },
        }
    }
}

/// The state of one round between the completions of its calls.
pub struct Round {
    gate: DeliveryGate,
    observations: Vec<(u64, String)>,
    seen: Ghost<Seq<Observed>>,
}

impl Round {
    /// The replies processed so far, in order of arrival.
    pub closed spec fn seen(&self) -> Seq<Observed> {
        self.seen@
    }

    /// The round's bookkeeping agrees with the replies it processed.
    #[verifier::type_invariant]
    spec fn wf(&self) -> bool {
        &&& self.observations@ == observations_of(self.seen@)
        &&& self.gate@ == winner_of(self.seen@)
    }

    /// A round before any call has completed.
    pub fn new() -> (r: Round)
        ensures
            r.seen() == Seq::<Observed>::empty(),
    {
        let r = Round { gate: DeliveryGate::new(), observations: Vec::new(), seen: Ghost(Seq::empty()) };
        assert(r.observations@ =~= observations_of(r.seen@));
        r
    }

    /// Takes in one reply, given the freshness counter its body carries and
    /// whether its backend is quarantined now. The pair is recorded whatever
    /// the quarantine says; the reply is committed when its backend is not
    /// quarantined and nothing was committed before. Returns the response to
    /// hand back to the caller when this reply is the one committed.
    pub fn record_reply(
        &mut self,
        host: String,
        status: u16,
        body: String,
        freshness: Option<u64>,
        quarantined: bool,
    ) -> (r: Option<Delivery>)
        ensures
            final(self).seen() == old(self).seen().push(
                Observed { host, status, body, freshness, quarantined },
            ),
            r.is_some() == (winner_of(old(self).seen()).is_none() && !quarantined),
            r.is_some() ==> r.unwrap().status == status && r.unwrap().body == body,
            winner_of(final(self).seen()) == if r.is_some() {
                r
            } else {
                winner_of(old(self).seen())
            },
            observations_of(final(self).seen()) == match freshness {
                Some(v) => observations_of(old(self).seen()).push((v, host)),
                None => observations_of(old(self).seen()),
            },
    {
        proof {
            use_type_invariant(&*self);
        }
        let ghost seen_before = self.seen@;
        let ghost item = Observed { host, status, body, freshness, quarantined };
        let mut current = Round::new();
        std::mem::swap(self, &mut current);
        proof {
            use_type_invariant(&current);
        }
        let Round { mut gate, mut observations, seen } = current;
        proof {
            assert(seen_before.push(item).drop_last() =~= seen_before);
        }
        match freshness {
            Some(v) => observations.push((v, host)),
            None => {},
        }
        let r = if !quarantined && !gate.is_committed() {
            let copy = body.clone();
            gate.commit(status, body);
            Some(Delivery { status, body: copy })
        } else {
            None
        };
        *self = Round { gate, observations, seen: Ghost(seen_before.push(item)) };
        r
    }

    /// Takes in one reply as it arrives: reads the freshness counter from its
    /// body and checks the quarantine store as it stands now.
    pub fn on_reply(
        &mut self,
        host: String,
        status: u16,
        body: String,
        store: &QuarantineSet,
    ) -> (r: Option<Delivery>)
        ensures
            final(self).seen() == old(self).seen().push(
                Observed {
                    host,
                    status,
                    body,
                    freshness: body_freshness(body@),
                    quarantined: store@.contains(host@),
                },
            ),
            r.is_some() == (winner_of(old(self).seen()).is_none() && !store@.contains(host@)),
            r.is_some() ==> r.unwrap().status == status && r.unwrap().body == body,
            winner_of(final(self).seen()) == if r.is_some() {
                r
            } else {
                winner_of(old(self).seen())
            },
            observations_of(final(self).seen()) == match body_freshness(body@) {
                Some(v) => observations_of(old(self).seen()).push((v, host)),
                None => observations_of(old(self).seen()),
            },
    {
        let freshness = extract_freshness(body.as_str());
        let quarantined = store.contains(&host);
        self.record_reply(host, status, body, freshness, quarantined)
    }

    /// Ends the round once every call has settled: replaces the quarantine
    /// store with the backends this round found lagging, and returns the
    /// failure response to hand back when no reply was committed.
    pub fn finish(self, store: &mut QuarantineSet) -> (r: Option<Delivery>)
        ensures
            final(store)@ == lagging_hosts(observations_of(self.seen())),
            r.is_some() == winner_of(self.seen()).is_none(),
            r.is_some() ==> r.unwrap().status == NO_SERVERS_STATUS && r.unwrap().body@ == NO_SERVERS_BODY@,
    {
        proof {
            use_type_invariant(&self);
        }
        store.replace_with_round(&self.observations);
        if self.gate.is_committed() {
            None
        } else {
            Some(Delivery { status: NO_SERVERS_STATUS, body: String::from_str(NO_SERVERS_BODY) })
        }
    }
}

/// Replaying the same replies in the same order gives the same quarantine
/// set, whatever quarantine each replay consulted on the way.
pub proof fn lemma_replay_same_quarantine(a: Seq<Observed>, b: Seq<Observed>)
    requires
        a.len() == b.len(),
        forall|i: int|
            0 <= i < a.len() ==> a[i].host == b[i].host && a[i].status == b[i].status && a[i].body
                == b[i].body && a[i].freshness == b[i].freshness,
    ensures
        observations_of(a) == observations_of(b),
        lagging_hosts(observations_of(a)) == lagging_hosts(observations_of(b)),
    decreases a.len(),
{
    if a.len() > 0 {
        lemma_replay_same_quarantine(a.drop_last(), b.drop_last());
    }
}

} // verus!
