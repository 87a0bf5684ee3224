//! The quarantine rule: which backends a round finds lagging, and the store of
//! quarantined backends that every round consults and replaces.
use vstd::prelude::*;

verus! {

/// How far, in freshness units, a backend may trail the round's maximum
/// before it is quarantined.
pub const QUARANTINE_TOLERANCE: u64 = 7;

/// The largest freshness value among `obs` (0 when there is none).
pub open spec fn freshness_max(obs: Seq<(u64, String)>) -> int
    decreases obs.len(),
{
    if obs.len() == 0 {
        0
    } else {
        vstd::math::max(obs.last().0 as int, freshness_max(obs.drop_last()))
    }
}

/// Whether the observation `o` trails `top` by more than the tolerance.
pub open spec fn lags(o: (u64, String), top: int) -> bool {
    o.0 + QUARANTINE_TOLERANCE < top
}

/// The backends that a round with observations `obs` quarantines, in the
/// order of the observations: none when fewer than two observations were
/// made, else every one whose value trails the round's maximum by more than
/// the tolerance.
pub open spec fn lagging_hosts(obs: Seq<(u64, String)>) -> Seq<Seq<char>> {
    if obs.len() < 2 {
        Seq::empty()
    } else {
        obs.filter(|o: (u64, String)| lags(o, freshness_max(obs))).map_values(|o: (u64, String)| o.1@)
    }
}

/// The identities that `v` holds.
pub open spec fn hosts_view(v: Seq<String>) -> Seq<Seq<char>> {
    v.map_values(|h: String| h@)
}

/// The largest freshness value among the observations.
pub fn max_freshness(obs: &Vec<(u64, String)>) -> (r: u64)
    ensures
        r == freshness_max(obs@),
{
    let mut top: u64 = 0;
    let mut i: usize = 0;
    while i < obs.len()
        invariant
            0 <= i <= obs@.len(),
            top == freshness_max(obs@.take(i as int)),
        decreases obs@.len() - i,
    {
        assert(obs@.take(i + 1).drop_last() =~= obs@.take(i as int));
        if obs[i].0 > top {
            top = obs[i].0;
        }
        i = i + 1;
    }
    assert(obs@.take(obs@.len() as int) =~= obs@);
    top
}

/// The backends that a round with these observations finds lagging, in the
/// order of the observations.
pub fn find_lagging_hosts(obs: &Vec<(u64, String)>) -> (r: Vec<String>)
    ensures
        hosts_view(r@) == lagging_hosts(obs@),
{
    let mut hosts: Vec<String> = Vec::new();
    if obs.len() < 2 {
        assert(hosts_view(hosts@) =~= Seq::<Seq<char>>::empty());
        return hosts;
    }
    let top = max_freshness(obs);
    let ghost pred = |o: (u64, String)| lags(o, freshness_max(obs@));
    let mut i: usize = 0;
    assert(obs@.take(0).filter(pred) =~= Seq::<(u64, String)>::empty()) by {
        reveal(Seq::filter);
    }
    while i < obs.len()
        invariant
            0 <= i <= obs@.len(),
            top == freshness_max(obs@),
            pred == (|o: (u64, String)| lags(o, freshness_max(obs@))),
            hosts_view(hosts@) =~= obs@.take(i as int).filter(pred).map_values(|o: (u64, String)| o.1@),
        decreases obs@.len() - i,
    {
        assert(obs@.take(i + 1) =~= obs@.take(i as int).push(obs@[i as int]));
        proof {
            obs@.take(i as int).lemma_filter_push(obs@[i as int], pred);
        }
        let ghost before = hosts@;
        let ghost kept = obs@.take(i as int).filter(pred);
        if obs[i].0 < top && top - obs[i].0 > QUARANTINE_TOLERANCE {
            assert(pred(obs@[i as int]));
            hosts.push(obs[i].1.clone());
            assert(hosts_view(hosts@) =~= hosts_view(before).push(obs@[i as int].1@));
            assert(kept.push(obs@[i as int]).map_values(|o: (u64, String)| o.1@)
                =~= kept.map_values(|o: (u64, String)| o.1@).push(obs@[i as int].1@));
        } else {
            assert(!pred(obs@[i as int]));
        }
        i = i + 1;
    }
    assert(obs@.take(obs@.len() as int) =~= obs@);
    hosts
}

/// The backends currently excluded from winning a round. Each round replaces
/// the whole content with what that round found lagging.
pub struct QuarantineSet {
    hosts: Vec<String>,
}

impl View for QuarantineSet {
    type V = Seq<Seq<char>>;

    closed spec fn view(&self) -> Seq<Seq<char>> {
        hosts_view(self.hosts@)
    }
}

impl QuarantineSet {
    /// An empty store: no backend is quarantined.
    pub fn new() -> (r: QuarantineSet)
        ensures
            r@ == Seq::<Seq<char>>::empty(),
    {
        let r = QuarantineSet { hosts: Vec::new() };
        assert(r@ =~= Seq::<Seq<char>>::empty());
        r
    }

    /// Whether `host` is quarantined.
    pub fn contains(&self, host: &String) -> (r: bool)
        ensures
            r == self@.contains(host@),
    {
        let mut i: usize = 0;
        while i < self.hosts.len()
            invariant
                0 <= i <= self.hosts@.len(),
                forall|k: int| 0 <= k < i ==> self@[k] != host@,
            decreases self.hosts@.len() - i,
        {
            if self.hosts[i] == *host {
                assert(self@[i as int] == host@);
                return true;
            }
            i = i + 1;
        }
        false
    }

    /// The quarantined backends, in the order the last round found them.
    pub fn hosts(&self) -> (r: Vec<String>)
        ensures
            hosts_view(r@) == self@,
    {
        self.hosts.clone()
    }

    /// Replaces the whole content with the backends that a round with
    /// observations `obs` finds lagging; what was there before is dropped.
    pub fn replace_with_round(&mut self, obs: &Vec<(u64, String)>)
        ensures
            final(self)@ == lagging_hosts(obs@),
            obs@.len() < 2 ==> final(self)@ == Seq::<Seq<char>>::empty(),
    {
        self.hosts = find_lagging_hosts(obs);
    }
}

/// The round maximum is at least every observed value and, when there is an
/// observation, is one of them.
pub proof fn lemma_freshness_max_bounds(obs: Seq<(u64, String)>)
    ensures
        forall|i: int| 0 <= i < obs.len() ==> obs[i].0 <= freshness_max(obs),
        obs.len() > 0 ==> exists|i: int| 0 <= i < obs.len() && obs[i].0 == freshness_max(obs),
    decreases obs.len(),
{
    if obs.len() > 0 {
        let rest = obs.drop_last();
        lemma_freshness_max_bounds(rest);
        assert forall|i: int| 0 <= i < obs.len() implies obs[i].0 <= freshness_max(obs) by {
            if i < rest.len() {
                assert(obs[i] == rest[i]);
            }
        }
        if obs.last().0 as int >= freshness_max(rest) {
            assert(obs[obs.len() - 1].0 == freshness_max(obs));
        } else {
            let j = choose|j: int| 0 <= j < rest.len() && rest[j].0 == freshness_max(rest);
            assert(obs[j] == rest[j]);
        }
    }
}

/// With at least two observations, a backend is quarantined after the round
/// exactly when one of its observed values plus the tolerance stays below the
/// largest value observed in the round.
pub proof fn lemma_quarantine_is_lagging_set(obs: Seq<(u64, String)>, host: Seq<char>)
    requires
        obs.len() >= 2,
    ensures
        forall|i: int| 0 <= i < obs.len() ==> obs[i].0 <= freshness_max(obs),
        exists|i: int| 0 <= i < obs.len() && obs[i].0 == freshness_max(obs),
        lagging_hosts(obs).contains(host) <==> exists|i: int|
            0 <= i < obs.len() && obs[i].1@ == host && obs[i].0 + QUARANTINE_TOLERANCE < freshness_max(obs),
{
    lemma_freshness_max_bounds(obs);
    let pred = |o: (u64, String)| lags(o, freshness_max(obs));
    let kept = obs.filter(pred);
    let to_host = |o: (u64, String)| o.1@;
    assert(lagging_hosts(obs) == kept.map_values(to_host));
    if lagging_hosts(obs).contains(host) {
        let k = choose|k: int| 0 <= k < kept.len() && kept.map_values(to_host)[k] == host;
        broadcast use vstd::seq_lib::group_filter_ensures;
        assert(kept.contains(kept[k]));
        obs.lemma_filter_contains_rev(pred, kept[k]);
        let i = choose|i: int| 0 <= i < obs.len() && obs[i] == kept[k];
        assert(obs[i].1@ == host);
    }
    if exists|i: int|
        0 <= i < obs.len() && obs[i].1@ == host && obs[i].0 + QUARANTINE_TOLERANCE < freshness_max(obs) {
        let i = choose|i: int|
            0 <= i < obs.len() && obs[i].1@ == host && obs[i].0 + QUARANTINE_TOLERANCE < freshness_max(obs);
        obs.lemma_filter_contains(pred, i);
        let k = choose|k: int| 0 <= k < kept.len() && kept[k] == obs[i];
        assert(kept.map_values(to_host)[k] == host);
    }
}

/// With fewer than two observations a round leaves nobody quarantined.
pub proof fn lemma_few_observations_clear(obs: Seq<(u64, String)>)
    requires
        obs.len() < 2,
    ensures
        lagging_hosts(obs) == Seq::<Seq<char>>::empty(),
{
}

/// A backend that the current round does not find lagging is not quarantined
/// after it, whatever earlier rounds decided: nothing carries over.
pub proof fn lemma_no_carry_over(earlier: Seq<Seq<char>>, obs: Seq<(u64, String)>, host: Seq<char>)
    requires
        earlier.contains(host),
        !(obs.len() >= 2 && exists|i: int|
            0 <= i < obs.len() && obs[i].1@ == host && obs[i].0 + QUARANTINE_TOLERANCE < freshness_max(obs)),
    ensures
        !lagging_hosts(obs).contains(host),
{
    if obs.len() >= 2 {
        lemma_quarantine_is_lagging_set(obs, host);
    }
}

} // verus!
