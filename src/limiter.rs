use vstd::prelude::*;

use crate::channel::try_recv;
use crate::node::{Enr, NodeAddress};

verus! {

/// The one way an admission can fail.
#[derive(Clone, Copy, Debug, PartialEq, Eq, Structural)]
pub enum LimiterError {
    /// The peer's record advertises no reachable endpoint and the budget of
    /// sessions with such peers is used up.
    LimitSessionsUnreachableEnr,
}

/// Whether a request from a peer is admitted while `held` holds the peers
/// with unreachable records: reachable peers always are, the others while
/// fewer than `limit` are held.
pub open spec fn admits(held: Set<NodeAddress>, limit: nat, reachable: bool) -> bool {
    reachable || held.len() < limit
}

/// The held set after a request from `addr`: an unreachable peer that is
/// admitted joins it, and nothing else changes it.
pub open spec fn after_admission(
    held: Set<NodeAddress>,
    limit: nat,
    addr: NodeAddress,
    reachable: bool,
) -> Set<NodeAddress> {
    if !reachable && held.len() < limit {
        held.insert(addr)
    } else {
        held
    }
}

/// The held set once the identities whose sessions ended are taken out.
pub open spec fn prune(held: Set<NodeAddress>, expired: Seq<NodeAddress>) -> Set<NodeAddress> {
    held.difference(expired.to_set())
}

/// Removing an element from a sequence without duplicates removes it from
/// the set of its elements.
proof fn lemma_remove_unique(s: Seq<NodeAddress>, i: int)
    requires
        s.no_duplicates(),
        0 <= i < s.len(),
    ensures
        s.remove(i).no_duplicates(),
        s.remove(i).to_set() == s.to_set().remove(s[i]),
{
    let t = s.remove(i);
    assert forall|x: NodeAddress| #[trigger] t.to_set().contains(x) <==> s.to_set().remove(
        s[i],
    ).contains(x) by {
        if t.to_set().contains(x) {
            let j = choose|j: int| 0 <= j < t.len() && t[j] == x;
            if j < i {
                assert(s[j] == x);
            } else {
                assert(s[j + 1] == x);
            }
        }
        if s.to_set().remove(s[i]).contains(x) {
            let j = choose|j: int| 0 <= j < s.len() && s[j] == x;
            if j < i {
                assert(t[j] == x);
            } else {
                assert(t[j - 1] == x);
            }
        }
    }
    assert(t.to_set() =~= s.to_set().remove(s[i]));
}

/// Caps the number of sessions held at once with peers whose records
/// advertise no reachable endpoint.
pub struct SessionLimiter {
    /// The peers with unreachable records that hold a session, each once.
    /// It never grows past `limit`, so a linear search stays short.
    sessions_unreachable_enr_tracker: Vec<NodeAddress>,
    /// Where the session table reports sessions that have ended.
    rx_expired_sessions: futures::channel::mpsc::Receiver<NodeAddress>,
    /// The most such sessions held at a time.
    limit: usize,
}

impl SessionLimiter {
    /// Each held peer is recorded once, and no more are held than the budget.
    pub closed spec fn wf(self) -> bool {
        &&& self.sessions_unreachable_enr_tracker@.no_duplicates()
        &&& self.sessions_unreachable_enr_tracker@.len() <= self.limit
    }

    /// The peers with unreachable records that currently hold a session.
    pub closed spec fn held(self) -> Set<NodeAddress> {
        self.sessions_unreachable_enr_tracker@.to_set()
    }

    /// The configured budget of such sessions.
    pub closed spec fn spec_limit(self) -> nat {
        self.limit as nat
    }

    /// The receiving end of the channel of ended sessions.
    pub closed spec fn receiver(self) -> futures::channel::mpsc::Receiver<NodeAddress> {
        self.rx_expired_sessions
    }

    /// A well-formed limiter holds a finite set within its budget.
    pub proof fn lemma_within_limit(&self)
        requires
            self.wf(),
        ensures
            self.held().finite(),
            self.held().len() <= self.spec_limit(),
    {
        self.sessions_unreachable_enr_tracker@.unique_seq_to_set();
    }

    /// A limiter that tracks nobody yet, reads ended sessions from
    /// `rx_expired_sessions`, and admits at most `limit` peers with
    /// unreachable records at a time.
    pub fn new(rx_expired_sessions: futures::channel::mpsc::Receiver<NodeAddress>, limit: usize) -> (s: Self)
        ensures
            s.wf(),
            s.held() == Set::<NodeAddress>::empty(),
            s.spec_limit() == limit,
            s.receiver() == rx_expired_sessions,
    {
        let s = SessionLimiter {
            sessions_unreachable_enr_tracker: Vec::new(),
            rx_expired_sessions,
            limit,
        };
        assert(s.sessions_unreachable_enr_tracker@.to_set() =~= Set::<NodeAddress>::empty());
        s
    }

    /// The position of `node_address` among the held peers, if it is one.
    fn position(&self, node_address: &NodeAddress) -> (r: Option<usize>)
        ensures
            match r {
                Some(i) => i < self.sessions_unreachable_enr_tracker@.len()
                    && self.sessions_unreachable_enr_tracker@[i as int] == *node_address,
                None => !self.sessions_unreachable_enr_tracker@.contains(*node_address),
            },
    {
        let mut i: usize = 0;
        while i < self.sessions_unreachable_enr_tracker.len()
            invariant
                i <= self.sessions_unreachable_enr_tracker@.len(),
                forall|j: int|
                    0 <= j < i ==> self.sessions_unreachable_enr_tracker@[j] != *node_address,
            decreases self.sessions_unreachable_enr_tracker@.len() - i,
        {
            if self.sessions_unreachable_enr_tracker[i] == *node_address {
                return Some(i);
            }
            i = i + 1;
        }
        None
    }

    /// Stops tracking `node_address`, freeing its place at once; a peer that
    /// is not held leaves the limiter as it was.
    pub fn untrack_session(&mut self, node_address: &NodeAddress)
        requires
            old(self).wf(),
        ensures
            final(self).wf(),
            final(self).held() == old(self).held().remove(*node_address),
            final(self).spec_limit() == old(self).spec_limit(),
            final(self).receiver() == old(self).receiver(),
    {
        match self.position(node_address) {
            Some(i) => {
                proof {
                    lemma_remove_unique(self.sessions_unreachable_enr_tracker@, i as int);
                }
                self.sessions_unreachable_enr_tracker.remove(i);
            },
            None => {
                assert(self.held() =~= self.held().remove(*node_address));
            },
        }
    }

    /// Decides a request from `node_address` on the current held set: a
    /// reachable peer passes untouched; an unreachable one is refused when the
    /// budget is used up and otherwise joins the held set.
    fn decide(&mut self, node_address: &NodeAddress, enr: &Enr) -> (r: Result<(), LimiterError>)
        requires
            old(self).wf(),
        ensures
            final(self).wf(),
            final(self).spec_limit() == old(self).spec_limit(),
            final(self).receiver() == old(self).receiver(),
            r is Ok == admits(old(self).held(), old(self).spec_limit(), enr.reachable()),
            final(self).held() == after_admission(
                old(self).held(),
                old(self).spec_limit(),
                *node_address,
                enr.reachable(),
            ),
    {
        proof {
            self.sessions_unreachable_enr_tracker@.unique_seq_to_set();
        }
        if enr.is_reachable() {
            return Ok(());
        }
        if self.sessions_unreachable_enr_tracker.len() >= self.limit {
            return Err(LimiterError::LimitSessionsUnreachableEnr);
        }
        match self.position(node_address) {
            Some(_) => {
                assert(self.held() =~= self.held().insert(*node_address));
            },
            None => {
                proof {
                    self.sessions_unreachable_enr_tracker@.lemma_push_to_set_commute(*node_address);
                }
                self.sessions_unreachable_enr_tracker.push(*node_address);
            },
        }
        Ok(())
    }

    /// Stops holding each peer in `expired`, the identities whose sessions
    /// ended; identities that are not held are passed over.
    pub fn untrack_expired_sessions(&mut self, expired: &Vec<NodeAddress>)
        requires
            old(self).wf(),
        ensures
            final(self).wf(),
            final(self).spec_limit() == old(self).spec_limit(),
            final(self).receiver() == old(self).receiver(),
            final(self).held() == prune(old(self).held(), expired@),
    {
        assert(self.held() =~= prune(self.held(), expired@.take(0)));
        let mut i: usize = 0;
        while i < expired.len()
            invariant
                i <= expired@.len(),
                self.wf(),
                self.spec_limit() == old(self).spec_limit(),
                self.receiver() == old(self).receiver(),
                self.held() == prune(old(self).held(), expired@.take(i as int)),
            decreases expired@.len() - i,
        {
            self.untrack_session(&expired[i]);
            proof {
                assert(expired@.take(i + 1) == expired@.take(i as int).push(expired@[i as int]));
                expired@.take(i as int).lemma_push_to_set_commute(expired@[i as int]);
            }
            i = i + 1;
            assert(self.held() =~= prune(old(self).held(), expired@.take(i as int)));
        }
        assert(expired@.take(i as int) == expired@);
    }

    /// Receives every ended session that the channel has queued, in order,
    /// without waiting. An empty or closed channel ends the drain; one call
    /// takes at most `usize::MAX` messages.
    fn drain_expired_sessions_buffer(&mut self) -> (expired: Vec<NodeAddress>)
        requires
            old(self).wf(),
        ensures
            final(self).wf(),
            final(self).spec_limit() == old(self).spec_limit(),
            final(self).held() == old(self).held(),
    {
        let mut expired: Vec<NodeAddress> = Vec::new();
        let mut budget: usize = usize::MAX;
        while budget > 0
            invariant
                self.wf(),
                self.spec_limit() == old(self).spec_limit(),
                self.held() == old(self).held(),
            decreases budget,
        {
            match try_recv(&mut self.rx_expired_sessions) {
                Some(session_node_address) => {
                    expired.push(session_node_address);
                    budget = budget - 1;
                },
                None => break,
            }
        }
        expired
    }

    /// Decides a request from `node_address` once the sessions of the
    /// identities in `expired` have ended: those peers stop being held first;
    /// then a peer whose record advertises a reachable endpoint is admitted
    /// and not held, and any other is refused when the budget is used up and
    /// otherwise held and admitted. The channel is not read.
    pub fn track_after_expiries(
        &mut self,
        expired: &Vec<NodeAddress>,
        node_address: &NodeAddress,
        enr: &Enr,
    ) -> (r: Result<(), LimiterError>)
        requires
            old(self).wf(),
        ensures
            final(self).wf(),
            final(self).spec_limit() == old(self).spec_limit(),
            final(self).receiver() == old(self).receiver(),
            r is Ok == admits(prune(old(self).held(), expired@), old(self).spec_limit(), enr.reachable()),
            final(self).held() == after_admission(
                prune(old(self).held(), expired@),
                old(self).spec_limit(),
                *node_address,
                enr.reachable(),
            ),
    {
        self.untrack_expired_sessions(expired);
        self.decide(node_address, enr)
    }

    /// Decides whether a session with `node_address` may be set up now; call
    /// it once per attempt, before deriving session keys. Ended sessions
    /// queued on the channel are drained first, whatever the outcome. Then a
    /// peer whose record advertises a reachable endpoint is admitted and not
    /// held; any other is refused when the budget is used up, and otherwise
    /// held and admitted. What the channel delivers depends on its senders,
    /// so the contract speaks of some sequence `expired` of received
    /// identities.
    pub fn track_sessions_unreachable_enr(&mut self, node_address: &NodeAddress, enr: &Enr) -> (r:
        Result<(), LimiterError>)
        requires
            old(self).wf(),
        ensures
            final(self).wf(),
            final(self).spec_limit() == old(self).spec_limit(),
            exists|expired: Seq<NodeAddress>|
                {
                    let pruned = #[trigger] prune(old(self).held(), expired);
                    &&& r is Ok == admits(pruned, old(self).spec_limit(), enr.reachable())
                    &&& final(self).held() == after_admission(
                        pruned,
                        old(self).spec_limit(),
                        *node_address,
                        enr.reachable(),
                    )
                },
    {
        let expired = self.drain_expired_sessions_buffer();
        self.track_after_expiries(&expired, node_address, enr)
    }

    /// How many peers with unreachable records are held.
    pub fn held_count(&self) -> (n: usize)
        requires
            self.wf(),
        ensures
            n == self.held().len(),
    {
        proof {
            self.sessions_unreachable_enr_tracker@.unique_seq_to_set();
        }
        self.sessions_unreachable_enr_tracker.len()
    }

    /// Whether `node_address` is held.
    pub fn is_held(&self, node_address: &NodeAddress) -> (r: bool)
        ensures
            r == self.held().contains(*node_address),
    {
        self.position(node_address).is_some()
    }

    /// The budget of sessions with peers whose records are unreachable.
    pub fn limit(&self) -> (n: usize)
        ensures
            n == self.spec_limit(),
    {
        self.limit
    }
}

} // verus!
