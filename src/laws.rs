use vstd::prelude::*;

use crate::limiter::{admits, after_admission, prune};
use crate::node::NodeAddress;

verus! {

/// The held set after requests from `addrs`, in order, by peers with
/// unreachable records, with no session ending in between.
pub open spec fn after_unreachable_requests(
    held: Set<NodeAddress>,
    limit: nat,
    addrs: Seq<NodeAddress>,
) -> Set<NodeAddress>
    decreases addrs.len(),
{
    if addrs.len() == 0 {
        held
    } else {
        after_admission(
            after_unreachable_requests(held, limit, addrs.drop_last()),
            limit,
            addrs.last(),
            false,
        )
    }
}

/// One request never takes the held set past the budget, never drops a held
/// peer, and a refused request leaves the held set as it was.
pub proof fn lemma_request_keeps_bound(
    held: Set<NodeAddress>,
    limit: nat,
    addr: NodeAddress,
    reachable: bool,
)
    requires
        held.finite(),
        held.len() <= limit,
    ensures
        after_admission(held, limit, addr, reachable).finite(),
        after_admission(held, limit, addr, reachable).len() <= limit,
        held.subset_of(after_admission(held, limit, addr, reachable)),
        !admits(held, limit, reachable) ==> after_admission(held, limit, addr, reachable) == held,
{
}

/// However many peers with unreachable records ask in a row, no more than
/// the budget are ever held, and every peer held at the start still is.
pub proof fn lemma_requests_keep_bound(held: Set<NodeAddress>, limit: nat, addrs: Seq<NodeAddress>)
    requires
        held.finite(),
        held.len() <= limit,
    ensures
        after_unreachable_requests(held, limit, addrs).finite(),
        after_unreachable_requests(held, limit, addrs).len() <= limit,
        held.subset_of(after_unreachable_requests(held, limit, addrs)),
    decreases addrs.len(),
{
    if addrs.len() > 0 {
        lemma_requests_keep_bound(held, limit, addrs.drop_last());
        lemma_request_keeps_bound(
            after_unreachable_requests(held, limit, addrs.drop_last()),
            limit,
            addrs.last(),
            false,
        );
    }
}

/// A peer whose record advertises a reachable endpoint is always admitted
/// and leaves the held set as it was, however full it is.
pub proof fn lemma_reachable_bypasses(held: Set<NodeAddress>, limit: nat, addr: NodeAddress)
    ensures
        admits(held, limit, true),
        after_admission(held, limit, addr, true) == held,
{
}

/// With the budget used up, the end of one held peer's session makes room:
/// once it is drained, a new peer with an unreachable record is admitted
/// and held.
pub proof fn lemma_expiry_frees_capacity(
    held: Set<NodeAddress>,
    limit: nat,
    expired: Seq<NodeAddress>,
    gone: NodeAddress,
    new: NodeAddress,
)
    requires
        held.finite(),
        held.len() == limit,
        held.contains(gone),
        expired.contains(gone),
    ensures
        admits(prune(held, expired), limit, false),
        after_admission(prune(held, expired), limit, new, false) == prune(held, expired).insert(
            new,
        ),
{
    assert(!prune(held, expired).contains(gone));
    assert(prune(held, expired).subset_of(held.remove(gone)));
    vstd::set_lib::lemma_len_subset(prune(held, expired), held.remove(gone));
}

/// With the budget used up, releasing a held peer makes room at once: a new
/// peer with an unreachable record is admitted and held.
pub proof fn lemma_release_frees_capacity(
    held: Set<NodeAddress>,
    limit: nat,
    gone: NodeAddress,
    new: NodeAddress,
)
    requires
        held.finite(),
        held.len() == limit,
        held.contains(gone),
    ensures
        admits(held.remove(gone), limit, false),
        after_admission(held.remove(gone), limit, new, false) == held.remove(gone).insert(new),
{
}

/// Releasing a peer twice is releasing it once, and releasing a peer that is
/// not held changes nothing.
pub proof fn lemma_release_idempotent(held: Set<NodeAddress>, addr: NodeAddress)
    ensures
        held.remove(addr).remove(addr) == held.remove(addr),
        !held.contains(addr) ==> held.remove(addr) == held,
{
    assert(held.remove(addr).remove(addr) =~= held.remove(addr));
    if !held.contains(addr) {
        assert(held.remove(addr) =~= held);
    }
}

/// Draining removes every identity received, keeps every other held peer,
/// and, when the received identities are distinct held peers, shrinks the
/// held set by exactly their number.
pub proof fn lemma_drain_exhaustive(held: Set<NodeAddress>, expired: Seq<NodeAddress>)
    requires
        held.finite(),
    ensures
        forall|i: int| 0 <= i < expired.len() ==> !prune(held, expired).contains(#[trigger] expired[i]),
        forall|x: NodeAddress|
            held.contains(x) && !expired.contains(x) ==> #[trigger] prune(held, expired).contains(x),
        expired.no_duplicates() && (forall|i: int| 0 <= i < expired.len() ==> held.contains(#[trigger] expired[i]))
            ==> prune(held, expired).len() == held.len() - expired.len(),
{
    assert forall|i: int| 0 <= i < expired.len() implies !prune(held, expired).contains(
        #[trigger] expired[i],
    ) by {
        assert(expired.to_set().contains(expired[i]));
    }
    if expired.no_duplicates() && (forall|i: int| 0 <= i < expired.len() ==> held.contains(#[trigger] expired[i])) {
        let gone = expired.to_set();
        expired.unique_seq_to_set();
        assert(held.intersect(gone) =~= gone);
        vstd::set_lib::lemma_set_difference_len(held, gone);
    }
}

} // verus!
