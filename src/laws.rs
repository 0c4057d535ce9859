use vstd::prelude::*;
use crate::registry::{lemma_admitted_well_formed, RegistryView, MAX_CLIENT_ID};
use crate::session::{ClientSession, PeerAddress, Protocol};

verus! {

/// The registry after the registrations `arrivals`, taken in order, each
/// admitted where it can be and refused otherwise.
pub open spec fn admit_all(v: RegistryView, arrivals: Seq<(PeerAddress, Protocol, u64)>) -> RegistryView
    decreases arrivals.len(),
{
    if arrivals.len() == 0 {
        v
    } else {
        let prev = admit_all(v, arrivals.drop_last());
        let (address, protocol, created_at) = arrivals.last();
        if prev.can_admit() {
            prev.admitted(address, protocol, created_at)
        } else {
            prev
        }
    }
}

/// N registrations on one shard, in whatever order they interleave, produce
/// N distinct identifiers that were not live before, and the registry grows
/// by exactly N, where the capacity and the identifier space leave room.
pub proof fn lemma_exactly_once_registration(
    v: RegistryView,
    arrivals: Seq<(PeerAddress, Protocol, u64)>,
)
    requires
        v.well_formed(),
        v.sessions.len() + arrivals.len() <= v.capacity,
        v.next_id + arrivals.len() <= MAX_CLIENT_ID,
    ensures
        admit_all(v, arrivals).well_formed(),
        admit_all(v, arrivals).sessions.len() == v.sessions.len() + arrivals.len(),
        admit_all(v, arrivals).sessions.subrange(0, v.sessions.len() as int) == v.sessions,
        admit_all(v, arrivals).next_id == v.next_id + arrivals.len(),
        admit_all(v, arrivals).capacity == v.capacity,
        forall|k: int|
            0 <= k < arrivals.len() ==> #[trigger] admit_all(v, arrivals).sessions[v.sessions.len()
                + k].client_id == v.next_id + k,
        forall|k: int|
            0 <= k < arrivals.len() ==> !v.has_client(
                #[trigger] admit_all(v, arrivals).sessions[v.sessions.len() + k].client_id,
            ),
        forall|j: int, k: int|
            0 <= j < arrivals.len() && 0 <= k < arrivals.len() && j != k ==> #[trigger] admit_all(
                v,
                arrivals,
            ).sessions[v.sessions.len() + j].client_id != #[trigger] admit_all(
                v,
                arrivals,
            ).sessions[v.sessions.len() + k].client_id,
    decreases arrivals.len(),
{
    let n = v.sessions.len();
    let w = admit_all(v, arrivals);
    if arrivals.len() == 0 {
        assert(w.sessions.subrange(0, n as int) =~= v.sessions);
    } else {
        let prefix = arrivals.drop_last();
        lemma_exactly_once_registration(v, prefix);
        let prev = admit_all(v, prefix);
        let (address, protocol, created_at) = arrivals.last();
        assert(prev.can_admit());
        lemma_admitted_well_formed(prev, address, protocol, created_at);
        assert(w == prev.admitted(address, protocol, created_at));
        assert forall|k: int| 0 <= k < arrivals.len() implies #[trigger] w.sessions[n + k].client_id
            == v.next_id + k by {
            if k < prefix.len() {
                assert(w.sessions[n + k] == prev.sessions[n + k]);
            }
        }
        assert(w.sessions.subrange(0, n as int) =~= prev.sessions.subrange(0, n as int));
    }
    assert forall|k: int| 0 <= k < arrivals.len() implies !v.has_client(
        #[trigger] w.sessions[n + k].client_id,
    ) by {
        assert(w.sessions[n + k].client_id == v.next_id + k);
        if v.has_client(w.sessions[n + k].client_id) {
            let i = choose|i: int|
                0 <= i < v.sessions.len() && #[trigger] v.sessions[i].client_id
                    == w.sessions[n + k].client_id;
            assert(v.sessions[i].client_id < v.next_id);
        }
    }
    assert forall|j: int, k: int|
        0 <= j < arrivals.len() && 0 <= k < arrivals.len() && j != k implies #[trigger] w.sessions[n
        + j].client_id != #[trigger] w.sessions[n + k].client_id by {
        assert(w.sessions[n + j].client_id == v.next_id + j);
        assert(w.sessions[n + k].client_id == v.next_id + k);
    }
}

/// A request that registers and then deregisters its own identifier leaves
/// the registry with exactly the sessions it had before, whatever the
/// handler's outcome: nothing leaks, nothing else is removed. Only the
/// identifier counter has moved on, since identifiers are not reused.
pub proof fn lemma_balanced_lifecycle(
    v: RegistryView,
    address: PeerAddress,
    protocol: Protocol,
    created_at: u64,
)
    requires
        v.well_formed(),
        v.can_admit(),
    ensures
        v.admitted(address, protocol, created_at).removed(v.next_id as u32).sessions == v.sessions,
        v.admitted(address, protocol, created_at).removed(v.next_id as u32).capacity == v.capacity,
{
    let id = v.next_id as u32;
    let w = v.admitted(address, protocol, created_at);
    let n = v.sessions.len() as int;
    lemma_admitted_well_formed(v, address, protocol, created_at);
    let k = w.index_of(id);
    assert(w.sessions[n].client_id == id);
    if k != n {
        assert(w.sessions[k] == v.sessions[k]);
        assert(v.sessions[k].client_id < v.next_id);
    }
    assert(w.sessions.remove(n) =~= v.sessions);
}

/// No two live sessions of a shard share a client identifier.
pub proof fn lemma_live_ids_unique(v: RegistryView)
    requires
        v.well_formed(),
    ensures
        forall|i: int, j: int|
            0 <= i < v.sessions.len() && 0 <= j < v.sessions.len() && i != j
                ==> #[trigger] v.sessions[i].client_id != #[trigger] v.sessions[j].client_id,
{
}

/// Removing an identifier that is not live changes nothing.
pub proof fn lemma_remove_absent(v: RegistryView, id: u32)
    requires
        !v.has_client(id),
    ensures
        v.removed(id) == v,
{
}

/// Removing one identifier keeps every session with another identifier, and
/// only those.
pub proof fn lemma_remove_keeps_others(v: RegistryView, id: u32)
    requires
        v.well_formed(),
    ensures
        forall|s: ClientSession|
            #[trigger] v.removed(id).sessions.contains(s) <==> (v.sessions.contains(s)
                && s.client_id != id),
{
    if v.has_client(id) {
        let k = v.index_of(id);
        let w = v.removed(id);
        assert forall|s: ClientSession| #[trigger]
            w.sessions.contains(s) <==> (v.sessions.contains(s) && s.client_id != id) by {
            if w.sessions.contains(s) {
                let i = choose|i: int| 0 <= i < w.sessions.len() && w.sessions[i] == s;
                let i2 = if i < k { i } else { i + 1 };
                assert(w.sessions[i] == v.sessions[i2]);
                assert(v.sessions[k].client_id == id);
            }
            if v.sessions.contains(s) && s.client_id != id {
                let i = choose|i: int| 0 <= i < v.sessions.len() && v.sessions[i] == s;
                assert(i != k);
                let i2 = if i < k { i } else { i - 1 };
                assert(w.sessions[i2] == s);
            }
        }
    } else {
        assert forall|s: ClientSession| #[trigger]
            v.removed(id).sessions.contains(s) implies s.client_id != id by {
            let i = choose|i: int| 0 <= i < v.sessions.len() && v.sessions[i] == s;
            assert(v.sessions[i].client_id == s.client_id);
        }
    }
}

} // verus!
