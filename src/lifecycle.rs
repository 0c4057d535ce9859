use vstd::prelude::*;
use crate::registry::RegisterError;
use crate::session::{PeerAddress, Protocol};
use crate::shard::Shard;

verus! {

/// The status a request is rejected with when its peer cannot be registered:
/// 503 Service Unavailable, which no handler outcome is mapped to here.
pub const REJECTED_STATUS: u16 = 503;

/// How the downstream handler chain ended.
#[derive(Debug, PartialEq, Eq)]
pub enum Outcome<T> {
    /// The handler produced a response.
    Responded(T),
    /// The handler failed with a status.
    Failed(u16),
    /// The request was cancelled before the handler completed.
    Cancelled,
}

/// Proof that a request's peer is registered: only `begin_request` makes one,
/// and `finish_request` consumes it.
pub struct Admission {
    client_id: u32,
}

impl Admission {
    pub closed spec fn id(&self) -> u32 {
        self.client_id
    }

    pub fn client_id(&self) -> (r: u32)
        ensures
            r == self.id(),
    {
        self.client_id
    }
}

/// What `finish_request` hands back: the handler's outcome, unchanged, and
/// whether the session was already gone, an inconsistency to report but not
/// to fail the request on.
pub struct Completion<T> {
    pub outcome: Outcome<T>,
    pub anomaly: bool,
}

/// The status with which a request whose registration failed is rejected.
pub fn rejection_status(e: RegisterError) -> (r: u16)
    ensures
        r == REJECTED_STATUS,
{
    match e {
        RegisterError::CapacityReached => REJECTED_STATUS,
        RegisterError::IdsExhausted => REJECTED_STATUS,
    }
}

/// First step of every request: registers the peer on its shard. The handler
/// chain may run only with the admission this returns; on an error it must
/// not run at all.
pub fn begin_request(
    shard: &mut Shard,
    address: PeerAddress,
    protocol: Protocol,
    now: u64,
) -> (r: Result<Admission, RegisterError>)
    requires
        old(shard).well_formed(),
    ensures
        final(shard).well_formed(),
        final(shard).spec_id() == old(shard).spec_id(),
        r is Ok <==> old(shard)@.can_admit(),
        r matches Ok(a) ==> a.id() == old(shard)@.next_id
            && final(shard)@ == old(shard)@.admitted(address, protocol, now)
            && !old(shard)@.has_client(a.id())
            && final(shard)@.has_client(a.id())
            && forall|other: u32|
            #[trigger] final(shard)@.has_client(other) <==> (old(shard)@.has_client(other) || other
                == a.id()),
        r matches Err(e) ==> e == old(shard)@.refusal() && final(shard)@ == old(shard)@,
{
    match shard.add_client(address, protocol, now) {
        Ok(session) => Ok(Admission { client_id: session.client_id }),
        Err(e) => Err(e),
    }
}

/// Last step of every request, whatever the handler's outcome: deregisters
/// the admitted peer and passes the outcome through unchanged. Afterwards the
/// session is absent from the shard.
pub fn finish_request<T>(shard: &mut Shard, admission: Admission, outcome: Outcome<T>) -> (r:
    Completion<T>)
    requires
        old(shard).well_formed(),
    ensures
        final(shard).well_formed(),
        final(shard).spec_id() == old(shard).spec_id(),
        r.outcome == outcome,
        r.anomaly == !old(shard)@.has_client(admission.id()),
        final(shard)@ == old(shard)@.removed(admission.id()),
        !final(shard)@.has_client(admission.id()),
        forall|other: u32|
            other != admission.id() ==> (#[trigger] final(shard)@.has_client(other)
                <==> old(shard)@.has_client(other)),
{
    let present = shard.delete_client(admission.client_id);
    Completion { outcome, anomaly: !present }
}

} // verus!
