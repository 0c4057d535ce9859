use vstd::prelude::*;
use crate::registry::{RegisterError, RegistryView, SessionRegistry};
use crate::session::{ClientSession, PeerAddress, Protocol};

verus! {

/// One independently scheduled partition of the broker. It owns its session
/// registry outright: no other shard reads or writes it.
pub struct Shard {
    id: u16,
    registry: SessionRegistry,
}

impl View for Shard {
    type V = RegistryView;

    closed spec fn view(&self) -> RegistryView {
        self.registry@
    }
}

impl Shard {
    pub closed spec fn spec_id(&self) -> u16 {
        self.id
    }

    pub open spec fn well_formed(&self) -> bool {
        self@.well_formed()
    }

    /// A shard with an empty registry that admits at most `capacity` sessions.
    pub fn new(id: u16, capacity: usize) -> (r: Shard)
        ensures
            r.well_formed(),
            r.spec_id() == id,
            r@ == (RegistryView { sessions: Seq::empty(), next_id: 1, capacity: capacity as nat }),
    {
        Shard { id, registry: SessionRegistry::new(capacity) }
    }

    pub fn id(&self) -> (r: u16)
        ensures
            r == self.spec_id(),
    {
        self.id
    }

    pub fn registry(&self) -> (r: &SessionRegistry)
        ensures
            r@ == self@,
    {
        &self.registry
    }

    /// The number of sessions the shard currently serves.
    pub fn client_count(&self) -> (r: usize)
        ensures
            r == self@.sessions.len(),
    {
        self.registry.len()
    }

    pub fn has_client(&self, client_id: u32) -> (r: bool)
        requires
            self.well_formed(),
        ensures
            r == self@.has_client(client_id),
    {
        self.registry.contains(client_id)
    }

    /// Registers a client connected from `address` over `protocol` at `now`.
    pub fn add_client(&mut self, address: PeerAddress, protocol: Protocol, now: u64) -> (r: Result<
        ClientSession,
        RegisterError,
    >)
        requires
            old(self).well_formed(),
        ensures
            final(self).well_formed(),
            final(self).spec_id() == old(self).spec_id(),
            r is Ok <==> old(self)@.can_admit(),
            r matches Ok(s) ==> s == old(self)@.next_session(address, protocol, now)
                && final(self)@ == old(self)@.admitted(address, protocol, now)
                && !old(self)@.has_client(s.client_id)
                && final(self)@.has_client(s.client_id)
                && forall|other: u32|
                #[trigger] final(self)@.has_client(other) <==> (old(self)@.has_client(other)
                    || other == s.client_id),
            r matches Err(e) ==> e == old(self)@.refusal() && final(self)@ == old(self)@,
    {
        self.registry.register(address, protocol, now)
    }

    /// Deregisters `client_id`; false where it was not registered, which
    /// changes nothing.
    pub fn delete_client(&mut self, client_id: u32) -> (r: bool)
        requires
            old(self).well_formed(),
        ensures
            final(self).well_formed(),
            final(self).spec_id() == old(self).spec_id(),
            r == old(self)@.has_client(client_id),
            final(self)@ == old(self)@.removed(client_id),
            !final(self)@.has_client(client_id),
            forall|other: u32|
                other != client_id ==> (#[trigger] final(self)@.has_client(other)
                    <==> old(self)@.has_client(other)),
    {
        self.registry.remove(client_id)
    }
}

} // verus!
