use vstd::prelude::*;
use crate::session::{ClientSession, PeerAddress, Protocol};

verus! {

/// The largest value a client identifier counter may reach. The identifier
/// equal to it is never handed out, so the counter cannot overflow.
pub const MAX_CLIENT_ID: u32 = 0xffff_ffff;

/// Why a registry refused to admit a new session.
#[derive(Clone, Copy, Debug, PartialEq, Eq, Structural)]
pub enum RegisterError {
    /// The registry already holds as many sessions as its capacity allows.
    CapacityReached,
    /// Every identifier this registry could hand out has been used.
    IdsExhausted,
}

/// The mathematical model of a registry: the live sessions in order of
/// registration, the next identifier to hand out, and the capacity.
pub struct RegistryView {
    pub sessions: Seq<ClientSession>,
    pub next_id: nat,
    pub capacity: nat,
}

impl RegistryView {
    /// Identifiers are handed out from a counter that starts at one, so every
    /// live identifier lies below `next_id`, and no two live sessions share one.
    pub open spec fn well_formed(self) -> bool {
        &&& 1 <= self.next_id <= MAX_CLIENT_ID
        &&& self.sessions.len() <= self.capacity
        &&& forall|i: int|
            0 <= i < self.sessions.len() ==> 1 <= #[trigger] self.sessions[i].client_id
                < self.next_id
        &&& forall|i: int, j: int|
            0 <= i < self.sessions.len() && 0 <= j < self.sessions.len() && i != j
                ==> #[trigger] self.sessions[i].client_id != #[trigger] self.sessions[j].client_id
    }

    pub open spec fn has_client(self, id: u32) -> bool {
        exists|i: int| 0 <= i < self.sessions.len() && #[trigger] self.sessions[i].client_id == id
    }

    /// A new session fits and a fresh identifier is left.
    pub open spec fn can_admit(self) -> bool {
        self.sessions.len() < self.capacity && self.next_id < MAX_CLIENT_ID
    }

    /// The error a registration gets when `can_admit` does not hold.
    pub open spec fn refusal(self) -> RegisterError {
        if self.sessions.len() >= self.capacity {
            RegisterError::CapacityReached
        } else {
            RegisterError::IdsExhausted
        }
    }

    /// The session a registration creates now.
    pub open spec fn next_session(
        self,
        address: PeerAddress,
        protocol: Protocol,
        created_at: u64,
    ) -> ClientSession {
        ClientSession { client_id: self.next_id as u32, address, protocol, created_at }
    }

    /// The registry after admitting one session.
    pub open spec fn admitted(
        self,
        address: PeerAddress,
        protocol: Protocol,
        created_at: u64,
    ) -> RegistryView {
        RegistryView {
            sessions: self.sessions.push(self.next_session(address, protocol, created_at)),
            next_id: self.next_id + 1,
            capacity: self.capacity,
        }
    }

    /// The position of the session with identifier `id`, where there is one.
    pub open spec fn index_of(self, id: u32) -> int {
        choose|i: int| 0 <= i < self.sessions.len() && #[trigger] self.sessions[i].client_id == id
    }

    /// The registry after removing the session with identifier `id`; unchanged
    /// where there is none.
    pub open spec fn removed(self, id: u32) -> RegistryView {
        if self.has_client(id) {
            RegistryView {
                sessions: self.sessions.remove(self.index_of(id)),
                next_id: self.next_id,
                capacity: self.capacity,
            }
        } else {
            self
        }
    }
}

/// Admitting a session keeps the registry well formed, and the new identifier
/// was not live before.
pub proof fn lemma_admitted_well_formed(
    v: RegistryView,
    address: PeerAddress,
    protocol: Protocol,
    created_at: u64,
)
    requires
        v.well_formed(),
        v.can_admit(),
    ensures
        v.admitted(address, protocol, created_at).well_formed(),
        !v.has_client(v.next_id as u32),
        v.admitted(address, protocol, created_at).has_client(v.next_id as u32),
        forall|other: u32|
            #[trigger] v.admitted(address, protocol, created_at).has_client(other) <==> (
            v.has_client(other) || other == v.next_id as u32),
{
    let w = v.admitted(address, protocol, created_at);
    assert(w.sessions[v.sessions.len() as int].client_id == v.next_id as u32);
    assert forall|other: u32| #[trigger] w.has_client(other) <==> (v.has_client(other) || other
        == v.next_id as u32) by {
        if v.has_client(other) {
            let i = choose|i: int| 0 <= i < v.sessions.len() && #[trigger] v.sessions[i].client_id == other;
            assert(w.sessions[i] == v.sessions[i]);
        }
        if w.has_client(other) && other != v.next_id as u32 {
            let i = choose|i: int| 0 <= i < w.sessions.len() && #[trigger] w.sessions[i].client_id == other;
            assert(w.sessions[i] == v.sessions[i]);
        }
    }
    assert forall|i: int| 0 <= i < w.sessions.len() implies 1 <= #[trigger] w.sessions[i].client_id
        < w.next_id by {
        if i < v.sessions.len() {
            assert(w.sessions[i] == v.sessions[i]);
        }
    }
    assert forall|i: int, j: int|
        0 <= i < w.sessions.len() && 0 <= j < w.sessions.len() && i != j
            implies #[trigger] w.sessions[i].client_id != #[trigger] w.sessions[j].client_id by {
        if i < v.sessions.len() {
            assert(w.sessions[i] == v.sessions[i]);
        }
        if j < v.sessions.len() {
            assert(w.sessions[j] == v.sessions[j]);
        }
    }
}

/// Removing a session keeps the registry well formed, and afterwards the
/// identifier is no longer live.
pub proof fn lemma_removed_well_formed(v: RegistryView, id: u32)
    requires
        v.well_formed(),
    ensures
        v.removed(id).well_formed(),
        !v.removed(id).has_client(id),
        forall|other: u32|
            other != id ==> (#[trigger] v.removed(id).has_client(other) <==> v.has_client(other)),
        v.removed(id).sessions.len() == if v.has_client(id) {
            v.sessions.len() - 1
        } else {
            v.sessions.len() as int
        },
{
    if v.has_client(id) {
        let k = v.index_of(id);
        let w = v.removed(id);
        assert forall|i: int| 0 <= i < w.sessions.len() implies 1 <= #[trigger] w.sessions[i].client_id
            < w.next_id by {
            if i < k {
                assert(w.sessions[i] == v.sessions[i]);
            } else {
                assert(w.sessions[i] == v.sessions[i + 1]);
            }
        }
        assert forall|i: int, j: int|
            0 <= i < w.sessions.len() && 0 <= j < w.sessions.len() && i != j
                implies #[trigger] w.sessions[i].client_id != #[trigger] w.sessions[j].client_id by {
            let i2 = if i < k { i } else { i + 1 };
            let j2 = if j < k { j } else { j + 1 };
            assert(w.sessions[i] == v.sessions[i2]);
            assert(w.sessions[j] == v.sessions[j2]);
        }
        if w.has_client(id) {
            let i = choose|i: int| 0 <= i < w.sessions.len() && #[trigger] w.sessions[i].client_id == id;
            let i2 = if i < k { i } else { i + 1 };
            assert(w.sessions[i] == v.sessions[i2]);
            assert(v.sessions[k].client_id == id);
        }
        assert forall|other: u32| other != id implies (#[trigger] w.has_client(other)
            <==> v.has_client(other)) by {
            if v.has_client(other) {
                let i = choose|i: int| 0 <= i < v.sessions.len() && #[trigger] v.sessions[i].client_id == other;
                assert(v.sessions[k].client_id == id);
                let i2 = if i < k { i } else { i - 1 };
                assert(w.sessions[i2] == v.sessions[i]);
            }
            if w.has_client(other) {
                let i = choose|i: int| 0 <= i < w.sessions.len() && #[trigger] w.sessions[i].client_id == other;
                let i2 = if i < k { i } else { i + 1 };
                assert(w.sessions[i] == v.sessions[i2]);
            }
        }
    }
}

/// The live sessions of one shard, keyed by a client identifier that the
/// registry assigns and never hands out twice.
pub struct SessionRegistry {
    sessions: Vec<ClientSession>,
    next_id: u32,
    capacity: usize,
}

impl View for SessionRegistry {
    type V = RegistryView;

    closed spec fn view(&self) -> RegistryView {
        RegistryView {
            sessions: self.sessions@,
            next_id: self.next_id as nat,
            capacity: self.capacity as nat,
        }
    }
}

impl SessionRegistry {
    pub open spec fn well_formed(&self) -> bool {
        self@.well_formed()
    }

    /// An empty registry that admits at most `capacity` sessions at a time.
    pub fn new(capacity: usize) -> (r: SessionRegistry)
        ensures
            r.well_formed(),
            r@ == (RegistryView { sessions: Seq::empty(), next_id: 1, capacity: capacity as nat }),
    {
        SessionRegistry { sessions: Vec::new(), next_id: 1, capacity }
    }

    /// The number of live sessions.
    pub fn len(&self) -> (r: usize)
        ensures
            r == self@.sessions.len(),
    {
        self.sessions.len()
    }

    pub fn is_empty(&self) -> (r: bool)
        ensures
            r == (self@.sessions.len() == 0),
    {
        self.sessions.len() == 0
    }

    pub fn capacity(&self) -> (r: usize)
        ensures
            r == self@.capacity,
    {
        self.capacity
    }

    /// Where the session with identifier `id` stands, if it is live.
    fn position(&self, id: u32) -> (r: Option<usize>)
        requires
            self.well_formed(),
        ensures
            r is None <==> !self@.has_client(id),
            r matches Some(i) ==> i == self@.index_of(id) && i < self@.sessions.len(),
    {
        let mut i: usize = 0;
        while i < self.sessions.len()
            invariant
                self.well_formed(),
                i <= self.sessions.len(),
                forall|k: int| 0 <= k < i ==> #[trigger] self.sessions@[k].client_id != id,
            decreases self.sessions.len() - i,
        {
            if self.sessions[i].client_id == id {
                proof {
                    let j = self@.index_of(id);
                    assert(self@.sessions[i as int].client_id == id);
                    assert(self@.sessions[j].client_id == id);
                }
                return Some(i);
            }
            i = i + 1;
        }
        proof {
            if self@.has_client(id) {
                let j = choose|j: int|
                    0 <= j < self@.sessions.len() && #[trigger] self@.sessions[j].client_id == id;
                assert(self.sessions@[j].client_id == id);
            }
        }
        None
    }

    pub fn contains(&self, id: u32) -> (r: bool)
        requires
            self.well_formed(),
        ensures
            r == self@.has_client(id),
    {
        self.position(id).is_some()
    }

    /// The live session with identifier `id`, if there is one.
    pub fn get(&self, id: u32) -> (r: Option<ClientSession>)
        requires
            self.well_formed(),
        ensures
            r is None <==> !self@.has_client(id),
            r matches Some(s) ==> s == self@.sessions[self@.index_of(id)] && s.client_id == id,
    {
        match self.position(id) {
            Some(i) => Some(self.sessions[i]),
            None => None,
        }
    }

    /// Admits a session for `address` over `protocol`, created at `now`, under
    /// a fresh identifier. Refused when the registry is full or out of
    /// identifiers; the registry is then unchanged.
    pub fn register(&mut self, address: PeerAddress, protocol: Protocol, now: u64) -> (r: Result<
        ClientSession,
        RegisterError,
    >)
        requires
            old(self).well_formed(),
        ensures
            final(self).well_formed(),
            r is Ok <==> old(self)@.can_admit(),
            r matches Ok(s) ==> s == old(self)@.next_session(address, protocol, now)
                && final(self)@ == old(self)@.admitted(address, protocol, now)
                && !old(self)@.has_client(s.client_id)
                && final(self)@.has_client(s.client_id)
                && forall|other: u32|
                #[trigger] final(self)@.has_client(other) <==> (old(self)@.has_client(other)
                    || other == s.client_id),
            r matches Err(e) ==> e == old(self)@.refusal() && final(self)@ == old(self)@,
    {
        if self.sessions.len() >= self.capacity {
            return Err(RegisterError::CapacityReached);
        }
        if self.next_id >= MAX_CLIENT_ID {
            return Err(RegisterError::IdsExhausted);
        }
        proof {
            lemma_admitted_well_formed(self@, address, protocol, now);
        }
        let session = ClientSession { client_id: self.next_id, address, protocol, created_at: now };
        self.sessions.push(session);
        self.next_id = self.next_id + 1;
        Ok(session)
    }

    /// Removes the session with identifier `id` and tells whether there was
    /// one. Removing an absent identifier changes nothing.
    pub fn remove(&mut self, id: u32) -> (r: bool)
        requires
            old(self).well_formed(),
        ensures
            final(self).well_formed(),
            r == old(self)@.has_client(id),
            final(self)@ == old(self)@.removed(id),
            !final(self)@.has_client(id),
            forall|other: u32|
                other != id ==> (#[trigger] final(self)@.has_client(other)
                    <==> old(self)@.has_client(other)),
    {
        proof {
            lemma_removed_well_formed(self@, id);
        }
        match self.position(id) {
            Some(i) => {
                self.sessions.remove(i);
                true
            },
            None => false,
        }
    }
}

} // verus!
