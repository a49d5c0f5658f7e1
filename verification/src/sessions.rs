use vstd::prelude::*;
use crate::addr::Address;

verus! {

/// Governs which consumer endpoints may carry traffic tied to a session's
/// producer.
#[derive(Debug, Clone, Copy, PartialEq, Eq, Structural)]
pub enum SessionPolicy {
    /// The producer allows any number of consumers.
    ProducerAllowMultiple,
    /// A spawner session: consumers may receive multiple messages.
    SpawnerAllowMultipleMessages,
}

/// A consumer endpoint registered under a session.
#[derive(Debug)]
pub struct Consumer {
    pub address: Address,
    pub policy: SessionPolicy,
}

/// An authorization scope: one producer endpoint and the consumer endpoints
/// permitted to carry its traffic.
#[derive(Debug)]
pub struct Session {
    pub id: u64,
    pub producer: Address,
    pub policy: SessionPolicy,
    pub consumers: Vec<Consumer>,
}

/// Process-wide table associating addresses with session identifiers and
/// authorization policies. The single source of truth for whether a hop is
/// allowed to carry traffic for a flow.
#[derive(Debug)]
pub struct SessionRegistry {
    pub next_id: u64,
    pub sessions: Vec<Session>,
}

impl SessionRegistry {
    /// Well-formedness: all live ids are below the generation counter and
    /// pairwise distinct, and producer addresses are pairwise distinct (the
    /// registry is keyed by producer).
    pub open spec fn wf(&self) -> bool {
        &&& forall|i: int| 0 <= i < self.sessions@.len() ==> (#[trigger] self.sessions@[i]).id
            < self.next_id
        &&& forall|i: int, j: int|
            0 <= i < j < self.sessions@.len() ==> (#[trigger] self.sessions@[i]).id != (
            #[trigger] self.sessions@[j]).id
        &&& forall|i: int, j: int|
            0 <= i < j < self.sessions@.len() ==> (#[trigger] self.sessions@[i]).producer@ != (
            #[trigger] self.sessions@[j]).producer@
    }

    /// Whether a session with this id is live.
    pub open spec fn spec_contains_id(&self, id: u64) -> bool {
        exists|i: int| 0 <= i < self.sessions@.len() && (#[trigger] self.sessions@[i]).id == id
    }

    /// Whether some session has this producer address.
    pub open spec fn spec_has_producer(&self, a: (Seq<u8>, u64)) -> bool {
        exists|i: int|
            0 <= i < self.sessions@.len() && (#[trigger] self.sessions@[i]).producer@ == a
    }

    pub fn new() -> (r: SessionRegistry)
        ensures
            r.wf(),
            r.next_id == 0,
            r.sessions@.len() == 0,
    {
        SessionRegistry { next_id: 0, sessions: Vec::new() }
    }

    /// A fresh session identifier: monotonically unique, never colliding with
    /// a live session.
    pub fn generate_session_id(&mut self) -> (id: u64)
        requires
            old(self).wf(),
            old(self).next_id < u64::MAX,
        ensures
            final(self).wf(),
            id == old(self).next_id,
            final(self).next_id == id + 1,
            final(self).sessions == old(self).sessions,
            !old(self).spec_contains_id(id),
            !final(self).spec_contains_id(id),
    {
        let id = self.next_id;
        self.next_id = self.next_id + 1;
        id
    }

    /// Whether a session with this id is live.
    pub fn has_session(&self, id: u64) -> (r: bool)
        ensures
            r == self.spec_contains_id(id),
    {
        let mut i: usize = 0;
        while i < self.sessions.len()
            invariant
                i <= self.sessions@.len(),
                forall|j: int| 0 <= j < i ==> (#[trigger] self.sessions@[j]).id != id,
            decreases self.sessions@.len() - i,
        {
            if self.sessions[i].id == id {
                return true;
            }
            i += 1;
        }
        false
    }

    /// Record a new session: `producer` originates traffic under `id` with
    /// the given policy and no consumers yet. The id must come fresh from
    /// `generate_session_id` (a session id is never reused) and the producer
    /// address must be new to the registry.
    pub fn register_producer(&mut self, id: u64, producer: Address, policy: SessionPolicy)
        requires
            old(self).wf(),
            id < old(self).next_id,
            !old(self).spec_contains_id(id),
            !old(self).spec_has_producer(producer@),
        ensures
            final(self).wf(),
            final(self).next_id == old(self).next_id,
            final(self).sessions@.len() == old(self).sessions@.len() + 1,
            forall|i: int|
                0 <= i < old(self).sessions@.len() ==> final(self).sessions@[i]
                    == old(self).sessions@[i],
            final(self).sessions@.last().id == id,
            final(self).sessions@.last().producer@ == producer@,
            final(self).sessions@.last().policy == policy,
            final(self).sessions@.last().consumers@.len() == 0,
            final(self).spec_contains_id(id),
            final(self).spec_has_producer(producer@),
    {
        let consumers: Vec<Consumer> = Vec::new();
        self.sessions.push(Session { id, producer, policy, consumers });
    }

    /// The session id whose producer is `addr`, if any. Producer addresses
    /// are unique, so at most one session can match.
    pub fn find_session_with_producer_address(&self, addr: &Address) -> (r: Option<u64>)
        requires
            self.wf(),
        ensures
            r is Some <==> self.spec_has_producer(addr@),
            r matches Some(id) ==> exists|i: int|
                0 <= i < self.sessions@.len() && (#[trigger] self.sessions@[i]).producer@ == addr@
                    && self.sessions@[i].id == id,
    {
        let mut i: usize = 0;
        while i < self.sessions.len()
            invariant
                i <= self.sessions@.len(),
                forall|j: int| 0 <= j < i ==> (#[trigger] self.sessions@[j]).producer@ != addr@,
            decreases self.sessions@.len() - i,
        {
            if self.sessions[i].producer.addr_eq(addr) {
                return Some(self.sessions[i].id);
            }
            i += 1;
        }
        None
    }

    /// Associate a new consumer address with an existing session under the
    /// given policy. If the session no longer exists this is a silent no-op,
    /// never an error: a missing session means "no authorization constraint".
    pub fn add_consumer(&mut self, address: Address, id: u64, policy: SessionPolicy)
        requires
            old(self).wf(),
        ensures
            final(self).wf(),
            final(self).next_id == old(self).next_id,
            !old(self).spec_contains_id(id) ==> *final(self) == *old(self),
            old(self).spec_contains_id(id) ==> exists|i: int|
                {
                    &&& 0 <= i < old(self).sessions@.len()
                    &&& (#[trigger] old(self).sessions@[i]).id == id
                    &&& final(self).sessions@.len() == old(self).sessions@.len()
                    &&& forall|j: int|
                        0 <= j < old(self).sessions@.len() && j != i ==> final(self).sessions@[j]
                            == old(self).sessions@[j]
                    &&& final(self).sessions@[i].id == old(self).sessions@[i].id
                    &&& final(self).sessions@[i].producer@ == old(self).sessions@[i].producer@
                    &&& final(self).sessions@[i].policy == old(self).sessions@[i].policy
                    &&& final(self).sessions@[i].consumers@.len() == old(self).sessions@[i].consumers@.len() + 1
                    &&& forall|k: int|
                        0 <= k < old(self).sessions@[i].consumers@.len()
                            ==> final(self).sessions@[i].consumers@[k] == old(self).sessions@[i].consumers@[k]
                    &&& final(self).sessions@[i].consumers@.last().address@ == address@
                    &&& final(self).sessions@[i].consumers@.last().policy == policy
                },
    {
        let ghost old_self = *self;
        let mut i: usize = 0;
        while i < self.sessions.len()
            invariant
                *self == old_self,
                old_self == *old(self),
                old_self.wf(),
                i <= self.sessions@.len(),
                forall|j: int| 0 <= j < i ==> (#[trigger] self.sessions@[j]).id != id,
            decreases self.sessions@.len() - i,
        {
            if self.sessions[i].id == id {
                let mut s = self.sessions.remove(i);
                s.consumers.push(Consumer { address, policy });
                self.sessions.insert(i, s);
                proof {
                    assert(self.sessions@ =~= old_self.sessions@.update(
                        i as int,
                        self.sessions@[i as int],
                    ));
                    assert forall|a: int, b: int|
                        0 <= a < b < self.sessions@.len() implies (
                    #[trigger] self.sessions@[a]).producer@ != (
                    #[trigger] self.sessions@[b]).producer@ by {
                        assert(old_self.sessions@[a].producer@ != old_self.sessions@[b].producer@);
                    }
                }
                return ;
            }
            i += 1;
        }
        proof {
            assert(!old_self.spec_contains_id(id));
        }
    }
}

/// Session ids are pairwise distinct across sequential generations: an id
/// generated later equals a counter value strictly above every id generated
/// earlier, no matter how many other registry operations lie between the two
/// generations (none of them lowers the counter).
pub proof fn lemma_generated_ids_distinct(
    id1: u64,
    after_first: SessionRegistry,
    before_second: SessionRegistry,
    id2: u64,
)
    requires
        after_first.next_id == id1 + 1,
        before_second.next_id >= after_first.next_id,
        id2 == before_second.next_id,
    ensures
        id1 != id2,
{
}

} // verus!
