use vstd::prelude::*;
use crate::addr::{Address, bytes_dup};
use crate::errors::ApiError;
use crate::sessions::{SessionPolicy, SessionRegistry};

verus! {

/// The transport family of an endpoint. Only stream-oriented TCP transports
/// exist today.
#[derive(Debug, Clone, Copy, PartialEq, Eq, Structural)]
pub enum TransportType {
    Tcp,
}

/// Whether a transport record is a bound listener or an outbound connection.
#[derive(Debug, Clone, Copy, PartialEq, Eq, Structural)]
pub enum TransportMode {
    Listen,
    Connect,
}

/// An active transport endpoint: socket address, the local worker address
/// that fronts it, and the session it was tagged with at creation.
#[derive(Debug)]
pub struct ApiTransport {
    pub tt: TransportType,
    pub tm: TransportMode,
    pub socket_address: Vec<u8>,
    pub worker_address: Address,
    pub session_id: u64,
}

impl View for ApiTransport {
    type V = (TransportType, TransportMode, Seq<u8>, (Seq<u8>, u64), u64);

    open spec fn view(&self) -> (TransportType, TransportMode, Seq<u8>, (Seq<u8>, u64), u64) {
        (self.tt, self.tm, self.socket_address@, self.worker_address@, self.session_id)
    }
}

impl ApiTransport {
    /// Copy of a transport record (its view is preserved).
    pub fn dup(&self) -> (r: ApiTransport)
        ensures
            r@ == self@,
    {
        ApiTransport {
            tt: self.tt,
            tm: self.tm,
            socket_address: bytes_dup(&self.socket_address),
            worker_address: self.worker_address.dup(),
            session_id: self.session_id,
        }
    }
}

/// A transport record together with its table alias, as reported by the
/// transport control API.
#[derive(Debug)]
pub struct TransportStatus {
    pub tid: u64,
    pub transport: ApiTransport,
}

impl View for TransportStatus {
    type V = (u64, (TransportType, TransportMode, Seq<u8>, (Seq<u8>, u64), u64));

    open spec fn view(&self) -> (u64, (TransportType, TransportMode, Seq<u8>, (Seq<u8>, u64), u64)) {
        (self.tid, self.transport@)
    }
}

impl TransportStatus {
    pub fn new(transport: ApiTransport, tid: u64) -> (r: TransportStatus)
        ensures
            r@ == (tid, transport@),
    {
        TransportStatus { tid, transport }
    }

    /// Copy of a status row (its view is preserved).
    pub fn dup(&self) -> (r: TransportStatus)
        ensures
            r@ == self@,
    {
        TransportStatus { tid: self.tid, transport: self.transport.dup() }
    }
}

/// What the transport layer reported back for a bind or dial: the bound or
/// dialed socket address and the local worker address fronting it.
#[derive(Debug)]
pub struct TcpConnection {
    pub socket_address: Vec<u8>,
    pub worker_address: Address,
}

/// The record-view predicate selecting rows of one transport mode.
pub open spec fn spec_mode_filter(mode: TransportMode) -> spec_fn(
    (u64, (TransportType, TransportMode, Seq<u8>, (Seq<u8>, u64), u64)),
) -> bool {
    |v: (u64, (TransportType, TransportMode, Seq<u8>, (Seq<u8>, u64), u64))| v.1.1 == mode
}

/// The table of active transport endpoints, owned by the node manager.
#[derive(Debug)]
pub struct Transports {
    pub next_alias: u64,
    pub records: Vec<TransportStatus>,
}

/// What remains to be done outside the table after a delete decision.
#[derive(Debug)]
pub enum DeleteOutcome {
    /// No record under that alias; nothing was changed.
    Unknown,
    /// A listener record was dropped from the table. The listening socket is
    /// deliberately left bound: stopping a listener would shut down the whole
    /// node, so it is never asked for (a documented limitation).
    RemovedListener,
    /// A connection record was dropped; the caller must disconnect the
    /// returned worker address.
    RemovedConnection(Address),
}

impl Transports {
    /// Well-formedness: aliases are pairwise distinct and below the counter.
    pub open spec fn wf(&self) -> bool {
        &&& forall|i: int| 0 <= i < self.records@.len() ==> (#[trigger] self.records@[i]).tid
            < self.next_alias
        &&& forall|i: int, j: int|
            0 <= i < j < self.records@.len() ==> (#[trigger] self.records@[i]).tid != (
            #[trigger] self.records@[j]).tid
    }

    /// Whether some record carries this alias.
    pub open spec fn spec_contains_alias(&self, tid: u64) -> bool {
        exists|i: int| 0 <= i < self.records@.len() && (#[trigger] self.records@[i]).tid == tid
    }

    pub fn new() -> (r: Transports)
        ensures
            r.wf(),
            r.next_alias == 0,
            r.records@.len() == 0,
    {
        Transports { next_alias: 0, records: Vec::new() }
    }

    /// Register the outcome of a transport create request.
    ///
    /// The session id was generated before the bind or dial, because the
    /// transport layer tags the new endpoint with it. On success a record is
    /// inserted under a fresh alias and the session registry learns the new
    /// worker address: a listener becomes a session spawner, an outbound
    /// connection a session producer. On failure nothing is created anywhere
    /// and the caller gets a failure value, never a placeholder record.
    pub fn add_transport(
        &mut self,
        registry: &mut SessionRegistry,
        tt: TransportType,
        tm: TransportMode,
        session_id: u64,
        outcome: Option<TcpConnection>,
    ) -> (r: Result<TransportStatus, ApiError>)
        requires
            old(self).wf(),
            old(registry).wf(),
            old(self).next_alias < u64::MAX,
            session_id < old(registry).next_id,
            !old(registry).spec_contains_id(session_id),
            outcome matches Some(c) ==> !old(registry).spec_has_producer(c.worker_address@),
        ensures
            final(self).wf(),
            final(registry).wf(),
            outcome is None ==> {
                &&& *final(self) == *old(self)
                &&& *final(registry) == *old(registry)
                &&& r == Err::<TransportStatus, ApiError>(ApiError::TransportFailure)
            },
            outcome matches Some(c) ==> {
                &&& r matches Ok(s)
                &&& r matches Ok(s) ==> s@ == (
                    old(self).next_alias,
                    (tt, tm, c.socket_address@, c.worker_address@, session_id),
                )
                &&& final(self).next_alias == old(self).next_alias + 1
                &&& final(self).records@.len() == old(self).records@.len() + 1
                &&& forall|i: int|
                    0 <= i < old(self).records@.len() ==> final(self).records@[i] == old(
                        self,
                    ).records@[i]
                &&& final(self).records@.last()@ == (
                    old(self).next_alias,
                    (tt, tm, c.socket_address@, c.worker_address@, session_id),
                )
                &&& !old(self).spec_contains_alias(old(self).next_alias)
                &&& final(registry).next_id == old(registry).next_id
                &&& final(registry).sessions@.len() == old(registry).sessions@.len() + 1
                &&& forall|i: int|
                    0 <= i < old(registry).sessions@.len() ==> final(registry).sessions@[i] == old(
                        registry,
                    ).sessions@[i]
                &&& final(registry).sessions@.last().id == session_id
                &&& final(registry).sessions@.last().producer@ == c.worker_address@
                &&& final(registry).sessions@.last().policy == (if tm == TransportMode::Listen {
                    SessionPolicy::SpawnerAllowMultipleMessages
                } else {
                    SessionPolicy::ProducerAllowMultiple
                })
                &&& final(registry).sessions@.last().consumers@.len() == 0
            },
    {
        match outcome {
            None => Err(ApiError::TransportFailure),
            Some(c) => {
                let policy = if matches!(tm, TransportMode::Listen) {
                    SessionPolicy::SpawnerAllowMultipleMessages
                } else {
                    SessionPolicy::ProducerAllowMultiple
                };
                registry.register_producer(session_id, c.worker_address.dup(), policy);
                let tid = self.next_alias;
                self.next_alias = self.next_alias + 1;
                let api_transport = ApiTransport {
                    tt,
                    tm,
                    socket_address: c.socket_address,
                    worker_address: c.worker_address,
                    session_id,
                };
                let status = TransportStatus::new(api_transport, tid);
                self.records.push(status.dup());
                Ok(status)
            },
        }
    }

    /// The status row under `tid`, provided it matches the requested type and
    /// mode exactly; a record that exists under a different mode or type is
    /// treated as not found.
    pub fn get_transport(&self, tid: u64, tt: TransportType, tm: TransportMode) -> (r: Option<
        TransportStatus,
    >)
        requires
            self.wf(),
        ensures
            r is Some <==> exists|i: int|
                0 <= i < self.records@.len() && {
                    let rec = #[trigger] self.records@[i];
                    rec.tid == tid && rec.transport.tt == tt && rec.transport.tm == tm
                },
            r matches Some(s) ==> exists|i: int|
                0 <= i < self.records@.len() && (#[trigger] self.records@[i]).tid == tid
                    && self.records@[i]@ == s@,
    {
        let mut i: usize = 0;
        while i < self.records.len()
            invariant
                self.wf(),
                i <= self.records@.len(),
                forall|j: int|
                    0 <= j < i ==> !{
                        let rec = #[trigger] self.records@[j];
                        rec.tid == tid && rec.transport.tt == tt && rec.transport.tm == tm
                    },
            decreases self.records@.len() - i,
        {
            let rec = &self.records[i];
            if rec.tid == tid && rec.transport.tt == tt && rec.transport.tm == tm {
                return Some(rec.dup());
            }
            i += 1;
        }
        None
    }

    /// All records of the given mode, in table order.
    pub fn get_tcp_con_or_list(&self, mode: TransportMode) -> (r: Vec<TransportStatus>)
        ensures
            r@.map_values(|t: TransportStatus| t@) == self.records@.map_values(
                |t: TransportStatus| t@,
            ).filter(spec_mode_filter(mode)),
    {
        let ghost pred = spec_mode_filter(mode);
        let mut out: Vec<TransportStatus> = Vec::new();
        let mut i: usize = 0;
        while i < self.records.len()
            invariant
                pred == spec_mode_filter(mode),
                i <= self.records@.len(),
                out@.map_values(|t: TransportStatus| t@) == self.records@.subrange(
                    0,
                    i as int,
                ).map_values(|t: TransportStatus| t@).filter(pred),
            decreases self.records@.len() - i,
        {
            let ghost prefix_views = self.records@.subrange(0, i as int).map_values(
                |t: TransportStatus| t@,
            );
            let rec = &self.records[i];
            let matches_mode = rec.transport.tm == mode;
            proof {
                assert(matches_mode == pred(self.records@[i as int]@));
            }
            if matches_mode {
                out.push(rec.dup());
            }
            proof {
                let next_views = self.records@.subrange(0, i + 1 as int).map_values(
                    |t: TransportStatus| t@,
                );
                assert(next_views =~= prefix_views.push(self.records@[i as int]@));
                reveal(Seq::filter);
                assert(next_views.len() == prefix_views.len() + 1);
                assert(next_views.drop_last() =~= prefix_views);
                assert(next_views.last() == self.records@[i as int]@);
                assert(next_views.filter(pred) == if pred(self.records@[i as int]@) {
                    prefix_views.filter(pred).push(self.records@[i as int]@)
                } else {
                    prefix_views.filter(pred)
                });
                assert(out@.map_values(|t: TransportStatus| t@) =~= next_views.filter(pred));
            }
            i += 1;
        }
        proof {
            assert(self.records@.subrange(0, self.records@.len() as int) =~= self.records@);
        }
        out
    }

    /// Whether some record carries this alias, decided by scanning the table.
    pub fn has_alias(&self, tid: u64) -> (r: bool)
        ensures
            r == self.spec_contains_alias(tid),
    {
        let mut i: usize = 0;
        while i < self.records.len()
            invariant
                i <= self.records@.len(),
                forall|j: int| 0 <= j < i ==> (#[trigger] self.records@[j]).tid != tid,
            decreases self.records@.len() - i,
        {
            if self.records[i].tid == tid {
                return true;
            }
            i += 1;
        }
        false
    }

    /// Drop the record under `tid` and say what remains to be done outside
    /// the table. A connection must be disconnected by the caller; a
    /// listener's socket is deliberately left untouched; an unknown alias is
    /// a not-found outcome, not an error, and changes nothing.
    pub fn delete_transport(&mut self, tid: u64) -> (r: DeleteOutcome)
        requires
            old(self).wf(),
        ensures
            final(self).wf(),
            final(self).next_alias == old(self).next_alias,
            !old(self).spec_contains_alias(tid) ==> {
                &&& *final(self) == *old(self)
                &&& r is Unknown
            },
            old(self).spec_contains_alias(tid) ==> {
                &&& !(r is Unknown)
                &&& exists|i: int|
                    {
                        &&& 0 <= i < old(self).records@.len()
                        &&& (#[trigger] old(self).records@[i]).tid == tid
                        &&& final(self).records@ == old(self).records@.remove(i)
                        &&& (old(self).records@[i].transport.tm == TransportMode::Listen <==> r
                            is RemovedListener)
                        &&& (r matches DeleteOutcome::RemovedConnection(a) ==> a@ == old(
                            self,
                        ).records@[i].transport.worker_address@)
                    }
                &&& !final(self).spec_contains_alias(tid)
            },
    {
        let ghost old_self = *self;
        let mut i: usize = 0;
        while i < self.records.len()
            invariant
                *self == old_self,
                old_self == *old(self),
                old_self.wf(),
                i <= self.records@.len(),
                forall|j: int| 0 <= j < i ==> (#[trigger] self.records@[j]).tid != tid,
            decreases self.records@.len() - i,
        {
            if self.records[i].tid == tid {
                let rec = self.records.remove(i);
                proof {
                    assert forall|a: int, b: int|
                        0 <= a < b < self.records@.len() implies (
                    #[trigger] self.records@[a]).tid != (#[trigger] self.records@[b]).tid by {
                        if b < i {
                        } else if a < i {
                            assert(self.records@[b] == old_self.records@[b + 1]);
                        } else {
                            assert(self.records@[a] == old_self.records@[a + 1]);
                            assert(self.records@[b] == old_self.records@[b + 1]);
                        }
                    }
                    assert forall|j: int|
                        0 <= j < self.records@.len() implies (#[trigger] self.records@[j]).tid
                        != tid by {
                        if j >= i {
                            assert(self.records@[j] == old_self.records@[j + 1]);
                        }
                    }
                }
                if matches!(rec.transport.tm, TransportMode::Listen) {
                    return DeleteOutcome::RemovedListener;
                } else {
                    return DeleteOutcome::RemovedConnection(rec.transport.worker_address);
                }
            }
            i += 1;
        }
        DeleteOutcome::Unknown
    }
}

/// Once a delete has dropped an alias from the table, a lookup under that
/// alias misses whatever type and mode it asks for: no record carries the
/// alias at all. For a listener the socket stays bound (a documented
/// limitation, deliberately so), but its table entry is gone like any
/// other.
pub proof fn lemma_deleted_alias_not_found(t: Transports, tid: u64)
    requires
        !t.spec_contains_alias(tid),
    ensures
        forall|i: int| 0 <= i < t.records@.len() ==> (#[trigger] t.records@[i]).tid != tid,
{
}

} // verus!
