//! The journal as the brain uses it: one owner identity, the process-wide storage and
//! retention ceilings, and the steps that turn a decision into a store commit (the recovery
//! anchor, the tenant storage meter, the retention projection). The host supplies the clock
//! and the canonical sizes of what it serialises.

use vstd::prelude::*;
use crate::decision::{DecisionSizes, decision_fault, validate_decision, validate_config_doc};
use crate::docs::{HeadDoc, Head, Lease, LEASE_MS, STEAL_GRACE_MS, recovery_projected, validate_ancestor_path, Duplicate};
use crate::error::{BrainError, Fault};
use crate::memory::{
    MemoryStore, CommitVerdict, CreateVerdict, commit_verdict, committed, create_verdict, created,
};
use crate::records::Record;
use crate::docs::EndFence;
use crate::keyed::as_map;
use crate::memory::{window, end_fenced_store, end_fence_fault, retention_meter};
use crate::decision::end_fenced;
use crate::retention::{Entry, MAX_SERIALIZED_RECORD_BYTES};
use crate::retention::{
    JournalRetention, JournalRetentionLimits, initial_retention, initial_retention_spec, project_retention,
    project_retention_spec, retention_delta, DEFAULT_MAX_SESSION_JOURNAL_BYTES, DEFAULT_MAX_TENANT_JOURNAL_BYTES,
    DEFAULT_MAX_TENANT_RETAINED_SESSIONS,
};
use vstd::string::StringSliceAdditionalSpecFns;

verus! {

/// A journal handle: the store, the identity its leases are taken under, and the ceilings it
/// meters against.
pub struct Journal {
    pub store: MemoryStore,
    pub owner: String,
    pub tenant_storage_limit: u64,
    pub retention_limits: JournalRetentionLimits,
}

/// The retention a new session starts with, when its genesis record fits.
pub open spec fn genesis_retention(first_bytes: u64, session_limit: u64) -> JournalRetention {
    match initial_retention_spec(first_bytes, session_limit) {
        Ok(r) => r,
        Err(_) => arbitrary(),
    }
}

/// The tenant storage meter a HEAD asks for: its stored and reserved bytes.
pub open spec fn desired_meter(doc: HeadDoc) -> int {
    doc.session_storage_bytes + doc.storage_reserved_bytes
}

impl Journal {
    /// A journal over `store` under `owner`, with an unbounded storage ceiling and the default
    /// retention ceilings.
    pub fn new(store: MemoryStore, owner: &str) -> (j: Journal)
        ensures
            j.store == store,
            j.owner@ == owner@,
            j.tenant_storage_limit == u64::MAX,
            j.retention_limits.session_bytes == DEFAULT_MAX_SESSION_JOURNAL_BYTES,
            j.retention_limits.tenant_bytes == DEFAULT_MAX_TENANT_JOURNAL_BYTES,
            j.retention_limits.tenant_sessions == DEFAULT_MAX_TENANT_RETAINED_SESSIONS,
    {
        Journal {
            store,
            owner: owner.to_owned(),
            tenant_storage_limit: u64::MAX,
            retention_limits: JournalRetentionLimits::default(),
        }
    }

    /// The local-mode journal: an empty in-memory store.
    pub fn new_memory(owner: &str) -> (j: Journal)
        ensures
            j.store.wf(),
            j.store.session_map() == Map::<Seq<char>, crate::memory::MemSession>::empty(),
            j.owner@ == owner@,
            j.tenant_storage_limit == u64::MAX,
            j.retention_limits.session_bytes == DEFAULT_MAX_SESSION_JOURNAL_BYTES,
            j.retention_limits.tenant_bytes == DEFAULT_MAX_TENANT_JOURNAL_BYTES,
            j.retention_limits.tenant_sessions == DEFAULT_MAX_TENANT_RETAINED_SESSIONS,
    {
        Journal::new(MemoryStore::new(), owner)
    }

    /// Install the tenant-wide storage ceiling.
    pub fn with_tenant_storage_limit(self, limit: u64) -> (j: Journal)
        ensures
            j == (Journal { tenant_storage_limit: limit, ..self }),
    {
        Journal { tenant_storage_limit: limit, ..self }
    }

    /// Install the retention ceilings.
    pub fn with_retention_limits(self, limits: JournalRetentionLimits) -> (j: Journal)
        ensures
            j == (Journal { retention_limits: limits, ..self }),
    {
        Journal { retention_limits: limits, ..self }
    }

    pub fn owner(&self) -> (r: &str)
        ensures
            r@ == self.owner@,
    {
        self.owner.as_str()
    }

    /// Create a session with its genesis record, anchoring recovery at `now_ms` and starting
    /// its retention from the genesis record's size. `config_bytes` and `sizes` are the
    /// canonical sizes of the CONFIG, the projected HEAD, its listing and the genesis record.
    pub fn create(
        &mut self,
        session_id: &str,
        doc: &HeadDoc,
        first: &Record,
        now_ms: u64,
        config_bytes: u64,
        sizes: &DecisionSizes,
    ) -> (r: Result<(), BrainError>)
        requires
            old(self).store.wf(),
            sizes.record_bytes@.len() == 1,
        ensures
            final(self).store.wf(),
            final(self).owner == old(self).owner,
            final(self).tenant_storage_limit == old(self).tenant_storage_limit,
            final(self).retention_limits == old(self).retention_limits,
            exists|p: HeadDoc| {
                let retention = genesis_retention(sizes.record_bytes@[0], old(self).retention_limits.session_bytes);
                &&& #[trigger] p.copy_of(&recovery_projected(*doc, now_ms))
                &&& match create_verdict(
                    old(self).store,
                    session_id@,
                    p,
                    old(self).tenant_storage_limit,
                    retention,
                    old(self).retention_limits,
                    config_bytes,
                    *sizes,
                ) {
                    CreateVerdict::Admit => r is Ok && created(old(self).store, final(self).store, session_id@, p, *first, now_ms, retention),
                    CreateVerdict::Refuse(e) => r == Err::<(), BrainError>(e) && final(self).store == old(self).store,
                    CreateVerdict::MissingParent => (r matches Err(BrainError::NoSuchSession(id)) && id@ == p.parent_id->0@)
                        && final(self).store == old(self).store,
                    CreateVerdict::MissingAncestor(k) => (r matches Err(BrainError::NoSuchSession(id)) && id@ == p.ancestor_ids@[k as int]@)
                        && final(self).store == old(self).store,
                    CreateVerdict::MissingRoot => (r matches Err(BrainError::NoSuchSession(id)) && id@ == p.root_id@)
                        && final(self).store == old(self).store,
                }
            },
    {
        let projected = doc.with_recovery_projection(now_ms);
        let ghost retention_spec = genesis_retention(sizes.record_bytes@[0], self.retention_limits.session_bytes);
        match validate_ancestor_path(&projected) {
            Ok(()) => {},
            Err(e) => return Err(e),
        }
        match validate_config_doc(config_bytes) {
            Ok(()) => {},
            Err(e) => return Err(e),
        }
        let mut genesis: Vec<(u64, Record)> = Vec::new();
        genesis.push((1, first.duplicate()));
        match validate_decision(genesis.as_slice(), sizes) {
            Ok(()) => {},
            Err(e) => return Err(e),
        }
        let retention = match initial_retention(sizes.record_bytes[0], self.retention_limits.session_bytes) {
            Ok(retention) => retention,
            Err(e) => {
                assert(projected.copy_of(&recovery_projected(*doc, now_ms)));
                return Err(e);
            },
        };
        let r = self.store.create(
            session_id,
            &projected,
            first,
            now_ms,
            self.tenant_storage_limit,
            retention,
            self.retention_limits,
            config_bytes,
            sizes,
        );
        assert(projected.copy_of(&recovery_projected(*doc, now_ms)));
        r
    }

    /// Take the session's lease under this journal's owner.
    pub fn claim(&mut self, session_id: &str, now_ms: u64) -> (r: Result<Head, BrainError>)
        requires
            old(self).store.wf(),
            now_ms <= u64::MAX - LEASE_MS,
        ensures
            final(self).store.wf(),
            final(self).owner == old(self).owner,
            final(self).tenant_storage_limit == old(self).tenant_storage_limit,
            final(self).retention_limits == old(self).retention_limits,
            final(self).store.same_tables_but_sessions(&old(self).store),
            match r {
                Ok(head) => {
                    let s = old(self).store.session_map()[session_id@];
                    let n = final(self).store.session_map()[session_id@];
                    &&& old(self).store.session_map().contains_key(session_id@)
                    &&& crate::memory::claimable(s.owner, s.lease_expires_ms, old(self).owner@, now_ms)
                    &&& n == crate::memory::MemSession { owner: n.owner, lease_expires_ms: (now_ms + LEASE_MS) as u64, fence: (s.fence + 1) as u64, ..s }
                    &&& n.owner matches Some(o) && o@ == old(self).owner@
                    &&& final(self).store.session_map() == old(self).store.session_map().insert(session_id@, n)
                    &&& head.session_id@ == session_id@
                    &&& head.doc.copy_of(&s.doc)
                    &&& head.fence == n.fence
                    &&& head.last_seq == s.last_seq
                    &&& head.retention == s.retention
                },
                Err(e) => {
                    &&& final(self).store.session_map() == old(self).store.session_map()
                    &&& match e {
                        BrainError::NoSuchSession(id) => id@ == session_id@ && !old(self).store.session_map().contains_key(session_id@),
                        BrainError::Fenced => old(self).store.session_map().contains_key(session_id@) && !crate::memory::claimable(
                            old(self).store.session_map()[session_id@].owner,
                            old(self).store.session_map()[session_id@].lease_expires_ms,
                            old(self).owner@,
                            now_ms,
                        ),
                        BrainError::Journal(f) => f == Fault::FenceExhausted && old(self).store.session_map().contains_key(session_id@)
                            && old(self).store.session_map()[session_id@].fence == u64::MAX,
                        _ => false,
                    }
                },
            },
    {
        self.store.claim(session_id, self.owner.as_str(), now_ms)
    }

    /// Give the lease back.
    pub fn release(&mut self, session_id: &str, lease: &Lease) -> (r: Result<(), BrainError>)
        requires
            old(self).store.wf(),
        ensures
            final(self).store.wf(),
            final(self).owner == old(self).owner,
            final(self).tenant_storage_limit == old(self).tenant_storage_limit,
            final(self).retention_limits == old(self).retention_limits,
            r is Ok,
            old(self).store.session_map().contains_key(session_id@) && crate::memory::holds(
                old(self).store.session_map()[session_id@],
                old(self).owner@,
                lease.fence,
            ) ==> final(self).store.session_map()[session_id@].owner is None,
            !(old(self).store.session_map().contains_key(session_id@) && crate::memory::holds(
                old(self).store.session_map()[session_id@],
                old(self).owner@,
                lease.fence,
            )) ==> final(self).store == old(self).store,
    {
        self.store.release(session_id, self.owner.as_str(), lease.fence)
    }

    /// Renew the lease; with `advance_active_due`, move the recovery anchor a lease and a steal
    /// grace past `now_ms`.
    pub fn renew(&mut self, session_id: &str, lease: &Lease, advance_active_due: bool, now_ms: u64) -> (r: Result<(), BrainError>)
        requires
            old(self).store.wf(),
            now_ms <= u64::MAX - LEASE_MS,
        ensures
            final(self).store.wf(),
            final(self).owner == old(self).owner,
            final(self).tenant_storage_limit == old(self).tenant_storage_limit,
            final(self).retention_limits == old(self).retention_limits,
            final(self).store.same_tables_but_sessions(&old(self).store),
            match r {
                Ok(()) => {
                    let s = old(self).store.session_map()[session_id@];
                    let lease_end = if now_ms + LEASE_MS > u64::MAX { u64::MAX } else { (now_ms + LEASE_MS) as u64 };
                    &&& old(self).store.session_map().contains_key(session_id@) && crate::memory::holds(s, old(self).owner@, lease.fence)
                    &&& final(self).store.session_map() == old(self).store.session_map().insert(
                        session_id@,
                        crate::memory::MemSession {
                            lease_expires_ms: lease_end,
                            doc: if advance_active_due {
                                HeadDoc { recovery_due_ms: Some(crate::docs::sat_add(now_ms, (LEASE_MS + STEAL_GRACE_MS) as u64)), ..s.doc }
                            } else {
                                s.doc
                            },
                            ..s
                        },
                    )
                },
                Err(e) => final(self).store == old(self).store && match e {
                    BrainError::NoSuchSession(id) => id@ == session_id@ && !old(self).store.session_map().contains_key(session_id@),
                    BrainError::Fenced => old(self).store.session_map().contains_key(session_id@) && !crate::memory::holds(
                        old(self).store.session_map()[session_id@],
                        old(self).owner@,
                        lease.fence,
                    ),
                    _ => false,
                },
            },
    {
        let due = if advance_active_due { Some(now_ms.saturating_add(LEASE_MS + STEAL_GRACE_MS)) } else { None };
        self.store.renew(session_id, self.owner.as_str(), lease.fence, now_ms, due)
    }

    /// One decision, one durable write under the lease: HEAD gets its recovery anchor and its
    /// tenant storage meter, the retention projection advances by the records, and on success
    /// the lease carries the new high-water and retention. Returns the HEAD as committed.
    #[verifier::spinoff_prover]
    #[verifier::rlimit(50)]
    pub fn commit(
        &mut self,
        session_id: &str,
        lease: &mut Lease,
        records: &[(u64, Record)],
        doc: &HeadDoc,
        high_water: u64,
        now_ms: u64,
        sizes: &DecisionSizes,
    ) -> (r: Result<HeadDoc, BrainError>)
        requires
            old(self).store.wf(),
            sizes.record_bytes@.len() == records@.len(),
            now_ms <= u64::MAX - LEASE_MS,
        ensures
            final(self).store.wf(),
            final(self).owner == old(self).owner,
            final(self).tenant_storage_limit == old(self).tenant_storage_limit,
            final(self).retention_limits == old(self).retention_limits,
            ({
                let proj = recovery_projected(*doc, now_ms);
                let desired = desired_meter(proj);
                let storage_delta = desired - proj.tenant_metered_storage_bytes;
                let unchanged = final(self).store == old(self).store && *final(lease) == *old(lease);
                if desired > u64::MAX {
                    r == Err::<HeadDoc, BrainError>(BrainError::Journal(Fault::TenantStorageMeterOverflowed)) && unchanged
                } else if !(i64::MIN <= storage_delta <= i64::MAX) {
                    r == Err::<HeadDoc, BrainError>(BrainError::Journal(Fault::TenantStorageDeltaOutOfRange)) && unchanged
                } else if decision_fault(records@.len() as int, sizes.control_bytes, sizes.listing_bytes, sizes.record_bytes@) is Some {
                    r == Err::<HeadDoc, BrainError>(BrainError::Invalid(
                        decision_fault(records@.len() as int, sizes.control_bytes, sizes.listing_bytes, sizes.record_bytes@)->0,
                    )) && unchanged
                } else {
                    match project_retention_spec(old(lease).retention, records@, sizes.record_bytes@, old(self).retention_limits.session_bytes) {
                        Err(e) => r == Err::<HeadDoc, BrainError>(e) && unchanged,
                        Ok(next) => {
                            let retention_change = next.metered_bytes - old(lease).retention.metered_bytes;
                            if !(i64::MIN <= retention_change <= i64::MAX) {
                                r == Err::<HeadDoc, BrainError>(BrainError::Journal(Fault::RetentionDeltaOutOfRange)) && unchanged
                            } else {
                                exists|d: HeadDoc| {
                                    &&& #[trigger] d.copy_of(&HeadDoc { tenant_metered_storage_bytes: desired as u64, ..proj })
                                    &&& match commit_verdict(
                                        old(self).store,
                                        session_id@,
                                        old(self).owner@,
                                        old(lease).fence,
                                        records@,
                                        d,
                                        storage_delta as i64,
                                        old(self).tenant_storage_limit,
                                        next,
                                        retention_change as i64,
                                        old(self).retention_limits,
                                        *sizes,
                                    ) {
                                        CommitVerdict::Commit => r == Ok::<HeadDoc, BrainError>(d) && committed(
                                            old(self).store,
                                            final(self).store,
                                            session_id@,
                                            records@,
                                            d,
                                            high_water,
                                            now_ms,
                                            storage_delta as i64,
                                            next,
                                            retention_change as i64,
                                        ) && *final(lease) == (Lease { last_seq: high_water, retention: next, ..*old(lease) }),
                                        CommitVerdict::Refuse(e) => r == Err::<HeadDoc, BrainError>(e) && unchanged,
                                        CommitVerdict::MissingAncestor(k) => (r matches Err(BrainError::NoSuchSession(id)) && id@
                                            == d.ancestor_ids@[k as int]@) && unchanged,
                                        CommitVerdict::MissingSession => (r matches Err(BrainError::NoSuchSession(id)) && id@
                                            == session_id@) && unchanged,
                                    }
                                }
                            }
                        },
                    }
                }
            }),
    {
        let mut projected = doc.with_recovery_projection(now_ms);
        let ghost proj = recovery_projected(*doc, now_ms);
        if projected.session_storage_bytes > u64::MAX - projected.storage_reserved_bytes {
            return Err(BrainError::Journal(Fault::TenantStorageMeterOverflowed));
        }
        let desired = projected.session_storage_bytes + projected.storage_reserved_bytes;
        let delta_wide: i128 = desired as i128 - projected.tenant_metered_storage_bytes as i128;
        if delta_wide > i64::MAX as i128 || delta_wide < i64::MIN as i128 {
            return Err(BrainError::Journal(Fault::TenantStorageDeltaOutOfRange));
        }
        let storage_delta = delta_wide as i64;
        projected.tenant_metered_storage_bytes = desired;
        assert(projected.copy_of(&HeadDoc { tenant_metered_storage_bytes: desired, ..proj }));
        match validate_decision(records, sizes) {
            Ok(()) => {},
            Err(e) => return Err(e),
        }
        let next = match project_retention(lease.retention, records, sizes.record_bytes.as_slice(), self.retention_limits.session_bytes) {
            Ok(next) => next,
            Err(e) => return Err(e),
        };
        let retention_change = match retention_delta(lease.retention, next) {
            Ok(d) => d,
            Err(e) => return Err(e),
        };
        match self.store.commit(
            session_id,
            self.owner.as_str(),
            lease.fence,
            records,
            &projected,
            high_water,
            now_ms,
            storage_delta,
            self.tenant_storage_limit,
            next,
            retention_change,
            self.retention_limits,
            sizes,
        ) {
            Ok(()) => {},
            Err(e) => return Err(e),
        }
        lease.last_seq = high_water;
        lease.retention = next;
        Ok(projected)
    }

    /// Count a failed recovery attempt and schedule the next under this owner.
    pub fn defer_recovery(&mut self, session_id: &str, now_ms: u64, sizes: &DecisionSizes) -> (r: Result<(), BrainError>)
        requires
            old(self).store.wf(),
            sizes.record_bytes@.len() == 0,
        ensures
            final(self).store.wf(),
            final(self).owner == old(self).owner,
            final(self).tenant_storage_limit == old(self).tenant_storage_limit,
            final(self).retention_limits == old(self).retention_limits,
            !old(self).store.session_map().contains_key(session_id@) ==> (r matches Err(BrainError::NoSuchSession(id)) && id@ == session_id@),
            old(self).store.session_map().contains_key(session_id@) && decision_fault(0, sizes.control_bytes, sizes.listing_bytes, sizes.record_bytes@) is None
                && (old(self).store.session_map()[session_id@].owner matches Some(o) && o@ == old(self).owner@) ==> r is Ok && {
                let s = old(self).store.session_map()[session_id@];
                let attempt = if s.doc.recovery_attempt == u32::MAX { u32::MAX } else { (s.doc.recovery_attempt + 1) as u32 };
                final(self).store.session_map()[session_id@].doc.recovery_attempt == attempt
                    && final(self).store.session_map()[session_id@].doc.recovery_due_ms == Some(
                    crate::memory::recovery_due_spec(session_id.spec_bytes(), attempt, now_ms),
                ) && final(self).store.session_map()[session_id@].owner is None
            },
    {
        self.store.defer_recovery(session_id, self.owner.as_str(), now_ms, sizes)
    }
}


impl Journal {
    /// HEAD as stored for `session_id`.
    pub fn get_head(&self, session_id: &str) -> (r: Result<Head, BrainError>)
        requires
            self.store.wf(),
        ensures
            match r {
                Ok(head) => self.store.session_map().contains_key(session_id@) && {
                    let s = self.store.session_map()[session_id@];
                    &&& head.session_id@ == session_id@
                    &&& head.doc.copy_of(&s.doc)
                    &&& head.fence == s.fence
                    &&& head.last_seq == s.last_seq
                    &&& head.retention == s.retention
                },
                Err(e) => !self.store.session_map().contains_key(session_id@) && (e matches BrainError::NoSuchSession(id)
                    && id@ == session_id@),
            },
    {
        self.store.get_head(session_id)
    }

    /// Every record of a session after `after`, through the HEAD high-water read first.
    /// `sizes` are the canonical sizes of the session's stored records, in order.
    pub fn read_records(&self, session_id: &str, after: u64, sizes: &[u64]) -> (r: Result<Vec<Entry>, BrainError>)
        requires
            self.store.wf(),
            self.store.session_map().contains_key(session_id@) ==> sizes@.len() == self.store.session_map()[session_id@].records@.len(),
            forall|k: int| 0 <= k < sizes@.len() ==> sizes@[k] <= MAX_SERIALIZED_RECORD_BYTES,
        ensures
            !self.store.session_map().contains_key(session_id@) ==> (r matches Err(BrainError::NoSuchSession(id)) && id@ == session_id@),
            self.store.session_map().contains_key(session_id@) ==> (r matches Ok(entries) && {
                let s = self.store.session_map()[session_id@];
                let w = window(s.records@, after, s.last_seq, 0);
                &&& entries@.len() == w.len()
                &&& forall|k: int| 0 <= k < w.len() ==> (#[trigger] entries@[k]).seq == w[k].0 && entries@[k].ts_ms == w[k].1
                    && entries@[k].record.copy_of(&w[k].2)
            }),
    {
        self.store.read_records(session_id, after, sizes)
    }

    /// Every record of a session after `after` through the fixed high-water `through_seq`.
    pub fn read_records_through(&self, session_id: &str, after: u64, through_seq: u64, sizes: &[u64]) -> (r: Result<Vec<Entry>, BrainError>)
        requires
            self.store.wf(),
            self.store.session_map().contains_key(session_id@) ==> sizes@.len() == self.store.session_map()[session_id@].records@.len(),
            forall|k: int| 0 <= k < sizes@.len() ==> sizes@[k] <= MAX_SERIALIZED_RECORD_BYTES,
        ensures
            !self.store.session_map().contains_key(session_id@) ==> (r matches Err(BrainError::NoSuchSession(id)) && id@ == session_id@),
            self.store.session_map().contains_key(session_id@) ==> (r matches Ok(entries) && {
                let w = window(self.store.session_map()[session_id@].records@, after, through_seq, 0);
                &&& entries@.len() == w.len()
                &&& forall|k: int| 0 <= k < w.len() ==> (#[trigger] entries@[k]).seq == w[k].0 && entries@[k].ts_ms == w[k].1
                    && entries@[k].record.copy_of(&w[k].2)
            }),
    {
        self.store.read_records_through(session_id, after, through_seq, sizes)
    }

    /// Up to `limit` sessions' HEADs, in table order.
    pub fn list_sessions(&self, limit: usize) -> (r: Vec<Head>)
        requires
            self.store.wf(),
        ensures
            r@.len() == (if limit < self.store.sessions@.len() { limit as int } else { self.store.sessions@.len() as int }),
            forall|i: int| 0 <= i < r@.len() ==> {
                let (id, s) = self.store.sessions@[i];
                &&& (#[trigger] r@[i]).session_id@ == id@
                &&& r@[i].doc.copy_of(&s.doc)
                &&& r@[i].fence == s.fence
                &&& r@[i].last_seq == s.last_seq
                &&& r@[i].retention == s.retention
            },
    {
        self.store.list_sessions(limit)
    }

    /// End-fence a session under this journal's retention ceilings (see `MemoryStore::fence_end`).
    pub fn fence_end(&mut self, session_id: &str, now_ms: u64, sizes: &DecisionSizes) -> (r: Result<EndFence, BrainError>)
        requires
            old(self).store.wf(),
            sizes.record_bytes@.len() == 1,
        ensures
            final(self).store.wf(),
            final(self).owner == old(self).owner,
            final(self).tenant_storage_limit == old(self).tenant_storage_limit,
            final(self).retention_limits == old(self).retention_limits,
            !old(self).store.session_map().contains_key(session_id@) ==> (r matches Err(BrainError::NoSuchSession(id))
                && id@ == session_id@) && final(self).store == old(self).store,
            old(self).store.session_map().contains_key(session_id@) ==> {
                let s = old(self).store.session_map()[session_id@];
                let used = retention_meter(old(self).store.tenant_retention@, s.doc.tenant_id@).0;
                if end_fenced(s.doc.state) {
                    &&& r matches Ok(f) && !f.newly_fenced && f.head.session_id@ == session_id@ && f.head.doc.copy_of(&s.doc)
                        && f.head.fence == s.fence && f.head.last_seq == s.last_seq && f.head.retention == s.retention
                    &&& final(self).store == old(self).store
                } else {
                    match end_fence_fault(s, used, old(self).retention_limits, *sizes, now_ms) {
                        Some(e) => r == Err::<EndFence, BrainError>(e) && final(self).store == old(self).store,
                        None => {
                            let n = final(self).store.session_map()[session_id@];
                            &&& end_fenced_store(old(self).store, final(self).store, session_id@, now_ms, old(self).retention_limits, *sizes)
                            &&& r matches Ok(f) && f.newly_fenced && f.head.session_id@ == session_id@ && f.head.doc.copy_of(&n.doc)
                                && f.head.fence == n.fence && f.head.last_seq == n.last_seq && f.head.retention == n.retention
                        },
                    }
                }
            },
    {
        let limits = self.retention_limits;
        self.store.fence_end(session_id, now_ms, limits, sizes)
    }

    /// Drop a session's stored records and sandbox inventory ahead of deletion (see
    /// `MemoryStore::purge_history`); returns how many items went.
    pub fn purge_history(&mut self, session_id: &str) -> (r: Result<u64, BrainError>)
        requires
            old(self).store.wf(),
        ensures
            final(self).store.wf(),
            final(self).owner == old(self).owner,
            final(self).tenant_storage_limit == old(self).tenant_storage_limit,
            final(self).retention_limits == old(self).retention_limits,
            !old(self).store.session_map().contains_key(session_id@) ==> r == Ok::<u64, BrainError>(0) && final(self).store == old(self).store,
            old(self).store.session_map().contains_key(session_id@) ==> {
                let s = old(self).store.session_map()[session_id@];
                let n = final(self).store.session_map()[session_id@];
                let inventory: int = if as_map(old(self).store.sandboxes@).contains_key(session_id@) {
                    as_map(old(self).store.sandboxes@)[session_id@]@.len() as int
                } else {
                    0
                };
                &&& r == Ok::<u64, BrainError>(
                    (if s.records@.len() + inventory > u64::MAX { u64::MAX as int } else { s.records@.len() as int + inventory }) as u64,
                )
                &&& final(self).store.session_map() == old(self).store.session_map().insert(session_id@, n)
                &&& n == crate::memory::MemSession { records: n.records, ..s }
                &&& n.records@.len() == 0
                &&& as_map(final(self).store.sandboxes@) == as_map(old(self).store.sandboxes@).remove(session_id@)
                &&& final(self).store.tenant_storage == old(self).store.tenant_storage
                &&& final(self).store.tenant_retention == old(self).store.tenant_retention
                &&& final(self).store.child_links == old(self).store.child_links
                &&& final(self).store.deletions == old(self).store.deletions
            },
    {
        self.store.purge_history(session_id)
    }
}

} // verus!
