//! The reference journal store: exact semantics, no durability, no dependencies. Sessions,
//! tenant meters, adjacency, sandbox inventories and deletion tombstones are keyed entries;
//! every operation is one atomic step on `&mut self` (the host serialises calls).

use vstd::prelude::*;
use crate::docs::{
    Duplicate, HeadDoc, Head, EndFence, SessionSummary, SandboxInventoryDoc, DeletionStatusDoc,
    LEASE_MS, STEAL_GRACE_MS, admission_open, ancestor_path_valid, summary_of, child_admission_open,
    validate_ancestor_path,
};
use crate::decision::{
    DecisionSizes, decision_fault, validate_decision, validate_config_doc, end_fenced, end_fenced_doc,
    project_end_fence,
};
use crate::retention::{class_of, fold_class, any_record, step_class, empty_class};
use crate::vocab::SessionLifecycle;
use crate::retention::{
    JournalRetentionLimits, initial_retention, initial_retention_spec, project_retention,
    project_retention_spec, retention_delta,
};
use crate::docs::requires_ancestor_admission;
use crate::retention::MAX_SERIALIZED_CONFIG_BYTES;
use crate::text::str_eq;
use vstd::pervasive::VecAdditionalExecFns;
use crate::error::{BrainError, Fault};
use crate::keyed::{
    as_map, keyed, unique_keys, meter, find, meter_value, upsert, remove_key, lemma_entry,
    lemma_update, lemma_push, lemma_remove,
};
use crate::records::{Record, SandboxState, SandboxStatus};
use crate::docs::{SandboxReserveRequest, SandboxUpdateRequest};
use crate::names::push_str_chars;
use crate::order::{page_indices, ordered_page, keys_of};
use crate::docs::{ChildListQuery, ChildPage, SandboxListQuery, SandboxPage, RecoveryItem, RecoveryQuery, RecoveryPage};
use crate::names::{padded_decimal, shard_of, lemma_padded_len, recovery_due_key, recovery_shard};
use vstd::string::StringSliceAdditionalSpecFns;
use vstd::utf8::encode_utf8;
use crate::retention::{JournalRetention, Entry, RecordPage, RecordPageQuery, validate_record_page_query, MAX_SERIALIZED_RECORD_BYTES};
use crate::vocab::DeletionState;
use crate::docs::{SessionListQuery, SessionPage, RECOVERY_BACKOFF_BASE_MS, RECOVERY_BACKOFF_MAX_MS, sat_add};
use crate::digest::{sha256, sha256_of};
use crate::bytes::append_bytes;
use crate::names::{tenant_session_sort_key, session_id_from_list_cursor, cursor_session_id};

verus! {

/// One session as the store keeps it.
pub struct MemSession {
    pub doc: HeadDoc,
    pub retention: JournalRetention,
    pub direct_children: u32,
    pub descendants: u32,
    pub live_sandboxes: u32,
    pub fence: u64,
    pub last_seq: u64,
    pub owner: Option<String>,
    pub lease_expires_ms: u64,
    /// `(sequence, recorded_at_ms, record)`, in strictly increasing sequence order.
    pub records: Vec<(u64, u64, Record)>,
}

/// Records kept in strictly increasing sequence order.
pub open spec fn records_sorted(records: Seq<(u64, u64, Record)>) -> bool {
    forall|i: int, j: int| 0 <= i < j < records.len() ==> (#[trigger] records[i]).0 < (#[trigger] records[j]).0
}

/// The in-memory store.
pub struct MemoryStore {
    pub sessions: Vec<(String, MemSession)>,
    pub tenant_storage: Vec<(String, u64)>,
    /// `(metered journal bytes, retained session identities)` per tenant.
    pub tenant_retention: Vec<(String, (u64, u64))>,
    /// Direct children per parent: child id to its listing row.
    pub child_links: Vec<(String, Vec<(String, SessionSummary)>)>,
    /// Additional sandboxes per root: sandbox id to its inventory row.
    pub sandboxes: Vec<(String, Vec<(String, SandboxInventoryDoc)>)>,
    pub deletions: Vec<(String, DeletionStatusDoc)>,
}

/// Whether a lease held by `holder` until `expires_ms` lets `owner` claim at `now_ms`: the
/// session is unowned, already owned by `owner`, or its lease lapsed more than the steal grace
/// ago.
pub open spec fn claimable(holder: Option<String>, expires_ms: u64, owner: Seq<char>, now_ms: u64) -> bool {
    match holder {
        None => true,
        Some(o) => o@ == owner || expires_ms < (if now_ms >= STEAL_GRACE_MS { now_ms - STEAL_GRACE_MS } else { 0 }),
    }
}

/// Whether `owner` holds the lease at `fence`.
pub open spec fn holds(s: MemSession, owner: Seq<char>, fence: u64) -> bool {
    s.fence == fence && (s.owner matches Some(o) && o@ == owner)
}

impl MemoryStore {
    /// Keys are unique in every table, and every session's records are in sequence order.
    pub open spec fn wf(&self) -> bool {
        &&& unique_keys(self.sessions@)
        &&& unique_keys(self.tenant_storage@)
        &&& unique_keys(self.tenant_retention@)
        &&& unique_keys(self.child_links@)
        &&& unique_keys(self.sandboxes@)
        &&& unique_keys(self.deletions@)
        &&& forall|i: int| 0 <= i < self.child_links@.len() ==> unique_keys((#[trigger] self.child_links@[i]).1@)
        &&& forall|i: int| 0 <= i < self.sandboxes@.len() ==> unique_keys((#[trigger] self.sandboxes@[i]).1@)
        &&& forall|i: int| 0 <= i < self.sessions@.len() ==> records_sorted((#[trigger] self.sessions@[i]).1.records@)
    }

    pub open spec fn session_map(&self) -> Map<Seq<char>, MemSession> {
        as_map(self.sessions@)
    }

    pub open spec fn deletion_map(&self) -> Map<Seq<char>, DeletionStatusDoc> {
        as_map(self.deletions@)
    }

    /// Everything but the session table is as in `other`.
    pub open spec fn same_tables_but_sessions(&self, other: &MemoryStore) -> bool {
        &&& self.tenant_storage == other.tenant_storage
        &&& self.tenant_retention == other.tenant_retention
        &&& self.child_links == other.child_links
        &&& self.sandboxes == other.sandboxes
        &&& self.deletions == other.deletions
    }

    /// An empty store.
    pub fn new() -> (r: MemoryStore)
        ensures
            r.wf(),
            r.session_map() == Map::<Seq<char>, MemSession>::empty(),
            r.deletion_map() == Map::<Seq<char>, DeletionStatusDoc>::empty(),
            r.tenant_storage@.len() == 0,
            r.tenant_retention@.len() == 0,
            r.child_links@.len() == 0,
            r.sandboxes@.len() == 0,
    {
        let r = MemoryStore {
            sessions: Vec::new(),
            tenant_storage: Vec::new(),
            tenant_retention: Vec::new(),
            child_links: Vec::new(),
            sandboxes: Vec::new(),
            deletions: Vec::new(),
        };
        assert(r.session_map() =~= Map::<Seq<char>, MemSession>::empty());
        assert(r.deletion_map() =~= Map::<Seq<char>, DeletionStatusDoc>::empty());
        r
    }

    /// HEAD as stored for `session_id`.
    pub fn get_head(&self, session_id: &str) -> (r: Result<Head, BrainError>)
        requires
            self.wf(),
        ensures
            match r {
                Ok(head) => self.session_map().contains_key(session_id@) && {
                    let s = self.session_map()[session_id@];
                    &&& head.session_id@ == session_id@
                    &&& head.doc.copy_of(&s.doc)
                    &&& head.fence == s.fence
                    &&& head.last_seq == s.last_seq
                    &&& head.retention == s.retention
                },
                Err(e) => !self.session_map().contains_key(session_id@) && (e matches BrainError::NoSuchSession(id)
                    && id@ == session_id@),
            },
    {
        match find(&self.sessions, session_id) {
            None => Err(BrainError::NoSuchSession(session_id.to_owned())),
            Some(i) => {
                proof {
                    lemma_entry(self.sessions@, i as int);
                }
                let s = &self.sessions[i].1;
                Ok(Head {
                    session_id: session_id.to_owned(),
                    doc: s.doc.duplicate(),
                    fence: s.fence,
                    last_seq: s.last_seq,
                    retention: s.retention,
                })
            },
        }
    }

    /// Take ownership of a session: an unowned session, one this owner already holds, or one
    /// whose lease lapsed past the steal grace. The fence advances on every claim.
    pub fn claim(&mut self, session_id: &str, owner: &str, now_ms: u64) -> (r: Result<Head, BrainError>)
        requires
            old(self).wf(),
            now_ms <= u64::MAX - LEASE_MS,
        ensures
            final(self).wf(),
            final(self).same_tables_but_sessions(old(self)),
            match r {
                Ok(head) => {
                    let s = old(self).session_map()[session_id@];
                    let n = final(self).session_map()[session_id@];
                    &&& old(self).session_map().contains_key(session_id@)
                    &&& claimable(s.owner, s.lease_expires_ms, owner@, now_ms)
                    &&& n == MemSession { owner: n.owner, lease_expires_ms: (now_ms + LEASE_MS) as u64, fence: (s.fence + 1) as u64, ..s }
                    &&& n.owner matches Some(o) && o@ == owner@
                    &&& final(self).session_map() == old(self).session_map().insert(session_id@, n)
                    &&& head.session_id@ == session_id@
                    &&& head.doc.copy_of(&s.doc)
                    &&& head.fence == n.fence
                    &&& head.last_seq == s.last_seq
                    &&& head.retention == s.retention
                },
                Err(e) => {
                    &&& final(self).session_map() == old(self).session_map()
                    &&& match e {
                        BrainError::NoSuchSession(id) => id@ == session_id@ && !old(self).session_map().contains_key(session_id@),
                        BrainError::Fenced => old(self).session_map().contains_key(session_id@) && !claimable(
                            old(self).session_map()[session_id@].owner,
                            old(self).session_map()[session_id@].lease_expires_ms,
                            owner@,
                            now_ms,
                        ),
                        BrainError::Journal(f) => f == Fault::FenceExhausted && old(self).session_map().contains_key(session_id@)
                            && old(self).session_map()[session_id@].fence == u64::MAX,
                        _ => false,
                    }
                },
            },
    {
        let i = match find(&self.sessions, session_id) {
            None => return Err(BrainError::NoSuchSession(session_id.to_owned())),
            Some(i) => i,
        };
        proof {
            lemma_entry(self.sessions@, i as int);
        }
        let ok = match &self.sessions[i].1.owner {
            None => true,
            Some(o) => crate::text::str_eq(o.as_str(), owner) || self.sessions[i].1.lease_expires_ms
                < now_ms.saturating_sub(STEAL_GRACE_MS),
        };
        if !ok {
            return Err(BrainError::Fenced);
        }
        if self.sessions[i].1.fence == u64::MAX {
            return Err(BrainError::Journal(Fault::FenceExhausted));
        }
        let ghost before = *self;
        let (key, mut s) = self.sessions.remove(i);
        proof {
            assert(s == before.sessions@[i as int].1);
        }
        s.owner = Some(owner.to_owned());
        s.lease_expires_ms = now_ms + LEASE_MS;
        s.fence = s.fence + 1;
        let head = Head {
            session_id: session_id.to_owned(),
            doc: s.doc.duplicate(),
            fence: s.fence,
            last_seq: s.last_seq,
            retention: s.retention,
        };
        self.sessions.insert(i, (key, s));
        proof {
            assert(self.sessions@ =~= before.sessions@.update(i as int, (key, s)));
            lemma_update(before.sessions@, i as int, key, s);
            assert forall|j: int| 0 <= j < self.sessions@.len() implies records_sorted((#[trigger] self.sessions@[j]).1.records@) by {
                if j != i {
                    assert(self.sessions@[j] == before.sessions@[j]);
                }
            }
        }
        Ok(head)
    }
}

/// `a + 1`, saturating at `u32::MAX`.
pub open spec fn inc32(a: u32) -> u32 {
    if a == u32::MAX { a } else { (a + 1) as u32 }
}

/// The tenant's journal meter: `(metered bytes, retained identities)`, zero when absent.
pub open spec fn retention_meter(entries: Seq<(String, (u64, u64))>, tenant: Seq<char>) -> (u64, u64) {
    if as_map(entries).contains_key(tenant) { as_map(entries)[tenant] } else { (0, 0) }
}

/// The first of `ids`, from position `i`, that is missing (`true`) or that belongs to another
/// root or has closed admission (`false`).
pub open spec fn first_ancestor_fault(m: Map<Seq<char>, MemSession>, ids: Seq<String>, root: Seq<char>, i: int) -> Option<(int, bool)>
    decreases ids.len() - i,
{
    if i < 0 || i >= ids.len() {
        None
    } else if !m.contains_key(ids[i]@) {
        Some((i, true))
    } else if m[ids[i]@].doc.root_id@ != root || !admission_open(m[ids[i]@].doc) {
        Some((i, false))
    } else {
        first_ancestor_fault(m, ids, root, i + 1)
    }
}

/// `child` extends the ancestor path `parent_path` of its parent `parent` by that parent.
pub open spec fn extends_path(parent_path: Seq<String>, parent: Seq<char>, child: Seq<String>) -> bool {
    &&& child.len() == parent_path.len() + 1
    &&& forall|i: int| 0 <= i < parent_path.len() ==> (#[trigger] child[i])@ == parent_path[i]@
    &&& child[parent_path.len() as int]@ == parent
}

/// What admitting a new session decides, in the order the checks are made.
pub enum CreateVerdict {
    Admit,
    Refuse(BrainError),
    MissingParent,
    MissingAncestor(usize),
    MissingRoot,
}

/// The verdict on a child of `parent` once the tenant meters admit it.
pub open spec fn child_verdict(m: Map<Seq<char>, MemSession>, doc: HeadDoc, parent: Seq<char>) -> CreateVerdict {
    if !m.contains_key(parent) {
        CreateVerdict::MissingParent
    } else if !extends_path(m[parent].doc.ancestor_ids@, parent, doc.ancestor_ids@) {
        CreateVerdict::Refuse(BrainError::Invalid(Fault::ChildAncestorPathMismatch))
    } else {
        match first_ancestor_fault(m, doc.ancestor_ids@, doc.root_id@, 0) {
            Some((k, missing)) => if missing {
                CreateVerdict::MissingAncestor(k as usize)
            } else {
                CreateVerdict::Refuse(BrainError::Invalid(Fault::ChildAdmissionClosedByAncestor))
            },
            None => if !m.contains_key(doc.root_id@) {
                CreateVerdict::MissingRoot
            } else {
                let p = m[parent];
                let r = m[doc.root_id@];
                if !admission_open(p.doc) || !admission_open(r.doc) || p.doc.root_id@ != doc.root_id@
                    || doc.depth != inc32(p.doc.depth) || p.doc.depth >= r.doc.prefix.max_child_depth {
                    CreateVerdict::Refuse(BrainError::Invalid(Fault::ChildAdmissionClosed))
                } else if p.direct_children >= r.doc.prefix.max_direct_children || r.descendants
                    >= r.doc.prefix.max_descendants {
                    CreateVerdict::Refuse(BrainError::Overloaded)
                } else {
                    CreateVerdict::Admit
                }
            },
        }
    }
}

/// The verdict on creating `session_id` with `doc` and a genesis record of the given sizes.
pub open spec fn create_verdict(
    store: MemoryStore,
    session_id: Seq<char>,
    doc: HeadDoc,
    tenant_storage_limit: u64,
    retention: JournalRetention,
    limits: JournalRetentionLimits,
    config_bytes: u64,
    sizes: DecisionSizes,
) -> CreateVerdict {
    let used = meter(store.tenant_storage@, doc.tenant_id@);
    let journal = retention_meter(store.tenant_retention@, doc.tenant_id@);
    if !ancestor_path_valid(doc) {
        CreateVerdict::Refuse(BrainError::Invalid(Fault::AncestorPathMismatch))
    } else if config_bytes > MAX_SERIALIZED_CONFIG_BYTES {
        CreateVerdict::Refuse(BrainError::Invalid(Fault::ConfigTooLarge { bytes: config_bytes }))
    } else if decision_fault(1, sizes.control_bytes, sizes.listing_bytes, sizes.record_bytes@) is Some {
        CreateVerdict::Refuse(BrainError::Invalid(decision_fault(1, sizes.control_bytes, sizes.listing_bytes, sizes.record_bytes@)->0))
    } else if initial_retention_spec(sizes.record_bytes@[0], limits.session_bytes) is Err {
        CreateVerdict::Refuse(initial_retention_spec(sizes.record_bytes@[0], limits.session_bytes)->Err_0)
    } else if initial_retention_spec(sizes.record_bytes@[0], limits.session_bytes)->Ok_0 != retention {
        CreateVerdict::Refuse(BrainError::Journal(Fault::RetentionProjectionMismatch))
    } else if doc.session_storage_bytes != 0 || doc.storage_reserved_bytes != 0 {
        CreateVerdict::Refuse(BrainError::Invalid(Fault::NewSessionHasStorage))
    } else if doc.parent_id is Some && doc.tenant_metered_storage_bytes != 0 {
        CreateVerdict::Refuse(BrainError::Invalid(Fault::ChildReservesBundleStorage))
    } else if store.session_map().contains_key(session_id) {
        CreateVerdict::Refuse(BrainError::Invalid(Fault::SessionAlreadyExists))
    } else if used + doc.tenant_metered_storage_bytes > u64::MAX {
        CreateVerdict::Refuse(BrainError::Journal(Fault::TenantStorageMeterOverflowed))
    } else if used + doc.tenant_metered_storage_bytes > tenant_storage_limit {
        CreateVerdict::Refuse(BrainError::TenantStorageQuotaExceeded {
            requested: doc.tenant_metered_storage_bytes,
            limit: tenant_storage_limit,
        })
    } else if journal.0 + retention.metered_bytes > u64::MAX {
        CreateVerdict::Refuse(BrainError::Journal(Fault::TenantJournalMeterOverflowed))
    } else if journal.0 + retention.metered_bytes > limits.tenant_bytes {
        CreateVerdict::Refuse(BrainError::TenantJournalQuotaExceeded {
            requested: retention.metered_bytes,
            limit: limits.tenant_bytes,
        })
    } else if journal.1 + 1 > u64::MAX {
        CreateVerdict::Refuse(BrainError::Journal(Fault::TenantSessionMeterOverflowed))
    } else if journal.1 + 1 > limits.tenant_sessions {
        CreateVerdict::Refuse(BrainError::TenantRetainedSessionQuotaExceeded { limit: limits.tenant_sessions })
    } else {
        match doc.parent_id {
            None => CreateVerdict::Admit,
            Some(parent) => child_verdict(store.session_map(), doc, parent@),
        }
    }
}

/// The session table after a child of `parent` under `root` is counted: the parent gains a
/// direct child and the root a descendant (one session when the parent is the root).
pub open spec fn with_child_counted(m: Map<Seq<char>, MemSession>, parent: Seq<char>, root: Seq<char>) -> Map<Seq<char>, MemSession> {
    if parent == root {
        m.insert(root, MemSession { direct_children: inc32(m[root].direct_children), descendants: inc32(m[root].descendants), ..m[root] })
    } else {
        let m1 = m.insert(parent, MemSession { direct_children: inc32(m[parent].direct_children), ..m[parent] });
        m1.insert(root, MemSession { descendants: inc32(m1[root].descendants), ..m1[root] })
    }
}

/// The child-link table after `summary` is recorded as `child`'s row under `parent`.
pub open spec fn linked(before: Seq<(String, Vec<(String, SessionSummary)>)>, after: Seq<(String, Vec<(String, SessionSummary)>)>, parent: Seq<char>, child: Seq<char>, summary: SessionSummary) -> bool {
    let old_rows = if as_map(before).contains_key(parent) { as_map(as_map(before)[parent]@) } else { Map::empty() };
    &&& as_map(after).contains_key(parent)
    &&& as_map(as_map(after)[parent]@) == old_rows.insert(child, summary)
    &&& as_map(after).remove(parent) == as_map(before).remove(parent)
}

impl MemoryStore {
    /// The tenant's journal meter.
    fn retention_meter_value(&self, tenant: &str) -> (r: (u64, u64))
        requires
            self.wf(),
        ensures
            r == retention_meter(self.tenant_retention@, tenant@),
    {
        match find(&self.tenant_retention, tenant) {
            Some(i) => {
                proof {
                    lemma_entry(self.tenant_retention@, i as int);
                }
                self.tenant_retention[i].1
            },
            None => (0, 0),
        }
    }

    /// Record `summary` as `child`'s row under `parent`.
    fn link_child(&mut self, parent: &str, child: &str, summary: SessionSummary)
        requires
            old(self).wf(),
            summary.session_id@ == child@,
        ensures
            final(self).wf(),
            final(self).sessions == old(self).sessions,
            final(self).tenant_storage == old(self).tenant_storage,
            final(self).tenant_retention == old(self).tenant_retention,
            final(self).sandboxes == old(self).sandboxes,
            final(self).deletions == old(self).deletions,
            linked(old(self).child_links@, final(self).child_links@, parent@, child@, summary),
    {
        let ghost before = self.child_links@;
        let mut rows: Vec<(String, SessionSummary)> = match find(&self.child_links, parent) {
            Some(i) => {
                proof {
                    lemma_entry(self.child_links@, i as int);
                }
                let (_, rows) = self.child_links.remove(i);
                proof {
                    lemma_remove(before, i as int);
                    assert(unique_keys(rows@));
                }
                rows
            },
            None => {
                assert(as_map(self.child_links@) =~= as_map(self.child_links@).remove(parent@));
                Vec::new()
            },
        };
        let ghost old_rows = as_map(rows@);
        assert(old_rows == (if as_map(before).contains_key(parent@) { as_map(as_map(before)[parent@]@) } else { Map::empty() })) by {
            if !as_map(before).contains_key(parent@) {
                assert(old_rows =~= Map::empty());
            }
        }
        upsert(&mut rows, child.to_owned(), summary);
        let ghost mid = self.child_links@;
        assert(as_map(mid) == as_map(before).remove(parent@));
        assert(!as_map(mid).contains_key(parent@));
        assert(!keyed(mid, parent@));
        let key = parent.to_owned();
        proof {
            lemma_push(mid, key, rows);
        }
        self.child_links.push((key, rows));
        proof {
            assert(as_map(self.child_links@).remove(parent@) =~= as_map(before).remove(parent@));
            assert forall|j: int| 0 <= j < self.child_links@.len() implies unique_keys((#[trigger] self.child_links@[j]).1@) by {
                if j < mid.len() {
                    assert(self.child_links@[j] == mid[j]);
                }
            }
        }
    }
}

/// Whether `child` extends `parent_path` by `parent`.
fn extends_path_exec(parent_path: &Vec<String>, parent: &str, child: &Vec<String>) -> (r: bool)
    ensures
        r == extends_path(parent_path@, parent@, child@),
{
    if child.len() == 0 || child.len() - 1 != parent_path.len() {
        return false;
    }
    let mut i: usize = 0;
    while i < parent_path.len()
        invariant
            i <= parent_path@.len(),
            child@.len() == parent_path@.len() + 1,
            forall|j: int| 0 <= j < i ==> (#[trigger] child@[j])@ == parent_path@[j]@,
        decreases parent_path.len() - i,
    {
        if !str_eq(child[i].as_str(), parent_path[i].as_str()) {
            return false;
        }
        i = i + 1;
    }
    str_eq(child[parent_path.len()].as_str(), parent)
}

/// The listing row kept for `child` under `parent`.
pub open spec fn child_row(store: MemoryStore, parent: Seq<char>, child: Seq<char>) -> SessionSummary {
    as_map(as_map(store.child_links@)[parent]@)[child]
}

/// What admitting `session_id` leaves in the store.
pub open spec fn created(
    before: MemoryStore,
    after: MemoryStore,
    session_id: Seq<char>,
    doc: HeadDoc,
    first: Record,
    now_ms: u64,
    retention: JournalRetention,
) -> bool {
    let n = after.session_map()[session_id];
    let used = meter(before.tenant_storage@, doc.tenant_id@);
    let journal = retention_meter(before.tenant_retention@, doc.tenant_id@);
    let counted = match doc.parent_id {
        None => before.session_map(),
        Some(parent) => with_child_counted(before.session_map(), parent@, doc.root_id@),
    };
    &&& after.session_map().contains_key(session_id)
    &&& after.session_map() == counted.insert(session_id, n)
    &&& n.doc.copy_of(&doc)
    &&& n.retention == retention
    &&& n.direct_children == 0 && n.descendants == 0 && n.live_sandboxes == 0
    &&& n.fence == 0 && n.last_seq == 1 && n.owner is None && n.lease_expires_ms == 0
    &&& n.records@.len() == 1 && n.records@[0].0 == 1 && n.records@[0].1 == now_ms && n.records@[0].2.copy_of(&first)
    &&& as_map(after.tenant_storage@) == as_map(before.tenant_storage@).insert(
        doc.tenant_id@,
        (used + doc.tenant_metered_storage_bytes) as u64,
    )
    &&& as_map(after.tenant_retention@) == as_map(before.tenant_retention@).insert(
        doc.tenant_id@,
        ((journal.0 + retention.metered_bytes) as u64, (journal.1 + 1) as u64),
    )
    &&& match doc.parent_id {
        None => after.child_links == before.child_links,
        Some(parent) => linked(before.child_links@, after.child_links@, parent@, session_id, child_row(after, parent@, session_id))
            && child_row(after, parent@, session_id).copy_of(&summary_of(child_row(after, parent@, session_id).session_id, doc)),
    }
    &&& after.sandboxes == before.sandboxes
    &&& after.deletions == before.deletions
}

impl MemoryStore {
    /// Admit a new session with its genesis record at sequence 1. A child is admitted only
    /// under an open parent and root of the same rooted scope, within the root's depth,
    /// fan-out and descendant ceilings; tenant storage, journal bytes and retained identities
    /// are metered in the same step. `config_bytes` and `sizes` are the canonical sizes of
    /// the CONFIG, HEAD, listing and genesis record.
    pub fn create(
        &mut self,
        session_id: &str,
        doc: &HeadDoc,
        first: &Record,
        now_ms: u64,
        tenant_storage_limit: u64,
        retention: JournalRetention,
        retention_limits: JournalRetentionLimits,
        config_bytes: u64,
        sizes: &DecisionSizes,
    ) -> (r: Result<(), BrainError>)
        requires
            old(self).wf(),
            sizes.record_bytes@.len() == 1,
        ensures
            final(self).wf(),
            match create_verdict(*old(self), session_id@, *doc, tenant_storage_limit, retention, retention_limits, config_bytes, *sizes) {
                CreateVerdict::Admit => r is Ok && created(*old(self), *final(self), session_id@, *doc, *first, now_ms, retention),
                CreateVerdict::Refuse(e) => r == Err::<(), BrainError>(e) && *final(self) == *old(self),
                CreateVerdict::MissingParent => (r matches Err(BrainError::NoSuchSession(id)) && id@ == doc.parent_id->0@)
                    && *final(self) == *old(self),
                CreateVerdict::MissingAncestor(k) => (r matches Err(BrainError::NoSuchSession(id)) && id@ == doc.ancestor_ids@[k as int]@)
                    && *final(self) == *old(self),
                CreateVerdict::MissingRoot => (r matches Err(BrainError::NoSuchSession(id)) && id@ == doc.root_id@)
                    && *final(self) == *old(self),
            },
    {
        match validate_ancestor_path(doc) {
            Ok(()) => {},
            Err(e) => return Err(e),
        }
        match validate_config_doc(config_bytes) {
            Ok(()) => {},
            Err(e) => return Err(e),
        }
        let mut genesis: Vec<(u64, Record)> = Vec::new();
        genesis.push((1, first.duplicate()));
        match validate_decision(genesis.as_slice(), sizes) {
            Ok(()) => {},
            Err(e) => return Err(e),
        }
        match initial_retention(sizes.record_bytes[0], retention_limits.session_bytes) {
            Ok(expected) => {
                if expected != retention {
                    return Err(BrainError::Journal(Fault::RetentionProjectionMismatch));
                }
            },
            Err(e) => return Err(e),
        }
        if doc.session_storage_bytes != 0 || doc.storage_reserved_bytes != 0 {
            return Err(BrainError::Invalid(Fault::NewSessionHasStorage));
        }
        if doc.parent_id.is_some() && doc.tenant_metered_storage_bytes != 0 {
            return Err(BrainError::Invalid(Fault::ChildReservesBundleStorage));
        }
        if find(&self.sessions, session_id).is_some() {
            return Err(BrainError::Invalid(Fault::SessionAlreadyExists));
        }
        let used = meter_value(&self.tenant_storage, doc.tenant_id.as_str());
        if used > u64::MAX - doc.tenant_metered_storage_bytes {
            return Err(BrainError::Journal(Fault::TenantStorageMeterOverflowed));
        }
        let next_tenant_storage = used + doc.tenant_metered_storage_bytes;
        if next_tenant_storage > tenant_storage_limit {
            return Err(BrainError::TenantStorageQuotaExceeded {
                requested: doc.tenant_metered_storage_bytes,
                limit: tenant_storage_limit,
            });
        }
        let (used_journal_bytes, retained_sessions) = self.retention_meter_value(doc.tenant_id.as_str());
        if used_journal_bytes > u64::MAX - retention.metered_bytes {
            return Err(BrainError::Journal(Fault::TenantJournalMeterOverflowed));
        }
        let next_journal_bytes = used_journal_bytes + retention.metered_bytes;
        if next_journal_bytes > retention_limits.tenant_bytes {
            return Err(BrainError::TenantJournalQuotaExceeded {
                requested: retention.metered_bytes,
                limit: retention_limits.tenant_bytes,
            });
        }
        if retained_sessions == u64::MAX {
            return Err(BrainError::Journal(Fault::TenantSessionMeterOverflowed));
        }
        let next_retained_sessions = retained_sessions + 1;
        if next_retained_sessions > retention_limits.tenant_sessions {
            return Err(BrainError::TenantRetainedSessionQuotaExceeded { limit: retention_limits.tenant_sessions });
        }
        if let Some(parent_id) = &doc.parent_id {
            match self.admit_child(parent_id.as_str(), doc) {
                Ok(()) => {},
                Err(e) => return Err(e),
            }
        }
        let ghost counted = *self;
        let mut records: Vec<(u64, u64, Record)> = Vec::new();
        records.push((1, now_ms, first.duplicate()));
        let session = MemSession {
            doc: doc.duplicate(),
            retention,
            direct_children: 0,
            descendants: 0,
            live_sandboxes: 0,
            fence: 0,
            last_seq: 1,
            owner: None,
            lease_expires_ms: 0,
            records,
        };
        let key = session_id.to_owned();
        proof {
            assert(!as_map(self.sessions@).contains_key(session_id@));
            lemma_push(self.sessions@, key, session);
        }
        self.sessions.push((key, session));
        proof {
            assert forall|j: int| 0 <= j < self.sessions@.len() implies records_sorted((#[trigger] self.sessions@[j]).1.records@) by {
                if j < counted.sessions@.len() {
                    assert(self.sessions@[j] == counted.sessions@[j]);
                }
            }
            lemma_push(counted.sessions@, key, session);
            assert(self.session_map()[session_id@] == session);
        }
        upsert(&mut self.tenant_storage, doc.tenant_id.clone(), next_tenant_storage);
        upsert(&mut self.tenant_retention, doc.tenant_id.clone(), (next_journal_bytes, next_retained_sessions));
        if let Some(parent_id) = &doc.parent_id {
            let summary = SessionSummary::from_head(session_id, doc);
            self.link_child(parent_id.as_str(), session_id, summary);
        }
        Ok(())
    }

    /// Check a child of `parent_id` against its parent, every ancestor and its root, and count
    /// it under them when admitted.
    fn admit_child(&mut self, parent_id: &str, doc: &HeadDoc) -> (r: Result<(), BrainError>)
        requires
            old(self).wf(),
        ensures
            final(self).wf(),
            final(self).same_tables_but_sessions(old(self)),
            match child_verdict(old(self).session_map(), *doc, parent_id@) {
                CreateVerdict::Admit => r is Ok && final(self).session_map() == with_child_counted(
                    old(self).session_map(),
                    parent_id@,
                    doc.root_id@,
                ),
                CreateVerdict::Refuse(e) => r == Err::<(), BrainError>(e) && *final(self) == *old(self),
                CreateVerdict::MissingParent => (r matches Err(BrainError::NoSuchSession(id)) && id@ == parent_id@)
                    && *final(self) == *old(self),
                CreateVerdict::MissingAncestor(k) => (r matches Err(BrainError::NoSuchSession(id)) && id@ == doc.ancestor_ids@[k as int]@)
                    && *final(self) == *old(self),
                CreateVerdict::MissingRoot => (r matches Err(BrainError::NoSuchSession(id)) && id@ == doc.root_id@)
                    && *final(self) == *old(self),
            },
    {
        let ghost m = self.session_map();
        let pi = match find(&self.sessions, parent_id) {
            None => return Err(BrainError::NoSuchSession(parent_id.to_owned())),
            Some(pi) => pi,
        };
        proof {
            lemma_entry(self.sessions@, pi as int);
        }
        if !extends_path_exec(&self.sessions[pi].1.doc.ancestor_ids, parent_id, &doc.ancestor_ids) {
            return Err(BrainError::Invalid(Fault::ChildAncestorPathMismatch));
        }
        let mut k: usize = 0;
        while k < doc.ancestor_ids.len()
            invariant
                self.wf(),
                *self == *old(self),
                m == self.session_map(),
                m.contains_key(parent_id@),
                extends_path(m[parent_id@].doc.ancestor_ids@, parent_id@, doc.ancestor_ids@),
                k <= doc.ancestor_ids@.len(),
                first_ancestor_fault(m, doc.ancestor_ids@, doc.root_id@, 0) == first_ancestor_fault(
                    m,
                    doc.ancestor_ids@,
                    doc.root_id@,
                    k as int,
                ),
            decreases doc.ancestor_ids.len() - k,
        {
            match find(&self.sessions, doc.ancestor_ids[k].as_str()) {
                None => return Err(BrainError::NoSuchSession(doc.ancestor_ids[k].clone())),
                Some(ai) => {
                    proof {
                        lemma_entry(self.sessions@, ai as int);
                    }
                    let a = &self.sessions[ai].1;
                    if !str_eq(a.doc.root_id.as_str(), doc.root_id.as_str()) || !child_admission_open(&a.doc) {
                        return Err(BrainError::Invalid(Fault::ChildAdmissionClosedByAncestor));
                    }
                },
            }
            k = k + 1;
        }
        let ri = match find(&self.sessions, doc.root_id.as_str()) {
            None => return Err(BrainError::NoSuchSession(doc.root_id.clone())),
            Some(ri) => ri,
        };
        proof {
            lemma_entry(self.sessions@, ri as int);
        }
        let p = &self.sessions[pi].1;
        let root = &self.sessions[ri].1;
        if !child_admission_open(&p.doc) || !child_admission_open(&root.doc) || !str_eq(
            p.doc.root_id.as_str(),
            doc.root_id.as_str(),
        ) || doc.depth != p.doc.depth.saturating_add(1) || p.doc.depth >= root.doc.prefix.max_child_depth {
            return Err(BrainError::Invalid(Fault::ChildAdmissionClosed));
        }
        if p.direct_children >= root.doc.prefix.max_direct_children || root.descendants
            >= root.doc.prefix.max_descendants {
            return Err(BrainError::Overloaded);
        }
        if pi == ri {
            let (key, mut s) = self.sessions.remove(pi);
            s.direct_children = s.direct_children.saturating_add(1);
            s.descendants = s.descendants.saturating_add(1);
            self.sessions.insert(pi, (key, s));
            proof {
                assert(self.sessions@ =~= old(self).sessions@.update(pi as int, (key, s)));
                lemma_update(old(self).sessions@, pi as int, key, s);
                assert forall|j: int| 0 <= j < self.sessions@.len() implies records_sorted((#[trigger] self.sessions@[j]).1.records@) by {
                    if j != pi {
                        assert(self.sessions@[j] == old(self).sessions@[j]);
                    }
                }
            }
        } else {
            let ghost s0 = self.sessions@;
            let (pkey, mut ps) = self.sessions.remove(pi);
            ps.direct_children = ps.direct_children.saturating_add(1);
            self.sessions.insert(pi, (pkey, ps));
            proof {
                assert(self.sessions@ =~= s0.update(pi as int, (pkey, ps)));
                lemma_update(s0, pi as int, pkey, ps);
            }
            let ghost s1 = self.sessions@;
            let (rkey, mut rs) = self.sessions.remove(ri);
            proof {
                assert(rs == s0[ri as int].1);
            }
            rs.descendants = rs.descendants.saturating_add(1);
            self.sessions.insert(ri, (rkey, rs));
            proof {
                assert(self.sessions@ =~= s1.update(ri as int, (rkey, rs)));
                lemma_update(s1, ri as int, rkey, rs);
                assert forall|j: int| 0 <= j < self.sessions@.len() implies records_sorted((#[trigger] self.sessions@[j]).1.records@) by {
                    if j != pi && j != ri {
                        assert(self.sessions@[j] == s0[j]);
                    }
                }
            }
        }
        Ok(())
    }
}

/// Whether some record carries sequence `seq`.
pub open spec fn has_seq(records: Seq<(u64, u64, Record)>, seq: u64) -> bool {
    exists|i: int| 0 <= i < records.len() && (#[trigger] records[i]).0 == seq
}

/// The records by sequence: `(recorded_at_ms, record)`.
pub open spec fn record_map(records: Seq<(u64, u64, Record)>) -> Map<u64, (u64, Record)> {
    Map::new(
        |seq: u64| has_seq(records, seq),
        |seq: u64| {
            let i = choose|i: int| 0 <= i < records.len() && (#[trigger] records[i]).0 == seq;
            (records[i].1, records[i].2)
        },
    )
}

/// In sorted records, the entry at `i` is what the map holds under its sequence.
proof fn lemma_record_entry(records: Seq<(u64, u64, Record)>, i: int)
    requires
        records_sorted(records),
        0 <= i < records.len(),
    ensures
        record_map(records).contains_key(records[i].0),
        record_map(records)[records[i].0] == (records[i].1, records[i].2),
{
    assert(has_seq(records, records[i].0));
    let j = choose|j: int| 0 <= j < records.len() && (#[trigger] records[j]).0 == records[i].0;
    if j < i {
        assert(records[j].0 < records[i].0);
    } else if i < j {
        assert(records[i].0 < records[j].0);
    }
}

/// Keep `record` at `seq`, replacing a record already there, in sequence order.
fn insert_record(records: &mut Vec<(u64, u64, Record)>, seq: u64, recorded_at_ms: u64, record: Record)
    requires
        records_sorted(old(records)@),
    ensures
        records_sorted(final(records)@),
        record_map(final(records)@) == record_map(old(records)@).insert(seq, (recorded_at_ms, record)),
{
    let mut i: usize = 0;
    while i < records.len() && records[i].0 < seq
        invariant
            i <= records@.len(),
            forall|j: int| 0 <= j < i ==> (#[trigger] records@[j]).0 < seq,
        decreases records.len() - i,
    {
        i = i + 1;
    }
    let ghost before = records@;
    let entry = (seq, recorded_at_ms, record);
    if i < records.len() && records[i].0 == seq {
        records.set(i, entry);
        proof {
            let after = records@;
            assert(after == before.update(i as int, entry));
            assert forall|a: int, b: int| 0 <= a < b < after.len() implies (#[trigger] after[a]).0 < (#[trigger] after[b]).0 by {
                assert(before[a].0 < before[b].0 || a == i || b == i);
                if a == i {
                    assert(before[i as int].0 < before[b].0);
                }
                if b == i {
                    assert(before[a].0 < before[i as int].0);
                }
            }
            lemma_record_map_update(before, i as int, entry);
        }
    } else {
        records.insert(i, entry);
        proof {
            let after = records@;
            assert(after == before.insert(i as int, entry));
            assert forall|a: int, b: int| 0 <= a < b < after.len() implies (#[trigger] after[a]).0 < (#[trigger] after[b]).0 by {
                if b < i {
                    assert(after[a] == before[a] && after[b] == before[b]);
                } else if b == i {
                    assert(after[a] == before[a]);
                } else if a < i {
                    assert(after[a] == before[a] && after[b] == before[b - 1]);
                    if i < before.len() {
                        assert(before[i as int].0 > seq);
                        assert(before[i as int].0 <= before[b - 1].0 || b - 1 == i);
                    }
                } else if a == i {
                    assert(after[b] == before[b - 1]);
                    assert(before[i as int].0 > seq);
                    assert(before[i as int].0 <= before[b - 1].0 || b - 1 == i);
                } else {
                    assert(after[a] == before[a - 1] && after[b] == before[b - 1]);
                }
            }
            lemma_record_map_insert(before, i as int, entry);
        }
    }
}

proof fn lemma_record_map_update(before: Seq<(u64, u64, Record)>, i: int, entry: (u64, u64, Record))
    requires
        records_sorted(before),
        records_sorted(before.update(i, entry)),
        0 <= i < before.len(),
        before[i as int].0 == entry.0,
    ensures
        record_map(before.update(i, entry)) == record_map(before).insert(entry.0, (entry.1, entry.2)),
{
    let after = before.update(i, entry);
    assert forall|k: u64| #[trigger] has_seq(after, k) <==> has_seq(before, k) by {
        if has_seq(after, k) {
            let j = choose|j: int| 0 <= j < after.len() && (#[trigger] after[j]).0 == k;
            assert(before[j].0 == k);
        }
        if has_seq(before, k) {
            let j = choose|j: int| 0 <= j < before.len() && (#[trigger] before[j]).0 == k;
            assert(after[j].0 == k);
        }
    }
    assert forall|k: u64| has_seq(after, k) implies #[trigger] record_map(after)[k] == record_map(before).insert(entry.0, (entry.1, entry.2))[k] by {
        let j = choose|j: int| 0 <= j < after.len() && (#[trigger] after[j]).0 == k;
        lemma_record_entry(after, j);
        if j != i {
            lemma_record_entry(before, j);
        }
    }
    assert(record_map(after) =~= record_map(before).insert(entry.0, (entry.1, entry.2)));
}

proof fn lemma_record_map_insert(before: Seq<(u64, u64, Record)>, i: int, entry: (u64, u64, Record))
    requires
        records_sorted(before),
        records_sorted(before.insert(i, entry)),
        0 <= i <= before.len(),
    ensures
        record_map(before.insert(i, entry)) == record_map(before).insert(entry.0, (entry.1, entry.2)),
{
    let after = before.insert(i, entry);
    assert forall|k: u64| #[trigger] has_seq(after, k) <==> has_seq(before, k) || k == entry.0 by {
        if has_seq(after, k) {
            let j = choose|j: int| 0 <= j < after.len() && (#[trigger] after[j]).0 == k;
            if j < i {
                assert(before[j].0 == k);
            } else if j > i {
                assert(before[j - 1].0 == k);
            }
        }
        if has_seq(before, k) {
            let j = choose|j: int| 0 <= j < before.len() && (#[trigger] before[j]).0 == k;
            if j < i {
                assert(after[j].0 == k);
            } else {
                assert(after[j + 1].0 == k);
            }
        }
        if k == entry.0 {
            assert(after[i].0 == k);
        }
    }
    assert forall|k: u64| has_seq(after, k) implies #[trigger] record_map(after)[k] == record_map(before).insert(entry.0, (entry.1, entry.2))[k] by {
        let j = choose|j: int| 0 <= j < after.len() && (#[trigger] after[j]).0 == k;
        lemma_record_entry(after, j);
        lemma_record_entry(after, i);
        if j < i {
            assert(after[j] == before[j]);
            assert(after[j].0 < after[i].0);
            lemma_record_entry(before, j);
        } else if j > i {
            assert(after[j] == before[j - 1]);
            assert(after[i].0 < after[j].0);
            lemma_record_entry(before, j - 1);
        }
    }
    assert(record_map(after) =~= record_map(before).insert(entry.0, (entry.1, entry.2)));
}

/// The tenant storage meter after a signed change, or why the change is refused.
pub open spec fn storage_step(used: u64, delta: i64, limit: u64) -> Result<u64, BrainError> {
    if delta >= 0 {
        if used + delta > u64::MAX {
            Err(BrainError::Journal(Fault::TenantStorageMeterOverflowed))
        } else if used + delta > limit {
            Err(BrainError::TenantStorageQuotaExceeded { requested: delta as u64, limit })
        } else {
            Ok((used + delta) as u64)
        }
    } else if used + delta < 0 {
        Err(BrainError::Journal(Fault::TenantStorageMeterNegative))
    } else {
        Ok((used + delta) as u64)
    }
}

/// The tenant journal meter after a signed change, or why the change is refused.
pub open spec fn journal_step(used: u64, delta: i64, limit: u64) -> Result<u64, BrainError> {
    if delta >= 0 {
        if used + delta > u64::MAX {
            Err(BrainError::Journal(Fault::TenantJournalMeterOverflowed))
        } else if used + delta > limit {
            Err(BrainError::TenantJournalQuotaExceeded { requested: delta as u64, limit })
        } else {
            Ok((used + delta) as u64)
        }
    } else if used + delta < 0 {
        Err(BrainError::Journal(Fault::TenantJournalMeterNegative))
    } else {
        Ok((used + delta) as u64)
    }
}

/// Apply a signed change to a tenant meter.
fn meter_step(used: u64, delta: i64, limit: u64, storage: bool) -> (r: Result<u64, BrainError>)
    ensures
        r == (if storage { storage_step(used, delta, limit) } else { journal_step(used, delta, limit) }),
{
    if delta >= 0 {
        let requested = delta as u64;
        if used > u64::MAX - requested {
            return Err(BrainError::Journal(
                if storage { Fault::TenantStorageMeterOverflowed } else { Fault::TenantJournalMeterOverflowed },
            ));
        }
        let next = used + requested;
        if next > limit {
            return Err(
                if storage {
                    BrainError::TenantStorageQuotaExceeded { requested, limit }
                } else {
                    BrainError::TenantJournalQuotaExceeded { requested, limit }
                },
            );
        }
        Ok(next)
    } else {
        let released: u64 = if delta == i64::MIN { 0x8000_0000_0000_0000u64 } else { (-delta) as u64 };
        if used < released {
            return Err(BrainError::Journal(
                if storage { Fault::TenantStorageMeterNegative } else { Fault::TenantJournalMeterNegative },
            ));
        }
        Ok(used - released)
    }
}

/// Whether a decision's records include a turn start.
pub open spec fn starts_turn(records: Seq<(u64, Record)>) -> bool {
    exists|i: int| 0 <= i < records.len() && (#[trigger] records[i]).1 is TurnStarted
}

/// Whether a record of the decision reuses a sequence the session already holds.
pub open spec fn reuses_sequence(existing: Seq<(u64, u64, Record)>, records: Seq<(u64, Record)>) -> bool {
    exists|i: int| 0 <= i < records.len() && has_seq(existing, (#[trigger] records[i]).0)
}

/// What committing a decision decides, in the order the checks are made.
pub enum CommitVerdict {
    Commit,
    Refuse(BrainError),
    MissingAncestor(usize),
    MissingSession,
}

/// The verdict on committing `records` with HEAD `doc` under lease `(owner, fence)`.
pub open spec fn commit_verdict(
    store: MemoryStore,
    session_id: Seq<char>,
    owner: Seq<char>,
    fence: u64,
    records: Seq<(u64, Record)>,
    doc: HeadDoc,
    tenant_storage_delta: i64,
    tenant_storage_limit: u64,
    retention: JournalRetention,
    tenant_retention_delta: i64,
    limits: JournalRetentionLimits,
    sizes: DecisionSizes,
) -> CommitVerdict {
    let m = store.session_map();
    if decision_fault(records.len() as int, sizes.control_bytes, sizes.listing_bytes, sizes.record_bytes@) is Some {
        CommitVerdict::Refuse(BrainError::Invalid(decision_fault(records.len() as int, sizes.control_bytes, sizes.listing_bytes, sizes.record_bytes@)->0))
    } else if starts_turn(records) && first_ancestor_fault(m, doc.ancestor_ids@, doc.root_id@, 0) is Some {
        let (k, missing) = first_ancestor_fault(m, doc.ancestor_ids@, doc.root_id@, 0)->0;
        if missing { CommitVerdict::MissingAncestor(k as usize) } else { CommitVerdict::Refuse(BrainError::Fenced) }
    } else if !m.contains_key(session_id) {
        CommitVerdict::MissingSession
    } else if !holds(m[session_id], owner, fence) || reuses_sequence(m[session_id].records@, records) {
        CommitVerdict::Refuse(BrainError::Fenced)
    } else {
        let current = m[session_id].retention;
        let delta = retention.metered_bytes - current.metered_bytes;
        match project_retention_spec(current, records, sizes.record_bytes@, limits.session_bytes) {
            Err(e) => CommitVerdict::Refuse(e),
            Ok(expected) => if retention != expected {
                CommitVerdict::Refuse(BrainError::Journal(Fault::RetentionProjectionMismatch))
            } else if !(i64::MIN <= delta <= i64::MAX) {
                CommitVerdict::Refuse(BrainError::Journal(Fault::RetentionDeltaOutOfRange))
            } else if tenant_retention_delta != delta {
                CommitVerdict::Refuse(BrainError::Journal(Fault::RetentionProjectionMismatch))
            } else {
                match storage_step(meter(store.tenant_storage@, doc.tenant_id@), tenant_storage_delta, tenant_storage_limit) {
                    Err(e) => CommitVerdict::Refuse(e),
                    Ok(_) => match journal_step(retention_meter(store.tenant_retention@, doc.tenant_id@).0, tenant_retention_delta, limits.tenant_bytes) {
                        Err(e) => CommitVerdict::Refuse(e),
                        Ok(_) => CommitVerdict::Commit,
                    },
                }
            },
        }
    }
}

/// Whether `i` is the last position of `records` carrying its sequence.
pub open spec fn last_of_seq(records: Seq<(u64, Record)>, i: int) -> bool {
    forall|j: int| i < j < records.len() ==> (#[trigger] records[j]).0 != records[i].0
}

/// The record table after a decision's records are written at `recorded_at_ms`: their
/// sequences join the table, each holding a copy of the last record written under it, and
/// every other entry stays as it was.
pub open spec fn records_committed(
    before: Map<u64, (u64, Record)>,
    after: Map<u64, (u64, Record)>,
    records: Seq<(u64, Record)>,
    recorded_at_ms: u64,
) -> bool {
    &&& forall|k: u64| #[trigger] after.contains_key(k) <==> before.contains_key(k) || exists|i: int|
        0 <= i < records.len() && (#[trigger] records[i]).0 == k
    &&& forall|k: u64| #[trigger] before.contains_key(k) && !(exists|i: int| 0 <= i < records.len() && (#[trigger] records[i]).0 == k)
        ==> after[k] == before[k]
    &&& forall|i: int| 0 <= i < records.len() && last_of_seq(records, i) ==> after[(#[trigger] records[i]).0].0 == recorded_at_ms
        && after[records[i].0].1.copy_of(&records[i].1)
}

/// What committing a decision leaves in the store.
pub open spec fn committed(
    before: MemoryStore,
    after: MemoryStore,
    session_id: Seq<char>,
    records: Seq<(u64, Record)>,
    doc: HeadDoc,
    high_water: u64,
    now_ms: u64,
    tenant_storage_delta: i64,
    retention: JournalRetention,
    tenant_retention_delta: i64,
) -> bool {
    let s = before.session_map()[session_id];
    let n = after.session_map()[session_id];
    let journal = retention_meter(before.tenant_retention@, doc.tenant_id@);
    &&& after.session_map().contains_key(session_id)
    &&& after.session_map() == before.session_map().insert(session_id, n)
    &&& n == MemSession {
        doc: n.doc,
        retention,
        last_seq: high_water,
        lease_expires_ms: (now_ms + LEASE_MS) as u64,
        records: n.records,
        ..s
    }
    &&& n.doc.copy_of(&doc)
    &&& records_committed(record_map(s.records@), record_map(n.records@), records, now_ms)
    &&& as_map(after.tenant_storage@) == as_map(before.tenant_storage@).insert(
        doc.tenant_id@,
        (meter(before.tenant_storage@, doc.tenant_id@) + tenant_storage_delta) as u64,
    )
    &&& as_map(after.tenant_retention@) == as_map(before.tenant_retention@).insert(
        doc.tenant_id@,
        ((journal.0 + tenant_retention_delta) as u64, journal.1),
    )
    &&& match doc.parent_id {
        None => after.child_links == before.child_links,
        Some(parent) => linked(before.child_links@, after.child_links@, parent@, session_id, child_row(after, parent@, session_id))
            && child_row(after, parent@, session_id).copy_of(&summary_of(child_row(after, parent@, session_id).session_id, doc)),
    }
    &&& after.sandboxes == before.sandboxes
    &&& after.deletions == before.deletions
}

/// Whether some record of `records` carries a sequence `existing` already holds.
fn any_sequence_taken(existing: &Vec<(u64, u64, Record)>, records: &[(u64, Record)]) -> (r: bool)
    requires
        records_sorted(existing@),
    ensures
        r == reuses_sequence(existing@, records@),
{
    let mut i: usize = 0;
    while i < records.len()
        invariant
            i <= records@.len(),
            records_sorted(existing@),
            forall|a: int| 0 <= a < i ==> !has_seq(existing@, (#[trigger] records@[a]).0),
        decreases records.len() - i,
    {
        let seq = records[i].0;
        let mut j: usize = 0;
        while j < existing.len()
            invariant
                j <= existing@.len(),
                i < records@.len(),
                seq == records@[i as int].0,
                forall|b: int| 0 <= b < j ==> (#[trigger] existing@[b]).0 != seq,
            decreases existing.len() - j,
        {
            if existing[j].0 == seq {
                assert(has_seq(existing@, records@[i as int].0));
                return true;
            }
            j = j + 1;
        }
        i = i + 1;
    }
    false
}

/// Write a decision's records into a session's sorted record table.
fn write_records(table: &mut Vec<(u64, u64, Record)>, records: &[(u64, Record)], recorded_at_ms: u64)
    requires
        records_sorted(old(table)@),
    ensures
        records_sorted(final(table)@),
        records_committed(record_map(old(table)@), record_map(final(table)@), records@, recorded_at_ms),
{
    let ghost start = record_map(table@);
    let mut i: usize = 0;
    while i < records.len()
        invariant
            i <= records@.len(),
            records_sorted(table@),
            records_committed(start, record_map(table@), records@.take(i as int), recorded_at_ms),
        decreases records.len() - i,
    {
        let ghost prev = record_map(table@);
        insert_record(table, records[i].0, recorded_at_ms, records[i].1.duplicate());
        proof {
            let pre = records@.take(i as int);
            let nxt = records@.take(i as int + 1);
            let now = record_map(table@);
            assert(nxt == pre.push(records@[i as int]));
            assert forall|k: u64| #[trigger] now.contains_key(k) <==> start.contains_key(k) || exists|a: int|
                0 <= a < nxt.len() && (#[trigger] nxt[a]).0 == k by {
                assert(now.contains_key(k) == (prev.contains_key(k) || k == records@[i as int].0));
                if k == records@[i as int].0 {
                    assert(nxt[i as int].0 == k);
                }
                if exists|a: int| 0 <= a < pre.len() && (#[trigger] pre[a]).0 == k {
                    let a = choose|a: int| 0 <= a < pre.len() && (#[trigger] pre[a]).0 == k;
                    assert(nxt[a] == pre[a]);
                }
                if exists|a: int| 0 <= a < nxt.len() && (#[trigger] nxt[a]).0 == k {
                    let a = choose|a: int| 0 <= a < nxt.len() && (#[trigger] nxt[a]).0 == k;
                    if a < pre.len() {
                        assert(nxt[a] == pre[a]);
                    }
                }
            }
            assert forall|k: u64| #[trigger] start.contains_key(k) && !(exists|a: int| 0 <= a < nxt.len() && (#[trigger] nxt[a]).0 == k)
                implies now[k] == start[k] by {
                assert(!(exists|a: int| 0 <= a < pre.len() && (#[trigger] pre[a]).0 == k)) by {
                    if exists|a: int| 0 <= a < pre.len() && (#[trigger] pre[a]).0 == k {
                        let a = choose|a: int| 0 <= a < pre.len() && (#[trigger] pre[a]).0 == k;
                        assert(nxt[a] == pre[a]);
                    }
                }
                assert(nxt[i as int].0 != k);
            }
            assert forall|a: int| 0 <= a < nxt.len() && last_of_seq(nxt, a) implies now[(#[trigger] nxt[a]).0].0 == recorded_at_ms
                && now[nxt[a].0].1.copy_of(&nxt[a].1) by {
                if a < i {
                    assert(nxt[a] == pre[a]);
                    assert(nxt[i as int].0 != nxt[a].0);
                    assert(last_of_seq(pre, a)) by {
                        assert forall|j: int| a < j < pre.len() implies (#[trigger] pre[j]).0 != pre[a].0 by {
                            assert(nxt[j] == pre[j]);
                        }
                    }
                }
            }
        }
        i = i + 1;
    }
    proof {
        assert(records@.take(records@.len() as int) =~= records@);
    }
}

impl MemoryStore {
    /// Commit one decision under the caller's lease: the records, the new HEAD, the retention
    /// projection and both tenant meters change together or not at all. A decision that starts
    /// a turn also observes every ancestor fence; the lease is renewed without a fence bump.
    /// `sizes` are the canonical sizes of the HEAD, listing and records.
    pub fn commit(
        &mut self,
        session_id: &str,
        owner: &str,
        fence: u64,
        records: &[(u64, Record)],
        doc: &HeadDoc,
        high_water: u64,
        now_ms: u64,
        tenant_storage_delta: i64,
        tenant_storage_limit: u64,
        retention: JournalRetention,
        tenant_retention_delta: i64,
        retention_limits: JournalRetentionLimits,
        sizes: &DecisionSizes,
    ) -> (r: Result<(), BrainError>)
        requires
            old(self).wf(),
            sizes.record_bytes@.len() == records@.len(),
            now_ms <= u64::MAX - LEASE_MS,
        ensures
            final(self).wf(),
            match commit_verdict(
                *old(self),
                session_id@,
                owner@,
                fence,
                records@,
                *doc,
                tenant_storage_delta,
                tenant_storage_limit,
                retention,
                tenant_retention_delta,
                retention_limits,
                *sizes,
            ) {
                CommitVerdict::Commit => r is Ok && committed(
                    *old(self),
                    *final(self),
                    session_id@,
                    records@,
                    *doc,
                    high_water,
                    now_ms,
                    tenant_storage_delta,
                    retention,
                    tenant_retention_delta,
                ),
                CommitVerdict::Refuse(e) => r == Err::<(), BrainError>(e) && *final(self) == *old(self),
                CommitVerdict::MissingAncestor(k) => (r matches Err(BrainError::NoSuchSession(id)) && id@
                    == doc.ancestor_ids@[k as int]@) && *final(self) == *old(self),
                CommitVerdict::MissingSession => (r matches Err(BrainError::NoSuchSession(id)) && id@ == session_id@)
                    && *final(self) == *old(self),
            },
    {
        match validate_decision(records, sizes) {
            Ok(()) => {},
            Err(e) => return Err(e),
        }
        let ghost m = self.session_map();
        if requires_ancestor_admission(records) {
            let mut k: usize = 0;
            while k < doc.ancestor_ids.len()
                invariant
                    self.wf(),
                    *self == *old(self),
                    m == self.session_map(),
                    k <= doc.ancestor_ids@.len(),
                    starts_turn(records@),
                    sizes.record_bytes@.len() == records@.len(),
                    decision_fault(records@.len() as int, sizes.control_bytes, sizes.listing_bytes, sizes.record_bytes@) is None,
                    first_ancestor_fault(m, doc.ancestor_ids@, doc.root_id@, 0) == first_ancestor_fault(
                        m,
                        doc.ancestor_ids@,
                        doc.root_id@,
                        k as int,
                    ),
                decreases doc.ancestor_ids.len() - k,
            {
                match find(&self.sessions, doc.ancestor_ids[k].as_str()) {
                    None => return Err(BrainError::NoSuchSession(doc.ancestor_ids[k].clone())),
                    Some(ai) => {
                        proof {
                            lemma_entry(self.sessions@, ai as int);
                        }
                        let a = &self.sessions[ai].1;
                        if !str_eq(a.doc.root_id.as_str(), doc.root_id.as_str()) || !child_admission_open(&a.doc) {
                            return Err(BrainError::Fenced);
                        }
                    },
                }
                k = k + 1;
            }
        }
        let i = match find(&self.sessions, session_id) {
            None => return Err(BrainError::NoSuchSession(session_id.to_owned())),
            Some(i) => i,
        };
        proof {
            lemma_entry(self.sessions@, i as int);
        }
        let current = &self.sessions[i].1;
        let holder = match &current.owner {
            Some(o) => str_eq(o.as_str(), owner),
            None => false,
        };
        if current.fence != fence || !holder {
            return Err(BrainError::Fenced);
        }
        if any_sequence_taken(&current.records, records) {
            return Err(BrainError::Fenced);
        }
        let expected = match project_retention(
            current.retention,
            records,
            sizes.record_bytes.as_slice(),
            retention_limits.session_bytes,
        ) {
            Ok(expected) => expected,
            Err(e) => return Err(e),
        };
        if retention != expected {
            return Err(BrainError::Journal(Fault::RetentionProjectionMismatch));
        }
        let delta = match retention_delta(current.retention, retention) {
            Ok(delta) => delta,
            Err(e) => return Err(e),
        };
        if tenant_retention_delta != delta {
            return Err(BrainError::Journal(Fault::RetentionProjectionMismatch));
        }
        let used = meter_value(&self.tenant_storage, doc.tenant_id.as_str());
        let next_storage = match meter_step(used, tenant_storage_delta, tenant_storage_limit, true) {
            Ok(next) => next,
            Err(e) => return Err(e),
        };
        let journal = self.retention_meter_value(doc.tenant_id.as_str());
        let next_journal = match meter_step(journal.0, tenant_retention_delta, retention_limits.tenant_bytes, false) {
            Ok(next) => next,
            Err(e) => return Err(e),
        };
        let ghost before = *self;
        let (key, mut s) = self.sessions.remove(i);
        proof {
            assert(s == before.sessions@[i as int].1);
        }
        write_records(&mut s.records, records, now_ms);
        s.doc = doc.duplicate();
        s.retention = retention;
        s.last_seq = high_water;
        s.lease_expires_ms = now_ms + LEASE_MS;
        self.sessions.insert(i, (key, s));
        proof {
            assert(self.sessions@ =~= before.sessions@.update(i as int, (key, s)));
            lemma_update(before.sessions@, i as int, key, s);
            assert forall|j: int| 0 <= j < self.sessions@.len() implies records_sorted((#[trigger] self.sessions@[j]).1.records@) by {
                if j != i {
                    assert(self.sessions@[j] == before.sessions@[j]);
                }
            }
        }
        upsert(&mut self.tenant_storage, doc.tenant_id.clone(), next_storage);
        upsert(&mut self.tenant_retention, doc.tenant_id.clone(), (next_journal, journal.1));
        if let Some(parent_id) = &doc.parent_id {
            let summary = SessionSummary::from_head(session_id, doc);
            self.link_child(parent_id.as_str(), session_id, summary);
        }
        Ok(())
    }
}

/// Two decisions of one lifecycle `State` record each are charged alike.
proof fn lemma_state_class(sequence: u64, a: Record, b: Record)
    requires
        a matches Record::State { state, .. } && state == SessionLifecycle::Ending,
        b matches Record::State { state, .. } && state == SessionLifecycle::Ending,
    ensures
        class_of(seq![(sequence, a)]) == class_of(seq![(sequence, b)]),
{
    reveal_with_fuel(fold_class, 2);
    reveal_with_fuel(any_record, 2);
    let sa = seq![(sequence, a)];
    let sb = seq![(sequence, b)];
    assert(sa[0].1 == a && sb[0].1 == b);
    assert(step_class(empty_class(), a) == step_class(empty_class(), b));
}

/// The lifecycle record an END fence appends, for the fenced HEAD `doc`.
pub open spec fn end_record(doc: HeadDoc) -> Record {
    Record::State { state: SessionLifecycle::Ending, turn: doc.turn }
}

/// Why fencing session `s` at `now_ms` is refused, when it is not already fenced.
pub open spec fn end_fence_fault(
    s: MemSession,
    journal_used: u64,
    limits: JournalRetentionLimits,
    sizes: DecisionSizes,
    now_ms: u64,
) -> Option<BrainError> {
    let sequence = (s.last_seq + 1) as u64;
    let record = end_record(end_fenced_doc(s.doc, sequence, now_ms));
    if s.last_seq == u64::MAX {
        Some(BrainError::Journal(Fault::SequenceExhausted))
    } else if decision_fault(1, sizes.control_bytes, sizes.listing_bytes, sizes.record_bytes@) is Some {
        Some(BrainError::Invalid(decision_fault(1, sizes.control_bytes, sizes.listing_bytes, sizes.record_bytes@)->0))
    } else if s.fence == u64::MAX {
        Some(BrainError::Journal(Fault::FenceExhausted))
    } else {
        match project_retention_spec(s.retention, seq![(sequence, record)], sizes.record_bytes@, limits.session_bytes) {
            Err(e) => Some(e),
            Ok(next) => {
                let delta = next.metered_bytes - s.retention.metered_bytes;
                if !(i64::MIN <= delta <= i64::MAX) {
                    Some(BrainError::Journal(Fault::RetentionDeltaOutOfRange))
                } else {
                    match journal_step(journal_used, delta as i64, limits.tenant_bytes) {
                        Err(e) => Some(e),
                        Ok(_) => None,
                    }
                }
            },
        }
    }
}

/// What appending the END fence leaves in the store.
pub open spec fn end_fenced_store(
    before: MemoryStore,
    after: MemoryStore,
    session_id: Seq<char>,
    now_ms: u64,
    limits: JournalRetentionLimits,
    sizes: DecisionSizes,
) -> bool {
    let s = before.session_map()[session_id];
    let n = after.session_map()[session_id];
    let sequence = (s.last_seq + 1) as u64;
    let next = project_retention_spec(s.retention, seq![(sequence, end_record(end_fenced_doc(s.doc, sequence, now_ms)))], sizes.record_bytes@, limits.session_bytes)->Ok_0;
    let journal = retention_meter(before.tenant_retention@, s.doc.tenant_id@);
    let delta = next.metered_bytes - s.retention.metered_bytes;
    &&& after.session_map() == before.session_map().insert(session_id, n)
    &&& n == MemSession {
        doc: n.doc,
        retention: next,
        fence: (s.fence + 1) as u64,
        last_seq: sequence,
        owner: None,
        lease_expires_ms: 0,
        records: n.records,
        ..s
    }
    &&& n.doc.copy_of(&end_fenced_doc(s.doc, sequence, now_ms))
    &&& record_map(n.records@).contains_key(sequence)
    &&& record_map(n.records@) == record_map(s.records@).insert(sequence, record_map(n.records@)[sequence])
    &&& record_map(n.records@)[sequence].0 == now_ms
    &&& record_map(n.records@)[sequence].1 matches Record::State { state, turn }
    &&& state == SessionLifecycle::Ending && turn.copy_of(&n.doc.turn)
    &&& as_map(after.tenant_retention@) == as_map(before.tenant_retention@).insert(
        s.doc.tenant_id@,
        ((journal.0 + delta) as u64, journal.1),
    )
    &&& after.tenant_storage == before.tenant_storage
    &&& match s.doc.parent_id {
        None => after.child_links == before.child_links,
        Some(parent) => linked(before.child_links@, after.child_links@, parent@, session_id, child_row(after, parent@, session_id))
            && child_row(after, parent@, session_id).copy_of(&summary_of(child_row(after, parent@, session_id).session_id, n.doc)),
    }
    &&& after.sandboxes == before.sandboxes
    &&& after.deletions == before.deletions
}

impl MemoryStore {
    /// Close a session's subtree admission in one step: supersede any live owner, append the
    /// lifecycle `State` record and expose immediate recovery. A session already ending or
    /// gone is returned as it is, not fenced again. `sizes` are the canonical sizes of the END
    /// projection (`project_end_fence` on the stored HEAD at `now_ms`).
    pub fn fence_end(
        &mut self,
        session_id: &str,
        now_ms: u64,
        retention_limits: JournalRetentionLimits,
        sizes: &DecisionSizes,
    ) -> (r: Result<EndFence, BrainError>)
        requires
            old(self).wf(),
            sizes.record_bytes@.len() == 1,
        ensures
            final(self).wf(),
            !old(self).session_map().contains_key(session_id@) ==> (r matches Err(BrainError::NoSuchSession(id))
                && id@ == session_id@) && *final(self) == *old(self),
            old(self).session_map().contains_key(session_id@) ==> {
                let s = old(self).session_map()[session_id@];
                let used = retention_meter(old(self).tenant_retention@, s.doc.tenant_id@).0;
                if end_fenced(s.doc.state) {
                    &&& r matches Ok(f) && !f.newly_fenced && f.head.session_id@ == session_id@ && f.head.doc.copy_of(&s.doc)
                        && f.head.fence == s.fence && f.head.last_seq == s.last_seq && f.head.retention == s.retention
                    &&& *final(self) == *old(self)
                } else {
                    match end_fence_fault(s, used, retention_limits, *sizes, now_ms) {
                        Some(e) => r == Err::<EndFence, BrainError>(e) && *final(self) == *old(self),
                        None => {
                            let n = final(self).session_map()[session_id@];
                            &&& end_fenced_store(*old(self), *final(self), session_id@, now_ms, retention_limits, *sizes)
                            &&& r matches Ok(f) && f.newly_fenced && f.head.session_id@ == session_id@ && f.head.doc.copy_of(&n.doc)
                                && f.head.fence == n.fence && f.head.last_seq == n.last_seq && f.head.retention == n.retention
                        },
                    }
                }
            },
    {
        let i = match find(&self.sessions, session_id) {
            None => return Err(BrainError::NoSuchSession(session_id.to_owned())),
            Some(i) => i,
        };
        proof {
            lemma_entry(self.sessions@, i as int);
        }
        let current = &self.sessions[i].1;
        let head = Head {
            session_id: session_id.to_owned(),
            doc: current.doc.duplicate(),
            fence: current.fence,
            last_seq: current.last_seq,
            retention: current.retention,
        };
        let (doc, sequence, record) = match project_end_fence(&head, now_ms, sizes) {
            Err(e) => return Err(e),
            Ok(None) => {
                proof {
                    assert(end_fenced(current.doc.state)) by {
                        if !end_fenced(current.doc.state) {
                            assert(current.doc.state == head.doc.state);
                        }
                    }
                }
                return Ok(EndFence { head, newly_fenced: false });
            },
            Ok(Some(projection)) => projection,
        };
        if current.fence == u64::MAX {
            return Err(BrainError::Journal(Fault::FenceExhausted));
        }
        let next_fence = current.fence + 1;
        let mut decision: Vec<(u64, Record)> = Vec::new();
        decision.push((sequence, record));
        proof {
            lemma_state_class(sequence, decision@[0].1, end_record(end_fenced_doc(current.doc, sequence, now_ms)));
            assert(decision@ =~= seq![(sequence, decision@[0].1)]);
        }
        let next_retention = match project_retention(
            current.retention,
            decision.as_slice(),
            sizes.record_bytes.as_slice(),
            retention_limits.session_bytes,
        ) {
            Ok(next) => next,
            Err(e) => return Err(e),
        };
        let delta = match retention_delta(current.retention, next_retention) {
            Ok(delta) => delta,
            Err(e) => return Err(e),
        };
        let journal = self.retention_meter_value(doc.tenant_id.as_str());
        let next_journal = match meter_step(journal.0, delta, retention_limits.tenant_bytes, false) {
            Ok(next) => next,
            Err(e) => return Err(e),
        };
        let record = match decision.pop() {
            Some((_, record)) => record,
            None => return Err(BrainError::Journal(Fault::SequenceExhausted)),
        };
        let ghost before = *self;
        let (key, mut s) = self.sessions.remove(i);
        proof {
            assert(s == before.sessions@[i as int].1);
        }
        insert_record(&mut s.records, sequence, now_ms, record);
        s.doc = doc;
        s.fence = next_fence;
        s.last_seq = sequence;
        s.retention = next_retention;
        s.owner = None;
        s.lease_expires_ms = 0;
        let fenced = Head {
            session_id: session_id.to_owned(),
            doc: s.doc.duplicate(),
            fence: next_fence,
            last_seq: sequence,
            retention: next_retention,
        };
        let summary = match &s.doc.parent_id {
            Some(_) => Some(SessionSummary::from_head(session_id, &s.doc)),
            None => None,
        };
        let tenant = s.doc.tenant_id.clone();
        let parent = s.doc.parent_id.clone();
        self.sessions.insert(i, (key, s));
        proof {
            assert(self.sessions@ =~= before.sessions@.update(i as int, (key, s)));
            lemma_update(before.sessions@, i as int, key, s);
            assert forall|j: int| 0 <= j < self.sessions@.len() implies records_sorted((#[trigger] self.sessions@[j]).1.records@) by {
                if j != i {
                    assert(self.sessions@[j] == before.sessions@[j]);
                }
            }
            assert(record_map(s.records@) =~= record_map(s.records@).insert(sequence, record_map(s.records@)[sequence]));
        }
        upsert(&mut self.tenant_retention, tenant, (next_journal, journal.1));
        if let (Some(parent_id), Some(summary)) = (parent, summary) {
            self.link_child(parent_id.as_str(), session_id, summary);
        }
        Ok(EndFence { head: fenced, newly_fenced: true })
    }
}

/// `a - 1`, saturating at zero.
pub open spec fn dec32(a: u32) -> u32 {
    if a == 0 { 0 } else { (a - 1) as u32 }
}

/// The session table after a deleted child of `parent` under `root` is uncounted, where those
/// sessions remain.
pub open spec fn with_child_uncounted(m: Map<Seq<char>, MemSession>, parent: Option<String>, root: Seq<char>) -> Map<Seq<char>, MemSession> {
    match parent {
        None => m,
        Some(p) => if p@ == root {
            if m.contains_key(root) {
                m.insert(root, MemSession { direct_children: dec32(m[root].direct_children), descendants: dec32(m[root].descendants), ..m[root] })
            } else {
                m
            }
        } else {
            let m1 = if m.contains_key(p@) {
                m.insert(p@, MemSession { direct_children: dec32(m[p@].direct_children), ..m[p@] })
            } else {
                m
            };
            if m1.contains_key(root) {
                m1.insert(root, MemSession { descendants: dec32(m1[root].descendants), ..m1[root] })
            } else {
                m1
            }
        },
    }
}

/// Why final deletion under `status` is refused: its meter anchors disagree with HEAD, or a
/// meter would go negative, or the anchor it must release is gone.
pub open spec fn deletion_fault(store: MemoryStore, status: DeletionStatusDoc) -> Option<BrainError> {
    let m = store.session_map();
    let used = meter(store.tenant_storage@, status.tenant_id@);
    let journal = retention_meter(store.tenant_retention@, status.tenant_id@);
    if m.contains_key(status.session_id@) {
        let s = m[status.session_id@];
        if s.doc.tenant_id@ != status.tenant_id@ || s.doc.tenant_metered_storage_bytes != status.metered_storage_bytes
            || s.retention.metered_bytes != status.metered_journal_bytes {
            Some(BrainError::Journal(Fault::DeletionAnchorMismatch))
        } else if used < status.metered_storage_bytes {
            Some(BrainError::Journal(Fault::TenantStorageMeterNegative))
        } else if journal.0 < status.metered_journal_bytes {
            Some(BrainError::Journal(Fault::TenantJournalMeterNegative))
        } else if journal.1 < 1 {
            Some(BrainError::Journal(Fault::TenantSessionMeterNegative))
        } else {
            None
        }
    } else if status.metered_storage_bytes != 0 {
        Some(BrainError::Journal(Fault::DeletionLostStorageAnchor))
    } else if status.metered_journal_bytes != 0 {
        Some(BrainError::Journal(Fault::DeletionLostRetentionAnchor))
    } else {
        None
    }
}

/// The child-link table after `child`, deleted, is unlinked: its own child rows go, and its
/// row under `parent` goes, with the parent's entry when that was the last row.
pub open spec fn unlinked(before: Seq<(String, Vec<(String, SessionSummary)>)>, after: Seq<(String, Vec<(String, SessionSummary)>)>, child: Seq<char>, parent: Option<String>) -> bool {
    let cleared = as_map(before).remove(child);
    match parent {
        None => as_map(after) == cleared,
        Some(p) => if cleared.contains_key(p@) {
            let rows = as_map(cleared[p@]@).remove(child);
            if rows.dom() == Set::<Seq<char>>::empty() {
                as_map(after) == cleared.remove(p@)
            } else {
                &&& as_map(after).remove(p@) == cleared.remove(p@)
                &&& as_map(after).contains_key(p@)
                &&& as_map(as_map(after)[p@]@) == rows
            }
        } else {
            as_map(after) == cleared
        },
    }
}

/// What final deletion under `status` leaves in the store.
pub open spec fn deletion_finalized(before: MemoryStore, after: MemoryStore, status: DeletionStatusDoc) -> bool {
    let m = before.session_map();
    let existed = m.contains_key(status.session_id@);
    let used = meter(before.tenant_storage@, status.tenant_id@);
    let journal = retention_meter(before.tenant_retention@, status.tenant_id@);
    &&& after.session_map() == with_child_uncounted(m.remove(status.session_id@), status.parent_id, status.root_id@)
    &&& existed ==> as_map(after.tenant_storage@) == as_map(before.tenant_storage@).insert(
        status.tenant_id@,
        (used - status.metered_storage_bytes) as u64,
    )
    &&& existed ==> as_map(after.tenant_retention@) == as_map(before.tenant_retention@).insert(
        status.tenant_id@,
        ((journal.0 - status.metered_journal_bytes) as u64, (journal.1 - 1) as u64),
    )
    &&& !existed ==> after.tenant_storage == before.tenant_storage && after.tenant_retention == before.tenant_retention
    &&& after.deletion_map() == before.deletion_map().insert(status.session_id@, status)
    &&& unlinked(before.child_links@, after.child_links@, status.session_id@, status.parent_id)
    &&& after.sandboxes == before.sandboxes
}

/// With unique keys, an empty vector spells the empty map and a non-empty one does not.
proof fn lemma_empty_map<V>(entries: Seq<(String, V)>)
    requires
        unique_keys(entries),
    ensures
        (entries.len() == 0) == (as_map(entries).dom() == Set::<Seq<char>>::empty()),
{
    if entries.len() == 0 {
        assert(as_map(entries).dom() =~= Set::<Seq<char>>::empty());
    } else {
        lemma_entry(entries, 0);
        assert(as_map(entries).dom().contains(entries[0].0@));
    }
}

impl MemoryStore {
    /// Count a session out of one ancestor: the entry at `i` loses a direct child and/or a
    /// descendant, saturating at zero.
    fn uncount(&mut self, i: usize, direct: bool, descendant: bool)
        requires
            old(self).wf(),
            i < old(self).sessions@.len(),
        ensures
            final(self).wf(),
            final(self).same_tables_but_sessions(old(self)),
            final(self).session_map() == old(self).session_map().insert(
                old(self).sessions@[i as int].0@,
                MemSession {
                    direct_children: if direct { dec32(old(self).sessions@[i as int].1.direct_children) } else { old(self).sessions@[i as int].1.direct_children },
                    descendants: if descendant { dec32(old(self).sessions@[i as int].1.descendants) } else { old(self).sessions@[i as int].1.descendants },
                    ..old(self).sessions@[i as int].1
                },
            ),
            final(self).sessions@.len() == old(self).sessions@.len(),
    {
        let ghost before = *self;
        let (key, mut s) = self.sessions.remove(i);
        proof {
            assert(s == before.sessions@[i as int].1);
        }
        if direct {
            s.direct_children = s.direct_children.saturating_sub(1);
        }
        if descendant {
            s.descendants = s.descendants.saturating_sub(1);
        }
        self.sessions.insert(i, (key, s));
        proof {
            assert(self.sessions@ =~= before.sessions@.update(i as int, (key, s)));
            lemma_update(before.sessions@, i as int, key, s);
            assert forall|j: int| 0 <= j < self.sessions@.len() implies records_sorted((#[trigger] self.sessions@[j]).1.records@) by {
                if j != i {
                    assert(self.sessions@[j] == before.sessions@[j]);
                }
            }
        }
    }

    /// Remove `child`'s rows from the child-link table, as final deletion does.
    fn unlink_child(&mut self, child: &str, parent: &Option<String>)
        requires
            old(self).wf(),
        ensures
            final(self).wf(),
            final(self).sessions == old(self).sessions,
            final(self).tenant_storage == old(self).tenant_storage,
            final(self).tenant_retention == old(self).tenant_retention,
            final(self).sandboxes == old(self).sandboxes,
            final(self).deletions == old(self).deletions,
            unlinked(old(self).child_links@, final(self).child_links@, child@, *parent),
    {
        let ghost before = self.child_links@;
        match find(&self.child_links, child) {
            Some(ci) => {
                proof {
                    lemma_remove(self.child_links@, ci as int);
                }
                let ghost pre = self.child_links@;
                let _ = self.child_links.remove(ci);
                proof {
                    assert forall|j: int| 0 <= j < self.child_links@.len() implies unique_keys((#[trigger] self.child_links@[j]).1@) by {
                        if j < ci {
                            assert(self.child_links@[j] == pre[j]);
                        } else {
                            assert(self.child_links@[j] == pre[j + 1]);
                        }
                    }
                }
            },
            None => {
                assert(as_map(self.child_links@) =~= as_map(self.child_links@).remove(child@));
            },
        }
        let ghost cleared = self.child_links@;
        assert(as_map(cleared) == as_map(before).remove(child@));
        if let Some(parent_id) = parent {
            match find(&self.child_links, parent_id.as_str()) {
                Some(pi) => {
                    proof {
                        lemma_entry(cleared, pi as int);
                        lemma_remove(cleared, pi as int);
                    }
                    let (key, mut rows) = self.child_links.remove(pi);
                    proof {
                        assert(unique_keys(rows@));
                    }
                    remove_key(&mut rows, child);
                    proof {
                        lemma_empty_map(rows@);
                        assert forall|j: int| 0 <= j < self.child_links@.len() implies unique_keys((#[trigger] self.child_links@[j]).1@) by {
                            if j < pi {
                                assert(self.child_links@[j] == cleared[j]);
                            } else {
                                assert(self.child_links@[j] == cleared[j + 1]);
                            }
                        }
                    }
                    if rows.len() > 0 {
                        let ghost mid = self.child_links@;
                        proof {
                            assert(!as_map(mid).contains_key(parent_id@));
                            lemma_push(mid, key, rows);
                        }
                        self.child_links.push((key, rows));
                        proof {
                            assert forall|j: int| 0 <= j < self.child_links@.len() implies unique_keys((#[trigger] self.child_links@[j]).1@) by {
                                if j < mid.len() {
                                    assert(self.child_links@[j] == mid[j]);
                                }
                            }
                            assert(as_map(self.child_links@).remove(parent_id@) =~= as_map(cleared).remove(parent_id@));
                        }
                    }
                },
                None => {},
            }
        }
    }

    /// Atomically release a deleted session's tenant meters, counters and adjacency and leave
    /// its success tombstone. A deletion already recorded as succeeded is not applied twice.
    pub fn finalize_deletion(&mut self, status: &DeletionStatusDoc) -> (r: Result<(), BrainError>)
        requires
            old(self).wf(),
        ensures
            final(self).wf(),
            old(self).deletion_map().contains_key(status.session_id@) && old(self).deletion_map()[status.session_id@].state
                == DeletionState::Succeeded ==> r is Ok && *final(self) == *old(self),
            !(old(self).deletion_map().contains_key(status.session_id@) && old(self).deletion_map()[status.session_id@].state
                == DeletionState::Succeeded) ==> match deletion_fault(*old(self), *status) {
                Some(e) => r == Err::<(), BrainError>(e) && *final(self) == *old(self),
                None => r is Ok && deletion_finalized(*old(self), *final(self), *status),
            },
    {
        match find(&self.deletions, status.session_id.as_str()) {
            Some(di) => {
                proof {
                    lemma_entry(self.deletions@, di as int);
                }
                if self.deletions[di].1.state == DeletionState::Succeeded {
                    return Ok(());
                }
            },
            None => {},
        }
        let found = find(&self.sessions, status.session_id.as_str());
        let used = meter_value(&self.tenant_storage, status.tenant_id.as_str());
        let journal = self.retention_meter_value(status.tenant_id.as_str());
        let mut next_storage: u64 = 0;
        let mut next_journal: (u64, u64) = (0, 0);
        match found {
            Some(si) => {
                proof {
                    lemma_entry(self.sessions@, si as int);
                }
                let s = &self.sessions[si].1;
                if !str_eq(s.doc.tenant_id.as_str(), status.tenant_id.as_str())
                    || s.doc.tenant_metered_storage_bytes != status.metered_storage_bytes
                    || s.retention.metered_bytes != status.metered_journal_bytes {
                    return Err(BrainError::Journal(Fault::DeletionAnchorMismatch));
                }
                if used < status.metered_storage_bytes {
                    return Err(BrainError::Journal(Fault::TenantStorageMeterNegative));
                }
                next_storage = used - status.metered_storage_bytes;
                if journal.0 < status.metered_journal_bytes {
                    return Err(BrainError::Journal(Fault::TenantJournalMeterNegative));
                }
                if journal.1 < 1 {
                    return Err(BrainError::Journal(Fault::TenantSessionMeterNegative));
                }
                next_journal = (journal.0 - status.metered_journal_bytes, journal.1 - 1);
            },
            None => {
                if status.metered_storage_bytes != 0 {
                    return Err(BrainError::Journal(Fault::DeletionLostStorageAnchor));
                }
                if status.metered_journal_bytes != 0 {
                    return Err(BrainError::Journal(Fault::DeletionLostRetentionAnchor));
                }
            },
        }
        let ghost before = *self;
        if let Some(si) = found {
            proof {
                lemma_remove(self.sessions@, si as int);
            }
            let ghost pre = self.sessions@;
            let _ = self.sessions.remove(si);
            proof {
                assert forall|j: int| 0 <= j < self.sessions@.len() implies records_sorted((#[trigger] self.sessions@[j]).1.records@) by {
                    if j < si {
                        assert(self.sessions@[j] == pre[j]);
                    } else {
                        assert(self.sessions@[j] == pre[j + 1]);
                    }
                }
            }
        } else {
            assert(self.session_map() =~= self.session_map().remove(status.session_id@));
        }
        let ghost removed = self.session_map();
        assert(removed == before.session_map().remove(status.session_id@));
        if let Some(parent_id) = &status.parent_id {
            if str_eq(parent_id.as_str(), status.root_id.as_str()) {
                match find(&self.sessions, status.root_id.as_str()) {
                    Some(ri) => {
                        proof {
                            lemma_entry(self.sessions@, ri as int);
                        }
                        self.uncount(ri, true, true);
                    },
                    None => {},
                }
            } else {
                match find(&self.sessions, parent_id.as_str()) {
                    Some(pi) => {
                        proof {
                            lemma_entry(self.sessions@, pi as int);
                        }
                        self.uncount(pi, true, false);
                    },
                    None => {},
                }
                let ghost m1 = self.session_map();
                match find(&self.sessions, status.root_id.as_str()) {
                    Some(ri) => {
                        proof {
                            lemma_entry(self.sessions@, ri as int);
                        }
                        self.uncount(ri, false, true);
                    },
                    None => {},
                }
            }
        }
        if found.is_some() {
            upsert(&mut self.tenant_storage, status.tenant_id.clone(), next_storage);
            upsert(&mut self.tenant_retention, status.tenant_id.clone(), next_journal);
        }
        upsert(&mut self.deletions, status.session_id.clone(), status.duplicate());
        self.unlink_child(status.session_id.as_str(), &status.parent_id);
        Ok(())
    }
}

impl MemoryStore {
    /// Give up a lease this owner holds at this fence; anything else is left alone.
    pub fn release(&mut self, session_id: &str, owner: &str, fence: u64) -> (r: Result<(), BrainError>)
        requires
            old(self).wf(),
        ensures
            final(self).wf(),
            r is Ok,
            final(self).same_tables_but_sessions(old(self)),
            old(self).session_map().contains_key(session_id@) && holds(old(self).session_map()[session_id@], owner@, fence)
                ==> final(self).session_map() == old(self).session_map().insert(
                session_id@,
                MemSession { owner: None, lease_expires_ms: 0, ..old(self).session_map()[session_id@] },
            ),
            !(old(self).session_map().contains_key(session_id@) && holds(old(self).session_map()[session_id@], owner@, fence))
                ==> *final(self) == *old(self),
    {
        if let Some(i) = find(&self.sessions, session_id) {
            proof {
                lemma_entry(self.sessions@, i as int);
            }
            let holder = match &self.sessions[i].1.owner {
                Some(o) => str_eq(o.as_str(), owner),
                None => false,
            };
            if self.sessions[i].1.fence == fence && holder {
                let ghost before = *self;
                let (key, mut s) = self.sessions.remove(i);
                proof {
                    assert(s == before.sessions@[i as int].1);
                }
                s.owner = None;
                s.lease_expires_ms = 0;
                self.put_back(i, key, s, Ghost(before));
            }
        }
        Ok(())
    }

    /// Reinsert a session taken out at `i` of `before`'s table.
    fn put_back(&mut self, i: usize, key: String, s: MemSession, before: Ghost<MemoryStore>)
        requires
            before@.wf(),
            i < before@.sessions@.len(),
            old(self).sessions@ == before@.sessions@.remove(i as int),
            old(self).same_tables_but_sessions(&before@),
            key@ == before@.sessions@[i as int].0@,
            records_sorted(s.records@),
        ensures
            final(self).wf(),
            final(self).same_tables_but_sessions(&before@),
            final(self).session_map() == before@.session_map().insert(key@, s),
            final(self).sessions@.len() == before@.sessions@.len(),
    {
        self.sessions.insert(i, (key, s));
        proof {
            let b = before@.sessions@;
            assert(self.sessions@ =~= b.update(i as int, (key, s)));
            lemma_update(b, i as int, key, s);
            assert forall|j: int| 0 <= j < self.sessions@.len() implies records_sorted((#[trigger] self.sessions@[j]).1.records@) by {
                if j != i {
                    assert(self.sessions@[j] == b[j]);
                }
            }
        }
    }

    /// On the failure path, release ownership and schedule the next recovery attempt at
    /// `due_ms` in one step, storing `doc` as HEAD.
    pub fn release_and_schedule(&mut self, session_id: &str, owner: &str, fence: u64, doc: &HeadDoc, due_ms: u64) -> (r: Result<(), BrainError>)
        requires
            old(self).wf(),
        ensures
            final(self).wf(),
            final(self).same_tables_but_sessions(old(self)),
            match r {
                Ok(()) => {
                    let s = old(self).session_map()[session_id@];
                    let n = final(self).session_map()[session_id@];
                    &&& old(self).session_map().contains_key(session_id@) && holds(s, owner@, fence)
                    &&& final(self).session_map() == old(self).session_map().insert(session_id@, n)
                    &&& n == MemSession { doc: n.doc, owner: None, lease_expires_ms: 0, ..s }
                    &&& n.doc.copy_of(&HeadDoc { recovery_due_ms: Some(due_ms), ..*doc })
                },
                Err(e) => *final(self) == *old(self) && match e {
                    BrainError::NoSuchSession(id) => id@ == session_id@ && !old(self).session_map().contains_key(session_id@),
                    BrainError::Fenced => old(self).session_map().contains_key(session_id@) && !holds(
                        old(self).session_map()[session_id@],
                        owner@,
                        fence,
                    ),
                    _ => false,
                },
            },
    {
        let i = match find(&self.sessions, session_id) {
            None => return Err(BrainError::NoSuchSession(session_id.to_owned())),
            Some(i) => i,
        };
        proof {
            lemma_entry(self.sessions@, i as int);
        }
        let holder = match &self.sessions[i].1.owner {
            Some(o) => str_eq(o.as_str(), owner),
            None => false,
        };
        if self.sessions[i].1.fence != fence || !holder {
            return Err(BrainError::Fenced);
        }
        let ghost before = *self;
        let (key, mut s) = self.sessions.remove(i);
        proof {
            assert(s == before.sessions@[i as int].1);
        }
        let mut next = doc.duplicate();
        next.recovery_due_ms = Some(due_ms);
        s.doc = next;
        s.owner = None;
        s.lease_expires_ms = 0;
        self.put_back(i, key, s, Ghost(before));
        Ok(())
    }

    /// Renew a held lease for a long-running effect, optionally moving the recovery anchor. The
    /// fence does not move.
    pub fn renew(&mut self, session_id: &str, owner: &str, fence: u64, now_ms: u64, recovery_due_ms: Option<u64>) -> (r: Result<(), BrainError>)
        requires
            old(self).wf(),
        ensures
            final(self).wf(),
            final(self).same_tables_but_sessions(old(self)),
            match r {
                Ok(()) => {
                    let s = old(self).session_map()[session_id@];
                    let lease = if now_ms + LEASE_MS > u64::MAX { u64::MAX } else { (now_ms + LEASE_MS) as u64 };
                    &&& old(self).session_map().contains_key(session_id@) && holds(s, owner@, fence)
                    &&& final(self).session_map() == old(self).session_map().insert(
                        session_id@,
                        MemSession {
                            lease_expires_ms: lease,
                            doc: match recovery_due_ms {
                                Some(due) => HeadDoc { recovery_due_ms: Some(due), ..s.doc },
                                None => s.doc,
                            },
                            ..s
                        },
                    )
                },
                Err(e) => *final(self) == *old(self) && match e {
                    BrainError::NoSuchSession(id) => id@ == session_id@ && !old(self).session_map().contains_key(session_id@),
                    BrainError::Fenced => old(self).session_map().contains_key(session_id@) && !holds(
                        old(self).session_map()[session_id@],
                        owner@,
                        fence,
                    ),
                    _ => false,
                },
            },
    {
        let i = match find(&self.sessions, session_id) {
            None => return Err(BrainError::NoSuchSession(session_id.to_owned())),
            Some(i) => i,
        };
        proof {
            lemma_entry(self.sessions@, i as int);
        }
        let holder = match &self.sessions[i].1.owner {
            Some(o) => str_eq(o.as_str(), owner),
            None => false,
        };
        if self.sessions[i].1.fence != fence || !holder {
            return Err(BrainError::Fenced);
        }
        let ghost before = *self;
        let (key, mut s) = self.sessions.remove(i);
        proof {
            assert(s == before.sessions@[i as int].1);
        }
        s.lease_expires_ms = now_ms.saturating_add(LEASE_MS);
        if let Some(due) = recovery_due_ms {
            s.doc.recovery_due_ms = Some(due);
        }
        self.put_back(i, key, s, Ghost(before));
        Ok(())
    }

    /// Drop a session's append-only history and its sandbox inventory, keeping HEAD so that
    /// deletion can be retried; the count of dropped items comes back. Idempotent.
    pub fn purge_history(&mut self, session_id: &str) -> (r: Result<u64, BrainError>)
        requires
            old(self).wf(),
        ensures
            final(self).wf(),
            !old(self).session_map().contains_key(session_id@) ==> r == Ok::<u64, BrainError>(0) && *final(self) == *old(self),
            old(self).session_map().contains_key(session_id@) ==> {
                let s = old(self).session_map()[session_id@];
                let n = final(self).session_map()[session_id@];
                let inventory: int = if as_map(old(self).sandboxes@).contains_key(session_id@) {
                    as_map(old(self).sandboxes@)[session_id@]@.len() as int
                } else {
                    0
                };
                &&& r == Ok::<u64, BrainError>(
                    (if s.records@.len() + inventory > u64::MAX { u64::MAX as int } else { s.records@.len() as int + inventory }) as u64,
                )
                &&& final(self).session_map() == old(self).session_map().insert(session_id@, n)
                &&& n == MemSession { records: n.records, ..s }
                &&& n.records@.len() == 0
                &&& as_map(final(self).sandboxes@) == as_map(old(self).sandboxes@).remove(session_id@)
                &&& final(self).tenant_storage == old(self).tenant_storage
                &&& final(self).tenant_retention == old(self).tenant_retention
                &&& final(self).child_links == old(self).child_links
                &&& final(self).deletions == old(self).deletions
            },
    {
        let i = match find(&self.sessions, session_id) {
            None => return Ok(0),
            Some(i) => i,
        };
        proof {
            lemma_entry(self.sessions@, i as int);
        }
        let ghost before = *self;
        let (key, mut s) = self.sessions.remove(i);
        proof {
            assert(s == before.sessions@[i as int].1);
        }
        let removed = s.records.len() as u64;
        s.records = Vec::new();
        self.put_back(i, key, s, Ghost(before));
        let sandboxes: u64 = match find(&self.sandboxes, session_id) {
            Some(bi) => {
                proof {
                    lemma_entry(self.sandboxes@, bi as int);
                    lemma_remove(self.sandboxes@, bi as int);
                }
                let ghost pre = self.sandboxes@;
                let (_, items) = self.sandboxes.remove(bi);
                proof {
                    assert forall|j: int| 0 <= j < self.sandboxes@.len() implies unique_keys((#[trigger] self.sandboxes@[j]).1@) by {
                        if j < bi {
                            assert(self.sandboxes@[j] == pre[j]);
                        } else {
                            assert(self.sandboxes@[j] == pre[j + 1]);
                        }
                    }
                }
                items.len() as u64
            },
            None => {
                assert(as_map(self.sandboxes@) =~= as_map(self.sandboxes@).remove(session_id@));
                0
            },
        };
        Ok(removed.saturating_add(sandboxes))
    }

    /// Store a deletion job status. A succeeded tombstone is never replaced by a status that
    /// has not succeeded.
    pub fn put_deletion_status(&mut self, status: &DeletionStatusDoc) -> (r: Result<(), BrainError>)
        requires
            old(self).wf(),
        ensures
            final(self).wf(),
            r is Ok,
            final(self).sessions == old(self).sessions,
            final(self).tenant_storage == old(self).tenant_storage,
            final(self).tenant_retention == old(self).tenant_retention,
            final(self).child_links == old(self).child_links,
            final(self).sandboxes == old(self).sandboxes,
            final(self).deletion_map() == (if old(self).deletion_map().contains_key(status.session_id@)
                && old(self).deletion_map()[status.session_id@].state == DeletionState::Succeeded
                && status.state != DeletionState::Succeeded {
                old(self).deletion_map()
            } else {
                old(self).deletion_map().insert(status.session_id@, *status)
            }),
    {
        if let Some(di) = find(&self.deletions, status.session_id.as_str()) {
            proof {
                lemma_entry(self.deletions@, di as int);
            }
            if self.deletions[di].1.state == DeletionState::Succeeded && status.state != DeletionState::Succeeded {
                return Ok(());
            }
        }
        upsert(&mut self.deletions, status.session_id.clone(), status.duplicate());
        Ok(())
    }

    /// The deletion status of a session, once a succeeded tombstone that has expired by
    /// `now_ms` is dropped.
    pub fn get_deletion_status(&mut self, session_id: &str, now_ms: u64) -> (r: Result<Option<DeletionStatusDoc>, BrainError>)
        requires
            old(self).wf(),
        ensures
            final(self).wf(),
            final(self).sessions == old(self).sessions,
            final(self).tenant_storage == old(self).tenant_storage,
            final(self).tenant_retention == old(self).tenant_retention,
            final(self).child_links == old(self).child_links,
            final(self).sandboxes == old(self).sandboxes,
            ({
                let m = old(self).deletion_map();
                let expired = m.contains_key(session_id@) && m[session_id@].state == DeletionState::Succeeded
                    && m[session_id@].expires_at_ms <= now_ms;
                &&& final(self).deletion_map() == (if expired { m.remove(session_id@) } else { m })
                &&& r == Ok::<Option<DeletionStatusDoc>, BrainError>(
                    if m.contains_key(session_id@) && !expired { Some(m[session_id@]) } else { None },
                )
            }),
    {
        match find(&self.deletions, session_id) {
            None => Ok(None),
            Some(di) => {
                proof {
                    lemma_entry(self.deletions@, di as int);
                }
                let d = &self.deletions[di].1;
                if d.state == DeletionState::Succeeded && d.expires_at_ms <= now_ms {
                    remove_key(&mut self.deletions, session_id);
                    Ok(None)
                } else {
                    Ok(Some(d.duplicate()))
                }
            },
        }
    }
}

/// The inventory rows kept under `root`.
pub open spec fn inventory(store: MemoryStore, root: Seq<char>) -> Map<Seq<char>, SandboxInventoryDoc> {
    if as_map(store.sandboxes@).contains_key(root) { as_map(as_map(store.sandboxes@)[root]@) } else { Map::empty() }
}

/// The inventory table after `row` is kept as sandbox `id` under `root`.
pub open spec fn stocked(before: MemoryStore, after: MemoryStore, root: Seq<char>, id: Seq<char>, row: SandboxInventoryDoc) -> bool {
    &&& as_map(after.sandboxes@).contains_key(root)
    &&& inventory(after, root) == inventory(before, root).insert(id, row)
    &&& as_map(after.sandboxes@).remove(root) == as_map(before.sandboxes@).remove(root)
}

/// Two sandbox statuses say the same thing.
pub open spec fn same_status(a: SandboxStatus, b: SandboxStatus) -> bool {
    a.state == b.state && a.expires_at_ms == b.expires_at_ms && a.target@ == b.target@ && a.detail@ == b.detail@
}

fn same_status_exec(a: &SandboxStatus, b: &SandboxStatus) -> (r: bool)
    ensures
        r == same_status(*a, *b),
{
    a.state == b.state && a.expires_at_ms == b.expires_at_ms && str_eq(a.target.as_str(), b.target.as_str())
        && str_eq(a.detail.as_str(), b.detail.as_str())
}

/// The error for a sandbox row that does not exist.
fn sandbox_not_found(sandbox_id: &str) -> (e: BrainError)
    ensures
        e matches BrainError::FileNotFound(m) && m@ == "sandbox "@ + sandbox_id@,
{
    let mut m = String::new();
    push_str_chars(&mut m, "sandbox ");
    push_str_chars(&mut m, sandbox_id);
    proof {
        assert(Seq::<char>::empty() + "sandbox "@ =~= "sandbox "@);
    }
    BrainError::FileNotFound(m)
}

impl MemoryStore {
    /// Keep `row` as sandbox `id` under `root`.
    fn stock(&mut self, root: &str, id: String, row: SandboxInventoryDoc)
        requires
            old(self).wf(),
        ensures
            final(self).wf(),
            final(self).sessions == old(self).sessions,
            final(self).tenant_storage == old(self).tenant_storage,
            final(self).tenant_retention == old(self).tenant_retention,
            final(self).child_links == old(self).child_links,
            final(self).deletions == old(self).deletions,
            stocked(*old(self), *final(self), root@, id@, row),
    {
        let ghost before = self.sandboxes@;
        let mut rows: Vec<(String, SandboxInventoryDoc)> = match find(&self.sandboxes, root) {
            Some(i) => {
                proof {
                    lemma_entry(self.sandboxes@, i as int);
                }
                let (_, rows) = self.sandboxes.remove(i);
                proof {
                    lemma_remove(before, i as int);
                    assert(unique_keys(rows@));
                }
                rows
            },
            None => {
                assert(as_map(self.sandboxes@) =~= as_map(self.sandboxes@).remove(root@));
                Vec::new()
            },
        };
        let ghost old_rows = as_map(rows@);
        assert(old_rows == (if as_map(before).contains_key(root@) { as_map(as_map(before)[root@]@) } else { Map::empty() })) by {
            if !as_map(before).contains_key(root@) {
                assert(old_rows =~= Map::empty());
            }
        }
        upsert(&mut rows, id, row);
        let ghost mid = self.sandboxes@;
        assert(as_map(mid) == as_map(before).remove(root@));
        assert(!as_map(mid).contains_key(root@));
        let key = root.to_owned();
        proof {
            lemma_push(mid, key, rows);
        }
        self.sandboxes.push((key, rows));
        proof {
            assert(as_map(self.sandboxes@).remove(root@) =~= as_map(before).remove(root@));
            assert forall|j: int| 0 <= j < self.sandboxes@.len() implies unique_keys((#[trigger] self.sandboxes@[j]).1@) by {
                if j < mid.len() {
                    assert(self.sandboxes@[j] == mid[j]);
                }
            }
        }
    }

    /// The inventory row kept as `sandbox_id` under `root_id`.
    fn inventory_row(&self, root_id: &str, sandbox_id: &str) -> (r: Option<&SandboxInventoryDoc>)
        requires
            self.wf(),
        ensures
            match r {
                Some(row) => inventory(*self, root_id@).contains_key(sandbox_id@) && *row == inventory(*self, root_id@)[sandbox_id@],
                None => !inventory(*self, root_id@).contains_key(sandbox_id@),
            },
    {
        match find(&self.sandboxes, root_id) {
            None => None,
            Some(i) => {
                proof {
                    lemma_entry(self.sandboxes@, i as int);
                }
                let rows = &self.sandboxes[i].1;
                match find(rows, sandbox_id) {
                    None => None,
                    Some(j) => {
                        proof {
                            lemma_entry(rows@, j as int);
                        }
                        Some(&rows[j].1)
                    },
                }
            },
        }
    }

    /// The inventory row of one additional sandbox.
    pub fn get_sandbox(&self, root_id: &str, sandbox_id: &str) -> (r: Result<SandboxInventoryDoc, BrainError>)
        requires
            self.wf(),
        ensures
            match r {
                Ok(row) => inventory(*self, root_id@).contains_key(sandbox_id@) && row == inventory(*self, root_id@)[sandbox_id@],
                Err(e) => !inventory(*self, root_id@).contains_key(sandbox_id@) && (e matches BrainError::FileNotFound(m)
                    && m@ == "sandbox "@ + sandbox_id@),
            },
    {
        match self.inventory_row(root_id, sandbox_id) {
            Some(row) => Ok(row.duplicate()),
            None => Err(sandbox_not_found(sandbox_id)),
        }
    }

    /// Reserve one root-scoped live sandbox slot and create its inventory row. Replaying the
    /// same operation returns the existing row without taking another slot.
    pub fn reserve_sandbox(&mut self, request: &SandboxReserveRequest) -> (r: Result<SandboxInventoryDoc, BrainError>)
        requires
            old(self).wf(),
        ensures
            final(self).wf(),
            ({
                let m = old(self).session_map();
                let root = request.root_id@;
                let rows = inventory(*old(self), root);
                let id = request.sandbox_id@;
                if !m.contains_key(root) {
                    (r matches Err(BrainError::NoSuchSession(x)) && x@ == root) && *final(self) == *old(self)
                } else if m[root].doc.root_id@ != root || !admission_open(m[root].doc) {
                    r == Err::<SandboxInventoryDoc, BrainError>(BrainError::Invalid(Fault::SandboxAdmissionClosed)) && *final(self) == *old(self)
                } else if rows.contains_key(id) {
                    *final(self) == *old(self) && if rows[id].operation_id@ == request.operation_id@
                        && rows[id].request_digest@ == request.request_digest@ && rows[id].owner_session_id@
                        == request.owner_session_id@ {
                        r == Ok::<SandboxInventoryDoc, BrainError>(rows[id])
                    } else {
                        r == Err::<SandboxInventoryDoc, BrainError>(BrainError::IdempotencyConflict)
                    }
                } else if m[root].live_sandboxes >= m[root].doc.prefix.max_additional_sandboxes_per_root {
                    r == Err::<SandboxInventoryDoc, BrainError>(BrainError::SandboxResourceExhausted) && *final(self) == *old(self)
                } else {
                    let row = SandboxInventoryDoc {
                        root_id: request.root_id,
                        owner_session_id: request.owner_session_id,
                        sandbox_id: request.sandbox_id,
                        operation_id: request.operation_id,
                        request_digest: request.request_digest,
                        generation_intent: request.generation_intent,
                        status: request.initial_status,
                        created_at_ms: request.now_ms,
                        updated_at_ms: request.now_ms,
                        version: 1,
                        slot_released: false,
                    };
                    &&& r == Ok::<SandboxInventoryDoc, BrainError>(row)
                    &&& final(self).session_map() == m.insert(root, MemSession { live_sandboxes: inc32(m[root].live_sandboxes), ..m[root] })
                    &&& stocked(*old(self), *final(self), root, id, row)
                    &&& final(self).tenant_storage == old(self).tenant_storage
                    &&& final(self).tenant_retention == old(self).tenant_retention
                    &&& final(self).child_links == old(self).child_links
                    &&& final(self).deletions == old(self).deletions
                }
            }),
    {
        let i = match find(&self.sessions, request.root_id.as_str()) {
            None => return Err(BrainError::NoSuchSession(request.root_id.clone())),
            Some(i) => i,
        };
        proof {
            lemma_entry(self.sessions@, i as int);
        }
        let root = &self.sessions[i].1;
        if !str_eq(root.doc.root_id.as_str(), request.root_id.as_str()) || !child_admission_open(&root.doc) {
            return Err(BrainError::Invalid(Fault::SandboxAdmissionClosed));
        }
        match self.inventory_row(request.root_id.as_str(), request.sandbox_id.as_str()) {
            Some(existing) => {
                if str_eq(existing.operation_id.as_str(), request.operation_id.as_str()) && str_eq(
                    existing.request_digest.as_str(),
                    request.request_digest.as_str(),
                ) && str_eq(existing.owner_session_id.as_str(), request.owner_session_id.as_str()) {
                    return Ok(existing.duplicate());
                }
                return Err(BrainError::IdempotencyConflict);
            },
            None => {},
        }
        if root.live_sandboxes >= root.doc.prefix.max_additional_sandboxes_per_root {
            return Err(BrainError::SandboxResourceExhausted);
        }
        let ghost before = *self;
        let (key, mut s) = self.sessions.remove(i);
        proof {
            assert(s == before.sessions@[i as int].1);
        }
        s.live_sandboxes = s.live_sandboxes.saturating_add(1);
        self.put_back(i, key, s, Ghost(before));
        let row = SandboxInventoryDoc {
            root_id: request.root_id.clone(),
            owner_session_id: request.owner_session_id.clone(),
            sandbox_id: request.sandbox_id.clone(),
            operation_id: request.operation_id.clone(),
            request_digest: request.request_digest.clone(),
            generation_intent: request.generation_intent.clone(),
            status: request.initial_status.duplicate(),
            created_at_ms: request.now_ms,
            updated_at_ms: request.now_ms,
            version: 1,
            slot_released: false,
        };
        let out = row.duplicate();
        self.stock(request.root_id.as_str(), request.sandbox_id.clone(), row);
        Ok(out)
    }

    /// Version-fenced lifecycle update of an inventory row. Releasing the slot gives the root
    /// back one live slot exactly once, and only for a confirmed gone or terminated target.
    pub fn update_sandbox(&mut self, request: &SandboxUpdateRequest) -> (r: Result<SandboxInventoryDoc, BrainError>)
        requires
            old(self).wf(),
        ensures
            final(self).wf(),
            ({
                let m = old(self).session_map();
                let root = request.root_id@;
                let rows = inventory(*old(self), root);
                let id = request.sandbox_id@;
                if !m.contains_key(root) {
                    (r matches Err(BrainError::NoSuchSession(x)) && x@ == root) && *final(self) == *old(self)
                } else if !rows.contains_key(id) {
                    (r matches Err(BrainError::FileNotFound(x)) && x@ == "sandbox "@ + id) && *final(self) == *old(self)
                } else if rows[id].version != request.expected_version {
                    *final(self) == *old(self) && if same_status(rows[id].status, request.status) {
                        r == Ok::<SandboxInventoryDoc, BrainError>(rows[id])
                    } else {
                        r == Err::<SandboxInventoryDoc, BrainError>(BrainError::Fenced)
                    }
                } else if rows[id].status.target@ != request.status.target@ {
                    r == Err::<SandboxInventoryDoc, BrainError>(BrainError::Journal(Fault::SandboxTargetChanged)) && *final(self) == *old(self)
                } else if rows[id].slot_released && !request.release_slot {
                    r == Err::<SandboxInventoryDoc, BrainError>(BrainError::SandboxGone) && *final(self) == *old(self)
                } else if request.release_slot && !(request.status.state == SandboxState::Gone || request.status.state
                    == SandboxState::Terminated) {
                    r == Err::<SandboxInventoryDoc, BrainError>(BrainError::Journal(Fault::SandboxSlotNotTerminal)) && *final(self) == *old(self)
                } else {
                    let item = rows[id];
                    let frees = request.release_slot && !item.slot_released;
                    let row = SandboxInventoryDoc {
                        status: request.status,
                        updated_at_ms: request.now_ms,
                        version: if item.version == u64::MAX { u64::MAX } else { (item.version + 1) as u64 },
                        slot_released: item.slot_released || frees,
                        ..item
                    };
                    &&& r == Ok::<SandboxInventoryDoc, BrainError>(row)
                    &&& final(self).session_map() == (if frees {
                        m.insert(root, MemSession { live_sandboxes: (if m[root].live_sandboxes == 0 { 0 } else { (m[root].live_sandboxes - 1) as u32 }), ..m[root] })
                    } else {
                        m
                    })
                    &&& stocked(*old(self), *final(self), root, id, row)
                    &&& final(self).tenant_storage == old(self).tenant_storage
                    &&& final(self).tenant_retention == old(self).tenant_retention
                    &&& final(self).child_links == old(self).child_links
                    &&& final(self).deletions == old(self).deletions
                }
            }),
    {
        let i = match find(&self.sessions, request.root_id.as_str()) {
            None => return Err(BrainError::NoSuchSession(request.root_id.clone())),
            Some(i) => i,
        };
        proof {
            lemma_entry(self.sessions@, i as int);
        }
        let item = match self.inventory_row(request.root_id.as_str(), request.sandbox_id.as_str()) {
            None => return Err(sandbox_not_found(request.sandbox_id.as_str())),
            Some(item) => item,
        };
        if item.version != request.expected_version {
            if same_status_exec(&item.status, &request.status) {
                return Ok(item.duplicate());
            }
            return Err(BrainError::Fenced);
        }
        if !str_eq(item.status.target.as_str(), request.status.target.as_str()) {
            return Err(BrainError::Journal(Fault::SandboxTargetChanged));
        }
        if item.slot_released && !request.release_slot {
            return Err(BrainError::SandboxGone);
        }
        let terminal = match request.status.state {
            SandboxState::Gone | SandboxState::Terminated => true,
            _ => false,
        };
        if request.release_slot && !terminal {
            return Err(BrainError::Journal(Fault::SandboxSlotNotTerminal));
        }
        let frees = request.release_slot && !item.slot_released;
        let row = SandboxInventoryDoc {
            root_id: item.root_id.clone(),
            owner_session_id: item.owner_session_id.clone(),
            sandbox_id: item.sandbox_id.clone(),
            operation_id: item.operation_id.clone(),
            request_digest: item.request_digest.clone(),
            generation_intent: item.generation_intent.clone(),
            status: request.status.duplicate(),
            created_at_ms: item.created_at_ms,
            updated_at_ms: request.now_ms,
            version: item.version.saturating_add(1),
            slot_released: item.slot_released || frees,
        };
        if frees {
            let ghost before = *self;
            let (key, mut s) = self.sessions.remove(i);
            proof {
                assert(s == before.sessions@[i as int].1);
            }
            s.live_sandboxes = s.live_sandboxes.saturating_sub(1);
            self.put_back(i, key, s, Ghost(before));
        }
        let out = row.duplicate();
        self.stock(request.root_id.as_str(), request.sandbox_id.clone(), row);
        Ok(out)
    }
}

/// Scanning a session's records from position `i` for one page after `after` through
/// `through`: the records taken, and whether the item or byte budget stopped the page first.
pub open spec fn page_scan(
    records: Seq<(u64, u64, Record)>,
    sizes: Seq<u64>,
    after: u64,
    through: u64,
    limit: int,
    max_bytes: int,
    i: int,
    taken: int,
    bytes: int,
) -> (Seq<(u64, u64, Record)>, bool)
    decreases records.len() - i,
{
    if i < 0 || i >= records.len() {
        (Seq::empty(), false)
    } else if records[i].0 <= after || records[i].0 > through {
        page_scan(records, sizes, after, through, limit, max_bytes, i + 1, taken, bytes)
    } else {
        let next = if bytes + sizes[i] > u64::MAX { u64::MAX as int } else { bytes + sizes[i] };
        if taken >= limit || next > max_bytes {
            (Seq::empty(), true)
        } else {
            let rest = page_scan(records, sizes, after, through, limit, max_bytes, i + 1, taken + 1, next);
            (seq![records[i]] + rest.0, rest.1)
        }
    }
}

/// When a scan is the entries taken so far and nothing more, the entries carry its sequences and
/// times.
proof fn lemma_page_entries(scan: Seq<(u64, u64, Record)>, entries: Seq<Entry>)
    requires
        scan == Seq::new(entries.len(), |j: int| (entries[j].seq, entries[j].ts_ms, scan[j].2)) + Seq::<(u64, u64, Record)>::empty(),
    ensures
        scan.len() == entries.len(),
        forall|k: int| 0 <= k < scan.len() ==> (#[trigger] entries[k]).seq == scan[k].0 && entries[k].ts_ms == scan[k].1,
{
    assert forall|k: int| 0 <= k < scan.len() implies (#[trigger] entries[k]).seq == scan[k].0 && entries[k].ts_ms == scan[k].1 by {
        assert(scan[k] == Seq::new(entries.len(), |j: int| (entries[j].seq, entries[j].ts_ms, scan[j].2))[k]);
    }
}

/// A page that stops early has taken at least one record, when every record fits the budget.
proof fn lemma_page_progress(records: Seq<(u64, u64, Record)>, sizes: Seq<u64>, after: u64, through: u64, limit: int, max_bytes: int, i: int)
    requires
        sizes.len() == records.len(),
        forall|k: int| 0 <= k < sizes.len() ==> sizes[k] <= max_bytes,
        limit >= 1,
        0 <= i,
    ensures
        page_scan(records, sizes, after, through, limit, max_bytes, i, 0, 0).1 ==> page_scan(
            records,
            sizes,
            after,
            through,
            limit,
            max_bytes,
            i,
            0,
            0,
        ).0.len() > 0,
    decreases records.len() - i,
{
    if i < records.len() && (records[i].0 <= after || records[i].0 > through) {
        lemma_page_progress(records, sizes, after, through, limit, max_bytes, i + 1);
    }
}

impl MemoryStore {
    /// One bounded page of a session's records after `query.after` through the fixed
    /// high-water `query.through_seq`, within the query's item and byte budgets. `sizes[i]` is
    /// the canonical size of the session's `i`-th stored record (in sequence order), each
    /// within the record ceiling.
    pub fn read_record_page(&self, query: &RecordPageQuery, sizes: &[u64]) -> (r: Result<RecordPage, BrainError>)
        requires
            self.wf(),
            self.session_map().contains_key(query.session_id@) ==> sizes@.len() == self.session_map()[query.session_id@].records@.len(),
            forall|k: int| 0 <= k < sizes@.len() ==> sizes@[k] <= MAX_SERIALIZED_RECORD_BYTES,
        ensures
            query.max_bytes < MAX_SERIALIZED_RECORD_BYTES ==> r == Err::<RecordPage, BrainError>(
                BrainError::Invalid(Fault::PageBytesBelowRecord { max_bytes: query.max_bytes }),
            ),
            query.max_bytes >= MAX_SERIALIZED_RECORD_BYTES && !self.session_map().contains_key(query.session_id@) ==> (r matches Err(
                BrainError::NoSuchSession(id),
            ) && id@ == query.session_id@),
            query.max_bytes >= MAX_SERIALIZED_RECORD_BYTES && self.session_map().contains_key(query.session_id@) ==> ({
                let limit = if query.limit < 1 { 1 } else if query.limit > 100 { 100 } else { query.limit as int };
                let max_bytes = if query.max_bytes <= crate::retention::DEFAULT_RECORD_PAGE_BYTES { query.max_bytes as int } else { crate::retention::DEFAULT_RECORD_PAGE_BYTES as int };
                let records = self.session_map()[query.session_id@].records@;
                let scan = page_scan(records, sizes@, query.after, query.through_seq, limit, max_bytes, 0, 0, 0);
                &&& r matches Ok(page)
                &&& query.after >= query.through_seq ==> page.entries@.len() == 0 && page.next_after is None
                &&& query.after < query.through_seq ==> {
                    &&& page.entries@.len() == scan.0.len()
                    &&& forall|k: int| 0 <= k < scan.0.len() ==> (#[trigger] page.entries@[k]).seq == scan.0[k].0
                        && page.entries@[k].ts_ms == scan.0[k].1 && page.entries@[k].record.copy_of(&scan.0[k].2)
                    &&& page.next_after == (if scan.1 { Some(scan.0.last().0) } else { None })
                    &&& scan.1 ==> scan.0.len() > 0
                }
            }),
    {
        let (limit, max_bytes) = match validate_record_page_query(query) {
            Ok(bounds) => bounds,
            Err(e) => return Err(e),
        };
        let i = match find(&self.sessions, query.session_id) {
            None => return Err(BrainError::NoSuchSession(query.session_id.to_owned())),
            Some(i) => i,
        };
        proof {
            lemma_entry(self.sessions@, i as int);
        }
        if query.after >= query.through_seq {
            return Ok(RecordPage { entries: Vec::new(), next_after: None });
        }
        let records = &self.sessions[i].1.records;
        let ghost scan0 = page_scan(records@, sizes@, query.after, query.through_seq, limit as int, max_bytes as int, 0, 0, 0);
        proof {
            lemma_page_progress(records@, sizes@, query.after, query.through_seq, limit as int, max_bytes as int, 0);
        }
        let mut entries: Vec<Entry> = Vec::new();
        let mut bytes: u64 = 0;
        let mut k: usize = 0;
        while k < records.len()
            invariant
                k <= records@.len(),
                sizes@.len() == records@.len(),
                query.max_bytes >= MAX_SERIALIZED_RECORD_BYTES,
                self.session_map().contains_key(query.session_id@),
                records@ == self.session_map()[query.session_id@].records@,
                limit as int == (if query.limit < 1 { 1 } else if query.limit > 100 { 100 } else { query.limit as int }),
                max_bytes as int == (if query.max_bytes <= crate::retention::DEFAULT_RECORD_PAGE_BYTES { query.max_bytes as int } else { crate::retention::DEFAULT_RECORD_PAGE_BYTES as int }),
                query.after < query.through_seq,
                scan0 == page_scan(records@, sizes@, query.after, query.through_seq, limit as int, max_bytes as int, 0, 0, 0),
                scan0.1 ==> scan0.0.len() > 0,
                scan0.0 == ({
                    let rest = page_scan(records@, sizes@, query.after, query.through_seq, limit as int, max_bytes as int, k as int, entries@.len() as int, bytes as int);
                    Seq::new(entries@.len(), |j: int| (entries@[j].seq, entries@[j].ts_ms, scan0.0[j].2)) + rest.0
                }),
                scan0.1 == page_scan(records@, sizes@, query.after, query.through_seq, limit as int, max_bytes as int, k as int, entries@.len() as int, bytes as int).1,
                forall|j: int| 0 <= j < entries@.len() ==> (#[trigger] entries@[j]).record.copy_of(&scan0.0[j].2),
            decreases records.len() - k,
        {
            let (seq, ts_ms, record) = (records[k].0, records[k].1, &records[k].2);
            if seq > query.after && seq <= query.through_seq {
                let next = bytes.saturating_add(sizes[k]);
                if entries.len() >= limit || next > max_bytes as u64 {
                    proof {
                        lemma_page_entries(scan0.0, entries@);
                    }
                    let next_after = match entries.last() {
                        Some(e) => Some(e.seq),
                        None => None,
                    };
                    return Ok(RecordPage { entries, next_after });
                }
                let ghost before = entries@;
                let ghost rest = page_scan(records@, sizes@, query.after, query.through_seq, limit as int, max_bytes as int, k as int + 1, entries@.len() as int + 1, next as int);
                entries.push(Entry { seq, ts_ms, record: record.duplicate() });
                bytes = next;
                proof {
                    assert(Seq::new(entries@.len(), |j: int| (entries@[j].seq, entries@[j].ts_ms, scan0.0[j].2)) + rest.0
                        =~= Seq::new(before.len(), |j: int| (before[j].seq, before[j].ts_ms, scan0.0[j].2)) + (seq![records@[k as int]] + rest.0));
                }
            }
            k = k + 1;
        }
        proof {
            lemma_page_entries(scan0.0, entries@);
        }
        Ok(RecordPage { entries, next_after: None })
    }
}

/// A listing limit clamped to `1..=100`.
pub open spec fn clamp_limit(limit: usize) -> int {
    if limit < 1 { 1 } else if limit > 100 { 100 } else { limit as int }
}

/// The optional cursor as characters.
pub open spec fn cursor_view(cursor: Option<&str>) -> Option<Seq<char>> {
    match cursor {
        Some(c) => Some(c@),
        None => None,
    }
}

/// Whether `rows` (the entries under one key) paged after `cursor` with `limit` gives `shown`
/// and `more`: the smallest keys after the cursor, in key order, at most `limit` of them, with
/// `more` when another key after them exists.
pub open spec fn paged<V>(rows: Seq<(String, V)>, cursor: Option<Seq<char>>, limit: int, shown: Seq<V>, more: bool) -> bool {
    exists|picked: Seq<usize>| {
        &&& #[trigger] ordered_page(keys_of(rows), cursor, limit + 1, picked)
        &&& more == (picked.len() > limit)
        &&& shown.len() == (if more { limit } else { picked.len() as int })
        &&& forall|i: int| 0 <= i < shown.len() ==> #[trigger] shown[i] == rows[picked[i] as int].1
    }
}

/// Copy the rows at `picked`, keeping at most `limit`.
fn copy_rows<V: Duplicate>(rows: &Vec<(String, V)>, picked: &Vec<usize>, limit: usize) -> (r: Vec<V>)
    requires
        forall|i: int| 0 <= i < picked@.len() ==> (#[trigger] picked@[i]) < rows@.len(),
    ensures
        r@.len() == (if picked@.len() > limit { limit as int } else { picked@.len() as int }),
        forall|i: int| 0 <= i < r@.len() ==> (#[trigger] r@[i]).copy_of(&rows@[picked@[i] as int].1),
{
    let n = if picked.len() > limit { limit } else { picked.len() };
    let mut out: Vec<V> = Vec::new();
    let mut i: usize = 0;
    while i < n
        invariant
            n <= picked@.len(),
            n as int == (if picked@.len() > limit { limit as int } else { picked@.len() as int }),
            i <= n,
            out@.len() == i,
            forall|k: int| 0 <= k < picked@.len() ==> (#[trigger] picked@[k]) < rows@.len(),
            forall|k: int| 0 <= k < i ==> (#[trigger] out@[k]).copy_of(&rows@[picked@[k] as int].1),
        decreases n - i,
    {
        out.push(rows[picked[i]].1.duplicate());
        i = i + 1;
    }
    out
}

impl MemoryStore {
    /// One page of a parent's direct children, in child-id order after the cursor; the limit is
    /// clamped to `1..=100`.
    #[verifier::spinoff_prover]
    #[verifier::rlimit(50)]
    pub fn list_child_page(&self, query: &ChildListQuery) -> (r: Result<ChildPage, BrainError>)
        requires
            self.wf(),
        ensures
            !as_map(self.child_links@).contains_key(query.parent_id@) ==> (r matches Ok(page) && page.sessions@.len() == 0
                && page.next_cursor is None),
            as_map(self.child_links@).contains_key(query.parent_id@) ==> (r matches Ok(page) && {
                let rows = as_map(self.child_links@)[query.parent_id@]@;
                exists|shown: Seq<SessionSummary>, more: bool| {
                    &&& #[trigger] paged(rows, cursor_view(query.cursor), clamp_limit(query.limit), shown, more)
                    &&& page.sessions@.len() == shown.len()
                    &&& forall|i: int| 0 <= i < shown.len() ==> (#[trigger] page.sessions@[i]).copy_of(&shown[i])
                    &&& match page.next_cursor {
                        Some(c) => more && c@ == page.sessions@.last().session_id@,
                        None => !more,
                    }
                }
            }),
    {
        let ci = match find(&self.child_links, query.parent_id) {
            None => return Ok(ChildPage { sessions: Vec::new(), next_cursor: None }),
            Some(ci) => ci,
        };
        proof {
            lemma_entry(self.child_links@, ci as int);
        }
        let rows = &self.child_links[ci].1;
        let limit: usize = if query.limit < 1 { 1 } else if query.limit > 100 { 100 } else { query.limit };
        let picked = page_indices(rows, query.cursor, limit + 1);
        let sessions = copy_rows(rows, &picked, limit);
        let more = picked.len() > limit;
        let next_cursor = if more && sessions.len() > 0 {
            Some(sessions[sessions.len() - 1].session_id.clone())
        } else {
            None
        };
        let page = ChildPage { sessions, next_cursor };
        proof {
            let shown = Seq::new(page.sessions@.len(), |i: int| rows@[picked@[i] as int].1);
            assert(limit as int == clamp_limit(query.limit));
            assert(rows@ == as_map(self.child_links@)[query.parent_id@]@);
            assert(paged(rows@, cursor_view(query.cursor), limit as int, shown, more));
            assert(page.sessions@.len() == shown.len());
            assert(forall|i: int| 0 <= i < shown.len() ==> (#[trigger] page.sessions@[i]).copy_of(&shown[i]));
        }
        Ok(page)
    }

    /// One page of a root's additional sandboxes, in sandbox-id order after the cursor; the
    /// limit is clamped to `1..=100`.
    pub fn list_sandbox_page(&self, query: &SandboxListQuery) -> (r: Result<SandboxPage, BrainError>)
        requires
            self.wf(),
        ensures
            !as_map(self.sandboxes@).contains_key(query.root_id@) ==> (r matches Ok(page) && page.sandboxes@.len() == 0
                && page.next_cursor is None),
            as_map(self.sandboxes@).contains_key(query.root_id@) ==> (r matches Ok(page) && {
                let rows = as_map(self.sandboxes@)[query.root_id@]@;
                exists|shown: Seq<SandboxInventoryDoc>, more: bool| {
                    &&& #[trigger] paged(rows, cursor_view(query.cursor), clamp_limit(query.limit), shown, more)
                    &&& page.sandboxes@ == shown
                    &&& match page.next_cursor {
                        Some(c) => more && c@ == page.sandboxes@.last().sandbox_id@,
                        None => !more,
                    }
                }
            }),
    {
        let bi = match find(&self.sandboxes, query.root_id) {
            None => return Ok(SandboxPage { sandboxes: Vec::new(), next_cursor: None }),
            Some(bi) => bi,
        };
        proof {
            lemma_entry(self.sandboxes@, bi as int);
        }
        let rows = &self.sandboxes[bi].1;
        let limit: usize = if query.limit < 1 { 1 } else if query.limit > 100 { 100 } else { query.limit };
        let picked = page_indices(rows, query.cursor, limit + 1);
        let sandboxes = copy_rows(rows, &picked, limit);
        let more = picked.len() > limit;
        let next_cursor = if more && sandboxes.len() > 0 {
            Some(sandboxes[sandboxes.len() - 1].sandbox_id.clone())
        } else {
            None
        };
        let page = SandboxPage { sandboxes, next_cursor };
        proof {
            let shown = Seq::new(page.sandboxes@.len(), |i: int| rows@[picked@[i] as int].1);
            assert(page.sandboxes@ =~= shown);
            assert(limit as int == clamp_limit(query.limit));
            assert(rows@ == as_map(self.sandboxes@)[query.root_id@]@);
            assert(paged(rows@, cursor_view(query.cursor), limit as int, shown, more));
        }
        Ok(page)
    }
}

/// Fencing law: a commit under a lease the caller no longer holds (another owner claimed the
/// session, or the fence moved) is never applied, and a redelivered decision whose sequences
/// are already stored is never applied twice.
pub proof fn stale_or_replayed_commits_are_refused(
    store: MemoryStore,
    session_id: Seq<char>,
    owner: Seq<char>,
    fence: u64,
    records: Seq<(u64, Record)>,
    doc: HeadDoc,
    tenant_storage_delta: i64,
    tenant_storage_limit: u64,
    retention: JournalRetention,
    tenant_retention_delta: i64,
    limits: JournalRetentionLimits,
    sizes: DecisionSizes,
)
    requires
        store.session_map().contains_key(session_id),
        !holds(store.session_map()[session_id], owner, fence) || reuses_sequence(store.session_map()[session_id].records@, records),
    ensures
        !(commit_verdict(
            store,
            session_id,
            owner,
            fence,
            records,
            doc,
            tenant_storage_delta,
            tenant_storage_limit,
            retention,
            tenant_retention_delta,
            limits,
            sizes,
        ) is Commit),
{
}

/// Admission law: a child is admitted only below its root's depth, fan-out and descendant
/// ceilings, under an open parent and root of its own rooted scope.
pub proof fn admitted_children_respect_the_root_ceilings(m: Map<Seq<char>, MemSession>, doc: HeadDoc, parent: Seq<char>)
    requires
        child_verdict(m, doc, parent) is Admit,
    ensures
        m.contains_key(parent) && m.contains_key(doc.root_id@),
        m[parent].direct_children < m[doc.root_id@].doc.prefix.max_direct_children,
        m[doc.root_id@].descendants < m[doc.root_id@].doc.prefix.max_descendants,
        m[parent].doc.depth < m[doc.root_id@].doc.prefix.max_child_depth,
        admission_open(m[parent].doc) && admission_open(m[doc.root_id@].doc),
{
}

/// Quota law: a session is created only when the tenant's storage and journal meters and its
/// retained identities all stay within their ceilings afterwards.
pub proof fn creation_stays_within_tenant_quotas(
    store: MemoryStore,
    session_id: Seq<char>,
    doc: HeadDoc,
    tenant_storage_limit: u64,
    retention: JournalRetention,
    limits: JournalRetentionLimits,
    config_bytes: u64,
    sizes: DecisionSizes,
)
    requires
        create_verdict(store, session_id, doc, tenant_storage_limit, retention, limits, config_bytes, sizes) is Admit,
    ensures
        meter(store.tenant_storage@, doc.tenant_id@) + doc.tenant_metered_storage_bytes <= tenant_storage_limit,
        retention_meter(store.tenant_retention@, doc.tenant_id@).0 + retention.metered_bytes <= limits.tenant_bytes,
        retention_meter(store.tenant_retention@, doc.tenant_id@).1 + 1 <= limits.tenant_sessions,
        !store.session_map().contains_key(session_id),
{
}

/// Keys of the form `prefix#id` with a twenty-character prefix name their id.
proof fn lemma_keyed_by_id(a: nat, x: Seq<char>, b: nat, y: Seq<char>)
    requires
        padded_decimal(a, 20) + seq!['#'] + x == padded_decimal(b, 20) + seq!['#'] + y,
    ensures
        x == y,
{
    lemma_padded_len(a, 20);
    lemma_padded_len(b, 20);
    let k = padded_decimal(a, 20) + seq!['#'] + x;
    assert(x =~= k.skip(21));
    assert(y =~= (padded_decimal(b, 20) + seq!['#'] + y).skip(21));
}

/// The recovery row of a session that is due: its index key and its item.
pub open spec fn recovery_row(id: String, s: MemSession, due: u64) -> (Seq<char>, RecoveryItem) {
    (
        padded_decimal(due as nat, 20) + seq!['#'] + id@,
        RecoveryItem {
            session_id: id,
            due_ms: due,
            state: s.doc.state,
            active_phase: s.doc.active_phase,
            last_seq: s.last_seq,
            root_id: s.doc.root_id,
            parent_id: s.doc.parent_id,
            updated_ms: s.doc.updated_ms,
        },
    )
}

/// Whether a session is due in `shard` by `due_before`.
pub open spec fn recovery_due(id: String, s: MemSession, shard: Seq<char>, due_before: u64) -> bool {
    s.doc.recovery_due_ms matches Some(due) && shard_of(encode_utf8(id@)) == shard && due <= due_before
}

/// The recovery rows of every due session, in table order.
pub open spec fn recovery_rows(sessions: Seq<(String, MemSession)>, shard: Seq<char>, due_before: u64) -> Seq<(Seq<char>, RecoveryItem)>
    decreases sessions.len(),
{
    if sessions.len() == 0 {
        Seq::empty()
    } else {
        let before = recovery_rows(sessions.drop_last(), shard, due_before);
        let (id, s) = sessions.last();
        if recovery_due(id, s, shard, due_before) {
            before.push(recovery_row(id, s, s.doc.recovery_due_ms->0))
        } else {
            before
        }
    }
}

/// The keys of some rows.
pub open spec fn row_keys<V>(rows: Seq<(Seq<char>, V)>) -> Seq<Seq<char>> {
    Seq::new(rows.len(), |i: int| rows[i].0)
}

impl MemoryStore {
    /// One page of sessions due for recovery in one shard by `due_before_ms`, in due-key order
    /// after the cursor; the limit is clamped to `1..=100`. Discovery only: every candidate must
    /// still win its claim before recovery runs.
    #[verifier::spinoff_prover]
    #[verifier::rlimit(50)]
    pub fn list_recovery_page(&self, query: &RecoveryQuery) -> (r: Result<RecoveryPage, BrainError>)
        requires
            self.wf(),
        ensures
            r matches Ok(page) && {
                let rows = recovery_rows(self.sessions@, query.shard@, query.due_before_ms);
                let limit = clamp_limit(query.limit);
                exists|picked: Seq<usize>| {
                    &&& #[trigger] ordered_page(row_keys(rows), cursor_view(query.cursor), limit + 1, picked)
                    &&& page.items@.len() == (if picked.len() > limit { limit } else { picked.len() as int })
                    &&& forall|i: int| 0 <= i < page.items@.len() ==> #[trigger] page.items@[i] == rows[picked[i] as int].1
                    &&& match page.next_cursor {
                        Some(c) => picked.len() > limit && c@ == rows[picked[limit - 1] as int].0,
                        None => picked.len() <= limit,
                    }
                }
            },
    {
        let ghost rows = recovery_rows(self.sessions@, query.shard@, query.due_before_ms);
        let mut candidates: Vec<(String, RecoveryItem)> = Vec::new();
        let mut i: usize = 0;
        while i < self.sessions.len()
            invariant
                self.wf(),
                i <= self.sessions@.len(),
                rows == recovery_rows(self.sessions@, query.shard@, query.due_before_ms),
                candidates@.len() == recovery_rows(self.sessions@.take(i as int), query.shard@, query.due_before_ms).len(),
                forall|c: int| 0 <= c < candidates@.len() ==> (#[trigger] candidates@[c]).0@
                    == recovery_rows(self.sessions@.take(i as int), query.shard@, query.due_before_ms)[c].0
                    && candidates@[c].1 == recovery_rows(self.sessions@.take(i as int), query.shard@, query.due_before_ms)[c].1,
                forall|c: int| 0 <= c < candidates@.len() ==> (#[trigger] candidates@[c]).0@
                    == padded_decimal(candidates@[c].1.due_ms as nat, 20) + seq!['#'] + candidates@[c].1.session_id@,
                forall|c: int| 0 <= c < candidates@.len() ==> exists|j: int| 0 <= j < i && (#[trigger] self.sessions@[j]).0@ == (#[trigger] candidates@[c]).1.session_id@,
                crate::keyed::unique_keys(candidates@),
            decreases self.sessions.len() - i,
        {
            let ghost pre = self.sessions@.take(i as int);
            proof {
                assert(self.sessions@.take(i as int + 1).drop_last() =~= pre);
            }
            let id = &self.sessions[i].0;
            let s = &self.sessions[i].1;
            if let Some(due) = s.doc.recovery_due_ms {
                let shard = recovery_shard(id.as_str());
                if str_eq(shard.as_str(), query.shard) && due <= query.due_before_ms {
                    let key = recovery_due_key(due, id.as_str());
                    let item = RecoveryItem {
                        session_id: id.clone(),
                        due_ms: due,
                        state: s.doc.state,
                        active_phase: s.doc.active_phase,
                        last_seq: s.last_seq,
                        root_id: s.doc.root_id.clone(),
                        parent_id: s.doc.parent_id.duplicate(),
                        updated_ms: s.doc.updated_ms,
                    };
                    proof {
                        assert(item.parent_id == s.doc.parent_id) by {
                            match (item.parent_id, s.doc.parent_id) {
                                (Some(a), Some(b)) => {},
                                _ => {},
                            }
                        }
                        assert(item == recovery_row(self.sessions@[i as int].0, *s, due).1);
                        assert forall|c: int| 0 <= c < candidates@.len() implies (#[trigger] candidates@[c]).0@ != key@ by {
                            let j = choose|j: int| 0 <= j < i && (#[trigger] self.sessions@[j]).0@ == candidates@[c].1.session_id@;
                            if candidates@[c].0@ == key@ {
                                lemma_keyed_by_id(candidates@[c].1.due_ms as nat, candidates@[c].1.session_id@, due as nat, id@);
                                assert(self.sessions@[j].0@ == self.sessions@[i as int].0@);
                            }
                        }
                    }
                    let ghost before = candidates@;
                    candidates.push((key, item));
                    proof {
                        assert forall|a: int, b: int| 0 <= a < candidates@.len() && 0 <= b < candidates@.len()
                            && (#[trigger] candidates@[a]).0@ == (#[trigger] candidates@[b]).0@ implies a == b by {
                            if a < before.len() && b < before.len() {
                                assert(candidates@[a] == before[a] && candidates@[b] == before[b]);
                            } else if a < before.len() {
                                assert(candidates@[a] == before[a]);
                            } else if b < before.len() {
                                assert(candidates@[b] == before[b]);
                            }
                        }
                        assert forall|c: int| 0 <= c < candidates@.len() implies exists|j: int| 0 <= j < i + 1 && (#[trigger] self.sessions@[j]).0@
                            == (#[trigger] candidates@[c]).1.session_id@ by {
                            if c < before.len() {
                                assert(candidates@[c] == before[c]);
                                let j = choose|j: int| 0 <= j < i && (#[trigger] self.sessions@[j]).0@ == before[c].1.session_id@;
                                assert(self.sessions@[j].0@ == candidates@[c].1.session_id@);
                            } else {
                                assert(self.sessions@[i as int].0@ == candidates@[c].1.session_id@);
                            }
                        }
                    }
                }
            }
            i = i + 1;
        }
        proof {
            assert(self.sessions@.take(i as int) =~= self.sessions@);
            assert(keys_of(candidates@) =~= row_keys(rows));
        }
        let limit: usize = if query.limit < 1 { 1 } else if query.limit > 100 { 100 } else { query.limit };
        let picked = page_indices(&candidates, query.cursor, limit + 1);
        let items = copy_rows(&candidates, &picked, limit);
        let more = picked.len() > limit;
        let next_cursor = if more {
            Some(candidates[picked[limit - 1]].0.clone())
        } else {
            None
        };
        let page = RecoveryPage { items, next_cursor };
        proof {
            assert(limit as int == clamp_limit(query.limit));
            assert(ordered_page(row_keys(rows), cursor_view(query.cursor), limit as int + 1, picked@));
        }
        Ok(page)
    }
}

/// The listing key of a session: the reversed update time first, so that key order is newest
/// first, then the id.
pub open spec fn tenant_key(updated_ms: u64, id: Seq<char>) -> Seq<char> {
    padded_decimal((u64::MAX - updated_ms) as nat, 20) + seq!['#'] + id
}

/// Whether a session belongs to a tenant listing, optionally filtered by state.
pub open spec fn listed(s: MemSession, tenant: Seq<char>, state: Option<SessionLifecycle>) -> bool {
    s.doc.tenant_id@ == tenant && match state {
        Some(st) => s.doc.state == st,
        None => true,
    }
}

/// The listing rows of a tenant, in table order: each row's key, and the session id and HEAD
/// it summarises.
pub open spec fn session_rows(sessions: Seq<(String, MemSession)>, tenant: Seq<char>, state: Option<SessionLifecycle>) -> Seq<(Seq<char>, (String, HeadDoc))>
    decreases sessions.len(),
{
    if sessions.len() == 0 {
        Seq::empty()
    } else {
        let before = session_rows(sessions.drop_last(), tenant, state);
        let (id, s) = sessions.last();
        if listed(s, tenant, state) {
            before.push((tenant_key(s.doc.updated_ms, id@), (id, s.doc)))
        } else {
            before
        }
    }
}

/// How many rows a session page looks at: one more than the limit, to learn whether more follow.
pub open spec fn session_page_cap(limit: usize) -> int {
    if limit < usize::MAX { limit + 1 } else { limit as int }
}

/// Whether some row sorts after the cursor.
pub open spec fn rows_after<V>(rows: Seq<(Seq<char>, V)>, cursor: Option<Seq<char>>) -> bool {
    exists|k: int| 0 <= k < rows.len() && crate::order::above(cursor, #[trigger] rows[k].0)
}

impl MemoryStore {
    /// One page of a tenant's sessions, optionally of one state: newest update first, then by
    /// id, after the cursor. A malformed cursor is refused.
    #[verifier::spinoff_prover]
    #[verifier::rlimit(50)]
    pub fn list_session_page(&self, query: &SessionListQuery) -> (r: Result<SessionPage, BrainError>)
        requires
            self.wf(),
            query.limit > 0 || (query.cursor matches Some(c) && cursor_session_id(c@) is None)
                || !rows_after(session_rows(self.sessions@, query.tenant_id@, query.state), cursor_view(query.cursor)),
        ensures
            (query.cursor matches Some(c) && cursor_session_id(c@) is None) ==> r == Err::<SessionPage, BrainError>(
                BrainError::Invalid(Fault::SessionListCursorMalformed),
            ),
            !(query.cursor matches Some(c) && cursor_session_id(c@) is None) ==> (r matches Ok(page) && {
                let rows = session_rows(self.sessions@, query.tenant_id@, query.state);
                let limit = query.limit as int;
                exists|picked: Seq<usize>| {
                    &&& #[trigger] ordered_page(row_keys(rows), cursor_view(query.cursor), session_page_cap(query.limit), picked)
                    &&& page.sessions@.len() == (if picked.len() > limit { limit } else { picked.len() as int })
                    &&& forall|i: int| 0 <= i < page.sessions@.len() ==> {
                        let (id, doc) = rows[picked[i] as int].1;
                        &&& (#[trigger] page.sessions@[i]).session_id@ == id@
                        &&& page.sessions@[i].copy_of(&summary_of(page.sessions@[i].session_id, doc))
                    }
                    &&& match page.next_cursor {
                        Some(c) => picked.len() > limit && c@ == rows[picked[limit - 1] as int].0,
                        None => picked.len() <= limit,
                    }
                }
            }),
    {
        if let Some(cursor) = query.cursor {
            if session_id_from_list_cursor(cursor).is_err() {
                return Err(BrainError::Invalid(Fault::SessionListCursorMalformed));
            }
        }
        let ghost rows = session_rows(self.sessions@, query.tenant_id@, query.state);
        let mut candidates: Vec<(String, usize)> = Vec::new();
        let mut i: usize = 0;
        while i < self.sessions.len()
            invariant
                self.wf(),
                i <= self.sessions@.len(),
                rows == session_rows(self.sessions@, query.tenant_id@, query.state),
                candidates@.len() == session_rows(self.sessions@.take(i as int), query.tenant_id@, query.state).len(),
                forall|c: int| 0 <= c < candidates@.len() ==> {
                    let row = session_rows(self.sessions@.take(i as int), query.tenant_id@, query.state)[c];
                    &&& (#[trigger] candidates@[c]).1 < i
                    &&& candidates@[c].0@ == row.0
                    &&& self.sessions@[candidates@[c].1 as int].0 == row.1.0
                    &&& self.sessions@[candidates@[c].1 as int].1.doc == row.1.1
                    &&& row.0 == tenant_key(row.1.1.updated_ms, row.1.0@)
                },
                unique_keys(candidates@),
            decreases self.sessions.len() - i,
        {
            let ghost pre = self.sessions@.take(i as int);
            proof {
                assert(self.sessions@.take(i as int + 1).drop_last() =~= pre);
            }
            let id = &self.sessions[i].0;
            let s = &self.sessions[i].1;
            let state_ok = match query.state {
                Some(st) => s.doc.state == st,
                None => true,
            };
            if str_eq(s.doc.tenant_id.as_str(), query.tenant_id) && state_ok {
                let key = tenant_session_sort_key(s.doc.updated_ms, id.as_str());
                proof {
                    assert forall|c: int| 0 <= c < candidates@.len() implies (#[trigger] candidates@[c]).0@ != key@ by {
                        let row = pre_row(self.sessions@, i as int, query.tenant_id@, query.state, c);
                        let j = candidates@[c].1 as int;
                        if candidates@[c].0@ == key@ {
                            lemma_keyed_by_id(
                                (u64::MAX - row.1.1.updated_ms) as nat,
                                row.1.0@,
                                (u64::MAX - s.doc.updated_ms) as nat,
                                id@,
                            );
                            assert(self.sessions@[j].0@ == self.sessions@[i as int].0@);
                        }
                    }
                }
                let ghost before = candidates@;
                candidates.push((key, i));
                proof {
                    assert forall|a: int, b: int| 0 <= a < candidates@.len() && 0 <= b < candidates@.len()
                        && (#[trigger] candidates@[a]).0@ == (#[trigger] candidates@[b]).0@ implies a == b by {
                        if a < before.len() && b < before.len() {
                            assert(candidates@[a] == before[a] && candidates@[b] == before[b]);
                        } else if a < before.len() {
                            assert(candidates@[a] == before[a]);
                        } else if b < before.len() {
                            assert(candidates@[b] == before[b]);
                        }
                    }
                }
            }
            i = i + 1;
        }
        proof {
            assert(self.sessions@.take(i as int) =~= self.sessions@);
            assert(keys_of(candidates@) =~= row_keys(rows));
        }
        let cap: usize = if query.limit < usize::MAX { query.limit + 1 } else { query.limit };
        let picked = page_indices(&candidates, query.cursor, cap);
        let n = if picked.len() > query.limit { query.limit } else { picked.len() };
        let mut sessions: Vec<SessionSummary> = Vec::new();
        let mut k: usize = 0;
        while k < n
            invariant
                self.wf(),
                n <= picked@.len(),
                k <= n,
                sessions@.len() == k,
                forall|p: int| 0 <= p < picked@.len() ==> (#[trigger] picked@[p]) < candidates@.len(),
                forall|c: int| 0 <= c < candidates@.len() ==> (#[trigger] candidates@[c]).1 < self.sessions@.len(),
                forall|p: int| 0 <= p < k ==> {
                    let e = self.sessions@[candidates@[picked@[p] as int].1 as int];
                    &&& (#[trigger] sessions@[p]).session_id@ == e.0@
                    &&& sessions@[p].copy_of(&summary_of(sessions@[p].session_id, e.1.doc))
                },
            decreases n - k,
        {
            let e = &self.sessions[candidates[picked[k]].1];
            sessions.push(SessionSummary::from_head(e.0.as_str(), &e.1.doc));
            k = k + 1;
        }
        let more = picked.len() > query.limit;
        proof {
            if query.limit == 0 && more {
                let c = picked@[0] as int;
                assert(crate::order::above(cursor_view(query.cursor), rows[c].0));
                assert(rows_after(rows, cursor_view(query.cursor)));
            }
        }
        let next_cursor = if more {
            Some(candidates[picked[query.limit - 1]].0.clone())
        } else {
            None
        };
        let page = SessionPage { sessions, next_cursor };
        proof {
            assert(ordered_page(row_keys(rows), cursor_view(query.cursor), session_page_cap(query.limit), picked@));
        }
        Ok(page)
    }

    /// Up to `limit` sessions' HEADs, in table order.
    pub fn list_sessions(&self, limit: usize) -> (r: Vec<Head>)
        requires
            self.wf(),
        ensures
            r@.len() == (if limit < self.sessions@.len() { limit as int } else { self.sessions@.len() as int }),
            forall|i: int| 0 <= i < r@.len() ==> {
                let (id, s) = self.sessions@[i];
                &&& (#[trigger] r@[i]).session_id@ == id@
                &&& r@[i].doc.copy_of(&s.doc)
                &&& r@[i].fence == s.fence
                &&& r@[i].last_seq == s.last_seq
                &&& r@[i].retention == s.retention
            },
    {
        let n = if limit < self.sessions.len() { limit } else { self.sessions.len() };
        let mut out: Vec<Head> = Vec::new();
        let mut i: usize = 0;
        while i < n
            invariant
                n <= self.sessions@.len(),
                n as int == (if limit < self.sessions@.len() { limit as int } else { self.sessions@.len() as int }),
                i <= n,
                out@.len() == i,
                forall|k: int| 0 <= k < i ==> {
                    let (id, s) = self.sessions@[k];
                    &&& (#[trigger] out@[k]).session_id@ == id@
                    &&& out@[k].doc.copy_of(&s.doc)
                    &&& out@[k].fence == s.fence
                    &&& out@[k].last_seq == s.last_seq
                    &&& out@[k].retention == s.retention
                },
            decreases n - i,
        {
            let e = &self.sessions[i];
            out.push(Head {
                session_id: e.0.clone(),
                doc: e.1.doc.duplicate(),
                fence: e.1.fence,
                last_seq: e.1.last_seq,
                retention: e.1.retention,
            });
            i = i + 1;
        }
        out
    }
}

/// The listing row of an earlier candidate.
spec fn pre_row(sessions: Seq<(String, MemSession)>, i: int, tenant: Seq<char>, state: Option<SessionLifecycle>, c: int) -> (Seq<char>, (String, HeadDoc)) {
    session_rows(sessions.take(i), tenant, state)[c]
}

/// `2^k`.
pub open spec fn doubling(k: nat) -> nat
    decreases k,
{
    if k == 0 { 1 } else { 2 * doubling((k - 1) as nat) }
}

/// The exponential part of the delay before recovery attempt `attempt`: the base, doubled once
/// per earlier attempt (at most eighteen times), capped at the maximum.
pub open spec fn recovery_backoff_spec(attempt: u32) -> u64 {
    let k: int = if attempt == 0 { 0 } else if attempt - 1 > 18 { 18 } else { attempt - 1 };
    let e = RECOVERY_BACKOFF_BASE_MS * doubling(k as nat);
    if e > RECOVERY_BACKOFF_MAX_MS { RECOVERY_BACKOFF_MAX_MS } else { e as u64 }
}

/// The four big-endian bytes of a `u32`.
pub open spec fn be_bytes_u32(a: u32) -> Seq<u8> {
    seq![(a / 0x100_0000) as u8, (a / 0x1_0000 % 256) as u8, (a / 256 % 256) as u8, (a % 256) as u8]
}

/// The `u64` whose big-endian bytes are the first eight of `d`.
pub open spec fn be_u64_of(d: Seq<u8>) -> int {
    d[0] * 0x100_0000_0000_0000 + d[1] * 0x1_0000_0000_0000 + d[2] * 0x100_0000_0000 + d[3] * 0x1_0000_0000
        + d[4] * 0x100_0000 + d[5] * 0x1_0000 + d[6] * 0x100 + d[7]
}

/// The jitter added to a recovery delay: the first eight digest bytes of the session id and the
/// attempt number, taken modulo a quarter of the backoff plus one. Deterministic per attempt,
/// so that sessions failing together spread out.
pub open spec fn recovery_jitter_spec(session_id: Seq<u8>, attempt: u32, backoff: u64) -> u64 {
    (be_u64_of(sha256_of(session_id + be_bytes_u32(attempt))) % (backoff / 4 + 1) as int) as u64
}

/// The exponential delay before recovery attempt `attempt`.
pub fn recovery_backoff(attempt: u32) -> (r: u64)
    ensures
        r == recovery_backoff_spec(attempt),
        r <= RECOVERY_BACKOFF_MAX_MS,
{
    let k: u32 = if attempt == 0 { 0 } else if attempt - 1 > 18 { 18 } else { attempt - 1 };
    let mut e: u64 = RECOVERY_BACKOFF_BASE_MS;
    let mut j: u32 = 0;
    while j < k
        invariant
            j <= k,
            k <= 18,
            e == (if RECOVERY_BACKOFF_BASE_MS * doubling(j as nat) > RECOVERY_BACKOFF_MAX_MS {
                RECOVERY_BACKOFF_MAX_MS as int
            } else {
                RECOVERY_BACKOFF_BASE_MS * doubling(j as nat)
            }),
        decreases k - j,
    {
        assert(doubling((j + 1) as nat) == 2 * doubling(j as nat));
        e = if e * 2 > RECOVERY_BACKOFF_MAX_MS { RECOVERY_BACKOFF_MAX_MS } else { e * 2 };
        j = j + 1;
    }
    e
}

/// The jitter for recovery attempt `attempt` of a session, below a quarter of `backoff` plus one.
pub fn recovery_jitter(session_id: &str, attempt: u32, backoff: u64) -> (r: u64)
    ensures
        r == recovery_jitter_spec(session_id.spec_bytes(), attempt, backoff),
        r <= backoff / 4,
{
    let mut input: Vec<u8> = Vec::new();
    append_bytes(&mut input, session_id.as_bytes());
    input.push((attempt / 0x100_0000) as u8);
    input.push((attempt / 0x1_0000 % 256) as u8);
    input.push((attempt / 256 % 256) as u8);
    input.push((attempt % 256) as u8);
    assert(input@ =~= session_id.spec_bytes() + be_bytes_u32(attempt));
    let d = sha256(input.as_slice());
    let v: u64 = (d[0] as u64) * 0x100_0000_0000_0000 + (d[1] as u64) * 0x1_0000_0000_0000
        + (d[2] as u64) * 0x100_0000_0000 + (d[3] as u64) * 0x1_0000_0000 + (d[4] as u64) * 0x100_0000
        + (d[5] as u64) * 0x1_0000 + (d[6] as u64) * 0x100 + (d[7] as u64);
    v % (backoff / 4 + 1)
}

/// When the next recovery attempt is due: after the backoff and the jitter, saturating.
pub open spec fn recovery_due_spec(session_id: Seq<u8>, attempt: u32, now_ms: u64) -> u64 {
    let backoff = recovery_backoff_spec(attempt);
    sat_add(sat_add(now_ms, backoff), recovery_jitter_spec(session_id, attempt, backoff))
}

impl MemoryStore {
    /// On the failure path: count one more recovery attempt, release ownership and schedule the
    /// attempt after an exponential backoff with per-session jitter. `sizes` are the serialized
    /// sizes of the updated HEAD.
    pub fn defer_recovery(&mut self, session_id: &str, owner: &str, now_ms: u64, sizes: &DecisionSizes) -> (r: Result<(), BrainError>)
        requires
            old(self).wf(),
            sizes.record_bytes@.len() == 0,
        ensures
            final(self).wf(),
            final(self).same_tables_but_sessions(old(self)),
            !old(self).session_map().contains_key(session_id@) ==> *final(self) == *old(self)
                && (r matches Err(BrainError::NoSuchSession(id)) && id@ == session_id@),
            old(self).session_map().contains_key(session_id@) ==> {
                let s = old(self).session_map()[session_id@];
                let attempt = if s.doc.recovery_attempt == u32::MAX { u32::MAX } else { (s.doc.recovery_attempt + 1) as u32 };
                let due = recovery_due_spec(session_id.spec_bytes(), attempt, now_ms);
                match decision_fault(0, sizes.control_bytes, sizes.listing_bytes, sizes.record_bytes@) {
                    Some(f) => *final(self) == *old(self) && r == Err::<(), BrainError>(BrainError::Invalid(f)),
                    None => if !(s.owner matches Some(o) && o@ == owner@) {
                        *final(self) == *old(self) && r == Err::<(), BrainError>(BrainError::Fenced)
                    } else {
                        r is Ok && final(self).session_map() == old(self).session_map().insert(
                            session_id@,
                            MemSession {
                                doc: HeadDoc { recovery_attempt: attempt, recovery_due_ms: Some(due), ..s.doc },
                                owner: None,
                                lease_expires_ms: 0,
                                ..s
                            },
                        )
                    },
                }
            },
    {
        let i = match find(&self.sessions, session_id) {
            None => return Err(BrainError::NoSuchSession(session_id.to_owned())),
            Some(i) => i,
        };
        proof {
            lemma_entry(self.sessions@, i as int);
        }
        let current = self.sessions[i].1.doc.recovery_attempt;
        let attempt: u32 = if current == u32::MAX { u32::MAX } else { current + 1 };
        let backoff = recovery_backoff(attempt);
        let jitter = recovery_jitter(session_id, attempt, backoff);
        let due = now_ms.saturating_add(backoff).saturating_add(jitter);
        let none: Vec<(u64, Record)> = Vec::new();
        validate_decision(none.as_slice(), sizes)?;
        let holder = match &self.sessions[i].1.owner {
            Some(o) => str_eq(o.as_str(), owner),
            None => false,
        };
        if !holder {
            return Err(BrainError::Fenced);
        }
        let ghost before = *self;
        let (key, mut s) = self.sessions.remove(i);
        proof {
            assert(s == before.sessions@[i as int].1);
        }
        s.doc.recovery_attempt = attempt;
        s.doc.recovery_due_ms = Some(due);
        s.owner = None;
        s.lease_expires_ms = 0;
        self.put_back(i, key, s, Ghost(before));
        Ok(())
    }
}

/// The records from position `i` whose sequence lies in `(after, through]`, in order.
pub open spec fn window(records: Seq<(u64, u64, Record)>, after: u64, through: u64, i: int) -> Seq<(u64, u64, Record)>
    decreases records.len() - i,
{
    if i < 0 || i >= records.len() {
        Seq::empty()
    } else if records[i].0 <= after || records[i].0 > through {
        window(records, after, through, i + 1)
    } else {
        seq![records[i]] + window(records, after, through, i + 1)
    }
}

/// Moving the lower bound of a window past no record changes nothing.
proof fn lemma_window_shift(records: Seq<(u64, u64, Record)>, a: u64, b: u64, t: u64, j: int)
    requires
        0 <= j,
        a <= b,
        forall|k: int| j <= k < records.len() ==> (#[trigger] records[k]).0 > b,
    ensures
        window(records, a, t, j) == window(records, b, t, j),
    decreases records.len() - j,
{
    if j < records.len() {
        lemma_window_shift(records, a, b, t, j + 1);
    }
}

/// Every record a page scan takes is a record at or after the scan's start, inside the range.
proof fn lemma_scan_members(
    records: Seq<(u64, u64, Record)>,
    sizes: Seq<u64>,
    a: u64,
    t: u64,
    limit: int,
    max_bytes: int,
    j: int,
    taken: int,
    bytes: int,
)
    requires
        0 <= j,
    ensures
        forall|m: int| 0 <= m < page_scan(records, sizes, a, t, limit, max_bytes, j, taken, bytes).0.len() ==> exists|k: int|
            j <= k < records.len() && #[trigger] page_scan(records, sizes, a, t, limit, max_bytes, j, taken, bytes).0[m] == records[k]
                && a < records[k].0 <= t,
    decreases records.len() - j,
{
    if j < records.len() {
        if records[j].0 <= a || records[j].0 > t {
            lemma_scan_members(records, sizes, a, t, limit, max_bytes, j + 1, taken, bytes);
            let sc = page_scan(records, sizes, a, t, limit, max_bytes, j, taken, bytes);
            let rest = page_scan(records, sizes, a, t, limit, max_bytes, j + 1, taken, bytes);
            assert forall|m: int| 0 <= m < sc.0.len() implies exists|k: int| j <= k < records.len() && #[trigger] sc.0[m] == records[k]
                && a < records[k].0 <= t by {
                assert(sc.0[m] == rest.0[m]);
                let k = choose|k: int| j + 1 <= k < records.len() && #[trigger] rest.0[m] == records[k] && a < records[k].0 <= t;
                assert(sc.0[m] == records[k]);
            }
        } else {
            let next = if bytes + sizes[j] > u64::MAX { u64::MAX as int } else { bytes + sizes[j] };
            if !(taken >= limit || next > max_bytes) {
                lemma_scan_members(records, sizes, a, t, limit, max_bytes, j + 1, taken + 1, next);
                let sc = page_scan(records, sizes, a, t, limit, max_bytes, j, taken, bytes);
                let rest = page_scan(records, sizes, a, t, limit, max_bytes, j + 1, taken + 1, next);
                assert forall|m: int| 0 <= m < sc.0.len() implies exists|k: int| j <= k < records.len() && #[trigger] sc.0[m] == records[k]
                    && a < records[k].0 <= t by {
                    if m == 0 {
                        assert(sc.0[0] == records[j]);
                    } else {
                        assert(sc.0[m] == rest.0[m - 1]);
                        let k = choose|k: int| j + 1 <= k < records.len() && #[trigger] rest.0[m - 1] == records[k] && a < records[k].0 <= t;
                        assert(sc.0[m] == records[k]);
                    }
                }
            }
        }
    }
}

/// A page scan is a prefix of the window: all of it when nothing stopped the page, and
/// otherwise the window is the page followed by the window after the page's last record.
proof fn lemma_scan_window(
    records: Seq<(u64, u64, Record)>,
    sizes: Seq<u64>,
    a: u64,
    t: u64,
    limit: int,
    max_bytes: int,
    j: int,
    taken: int,
    bytes: int,
)
    requires
        0 <= j,
        records_sorted(records),
    ensures
        ({
            let sc = page_scan(records, sizes, a, t, limit, max_bytes, j, taken, bytes);
            &&& !sc.1 ==> sc.0 == window(records, a, t, j)
            &&& sc.1 && sc.0.len() > 0 ==> window(records, a, t, j) == sc.0 + window(records, sc.0.last().0, t, j)
        }),
    decreases records.len() - j,
{
    if j < records.len() {
        if records[j].0 <= a || records[j].0 > t {
            lemma_scan_window(records, sizes, a, t, limit, max_bytes, j + 1, taken, bytes);
            let sc = page_scan(records, sizes, a, t, limit, max_bytes, j, taken, bytes);
            if sc.1 && sc.0.len() > 0 {
                lemma_scan_members(records, sizes, a, t, limit, max_bytes, j + 1, taken, bytes);
                assert(sc.0.last() == sc.0[sc.0.len() - 1]);
            }
        } else {
            let next = if bytes + sizes[j] > u64::MAX { u64::MAX as int } else { bytes + sizes[j] };
            if !(taken >= limit || next > max_bytes) {
                lemma_scan_window(records, sizes, a, t, limit, max_bytes, j + 1, taken + 1, next);
                let sc = page_scan(records, sizes, a, t, limit, max_bytes, j, taken, bytes);
                let rest = page_scan(records, sizes, a, t, limit, max_bytes, j + 1, taken + 1, next);
                assert(sc.0 == seq![records[j]] + rest.0);
                if sc.1 {
                    let last = sc.0.last().0;
                    if rest.0.len() > 0 {
                        lemma_scan_members(records, sizes, a, t, limit, max_bytes, j + 1, taken + 1, next);
                        assert(rest.0.last() == rest.0[rest.0.len() - 1]);
                        let k = choose|k: int| j + 1 <= k < records.len() && #[trigger] rest.0[rest.0.len() - 1] == records[k]
                            && a < records[k].0 <= t;
                        assert(records[j].0 < records[k].0);
                        assert(sc.0.last() == rest.0.last());
                        assert(window(records, last, t, j) == window(records, last, t, j + 1));
                        assert(window(records, a, t, j) =~= sc.0 + window(records, last, t, j));
                    } else {
                        assert(sc.0 =~= seq![records[j]]);
                        assert forall|k: int| j + 1 <= k < records.len() implies (#[trigger] records[k]).0 > records[j].0 by {
                            assert(records[j].0 < records[k].0);
                        }
                        lemma_window_shift(records, a, records[j].0, t, j + 1);
                        assert(window(records, a, t, j) =~= sc.0 + window(records, last, t, j));
                    }
                } else {
                    assert(sc.0 =~= window(records, a, t, j));
                }
            }
        }
    }
}

impl MemoryStore {
    /// Every record of a session after `after` through the high-water `through_seq`, collected
    /// page by page with the default budgets. `sizes` are as for `read_record_page`.
    pub fn read_records_through(&self, session_id: &str, after: u64, through_seq: u64, sizes: &[u64]) -> (r: Result<Vec<Entry>, BrainError>)
        requires
            self.wf(),
            self.session_map().contains_key(session_id@) ==> sizes@.len() == self.session_map()[session_id@].records@.len(),
            forall|k: int| 0 <= k < sizes@.len() ==> sizes@[k] <= MAX_SERIALIZED_RECORD_BYTES,
        ensures
            !self.session_map().contains_key(session_id@) ==> (r matches Err(BrainError::NoSuchSession(id)) && id@ == session_id@),
            self.session_map().contains_key(session_id@) ==> (r matches Ok(entries) && {
                let w = window(self.session_map()[session_id@].records@, after, through_seq, 0);
                &&& entries@.len() == w.len()
                &&& forall|k: int| 0 <= k < w.len() ==> (#[trigger] entries@[k]).seq == w[k].0 && entries@[k].ts_ms == w[k].1
                    && entries@[k].record.copy_of(&w[k].2)
            }),
    {
        let ghost records = if self.session_map().contains_key(session_id@) {
            self.session_map()[session_id@].records@
        } else {
            Seq::empty()
        };
        proof {
            if self.session_map().contains_key(session_id@) {
                let i = choose|i: int| 0 <= i < self.sessions@.len() && (#[trigger] self.sessions@[i]).0@ == session_id@;
                lemma_entry(self.sessions@, i);
            }
        }
        let mut entries: Vec<Entry> = Vec::new();
        let ghost mut got: Seq<(u64, u64, Record)> = Seq::empty();
        let mut cursor = after;
        loop
            invariant
                self.wf(),
                self.session_map().contains_key(session_id@) ==> sizes@.len() == self.session_map()[session_id@].records@.len(),
                forall|k: int| 0 <= k < sizes@.len() ==> sizes@[k] <= MAX_SERIALIZED_RECORD_BYTES,
                self.session_map().contains_key(session_id@) ==> records == self.session_map()[session_id@].records@
                    && records_sorted(records),
                window(records, after, through_seq, 0) == got + window(records, cursor, through_seq, 0),
                entries@.len() == got.len(),
                forall|k: int| 0 <= k < got.len() ==> (#[trigger] entries@[k]).seq == got[k].0 && entries@[k].ts_ms == got[k].1
                    && entries@[k].record.copy_of(&got[k].2),
            decreases through_seq - cursor,
        {
            let query = RecordPageQuery {
                session_id,
                after: cursor,
                through_seq,
                limit: crate::retention::DEFAULT_RECORD_PAGE_ITEMS,
                max_bytes: crate::retention::DEFAULT_RECORD_PAGE_BYTES,
            };
            let page = match self.read_record_page(&query, sizes) {
                Ok(page) => page,
                Err(e) => return Err(e),
            };
            let ghost scan = page_scan(
                records,
                sizes@,
                cursor,
                through_seq,
                crate::retention::DEFAULT_RECORD_PAGE_ITEMS as int,
                crate::retention::DEFAULT_RECORD_PAGE_BYTES as int,
                0,
                0,
                0,
            );
            proof {
                if cursor < through_seq {
                    lemma_scan_window(
                        records,
                        sizes@,
                        cursor,
                        through_seq,
                        crate::retention::DEFAULT_RECORD_PAGE_ITEMS as int,
                        crate::retention::DEFAULT_RECORD_PAGE_BYTES as int,
                        0,
                        0,
                        0,
                    );
                    if scan.0.len() > 0 {
                        lemma_scan_members(
                            records,
                            sizes@,
                            cursor,
                            through_seq,
                            crate::retention::DEFAULT_RECORD_PAGE_ITEMS as int,
                            crate::retention::DEFAULT_RECORD_PAGE_BYTES as int,
                            0,
                            0,
                            0,
                        );
                        assert(scan.0.last() == scan.0[scan.0.len() - 1]);
                    }
                } else {
                    assert(window(records, cursor, through_seq, 0) =~= Seq::empty()) by {
                        lemma_window_empty(records, cursor, through_seq, 0);
                    }
                }
            }
            let ghost page_got = if cursor < through_seq { scan.0 } else { Seq::<(u64, u64, Record)>::empty() };
            let ghost page_entries = page.entries@;
            let ghost before = entries@;
            let mut page = page;
            let next_after = page.next_after;
            entries.append(&mut page.entries);
            proof {
                let old_got = got;
                got = got + page_got;
                assert forall|m: int| 0 <= m < got.len() implies (#[trigger] entries@[m]).seq == got[m].0 && entries@[m].ts_ms == got[m].1
                    && entries@[m].record.copy_of(&got[m].2) by {
                    if m < old_got.len() {
                        assert(entries@[m] == before[m]);
                    } else {
                        assert(entries@[m] == page_entries[m - old_got.len()]);
                    }
                }
            }
            match next_after {
                None => {
                    proof {
                        assert(got =~= window(records, after, through_seq, 0));
                    }
                    return Ok(entries);
                },
                Some(next) => {
                    proof {
                        assert(window(records, after, through_seq, 0) =~= got + window(records, next, through_seq, 0));
                    }
                    cursor = next;
                },
            }
        }
    }
}

/// A window whose lower bound is at or past its upper bound is empty.
proof fn lemma_window_empty(records: Seq<(u64, u64, Record)>, a: u64, t: u64, j: int)
    requires
        0 <= j,
        a >= t,
    ensures
        window(records, a, t, j) == Seq::<(u64, u64, Record)>::empty(),
    decreases records.len() - j,
{
    if j < records.len() {
        lemma_window_empty(records, a, t, j + 1);
    }
}

impl MemoryStore {
    /// Every record of a session after `after`, through the HEAD high-water read first.
    pub fn read_records(&self, session_id: &str, after: u64, sizes: &[u64]) -> (r: Result<Vec<Entry>, BrainError>)
        requires
            self.wf(),
            self.session_map().contains_key(session_id@) ==> sizes@.len() == self.session_map()[session_id@].records@.len(),
            forall|k: int| 0 <= k < sizes@.len() ==> sizes@[k] <= MAX_SERIALIZED_RECORD_BYTES,
        ensures
            !self.session_map().contains_key(session_id@) ==> (r matches Err(BrainError::NoSuchSession(id)) && id@ == session_id@),
            self.session_map().contains_key(session_id@) ==> (r matches Ok(entries) && {
                let s = self.session_map()[session_id@];
                let w = window(s.records@, after, s.last_seq, 0);
                &&& entries@.len() == w.len()
                &&& forall|k: int| 0 <= k < w.len() ==> (#[trigger] entries@[k]).seq == w[k].0 && entries@[k].ts_ms == w[k].1
                    && entries@[k].record.copy_of(&w[k].2)
            }),
    {
        let through_seq = match self.get_head(session_id) {
            Ok(head) => head.last_seq,
            Err(e) => return Err(e),
        };
        self.read_records_through(session_id, after, through_seq, sizes)
    }
}

/// A record in range at or after position `j` is in the window from `j`.
proof fn lemma_window_holds(records: Seq<(u64, u64, Record)>, a: u64, t: u64, j: int, idx: int)
    requires
        0 <= j <= idx < records.len(),
        a < records[idx].0 <= t,
    ensures
        exists|m: int| 0 <= m < window(records, a, t, j).len() && #[trigger] window(records, a, t, j)[m] == records[idx],
    decreases idx - j,
{
    if j == idx {
        assert(window(records, a, t, j)[0] == records[idx]);
    } else {
        lemma_window_holds(records, a, t, j + 1, idx);
        let m = choose|m: int| 0 <= m < window(records, a, t, j + 1).len() && #[trigger] window(records, a, t, j + 1)[m] == records[idx];
        if records[j].0 <= a || records[j].0 > t {
            assert(window(records, a, t, j)[m] == records[idx]);
        } else {
            assert(window(records, a, t, j)[m + 1] == records[idx]);
        }
    }
}

/// A committed record reads back: after a commit, every record it wrote (the last one written
/// under each sequence) is in each window of the session's records that covers its sequence,
/// stamped with the commit time and holding what was written.
pub proof fn committed_records_read_back(
    before: MemoryStore,
    after: MemoryStore,
    session_id: Seq<char>,
    records: Seq<(u64, Record)>,
    doc: HeadDoc,
    high_water: u64,
    now_ms: u64,
    tenant_storage_delta: i64,
    retention: JournalRetention,
    tenant_retention_delta: i64,
    i: int,
    from: u64,
    through: u64,
)
    requires
        after.wf(),
        committed(before, after, session_id, records, doc, high_water, now_ms, tenant_storage_delta, retention, tenant_retention_delta),
        0 <= i < records.len(),
        last_of_seq(records, i),
        from < records[i].0 <= through,
    ensures
        ({
            let w = window(after.session_map()[session_id].records@, from, through, 0);
            exists|m: int| 0 <= m < w.len() && (#[trigger] w[m]).0 == records[i].0 && w[m].1 == now_ms && w[m].2.copy_of(&records[i].1)
        }),
{
    let n = after.session_map()[session_id];
    let k = records[i].0;
    let p = choose|p: int| 0 <= p < after.sessions@.len() && (#[trigger] after.sessions@[p]).0@ == session_id;
    lemma_entry(after.sessions@, p);
    assert(records_sorted(after.sessions@[p].1.records@));
    assert(record_map(n.records@).contains_key(k));
    let idx = choose|idx: int| 0 <= idx < n.records@.len() && (#[trigger] n.records@[idx]).0 == k;
    lemma_record_entry(n.records@, idx);
    lemma_window_holds(n.records@, from, through, 0, idx);
    let w = window(n.records@, from, through, 0);
    let m = choose|m: int| 0 <= m < w.len() && #[trigger] w[m] == n.records@[idx];
    assert(w[m].0 == records[i].0);
}


/// End-fence law: once a session is end-fenced it stays fenced, so a retried `fence_end` finds
/// it ending and, by `fence_end`'s contract, returns the stored HEAD as not newly fenced and
/// changes nothing: no second END record, no meter, owner or lease change.
pub proof fn end_fence_is_idempotent(
    before: MemoryStore,
    after: MemoryStore,
    session_id: Seq<char>,
    now_ms: u64,
    limits: JournalRetentionLimits,
    sizes: DecisionSizes,
)
    requires
        end_fenced_store(before, after, session_id, now_ms, limits, sizes),
    ensures
        after.session_map().contains_key(session_id),
        end_fenced(after.session_map()[session_id].doc.state),
{
    assert(after.session_map().contains_key(session_id));
}

} // verus!
