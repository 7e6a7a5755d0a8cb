use brain::decision::DecisionSizes;
use brain::docs::{DeletionStatusDoc, HeadDoc, PrefixDoc, SandboxReserveRequest, SandboxUpdateRequest, LEASE_MS, STEAL_GRACE_MS};
use brain::error::BrainError;
use brain::memory::{recovery_backoff, recovery_jitter, MemoryStore};
use brain::journal::Journal;
use brain::docs::Lease;
use brain::docs::{ChildListQuery, RecoveryQuery, SandboxListQuery, SessionListQuery};
use brain::retention::{RecordPageQuery, DEFAULT_MAX_SESSION_JOURNAL_BYTES, DEFAULT_MAX_TENANT_JOURNAL_BYTES, DEFAULT_RECORD_PAGE_BYTES};
use brain::vocab::TurnPhase;
use brain::names::recovery_shard;
use brain::names::tenant_session_sort_key;
use brain::records::{Record, SandboxState, SandboxStatus};
use brain::retention::{initial_retention, project_retention, retention_delta, JournalRetentionLimits};
use brain::vocab::{DeletionState, SessionLifecycle};
use brain::writer::{Pending, WriteQueue, MAX_BATCH_REQUESTS, OWNER_QUEUE_BYTES};

fn doc(tenant: &str, root: &str, parent: Option<&str>, ancestors: &[&str]) -> HeadDoc {
    HeadDoc {
        loop_state: None,
        tenant_id: tenant.into(),
        root_id: root.into(),
        parent_id: parent.map(|p| p.to_string()),
        ancestor_ids: ancestors.iter().map(|a| a.to_string()).collect(),
        child_name: None,
        context_fork: None,
        depth: ancestors.len() as u32,
        last_seq: 1,
        state: SessionLifecycle::Open,
        failure: None,
        turn: None,
        active_phase: None,
        provider_attempt: None,
        active_context: Vec::new(),
        active_rounds: 0,
        active_tool_calls: 0,
        message_replays: vec![],
        context: None,
        turns: 0,
        created_ms: 1,
        updated_ms: 1,
        recovery_due_ms: None,
        recovery_attempt: 0,
        create_key_hash: None,
        create_request_hash: None,
        last_message_ms: None,
        ended: false,
        prefix: PrefixDoc {
            agentloop: None,
            system_prompt: None,
            provider: "anthropic".into(),
            model: "m".into(),
            base_url: None,
            max_output_tokens: None,
            context_window_tokens: 32 * 1024,
            context_soft_tokens: 18 * 1024,
            context_hard_tokens: 22 * 1024,
            context_tail_tokens: 4 * 1024,
            context_summary_tokens: 4 * 1024,
            temperature: None,
            reasoning_effort: None,
            provider_recovery_retries: 1,
            storage_max_object_bytes: 1024,
            storage_max_session_bytes: 4096,
            storage_transfer_ttl_ms: 1000,
            max_child_depth: 4,
            max_direct_children: 1,
            max_descendants: 256,
            max_additional_sandboxes_per_root: 2,
            network: "{}".into(),
            customer_client_id: None,
            customer_submit_retries: 1,
            rendered_base: "{}".into(),
            rendered_base_digest: String::new(),
            prompt_cache_key: String::new(),
            tools: "[]".into(),
            managed_bundles: "[]".into(),
            official_capabilities: "{}".into(),
            hand_enabled: true,
            shape: "1gb".into(),
            sync_interval_seconds: 600,
            hand_env_keys: vec![],
            metadata: Vec::new(),
        },
        key_b64: "AAAA".into(),
        hand_secrets_b64: String::new(),
        session_storage_bytes: 0,
        storage_reserved_bytes: 0,
        tenant_metered_storage_bytes: 0,
        storage_upload: None,
        storage_delete: None,
        pending_customer_acks: vec![],
        pending_managed_acks: vec![],
        default_sandbox: None,
    }
}

fn sizes(records: usize) -> DecisionSizes {
    DecisionSizes { control_bytes: 2000, listing_bytes: 600, record_bytes: vec![80; records] }
}

fn first() -> Record {
    Record::State { state: SessionLifecycle::Open, turn: None }
}

fn create(store: &mut MemoryStore, id: &str, d: &HeadDoc) -> Result<(), BrainError> {
    let limits = JournalRetentionLimits::default();
    let retention = initial_retention(80, limits.session_bytes).unwrap();
    store.create(id, d, &first(), 10, u64::MAX, retention, limits, 1000, &sizes(1))
}

fn commit(store: &mut MemoryStore, id: &str, owner: &str, fence: u64, records: &[(u64, Record)], now: u64) -> Result<(), BrainError> {
    let limits = JournalRetentionLimits::default();
    let head = store.get_head(id).unwrap();
    let bytes = vec![80; records.len()];
    let next = project_retention(head.retention, records, &bytes, limits.session_bytes).unwrap();
    let delta = retention_delta(head.retention, next).unwrap();
    let high = records.last().map(|r| r.0).unwrap_or(head.last_seq);
    store.commit(id, owner, fence, records, &head.doc, high, now, 0, u64::MAX, next, delta, limits, &sizes(records.len()))
}

fn tenant_meter(store: &MemoryStore, tenant: &str) -> u64 {
    store.tenant_storage.iter().find(|(t, _)| t == tenant).map(|(_, v)| *v).unwrap_or(0)
}

#[test]
fn memory_journal_fences_out_a_stale_owner() {
    let mut store = MemoryStore::new();
    create(&mut store, "ses_root", &doc("local", "ses_root", None, &[])).unwrap();
    assert!(matches!(create(&mut store, "ses_root", &doc("local", "ses_root", None, &[])), Err(BrainError::Invalid(_))));
    let a = store.claim("ses_root", "owner_a", 1_000).unwrap();
    assert_eq!(a.fence, 1);
    assert!(matches!(store.claim("ses_root", "owner_b", 2_000), Err(BrainError::Fenced)));
    commit(&mut store, "ses_root", "owner_a", 1, &[(2, Record::TurnStarted { turn: "t1".into() })], 3_000).unwrap();
    assert_eq!(store.get_head("ses_root").unwrap().last_seq, 2);
    let stolen_at = 3_000 + LEASE_MS + STEAL_GRACE_MS + 1;
    let b = store.claim("ses_root", "owner_b", stolen_at).unwrap();
    assert_eq!(b.fence, 2);
    assert!(matches!(
        commit(&mut store, "ses_root", "owner_a", 1, &[(3, Record::TurnStarted { turn: "t2".into() })], stolen_at),
        Err(BrainError::Fenced)
    ));
    assert!(matches!(
        commit(&mut store, "ses_root", "owner_b", 2, &[(2, Record::TurnStarted { turn: "t2".into() })], stolen_at),
        Err(BrainError::Fenced)
    ));
    assert!(matches!(store.claim("ses_missing", "owner_a", 1), Err(BrainError::NoSuchSession(id)) if id == "ses_missing"));
}

#[test]
fn child_admission_is_atomic_at_the_direct_limit_and_releases_once() {
    let mut store = MemoryStore::new();
    create(&mut store, "ses_root", &doc("local", "ses_root", None, &[])).unwrap();
    let child = doc("local", "ses_root", Some("ses_root"), &["ses_root"]);
    create(&mut store, "ses_c1", &child).unwrap();
    assert!(matches!(create(&mut store, "ses_c2", &child), Err(BrainError::Overloaded)));
    let wrong_path = doc("local", "ses_root", Some("ses_root"), &["ses_other"]);
    assert!(create(&mut store, "ses_c3", &wrong_path).is_err());
    let orphan = doc("local", "ses_none", Some("ses_none"), &["ses_none"]);
    assert!(matches!(create(&mut store, "ses_c4", &orphan), Err(BrainError::NoSuchSession(id)) if id == "ses_none"));
    let head = store.get_head("ses_c1").unwrap();
    let status = DeletionStatusDoc {
        session_id: "ses_c1".into(),
        tenant_id: "local".into(),
        root_id: "ses_root".into(),
        parent_id: Some("ses_root".into()),
        metered_storage_bytes: 0,
        metered_journal_bytes: head.retention.metered_bytes,
        state: DeletionState::Succeeded,
        requested_at_ms: 1,
        updated_at_ms: 2,
        completed_at_ms: Some(2),
        expires_at_ms: 100,
        attempts: 1,
        last_error: None,
    };
    store.finalize_deletion(&status).unwrap();
    assert!(store.get_head("ses_c1").is_err());
    store.finalize_deletion(&status).unwrap();
    create(&mut store, "ses_c2", &child).unwrap();
    assert_eq!(store.get_deletion_status("ses_c1", 50).unwrap().unwrap().state, DeletionState::Succeeded);
    assert_eq!(store.get_deletion_status("ses_c1", 100).unwrap(), None);
}

#[test]
fn root_bundle_bytes_reserve_tenant_capacity_at_create_and_release_once() {
    let mut store = MemoryStore::new();
    let mut root = doc("tenant_a", "ses_root", None, &[]);
    root.tenant_metered_storage_bytes = 100;
    create(&mut store, "ses_root", &root).unwrap();
    assert_eq!(tenant_meter(&store, "tenant_a"), 100);
    let limits = JournalRetentionLimits::default();
    let retention = initial_retention(80, limits.session_bytes).unwrap();
    let mut second = doc("tenant_a", "ses_two", None, &[]);
    second.tenant_metered_storage_bytes = 50;
    assert!(matches!(
        store.create("ses_two", &second, &first(), 10, 120, retention, limits, 1000, &sizes(1)),
        Err(BrainError::TenantStorageQuotaExceeded { requested: 50, limit: 120 })
    ));
    let head = store.get_head("ses_root").unwrap();
    let mut status = DeletionStatusDoc {
        session_id: "ses_root".into(),
        tenant_id: "tenant_a".into(),
        root_id: "ses_root".into(),
        parent_id: None,
        metered_storage_bytes: 99,
        metered_journal_bytes: head.retention.metered_bytes,
        state: DeletionState::Deleting,
        requested_at_ms: 1,
        updated_at_ms: 2,
        completed_at_ms: None,
        expires_at_ms: 100,
        attempts: 1,
        last_error: None,
    };
    assert!(matches!(store.finalize_deletion(&status), Err(BrainError::Journal(_))));
    status.metered_storage_bytes = 100;
    store.finalize_deletion(&status).unwrap();
    assert_eq!(tenant_meter(&store, "tenant_a"), 0);
}

#[test]
fn end_fence_is_appended_once() {
    let mut store = MemoryStore::new();
    create(&mut store, "ses_root", &doc("local", "ses_root", None, &[])).unwrap();
    store.claim("ses_root", "owner_a", 1_000).unwrap();
    let limits = JournalRetentionLimits::default();
    let first_end = store.fence_end("ses_root", 2_000, limits, &sizes(1)).unwrap();
    assert!(first_end.newly_fenced);
    assert_eq!(first_end.head.last_seq, 2);
    assert_eq!(first_end.head.fence, 2);
    assert_eq!(first_end.head.doc.state, SessionLifecycle::Ending);
    assert!(first_end.head.doc.ended);
    assert_eq!(first_end.head.doc.recovery_due_ms, Some(2_000 + LEASE_MS + STEAL_GRACE_MS));
    let again = store.fence_end("ses_root", 3_000, limits, &sizes(1)).unwrap();
    assert!(!again.newly_fenced);
    assert_eq!(again.head.last_seq, 2);
    assert!(matches!(
        commit(&mut store, "ses_root", "owner_a", 1, &[(3, Record::TurnStarted { turn: "t1".into() })], 4_000),
        Err(BrainError::Fenced)
    ));
    let child = doc("local", "ses_root", Some("ses_root"), &["ses_root"]);
    assert!(matches!(create(&mut store, "ses_child", &child), Err(BrainError::Invalid(_))));
}

fn status(state: SandboxState) -> SandboxStatus {
    SandboxStatus { state, expires_at_ms: None, target: "{\"id\":1}".into(), detail: String::new() }
}

fn reserve(id: &str, op: &str) -> SandboxReserveRequest {
    SandboxReserveRequest {
        root_id: "ses_root".into(),
        owner_session_id: "ses_root".into(),
        sandbox_id: id.into(),
        operation_id: op.into(),
        request_digest: "d".repeat(64),
        generation_intent: "gen".into(),
        initial_status: status(SandboxState::Creating),
        now_ms: 5,
    }
}

#[test]
fn sandbox_inventory_reserves_cap_atomically_and_keeps_terminal_tombstones() {
    let mut store = MemoryStore::new();
    create(&mut store, "ses_root", &doc("local", "ses_root", None, &[])).unwrap();
    let one = store.reserve_sandbox(&reserve("sbx_1", "op_1")).unwrap();
    assert_eq!(one.version, 1);
    store.reserve_sandbox(&reserve("sbx_2", "op_2")).unwrap();
    assert!(matches!(store.reserve_sandbox(&reserve("sbx_3", "op_3")), Err(BrainError::SandboxResourceExhausted)));
    assert_eq!(store.reserve_sandbox(&reserve("sbx_1", "op_1")).unwrap(), one);
    assert!(matches!(store.reserve_sandbox(&reserve("sbx_1", "op_x")), Err(BrainError::IdempotencyConflict)));
    let update = SandboxUpdateRequest {
        root_id: "ses_root".into(),
        sandbox_id: "sbx_1".into(),
        expected_version: 1,
        status: status(SandboxState::Gone),
        release_slot: true,
        now_ms: 9,
    };
    let gone = store.update_sandbox(&update).unwrap();
    assert_eq!(gone.version, 2);
    assert!(gone.slot_released);
    assert_eq!(store.update_sandbox(&update).unwrap(), gone);
    store.reserve_sandbox(&reserve("sbx_3", "op_3")).unwrap();
    assert_eq!(store.get_sandbox("ses_root", "sbx_1").unwrap(), gone);
    assert!(matches!(store.get_sandbox("ses_root", "sbx_9"), Err(BrainError::FileNotFound(m)) if m == "sandbox sbx_9"));
    assert_eq!(store.purge_history("ses_root").unwrap(), 1 + 3);
}

#[test]
fn release_renew_and_schedule_follow_the_lease() {
    let mut store = MemoryStore::new();
    create(&mut store, "ses_root", &doc("local", "ses_root", None, &[])).unwrap();
    store.claim("ses_root", "owner_a", 1_000).unwrap();
    assert!(matches!(store.renew("ses_root", "owner_b", 1, 2_000, None), Err(BrainError::Fenced)));
    store.renew("ses_root", "owner_a", 1, 2_000, Some(77)).unwrap();
    assert_eq!(store.get_head("ses_root").unwrap().doc.recovery_due_ms, Some(77));
    let head = store.get_head("ses_root").unwrap();
    store.release_and_schedule("ses_root", "owner_a", 1, &head.doc, 999).unwrap();
    assert_eq!(store.get_head("ses_root").unwrap().doc.recovery_due_ms, Some(999));
    let c = store.claim("ses_root", "owner_b", 2_001).unwrap();
    assert_eq!(c.fence, 2);
    store.release("ses_root", "owner_b", 2).unwrap();
    assert_eq!(store.claim("ses_root", "owner_c", 2_002).unwrap().fence, 3);
}

fn pending(ticket: u64, owner: &str, bytes: u64) -> Pending {
    Pending { ticket, write: Some((owner.into(), bytes)) }
}

#[test]
fn synchronous_work_passes_queued_background_work() {
    let mut queue = WriteQueue::new();
    assert_eq!(queue.reserve("first", 1), Ok(true));
    queue.enqueue(pending(1, "first", 1), false).unwrap();
    let batch = queue.take_batch().unwrap();
    assert_eq!(batch.iter().map(|p| p.ticket).collect::<Vec<_>>(), [1]);
    queue.enqueue(pending(2, "background", 1), false).unwrap();
    queue.enqueue(pending(3, "sync", 1), true).unwrap();
    let order: Vec<u64> = std::iter::from_fn(|| queue.take_batch()).flatten().map(|p| p.ticket).collect();
    assert_eq!(order, [3, 2]);
    assert!(queue.take_batch().is_none());
}

#[test]
fn the_queue_meters_owners_and_releases_them() {
    let mut queue = WriteQueue::new();
    assert_eq!(queue.reserve("a", OWNER_QUEUE_BYTES), Ok(true));
    assert_eq!(queue.reserve("a", 1), Ok(false), "an owner at its ceiling waits");
    assert_eq!(queue.reserve("b", 10), Ok(true));
    assert_eq!(queue.queued_bytes(), OWNER_QUEUE_BYTES + 10);
    queue.release(&[("a".into(), OWNER_QUEUE_BYTES)], None);
    assert_eq!(queue.queued_bytes(), 10);
    assert!(queue.per_owner.iter().all(|(owner, _)| owner != "a"));
    assert_eq!(queue.reserve("a", 1), Ok(true));
    for ticket in 0..(MAX_BATCH_REQUESTS as u64 + 5) {
        queue.enqueue(Pending { ticket, write: None }, false).unwrap();
    }
    assert_eq!(queue.take_batch().unwrap().len(), MAX_BATCH_REQUESTS);
    assert_eq!(queue.take_batch().unwrap().len(), 5);
    queue.enqueue(Pending { ticket: 99, write: None }, true).unwrap();
    let rest = queue.fail_pending("disk full".into());
    assert_eq!(rest.len(), 1);
    assert!(matches!(queue.reserve("c", 1), Err(BrainError::Journal(_))));
    queue.release(&[], Some("later".into()));
    assert_eq!(queue.failure.as_deref(), Some("disk full"));
    let mut closed = WriteQueue::new();
    closed.close();
    assert!(matches!(closed.enqueue(Pending { ticket: 1, write: None }, true), Err(BrainError::Journal(_))));
}

fn doc_at(tenant: &str, id: &str, updated_ms: u64) -> HeadDoc {
    let mut d = doc(tenant, id, None, &[]);
    d.updated_ms = updated_ms;
    d
}

#[test]
fn session_pages_list_newest_first_and_resume_after_the_cursor() {
    let mut store = MemoryStore::new();
    create(&mut store, "a", &doc_at("t1", "a", 10)).unwrap();
    create(&mut store, "b", &doc_at("t1", "b", 30)).unwrap();
    create(&mut store, "c", &doc_at("t1", "c", 20)).unwrap();
    create(&mut store, "d", &doc_at("t2", "d", 40)).unwrap();
    create(&mut store, "e", &doc_at("t1", "e", 30)).unwrap();

    let first = store
        .list_session_page(&SessionListQuery { tenant_id: "t1", state: None, limit: 2, cursor: None })
        .unwrap();
    let ids: Vec<&str> = first.sessions.iter().map(|s| s.session_id.as_str()).collect();
    assert_eq!(ids, vec!["b", "e"]);
    assert_eq!(first.next_cursor, Some(tenant_session_sort_key(30, "e")));

    let second = store
        .list_session_page(&SessionListQuery {
            tenant_id: "t1",
            state: None,
            limit: 2,
            cursor: first.next_cursor.as_deref(),
        })
        .unwrap();
    let ids: Vec<&str> = second.sessions.iter().map(|s| s.session_id.as_str()).collect();
    assert_eq!(ids, vec!["c", "a"]);
    assert_eq!(second.next_cursor, None);

    let ending = store
        .list_session_page(&SessionListQuery { tenant_id: "t1", state: Some(SessionLifecycle::Ending), limit: 5, cursor: None })
        .unwrap();
    assert!(ending.sessions.is_empty());
    assert_eq!(ending.next_cursor, None);

    let bad = store.list_session_page(&SessionListQuery { tenant_id: "t1", state: None, limit: 2, cursor: Some("nope") });
    assert!(matches!(bad, Err(BrainError::Invalid(_))));
}

#[test]
fn list_sessions_takes_at_most_the_limit() {
    let mut store = MemoryStore::new();
    create(&mut store, "a", &doc_at("t", "a", 1)).unwrap();
    create(&mut store, "b", &doc_at("t", "b", 2)).unwrap();
    create(&mut store, "c", &doc_at("t", "c", 3)).unwrap();
    assert_eq!(store.list_sessions(2).len(), 2);
    let all = store.list_sessions(10);
    assert_eq!(all.len(), 3);
    assert!(all.iter().any(|h| h.session_id == "c" && h.last_seq == 1));
}

#[test]
fn recovery_backoff_doubles_up_to_the_cap() {
    assert_eq!(recovery_backoff(0), 1_000);
    assert_eq!(recovery_backoff(1), 1_000);
    assert_eq!(recovery_backoff(2), 2_000);
    assert_eq!(recovery_backoff(5), 16_000);
    assert_eq!(recovery_backoff(9), 256_000);
    assert_eq!(recovery_backoff(10), 300_000);
    assert_eq!(recovery_backoff(u32::MAX), 300_000);
    let j = recovery_jitter("s", 3, 4_000);
    assert!(j <= 1_000);
    assert_eq!(j, recovery_jitter("s", 3, 4_000));
}

#[test]
fn defer_recovery_counts_the_attempt_and_releases_the_lease() {
    let mut store = MemoryStore::new();
    create(&mut store, "s", &doc("t", "s", None, &[])).unwrap();
    let head = store.claim("s", "w1", 100).unwrap();
    assert!(matches!(store.defer_recovery("s", "w2", 500, &sizes(0)), Err(BrainError::Fenced)));
    store.defer_recovery("s", "w1", 500, &sizes(0)).unwrap();
    let after = store.get_head("s").unwrap();
    assert_eq!(after.doc.recovery_attempt, 1);
    assert_eq!(after.fence, head.fence);
    let expected = 500 + recovery_backoff(1) + recovery_jitter("s", 1, recovery_backoff(1));
    assert_eq!(after.doc.recovery_due_ms, Some(expected));
    assert!(expected >= 1_500 && expected <= 1_750);
    assert!(matches!(store.defer_recovery("missing", "w1", 500, &sizes(0)), Err(BrainError::NoSuchSession(_))));
}

#[test]
fn read_records_collects_every_page_through_the_high_water() {
    let mut store = MemoryStore::new();
    create(&mut store, "s", &doc("t", "s", None, &[])).unwrap();
    let head = store.claim("s", "w", 100).unwrap();
    let mut next = 2;
    for _ in 0..3 {
        let batch: Vec<(u64, Record)> = (0..20)
            .map(|k| (next + k, Record::State { state: SessionLifecycle::Open, turn: None }))
            .collect();
        commit(&mut store, "s", "w", head.fence, &batch, 200).unwrap();
        next += 20;
    }
    let count = store.get_head("s").unwrap().last_seq;
    assert_eq!(count, 61);
    let sizes_all = vec![80u64; 61];
    let all = store.read_records("s", 0, &sizes_all).unwrap();
    let seqs: Vec<u64> = all.iter().map(|e| e.seq).collect();
    assert_eq!(seqs, (1..=61).collect::<Vec<u64>>());
    let tail = store.read_records_through("s", 40, 50, &sizes_all).unwrap();
    assert_eq!(tail.iter().map(|e| e.seq).collect::<Vec<u64>>(), (41..=50).collect::<Vec<u64>>());
    assert!(matches!(store.read_records("none", 0, &[]), Err(BrainError::NoSuchSession(_))));
}

#[test]
fn child_pages_list_direct_children_in_id_order() {
    let mut store = MemoryStore::new();
    let mut root = doc("t", "r", None, &[]);
    root.prefix.max_direct_children = 3;
    create(&mut store, "r", &root).unwrap();
    let child = doc("t", "r", Some("r"), &["r"]);
    create(&mut store, "c3", &child).unwrap();
    create(&mut store, "c1", &child).unwrap();
    create(&mut store, "c2", &child).unwrap();
    let first = store.list_child_page(&ChildListQuery { parent_id: "r", limit: 2, cursor: None }).unwrap();
    let ids: Vec<&str> = first.sessions.iter().map(|s| s.session_id.as_str()).collect();
    assert_eq!(ids, vec!["c1", "c2"]);
    assert_eq!(first.next_cursor.as_deref(), Some("c2"));
    let rest = store.list_child_page(&ChildListQuery { parent_id: "r", limit: 2, cursor: Some("c2") }).unwrap();
    assert_eq!(rest.sessions.len(), 1);
    assert_eq!(rest.sessions[0].session_id, "c3");
    assert_eq!(rest.next_cursor, None);
    let none = store.list_child_page(&ChildListQuery { parent_id: "c1", limit: 0, cursor: None }).unwrap();
    assert!(none.sessions.is_empty() && none.next_cursor.is_none());
}

#[test]
fn sandbox_pages_list_in_sandbox_id_order() {
    let mut store = MemoryStore::new();
    create(&mut store, "ses_root", &doc("local", "ses_root", None, &[])).unwrap();
    store.reserve_sandbox(&reserve("sbx_b", "op_b")).unwrap();
    store.reserve_sandbox(&reserve("sbx_a", "op_a")).unwrap();
    let page = store.list_sandbox_page(&SandboxListQuery { root_id: "ses_root", limit: 1, cursor: None }).unwrap();
    assert_eq!(page.sandboxes.len(), 1);
    assert_eq!(page.sandboxes[0].sandbox_id, "sbx_a");
    assert_eq!(page.next_cursor.as_deref(), Some("sbx_a"));
    let next = store
        .list_sandbox_page(&SandboxListQuery { root_id: "ses_root", limit: 1, cursor: page.next_cursor.as_deref() })
        .unwrap();
    assert_eq!(next.sandboxes[0].sandbox_id, "sbx_b");
    assert_eq!(next.next_cursor, None);
}

#[test]
fn recovery_pages_find_due_sessions_of_one_shard() {
    let mut store = MemoryStore::new();
    let mut due = doc("t", "a", None, &[]);
    due.recovery_due_ms = Some(500);
    create(&mut store, "a", &due).unwrap();
    let mut later = doc("t", "b", None, &[]);
    later.recovery_due_ms = Some(5_000);
    create(&mut store, "b", &later).unwrap();
    create(&mut store, "c", &doc("t", "c", None, &[])).unwrap();
    let shard = recovery_shard("a");
    let page = store
        .list_recovery_page(&RecoveryQuery { shard: shard.as_str(), due_before_ms: 1_000, limit: 10, cursor: None })
        .unwrap();
    assert_eq!(page.items.len(), 1);
    assert_eq!(page.items[0].session_id, "a");
    assert_eq!(page.items[0].due_ms, 500);
    assert_eq!(page.next_cursor, None);
    let shard_b = recovery_shard("b");
    let early = store
        .list_recovery_page(&RecoveryQuery { shard: shard_b.as_str(), due_before_ms: 1_000, limit: 10, cursor: None })
        .unwrap();
    assert!(early.items.iter().all(|item| item.session_id != "b"));
    let late = store
        .list_recovery_page(&RecoveryQuery { shard: shard_b.as_str(), due_before_ms: 10_000, limit: 10, cursor: None })
        .unwrap();
    assert!(late.items.iter().any(|item| item.session_id == "b" && item.due_ms == 5_000));
}

#[test]
fn the_journal_meters_storage_and_advances_the_lease_on_commit() {
    let mut journal = Journal::new_memory("w1").with_tenant_storage_limit(150);
    assert_eq!(journal.owner(), "w1");
    assert_eq!(journal.tenant_storage_limit, 150);
    journal.create("s", &doc("t", "s", None, &[]), &first(), 10, 1000, &sizes(1)).unwrap();
    assert!(matches!(
        journal.create("s", &doc("t", "s", None, &[]), &first(), 10, 1000, &sizes(1)),
        Err(BrainError::Invalid(_))
    ));
    let head = journal.claim("s", 20).unwrap();
    let mut lease = Lease { fence: head.fence, last_seq: head.last_seq, retention: head.retention };
    let mut next = head.doc.clone();
    next.session_storage_bytes = 100;
    let committed = journal
        .commit("s", &mut lease, &[(2, Record::TurnStarted { turn: "t".into() })], &next, 2, 30, &sizes(1))
        .unwrap();
    assert_eq!(committed.tenant_metered_storage_bytes, 100);
    assert_eq!(lease.last_seq, 2);
    assert!(lease.retention.metered_bytes > head.retention.metered_bytes);
    assert_eq!(journal.store.get_head("s").unwrap().last_seq, 2);
    assert_eq!(tenant_meter(&journal.store, "t"), 100);

    let before = lease.clone();
    let mut bigger = committed.clone();
    bigger.session_storage_bytes = 200;
    let refused = journal.commit("s", &mut lease, &[(3, Record::TurnStarted { turn: "u".into() })], &bigger, 3, 40, &sizes(1));
    assert!(matches!(refused, Err(BrainError::TenantStorageQuotaExceeded { requested: 100, limit: 150 })));
    assert_eq!((lease.fence, lease.last_seq, lease.retention), (before.fence, before.last_seq, before.retention));
    assert_eq!(journal.store.get_head("s").unwrap().last_seq, 2);

    let stale = Lease { fence: lease.fence + 1, ..lease };
    let mut held = lease;
    assert!(matches!(
        journal.commit("s", &mut held, &[(3, Record::TurnStarted { turn: "u".into() })], &committed, 3, 40, &sizes(1)),
        Ok(_)
    ));
    journal.release("s", &stale).unwrap();
    assert!(journal.store.get_head("s").is_ok());
    journal.renew("s", &held, true, 50).unwrap();
    assert_eq!(journal.store.get_head("s").unwrap().doc.recovery_due_ms, Some(50 + LEASE_MS + STEAL_GRACE_MS));
    journal.defer_recovery("s", 60, &sizes(0)).unwrap();
    assert_eq!(journal.store.get_head("s").unwrap().doc.recovery_attempt, 1);
}

#[test]
fn record_pages_are_bounded_and_stop_at_a_fixed_high_water() {
    let mut journal = Journal::new_memory("brain-page");
    let d = doc("local", "ses_page", None, &[]);
    journal.create("ses_page", &d, &first(), 1, 1000, &sizes(1)).unwrap();
    let head = journal.claim("ses_page", 2).unwrap();
    let mut lease = Lease { fence: head.fence, last_seq: head.last_seq, retention: head.retention };
    let records: Vec<(u64, Record)> = (2..=7).map(|seq| (seq, first())).collect();
    // 8 and 9 model live-only provisional sequence gaps.
    journal.commit("ses_page", &mut lease, &records, &d, 9, 3, &sizes(records.len())).unwrap();
    let all_sizes = vec![80u64; 7];
    let mut cursor = 0;
    let mut seen = Vec::new();
    loop {
        let page = journal
            .store
            .read_record_page(
                &RecordPageQuery { session_id: "ses_page", after: cursor, through_seq: 9, limit: 2, max_bytes: DEFAULT_RECORD_PAGE_BYTES },
                &all_sizes,
            )
            .unwrap();
        assert!(page.entries.len() <= 2);
        seen.extend(page.entries.iter().map(|entry| entry.seq));
        let Some(next) = page.next_after else {
            break;
        };
        cursor = next;
    }
    assert_eq!(seen, (1..=7).collect::<Vec<_>>());

    journal
        .commit("ses_page", &mut lease, &[(10, Record::TurnStarted { turn: "t2".into() })], &d, 10, 4, &sizes(1))
        .unwrap();
    let all_sizes = vec![80u64; 8];
    let fixed = journal
        .store
        .read_record_page(
            &RecordPageQuery { session_id: "ses_page", after: 7, through_seq: 9, limit: 2, max_bytes: DEFAULT_RECORD_PAGE_BYTES },
            &all_sizes,
        )
        .unwrap();
    assert!(fixed.entries.is_empty());
    assert!(fixed.next_after.is_none());
}

#[test]
fn recovery_cursor_reaches_later_due_rows_while_early_rows_remain_due() {
    let mut store = MemoryStore::new();
    let shard = "r00";
    let mut ids = Vec::new();
    for candidate in 0..20_000u32 {
        let id = format!("ses_cursor_{candidate:08}");
        if recovery_shard(&id) == shard {
            ids.push(id);
            if ids.len() == 40 {
                break;
            }
        }
    }
    assert_eq!(ids.len(), 40);
    for (index, id) in ids.iter().enumerate() {
        let mut d = doc("local", id, None, &[]);
        d.turn = Some(format!("trn_cursor_{index:08}"));
        d.active_phase = Some(TurnPhase::ModelRunning);
        d.recovery_due_ms = Some(1);
        create(&mut store, id, &d).unwrap();
    }
    let first_page = store.list_recovery_page(&RecoveryQuery { shard, due_before_ms: 1, limit: 32, cursor: None }).unwrap();
    assert_eq!(first_page.items.len(), 32);
    let cursor = first_page.next_cursor.clone().expect("more due rows");
    let second = store
        .list_recovery_page(&RecoveryQuery { shard, due_before_ms: 1, limit: 32, cursor: Some(&cursor) })
        .unwrap();
    assert_eq!(second.items.len(), 8);
    assert!(second.next_cursor.is_none());
    assert!(first_page.items.iter().all(|item| item.due_ms == 1 && item.state == SessionLifecycle::Open));
}

#[test]
fn descendant_limit_is_shared_across_breadth_and_depth() {
    let mut store = MemoryStore::new();
    let mut root = doc("local", "ses_desc_root", None, &[]);
    root.prefix.max_direct_children = 8;
    root.prefix.max_descendants = 2;
    create(&mut store, "ses_desc_root", &root).unwrap();
    let mut child = root.clone();
    child.parent_id = Some("ses_desc_root".into());
    child.ancestor_ids = vec!["ses_desc_root".into()];
    child.depth = 1;
    create(&mut store, "ses_desc_child", &child).unwrap();
    let mut grandchild = root.clone();
    grandchild.parent_id = Some("ses_desc_child".into());
    grandchild.ancestor_ids = vec!["ses_desc_root".into(), "ses_desc_child".into()];
    grandchild.depth = 2;
    create(&mut store, "ses_desc_grandchild", &grandchild).unwrap();
    let mut sibling = child;
    sibling.parent_id = Some("ses_desc_root".into());
    sibling.ancestor_ids = vec!["ses_desc_root".into()];
    assert!(matches!(create(&mut store, "ses_desc_sibling", &sibling), Err(BrainError::Overloaded)));
}

#[test]
fn retained_identity_quota_is_shared_by_roots_and_children_and_released_once() {
    let limits = JournalRetentionLimits {
        session_bytes: DEFAULT_MAX_SESSION_JOURNAL_BYTES,
        tenant_bytes: DEFAULT_MAX_TENANT_JOURNAL_BYTES,
        tenant_sessions: 2,
    };
    let mut journal = Journal::new(MemoryStore::new(), "owner-retention").with_retention_limits(limits);
    let tenant = "tenant-retention-identities";
    let root = doc(tenant, "ses_retained_root", None, &[]);
    journal.create("ses_retained_root", &root, &first(), 1, 1000, &sizes(1)).unwrap();
    let mut child = doc(tenant, "ses_retained_root", Some("ses_retained_root"), &["ses_retained_root"]);
    child.depth = 1;
    journal.create("ses_retained_child", &child, &first(), 1, 1000, &sizes(1)).unwrap();
    let identities = |store: &MemoryStore| store.tenant_retention.iter().find(|(t, _)| t == tenant).map(|(_, m)| m.1);
    assert_eq!(identities(&journal.store), Some(2));

    let rejected = doc(tenant, "ses_retained_rejected", None, &[]);
    assert!(matches!(
        journal.create("ses_retained_rejected", &rejected, &first(), 1, 1000, &sizes(1)),
        Err(BrainError::TenantRetainedSessionQuotaExceeded { limit: 2 })
    ));

    let child_head = journal.store.get_head("ses_retained_child").unwrap();
    let terminal = DeletionStatusDoc {
        session_id: "ses_retained_child".into(),
        tenant_id: tenant.into(),
        root_id: "ses_retained_root".into(),
        parent_id: Some("ses_retained_root".into()),
        metered_storage_bytes: 0,
        metered_journal_bytes: child_head.retention.metered_bytes,
        state: DeletionState::Succeeded,
        requested_at_ms: 1,
        updated_at_ms: 2,
        completed_at_ms: Some(2),
        expires_at_ms: u64::MAX,
        attempts: 1,
        last_error: None,
    };
    journal.store.finalize_deletion(&terminal).unwrap();
    journal.store.finalize_deletion(&terminal).unwrap();
    assert_eq!(identities(&journal.store), Some(1), "lost final response cannot release a retained identity twice");
    journal
        .create("ses_retained_rejected", &rejected, &first(), 1, 1000, &sizes(1))
        .expect("physical final deletion immediately frees one identity");
}

#[test]
fn memory_journal_full_lifecycle() {
    let mut j = Journal::new_memory("brain-a");
    let d = doc("local", "ses_m", None, &[]);
    j.create("ses_m", &d, &first(), 1, 1000, &sizes(1)).unwrap();
    assert!(matches!(j.create("ses_m", &d, &first(), 1, 1000, &sizes(1)), Err(BrainError::Invalid(_))));

    let head = j.claim("ses_m", 2).unwrap();
    assert_eq!(head.fence, 1, "create is unowned; the first claim establishes fence 1");
    assert_eq!(head.last_seq, 1);

    let mut lease = Lease { fence: head.fence, last_seq: head.last_seq, retention: head.retention };
    let rec = (2u64, Record::TurnStarted { turn: "t1".into() });
    j.commit("ses_m", &mut lease, std::slice::from_ref(&rec), &d, 3, 3, &sizes(1)).unwrap();
    assert_eq!(lease.last_seq, 3, "high water persisted, ephemeral seq included");

    let entries = j.store.read_records("ses_m", 0, &[80, 80]).unwrap();
    assert_eq!(entries.len(), 2);
    assert_eq!(entries[1].seq, 2);

    // Re-committing the same seq is a superseded write.
    assert!(matches!(
        j.commit("ses_m", &mut lease, std::slice::from_ref(&rec), &d, 4, 4, &sizes(1)),
        Err(BrainError::Fenced)
    ));

    let deletion_head = j.store.get_head("ses_m").unwrap();
    assert_eq!(j.store.purge_history("ses_m").unwrap(), 2);
    j.store
        .finalize_deletion(&DeletionStatusDoc {
            session_id: "ses_m".into(),
            tenant_id: deletion_head.doc.tenant_id.clone(),
            root_id: deletion_head.doc.root_id.clone(),
            parent_id: deletion_head.doc.parent_id.clone(),
            metered_storage_bytes: deletion_head.doc.tenant_metered_storage_bytes,
            metered_journal_bytes: deletion_head.retention.metered_bytes,
            state: DeletionState::Succeeded,
            requested_at_ms: 1,
            updated_at_ms: 2,
            completed_at_ms: Some(2),
            expires_at_ms: i64::MAX as u64,
            attempts: 1,
            last_error: None,
        })
        .unwrap();
    assert!(matches!(j.store.get_head("ses_m"), Err(BrainError::NoSuchSession(_))));
}

#[test]
fn final_child_deletion_removes_the_strong_parent_adjacency() {
    let mut store = MemoryStore::new();
    create(&mut store, "ses_parent", &doc("local", "ses_parent", None, &[])).unwrap();
    let child = doc("local", "ses_parent", Some("ses_parent"), &["ses_parent"]);
    create(&mut store, "ses_child", &child).unwrap();
    let listed = store.list_child_page(&ChildListQuery { parent_id: "ses_parent", limit: 100, cursor: None }).unwrap();
    assert_eq!(listed.sessions.len(), 1);
    let metered = store.get_head("ses_child").unwrap().retention.metered_bytes;
    store
        .finalize_deletion(&DeletionStatusDoc {
            session_id: "ses_child".into(),
            tenant_id: "local".into(),
            root_id: "ses_parent".into(),
            parent_id: Some("ses_parent".into()),
            metered_storage_bytes: 0,
            metered_journal_bytes: metered,
            state: DeletionState::Succeeded,
            requested_at_ms: 1,
            updated_at_ms: 2,
            completed_at_ms: Some(2),
            expires_at_ms: u64::MAX,
            attempts: 1,
            last_error: None,
        })
        .unwrap();
    let after = store.list_child_page(&ChildListQuery { parent_id: "ses_parent", limit: 100, cursor: None }).unwrap();
    assert!(after.sessions.is_empty());
}

#[test]
fn lease_heartbeat_prevents_recovery_steal_until_it_stops() {
    let mut store = MemoryStore::new();
    let mut d = doc("local", "ses_heartbeat", None, &[]);
    d.turn = Some("trn_heartbeat".into());
    d.active_phase = Some(TurnPhase::ModelRunning);
    create(&mut store, "ses_heartbeat", &d).unwrap();
    let claimed = store.claim("ses_heartbeat", "owner-a", 1).expect("first owner claims the unowned create");
    assert_eq!(claimed.fence, 1);
    store.renew("ses_heartbeat", "owner-a", 1, 50_000, Some(115_000)).unwrap();
    assert!(matches!(store.claim("ses_heartbeat", "owner-b", 70_000), Err(BrainError::Fenced)));
    let recovered = store
        .claim("ses_heartbeat", "owner-b", 116_000)
        .expect("stopped heartbeat becomes stealable after lease plus grace");
    assert_eq!(recovered.fence, 2);
}

#[test]
fn lease_renewal_keeps_an_idle_session_without_recovery_work() {
    let mut store = MemoryStore::new();
    let idle = doc("local", "ses_idle", None, &[]).with_recovery_projection(100_000);
    create(&mut store, "ses_idle", &idle).unwrap();
    store.claim("ses_idle", "owner-a", 1).expect("first owner claims the unowned create");
    store.renew("ses_idle", "owner-a", 1, 100_000, None).unwrap();
    assert_eq!(store.get_head("ses_idle").unwrap().doc.recovery_due_ms, None, "quiescent lease renewal must not create recovery work");
}
