use brain::decision::{validate_decision, DecisionSizes};
use brain::docs::{CustomerTerminalAckDoc, HeadDoc, PrefixDoc, LEASE_MS, STEAL_GRACE_MS};
use brain::error::{BrainError, Fault};
use brain::fold::{fold, Fold};
use brain::message::{ContentBlock, Message, Role, StopReason};
use brain::names::record_sk;
use brain::records::Record;
use brain::retention::{
    initial_retention, project_retention, Entry, JournalRetentionLimits,
    DEFAULT_MAX_SESSION_JOURNAL_BYTES, DEFAULT_MAX_TENANT_RETAINED_SESSIONS,
    JOURNAL_EFFECT_RESERVE_BYTES, JOURNAL_TERMINAL_RESERVE_BYTES, MAX_DECISION_ACTIONS,
    MAX_DECISION_SERIALIZED_BYTES, MAX_JOURNAL_BYTES, MAX_RECORD_CONTENT_BYTES,
    MAX_SERIALIZED_LISTING_BYTES, MAX_SERIALIZED_RECORD_BYTES, MAX_TENANT_RETAINED_SESSIONS,
    MIN_SESSION_JOURNAL_BYTES, MIN_TENANT_RETAINED_SESSIONS,
};
use brain::vocab::{SessionLifecycle, TurnStopReason};

fn user(turn: &str, text: &str) -> Record {
    Record::UserMessage {
        turn: turn.into(),
        content: vec![ContentBlock::text(text)],
        starts_turn: false,
        metadata: Vec::new(),
        idempotency_key_hash: None,
        request_hash: None,
    }
}

fn assistant(turn: &str, blocks: Vec<ContentBlock>) -> Record {
    Record::Assistant {
        turn: turn.into(),
        agent: "root".into(),
        attempt_id: "att_aaaaaaaaaaaaaaaaaaaa".into(),
        content: blocks,
        stop: StopReason::EndTurn,
    }
}

fn result(call: &str, content: &str, is_error: bool) -> Record {
    Record::ToolResult {
        turn: "t1".into(),
        agent: "root".into(),
        call: call.into(),
        name: "bash".into(),
        outcome: if is_error { "failed" } else { "completed" }.into(),
        content: content.into(),
        is_error,
        exit_code: Some(if is_error { 1 } else { 0 }),
        duration_ms: 5,
        truncated: false,
    }
}

fn tool_use(id: &str, name: &str, input: &str) -> ContentBlock {
    ContentBlock::ToolUse { id: id.into(), name: name.into(), input: input.into() }
}

fn entries(records: Vec<Record>) -> Vec<Entry> {
    records
        .into_iter()
        .enumerate()
        .map(|(i, record)| Entry { seq: i as u64 + 1, ts_ms: 0, record })
        .collect()
}

pub fn head_doc() -> HeadDoc {
    HeadDoc {
        loop_state: None,
        tenant_id: "local".into(),
        root_id: "ses_test".into(),
        parent_id: None,
        ancestor_ids: Vec::new(),
        child_name: None,
        context_fork: None,
        depth: 0,
        last_seq: 1,
        state: SessionLifecycle::Open,
        failure: None,
        turn: None,
        active_phase: None,
        provider_attempt: None,
        active_context: Vec::new(),
        active_rounds: 0,
        active_tool_calls: 0,
        message_replays: vec![],
        context: None,
        turns: 0,
        created_ms: 1,
        updated_ms: 1,
        recovery_due_ms: None,
        recovery_attempt: 0,
        create_key_hash: None,
        create_request_hash: None,
        last_message_ms: None,
        ended: false,
        prefix: PrefixDoc {
            agentloop: None,
            system_prompt: None,
            provider: "anthropic".into(),
            model: "m".into(),
            base_url: None,
            max_output_tokens: None,
            context_window_tokens: 32 * 1024,
            context_soft_tokens: 18 * 1024,
            context_hard_tokens: 22 * 1024,
            context_tail_tokens: 4 * 1024,
            context_summary_tokens: 4 * 1024,
            temperature: None,
            reasoning_effort: None,
            provider_recovery_retries: 1,
            storage_max_object_bytes: 1024 * 1024 * 1024,
            storage_max_session_bytes: 10 * 1024 * 1024 * 1024,
            storage_transfer_ttl_ms: 15 * 60 * 1000,
            max_child_depth: 4,
            max_direct_children: 32,
            max_descendants: 256,
            max_additional_sandboxes_per_root: 2,
            network: "{\"outbound\":\"none\"}".into(),
            customer_client_id: None,
            customer_submit_retries: 1,
            rendered_base: "{}".into(),
            rendered_base_digest: String::new(),
            prompt_cache_key: String::new(),
            tools: "[]".into(),
            managed_bundles: "[]".into(),
            official_capabilities: "{}".into(),
            hand_enabled: true,
            shape: "1gb".into(),
            sync_interval_seconds: 600,
            hand_env_keys: vec![],
            metadata: Vec::new(),
        },
        key_b64: "AAAA".into(),
        hand_secrets_b64: String::new(),
        session_storage_bytes: 0,
        storage_reserved_bytes: 0,
        tenant_metered_storage_bytes: 0,
        storage_upload: None,
        storage_delete: None,
        pending_customer_acks: vec![],
        pending_managed_acks: vec![],
        default_sandbox: None,
    }
}

fn record_sks_sort_numerically() {
    assert!(record_sk(9) < record_sk(10));
    assert!(record_sk(999) < record_sk(1000));
}

#[test]
fn journal_record_sks_sort_numerically() {
    record_sks_sort_numerically();
}

#[test]
fn journal_tests_record_sks_sort_numerically() {
    record_sks_sort_numerically();
}

fn retention_policy_validation_is_ordered_and_adapter_representable() {
    assert!(JournalRetentionLimits::default().validate().is_ok());
    for limits in [
        JournalRetentionLimits { session_bytes: MIN_SESSION_JOURNAL_BYTES - 1, ..JournalRetentionLimits::default() },
        JournalRetentionLimits {
            session_bytes: DEFAULT_MAX_SESSION_JOURNAL_BYTES,
            tenant_bytes: DEFAULT_MAX_SESSION_JOURNAL_BYTES - 1,
            tenant_sessions: DEFAULT_MAX_TENANT_RETAINED_SESSIONS,
        },
        JournalRetentionLimits { tenant_sessions: 0, ..JournalRetentionLimits::default() },
        JournalRetentionLimits {
            session_bytes: MAX_JOURNAL_BYTES + 1,
            tenant_bytes: MAX_JOURNAL_BYTES + 1,
            tenant_sessions: DEFAULT_MAX_TENANT_RETAINED_SESSIONS,
        },
    ] {
        assert!(matches!(limits.validate(), Err(BrainError::Invalid(_))));
    }
    assert!(JournalRetentionLimits {
        session_bytes: MIN_SESSION_JOURNAL_BYTES,
        tenant_bytes: MIN_SESSION_JOURNAL_BYTES,
        tenant_sessions: MIN_TENANT_RETAINED_SESSIONS,
    }
    .validate()
    .is_ok());
    assert!(JournalRetentionLimits {
        session_bytes: MAX_JOURNAL_BYTES,
        tenant_bytes: MAX_JOURNAL_BYTES,
        tenant_sessions: MAX_TENANT_RETAINED_SESSIONS,
    }
    .validate()
    .is_ok());
}

#[test]
fn journal_tests_retention_policy_validation_is_ordered_and_adapter_representable() {
    retention_policy_validation_is_ordered_and_adapter_representable();
}

#[test]
fn journal_retention_policy_validation_is_ordered_and_adapter_representable() {
    retention_policy_validation_is_ordered_and_adapter_representable();
}

fn fold_rebuilds_the_conversation_and_groups_consecutive_tool_results() {
    let f = fold(&entries(vec![
        user("t1", "build it"),
        Record::TurnStarted { turn: "t1".into() },
        assistant(
            "t1",
            vec![
                ContentBlock::text("running"),
                tool_use("c1", "bash", "{\"command\":\"a\"}"),
                tool_use("c2", "bash", "{\"command\":\"b\"}"),
            ],
        ),
        result("c1", "ok-a", false),
        result("c2", "boom", true),
        assistant("t1", vec![ContentBlock::text("done")]),
    ]));
    assert_eq!(f.history.len(), 4, "user, assistant, ONE grouped results message, assistant");
    assert_eq!(f.history[2].role, Role::User);
    assert_eq!(f.history[2].content.len(), 2, "both results in one message");
    assert!(matches!(&f.history[2].content[1], ContentBlock::ToolResult { is_error: true, .. }));
    assert_eq!(f.turns, 1);
}

#[test]
fn journal_fold_rebuilds_the_conversation_and_groups_consecutive_tool_results() {
    fold_rebuilds_the_conversation_and_groups_consecutive_tool_results();
}

#[test]
fn journal_tests_fold_rebuilds_the_conversation_and_groups_consecutive_tool_results() {
    fold_rebuilds_the_conversation_and_groups_consecutive_tool_results();
}

fn fold_flushes_trailing_results_at_finish() {
    let f = fold(&entries(vec![
        user("t1", "x"),
        assistant("t1", vec![tool_use("c1", "bash", "{}")]),
        result("c1", "out", false),
    ]));
    assert_eq!(f.history.len(), 3);
    assert_eq!(f.history[2].role, Role::User);
}

#[test]
fn journal_fold_flushes_trailing_results_at_finish() {
    fold_flushes_trailing_results_at_finish();
}

#[test]
fn journal_tests_fold_flushes_trailing_results_at_finish() {
    fold_flushes_trailing_results_at_finish();
}

fn subagent_records_never_split_or_pollute_root_history() {
    let mut child_assistant = assistant("t1", vec![ContentBlock::text("child")]);
    if let Record::Assistant { agent, .. } = &mut child_assistant {
        *agent = "agt_child".into();
    }
    let mut child_result = result("child-call", "child-out", false);
    if let Record::ToolResult { agent, .. } = &mut child_result {
        *agent = "agt_child".into();
    }
    let f = fold(&entries(vec![
        user("t1", "go"),
        assistant("t1", vec![tool_use("c1", "task", "{}"), tool_use("c2", "task", "{}")]),
        result("c1", "one", false),
        child_assistant,
        child_result,
        result("c2", "two", false),
        assistant("t1", vec![ContentBlock::text("done")]),
    ]));
    assert_eq!(f.history.len(), 4);
    assert_eq!(f.history[2].content.len(), 2);
    assert!(f.history.iter().all(|message| {
        message.content.iter().all(|block| !matches!(block, ContentBlock::Text { text } if text == "child"))
    }));
}

#[test]
fn journal_subagent_records_never_split_or_pollute_root_history() {
    subagent_records_never_split_or_pollute_root_history();
}

#[test]
fn journal_tests_subagent_records_never_split_or_pollute_root_history() {
    subagent_records_never_split_or_pollute_root_history();
}

fn next_user_text_merges_with_an_interrupted_tool_result() {
    let f = fold(&entries(vec![
        user("t1", "start"),
        assistant("t1", vec![tool_use("c1", "task", "{}")]),
        result("c1", "subagent interrupted", true),
        Record::TurnCompleted {
            turn: "t1".into(),
            stop_reason: TurnStopReason::Interrupted,
            rounds: 1,
            tool_calls: 1,
            result: None,
        },
        user("t2", "continue"),
    ]));
    assert_eq!(f.history.len(), 3);
    assert_eq!(f.history[2].role, Role::User);
    assert!(matches!(
        &f.history[2].content[..],
        [ContentBlock::ToolResult { is_error: true, .. }, ContentBlock::Text { text }] if text == "continue"
    ));
}

#[test]
fn journal_next_user_text_merges_with_an_interrupted_tool_result() {
    next_user_text_merges_with_an_interrupted_tool_result();
}

#[test]
fn journal_tests_next_user_text_merges_with_an_interrupted_tool_result() {
    next_user_text_merges_with_an_interrupted_tool_result();
}

fn fold_is_a_loop_over_apply() {
    let all = entries(vec![
        user("t1", "a"),
        assistant("t1", vec![ContentBlock::text("b")]),
        user("t2", "c"),
        result("c9", "r", false),
        assistant("t2", vec![ContentBlock::text("d")]),
    ]);
    for split in 0..=all.len() {
        let mut inc = Fold::new();
        for e in &all[..split] {
            inc.apply(&e.record);
        }
        inc.finish();
        let batch = fold(&all[..split]);
        assert_eq!(batch.history, inc.history, "split {split}");
    }
}

#[test]
fn journal_fold_is_a_loop_over_apply() {
    fold_is_a_loop_over_apply();
}

#[test]
fn journal_tests_fold_is_a_loop_over_apply() {
    fold_is_a_loop_over_apply();
}

fn checkpoint_records_do_not_mutate_the_raw_audit_fold() {
    let f = fold(&entries(vec![
        user("t1", "one"),
        assistant("t1", vec![ContentBlock::text("1")]),
        user("t2", "two"),
        assistant("t2", vec![ContentBlock::text("2")]),
        Record::ContextInstalled {
            checkpoint_id: "ctx_1".into(),
            base_checkpoint_id: None,
            covers_through_sequence: 4,
            retained_messages: 2,
            payload_digest: "a".repeat(64),
            base_prefix_digest: "b".repeat(64),
            source_context_digest: "c".repeat(64),
            token_estimate: 4,
            context_generation: 1,
            summary_kind: "semantic".into(),
            compactor_provider: "fake".into(),
            compactor_model: "fake".into(),
            retained_from_sequence: 1,
            created_at_ms: 0,
        },
        user("t3", "three"),
    ]));
    assert_eq!(f.history.len(), 5, "raw fold remains an audit reconstruction");
    assert_eq!(f.history[0], Message::user_text("one"));
}

#[test]
fn journal_checkpoint_records_do_not_mutate_the_raw_audit_fold() {
    checkpoint_records_do_not_mutate_the_raw_audit_fold();
}

#[test]
fn journal_tests_checkpoint_records_do_not_mutate_the_raw_audit_fold() {
    checkpoint_records_do_not_mutate_the_raw_audit_fold();
}

fn sizes(control: u64, listing: u64, records: Vec<u64>) -> DecisionSizes {
    DecisionSizes { control_bytes: control, listing_bytes: listing, record_bytes: records }
}

fn state_record() -> Record {
    Record::State { state: SessionLifecycle::Open, turn: None }
}

fn decision_limits_reject_oversized_items_and_aggregate_batches_before_store_io() {
    // One assistant record whose text alone is the record ceiling.
    let oversized = assistant("turn", vec![ContentBlock::text(&"x".repeat(MAX_SERIALIZED_RECORD_BYTES))]);
    let error = validate_decision(
        &[(2, oversized)],
        &sizes(2048, 1024, vec![MAX_SERIALIZED_RECORD_BYTES as u64 + 160]),
    )
    .unwrap_err();
    assert!(matches!(error, BrainError::Invalid(Fault::RecordTooLarge { .. })));

    let near_max_results: Vec<(u64, Record)> =
        (0..40).map(|index| (index + 2, result(&format!("call_{index}"), &"x".repeat(MAX_RECORD_CONTENT_BYTES), false))).collect();
    let result_bytes = vec![MAX_RECORD_CONTENT_BYTES as u64 + 220; 40];
    let error = validate_decision(&near_max_results, &sizes(2048, 1024, result_bytes)).unwrap_err();
    assert!(matches!(error, BrainError::Invalid(Fault::DecisionTooLarge { .. })));

    let too_many: Vec<(u64, Record)> = (0..MAX_DECISION_ACTIONS).map(|index| (index as u64 + 2, state_record())).collect();
    let error = validate_decision(&too_many, &sizes(2048, 1024, vec![40; MAX_DECISION_ACTIONS])).unwrap_err();
    assert!(matches!(error, BrainError::Invalid(Fault::TooManyActions { actions }) if actions == MAX_DECISION_ACTIONS + 1));

    let error = validate_decision(&[], &sizes(2048, MAX_SERIALIZED_LISTING_BYTES as u64 + 1, vec![])).unwrap_err();
    assert!(matches!(error, BrainError::Invalid(Fault::ListingTooLarge { .. })));
}

#[test]
fn journal_decision_limits_reject_oversized_items_and_aggregate_batches_before_store_io() {
    decision_limits_reject_oversized_items_and_aggregate_batches_before_store_io();
}

#[test]
fn journal_tests_decision_limits_reject_oversized_items_and_aggregate_batches_before_store_io() {
    decision_limits_reject_oversized_items_and_aggregate_batches_before_store_io();
}

#[test]
fn a_decision_within_every_ceiling_is_accepted() {
    assert!(validate_decision(&[(2, state_record())], &sizes(2048, 1024, vec![60])).is_ok());
    assert!(validate_decision(&[], &sizes(0, 0, vec![])).is_ok());
}

fn unacknowledged_customer_terminal_keeps_a_quiescent_session_recoverable() {
    let mut doc = head_doc();
    doc.pending_customer_acks.push(CustomerTerminalAckDoc {
        turn: "trn_customer".into(),
        call: "op_customer".into(),
        client_id: "app".into(),
        process_id: "process:test".into(),
        request_digest: "a".repeat(64),
        terminal_digest: "b".repeat(64),
    });
    let projected = doc.with_recovery_projection(100_000);
    assert_eq!(projected.recovery_due_ms, Some(100_000 + LEASE_MS + STEAL_GRACE_MS));
    let mut acknowledged = projected;
    acknowledged.pending_customer_acks.clear();
    assert_eq!(acknowledged.with_recovery_projection(200_000).recovery_due_ms, None);
}

#[test]
fn journal_unacknowledged_customer_terminal_keeps_a_quiescent_session_recoverable() {
    unacknowledged_customer_terminal_keeps_a_quiescent_session_recoverable();
}

#[test]
fn journal_tests_unacknowledged_customer_terminal_keeps_a_quiescent_session_recoverable() {
    unacknowledged_customer_terminal_keeps_a_quiescent_session_recoverable();
}

fn accepted_end_remains_due_until_the_subtree_reaches_ended() {
    let mut doc = head_doc();
    doc.state = SessionLifecycle::Ending;
    doc.ended = true;
    let projected = doc.with_recovery_projection(100_000);
    assert_eq!(projected.recovery_due_ms, Some(100_000 + LEASE_MS + STEAL_GRACE_MS));
    let mut ended = projected;
    ended.state = SessionLifecycle::Ended;
    assert_eq!(ended.with_recovery_projection(200_000).recovery_due_ms, None, "a fully converged end must leave no recovery anchor");
}

#[test]
fn journal_accepted_end_remains_due_until_the_subtree_reaches_ended() {
    accepted_end_remains_due_until_the_subtree_reaches_ended();
}

#[test]
fn journal_tests_accepted_end_remains_due_until_the_subtree_reaches_ended() {
    accepted_end_remains_due_until_the_subtree_reaches_ended();
}

fn model_intent(turn: &str) -> Record {
    Record::ModelCallIntent {
        turn: turn.into(),
        logical_operation_id: format!("model:{turn}:1"),
        attempt_id: "att_aaaaaaaaaaaaaaaaaaaa".into(),
        request_digest: "a".repeat(64),
        replacement: 0,
    }
}

fn effect_retention_reserves_provider_completion_and_tool_terminal_decisions() {
    assert_eq!(JOURNAL_EFFECT_RESERVE_BYTES, 2 * MAX_DECISION_SERIALIZED_BYTES as u64);
    let initial = initial_retention(40, u64::MAX).unwrap();
    let after_intent = project_retention(initial, &[(2, model_intent("trn_retention"))], &[240], u64::MAX).unwrap();
    assert_eq!(after_intent.effect_reserve_bytes, JOURNAL_EFFECT_RESERVE_BYTES);
    let completion = vec![
        (
            3,
            Record::ModelCallCompleted {
                turn: "trn_retention".into(),
                logical_operation_id: "model:trn_retention:1".into(),
                attempt_id: "att_aaaaaaaaaaaaaaaaaaaa".into(),
                request_digest: "a".repeat(64),
            },
        ),
        (
            4,
            Record::ToolCall {
                turn: "trn_retention".into(),
                agent: "root".into(),
                call: "op_retention".into(),
                name: "managed".into(),
                input: "{\"value\":\"x\"}".into(),
                detach: false,
            },
        ),
    ];
    let after_completion = project_retention(after_intent, &completion, &[230, 160], u64::MAX).unwrap();
    assert_eq!(
        after_completion.effect_reserve_bytes, JOURNAL_TERMINAL_RESERVE_BYTES,
        "the provider terminal releases its half of the reserve but retains one complete Tool-terminal decision"
    );
    let terminal = Record::ToolResult {
        turn: "trn_retention".into(),
        agent: "root".into(),
        call: "op_retention".into(),
        name: "managed".into(),
        outcome: "completed".into(),
        content: "x".repeat(MAX_RECORD_CONTENT_BYTES),
        is_error: false,
        exit_code: Some(0),
        duration_ms: 1,
        truncated: false,
    };
    let after_terminal =
        project_retention(after_completion, &[(5, terminal)], &[MAX_RECORD_CONTENT_BYTES as u64 + 200], u64::MAX).unwrap();
    assert_eq!(after_terminal.effect_reserve_bytes, 0);
    assert!(after_terminal.metered_bytes < after_completion.metered_bytes);
}

#[test]
fn journal_effect_retention_reserves_provider_completion_and_tool_terminal_decisions() {
    effect_retention_reserves_provider_completion_and_tool_terminal_decisions();
}

#[test]
fn journal_tests_effect_retention_reserves_provider_completion_and_tool_terminal_decisions() {
    effect_retention_reserves_provider_completion_and_tool_terminal_decisions();
}

fn sandbox_status(state: brain::records::SandboxState) -> brain::records::SandboxStatus {
    brain::records::SandboxStatus { state, expires_at_ms: None, target: "{}".into(), detail: String::new() }
}

fn every_effect_class_reserves_before_dispatch_and_recovery_does_not_duplicate_it() {
    let initial = initial_retention(40, u64::MAX).unwrap();
    let single_terminal_intents = vec![
        Record::CompactionIntent {
            turn: "trn_effects".into(),
            logical_operation_id: "compact:trn_effects:1".into(),
            attempt_id: "att_compaction".into(),
            request_digest: "a".repeat(64),
            replacement: 0,
        },
        Record::CustomerCallIntent {
            turn: "trn_effects".into(),
            call: "op_customer".into(),
            client_id: "app".into(),
            process_id: "process:test".into(),
            request_digest: "b".repeat(64),
            deadline_at_ms: 10_000,
        },
        Record::ToolCall {
            turn: "trn_effects".into(),
            agent: "root".into(),
            call: "op_managed".into(),
            name: "managed".into(),
            input: "{\"value\":true}".into(),
            detach: false,
        },
        Record::StorageUploadReserved {
            transfer_id: "transfer_effects".into(),
            key: "out.bin".into(),
            bytes: 1,
            sha256: Some("c".repeat(64)),
            expires_at_ms: 10_000,
            published_bytes: 0,
            reserved_bytes: 1,
        },
        Record::StorageDeleteIntent {
            operation_id: "delete_effects".into(),
            key: "old.bin".into(),
            bytes: 1,
            sha256: "d".repeat(64),
            published_bytes: 1,
            reserved_bytes: 0,
        },
        Record::DefaultSandboxChanged { status: sandbox_status(brain::records::SandboxState::Creating) },
    ];
    for intent in single_terminal_intents {
        let projected = project_retention(initial, &[(2, intent)], &[200], u64::MAX).unwrap();
        assert_eq!(projected.effect_reserve_bytes, JOURNAL_TERMINAL_RESERVE_BYTES);
    }
    let provider = project_retention(initial, &[(2, model_intent("trn_retry"))], &[200], u64::MAX).unwrap();
    assert_eq!(provider.effect_reserve_bytes, JOURNAL_EFFECT_RESERVE_BYTES);
    let recovery = vec![
        (
            3,
            Record::ModelCallUnknown {
                turn: "trn_retry".into(),
                logical_operation_id: "model:trn_retry:1".into(),
                attempt_id: "att_aaaaaaaaaaaaaaaaaaaa".into(),
                request_digest: "a".repeat(64),
                possibly_duplicated: true,
            },
        ),
        (
            4,
            Record::ModelAttemptSuperseded {
                turn: "trn_retry".into(),
                logical_operation_id: "model:trn_retry:1".into(),
                superseded_attempt_id: "att_aaaaaaaaaaaaaaaaaaaa".into(),
                replacement_attempt_id: "att_bbbbbbbbbbbbbbbbbbbb".into(),
                reason: "unknown".into(),
            },
        ),
        (
            5,
            Record::ModelCallIntent {
                turn: "trn_retry".into(),
                logical_operation_id: "model:trn_retry:1".into(),
                attempt_id: "att_bbbbbbbbbbbbbbbbbbbb".into(),
                request_digest: "a".repeat(64),
                replacement: 1,
            },
        ),
    ];
    let recovery_bytes = [210, 250, 220];
    let recovered = project_retention(provider, &recovery, &recovery_bytes, u64::MAX).unwrap();
    assert_eq!(recovered.effect_reserve_bytes, JOURNAL_EFFECT_RESERVE_BYTES);
    assert_eq!(
        recovered.metered_bytes - provider.metered_bytes,
        brain::retention::serialized_record_charge(&recovery_bytes).unwrap(),
        "replacement recovery charges only its durable records and restores, rather than duplicates, the reserve"
    );
    let reserved = project_retention(
        initial,
        &[(
            2,
            Record::StorageUploadReserved {
                transfer_id: "transfer_adopt".into(),
                key: "adopt.bin".into(),
                bytes: 1,
                sha256: Some("e".repeat(64)),
                expires_at_ms: 10_000,
                published_bytes: 0,
                reserved_bytes: 1,
            },
        )],
        &[230],
        u64::MAX,
    )
    .unwrap();
    let published_record = Record::StorageUploadPublished {
        transfer_id: "transfer_adopt".into(),
        key: "adopt.bin".into(),
        bytes: 1,
        published_bytes: 1,
        reserved_bytes: 1,
    };
    let published = project_retention(reserved, &[(3, published_record.clone())], &[150], u64::MAX).unwrap();
    assert!(published.effect_reserve_bytes < JOURNAL_TERMINAL_RESERVE_BYTES);
    let republished = project_retention(published, &[(4, published_record)], &[150], u64::MAX).unwrap();
    assert_eq!(
        republished.metered_bytes, published.metered_bytes,
        "replayed adoption consumes already-reserved capacity without adding a second reserve"
    );
}

#[test]
fn journal_every_effect_class_reserves_before_dispatch_and_recovery_does_not_duplicate_it() {
    every_effect_class_reserves_before_dispatch_and_recovery_does_not_duplicate_it();
}

#[test]
fn journal_tests_every_effect_class_reserves_before_dispatch_and_recovery_does_not_duplicate_it() {
    every_effect_class_reserves_before_dispatch_and_recovery_does_not_duplicate_it();
}

fn payload(kind: &str) -> Vec<u8> {
    format!("{{\"kind\":\"{kind}\",\"value\":42}}").into_bytes()
}

#[test]
fn a_frame_round_trips_through_encoding() {
    let body = payload("model_call_ended");
    let bytes = brain::frame::encode(7, 1234, "model_call_ended", &body);
    let (frame, length) = brain::frame::decode(&bytes).unwrap();
    assert_eq!(length, bytes.len());
    assert_eq!(frame.sequence, 7);
    assert_eq!(frame.recorded_at_ms, 1234);
    assert_eq!(frame.kind, "model_call_ended");
    assert_eq!(frame.payload, body);
}

#[test]
fn a_corrupt_frame_body_does_not_decode() {
    let body = payload("k");
    let mut bytes = brain::frame::encode(1, 0, "k", &body);
    let last = bytes.len() - 1;
    bytes[last] ^= 0x01;
    assert!(brain::frame::decode(&bytes).is_none());
}
