use brain::names::{recovery_due_key, tenant_session_sort_key};
use brain::journal_check::verify_journal;
use brain::docs::AgentloopSelectorDoc;
use brain::error::{BrainError, Fault};
use brain::fold::Fold;
use brain::frame::{decode, encode_unsequenced};
use brain::names::{segment_file_name, session_pk};
use brain::records::Record;
use brain::session::{event_page, fold_records, JournalRecord, SessionListing, SessionRecord, SessionRow, SessionStatus};
use brain::vocab::SessionLifecycle;

fn jr(sequence: u64, kind: &str, payload: &str, operation_id: Option<&str>) -> JournalRecord {
    JournalRecord {
        session_id: "s".into(),
        sequence,
        recorded_at_ms: sequence * 10,
        kind: kind.into(),
        payload: payload.into(),
        operation_id: operation_id.map(|o| o.to_string()),
    }
}

#[test]
fn names_and_labels_have_their_exact_shapes() {
    assert_eq!(session_pk("ses_1"), "S#ses_1");
    assert_eq!(segment_file_name(7), "00000000000000000007.segment");
    assert_eq!(Record::TurnStarted { turn: "t".into() }.kind_name(), "turn_started");
    assert_eq!(Record::State { state: SessionLifecycle::Open, turn: None }.kind_name(), "state");
    assert!(matches!(
        AgentloopSelectorDoc::official_aex(),
        AgentloopSelectorDoc::Official { name, version } if name == "aex" && version == "1"
    ));
}

#[test]
fn an_unsequenced_frame_decodes_with_zero_sequence() {
    let frame = encode_unsequenced("k", b"{\"a\":1}");
    let (decoded, length) = decode(&frame).unwrap();
    assert_eq!(length, frame.len());
    assert_eq!(decoded.sequence, 0);
    assert_eq!(decoded.recorded_at_ms, 0);
    assert_eq!(decoded.kind, "k");
    assert_eq!(decoded.payload, b"{\"a\":1}".to_vec());
}

#[test]
fn event_pages_carry_their_cursor() {
    let empty = event_page(Vec::new(), 9);
    assert!(empty.events.is_empty());
    assert_eq!(empty.next_cursor, 9);
    let records = vec![SessionRecord { session_id: "s".into(), sequence: 10, recorded_at_ms: 5, kind: "k".into(), payload: "{}".into() }];
    let page = event_page(records, 9);
    assert_eq!(page.next_cursor, 10);
    assert_eq!(page.events[0].event_type, "k");
    let listing = SessionListing::from_row(&SessionRow {
        session_id: "s".into(),
        status: SessionStatus::Idle,
        through_sequence: 4,
        configuration: None,
    });
    assert_eq!(listing.last_sequence, 4);
}

#[test]
fn folding_tracks_status_context_and_pending_operations() {
    let folded = fold_records(
        "{}".into(),
        &[
            jr(1, "turn_started", "{}", None),
            jr(2, "tool_intent", "call", Some("op1")),
            jr(3, "context_updated", "{\"c\":1}", None),
            jr(4, "tool_result", "done", Some("op1")),
            jr(5, "model_intent", "ask", Some("op2")),
            jr(6, "turn_failed", "{}", None),
        ],
    )
    .unwrap();
    assert_eq!(folded.through_sequence, 6);
    assert_eq!(folded.status, SessionStatus::Idle);
    assert_eq!(folded.context, "{\"c\":1}");
    assert_eq!(folded.pending_operations.len(), 1);
    assert_eq!(folded.pending_operations[0].operation_id.as_deref(), Some("op2"));
    let gap = fold_records("{}".into(), &[jr(1, "turn_started", "{}", None), jr(3, "session_ended", "{}", None)]);
    assert_eq!(gap, Err(BrainError::Journal(Fault::SequenceGap { sequence: 3 })));
}

#[test]
fn a_fold_resumes_from_a_history() {
    let resumed = Fold::from_history(Vec::new());
    assert!(resumed.history.is_empty());
    assert_eq!(resumed.turns, 0);
}

#[test]
fn artifact_digests_are_lowercase_sha256_hex() {
    use_digest_checks();
}

fn use_digest_checks() {
    assert_eq!(
        brain::digest::artifact_digest(b"abc"),
        "ba7816bf8f01cfea414140de5dae2223b00361a396177a9cb410ff61f20015ad"
    );
    assert_eq!(
        brain::digest::artifact_digest(b""),
        "e3b0c44298fc1c149afbf4c8996fb92427ae41e4649b934ca495991b7852b855"
    );
    assert_eq!(brain::digest::hex_encode(&[0x00, 0x0f, 0xa5, 0xff]), "000fa5ff");
}

#[test]
fn due_and_listing_keys_sort_as_documented() {
    assert_eq!(recovery_due_key(1, "ses_a"), "00000000000000000001#ses_a");
    assert!(recovery_due_key(9, "ses_z") < recovery_due_key(10, "ses_a"));
    assert!(recovery_due_key(5, "ses_a") < recovery_due_key(5, "ses_b"));
    assert_eq!(tenant_session_sort_key(u64::MAX, "s"), "00000000000000000000#s");
    assert!(tenant_session_sort_key(200, "ses_z") < tenant_session_sort_key(100, "ses_a"));
    assert!(tenant_session_sort_key(7, "ses_a") < tenant_session_sort_key(7, "ses_b"));
}

fn row(session: &str, sequence: u64, version: u32, expected: &str, stored: &str) -> brain::journal_check::JournalRow {
    brain::journal_check::JournalRow {
        session_id: session.into(),
        sequence,
        schema_version: version,
        expected_checksum: expected.into(),
        stored_checksum: stored.into(),
    }
}

#[test]
fn the_journal_check_refuses_the_first_inconsistency() {
    let good = vec![row("a", 1, 2, "x", "x"), row("a", 2, 2, "y", "y"), row("b", 1, 2, "z", "z")];
    assert_eq!(verify_journal(&good, &[("a".into(), 2), ("b".into(), 1)]), Ok(()));
    assert_eq!(
        verify_journal(&good, &[("a".into(), 1)]),
        Err(BrainError::Journal(Fault::SessionPositionMismatch { session_id: "a".into(), through_sequence: 1 }))
    );
    assert_eq!(
        verify_journal(&good, &[("c".into(), 0)]),
        Err(BrainError::Journal(Fault::SessionPositionMismatch { session_id: "c".into(), through_sequence: 0 }))
    );
    let gap = vec![row("a", 1, 2, "x", "x"), row("a", 3, 2, "y", "y")];
    assert_eq!(verify_journal(&gap, &[]), Err(BrainError::Journal(Fault::JournalSequenceGap { session_id: "a".into(), sequence: 3 })));
    let bad_sum = vec![row("a", 1, 2, "x", "q")];
    assert_eq!(verify_journal(&bad_sum, &[]), Err(BrainError::Journal(Fault::JournalChecksumMismatch { session_id: "a".into(), sequence: 1 })));
    let old = vec![row("a", 1, 1, "x", "x")];
    assert_eq!(
        verify_journal(&old, &[]),
        Err(BrainError::Journal(Fault::JournalSchemaUnsupported { session_id: "a".into(), sequence: 1, version: 1 }))
    );
}
