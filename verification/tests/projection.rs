use brain::error::{BrainError, Fault};
use brain::frame::Location;
use brain::projection::{
    allocate_sequences, batch_bytes, complete_entries, complete_records, sequence_records, ensure_deletable, finish_open, journal_kind, lifecycle_of, needs_interrupt,
    replay_frame, select_event_page, Lifecycle, ReplayedFrame, StoreState, TranscriptDelta, MAX_EVENT_PAGE_BYTES,
};
use brain::session::{AppendRecord, SessionStatus};

fn at(offset: u64, length: u32) -> Location {
    Location { segment: 1, offset, length }
}

#[test]
fn lifecycle_records_move_the_row() {
    assert_eq!(lifecycle_of("session_creation_started", "{}".into(), None), Some(Lifecycle::Creating("{}".into())));
    assert_eq!(lifecycle_of("session_creation_ended", "{}".into(), Some("cfg".into())), Some(Lifecycle::Created("cfg".into())));
    assert_eq!(lifecycle_of("session_creation_ended", "{}".into(), None), None);
    assert_eq!(lifecycle_of("turn_failed", "{}".into(), None), Some(Lifecycle::Status(SessionStatus::Idle)));
    assert_eq!(lifecycle_of("session_creation_failed", "{}".into(), None), Some(Lifecycle::Status(SessionStatus::Failed)));
    assert_eq!(lifecycle_of("message", "{}".into(), None), None);
    assert!(journal_kind("transcript_delta") && journal_kind("state_set") && !journal_kind("turn_started"));
    assert!(ensure_deletable(SessionStatus::Ended).is_ok());
    assert_eq!(ensure_deletable(SessionStatus::Running), Err(BrainError::InvalidState(Fault::SessionNotEnded)));
    assert!(needs_interrupt(SessionStatus::Running) && !needs_interrupt(SessionStatus::Idle));
}

#[test]
fn replay_is_dense_and_open_continues_where_the_log_ends() {
    let mut state = StoreState::empty("s".into(), None);
    assert_eq!(finish_open(&mut state), Err(BrainError::Journal(Fault::NoCreationRecord)));
    replay_frame(&mut state, 1, 10, at(0, 5), ReplayedFrame::Event { lifecycle: Some(Lifecycle::Creating("c".into())) }).unwrap();
    assert_eq!(replay_frame(&mut state, 3, 11, at(5, 5), ReplayedFrame::Event { lifecycle: None }), Err(BrainError::Journal(Fault::SequenceGap { sequence: 3 })));
    replay_frame(&mut state, 2, 11, at(5, 5), ReplayedFrame::Entry { delta: Some(TranscriptDelta { keep: 0, append_len: 2 }) }).unwrap();
    replay_frame(&mut state, 3, 12, at(10, 5), ReplayedFrame::Entry { delta: Some(TranscriptDelta { keep: 1, append_len: 1 }) }).unwrap();
    assert_eq!(state.events, vec![Some(at(0, 5)), None, Some(at(10, 5))]);
    assert_eq!(state.journal, vec![(2, at(5, 5)), (3, at(10, 5))]);
    assert_eq!(state.transcript_len, 2);
    assert_eq!(state.row.status, SessionStatus::Creating);
    finish_open(&mut state).unwrap();
    assert_eq!(state.next_sequence, 3);
    assert_eq!(state.next_recorded_at_ms, 12);
    assert_eq!(allocate_sequences(&mut state, 2, 5).unwrap(), (4, 12));
    assert_eq!(allocate_sequences(&mut state, 1, 40).unwrap(), (6, 40));
    assert_eq!(state.next_sequence, 6);
}

#[test]
fn completed_batches_must_continue_the_row() {
    let mut state = StoreState::empty("s".into(), Some("c".into()));
    assert!(complete_records(&mut state, 2, &[at(0, 1)], 9, None, None).is_err());
    complete_records(&mut state, 1, &[at(0, 1), at(1, 1)], 9, Some(SessionStatus::Running), None).unwrap();
    assert_eq!(state.row.through_sequence, 2);
    assert_eq!(state.row.status, SessionStatus::Running);
    assert_eq!(state.last_recorded_at_ms, 9);
    let page = select_event_page(&state.events, 0, 10);
    assert_eq!(page, vec![(1, at(0, 1)), (2, at(1, 1))]);
    assert_eq!(select_event_page(&state.events, 1, 10), vec![(2, at(1, 1))]);
    assert!(select_event_page(&state.events, 5, 10).is_empty());
}

#[test]
fn an_event_page_always_holds_its_first_event() {
    let huge = (MAX_EVENT_PAGE_BYTES as u32).saturating_add(1);
    let events = vec![Some(at(0, huge)), Some(at(1, 1))];
    assert_eq!(select_event_page(&events, 0, 10), vec![(1, at(0, huge))]);
    let events = vec![None, Some(at(0, 4)), Some(at(1, 4))];
    assert_eq!(select_event_page(&events, 0, 1), vec![(2, at(0, 4))]);
}

#[test]
fn journal_entries_index_every_sequence_and_show_only_replacements() {
    let mut state = StoreState::empty("s".into(), Some("c".into()));
    complete_records(&mut state, 1, &[at(0, 1)], 5, None, None).unwrap();
    let grow = Some(TranscriptDelta { keep: 0, append_len: 3 });
    let extend = Some(TranscriptDelta { keep: 3, append_len: 1 });
    let replace = Some(TranscriptDelta { keep: 1, append_len: 1 });
    assert!(complete_entries(&mut state, 3, &[at(1, 1)], &[grow], 6).is_err());
    let shown = complete_entries(&mut state, 2, &[at(1, 1), at(2, 1), at(3, 1)], &[grow, extend, replace], 6).unwrap();
    assert_eq!(shown, vec![4]);
    assert_eq!(state.transcript_len, 2);
    assert_eq!(state.events, vec![Some(at(0, 1)), None, None, Some(at(3, 1))]);
    assert_eq!(state.journal, vec![(2, at(1, 1)), (3, at(2, 1)), (4, at(3, 1))]);
    assert_eq!(state.row.through_sequence, 4);
    assert_eq!(state.last_recorded_at_ms, 6);
}

#[test]
fn batches_are_sized_and_sequenced() {
    assert_eq!(batch_bytes(&[vec![0u8; 3], vec![0u8; 4]]), Ok(7));
    assert_eq!(batch_bytes(&[]), Ok(0));
    let saved = sequence_records(
        "s",
        7,
        99,
        vec![AppendRecord { kind: "a".into(), payload: "1".into() }, AppendRecord { kind: "b".into(), payload: "2".into() }],
    );
    assert_eq!(saved.len(), 2);
    assert_eq!((saved[0].sequence, saved[1].sequence), (7, 8));
    assert_eq!(saved[1].kind, "b");
    assert_eq!(saved[0].recorded_at_ms, 99);
    assert_eq!(saved[0].session_id, "s");
}
