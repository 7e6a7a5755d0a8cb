//! A session's record and row shapes, and the folds that rebuild its transcript, slots and
//! status from its journal.

use vstd::prelude::*;
use crate::docs::Duplicate;
use crate::error::{BrainError, Fault};
use crate::message::{Message, history_view};
use crate::text::{ends_with, ends_with_spec, str_eq};

verus! {

/// A session's status as clients see it.
#[derive(Debug, Clone, Copy, PartialEq, Eq, Structural)]
pub enum SessionStatus {
    Creating,
    Idle,
    Running,
    Ended,
    Failed,
}

/// What a caller appends: a kind and its JSON payload text.
#[derive(Debug, Clone, PartialEq, Eq)]
pub struct AppendRecord {
    pub kind: String,
    pub payload: String,
}

impl AppendRecord {
    pub fn new(kind: &str, payload: String) -> (r: AppendRecord)
        ensures
            r.kind@ == kind@,
            r.payload == payload,
    {
        AppendRecord { kind: kind.to_owned(), payload }
    }
}

/// One journal record. `(session_id, sequence)` names it.
#[derive(Debug, Clone, PartialEq, Eq)]
pub struct SessionRecord {
    pub session_id: String,
    pub sequence: u64,
    pub recorded_at_ms: u64,
    pub kind: String,
    pub payload: String,
}

/// One record as a client reads it.
#[derive(Debug, Clone, PartialEq, Eq)]
pub struct Event {
    pub sequence: u64,
    pub recorded_at_ms: u64,
    pub event_type: String,
    pub data: String,
}

/// A page of events and the cursor the next page starts after.
#[derive(Debug, Clone, PartialEq, Eq)]
pub struct EventPage {
    pub events: Vec<Event>,
    pub next_cursor: u64,
}

impl SessionRecord {
    /// The record as a client reads it.
    pub fn into_event(self) -> (e: Event)
        ensures
            e == (Event {
                sequence: self.sequence,
                recorded_at_ms: self.recorded_at_ms,
                event_type: self.kind,
                data: self.payload,
            }),
    {
        Event {
            sequence: self.sequence,
            recorded_at_ms: self.recorded_at_ms,
            event_type: self.kind,
            data: self.payload,
        }
    }
}

/// A page of records as events. The cursor is the last record's sequence, or `after` when the
/// page is empty.
pub fn event_page(records: Vec<SessionRecord>, after: u64) -> (page: EventPage)
    ensures
        page.next_cursor == (if records@.len() == 0 { after } else { records@.last().sequence }),
        page.events@.len() == records@.len(),
        forall|i: int|
            0 <= i < records@.len() ==> (#[trigger] page.events@[i]) == (Event {
                sequence: records@[i].sequence,
                recorded_at_ms: records@[i].recorded_at_ms,
                event_type: records@[i].kind,
                data: records@[i].payload,
            }),
{
    let next_cursor = if records.len() == 0 {
        after
    } else {
        records[records.len() - 1].sequence
    };
    let ghost all = records@;
    let mut events: Vec<Event> = Vec::new();
    for record in it: records
        invariant
            it.seq() == all,
            events@.len() == it.index(),
            forall|i: int|
                0 <= i < it.index() ==> (#[trigger] events@[i]) == (Event {
                    sequence: all[i].sequence,
                    recorded_at_ms: all[i].recorded_at_ms,
                    event_type: all[i].kind,
                    data: all[i].payload,
                }),
    {
        events.push(record.into_event());
    }
    EventPage { events, next_cursor }
}

/// The whole row of a session. `configuration` is its sealed configuration as JSON text, absent
/// until the creation record is read.
#[derive(Debug, Clone, PartialEq, Eq)]
pub struct SessionRow {
    pub session_id: String,
    pub status: SessionStatus,
    pub through_sequence: u64,
    pub configuration: Option<String>,
}

/// What a caller outside the session is allowed to see about it.
#[derive(Debug, Clone, PartialEq, Eq)]
pub struct SessionListing {
    pub session_id: String,
    pub status: SessionStatus,
    pub last_sequence: u64,
}

impl SessionListing {
    pub fn from_row(row: &SessionRow) -> (r: SessionListing)
        ensures
            r == (SessionListing {
                session_id: row.session_id,
                status: row.status,
                last_sequence: row.through_sequence,
            }),
    {
        SessionListing {
            session_id: row.session_id.clone(),
            status: row.status,
            last_sequence: row.through_sequence,
        }
    }
}

/// A row change committed with an append.
pub struct SessionUpdate {
    pub status: Option<SessionStatus>,
    pub configuration: Option<String>,
}

/// A compact session-state mutation stored in the same journal as public events.
#[derive(Debug, Clone, PartialEq, Eq)]
pub enum JournalEntry {
    TranscriptDelta { keep: u64, append: Vec<Message> },
    StateSet { name: String, value: String },
}

impl JournalEntry {
    /// Whether a record kind names a journal entry rather than a public event.
    pub fn is_kind(kind: &str) -> (r: bool)
        ensures
            r == (kind@ == "transcript_delta"@ || kind@ == "state_set"@),
    {
        str_eq(kind, "transcript_delta") || str_eq(kind, "state_set")
    }
}

/// What folding a session's journal yields: its transcript, its slots (name to JSON text, one
/// value per name), and the sequence the journal is current to.
#[derive(Debug, Clone, PartialEq, Eq)]
pub struct Folded {
    pub transcript: Vec<Message>,
    pub slots: Vec<(String, String)>,
    pub through_sequence: u64,
}

/// Slots as a map from name to value.
pub open spec fn slots_map(slots: Seq<(String, String)>) -> Map<Seq<char>, Seq<char>>
    decreases slots.len(),
{
    if slots.len() == 0 {
        Map::empty()
    } else {
        slots_map(slots.drop_last()).insert(slots.last().0@, slots.last().1@)
    }
}

/// No slot name appears twice.
pub open spec fn slots_unique(slots: Seq<(String, String)>) -> bool {
    forall|i: int, j: int| 0 <= i < j < slots.len() ==> slots[i].0@ != slots[j].0@
}

/// What one entry does: a transcript delta keeps a prefix and appends; a state set replaces
/// one slot.
pub open spec fn folded_after(
    transcript: Seq<(crate::message::Role, Seq<crate::message::ContentBlock>)>,
    slots: Map<Seq<char>, Seq<char>>,
    entry: JournalEntry,
) -> (
    Seq<(crate::message::Role, Seq<crate::message::ContentBlock>)>,
    Map<Seq<char>, Seq<char>>,
) {
    match entry {
        JournalEntry::TranscriptDelta { keep, append } => (
            transcript.subrange(0, if keep <= transcript.len() { keep as int } else { transcript.len() as int })
                + history_view(append@),
            slots,
        ),
        JournalEntry::StateSet { name, value } => (transcript, slots.insert(name@, value@)),
    }
}

proof fn lemma_slots_map_set(slots: Seq<(String, String)>, i: int, value: String)
    requires
        slots_unique(slots),
        0 <= i < slots.len(),
    ensures
        slots_unique(slots.update(i, (slots[i].0, value))),
        slots_map(slots.update(i, (slots[i].0, value))) == slots_map(slots).insert(slots[i].0@, value@),
    decreases slots.len(),
{
    let updated = slots.update(i, (slots[i].0, value));
    if i == slots.len() - 1 {
        assert(updated.drop_last() =~= slots.drop_last());
        lemma_slots_map_not_in(slots.drop_last(), slots[i].0@);
        assert(slots_map(slots).insert(slots[i].0@, value@) =~= slots_map(slots.drop_last()).insert(
            slots[i].0@,
            value@,
        ));
    } else {
        lemma_slots_map_set(slots.drop_last(), i, value);
        assert(updated.drop_last() =~= slots.drop_last().update(i, (slots[i].0, value)));
        assert(slots_map(updated) =~= slots_map(slots).insert(slots[i].0@, value@));
    }
}

proof fn lemma_slots_map_not_in(slots: Seq<(String, String)>, name: Seq<char>)
    requires
        forall|k: int| 0 <= k < slots.len() ==> slots[k].0@ != name,
    ensures
        !slots_map(slots).contains_key(name),
    decreases slots.len(),
{
    if slots.len() > 0 {
        lemma_slots_map_not_in(slots.drop_last(), name);
    }
}

impl Folded {
    #[verifier::loop_isolation(false)]
    pub fn apply(&mut self, entry: JournalEntry)
        requires
            slots_unique(old(self).slots@),
        ensures
            slots_unique(final(self).slots@),
            final(self).through_sequence == old(self).through_sequence,
            (history_view(final(self).transcript@), slots_map(final(self).slots@)) == folded_after(
                history_view(old(self).transcript@),
                slots_map(old(self).slots@),
                entry,
            ),
    {
        match entry {
            JournalEntry::TranscriptDelta { keep, append } => {
                let ghost before = self.transcript@;
                let len = self.transcript.len();
                let kept: usize = if keep <= len as u64 { keep as usize } else { len };
                self.transcript.truncate(kept);
                let ghost mid = self.transcript@;
                let ghost all = append@;
                for message in it: append
                    invariant
                        it.seq() == all,
                        mid == before.subrange(0, kept as int),
                        self.slots@ == old(self).slots@,
                        self.through_sequence == old(self).through_sequence,
                        self.transcript@ == mid + all.subrange(0, it.index() as int),
                {
                    self.transcript.push(message);
                    assert(self.transcript@ =~= mid + all.subrange(0, it.index() + 1));
                }
                assert(all.subrange(0, all.len() as int) =~= all);
                assert(history_view(self.transcript@) =~= history_view(before).subrange(0, kept as int)
                    + history_view(all));
            },
            JournalEntry::StateSet { name, value } => {
                let mut i: usize = 0;
                while i < self.slots.len()
                    invariant
                        i <= self.slots@.len(),
                        forall|k: int| 0 <= k < i ==> self.slots@[k].0@ != name@,
                        self.slots@ == old(self).slots@,
                        self.transcript@ == old(self).transcript@,
                        self.through_sequence == old(self).through_sequence,
                        slots_unique(self.slots@),
                    decreases self.slots.len() - i,
                {
                    if str_eq(self.slots[i].0.as_str(), name.as_str()) {
                        let ghost before = self.slots@;
                        proof {
                            lemma_slots_map_set(before, i as int, value);
                        }
                        let key = self.slots[i].0.clone();
                        self.slots.set(i, (key, value));
                        assert(self.slots@ =~= before.update(i as int, (before[i as int].0, value)));
                        return;
                    }
                    i = i + 1;
                }
                let ghost before = self.slots@;
                self.slots.push((name, value));
                proof {
                    assert(self.slots@.drop_last() =~= before);
                }
            },
        }
    }
}

/// One journal record as the session fold reads it. `operation_id` is the payload's
/// `operation_id` member as canonical JSON text, when it has one.
#[derive(Debug, Clone, PartialEq, Eq)]
pub struct JournalRecord {
    pub session_id: String,
    pub sequence: u64,
    pub recorded_at_ms: u64,
    pub kind: String,
    pub payload: String,
    pub operation_id: Option<String>,
}

/// A pending external operation: its intent payload and that payload's operation id.
#[derive(Debug, Clone, PartialEq, Eq)]
pub struct PendingOperation {
    pub operation_id: Option<String>,
    pub payload: String,
}

/// What folding a session's records yields.
#[derive(Debug, Clone, PartialEq, Eq)]
pub struct FoldedSession {
    pub through_sequence: u64,
    pub status: SessionStatus,
    /// The session context as JSON text.
    pub context: String,
    pub pending_operations: Vec<PendingOperation>,
}

/// A folded session as plain values.
pub struct FoldedView {
    pub through_sequence: int,
    pub status: SessionStatus,
    pub context: Seq<char>,
    pub pending: Seq<(Option<Seq<char>>, Seq<char>)>,
}

pub open spec fn opt_view(o: Option<String>) -> Option<Seq<char>> {
    match o {
        Some(s) => Some(s@),
        None => None,
    }
}

/// What one record does to the folded session (its sequence already checked).
pub open spec fn fold_record_spec(f: FoldedView, r: JournalRecord) -> FoldedView {
    let f1 = FoldedView { through_sequence: r.sequence as int, ..f };
    if r.kind@ == "turn_started"@ {
        FoldedView { status: SessionStatus::Running, ..f1 }
    } else if r.kind@ == "turn_finished"@ || r.kind@ == "turn_failed"@ {
        FoldedView { status: SessionStatus::Idle, ..f1 }
    } else if r.kind@ == "session_ended"@ {
        FoldedView { status: SessionStatus::Ended, ..f1 }
    } else if r.kind@ == "context_updated"@ {
        FoldedView { context: r.payload@, ..f1 }
    } else if ends_with_spec(r.kind@, "_intent"@) {
        FoldedView { pending: f1.pending.push((opt_view(r.operation_id), r.payload@)), ..f1 }
    } else if ends_with_spec(r.kind@, "_result"@) || ends_with_spec(r.kind@, "_ambiguous"@) {
        match r.operation_id {
            Some(id) => FoldedView { pending: without_operation(f1.pending, id@), ..f1 },
            None => f1,
        }
    } else {
        f1
    }
}

pub open spec fn pending_view(p: PendingOperation) -> (Option<Seq<char>>, Seq<char>) {
    (opt_view(p.operation_id), p.payload@)
}

pub open spec fn pendings_view(s: Seq<PendingOperation>) -> Seq<(Option<Seq<char>>, Seq<char>)> {
    Seq::new(s.len(), |i: int| pending_view(s[i]))
}

pub open spec fn folded_view(f: FoldedSession) -> FoldedView {
    FoldedView {
        through_sequence: f.through_sequence as int,
        status: f.status,
        context: f.context@,
        pending: pendings_view(f.pending_operations@),
    }
}

/// Pending operations minus those carrying operation id `id`, in order.
pub open spec fn without_operation(pending: Seq<(Option<Seq<char>>, Seq<char>)>, id: Seq<char>) -> Seq<
    (Option<Seq<char>>, Seq<char>),
>
    decreases pending.len(),
{
    if pending.len() == 0 {
        pending
    } else if pending.last().0 == Some(id) {
        without_operation(pending.drop_last(), id)
    } else {
        without_operation(pending.drop_last(), id).push(pending.last())
    }
}

/// Folding records in order from a fresh session, each one sequence after the last; a record
/// that breaks the run stops the fold with its sequence.
pub open spec fn fold_records_spec(initial: Seq<char>, records: Seq<JournalRecord>) -> Result<FoldedView, u64>
    decreases records.len(),
{
    if records.len() == 0 {
        Ok(FoldedView { through_sequence: 0, status: SessionStatus::Idle, context: initial, pending: Seq::empty() })
    } else {
        match fold_records_spec(initial, records.drop_last()) {
            Ok(f) => if records.last().sequence == f.through_sequence + 1 {
                Ok(fold_record_spec(f, records.last()))
            } else {
                Err(records.last().sequence)
            },
            Err(s) => Err(s),
        }
    }
}

fn remove_operation(pending: Vec<PendingOperation>, id: &String) -> (r: Vec<PendingOperation>)
    ensures
        pendings_view(r@) == without_operation(pendings_view(pending@), id@),
{
    let ghost all = pending@;
    let mut kept: Vec<PendingOperation> = Vec::new();
    for op in it: pending
        invariant
            it.seq() == all,
            pendings_view(kept@) == without_operation(
                pendings_view(all.subrange(0, it.index() as int)),
                id@,
            ),
    {
        let ghost i = it.index();
        proof {
            assert(pendings_view(all.subrange(0, i + 1)).drop_last() =~= pendings_view(
                all.subrange(0, i),
            ));
            assert(pendings_view(all.subrange(0, i + 1)).last() == pending_view(op));
        }
        let matches = match &op.operation_id {
            Some(other) => str_eq(other.as_str(), id.as_str()),
            None => false,
        };
        if !matches {
            let ghost before = kept@;
            kept.push(op);
            assert(pendings_view(kept@) =~= pendings_view(before).push(pending_view(op)));
        } else {
            assert(pending_view(op).0 == Some(id@));
        }
    }
    assert(all.subrange(0, all.len() as int) =~= all);
    kept
}

/// Fold a session's records into its status, context and pending operations. Records must run
/// densely from sequence 1; a gap is refused with the sequence that broke the run.
pub fn fold_records(initial: String, records: &[JournalRecord]) -> (r: Result<FoldedSession, BrainError>)
    ensures
        match r {
            Ok(f) => fold_records_spec(initial@, records@) == Ok::<FoldedView, u64>(folded_view(f)),
            Err(e) => fold_records_spec(initial@, records@) matches Err(s) && e == BrainError::Journal(
                Fault::SequenceGap { sequence: s },
            ),
        },
{
    let mut folded = FoldedSession {
        through_sequence: 0,
        status: SessionStatus::Idle,
        context: initial,
        pending_operations: Vec::new(),
    };
    proof {
        assert(pendings_view(folded.pending_operations@) =~= Seq::empty());
        assert(records@.subrange(0, 0) =~= Seq::<JournalRecord>::empty());
    }
    let mut i: usize = 0;
    while i < records.len()
        invariant
            i <= records@.len(),
            folded.through_sequence == i,
            fold_records_spec(initial@, records@.subrange(0, i as int)) == Ok::<FoldedView, u64>(
                folded_view(folded),
            ),
        decreases records.len() - i,
    {
        let record = &records[i];
        proof {
            assert(records@.subrange(0, i + 1).drop_last() =~= records@.subrange(0, i as int));
            assert(records@.subrange(0, i + 1).last() == *record);
        }
        if folded.through_sequence == u64::MAX || record.sequence != folded.through_sequence + 1 {
            proof {
                lemma_fold_records_error_prefix(initial@, records@, i + 1);
            }
            return Err(BrainError::Journal(Fault::SequenceGap { sequence: record.sequence }));
        }
        folded.through_sequence = record.sequence;
        let kind = record.kind.as_str();
        proof {
            reveal_strlit("turn_started");
            reveal_strlit("turn_finished");
            reveal_strlit("turn_failed");
            reveal_strlit("session_ended");
            reveal_strlit("context_updated");
        }
        if str_eq(kind, "turn_started") {
            folded.status = SessionStatus::Running;
        } else if str_eq(kind, "turn_finished") || str_eq(kind, "turn_failed") {
            folded.status = SessionStatus::Idle;
        } else if str_eq(kind, "session_ended") {
            folded.status = SessionStatus::Ended;
        } else if str_eq(kind, "context_updated") {
            folded.context = record.payload.clone();
        } else if ends_with(kind, "_intent") {
            let ghost before = folded.pending_operations@;
            folded.pending_operations.push(
                PendingOperation {
                    operation_id: record.operation_id.duplicate(),
                    payload: record.payload.clone(),
                },
            );
            assert(pendings_view(folded.pending_operations@) =~= pendings_view(before).push(
                (opt_view(record.operation_id), record.payload@),
            ));
        } else if ends_with(kind, "_result") || ends_with(kind, "_ambiguous") {
            if let Some(id) = &record.operation_id {
                let mut pending: Vec<PendingOperation> = Vec::new();
                std::mem::swap(&mut pending, &mut folded.pending_operations);
                folded.pending_operations = remove_operation(pending, id);
            }
        }
        i = i + 1;
    }
    proof {
        assert(records@.subrange(0, records@.len() as int) =~= records@);
    }
    Ok(folded)
}

proof fn lemma_fold_records_error_prefix(initial: Seq<char>, records: Seq<JournalRecord>, n: int)
    requires
        0 < n <= records.len(),
        fold_records_spec(initial, records.subrange(0, n)) is Err,
    ensures
        fold_records_spec(initial, records) == fold_records_spec(initial, records.subrange(0, n)),
    decreases records.len() - n,
{
    if n < records.len() {
        assert(records.drop_last().subrange(0, n) =~= records.subrange(0, n));
        lemma_fold_records_error_prefix(initial, records.drop_last(), n);
    } else {
        assert(records.subrange(0, n) =~= records);
    }
}

} // verus!
