//! One session's in-memory projection of its journal: the row, the index from sequence to frame
//! location, and the transcript length the visible events depend on. The store rebuilds it
//! frame by frame at open and advances it as commits complete.

use vstd::prelude::*;
use crate::error::{BrainError, Fault};
use crate::frame::Location;
use crate::session::{AppendRecord, SessionRecord, SessionRow, SessionStatus};
use crate::text::str_eq;

verus! {

pub const SESSION_CREATION_STARTED: &'static str = "session_creation_started";
pub const SESSION_CREATION_ENDED: &'static str = "session_creation_ended";
pub const SESSION_CREATION_FAILED: &'static str = "session_creation_failed";
pub const TURN_STARTED: &'static str = "turn_started";
pub const TURN_ENDED: &'static str = "turn_ended";
pub const TURN_FAILED: &'static str = "turn_failed";
pub const SESSION_ENDED: &'static str = "session_ended";
pub const TRANSCRIPT_REPLACED: &'static str = "transcript_replaced";

/// A page of public events never carries more than this many payload bytes.
pub const MAX_EVENT_PAGE_BYTES: u64 = 8 * 1024 * 1024;

/// What a lifecycle record does to the row when folded back.
#[derive(Debug, Clone, PartialEq, Eq)]
pub enum Lifecycle {
    Creating(String),
    Created(String),
    Status(SessionStatus),
}

/// The lifecycle effect of a record of kind `kind`. `payload` is the record's JSON text;
/// `created_configuration` is the `configuration` member of a creation-ended payload, when the
/// payload carries one.
pub open spec fn lifecycle_spec(kind: Seq<char>, payload: String, created_configuration: Option<String>) -> Option<Lifecycle> {
    if kind == "session_creation_started"@ {
        Some(Lifecycle::Creating(payload))
    } else if kind == "session_creation_ended"@ {
        match created_configuration {
            Some(c) => Some(Lifecycle::Created(c)),
            None => None,
        }
    } else if kind == "session_creation_failed"@ {
        Some(Lifecycle::Status(SessionStatus::Failed))
    } else if kind == "turn_started"@ {
        Some(Lifecycle::Status(SessionStatus::Running))
    } else if kind == "turn_ended"@ || kind == "turn_failed"@ {
        Some(Lifecycle::Status(SessionStatus::Idle))
    } else if kind == "session_ended"@ {
        Some(Lifecycle::Status(SessionStatus::Ended))
    } else {
        None
    }
}

pub fn lifecycle_of(kind: &str, payload: String, created_configuration: Option<String>) -> (r: Option<Lifecycle>)
    ensures
        r == lifecycle_spec(kind@, payload, created_configuration),
{
    if str_eq(kind, SESSION_CREATION_STARTED) {
        Some(Lifecycle::Creating(payload))
    } else if str_eq(kind, SESSION_CREATION_ENDED) {
        match created_configuration {
            Some(c) => Some(Lifecycle::Created(c)),
            None => None,
        }
    } else if str_eq(kind, SESSION_CREATION_FAILED) {
        Some(Lifecycle::Status(SessionStatus::Failed))
    } else if str_eq(kind, TURN_STARTED) {
        Some(Lifecycle::Status(SessionStatus::Running))
    } else if str_eq(kind, TURN_ENDED) || str_eq(kind, TURN_FAILED) {
        Some(Lifecycle::Status(SessionStatus::Idle))
    } else if str_eq(kind, SESSION_ENDED) {
        Some(Lifecycle::Status(SessionStatus::Ended))
    } else {
        None
    }
}

/// Last write wins: both `turn_ended` and `turn_failed` leave a session idle, so neither
/// implies a failed session; only a failed creation does that.
pub open spec fn row_after(row: SessionRow, lifecycle: Lifecycle) -> SessionRow {
    match lifecycle {
        Lifecycle::Creating(c) => SessionRow { configuration: Some(c), status: SessionStatus::Creating, ..row },
        Lifecycle::Created(c) => SessionRow { configuration: Some(c), status: SessionStatus::Idle, ..row },
        Lifecycle::Status(status) => SessionRow { status, ..row },
    }
}

pub fn apply_lifecycle(row: &mut SessionRow, lifecycle: Lifecycle)
    ensures
        *final(row) == row_after(*old(row), lifecycle),
{
    match lifecycle {
        Lifecycle::Creating(configuration) => {
            row.configuration = Some(configuration);
            row.status = SessionStatus::Creating;
        },
        Lifecycle::Created(configuration) => {
            row.configuration = Some(configuration);
            row.status = SessionStatus::Idle;
        },
        Lifecycle::Status(status) => row.status = status,
    }
}

/// Whether a record kind is a private journal entry rather than a public event.
pub fn journal_kind(kind: &str) -> (r: bool)
    ensures
        r == (kind@ == "transcript_delta"@ || kind@ == "state_set"@),
{
    crate::session::JournalEntry::is_kind(kind)
}

/// A transcript delta keeping `keep` messages and appending `append_len`.
#[derive(Debug, Clone, Copy, PartialEq, Eq, Structural)]
pub struct TranscriptDelta {
    pub keep: u64,
    pub append_len: usize,
}

/// The transcript length after a delta, and whether the delta replaced (rather than only
/// extended) the transcript, which is what makes it a visible event.
pub open spec fn replaced_spec(transcript_len: usize, delta: Option<TranscriptDelta>) -> (usize, bool) {
    match delta {
        Some(d) => {
            let keep = if d.keep <= transcript_len { d.keep as int } else { transcript_len as int };
            let next = if keep + d.append_len > usize::MAX { usize::MAX } else { (keep + d.append_len) as usize };
            (next, keep < transcript_len)
        },
        None => (transcript_len, false),
    }
}

pub fn transcript_replaced(transcript_len: &mut usize, delta: Option<TranscriptDelta>) -> (r: bool)
    ensures
        (*final(transcript_len), r) == replaced_spec(*old(transcript_len), delta),
{
    match delta {
        Some(d) => {
            let keep: usize = if d.keep <= *transcript_len as u64 { d.keep as usize } else { *transcript_len };
            let replaced = keep < *transcript_len;
            *transcript_len = keep.saturating_add(d.append_len);
            replaced
        },
        None => false,
    }
}

/// One session's projection.
#[derive(Debug, Clone)]
pub struct StoreState {
    pub row: SessionRow,
    pub last_recorded_at_ms: u64,
    pub next_sequence: u64,
    pub next_recorded_at_ms: u64,
    /// `events[i]` holds the public event at sequence `i + 1`; private entries that replace no
    /// transcript leave `None` at their sequence.
    pub events: Vec<Option<Location>>,
    /// Transcript and agent-loop state entries in order.
    pub journal: Vec<(u64, Location)>,
    pub transcript_len: usize,
}

/// The projection is dense: one event slot per sequence the row is current to.
pub open spec fn dense(state: StoreState) -> bool {
    state.events@.len() == state.row.through_sequence
}

impl StoreState {
    /// A projection with nothing read yet.
    pub fn empty(session_id: String, configuration: Option<String>) -> (s: StoreState)
        ensures
            s.row == (SessionRow { session_id, status: SessionStatus::Creating, through_sequence: 0, configuration }),
            s.events@.len() == 0,
            s.journal@.len() == 0,
            s.transcript_len == 0,
            s.next_sequence == 0,
            s.last_recorded_at_ms == 0,
            s.next_recorded_at_ms == 0,
    {
        StoreState {
            row: SessionRow { session_id, status: SessionStatus::Creating, through_sequence: 0, configuration },
            last_recorded_at_ms: 0,
            next_sequence: 0,
            next_recorded_at_ms: 0,
            events: Vec::new(),
            journal: Vec::new(),
            transcript_len: 0,
        }
    }
}

/// One frame as replay needs it, already decoded: a private journal entry (with its delta when
/// it is a transcript delta) or a public event (with its lifecycle effect, if any).
pub enum ReplayedFrame {
    Entry { delta: Option<TranscriptDelta> },
    Event { lifecycle: Option<Lifecycle> },
}

/// Fold one frame read back at open into the projection. Frames must be dense: a gap is
/// refused rather than indexed, because an index with a gap answers for the wrong record.
pub fn replay_frame(
    state: &mut StoreState,
    sequence: u64,
    recorded_at_ms: u64,
    location: Location,
    frame: ReplayedFrame,
) -> (r: Result<(), BrainError>)
    requires
        dense(*old(state)),
    ensures
        match r {
            Ok(()) => {
                &&& old(state).row.through_sequence < u64::MAX
                &&& sequence == old(state).row.through_sequence + 1
                &&& dense(*final(state))
                &&& final(state).row.through_sequence == sequence
                &&& final(state).last_recorded_at_ms == recorded_at_ms
                &&& match frame {
                    ReplayedFrame::Entry { delta } => {
                        let (len, visible) = replaced_spec(old(state).transcript_len, delta);
                        &&& final(state).transcript_len == len
                        &&& final(state).events@ == old(state).events@.push(if visible { Some(location) } else { None })
                        &&& final(state).journal@ == old(state).journal@.push((sequence, location))
                        &&& final(state).row == SessionRow { through_sequence: sequence, ..old(state).row }
                    },
                    ReplayedFrame::Event { lifecycle } => {
                        &&& final(state).events@ == old(state).events@.push(Some(location))
                        &&& final(state).journal@ == old(state).journal@
                        &&& final(state).transcript_len == old(state).transcript_len
                        &&& final(state).row == match lifecycle {
                            Some(l) => row_after(SessionRow { through_sequence: sequence, ..old(state).row }, l),
                            None => SessionRow { through_sequence: sequence, ..old(state).row },
                        }
                    },
                }
            },
            Err(e) => {
                &&& (old(state).row.through_sequence == u64::MAX || sequence != old(state).row.through_sequence + 1)
                &&& *final(state) == *old(state)
                &&& e == BrainError::Journal(Fault::SequenceGap { sequence })
            },
        },
{
    if state.row.through_sequence == u64::MAX || sequence != state.row.through_sequence + 1 {
        return Err(BrainError::Journal(Fault::SequenceGap { sequence }));
    }
    state.row.through_sequence = sequence;
    state.last_recorded_at_ms = recorded_at_ms;
    match frame {
        ReplayedFrame::Entry { delta } => {
            let visible = transcript_replaced(&mut state.transcript_len, delta);
            state.events.push(if visible { Some(location) } else { None });
            state.journal.push((sequence, location));
        },
        ReplayedFrame::Event { lifecycle } => {
            state.events.push(Some(location));
            if let Some(lifecycle) = lifecycle {
                apply_lifecycle(&mut state.row, lifecycle);
            }
        },
    }
    Ok(())
}

/// Finish an open: a log without a creation record is refused; otherwise the next commit
/// continues from where the log ends.
pub fn finish_open(state: &mut StoreState) -> (r: Result<(), BrainError>)
    ensures
        match r {
            Ok(()) => old(state).row.configuration is Some && *final(state) == StoreState {
                next_sequence: old(state).row.through_sequence,
                next_recorded_at_ms: old(state).last_recorded_at_ms,
                ..*old(state)
            },
            Err(e) => old(state).row.configuration is None && *final(state) == *old(state) && e
                == BrainError::Journal(Fault::NoCreationRecord),
        },
{
    if state.row.configuration.is_none() {
        return Err(BrainError::Journal(Fault::NoCreationRecord));
    }
    state.next_sequence = state.row.through_sequence;
    state.next_recorded_at_ms = state.last_recorded_at_ms;
    Ok(())
}

/// Reserve `count` sequences for a batch the writer has selected. Recorded time never goes
/// backwards within a session, whatever the wall clock does.
pub fn allocate_sequences(state: &mut StoreState, count: u64, wall_clock_ms: u64) -> (r: Result<
    (u64, u64),
    BrainError,
>)
    ensures
        match r {
            Ok((first, recorded_at_ms)) => {
                &&& old(state).next_sequence + count <= u64::MAX
                &&& first == old(state).next_sequence + 1
                &&& recorded_at_ms == (if wall_clock_ms >= old(state).next_recorded_at_ms { wall_clock_ms } else { old(state).next_recorded_at_ms })
                &&& *final(state) == StoreState {
                    next_sequence: (old(state).next_sequence + count) as u64,
                    next_recorded_at_ms: recorded_at_ms,
                    ..*old(state)
                }
            },
            Err(e) => (old(state).next_sequence == u64::MAX || old(state).next_sequence + count > u64::MAX)
                && *final(state) == *old(state) && e == BrainError::Journal(Fault::SequenceExhausted),
        },
{
    if state.next_sequence == u64::MAX || count > u64::MAX - state.next_sequence {
        return Err(BrainError::Journal(Fault::SequenceExhausted));
    }
    let first = state.next_sequence + 1;
    state.next_sequence = state.next_sequence + count;
    let recorded_at_ms = if wall_clock_ms >= state.next_recorded_at_ms { wall_clock_ms } else { state.next_recorded_at_ms };
    state.next_recorded_at_ms = recorded_at_ms;
    Ok((first, recorded_at_ms))
}

/// Make a committed batch of public records visible, in commit order. A batch that does not
/// continue the row exactly is refused: commits complete in the order they were sequenced.
pub fn complete_records(
    state: &mut StoreState,
    first_sequence: u64,
    locations: &[Location],
    recorded_at_ms: u64,
    status: Option<SessionStatus>,
    configuration: Option<String>,
) -> (r: Result<(), BrainError>)
    requires
        dense(*old(state)),
    ensures
        match r {
            Ok(()) => {
                &&& old(state).row.through_sequence + 1 == first_sequence
                &&& old(state).row.through_sequence + locations@.len() <= u64::MAX
                &&& dense(*final(state))
                &&& final(state).events@ == old(state).events@ + locations@.map_values(|l: Location| Some(l))
                &&& final(state).row.through_sequence == old(state).row.through_sequence + locations@.len()
                &&& final(state).last_recorded_at_ms == recorded_at_ms
                &&& final(state).row.status == (match status { Some(s) => s, None => old(state).row.status })
                &&& final(state).row.configuration == (match configuration { Some(c) => Some(c), None => old(state).row.configuration })
                &&& final(state).row.session_id == old(state).row.session_id
                &&& final(state).journal@ == old(state).journal@
                &&& final(state).transcript_len == old(state).transcript_len
                &&& final(state).next_sequence == old(state).next_sequence
            },
            Err(e) => {
                &&& (old(state).row.through_sequence + 1 != first_sequence || old(state).row.through_sequence + locations@.len() > u64::MAX)
                &&& *final(state) == *old(state)
            },
        },
{
    if state.row.through_sequence == u64::MAX || state.row.through_sequence + 1 != first_sequence {
        let expected = if state.row.through_sequence == u64::MAX { u64::MAX } else { state.row.through_sequence + 1 };
        return Err(BrainError::Journal(Fault::CommitOrderChanged { expected, found: first_sequence }));
    }
    if locations.len() as u64 > u64::MAX - state.row.through_sequence {
        return Err(BrainError::Journal(Fault::SequenceExhausted));
    }
    let ghost before = state.events@;
    let mut i: usize = 0;
    while i < locations.len()
        invariant
            i <= locations@.len(),
            state.events@ == before + locations@.subrange(0, i as int).map_values(|l: Location| Some(l)),
            state.row == old(state).row,
            state.journal@ == old(state).journal@,
            state.transcript_len == old(state).transcript_len,
            state.next_sequence == old(state).next_sequence,
            state.last_recorded_at_ms == old(state).last_recorded_at_ms,
            state.next_recorded_at_ms == old(state).next_recorded_at_ms,
        decreases locations.len() - i,
    {
        state.events.push(Some(locations[i]));
        i = i + 1;
        assert(state.events@ =~= before + locations@.subrange(0, i as int).map_values(|l: Location| Some(l)));
    }
    assert(locations@.subrange(0, locations@.len() as int) =~= locations@);
    state.row.through_sequence = state.row.through_sequence + locations.len() as u64;
    state.last_recorded_at_ms = recorded_at_ms;
    if let Some(status) = status {
        state.row.status = status;
    }
    if let Some(configuration) = configuration {
        state.row.configuration = Some(configuration);
    }
    Ok(())
}

/// The public events a page after `after` holds: at most `limit` of them, in sequence order,
/// skipping private slots, and stopping before the payload bytes would pass the page ceiling
/// (a page always holds at least one event when one exists).
pub open spec fn page_from(events: Seq<Option<Location>>, i: int, bytes: int, remaining: int, started: bool) -> Seq<(u64, Location)>
    decreases events.len() - i,
{
    if remaining <= 0 || i < 0 || i >= events.len() {
        Seq::empty()
    } else {
        match events[i] {
            None => page_from(events, i + 1, bytes, remaining, started),
            Some(location) => {
                let next = if bytes + location.length > u64::MAX { u64::MAX as int } else { bytes + location.length };
                if started && next > MAX_EVENT_PAGE_BYTES {
                    Seq::empty()
                } else {
                    seq![((i + 1) as u64, location)] + page_from(events, i + 1, next, remaining - 1, true)
                }
            },
        }
    }
}

pub fn select_event_page(events: &[Option<Location>], after: u64, limit: usize) -> (page: Vec<(u64, Location)>)
    ensures
        page@ == page_from(events@, after as int, 0, limit as int, false),
{
    let mut page: Vec<(u64, Location)> = Vec::new();
    if after >= events.len() as u64 {
        return page;
    }
    let mut i: usize = after as usize;
    let mut bytes: u64 = 0;
    let ghost target = page_from(events@, after as int, 0, limit as int, false);
    while page.len() < limit && i < events.len()
        invariant
            i <= events@.len(),
            page@.len() <= limit,
            target == page_from(events@, after as int, 0, limit as int, false),
            target == page@ + page_from(events@, i as int, bytes as int, limit - page@.len(), page@.len() > 0),
        decreases events.len() - i,
    {
        match events[i] {
            None => {},
            Some(location) => {
                let next = bytes.saturating_add(location.length as u64);
                if page.len() > 0 && next > MAX_EVENT_PAGE_BYTES {
                    proof {
                        assert(events@[i as int] == Some(location));
                        assert(limit - page@.len() > 0);
                        assert(page_from(events@, i as int, bytes as int, limit - page@.len(), true) =~= Seq::empty());
                        assert(page@ + Seq::<(u64, Location)>::empty() =~= page@);
                    }
                    return page;
                }
                bytes = next;
                let ghost before = page@;
                page.push(((i + 1) as u64, location));
                proof {
                    assert(before + (seq![((i + 1) as u64, location)] + page_from(events@, i + 1, bytes as int, limit - before.len() - 1, true))
                        =~= page@ + page_from(events@, i + 1, bytes as int, limit - page@.len(), true));
                }
            },
        }
        i = i + 1;
    }
    proof {
        assert(page_from(events@, i as int, bytes as int, limit - page@.len(), page@.len() > 0) =~= Seq::empty());
        assert(page@ + Seq::<(u64, Location)>::empty() =~= page@);
    }
    page
}

/// Only an ended or failed session can be deleted.
pub fn ensure_deletable(status: SessionStatus) -> (r: Result<(), BrainError>)
    ensures
        r is Ok <==> (status == SessionStatus::Ended || status == SessionStatus::Failed),
        r matches Err(e) ==> e == BrainError::InvalidState(Fault::SessionNotEnded),
{
    match status {
        SessionStatus::Ended | SessionStatus::Failed => Ok(()),
        _ => Err(BrainError::InvalidState(Fault::SessionNotEnded)),
    }
}

/// A session still running after its log has been read was mid-turn when the previous process
/// stopped; that turn must be closed as interrupted.
pub fn needs_interrupt(status: SessionStatus) -> (r: bool)
    ensures
        r == (status == SessionStatus::Running),
{
    match status {
        SessionStatus::Running => true,
        _ => false,
    }
}

/// The total length of some encoded frames.
pub open spec fn frames_len(frames: Seq<Vec<u8>>) -> int
    decreases frames.len(),
{
    if frames.len() == 0 { 0 } else { frames_len(frames.drop_last()) + frames.last()@.len() }
}

/// A prefix of the frames is no longer than all of them.
proof fn lemma_frames_len_prefix(frames: Seq<Vec<u8>>, j: int)
    requires
        0 <= j <= frames.len(),
    ensures
        frames_len(frames.take(j)) <= frames_len(frames),
    decreases frames.len() - j,
{
    if j < frames.len() {
        lemma_frames_len_prefix(frames, j + 1);
        assert(frames.take(j + 1).drop_last() =~= frames.take(j));
    } else {
        assert(frames.take(j) =~= frames);
    }
}

/// The bytes a batch of encoded frames asks the writer for; a total past `u64` is refused.
pub fn batch_bytes(frames: &[Vec<u8>]) -> (r: Result<u64, BrainError>)
    ensures
        match r {
            Ok(total) => total == frames_len(frames@),
            Err(e) => frames_len(frames@) > u64::MAX && e == BrainError::Journal(Fault::AppendTooLarge),
        },
{
    let mut total: u64 = 0;
    let mut i: usize = 0;
    while i < frames.len()
        invariant
            i <= frames@.len(),
            total == frames_len(frames@.take(i as int)),
        decreases frames.len() - i,
    {
        assert(frames@.take(i as int + 1).drop_last() =~= frames@.take(i as int));
        let n = frames[i].len() as u64;
        if total > u64::MAX - n {
            proof {
                lemma_frames_len_prefix(frames@, i as int + 1);
            }
            return Err(BrainError::Journal(Fault::AppendTooLarge));
        }
        total = total + n;
        i = i + 1;
    }
    assert(frames@.take(i as int) =~= frames@);
    Ok(total)
}

/// Replaying transcript deltas from a transcript of `len` messages: the length after all of
/// them, and for each whether it replaced (and so is a visible event).
pub open spec fn replay_deltas(len: usize, deltas: Seq<Option<TranscriptDelta>>) -> (usize, Seq<bool>)
    decreases deltas.len(),
{
    if deltas.len() == 0 {
        (len, Seq::empty())
    } else {
        let (before, flags) = replay_deltas(len, deltas.drop_last());
        let (after, visible) = replaced_spec(before, deltas.last());
        (after, flags.push(visible))
    }
}

/// The sequences, from `first`, whose flag is set, in order.
pub open spec fn flagged_sequences(first: u64, flags: Seq<bool>) -> Seq<u64>
    decreases flags.len(),
{
    if flags.len() == 0 {
        Seq::empty()
    } else {
        let before = flagged_sequences(first, flags.drop_last());
        if flags.last() { before.push((first + flags.len() - 1) as u64) } else { before }
    }
}

/// Make a committed batch of private journal entries part of the projection, in commit order:
/// each is indexed at its sequence, and a delta that replaced the transcript also takes its
/// event slot. Returns the sequences that became visible events. A batch that does not
/// continue the row exactly is refused.
pub fn complete_entries(
    state: &mut StoreState,
    first_sequence: u64,
    locations: &[Location],
    deltas: &[Option<TranscriptDelta>],
    recorded_at_ms: u64,
) -> (r: Result<Vec<u64>, BrainError>)
    requires
        dense(*old(state)),
        locations@.len() == deltas@.len(),
    ensures
        match r {
            Ok(visible) => {
                let n = locations@.len() as int;
                let (len, flags) = replay_deltas(old(state).transcript_len, deltas@);
                &&& old(state).row.through_sequence + 1 == first_sequence
                &&& old(state).row.through_sequence + n <= u64::MAX
                &&& dense(*final(state))
                &&& final(state).transcript_len == len
                &&& final(state).events@ == old(state).events@ + Seq::new(n as nat, |i: int| if flags[i] { Some(locations@[i]) } else { None })
                &&& final(state).journal@ == old(state).journal@ + Seq::new(n as nat, |i: int| ((first_sequence + i) as u64, locations@[i]))
                &&& final(state).row == SessionRow { through_sequence: (old(state).row.through_sequence + n) as u64, ..old(state).row }
                &&& final(state).last_recorded_at_ms == recorded_at_ms
                &&& final(state).next_sequence == old(state).next_sequence
                &&& final(state).next_recorded_at_ms == old(state).next_recorded_at_ms
                &&& visible@ == flagged_sequences(first_sequence, flags)
            },
            Err(e) => {
                &&& (old(state).row.through_sequence + 1 != first_sequence || old(state).row.through_sequence + locations@.len() > u64::MAX)
                &&& *final(state) == *old(state)
                &&& (e == BrainError::Journal(Fault::SequenceExhausted) || e matches BrainError::Journal(Fault::CommitOrderChanged { .. }))
            },
        },
{
    if state.row.through_sequence == u64::MAX || state.row.through_sequence + 1 != first_sequence {
        let expected = if state.row.through_sequence == u64::MAX { u64::MAX } else { state.row.through_sequence + 1 };
        return Err(BrainError::Journal(Fault::CommitOrderChanged { expected, found: first_sequence }));
    }
    if locations.len() as u64 > u64::MAX - state.row.through_sequence {
        return Err(BrainError::Journal(Fault::SequenceExhausted));
    }
    let ghost old_events = state.events@;
    let ghost old_journal = state.journal@;
    let ghost start_len = state.transcript_len;
    let mut visible: Vec<u64> = Vec::new();
    let mut i: usize = 0;
    while i < locations.len()
        invariant
            i <= locations@.len(),
            locations@.len() == deltas@.len(),
            first_sequence + locations@.len() <= u64::MAX + 1,
            ({
                let (len, flags) = replay_deltas(start_len, deltas@.take(i as int));
                &&& state.transcript_len == len
                &&& state.events@ == old_events + Seq::new(i as nat, |k: int| if flags[k] { Some(locations@[k]) } else { None })
                &&& visible@ == flagged_sequences(first_sequence, flags)
                &&& flags.len() == i
            }),
            state.journal@ == old_journal + Seq::new(i as nat, |k: int| ((first_sequence + k) as u64, locations@[k])),
            state.row == old(state).row,
            state.next_sequence == old(state).next_sequence,
            state.last_recorded_at_ms == old(state).last_recorded_at_ms,
            state.next_recorded_at_ms == old(state).next_recorded_at_ms,
        decreases locations.len() - i,
    {
        let ghost prev = replay_deltas(start_len, deltas@.take(i as int));
        proof {
            assert(deltas@.take(i as int + 1).drop_last() =~= deltas@.take(i as int));
            assert(deltas@.take(i as int + 1).last() == deltas@[i as int]);
        }
        let sequence = first_sequence + i as u64;
        let shown = transcript_replaced(&mut state.transcript_len, deltas[i]);
        state.events.push(if shown { Some(locations[i]) } else { None });
        state.journal.push((sequence, locations[i]));
        if shown {
            visible.push(sequence);
        }
        proof {
            let (len, flags) = replay_deltas(start_len, deltas@.take(i as int + 1));
            assert(flags == prev.1.push(shown));
            assert(state.events@ =~= old_events + Seq::new(i as nat + 1, |k: int| if flags[k] { Some(locations@[k]) } else { None }));
            assert(state.journal@ =~= old_journal + Seq::new(i as nat + 1, |k: int| ((first_sequence + k) as u64, locations@[k])));
            assert(flags.drop_last() =~= prev.1);
        }
        i = i + 1;
    }
    proof {
        assert(deltas@.take(i as int) =~= deltas@);
    }
    state.row.through_sequence = state.row.through_sequence + locations.len() as u64;
    state.last_recorded_at_ms = recorded_at_ms;
    Ok(visible)
}

/// A batch of appended records as saved: each carries the session, its sequence counted from
/// `first_sequence`, and the batch's recorded time.
pub fn sequence_records(session_id: &str, first_sequence: u64, recorded_at_ms: u64, records: Vec<AppendRecord>) -> (saved: Vec<SessionRecord>)
    requires
        first_sequence + records@.len() <= u64::MAX + 1,
    ensures
        saved@.len() == records@.len(),
        forall|i: int| 0 <= i < saved@.len() ==> {
            &&& (#[trigger] saved@[i]).session_id@ == session_id@
            &&& saved@[i].sequence == first_sequence + i
            &&& saved@[i].recorded_at_ms == recorded_at_ms
            &&& saved@[i].kind == records@[i].kind
            &&& saved@[i].payload == records@[i].payload
        },
{
    let ghost all = records@;
    let mut saved: Vec<SessionRecord> = Vec::new();
    let count = records.len();
    assert(all.len() == count);
    let mut offset: u64 = 0;
    for record in it: records
        invariant
            it.seq() == all,
            first_sequence + all.len() <= u64::MAX + 1,
            saved@.len() == it.index(),
            offset == it.index(),
            all.len() <= usize::MAX,
            forall|i: int| 0 <= i < saved@.len() ==> {
                &&& (#[trigger] saved@[i]).session_id@ == session_id@
                &&& saved@[i].sequence == first_sequence + i
                &&& saved@[i].recorded_at_ms == recorded_at_ms
                &&& saved@[i].kind == all[i].kind
                &&& saved@[i].payload == all[i].payload
            },
    {
        saved.push(SessionRecord {
            session_id: session_id.to_owned(),
            sequence: first_sequence + offset,
            recorded_at_ms,
            kind: record.kind,
            payload: record.payload,
        });
        offset = offset + 1;
    }
    saved
}

} // verus!
