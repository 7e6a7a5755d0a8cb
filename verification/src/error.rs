//! The library's error type. Each failure carries the facts its message is built from, so a
//! contract can say exactly which failure an input produces.

use vstd::prelude::*;

verus! {

/// Why a request or a stored value was refused.
#[derive(Debug, Clone, PartialEq, Eq)]
pub enum Fault {
    /// The session journal ceiling is outside `[minimum, maximum]`.
    SessionBytesOutOfRange { minimum: u64, maximum: u64 },
    /// The tenant journal ceiling is outside `[minimum, maximum]`.
    TenantBytesOutOfRange { minimum: u64, maximum: u64 },
    /// The tenant retained-session ceiling is outside `[minimum, maximum]`.
    TenantSessionsOutOfRange { minimum: u64, maximum: u64 },
    /// A record page byte budget below the largest legal record.
    PageBytesBelowRecord { max_bytes: usize },
    RetentionMeterOverflowed,
    EffectReserveOverflowed,
    EffectReserveUnderflowed,
    RetentionDeltaOutOfRange,
    RetentionProjectionMismatch,
    SessionListCursorMalformed,
    SequenceExhausted,
    FenceExhausted,
    TenantStorageMeterOverflowed,
    TenantStorageMeterNegative,
    TenantStorageDeltaOutOfRange,
    TenantJournalMeterOverflowed,
    TenantJournalMeterNegative,
    TenantSessionMeterOverflowed,
    TenantSessionMeterNegative,
    AncestorPathMismatch,
    ChildAncestorPathMismatch,
    ChildAdmissionClosedByAncestor,
    ChildAdmissionClosed,
    NewSessionHasStorage,
    ChildReservesBundleStorage,
    SessionAlreadyExists,
    DeletionAnchorMismatch,
    DeletionLostStorageAnchor,
    DeletionLostRetentionAnchor,
    SandboxAdmissionClosed,
    SandboxTargetChanged,
    SandboxSlotNotTerminal,
    /// A decision with more store actions than one backend transaction may carry.
    TooManyActions { actions: usize },
    /// A listing projection larger than its ceiling.
    ListingTooLarge { bytes: u64 },
    /// The mutable HEAD payload larger than its ceiling.
    HeadTooLarge { bytes: u64 },
    /// One record larger than its ceiling: its position in the decision (its kind is that
    /// record's `kind_name`) and its size.
    RecordTooLarge { record: usize, bytes: u64 },
    /// A whole decision larger than one backend transaction.
    DecisionTooLarge { bytes: u64 },
    /// The sealed CONFIG payload larger than its ceiling.
    ConfigTooLarge { bytes: u64 },
    CustodyPlaintextSize { label: String },
    CustodyWrongSession,
    CustodyBlobNotBase64,
    FrameTooShort,
    FrameFailedCheck,
    CorruptSegment { segment: u64, offset: u64 },
    SequenceGap { sequence: u64 },
    CommitOrderChanged { expected: u64, found: u64 },
    NoCreationRecord,
    AppendTooLarge,
    /// A stored record written under another schema version.
    JournalSchemaUnsupported { session_id: String, sequence: u64, version: u32 },
    /// A stored record whose checksum does not match its contents.
    JournalChecksumMismatch { session_id: String, sequence: u64 },
    /// A stored record that does not continue its session's sequence.
    JournalSequenceGap { session_id: String, sequence: u64 },
    /// A session row whose position is not where its journal ends.
    SessionPositionMismatch { session_id: String, through_sequence: u64 },
    SessionNotEnded,
    PathOutsideWorkspace,
    PathEscapesWorkspace,
    ArtifactNameNotPlain,
    /// A vocabulary word this journal does not know.
    UnknownName { value: String },
    LiveBacklogZero,
    OldStringNotFound,
    GrepPatternInvalid,
    GlobPatternInvalid,
    OldStringAmbiguous { count: usize },
    WriterFailed,
    WriterShutDown,
}

/// The library's failures.
#[derive(Debug, Clone, PartialEq, Eq)]
pub enum BrainError {
    Invalid(Fault),
    Journal(Fault),
    Custody(Fault),
    InvalidState(Fault),
    Conflict(Fault),
    NoSuchSession(String),
    FileNotFound(String),
    Fenced,
    Overloaded,
    IdempotencyConflict,
    SandboxResourceExhausted,
    SandboxGone,
    SessionJournalQuotaExceeded { requested: u64, limit: u64 },
    TenantStorageQuotaExceeded { requested: u64, limit: u64 },
    TenantJournalQuotaExceeded { requested: u64, limit: u64 },
    TenantRetainedSessionQuotaExceeded { limit: u64 },
}

} // verus!
