//! The append-only retention meter. Every decision is charged its serialized bytes against the
//! session ceiling before it reaches a store; bounded reserves keep lifecycle records and the
//! terminal record of an in-flight external effect journalable after ordinary traffic has
//! exhausted the quota.

use vstd::prelude::*;
use crate::error::{BrainError, Fault};
use crate::records::{Record, SandboxState};
use crate::vocab::SessionLifecycle;

verus! {

/// Bound on the tool-result content a single record may carry.
pub const MAX_RECORD_CONTENT_BYTES: usize = 96 * 1024;
/// Backend-neutral bound for one serialized record.
pub const MAX_SERIALIZED_RECORD_BYTES: usize = 256 * 1024;
/// The complete mutable HEAD payload (control plus listing projection).
pub const MAX_SERIALIZED_HEAD_BYTES: usize = 256 * 1024;
pub const MAX_SERIALIZED_LISTING_BYTES: usize = 64 * 1024;
/// Immutable CONFIG is a separate backend item with the same neutral ceiling as HEAD.
pub const MAX_SERIALIZED_CONFIG_BYTES: usize = 256 * 1024;
/// Includes the mutable HEAD update.
pub const MAX_DECISION_ACTIONS: usize = 64;
pub const MAX_DECISION_SERIALIZED_BYTES: usize = 3 * 1024 * 1024;
pub const DEFAULT_MAX_SESSION_JOURNAL_BYTES: u64 = 128 * 1024 * 1024;
pub const DEFAULT_MAX_TENANT_JOURNAL_BYTES: u64 = 512 * 1024 * 1024;
pub const DEFAULT_MAX_TENANT_RETAINED_SESSIONS: u64 = 4096;
/// Estimated per-item backend envelope, charged beside every record.
pub const ESTIMATED_ITEM_ENVELOPE_BYTES: usize = 1024;
/// Every retained identity pays for its bounded immutable/control projection up front.
pub const JOURNAL_SESSION_BASE_BYTES: u64 = 256 * 1024 + 256 * 1024 + 64 * 1024 + 3 * 1024;
/// Charged at create and consumed only by bounded lifecycle/recovery records.
pub const JOURNAL_LIFECYCLE_RESERVE_BYTES: u64 = 64 * 1024;
/// One complete post-effect terminal decision.
pub const JOURNAL_TERMINAL_RESERVE_BYTES: u64 = 3 * 1024 * 1024;
/// A provider completion plus the terminal batch of the tool calls it installs.
pub const JOURNAL_EFFECT_RESERVE_BYTES: u64 = 2 * 3 * 1024 * 1024;
/// The smallest session ceiling that admits a largest create record plus every reserve.
pub const MIN_SESSION_JOURNAL_BYTES: u64 = JOURNAL_SESSION_BASE_BYTES
    + JOURNAL_LIFECYCLE_RESERVE_BYTES + JOURNAL_EFFECT_RESERVE_BYTES + 256 * 1024 + 1024;
/// Meter changes travel as signed 64-bit deltas, so no policy may exceed `i64::MAX`.
pub const MAX_JOURNAL_BYTES: u64 = 9223372036854775807;
pub const MIN_TENANT_RETAINED_SESSIONS: u64 = 1;
pub const MAX_TENANT_RETAINED_SESSIONS: u64 = 1_000_000;

/// Store-owned retention projection, persisted beside HEAD.
#[derive(Debug, Clone, Copy, PartialEq, Eq, Structural)]
pub struct JournalRetention {
    /// Actual charged base/record bytes plus both unspent reserves.
    pub metered_bytes: u64,
    /// Terminal capacity reserved by the last durable external-effect intent.
    pub effect_reserve_bytes: u64,
    /// Create-time lifecycle capacity that ordinary traffic may never consume.
    pub lifecycle_reserve_bytes: u64,
}

impl JournalRetention {
    /// Both reserves are part of the meter.
    pub open spec fn well_formed(self) -> bool {
        self.metered_bytes >= self.effect_reserve_bytes + self.lifecycle_reserve_bytes
    }

    /// The bytes actually charged for the base projection and records, reserves excluded.
    pub open spec fn charged(self) -> int {
        self.metered_bytes - self.effect_reserve_bytes - self.lifecycle_reserve_bytes
    }
}

/// Process-wide append-only retention ceilings.
#[derive(Debug, Clone, Copy, PartialEq, Eq, Structural)]
pub struct JournalRetentionLimits {
    pub session_bytes: u64,
    pub tenant_bytes: u64,
    pub tenant_sessions: u64,
}

impl JournalRetentionLimits {
    /// The policy every check below accepts.
    pub open spec fn valid(self) -> bool {
        &&& MIN_SESSION_JOURNAL_BYTES <= self.session_bytes <= MAX_JOURNAL_BYTES
        &&& self.session_bytes <= self.tenant_bytes <= MAX_JOURNAL_BYTES
        &&& MIN_TENANT_RETAINED_SESSIONS <= self.tenant_sessions <= MAX_TENANT_RETAINED_SESSIONS
    }

    /// Validate process policy before any session is admitted; the checks run in order.
    pub fn validate(self) -> (r: Result<JournalRetentionLimits, BrainError>)
        ensures
            match r {
                Ok(limits) => limits == self && self.valid(),
                Err(e) => !self.valid() && if !(MIN_SESSION_JOURNAL_BYTES <= self.session_bytes
                    <= MAX_JOURNAL_BYTES) {
                    e == BrainError::Invalid(
                        Fault::SessionBytesOutOfRange {
                            minimum: MIN_SESSION_JOURNAL_BYTES,
                            maximum: MAX_JOURNAL_BYTES,
                        },
                    )
                } else if !(self.session_bytes <= self.tenant_bytes <= MAX_JOURNAL_BYTES) {
                    e == BrainError::Invalid(
                        Fault::TenantBytesOutOfRange {
                            minimum: self.session_bytes,
                            maximum: MAX_JOURNAL_BYTES,
                        },
                    )
                } else {
                    e == BrainError::Invalid(
                        Fault::TenantSessionsOutOfRange {
                            minimum: MIN_TENANT_RETAINED_SESSIONS,
                            maximum: MAX_TENANT_RETAINED_SESSIONS,
                        },
                    )
                },
            },
    {
        if !(MIN_SESSION_JOURNAL_BYTES <= self.session_bytes && self.session_bytes
            <= MAX_JOURNAL_BYTES) {
            return Err(
                BrainError::Invalid(
                    Fault::SessionBytesOutOfRange {
                        minimum: MIN_SESSION_JOURNAL_BYTES,
                        maximum: MAX_JOURNAL_BYTES,
                    },
                ),
            );
        }
        if !(self.session_bytes <= self.tenant_bytes && self.tenant_bytes <= MAX_JOURNAL_BYTES) {
            return Err(
                BrainError::Invalid(
                    Fault::TenantBytesOutOfRange {
                        minimum: self.session_bytes,
                        maximum: MAX_JOURNAL_BYTES,
                    },
                ),
            );
        }
        if !(MIN_TENANT_RETAINED_SESSIONS <= self.tenant_sessions && self.tenant_sessions
            <= MAX_TENANT_RETAINED_SESSIONS) {
            return Err(
                BrainError::Invalid(
                    Fault::TenantSessionsOutOfRange {
                        minimum: MIN_TENANT_RETAINED_SESSIONS,
                        maximum: MAX_TENANT_RETAINED_SESSIONS,
                    },
                ),
            );
        }
        Ok(self)
    }
}

impl Default for JournalRetentionLimits {
    fn default() -> (r: JournalRetentionLimits)
        ensures
            r.session_bytes == DEFAULT_MAX_SESSION_JOURNAL_BYTES,
            r.tenant_bytes == DEFAULT_MAX_TENANT_JOURNAL_BYTES,
            r.tenant_sessions == DEFAULT_MAX_TENANT_RETAINED_SESSIONS,
    {
        JournalRetentionLimits {
            session_bytes: DEFAULT_MAX_SESSION_JOURNAL_BYTES,
            tenant_bytes: DEFAULT_MAX_TENANT_JOURNAL_BYTES,
            tenant_sessions: DEFAULT_MAX_TENANT_RETAINED_SESSIONS,
        }
    }
}

/// How one decision's records touch the two reserves.
#[derive(Debug, Clone, Copy, PartialEq, Eq, Structural)]
pub struct RetentionClass {
    pub ensure_effect_reserve_bytes: u64,
    pub consume_effect_reserve: bool,
    pub close_effect_reserve: bool,
    pub consume_lifecycle_reserve: bool,
}

pub open spec fn max_u64(a: u64, b: u64) -> u64 {
    if a >= b { a } else { b }
}

/// Lifecycle states whose transition record may spend the lifecycle reserve.
pub open spec fn is_closing_state(state: SessionLifecycle) -> bool {
    state != SessionLifecycle::Open
}

/// What one record contributes to its decision's class.
pub open spec fn step_class(c: RetentionClass, record: Record) -> RetentionClass {
    match record {
        Record::ModelCallIntent { .. } => RetentionClass {
            consume_effect_reserve: true,
            ensure_effect_reserve_bytes: JOURNAL_EFFECT_RESERVE_BYTES,
            ..c
        },
        Record::CompactionIntent { .. } | Record::CustomerCallIntent { .. }
        | Record::ManagedCallIntent { .. } | Record::StorageUploadReserved { .. }
        | Record::StorageDeleteIntent { .. } | Record::SandboxFileEffectIntent { .. } =>
            RetentionClass {
                consume_effect_reserve: true,
                ensure_effect_reserve_bytes: max_u64(
                    c.ensure_effect_reserve_bytes,
                    JOURNAL_TERMINAL_RESERVE_BYTES,
                ),
                ..c
            },
        Record::ModelCallUnknown { .. } | Record::CompactionUnknown { .. }
        | Record::ManagedCallUnknown { .. } | Record::StorageUploadPublished { .. }
        | Record::ModelCallCompleted { .. } => RetentionClass { consume_effect_reserve: true, ..c },
        Record::CompactionCompleted { .. } | Record::ToolResult { .. }
        | Record::StorageUploadCompleted { .. } | Record::StorageUploadExpired { .. }
        | Record::StorageDeleteCompleted { .. } | Record::SandboxFileEffectCompleted { .. } =>
            RetentionClass { consume_effect_reserve: true, close_effect_reserve: true, ..c },
        Record::ToolCall { .. } => RetentionClass {
            ensure_effect_reserve_bytes: max_u64(
                c.ensure_effect_reserve_bytes,
                JOURNAL_TERMINAL_RESERVE_BYTES,
            ),
            ..c
        },
        Record::DefaultSandboxChanged { status } => if status.state == SandboxState::Creating {
            RetentionClass {
                consume_effect_reserve: true,
                ensure_effect_reserve_bytes: max_u64(
                    c.ensure_effect_reserve_bytes,
                    JOURNAL_TERMINAL_RESERVE_BYTES,
                ),
                ..c
            }
        } else {
            RetentionClass { consume_effect_reserve: true, close_effect_reserve: true, ..c }
        },
        Record::TurnCompleted { .. } | Record::TurnFailed { .. }
        | Record::CustomerTerminalAcknowledged { .. } | Record::ManagedTerminalAcknowledged { .. }
        | Record::EnvironmentLost { .. } => RetentionClass { consume_lifecycle_reserve: true, ..c },
        Record::State { state, .. } => if is_closing_state(state) {
            RetentionClass { consume_lifecycle_reserve: true, ..c }
        } else {
            c
        },
        _ => c,
    }
}

pub open spec fn empty_class() -> RetentionClass {
    RetentionClass {
        ensure_effect_reserve_bytes: 0,
        consume_effect_reserve: false,
        close_effect_reserve: false,
        consume_lifecycle_reserve: false,
    }
}

/// The class of the first `n` records, record by record.
pub open spec fn fold_class(records: Seq<(u64, Record)>, n: int) -> RetentionClass
    decreases n,
{
    if n <= 0 {
        empty_class()
    } else {
        step_class(fold_class(records, n - 1), records[n - 1].1)
    }
}

pub open spec fn any_record(records: Seq<(u64, Record)>, n: int, p: spec_fn(Record) -> bool) -> bool
    decreases n,
{
    if n <= 0 {
        false
    } else {
        any_record(records, n - 1, p) || p(records[n - 1].1)
    }
}

pub open spec fn is_model_completed(r: Record) -> bool {
    r is ModelCallCompleted
}

pub open spec fn is_tool_call(r: Record) -> bool {
    r is ToolCall
}

pub open spec fn is_turn_terminal(r: Record) -> bool {
    r is TurnCompleted || r is TurnFailed
}

/// A decision's class: the record-by-record fold, then two decision-wide rules. A completed model
/// round that installs no tool call releases its reserve; a terminal turn record spends and
/// releases any residual effect reservation.
pub open spec fn class_of(records: Seq<(u64, Record)>) -> RetentionClass {
    let n = records.len() as int;
    let c = fold_class(records, n);
    let c1 = if any_record(records, n, |r: Record| is_model_completed(r)) && !any_record(
        records,
        n,
        |r: Record| is_tool_call(r),
    ) {
        RetentionClass { close_effect_reserve: true, ..c }
    } else {
        c
    };
    if any_record(records, n, |r: Record| is_turn_terminal(r)) {
        RetentionClass { consume_effect_reserve: true, close_effect_reserve: true, ..c1 }
    } else {
        c1
    }
}

fn step_class_exec(c: RetentionClass, record: &Record) -> (r: RetentionClass)
    ensures
        r == step_class(c, *record),
{
    let terminal_ensure = if c.ensure_effect_reserve_bytes >= JOURNAL_TERMINAL_RESERVE_BYTES {
        c.ensure_effect_reserve_bytes
    } else {
        JOURNAL_TERMINAL_RESERVE_BYTES
    };
    match record {
        Record::ModelCallIntent { .. } => RetentionClass {
            consume_effect_reserve: true,
            ensure_effect_reserve_bytes: JOURNAL_EFFECT_RESERVE_BYTES,
            ..c
        },
        Record::CompactionIntent { .. } | Record::CustomerCallIntent { .. }
        | Record::ManagedCallIntent { .. } | Record::StorageUploadReserved { .. }
        | Record::StorageDeleteIntent { .. } | Record::SandboxFileEffectIntent { .. } =>
            RetentionClass {
                consume_effect_reserve: true,
                ensure_effect_reserve_bytes: terminal_ensure,
                ..c
            },
        Record::ModelCallUnknown { .. } | Record::CompactionUnknown { .. }
        | Record::ManagedCallUnknown { .. } | Record::StorageUploadPublished { .. }
        | Record::ModelCallCompleted { .. } => RetentionClass { consume_effect_reserve: true, ..c },
        Record::CompactionCompleted { .. } | Record::ToolResult { .. }
        | Record::StorageUploadCompleted { .. } | Record::StorageUploadExpired { .. }
        | Record::StorageDeleteCompleted { .. } | Record::SandboxFileEffectCompleted { .. } =>
            RetentionClass { consume_effect_reserve: true, close_effect_reserve: true, ..c },
        Record::ToolCall { .. } => RetentionClass {
            ensure_effect_reserve_bytes: terminal_ensure,
            ..c
        },
        Record::DefaultSandboxChanged { status } => match status.state {
            SandboxState::Creating => RetentionClass {
                consume_effect_reserve: true,
                ensure_effect_reserve_bytes: terminal_ensure,
                ..c
            },
            _ => RetentionClass {
                consume_effect_reserve: true,
                close_effect_reserve: true,
                ..c
            },
        },
        Record::TurnCompleted { .. } | Record::TurnFailed { .. }
        | Record::CustomerTerminalAcknowledged { .. } | Record::ManagedTerminalAcknowledged { .. }
        | Record::EnvironmentLost { .. } => RetentionClass { consume_lifecycle_reserve: true, ..c },
        Record::State { state, .. } => match state {
            SessionLifecycle::Open => c,
            _ => RetentionClass { consume_lifecycle_reserve: true, ..c },
        },
        _ => c,
    }
}

/// How a decision's records touch the reserves.
pub fn retention_class(records: &[(u64, Record)]) -> (class: RetentionClass)
    ensures
        class == class_of(records@),
{
    let mut class = RetentionClass {
        ensure_effect_reserve_bytes: 0,
        consume_effect_reserve: false,
        close_effect_reserve: false,
        consume_lifecycle_reserve: false,
    };
    let mut completed_model = false;
    let mut has_tool_call = false;
    let mut terminal = false;
    let mut i: usize = 0;
    while i < records.len()
        invariant
            i <= records.len(),
            class == fold_class(records@, i as int),
            completed_model == any_record(records@, i as int, |r: Record| is_model_completed(r)),
            has_tool_call == any_record(records@, i as int, |r: Record| is_tool_call(r)),
            terminal == any_record(records@, i as int, |r: Record| is_turn_terminal(r)),
        decreases records.len() - i,
    {
        let record = &records[i].1;
        class = step_class_exec(class, record);
        match record {
            Record::ModelCallCompleted { .. } => {
                completed_model = true;
            },
            Record::ToolCall { .. } => {
                has_tool_call = true;
            },
            Record::TurnCompleted { .. } | Record::TurnFailed { .. } => {
                terminal = true;
            },
            _ => {},
        }
        i = i + 1;
    }
    if completed_model && !has_tool_call {
        class.close_effect_reserve = true;
    }
    if terminal {
        class.consume_effect_reserve = true;
        class.close_effect_reserve = true;
    }
    class
}

/// The serialized charge of a decision: each record's bytes plus one item envelope.
pub open spec fn charge_total(bytes: Seq<u64>, n: int) -> int
    decreases n,
{
    if n <= 0 {
        0
    } else {
        charge_total(bytes, n - 1) + bytes[n - 1] + ESTIMATED_ITEM_ENVELOPE_BYTES
    }
}

proof fn lemma_charge_monotonic(bytes: Seq<u64>, i: int, j: int)
    requires
        0 <= i <= j <= bytes.len(),
    ensures
        charge_total(bytes, i) <= charge_total(bytes, j),
    decreases j - i,
{
    if i < j {
        lemma_charge_monotonic(bytes, i, j - 1);
    }
}

/// Sum a decision's serialized record sizes, each with its envelope. `serialized_bytes[i]` is
/// the length of the canonical JSON encoding of the decision's `i`-th record.
pub fn serialized_record_charge(serialized_bytes: &[u64]) -> (r: Result<u64, BrainError>)
    ensures
        match r {
            Ok(total) => total == charge_total(serialized_bytes@, serialized_bytes@.len() as int),
            Err(e) => charge_total(serialized_bytes@, serialized_bytes@.len() as int) > u64::MAX
                && e == BrainError::Journal(Fault::RetentionMeterOverflowed),
        },
{
    let mut total: u64 = 0;
    let mut i: usize = 0;
    while i < serialized_bytes.len()
        invariant
            i <= serialized_bytes.len(),
            total == charge_total(serialized_bytes@, i as int),
        decreases serialized_bytes.len() - i,
    {
        let bytes = serialized_bytes[i];
        if total > u64::MAX - bytes || total + bytes > u64::MAX - 1024 {
            proof {
                lemma_charge_monotonic(
                    serialized_bytes@,
                    i as int + 1,
                    serialized_bytes@.len() as int,
                );
            }
            return Err(BrainError::Journal(Fault::RetentionMeterOverflowed));
        }
        total = total + bytes + 1024;
        i = i + 1;
    }
    Ok(total)
}

/// The retention projection after charging `charge` bytes under `class`, or the failure the
/// meter reports. Reserves absorb what they may; a closed effect reserve leaves the meter; an
/// ensured effect reserve is topped up (or trimmed) to exactly its size.
pub open spec fn project_spec(
    current: JournalRetention,
    class: RetentionClass,
    charge: int,
    session_limit: u64,
) -> Result<JournalRetention, BrainError> {
    let ce = if class.consume_effect_reserve {
        if charge <= current.effect_reserve_bytes { charge } else { current.effect_reserve_bytes as int }
    } else {
        0
    };
    let c1 = charge - ce;
    let e1 = current.effect_reserve_bytes - ce;
    let cl = if class.consume_lifecycle_reserve {
        if c1 <= current.lifecycle_reserve_bytes { c1 } else { current.lifecycle_reserve_bytes as int }
    } else {
        0
    };
    let c2 = c1 - cl;
    let l1 = current.lifecycle_reserve_bytes - cl;
    let m1 = current.metered_bytes + c2;
    if m1 > u64::MAX {
        Err(BrainError::Journal(Fault::RetentionMeterOverflowed))
    } else {
        let m2 = if class.close_effect_reserve { m1 - e1 } else { m1 };
        let e2 = if class.close_effect_reserve { 0 } else { e1 };
        let wanted = class.ensure_effect_reserve_bytes;
        if m2 < 0 {
            Err(BrainError::Journal(Fault::EffectReserveUnderflowed))
        } else if wanted > 0 && e2 < wanted && m2 + (wanted - e2) > u64::MAX {
            Err(BrainError::Journal(Fault::EffectReserveOverflowed))
        } else {
            let m3 = if wanted > 0 && e2 < wanted {
                m2 + (wanted - e2)
            } else if wanted > 0 && e2 > wanted {
                m2 - (e2 - wanted)
            } else {
                m2
            };
            let e3 = if wanted > 0 { wanted as int } else { e2 };
            if m3 < 0 {
                Err(BrainError::Journal(Fault::EffectReserveUnderflowed))
            } else if m3 > session_limit {
                Err(
                    BrainError::SessionJournalQuotaExceeded {
                        requested: if m3 >= current.metered_bytes {
                            (m3 - current.metered_bytes) as u64
                        } else {
                            0
                        },
                        limit: session_limit,
                    },
                )
            } else {
                Ok(
                    JournalRetention {
                        metered_bytes: m3 as u64,
                        effect_reserve_bytes: e3 as u64,
                        lifecycle_reserve_bytes: l1 as u64,
                    },
                )
            }
        }
    }
}

/// The full retention transition of one decision: the serialized charge overflowing is
/// reported first, then `project_spec`.
pub open spec fn project_retention_spec(
    current: JournalRetention,
    records: Seq<(u64, Record)>,
    serialized_bytes: Seq<u64>,
    session_limit: u64,
) -> Result<JournalRetention, BrainError> {
    let charge = charge_total(serialized_bytes, serialized_bytes.len() as int);
    if charge > u64::MAX {
        Err(BrainError::Journal(Fault::RetentionMeterOverflowed))
    } else {
        project_spec(current, class_of(records), charge, session_limit)
    }
}

/// The retention projection at create: base identity, lifecycle reserve and the genesis record.
pub open spec fn initial_retention_spec(first_serialized_bytes: u64, session_limit: u64) -> Result<
    JournalRetention,
    BrainError,
> {
    let metered = JOURNAL_SESSION_BASE_BYTES + JOURNAL_LIFECYCLE_RESERVE_BYTES
        + first_serialized_bytes + ESTIMATED_ITEM_ENVELOPE_BYTES;
    if metered > u64::MAX {
        Err(BrainError::Journal(Fault::RetentionMeterOverflowed))
    } else if metered > session_limit {
        Err(BrainError::SessionJournalQuotaExceeded { requested: metered as u64, limit: session_limit })
    } else {
        Ok(
            JournalRetention {
                metered_bytes: metered as u64,
                effect_reserve_bytes: 0,
                lifecycle_reserve_bytes: JOURNAL_LIFECYCLE_RESERVE_BYTES,
            },
        )
    }
}

/// The retention projection of a new session whose genesis record serializes to
/// `first_serialized_bytes` bytes.
pub fn initial_retention(first_serialized_bytes: u64, session_limit: u64) -> (r: Result<
    JournalRetention,
    BrainError,
>)
    ensures
        r == initial_retention_spec(first_serialized_bytes, session_limit),
        r matches Ok(retention) ==> retention.well_formed() && retention.metered_bytes
            <= session_limit,
{
    let one: [u64; 1] = [first_serialized_bytes];
    let record_bytes = match serialized_record_charge(&one) {
        Ok(bytes) => bytes,
        Err(e) => {
            assert(charge_total(one@, 1) == first_serialized_bytes + 1024) by {
                reveal_with_fuel(charge_total, 2);
            }
            return Err(e);
        },
    };
    assert(charge_total(one@, 1) == first_serialized_bytes + 1024) by {
        reveal_with_fuel(charge_total, 2);
    }
    if record_bytes > u64::MAX - JOURNAL_SESSION_BASE_BYTES - JOURNAL_LIFECYCLE_RESERVE_BYTES {
        return Err(BrainError::Journal(Fault::RetentionMeterOverflowed));
    }
    let metered_bytes = JOURNAL_SESSION_BASE_BYTES + JOURNAL_LIFECYCLE_RESERVE_BYTES
        + record_bytes;
    if metered_bytes > session_limit {
        return Err(
            BrainError::SessionJournalQuotaExceeded { requested: metered_bytes, limit: session_limit },
        );
    }
    Ok(
        JournalRetention {
            metered_bytes,
            effect_reserve_bytes: 0,
            lifecycle_reserve_bytes: JOURNAL_LIFECYCLE_RESERVE_BYTES,
        },
    )
}

/// Charge one decision against the session meter. `serialized_bytes[i]` is the canonical JSON
/// length of `records[i]`.
pub fn project_retention(
    current: JournalRetention,
    records: &[(u64, Record)],
    serialized_bytes: &[u64],
    session_limit: u64,
) -> (r: Result<JournalRetention, BrainError>)
    requires
        serialized_bytes@.len() == records@.len(),
    ensures
        r == project_retention_spec(current, records@, serialized_bytes@, session_limit),
{
    let class = retention_class(records);
    let mut charge = match serialized_record_charge(serialized_bytes) {
        Ok(charge) => charge,
        Err(e) => return Err(e),
    };
    let mut next = current;
    if class.consume_effect_reserve {
        let consumed = if charge <= next.effect_reserve_bytes {
            charge
        } else {
            next.effect_reserve_bytes
        };
        charge = charge - consumed;
        next.effect_reserve_bytes = next.effect_reserve_bytes - consumed;
    }
    if class.consume_lifecycle_reserve {
        let consumed = if charge <= next.lifecycle_reserve_bytes {
            charge
        } else {
            next.lifecycle_reserve_bytes
        };
        charge = charge - consumed;
        next.lifecycle_reserve_bytes = next.lifecycle_reserve_bytes - consumed;
    }
    if next.metered_bytes > u64::MAX - charge {
        return Err(BrainError::Journal(Fault::RetentionMeterOverflowed));
    }
    next.metered_bytes = next.metered_bytes + charge;
    if class.close_effect_reserve {
        if next.metered_bytes < next.effect_reserve_bytes {
            return Err(BrainError::Journal(Fault::EffectReserveUnderflowed));
        }
        next.metered_bytes = next.metered_bytes - next.effect_reserve_bytes;
        next.effect_reserve_bytes = 0;
    }
    let wanted = class.ensure_effect_reserve_bytes;
    if wanted > 0 && next.effect_reserve_bytes < wanted {
        let requested = wanted - next.effect_reserve_bytes;
        if next.metered_bytes > u64::MAX - requested {
            return Err(BrainError::Journal(Fault::EffectReserveOverflowed));
        }
        next.metered_bytes = next.metered_bytes + requested;
        next.effect_reserve_bytes = wanted;
    } else if wanted > 0 && next.effect_reserve_bytes > wanted {
        let released = next.effect_reserve_bytes - wanted;
        if next.metered_bytes < released {
            return Err(BrainError::Journal(Fault::EffectReserveUnderflowed));
        }
        next.metered_bytes = next.metered_bytes - released;
        next.effect_reserve_bytes = wanted;
    }
    if next.metered_bytes > session_limit {
        let requested = if next.metered_bytes >= current.metered_bytes {
            next.metered_bytes - current.metered_bytes
        } else {
            0
        };
        return Err(BrainError::SessionJournalQuotaExceeded { requested, limit: session_limit });
    }
    Ok(next)
}

/// The signed change of the tenant meter between two projections.
pub fn retention_delta(current: JournalRetention, next: JournalRetention) -> (r: Result<
    i64,
    BrainError,
>)
    ensures
        match r {
            Ok(delta) => delta == next.metered_bytes - current.metered_bytes,
            Err(e) => !(i64::MIN <= next.metered_bytes - current.metered_bytes <= i64::MAX) && e
                == BrainError::Journal(Fault::RetentionDeltaOutOfRange),
        },
{
    let delta: i128 = next.metered_bytes as i128 - current.metered_bytes as i128;
    if delta > i64::MAX as i128 || delta < i64::MIN as i128 {
        return Err(BrainError::Journal(Fault::RetentionDeltaOutOfRange));
    }
    Ok(delta as i64)
}

/// The meter law: on a well-formed projection, charging a decision grows the bytes actually
/// charged (reserves excluded) by exactly the decision's serialized charge, keeps both reserves
/// inside the meter, never grows the lifecycle reserve, never exceeds the session ceiling, and
/// never reports a reserve underflow.
pub proof fn retention_charges_exactly_the_decision(
    current: JournalRetention,
    records: Seq<(u64, Record)>,
    serialized_bytes: Seq<u64>,
    session_limit: u64,
)
    requires
        current.well_formed(),
        serialized_bytes.len() == records.len(),
    ensures
        match project_retention_spec(current, records, serialized_bytes, session_limit) {
            Ok(next) => {
                &&& next.well_formed()
                &&& next.charged() == current.charged() + charge_total(
                    serialized_bytes,
                    serialized_bytes.len() as int,
                )
                &&& next.lifecycle_reserve_bytes <= current.lifecycle_reserve_bytes
                &&& next.metered_bytes <= session_limit
            },
            Err(e) => e != BrainError::Journal(Fault::EffectReserveUnderflowed),
        },
{
    let charge = charge_total(serialized_bytes, serialized_bytes.len() as int);
    let class = class_of(records);
    lemma_charge_monotonic(serialized_bytes, 0, serialized_bytes.len() as int);
    if charge <= u64::MAX {
        let ce = if class.consume_effect_reserve {
            if charge <= current.effect_reserve_bytes { charge } else { current.effect_reserve_bytes as int }
        } else {
            0
        };
        let c1 = charge - ce;
        let e1 = current.effect_reserve_bytes - ce;
        let cl = if class.consume_lifecycle_reserve {
            if c1 <= current.lifecycle_reserve_bytes { c1 } else { current.lifecycle_reserve_bytes as int }
        } else {
            0
        };
        let l1 = current.lifecycle_reserve_bytes - cl;
        let m1 = current.metered_bytes + (c1 - cl);
        assert(0 <= ce <= charge);
        assert(0 <= cl <= c1);
        assert(m1 - e1 - l1 == current.charged() + charge);
        assert(current.charged() >= 0);
    }
}

/// After a decision that ensures an effect reserve, exactly that reserve stands; after one that
/// closes the reserve without ensuring another, none does.
pub proof fn retention_effect_reserve_after_decision(
    current: JournalRetention,
    records: Seq<(u64, Record)>,
    serialized_bytes: Seq<u64>,
    session_limit: u64,
)
    requires
        serialized_bytes.len() == records.len(),
    ensures
        project_retention_spec(current, records, serialized_bytes, session_limit) matches Ok(next)
            ==> {
            &&& class_of(records).ensure_effect_reserve_bytes > 0 ==> next.effect_reserve_bytes
                == class_of(records).ensure_effect_reserve_bytes
            &&& (class_of(records).ensure_effect_reserve_bytes == 0
                && class_of(records).close_effect_reserve) ==> next.effect_reserve_bytes == 0
        },
{
}


/// Whether a record asks for an effect reservation: an intent to call a model, compact, call a
/// customer or managed tool, upload, delete or touch sandbox files, a tool call, or a default
/// sandbox starting to be created.
pub open spec fn reserves_effect(r: Record) -> bool {
    ||| r is ModelCallIntent
    ||| r is CompactionIntent
    ||| r is CustomerCallIntent
    ||| r is ManagedCallIntent
    ||| r is StorageUploadReserved
    ||| r is StorageDeleteIntent
    ||| r is SandboxFileEffectIntent
    ||| r is ToolCall
    ||| (r matches Record::DefaultSandboxChanged { status } && status.state == SandboxState::Creating)
}

/// Records that ask for no reservation leave the decision asking for none.
proof fn lemma_no_reservation_asked(records: Seq<(u64, Record)>, n: int)
    requires
        0 <= n <= records.len(),
        forall|i: int| 0 <= i < n ==> !reserves_effect(#[trigger] records[i].1),
    ensures
        fold_class(records, n).ensure_effect_reserve_bytes == 0,
    decreases n,
{
    if n > 0 {
        lemma_no_reservation_asked(records, n - 1);
        assert(!reserves_effect(records[n - 1].1));
    }
}

/// A decision holds a turn's terminal record somewhere in its first `n` records.
proof fn lemma_terminal_found(records: Seq<(u64, Record)>, n: int, k: int)
    requires
        0 <= k < n <= records.len(),
        records[k].1 is TurnCompleted || records[k].1 is TurnFailed,
    ensures
        any_record(records, n, |r: Record| is_turn_terminal(r)),
    decreases n,
{
    if k < n - 1 {
        lemma_terminal_found(records, n - 1, k);
    }
}

/// Terminal release law: a decision that completes or fails the turn and asks for no new effect
/// reservation leaves no effect reserve behind; whatever residue an earlier intent reserved is
/// spent or released, and the meter keeps only the bytes charged plus the lifecycle reserve.
pub proof fn a_finished_turn_releases_the_effect_reserve(
    current: JournalRetention,
    records: Seq<(u64, Record)>,
    serialized_bytes: Seq<u64>,
    session_limit: u64,
    k: int,
)
    requires
        serialized_bytes.len() == records.len(),
        0 <= k < records.len(),
        records[k].1 is TurnCompleted || records[k].1 is TurnFailed,
        forall|i: int| 0 <= i < records.len() ==> !reserves_effect(#[trigger] records[i].1),
    ensures
        project_retention_spec(current, records, serialized_bytes, session_limit) matches Ok(next) ==> {
            &&& next.effect_reserve_bytes == 0
            &&& next.metered_bytes == next.charged() + next.lifecycle_reserve_bytes
        },
{
    lemma_no_reservation_asked(records, records.len() as int);
    lemma_terminal_found(records, records.len() as int, k);
}

} // verus!

verus! {

/// A record with its journal position, as read back.
#[derive(Debug, Clone)]
pub struct Entry {
    pub seq: u64,
    pub ts_ms: u64,
    pub record: Record,
}

/// Default bounded journal replay page.
pub const DEFAULT_RECORD_PAGE_ITEMS: usize = 32;
pub const DEFAULT_RECORD_PAGE_BYTES: usize = 1024 * 1024;

pub struct RecordPageQuery<'a> {
    pub session_id: &'a str,
    /// Exclusive durable sequence cursor.
    pub after: u64,
    /// Inclusive strong high-water captured before replay starts.
    pub through_seq: u64,
    pub limit: usize,
    pub max_bytes: usize,
}

#[derive(Debug, Clone)]
pub struct RecordPage {
    pub entries: Vec<Entry>,
    /// Exclusive cursor for the next page; `None` means replay reached the fixed high-water.
    pub next_after: Option<u64>,
}

/// The effective `(item limit, byte limit)` of a page query: the item limit clamped to
/// `1..=100`, the byte budget capped at the default page size. A budget below one maximum
/// record could never make progress and is refused.
pub fn validate_record_page_query(query: &RecordPageQuery) -> (r: Result<(usize, usize), BrainError>)
    ensures
        match r {
            Ok((limit, max_bytes)) => {
                &&& query.max_bytes >= MAX_SERIALIZED_RECORD_BYTES
                &&& limit == (if query.limit < 1 { 1 } else if query.limit > 100 { 100 } else { query.limit })
                &&& max_bytes == (if query.max_bytes <= DEFAULT_RECORD_PAGE_BYTES { query.max_bytes } else { DEFAULT_RECORD_PAGE_BYTES })
            },
            Err(e) => query.max_bytes < MAX_SERIALIZED_RECORD_BYTES && e == BrainError::Invalid(
                Fault::PageBytesBelowRecord { max_bytes: query.max_bytes },
            ),
        },
{
    let limit = if query.limit < 1 {
        1
    } else if query.limit > 100 {
        100
    } else {
        query.limit
    };
    if query.max_bytes < MAX_SERIALIZED_RECORD_BYTES {
        return Err(BrainError::Invalid(Fault::PageBytesBelowRecord { max_bytes: query.max_bytes }));
    }
    let max_bytes = if query.max_bytes <= DEFAULT_RECORD_PAGE_BYTES {
        query.max_bytes
    } else {
        DEFAULT_RECORD_PAGE_BYTES
    };
    Ok((limit, max_bytes))
}

} // verus!
