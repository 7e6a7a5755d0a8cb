//! The journal's closed vocabularies and their snake_case names.
use vstd::prelude::*;
use crate::error::{BrainError, Fault};
use crate::text::str_eq;
verus! {
/// Turn-level stop reasons as journaled. One value wider than the public contract: a recovery
/// that interrupts a turn journals `Interrupted`, which the public wire reports as `error`.
#[derive(Debug, Clone, Copy, PartialEq, Eq, Structural)]
pub enum TurnStopReason {
    EndTurn,
    Refusal,
    MaxRounds,
    Cancelled,
    Interrupted,
    Error,
}

impl TurnStopReason {
    /// The journal and wire name.
    pub open spec fn label(self) -> Seq<char> {
        match self {
            TurnStopReason::EndTurn => "end_turn"@,
            TurnStopReason::Refusal => "refusal"@,
            TurnStopReason::MaxRounds => "max_rounds"@,
            TurnStopReason::Cancelled => "cancelled"@,
            TurnStopReason::Interrupted => "interrupted"@,
            TurnStopReason::Error => "error"@,
        }
    }

    pub fn as_str(self) -> (r: &'static str)
        ensures
            r@ == self.label(),
    {
        match self {
            TurnStopReason::EndTurn => "end_turn",
            TurnStopReason::Refusal => "refusal",
            TurnStopReason::MaxRounds => "max_rounds",
            TurnStopReason::Cancelled => "cancelled",
            TurnStopReason::Interrupted => "interrupted",
            TurnStopReason::Error => "error",
        }
    }

    /// The value named `value`; any other word is refused.
    pub fn from_name(value: &str) -> (r: Result<TurnStopReason, BrainError>)
        ensures
            match r {
                Ok(x) => x.label() == value@,
                Err(e) => (forall|x: TurnStopReason| #[trigger] x.label() != value@)
                    && (e matches BrainError::Journal(Fault::UnknownName { value: v }) && v@ == value@),
            },
    {
        proof {
            reveal_strlit("end_turn");
            reveal_strlit("refusal");
            reveal_strlit("max_rounds");
            reveal_strlit("cancelled");
            reveal_strlit("interrupted");
            reveal_strlit("error");
        }
        if str_eq(value, "end_turn") {
            return Ok(TurnStopReason::EndTurn);
        }
        if str_eq(value, "refusal") {
            return Ok(TurnStopReason::Refusal);
        }
        if str_eq(value, "max_rounds") {
            return Ok(TurnStopReason::MaxRounds);
        }
        if str_eq(value, "cancelled") {
            return Ok(TurnStopReason::Cancelled);
        }
        if str_eq(value, "interrupted") {
            return Ok(TurnStopReason::Interrupted);
        }
        if str_eq(value, "error") {
            return Ok(TurnStopReason::Error);
        }
        Err(BrainError::Journal(Fault::UnknownName { value: value.to_owned() }))
    }
}

impl std::str::FromStr for TurnStopReason {
    type Err = BrainError;

    fn from_str(value: &str) -> (r: Result<TurnStopReason, BrainError>)
        ensures
            match r {
                Ok(x) => x.label() == value@,
                Err(e) => (forall|x: TurnStopReason| #[trigger] x.label() != value@)
                    && (e matches BrainError::Journal(Fault::UnknownName { value: v }) && v@ == value@),
            },
    {
        TurnStopReason::from_name(value)
    }
}

/// Session lifecycle vocabulary shared by HEAD, its control projection, listings and the
/// public `session.updated` transition record.
#[derive(Debug, Clone, Copy, PartialEq, Eq, Structural)]
pub enum SessionLifecycle {
    Open,
    Ending,
    Ended,
    Deleting,
    Deleted,
    Failed,
}

impl SessionLifecycle {
    /// The journal and wire name.
    pub open spec fn label(self) -> Seq<char> {
        match self {
            SessionLifecycle::Open => "open"@,
            SessionLifecycle::Ending => "ending"@,
            SessionLifecycle::Ended => "ended"@,
            SessionLifecycle::Deleting => "deleting"@,
            SessionLifecycle::Deleted => "deleted"@,
            SessionLifecycle::Failed => "failed"@,
        }
    }

    pub fn as_str(self) -> (r: &'static str)
        ensures
            r@ == self.label(),
    {
        match self {
            SessionLifecycle::Open => "open",
            SessionLifecycle::Ending => "ending",
            SessionLifecycle::Ended => "ended",
            SessionLifecycle::Deleting => "deleting",
            SessionLifecycle::Deleted => "deleted",
            SessionLifecycle::Failed => "failed",
        }
    }

    /// The value named `value`; any other word is refused.
    pub fn from_name(value: &str) -> (r: Result<SessionLifecycle, BrainError>)
        ensures
            match r {
                Ok(x) => x.label() == value@,
                Err(e) => (forall|x: SessionLifecycle| #[trigger] x.label() != value@)
                    && (e matches BrainError::Journal(Fault::UnknownName { value: v }) && v@ == value@),
            },
    {
        proof {
            reveal_strlit("open");
            reveal_strlit("ending");
            reveal_strlit("ended");
            reveal_strlit("deleting");
            reveal_strlit("deleted");
            reveal_strlit("failed");
        }
        if str_eq(value, "open") {
            return Ok(SessionLifecycle::Open);
        }
        if str_eq(value, "ending") {
            return Ok(SessionLifecycle::Ending);
        }
        if str_eq(value, "ended") {
            return Ok(SessionLifecycle::Ended);
        }
        if str_eq(value, "deleting") {
            return Ok(SessionLifecycle::Deleting);
        }
        if str_eq(value, "deleted") {
            return Ok(SessionLifecycle::Deleted);
        }
        if str_eq(value, "failed") {
            return Ok(SessionLifecycle::Failed);
        }
        Err(BrainError::Journal(Fault::UnknownName { value: value.to_owned() }))
    }
}

impl std::str::FromStr for SessionLifecycle {
    type Err = BrainError;

    fn from_str(value: &str) -> (r: Result<SessionLifecycle, BrainError>)
        ensures
            match r {
                Ok(x) => x.label() == value@,
                Err(e) => (forall|x: SessionLifecycle| #[trigger] x.label() != value@)
                    && (e matches BrainError::Journal(Fault::UnknownName { value: v }) && v@ == value@),
            },
    {
        SessionLifecycle::from_name(value)
    }
}

/// Durable provider attempt states for the current logical model/compaction operation.
#[derive(Debug, Clone, Copy, PartialEq, Eq, Structural)]
pub enum ProviderAttemptState {
    Intent,
    Running,
    Unknown,
    ReplacementReady,
}

impl ProviderAttemptState {
    /// The journal and wire name.
    pub open spec fn label(self) -> Seq<char> {
        match self {
            ProviderAttemptState::Intent => "intent"@,
            ProviderAttemptState::Running => "running"@,
            ProviderAttemptState::Unknown => "unknown"@,
            ProviderAttemptState::ReplacementReady => "replacement_ready"@,
        }
    }

    pub fn as_str(self) -> (r: &'static str)
        ensures
            r@ == self.label(),
    {
        match self {
            ProviderAttemptState::Intent => "intent",
            ProviderAttemptState::Running => "running",
            ProviderAttemptState::Unknown => "unknown",
            ProviderAttemptState::ReplacementReady => "replacement_ready",
        }
    }
}

/// Storage upload reservation states. Published retains its byte reservation until staging
/// deletion succeeds; completed is a bounded replay tombstone and reserves zero bytes.
#[derive(Debug, Clone, Copy, PartialEq, Eq, Structural)]
pub enum UploadReservationState {
    Reserved,
    InlineReserved,
    Published,
    Completed,
}

impl UploadReservationState {
    /// The journal and wire name.
    pub open spec fn label(self) -> Seq<char> {
        match self {
            UploadReservationState::Reserved => "reserved"@,
            UploadReservationState::InlineReserved => "inline_reserved"@,
            UploadReservationState::Published => "published"@,
            UploadReservationState::Completed => "completed"@,
        }
    }

    pub fn as_str(self) -> (r: &'static str)
        ensures
            r@ == self.label(),
    {
        match self {
            UploadReservationState::Reserved => "reserved",
            UploadReservationState::InlineReserved => "inline_reserved",
            UploadReservationState::Published => "published",
            UploadReservationState::Completed => "completed",
        }
    }
}

/// Confirmed-deletion progression.
#[derive(Debug, Clone, Copy, PartialEq, Eq, Structural)]
pub enum DeletionState {
    Accepted,
    Deleting,
    Retrying,
    Blocked,
    Succeeded,
}

impl DeletionState {
    /// The journal and wire name.
    pub open spec fn label(self) -> Seq<char> {
        match self {
            DeletionState::Accepted => "accepted"@,
            DeletionState::Deleting => "deleting"@,
            DeletionState::Retrying => "retrying"@,
            DeletionState::Blocked => "blocked"@,
            DeletionState::Succeeded => "succeeded"@,
        }
    }

    pub fn as_str(self) -> (r: &'static str)
        ensures
            r@ == self.label(),
    {
        match self {
            DeletionState::Accepted => "accepted",
            DeletionState::Deleting => "deleting",
            DeletionState::Retrying => "retrying",
            DeletionState::Blocked => "blocked",
            DeletionState::Succeeded => "succeeded",
        }
    }
}

/// Total active-turn phase vocabulary. HEAD's `active_phase` is `Some` iff a turn is active.
#[derive(Debug, Clone, Copy, PartialEq, Eq, Structural)]
pub enum TurnPhase {
    ReadyToBuildModelRequest,
    ReadyToContinueModel,
    ReadyToDispatchTools,
    ReadyToFinish,
    ReadyToCompact,
    ModelIntentCommitted,
    ModelRunning,
    ModelUnknown,
    CompactionIntentCommitted,
    CompactionRunning,
    CompactionUnknown,
    ManagedRunning,
    ManagedCancelling,
}

impl TurnPhase {
    /// The journal and wire name.
    pub open spec fn label(self) -> Seq<char> {
        match self {
            TurnPhase::ReadyToBuildModelRequest => "ready_to_build_model_request"@,
            TurnPhase::ReadyToContinueModel => "ready_to_continue_model"@,
            TurnPhase::ReadyToDispatchTools => "ready_to_dispatch_tools"@,
            TurnPhase::ReadyToFinish => "ready_to_finish"@,
            TurnPhase::ReadyToCompact => "ready_to_compact"@,
            TurnPhase::ModelIntentCommitted => "model_intent_committed"@,
            TurnPhase::ModelRunning => "model_running"@,
            TurnPhase::ModelUnknown => "model_unknown"@,
            TurnPhase::CompactionIntentCommitted => "compaction_intent_committed"@,
            TurnPhase::CompactionRunning => "compaction_running"@,
            TurnPhase::CompactionUnknown => "compaction_unknown"@,
            TurnPhase::ManagedRunning => "managed_running"@,
            TurnPhase::ManagedCancelling => "managed_cancelling"@,
        }
    }

    pub fn as_str(self) -> (r: &'static str)
        ensures
            r@ == self.label(),
    {
        match self {
            TurnPhase::ReadyToBuildModelRequest => "ready_to_build_model_request",
            TurnPhase::ReadyToContinueModel => "ready_to_continue_model",
            TurnPhase::ReadyToDispatchTools => "ready_to_dispatch_tools",
            TurnPhase::ReadyToFinish => "ready_to_finish",
            TurnPhase::ReadyToCompact => "ready_to_compact",
            TurnPhase::ModelIntentCommitted => "model_intent_committed",
            TurnPhase::ModelRunning => "model_running",
            TurnPhase::ModelUnknown => "model_unknown",
            TurnPhase::CompactionIntentCommitted => "compaction_intent_committed",
            TurnPhase::CompactionRunning => "compaction_running",
            TurnPhase::CompactionUnknown => "compaction_unknown",
            TurnPhase::ManagedRunning => "managed_running",
            TurnPhase::ManagedCancelling => "managed_cancelling",
        }
    }

    /// The value named `value`; any other word is refused.
    pub fn from_name(value: &str) -> (r: Result<TurnPhase, BrainError>)
        ensures
            match r {
                Ok(x) => x.label() == value@,
                Err(e) => (forall|x: TurnPhase| #[trigger] x.label() != value@)
                    && (e matches BrainError::Journal(Fault::UnknownName { value: v }) && v@ == value@),
            },
    {
        proof {
            reveal_strlit("ready_to_build_model_request");
            reveal_strlit("ready_to_continue_model");
            reveal_strlit("ready_to_dispatch_tools");
            reveal_strlit("ready_to_finish");
            reveal_strlit("ready_to_compact");
            reveal_strlit("model_intent_committed");
            reveal_strlit("model_running");
            reveal_strlit("model_unknown");
            reveal_strlit("compaction_intent_committed");
            reveal_strlit("compaction_running");
            reveal_strlit("compaction_unknown");
            reveal_strlit("managed_running");
            reveal_strlit("managed_cancelling");
        }
        if str_eq(value, "ready_to_build_model_request") {
            return Ok(TurnPhase::ReadyToBuildModelRequest);
        }
        if str_eq(value, "ready_to_continue_model") {
            return Ok(TurnPhase::ReadyToContinueModel);
        }
        if str_eq(value, "ready_to_dispatch_tools") {
            return Ok(TurnPhase::ReadyToDispatchTools);
        }
        if str_eq(value, "ready_to_finish") {
            return Ok(TurnPhase::ReadyToFinish);
        }
        if str_eq(value, "ready_to_compact") {
            return Ok(TurnPhase::ReadyToCompact);
        }
        if str_eq(value, "model_intent_committed") {
            return Ok(TurnPhase::ModelIntentCommitted);
        }
        if str_eq(value, "model_running") {
            return Ok(TurnPhase::ModelRunning);
        }
        if str_eq(value, "model_unknown") {
            return Ok(TurnPhase::ModelUnknown);
        }
        if str_eq(value, "compaction_intent_committed") {
            return Ok(TurnPhase::CompactionIntentCommitted);
        }
        if str_eq(value, "compaction_running") {
            return Ok(TurnPhase::CompactionRunning);
        }
        if str_eq(value, "compaction_unknown") {
            return Ok(TurnPhase::CompactionUnknown);
        }
        if str_eq(value, "managed_running") {
            return Ok(TurnPhase::ManagedRunning);
        }
        if str_eq(value, "managed_cancelling") {
            return Ok(TurnPhase::ManagedCancelling);
        }
        Err(BrainError::Journal(Fault::UnknownName { value: value.to_owned() }))
    }
}

impl std::str::FromStr for TurnPhase {
    type Err = BrainError;

    fn from_str(value: &str) -> (r: Result<TurnPhase, BrainError>)
        ensures
            match r {
                Ok(x) => x.label() == value@,
                Err(e) => (forall|x: TurnPhase| #[trigger] x.label() != value@)
                    && (e matches BrainError::Journal(Fault::UnknownName { value: v }) && v@ == value@),
            },
    {
        TurnPhase::from_name(value)
    }
}

} // verus!
