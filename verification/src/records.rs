//! Journal records: the closed set of durable decisions, and the retention meter that charges
//! them against the session and tenant ceilings.

use vstd::prelude::*;
use crate::error::{BrainError, Fault};
use crate::message::{ContentBlock, StopReason, Usage};
use crate::vocab::{SessionLifecycle, TurnStopReason};
use crate::docs::Duplicate;

verus! {

/// Lifecycle states of a sandbox target.
#[derive(Debug, Clone, Copy, PartialEq, Eq, Structural)]
pub enum SandboxState {
    Creating,
    Running,
    Suspended,
    Stopping,
    Terminated,
    Gone,
    Failed,
}

/// Brain's durable projection of one sandbox. The environment-owned locator is carried as its
/// canonical JSON text and never interpreted here.
#[derive(Debug, Clone, PartialEq, Eq)]
pub struct SandboxStatus {
    pub state: SandboxState,
    pub expires_at_ms: Option<u64>,
    pub target: String,
    pub detail: String,
}

/// One journaled decision. A closed enum: an unknown kind on read is a typed error, never a
/// silent passthrough. Payloads whose shape belongs to another contract (tool inputs, loop
/// data, environment envelopes) are carried as their canonical JSON text.
#[derive(Debug, Clone)]
pub enum Record {
    UserMessage { turn: String, content: Vec<ContentBlock>, starts_turn: bool, metadata: Vec<(String, String)>, idempotency_key_hash: Option<String>, request_hash: Option<String> },
    TurnStarted { turn: String },
    ModelCallIntent { turn: String, logical_operation_id: String, attempt_id: String, request_digest: String, replacement: u32 },
    ModelCallUnknown { turn: String, logical_operation_id: String, attempt_id: String, request_digest: String, possibly_duplicated: bool },
    ModelAttemptSuperseded { turn: String, logical_operation_id: String, superseded_attempt_id: String, replacement_attempt_id: String, reason: String },
    ModelCallCompleted { turn: String, logical_operation_id: String, attempt_id: String, request_digest: String },
    CompactionIntent { turn: String, logical_operation_id: String, attempt_id: String, request_digest: String, replacement: u32 },
    CompactionUnknown { turn: String, logical_operation_id: String, attempt_id: String, request_digest: String, possibly_duplicated: bool },
    CompactionCompleted { turn: String, logical_operation_id: String, attempt_id: String, request_digest: String },
    Assistant { turn: String, agent: String, attempt_id: String, content: Vec<ContentBlock>, stop: StopReason },
    Usage { turn: String, agent: String, provider: String, model: String, usage: Usage },
    CustomerCallIntent { turn: String, call: String, client_id: String, process_id: String, request_digest: String, deadline_at_ms: u64 },
    ManagedCallIntent { turn: String, call: String, name: String, envelope: String },
    ManagedCallAccepted { turn: String, call: String, operation: String },
    ManagedCallUnknown { turn: String, call: String, request_digest: String },
    ToolCall { turn: String, agent: String, call: String, name: String, input: String, detach: bool },
    ToolResult { turn: String, agent: String, call: String, name: String, outcome: String, content: String, is_error: bool, exit_code: Option<i64>, duration_ms: u64, truncated: bool },
    CustomerTerminalReceived { turn: String, call: String, client_id: String, process_id: String, request_digest: String, terminal_digest: String },
    CustomerTerminalAcknowledged { turn: String, call: String, request_digest: String, terminal_digest: String },
    ManagedTerminalReceived { turn: String, call: String, operation: String, terminal_digest: String },
    ManagedTerminalAcknowledged { turn: String, call: String, request_digest: String, terminal_digest: String },
    TurnCompleted { turn: String, stop_reason: TurnStopReason, rounds: u64, tool_calls: u64, result: Option<String> },
    TurnFailed { turn: String, code: String, message: String, details: Option<String> },
    State { state: SessionLifecycle, turn: Option<String> },
    EnvironmentLost { turn: Option<String>, interrupted: Vec<String>, synced_ms: Option<u64> },
    StorageUploadReserved { transfer_id: String, key: String, bytes: u64, sha256: Option<String>, expires_at_ms: u64, published_bytes: u64, reserved_bytes: u64 },
    StorageUploadPublished { transfer_id: String, key: String, bytes: u64, published_bytes: u64, reserved_bytes: u64 },
    StorageUploadCompleted { transfer_id: String, key: String, bytes: u64, published_bytes: u64, reserved_bytes: u64 },
    StorageUploadExpired { transfer_id: String, key: String, bytes: u64, published_bytes: u64, reserved_bytes: u64 },
    StorageDeleteIntent { operation_id: String, key: String, bytes: u64, sha256: String, published_bytes: u64, reserved_bytes: u64 },
    StorageDeleteCompleted { operation_id: String, key: String, bytes: u64, published_bytes: u64, reserved_bytes: u64 },
    SandboxFileEffectIntent { operation_id: String, request_digest: String, action: String, path: String },
    SandboxFileEffectCompleted { operation_id: String, request_digest: String, action: String, path: String, replayed: bool },
    DefaultSandboxChanged { status: SandboxStatus },
    ContextChunk { checkpoint_id: String, index: u32, total: u32, sha256: String, content_base64: String },
    ContextInstalled { checkpoint_id: String, base_checkpoint_id: Option<String>, covers_through_sequence: u64, retained_messages: u64, payload_digest: String, base_prefix_digest: String, source_context_digest: String, token_estimate: u64, context_generation: u64, summary_kind: String, compactor_provider: String, compactor_model: String, retained_from_sequence: u64, created_at_ms: u64 },
    LoopCustom { turn: String, data: String },
    LoopEvent { turn: String, name: String, data: String },
    LoopMark { turn: String, covers_through_seq: u64, data: String },
    LoopKvSet { turn: String, entries: String },
}


impl Duplicate for i64 {
    open spec fn copy_of(&self, other: &Self) -> bool {
        *self == *other
    }

    fn duplicate(&self) -> (r: i64) {
        *self
    }
}

impl Duplicate for StopReason {
    open spec fn copy_of(&self, other: &Self) -> bool {
        *self == *other
    }

    fn duplicate(&self) -> (r: StopReason) {
        *self
    }
}

impl Duplicate for Usage {
    open spec fn copy_of(&self, other: &Self) -> bool {
        *self == *other
    }

    fn duplicate(&self) -> (r: Usage) {
        *self
    }
}

impl Duplicate for TurnStopReason {
    open spec fn copy_of(&self, other: &Self) -> bool {
        *self == *other
    }

    fn duplicate(&self) -> (r: TurnStopReason) {
        *self
    }
}

impl Duplicate for Record {
    open spec fn copy_of(&self, other: &Self) -> bool {
        match (self, other) {
            (Record::UserMessage { turn, content, starts_turn, metadata, idempotency_key_hash, request_hash }, Record::UserMessage { turn: o_turn, content: o_content, starts_turn: o_starts_turn, metadata: o_metadata, idempotency_key_hash: o_idempotency_key_hash, request_hash: o_request_hash }) => turn.copy_of(o_turn) && content.copy_of(o_content) && starts_turn.copy_of(o_starts_turn) && metadata.copy_of(o_metadata) && idempotency_key_hash.copy_of(o_idempotency_key_hash) && request_hash.copy_of(o_request_hash),
            (Record::TurnStarted { turn }, Record::TurnStarted { turn: o_turn }) => turn.copy_of(o_turn),
            (Record::ModelCallIntent { turn, logical_operation_id, attempt_id, request_digest, replacement }, Record::ModelCallIntent { turn: o_turn, logical_operation_id: o_logical_operation_id, attempt_id: o_attempt_id, request_digest: o_request_digest, replacement: o_replacement }) => turn.copy_of(o_turn) && logical_operation_id.copy_of(o_logical_operation_id) && attempt_id.copy_of(o_attempt_id) && request_digest.copy_of(o_request_digest) && replacement.copy_of(o_replacement),
            (Record::ModelCallUnknown { turn, logical_operation_id, attempt_id, request_digest, possibly_duplicated }, Record::ModelCallUnknown { turn: o_turn, logical_operation_id: o_logical_operation_id, attempt_id: o_attempt_id, request_digest: o_request_digest, possibly_duplicated: o_possibly_duplicated }) => turn.copy_of(o_turn) && logical_operation_id.copy_of(o_logical_operation_id) && attempt_id.copy_of(o_attempt_id) && request_digest.copy_of(o_request_digest) && possibly_duplicated.copy_of(o_possibly_duplicated),
            (Record::ModelAttemptSuperseded { turn, logical_operation_id, superseded_attempt_id, replacement_attempt_id, reason }, Record::ModelAttemptSuperseded { turn: o_turn, logical_operation_id: o_logical_operation_id, superseded_attempt_id: o_superseded_attempt_id, replacement_attempt_id: o_replacement_attempt_id, reason: o_reason }) => turn.copy_of(o_turn) && logical_operation_id.copy_of(o_logical_operation_id) && superseded_attempt_id.copy_of(o_superseded_attempt_id) && replacement_attempt_id.copy_of(o_replacement_attempt_id) && reason.copy_of(o_reason),
            (Record::ModelCallCompleted { turn, logical_operation_id, attempt_id, request_digest }, Record::ModelCallCompleted { turn: o_turn, logical_operation_id: o_logical_operation_id, attempt_id: o_attempt_id, request_digest: o_request_digest }) => turn.copy_of(o_turn) && logical_operation_id.copy_of(o_logical_operation_id) && attempt_id.copy_of(o_attempt_id) && request_digest.copy_of(o_request_digest),
            (Record::CompactionIntent { turn, logical_operation_id, attempt_id, request_digest, replacement }, Record::CompactionIntent { turn: o_turn, logical_operation_id: o_logical_operation_id, attempt_id: o_attempt_id, request_digest: o_request_digest, replacement: o_replacement }) => turn.copy_of(o_turn) && logical_operation_id.copy_of(o_logical_operation_id) && attempt_id.copy_of(o_attempt_id) && request_digest.copy_of(o_request_digest) && replacement.copy_of(o_replacement),
            (Record::CompactionUnknown { turn, logical_operation_id, attempt_id, request_digest, possibly_duplicated }, Record::CompactionUnknown { turn: o_turn, logical_operation_id: o_logical_operation_id, attempt_id: o_attempt_id, request_digest: o_request_digest, possibly_duplicated: o_possibly_duplicated }) => turn.copy_of(o_turn) && logical_operation_id.copy_of(o_logical_operation_id) && attempt_id.copy_of(o_attempt_id) && request_digest.copy_of(o_request_digest) && possibly_duplicated.copy_of(o_possibly_duplicated),
            (Record::CompactionCompleted { turn, logical_operation_id, attempt_id, request_digest }, Record::CompactionCompleted { turn: o_turn, logical_operation_id: o_logical_operation_id, attempt_id: o_attempt_id, request_digest: o_request_digest }) => turn.copy_of(o_turn) && logical_operation_id.copy_of(o_logical_operation_id) && attempt_id.copy_of(o_attempt_id) && request_digest.copy_of(o_request_digest),
            (Record::Assistant { turn, agent, attempt_id, content, stop }, Record::Assistant { turn: o_turn, agent: o_agent, attempt_id: o_attempt_id, content: o_content, stop: o_stop }) => turn.copy_of(o_turn) && agent.copy_of(o_agent) && attempt_id.copy_of(o_attempt_id) && content.copy_of(o_content) && stop.copy_of(o_stop),
            (Record::Usage { turn, agent, provider, model, usage }, Record::Usage { turn: o_turn, agent: o_agent, provider: o_provider, model: o_model, usage: o_usage }) => turn.copy_of(o_turn) && agent.copy_of(o_agent) && provider.copy_of(o_provider) && model.copy_of(o_model) && usage.copy_of(o_usage),
            (Record::CustomerCallIntent { turn, call, client_id, process_id, request_digest, deadline_at_ms }, Record::CustomerCallIntent { turn: o_turn, call: o_call, client_id: o_client_id, process_id: o_process_id, request_digest: o_request_digest, deadline_at_ms: o_deadline_at_ms }) => turn.copy_of(o_turn) && call.copy_of(o_call) && client_id.copy_of(o_client_id) && process_id.copy_of(o_process_id) && request_digest.copy_of(o_request_digest) && deadline_at_ms.copy_of(o_deadline_at_ms),
            (Record::ManagedCallIntent { turn, call, name, envelope }, Record::ManagedCallIntent { turn: o_turn, call: o_call, name: o_name, envelope: o_envelope }) => turn.copy_of(o_turn) && call.copy_of(o_call) && name.copy_of(o_name) && envelope.copy_of(o_envelope),
            (Record::ManagedCallAccepted { turn, call, operation }, Record::ManagedCallAccepted { turn: o_turn, call: o_call, operation: o_operation }) => turn.copy_of(o_turn) && call.copy_of(o_call) && operation.copy_of(o_operation),
            (Record::ManagedCallUnknown { turn, call, request_digest }, Record::ManagedCallUnknown { turn: o_turn, call: o_call, request_digest: o_request_digest }) => turn.copy_of(o_turn) && call.copy_of(o_call) && request_digest.copy_of(o_request_digest),
            (Record::ToolCall { turn, agent, call, name, input, detach }, Record::ToolCall { turn: o_turn, agent: o_agent, call: o_call, name: o_name, input: o_input, detach: o_detach }) => turn.copy_of(o_turn) && agent.copy_of(o_agent) && call.copy_of(o_call) && name.copy_of(o_name) && input.copy_of(o_input) && detach.copy_of(o_detach),
            (Record::ToolResult { turn, agent, call, name, outcome, content, is_error, exit_code, duration_ms, truncated }, Record::ToolResult { turn: o_turn, agent: o_agent, call: o_call, name: o_name, outcome: o_outcome, content: o_content, is_error: o_is_error, exit_code: o_exit_code, duration_ms: o_duration_ms, truncated: o_truncated }) => turn.copy_of(o_turn) && agent.copy_of(o_agent) && call.copy_of(o_call) && name.copy_of(o_name) && outcome.copy_of(o_outcome) && content.copy_of(o_content) && is_error.copy_of(o_is_error) && exit_code.copy_of(o_exit_code) && duration_ms.copy_of(o_duration_ms) && truncated.copy_of(o_truncated),
            (Record::CustomerTerminalReceived { turn, call, client_id, process_id, request_digest, terminal_digest }, Record::CustomerTerminalReceived { turn: o_turn, call: o_call, client_id: o_client_id, process_id: o_process_id, request_digest: o_request_digest, terminal_digest: o_terminal_digest }) => turn.copy_of(o_turn) && call.copy_of(o_call) && client_id.copy_of(o_client_id) && process_id.copy_of(o_process_id) && request_digest.copy_of(o_request_digest) && terminal_digest.copy_of(o_terminal_digest),
            (Record::CustomerTerminalAcknowledged { turn, call, request_digest, terminal_digest }, Record::CustomerTerminalAcknowledged { turn: o_turn, call: o_call, request_digest: o_request_digest, terminal_digest: o_terminal_digest }) => turn.copy_of(o_turn) && call.copy_of(o_call) && request_digest.copy_of(o_request_digest) && terminal_digest.copy_of(o_terminal_digest),
            (Record::ManagedTerminalReceived { turn, call, operation, terminal_digest }, Record::ManagedTerminalReceived { turn: o_turn, call: o_call, operation: o_operation, terminal_digest: o_terminal_digest }) => turn.copy_of(o_turn) && call.copy_of(o_call) && operation.copy_of(o_operation) && terminal_digest.copy_of(o_terminal_digest),
            (Record::ManagedTerminalAcknowledged { turn, call, request_digest, terminal_digest }, Record::ManagedTerminalAcknowledged { turn: o_turn, call: o_call, request_digest: o_request_digest, terminal_digest: o_terminal_digest }) => turn.copy_of(o_turn) && call.copy_of(o_call) && request_digest.copy_of(o_request_digest) && terminal_digest.copy_of(o_terminal_digest),
            (Record::TurnCompleted { turn, stop_reason, rounds, tool_calls, result }, Record::TurnCompleted { turn: o_turn, stop_reason: o_stop_reason, rounds: o_rounds, tool_calls: o_tool_calls, result: o_result }) => turn.copy_of(o_turn) && stop_reason.copy_of(o_stop_reason) && rounds.copy_of(o_rounds) && tool_calls.copy_of(o_tool_calls) && result.copy_of(o_result),
            (Record::TurnFailed { turn, code, message, details }, Record::TurnFailed { turn: o_turn, code: o_code, message: o_message, details: o_details }) => turn.copy_of(o_turn) && code.copy_of(o_code) && message.copy_of(o_message) && details.copy_of(o_details),
            (Record::State { state, turn }, Record::State { state: o_state, turn: o_turn }) => state.copy_of(o_state) && turn.copy_of(o_turn),
            (Record::EnvironmentLost { turn, interrupted, synced_ms }, Record::EnvironmentLost { turn: o_turn, interrupted: o_interrupted, synced_ms: o_synced_ms }) => turn.copy_of(o_turn) && interrupted.copy_of(o_interrupted) && synced_ms.copy_of(o_synced_ms),
            (Record::StorageUploadReserved { transfer_id, key, bytes, sha256, expires_at_ms, published_bytes, reserved_bytes }, Record::StorageUploadReserved { transfer_id: o_transfer_id, key: o_key, bytes: o_bytes, sha256: o_sha256, expires_at_ms: o_expires_at_ms, published_bytes: o_published_bytes, reserved_bytes: o_reserved_bytes }) => transfer_id.copy_of(o_transfer_id) && key.copy_of(o_key) && bytes.copy_of(o_bytes) && sha256.copy_of(o_sha256) && expires_at_ms.copy_of(o_expires_at_ms) && published_bytes.copy_of(o_published_bytes) && reserved_bytes.copy_of(o_reserved_bytes),
            (Record::StorageUploadPublished { transfer_id, key, bytes, published_bytes, reserved_bytes }, Record::StorageUploadPublished { transfer_id: o_transfer_id, key: o_key, bytes: o_bytes, published_bytes: o_published_bytes, reserved_bytes: o_reserved_bytes }) => transfer_id.copy_of(o_transfer_id) && key.copy_of(o_key) && bytes.copy_of(o_bytes) && published_bytes.copy_of(o_published_bytes) && reserved_bytes.copy_of(o_reserved_bytes),
            (Record::StorageUploadCompleted { transfer_id, key, bytes, published_bytes, reserved_bytes }, Record::StorageUploadCompleted { transfer_id: o_transfer_id, key: o_key, bytes: o_bytes, published_bytes: o_published_bytes, reserved_bytes: o_reserved_bytes }) => transfer_id.copy_of(o_transfer_id) && key.copy_of(o_key) && bytes.copy_of(o_bytes) && published_bytes.copy_of(o_published_bytes) && reserved_bytes.copy_of(o_reserved_bytes),
            (Record::StorageUploadExpired { transfer_id, key, bytes, published_bytes, reserved_bytes }, Record::StorageUploadExpired { transfer_id: o_transfer_id, key: o_key, bytes: o_bytes, published_bytes: o_published_bytes, reserved_bytes: o_reserved_bytes }) => transfer_id.copy_of(o_transfer_id) && key.copy_of(o_key) && bytes.copy_of(o_bytes) && published_bytes.copy_of(o_published_bytes) && reserved_bytes.copy_of(o_reserved_bytes),
            (Record::StorageDeleteIntent { operation_id, key, bytes, sha256, published_bytes, reserved_bytes }, Record::StorageDeleteIntent { operation_id: o_operation_id, key: o_key, bytes: o_bytes, sha256: o_sha256, published_bytes: o_published_bytes, reserved_bytes: o_reserved_bytes }) => operation_id.copy_of(o_operation_id) && key.copy_of(o_key) && bytes.copy_of(o_bytes) && sha256.copy_of(o_sha256) && published_bytes.copy_of(o_published_bytes) && reserved_bytes.copy_of(o_reserved_bytes),
            (Record::StorageDeleteCompleted { operation_id, key, bytes, published_bytes, reserved_bytes }, Record::StorageDeleteCompleted { operation_id: o_operation_id, key: o_key, bytes: o_bytes, published_bytes: o_published_bytes, reserved_bytes: o_reserved_bytes }) => operation_id.copy_of(o_operation_id) && key.copy_of(o_key) && bytes.copy_of(o_bytes) && published_bytes.copy_of(o_published_bytes) && reserved_bytes.copy_of(o_reserved_bytes),
            (Record::SandboxFileEffectIntent { operation_id, request_digest, action, path }, Record::SandboxFileEffectIntent { operation_id: o_operation_id, request_digest: o_request_digest, action: o_action, path: o_path }) => operation_id.copy_of(o_operation_id) && request_digest.copy_of(o_request_digest) && action.copy_of(o_action) && path.copy_of(o_path),
            (Record::SandboxFileEffectCompleted { operation_id, request_digest, action, path, replayed }, Record::SandboxFileEffectCompleted { operation_id: o_operation_id, request_digest: o_request_digest, action: o_action, path: o_path, replayed: o_replayed }) => operation_id.copy_of(o_operation_id) && request_digest.copy_of(o_request_digest) && action.copy_of(o_action) && path.copy_of(o_path) && replayed.copy_of(o_replayed),
            (Record::DefaultSandboxChanged { status }, Record::DefaultSandboxChanged { status: o_status }) => status.copy_of(o_status),
            (Record::ContextChunk { checkpoint_id, index, total, sha256, content_base64 }, Record::ContextChunk { checkpoint_id: o_checkpoint_id, index: o_index, total: o_total, sha256: o_sha256, content_base64: o_content_base64 }) => checkpoint_id.copy_of(o_checkpoint_id) && index.copy_of(o_index) && total.copy_of(o_total) && sha256.copy_of(o_sha256) && content_base64.copy_of(o_content_base64),
            (Record::ContextInstalled { checkpoint_id, base_checkpoint_id, covers_through_sequence, retained_messages, payload_digest, base_prefix_digest, source_context_digest, token_estimate, context_generation, summary_kind, compactor_provider, compactor_model, retained_from_sequence, created_at_ms }, Record::ContextInstalled { checkpoint_id: o_checkpoint_id, base_checkpoint_id: o_base_checkpoint_id, covers_through_sequence: o_covers_through_sequence, retained_messages: o_retained_messages, payload_digest: o_payload_digest, base_prefix_digest: o_base_prefix_digest, source_context_digest: o_source_context_digest, token_estimate: o_token_estimate, context_generation: o_context_generation, summary_kind: o_summary_kind, compactor_provider: o_compactor_provider, compactor_model: o_compactor_model, retained_from_sequence: o_retained_from_sequence, created_at_ms: o_created_at_ms }) => checkpoint_id.copy_of(o_checkpoint_id) && base_checkpoint_id.copy_of(o_base_checkpoint_id) && covers_through_sequence.copy_of(o_covers_through_sequence) && retained_messages.copy_of(o_retained_messages) && payload_digest.copy_of(o_payload_digest) && base_prefix_digest.copy_of(o_base_prefix_digest) && source_context_digest.copy_of(o_source_context_digest) && token_estimate.copy_of(o_token_estimate) && context_generation.copy_of(o_context_generation) && summary_kind.copy_of(o_summary_kind) && compactor_provider.copy_of(o_compactor_provider) && compactor_model.copy_of(o_compactor_model) && retained_from_sequence.copy_of(o_retained_from_sequence) && created_at_ms.copy_of(o_created_at_ms),
            (Record::LoopCustom { turn, data }, Record::LoopCustom { turn: o_turn, data: o_data }) => turn.copy_of(o_turn) && data.copy_of(o_data),
            (Record::LoopEvent { turn, name, data }, Record::LoopEvent { turn: o_turn, name: o_name, data: o_data }) => turn.copy_of(o_turn) && name.copy_of(o_name) && data.copy_of(o_data),
            (Record::LoopMark { turn, covers_through_seq, data }, Record::LoopMark { turn: o_turn, covers_through_seq: o_covers_through_seq, data: o_data }) => turn.copy_of(o_turn) && covers_through_seq.copy_of(o_covers_through_seq) && data.copy_of(o_data),
            (Record::LoopKvSet { turn, entries }, Record::LoopKvSet { turn: o_turn, entries: o_entries }) => turn.copy_of(o_turn) && entries.copy_of(o_entries),
            _ => false,
        }
    }

    fn duplicate(&self) -> (r: Record) {
        match self {
            Record::UserMessage { turn, content, starts_turn, metadata, idempotency_key_hash, request_hash } => Record::UserMessage { turn: turn.duplicate(), content: content.duplicate(), starts_turn: starts_turn.duplicate(), metadata: metadata.duplicate(), idempotency_key_hash: idempotency_key_hash.duplicate(), request_hash: request_hash.duplicate() },
            Record::TurnStarted { turn } => Record::TurnStarted { turn: turn.duplicate() },
            Record::ModelCallIntent { turn, logical_operation_id, attempt_id, request_digest, replacement } => Record::ModelCallIntent { turn: turn.duplicate(), logical_operation_id: logical_operation_id.duplicate(), attempt_id: attempt_id.duplicate(), request_digest: request_digest.duplicate(), replacement: replacement.duplicate() },
            Record::ModelCallUnknown { turn, logical_operation_id, attempt_id, request_digest, possibly_duplicated } => Record::ModelCallUnknown { turn: turn.duplicate(), logical_operation_id: logical_operation_id.duplicate(), attempt_id: attempt_id.duplicate(), request_digest: request_digest.duplicate(), possibly_duplicated: possibly_duplicated.duplicate() },
            Record::ModelAttemptSuperseded { turn, logical_operation_id, superseded_attempt_id, replacement_attempt_id, reason } => Record::ModelAttemptSuperseded { turn: turn.duplicate(), logical_operation_id: logical_operation_id.duplicate(), superseded_attempt_id: superseded_attempt_id.duplicate(), replacement_attempt_id: replacement_attempt_id.duplicate(), reason: reason.duplicate() },
            Record::ModelCallCompleted { turn, logical_operation_id, attempt_id, request_digest } => Record::ModelCallCompleted { turn: turn.duplicate(), logical_operation_id: logical_operation_id.duplicate(), attempt_id: attempt_id.duplicate(), request_digest: request_digest.duplicate() },
            Record::CompactionIntent { turn, logical_operation_id, attempt_id, request_digest, replacement } => Record::CompactionIntent { turn: turn.duplicate(), logical_operation_id: logical_operation_id.duplicate(), attempt_id: attempt_id.duplicate(), request_digest: request_digest.duplicate(), replacement: replacement.duplicate() },
            Record::CompactionUnknown { turn, logical_operation_id, attempt_id, request_digest, possibly_duplicated } => Record::CompactionUnknown { turn: turn.duplicate(), logical_operation_id: logical_operation_id.duplicate(), attempt_id: attempt_id.duplicate(), request_digest: request_digest.duplicate(), possibly_duplicated: possibly_duplicated.duplicate() },
            Record::CompactionCompleted { turn, logical_operation_id, attempt_id, request_digest } => Record::CompactionCompleted { turn: turn.duplicate(), logical_operation_id: logical_operation_id.duplicate(), attempt_id: attempt_id.duplicate(), request_digest: request_digest.duplicate() },
            Record::Assistant { turn, agent, attempt_id, content, stop } => Record::Assistant { turn: turn.duplicate(), agent: agent.duplicate(), attempt_id: attempt_id.duplicate(), content: content.duplicate(), stop: stop.duplicate() },
            Record::Usage { turn, agent, provider, model, usage } => Record::Usage { turn: turn.duplicate(), agent: agent.duplicate(), provider: provider.duplicate(), model: model.duplicate(), usage: usage.duplicate() },
            Record::CustomerCallIntent { turn, call, client_id, process_id, request_digest, deadline_at_ms } => Record::CustomerCallIntent { turn: turn.duplicate(), call: call.duplicate(), client_id: client_id.duplicate(), process_id: process_id.duplicate(), request_digest: request_digest.duplicate(), deadline_at_ms: deadline_at_ms.duplicate() },
            Record::ManagedCallIntent { turn, call, name, envelope } => Record::ManagedCallIntent { turn: turn.duplicate(), call: call.duplicate(), name: name.duplicate(), envelope: envelope.duplicate() },
            Record::ManagedCallAccepted { turn, call, operation } => Record::ManagedCallAccepted { turn: turn.duplicate(), call: call.duplicate(), operation: operation.duplicate() },
            Record::ManagedCallUnknown { turn, call, request_digest } => Record::ManagedCallUnknown { turn: turn.duplicate(), call: call.duplicate(), request_digest: request_digest.duplicate() },
            Record::ToolCall { turn, agent, call, name, input, detach } => Record::ToolCall { turn: turn.duplicate(), agent: agent.duplicate(), call: call.duplicate(), name: name.duplicate(), input: input.duplicate(), detach: detach.duplicate() },
            Record::ToolResult { turn, agent, call, name, outcome, content, is_error, exit_code, duration_ms, truncated } => Record::ToolResult { turn: turn.duplicate(), agent: agent.duplicate(), call: call.duplicate(), name: name.duplicate(), outcome: outcome.duplicate(), content: content.duplicate(), is_error: is_error.duplicate(), exit_code: exit_code.duplicate(), duration_ms: duration_ms.duplicate(), truncated: truncated.duplicate() },
            Record::CustomerTerminalReceived { turn, call, client_id, process_id, request_digest, terminal_digest } => Record::CustomerTerminalReceived { turn: turn.duplicate(), call: call.duplicate(), client_id: client_id.duplicate(), process_id: process_id.duplicate(), request_digest: request_digest.duplicate(), terminal_digest: terminal_digest.duplicate() },
            Record::CustomerTerminalAcknowledged { turn, call, request_digest, terminal_digest } => Record::CustomerTerminalAcknowledged { turn: turn.duplicate(), call: call.duplicate(), request_digest: request_digest.duplicate(), terminal_digest: terminal_digest.duplicate() },
            Record::ManagedTerminalReceived { turn, call, operation, terminal_digest } => Record::ManagedTerminalReceived { turn: turn.duplicate(), call: call.duplicate(), operation: operation.duplicate(), terminal_digest: terminal_digest.duplicate() },
            Record::ManagedTerminalAcknowledged { turn, call, request_digest, terminal_digest } => Record::ManagedTerminalAcknowledged { turn: turn.duplicate(), call: call.duplicate(), request_digest: request_digest.duplicate(), terminal_digest: terminal_digest.duplicate() },
            Record::TurnCompleted { turn, stop_reason, rounds, tool_calls, result } => Record::TurnCompleted { turn: turn.duplicate(), stop_reason: stop_reason.duplicate(), rounds: rounds.duplicate(), tool_calls: tool_calls.duplicate(), result: result.duplicate() },
            Record::TurnFailed { turn, code, message, details } => Record::TurnFailed { turn: turn.duplicate(), code: code.duplicate(), message: message.duplicate(), details: details.duplicate() },
            Record::State { state, turn } => Record::State { state: state.duplicate(), turn: turn.duplicate() },
            Record::EnvironmentLost { turn, interrupted, synced_ms } => Record::EnvironmentLost { turn: turn.duplicate(), interrupted: interrupted.duplicate(), synced_ms: synced_ms.duplicate() },
            Record::StorageUploadReserved { transfer_id, key, bytes, sha256, expires_at_ms, published_bytes, reserved_bytes } => Record::StorageUploadReserved { transfer_id: transfer_id.duplicate(), key: key.duplicate(), bytes: bytes.duplicate(), sha256: sha256.duplicate(), expires_at_ms: expires_at_ms.duplicate(), published_bytes: published_bytes.duplicate(), reserved_bytes: reserved_bytes.duplicate() },
            Record::StorageUploadPublished { transfer_id, key, bytes, published_bytes, reserved_bytes } => Record::StorageUploadPublished { transfer_id: transfer_id.duplicate(), key: key.duplicate(), bytes: bytes.duplicate(), published_bytes: published_bytes.duplicate(), reserved_bytes: reserved_bytes.duplicate() },
            Record::StorageUploadCompleted { transfer_id, key, bytes, published_bytes, reserved_bytes } => Record::StorageUploadCompleted { transfer_id: transfer_id.duplicate(), key: key.duplicate(), bytes: bytes.duplicate(), published_bytes: published_bytes.duplicate(), reserved_bytes: reserved_bytes.duplicate() },
            Record::StorageUploadExpired { transfer_id, key, bytes, published_bytes, reserved_bytes } => Record::StorageUploadExpired { transfer_id: transfer_id.duplicate(), key: key.duplicate(), bytes: bytes.duplicate(), published_bytes: published_bytes.duplicate(), reserved_bytes: reserved_bytes.duplicate() },
            Record::StorageDeleteIntent { operation_id, key, bytes, sha256, published_bytes, reserved_bytes } => Record::StorageDeleteIntent { operation_id: operation_id.duplicate(), key: key.duplicate(), bytes: bytes.duplicate(), sha256: sha256.duplicate(), published_bytes: published_bytes.duplicate(), reserved_bytes: reserved_bytes.duplicate() },
            Record::StorageDeleteCompleted { operation_id, key, bytes, published_bytes, reserved_bytes } => Record::StorageDeleteCompleted { operation_id: operation_id.duplicate(), key: key.duplicate(), bytes: bytes.duplicate(), published_bytes: published_bytes.duplicate(), reserved_bytes: reserved_bytes.duplicate() },
            Record::SandboxFileEffectIntent { operation_id, request_digest, action, path } => Record::SandboxFileEffectIntent { operation_id: operation_id.duplicate(), request_digest: request_digest.duplicate(), action: action.duplicate(), path: path.duplicate() },
            Record::SandboxFileEffectCompleted { operation_id, request_digest, action, path, replayed } => Record::SandboxFileEffectCompleted { operation_id: operation_id.duplicate(), request_digest: request_digest.duplicate(), action: action.duplicate(), path: path.duplicate(), replayed: replayed.duplicate() },
            Record::DefaultSandboxChanged { status } => Record::DefaultSandboxChanged { status: status.duplicate() },
            Record::ContextChunk { checkpoint_id, index, total, sha256, content_base64 } => Record::ContextChunk { checkpoint_id: checkpoint_id.duplicate(), index: index.duplicate(), total: total.duplicate(), sha256: sha256.duplicate(), content_base64: content_base64.duplicate() },
            Record::ContextInstalled { checkpoint_id, base_checkpoint_id, covers_through_sequence, retained_messages, payload_digest, base_prefix_digest, source_context_digest, token_estimate, context_generation, summary_kind, compactor_provider, compactor_model, retained_from_sequence, created_at_ms } => Record::ContextInstalled { checkpoint_id: checkpoint_id.duplicate(), base_checkpoint_id: base_checkpoint_id.duplicate(), covers_through_sequence: covers_through_sequence.duplicate(), retained_messages: retained_messages.duplicate(), payload_digest: payload_digest.duplicate(), base_prefix_digest: base_prefix_digest.duplicate(), source_context_digest: source_context_digest.duplicate(), token_estimate: token_estimate.duplicate(), context_generation: context_generation.duplicate(), summary_kind: summary_kind.duplicate(), compactor_provider: compactor_provider.duplicate(), compactor_model: compactor_model.duplicate(), retained_from_sequence: retained_from_sequence.duplicate(), created_at_ms: created_at_ms.duplicate() },
            Record::LoopCustom { turn, data } => Record::LoopCustom { turn: turn.duplicate(), data: data.duplicate() },
            Record::LoopEvent { turn, name, data } => Record::LoopEvent { turn: turn.duplicate(), name: name.duplicate(), data: data.duplicate() },
            Record::LoopMark { turn, covers_through_seq, data } => Record::LoopMark { turn: turn.duplicate(), covers_through_seq: covers_through_seq.duplicate(), data: data.duplicate() },
            Record::LoopKvSet { turn, entries } => Record::LoopKvSet { turn: turn.duplicate(), entries: entries.duplicate() },
        }
    }
}

impl Record {
    /// The journal name of the record's kind.
    pub open spec fn kind_label(self) -> Seq<char> {
        match self {
            Record::UserMessage { .. } => "user_message"@,
            Record::TurnStarted { .. } => "turn_started"@,
            Record::ModelCallIntent { .. } => "model_call_intent"@,
            Record::ModelCallUnknown { .. } => "model_call_unknown"@,
            Record::ModelAttemptSuperseded { .. } => "model_attempt_superseded"@,
            Record::ModelCallCompleted { .. } => "model_call_completed"@,
            Record::CompactionIntent { .. } => "compaction_intent"@,
            Record::CompactionUnknown { .. } => "compaction_unknown"@,
            Record::CompactionCompleted { .. } => "compaction_completed"@,
            Record::Assistant { .. } => "assistant"@,
            Record::Usage { .. } => "usage"@,
            Record::CustomerCallIntent { .. } => "customer_call_intent"@,
            Record::ManagedCallIntent { .. } => "managed_call_intent"@,
            Record::ManagedCallAccepted { .. } => "managed_call_accepted"@,
            Record::ManagedCallUnknown { .. } => "managed_call_unknown"@,
            Record::ToolCall { .. } => "tool_call"@,
            Record::ToolResult { .. } => "tool_result"@,
            Record::CustomerTerminalReceived { .. } => "customer_terminal_received"@,
            Record::CustomerTerminalAcknowledged { .. } => "customer_terminal_acknowledged"@,
            Record::ManagedTerminalReceived { .. } => "managed_terminal_received"@,
            Record::ManagedTerminalAcknowledged { .. } => "managed_terminal_acknowledged"@,
            Record::TurnCompleted { .. } => "turn_completed"@,
            Record::TurnFailed { .. } => "turn_failed"@,
            Record::State { .. } => "state"@,
            Record::EnvironmentLost { .. } => "environment_lost"@,
            Record::StorageUploadReserved { .. } => "storage_upload_reserved"@,
            Record::StorageUploadPublished { .. } => "storage_upload_published"@,
            Record::StorageUploadCompleted { .. } => "storage_upload_completed"@,
            Record::StorageUploadExpired { .. } => "storage_upload_expired"@,
            Record::StorageDeleteIntent { .. } => "storage_delete_intent"@,
            Record::StorageDeleteCompleted { .. } => "storage_delete_completed"@,
            Record::SandboxFileEffectIntent { .. } => "sandbox_file_effect_intent"@,
            Record::SandboxFileEffectCompleted { .. } => "sandbox_file_effect_completed"@,
            Record::DefaultSandboxChanged { .. } => "default_sandbox_changed"@,
            Record::ContextChunk { .. } => "context_chunk"@,
            Record::ContextInstalled { .. } => "context_installed"@,
            Record::LoopCustom { .. } => "loop_custom"@,
            Record::LoopEvent { .. } => "loop_event"@,
            Record::LoopMark { .. } => "loop_mark"@,
            Record::LoopKvSet { .. } => "loop_kv_set"@,
        }
    }

    pub fn kind_name(&self) -> (r: &'static str)
        ensures
            r@ == self.kind_label(),
    {
        match self {
            Record::UserMessage { .. } => "user_message",
            Record::TurnStarted { .. } => "turn_started",
            Record::ModelCallIntent { .. } => "model_call_intent",
            Record::ModelCallUnknown { .. } => "model_call_unknown",
            Record::ModelAttemptSuperseded { .. } => "model_attempt_superseded",
            Record::ModelCallCompleted { .. } => "model_call_completed",
            Record::CompactionIntent { .. } => "compaction_intent",
            Record::CompactionUnknown { .. } => "compaction_unknown",
            Record::CompactionCompleted { .. } => "compaction_completed",
            Record::Assistant { .. } => "assistant",
            Record::Usage { .. } => "usage",
            Record::CustomerCallIntent { .. } => "customer_call_intent",
            Record::ManagedCallIntent { .. } => "managed_call_intent",
            Record::ManagedCallAccepted { .. } => "managed_call_accepted",
            Record::ManagedCallUnknown { .. } => "managed_call_unknown",
            Record::ToolCall { .. } => "tool_call",
            Record::ToolResult { .. } => "tool_result",
            Record::CustomerTerminalReceived { .. } => "customer_terminal_received",
            Record::CustomerTerminalAcknowledged { .. } => "customer_terminal_acknowledged",
            Record::ManagedTerminalReceived { .. } => "managed_terminal_received",
            Record::ManagedTerminalAcknowledged { .. } => "managed_terminal_acknowledged",
            Record::TurnCompleted { .. } => "turn_completed",
            Record::TurnFailed { .. } => "turn_failed",
            Record::State { .. } => "state",
            Record::EnvironmentLost { .. } => "environment_lost",
            Record::StorageUploadReserved { .. } => "storage_upload_reserved",
            Record::StorageUploadPublished { .. } => "storage_upload_published",
            Record::StorageUploadCompleted { .. } => "storage_upload_completed",
            Record::StorageUploadExpired { .. } => "storage_upload_expired",
            Record::StorageDeleteIntent { .. } => "storage_delete_intent",
            Record::StorageDeleteCompleted { .. } => "storage_delete_completed",
            Record::SandboxFileEffectIntent { .. } => "sandbox_file_effect_intent",
            Record::SandboxFileEffectCompleted { .. } => "sandbox_file_effect_completed",
            Record::DefaultSandboxChanged { .. } => "default_sandbox_changed",
            Record::ContextChunk { .. } => "context_chunk",
            Record::ContextInstalled { .. } => "context_installed",
            Record::LoopCustom { .. } => "loop_custom",
            Record::LoopEvent { .. } => "loop_event",
            Record::LoopMark { .. } => "loop_mark",
            Record::LoopKvSet { .. } => "loop_kv_set",
        }
    }
}

impl Record {
    /// The agent an activity record belongs to; `None` for session-level records.
    pub open spec fn agent_of(self) -> Option<Seq<char>> {
        match self {
            Record::Assistant { agent, .. } => Some(agent@),
            Record::Usage { agent, .. } => Some(agent@),
            Record::ToolCall { agent, .. } => Some(agent@),
            Record::ToolResult { agent, .. } => Some(agent@),
            _ => None,
        }
    }

    pub fn agent(&self) -> (r: Option<&str>)
        ensures
            match r {
                Some(a) => self.agent_of() == Some(a@),
                None => self.agent_of() is None,
            },
    {
        match self {
            Record::Assistant { agent, .. } => Some(agent.as_str()),
            Record::Usage { agent, .. } => Some(agent.as_str()),
            Record::ToolCall { agent, .. } => Some(agent.as_str()),
            Record::ToolResult { agent, .. } => Some(agent.as_str()),
            _ => None,
        }
    }
}

} // verus!
