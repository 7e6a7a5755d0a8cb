//! The session HEAD document, its split into a mutable control projection and an immutable
//! create-time CONFIG, and the projections the stores index by.

use vstd::prelude::*;
use crate::error::{BrainError, Fault};
use crate::records::{SandboxState, SandboxStatus};
use crate::vocab::{
    DeletionState, ProviderAttemptState, SessionLifecycle, TurnPhase, UploadReservationState,
};
use crate::retention::JournalRetention;

verus! {

/// A deep copy: equal to its source in every field and element.
pub trait Duplicate: Sized {
    /// `self` holds the same values as `other`, element by element.
    spec fn copy_of(&self, other: &Self) -> bool;

    fn duplicate(&self) -> (r: Self)
        ensures
            r.copy_of(self),
    ;
}

impl Duplicate for String {
    open spec fn copy_of(&self, other: &Self) -> bool {
        *self == *other
    }

    fn duplicate(&self) -> (r: String) {
        self.clone()
    }
}

impl Duplicate for u64 {
    open spec fn copy_of(&self, other: &Self) -> bool {
        *self == *other
    }

    fn duplicate(&self) -> (r: u64) {
        *self
    }
}

impl Duplicate for u32 {
    open spec fn copy_of(&self, other: &Self) -> bool {
        *self == *other
    }

    fn duplicate(&self) -> (r: u32) {
        *self
    }
}

impl Duplicate for bool {
    open spec fn copy_of(&self, other: &Self) -> bool {
        *self == *other
    }

    fn duplicate(&self) -> (r: bool) {
        *self
    }
}

impl Duplicate for SessionLifecycle {
    open spec fn copy_of(&self, other: &Self) -> bool {
        *self == *other
    }

    fn duplicate(&self) -> (r: SessionLifecycle) {
        *self
    }
}

impl Duplicate for TurnPhase {
    open spec fn copy_of(&self, other: &Self) -> bool {
        *self == *other
    }

    fn duplicate(&self) -> (r: TurnPhase) {
        *self
    }
}

impl Duplicate for ProviderAttemptState {
    open spec fn copy_of(&self, other: &Self) -> bool {
        *self == *other
    }

    fn duplicate(&self) -> (r: ProviderAttemptState) {
        *self
    }
}

impl Duplicate for UploadReservationState {
    open spec fn copy_of(&self, other: &Self) -> bool {
        *self == *other
    }

    fn duplicate(&self) -> (r: UploadReservationState) {
        *self
    }
}

impl Duplicate for DeletionState {
    open spec fn copy_of(&self, other: &Self) -> bool {
        *self == *other
    }

    fn duplicate(&self) -> (r: DeletionState) {
        *self
    }
}

impl Duplicate for SandboxState {
    open spec fn copy_of(&self, other: &Self) -> bool {
        *self == *other
    }

    fn duplicate(&self) -> (r: SandboxState) {
        *self
    }
}

impl<T: Duplicate> Duplicate for Option<T> {
    open spec fn copy_of(&self, other: &Self) -> bool {
        match (self, other) {
            (Some(a), Some(b)) => a.copy_of(b),
            (None, None) => true,
            _ => false,
        }
    }

    fn duplicate(&self) -> (r: Option<T>) {
        match self {
            Some(x) => Some(x.duplicate()),
            None => None,
        }
    }
}

impl<A: Duplicate, B: Duplicate> Duplicate for (A, B) {
    open spec fn copy_of(&self, other: &Self) -> bool {
        self.0.copy_of(&other.0) && self.1.copy_of(&other.1)
    }

    fn duplicate(&self) -> (r: (A, B)) {
        (self.0.duplicate(), self.1.duplicate())
    }
}

impl<T: Duplicate> Duplicate for Vec<T> {
    open spec fn copy_of(&self, other: &Self) -> bool {
        self@.len() == other@.len() && forall|i: int|
            0 <= i < self@.len() ==> (#[trigger] self@[i]).copy_of(&other@[i])
    }

    fn duplicate(&self) -> (r: Vec<T>) {
        let mut out: Vec<T> = Vec::new();
        let mut i: usize = 0;
        while i < self.len()
            invariant
                i <= self@.len(),
                out@.len() == i,
                forall|k: int| 0 <= k < i ==> (#[trigger] out@[k]).copy_of(&self@[k]),
            decreases self.len() - i,
        {
            out.push(self[i].duplicate());
            i = i + 1;
        }
        out
    }
}

impl Duplicate for SandboxStatus {
    open spec fn copy_of(&self, other: &Self) -> bool {
        *self == *other
    }

    fn duplicate(&self) -> (r: SandboxStatus) {
        SandboxStatus {
            state: self.state,
            expires_at_ms: self.expires_at_ms,
            target: self.target.duplicate(),
            detail: self.detail.duplicate(),
        }
    }
}

/// Bounded pointer to the session's loop-authored durable state.
#[derive(Debug, Clone, Copy, PartialEq, Eq, Structural)]
pub struct LoopStateDoc {
    /// Seq of the newest committed loop record.
    pub last_seq: u64,
}

impl Duplicate for LoopStateDoc {
    open spec fn copy_of(&self, other: &Self) -> bool {
        *self == *other
    }

    fn duplicate(&self) -> (r: LoopStateDoc) {
        *self
    }
}

/// Which agent loop a session sealed at create. Children inherit the parent's selector.
#[derive(Debug, Clone, PartialEq, Eq)]
pub enum AgentloopSelectorDoc {
    Official { name: String, version: String },
    Custom { source_bundle_sha256: String, source_bundle_bytes: u64, toolchain: String },
}

impl Duplicate for AgentloopSelectorDoc {
    open spec fn copy_of(&self, other: &Self) -> bool {
        *self == *other
    }

    fn duplicate(&self) -> (r: AgentloopSelectorDoc) {
        match self {
            AgentloopSelectorDoc::Official { name, version } => AgentloopSelectorDoc::Official {
                name: name.duplicate(),
                version: version.duplicate(),
            },
            AgentloopSelectorDoc::Custom { source_bundle_sha256, source_bundle_bytes, toolchain } =>
                AgentloopSelectorDoc::Custom {
                source_bundle_sha256: source_bundle_sha256.duplicate(),
                source_bundle_bytes: *source_bundle_bytes,
                toolchain: toolchain.duplicate(),
            },
        }
    }
}

impl AgentloopSelectorDoc {
    /// The identity every pre-selector session sealed implicitly.
    pub fn official_aex() -> (r: AgentloopSelectorDoc)
        ensures
            r matches AgentloopSelectorDoc::Official { name, version } && name@ == "aex"@
                && version@ == "1"@,
    {
        AgentloopSelectorDoc::Official { name: "aex".to_owned(), version: "1".to_owned() }
    }
}

/// A failure recorded on HEAD.
#[derive(Debug, Clone, PartialEq, Eq)]
pub struct FailureDoc {
    pub code: String,
    pub message: String,
    pub at_ms: u64,
}

impl Duplicate for FailureDoc {
    open spec fn copy_of(&self, other: &Self) -> bool {
        self.code.copy_of(&other.code)
            && self.message.copy_of(&other.message)
            && self.at_ms.copy_of(&other.at_ms)
    }

    fn duplicate(&self) -> (r: Self) {
        FailureDoc {
            code: self.code.duplicate(),
            message: self.message.duplicate(),
            at_ms: self.at_ms.duplicate(),
        }
    }
}

/// Bounded projection of the current logical provider operation/attempt.
#[derive(Debug, Clone, PartialEq, Eq)]
pub struct ProviderAttemptDoc {
    pub logical_operation_id: String,
    pub attempt_id: String,
    pub request_digest: String,
    pub state: ProviderAttemptState,
    pub replacements_used: u32,
}

impl Duplicate for ProviderAttemptDoc {
    open spec fn copy_of(&self, other: &Self) -> bool {
        self.logical_operation_id.copy_of(&other.logical_operation_id)
            && self.attempt_id.copy_of(&other.attempt_id)
            && self.request_digest.copy_of(&other.request_digest)
            && self.state.copy_of(&other.state)
            && self.replacements_used.copy_of(&other.replacements_used)
    }

    fn duplicate(&self) -> (r: Self) {
        ProviderAttemptDoc {
            logical_operation_id: self.logical_operation_id.duplicate(),
            attempt_id: self.attempt_id.duplicate(),
            request_digest: self.request_digest.duplicate(),
            state: self.state.duplicate(),
            replacements_used: self.replacements_used.duplicate(),
        }
    }
}

/// Hashes that let a retried message request replay its admission.
#[derive(Debug, Clone, PartialEq, Eq)]
pub struct MessageReplayDoc {
    pub key_hash: String,
    pub request_hash: String,
    pub turn_id: String,
    pub user_seq: u64,
}

impl Duplicate for MessageReplayDoc {
    open spec fn copy_of(&self, other: &Self) -> bool {
        self.key_hash.copy_of(&other.key_hash)
            && self.request_hash.copy_of(&other.request_hash)
            && self.turn_id.copy_of(&other.turn_id)
            && self.user_seq.copy_of(&other.user_seq)
    }

    fn duplicate(&self) -> (r: Self) {
        MessageReplayDoc {
            key_hash: self.key_hash.duplicate(),
            request_hash: self.request_hash.duplicate(),
            turn_id: self.turn_id.duplicate(),
            user_seq: self.user_seq.duplicate(),
        }
    }
}

/// The installed context checkpoint.
#[derive(Debug, Clone, PartialEq, Eq)]
pub struct ContextPointerDoc {
    pub checkpoint_id: String,
    pub base_checkpoint_id: Option<String>,
    pub covers_through_sequence: u64,
    pub chunk_start_sequence: u64,
    pub chunk_end_sequence: u64,
    pub retained_messages: u64,
    pub payload_digest: String,
    pub base_prefix_digest: String,
    pub source_context_digest: String,
    pub token_estimate: u64,
    pub context_generation: u64,
    pub summary_kind: String,
    pub compactor_provider: String,
    pub compactor_model: String,
    pub retained_from_sequence: u64,
    pub created_at_ms: u64,
}

impl Duplicate for ContextPointerDoc {
    open spec fn copy_of(&self, other: &Self) -> bool {
        self.checkpoint_id.copy_of(&other.checkpoint_id)
            && self.base_checkpoint_id.copy_of(&other.base_checkpoint_id)
            && self.covers_through_sequence.copy_of(&other.covers_through_sequence)
            && self.chunk_start_sequence.copy_of(&other.chunk_start_sequence)
            && self.chunk_end_sequence.copy_of(&other.chunk_end_sequence)
            && self.retained_messages.copy_of(&other.retained_messages)
            && self.payload_digest.copy_of(&other.payload_digest)
            && self.base_prefix_digest.copy_of(&other.base_prefix_digest)
            && self.source_context_digest.copy_of(&other.source_context_digest)
            && self.token_estimate.copy_of(&other.token_estimate)
            && self.context_generation.copy_of(&other.context_generation)
            && self.summary_kind.copy_of(&other.summary_kind)
            && self.compactor_provider.copy_of(&other.compactor_provider)
            && self.compactor_model.copy_of(&other.compactor_model)
            && self.retained_from_sequence.copy_of(&other.retained_from_sequence)
            && self.created_at_ms.copy_of(&other.created_at_ms)
    }

    fn duplicate(&self) -> (r: Self) {
        ContextPointerDoc {
            checkpoint_id: self.checkpoint_id.duplicate(),
            base_checkpoint_id: self.base_checkpoint_id.duplicate(),
            covers_through_sequence: self.covers_through_sequence.duplicate(),
            chunk_start_sequence: self.chunk_start_sequence.duplicate(),
            chunk_end_sequence: self.chunk_end_sequence.duplicate(),
            retained_messages: self.retained_messages.duplicate(),
            payload_digest: self.payload_digest.duplicate(),
            base_prefix_digest: self.base_prefix_digest.duplicate(),
            source_context_digest: self.source_context_digest.duplicate(),
            token_estimate: self.token_estimate.duplicate(),
            context_generation: self.context_generation.duplicate(),
            summary_kind: self.summary_kind.duplicate(),
            compactor_provider: self.compactor_provider.duplicate(),
            compactor_model: self.compactor_model.duplicate(),
            retained_from_sequence: self.retained_from_sequence.duplicate(),
            created_at_ms: self.created_at_ms.duplicate(),
        }
    }
}

/// Immutable parent-context inheritance descriptor for a child session.
#[derive(Debug, Clone, PartialEq, Eq)]
pub struct ContextForkDoc {
    pub source_session_id: String,
    pub source_context_generation: u64,
    pub source_through_sequence: u64,
    pub source_context: Option<ContextPointerDoc>,
    /// `all | none | last_n`.
    pub mode: String,
    /// Present only for `last_n`; always a positive count.
    pub last_n: Option<u32>,
    pub resolved_turns: u32,
    pub source_projection_digest: String,
}

impl Duplicate for ContextForkDoc {
    open spec fn copy_of(&self, other: &Self) -> bool {
        self.source_session_id.copy_of(&other.source_session_id)
            && self.source_context_generation.copy_of(&other.source_context_generation)
            && self.source_through_sequence.copy_of(&other.source_through_sequence)
            && self.source_context.copy_of(&other.source_context)
            && self.mode.copy_of(&other.mode)
            && self.last_n.copy_of(&other.last_n)
            && self.resolved_turns.copy_of(&other.resolved_turns)
            && self.source_projection_digest.copy_of(&other.source_projection_digest)
    }

    fn duplicate(&self) -> (r: Self) {
        ContextForkDoc {
            source_session_id: self.source_session_id.duplicate(),
            source_context_generation: self.source_context_generation.duplicate(),
            source_through_sequence: self.source_through_sequence.duplicate(),
            source_context: self.source_context.duplicate(),
            mode: self.mode.duplicate(),
            last_n: self.last_n.duplicate(),
            resolved_turns: self.resolved_turns.duplicate(),
            source_projection_digest: self.source_projection_digest.duplicate(),
        }
    }
}

/// An outstanding storage upload reservation.
#[derive(Debug, Clone, PartialEq, Eq)]
pub struct StorageUploadReservationDoc {
    pub transfer_id: String,
    pub key: String,
    pub bytes: u64,
    pub sha256: Option<String>,
    pub content_type: Option<String>,
    pub overwrite: bool,
    pub previous_bytes: u64,
    pub expires_at_ms: u64,
    pub state: UploadReservationState,
}

impl Duplicate for StorageUploadReservationDoc {
    open spec fn copy_of(&self, other: &Self) -> bool {
        self.transfer_id.copy_of(&other.transfer_id)
            && self.key.copy_of(&other.key)
            && self.bytes.copy_of(&other.bytes)
            && self.sha256.copy_of(&other.sha256)
            && self.content_type.copy_of(&other.content_type)
            && self.overwrite.copy_of(&other.overwrite)
            && self.previous_bytes.copy_of(&other.previous_bytes)
            && self.expires_at_ms.copy_of(&other.expires_at_ms)
            && self.state.copy_of(&other.state)
    }

    fn duplicate(&self) -> (r: Self) {
        StorageUploadReservationDoc {
            transfer_id: self.transfer_id.duplicate(),
            key: self.key.duplicate(),
            bytes: self.bytes.duplicate(),
            sha256: self.sha256.duplicate(),
            content_type: self.content_type.duplicate(),
            overwrite: self.overwrite.duplicate(),
            previous_bytes: self.previous_bytes.duplicate(),
            expires_at_ms: self.expires_at_ms.duplicate(),
            state: self.state.duplicate(),
        }
    }
}

/// An outstanding storage delete.
#[derive(Debug, Clone, PartialEq, Eq)]
pub struct StorageDeleteReservationDoc {
    pub operation_id: String,
    pub key: String,
    pub bytes: u64,
    pub sha256: String,
}

impl Duplicate for StorageDeleteReservationDoc {
    open spec fn copy_of(&self, other: &Self) -> bool {
        self.operation_id.copy_of(&other.operation_id)
            && self.key.copy_of(&other.key)
            && self.bytes.copy_of(&other.bytes)
            && self.sha256.copy_of(&other.sha256)
    }

    fn duplicate(&self) -> (r: Self) {
        StorageDeleteReservationDoc {
            operation_id: self.operation_id.duplicate(),
            key: self.key.duplicate(),
            bytes: self.bytes.duplicate(),
            sha256: self.sha256.duplicate(),
        }
    }
}

/// An exact customer terminal identity waiting for its post-commit ACK.
#[derive(Debug, Clone, PartialEq, Eq)]
pub struct CustomerTerminalAckDoc {
    pub turn: String,
    pub call: String,
    pub client_id: String,
    pub process_id: String,
    pub request_digest: String,
    pub terminal_digest: String,
}

impl Duplicate for CustomerTerminalAckDoc {
    open spec fn copy_of(&self, other: &Self) -> bool {
        self.turn.copy_of(&other.turn)
            && self.call.copy_of(&other.call)
            && self.client_id.copy_of(&other.client_id)
            && self.process_id.copy_of(&other.process_id)
            && self.request_digest.copy_of(&other.request_digest)
            && self.terminal_digest.copy_of(&other.terminal_digest)
    }

    fn duplicate(&self) -> (r: Self) {
        CustomerTerminalAckDoc {
            turn: self.turn.duplicate(),
            call: self.call.duplicate(),
            client_id: self.client_id.duplicate(),
            process_id: self.process_id.duplicate(),
            request_digest: self.request_digest.duplicate(),
            terminal_digest: self.terminal_digest.duplicate(),
        }
    }
}

/// A rooted managed receipt waiting for its post-commit ACK.
#[derive(Debug, Clone, PartialEq, Eq)]
pub struct ManagedTerminalAckDoc {
    pub turn: String,
    pub call: String,
    /// The environment's rooted operation receipt, as canonical JSON text.
    pub operation: String,
    pub terminal_digest: String,
}

impl Duplicate for ManagedTerminalAckDoc {
    open spec fn copy_of(&self, other: &Self) -> bool {
        self.turn.copy_of(&other.turn)
            && self.call.copy_of(&other.call)
            && self.operation.copy_of(&other.operation)
            && self.terminal_digest.copy_of(&other.terminal_digest)
    }

    fn duplicate(&self) -> (r: Self) {
        ManagedTerminalAckDoc {
            turn: self.turn.duplicate(),
            call: self.call.duplicate(),
            operation: self.operation.duplicate(),
            terminal_digest: self.terminal_digest.duplicate(),
        }
    }
}

/// The sealed create-time configuration, minus the credential. Shapes owned by other
/// contracts are carried as their canonical JSON text.
#[derive(Debug, Clone, PartialEq, Eq)]
pub struct PrefixDoc {
    pub system_prompt: Option<String>,
    pub provider: String,
    pub model: String,
    pub base_url: Option<String>,
    pub max_output_tokens: Option<u64>,
    pub context_window_tokens: u32,
    pub context_soft_tokens: u32,
    pub context_hard_tokens: u32,
    pub context_tail_tokens: u32,
    pub context_summary_tokens: u32,
    /// The sampling temperature as its decimal JSON text.
    pub temperature: Option<String>,
    pub reasoning_effort: Option<String>,
    pub provider_recovery_retries: u32,
    pub storage_max_object_bytes: u64,
    pub storage_max_session_bytes: u64,
    pub storage_transfer_ttl_ms: u64,
    pub max_additional_sandboxes_per_root: u32,
    /// Canonical normalized session outbound ceiling, as JSON text.
    pub network: String,
    pub max_child_depth: u32,
    pub max_direct_children: u32,
    pub max_descendants: u32,
    pub customer_client_id: Option<String>,
    pub customer_submit_retries: u32,
    /// Exact provider-visible immutable request object, as JSON text.
    pub rendered_base: String,
    pub rendered_base_digest: String,
    pub prompt_cache_key: String,
    /// Native tool definitions and execution seals, as a JSON array.
    pub tools: String,
    /// Managed implementation descriptors, as a JSON array.
    pub managed_bundles: String,
    /// Trusted host policies for official capabilities, as a JSON object.
    pub official_capabilities: String,
    pub hand_enabled: bool,
    pub shape: String,
    pub sync_interval_seconds: u64,
    pub hand_env_keys: Vec<String>,
    pub metadata: Vec<(String, String)>,
    pub agentloop: Option<AgentloopSelectorDoc>,
}

impl Duplicate for PrefixDoc {
    open spec fn copy_of(&self, other: &Self) -> bool {
        self.system_prompt.copy_of(&other.system_prompt)
            && self.provider.copy_of(&other.provider)
            && self.model.copy_of(&other.model)
            && self.base_url.copy_of(&other.base_url)
            && self.max_output_tokens.copy_of(&other.max_output_tokens)
            && self.context_window_tokens.copy_of(&other.context_window_tokens)
            && self.context_soft_tokens.copy_of(&other.context_soft_tokens)
            && self.context_hard_tokens.copy_of(&other.context_hard_tokens)
            && self.context_tail_tokens.copy_of(&other.context_tail_tokens)
            && self.context_summary_tokens.copy_of(&other.context_summary_tokens)
            && self.temperature.copy_of(&other.temperature)
            && self.reasoning_effort.copy_of(&other.reasoning_effort)
            && self.provider_recovery_retries.copy_of(&other.provider_recovery_retries)
            && self.storage_max_object_bytes.copy_of(&other.storage_max_object_bytes)
            && self.storage_max_session_bytes.copy_of(&other.storage_max_session_bytes)
            && self.storage_transfer_ttl_ms.copy_of(&other.storage_transfer_ttl_ms)
            && self.max_additional_sandboxes_per_root.copy_of(&other.max_additional_sandboxes_per_root)
            && self.network.copy_of(&other.network)
            && self.max_child_depth.copy_of(&other.max_child_depth)
            && self.max_direct_children.copy_of(&other.max_direct_children)
            && self.max_descendants.copy_of(&other.max_descendants)
            && self.customer_client_id.copy_of(&other.customer_client_id)
            && self.customer_submit_retries.copy_of(&other.customer_submit_retries)
            && self.rendered_base.copy_of(&other.rendered_base)
            && self.rendered_base_digest.copy_of(&other.rendered_base_digest)
            && self.prompt_cache_key.copy_of(&other.prompt_cache_key)
            && self.tools.copy_of(&other.tools)
            && self.managed_bundles.copy_of(&other.managed_bundles)
            && self.official_capabilities.copy_of(&other.official_capabilities)
            && self.hand_enabled.copy_of(&other.hand_enabled)
            && self.shape.copy_of(&other.shape)
            && self.sync_interval_seconds.copy_of(&other.sync_interval_seconds)
            && self.hand_env_keys.copy_of(&other.hand_env_keys)
            && self.metadata.copy_of(&other.metadata)
            && self.agentloop.copy_of(&other.agentloop)
    }

    fn duplicate(&self) -> (r: Self) {
        PrefixDoc {
            system_prompt: self.system_prompt.duplicate(),
            provider: self.provider.duplicate(),
            model: self.model.duplicate(),
            base_url: self.base_url.duplicate(),
            max_output_tokens: self.max_output_tokens.duplicate(),
            context_window_tokens: self.context_window_tokens.duplicate(),
            context_soft_tokens: self.context_soft_tokens.duplicate(),
            context_hard_tokens: self.context_hard_tokens.duplicate(),
            context_tail_tokens: self.context_tail_tokens.duplicate(),
            context_summary_tokens: self.context_summary_tokens.duplicate(),
            temperature: self.temperature.duplicate(),
            reasoning_effort: self.reasoning_effort.duplicate(),
            provider_recovery_retries: self.provider_recovery_retries.duplicate(),
            storage_max_object_bytes: self.storage_max_object_bytes.duplicate(),
            storage_max_session_bytes: self.storage_max_session_bytes.duplicate(),
            storage_transfer_ttl_ms: self.storage_transfer_ttl_ms.duplicate(),
            max_additional_sandboxes_per_root: self.max_additional_sandboxes_per_root.duplicate(),
            network: self.network.duplicate(),
            max_child_depth: self.max_child_depth.duplicate(),
            max_direct_children: self.max_direct_children.duplicate(),
            max_descendants: self.max_descendants.duplicate(),
            customer_client_id: self.customer_client_id.duplicate(),
            customer_submit_retries: self.customer_submit_retries.duplicate(),
            rendered_base: self.rendered_base.duplicate(),
            rendered_base_digest: self.rendered_base_digest.duplicate(),
            prompt_cache_key: self.prompt_cache_key.duplicate(),
            tools: self.tools.duplicate(),
            managed_bundles: self.managed_bundles.duplicate(),
            official_capabilities: self.official_capabilities.duplicate(),
            hand_enabled: self.hand_enabled.duplicate(),
            shape: self.shape.duplicate(),
            sync_interval_seconds: self.sync_interval_seconds.duplicate(),
            hand_env_keys: self.hand_env_keys.duplicate(),
            metadata: self.metadata.duplicate(),
            agentloop: self.agentloop.duplicate(),
        }
    }
}

/// Small mutable control projection; rewritten on every decision.
#[derive(Debug, Clone, PartialEq, Eq)]
pub struct ControlDoc {
    pub tenant_id: String,
    pub last_seq: u64,
    pub state: SessionLifecycle,
    pub failure: Option<FailureDoc>,
    pub turn: Option<String>,
    pub active_phase: Option<TurnPhase>,
    pub provider_attempt: Option<ProviderAttemptDoc>,
    pub active_context: Vec<(String, String)>,
    pub active_rounds: u64,
    pub active_tool_calls: u64,
    pub message_replays: Vec<MessageReplayDoc>,
    pub context: Option<ContextPointerDoc>,
    pub turns: u64,
    pub created_ms: u64,
    pub updated_ms: u64,
    pub recovery_due_ms: Option<u64>,
    pub recovery_attempt: u32,
    pub create_key_hash: Option<String>,
    pub create_request_hash: Option<String>,
    pub last_message_ms: Option<u64>,
    pub ended: bool,
    pub session_storage_bytes: u64,
    pub storage_reserved_bytes: u64,
    pub tenant_metered_storage_bytes: u64,
    pub storage_upload: Option<StorageUploadReservationDoc>,
    pub storage_delete: Option<StorageDeleteReservationDoc>,
    pub pending_customer_acks: Vec<CustomerTerminalAckDoc>,
    pub pending_managed_acks: Vec<ManagedTerminalAckDoc>,
    pub default_sandbox: Option<SandboxStatus>,
    pub loop_state: Option<LoopStateDoc>,
}

impl Duplicate for ControlDoc {
    open spec fn copy_of(&self, other: &Self) -> bool {
        self.tenant_id.copy_of(&other.tenant_id)
            && self.last_seq.copy_of(&other.last_seq)
            && self.state.copy_of(&other.state)
            && self.failure.copy_of(&other.failure)
            && self.turn.copy_of(&other.turn)
            && self.active_phase.copy_of(&other.active_phase)
            && self.provider_attempt.copy_of(&other.provider_attempt)
            && self.active_context.copy_of(&other.active_context)
            && self.active_rounds.copy_of(&other.active_rounds)
            && self.active_tool_calls.copy_of(&other.active_tool_calls)
            && self.message_replays.copy_of(&other.message_replays)
            && self.context.copy_of(&other.context)
            && self.turns.copy_of(&other.turns)
            && self.created_ms.copy_of(&other.created_ms)
            && self.updated_ms.copy_of(&other.updated_ms)
            && self.recovery_due_ms.copy_of(&other.recovery_due_ms)
            && self.recovery_attempt.copy_of(&other.recovery_attempt)
            && self.create_key_hash.copy_of(&other.create_key_hash)
            && self.create_request_hash.copy_of(&other.create_request_hash)
            && self.last_message_ms.copy_of(&other.last_message_ms)
            && self.ended.copy_of(&other.ended)
            && self.session_storage_bytes.copy_of(&other.session_storage_bytes)
            && self.storage_reserved_bytes.copy_of(&other.storage_reserved_bytes)
            && self.tenant_metered_storage_bytes.copy_of(&other.tenant_metered_storage_bytes)
            && self.storage_upload.copy_of(&other.storage_upload)
            && self.storage_delete.copy_of(&other.storage_delete)
            && self.pending_customer_acks.copy_of(&other.pending_customer_acks)
            && self.pending_managed_acks.copy_of(&other.pending_managed_acks)
            && self.default_sandbox.copy_of(&other.default_sandbox)
            && self.loop_state.copy_of(&other.loop_state)
    }

    fn duplicate(&self) -> (r: Self) {
        ControlDoc {
            tenant_id: self.tenant_id.duplicate(),
            last_seq: self.last_seq.duplicate(),
            state: self.state.duplicate(),
            failure: self.failure.duplicate(),
            turn: self.turn.duplicate(),
            active_phase: self.active_phase.duplicate(),
            provider_attempt: self.provider_attempt.duplicate(),
            active_context: self.active_context.duplicate(),
            active_rounds: self.active_rounds.duplicate(),
            active_tool_calls: self.active_tool_calls.duplicate(),
            message_replays: self.message_replays.duplicate(),
            context: self.context.duplicate(),
            turns: self.turns.duplicate(),
            created_ms: self.created_ms.duplicate(),
            updated_ms: self.updated_ms.duplicate(),
            recovery_due_ms: self.recovery_due_ms.duplicate(),
            recovery_attempt: self.recovery_attempt.duplicate(),
            create_key_hash: self.create_key_hash.duplicate(),
            create_request_hash: self.create_request_hash.duplicate(),
            last_message_ms: self.last_message_ms.duplicate(),
            ended: self.ended.duplicate(),
            session_storage_bytes: self.session_storage_bytes.duplicate(),
            storage_reserved_bytes: self.storage_reserved_bytes.duplicate(),
            tenant_metered_storage_bytes: self.tenant_metered_storage_bytes.duplicate(),
            storage_upload: self.storage_upload.duplicate(),
            storage_delete: self.storage_delete.duplicate(),
            pending_customer_acks: self.pending_customer_acks.duplicate(),
            pending_managed_acks: self.pending_managed_acks.duplicate(),
            default_sandbox: self.default_sandbox.duplicate(),
            loop_state: self.loop_state.duplicate(),
        }
    }
}

/// Immutable create-time material, stored once as CONFIG.
#[derive(Debug, Clone, PartialEq, Eq)]
pub struct ConfigDoc {
    pub root_id: String,
    pub parent_id: Option<String>,
    pub ancestor_ids: Vec<String>,
    pub child_name: Option<String>,
    pub context_fork: Option<ContextForkDoc>,
    pub depth: u32,
    pub prefix: PrefixDoc,
    pub key_b64: String,
    pub hand_secrets_b64: String,
}

impl Duplicate for ConfigDoc {
    open spec fn copy_of(&self, other: &Self) -> bool {
        self.root_id.copy_of(&other.root_id)
            && self.parent_id.copy_of(&other.parent_id)
            && self.ancestor_ids.copy_of(&other.ancestor_ids)
            && self.child_name.copy_of(&other.child_name)
            && self.context_fork.copy_of(&other.context_fork)
            && self.depth.copy_of(&other.depth)
            && self.prefix.copy_of(&other.prefix)
            && self.key_b64.copy_of(&other.key_b64)
            && self.hand_secrets_b64.copy_of(&other.hand_secrets_b64)
    }

    fn duplicate(&self) -> (r: Self) {
        ConfigDoc {
            root_id: self.root_id.duplicate(),
            parent_id: self.parent_id.duplicate(),
            ancestor_ids: self.ancestor_ids.duplicate(),
            child_name: self.child_name.duplicate(),
            context_fork: self.context_fork.duplicate(),
            depth: self.depth.duplicate(),
            prefix: self.prefix.duplicate(),
            key_b64: self.key_b64.duplicate(),
            hand_secrets_b64: self.hand_secrets_b64.duplicate(),
        }
    }
}

/// Everything durable about a session that is not a record.
#[derive(Debug, Clone, PartialEq, Eq)]
pub struct HeadDoc {
    pub tenant_id: String,
    pub root_id: String,
    pub parent_id: Option<String>,
    pub ancestor_ids: Vec<String>,
    pub child_name: Option<String>,
    pub context_fork: Option<ContextForkDoc>,
    pub depth: u32,
    pub last_seq: u64,
    pub state: SessionLifecycle,
    pub failure: Option<FailureDoc>,
    pub turn: Option<String>,
    pub active_phase: Option<TurnPhase>,
    pub provider_attempt: Option<ProviderAttemptDoc>,
    pub active_context: Vec<(String, String)>,
    pub active_rounds: u64,
    pub active_tool_calls: u64,
    pub message_replays: Vec<MessageReplayDoc>,
    pub context: Option<ContextPointerDoc>,
    pub turns: u64,
    pub created_ms: u64,
    pub updated_ms: u64,
    pub recovery_due_ms: Option<u64>,
    pub recovery_attempt: u32,
    pub create_key_hash: Option<String>,
    pub create_request_hash: Option<String>,
    pub last_message_ms: Option<u64>,
    pub ended: bool,
    pub prefix: PrefixDoc,
    pub key_b64: String,
    pub hand_secrets_b64: String,
    pub session_storage_bytes: u64,
    pub storage_reserved_bytes: u64,
    pub tenant_metered_storage_bytes: u64,
    pub storage_upload: Option<StorageUploadReservationDoc>,
    pub storage_delete: Option<StorageDeleteReservationDoc>,
    pub pending_customer_acks: Vec<CustomerTerminalAckDoc>,
    pub pending_managed_acks: Vec<ManagedTerminalAckDoc>,
    pub default_sandbox: Option<SandboxStatus>,
    pub loop_state: Option<LoopStateDoc>,
}

impl Duplicate for HeadDoc {
    open spec fn copy_of(&self, other: &Self) -> bool {
        self.tenant_id.copy_of(&other.tenant_id)
            && self.root_id.copy_of(&other.root_id)
            && self.parent_id.copy_of(&other.parent_id)
            && self.ancestor_ids.copy_of(&other.ancestor_ids)
            && self.child_name.copy_of(&other.child_name)
            && self.context_fork.copy_of(&other.context_fork)
            && self.depth.copy_of(&other.depth)
            && self.last_seq.copy_of(&other.last_seq)
            && self.state.copy_of(&other.state)
            && self.failure.copy_of(&other.failure)
            && self.turn.copy_of(&other.turn)
            && self.active_phase.copy_of(&other.active_phase)
            && self.provider_attempt.copy_of(&other.provider_attempt)
            && self.active_context.copy_of(&other.active_context)
            && self.active_rounds.copy_of(&other.active_rounds)
            && self.active_tool_calls.copy_of(&other.active_tool_calls)
            && self.message_replays.copy_of(&other.message_replays)
            && self.context.copy_of(&other.context)
            && self.turns.copy_of(&other.turns)
            && self.created_ms.copy_of(&other.created_ms)
            && self.updated_ms.copy_of(&other.updated_ms)
            && self.recovery_due_ms.copy_of(&other.recovery_due_ms)
            && self.recovery_attempt.copy_of(&other.recovery_attempt)
            && self.create_key_hash.copy_of(&other.create_key_hash)
            && self.create_request_hash.copy_of(&other.create_request_hash)
            && self.last_message_ms.copy_of(&other.last_message_ms)
            && self.ended.copy_of(&other.ended)
            && self.prefix.copy_of(&other.prefix)
            && self.key_b64.copy_of(&other.key_b64)
            && self.hand_secrets_b64.copy_of(&other.hand_secrets_b64)
            && self.session_storage_bytes.copy_of(&other.session_storage_bytes)
            && self.storage_reserved_bytes.copy_of(&other.storage_reserved_bytes)
            && self.tenant_metered_storage_bytes.copy_of(&other.tenant_metered_storage_bytes)
            && self.storage_upload.copy_of(&other.storage_upload)
            && self.storage_delete.copy_of(&other.storage_delete)
            && self.pending_customer_acks.copy_of(&other.pending_customer_acks)
            && self.pending_managed_acks.copy_of(&other.pending_managed_acks)
            && self.default_sandbox.copy_of(&other.default_sandbox)
            && self.loop_state.copy_of(&other.loop_state)
    }

    fn duplicate(&self) -> (r: Self) {
        HeadDoc {
            tenant_id: self.tenant_id.duplicate(),
            root_id: self.root_id.duplicate(),
            parent_id: self.parent_id.duplicate(),
            ancestor_ids: self.ancestor_ids.duplicate(),
            child_name: self.child_name.duplicate(),
            context_fork: self.context_fork.duplicate(),
            depth: self.depth.duplicate(),
            last_seq: self.last_seq.duplicate(),
            state: self.state.duplicate(),
            failure: self.failure.duplicate(),
            turn: self.turn.duplicate(),
            active_phase: self.active_phase.duplicate(),
            provider_attempt: self.provider_attempt.duplicate(),
            active_context: self.active_context.duplicate(),
            active_rounds: self.active_rounds.duplicate(),
            active_tool_calls: self.active_tool_calls.duplicate(),
            message_replays: self.message_replays.duplicate(),
            context: self.context.duplicate(),
            turns: self.turns.duplicate(),
            created_ms: self.created_ms.duplicate(),
            updated_ms: self.updated_ms.duplicate(),
            recovery_due_ms: self.recovery_due_ms.duplicate(),
            recovery_attempt: self.recovery_attempt.duplicate(),
            create_key_hash: self.create_key_hash.duplicate(),
            create_request_hash: self.create_request_hash.duplicate(),
            last_message_ms: self.last_message_ms.duplicate(),
            ended: self.ended.duplicate(),
            prefix: self.prefix.duplicate(),
            key_b64: self.key_b64.duplicate(),
            hand_secrets_b64: self.hand_secrets_b64.duplicate(),
            session_storage_bytes: self.session_storage_bytes.duplicate(),
            storage_reserved_bytes: self.storage_reserved_bytes.duplicate(),
            tenant_metered_storage_bytes: self.tenant_metered_storage_bytes.duplicate(),
            storage_upload: self.storage_upload.duplicate(),
            storage_delete: self.storage_delete.duplicate(),
            pending_customer_acks: self.pending_customer_acks.duplicate(),
            pending_managed_acks: self.pending_managed_acks.duplicate(),
            default_sandbox: self.default_sandbox.duplicate(),
            loop_state: self.loop_state.duplicate(),
        }
    }
}

impl HeadDoc {
    /// The mutable control projection of HEAD.
    pub open spec fn control_of(self) -> ControlDoc {
        ControlDoc {
            tenant_id: self.tenant_id,
            last_seq: self.last_seq,
            state: self.state,
            failure: self.failure,
            turn: self.turn,
            active_phase: self.active_phase,
            provider_attempt: self.provider_attempt,
            active_context: self.active_context,
            active_rounds: self.active_rounds,
            active_tool_calls: self.active_tool_calls,
            message_replays: self.message_replays,
            context: self.context,
            turns: self.turns,
            created_ms: self.created_ms,
            updated_ms: self.updated_ms,
            recovery_due_ms: self.recovery_due_ms,
            recovery_attempt: self.recovery_attempt,
            create_key_hash: self.create_key_hash,
            create_request_hash: self.create_request_hash,
            last_message_ms: self.last_message_ms,
            ended: self.ended,
            session_storage_bytes: self.session_storage_bytes,
            storage_reserved_bytes: self.storage_reserved_bytes,
            tenant_metered_storage_bytes: self.tenant_metered_storage_bytes,
            storage_upload: self.storage_upload,
            storage_delete: self.storage_delete,
            pending_customer_acks: self.pending_customer_acks,
            pending_managed_acks: self.pending_managed_acks,
            default_sandbox: self.default_sandbox,
            loop_state: self.loop_state,
        }
    }

    /// The immutable CONFIG projection of HEAD.
    pub open spec fn config_of(self) -> ConfigDoc {
        ConfigDoc {
            root_id: self.root_id,
            parent_id: self.parent_id,
            ancestor_ids: self.ancestor_ids,
            child_name: self.child_name,
            context_fork: self.context_fork,
            depth: self.depth,
            prefix: self.prefix,
            key_b64: self.key_b64,
            hand_secrets_b64: self.hand_secrets_b64,
        }
    }

    /// The HEAD that a control projection and a CONFIG make together.
    pub open spec fn joined(control: ControlDoc, config: ConfigDoc) -> HeadDoc {
        HeadDoc {
            tenant_id: control.tenant_id,
            root_id: config.root_id,
            parent_id: config.parent_id,
            ancestor_ids: config.ancestor_ids,
            child_name: config.child_name,
            context_fork: config.context_fork,
            depth: config.depth,
            last_seq: control.last_seq,
            state: control.state,
            failure: control.failure,
            turn: control.turn,
            active_phase: control.active_phase,
            provider_attempt: control.provider_attempt,
            active_context: control.active_context,
            active_rounds: control.active_rounds,
            active_tool_calls: control.active_tool_calls,
            message_replays: control.message_replays,
            context: control.context,
            turns: control.turns,
            created_ms: control.created_ms,
            updated_ms: control.updated_ms,
            recovery_due_ms: control.recovery_due_ms,
            recovery_attempt: control.recovery_attempt,
            create_key_hash: control.create_key_hash,
            create_request_hash: control.create_request_hash,
            last_message_ms: control.last_message_ms,
            ended: control.ended,
            prefix: config.prefix,
            key_b64: config.key_b64,
            hand_secrets_b64: config.hand_secrets_b64,
            session_storage_bytes: control.session_storage_bytes,
            storage_reserved_bytes: control.storage_reserved_bytes,
            tenant_metered_storage_bytes: control.tenant_metered_storage_bytes,
            storage_upload: control.storage_upload,
            storage_delete: control.storage_delete,
            pending_customer_acks: control.pending_customer_acks,
            pending_managed_acks: control.pending_managed_acks,
            default_sandbox: control.default_sandbox,
            loop_state: control.loop_state,
        }
    }

    /// Copy only the mutable control projection; hot-path commits never copy the sealed
    /// CONFIG payload.
    pub fn control_doc(&self) -> (r: ControlDoc)
        ensures
            r.copy_of(&self.control_of()),
    {
        ControlDoc {
            tenant_id: self.tenant_id.duplicate(),
            last_seq: self.last_seq.duplicate(),
            state: self.state.duplicate(),
            failure: self.failure.duplicate(),
            turn: self.turn.duplicate(),
            active_phase: self.active_phase.duplicate(),
            provider_attempt: self.provider_attempt.duplicate(),
            active_context: self.active_context.duplicate(),
            active_rounds: self.active_rounds.duplicate(),
            active_tool_calls: self.active_tool_calls.duplicate(),
            message_replays: self.message_replays.duplicate(),
            context: self.context.duplicate(),
            turns: self.turns.duplicate(),
            created_ms: self.created_ms.duplicate(),
            updated_ms: self.updated_ms.duplicate(),
            recovery_due_ms: self.recovery_due_ms.duplicate(),
            recovery_attempt: self.recovery_attempt.duplicate(),
            create_key_hash: self.create_key_hash.duplicate(),
            create_request_hash: self.create_request_hash.duplicate(),
            last_message_ms: self.last_message_ms.duplicate(),
            ended: self.ended.duplicate(),
            session_storage_bytes: self.session_storage_bytes.duplicate(),
            storage_reserved_bytes: self.storage_reserved_bytes.duplicate(),
            tenant_metered_storage_bytes: self.tenant_metered_storage_bytes.duplicate(),
            storage_upload: self.storage_upload.duplicate(),
            storage_delete: self.storage_delete.duplicate(),
            pending_customer_acks: self.pending_customer_acks.duplicate(),
            pending_managed_acks: self.pending_managed_acks.duplicate(),
            default_sandbox: self.default_sandbox.duplicate(),
            loop_state: self.loop_state.duplicate(),
        }
    }

    /// Copy the immutable create-time CONFIG projection.
    pub fn config_doc(&self) -> (r: ConfigDoc)
        ensures
            r.copy_of(&self.config_of()),
    {
        ConfigDoc {
            root_id: self.root_id.duplicate(),
            parent_id: self.parent_id.duplicate(),
            ancestor_ids: self.ancestor_ids.duplicate(),
            child_name: self.child_name.duplicate(),
            context_fork: self.context_fork.duplicate(),
            depth: self.depth.duplicate(),
            prefix: self.prefix.duplicate(),
            key_b64: self.key_b64.duplicate(),
            hand_secrets_b64: self.hand_secrets_b64.duplicate(),
        }
    }

    pub fn split(&self) -> (r: (ControlDoc, ConfigDoc))
        ensures
            r.0.copy_of(&self.control_of()),
            r.1.copy_of(&self.config_of()),
    {
        (self.control_doc(), self.config_doc())
    }

    /// Reassemble HEAD from its control projection and CONFIG.
    pub fn join(control: ControlDoc, config: ConfigDoc) -> (r: HeadDoc)
        ensures
            r == HeadDoc::joined(control, config),
    {
        HeadDoc {
            tenant_id: control.tenant_id,
            root_id: config.root_id,
            parent_id: config.parent_id,
            ancestor_ids: config.ancestor_ids,
            child_name: config.child_name,
            context_fork: config.context_fork,
            depth: config.depth,
            last_seq: control.last_seq,
            state: control.state,
            failure: control.failure,
            turn: control.turn,
            active_phase: control.active_phase,
            provider_attempt: control.provider_attempt,
            active_context: control.active_context,
            active_rounds: control.active_rounds,
            active_tool_calls: control.active_tool_calls,
            message_replays: control.message_replays,
            context: control.context,
            turns: control.turns,
            created_ms: control.created_ms,
            updated_ms: control.updated_ms,
            recovery_due_ms: control.recovery_due_ms,
            recovery_attempt: control.recovery_attempt,
            create_key_hash: control.create_key_hash,
            create_request_hash: control.create_request_hash,
            last_message_ms: control.last_message_ms,
            ended: control.ended,
            prefix: config.prefix,
            key_b64: config.key_b64,
            hand_secrets_b64: config.hand_secrets_b64,
            session_storage_bytes: control.session_storage_bytes,
            storage_reserved_bytes: control.storage_reserved_bytes,
            tenant_metered_storage_bytes: control.tenant_metered_storage_bytes,
            storage_upload: control.storage_upload,
            storage_delete: control.storage_delete,
            pending_customer_acks: control.pending_customer_acks,
            pending_managed_acks: control.pending_managed_acks,
            default_sandbox: control.default_sandbox,
            loop_state: control.loop_state,
        }
    }
}

/// How long a lease lives without renewal, and how much longer a steal waits beyond expiry.
pub const LEASE_MS: u64 = 60_000;
pub const STEAL_GRACE_MS: u64 = 5_000;
pub const RECOVERY_BACKOFF_BASE_MS: u64 = 1_000;
pub const RECOVERY_BACKOFF_MAX_MS: u64 = 5 * 60_000;
pub const DELETION_TOMBSTONE_TTL_MS: u64 = 24 * 60 * 60 * 1_000;

pub open spec fn sat_add(a: u64, b: u64) -> u64 {
    if a + b > u64::MAX { u64::MAX } else { (a + b) as u64 }
}

pub open spec fn max_of(a: u64, b: u64) -> u64 {
    if a >= b { a } else { b }
}

pub open spec fn unwrap_or(o: Option<u64>, d: u64) -> u64 {
    match o {
        Some(v) => v,
        None => d,
    }
}

/// Whether a session has work that recovery must keep retrying until it is done.
pub open spec fn has_active_work(doc: HeadDoc) -> bool {
    ||| doc.state == SessionLifecycle::Ending
    ||| doc.state == SessionLifecycle::Deleting
    ||| doc.turn is Some
    ||| doc.active_phase is Some
    ||| doc.storage_delete is Some
    ||| doc.pending_customer_acks@.len() > 0
    ||| doc.pending_managed_acks@.len() > 0
}

/// The durable wake-up anchor for background recovery at `now_ms`.
pub open spec fn recovery_due_spec(doc: HeadDoc, now_ms: u64) -> Option<u64> {
    let lease_safe_due = sat_add(now_ms, (LEASE_MS + STEAL_GRACE_MS) as u64);
    let sandbox_due = match doc.default_sandbox {
        Some(sandbox) => match sandbox.state {
            SandboxState::Creating => Some(max_of(unwrap_or(doc.recovery_due_ms, 0), lease_safe_due)),
            SandboxState::Running | SandboxState::Suspended => sandbox.expires_at_ms,
            _ => None,
        },
        None => None,
    };
    let upload_due = match doc.storage_upload {
        Some(upload) => match upload.state {
            UploadReservationState::Reserved | UploadReservationState::InlineReserved => Some(
                if doc.recovery_attempt == 0 {
                    upload.expires_at_ms
                } else {
                    max_of(unwrap_or(doc.recovery_due_ms, upload.expires_at_ms), upload.expires_at_ms)
                },
            ),
            UploadReservationState::Published => Some(
                max_of(unwrap_or(doc.recovery_due_ms, 0), lease_safe_due),
            ),
            UploadReservationState::Completed => None,
        },
        None => None,
    };
    if has_active_work(doc) {
        Some(max_of(unwrap_or(doc.recovery_due_ms, 0), lease_safe_due))
    } else {
        match (sandbox_due, upload_due) {
            (Some(left), Some(right)) => Some(if left <= right { left } else { right }),
            (Some(left), None) => Some(left),
            (None, right) => right,
        }
    }
}

/// HEAD with its recovery anchor projected at `now_ms`. A quiescent session omits the anchor
/// and its attempt counter resets.
pub open spec fn recovery_projected(doc: HeadDoc, now_ms: u64) -> HeadDoc {
    let due = recovery_due_spec(doc, now_ms);
    HeadDoc {
        recovery_due_ms: due,
        recovery_attempt: if due is None { 0 } else { doc.recovery_attempt },
        ..doc
    }
}

/// The lifecycle HEAD persists when an admitted turn becomes quiescent: an END fence is never
/// reopened, and deletion or terminal states dominate a late turn completion.
pub open spec fn lifecycle_after_turn_spec(doc: HeadDoc) -> SessionLifecycle {
    if doc.ended {
        match doc.state {
            SessionLifecycle::Ended | SessionLifecycle::Deleting | SessionLifecycle::Deleted => doc.state,
            _ => SessionLifecycle::Ending,
        }
    } else {
        SessionLifecycle::Open
    }
}

/// Whether a session still admits children and new turns beneath it.
pub open spec fn admission_open(doc: HeadDoc) -> bool {
    !doc.ended && doc.state == SessionLifecycle::Open
}

/// A root has no parent, depth zero, no ancestors and a root id; a child's ancestor path runs
/// from its root to its direct parent, one entry per level, at most eight deep.
pub open spec fn ancestor_path_valid(doc: HeadDoc) -> bool {
    match doc.parent_id {
        None => doc.depth == 0 && doc.ancestor_ids@.len() == 0 && doc.root_id@.len() > 0,
        Some(parent_id) => {
            &&& doc.depth == doc.ancestor_ids@.len()
            &&& doc.ancestor_ids@.len() > 0
            &&& doc.ancestor_ids@.last()@ == parent_id@
            &&& doc.ancestor_ids@[0]@ == doc.root_id@
            &&& doc.ancestor_ids@.len() <= 8
        },
    }
}

impl HeadDoc {
    pub fn lifecycle_after_turn(&self) -> (r: SessionLifecycle)
        ensures
            r == lifecycle_after_turn_spec(*self),
    {
        if self.ended {
            match self.state {
                SessionLifecycle::Ended | SessionLifecycle::Deleting | SessionLifecycle::Deleted =>
                    self.state,
                _ => SessionLifecycle::Ending,
            }
        } else {
            SessionLifecycle::Open
        }
    }

    /// Return HEAD with a stable due-time recovery anchor. Active turns remain due while their
    /// lease is held; storage upload reservations sleep until their expiry unless staging cleanup
    /// is already pending; quiescent sessions omit the anchor entirely.
    pub fn with_recovery_projection(&self, now_ms: u64) -> (r: HeadDoc)
        ensures
            r.copy_of(&recovery_projected(*self, now_ms)),
    {
        let lease_safe_due = now_ms.saturating_add(LEASE_MS + STEAL_GRACE_MS);
        let prior = match self.recovery_due_ms {
            Some(v) => v,
            None => 0,
        };
        let renewed = if prior >= lease_safe_due { prior } else { lease_safe_due };
        let sandbox_due: Option<u64> = match &self.default_sandbox {
            Some(sandbox) => match sandbox.state {
                SandboxState::Creating => Some(renewed),
                SandboxState::Running | SandboxState::Suspended => sandbox.expires_at_ms,
                _ => None,
            },
            None => None,
        };
        let upload_due: Option<u64> = match &self.storage_upload {
            Some(upload) => match upload.state {
                UploadReservationState::Reserved | UploadReservationState::InlineReserved => Some(
                    if self.recovery_attempt == 0 {
                        upload.expires_at_ms
                    } else {
                        let scheduled = match self.recovery_due_ms {
                            Some(v) => v,
                            None => upload.expires_at_ms,
                        };
                        if scheduled >= upload.expires_at_ms {
                            scheduled
                        } else {
                            upload.expires_at_ms
                        }
                    },
                ),
                UploadReservationState::Published => Some(renewed),
                UploadReservationState::Completed => None,
            },
            None => None,
        };
        let active = match self.state {
            SessionLifecycle::Ending | SessionLifecycle::Deleting => true,
            _ => false,
        } || self.turn.is_some() || self.active_phase.is_some() || self.storage_delete.is_some()
            || self.pending_customer_acks.len() > 0 || self.pending_managed_acks.len() > 0;
        let due = if active {
            Some(renewed)
        } else {
            match (sandbox_due, upload_due) {
                (Some(left), Some(right)) => Some(if left <= right { left } else { right }),
                (Some(left), None) => Some(left),
                (None, right) => right,
            }
        };
        let mut projected = self.duplicate();
        projected.recovery_due_ms = due;
        if due.is_none() {
            projected.recovery_attempt = 0;
        }
        projected
    }
}

/// Whether a session admits new children and turns beneath it: not ended and still open.
pub fn child_admission_open(doc: &HeadDoc) -> (r: bool)
    ensures
        r == admission_open(*doc),
{
    !doc.ended && match doc.state {
        SessionLifecycle::Open => true,
        _ => false,
    }
}

/// A decision that starts a new turn must atomically observe every ancestor fence.
pub fn requires_ancestor_admission(records: &[(u64, crate::records::Record)]) -> (r: bool)
    ensures
        r == exists|i: int| 0 <= i < records@.len() && (#[trigger] records@[i]).1 is TurnStarted,
{
    let mut i: usize = 0;
    while i < records.len()
        invariant
            i <= records@.len(),
            forall|k: int| 0 <= k < i ==> !((#[trigger] records@[k]).1 is TurnStarted),
        decreases records.len() - i,
    {
        if let crate::records::Record::TurnStarted { .. } = &records[i].1 {
            return true;
        }
        i = i + 1;
    }
    false
}

/// Check that a HEAD's root, parent, depth and ancestor path agree.
pub fn validate_ancestor_path(doc: &HeadDoc) -> (r: Result<(), BrainError>)
    ensures
        r is Ok <==> ancestor_path_valid(*doc),
        r matches Err(e) ==> e == BrainError::Invalid(Fault::AncestorPathMismatch),
{
    let ok = match &doc.parent_id {
        None => doc.depth == 0 && doc.ancestor_ids.len() == 0 && !doc.root_id.as_str().is_empty(),
        Some(parent_id) => {
            let n = doc.ancestor_ids.len();
            doc.depth as usize == n && n > 0 && n <= 8 && crate::text::str_eq(
                doc.ancestor_ids[n - 1].as_str(),
                parent_id.as_str(),
            ) && crate::text::str_eq(doc.ancestor_ids[0].as_str(), doc.root_id.as_str())
        },
    };
    if ok {
        Ok(())
    } else {
        Err(BrainError::Invalid(Fault::AncestorPathMismatch))
    }
}

/// Recovery projection law: projecting at the same instant twice changes nothing more than
/// projecting once.
pub proof fn recovery_projection_is_idempotent(doc: HeadDoc, now_ms: u64)
    ensures
        recovery_projected(recovery_projected(doc, now_ms), now_ms) == recovery_projected(doc, now_ms),
{
}

/// Recovery anchor law: a session with active work is due no earlier than a full lease (plus
/// the steal grace) from now, so a crashed owner cannot hide work by holding the lease; a
/// quiescent session with no sandbox or upload to watch has no anchor and a zero attempt count.
pub proof fn recovery_anchor_follows_the_work(doc: HeadDoc, now_ms: u64)
    ensures
        has_active_work(doc) ==> (recovery_projected(doc, now_ms).recovery_due_ms matches Some(due)
            && due >= sat_add(now_ms, (LEASE_MS + STEAL_GRACE_MS) as u64)),
        (!has_active_work(doc) && doc.default_sandbox is None && doc.storage_upload is None) ==> (
        recovery_projected(doc, now_ms).recovery_due_ms is None && recovery_projected(
            doc,
            now_ms,
        ).recovery_attempt == 0),
{
}

/// Bounded denormalized tenant-discovery row: everything a public session list item needs, and
/// no provider key, secret, tool schema or context.
#[derive(Debug, Clone, PartialEq, Eq)]
pub struct SessionSummary {
    pub session_id: String,
    pub tenant_id: String,
    pub root_id: String,
    pub parent_id: Option<String>,
    pub child_name: Option<String>,
    pub context_fork: Option<ContextForkDoc>,
    pub depth: u32,
    pub state: SessionLifecycle,
    pub failure: Option<FailureDoc>,
    pub turn: Option<String>,
    pub active_phase: Option<TurnPhase>,
    pub turns: u64,
    pub last_seq: u64,
    pub created_ms: u64,
    pub updated_ms: u64,
    pub last_message_ms: Option<u64>,
    pub provider: String,
    pub model: String,
    pub context_window_tokens: u32,
    pub shape: String,
    pub base_url: Option<String>,
    pub metadata: Vec<(String, String)>,
    pub session_storage_bytes: u64,
    pub storage_reserved_bytes: u64,
}

impl Duplicate for SessionSummary {
    open spec fn copy_of(&self, other: &Self) -> bool {
        self.session_id.copy_of(&other.session_id)
            && self.tenant_id.copy_of(&other.tenant_id)
            && self.root_id.copy_of(&other.root_id)
            && self.parent_id.copy_of(&other.parent_id)
            && self.child_name.copy_of(&other.child_name)
            && self.context_fork.copy_of(&other.context_fork)
            && self.depth.copy_of(&other.depth)
            && self.state.copy_of(&other.state)
            && self.failure.copy_of(&other.failure)
            && self.turn.copy_of(&other.turn)
            && self.active_phase.copy_of(&other.active_phase)
            && self.turns.copy_of(&other.turns)
            && self.last_seq.copy_of(&other.last_seq)
            && self.created_ms.copy_of(&other.created_ms)
            && self.updated_ms.copy_of(&other.updated_ms)
            && self.last_message_ms.copy_of(&other.last_message_ms)
            && self.provider.copy_of(&other.provider)
            && self.model.copy_of(&other.model)
            && self.context_window_tokens.copy_of(&other.context_window_tokens)
            && self.shape.copy_of(&other.shape)
            && self.base_url.copy_of(&other.base_url)
            && self.metadata.copy_of(&other.metadata)
            && self.session_storage_bytes.copy_of(&other.session_storage_bytes)
            && self.storage_reserved_bytes.copy_of(&other.storage_reserved_bytes)
    }

    fn duplicate(&self) -> (r: Self) {
        SessionSummary {
            session_id: self.session_id.duplicate(),
            tenant_id: self.tenant_id.duplicate(),
            root_id: self.root_id.duplicate(),
            parent_id: self.parent_id.duplicate(),
            child_name: self.child_name.duplicate(),
            context_fork: self.context_fork.duplicate(),
            depth: self.depth.duplicate(),
            state: self.state.duplicate(),
            failure: self.failure.duplicate(),
            turn: self.turn.duplicate(),
            active_phase: self.active_phase.duplicate(),
            turns: self.turns.duplicate(),
            last_seq: self.last_seq.duplicate(),
            created_ms: self.created_ms.duplicate(),
            updated_ms: self.updated_ms.duplicate(),
            last_message_ms: self.last_message_ms.duplicate(),
            provider: self.provider.duplicate(),
            model: self.model.duplicate(),
            context_window_tokens: self.context_window_tokens.duplicate(),
            shape: self.shape.duplicate(),
            base_url: self.base_url.duplicate(),
            metadata: self.metadata.duplicate(),
            session_storage_bytes: self.session_storage_bytes.duplicate(),
            storage_reserved_bytes: self.storage_reserved_bytes.duplicate(),
        }
    }
}

/// The listing row of a session.
pub open spec fn summary_of(session_id: String, doc: HeadDoc) -> SessionSummary {
    SessionSummary {
        session_id: session_id,
        tenant_id: doc.tenant_id,
        root_id: doc.root_id,
        parent_id: doc.parent_id,
        child_name: doc.child_name,
        context_fork: doc.context_fork,
        depth: doc.depth,
        state: doc.state,
        failure: doc.failure,
        turn: doc.turn,
        active_phase: doc.active_phase,
        turns: doc.turns,
        last_seq: doc.last_seq,
        created_ms: doc.created_ms,
        updated_ms: doc.updated_ms,
        last_message_ms: doc.last_message_ms,
        provider: doc.prefix.provider,
        model: doc.prefix.model,
        context_window_tokens: doc.prefix.context_window_tokens,
        shape: doc.prefix.shape,
        base_url: doc.prefix.base_url,
        metadata: doc.prefix.metadata,
        session_storage_bytes: doc.session_storage_bytes,
        storage_reserved_bytes: doc.storage_reserved_bytes,
    }
}

impl SessionSummary {
    pub fn from_head(session_id: &str, doc: &HeadDoc) -> (r: SessionSummary)
        ensures
            r.session_id@ == session_id@,
            r.copy_of(&summary_of(r.session_id, *doc)),
    {
        SessionSummary {
            session_id: session_id.to_owned(),
            tenant_id: doc.tenant_id.duplicate(),
            root_id: doc.root_id.duplicate(),
            parent_id: doc.parent_id.duplicate(),
            child_name: doc.child_name.duplicate(),
            context_fork: doc.context_fork.duplicate(),
            depth: doc.depth.duplicate(),
            state: doc.state.duplicate(),
            failure: doc.failure.duplicate(),
            turn: doc.turn.duplicate(),
            active_phase: doc.active_phase.duplicate(),
            turns: doc.turns.duplicate(),
            last_seq: doc.last_seq.duplicate(),
            created_ms: doc.created_ms.duplicate(),
            updated_ms: doc.updated_ms.duplicate(),
            last_message_ms: doc.last_message_ms.duplicate(),
            provider: doc.prefix.provider.duplicate(),
            model: doc.prefix.model.duplicate(),
            context_window_tokens: doc.prefix.context_window_tokens.duplicate(),
            shape: doc.prefix.shape.duplicate(),
            base_url: doc.prefix.base_url.duplicate(),
            metadata: doc.prefix.metadata.duplicate(),
            session_storage_bytes: doc.session_storage_bytes.duplicate(),
            storage_reserved_bytes: doc.storage_reserved_bytes.duplicate(),
        }
    }
}

/// The claim a hydrating owner holds. Every commit is conditioned on it.
#[derive(Debug, Clone)]
pub struct Lease {
    pub fence: u64,
    pub last_seq: u64,
    pub retention: JournalRetention,
}

#[derive(Debug, Clone)]
pub struct Head {
    pub session_id: String,
    pub doc: HeadDoc,
    pub fence: u64,
    pub last_seq: u64,
    pub retention: JournalRetention,
}

/// Result of the constant-size lifecycle/admission fence. `newly_fenced` identifies the one call
/// that appended the durable State record; idempotent retries return the existing projection.
#[derive(Debug, Clone)]
pub struct EndFence {
    pub head: Head,
    pub newly_fenced: bool,
}

/// A bounded, tenant-scoped session listing. `cursor` is an opaque value returned by the
/// previous page.
#[derive(Debug, Clone)]
pub struct SessionListQuery<'a> {
    pub tenant_id: &'a str,
    pub state: Option<SessionLifecycle>,
    pub limit: usize,
    pub cursor: Option<&'a str>,
}

#[derive(Debug, Clone)]
pub struct SessionPage {
    pub sessions: Vec<SessionSummary>,
    pub next_cursor: Option<String>,
}

/// Strongly-consistent direct-child adjacency query.
pub struct ChildListQuery<'a> {
    pub parent_id: &'a str,
    pub limit: usize,
    pub cursor: Option<&'a str>,
}

#[derive(Debug, Clone)]
pub struct ChildPage {
    pub sessions: Vec<SessionSummary>,
    pub next_cursor: Option<String>,
}

/// Brain-owned logical additional-sandbox inventory row. Terminal entries are tombstones until
/// explicit root purge, so a stale logical id can never materialize a replacement target.
#[derive(Debug, Clone, PartialEq, Eq)]
pub struct SandboxInventoryDoc {
    pub root_id: String,
    pub owner_session_id: String,
    pub sandbox_id: String,
    pub operation_id: String,
    pub request_digest: String,
    pub generation_intent: String,
    pub status: SandboxStatus,
    pub created_at_ms: u64,
    pub updated_at_ms: u64,
    pub version: u64,
    pub slot_released: bool,
}

impl Duplicate for SandboxInventoryDoc {
    open spec fn copy_of(&self, other: &Self) -> bool {
        *self == *other
    }

    fn duplicate(&self) -> (r: SandboxInventoryDoc) {
        SandboxInventoryDoc {
            root_id: self.root_id.duplicate(),
            owner_session_id: self.owner_session_id.duplicate(),
            sandbox_id: self.sandbox_id.duplicate(),
            operation_id: self.operation_id.duplicate(),
            request_digest: self.request_digest.duplicate(),
            generation_intent: self.generation_intent.duplicate(),
            status: self.status.duplicate(),
            created_at_ms: self.created_at_ms,
            updated_at_ms: self.updated_at_ms,
            version: self.version,
            slot_released: self.slot_released,
        }
    }
}

#[derive(Debug, Clone)]
pub struct SandboxReserveRequest {
    pub root_id: String,
    pub owner_session_id: String,
    pub sandbox_id: String,
    pub operation_id: String,
    pub request_digest: String,
    pub generation_intent: String,
    pub initial_status: SandboxStatus,
    pub now_ms: u64,
}

#[derive(Debug, Clone)]
pub struct SandboxUpdateRequest {
    pub root_id: String,
    pub sandbox_id: String,
    pub expected_version: u64,
    pub status: SandboxStatus,
    pub release_slot: bool,
    pub now_ms: u64,
}

pub struct SandboxListQuery<'a> {
    pub root_id: &'a str,
    pub limit: usize,
    pub cursor: Option<&'a str>,
}

#[derive(Debug, Clone)]
pub struct SandboxPage {
    pub sandboxes: Vec<SandboxInventoryDoc>,
    pub next_cursor: Option<String>,
}

/// One bounded row from the sharded due-time recovery index.
#[derive(Debug, Clone, PartialEq, Eq)]
pub struct RecoveryItem {
    pub session_id: String,
    pub due_ms: u64,
    pub state: SessionLifecycle,
    pub active_phase: Option<TurnPhase>,
    pub last_seq: u64,
    pub root_id: String,
    pub parent_id: Option<String>,
    pub updated_ms: u64,
}

impl Duplicate for RecoveryItem {
    open spec fn copy_of(&self, other: &Self) -> bool {
        *self == *other
    }

    fn duplicate(&self) -> (r: RecoveryItem) {
        RecoveryItem {
            session_id: self.session_id.duplicate(),
            due_ms: self.due_ms,
            state: self.state,
            active_phase: self.active_phase,
            last_seq: self.last_seq,
            root_id: self.root_id.duplicate(),
            parent_id: self.parent_id.duplicate(),
            updated_ms: self.updated_ms,
        }
    }
}

pub struct RecoveryQuery<'a> {
    pub shard: &'a str,
    pub due_before_ms: u64,
    pub limit: usize,
    pub cursor: Option<&'a str>,
}

#[derive(Debug, Clone)]
pub struct RecoveryPage {
    pub items: Vec<RecoveryItem>,
    pub next_cursor: Option<String>,
}

/// Bounded non-content deletion job/tombstone stored outside the session partition it deletes.
#[derive(Debug, Clone, PartialEq, Eq)]
pub struct DeletionStatusDoc {
    pub session_id: String,
    pub tenant_id: String,
    pub root_id: String,
    /// Strong parent adjacency retained until final deletion can remove the exact edge.
    pub parent_id: Option<String>,
    /// Exact tenant storage-meter contribution to release at final deletion.
    pub metered_storage_bytes: u64,
    /// Exact journal/identity contribution to release at final deletion.
    pub metered_journal_bytes: u64,
    pub state: DeletionState,
    pub requested_at_ms: u64,
    pub updated_at_ms: u64,
    pub completed_at_ms: Option<u64>,
    pub expires_at_ms: u64,
    pub attempts: u32,
    pub last_error: Option<String>,
}

impl Duplicate for DeletionStatusDoc {
    open spec fn copy_of(&self, other: &Self) -> bool {
        *self == *other
    }

    fn duplicate(&self) -> (r: DeletionStatusDoc) {
        DeletionStatusDoc {
            session_id: self.session_id.duplicate(),
            tenant_id: self.tenant_id.duplicate(),
            root_id: self.root_id.duplicate(),
            parent_id: self.parent_id.duplicate(),
            metered_storage_bytes: self.metered_storage_bytes,
            metered_journal_bytes: self.metered_journal_bytes,
            state: self.state,
            requested_at_ms: self.requested_at_ms,
            updated_at_ms: self.updated_at_ms,
            completed_at_ms: self.completed_at_ms,
            expires_at_ms: self.expires_at_ms,
            attempts: self.attempts,
            last_error: self.last_error.duplicate(),
        }
    }
}

/// Split law: joining a HEAD's control projection with its CONFIG gives back that HEAD, and
/// splitting a joined HEAD gives back the parts it was made of.
pub proof fn split_then_join_is_identity(doc: HeadDoc, control: ControlDoc, config: ConfigDoc)
    ensures
        HeadDoc::joined(doc.control_of(), doc.config_of()) == doc,
        HeadDoc::joined(control, config).control_of() == control,
        HeadDoc::joined(control, config).config_of() == config,
{
}

} // verus!
