//! The budgets a session runs under. Each has a default and none is a fact about the machine:
//! the host that starts the library sets them. Zero on any ceiling means no bound, except the
//! live backlog, which must be at least one.

use vstd::prelude::*;
use core::time::Duration;

verus! {

/// Why a configuration with no live backlog is refused.
pub const LIVE_BACKLOG_MESSAGE: &'static str = "BRAIN_MAX_LIVE_BACKLOG must be at least 1";

/// The session budgets.
#[derive(Clone, Debug)]
pub struct Limits {
    /// Model calls one turn may make before the next fails.
    pub max_model_calls: usize,
    /// Seconds one turn may run before it is cancelled.
    pub max_turn_secs: u64,
    /// Seconds one Tool call may run before the session records a timeout.
    pub max_tool_secs: u64,
    /// Bytes of extension events one turn may emit, kinds and payloads together.
    pub max_emitted_bytes: usize,
    /// Bytes of assistant content one model call may return.
    pub max_model_output_bytes: usize,
    /// Bytes one streamed model delta may carry.
    pub max_model_delta_bytes: usize,
    /// Bytes one model response stream may carry in total.
    pub max_model_stream_bytes: usize,
    /// Bytes one server-sent event frame from a model provider may carry.
    pub max_model_frame_bytes: usize,
    /// Bytes of a provider error body kept for the failure record.
    pub max_model_error_bytes: usize,
    /// Seconds one model call may take, connection to last byte.
    pub max_model_secs: u64,
    /// Seconds connecting to a model provider may take.
    pub max_model_connect_secs: u64,
    /// Bytes the journal writer may hold queued across every session before appends wait.
    pub max_journal_queue_bytes: u64,
    /// Bytes the journal writer may hold queued for one session before its appends wait.
    pub max_session_queue_bytes: u64,
    /// Journal segment files the writer keeps open at once.
    pub max_journal_open_files: usize,
    /// Records a live subscriber may fall behind before it loses them; at least one.
    pub max_live_backlog: usize,
}

impl Default for Limits {
    fn default() -> (r: Limits)
        ensures
            r.max_model_calls == 128,
            r.max_turn_secs == 30 * 60,
            r.max_tool_secs == 120,
            r.max_emitted_bytes == 1024 * 1024,
            r.max_model_output_bytes == 4 * 1024 * 1024,
            r.max_model_delta_bytes == 64 * 1024,
            r.max_model_stream_bytes == 32 * 1024 * 1024,
            r.max_model_frame_bytes == 256 * 1024,
            r.max_model_error_bytes == 16 * 1024,
            r.max_model_secs == 120,
            r.max_model_connect_secs == 10,
            r.max_journal_queue_bytes == 64 * 1024 * 1024,
            r.max_session_queue_bytes == 8 * 1024 * 1024,
            r.max_journal_open_files == 256,
            r.max_live_backlog == 1024,
    {
        Limits {
            max_model_calls: 128,
            // A turn is minutes of tool work at most, not hours.
            max_turn_secs: 30 * 60,
            // Long enough for real tool work, short enough that a hung environment cannot pin
            // a turn forever.
            max_tool_secs: 120,
            max_emitted_bytes: 1024 * 1024,
            // A 64k-token answer is about 256 KiB of text; this leaves room for several times
            // that before a long answer fails the turn.
            max_model_output_bytes: 4 * 1024 * 1024,
            max_model_delta_bytes: 64 * 1024,
            max_model_stream_bytes: 32 * 1024 * 1024,
            max_model_frame_bytes: 256 * 1024,
            max_model_error_bytes: 16 * 1024,
            max_model_secs: 120,
            max_model_connect_secs: 10,
            max_journal_queue_bytes: 64 * 1024 * 1024,
            max_session_queue_bytes: 8 * 1024 * 1024,
            max_journal_open_files: 256,
            max_live_backlog: 1024,
        }
    }
}

/// The `Duration` of a whole number of seconds.
pub uninterp spec fn duration_of_secs(secs: u64) -> Duration;

/// `core::time::Duration::from_secs`: the duration of `secs` whole seconds, a function of
/// `secs` alone.
#[verifier::external_body]
fn duration_from_secs(secs: u64) -> (r: Duration)
    ensures
        r == duration_of_secs(secs),
{
    Duration::from_secs(secs)
}

/// A bound in seconds as a duration, zero meaning no bound.
pub open spec fn secs_spec(value: u64) -> Option<Duration> {
    if value != 0 { Some(duration_of_secs(value)) } else { None }
}

fn secs(value: u64) -> (r: Option<Duration>)
    ensures
        r == secs_spec(value),
{
    if value != 0 { Some(duration_from_secs(value)) } else { None }
}

/// The Tool deadline for a bound of `secs` seconds: its milliseconds as a `u64` (the low 64 bits
/// of the count), or, with no bound, a deadline far enough away that no dispatch reaches it.
pub open spec fn tool_deadline_spec(secs: u64) -> u64 {
    if secs == 0 { (u64::MAX / 4) as u64 } else { ((secs as int * 1000) % 0x1_0000_0000_0000_0000) as u64 }
}

impl Limits {
    /// How long a turn may run, or `None` for no bound.
    pub fn max_turn(&self) -> (r: Option<Duration>)
        ensures
            r == secs_spec(self.max_turn_secs),
    {
        secs(self.max_turn_secs)
    }

    /// The deadline handed to every Tool call, in milliseconds.
    pub fn tool_deadline_ms(&self) -> (r: u64)
        ensures
            r == tool_deadline_spec(self.max_tool_secs),
    {
        if self.max_tool_secs == 0 {
            u64::MAX / 4
        } else {
            let millis: u128 = self.max_tool_secs as u128 * 1000;
            let low: u128 = millis % 0x1_0000_0000_0000_0000u128;
            low as u64
        }
    }

    /// How long one model call may take, or `None` for no bound.
    pub fn max_model(&self) -> (r: Option<Duration>)
        ensures
            r == secs_spec(self.max_model_secs),
    {
        secs(self.max_model_secs)
    }

    /// How long connecting to a model provider may take, or `None` for no bound.
    pub fn max_model_connect(&self) -> (r: Option<Duration>)
        ensures
            r == secs_spec(self.max_model_connect_secs),
    {
        secs(self.max_model_connect_secs)
    }

    /// The live backlog is a preallocated channel and cannot be unbounded.
    pub fn validate(&self) -> (r: Result<(), String>)
        ensures
            r is Ok <==> self.max_live_backlog >= 1,
            r matches Err(m) ==> m@ == LIVE_BACKLOG_MESSAGE@,
    {
        if self.max_live_backlog == 0 {
            return Err(LIVE_BACKLOG_MESSAGE.to_owned());
        }
        Ok(())
    }
}

/// A byte or count ceiling as the code compares against it: zero means no bound.
pub fn ceiling(value: usize) -> (r: usize)
    ensures
        r == (if value == 0 { usize::MAX } else { value }),
{
    if value == 0 { usize::MAX } else { value }
}

/// `ceiling` for the journal's byte counts.
pub fn ceiling_u64(value: u64) -> (r: u64)
    ensures
        r == (if value == 0 { u64::MAX } else { value }),
{
    if value == 0 { u64::MAX } else { value }
}

} // verus!
