//! Whether one atomic journal decision fits every backend before any store is entered, and the
//! constant-size END projection. Serialized sizes are measured by the host in canonical JSON
//! and handed in; what is decided from them is checked here.

use vstd::prelude::*;
use crate::docs::{Duplicate, HeadDoc, Head, recovery_projected};
use crate::error::{BrainError, Fault};
use crate::records::Record;
use crate::retention::{
    MAX_DECISION_ACTIONS, MAX_SERIALIZED_LISTING_BYTES, MAX_SERIALIZED_HEAD_BYTES,
    MAX_SERIALIZED_RECORD_BYTES, MAX_DECISION_SERIALIZED_BYTES, MAX_SERIALIZED_CONFIG_BYTES,
    ESTIMATED_ITEM_ENVELOPE_BYTES,
};
use crate::vocab::SessionLifecycle;

verus! {

/// Canonical JSON sizes of one decision's payloads: the HEAD control projection, the listing
/// row, and each record in order.
pub struct DecisionSizes {
    pub control_bytes: u64,
    pub listing_bytes: u64,
    pub record_bytes: Vec<u64>,
}

/// `a + b`, saturating at `u64::MAX`.
pub open spec fn sat(a: int, b: int) -> int {
    if a + b > u64::MAX { u64::MAX as int } else { a + b }
}

/// The running decision total after the records, or the size of the first record over its
/// ceiling.
pub open spec fn record_scan(head_total: int, records: Seq<u64>) -> Result<int, (int, u64)>
    decreases records.len(),
{
    if records.len() == 0 {
        Ok(head_total)
    } else {
        match record_scan(head_total, records.drop_last()) {
            Err(b) => Err(b),
            Ok(total) => if records.last() > MAX_SERIALIZED_RECORD_BYTES {
                Err((records.len() - 1, records.last()))
            } else {
                Ok(sat(sat(total, records.last() as int), ESTIMATED_ITEM_ENVELOPE_BYTES as int))
            },
        }
    }
}

/// Why a decision of `records` records with these sizes does not fit, checked in order: the
/// action count, the listing row, the HEAD payload, each record, the whole decision.
pub open spec fn decision_fault(records: int, control: u64, listing: u64, record_bytes: Seq<u64>) -> Option<Fault> {
    let actions = records + 1;
    let head = sat(control as int, listing as int);
    if actions > MAX_DECISION_ACTIONS {
        Some(Fault::TooManyActions { actions: if actions > usize::MAX { usize::MAX } else { actions as usize } })
    } else if listing > MAX_SERIALIZED_LISTING_BYTES {
        Some(Fault::ListingTooLarge { bytes: listing })
    } else if head > MAX_SERIALIZED_HEAD_BYTES {
        Some(Fault::HeadTooLarge { bytes: head as u64 })
    } else {
        match record_scan(sat(head, ESTIMATED_ITEM_ENVELOPE_BYTES as int), record_bytes) {
            Err((record, bytes)) => Some(Fault::RecordTooLarge { record: record as usize, bytes }),
            Ok(total) => if total > MAX_DECISION_SERIALIZED_BYTES {
                Some(Fault::DecisionTooLarge { bytes: total as u64 })
            } else {
                None
            },
        }
    }
}

/// Validate one atomic append of `records` (sized by `sizes`) and its HEAD update before any
/// store adapter is entered, so that an oversized decision fails in the state machine rather
/// than in a cloud limit.
pub fn validate_decision(records: &[(u64, Record)], sizes: &DecisionSizes) -> (r: Result<(), BrainError>)
    requires
        sizes.record_bytes@.len() == records@.len(),
    ensures
        match decision_fault(records@.len() as int, sizes.control_bytes, sizes.listing_bytes, sizes.record_bytes@) {
            None => r is Ok,
            Some(f) => r == Err::<(), BrainError>(BrainError::Invalid(f)),
        },
{
    if records.len() >= MAX_DECISION_ACTIONS {
        return Err(BrainError::Invalid(Fault::TooManyActions { actions: records.len().saturating_add(1) }));
    }
    if sizes.listing_bytes > MAX_SERIALIZED_LISTING_BYTES as u64 {
        return Err(BrainError::Invalid(Fault::ListingTooLarge { bytes: sizes.listing_bytes }));
    }
    let head = sizes.control_bytes.saturating_add(sizes.listing_bytes);
    if head > MAX_SERIALIZED_HEAD_BYTES as u64 {
        return Err(BrainError::Invalid(Fault::HeadTooLarge { bytes: head }));
    }
    let ghost start = sat(head as int, ESTIMATED_ITEM_ENVELOPE_BYTES as int);
    let mut total: u64 = head.saturating_add(ESTIMATED_ITEM_ENVELOPE_BYTES as u64);
    let mut i: usize = 0;
    while i < sizes.record_bytes.len()
        invariant
            i <= sizes.record_bytes@.len(),
            sizes.record_bytes@.len() == records@.len(),
            records@.len() + 1 <= MAX_DECISION_ACTIONS,
            sizes.listing_bytes <= MAX_SERIALIZED_LISTING_BYTES,
            head == sat(sizes.control_bytes as int, sizes.listing_bytes as int),
            head <= MAX_SERIALIZED_HEAD_BYTES,
            start == sat(head as int, ESTIMATED_ITEM_ENVELOPE_BYTES as int),
            record_scan(start, sizes.record_bytes@.take(i as int)) == Ok::<int, (int, u64)>(total as int),
        decreases sizes.record_bytes.len() - i,
    {
        let bytes = sizes.record_bytes[i];
        proof {
            assert(sizes.record_bytes@.take(i as int + 1).drop_last() =~= sizes.record_bytes@.take(i as int));
        }
        if bytes > MAX_SERIALIZED_RECORD_BYTES as u64 {
            proof {
                let pre = sizes.record_bytes@.take(i as int + 1);
                assert(pre.last() == bytes);
                lemma_scan_stops(start, sizes.record_bytes@, i as int + 1);
            }
            return Err(BrainError::Invalid(Fault::RecordTooLarge { record: i, bytes }));
        }
        total = total.saturating_add(bytes).saturating_add(ESTIMATED_ITEM_ENVELOPE_BYTES as u64);
        i = i + 1;
    }
    proof {
        assert(sizes.record_bytes@.take(i as int) =~= sizes.record_bytes@);
    }
    if total > MAX_DECISION_SERIALIZED_BYTES as u64 {
        return Err(BrainError::Invalid(Fault::DecisionTooLarge { bytes: total }));
    }
    Ok(())
}

/// Once a record is over its ceiling the scan reports it, whatever follows.
proof fn lemma_scan_stops(start: int, records: Seq<u64>, n: int)
    requires
        1 <= n <= records.len(),
        record_scan(start, records.take(n - 1)) is Ok,
        records[n - 1] > MAX_SERIALIZED_RECORD_BYTES,
    ensures
        record_scan(start, records) == Err::<int, (int, u64)>((n - 1, records[n - 1])),
    decreases records.len() - n,
{
    if n == records.len() {
        assert(records.take(n) =~= records);
        assert(records.take(n).drop_last() =~= records.take(n - 1));
    } else {
        assert(records.drop_last().take(n - 1) =~= records.take(n - 1));
        lemma_scan_stops(start, records.drop_last(), n);
        assert(records.drop_last().take(n) =~= records.take(n));
    }
}

/// The sealed CONFIG payload obeys the same neutral ceiling as HEAD.
pub fn validate_config_doc(config_bytes: u64) -> (r: Result<(), BrainError>)
    ensures
        r is Ok <==> config_bytes <= MAX_SERIALIZED_CONFIG_BYTES,
        r matches Err(e) ==> e == BrainError::Invalid(Fault::ConfigTooLarge { bytes: config_bytes }),
{
    if config_bytes > MAX_SERIALIZED_CONFIG_BYTES as u64 {
        return Err(BrainError::Invalid(Fault::ConfigTooLarge { bytes: config_bytes }));
    }
    Ok(())
}

/// Whether a lifecycle state already closes admission, so that no END fence is appended again.
pub open spec fn end_fenced(state: SessionLifecycle) -> bool {
    state == SessionLifecycle::Ending || state == SessionLifecycle::Ended || state == SessionLifecycle::Deleting
        || state == SessionLifecycle::Deleted
}

/// HEAD after the END fence at `now_ms`, for a HEAD whose next sequence is `sequence`.
pub open spec fn end_fenced_doc(doc: HeadDoc, sequence: u64, now_ms: u64) -> HeadDoc {
    recovery_projected(
        HeadDoc {
            ended: true,
            state: SessionLifecycle::Ending,
            updated_ms: now_ms,
            last_seq: sequence,
            recovery_attempt: 0,
            ..doc
        },
        now_ms,
    )
}

/// Build the one-record, constant-size END projection from a HEAD snapshot: `None` when the
/// session is already ending or gone, else the fenced HEAD, the next sequence and the
/// lifecycle `State` record. `sizes` are the canonical sizes of that projection.
pub fn project_end_fence(head: &Head, now_ms: u64, sizes: &DecisionSizes) -> (r: Result<
    Option<(HeadDoc, u64, Record)>,
    BrainError,
>)
    requires
        sizes.record_bytes@.len() == 1,
    ensures
        end_fenced(head.doc.state) ==> r == Ok::<Option<(HeadDoc, u64, Record)>, BrainError>(None),
        !end_fenced(head.doc.state) && head.last_seq == u64::MAX ==> r == Err::<Option<(HeadDoc, u64, Record)>, BrainError>(
            BrainError::Journal(Fault::SequenceExhausted),
        ),
        !end_fenced(head.doc.state) && head.last_seq < u64::MAX ==> match decision_fault(1, sizes.control_bytes, sizes.listing_bytes, sizes.record_bytes@) {
            Some(f) => r == Err::<Option<(HeadDoc, u64, Record)>, BrainError>(BrainError::Invalid(f)),
            None => r matches Ok(Some((doc, sequence, record))) && sequence == head.last_seq + 1
                && doc.copy_of(&end_fenced_doc(head.doc, sequence, now_ms))
                && (record matches Record::State { state, turn } && state == SessionLifecycle::Ending
                    && turn.copy_of(&doc.turn)),
        },
{
    match head.doc.state {
        SessionLifecycle::Ending | SessionLifecycle::Ended | SessionLifecycle::Deleting | SessionLifecycle::Deleted => {
            return Ok(None);
        },
        _ => {},
    }
    if head.last_seq == u64::MAX {
        return Err(BrainError::Journal(Fault::SequenceExhausted));
    }
    let sequence = head.last_seq + 1;
    let mut doc = head.doc.duplicate();
    doc.ended = true;
    doc.state = SessionLifecycle::Ending;
    doc.updated_ms = now_ms;
    doc.last_seq = sequence;
    doc.recovery_attempt = 0;
    let doc = doc.with_recovery_projection(now_ms);
    let record = Record::State { state: SessionLifecycle::Ending, turn: doc.turn.duplicate() };
    let mut records: Vec<(u64, Record)> = Vec::new();
    records.push((sequence, record));
    match validate_decision(records.as_slice(), sizes) {
        Ok(()) => {},
        Err(e) => return Err(e),
    }
    match records.pop() {
        Some((sequence, record)) => Ok(Some((doc, sequence, record))),
        None => Err(BrainError::Journal(Fault::SequenceExhausted)),
    }
}

} // verus!
