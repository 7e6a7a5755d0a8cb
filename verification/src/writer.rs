//! The admission and batching decisions of the journal writer: a bounded queue of pending
//! appends, metered in bytes per owner and in total, from which the one writer thread takes
//! synchronous work ahead of background work. The thread, the files and the waiting live with
//! the host; every decision they act on is made here.

use vstd::prelude::*;
use crate::error::{BrainError, Fault};
use crate::keyed::{as_map, unique_keys, meter, meter_value, upsert, remove_key};

verus! {

/// Bytes one owner may hold queued before its appends wait (a lone request is always admitted).
pub const OWNER_QUEUE_BYTES: u64 = 8 * 1024 * 1024;
/// Bytes the queue may hold across every owner before appends wait.
pub const MAX_QUEUED_BYTES: u64 = 64 * 1024 * 1024;
/// Requests the writer takes in one batch.
pub const MAX_BATCH_REQUESTS: usize = 128;

/// One queued request: an append metered against its owner, or a barrier.
#[derive(Debug)]
pub struct Pending {
    pub ticket: u64,
    pub write: Option<(String, u64)>,
}

/// The writer's queue state.
pub struct WriteQueue {
    pub synchronous: Vec<Pending>,
    pub asynchronous: Vec<Pending>,
    pub total: u64,
    pub per_owner: Vec<(String, u64)>,
    pub failure: Option<String>,
    pub closed: bool,
}

/// Whether `bytes` more fit for an owner holding `owned` in a queue holding `total`.
pub open spec fn fits(owned: u64, total: u64, bytes: u64) -> bool {
    (owned == 0 || owned + bytes <= OWNER_QUEUE_BYTES) && (total == 0 || total + bytes <= MAX_QUEUED_BYTES)
}

/// The meters after `owner`'s `bytes` are admitted.
pub open spec fn admitted(total: u64, owners: Map<Seq<char>, u64>, owner: Seq<char>, bytes: u64) -> (u64, Map<Seq<char>, u64>) {
    let owned = if owners.contains_key(owner) { owners[owner] } else { 0 };
    ((total + bytes) as u64, owners.insert(owner, (owned + bytes) as u64))
}

/// `a - b`, saturating at zero.
pub open spec fn sat_sub(a: u64, b: u64) -> u64 {
    if a >= b { (a - b) as u64 } else { 0 }
}

/// The meters after one drained `(owner, bytes)` is released: both saturate at zero and an
/// owner left with nothing is forgotten.
pub open spec fn released_one(total: u64, owners: Map<Seq<char>, u64>, owner: Seq<char>, bytes: u64) -> (u64, Map<Seq<char>, u64>) {
    let remaining = if owners.contains_key(owner) { sat_sub(owners[owner], bytes) } else { 0 };
    (sat_sub(total, bytes), if remaining == 0 { owners.remove(owner) } else { owners.insert(owner, remaining) })
}

/// The meters after the first `n` drained entries are released in order.
pub open spec fn released(total: u64, owners: Map<Seq<char>, u64>, drained: Seq<(String, u64)>, n: int) -> (u64, Map<Seq<char>, u64>)
    decreases n,
{
    if n <= 0 {
        (total, owners)
    } else {
        let (t, m) = released(total, owners, drained, n - 1);
        released_one(t, m, drained[n - 1].0@, drained[n - 1].1)
    }
}

/// What the writer takes next: up to `MAX_BATCH_REQUESTS` from the front of `queue`.
pub open spec fn batch_size(len: nat) -> int {
    if len < MAX_BATCH_REQUESTS { len as int } else { MAX_BATCH_REQUESTS as int }
}

impl WriteQueue {
    pub open spec fn wf(&self) -> bool {
        unique_keys(self.per_owner@)
    }

    /// The bytes each owner holds queued.
    pub open spec fn owners(&self) -> Map<Seq<char>, u64> {
        as_map(self.per_owner@)
    }

    /// An empty, open queue.
    pub fn new() -> (q: WriteQueue)
        ensures
            q.wf(),
            q.synchronous@.len() == 0 && q.asynchronous@.len() == 0,
            q.total == 0,
            q.owners() == Map::<Seq<char>, u64>::empty(),
            q.failure is None && !q.closed,
    {
        let q = WriteQueue {
            synchronous: Vec::new(),
            asynchronous: Vec::new(),
            total: 0,
            per_owner: Vec::new(),
            failure: None,
            closed: false,
        };
        assert(q.owners() =~= Map::<Seq<char>, u64>::empty());
        q
    }

    /// The bytes queued across every owner.
    pub fn queued_bytes(&self) -> (r: u64)
        ensures
            r == self.total,
    {
        self.total
    }

    /// Try to admit `bytes` for `owner`. `Ok(true)` reserves them; `Ok(false)` means the caller
    /// waits for room and asks again; a failed or shut-down writer refuses.
    pub fn reserve(&mut self, owner: &str, bytes: u64) -> (r: Result<bool, BrainError>)
        requires
            old(self).wf(),
        ensures
            final(self).wf(),
            final(self).synchronous == old(self).synchronous,
            final(self).asynchronous == old(self).asynchronous,
            final(self).failure == old(self).failure,
            final(self).closed == old(self).closed,
            old(self).failure is Some ==> r == Err::<bool, BrainError>(BrainError::Journal(Fault::WriterFailed))
                && *final(self) == *old(self),
            old(self).failure is None && old(self).closed ==> r == Err::<bool, BrainError>(BrainError::Journal(Fault::WriterShutDown))
                && *final(self) == *old(self),
            old(self).failure is None && !old(self).closed ==> ({
                let owned = meter(old(self).per_owner@, owner@);
                if fits(owned, old(self).total, bytes) {
                    &&& r == Ok::<bool, BrainError>(true)
                    &&& (final(self).total, final(self).owners()) == admitted(old(self).total, old(self).owners(), owner@, bytes)
                } else {
                    r == Ok::<bool, BrainError>(false) && *final(self) == *old(self)
                }
            }),
    {
        if self.failure.is_some() {
            return Err(BrainError::Journal(Fault::WriterFailed));
        }
        if self.closed {
            return Err(BrainError::Journal(Fault::WriterShutDown));
        }
        let owned = meter_value(&self.per_owner, owner);
        let owner_fits = owned == 0 || (owned as u128 + bytes as u128) <= OWNER_QUEUE_BYTES as u128;
        let total_fits = self.total == 0 || (self.total as u128 + bytes as u128) <= MAX_QUEUED_BYTES as u128;
        if owner_fits && total_fits {
            self.total = self.total + bytes;
            upsert(&mut self.per_owner, owner.to_owned(), owned + bytes);
            Ok(true)
        } else {
            Ok(false)
        }
    }

    /// Queue an admitted request, synchronous work on its own lane.
    pub fn enqueue(&mut self, pending: Pending, synchronous: bool) -> (r: Result<(), BrainError>)
        requires
            old(self).wf(),
        ensures
            final(self).wf(),
            final(self).total == old(self).total,
            final(self).per_owner == old(self).per_owner,
            final(self).failure == old(self).failure,
            final(self).closed == old(self).closed,
            old(self).failure is Some ==> r == Err::<(), BrainError>(BrainError::Journal(Fault::WriterFailed))
                && *final(self) == *old(self),
            old(self).failure is None && old(self).closed ==> r == Err::<(), BrainError>(BrainError::Journal(Fault::WriterShutDown))
                && *final(self) == *old(self),
            old(self).failure is None && !old(self).closed ==> r is Ok && if synchronous {
                final(self).synchronous@ == old(self).synchronous@.push(pending) && final(self).asynchronous == old(self).asynchronous
            } else {
                final(self).asynchronous@ == old(self).asynchronous@.push(pending) && final(self).synchronous == old(self).synchronous
            },
    {
        if self.failure.is_some() {
            return Err(BrainError::Journal(Fault::WriterFailed));
        }
        if self.closed {
            return Err(BrainError::Journal(Fault::WriterShutDown));
        }
        if synchronous {
            self.synchronous.push(pending);
        } else {
            self.asynchronous.push(pending);
        }
        Ok(())
    }

    /// Stop admitting; the writer drains what is queued and then stops.
    pub fn close(&mut self)
        ensures
            *final(self) == (WriteQueue { closed: true, ..*old(self) }),
    {
        self.closed = true;
    }

    /// Take the next batch: synchronous work first, at most `MAX_BATCH_REQUESTS` requests in
    /// queue order. `None` when nothing is queued.
    pub fn take_batch(&mut self) -> (r: Option<Vec<Pending>>)
        requires
            old(self).wf(),
        ensures
            final(self).wf(),
            final(self).total == old(self).total,
            final(self).per_owner == old(self).per_owner,
            final(self).failure == old(self).failure,
            final(self).closed == old(self).closed,
            old(self).synchronous@.len() == 0 && old(self).asynchronous@.len() == 0 ==> r is None && *final(self) == *old(self),
            old(self).synchronous@.len() > 0 ==> ({
                let n = batch_size(old(self).synchronous@.len());
                &&& r matches Some(batch) && batch@ == old(self).synchronous@.take(n)
                &&& final(self).synchronous@ == old(self).synchronous@.skip(n)
                &&& final(self).asynchronous == old(self).asynchronous
            }),
            old(self).synchronous@.len() == 0 && old(self).asynchronous@.len() > 0 ==> ({
                let n = batch_size(old(self).asynchronous@.len());
                &&& r matches Some(batch) && batch@ == old(self).asynchronous@.take(n)
                &&& final(self).asynchronous@ == old(self).asynchronous@.skip(n)
                &&& final(self).synchronous == old(self).synchronous
            }),
    {
        if self.synchronous.len() == 0 && self.asynchronous.len() == 0 {
            return None;
        }
        if self.synchronous.len() > 0 {
            let batch = take_front(&mut self.synchronous);
            Some(batch)
        } else {
            let batch = take_front(&mut self.asynchronous);
            Some(batch)
        }
    }

    /// Release the meters of a finished batch's writes, in order, recording the first failure.
    pub fn release(&mut self, drained: &[(String, u64)], failure: Option<String>)
        requires
            old(self).wf(),
        ensures
            final(self).wf(),
            final(self).synchronous == old(self).synchronous,
            final(self).asynchronous == old(self).asynchronous,
            final(self).closed == old(self).closed,
            final(self).failure == (if old(self).failure is Some { old(self).failure } else { failure }),
            (final(self).total, final(self).owners()) == released(old(self).total, old(self).owners(), drained@, drained@.len() as int),
    {
        if self.failure.is_none() {
            self.failure = failure;
        }
        let mut i: usize = 0;
        while i < drained.len()
            invariant
                self.wf(),
                i <= drained@.len(),
                self.synchronous == old(self).synchronous,
                self.asynchronous == old(self).asynchronous,
                self.closed == old(self).closed,
                self.failure == (if old(self).failure is Some { old(self).failure } else { failure }),
                (self.total, self.owners()) == released(old(self).total, old(self).owners(), drained@, i as int),
            decreases drained.len() - i,
        {
            let owner = drained[i].0.as_str();
            let bytes = drained[i].1;
            self.total = self.total.saturating_sub(bytes);
            let owned = meter_value(&self.per_owner, owner);
            let remaining = owned.saturating_sub(bytes);
            if remaining == 0 {
                remove_key(&mut self.per_owner, owner);
            } else {
                upsert(&mut self.per_owner, owner.to_owned(), remaining);
            }
            i = i + 1;
        }
    }

    /// After a failed batch: record the failure (the first one stays) and hand back every
    /// request still queued, synchronous first, so that each can be answered with it.
    pub fn fail_pending(&mut self, error: String) -> (pending: Vec<Pending>)
        requires
            old(self).wf(),
        ensures
            final(self).wf(),
            final(self).failure == (if old(self).failure is Some { old(self).failure } else { Some(error) }),
            pending@ == old(self).synchronous@ + old(self).asynchronous@,
            final(self).synchronous@.len() == 0 && final(self).asynchronous@.len() == 0,
            final(self).total == old(self).total,
            final(self).per_owner == old(self).per_owner,
            final(self).closed == old(self).closed,
    {
        if self.failure.is_none() {
            self.failure = Some(error);
        }
        let mut pending: Vec<Pending> = Vec::new();
        pending.append(&mut self.synchronous);
        pending.append(&mut self.asynchronous);
        pending
    }
}

/// Take up to `MAX_BATCH_REQUESTS` requests from the front of a lane.
fn take_front(lane: &mut Vec<Pending>) -> (batch: Vec<Pending>)
    ensures
        batch@ == old(lane)@.take(batch_size(old(lane)@.len())),
        final(lane)@ == old(lane)@.skip(batch_size(old(lane)@.len())),
{
    let n: usize = if lane.len() < MAX_BATCH_REQUESTS { lane.len() } else { MAX_BATCH_REQUESTS };
    let mut batch = lane.split_off(n);
    core::mem::swap(lane, &mut batch);
    batch
}

/// Queue law: admitting an owner's bytes and releasing the same bytes afterwards leaves both
/// meters as they were, for an owner that held nothing or held a positive amount.
pub proof fn admission_then_release_restores(total: u64, owners: Map<Seq<char>, u64>, owner: Seq<char>, bytes: u64)
    requires
        fits(if owners.contains_key(owner) { owners[owner] } else { 0 }, total, bytes),
        owners.contains_key(owner) ==> owners[owner] > 0,
        owners.contains_key(owner) || bytes > 0,
        total + bytes <= u64::MAX,
        (if owners.contains_key(owner) { owners[owner] } else { 0 }) + bytes <= u64::MAX,
    ensures
        ({
            let (t, m) = admitted(total, owners, owner, bytes);
            released_one(t, m, owner, bytes)
        }) == (total, owners),
{
    let (t, m) = admitted(total, owners, owner, bytes);
    if owners.contains_key(owner) {
        assert(m.insert(owner, owners[owner]) =~= owners);
    } else {
        assert(m.remove(owner) =~= owners);
    }
}

/// Batching law: a batch never mixes lanes, never exceeds `MAX_BATCH_REQUESTS`, and together
/// with what stays queued it is exactly the lane it was taken from, in order.
pub proof fn batches_keep_queue_order(lane: Seq<Pending>)
    ensures
        lane.take(batch_size(lane.len())) + lane.skip(batch_size(lane.len())) == lane,
        lane.take(batch_size(lane.len())).len() <= MAX_BATCH_REQUESTS,
        lane.len() > 0 ==> lane.take(batch_size(lane.len())).len() > 0,
{
    assert(lane.take(batch_size(lane.len())) + lane.skip(batch_size(lane.len())) =~= lane);
}

} // verus!
