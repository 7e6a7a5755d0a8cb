//! The consistency check of a relational journal at open: every stored record is of the
//! current schema, carries a matching checksum and continues its session's sequence densely
//! from one, and every session row's position is where its journal ends. The host reads the
//! rows (in session, then sequence order) and computes each record's expected checksum; the
//! decisions are made here.

use vstd::prelude::*;
use crate::error::{BrainError, Fault};
use crate::keyed::{as_map, unique_keys, find, upsert, lemma_entry};

verus! {

/// The schema version records are written under.
pub const JOURNAL_SCHEMA_VERSION: u32 = 2;

/// One stored record as the check reads it.
pub struct JournalRow {
    pub session_id: String,
    pub sequence: u64,
    pub schema_version: u32,
    /// The checksum recomputed from the record's contents.
    pub expected_checksum: String,
    /// The checksum stored beside the record.
    pub stored_checksum: String,
}

/// Scanning the rows in order: each session's last sequence, or the first fault.
pub open spec fn scan_rows(rows: Seq<JournalRow>) -> Result<Map<Seq<char>, u64>, Fault>
    decreases rows.len(),
{
    if rows.len() == 0 {
        Ok(Map::empty())
    } else {
        match scan_rows(rows.drop_last()) {
            Err(f) => Err(f),
            Ok(positions) => {
                let row = rows.last();
                let id = row.session_id@;
                let previous: int = if positions.contains_key(id) { positions[id] as int } else { 0 };
                if row.schema_version != JOURNAL_SCHEMA_VERSION {
                    Err(Fault::JournalSchemaUnsupported {
                        session_id: row.session_id,
                        sequence: row.sequence,
                        version: row.schema_version,
                    })
                } else if row.expected_checksum@ != row.stored_checksum@ {
                    Err(Fault::JournalChecksumMismatch { session_id: row.session_id, sequence: row.sequence })
                } else if row.sequence != previous + 1 {
                    Err(Fault::JournalSequenceGap { session_id: row.session_id, sequence: row.sequence })
                } else {
                    Ok(positions.insert(id, row.sequence))
                }
            },
        }
    }
}

/// The first session row whose position is not where its journal ends.
pub open spec fn position_fault(positions: Map<Seq<char>, u64>, sessions: Seq<(String, u64)>) -> Option<Fault>
    decreases sessions.len(),
{
    if sessions.len() == 0 {
        None
    } else {
        match position_fault(positions, sessions.drop_last()) {
            Some(f) => Some(f),
            None => {
                let (id, through) = sessions.last();
                if positions.contains_key(id@) && positions[id@] == through {
                    None
                } else {
                    Some(Fault::SessionPositionMismatch { session_id: id, through_sequence: through })
                }
            },
        }
    }
}

/// What the check finds: the first fault among the rows, then among the session rows.
pub open spec fn journal_fault(rows: Seq<JournalRow>, sessions: Seq<(String, u64)>) -> Option<Fault> {
    match scan_rows(rows) {
        Err(f) => Some(f),
        Ok(positions) => position_fault(positions, sessions),
    }
}

fn string_eq(a: &String, b: &String) -> (r: bool)
    ensures
        r == (a@ == b@),
{
    crate::text::str_eq(a.as_str(), b.as_str())
}

/// Check a journal's records and session positions, refusing at the first inconsistency.
pub fn verify_journal(rows: &[JournalRow], sessions: &[(String, u64)]) -> (r: Result<(), BrainError>)
    ensures
        match journal_fault(rows@, sessions@) {
            None => r is Ok,
            Some(f) => r == Err::<(), BrainError>(BrainError::Journal(f)),
        },
{
    let mut positions: Vec<(String, u64)> = Vec::new();
    let mut i: usize = 0;
    assert(rows@.take(0) =~= Seq::<JournalRow>::empty());
    assert(as_map(positions@) =~= Map::<Seq<char>, u64>::empty());
    while i < rows.len()
        invariant
            i <= rows@.len(),
            unique_keys(positions@),
            scan_rows(rows@.take(i as int)) == Ok::<Map<Seq<char>, u64>, Fault>(as_map(positions@)),
        decreases rows.len() - i,
    {
        proof {
            assert(rows@.take(i as int + 1).drop_last() =~= rows@.take(i as int));
            assert(rows@.take(i as int + 1).last() == rows@[i as int]);
        }
        let row = &rows[i];
        let previous: u64 = match find(&positions, row.session_id.as_str()) {
            Some(k) => {
                proof {
                    lemma_entry(positions@, k as int);
                }
                positions[k].1
            },
            None => 0,
        };
        if row.schema_version != JOURNAL_SCHEMA_VERSION {
            proof {
                lemma_scan_stays_failed(rows@, i as int + 1);
            }
            return Err(BrainError::Journal(Fault::JournalSchemaUnsupported {
                session_id: row.session_id.clone(),
                sequence: row.sequence,
                version: row.schema_version,
            }));
        }
        if !string_eq(&row.expected_checksum, &row.stored_checksum) {
            proof {
                lemma_scan_stays_failed(rows@, i as int + 1);
            }
            return Err(BrainError::Journal(Fault::JournalChecksumMismatch {
                session_id: row.session_id.clone(),
                sequence: row.sequence,
            }));
        }
        if previous == u64::MAX || row.sequence != previous + 1 {
            proof {
                lemma_scan_stays_failed(rows@, i as int + 1);
            }
            return Err(BrainError::Journal(Fault::JournalSequenceGap {
                session_id: row.session_id.clone(),
                sequence: row.sequence,
            }));
        }
        upsert(&mut positions, row.session_id.clone(), row.sequence);
        i = i + 1;
    }
    proof {
        assert(rows@.take(i as int) =~= rows@);
    }
    let ghost m = as_map(positions@);
    let mut k: usize = 0;
    assert(sessions@.take(0) =~= Seq::<(String, u64)>::empty());
    while k < sessions.len()
        invariant
            k <= sessions@.len(),
            unique_keys(positions@),
            m == as_map(positions@),
            scan_rows(rows@) == Ok::<Map<Seq<char>, u64>, Fault>(m),
            position_fault(m, sessions@.take(k as int)) is None,
        decreases sessions.len() - k,
    {
        proof {
            assert(sessions@.take(k as int + 1).drop_last() =~= sessions@.take(k as int));
            assert(sessions@.take(k as int + 1).last() == sessions@[k as int]);
        }
        let (id, through) = (&sessions[k].0, sessions[k].1);
        let ok = match find(&positions, id.as_str()) {
            Some(p) => {
                proof {
                    lemma_entry(positions@, p as int);
                }
                positions[p].1 == through
            },
            None => false,
        };
        if !ok {
            proof {
                lemma_positions_stay_failed(m, sessions@, k as int + 1);
            }
            return Err(BrainError::Journal(Fault::SessionPositionMismatch { session_id: id.clone(), through_sequence: through }));
        }
        k = k + 1;
    }
    proof {
        assert(sessions@.take(k as int) =~= sessions@);
    }
    Ok(())
}

/// Once the scan fails on a prefix, it fails the same way on the whole.
proof fn lemma_scan_stays_failed(rows: Seq<JournalRow>, n: int)
    requires
        1 <= n <= rows.len(),
        scan_rows(rows.take(n)) is Err,
    ensures
        scan_rows(rows) == scan_rows(rows.take(n)),
    decreases rows.len() - n,
{
    if n == rows.len() {
        assert(rows.take(n) =~= rows);
    } else {
        assert(rows.drop_last().take(n) =~= rows.take(n));
        lemma_scan_stays_failed(rows.drop_last(), n);
    }
}

/// Once a session row fails, the check reports that row, whatever follows.
proof fn lemma_positions_stay_failed(m: Map<Seq<char>, u64>, sessions: Seq<(String, u64)>, n: int)
    requires
        1 <= n <= sessions.len(),
        position_fault(m, sessions.take(n)) is Some,
    ensures
        position_fault(m, sessions) == position_fault(m, sessions.take(n)),
    decreases sessions.len() - n,
{
    if n == sessions.len() {
        assert(sessions.take(n) =~= sessions);
    } else {
        assert(sessions.drop_last().take(n) =~= sessions.take(n));
        lemma_positions_stay_failed(m, sessions.drop_last(), n);
    }
}

} // verus!
