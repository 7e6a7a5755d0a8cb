//! Folds: the model-visible history rebuilt from journal records, the transcript and slots
//! rebuilt from compact journal entries, and a session's status rebuilt from its records.

use vstd::prelude::*;
use crate::docs::Duplicate;
use crate::message::{ContentBlock, Message, Role, history_view, message_view};
use crate::records::Record;
use crate::retention::Entry;
use crate::text::str_eq;

verus! {

/// A fold as plain values: the rebuilt history, the tool results waiting to be grouped into
/// one user message, and the number of turns started.
pub struct FoldState {
    pub history: Seq<(Role, Seq<ContentBlock>)>,
    pub pending: Seq<ContentBlock>,
    pub turns: int,
}

/// The model-visible history rebuilt from records. `fold` is a loop over `apply` so the cold
/// (rehydrate) and hot (in-turn append) paths cannot drift.
#[derive(Debug, Clone)]
pub struct Fold {
    pub history: Vec<Message>,
    /// Consecutive tool results group into one user message; flushed by the next
    /// non-result record.
    pub pending_results: Vec<ContentBlock>,
    pub turns: u64,
}

/// Flush waiting tool results as one user message.
pub open spec fn flush_spec(f: FoldState) -> FoldState {
    if f.pending.len() > 0 {
        FoldState {
            history: f.history.push((Role::User, f.pending)),
            pending: Seq::empty(),
            turns: f.turns,
        }
    } else {
        f
    }
}

/// Whether a record belongs to a subagent rather than the root agent.
pub open spec fn is_subagent(record: Record) -> bool {
    record.agent_of() matches Some(agent) && agent != "root"@
}

/// What one record does to the fold.
pub open spec fn apply_spec(f: FoldState, record: Record) -> FoldState {
    if is_subagent(record) {
        f
    } else {
        match record {
            Record::UserMessage { content, starts_turn, .. } => FoldState {
                history: f.history.push((Role::User, f.pending + content@)),
                pending: Seq::empty(),
                turns: if starts_turn { f.turns + 1 } else { f.turns },
            },
            Record::TurnStarted { .. } => FoldState { turns: f.turns + 1, ..f },
            Record::Assistant { content, .. } => {
                let flushed = flush_spec(f);
                FoldState {
                    history: flushed.history.push((Role::Assistant, content@)),
                    ..flushed
                }
            },
            Record::ToolResult { call, content, is_error, .. } => FoldState {
                pending: f.pending.push(
                    ContentBlock::ToolResult { tool_use_id: call, content, is_error },
                ),
                ..f
            },
            _ => f,
        }
    }
}

/// Applying records in order.
pub open spec fn apply_all(f: FoldState, records: Seq<Record>) -> FoldState
    decreases records.len(),
{
    if records.len() == 0 {
        f
    } else {
        apply_spec(apply_all(f, records.drop_last()), records.last())
    }
}

/// Whether applying a record starts a turn.
pub open spec fn counts_a_turn(record: Record) -> bool {
    !is_subagent(record) && (record is TurnStarted || (record matches Record::UserMessage { starts_turn, .. } && starts_turn))
}

pub open spec fn empty_fold() -> FoldState {
    FoldState { history: Seq::empty(), pending: Seq::empty(), turns: 0 }
}

/// The records of journal entries, in order.
pub open spec fn entry_records(entries: Seq<Entry>) -> Seq<Record> {
    entries.map_values(|e: Entry| e.record)
}

/// A full fold: every record applied, then the trailing results flushed.
pub open spec fn fold_spec(entries: Seq<Entry>) -> FoldState {
    flush_spec(apply_all(empty_fold(), entry_records(entries)))
}

impl View for Fold {
    type V = FoldState;

    open spec fn view(&self) -> FoldState {
        FoldState {
            history: history_view(self.history@),
            pending: self.pending_results@,
            turns: self.turns as int,
        }
    }
}

impl Fold {
    pub fn new() -> (f: Fold)
        ensures
            f@ == empty_fold(),
    {
        let f = Fold { history: Vec::new(), pending_results: Vec::new(), turns: 0 };
        assert(history_view(f.history@) =~= Seq::empty());
        f
    }

    /// Resumes a fold from an already-rebuilt history (in-turn compaction).
    pub fn from_history(history: Vec<Message>) -> (f: Fold)
        ensures
            f@ == (FoldState { history: history_view(history@), pending: Seq::empty(), turns: 0 }),
    {
        Fold { history, pending_results: Vec::new(), turns: 0 }
    }

    fn flush_results(&mut self)
        ensures
            final(self)@ == flush_spec(old(self)@),
    {
        if self.pending_results.len() > 0 {
            let mut results: Vec<ContentBlock> = Vec::new();
            std::mem::swap(&mut results, &mut self.pending_results);
            let ghost before = self.history@;
            let message = Message::tool_results(results);
            self.history.push(message);
            assert(history_view(self.history@) =~= history_view(before).push(message_view(message)));
            assert(self.pending_results@ =~= Seq::<ContentBlock>::empty());
        }
    }

    /// Fold one record in. Subagent records never enter the root history: a child record
    /// landing between two root tool results must not split their batch.
    pub fn apply(&mut self, record: &Record)
        requires
            counts_a_turn(*record) ==> old(self).turns < u64::MAX,
        ensures
            final(self)@ == apply_spec(old(self)@, *record),
            final(self).turns <= old(self).turns + 1,
            !is_subagent(*record) && (*record matches Record::UserMessage { starts_turn, .. } && starts_turn)
                ==> final(self).turns == old(self).turns + 1,
            !is_subagent(*record) && *record is TurnStarted ==> final(self).turns == old(self).turns + 1,
            !is_subagent(*record) && (*record matches Record::UserMessage { starts_turn, .. } && !starts_turn)
                ==> final(self).turns == old(self).turns,
    {
        proof {
            reveal_strlit("root");
        }
        if let Some(agent) = record.agent() {
            if !str_eq(agent, "root") {
                return;
            }
        }
        match record {
            Record::UserMessage { content, starts_turn, .. } => {
                if *starts_turn {
                    self.turns = self.turns + 1;
                }
                let mut merged: Vec<ContentBlock> = Vec::new();
                std::mem::swap(&mut merged, &mut self.pending_results);
                let ghost pending = merged@;
                let copy = content.duplicate();
                let mut i: usize = 0;
                while i < copy.len()
                    invariant
                        i <= copy@.len(),
                        merged@ == pending + copy@.subrange(0, i as int),
                    decreases copy.len() - i,
                {
                    merged.push(copy[i].duplicate());
                    i = i + 1;
                    assert(merged@ =~= pending + copy@.subrange(0, i as int));
                }
                assert(copy@ =~= content@);
                assert(copy@.subrange(0, copy@.len() as int) =~= copy@);
                let ghost before = self.history@;
                let message = Message { role: Role::User, content: merged };
                self.history.push(message);
                assert(history_view(self.history@) =~= history_view(before).push(message_view(message)));
                assert(self.pending_results@ =~= Seq::<ContentBlock>::empty());
            },
            Record::TurnStarted { .. } => {
                self.turns = self.turns + 1;
            },
            Record::Assistant { content, .. } => {
                self.flush_results();
                let copy = content.duplicate();
                assert(copy@ =~= content@);
                let ghost before = self.history@;
                let message = Message { role: Role::Assistant, content: copy };
                self.history.push(message);
                assert(history_view(self.history@) =~= history_view(before).push(message_view(message)));
            },
            Record::ToolResult { call, content, is_error, .. } => {
                self.pending_results.push(
                    ContentBlock::ToolResult {
                        tool_use_id: call.clone(),
                        content: content.clone(),
                        is_error: *is_error,
                    },
                );
            },
            _ => {},
        }
    }

    /// Terminal flush: called once all records are applied.
    pub fn finish(&mut self)
        ensures
            final(self)@ == flush_spec(old(self)@),
    {
        self.flush_results();
    }
}

/// Rebuild the history from journal entries.
pub fn fold(entries: &[Entry]) -> (f: Fold)
    ensures
        f@ == fold_spec(entries@),
{
    let mut f = Fold::new();
    let mut i: usize = 0;
    let n = entries.len();
    assert(entries@.len() == n);
    while i < entries.len()
        invariant
            i <= entries@.len(),
            entries@.len() <= usize::MAX,
            f.turns <= i,
            f@ == apply_all(empty_fold(), entry_records(entries@).subrange(0, i as int)),
        decreases entries.len() - i,
    {
        f.apply(&entries[i].record);
        proof {
            let done = entry_records(entries@).subrange(0, i + 1);
            assert(done.drop_last() =~= entry_records(entries@).subrange(0, i as int));
        }
        i = i + 1;
    }
    proof {
        assert(entry_records(entries@).subrange(0, entries@.len() as int) =~= entry_records(
            entries@,
        ));
    }
    f.finish();
    f
}

/// Subagent law: a record of any agent other than the root leaves the fold exactly as it was.
pub proof fn subagent_records_never_touch_the_fold(f: FoldState, record: Record)
    requires
        is_subagent(record),
    ensures
        apply_spec(f, record) == f,
{
}

/// The block a root tool result contributes to its batch.
pub open spec fn result_block(record: Record) -> ContentBlock {
    match record {
        Record::ToolResult { call, content, is_error, .. } => ContentBlock::ToolResult {
            tool_use_id: call,
            content,
            is_error,
        },
        _ => ContentBlock::Text { text: arbitrary() },
    }
}

pub open spec fn is_root_tool_result(record: Record) -> bool {
    record is ToolResult && !is_subagent(record)
}

proof fn lemma_results_accumulate(f: FoldState, results: Seq<Record>)
    requires
        forall|i: int| 0 <= i < results.len() ==> is_root_tool_result(#[trigger] results[i]),
    ensures
        apply_all(f, results).history == f.history,
        apply_all(f, results).turns == f.turns,
        apply_all(f, results).pending == f.pending + results.map_values(|r: Record| result_block(r)),
    decreases results.len(),
{
    if results.len() > 0 {
        let rest = results.drop_last();
        assert forall|i: int| 0 <= i < rest.len() implies is_root_tool_result(#[trigger] rest[i]) by {
            assert(rest[i] == results[i]);
        }
        lemma_results_accumulate(f, rest);
        assert(is_root_tool_result(results.last()));
        assert(f.pending + results.map_values(|r: Record| result_block(r)) =~= (f.pending
            + rest.map_values(|r: Record| result_block(r))).push(result_block(results.last())));
    } else {
        assert(f.pending + results.map_values(|r: Record| result_block(r)) =~= f.pending);
    }
}

/// Grouping law: a run of root tool results followed by a root assistant message adds exactly
/// two messages to the history: one user message holding every result of the run, in order,
/// then the assistant message.
pub proof fn tool_results_group_into_one_user_message(
    f: FoldState,
    results: Seq<Record>,
    assistant: Record,
)
    requires
        f.pending.len() == 0,
        results.len() > 0,
        forall|i: int| 0 <= i < results.len() ==> is_root_tool_result(#[trigger] results[i]),
        assistant is Assistant,
        !is_subagent(assistant),
    ensures
        apply_all(f, results.push(assistant)).history == f.history.push(
            (Role::User, results.map_values(|r: Record| result_block(r))),
        ).push((Role::Assistant, assistant->Assistant_content@)),
        apply_all(f, results.push(assistant)).pending.len() == 0,
{
    lemma_results_accumulate(f, results);
    assert(results.push(assistant).drop_last() =~= results);
    assert(f.pending + results.map_values(|r: Record| result_block(r)) =~= results.map_values(
        |r: Record| result_block(r),
    ));
}

/// A finished fold has no tool results left waiting.
pub proof fn a_finished_fold_has_nothing_pending(entries: Seq<Entry>)
    ensures
        fold_spec(entries).pending.len() == 0,
{
}


/// Hot/cold law: folding the first `k + 1` entries from scratch is folding the first `k` and
/// then applying entry `k`, and a full fold is that state flushed, so the cold rehydrate path
/// and the hot in-turn path (apply as records arrive, finish at the end) cannot drift.
pub proof fn hot_and_cold_folds_agree(entries: Seq<Entry>, k: int)
    requires
        0 <= k < entries.len(),
    ensures
        apply_all(empty_fold(), entry_records(entries.take(k + 1))) == apply_spec(
            apply_all(empty_fold(), entry_records(entries.take(k))),
            entries[k].record,
        ),
        fold_spec(entries.take(k + 1)) == flush_spec(apply_all(empty_fold(), entry_records(entries.take(k + 1)))),
{
    assert(entry_records(entries.take(k + 1)).drop_last() =~= entry_records(entries.take(k)));
    assert(entry_records(entries.take(k + 1)).last() == entries[k].record);
}


/// Turn-count law: folding one more root record that starts a turn (a user message that starts
/// one, or a turn-started record) counts exactly one more turn than folding without it; a root
/// user message that does not start a turn counts none.
pub proof fn a_turn_start_counts_one_turn(entries: Seq<Entry>, e: Entry)
    requires
        !is_subagent(e.record),
    ensures
        (e.record matches Record::UserMessage { starts_turn, .. } && starts_turn) ==> fold_spec(entries.push(e)).turns
            == fold_spec(entries).turns + 1,
        e.record is TurnStarted ==> fold_spec(entries.push(e)).turns == fold_spec(entries).turns + 1,
        (e.record matches Record::UserMessage { starts_turn, .. } && !starts_turn) ==> fold_spec(entries.push(e)).turns
            == fold_spec(entries).turns,
{
    assert(entry_records(entries.push(e)).drop_last() =~= entry_records(entries));
    assert(entry_records(entries.push(e)).last() == e.record);
}

} // verus!
