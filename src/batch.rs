//! A batch of rows under one layout: every row is read before anything is
//! submitted, and submission goes in row order and stops at the first failure.

use vstd::prelude::*;
use crate::entry::{layout_view, row_entry, row_result_matches, Entry, EntryError};
use crate::format::Field;
use crate::time::{Date, Time};

verus! {

/// A row that gave no entry: its position after the skipped lines, and why.
#[derive(Debug)]
pub struct RowError {
    pub row: usize,
    pub error: EntryError,
}

/// How many rows are left once `skip` lines are passed over.
pub open spec fn rows_after_skip(n: int, skip: int) -> int {
    if skip < n {
        n - skip
    } else {
        0
    }
}

/// Whether a row resolves to an entry.
pub open spec fn row_resolves(format: Seq<Field>, line: Seq<char>, default_start_time: Option<Time>, today: Date) -> bool {
    row_entry(layout_view(format), line, default_start_time, today) matches Some(Ok(_))
}

/// Reads every row after the first `skip` lines; fails at the first row that
/// gives no entry, and then gives no entries at all.
pub fn read_entries(format: &[Field], lines: &[String], skip: usize, default_start_time: Option<Time>, today: Date) -> (r: Result<Vec<Entry>, RowError>)
    requires
        default_start_time matches Some(t) ==> t.wf(),
    ensures
        r is Ok <==> forall|i: int| 0 <= i < rows_after_skip(lines@.len() as int, skip as int)
            ==> #[trigger] row_resolves(format@, lines@[skip + i]@, default_start_time, today),
        r is Ok ==> r->Ok_0@.len() == rows_after_skip(lines@.len() as int, skip as int),
        r is Ok ==> forall|i: int| 0 <= i < r->Ok_0@.len()
            ==> row_entry(layout_view(format@), lines@[skip + i]@, default_start_time, today)
                == Some(Ok::<Entry, crate::entry::ResolutionError>(#[trigger] r->Ok_0@[i])),
        r is Err ==> r->Err_0.row < rows_after_skip(lines@.len() as int, skip as int)
            && !row_resolves(format@, lines@[skip + r->Err_0.row]@, default_start_time, today)
            && row_result_matches(Err(r->Err_0.error), row_entry(layout_view(format@), lines@[skip + r->Err_0.row]@, default_start_time, today))
            && forall|j: int| 0 <= j < r->Err_0.row
                ==> #[trigger] row_resolves(format@, lines@[skip + j]@, default_start_time, today),
{
    let mut entries: Vec<Entry> = Vec::new();
    if skip >= lines.len() {
        return Ok(entries);
    }
    let mut i: usize = skip;
    while i < lines.len()
        invariant
            skip <= i <= lines@.len(),
            default_start_time matches Some(t) ==> t.wf(),
            entries@.len() == i - skip,
            forall|k: int| 0 <= k < entries@.len()
                ==> row_entry(layout_view(format@), lines@[skip + k]@, default_start_time, today)
                    == Some(Ok::<Entry, crate::entry::ResolutionError>(#[trigger] entries@[k])),
        decreases lines@.len() - i,
    {
        match Entry::read(format, lines[i].as_str(), default_start_time, today) {
            Ok(e) => entries.push(e),
            Err(error) => {
                assert forall|j: int| 0 <= j < i - skip implies
                    #[trigger] row_resolves(format@, lines@[skip + j]@, default_start_time, today) by {
                    assert(row_entry(layout_view(format@), lines@[skip + j]@, default_start_time, today)
                        == Some(Ok::<Entry, crate::entry::ResolutionError>(entries@[j])));
                }
                assert(lines@[skip + (i - skip)] == lines@[i as int]);
                assert(!row_resolves(format@, lines@[skip + (i - skip) as int]@, default_start_time, today));
                return Err(RowError { row: i - skip, error });
            },
        }
        i = i + 1;
    }
    assert forall|j: int| 0 <= j < rows_after_skip(lines@.len() as int, skip as int) implies
        #[trigger] row_resolves(format@, lines@[skip + j]@, default_start_time, today) by {
        assert(row_entry(layout_view(format@), lines@[skip + j]@, default_start_time, today)
            == Some(Ok::<Entry, crate::entry::ResolutionError>(entries@[j])));
    }
    Ok(entries)
}

/// Progress of handing a batch's entries to the sink one by one.
#[derive(Debug, Clone, Copy, PartialEq, Eq, Structural)]
pub struct Submission {
    /// How many entries there are.
    pub total: usize,
    /// How many the sink has accepted.
    pub submitted: usize,
    /// The entry that the sink refused, if one was.
    pub failed: Option<usize>,
}

/// What to do next with a batch.
#[derive(Debug, Clone, Copy, PartialEq, Eq, Structural)]
pub enum SubmitAction {
    /// Hand the entry at this position to the sink.
    Submit(usize),
    /// Every entry was accepted.
    Done,
    /// The sink refused the entry at this position; stop.
    Failed(usize),
}

impl Submission {
    pub open spec fn wf(self) -> bool {
        &&& self.submitted <= self.total
        &&& (self.failed matches Some(j) ==> j == self.submitted && j < self.total)
    }

    /// The action that a state calls for.
    pub open spec fn action_spec(self) -> SubmitAction {
        match self.failed {
            Some(j) => SubmitAction::Failed(j),
            None => if self.submitted < self.total {
                SubmitAction::Submit(self.submitted)
            } else {
                SubmitAction::Done
            },
        }
    }

    /// The state after the sink answered the current submission.
    pub open spec fn record_spec(self, accepted: bool) -> Submission {
        if accepted {
            Submission { submitted: (self.submitted + 1) as usize, ..self }
        } else {
            Submission { failed: Some(self.submitted), ..self }
        }
    }

    /// Nothing submitted yet.
    pub fn new(total: usize) -> (r: Submission)
        ensures
            r == (Submission { total, submitted: 0, failed: None }),
            r.wf(),
    {
        Submission { total, submitted: 0, failed: None }
    }

    /// What to do next.
    pub fn next_action(&self) -> (r: SubmitAction)
        ensures
            r == self.action_spec(),
    {
        match self.failed {
            Some(j) => SubmitAction::Failed(j),
            None => if self.submitted < self.total {
                SubmitAction::Submit(self.submitted)
            } else {
                SubmitAction::Done
            },
        }
    }

    /// Records the sink's answer to the entry that `next_action` named.
    pub fn record(&mut self, accepted: bool)
        requires
            old(self).wf(),
            old(self).action_spec() is Submit,
        ensures
            *final(self) == old(self).record_spec(accepted),
            final(self).wf(),
    {
        if accepted {
            self.submitted = self.submitted + 1;
        } else {
            self.failed = Some(self.submitted);
        }
    }
}

/// The state after the sink gave the answers `answers`, one per submission,
/// as long as the state asked for another.
pub open spec fn replay(s: Submission, answers: Seq<bool>) -> Submission
    decreases answers.len(),
{
    if answers.len() == 0 {
        s
    } else {
        let prev = replay(s, answers.drop_last());
        if prev.action_spec() is Submit {
            prev.record_spec(answers.last())
        } else {
            prev
        }
    }
}

proof fn lemma_replay_prefix(total: usize, answers: Seq<bool>, j: int, m: int)
    requires
        0 <= j < total,
        j < answers.len(),
        forall|k: int| 0 <= k < j ==> answers[k],
        !answers[j],
        0 <= m <= answers.len(),
    ensures
        replay(Submission { total, submitted: 0, failed: None }, answers.take(m)) == (if m <= j {
            Submission { total, submitted: m as usize, failed: None }
        } else {
            Submission { total, submitted: j as usize, failed: Some(j as usize) }
        }),
    decreases m,
{
    let s0 = Submission { total, submitted: 0, failed: None };
    if m > 0 {
        lemma_replay_prefix(total, answers, j, m - 1);
        assert(answers.take(m).drop_last() == answers.take(m - 1));
        assert(answers.take(m).last() == answers[m - 1]);
    } else {
        assert(answers.take(0).len() == 0);
    }
}

/// When the sink accepts the first `j` entries and refuses the next, the
/// batch stops there: exactly `j` entries were submitted, the refused one is
/// reported as entry `j`, and later answers change nothing.
pub proof fn lemma_stops_at_first_refusal(total: usize, answers: Seq<bool>, j: int)
    requires
        0 <= j < total,
        j < answers.len(),
        forall|k: int| 0 <= k < j ==> answers[k],
        !answers[j],
    ensures
        replay(Submission { total, submitted: 0, failed: None }, answers).submitted == j,
        replay(Submission { total, submitted: 0, failed: None }, answers).failed == Some(j as usize),
        replay(Submission { total, submitted: 0, failed: None }, answers).action_spec()
            == SubmitAction::Failed(j as usize),
{
    lemma_replay_prefix(total, answers, j, answers.len() as int);
    assert(answers.take(answers.len() as int) == answers);
}

/// When the sink accepts every entry, all of them are submitted and the
/// batch is done.
pub proof fn lemma_all_accepted(total: usize, answers: Seq<bool>)
    requires
        total <= answers.len(),
        forall|k: int| 0 <= k < total ==> answers[k],
    ensures
        replay(Submission { total, submitted: 0, failed: None }, answers).submitted == total,
        replay(Submission { total, submitted: 0, failed: None }, answers).action_spec() == SubmitAction::Done,
{
    lemma_all_accepted_prefix(total, answers, answers.len() as int);
    assert(answers.take(answers.len() as int) == answers);
}

proof fn lemma_all_accepted_prefix(total: usize, answers: Seq<bool>, m: int)
    requires
        total <= answers.len(),
        forall|k: int| 0 <= k < total ==> answers[k],
        0 <= m <= answers.len(),
    ensures
        replay(Submission { total, submitted: 0, failed: None }, answers.take(m)) == (Submission {
            total,
            submitted: if m <= total { m as usize } else { total },
            failed: None,
        }),
    decreases m,
{
    if m > 0 {
        lemma_all_accepted_prefix(total, answers, m - 1);
        assert(answers.take(m).drop_last() == answers.take(m - 1));
        assert(answers.take(m).last() == answers[m - 1]);
    } else {
        assert(answers.take(0).len() == 0);
    }
}

} // verus!
