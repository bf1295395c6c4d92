//! Order of the cache and state calls around one batch of appends.
//!
//! A batch reserves cache rows for every sequence, starts the recurrent transaction of every
//! sequence, runs one forward pass, and then commits sequence by sequence. Each call may fail.
//! The batch says which call comes next after each result, and which error is reported.

use vstd::prelude::*;

verus! {

/// The call that a batch makes next.
#[derive(Clone, Copy, Debug, PartialEq, Eq, Structural)]
pub enum BatchStage {
    /// Reserve rows for a sequence.
    Reserve(usize),
    /// Start the recurrent transaction of a sequence.
    Begin(usize),
    /// Run the forward pass.
    Body,
    /// Commit the rows of a sequence.
    Commit(usize),
    /// Commit the recurrent transaction of a sequence.
    CommitState(usize),
    /// Roll back the recurrent transaction of a sequence, after a later one could not start.
    UndoBegin { row: usize, until: usize },
    /// Roll back the recurrent transaction of a sequence, after the forward pass failed.
    Rollback(usize),
    /// Release the reservation of a sequence.
    Release { row: usize, until: usize },
    /// Roll back the recurrent transaction of a sequence, after a commit failed.
    AbortRow(usize),
    /// Release the reservation of a sequence, after a commit failed.
    ReleaseRow(usize),
    /// The batch is over.
    Finished,
}

/// Releases that are left, up to but not counting `until`.
pub open spec fn release_from(row: int, until: int) -> BatchStage {
    if row < until {
        BatchStage::Release { row: row as usize, until: until as usize }
    } else {
        BatchStage::Finished
    }
}

/// Stage after a call that succeeded.
pub open spec fn stage_after_success(rows: usize, stage: BatchStage) -> BatchStage {
    match stage {
        BatchStage::Reserve(row) => if row + 1 < rows {
            BatchStage::Reserve((row + 1) as usize)
        } else {
            BatchStage::Begin(0)
        },
        BatchStage::Begin(row) => if row + 1 < rows {
            BatchStage::Begin((row + 1) as usize)
        } else {
            BatchStage::Body
        },
        BatchStage::Body => if rows == 0 {
            BatchStage::Finished
        } else {
            BatchStage::Commit(0)
        },
        BatchStage::Commit(row) => BatchStage::CommitState(row),
        BatchStage::CommitState(row) => if row + 1 < rows {
            BatchStage::Commit((row + 1) as usize)
        } else {
            BatchStage::Finished
        },
        BatchStage::UndoBegin { row, until } => if row + 1 < until {
            BatchStage::UndoBegin { row: (row + 1) as usize, until }
        } else {
            release_from(0, rows as int)
        },
        BatchStage::Rollback(row) => if row + 1 < rows {
            BatchStage::Rollback((row + 1) as usize)
        } else {
            release_from(0, rows as int)
        },
        BatchStage::Release { row, until } => release_from(row + 1, until as int),
        BatchStage::AbortRow(row) => BatchStage::ReleaseRow(row),
        BatchStage::ReleaseRow(row) => if row + 1 < rows {
            BatchStage::AbortRow((row + 1) as usize)
        } else {
            BatchStage::Finished
        },
        BatchStage::Finished => BatchStage::Finished,
    }
}

/// Stage after a call that failed.
///
/// A recurrent transaction that cannot be rolled back does not keep the others from being
/// rolled back. A reservation that cannot be released ends the batch.
pub open spec fn stage_after_failure(rows: usize, stage: BatchStage) -> BatchStage {
    match stage {
        BatchStage::Reserve(row) => release_from(0, row as int),
        BatchStage::Begin(row) => if row > 0 {
            BatchStage::UndoBegin { row: 0, until: row }
        } else {
            release_from(0, rows as int)
        },
        BatchStage::Body => if rows == 0 {
            BatchStage::Finished
        } else {
            BatchStage::Rollback(0)
        },
        BatchStage::Commit(row) => BatchStage::AbortRow(row),
        BatchStage::UndoBegin { .. } | BatchStage::Rollback(_) | BatchStage::AbortRow(_) =>
        stage_after_success(rows, stage),
        BatchStage::CommitState(_) | BatchStage::Release { .. } | BatchStage::ReleaseRow(_)
        | BatchStage::Finished => BatchStage::Finished,
    }
}

/// Rows that a call reserves or commits, for sequences that append `lengths` rows.
pub open spec fn stage_rows(stage: BatchStage, lengths: Seq<usize>) -> usize {
    match stage {
        BatchStage::Reserve(row) | BatchStage::Commit(row) | BatchStage::CommitState(row) =>
        lengths[row as int],
        _ => 0,
    }
}

/// Errors met so far.
pub struct BatchFailure<E> {
    /// The error that ended the forward part of the batch, or a release that failed.
    pub failure: Option<E>,
    /// The first recurrent transaction that could not be rolled back.
    pub rollback: Option<E>,
}

/// Errors after a call has failed with `error`.
pub open spec fn failure_after<E>(
    stage: BatchStage,
    before: BatchFailure<E>,
    error: E,
) -> BatchFailure<E> {
    match stage {
        BatchStage::UndoBegin { .. } | BatchStage::Finished => before,
        BatchStage::Rollback(_) | BatchStage::AbortRow(_) => BatchFailure {
            failure: before.failure,
            rollback: if before.rollback is Some {
                before.rollback
            } else {
                Some(error)
            },
        },
        _ => BatchFailure { failure: Some(error), rollback: None },
    }
}

/// One batch of appends in progress.
pub struct BatchAppend<E> {
    rows: usize,
    stage: BatchStage,
    errors: BatchFailure<E>,
}

impl<E> BatchAppend<E> {
    /// Sequences of the batch.
    pub closed spec fn spec_rows(self) -> usize {
        self.rows
    }

    /// The call to make next.
    pub closed spec fn spec_stage(self) -> BatchStage {
        self.stage
    }

    /// Errors met so far.
    pub closed spec fn spec_errors(self) -> BatchFailure<E> {
        self.errors
    }

    /// Whether the call to make next is one of this batch.
    pub open spec fn well_formed(self) -> bool {
        stage_within(self.spec_rows(), self.spec_stage())
    }

    /// Whether this batch is where these results of its calls lead: at the same stage, with an
    /// error to report where the ledger has one.
    pub open spec fn follows(self, results: Seq<bool>) -> bool {
        let (stage, ledger) = run_batch(self.spec_rows(), results);
        &&& self.spec_stage() == stage
        &&& (self.spec_errors().failure is Some || self.spec_errors().rollback is Some)
            == ledger.failed
    }

    /// Starts a batch of `rows` sequences.
    pub fn new(rows: usize) -> (batch: Self)
        ensures
            batch.well_formed(),
            batch.follows(seq![]),
            batch.spec_rows() == rows,
            batch.spec_stage() == first_stage(rows),
            batch.spec_errors().failure is None,
            batch.spec_errors().rollback is None,
    {
        Self {
            rows,
            stage: if rows == 0 {
                BatchStage::Body
            } else {
                BatchStage::Reserve(0)
            },
            errors: BatchFailure { failure: None, rollback: None },
        }
    }

    /// The call to make next.
    pub fn stage(&self) -> (stage: BatchStage)
        ensures
            stage == self.spec_stage(),
    {
        self.stage
    }

    /// Rows that the call to make next reserves or commits, for sequences that append `lengths`
    /// rows.
    pub fn call_rows(&self, lengths: &[usize]) -> (rows: usize)
        requires
            self.well_formed(),
            lengths@.len() == self.spec_rows(),
        ensures
            rows == stage_rows(self.spec_stage(), lengths@),
    {
        match self.stage {
            BatchStage::Reserve(row) | BatchStage::Commit(row) | BatchStage::CommitState(row) =>
            lengths[row],
            _ => 0,
        }
    }

    /// Takes the result of the call that was made. Once the batch is over nothing changes.
    pub fn step(&mut self, result: Result<(), E>)
        requires
            old(self).well_formed(),
        ensures
            final(self).well_formed(),
            forall|results: Seq<bool>| #[trigger]
                old(self).follows(results) ==> final(self).follows(results.push(result is Ok)),
            final(self).spec_rows() == old(self).spec_rows(),
            match result {
                Ok(_) => {
                    &&& final(self).spec_stage() == stage_after_success(
                        old(self).spec_rows(),
                        old(self).spec_stage(),
                    )
                    &&& final(self).spec_errors() == old(self).spec_errors()
                },
                Err(error) => {
                    &&& final(self).spec_stage() == stage_after_failure(
                        old(self).spec_rows(),
                        old(self).spec_stage(),
                    )
                    &&& final(self).spec_errors() == failure_after(
                        old(self).spec_stage(),
                        old(self).spec_errors(),
                        error,
                    )
                },
            },
    {
        proof {
            assert forall|results: Seq<bool>| #[trigger] old(self).follows(results) implies
                results.push(result is Ok).drop_last() == results && (old(self).spec_stage()
                is UndoBegin ==> old(self).spec_errors().failure is Some || old(
                self,
            ).spec_errors().rollback is Some) by {
                assert(results.push(result is Ok).drop_last() =~= results);
                lemma_undo_follows_failure(old(self).spec_rows(), results);
            }
        }
        let stage = self.stage;
        match result {
            Ok(_) => {
                self.stage = after_success(self.rows, stage);
            },
            Err(error) => {
                match stage {
                    BatchStage::UndoBegin { .. } | BatchStage::Finished => {},
                    BatchStage::Rollback(_) | BatchStage::AbortRow(_) => {
                        if self.errors.rollback.is_none() {
                            self.errors.rollback = Some(error);
                        }
                    },
                    _ => {
                        self.errors = BatchFailure { failure: Some(error), rollback: None };
                    },
                }
                self.stage = after_failure(self.rows, stage);
            },
        }
    }

    /// Ends the batch and hands out the error to report.
    pub fn finish(self) -> (result: Result<(), E>)
        requires
            self.spec_stage() == BatchStage::Finished,
        ensures
            match result {
                Ok(_) => self.spec_errors().failure is None && self.spec_errors().rollback is None,
                Err(error) => if self.spec_errors().rollback is Some {
                    self.spec_errors().rollback == Some(error)
                } else {
                    self.spec_errors().failure == Some(error)
                },
            },
    {
        match self.errors.rollback {
            Some(error) => Err(error),
            None => match self.errors.failure {
                Some(error) => Err(error),
                None => Ok(()),
            },
        }
    }
}

/// The first call of a batch.
pub open spec fn first_stage(rows: usize) -> BatchStage {
    if rows == 0 {
        BatchStage::Body
    } else {
        BatchStage::Reserve(0)
    }
}

/// Whether a stage names sequences of a batch of `rows`.
pub open spec fn stage_within(rows: usize, stage: BatchStage) -> bool {
    match stage {
        BatchStage::Reserve(row) | BatchStage::Begin(row) | BatchStage::Commit(row)
        | BatchStage::CommitState(row) | BatchStage::Rollback(row) | BatchStage::AbortRow(row)
        | BatchStage::ReleaseRow(row) => row < rows,
        BatchStage::UndoBegin { row, until } => row < until < rows,
        BatchStage::Release { row, until } => row < until <= rows,
        BatchStage::Body | BatchStage::Finished => true,
    }
}

fn releases(row: usize, until: usize) -> (stage: BatchStage)
    ensures
        stage == release_from(row as int, until as int),
{
    if row < until {
        BatchStage::Release { row, until }
    } else {
        BatchStage::Finished
    }
}

fn after_success(rows: usize, stage: BatchStage) -> (next: BatchStage)
    requires
        stage_within(rows, stage),
    ensures
        next == stage_after_success(rows, stage),
        stage_within(rows, next),
{
    match stage {
        BatchStage::Reserve(row) => if row + 1 < rows {
            BatchStage::Reserve(row + 1)
        } else {
            BatchStage::Begin(0)
        },
        BatchStage::Begin(row) => if row + 1 < rows {
            BatchStage::Begin(row + 1)
        } else {
            BatchStage::Body
        },
        BatchStage::Body => if rows == 0 {
            BatchStage::Finished
        } else {
            BatchStage::Commit(0)
        },
        BatchStage::Commit(row) => BatchStage::CommitState(row),
        BatchStage::CommitState(row) => if row + 1 < rows {
            BatchStage::Commit(row + 1)
        } else {
            BatchStage::Finished
        },
        BatchStage::UndoBegin { row, until } => if row + 1 < until {
            BatchStage::UndoBegin { row: row + 1, until }
        } else {
            releases(0, rows)
        },
        BatchStage::Rollback(row) => if row + 1 < rows {
            BatchStage::Rollback(row + 1)
        } else {
            releases(0, rows)
        },
        BatchStage::Release { row, until } => releases(row + 1, until),
        BatchStage::AbortRow(row) => BatchStage::ReleaseRow(row),
        BatchStage::ReleaseRow(row) => if row + 1 < rows {
            BatchStage::AbortRow(row + 1)
        } else {
            BatchStage::Finished
        },
        BatchStage::Finished => BatchStage::Finished,
    }
}

fn after_failure(rows: usize, stage: BatchStage) -> (next: BatchStage)
    requires
        stage_within(rows, stage),
    ensures
        next == stage_after_failure(rows, stage),
        stage_within(rows, next),
{
    match stage {
        BatchStage::Reserve(row) => releases(0, row),
        BatchStage::Begin(row) => if row > 0 {
            BatchStage::UndoBegin { row: 0, until: row }
        } else {
            releases(0, rows)
        },
        BatchStage::Body => if rows == 0 {
            BatchStage::Finished
        } else {
            BatchStage::Rollback(0)
        },
        BatchStage::Commit(row) => BatchStage::AbortRow(row),
        BatchStage::UndoBegin { .. } | BatchStage::Rollback(_) | BatchStage::AbortRow(_) =>
        after_success(rows, stage),
        _ => BatchStage::Finished,
    }
}

/// What a sequence holds.
pub enum RowHold {
    /// Nothing, and nothing has been kept.
    Free,
    /// A reservation.
    Reserved,
    /// A reservation and an open recurrent transaction.
    Open,
    /// Committed rows and an open recurrent transaction.
    RowsKept,
    /// Nothing: rows and state are committed.
    Kept,
}

/// What a batch holds and has done.
pub struct BatchLedger {
    /// What each sequence holds.
    pub holds: Seq<RowHold>,
    /// A call has failed, so that an error is reported.
    pub failed: bool,
    /// A call that rolls back, or the commit of a recurrent transaction, has failed.
    pub broken: bool,
}

/// The ledger of a batch that has made no call.
pub open spec fn fresh_ledger(rows: usize) -> BatchLedger {
    BatchLedger {
        holds: Seq::new(rows as nat, |row: int| RowHold::Free),
        failed: false,
        broken: false,
    }
}

/// The ledger after one more call.
pub open spec fn ledger_after(ledger: BatchLedger, stage: BatchStage, ok: bool) -> BatchLedger {
    if !ok {
        BatchLedger {
            holds: ledger.holds,
            failed: true,
            broken: ledger.broken || !(stage is Reserve || stage is Begin || stage is Body || stage
                is Commit),
        }
    } else {
        let (row, hold) = match stage {
            BatchStage::Reserve(row) => (row as int, RowHold::Reserved),
            BatchStage::Begin(row) => (row as int, RowHold::Open),
            BatchStage::Commit(row) => (row as int, RowHold::RowsKept),
            BatchStage::CommitState(row) => (row as int, RowHold::Kept),
            BatchStage::UndoBegin { row, .. } => (row as int, RowHold::Reserved),
            BatchStage::Rollback(row) => (row as int, RowHold::Reserved),
            BatchStage::AbortRow(row) => (row as int, RowHold::Reserved),
            BatchStage::Release { row, .. } => (row as int, RowHold::Free),
            BatchStage::ReleaseRow(row) => (row as int, RowHold::Free),
            BatchStage::Body | BatchStage::Finished => (-1int, RowHold::Free),
        };
        if 0 <= row < ledger.holds.len() {
            BatchLedger { holds: ledger.holds.update(row, hold), ..ledger }
        } else {
            ledger
        }
    }
}

/// A run of a batch over the results of its calls.
pub open spec fn run_batch(rows: usize, results: Seq<bool>) -> (BatchStage, BatchLedger)
    decreases results.len(),
{
    if results.len() == 0 {
        (first_stage(rows), fresh_ledger(rows))
    } else {
        let (stage, ledger) = run_batch(rows, results.drop_last());
        let ok = results.last();
        if stage == BatchStage::Finished {
            (stage, ledger)
        } else {
            (
                if ok {
                    stage_after_success(rows, stage)
                } else {
                    stage_after_failure(rows, stage)
                },
                ledger_after(ledger, stage, ok),
            )
        }
    }
}

proof fn lemma_undo_follows_failure(rows: usize, results: Seq<bool>)
    ensures
        run_batch(rows, results).0 is UndoBegin ==> run_batch(rows, results).1.failed,
    decreases results.len(),
{
    if results.len() > 0 {
        lemma_undo_follows_failure(rows, results.drop_last());
    }
}

/// Whether the sequences before `kept` are committed and the others hold nothing.
pub open spec fn kept_up_to(holds: Seq<RowHold>, kept: int) -> bool {
    &&& 0 <= kept <= holds.len()
    &&& forall|j: int| 0 <= j < kept ==> (#[trigger] holds[j]) is Kept
    &&& forall|j: int| kept <= j < holds.len() ==> (#[trigger] holds[j]) is Free
}

spec fn hold_at(stage: BatchStage, kept: int, j: int, hold: RowHold) -> bool {
    match stage {
        BatchStage::Reserve(row) => if j < row {
            hold is Reserved
        } else {
            hold is Free
        },
        BatchStage::Begin(row) => if j < row {
            hold is Open
        } else {
            hold is Reserved
        },
        BatchStage::Body => hold is Open,
        BatchStage::Commit(row) => if j < row {
            hold is Kept
        } else {
            hold is Open
        },
        BatchStage::CommitState(row) => if j < row {
            hold is Kept
        } else if j == row {
            hold is RowsKept
        } else {
            hold is Open
        },
        BatchStage::UndoBegin { row, until } => if row <= j < until {
            hold is Open
        } else {
            hold is Reserved
        },
        BatchStage::Rollback(row) => if row <= j {
            hold is Open
        } else {
            hold is Reserved
        },
        BatchStage::Release { row, until } => if row <= j < until {
            hold is Reserved
        } else {
            hold is Free
        },
        BatchStage::AbortRow(row) => if j < kept {
            hold is Kept
        } else if j < row {
            hold is Free
        } else {
            hold is Open
        },
        BatchStage::ReleaseRow(row) => if j < kept {
            hold is Kept
        } else if j < row {
            hold is Free
        } else if j == row {
            hold is Reserved
        } else {
            hold is Open
        },
        BatchStage::Finished => if j < kept {
            hold is Kept
        } else {
            hold is Free
        },
    }
}

spec fn stage_kept(stage: BatchStage, ledger: BatchLedger, kept: int) -> bool {
    &&& 0 <= kept <= ledger.holds.len()
    &&& stage matches BatchStage::AbortRow(row) ==> kept <= row
    &&& stage matches BatchStage::ReleaseRow(row) ==> kept <= row
    &&& stage is Finished && !ledger.failed ==> kept == ledger.holds.len()
    &&& (stage is Reserve || stage is Begin || stage is Body || stage is Commit || stage
        is CommitState) ==> !ledger.failed
    &&& (stage is UndoBegin || stage is Rollback || stage is Release || stage is AbortRow || stage
        is ReleaseRow) ==> ledger.failed
    &&& forall|j: int|
        0 <= j < ledger.holds.len() ==> hold_at(stage, kept, j, #[trigger] ledger.holds[j])
}

proof fn lemma_holds(rows: usize, results: Seq<bool>) -> (kept: int)
    ensures
        stage_within(rows, run_batch(rows, results).0),
        run_batch(rows, results).1.holds.len() == rows,
        !run_batch(rows, results).1.broken ==> stage_kept(
            run_batch(rows, results).0,
            run_batch(rows, results).1,
            kept,
        ),
    decreases results.len(),
{
    if results.len() == 0 {
        0
    } else {
        let before = lemma_holds(rows, results.drop_last());
        let (stage, ledger) = run_batch(rows, results.drop_last());
        let (next, after) = run_batch(rows, results);
        let ok = results.last();
        let kept = match stage {
            BatchStage::Commit(row) => row as int,
            BatchStage::CommitState(row) => row + 1,
            BatchStage::AbortRow(_) | BatchStage::ReleaseRow(_) | BatchStage::Finished => before,
            _ => 0,
        };
        if !after.broken {
            assert(!ledger.broken);
            assert forall|j: int| 0 <= j < after.holds.len() implies hold_at(
                next,
                kept,
                j,
                #[trigger] after.holds[j],
            ) by {
                assert(hold_at(stage, before, j, ledger.holds[j]));
            }
        }
        kept
    }
}

/// However its calls turn out, a batch that is over holds neither a reservation nor an open
/// recurrent transaction. Where no error is reported, every sequence has committed its rows and
/// its state; where one is, the sequences before the failed commit have, and no other has kept
/// anything, unless a roll-back or the commit of a state itself has failed.
pub proof fn law_batch_commits_a_prefix(rows: usize, results: Seq<bool>)
    requires
        run_batch(rows, results).0 == BatchStage::Finished,
        !run_batch(rows, results).1.broken,
    ensures
        ({
            let ledger = run_batch(rows, results).1;
            &&& ledger.holds.len() == rows
            &&& exists|kept: int| kept_up_to(ledger.holds, kept)
            &&& !ledger.failed ==> kept_up_to(ledger.holds, rows as int)
        }),
{
    let kept = lemma_holds(rows, results);
    let ledger = run_batch(rows, results).1;
    assert forall|j: int| 0 <= j < ledger.holds.len() implies if j < kept {
        (#[trigger] ledger.holds[j]) is Kept
    } else {
        ledger.holds[j] is Free
    } by {
        assert(hold_at(BatchStage::Finished, kept, j, ledger.holds[j]));
    }
    assert(kept_up_to(ledger.holds, kept));
}

/// Rows by which a sequence has advanced: those of its state commits that succeeded.
pub open spec fn rows_advanced(lengths: Seq<usize>, results: Seq<bool>, sequence: int) -> int
    decreases results.len(),
{
    if results.len() == 0 {
        0
    } else {
        let stage = run_batch(lengths.len() as usize, results.drop_last()).0;
        rows_advanced(lengths, results.drop_last(), sequence) + if results.last() && stage
            == BatchStage::CommitState(sequence as usize) {
            stage_rows(stage, lengths) as int
        } else {
            0
        }
    }
}

/// A sequence that a batch has kept has advanced by exactly the rows that it appends, and no
/// other sequence has advanced, unless a roll-back or the commit of a state itself has failed.
pub proof fn law_kept_rows_advance_once(lengths: Seq<usize>, results: Seq<bool>, sequence: int)
    requires
        lengths.len() <= usize::MAX,
        0 <= sequence < lengths.len(),
        !run_batch(lengths.len() as usize, results).1.broken,
    ensures
        rows_advanced(lengths, results, sequence) == if run_batch(
            lengths.len() as usize,
            results,
        ).1.holds[sequence] is Kept {
            lengths[sequence] as int
        } else {
            0
        },
    decreases results.len(),
{
    if results.len() > 0 {
        let rows = lengths.len() as usize;
        let (stage, ledger) = run_batch(rows, results.drop_last());
        let after = run_batch(rows, results).1;
        assert(!ledger.broken);
        law_kept_rows_advance_once(lengths, results.drop_last(), sequence);
        let kept = lemma_holds(rows, results.drop_last());
        assert(hold_at(stage, kept, sequence, ledger.holds[sequence]));
    }
}

/// A batch whose forward pass, or anything before it, failed keeps nothing.
pub proof fn law_failed_pass_keeps_nothing(rows: usize, results: Seq<bool>, more: Seq<bool>)
    requires
        !results.last(),
        results.len() > 0,
        ({
            let stage = run_batch(rows, results.drop_last()).0;
            stage is Reserve || stage is Begin || stage is Body
        }),
        run_batch(rows, results + more).0 == BatchStage::Finished,
        !run_batch(rows, results + more).1.broken,
    ensures
        kept_up_to(run_batch(rows, results + more).1.holds, 0),
{
    lemma_keeps_nothing(rows, results, more);
    let ledger = run_batch(rows, results + more).1;
    let kept = lemma_holds(rows, results + more);
    assert forall|j: int| 0 <= j < ledger.holds.len() implies (
    #[trigger] ledger.holds[j]) is Free by {
        assert(hold_at(BatchStage::Finished, kept, j, ledger.holds[j]));
    }
}

proof fn lemma_keeps_nothing(rows: usize, results: Seq<bool>, more: Seq<bool>)
    requires
        !results.last(),
        results.len() > 0,
        ({
            let stage = run_batch(rows, results.drop_last()).0;
            stage is Reserve || stage is Begin || stage is Body
        }),
        !run_batch(rows, results + more).1.broken,
    ensures
        ({
            let (stage, ledger) = run_batch(rows, results + more);
            &&& stage is UndoBegin || stage is Rollback || stage is Release || stage is Finished
            &&& forall|j: int|
                0 <= j < ledger.holds.len() ==> !((#[trigger] ledger.holds[j]) is Kept)
        }),
    decreases more.len(),
{
    if more.len() == 0 {
        assert(results + more =~= results);
        let kept = lemma_holds(rows, results.drop_last());
        let (stage, ledger) = run_batch(rows, results.drop_last());
        let after = run_batch(rows, results).1;
        assert(after.holds == ledger.holds);
        assert forall|j: int| 0 <= j < after.holds.len() implies !((
        #[trigger] after.holds[j]) is Kept) by {
            assert(hold_at(stage, kept, j, ledger.holds[j]));
        }
    } else {
        assert((results + more).drop_last() =~= results + more.drop_last());
        let before = run_batch(rows, results + more.drop_last()).1;
        assert(!before.broken);
        lemma_keeps_nothing(rows, results, more.drop_last());
    }
}

/// Most calls that can still follow.
spec fn distance(rows: int, stage: BatchStage) -> int {
    match stage {
        BatchStage::Reserve(row) => 4 * rows - row + 2,
        BatchStage::Begin(row) => 3 * rows - row + 2,
        BatchStage::Body => 2 * rows + 2,
        BatchStage::Commit(row) => 2 * (rows - row) + 1,
        BatchStage::CommitState(row) => 2 * (rows - row),
        BatchStage::UndoBegin { row, until } => until - row + rows,
        BatchStage::Rollback(row) => rows - row + rows,
        BatchStage::Release { row, until } => until - row,
        BatchStage::AbortRow(row) => 2 * (rows - row),
        BatchStage::ReleaseRow(row) => 2 * (rows - row) - 1,
        BatchStage::Finished => 0,
    }
}

/// Every call leads closer to the end: a batch makes at most four calls for each sequence and
/// two more.
pub proof fn law_batch_ends(rows: usize, results: Seq<bool>)
    requires
        results.len() >= 4 * rows + 2,
    ensures
        run_batch(rows, results).0 == BatchStage::Finished,
{
    lemma_distance(rows, results);
}

proof fn lemma_distance(rows: usize, results: Seq<bool>)
    ensures
        run_batch(rows, results).0 == BatchStage::Finished || (distance(
            rows as int,
            run_batch(rows, results).0,
        ) + results.len() <= 4 * rows + 2 && distance(rows as int, run_batch(rows, results).0) > 0),
    decreases results.len(),
{
    if results.len() > 0 {
        lemma_distance(rows, results.drop_last());
        let kept = lemma_holds(rows, results.drop_last());
    }
}

} // verus!
