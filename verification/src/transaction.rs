//! Order of the cache and state calls around one append.
//!
//! An append reserves cache rows, starts the recurrent transaction of its sequence, runs the
//! forward pass, and then commits both or rolls both back. The calls themselves may fail. The
//! transaction says which call comes next after each result, and which error is reported.

use vstd::prelude::*;

verus! {

/// Differences between the kinds of append.
#[derive(Clone, Copy, Debug, PartialEq, Eq, Structural)]
pub struct AppendPolicy {
    /// Whether the sequence carries recurrent state besides its cache pages.
    pub stateful: bool,
    /// Whether embedding rows are read from storage for the tokens.
    pub reads: bool,
    /// Whether a reservation whose commit failed is released. Otherwise it is left to the cache.
    pub release_after_commit: bool,
    /// Whether the first error is reported, and every roll-back made, even where a roll-back
    /// fails. Otherwise a failed roll-back is reported and ends the append.
    pub first_error_stands: bool,
}

impl AppendPolicy {
    /// An ordinary prompt chunk or decode token of Flash Next.
    pub fn forward() -> (policy: Self)
        ensures
            policy == (AppendPolicy {
                stateful: true,
                reads: true,
                release_after_commit: true,
                first_error_stands: false,
            }),
    {
        Self { stateful: true, reads: true, release_after_commit: true, first_error_stands: false }
    }

    /// A verification pass of Flash Next. A failed cache commit leaves the reservation to the
    /// cache.
    pub fn verification() -> (policy: Self)
        ensures
            policy == (AppendPolicy {
                stateful: true,
                reads: true,
                release_after_commit: false,
                first_error_stands: false,
            }),
    {
        Self { stateful: true, reads: true, release_after_commit: false, first_error_stands: false }
    }

    /// One token of the Flash Next draft block.
    pub fn draft_token() -> (policy: Self)
        ensures
            policy == (AppendPolicy {
                stateful: false,
                reads: false,
                release_after_commit: false,
                first_error_stands: false,
            }),
    {
        Self {
            stateful: false,
            reads: false,
            release_after_commit: false,
            first_error_stands: false,
        }
    }

    /// A prompt chunk of the Flash Next draft block.
    pub fn draft_prompt() -> (policy: Self)
        ensures
            policy == (AppendPolicy {
                stateful: false,
                reads: false,
                release_after_commit: true,
                first_error_stands: false,
            }),
    {
        Self { stateful: false, reads: false, release_after_commit: true, first_error_stands: false }
    }

    /// A verification pass of the hybrid model.
    pub fn hybrid_verification() -> (policy: Self)
        ensures
            policy == (AppendPolicy {
                stateful: true,
                reads: false,
                release_after_commit: false,
                first_error_stands: true,
            }),
    {
        Self { stateful: true, reads: false, release_after_commit: false, first_error_stands: true }
    }
}

/// The call that an append makes next.
#[derive(Clone, Copy, Debug, PartialEq, Eq, Structural)]
pub enum AppendStage {
    /// Reserve the rows in the sequence cache.
    Reserve,
    /// Start the recurrent transaction of the sequence.
    BeginState,
    /// Hash the tokens and start reading their embedding rows.
    BeginRead,
    /// Run the forward pass.
    Body,
    /// Take the recurrent state back to the accepted rows.
    Restore,
    /// Commit the rows in the sequence cache.
    CommitCache,
    /// Commit the recurrent transaction.
    CommitState,
    /// Roll the recurrent transaction back, then release the reservation.
    AbortState,
    /// Roll the recurrent transaction back after a failed cache commit, and release the
    /// reservation whatever comes of it.
    AbortStateAlways,
    /// Roll the recurrent transaction back, with no reservation left.
    AbortStateOnly,
    /// Release the reservation.
    AbortCache,
    /// The append is over.
    Finished,
}

/// What came of the latest call.
#[derive(Clone, Copy, Debug, PartialEq, Eq, Structural)]
pub enum AppendOutcome<E> {
    /// It succeeded.
    Done,
    /// The forward pass succeeded and only a part of its rows is kept.
    DoneInPart,
    /// It failed.
    Failed(E),
}

/// Whether the call succeeded, and whether only a part of its rows is kept.
pub open spec fn outcome_result<E>(outcome: AppendOutcome<E>) -> (bool, bool) {
    match outcome {
        AppendOutcome::Done => (true, false),
        AppendOutcome::DoneInPart => (true, true),
        AppendOutcome::Failed(_) => (false, false),
    }
}

/// Stage after a call that succeeded.
pub open spec fn stage_after_success(
    policy: AppendPolicy,
    stage: AppendStage,
    in_part: bool,
) -> AppendStage {
    match stage {
        AppendStage::Reserve => if policy.stateful {
            AppendStage::BeginState
        } else {
            AppendStage::Body
        },
        AppendStage::BeginState => if policy.reads {
            AppendStage::BeginRead
        } else {
            AppendStage::Body
        },
        AppendStage::BeginRead => AppendStage::Body,
        AppendStage::Body => if in_part {
            AppendStage::Restore
        } else {
            AppendStage::CommitCache
        },
        AppendStage::Restore => AppendStage::CommitCache,
        AppendStage::CommitCache => if policy.stateful {
            AppendStage::CommitState
        } else {
            AppendStage::Finished
        },
        AppendStage::AbortState | AppendStage::AbortStateAlways => AppendStage::AbortCache,
        AppendStage::CommitState | AppendStage::AbortStateOnly | AppendStage::AbortCache
        | AppendStage::Finished => AppendStage::Finished,
    }
}

/// Stage after a call that failed.
pub open spec fn stage_after_failure(policy: AppendPolicy, stage: AppendStage) -> AppendStage {
    match stage {
        AppendStage::BeginState => AppendStage::AbortCache,
        AppendStage::BeginRead | AppendStage::Body | AppendStage::Restore => if policy.stateful {
            AppendStage::AbortState
        } else {
            AppendStage::AbortCache
        },
        AppendStage::CommitCache => if policy.stateful {
            if policy.release_after_commit {
                AppendStage::AbortStateAlways
            } else {
                AppendStage::AbortStateOnly
            }
        } else if policy.release_after_commit {
            AppendStage::AbortCache
        } else {
            AppendStage::Finished
        },
        AppendStage::AbortState => if policy.first_error_stands {
            AppendStage::AbortCache
        } else {
            AppendStage::Finished
        },
        AppendStage::AbortStateAlways => AppendStage::AbortCache,
        AppendStage::Reserve | AppendStage::CommitState | AppendStage::AbortStateOnly
        | AppendStage::AbortCache | AppendStage::Finished => AppendStage::Finished,
    }
}

/// Rows that a call reserves or commits, for an append of `rows` rows of which `kept` are kept.
pub open spec fn stage_rows(stage: AppendStage, rows: usize, kept: usize) -> usize {
    match stage {
        AppendStage::Reserve => rows,
        AppendStage::CommitCache | AppendStage::CommitState => kept,
        _ => 0,
    }
}

/// Whether a stage comes before the recurrent state can have been taken back.
pub open spec fn before_restore(stage: AppendStage) -> bool {
    stage == AppendStage::Reserve || stage == AppendStage::BeginState || stage
        == AppendStage::BeginRead || stage == AppendStage::Body || stage == AppendStage::Restore
}

/// Whether a stage rolls back.
pub open spec fn rolls_back(stage: AppendStage) -> bool {
    stage == AppendStage::AbortState || stage == AppendStage::AbortStateAlways || stage
        == AppendStage::AbortStateOnly || stage == AppendStage::AbortCache
}

/// The error to report after a call has failed with `error`.
pub open spec fn failure_after<E>(
    policy: AppendPolicy,
    stage: AppendStage,
    failure: Option<E>,
    error: E,
) -> Option<E> {
    if policy.first_error_stands && rolls_back(stage) {
        failure
    } else {
        Some(error)
    }
}

/// One append in progress.
pub struct AppendTransaction<E> {
    policy: AppendPolicy,
    stage: AppendStage,
    failure: Option<E>,
}

impl<E> AppendTransaction<E> {
    /// Rules of this append.
    pub closed spec fn spec_policy(self) -> AppendPolicy {
        self.policy
    }

    /// The call to make next.
    pub closed spec fn spec_stage(self) -> AppendStage {
        self.stage
    }

    /// The error to report, as far as the calls have gone.
    pub closed spec fn spec_failure(self) -> Option<E> {
        self.failure
    }

    /// Whether this append is where these results of its calls lead: at the same stage, with an
    /// error to report where the ledger has one.
    pub open spec fn follows(self, results: Seq<(bool, bool)>) -> bool {
        let (stage, ledger) = run_append(self.spec_policy(), results);
        self.spec_stage() == stage && (self.spec_failure() is Some) == ledger.failed
    }

    /// Starts an append.
    pub fn new(policy: AppendPolicy) -> (append: Self)
        ensures
            append.spec_policy() == policy,
            append.spec_stage() == AppendStage::Reserve,
            append.spec_failure() is None,
            append.follows(seq![]),
    {
        Self { policy, stage: AppendStage::Reserve, failure: None }
    }

    /// The call to make next.
    pub fn stage(&self) -> (stage: AppendStage)
        ensures
            stage == self.spec_stage(),
    {
        self.stage
    }

    /// Rows that the call to make next reserves or commits, for an append of `rows` rows of which
    /// `kept` are kept.
    pub fn call_rows(&self, rows: usize, kept: usize) -> (count: usize)
        ensures
            count == stage_rows(self.spec_stage(), rows, kept),
    {
        match self.stage {
            AppendStage::Reserve => rows,
            AppendStage::CommitCache | AppendStage::CommitState => kept,
            _ => 0,
        }
    }

    /// Takes the result of the call that was made.
    ///
    /// Once the append is over nothing changes.
    pub fn step(&mut self, outcome: AppendOutcome<E>)
        ensures
            forall|results: Seq<(bool, bool)>| #[trigger]
                old(self).follows(results) ==> final(self).follows(
                    results.push(outcome_result(outcome)),
                ),
            final(self).spec_policy() == old(self).spec_policy(),
            old(self).spec_stage() == AppendStage::Finished ==> *final(self) == *old(self),
            old(self).spec_stage() != AppendStage::Finished ==> match outcome {
                AppendOutcome::Failed(error) => {
                    &&& final(self).spec_stage() == stage_after_failure(
                        old(self).spec_policy(),
                        old(self).spec_stage(),
                    )
                    &&& final(self).spec_failure() == failure_after(
                        old(self).spec_policy(),
                        old(self).spec_stage(),
                        old(self).spec_failure(),
                        error,
                    )
                },
                AppendOutcome::Done => {
                    &&& final(self).spec_stage() == stage_after_success(
                        old(self).spec_policy(),
                        old(self).spec_stage(),
                        false,
                    )
                    &&& final(self).spec_failure() == old(self).spec_failure()
                },
                AppendOutcome::DoneInPart => {
                    &&& final(self).spec_stage() == stage_after_success(
                        old(self).spec_policy(),
                        old(self).spec_stage(),
                        true,
                    )
                    &&& final(self).spec_failure() == old(self).spec_failure()
                },
            },
    {
        proof {
            assert forall|results: Seq<(bool, bool)>| #[trigger] old(self).follows(results) implies
                results.push(outcome_result(outcome)).drop_last() == results && (rolls_back(
                old(self).spec_stage(),
            ) ==> old(self).spec_failure() is Some) by {
                assert(results.push(outcome_result(outcome)).drop_last() =~= results);
                lemma_rollback_follows_failure(old(self).spec_policy(), results);
            }
        }
        if self.stage == AppendStage::Finished {
            return;
        }
        let stage = self.stage;
        match outcome {
            AppendOutcome::Failed(error) => {
                let rollback = matches!(
                    stage,
                    AppendStage::AbortState | AppendStage::AbortStateAlways
                        | AppendStage::AbortStateOnly | AppendStage::AbortCache
                );
                if !(self.policy.first_error_stands && rollback) {
                    self.failure = Some(error);
                }
                self.stage = after_failure(self.policy, stage);
            },
            AppendOutcome::Done => {
                self.stage = after_success(self.policy, stage, false);
            },
            AppendOutcome::DoneInPart => {
                self.stage = after_success(self.policy, stage, true);
            },
        }
    }

    /// Hands out the error to report.
    pub fn take_failure(&mut self) -> (failure: Option<E>)
        ensures
            failure == old(self).spec_failure(),
            final(self).spec_failure() is None,
            final(self).spec_policy() == old(self).spec_policy(),
            final(self).spec_stage() == old(self).spec_stage(),
    {
        self.failure.take()
    }

    /// Ends the append and hands out the error to report.
    pub fn finish(self) -> (result: Result<(), E>)
        requires
            self.spec_stage() == AppendStage::Finished,
        ensures
            match result {
                Ok(_) => self.spec_failure() is None,
                Err(error) => self.spec_failure() == Some(error),
            },
    {
        match self.failure {
            None => Ok(()),
            Some(error) => Err(error),
        }
    }
}

fn after_success(policy: AppendPolicy, stage: AppendStage, in_part: bool) -> (next: AppendStage)
    ensures
        next == stage_after_success(policy, stage, in_part),
{
    match stage {
        AppendStage::Reserve => if policy.stateful {
            AppendStage::BeginState
        } else {
            AppendStage::Body
        },
        AppendStage::BeginState => if policy.reads {
            AppendStage::BeginRead
        } else {
            AppendStage::Body
        },
        AppendStage::BeginRead => AppendStage::Body,
        AppendStage::Body => if in_part {
            AppendStage::Restore
        } else {
            AppendStage::CommitCache
        },
        AppendStage::Restore => AppendStage::CommitCache,
        AppendStage::CommitCache => if policy.stateful {
            AppendStage::CommitState
        } else {
            AppendStage::Finished
        },
        AppendStage::AbortState | AppendStage::AbortStateAlways => AppendStage::AbortCache,
        _ => AppendStage::Finished,
    }
}

fn after_failure(policy: AppendPolicy, stage: AppendStage) -> (next: AppendStage)
    ensures
        next == stage_after_failure(policy, stage),
{
    match stage {
        AppendStage::BeginState => AppendStage::AbortCache,
        AppendStage::BeginRead | AppendStage::Body | AppendStage::Restore => if policy.stateful {
            AppendStage::AbortState
        } else {
            AppendStage::AbortCache
        },
        AppendStage::CommitCache => if policy.stateful {
            if policy.release_after_commit {
                AppendStage::AbortStateAlways
            } else {
                AppendStage::AbortStateOnly
            }
        } else if policy.release_after_commit {
            AppendStage::AbortCache
        } else {
            AppendStage::Finished
        },
        AppendStage::AbortState => if policy.first_error_stands {
            AppendStage::AbortCache
        } else {
            AppendStage::Finished
        },
        AppendStage::AbortStateAlways => AppendStage::AbortCache,
        _ => AppendStage::Finished,
    }
}

/// What an append holds and has done.
pub struct AppendLedger {
    /// A cache reservation is open.
    pub reserved: bool,
    /// The commit of the rows has failed.
    pub commit_failed: bool,
    /// A recurrent transaction is open.
    pub begun: bool,
    /// The rows are committed in the cache.
    pub rows_committed: bool,
    /// The recurrent transaction is committed.
    pub state_committed: bool,
    /// A call has failed, so that an error is reported.
    pub failed: bool,
    /// A call that rolls back, or the commit of the recurrent transaction, has failed.
    pub broken: bool,
}

/// The ledger of an append that has made no call.
pub open spec fn fresh_ledger() -> AppendLedger {
    AppendLedger {
        reserved: false,
        commit_failed: false,
        begun: false,
        rows_committed: false,
        state_committed: false,
        failed: false,
        broken: false,
    }
}

/// The ledger after one more call. A failed commit leaves the reservation open.
pub open spec fn ledger_after(
    ledger: AppendLedger,
    stage: AppendStage,
    ok: bool,
) -> AppendLedger {
    let ledger = AppendLedger { failed: ledger.failed || !ok, ..ledger };
    match stage {
        AppendStage::Reserve => AppendLedger { reserved: ok, ..ledger },
        AppendStage::BeginState => AppendLedger { begun: ok, ..ledger },
        AppendStage::CommitCache => AppendLedger {
            reserved: !ok,
            commit_failed: !ok,
            rows_committed: ok,
            ..ledger
        },
        AppendStage::CommitState => AppendLedger {
            begun: !ok,
            state_committed: ok,
            broken: ledger.broken || !ok,
            ..ledger
        },
        AppendStage::AbortState | AppendStage::AbortStateAlways
        | AppendStage::AbortStateOnly => AppendLedger {
            begun: !ok,
            broken: ledger.broken || !ok,
            ..ledger
        },
        AppendStage::AbortCache => AppendLedger {
            reserved: !ok,
            broken: ledger.broken || !ok,
            ..ledger
        },
        _ => ledger,
    }
}

/// A run of an append over the results of its calls: whether each succeeded, and whether a
/// successful pass keeps only a part of its rows.
pub open spec fn run_append(
    policy: AppendPolicy,
    results: Seq<(bool, bool)>,
) -> (AppendStage, AppendLedger)
    decreases results.len(),
{
    if results.len() == 0 {
        (AppendStage::Reserve, fresh_ledger())
    } else {
        let (stage, ledger) = run_append(policy, results.drop_last());
        let (ok, in_part) = results.last();
        if stage == AppendStage::Finished {
            (stage, ledger)
        } else {
            (
                if ok {
                    stage_after_success(policy, stage, in_part)
                } else {
                    stage_after_failure(policy, stage)
                },
                ledger_after(ledger, stage, ok),
            )
        }
    }
}

proof fn lemma_rollback_follows_failure(policy: AppendPolicy, results: Seq<(bool, bool)>)
    ensures
        rolls_back(run_append(policy, results).0) ==> run_append(policy, results).1.failed,
    decreases results.len(),
{
    if results.len() > 0 {
        lemma_rollback_follows_failure(policy, results.drop_last());
    }
}

/// What the ledger holds at each stage, as long as no roll-back has failed.
spec fn ledger_matches(policy: AppendPolicy, stage: AppendStage, ledger: AppendLedger) -> bool {
    let nothing_kept = !ledger.rows_committed && !ledger.state_committed;
    !ledger.broken ==> match stage {
        AppendStage::Reserve | AppendStage::BeginState | AppendStage::BeginRead
        | AppendStage::Body | AppendStage::Restore | AppendStage::CommitCache => {
            &&& ledger.reserved == (stage != AppendStage::Reserve)
            &&& ledger.begun == (policy.stateful && stage != AppendStage::Reserve && stage
                != AppendStage::BeginState)
            &&& nothing_kept
            &&& !ledger.commit_failed
            &&& !ledger.failed
        },
        AppendStage::CommitState => !ledger.failed && !ledger.reserved && ledger.begun
            && ledger.rows_committed && !ledger.state_committed && !ledger.commit_failed,
        AppendStage::AbortState => ledger.failed && ledger.reserved && ledger.begun && nothing_kept
            && !ledger.commit_failed,
        AppendStage::AbortStateAlways => ledger.failed && ledger.reserved && ledger.begun
            && nothing_kept && policy.release_after_commit,
        AppendStage::AbortStateOnly => ledger.failed && ledger.reserved && ledger.begun
            && nothing_kept && ledger.commit_failed && !policy.release_after_commit,
        AppendStage::AbortCache => ledger.failed && ledger.reserved && !ledger.begun && nothing_kept
            && (ledger.commit_failed ==> policy.release_after_commit),
        AppendStage::Finished => {
            &&& ledger.reserved == (ledger.commit_failed && !policy.release_after_commit)
            &&& !ledger.begun
            &&& ledger.rows_committed == !ledger.failed
            &&& ledger.state_committed == (ledger.rows_committed && policy.stateful)
        },
    }
}

proof fn lemma_ledger_matches(policy: AppendPolicy, results: Seq<(bool, bool)>)
    ensures
        ledger_matches(policy, run_append(policy, results).0, run_append(policy, results).1),
    decreases results.len(),
{
    if results.len() > 0 {
        lemma_ledger_matches(policy, results.drop_last());
    }
}

/// However its calls turn out, an append that is over has no open recurrent transaction. It has
/// committed its rows and its state where no error is reported, and neither where one is, unless
/// a roll-back or the commit of the state itself has failed. It holds a reservation only where
/// the commit of its rows has failed and its policy leaves such a reservation to the cache.
pub proof fn law_append_is_all_or_nothing(policy: AppendPolicy, results: Seq<(bool, bool)>)
    requires
        run_append(policy, results).0 == AppendStage::Finished,
        !run_append(policy, results).1.broken,
    ensures
        ({
            let ledger = run_append(policy, results).1;
            &&& ledger.reserved == (ledger.commit_failed && !policy.release_after_commit)
            &&& !ledger.begun
            &&& ledger.rows_committed == !ledger.failed
            &&& policy.stateful ==> ledger.state_committed == !ledger.failed
        }),
{
    lemma_ledger_matches(policy, results);
}

/// Every call leads closer to the end: an append is over after at most eight calls.
pub proof fn law_append_ends(policy: AppendPolicy, results: Seq<(bool, bool)>)
    requires
        results.len() >= 8,
    ensures
        run_append(policy, results).0 == AppendStage::Finished,
{
    lemma_distance(policy, results);
}

/// Most calls that can still follow.
spec fn distance(stage: AppendStage) -> nat {
    match stage {
        AppendStage::Reserve => 8,
        AppendStage::BeginState => 7,
        AppendStage::BeginRead => 6,
        AppendStage::Body => 5,
        AppendStage::Restore => 4,
        AppendStage::CommitCache => 3,
        AppendStage::CommitState => 1,
        AppendStage::AbortState | AppendStage::AbortStateAlways => 2,
        AppendStage::AbortStateOnly => 1,
        AppendStage::AbortCache => 1,
        AppendStage::Finished => 0,
    }
}

proof fn lemma_distance(policy: AppendPolicy, results: Seq<(bool, bool)>)
    ensures
        run_append(policy, results).0 == AppendStage::Finished || distance(
            run_append(policy, results).0,
        ) + results.len() <= 8,
    decreases results.len(),
{
    if results.len() > 0 {
        lemma_distance(policy, results.drop_last());
    }
}

} // verus!
