//! Acceptance of drafted tokens, and the order of the calls of one speculative cycle.

use crate::transaction::{AppendOutcome, AppendPolicy, AppendStage, AppendTransaction};
use vstd::prelude::*;

verus! {

/// Whether `accepted` is the length of the longest prefix of `drafted` that agrees with the
/// target's choices.
pub open spec fn is_accepted(drafted: Seq<u32>, chosen: Seq<u32>, accepted: int) -> bool {
    &&& 0 <= accepted <= drafted.len()
    &&& accepted <= chosen.len()
    &&& forall|i: int| 0 <= i < accepted ==> #[trigger] drafted[i] == chosen[i]
    &&& accepted < drafted.len() && accepted < chosen.len() ==> drafted[accepted]
        != chosen[accepted]
}

/// Counts the leading drafts that the target chose as well.
pub fn accepted_drafts(drafted: &[u32], chosen: &[u32]) -> (accepted: usize)
    ensures
        is_accepted(drafted@, chosen@, accepted as int),
{
    let mut accepted: usize = 0;
    while accepted < drafted.len() && accepted < chosen.len() && drafted[accepted]
        == chosen[accepted]
        invariant
            accepted <= drafted@.len(),
            accepted <= chosen@.len(),
            forall|i: int| 0 <= i < accepted ==> #[trigger] drafted@[i] == chosen@[i],
        decreases drafted@.len() - accepted,
    {
        accepted += 1;
    }
    accepted
}

/// Logits of the committed tokens: the frontier's, then those of the accepted drafts.
pub fn align_speculative_committed_logits<T: Copy>(
    frontier_logit: T,
    next_logits: &[T],
    accepted_drafts: usize,
) -> (committed: Vec<T>)
    requires
        accepted_drafts <= next_logits@.len(),
    ensures
        committed@ == seq![frontier_logit] + next_logits@.take(accepted_drafts as int),
{
    let mut committed: Vec<T> = Vec::new();
    committed.push(frontier_logit);
    let mut i: usize = 0;
    while i < accepted_drafts
        invariant
            i <= accepted_drafts,
            accepted_drafts <= next_logits@.len(),
            committed@ == seq![frontier_logit] + next_logits@.take(i as int),
        decreases accepted_drafts - i,
    {
        committed.push(next_logits[i]);
        i += 1;
        assert(committed@ =~= seq![frontier_logit] + next_logits@.take(i as int));
    }
    committed
}

/// The tokens that a verification pass runs over: the frontier, then the drafts.
pub open spec fn proposal(frontier: u32, drafted: Seq<u32>) -> Seq<u32> {
    seq![frontier] + drafted
}

/// Outcome of one verification pass.
pub struct Verification<T> {
    /// Number of accepted drafts.
    pub accepted: usize,
    /// Rows to commit: the frontier and the accepted drafts.
    pub committed_rows: usize,
    /// Committed tokens.
    pub committed: Vec<u32>,
    /// Logit of each committed token.
    pub committed_logits: Vec<T>,
    /// The target's token for the position after the committed ones, with its logit.
    pub next: Option<(u32, T)>,
}

/// Accepts the longest prefix of the drafts that the target chose as well.
///
/// `chosen` holds the target's token after each verified row, `next_logits` their logits. A
/// constrained target may have chosen for the leading rows only.
pub fn verify_drafts<T: Copy>(
    frontier: u32,
    frontier_logit: T,
    drafted: &[u32],
    chosen: &[u32],
    next_logits: &[T],
) -> (outcome: Verification<T>)
    requires
        drafted@.len() < usize::MAX,
        chosen@.len() == next_logits@.len(),
    ensures
        is_accepted(drafted@, chosen@, outcome.accepted as int),
        outcome.committed_rows == outcome.accepted + 1,
        outcome.committed@ == proposal(frontier, drafted@).take(outcome.accepted + 1),
        outcome.committed_logits@ == seq![frontier_logit] + next_logits@.take(
            outcome.accepted as int,
        ),
        outcome.next == if outcome.accepted < chosen@.len() {
            Some((chosen@[outcome.accepted as int], next_logits@[outcome.accepted as int]))
        } else {
            None
        },
{
    let accepted: usize = accepted_drafts(drafted, chosen);
    let mut committed: Vec<u32> = Vec::new();
    committed.push(frontier);
    let mut i: usize = 0;
    assert(committed@ =~= proposal(frontier, drafted@).take(1));
    while i < accepted
        invariant
            i <= accepted,
            accepted <= drafted@.len(),
            committed@ == proposal(frontier, drafted@).take(i + 1),
        decreases accepted - i,
    {
        committed.push(drafted[i]);
        i += 1;
        assert(committed@ =~= proposal(frontier, drafted@).take(i + 1));
    }
    let committed_logits =
        align_speculative_committed_logits(frontier_logit, next_logits, accepted);
    let next = if accepted < chosen.len() {
        Some((chosen[accepted], next_logits[accepted]))
    } else {
        None
    };
    Verification { accepted, committed_rows: accepted + 1, committed, committed_logits, next }
}

/// The first `count` tokens of greedy decoding from a history and a first token.
pub open spec fn greedy(
    target: spec_fn(Seq<u32>) -> u32,
    history: Seq<u32>,
    frontier: u32,
    count: nat,
) -> Seq<u32>
    decreases count,
{
    if count == 0 {
        seq![]
    } else if count == 1 {
        seq![frontier]
    } else {
        let earlier = greedy(target, history, frontier, (count - 1) as nat);
        earlier.push(target(history + earlier))
    }
}

/// Whether `chosen` is what the target chooses after each row of a proposal.
pub open spec fn is_target_choice(
    target: spec_fn(Seq<u32>) -> u32,
    history: Seq<u32>,
    rows: Seq<u32>,
    chosen: Seq<u32>,
) -> bool {
    &&& chosen.len() <= rows.len()
    &&& forall|i: int|
        0 <= i < chosen.len() ==> #[trigger] chosen[i] == target(history + rows.take(i + 1))
}

/// Speculation changes nothing but speed: whatever was drafted, the committed tokens are the
/// ones that greedy decoding gives, and the new frontier is the token that follows them.
pub proof fn law_speculation_equals_greedy_decoding(
    target: spec_fn(Seq<u32>) -> u32,
    history: Seq<u32>,
    frontier: u32,
    drafted: Seq<u32>,
    chosen: Seq<u32>,
    accepted: int,
)
    requires
        is_target_choice(target, history, proposal(frontier, drafted), chosen),
        is_accepted(drafted, chosen, accepted),
    ensures
        proposal(frontier, drafted).take(accepted + 1) == greedy(
            target,
            history,
            frontier,
            (accepted + 1) as nat,
        ),
        accepted < chosen.len() ==> chosen[accepted] == greedy(
            target,
            history,
            frontier,
            (accepted + 2) as nat,
        ).last(),
{
    lemma_prefix_is_greedy(target, history, frontier, drafted, chosen, accepted, accepted + 1);
}

proof fn lemma_prefix_is_greedy(
    target: spec_fn(Seq<u32>) -> u32,
    history: Seq<u32>,
    frontier: u32,
    drafted: Seq<u32>,
    chosen: Seq<u32>,
    accepted: int,
    count: int,
)
    requires
        is_target_choice(target, history, proposal(frontier, drafted), chosen),
        is_accepted(drafted, chosen, accepted),
        1 <= count <= accepted + 1,
    ensures
        proposal(frontier, drafted).take(count) == greedy(
            target,
            history,
            frontier,
            count as nat,
        ),
    decreases count,
{
    let rows = proposal(frontier, drafted);
    if count == 1 {
        assert(rows.take(1) =~= seq![frontier]);
    } else {
        lemma_prefix_is_greedy(target, history, frontier, drafted, chosen, accepted, count - 1);
        assert(drafted[count - 2] == chosen[count - 2]);
        assert(chosen[count - 2] == target(history + rows.take(count - 1)));
        assert(rows.take(count) =~= rows.take(count - 1).push(rows[count - 1]));
    }
}


/// Where the drafts of a cycle come from.
#[derive(Clone, Copy, Debug, PartialEq, Eq, Structural)]
pub enum CycleKind {
    /// The one-layer draft block of Flash Next, one draft for each cycle. Every failure is
    /// reported.
    Native,
    /// A chain of drafts of the hybrid model. Once the target has committed, a drafter that
    /// cannot follow is emptied and the committed result stands.
    Chained,
    /// A proposal from elsewhere. There is no drafter to keep in step.
    External,
}

/// The call that a cycle makes next.
#[derive(Clone, Copy, Debug, PartialEq, Eq, Structural)]
pub enum CycleStage {
    /// Draft tokens from the frontier.
    Draft,
    /// The next call of the target's append.
    Append,
    /// Keep only the drafter row of the old frontier.
    TruncateDrafts,
    /// Copy the target state before the accepted draft at `index`.
    CatchUpHidden { index: usize },
    /// Append the accepted draft at `index` to the drafter.
    CatchUpAppend { index: usize },
    /// Copy the target state before the new frontier.
    FrontierHidden,
    /// Take the drafter back to its length before the cycle.
    DiscardDrafts,
    /// The cycle is over.
    Finished,
}

/// First call that brings the drafter in step with the target.
pub open spec fn first_catch_up(accepted: usize) -> CycleStage {
    if accepted > 0 {
        CycleStage::CatchUpHidden { index: 0 }
    } else {
        CycleStage::FrontierHidden
    }
}

/// Stage after the target's append is over.
pub open spec fn cycle_after_append(
    kind: CycleKind,
    failed: bool,
    accepted: usize,
    has_next: bool,
) -> CycleStage {
    match kind {
        CycleKind::Native => if failed {
            CycleStage::Finished
        } else {
            first_catch_up(accepted)
        },
        CycleKind::Chained => if failed {
            CycleStage::DiscardDrafts
        } else {
            CycleStage::TruncateDrafts
        },
        CycleKind::External => if !failed && has_next {
            CycleStage::FrontierHidden
        } else {
            CycleStage::Finished
        },
    }
}

/// Whether another cycle can follow, once the target's append is over. A proposal from elsewhere
/// leaves nothing to continue from where the target has chosen no next token.
pub open spec fn ready_after_append(kind: CycleKind, ready: bool, has_next: bool) -> bool {
    ready && (kind != CycleKind::External || has_next)
}

/// Stage after a call outside the target's append.
pub open spec fn cycle_after_call(
    kind: CycleKind,
    stage: CycleStage,
    accepted: usize,
    ok: bool,
) -> CycleStage {
    if !ok {
        match stage {
            CycleStage::DiscardDrafts | CycleStage::Finished => CycleStage::Finished,
            _ => if kind == CycleKind::Chained {
                CycleStage::DiscardDrafts
            } else {
                CycleStage::Finished
            },
        }
    } else {
        match stage {
            CycleStage::Draft => CycleStage::Append,
            CycleStage::TruncateDrafts => first_catch_up(accepted),
            CycleStage::CatchUpHidden { index } => CycleStage::CatchUpAppend { index },
            CycleStage::CatchUpAppend { index } => if index + 1 < accepted {
                CycleStage::CatchUpHidden { index: (index + 1) as usize }
            } else {
                CycleStage::FrontierHidden
            },
            CycleStage::Append => CycleStage::Append,
            CycleStage::FrontierHidden | CycleStage::DiscardDrafts
            | CycleStage::Finished => CycleStage::Finished,
        }
    }
}

/// Whether a failure of this call leaves the committed result standing.
pub open spec fn cycle_tolerates(kind: CycleKind, stage: CycleStage) -> bool {
    kind == CycleKind::Chained && stage != CycleStage::Draft && stage != CycleStage::Append
}

/// Calls of the target's append in a cycle of this kind.
pub open spec fn cycle_policy(kind: CycleKind) -> AppendPolicy {
    if kind == CycleKind::Native {
        AppendPolicy {
            stateful: true,
            reads: true,
            release_after_commit: false,
            first_error_stands: false,
        }
    } else {
        AppendPolicy {
            stateful: true,
            reads: false,
            release_after_commit: false,
            first_error_stands: true,
        }
    }
}

/// One speculative cycle in progress.
pub struct SpeculativeCycle<E> {
    kind: CycleKind,
    stage: CycleStage,
    append: AppendTransaction<E>,
    accepted: usize,
    has_next: bool,
    ready: bool,
    failure: Option<E>,
}

impl<E> SpeculativeCycle<E> {
    /// Where the drafts come from.
    pub closed spec fn spec_kind(self) -> CycleKind {
        self.kind
    }

    /// The call to make next.
    pub closed spec fn spec_stage(self) -> CycleStage {
        self.stage
    }

    /// The target's append.
    pub closed spec fn spec_append(self) -> AppendTransaction<E> {
        self.append
    }

    /// Number of accepted drafts, once the target has verified them.
    pub closed spec fn spec_accepted(self) -> usize {
        self.accepted
    }

    /// Whether the target has chosen a token after the committed ones.
    pub closed spec fn spec_has_next(self) -> bool {
        self.has_next
    }

    /// Whether drafter and frontier are ready for another cycle, as far as the calls have gone.
    pub closed spec fn spec_ready(self) -> bool {
        self.ready
    }

    /// The error to report, as far as the calls have gone.
    pub closed spec fn spec_failure(self) -> Option<E> {
        self.failure
    }

    /// Whether this cycle is where these results of its calls lead: at the same stage, with an
    /// error to report where the run has one.
    pub open spec fn follows(self, drafts: usize, events: Seq<CycleEvent>) -> bool {
        let run = cycle_run(self.spec_kind(), drafts, events);
        &&& self.spec_stage() == run.stage
        &&& self.spec_accepted() == run.accepted
        &&& self.spec_has_next() == run.has_next
        &&& self.spec_ready() == run.ready
        &&& if run.stage == CycleStage::Append || run.stage == CycleStage::Draft {
            &&& self.spec_append().spec_policy() == cycle_policy(self.spec_kind())
            &&& self.spec_append().spec_stage() == run.append
            &&& (self.spec_append().spec_failure() is Some) == run.failed
            &&& self.spec_failure() is None
        } else {
            (self.spec_failure() is Some) == run.failed
        }
    }

    /// Starts a cycle.
    pub fn new(kind: CycleKind) -> (cycle: Self)
        ensures
            cycle.spec_kind() == kind,
            forall|drafts: usize| #[trigger] cycle.follows(drafts, seq![]),
            cycle.spec_stage() == if kind == CycleKind::External {
                CycleStage::Append
            } else {
                CycleStage::Draft
            },
            cycle.spec_append().spec_policy() == cycle_policy(kind),
            cycle.spec_append().spec_stage() == AppendStage::Reserve,
            cycle.spec_append().spec_failure() is None,
            cycle.spec_accepted() == 0,
            !cycle.spec_has_next(),
            cycle.spec_ready(),
            cycle.spec_failure() is None,
    {
        let policy = match kind {
            CycleKind::Native => AppendPolicy::verification(),
            _ => AppendPolicy::hybrid_verification(),
        };
        Self {
            kind,
            stage: match kind {
                CycleKind::External => CycleStage::Append,
                _ => CycleStage::Draft,
            },
            append: AppendTransaction::new(policy),
            accepted: 0,
            has_next: false,
            ready: true,
            failure: None,
        }
    }

    /// The call to make next.
    pub fn stage(&self) -> (stage: CycleStage)
        ensures
            stage == self.spec_stage(),
    {
        self.stage
    }

    /// The call of the target's append to make next.
    pub fn append_stage(&self) -> (stage: AppendStage)
        ensures
            stage == self.spec_append().spec_stage(),
    {
        self.append.stage()
    }

    /// Number of accepted drafts.
    pub fn accepted(&self) -> (accepted: usize)
        ensures
            accepted == self.spec_accepted(),
    {
        self.accepted
    }

    fn append_step(&mut self, outcome: AppendOutcome<E>)
        requires
            old(self).spec_stage() == CycleStage::Append,
            old(self).spec_append().spec_stage() != AppendStage::Finished,
        ensures
            final(self).append_stepped(*old(self), outcome),
            final(self).spec_accepted() == old(self).spec_accepted(),
            final(self).spec_has_next() == old(self).spec_has_next(),
    {
        self.append.step(outcome);
        if self.append.stage() == AppendStage::Finished {
            let failed = self.append.take_failure();
            self.stage =
            match self.kind {
                CycleKind::Native => if failed.is_some() {
                    CycleStage::Finished
                } else {
                    self.catch_up()
                },
                CycleKind::Chained => if failed.is_some() {
                    CycleStage::DiscardDrafts
                } else {
                    CycleStage::TruncateDrafts
                },
                CycleKind::External => if failed.is_none() && self.has_next {
                    CycleStage::FrontierHidden
                } else {
                    CycleStage::Finished
                },
            };
            self.failure = failed;
            match self.kind {
                CycleKind::External => {
                    self.ready = self.ready && self.has_next;
                },
                _ => {},
            }
        }
    }

    /// Result of a call other than a verification pass that succeeded.
    pub open spec fn plain_event(self, ok: bool) -> CycleEvent {
        CycleEvent { ok, accepted: self.spec_accepted(), has_next: self.spec_has_next() }
    }

    /// What one call of the target's append makes of a cycle.
    pub open spec fn append_stepped(self, before: Self, outcome: AppendOutcome<E>) -> bool {
        let policy = before.spec_append().spec_policy();
        let stage = before.spec_append().spec_stage();
        let next = match outcome {
            AppendOutcome::Failed(_) => crate::transaction::stage_after_failure(policy, stage),
            AppendOutcome::Done => crate::transaction::stage_after_success(policy, stage, false),
            AppendOutcome::DoneInPart => crate::transaction::stage_after_success(
                policy,
                stage,
                true,
            ),
        };
        let failure = match outcome {
            AppendOutcome::Failed(error) => crate::transaction::failure_after(
                policy,
                stage,
                before.spec_append().spec_failure(),
                error,
            ),
            _ => before.spec_append().spec_failure(),
        };
        &&& self.spec_kind() == before.spec_kind()
        &&& self.spec_append().spec_policy() == policy
        &&& self.spec_append().spec_stage() == next
        &&& if next == AppendStage::Finished {
            &&& self.spec_ready() == ready_after_append(
                before.spec_kind(),
                before.spec_ready(),
                self.spec_has_next(),
            )
            &&& self.spec_failure() == failure
            &&& self.spec_stage() == cycle_after_append(
                before.spec_kind(),
                failure is Some,
                self.spec_accepted(),
                self.spec_has_next(),
            )
        } else {
            &&& self.spec_ready() == before.spec_ready()
            &&& self.spec_append().spec_failure() == failure
            &&& self.spec_failure() == before.spec_failure()
            &&& self.spec_stage() == CycleStage::Append
        }
    }

    fn catch_up(&self) -> (stage: CycleStage)
        ensures
            stage == first_catch_up(self.spec_accepted()),
    {
        if self.accepted > 0 {
            CycleStage::CatchUpHidden { index: 0 }
        } else {
            CycleStage::FrontierHidden
        }
    }

    /// Takes the result of the verification pass: how many of `drafts` drafts are accepted, and
    /// whether the target has chosen a token after them.
    pub fn verified(&mut self, drafts: usize, accepted: usize, has_next: bool)
        requires
            old(self).spec_stage() == CycleStage::Append,
            old(self).spec_append().spec_stage() == AppendStage::Body,
            accepted <= drafts,
        ensures
            forall|events: Seq<CycleEvent>| #[trigger]
                old(self).follows(drafts, events) ==> final(self).follows(
                    drafts,
                    events.push((CycleEvent { ok: true, accepted, has_next })),
                ),
            final(self).spec_accepted() == accepted,
            final(self).spec_has_next() == has_next,
            final(self).append_stepped(
                *old(self),
                if accepted < drafts {
                    AppendOutcome::DoneInPart
                } else {
                    AppendOutcome::Done
                },
            ),
    {
        proof {
            let event = CycleEvent { ok: true, accepted, has_next };
            assert forall|events: Seq<CycleEvent>| #[trigger]
                old(self).follows(drafts, events) implies events.push(event).drop_last()
                == events by {
                assert(events.push(event).drop_last() =~= events);
            }
        }
        self.accepted = accepted;
        self.has_next = has_next;
        if accepted < drafts {
            self.append_step(AppendOutcome::DoneInPart);
        } else {
            self.append_step(AppendOutcome::Done);
        }
    }

    /// Takes the result of the verification pass: the drafts, and the target's choice after each
    /// row as far as it has chosen.
    pub fn verified_tokens(&mut self, drafted: &[u32], chosen: &[u32])
        requires
            old(self).spec_stage() == CycleStage::Append,
            old(self).spec_append().spec_stage() == AppendStage::Body,
        ensures
            is_accepted(drafted@, chosen@, final(self).spec_accepted() as int),
            final(self).spec_has_next() == (final(self).spec_accepted() < chosen@.len()),
            forall|events: Seq<CycleEvent>| #[trigger]
                old(self).follows(drafted@.len() as usize, events) ==> final(self).follows(
                    drafted@.len() as usize,
                    events.push(
                        (CycleEvent {
                            ok: true,
                            accepted: final(self).spec_accepted(),
                            has_next: final(self).spec_has_next(),
                        }),
                    ),
                ),
            final(self).append_stepped(
                *old(self),
                if final(self).spec_accepted() < drafted@.len() {
                    AppendOutcome::DoneInPart
                } else {
                    AppendOutcome::Done
                },
            ),
    {
        let accepted: usize = accepted_drafts(drafted, chosen);
        self.verified(drafted.len(), accepted, accepted < chosen.len());
    }

    /// Rows that the next call of the target's append reserves or commits: a pass over `drafts`
    /// drafts reserves one row more than that, and one row more than the accepted drafts is
    /// committed.
    pub fn append_rows(&self, drafts: usize) -> (rows: usize)
        requires
            drafts < usize::MAX,
            self.spec_accepted() <= drafts,
        ensures
            rows == crate::transaction::stage_rows(
                self.spec_append().spec_stage(),
                (drafts + 1) as usize,
                (self.spec_accepted() + 1) as usize,
            ),
    {
        self.append.call_rows(drafts + 1, self.accepted + 1)
    }

    /// Takes the result of the call that was made.
    pub fn step(&mut self, outcome: Result<(), E>)
        requires
            old(self).spec_stage() == CycleStage::Append ==> old(self).spec_append().spec_stage()
                != AppendStage::Finished,
            old(self).spec_stage() matches CycleStage::CatchUpAppend { index } ==> index
                < old(self).spec_accepted(),
        ensures
            !(old(self).spec_stage() == CycleStage::Append && old(self).spec_append().spec_stage()
                == AppendStage::Body && outcome is Ok) ==> forall|
                drafts: usize,
                events: Seq<CycleEvent>,
            | #[trigger]
                old(self).follows(drafts, events) ==> final(self).follows(
                    drafts,
                    events.push(old(self).plain_event(outcome is Ok)),
                ),
            final(self).spec_accepted() == old(self).spec_accepted(),
            final(self).spec_has_next() == old(self).spec_has_next(),
            old(self).spec_stage() == CycleStage::Append ==> final(self).append_stepped(
                *old(self),
                match outcome {
                    Ok(_) => AppendOutcome::Done,
                    Err(error) => AppendOutcome::Failed(error),
                },
            ),
            old(self).spec_stage() == CycleStage::Finished ==> *final(self) == *old(self),
            old(self).spec_stage() != CycleStage::Append && old(self).spec_stage()
                != CycleStage::Finished ==> {
                let tolerated = cycle_tolerates(old(self).spec_kind(), old(self).spec_stage());
                &&& final(self).spec_kind() == old(self).spec_kind()
                &&& final(self).spec_append() == old(self).spec_append()
                &&& final(self).spec_stage() == cycle_after_call(
                    old(self).spec_kind(),
                    old(self).spec_stage(),
                    old(self).spec_accepted(),
                    outcome is Ok,
                )
                &&& final(self).spec_failure() == match outcome {
                    Err(error) => if tolerated {
                        old(self).spec_failure()
                    } else {
                        Some(error)
                    },
                    Ok(_) => old(self).spec_failure(),
                }
                &&& final(self).spec_ready() == (old(self).spec_ready() && !(outcome is Err
                    && tolerated))
            },
    {
        proof {
            let event = self.plain_event(outcome is Ok);
            assert forall|drafts: usize, events: Seq<CycleEvent>| #[trigger]
                old(self).follows(drafts, events) implies events.push(event).drop_last() == events
                && (old(self).spec_stage() == CycleStage::Append
                && crate::transaction::rolls_back(old(self).spec_append().spec_stage())
                ==> old(self).spec_append().spec_failure() is Some) by {
                assert(events.push(event).drop_last() =~= events);
                lemma_rollback_follows_failure(old(self).spec_kind(), drafts, events);
            }
        }
        match self.stage {
            CycleStage::Append => {
                match outcome {
                    Ok(()) => self.append_step(AppendOutcome::Done),
                    Err(error) => self.append_step(AppendOutcome::Failed(error)),
                }
                return;
            },
            CycleStage::Finished => {
                return;
            },
            _ => {},
        }
        match outcome {
            Err(error) => {
                let chained = self.kind == CycleKind::Chained;
                if chained && self.stage != CycleStage::Draft {
                    self.ready = false;
                } else {
                    self.failure = Some(error);
                }
                self.stage =
                if chained && self.stage != CycleStage::DiscardDrafts {
                    CycleStage::DiscardDrafts
                } else {
                    CycleStage::Finished
                };
            },
            Ok(()) => {
                self.stage =
                match self.stage {
                    CycleStage::Draft => CycleStage::Append,
                    CycleStage::TruncateDrafts => self.catch_up(),
                    CycleStage::CatchUpHidden { index } => CycleStage::CatchUpAppend { index },
                    CycleStage::CatchUpAppend { index } => if index + 1 < self.accepted {
                        CycleStage::CatchUpHidden { index: index + 1 }
                    } else {
                        CycleStage::FrontierHidden
                    },
                    _ => CycleStage::Finished,
                };
            },
        }
    }

    /// Ends the cycle: whether drafter and frontier are ready for another one, or the error to
    /// report.
    pub fn finish(self) -> (result: Result<bool, E>)
        requires
            self.spec_stage() == CycleStage::Finished,
        ensures
            match result {
                Ok(ready) => self.spec_failure() is None && ready == self.spec_ready(),
                Err(error) => self.spec_failure() == Some(error),
            },
    {
        match self.failure {
            None => Ok(self.ready),
            Some(error) => Err(error),
        }
    }
}


/// A cycle as its calls have gone, with what they leave behind.
pub struct CycleRun {
    /// The call to make next.
    pub stage: CycleStage,
    /// The call of the target's append to make next.
    pub append: AppendStage,
    /// Number of accepted drafts.
    pub accepted: usize,
    /// Whether the target has chosen a token after the committed ones.
    pub has_next: bool,
    /// Whether an error is reported.
    pub failed: bool,
    /// Whether drafter and frontier are ready for another cycle.
    pub ready: bool,
    /// Drafter rows beyond those before the cycle.
    pub drafter_rows: int,
    /// Whether the recurrent state was taken back to the accepted rows.
    pub restored: bool,
    /// Whether the target has committed its rows.
    pub committed: bool,
    /// Whether taking the drafter back, or committing the target's state, has failed.
    pub broken: bool,
}

/// Result of one call: whether it succeeded, and what a verification pass found.
pub struct CycleEvent {
    /// Whether the call succeeded.
    pub ok: bool,
    /// Number of accepted drafts.
    pub accepted: usize,
    /// Whether the target has chosen a token after them.
    pub has_next: bool,
}

/// A cycle that has made no call.
pub open spec fn cycle_start(kind: CycleKind) -> CycleRun {
    CycleRun {
        stage: if kind == CycleKind::External {
            CycleStage::Append
        } else {
            CycleStage::Draft
        },
        append: AppendStage::Reserve,
        accepted: 0,
        has_next: false,
        failed: false,
        ready: true,
        drafter_rows: 0,
        restored: false,
        committed: false,
        broken: false,
    }
}

/// The cycle after one more call.
pub open spec fn cycle_next(
    kind: CycleKind,
    drafts: usize,
    run: CycleRun,
    event: CycleEvent,
) -> CycleRun {
    if run.stage == CycleStage::Append {
        let verified = run.append == AppendStage::Body && event.ok;
        let accepted = if verified {
            event.accepted
        } else {
            run.accepted
        };
        let has_next = if verified {
            event.has_next
        } else {
            run.has_next
        };
        let failed = run.failed || !event.ok;
        let append = if event.ok {
            crate::transaction::stage_after_success(
                cycle_policy(kind),
                run.append,
                verified && accepted < drafts,
            )
        } else {
            crate::transaction::stage_after_failure(cycle_policy(kind), run.append)
        };
        CycleRun {
            stage: if append == AppendStage::Finished {
                cycle_after_append(kind, failed, accepted, has_next)
            } else {
                CycleStage::Append
            },
            append,
            accepted,
            has_next,
            failed,
            ready: if append == AppendStage::Finished {
                ready_after_append(kind, run.ready, has_next)
            } else {
                run.ready
            },
            restored: run.restored || (run.append == AppendStage::Restore && event.ok),
            committed: run.committed || (run.append == AppendStage::CommitCache && event.ok),
            broken: run.broken || (run.append == AppendStage::CommitState && !event.ok),
            ..run
        }
    } else if run.stage == CycleStage::Finished {
        run
    } else {
        let tolerated = cycle_tolerates(kind, run.stage);
        CycleRun {
            stage: cycle_after_call(kind, run.stage, run.accepted, event.ok),
            failed: run.failed || (!event.ok && !tolerated),
            ready: run.ready && (event.ok || !tolerated),
            drafter_rows: if !event.ok {
                run.drafter_rows
            } else {
                match run.stage {
                    CycleStage::Draft => drafts as int,
                    CycleStage::TruncateDrafts => 1,
                    CycleStage::CatchUpAppend { .. } => run.drafter_rows + 1,
                    CycleStage::DiscardDrafts => 0,
                    _ => run.drafter_rows,
                }
            },
            broken: run.broken || (run.stage == CycleStage::DiscardDrafts && !event.ok),
            ..run
        }
    }
}

/// The cycle after the results of all its calls so far.
pub open spec fn cycle_run(kind: CycleKind, drafts: usize, events: Seq<CycleEvent>) -> CycleRun
    decreases events.len(),
{
    if events.len() == 0 {
        cycle_start(kind)
    } else {
        cycle_next(kind, drafts, cycle_run(kind, drafts, events.drop_last()), events.last())
    }
}

proof fn lemma_rollback_follows_failure(
    kind: CycleKind,
    drafts: usize,
    events: Seq<CycleEvent>,
)
    ensures
        ({
            let run = cycle_run(kind, drafts, events);
            &&& run.stage == CycleStage::Draft ==> run.append == AppendStage::Reserve
            &&& (run.stage == CycleStage::Append || run.stage == CycleStage::Draft)
                && crate::transaction::rolls_back(run.append) ==> run.failed
        }),
    decreases events.len(),
{
    if events.len() > 0 {
        lemma_rollback_follows_failure(kind, drafts, events.drop_last());
    }
}

/// Whether every verification pass accepts at most all drafts.
pub open spec fn events_bounded(drafts: usize, events: Seq<CycleEvent>) -> bool {
    forall|i: int| 0 <= i < events.len() ==> (#[trigger] events[i]).accepted <= drafts
}

spec fn cycle_invariant(kind: CycleKind, drafts: usize, run: CycleRun) -> bool {
    let drafted = if kind == CycleKind::External {
        0
    } else {
        drafts as int
    };
    &&& run.accepted <= drafts
    &&& !run.broken ==> match run.stage {
        CycleStage::Draft => !run.failed && run.ready && !run.committed && run.drafter_rows == 0
            && kind != CycleKind::External && run.append == AppendStage::Reserve,
        CycleStage::Append => {
            &&& run.ready
            &&& run.drafter_rows == drafted
            &&& run.append != AppendStage::Finished
            &&& run.failed == (crate::transaction::rolls_back(run.append))
            &&& run.committed == (run.append == AppendStage::CommitState)
            &&& run.append == AppendStage::Restore ==> run.accepted < drafts
            &&& run.append == AppendStage::CommitCache || run.append == AppendStage::CommitState
                ==> run.restored == (run.accepted < drafts)
            &&& crate::transaction::before_restore(run.append) ==> !run.restored
        },
        CycleStage::TruncateDrafts => kind == CycleKind::Chained && !run.failed && run.ready
            && run.committed,
        CycleStage::CatchUpHidden { index } => {
            &&& kind != CycleKind::External
            &&& !run.failed && run.ready && run.committed
            &&& index < run.accepted
            &&& run.drafter_rows == index + 1
        },
        CycleStage::CatchUpAppend { index } => {
            &&& kind != CycleKind::External
            &&& !run.failed && run.ready && run.committed
            &&& index < run.accepted
            &&& run.drafter_rows == index + 1
        },
        CycleStage::FrontierHidden => {
            &&& !run.failed && run.ready && run.committed
            &&& kind == CycleKind::External ==> run.has_next
            &&& kind != CycleKind::External ==> run.drafter_rows == run.accepted + 1
        },
        CycleStage::DiscardDrafts => {
            &&& kind == CycleKind::Chained
            &&& run.failed == !run.committed
            &&& run.failed || !run.ready
        },
        CycleStage::Finished => {
            &&& kind == CycleKind::Chained ==> {
                &&& run.failed == !run.committed
                &&& run.drafter_rows == if run.failed || !run.ready {
                    0
                } else {
                    run.accepted + 1
                }
            }
            &&& kind == CycleKind::Native ==> run.ready
            &&& kind == CycleKind::External && !run.failed ==> run.ready == run.has_next
            &&& !run.failed ==> run.committed
            &&& kind == CycleKind::Native && !run.failed ==> run.drafter_rows == run.accepted + 1
        },
    }
}

proof fn lemma_cycle_invariant(kind: CycleKind, drafts: usize, events: Seq<CycleEvent>)
    requires
        kind == CycleKind::Native ==> drafts == 1,
        drafts >= 1,
        events_bounded(drafts, events),
    ensures
        cycle_invariant(kind, drafts, cycle_run(kind, drafts, events)),
    decreases events.len(),
{
    if events.len() > 0 {
        let shorter = events.drop_last();
        assert forall|i: int| 0 <= i < shorter.len() implies (#[trigger] shorter[i]).accepted
            <= drafts by {
            assert(shorter[i] == events[i]);
        }
        lemma_cycle_invariant(kind, drafts, shorter);
        assert(events[events.len() - 1] == events.last());
    }
}

/// After a cycle that is reported as ready the drafter has exactly one row for each token that
/// the target has committed.
pub proof fn law_drafter_stays_in_step(
    kind: CycleKind,
    drafts: usize,
    events: Seq<CycleEvent>,
)
    requires
        kind != CycleKind::External,
        kind == CycleKind::Native ==> drafts == 1,
        drafts >= 1,
        events_bounded(drafts, events),
        cycle_run(kind, drafts, events).stage == CycleStage::Finished,
        !cycle_run(kind, drafts, events).broken,
        !cycle_run(kind, drafts, events).failed,
        cycle_run(kind, drafts, events).ready,
    ensures
        cycle_run(kind, drafts, events).committed,
        cycle_run(kind, drafts, events).drafter_rows == cycle_run(kind, drafts, events).accepted
            + 1,
{
    lemma_cycle_invariant(kind, drafts, events);
}

/// A chained cycle reports an error only where the target has committed nothing, and a drafter
/// that is not in step is back at its length before the cycle.
pub proof fn law_chained_commit_stands(drafts: usize, events: Seq<CycleEvent>)
    requires
        drafts >= 1,
        events_bounded(drafts, events),
        cycle_run(CycleKind::Chained, drafts, events).stage == CycleStage::Finished,
        !cycle_run(CycleKind::Chained, drafts, events).broken,
    ensures
        ({
            let run = cycle_run(CycleKind::Chained, drafts, events);
            &&& run.committed == !run.failed
            &&& run.failed || !run.ready ==> run.drafter_rows == 0
        }),
{
    lemma_cycle_invariant(CycleKind::Chained, drafts, events);
}

/// A proposal from elsewhere that was verified ends ready exactly where the target has chosen a
/// token after the committed ones.
pub proof fn law_external_cycle_needs_a_next_token(drafts: usize, events: Seq<CycleEvent>)
    requires
        drafts >= 1,
        events_bounded(drafts, events),
        cycle_run(CycleKind::External, drafts, events).stage == CycleStage::Finished,
        !cycle_run(CycleKind::External, drafts, events).broken,
        !cycle_run(CycleKind::External, drafts, events).failed,
    ensures
        ({
            let run = cycle_run(CycleKind::External, drafts, events);
            run.committed && run.ready == run.has_next
        }),
{
    lemma_cycle_invariant(CycleKind::External, drafts, events);
}

/// A cycle commits one row for each committed token and never more than it reserved. Where it
/// commits fewer, the recurrent state was taken back to the accepted rows before.
pub proof fn law_cycle_commits_its_tokens<E>(
    cycle: SpeculativeCycle<E>,
    drafts: usize,
    events: Seq<CycleEvent>,
    frontier: u32,
    drafted: Seq<u32>,
)
    requires
        1 <= drafts < usize::MAX,
        drafted.len() == drafts,
        cycle.spec_kind() == CycleKind::Native ==> drafts == 1,
        events_bounded(drafts, events),
        cycle.follows(drafts, events),
        cycle.spec_stage() == CycleStage::Append,
        cycle.spec_append().spec_stage() == AppendStage::CommitCache
            || cycle.spec_append().spec_stage() == AppendStage::CommitState,
        !cycle_run(cycle.spec_kind(), drafts, events).broken,
    ensures
        ({
            let accepted = cycle.spec_accepted();
            let reserved = crate::transaction::stage_rows(
                AppendStage::Reserve,
                (drafts + 1) as usize,
                (accepted + 1) as usize,
            );
            let kept = crate::transaction::stage_rows(
                cycle.spec_append().spec_stage(),
                (drafts + 1) as usize,
                (accepted + 1) as usize,
            );
            &&& kept == proposal(frontier, drafted).take(accepted + 1).len()
            &&& kept <= reserved
            &&& kept < reserved <==> cycle_run(cycle.spec_kind(), drafts, events).restored
        }),
{
    lemma_cycle_invariant(cycle.spec_kind(), drafts, events);
}

} // verus!
