//! Verification passes of the hybrid model.

use vstd::prelude::*;
use crate::manifest::QwenLayerKind;
use crate::qwen36::allocation::{AllocationError, LayerBuffers, PrefillAllocation};
use crate::qwen36::batch::{Qwen36NextToken, Qwen36PrefillBatchWorkspace};
use crate::qwen36::gdn::{BatchLinearAttentionStateSnapshots, GdnError};
use crate::qwen36::linear::{new_batch_linear_plan, BatchLinearPlan, Linear, Storage};
use crate::qwen36::model::{Qwen36MtpDraftWorkspace, Qwen36TextModel};
use crate::qwen36::mtp::MtpError;
use crate::qwen36::schedule::RowBuffer;
use crate::speculation::{verify_drafts, Verification};

verus! {

/// Why a verification pass cannot run.
#[derive(Clone, Copy, Debug, PartialEq, Eq, Structural)]
pub enum SpeculativeError {
    /// A cycle needs at least one draft.
    NoDrafts,
    /// The forward pass has no workspace.
    Workspace(AllocationError),
    /// The recurrent states of the rows cannot be kept.
    Snapshots(GdnError),
    /// The draft block has no workspace.
    Drafter(MtpError),
    /// The workspace was made for proposals from elsewhere.
    NoDraftScratch,
    /// No draft, or more than the workspace has room for.
    Drafts {
        /// Most drafts.
        capacity: usize,
        /// Drafts of the cycle.
        drafts: usize,
    },
}

/// Workspace of verification passes, with the sizes of its buffers in values.
pub struct Qwen36SpeculativeCycleWorkspace {
    /// Most drafts of a cycle.
    pub drafts: usize,
    /// Workspace of the forward pass.
    pub verify: Qwen36PrefillBatchWorkspace,
    /// Buffers of its layers.
    pub buffers: LayerBuffers,
    /// Recurrent states that are kept, one for each draft.
    pub snapshots: BatchLinearAttentionStateSnapshots,
    /// Scratch for the native draft block.
    pub mtp: Option<Qwen36MtpDraftWorkspace>,
    /// Plans of the head, where its weights take eight bits.
    pub head_plan: Option<BatchLinearPlan>,
    /// Normalised rows, and as many for their quantised form.
    pub normed_hidden: usize,
    /// Logits.
    pub logits: usize,
    /// Scratch of the fused head.
    pub top1_scratch: usize,
}

/// Groups of eight vocabulary entries.
pub open spec fn scratch_groups(vocab: int) -> int {
    (vocab + 7) / 8
}

/// Values of the recurrent state of one layer and sequence.
#[derive(Clone, Copy, Debug, PartialEq, Eq, Structural)]
pub struct StateValues {
    /// Convolution state.
    pub conv: usize,
    /// Recurrent state.
    pub recurrent: usize,
}

impl Qwen36TextModel {
    /// Sizes of a workspace for `drafts` drafts are representable.
    pub open spec fn cycles_fit(self, drafts: usize) -> bool {
        &&& drafts < usize::MAX
        &&& self.batches_fit((drafts + 1) as usize, 1)
        &&& (drafts + 1) * self.manifest.vocab <= usize::MAX
        &&& 2 * self.manifest.hidden <= usize::MAX
        &&& 2 * self.manifest.intermediate <= usize::MAX
    }

    /// Whether each layer is recurrent.
    pub open spec fn recurrent_layers(self) -> Seq<bool> {
        Seq::new(
            self.layers@.len(),
            |i: int| self.layers@[i].spec_kind() == QwenLayerKind::LinearAttention,
        )
    }

    /// What stands against keeping the recurrent states of `drafts` rows, if anything.
    pub open spec fn snapshot_obstacle(self, drafts: usize, state: StateValues) -> Option<GdnError> {
        let rows = crate::qwen36::gdn::linear_before(self.recurrent_layers(), self.layers@.len())
            * drafts;
        if rows > usize::MAX {
            Some(GdnError::SnapshotRows)
        } else if rows * state.conv > usize::MAX {
            Some(GdnError::ConvSnapshots)
        } else if rows * state.recurrent > usize::MAX {
            Some(GdnError::RecurrentSnapshots)
        } else {
            None
        }
    }

    /// What stands against a workspace, if anything.
    pub open spec fn cycle_obstacle(
        self,
        drafts: usize,
        max_context_tokens: usize,
        state: StateValues,
        include_mtp: bool,
    ) -> Option<SpeculativeError> {
        if drafts == 0 {
            Some(SpeculativeError::NoDrafts)
        } else if max_context_tokens == 0 {
            Some(SpeculativeError::Workspace(AllocationError::Capacity))
        } else if self.ffn_obstacle() is Some {
            Some(
                SpeculativeError::Workspace(
                    AllocationError::FeedForward(self.ffn_obstacle()->0),
                ),
            )
        } else if self.snapshot_obstacle(drafts, state) is Some {
            Some(SpeculativeError::Snapshots(self.snapshot_obstacle(drafts, state)->0))
        } else if include_mtp && self.mtp is None {
            Some(SpeculativeError::Drafter(MtpError::NoWeights))
        } else {
            None
        }
    }

    /// Whether a workspace is the one for `drafts` drafts. The forward pass of a single sequence
    /// runs its recurrent rows one at a time, from graphs that are captured for a full pass.
    pub open spec fn cycle_made_for(
        self,
        workspace: Qwen36SpeculativeCycleWorkspace,
        drafts: usize,
        max_context_tokens: usize,
        state: StateValues,
        include_mtp: bool,
    ) -> bool {
        let rows = (drafts + 1) as usize;
        &&& workspace.drafts == drafts
        &&& workspace.verify == (Qwen36PrefillBatchWorkspace {
            model_id: self.model_id,
            sequence_capacity: 1,
            token_capacity: rows,
            max_context_tokens,
            layer_graphs: true,
            serial_linear_attention_projections: true,
            serial_linear_attention_recurrence: true,
            serial_full_attention_rows: false,
        })
        &&& self.buffers_made_for(workspace.buffers, rows, 1, max_context_tokens, true)
        &&& self.buffers_fresh(workspace.buffers, rows)
        &&& workspace.snapshots.well_formed()
        &&& workspace.snapshots.slots == drafts
        &&& workspace.snapshots.state_table_stride == 1
        &&& workspace.snapshots.conv_values == state.conv
        &&& workspace.snapshots.recurrent_values == state.recurrent
        &&& workspace.snapshots.linear_layers@ == self.recurrent_layers()
        &&& workspace.mtp is Some <==> include_mtp
        &&& workspace.mtp matches Some(mtp) ==> mtp.max_tokens == max_context_tokens
            && mtp.draft_tokens == max_context_tokens && mtp.hidden == self.manifest.hidden
        &&& match workspace.head_plan {
            Some(plan) => self.lm_head.storage == Storage::Fp8
                && crate::qwen36::workspace::fresh_plan(plan, self.lm_head, rows),
            None => self.lm_head.storage != Storage::Fp8,
        }
        &&& workspace.normed_hidden == rows * self.manifest.hidden
        &&& workspace.logits == rows * self.manifest.vocab
        &&& workspace.top1_scratch == rows * scratch_groups(self.manifest.vocab as int)
    }

    /// Creates a workspace for up to `drafts` drafts, from the native draft block or from
    /// elsewhere.
    pub fn new_speculative_verification_workspace(
        &self,
        drafts: usize,
        max_context_tokens: usize,
        state: StateValues,
        include_mtp: bool,
    ) -> (result: Result<Qwen36SpeculativeCycleWorkspace, SpeculativeError>)
        requires
            drafts > 0 ==> self.cycles_fit(drafts),
        ensures
            match result {
                Ok(workspace) => {
                    &&& self.cycle_obstacle(drafts, max_context_tokens, state, include_mtp) is None
                    &&& self.cycle_made_for(
                        workspace,
                        drafts,
                        max_context_tokens,
                        state,
                        include_mtp,
                    )
                },
                Err(error) => self.cycle_obstacle(drafts, max_context_tokens, state, include_mtp)
                    == Some(error),
            },
    {
        if drafts == 0 {
            return Err(SpeculativeError::NoDrafts);
        }
        let rows: usize = drafts + 1;
        let allocation = match self.new_prefill_batch_workspace(1, rows, max_context_tokens) {
            Ok(allocation) => allocation,
            Err(error) => {
                return Err(SpeculativeError::Workspace(error));
            },
        };
        let PrefillAllocation { workspace: mut verify, buffers } = allocation;
        verify.serial_linear_attention_projections = true;
        verify.serial_linear_attention_recurrence = true;
        let linear_layers = self.batch_linear_layers();
        assert(linear_layers@ =~= self.recurrent_layers());
        let snapshots = match BatchLinearAttentionStateSnapshots::new(
            linear_layers.as_slice(),
            1,
            drafts,
            state.conv,
            state.recurrent,
        ) {
            Ok(snapshots) => snapshots,
            Err(error) => {
                return Err(SpeculativeError::Snapshots(error));
            },
        };
        verify.layer_graphs = true;
        let mtp: Option<Qwen36MtpDraftWorkspace> = if include_mtp {
            match self.new_mtp_draft_workspace(max_context_tokens) {
                Ok(mtp) => Some(mtp),
                Err(error) => {
                    return Err(SpeculativeError::Drafter(error));
                },
            }
        } else {
            None
        };
        let head_plan = match self.lm_head.storage {
            Storage::Fp8 => Some(new_batch_linear_plan(&self.lm_head, rows)),
            _ => None,
        };
        let vocab: usize = self.manifest.vocab;
        let groups: usize = if vocab % 8 == 0 {
            vocab / 8
        } else {
            vocab / 8 + 1
        };
        assert(groups == scratch_groups(vocab as int));
        assert(rows * groups <= rows * vocab) by (nonlinear_arith)
            requires
                groups <= vocab,
        ;
        Ok(
            Qwen36SpeculativeCycleWorkspace {
                drafts,
                verify,
                buffers,
                snapshots,
                mtp,
                head_plan,
                normed_hidden: rows * self.manifest.hidden,
                logits: rows * vocab,
                top1_scratch: rows * groups,
            },
        )
    }

    /// Creates a workspace for cycles with the native draft block.
    pub fn new_speculative_cycle_workspace(
        &self,
        drafts: usize,
        max_context_tokens: usize,
        state: StateValues,
    ) -> (result: Result<Qwen36SpeculativeCycleWorkspace, SpeculativeError>)
        requires
            drafts > 0 ==> self.cycles_fit(drafts),
        ensures
            match result {
                Ok(workspace) => {
                    &&& self.cycle_obstacle(drafts, max_context_tokens, state, true) is None
                    &&& self.cycle_made_for(workspace, drafts, max_context_tokens, state, true)
                },
                Err(error) => self.cycle_obstacle(drafts, max_context_tokens, state, true) == Some(
                    error,
                ),
            },
    {
        self.new_speculative_verification_workspace(drafts, max_context_tokens, state, true)
    }

    /// Creates a workspace for cycles with proposals from elsewhere.
    pub fn new_external_speculative_cycle_workspace(
        &self,
        drafts: usize,
        max_context_tokens: usize,
        state: StateValues,
    ) -> (result: Result<Qwen36SpeculativeCycleWorkspace, SpeculativeError>)
        requires
            drafts > 0 ==> self.cycles_fit(drafts),
        ensures
            match result {
                Ok(workspace) => {
                    &&& self.cycle_obstacle(drafts, max_context_tokens, state, false) is None
                    &&& self.cycle_made_for(workspace, drafts, max_context_tokens, state, false)
                },
                Err(error) => self.cycle_obstacle(drafts, max_context_tokens, state, false) == Some(
                    error,
                ),
            },
    {
        self.new_speculative_verification_workspace(drafts, max_context_tokens, state, false)
    }

    /// Decides whether a proposal from elsewhere can be verified, and counts its rows. The cycle
    /// itself goes through the stages of a `SpeculativeCycle`, and `commit_cycle` ends it.
    pub fn verify_external_speculative(
        &self,
        workspace: &Qwen36SpeculativeCycleWorkspace,
        drafted: usize,
    ) -> (result: Result<usize, SpeculativeError>)
        requires
            workspace.drafts < usize::MAX,
        ensures
            match result {
                Ok(rows) => 0 < drafted <= workspace.drafts && rows == drafted + 1,
                Err(error) => !(0 < drafted <= workspace.drafts) && error == (
                SpeculativeError::Drafts { capacity: workspace.drafts, drafts: drafted }),
            },
    {
        if drafted == 0 || drafted > workspace.drafts {
            return Err(SpeculativeError::Drafts { capacity: workspace.drafts, drafts: drafted });
        }
        Ok(drafted + 1)
    }

    /// Decides whether a cycle with the native draft block can run, and counts its rows. The
    /// cycle itself goes through the stages of a `SpeculativeCycle`, and `commit_cycle` ends it.
    pub fn speculative_cycle_argmax(
        &self,
        workspace: &Qwen36SpeculativeCycleWorkspace,
        active_drafts: usize,
    ) -> (result: Result<usize, SpeculativeError>)
        requires
            workspace.drafts < usize::MAX,
        ensures
            match result {
                Ok(rows) => {
                    &&& workspace.mtp is Some
                    &&& 0 < active_drafts <= workspace.drafts
                    &&& rows == active_drafts + 1
                },
                Err(error) => if workspace.mtp is None {
                    error == SpeculativeError::NoDraftScratch
                } else {
                    !(0 < active_drafts <= workspace.drafts) && error == (
                    SpeculativeError::Drafts { capacity: workspace.drafts, drafts: active_drafts })
                },
            },
    {
        if workspace.mtp.is_none() {
            return Err(SpeculativeError::NoDraftScratch);
        }
        self.verify_external_speculative(workspace, active_drafts)
    }
}

/// One device operation between the forward pass and the choice of tokens.
#[derive(Clone, Copy, Debug, PartialEq, Eq, Structural)]
#[allow(inconsistent_fields)]
pub enum VerifyOp {
    /// Normalise the rows of a buffer for the head.
    FinalNorm { source: RowBuffer, rows: usize },
    /// Round the normalised rows to sixteen bits.
    RoundFinal,
    /// Quantise the rows for the head.
    HeadQuantize { rows: usize, cols: usize },
    /// Run the head, one row at a time where its weights take eight bits.
    Head { storage: Storage, rows: usize },
    /// Run the head and choose tokens without keeping logits.
    FusedTop1 { rows: usize },
    /// Choose tokens.
    Argmax { rows: usize },
}

/// Head of a verification pass. Sixteen-bit weights whose logits nobody reads choose the tokens
/// at once.
pub open spec fn speculative_head(
    head: Linear,
    rows: usize,
    row_capacity: usize,
    materialize_logits: bool,
) -> Seq<VerifyOp> {
    match head.storage {
        Storage::Bf16 => if materialize_logits {
            seq![
                VerifyOp::Head { storage: Storage::Bf16, rows },
                VerifyOp::Argmax { rows: row_capacity },
            ]
        } else {
            seq![VerifyOp::FusedTop1 { rows }]
        },
        Storage::Nvfp4 => seq![
            VerifyOp::Head { storage: Storage::Nvfp4, rows },
            VerifyOp::Argmax { rows: row_capacity },
        ],
        Storage::Fp8 => seq![
            VerifyOp::HeadQuantize { rows, cols: head.cols },
            VerifyOp::Head { storage: Storage::Fp8, rows },
            VerifyOp::Argmax { rows: row_capacity },
        ],
    }
}

/// Plans the head of a verification pass, on the rows in a buffer.
pub fn run_speculative_lm_head(
    head: &Linear,
    source: RowBuffer,
    rows: usize,
    row_capacity: usize,
    materialize_logits: bool,
) -> (ops: Vec<VerifyOp>)
    ensures
        ops@ == seq![VerifyOp::FinalNorm { source, rows }, VerifyOp::RoundFinal]
            + speculative_head(*head, rows, row_capacity, materialize_logits),
        rows <= row_capacity ==> {
            let device = crate::device::after(
                crate::qwen36::verify_flow::head_step(*head, source, rows),
                crate::qwen36::verify_flow::idle(),
                ops@,
            );
            device.sound && device.chosen is Some && (materialize_logits ==> device.logits)
        },
{
    let mut ops: Vec<VerifyOp> = Vec::new();
    ops.push(VerifyOp::FinalNorm { source, rows });
    ops.push(VerifyOp::RoundFinal);
    match head.storage {
        Storage::Bf16 => {
            if materialize_logits {
                ops.push(VerifyOp::Head { storage: Storage::Bf16, rows });
                ops.push(VerifyOp::Argmax { rows: row_capacity });
            } else {
                ops.push(VerifyOp::FusedTop1 { rows });
            }
        },
        Storage::Nvfp4 => {
            ops.push(VerifyOp::Head { storage: Storage::Nvfp4, rows });
            ops.push(VerifyOp::Argmax { rows: row_capacity });
        },
        Storage::Fp8 => {
            ops.push(VerifyOp::HeadQuantize { rows, cols: head.cols });
            ops.push(VerifyOp::Head { storage: Storage::Fp8, rows });
            ops.push(VerifyOp::Argmax { rows: row_capacity });
        },
    }
    assert(ops@ =~= seq![VerifyOp::FinalNorm { source, rows }, VerifyOp::RoundFinal]
        + speculative_head(*head, rows, row_capacity, materialize_logits));
    proof {
        if rows <= row_capacity {
            crate::qwen36::verify_flow::law_verification_head_runs(
                *head,
                source,
                rows,
                row_capacity,
                materialize_logits,
            );
        }
    }
    ops
}

/// Choices of a constrained target: one for each row, up to the first row without a choice.
pub struct ConstrainedChoices {
    /// Tokens.
    pub tokens: Vec<u32>,
    /// Bits of their logits.
    pub logits: Vec<u32>,
    /// Whether a row had no choice.
    pub ended: bool,
}

impl ConstrainedChoices {
    /// As many tokens as logits.
    pub open spec fn well_formed(self) -> bool {
        self.tokens@.len() == self.logits@.len()
    }

    /// Starts with no row.
    pub fn new() -> (choices: Self)
        ensures
            choices.well_formed(),
            choices.tokens@.len() == 0,
            !choices.ended,
    {
        Self { tokens: Vec::new(), logits: Vec::new(), ended: false }
    }

    /// Takes the choice for the next row.
    pub fn take_choice(&mut self, selected: Option<Qwen36NextToken>)
        requires
            old(self).well_formed(),
        ensures
            final(self).well_formed(),
            final(self).ended == (old(self).ended || selected is None),
            final(self).tokens@ == if !old(self).ended && selected is Some {
                old(self).tokens@.push(selected->0.id)
            } else {
                old(self).tokens@
            },
            final(self).logits@ == if !old(self).ended && selected is Some {
                old(self).logits@.push(selected->0.value_bits)
            } else {
                old(self).logits@
            },
    {
        match selected {
            Some(token) => {
                if !self.ended {
                    self.tokens.push(token.id);
                    self.logits.push(token.value_bits);
                }
            },
            None => {
                self.ended = true;
            },
        }
    }
}

/// The next token that a target will process.
#[derive(Clone, Copy, Debug, PartialEq, Eq, Structural)]
pub struct Qwen36SpeculativeFrontier {
    /// Token.
    pub token: u32,
    /// Bits of its logit.
    pub logit_bits: u32,
}

/// What a cycle has committed.
pub struct Qwen36SpeculativeCycleOutcome {
    /// The old frontier, then every accepted draft.
    pub committed: Vec<u32>,
    /// Bits of their logits.
    pub committed_logits: Vec<u32>,
    /// Accepted drafts.
    pub accepted_drafts: usize,
    /// Whether drafter and next frontier are ready for another cycle. Otherwise the committed
    /// result stands, and ordinary decoding follows.
    pub speculation_ready: bool,
}

/// Advances a frontier past the drafts that the target has chosen as well.
///
/// The new frontier is the target's choice after the committed tokens; a constrained target
/// that has none leaves the frontier as it is, and no cycle can follow. The target row that goes with the new frontier
/// starts at the number of accepted drafts times the width of a row.
pub fn commit_cycle(
    frontier: &mut Qwen36SpeculativeFrontier,
    drafted: &[u32],
    chosen: &[u32],
    chosen_logits: &[u32],
    speculation_ready: bool,
) -> (outcome: Qwen36SpeculativeCycleOutcome)
    requires
        drafted@.len() < usize::MAX,
        chosen@.len() == chosen_logits@.len(),
    ensures
        crate::speculation::is_accepted(drafted@, chosen@, outcome.accepted_drafts as int),
        outcome.committed@ == crate::speculation::proposal(old(frontier).token, drafted@).take(
            outcome.accepted_drafts + 1,
        ),
        outcome.committed_logits@ == seq![old(frontier).logit_bits] + chosen_logits@.take(
            outcome.accepted_drafts as int,
        ),
        outcome.speculation_ready == (speculation_ready && outcome.accepted_drafts
            < chosen@.len()),
        *final(frontier) == if outcome.accepted_drafts < chosen@.len() {
            Qwen36SpeculativeFrontier {
                token: chosen@[outcome.accepted_drafts as int],
                logit_bits: chosen_logits@[outcome.accepted_drafts as int],
            }
        } else {
            *old(frontier)
        },
{
    let verification: Verification<u32> = verify_drafts(
        frontier.token,
        frontier.logit_bits,
        drafted,
        chosen,
        chosen_logits,
    );
    let ready = match verification.next {
        Some((token, logit_bits)) => {
            *frontier = Qwen36SpeculativeFrontier { token, logit_bits };
            speculation_ready
        },
        None => false,
    };
    Qwen36SpeculativeCycleOutcome {
        committed: verification.committed,
        committed_logits: verification.committed_logits,
        accepted_drafts: verification.accepted,
        speculation_ready: ready,
    }
}

/// Every state that a partial acceptance needs was kept: where fewer drafts are accepted than
/// were made, the row after the accepted ones has a kept state in every recurrent layer, and a
/// restore of that row reads it back.
pub proof fn law_partial_acceptance_has_a_snapshot(
    model: Qwen36TextModel,
    workspace: Qwen36SpeculativeCycleWorkspace,
    max_context_tokens: usize,
    state: StateValues,
    include_mtp: bool,
    drafted: Seq<u32>,
    chosen: Seq<u32>,
    accepted: int,
    layer: int,
)
    requires
        model.cycle_made_for(workspace, workspace.drafts, max_context_tokens, state, include_mtp),
        0 < drafted.len() <= workspace.drafts,
        crate::speculation::is_accepted(drafted, chosen, accepted),
        accepted < drafted.len(),
        0 <= layer < model.layers@.len(),
        model.layers@[layer].spec_kind() == QwenLayerKind::LinearAttention,
    ensures
        ({
            let snapshots = workspace.snapshots;
            let restore = snapshots.layer_restore(layer, accepted);
            &&& 0 <= accepted < snapshots.slots
            &&& snapshots.conv_capture(layer, 0, accepted) == Some(restore.conv)
            &&& snapshots.recurrent_capture(layer, 0, accepted) == Some(restore.recurrent)
            &&& snapshots.restores(accepted, snapshots.linear_layers@.len()).contains(restore)
        }),
{
    assert(workspace.snapshots.linear_layers@[layer] == model.recurrent_layers()[layer]);
    crate::qwen36::gdn::law_restore_undoes_capture(workspace.snapshots, layer, accepted);
}

} // verus!
