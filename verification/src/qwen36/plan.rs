//! Batches of the hybrid model, from their rows to the device operations.

use vstd::prelude::*;
use crate::append::Reservation;
use crate::manifest::QwenLayerKind;
use crate::qwen36::allocation::LayerBuffers;
use crate::qwen36::attention::{DecodeSequence, PrefillSequence};
use crate::qwen36::batch::{
    BatchError, Qwen36DecodeBatchWorkspace, Qwen36DecodeRow, Qwen36PrefillBatchWorkspace,
    Qwen36PrefillRow,
};
use crate::qwen36::capture::DFlash2TargetCapture;
use crate::qwen36::ffn::FfnWeights;
use crate::qwen36::gdn::{
    prepare_chunks, update_state_tables, BatchLinearAttentionStateSnapshots, ChunkMetadata,
    GdnError, StateRef,
};
use crate::qwen36::model::{DecodeRun, PrefillRun, Qwen36TextModel};
use crate::qwen36::operations::{BatchSetting, LayerOp, StepError};
use crate::qwen36::schedule::{LayerPass, LayerStep};

verus! {

/// Why a batch cannot run.
#[derive(Clone, Copy, Debug, PartialEq, Eq, Structural)]
pub enum PlanError {
    /// Its rows were refused.
    Batch(BatchError),
    /// Its sequences cannot be cut into chunks.
    Chunks(GdnError),
    /// One of its steps cannot run.
    Step(StepError),
}

/// A prompt batch, down to its device operations.
pub struct PrefillPlan {
    /// Packed rows and steps.
    pub run: PrefillRun,
    /// State table, layer by layer.
    pub table: Vec<StateRef>,
    /// Chunks of the recurrent kernel, where the model has that kernel.
    pub chunks: Option<ChunkMetadata>,
    /// Device operations.
    pub ops: Vec<LayerOp>,
}

/// A decode batch, down to its device operations.
pub struct DecodePlan {
    /// Packed rows and steps.
    pub run: DecodeRun,
    /// State table, layer by layer.
    pub table: Vec<StateRef>,
    /// Device operations.
    pub ops: Vec<LayerOp>,
}

proof fn lemma_scaled(fewer: int, more: int, width: int)
    requires
        0 <= fewer <= more,
        0 <= width,
    ensures
        0 <= fewer * width <= more * width,
{
    assert(0 <= fewer * width <= more * width) by (nonlinear_arith)
        requires
            0 <= fewer <= more,
            0 <= width,
    ;
}

impl Qwen36TextModel {
    /// Routed blocks select as many experts as that of the first layer, for which the buffers are
    /// made.
    pub open spec fn uniform_experts(self) -> bool {
        forall|i: int|
            0 <= i < self.layers@.len() ==> match (
                self.layers@[0].ffn,
                (#[trigger] self.layers@[i]).ffn,
            ) {
                (FfnWeights::Moe(first), FfnWeights::Moe(other)) => first.experts_per_token
                    == other.experts_per_token,
                _ => true,
            }
    }

    /// Where the entry of the state table for a layer and a row points: a row of the batch to its
    /// own state, if the layer is recurrent, and an empty row to a spare state.
    pub open spec fn state_of(self, layer: int, row: int, active: nat) -> StateRef {
        if row >= active {
            StateRef::Padding(row as usize)
        } else if self.layers@[layer].spec_kind() == QwenLayerKind::LinearAttention {
            StateRef::Row(row as usize)
        } else {
            StateRef::Null
        }
    }

    /// Whether a state table is that of a batch.
    pub open spec fn table_made_for(
        self,
        table: Seq<StateRef>,
        active: nat,
        capacity: usize,
    ) -> bool {
        &&& table.len() == self.layers@.len() * capacity
        &&& forall|layer: int, row: int|
            0 <= layer < self.layers@.len() && 0 <= row < capacity ==> #[trigger] table[layer
                * capacity + row] == self.state_of(layer, row, active)
    }

    fn state_table(&self, active: usize, capacity: usize) -> (table: Vec<StateRef>)
        ensures
            self.table_made_for(table@, active as nat, capacity),
    {
        let mut rows: Vec<Vec<bool>> = Vec::new();
        let mut i: usize = 0;
        while i < active
            invariant
                i <= active,
                rows@.len() == i,
                forall|j: int| 0 <= j < i ==> #[trigger] rows@[j]@ == self.recurrent_layers(),
            decreases active - i,
        {
            let row = self.batch_linear_layers();
            assert(row@ =~= self.recurrent_layers());
            rows.push(row);
            i += 1;
        }
        let table = update_state_tables(rows.as_slice(), self.layers.len(), capacity);
        proof {
            assert forall|layer: int, row: int|
                0 <= layer < self.layers@.len() && 0 <= row < capacity implies #[trigger] table@[
            layer * capacity + row] == self.state_of(layer, row, active as nat) by {
                assert(table@[layer * capacity + row] == crate::qwen36::gdn::state_entry(
                    rows@,
                    layer,
                    row,
                ));
                if row < active {
                    assert(rows@[row]@ == self.recurrent_layers());
                }
            }
        }
        table
    }
}

/// Tokens of each row of a prompt batch, as the device counts them.
pub open spec fn row_lengths(rows: Seq<Qwen36PrefillRow>) -> Seq<u32> {
    Seq::new(rows.len(), |i: int| rows[i].token_ids@.len() as u32)
}

/// First packed row of each row of a prompt batch, with room for `capacity` rows.
pub open spec fn row_offsets(rows: Seq<Qwen36PrefillRow>, capacity: usize) -> Seq<u32> {
    Seq::new(
        capacity as nat,
        |i: int|
            if i < rows.len() {
                crate::qwen36::batch::tokens_in(rows, i as nat) as u32
            } else {
                0
            },
    )
}

proof fn lemma_counted_tokens(rows: Seq<Qwen36PrefillRow>, count: nat)
    requires
        count <= rows.len(),
    ensures
        crate::qwen36::gdn::tokens_before(row_lengths(rows), count)
            <= crate::qwen36::batch::tokens_in(rows, count),
        crate::qwen36::batch::tokens_in(rows, count) <= crate::qwen36::batch::tokens_in(
            rows,
            rows.len(),
        ),
    decreases rows.len() - count,
{
    if count < rows.len() {
        lemma_counted_tokens(rows, count + 1);
    }
    lemma_lengths_bounded(rows, count);
}

proof fn lemma_lengths_bounded(rows: Seq<Qwen36PrefillRow>, count: nat)
    requires
        count <= rows.len(),
    ensures
        crate::qwen36::gdn::tokens_before(row_lengths(rows), count)
            <= crate::qwen36::batch::tokens_in(rows, count),
    decreases count,
{
    if count > 0 {
        lemma_lengths_bounded(rows, (count - 1) as nat);
    }
}

impl Qwen36TextModel {
    /// Kept states are those of this model, for at least `states` sequences.
    pub open spec fn snapshots_fit(
        self,
        snapshots: Option<&BatchLinearAttentionStateSnapshots>,
        states: usize,
    ) -> bool {
        snapshots matches Some(snapshots) ==> {
            &&& snapshots.well_formed()
            &&& snapshots.linear_layers@.len() == self.layers@.len()
            &&& states <= snapshots.state_table_stride
        }
    }

    /// Prompt batches with representable sizes, on buffers and states of this model.
    pub open spec fn prefill_usable(
        self,
        workspace: Qwen36PrefillBatchWorkspace,
        buffers: LayerBuffers,
        snapshots: Option<&BatchLinearAttentionStateSnapshots>,
        rows: Seq<Qwen36PrefillRow>,
        reservations: Seq<Reservation>,
    ) -> bool {
        &&& self.uniform_experts()
        &&& self.batches_fit(workspace.token_capacity, workspace.sequence_capacity)
        &&& self.buffers_made_for(
            buffers,
            workspace.token_capacity,
            workspace.sequence_capacity,
            workspace.max_context_tokens,
            true,
        )
        &&& self.snapshots_fit(snapshots, workspace.sequence_capacity)
        &&& rows.len() <= i32::MAX
        &&& forall|i: int|
            0 <= i < reservations.len() && i < rows.len() ==> {
                &&& crate::append::segments_fit(
                    (#[trigger] reservations[i]).segments@,
                    rows[i].sequence.position as int,
                )
                &&& crate::append::segments_fit(
                    reservations[i].segments@,
                    workspace.token_capacity as int,
                )
            }
    }

    /// Whether a setting is that of a prompt batch.
    pub open spec fn prefill_setting(
        self,
        setting: BatchSetting,
        workspace: Qwen36PrefillBatchWorkspace,
        buffers: LayerBuffers,
        snapshots: Option<&BatchLinearAttentionStateSnapshots>,
        rows: Seq<Qwen36PrefillRow>,
        reservations: Seq<Reservation>,
    ) -> bool {
        &&& *setting.buffers == buffers
        &&& setting.sequence_capacity == workspace.sequence_capacity
        &&& setting.lengths@ == row_lengths(rows)
        &&& setting.offsets@ == row_offsets(rows, workspace.sequence_capacity)
        &&& setting.snapshots == snapshots
        &&& setting.prompts@.len() == rows.len()
        &&& forall|i: int|
            0 <= i < rows.len() ==> {
                &&& (#[trigger] setting.prompts@[i]).position == rows[i].sequence.position
                &&& setting.prompts@[i].tokens == rows[i].token_ids@.len()
                &&& *setting.prompts@[i].reservation == reservations[i]
            }
    }

    proof fn lemma_prefill_linear_fits(
        self,
        setting: BatchSetting,
        workspace: Qwen36PrefillBatchWorkspace,
        pass: LayerPass,
        step: LayerStep,
    )
        requires
            self.layers@.len() <= usize::MAX,
            self.batches_fit(workspace.token_capacity, workspace.sequence_capacity),
            self.snapshots_fit(setting.snapshots, workspace.sequence_capacity),
            setting.sequence_capacity == workspace.sequence_capacity,
            setting.lengths@.len() <= workspace.sequence_capacity,
            crate::qwen36::gdn::tokens_before(setting.lengths@, setting.lengths@.len())
                <= pass.rows <= workspace.token_capacity,
            pass.holds(self.spec_kinds(), step),
            step is LinearPrefill,
        ensures
            self.step_fits(setting, step),
    {
        if let LayerStep::LinearPrefill { layer, .. } = step {
            let states = workspace.sequence_capacity as int;
            let capacity = workspace.token_capacity as int;
            assert(self.spec_kinds()[layer as int] == self.layers@[layer as int].spec_kind());
            assert(self.layers@[layer as int].batch_fits(
                self.manifest.hidden,
                self.layers@.len() as usize,
                workspace.token_capacity,
                workspace.sequence_capacity,
            ));
            let weights = self.layers@[layer as int].attention->LinearAttention_0;
            let tokens = crate::qwen36::gdn::tokens_before(
                setting.lengths@,
                setting.lengths@.len(),
            ) as int;
            lemma_scaled(layer + 1, self.layers@.len() as int, states);
            lemma_scaled(tokens, capacity, weights.qkv.rows as int);
            assert(0 <= weights.value_dim()) by (nonlinear_arith)
                requires
                    weights.value_dim() == weights.value_heads * weights.value_head_dim,
            ;
            lemma_scaled(tokens, capacity, weights.value_dim());
            lemma_scaled(tokens, capacity, weights.value_heads as int);
            lemma_scaled(pass.rows as int, capacity, weights.value_heads as int);
        }
    }

    proof fn lemma_common_step_fits(
        self,
        setting: BatchSetting,
        capacity: usize,
        states: usize,
        max_context_tokens: usize,
        chunked_prefill: bool,
        pass: LayerPass,
        step: LayerStep,
    )
        requires
            self.uniform_experts(),
            self.batches_fit(capacity, states),
            self.buffers_made_for(
                *setting.buffers,
                capacity,
                states,
                max_context_tokens,
                chunked_prefill,
            ),
            pass.rows <= capacity,
            pass.holds(self.spec_kinds(), step),
            step is AttentionPre || step is AttentionPost || step is Tail,
        ensures
            self.step_fits(setting, step),
    {
        match step {
            LayerStep::AttentionPre { layer, .. } => {
                assert(self.spec_kinds()[layer as int] == self.layers@[layer as int].spec_kind());
            },
            LayerStep::AttentionPost { layer, .. } => {
                assert(self.spec_kinds()[layer as int] == self.layers@[layer as int].spec_kind());
                self.lemma_full_fits(capacity, states, layer, pass.rows);
            },
            LayerStep::Tail { layer, .. } => {
                assert(self.layers@[layer as int].batch_fits(
                    self.manifest.hidden,
                    self.layers@.len() as usize,
                    capacity,
                    states,
                ));
                lemma_scaled(pass.rows as int, capacity as int, self.manifest.hidden as int);
            },
            _ => {},
        }
    }

    proof fn lemma_full_fits(self, capacity: usize, states: usize, layer: usize, rows: usize)
        requires
            self.batches_fit(capacity, states),
            layer < self.layers@.len(),
            self.layers@[layer as int].attention is FullAttention,
            rows <= capacity,
        ensures
            self.layers@[layer as int].attention->FullAttention_0.fits(rows),
    {
        assert(self.layers@[layer as int].batch_fits(
            self.manifest.hidden,
            self.layers@.len() as usize,
            capacity,
            states,
        ));
        let weights = self.layers@[layer as int].attention->FullAttention_0;
        assert(0 <= weights.q_width() && 0 <= weights.kv_width()) by (nonlinear_arith)
            requires
                weights.q_width() == weights.q_heads * weights.head_dim,
                weights.kv_width() == weights.kv_heads * weights.head_dim,
        ;
        lemma_scaled(rows as int, capacity as int, weights.q_width());
        lemma_scaled(rows as int, capacity as int, weights.kv_width());
    }

    proof fn lemma_prefill_step_fits(
        self,
        setting: BatchSetting,
        workspace: Qwen36PrefillBatchWorkspace,
        buffers: LayerBuffers,
        rows: Seq<Qwen36PrefillRow>,
        reservations: Seq<Reservation>,
        pass: LayerPass,
        step: LayerStep,
    )
        requires
            self.prefill_usable(workspace, buffers, setting.snapshots, rows, reservations),
            self.prefill_setting(
                setting,
                workspace,
                buffers,
                setting.snapshots,
                rows,
                reservations,
            ),
            rows.len() <= workspace.sequence_capacity,
            reservations.len() == rows.len(),
            !pass.decode,
            pass.rows == crate::qwen36::batch::tokens_in(rows, rows.len()),
            pass.rows <= workspace.token_capacity,
            pass.holds(self.spec_kinds(), step),
        ensures
            self.step_fits(setting, step),
    {
        match step {
            LayerStep::LinearPrefill { .. } => {
                lemma_counted_tokens(rows, rows.len());
                self.lemma_prefill_linear_fits(setting, workspace, pass, step);
            },
            LayerStep::AttentionPre { .. } | LayerStep::AttentionPost { .. }
            | LayerStep::Tail { .. } => {
                self.lemma_common_step_fits(
                    setting,
                    workspace.token_capacity,
                    workspace.sequence_capacity,
                    workspace.max_context_tokens,
                    true,
                    pass,
                    step,
                );
            },
            LayerStep::PromptCache { .. } => {
                assert forall|i: int| 0 <= i < setting.prompts@.len() implies (
                #[trigger] setting.prompts@[i]).fits(setting.offsets@[i] as int) by {
                    assert(crate::append::segments_fit(
                        reservations[i].segments@,
                        workspace.token_capacity as int,
                    ));
                    lemma_counted_tokens(rows, i as nat);
                    assert(setting.offsets@[i] <= workspace.token_capacity);
                }
            },
            _ => {},
        }
    }

    /// Whether a prompt batch was refused or planned as it should be. The rows are refused
    /// first, then the chunks, then the first step that cannot run.
    pub open spec fn prefill_ready(
        self,
        workspace: Qwen36PrefillBatchWorkspace,
        buffers: LayerBuffers,
        snapshots: Option<&BatchLinearAttentionStateSnapshots>,
        rows: Seq<Qwen36PrefillRow>,
        reservations: Seq<Reservation>,
        capture: Option<DFlash2TargetCapture>,
        result: Result<PrefillPlan, PlanError>,
    ) -> bool {
        let obstacle = workspace.obstacle(
            self.model_id,
            self.manifest.vocab,
            rows,
            reservations.len() as usize,
        );
        let long = crate::qwen36::gdn::tokens_before(row_lengths(rows), rows.len()) > i32::MAX;
        match result {
            Ok(plan) => {
                &&& self.prefill_planned(
                    workspace,
                    rows,
                    reservations.len() as usize,
                    capture,
                    Ok(plan.run),
                )
                &&& self.table_made_for(plan.table@, rows.len(), workspace.sequence_capacity)
                &&& match plan.chunks {
                    Some(chunks) => buffers.linear.chunked && crate::qwen36::gdn::chunks_prepared(
                        row_lengths(rows),
                        Ok(chunks),
                    ),
                    None => !buffers.linear.chunked,
                }
                &&& exists|setting: BatchSetting|
                    {
                        &&& #[trigger] self.prefill_setting(
                            setting,
                            workspace,
                            buffers,
                            snapshots,
                            rows,
                            reservations,
                        )
                        &&& self.steps_expanded(setting, plan.run.steps@, Ok(plan.ops@))
                    }
            },
            Err(PlanError::Batch(error)) => obstacle == Some(error),
            Err(PlanError::Chunks(error)) => {
                &&& obstacle is None
                &&& buffers.linear.chunked && long
                &&& error == GdnError::TokenCount
            },
            Err(PlanError::Step(error)) => {
                &&& obstacle is None
                &&& !(buffers.linear.chunked && long)
                &&& exists|setting: BatchSetting|
                    {
                        &&& #[trigger] self.prefill_setting(
                            setting,
                            workspace,
                            buffers,
                            snapshots,
                            rows,
                            reservations,
                        )
                        &&& self.steps_expanded(
                            setting,
                            crate::qwen36::model::prefill_steps(
                                self.spec_kinds(),
                                workspace,
                                rows.len(),
                                crate::qwen36::batch::tokens_in(rows, rows.len()) as usize,
                                capture,
                            ),
                            Err(error),
                        )
                    }
            },
        }
    }

    /// Plans a prompt batch: decides whether it can run, packs its rows, and lists the device
    /// operations of its layers.
    pub fn prefill_batch_impl(
        &self,
        workspace: &Qwen36PrefillBatchWorkspace,
        buffers: &LayerBuffers,
        snapshots: Option<&BatchLinearAttentionStateSnapshots>,
        rows: &[Qwen36PrefillRow],
        reservations: &[Reservation],
        capture: &Option<DFlash2TargetCapture>,
    ) -> (result: Result<PrefillPlan, PlanError>)
        requires
            self.prefill_usable(*workspace, *buffers, snapshots, rows@, reservations@),
            *capture matches Some(capture) ==> capture.well_formed(),
        ensures
            self.prefill_ready(
                *workspace,
                *buffers,
                snapshots,
                rows@,
                reservations@,
                *capture,
                result,
            ),
    {
        let run = match self.prefill_batch(workspace, rows, reservations.len(), capture) {
            Ok(run) => run,
            Err(error) => {
                return Err(PlanError::Batch(error));
            },
        };
        let table = self.state_table(rows.len(), workspace.sequence_capacity);
        let lengths = vstd::slice::slice_subrange(
            run.packed.sequence_lengths.as_slice(),
            0,
            rows.len(),
        );
        assert(lengths@ =~= row_lengths(rows@));
        let chunks = if buffers.linear.chunked {
            match prepare_chunks(lengths) {
                Ok(chunks) => Some(chunks),
                Err(error) => {
                    return Err(PlanError::Chunks(error));
                },
            }
        } else {
            None
        };
        let mut prompts: Vec<PrefillSequence> = Vec::new();
        let mut i: usize = 0;
        while i < rows.len()
            invariant
                i <= rows@.len(),
                reservations@.len() == rows@.len(),
                prompts@.len() == i,
                forall|j: int|
                    0 <= j < i ==> {
                        &&& (#[trigger] prompts@[j]).position == rows@[j].sequence.position
                        &&& prompts@[j].tokens == rows@[j].token_ids@.len()
                        &&& *prompts@[j].reservation == reservations@[j]
                    },
            decreases rows@.len() - i,
        {
            prompts.push(
                PrefillSequence {
                    position: rows[i].sequence.position,
                    tokens: rows[i].token_ids.len(),
                    reservation: &reservations[i],
                },
            );
            i += 1;
        }
        let none: Vec<DecodeSequence> = Vec::new();
        let setting = BatchSetting {
            buffers,
            sequence_capacity: workspace.sequence_capacity,
            lengths,
            offsets: run.packed.sequence_offsets.as_slice(),
            snapshots,
            prompts: prompts.as_slice(),
            rows: none.as_slice(),
        };
        assert(setting.offsets@ =~= row_offsets(rows@, workspace.sequence_capacity));
        assert(self.prefill_setting(
            setting,
            *workspace,
            *buffers,
            snapshots,
            rows@,
            reservations@,
        ));
        let ghost pass = crate::qwen36::schedule::prefill_pass(
            rows@.len() as usize,
            run.total_tokens,
            workspace.serial_linear_attention_projections,
            workspace.serial_linear_attention_recurrence,
            workspace.serial_full_attention_rows,
        );
        proof {
            let kinds = self.spec_kinds();
            let graphs = workspace.layer_graphs && run.total_tokens == workspace.token_capacity
                && rows@.len() == 1;
            let layers = pass.layer_steps(kinds, graphs, *capture, false, kinds.len());
            assert forall|k: int| 0 <= k < run.steps@.len() implies self.step_fits(
                setting,
                #[trigger] run.steps@[k],
            ) by {
                if 1 <= k <= layers.len() {
                    assert(run.steps@[k] == layers[k - 1]);
                    crate::qwen36::schedule::law_steps_belong_to_their_layers(
                        pass,
                        kinds,
                        graphs,
                        *capture,
                        false,
                        kinds.len(),
                        k - 1,
                    );
                    self.lemma_prefill_step_fits(
                        setting,
                        *workspace,
                        *buffers,
                        rows@,
                        reservations@,
                        pass,
                        run.steps@[k],
                    );
                }
            }
        }
        match self.enqueue_steps(&setting, run.steps.as_slice()) {
            Ok(ops) => Ok(PrefillPlan { run, table, chunks, ops }),
            Err(error) => Err(PlanError::Step(error)),
        }
    }
}

impl Qwen36TextModel {
    /// Decode batches with representable sizes, on buffers of this model.
    pub open spec fn decode_usable(
        self,
        workspace: Qwen36DecodeBatchWorkspace,
        buffers: LayerBuffers,
    ) -> bool {
        &&& self.uniform_experts()
        &&& self.batches_fit(workspace.capacity, workspace.capacity)
        &&& self.buffers_made_for(
            buffers,
            workspace.capacity,
            workspace.capacity,
            workspace.max_context_tokens,
            false,
        )
    }

    /// Whether a setting is that of a decode batch.
    pub open spec fn decode_setting(
        self,
        setting: BatchSetting,
        buffers: LayerBuffers,
        rows: Seq<Qwen36DecodeRow>,
        reservations: Seq<Reservation>,
    ) -> bool {
        &&& *setting.buffers == buffers
        &&& setting.rows@.len() == rows.len()
        &&& forall|i: int|
            0 <= i < rows.len() ==> {
                &&& (#[trigger] setting.rows@[i]).position == rows[i].sequence.position
                &&& *setting.rows@[i].reservation == reservations[i]
            }
    }

    proof fn lemma_decode_linear_fits(
        self,
        setting: BatchSetting,
        workspace: Qwen36DecodeBatchWorkspace,
        pass: LayerPass,
        step: LayerStep,
    )
        requires
            self.layers@.len() <= usize::MAX,
            self.batches_fit(workspace.capacity, workspace.capacity),
            pass.rows == workspace.capacity,
            pass.holds(self.spec_kinds(), step),
            step is LinearDecode,
        ensures
            self.step_fits(setting, step),
    {
        if let LayerStep::LinearDecode { layer, .. } = step {
            assert(self.spec_kinds()[layer as int] == self.layers@[layer as int].spec_kind());
            assert(self.layers@[layer as int].batch_fits(
                self.manifest.hidden,
                self.layers@.len() as usize,
                workspace.capacity,
                workspace.capacity,
            ));
            lemma_scaled(layer as int, self.layers@.len() as int, workspace.capacity as int);
        }
    }

    proof fn lemma_decode_step_fits(
        self,
        setting: BatchSetting,
        workspace: Qwen36DecodeBatchWorkspace,
        rows: Seq<Qwen36DecodeRow>,
        pass: LayerPass,
        step: LayerStep,
    )
        requires
            self.decode_usable(workspace, *setting.buffers),
            pass.decode,
            pass.rows == workspace.capacity,
            pass.active == rows.len(),
            rows.len() <= workspace.capacity,
            setting.rows@.len() == rows.len(),
            forall|i: int|
                0 <= i < rows.len() ==> (#[trigger] setting.rows@[i]).position < usize::MAX,
            pass.holds(self.spec_kinds(), step),
        ensures
            self.step_fits(setting, step),
    {
        match step {
            LayerStep::LinearDecode { .. } => {
                self.lemma_decode_linear_fits(setting, workspace, pass, step);
            },
            LayerStep::DecodeCache { layer, .. } => {
                assert(self.spec_kinds()[layer as int] == self.layers@[layer as int].spec_kind());
                self.lemma_full_fits(workspace.capacity, workspace.capacity, layer, pass.active);
            },
            LayerStep::AttentionPre { .. } | LayerStep::AttentionPost { .. }
            | LayerStep::Tail { .. } => {
                self.lemma_common_step_fits(
                    setting,
                    workspace.capacity,
                    workspace.capacity,
                    workspace.max_context_tokens,
                    false,
                    pass,
                    step,
                );
            },
            _ => {},
        }
    }

    /// Whether a decode batch was refused or planned as it should be. The rows are refused
    /// first, then the first step that cannot run.
    pub open spec fn decode_ready(
        self,
        workspace: Qwen36DecodeBatchWorkspace,
        buffers: LayerBuffers,
        rows: Seq<Qwen36DecodeRow>,
        reservations: Seq<Reservation>,
        capture: Option<DFlash2TargetCapture>,
        trace: bool,
        result: Result<DecodePlan, PlanError>,
    ) -> bool {
        let appends = reservations.len() as usize;
        match result {
            Ok(plan) => {
                &&& self.decode_planned(workspace, rows, appends, capture, trace, Ok(plan.run))
                &&& self.table_made_for(plan.table@, rows.len(), workspace.capacity)
                &&& exists|setting: BatchSetting|
                    {
                        &&& #[trigger] self.decode_setting(setting, buffers, rows, reservations)
                        &&& self.steps_expanded(setting, plan.run.steps@, Ok(plan.ops@))
                    }
            },
            Err(PlanError::Batch(error)) => workspace.obstacle(
                self.model_id,
                self.manifest.vocab,
                rows,
                appends,
            ) == Some(error),
            Err(PlanError::Chunks(_)) => false,
            Err(PlanError::Step(error)) => {
                &&& workspace.obstacle(self.model_id, self.manifest.vocab, rows, appends) is None
                &&& exists|setting: BatchSetting|
                    {
                        &&& #[trigger] self.decode_setting(setting, buffers, rows, reservations)
                        &&& self.steps_expanded(
                            setting,
                            crate::qwen36::model::decode_steps(
                                self.spec_kinds(),
                                workspace,
                                rows.len(),
                                capture,
                                trace,
                                self.manifest.hidden,
                                self.lm_head,
                            ),
                            Err(error),
                        )
                    }
            },
        }
    }

    /// Plans a decode batch: decides whether it can run, packs its rows, and lists the device
    /// operations of its layers and of the head.
    pub fn decode_batch_impl(
        &self,
        workspace: &Qwen36DecodeBatchWorkspace,
        buffers: &LayerBuffers,
        rows: &[Qwen36DecodeRow],
        reservations: &[Reservation],
        capture: &Option<DFlash2TargetCapture>,
        trace: bool,
    ) -> (result: Result<DecodePlan, PlanError>)
        requires
            self.decode_usable(*workspace, *buffers),
            *capture matches Some(capture) ==> capture.well_formed(),
        ensures
            self.decode_ready(
                *workspace,
                *buffers,
                rows@,
                reservations@,
                *capture,
                trace,
                result,
            ),
    {
        let appends: usize = reservations.len();
        let run = match self.execute_decode_batch(workspace, rows, appends, capture, trace) {
            Ok(run) => run,
            Err(error) => {
                return Err(PlanError::Batch(error));
            },
        };
        let table = self.state_table(rows.len(), workspace.capacity);
        let mut sequences: Vec<DecodeSequence> = Vec::new();
        let mut i: usize = 0;
        while i < rows.len()
            invariant
                i <= rows@.len(),
                reservations@.len() == rows@.len(),
                sequences@.len() == i,
                forall|j: int|
                    0 <= j < i ==> {
                        &&& (#[trigger] sequences@[j]).position == rows@[j].sequence.position
                        &&& *sequences@[j].reservation == reservations@[j]
                    },
            decreases rows@.len() - i,
        {
            sequences.push(
                DecodeSequence {
                    position: rows[i].sequence.position,
                    reservation: &reservations[i],
                },
            );
            i += 1;
        }
        let none: Vec<PrefillSequence> = Vec::new();
        let lengths: Vec<u32> = Vec::new();
        let setting = BatchSetting {
            buffers,
            sequence_capacity: workspace.capacity,
            lengths: lengths.as_slice(),
            offsets: lengths.as_slice(),
            snapshots: None,
            prompts: none.as_slice(),
            rows: sequences.as_slice(),
        };
        assert(self.decode_setting(setting, *buffers, rows@, reservations@));
        proof {
            let kinds = self.spec_kinds();
            let pass = crate::qwen36::schedule::decode_pass(
                workspace.capacity,
                rows@.len() as usize,
            );
            let graphs = workspace.layer_graphs;
            let layers = pass.layer_steps(kinds, graphs, *capture, trace, kinds.len());
            assert forall|k: int| 0 <= k < rows@.len() implies (
            #[trigger] setting.rows@[k]).position < usize::MAX by {
                crate::qwen36::batch::law_accepted_decode_rows_fit(
                    *workspace,
                    self.model_id,
                    self.manifest.vocab,
                    rows@,
                    appends,
                    k,
                );
            }
            assert forall|k: int| 0 <= k < run.steps@.len() implies self.step_fits(
                setting,
                #[trigger] run.steps@[k],
            ) by {
                if 1 <= k <= layers.len() {
                    assert(run.steps@[k] == layers[k - 1]);
                    crate::qwen36::schedule::law_steps_belong_to_their_layers(
                        pass,
                        kinds,
                        graphs,
                        *capture,
                        trace,
                        kinds.len(),
                        k - 1,
                    );
                    self.lemma_decode_step_fits(
                        setting,
                        *workspace,
                        rows@,
                        pass,
                        run.steps@[k],
                    );
                }
            }
        }
        match self.enqueue_steps(&setting, run.steps.as_slice()) {
            Ok(ops) => Ok(DecodePlan { run, table, ops }),
            Err(error) => Err(PlanError::Step(error)),
        }
    }
}

impl Qwen36TextModel {
    /// Whether the graphs of the layers were refused or recorded as they should be.
    pub open spec fn graphs_recorded(
        self,
        setting: BatchSetting,
        pass: LayerPass,
        result: Result<Vec<LayerOp>, StepError>,
    ) -> bool {
        let kinds = self.spec_kinds();
        self.steps_expanded(
            setting,
            pass.capture_steps(kinds, kinds.len()) + crate::qwen36::schedule::restore_order(
                kinds.len(),
            ),
            match result {
                Ok(ops) => Ok(ops@),
                Err(error) => Err(error),
            },
        )
    }

    /// Lists the device operations that record the graphs of decode batches, layer by layer.
    pub fn capture_batch_layer_graphs(
        &self,
        workspace: &Qwen36DecodeBatchWorkspace,
        buffers: &LayerBuffers,
    ) -> (result: Result<Vec<LayerOp>, StepError>)
        requires
            self.decode_usable(*workspace, *buffers),
        ensures
            exists|setting: BatchSetting| *setting.buffers == *buffers && #[trigger]
                self.graphs_recorded(
                    setting,
                    crate::qwen36::schedule::decode_pass(workspace.capacity, workspace.capacity),
                    result,
                ),
    {
        let pass = LayerPass {
            decode: true,
            rows: workspace.capacity,
            active: workspace.capacity,
            sequences: workspace.capacity,
            serial_projections: false,
            serial_recurrence: false,
            serial_rows: false,
        };
        let kinds = self.layer_kinds();
        let steps = pass.capture_layer_graphs(kinds.as_slice());
        let prompts: Vec<PrefillSequence> = Vec::new();
        let rows: Vec<DecodeSequence> = Vec::new();
        let lengths: Vec<u32> = Vec::new();
        let setting = BatchSetting {
            buffers,
            sequence_capacity: workspace.capacity,
            lengths: lengths.as_slice(),
            offsets: lengths.as_slice(),
            snapshots: None,
            prompts: prompts.as_slice(),
            rows: rows.as_slice(),
        };
        proof {
            assert forall|k: int| 0 <= k < steps@.len() implies self.step_fits(
                setting,
                #[trigger] steps@[k],
            ) by {
                let captured = pass.capture_steps(kinds@, kinds@.len());
                if k < captured.len() {
                    assert(steps@[k] == captured[k]);
                    crate::qwen36::schedule::law_captured_steps_belong_to_their_layers(
                        pass,
                        kinds@,
                        kinds@.len(),
                        k,
                    );
                    if steps@[k] is LinearDecode {
                        self.lemma_decode_linear_fits(setting, *workspace, pass, steps@[k]);
                    } else if steps@[k] is AttentionPre || steps@[k] is AttentionPost
                        || steps@[k] is Tail {
                        self.lemma_common_step_fits(
                            setting,
                            workspace.capacity,
                            workspace.capacity,
                            workspace.max_context_tokens,
                            false,
                            pass,
                            steps@[k],
                        );
                    }
                }
            }
        }
        let result = self.enqueue_steps(&setting, steps.as_slice());
        assert(pass == crate::qwen36::schedule::decode_pass(
            workspace.capacity,
            workspace.capacity,
        ));
        assert(self.graphs_recorded(setting, pass, result));
        result
    }

    /// Lists the device operations that record the graphs of a full prompt pass of one sequence,
    /// layer by layer.
    pub fn capture_speculative_prefill_layer_graphs(
        &self,
        workspace: &Qwen36PrefillBatchWorkspace,
        buffers: &LayerBuffers,
        snapshots: Option<&BatchLinearAttentionStateSnapshots>,
    ) -> (result: Result<Vec<LayerOp>, StepError>)
        requires
            workspace.sequence_capacity == 1,
            self.uniform_experts(),
            self.batches_fit(workspace.token_capacity, 1),
            self.buffers_made_for(
                *buffers,
                workspace.token_capacity,
                1,
                workspace.max_context_tokens,
                true,
            ),
            self.snapshots_fit(snapshots, 1),
        ensures
            exists|setting: BatchSetting|
                {
                    &&& *setting.buffers == *buffers
                    &&& setting.sequence_capacity == 1
                    &&& setting.lengths@ == seq![workspace.token_capacity as u32]
                    &&& setting.snapshots == snapshots
                    &&& #[trigger] self.graphs_recorded(
                        setting,
                        crate::qwen36::schedule::prefill_pass(
                            1,
                            workspace.token_capacity,
                            workspace.serial_linear_attention_projections,
                            workspace.serial_linear_attention_recurrence,
                            workspace.serial_full_attention_rows,
                        ),
                        result,
                    )
                },
    {
        let pass = LayerPass {
            decode: false,
            rows: workspace.token_capacity,
            active: workspace.token_capacity,
            sequences: 1,
            serial_projections: workspace.serial_linear_attention_projections,
            serial_recurrence: workspace.serial_linear_attention_recurrence,
            serial_rows: workspace.serial_full_attention_rows,
        };
        let kinds = self.layer_kinds();
        let steps = pass.capture_layer_graphs(kinds.as_slice());
        let prompts: Vec<PrefillSequence> = Vec::new();
        let rows: Vec<DecodeSequence> = Vec::new();
        let mut lengths: Vec<u32> = Vec::new();
        lengths.push(
            #[verifier::truncate]
            (workspace.token_capacity as u32),
        );
        let setting = BatchSetting {
            buffers,
            sequence_capacity: 1,
            lengths: lengths.as_slice(),
            offsets: lengths.as_slice(),
            snapshots,
            prompts: prompts.as_slice(),
            rows: rows.as_slice(),
        };
        proof {
            assert(lengths@ =~= seq![workspace.token_capacity as u32]);
            reveal_with_fuel(crate::qwen36::gdn::tokens_before, 2);
            assert forall|k: int| 0 <= k < steps@.len() implies self.step_fits(
                setting,
                #[trigger] steps@[k],
            ) by {
                let captured = pass.capture_steps(kinds@, kinds@.len());
                if k < captured.len() {
                    assert(steps@[k] == captured[k]);
                    crate::qwen36::schedule::law_captured_steps_belong_to_their_layers(
                        pass,
                        kinds@,
                        kinds@.len(),
                        k,
                    );
                    if steps@[k] is LinearPrefill {
                        self.lemma_prefill_linear_fits(setting, *workspace, pass, steps@[k]);
                    } else if steps@[k] is AttentionPre || steps@[k] is AttentionPost
                        || steps@[k] is Tail {
                        self.lemma_common_step_fits(
                            setting,
                            workspace.token_capacity,
                            1,
                            workspace.max_context_tokens,
                            true,
                            pass,
                            steps@[k],
                        );
                    }
                }
            }
        }
        let result = self.enqueue_steps(&setting, steps.as_slice());
        assert(pass == crate::qwen36::schedule::prefill_pass(
            1,
            workspace.token_capacity,
            workspace.serial_linear_attention_projections,
            workspace.serial_linear_attention_recurrence,
            workspace.serial_full_attention_rows,
        ));
        assert(self.graphs_recorded(setting, pass, result));
        result
    }
}

} // verus!
