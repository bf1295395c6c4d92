//! Hybrid text model: its layers, its workspaces and its batches.

use vstd::prelude::*;
use crate::manifest::{QwenLayerKind, QwenModelManifest};
use crate::qwen36::attention::AttentionLayer;
use crate::qwen36::batch::{
    pack_decode, pack_prefill, BatchError, PackedDecode, PackedPrefill, Qwen36DecodeBatchWorkspace,
    Qwen36DecodeRow, Qwen36DecodedBatch, Qwen36PrefillBatchWorkspace, Qwen36PrefillRow,
};
use crate::qwen36::capture::{CaptureError, DFlash2TargetCapture};
use crate::qwen36::dflash2::config::{DFlash2Config, DFlash2Error};
use crate::qwen36::dflash2::draft::Qwen38DFlash2;
use crate::qwen36::dflash2::sequence::{ContextOp, Qwen38DFlash2SequenceState, WindowError};
use crate::qwen36::ffn::{BatchFfnWorkspace, FfnError, FfnWeights};
use crate::qwen36::gdn::GdnLayer;
use crate::qwen36::linear::Linear;
use crate::qwen36::mtp::{MtpError, Qwen36MtpWeights};
use crate::qwen36::schedule::{DecodeSchedule, LayerStep, PrefillSchedule};

verus! {

/// Attention weights of one layer.
#[derive(Clone, Copy, Debug, PartialEq, Eq, Structural)]
pub enum Qwen36Attention {
    /// Recurrent attention.
    LinearAttention(GdnLayer),
    /// Attention over cached keys and values.
    FullAttention(AttentionLayer),
}

/// Weights of one layer.
#[derive(Clone, Copy, Debug, PartialEq, Eq, Structural)]
pub struct Qwen36LayerBlock {
    /// Attention.
    pub attention: Qwen36Attention,
    /// Feed-forward block.
    pub ffn: FfnWeights,
}

impl Qwen36LayerBlock {
    /// Attention kind.
    pub open spec fn spec_kind(self) -> QwenLayerKind {
        match self.attention {
            Qwen36Attention::LinearAttention(_) => QwenLayerKind::LinearAttention,
            Qwen36Attention::FullAttention(_) => QwenLayerKind::FullAttention,
        }
    }

    /// Attention kind.
    pub fn kind(&self) -> (kind: QwenLayerKind)
        ensures
            kind == self.spec_kind(),
    {
        match self.attention {
            Qwen36Attention::LinearAttention(_) => QwenLayerKind::LinearAttention,
            Qwen36Attention::FullAttention(_) => QwenLayerKind::FullAttention,
        }
    }
}

/// Hybrid text model.
pub struct Qwen36TextModel {
    /// Identity of this instance.
    pub model_id: u64,
    /// Dimensions.
    pub manifest: QwenModelManifest,
    /// Layers.
    pub layers: Vec<Qwen36LayerBlock>,
    /// Head.
    pub lm_head: Linear,
    /// Native draft block, where the checkpoint has one.
    pub mtp: Option<Qwen36MtpWeights>,
    /// External companion.
    pub dflash2: Option<Qwen38DFlash2>,
}

/// A prompt batch that is ready to run.
pub struct PrefillRun {
    /// Packed rows.
    pub packed: PackedPrefill,
    /// Tokens of all rows.
    pub total_tokens: usize,
    /// Steps.
    pub steps: Vec<LayerStep>,
}

/// A decode batch that is ready to run.
pub struct DecodeRun {
    /// Packed rows.
    pub packed: PackedDecode,
    /// Steps.
    pub steps: Vec<LayerStep>,
    /// Output of the batch, once its steps have run.
    pub decoded: Qwen36DecodedBatch,
}

/// Values that a trace copies to the host after one layer.
#[derive(Clone, Copy, Debug, PartialEq, Eq, Structural)]
pub struct TraceSizes {
    /// Residual rows; as many for the normalised input, the attention output, its residual and
    /// its normalised form.
    pub hidden: usize,
    /// Router logits.
    pub router_logits: usize,
    /// Selected experts, and as many weights.
    pub routes: usize,
    /// Routed output, and as many values of the shared expert.
    pub routed: usize,
    /// Gates of the shared expert.
    pub shared_gate: usize,
    /// Output of a dense block.
    pub dense: usize,
}

/// Why rows of a batch cannot be appended to a companion's window.
#[derive(Clone, Copy, Debug, PartialEq, Eq, Structural)]
pub enum CompanionAppend {
    /// The batch captures no rows.
    NoCapture,
    /// The window refused them.
    Window(WindowError),
}

/// No companion is enabled.
#[derive(Clone, Copy, Debug, PartialEq, Eq, Structural)]
pub struct NoCompanion;

impl Qwen36TextModel {
    /// Attention kinds of the layers.
    pub open spec fn spec_kinds(self) -> Seq<QwenLayerKind> {
        self.layers@.map_values(|block: Qwen36LayerBlock| block.spec_kind())
    }

    /// Attention kinds of the layers.
    pub fn layer_kinds(&self) -> (kinds: Vec<QwenLayerKind>)
        ensures
            kinds@ == self.spec_kinds(),
    {
        let mut kinds: Vec<QwenLayerKind> = Vec::new();
        let mut i: usize = 0;
        while i < self.layers.len()
            invariant
                i <= self.layers@.len(),
                kinds@ == self.spec_kinds().take(i as int),
            decreases self.layers@.len() - i,
        {
            kinds.push(self.layers[i].kind());
            i += 1;
            assert(kinds@ =~= self.spec_kinds().take(i as int));
        }
        assert(kinds@ =~= self.spec_kinds());
        kinds
    }

    /// Number of layers.
    pub fn batch_layer_count(&self) -> (count: usize)
        ensures
            count == self.layers@.len(),
    {
        self.layers.len()
    }

    /// Whether each layer is recurrent.
    pub fn batch_linear_layers(&self) -> (linear: Vec<bool>)
        ensures
            linear@ == Seq::new(
                self.layers@.len(),
                |i: int| self.layers@[i].spec_kind() == QwenLayerKind::LinearAttention,
            ),
    {
        let mut linear: Vec<bool> = Vec::new();
        let mut i: usize = 0;
        while i < self.layers.len()
            invariant
                i <= self.layers@.len(),
                linear@ == Seq::new(
                    i as nat,
                    |j: int| self.layers@[j].spec_kind() == QwenLayerKind::LinearAttention,
                ),
            decreases self.layers@.len() - i,
        {
            linear.push(matches!(self.layers[i].attention, Qwen36Attention::LinearAttention(_)));
            i += 1;
            assert(linear@ =~= Seq::new(
                i as nat,
                |j: int| self.layers@[j].spec_kind() == QwenLayerKind::LinearAttention,
            ));
        }
        linear
    }

    /// Whether a prompt batch was refused or planned as it should be.
    pub open spec fn prefill_planned(
        self,
        workspace: Qwen36PrefillBatchWorkspace,
        rows: Seq<Qwen36PrefillRow>,
        appends: usize,
        capture: Option<DFlash2TargetCapture>,
        result: Result<PrefillRun, BatchError>,
    ) -> bool {
        match result {
            Ok(run) => {
                &&& workspace.obstacle(self.model_id, self.manifest.vocab, rows, appends) is None
                &&& run.total_tokens == crate::qwen36::batch::tokens_in(rows, rows.len())
                &&& run.packed.token_ids@ == crate::qwen36::batch::packed_tokens(rows, rows.len())
                &&& run.packed.positions@ == crate::qwen36::batch::packed_positions(
                    rows,
                    rows.len(),
                )
                &&& run.packed.sequence_offsets@ == Seq::new(
                    workspace.sequence_capacity as nat,
                    |i: int|
                        if i < rows.len() {
                            crate::qwen36::batch::tokens_in(rows, i as nat) as u32
                        } else {
                            0
                        },
                )
                &&& run.packed.sequence_lengths@ == Seq::new(
                    workspace.sequence_capacity as nat,
                    |i: int|
                        if i < rows.len() {
                            rows[i].token_ids@.len() as u32
                        } else {
                            0
                        },
                )
                &&& run.steps@ == prefill_steps(
                    self.spec_kinds(),
                    workspace,
                    rows.len(),
                    run.total_tokens,
                    capture,
                )
            },
            Err(error) => workspace.obstacle(
                self.model_id,
                self.manifest.vocab,
                rows,
                appends,
            ) == Some(error),
        }
    }

    /// Decides whether a prompt batch can run, packs its rows and plans its steps.
    pub fn prefill_batch(
        &self,
        workspace: &Qwen36PrefillBatchWorkspace,
        rows: &[Qwen36PrefillRow],
        appends: usize,
        capture: &Option<DFlash2TargetCapture>,
    ) -> (result: Result<PrefillRun, BatchError>)
        requires
            *capture matches Some(capture) ==> capture.well_formed(),
        ensures
            self.prefill_planned(*workspace, rows@, appends, *capture, result),
    {
        let total_tokens: usize = match workspace.admit_prefill(
            self.model_id,
            self.manifest.vocab,
            rows,
            appends,
        ) {
            Ok(total) => total,
            Err(error) => {
                return Err(error);
            },
        };
        proof {
            assert forall|i: int| 0 <= i < rows@.len() implies (
            #[trigger] rows@[i]).sequence.position + rows@[i].token_ids@.len() <= usize::MAX by {
                crate::qwen36::batch::law_accepted_prompt_rows_fit(
                    *workspace,
                    self.model_id,
                    self.manifest.vocab,
                    rows@,
                    appends,
                    i,
                );
            }
        }
        let packed = pack_prefill(rows, workspace.sequence_capacity);
        let kinds = self.layer_kinds();
        let schedule = PrefillSchedule {
            kinds: kinds.as_slice(),
            sequences: rows.len(),
            total: total_tokens,
            token_capacity: workspace.token_capacity,
            graphs: workspace.layer_graphs,
            serial_projections: workspace.serial_linear_attention_projections,
            serial_recurrence: workspace.serial_linear_attention_recurrence,
            serial_rows: workspace.serial_full_attention_rows,
            capture,
        };
        let steps = schedule.plan_steps();
        Ok(PrefillRun { packed, total_tokens, steps })
    }

    /// Whether a decode batch was refused or planned as it should be.
    pub open spec fn decode_planned(
        self,
        workspace: Qwen36DecodeBatchWorkspace,
        rows: Seq<Qwen36DecodeRow>,
        appends: usize,
        capture: Option<DFlash2TargetCapture>,
        trace: bool,
        result: Result<DecodeRun, BatchError>,
    ) -> bool {
        match result {
            Ok(run) => {
                &&& workspace.obstacle(self.model_id, self.manifest.vocab, rows, appends) is None
                &&& run.packed.token_ids@ == Seq::new(
                    workspace.capacity as nat,
                    |i: int|
                        if i < rows.len() {
                            rows[i].token_id
                        } else {
                            0
                        },
                )
                &&& run.packed.positions@ == Seq::new(
                    workspace.capacity as nat,
                    |i: int|
                        if i < rows.len() {
                            rows[i].sequence.position as u32
                        } else {
                            0
                        },
                )
                &&& run.steps@ == decode_steps(
                    self.spec_kinds(),
                    workspace,
                    rows.len(),
                    capture,
                    trace,
                    self.manifest.hidden,
                    self.lm_head,
                )
                &&& run.decoded == (Qwen36DecodedBatch {
                    rows: rows.len() as usize,
                    vocab: self.manifest.vocab,
                })
            },
            Err(error) => workspace.obstacle(
                self.model_id,
                self.manifest.vocab,
                rows,
                appends,
            ) == Some(error),
        }
    }

    /// Decides whether a decode batch can run, packs its rows and plans its steps. A traced batch
    /// copies the activations of every layer to the host.
    pub fn execute_decode_batch(
        &self,
        workspace: &Qwen36DecodeBatchWorkspace,
        rows: &[Qwen36DecodeRow],
        appends: usize,
        capture: &Option<DFlash2TargetCapture>,
        trace: bool,
    ) -> (result: Result<DecodeRun, BatchError>)
        requires
            *capture matches Some(capture) ==> capture.well_formed(),
        ensures
            self.decode_planned(*workspace, rows@, appends, *capture, trace, result),
    {
        match workspace.admit_decode(self.model_id, self.manifest.vocab, rows, appends) {
            Ok(_) => {},
            Err(error) => {
                return Err(error);
            },
        }
        let packed = pack_decode(rows, workspace.capacity);
        let kinds = self.layer_kinds();
        let schedule = DecodeSchedule {
            kinds: kinds.as_slice(),
            capacity: workspace.capacity,
            active: rows.len(),
            graphs: workspace.layer_graphs,
            capture,
            trace,
            hidden: self.manifest.hidden,
            head: self.lm_head,
        };
        let steps = schedule.plan_steps();
        let decoded = Qwen36DecodedBatch { rows: rows.len(), vocab: self.manifest.vocab };
        Ok(DecodeRun { packed, steps, decoded })
    }

    /// Plans a decode batch.
    pub fn decode_batch(
        &self,
        workspace: &Qwen36DecodeBatchWorkspace,
        rows: &[Qwen36DecodeRow],
        appends: usize,
        capture: &Option<DFlash2TargetCapture>,
    ) -> (result: Result<DecodeRun, BatchError>)
        requires
            *capture matches Some(capture) ==> capture.well_formed(),
        ensures
            self.decode_planned(*workspace, rows@, appends, *capture, false, result),
    {
        self.execute_decode_batch(workspace, rows, appends, capture, false)
    }

    /// Plans a diagnostic decode batch, which copies each layer's rows to the host.
    pub fn trace_decode_batch(
        &self,
        workspace: &Qwen36DecodeBatchWorkspace,
        rows: &[Qwen36DecodeRow],
        appends: usize,
        capture: &Option<DFlash2TargetCapture>,
    ) -> (result: Result<DecodeRun, BatchError>)
        requires
            *capture matches Some(capture) ==> capture.well_formed(),
        ensures
            self.decode_planned(*workspace, rows@, appends, *capture, true, result),
    {
        self.execute_decode_batch(workspace, rows, appends, capture, true)
    }

    /// Counts the values that a trace copies after one layer.
    pub fn capture_decode_layer_trace(
        &self,
        ffn: &FfnWeights,
        workspace: &BatchFfnWorkspace,
        active_rows: usize,
    ) -> (result: Result<TraceSizes, FfnError>)
        requires
            active_rows * self.manifest.hidden <= usize::MAX,
            *ffn matches FfnWeights::Moe(weights) ==> active_rows * weights.experts <= usize::MAX
                && active_rows * weights.experts_per_token <= usize::MAX,
        ensures
            ({
                let hidden = active_rows * self.manifest.hidden;
                match (*ffn, *workspace) {
                    (FfnWeights::Moe(weights), BatchFfnWorkspace::Moe(_)) => result == Ok::<
                        TraceSizes,
                        FfnError,
                    >(
                        TraceSizes {
                            hidden: hidden as usize,
                            router_logits: (active_rows * weights.experts) as usize,
                            routes: (active_rows * weights.experts_per_token) as usize,
                            routed: hidden as usize,
                            shared_gate: active_rows,
                            dense: 0,
                        },
                    ),
                    (FfnWeights::Dense(_), BatchFfnWorkspace::Dense(_)) => result == Ok::<
                        TraceSizes,
                        FfnError,
                    >(
                        TraceSizes {
                            hidden: hidden as usize,
                            router_logits: 0,
                            routes: 0,
                            routed: 0,
                            shared_gate: 0,
                            dense: hidden as usize,
                        },
                    ),
                    _ => result == Err::<TraceSizes, FfnError>(FfnError::WorkspaceKind),
                }
            }),
    {
        let hidden: usize = active_rows * self.manifest.hidden;
        match (ffn, workspace) {
            (FfnWeights::Moe(weights), BatchFfnWorkspace::Moe(_)) => Ok(
                TraceSizes {
                    hidden,
                    router_logits: active_rows * weights.experts,
                    routes: active_rows * weights.experts_per_token,
                    routed: hidden,
                    shared_gate: active_rows,
                    dense: 0,
                },
            ),
            (FfnWeights::Dense(_), BatchFfnWorkspace::Dense(_)) => Ok(
                TraceSizes {
                    hidden,
                    router_logits: 0,
                    routes: 0,
                    routed: 0,
                    shared_gate: 0,
                    dense: hidden,
                },
            ),
            _ => Err(FfnError::WorkspaceKind),
        }
    }

    /// Enables an external companion that fits this model.
    pub fn enable_dflash2(&mut self, config: DFlash2Config) -> (result: Result<(), DFlash2Error>)
        requires
            config.valid(),
        ensures
            final(self).model_id == old(self).model_id,
            final(self).manifest == old(self).manifest,
            final(self).layers == old(self).layers,
            final(self).lm_head == old(self).lm_head,
            final(self).mtp == old(self).mtp,
            match result {
                Ok(_) => {
                    &&& config.mismatches(old(self).manifest).len() == 0
                    &&& config.block_size
                        == crate::qwen36::dflash2::sequence::DFLASH2_BLOCK_ROWS
                    &&& final(self).dflash2 matches Some(draft) && draft.config == config
                        && draft.well_formed()
                },
                Err(error) => {
                    &&& final(self).dflash2 == old(self).dflash2
                    &&& if config.mismatches(old(self).manifest).len() > 0 {
                        error matches DFlash2Error::Target(found) && found@ == config.mismatches(
                            old(self).manifest,
                        )
                    } else {
                        config.block_size
                            != crate::qwen36::dflash2::sequence::DFLASH2_BLOCK_ROWS && error
                            == DFlash2Error::BlockSize(config.block_size)
                    }
                },
            },
    {
        match Qwen38DFlash2::load(config, &self.manifest) {
            Ok(draft) => {
                self.dflash2 = Some(draft);
                Ok(())
            },
            Err(error) => Err(error),
        }
    }

    /// Whether an external companion is enabled.
    pub fn dflash2_enabled(&self) -> (enabled: bool)
        ensures
            enabled == (self.dflash2 is Some),
    {
        self.dflash2.is_some()
    }

    /// The external companion.
    pub fn companion(&self) -> (result: Result<&Qwen38DFlash2, NoCompanion>)
        ensures
            match result {
                Ok(draft) => self.dflash2 == Some(*draft),
                Err(_) => self.dflash2 is None,
            },
    {
        match &self.dflash2 {
            Some(draft) => Ok(draft),
            None => Err(NoCompanion),
        }
    }

    /// Plans the append of captured rows of a batch to the window of a companion, and advances
    /// it. The batch may be a prompt, a decode step or a verification pass.
    pub fn dflash2_append(
        &self,
        state: &mut Qwen38DFlash2SequenceState,
        capture: &Option<DFlash2TargetCapture>,
        captured_row: usize,
        rows: usize,
    ) -> (result: Result<Vec<ContextOp>, CompanionAppend>)
        requires
            self.dflash2 is Some,
            self.dflash2->0.config.context_fits(),
            old(state).position + rows <= usize::MAX,
            forall|i: int|
                0 <= i < old(state).layers@.len() ==> #[trigger] old(state).layers@[i]
                    <= self.dflash2->0.config.sliding_window,
        ensures
            ({
                let config = self.dflash2->0.config;
                let appendable = capture matches Some(capture) && config.appendable(
                    old(state).layers@.len(),
                    capture.values,
                    captured_row,
                    rows,
                );
                match result {
                    Ok(ops) => {
                        &&& appendable
                        &&& ops@ == config.context_ops(
                            old(state).position as int,
                            captured_row as int,
                            rows as int,
                            0,
                        )
                        &&& final(state).advanced(*old(state), rows, config.sliding_window)
                        &&& old(state).consistent(config) ==> final(state).consistent(config)
                    },
                    Err(error) => {
                        &&& !appendable
                        &&& *final(state) == *old(state)
                        &&& error == if capture is None {
                            CompanionAppend::NoCapture
                        } else {
                            CompanionAppend::Window(WindowError::ContextAppend)
                        }
                    },
                }
            }),
    {
        let captured: usize = match capture {
            Some(capture) => capture.values,
            None => return Err(CompanionAppend::NoCapture),
        };
        match &self.dflash2 {
            Some(draft) => match draft.config.append_captured_context(
                state,
                captured,
                captured_row,
                rows,
            ) {
                Ok(ops) => Ok(ops),
                Err(error) => Err(CompanionAppend::Window(error)),
            },
            None => Err(CompanionAppend::NoCapture),
        }
    }

    /// Makes room for the rows that the companion reads from a batch of `rows` rows.
    pub fn enable_dflash2_capture(&self, rows: usize) -> (result: Result<
        DFlash2TargetCapture,
        CompanionError,
    >)
        requires
            self.dflash2 matches Some(draft) ==> {
                &&& rows * draft.config.target_layers@.len() <= usize::MAX
                &&& rows * draft.config.target_layers@.len() * self.manifest.hidden <= usize::MAX
            },
        ensures
            match result {
                Ok(capture) => {
                    &&& self.dflash2 is Some && rows > 0 && self.manifest.hidden > 0
                    &&& capture.well_formed()
                    &&& capture.layers@ == self.dflash2->0.config.target_layers@
                    &&& capture.values == rows * capture.layers@.len() * self.manifest.hidden
                },
                Err(CompanionError::NotEnabled) => self.dflash2 is None,
                Err(CompanionError::Capture(_)) => {
                    &&& self.dflash2 is Some
                    &&& !(crate::qwen36::capture::ordered_layers(
                        self.dflash2->0.config.target_layers@,
                    ) && rows > 0 && self.manifest.hidden > 0)
                },
            },
    {
        match &self.dflash2 {
            None => Err(CompanionError::NotEnabled),
            Some(draft) => match DFlash2TargetCapture::new(
                draft.config.target_layers.as_slice(),
                rows,
                self.manifest.hidden,
            ) {
                Ok(capture) => Ok(capture),
                Err(error) => Err(CompanionError::Capture(error)),
            },
        }
    }
}

/// Sizes of the native draft block's workspace, in values.
#[derive(Clone, Copy, Debug, PartialEq, Eq, Structural)]
pub struct Qwen36MtpDraftWorkspace {
    /// Drafted tokens.
    pub draft_tokens: usize,
    /// Each buffer of one hidden row.
    pub hidden: usize,
    /// Normalised token and target row side by side.
    pub fused: usize,
    /// Gate and up projection.
    pub gate_up: usize,
    /// Activated inner row.
    pub activated: usize,
    /// Tokens of the attention's context.
    pub max_tokens: usize,
    /// Logits.
    pub logits: usize,
    /// Each of the two partial-argmax buffers.
    pub top1_scratch: usize,
}

impl Qwen36TextModel {
    /// Sizes the workspace of the native draft block.
    pub fn new_mtp_draft_workspace(&self, max_tokens: usize) -> (result: Result<
        Qwen36MtpDraftWorkspace,
        MtpError,
    >)
        requires
            2 * self.manifest.hidden <= usize::MAX,
            2 * self.manifest.intermediate <= usize::MAX,
        ensures
            match result {
                Ok(workspace) => {
                    &&& self.mtp is Some
                    &&& workspace.draft_tokens == max_tokens
                    &&& workspace.hidden == self.manifest.hidden
                    &&& workspace.fused == 2 * self.manifest.hidden
                    &&& workspace.gate_up == 2 * self.manifest.intermediate
                    &&& workspace.activated == self.manifest.intermediate
                    &&& workspace.max_tokens == max_tokens
                    &&& workspace.logits == self.manifest.vocab
                    &&& workspace.top1_scratch == (self.manifest.vocab + 7) / 8
                },
                Err(error) => self.mtp is None && error == MtpError::NoWeights,
            },
    {
        if self.mtp.is_none() {
            return Err(MtpError::NoWeights);
        }
        let vocab: usize = self.manifest.vocab;
        let groups: usize = if vocab % 8 == 0 {
            vocab / 8
        } else {
            vocab / 8 + 1
        };
        Ok(
            Qwen36MtpDraftWorkspace {
                draft_tokens: max_tokens,
                hidden: self.manifest.hidden,
                fused: 2 * self.manifest.hidden,
                gate_up: 2 * self.manifest.intermediate,
                activated: self.manifest.intermediate,
                max_tokens,
                logits: vocab,
                top1_scratch: groups,
            },
        )
    }
}

/// Why the companion cannot be used.
#[derive(Clone, Copy, Debug, PartialEq, Eq, Structural)]
pub enum CompanionError {
    /// No companion is enabled.
    NotEnabled,
    /// Its rows cannot be captured.
    Capture(CaptureError),
}

/// Steps of a prompt batch.
pub open spec fn prefill_steps(
    kinds: Seq<QwenLayerKind>,
    workspace: Qwen36PrefillBatchWorkspace,
    sequences: nat,
    total: usize,
    capture: Option<DFlash2TargetCapture>,
) -> Seq<LayerStep> {
    let pass = crate::qwen36::schedule::prefill_pass(
        sequences as usize,
        total,
        workspace.serial_linear_attention_projections,
        workspace.serial_linear_attention_recurrence,
        workspace.serial_full_attention_rows,
    );
    seq![LayerStep::Gather { rows: total }] + pass.layer_steps(
        kinds,
        workspace.layer_graphs && total == workspace.token_capacity && sequences == 1,
        capture,
        false,
        kinds.len(),
    ) + crate::qwen36::schedule::restore_order(kinds.len()) + seq![LayerStep::Synchronize]
}

/// Steps of a decode batch.
pub open spec fn decode_steps(
    kinds: Seq<QwenLayerKind>,
    workspace: Qwen36DecodeBatchWorkspace,
    rows: nat,
    capture: Option<DFlash2TargetCapture>,
    trace: bool,
    hidden: usize,
    head: Linear,
) -> Seq<LayerStep> {
    seq![LayerStep::Gather { rows: rows as usize }] + crate::qwen36::schedule::decode_pass(
        workspace.capacity,
        rows as usize,
    ).layer_steps(kinds, workspace.layer_graphs, capture, trace, kinds.len()) + seq![
        LayerStep::FinalNorm { rows: workspace.capacity },
        LayerStep::RoundFinal,
    ] + crate::qwen36::schedule::head_steps(head, hidden, workspace.capacity)
}

/// The output of a decode batch keeps the order of its rows: row `row` of the packed batch is the
/// `row`-th decode row, its logits are the `row`-th of those that belong to the output, and the
/// rows that fill the batch up start behind them.
pub proof fn law_decoded_rows_keep_their_order(
    model: Qwen36TextModel,
    workspace: Qwen36DecodeBatchWorkspace,
    rows: Seq<Qwen36DecodeRow>,
    appends: usize,
    capture: Option<DFlash2TargetCapture>,
    trace: bool,
    run: DecodeRun,
    row: int,
)
    requires
        model.decode_planned(workspace, rows, appends, capture, trace, Ok(run)),
        0 <= row < workspace.capacity,
    ensures
        run.decoded.rows == rows.len() <= workspace.capacity,
        run.decoded.vocab == model.manifest.vocab,
        row < rows.len() ==> {
            &&& run.packed.token_ids@[row] == rows[row].token_id
            &&& run.packed.positions@[row] == rows[row].sequence.position as u32
            &&& (row + 1) * run.decoded.vocab <= run.decoded.rows * run.decoded.vocab
        },
        row >= rows.len() ==> run.decoded.rows * run.decoded.vocab <= row * run.decoded.vocab,
{
    let vocab = run.decoded.vocab as int;
    let count = run.decoded.rows as int;
    if row < rows.len() {
        assert((row + 1) * vocab <= count * vocab) by (nonlinear_arith)
            requires
                row + 1 <= count,
                0 <= vocab,
        ;
    } else {
        assert(count * vocab <= row * vocab) by (nonlinear_arith)
            requires
                count <= row,
                0 <= vocab,
        ;
    }
}

/// A decode batch that ends without an error has advanced every row's sequence by exactly one
/// token.
pub proof fn law_decoded_sequences_advance_by_one(
    rows: Seq<Qwen36DecodeRow>,
    results: Seq<bool>,
    row: int,
)
    requires
        rows.len() <= usize::MAX,
        0 <= row < rows.len(),
        ({
            let (stage, ledger) = crate::qwen36::batch_append::run_batch(
                rows.len() as usize,
                results,
            );
            &&& stage == crate::qwen36::batch_append::BatchStage::Finished
            &&& !ledger.failed && !ledger.broken
        }),
    ensures
        crate::qwen36::batch_append::rows_advanced(
            crate::qwen36::batch::decode_row_counts(rows),
            results,
            row,
        ) == 1,
{
    crate::qwen36::batch_append::law_batch_commits_a_prefix(rows.len() as usize, results);
    crate::qwen36::batch_append::law_kept_rows_advance_once(
        crate::qwen36::batch::decode_row_counts(rows),
        results,
        row,
    );
}

} // verus!
