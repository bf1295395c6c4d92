//! Device operations of a Flash Next forward pass, in the order in which they are issued.

use crate::append::AppendSegment;
use crate::manifest::QwenLayerKind;
use vstd::prelude::*;

verus! {

/// Vocabulary-head work requested for one committed token.
#[derive(Clone, Copy, Debug, PartialEq, Eq, Structural)]
pub enum Qwen38LogitsMode {
    /// Skip the vocabulary projection for an intermediate prompt token.
    Skip,
    /// Compute logits and their device-side argmax.
    Top1,
    /// Compute full logits for top-k/top-p sampling.
    Full,
}

/// Stage of a layer at which a probe copies its output.
#[derive(Clone, Copy, Debug, PartialEq, Eq, Structural)]
pub enum Qwen38LayerProbeStage {
    /// Residual streams after the per-layer embedding.
    Ple,
    /// Residual streams after attention.
    Attention,
    /// Input of the feed-forward block.
    MlpMix,
    /// Output of the feed-forward block.
    MlpFfn,
    /// Residual streams after the feed-forward block.
    Mlp,
}

/// Sublayer of a transformer layer.
#[derive(Clone, Copy, Debug, PartialEq, Eq, Structural)]
pub enum Sublayer {
    /// Attention.
    Attention,
    /// Feed-forward.
    Mlp,
}

/// How a hyperconnection treats the rows of a pass.
#[derive(Clone, Copy, Debug, PartialEq, Eq, Structural)]
pub enum HyperRows {
    /// One batched projection over this many rows.
    Batch(usize),
    /// Two rows, each projected as it would be on its own.
    ExactPair,
}

/// One device operation of a forward pass.
///
/// The residual streams are double buffered: an operation reads the current buffer and
/// writes the other one, and `SwapStreams` exchanges their roles.
#[derive(Clone, Copy, Debug, PartialEq, Eq, Structural)]
#[allow(inconsistent_fields)]
pub enum ForwardOp {
    /// Forget the trace of an earlier pass.
    ClearTrace,
    /// Copy the token identifiers to the device.
    UploadTokens { rows: usize },
    /// Gather the embedding rows of the uploaded tokens.
    GatherEmbedding { vocab: usize, hidden: usize, rows: usize },
    /// Copy each embedding row into every residual stream.
    RepeatStreams { rows: usize, hidden: usize, copies: usize },
    /// Start a single-sequence recurrent prefill.
    BeginGdn { rows: usize },
    /// Bind the recurrent state of a layer.
    BindGdn { layer: usize },
    /// Publish the bound states.
    FinishGdn,
    /// Per-layer embedding of a batch.
    Ple { rows: usize },
    /// Per-layer embedding of two rows, each as it would be on its own.
    PleExactPair,
    /// Add the per-layer embedding to the streams.
    AddPle,
    /// Exchange the stream buffers.
    SwapStreams,
    /// Collapse the streams into the input of a sublayer.
    Mix { layer: usize, sublayer: Sublayer, rows: HyperRows },
    /// Inject the output of a sublayer into the streams.
    Combine { layer: usize, sublayer: Sublayer, rows: HyperRows },
    /// Recurrent attention of a batch.
    GdnBatch { layer: usize, rows: usize, serial_projections: bool },
    /// Copy one input row for a single-token recurrent step.
    GdnLoadRow { offset: usize, width: usize },
    /// Recurrent attention of one token.
    GdnStep { layer: usize },
    /// Keep the recurrent state of a layer for a later restore.
    GdnSnapshot { layer: usize, slot: usize },
    /// Copy one output row of a single-token recurrent step.
    GdnStoreRow { offset: usize, width: usize },
    /// Sparse attention of one row, projections included.
    QsaSerialRow { layer: usize, page: u32, page_offset: usize, row: usize, position: usize },
    /// Batched projections of sparse attention.
    QsaPrepare { layer: usize, rows: usize, position: usize },
    /// Cache append and sparse attention of one prepared row.
    QsaPreparedRow { layer: usize, page: u32, page_offset: usize, row: usize, position: usize },
    /// Batched output projection of sparse attention.
    QsaFinish { layer: usize, rows: usize },
    /// Sparse attention of the single token of a decode step.
    QsaToken { layer: usize, page: u32, page_offset: usize, position: usize },
    /// Routed experts of a batch.
    MoeBatch { layer: usize, rows: usize },
    /// Routed experts of a batch with canonical linear projections.
    MoeCanonical { layer: usize, rows: usize },
    /// Routed experts of two rows, each as it would be on its own.
    MoeExactPair { layer: usize },
    /// Copy one input row for a reference evaluation of the experts.
    MoeOracleLoad { row: usize, offset: usize, width: usize },
    /// Reference evaluation of the experts on one row.
    MoeOracleRun { layer: usize, row: usize },
    /// Keep the intermediate values of a reference evaluation.
    MoeOracleSnapshot { row: usize },
    /// Routed experts of the single token of a decode step.
    MoeToken { layer: usize },
    /// Append one entry to the trace.
    Trace { layer: usize, stage: Qwen38LayerProbeStage, rows: usize, width: usize },
    /// Attach expert snapshots to the trace entry at `entry`.
    AttachMoe { layer: usize, entry: usize },
    /// Keep the streams of the last row as the frontier of the sequence.
    KeepLastRow { offset: usize, width: usize },
    /// Collapse the frontier streams for the vocabulary head.
    FinalMix { width: usize },
    /// Vocabulary head with device-side argmax.
    HeadTop1,
    /// Copy the argmax and its logit to the host.
    ReadTop1,
    /// Vocabulary head with full logits.
    HeadLogits,
    /// Wait for the device.
    Synchronize,
}

/// Why a forward pass cannot be planned.
#[derive(Clone, Copy, Debug, PartialEq, Eq, Structural)]
pub enum ForwardError {
    /// Weights, workspace and state of a layer are of different attention kinds.
    Topology { layer: usize },
    /// Exact expert evaluation takes exactly two rows.
    ExactMoeRows,
    /// A one-token reservation holds no page.
    NoPage,
    /// A decode reservation does not cover exactly one row.
    NotOneRow,
}

/// Paths chosen for one prompt workspace.
#[derive(Clone, Copy, Debug, PartialEq, Eq, Structural)]
pub struct PrefillPaths {
    /// Whether a two-row per-layer embedding workspace is present.
    pub exact_ple: bool,
    /// Whether a row-by-row recurrent workspace is present.
    pub exact_gdn: bool,
    /// Whether a two-row expert workspace is present.
    pub exact_moe: bool,
    /// Whether batched recurrent attention projects its rows one by one.
    pub serial_gdn_projections: bool,
    /// Whether sparse attention runs its rows one by one.
    pub serial_qsa_rows: bool,
    /// Whether expert projections take the canonical route.
    pub canonical_moe_linears: bool,
    /// Whether hyperconnections project their two rows one by one.
    pub exact_hyper_projections: bool,
    /// Whether the pass is traced.
    pub traced: bool,
}

/// Dimensions that a forward pass reads.
#[derive(Clone, Copy, Debug, PartialEq, Eq, Structural)]
pub struct ForwardShape {
    /// Number of vocabulary entries.
    pub vocab: usize,
    /// Width of one residual stream.
    pub hidden: usize,
    /// Number of residual streams.
    pub hc_count: usize,
    /// Layer that adds the per-layer embedding.
    pub ple_layer: usize,
}

impl ForwardShape {
    /// Width of all residual streams of one token.
    pub open spec fn stream_width(self) -> int {
        self.hidden * self.hc_count
    }

    /// Whether the offsets of `rows` rows are representable.
    pub open spec fn fits(self, rows: int) -> bool {
        &&& self.stream_width() <= usize::MAX
        &&& rows * self.stream_width() <= usize::MAX
        &&& rows * self.hidden <= usize::MAX
    }
}

/// Attention kinds of a model's layers and of the state that a pass runs on.
pub struct LayerTopology<'a> {
    /// Kind of each layer's weights.
    pub weights: &'a [QwenLayerKind],
    /// Kind of each layer's workspace.
    pub workspaces: &'a [QwenLayerKind],
    /// Kind of each layer's state.
    pub states: &'a [QwenLayerKind],
}

impl<'a> LayerTopology<'a> {
    /// One workspace and one state for each layer.
    pub open spec fn shaped(self) -> bool {
        self.workspaces@.len() == self.weights@.len() && self.states@.len() == self.weights@.len()
    }

    /// Whether weights, workspace and state of a layer agree.
    pub open spec fn agrees(self, layer: int) -> bool {
        self.workspaces@[layer] == self.weights@[layer] && self.states@[layer]
            == self.weights@[layer]
    }
}


/// Everything that the order of a prompt pass depends on.
pub struct PrefillPass<'a> {
    /// Dimensions.
    pub shape: ForwardShape,
    /// Paths of the workspace.
    pub paths: PrefillPaths,
    /// Attention kinds.
    pub topology: LayerTopology<'a>,
    /// Pages that receive the rows.
    pub segments: &'a [AppendSegment],
    /// Number of prompt rows.
    pub rows: usize,
    /// Position of the first row.
    pub position: usize,
    /// Vocabulary-head work on the last row.
    pub logits: Qwen38LogitsMode,
}

/// Batched or exact treatment of `rows` rows.
pub open spec fn hyper_rows(exact: bool, rows: usize) -> HyperRows {
    if exact {
        HyperRows::ExactPair
    } else {
        HyperRows::Batch(rows)
    }
}

/// Entry of the trace that holds the feed-forward output of `layer`.
pub open spec fn ffn_entry(ple_layer: int, layer: int) -> int {
    4 * layer + (if ple_layer <= layer {
        1int
    } else {
        0int
    }) + 2
}

/// Operations that write the vocabulary-head result of the frontier.
pub open spec fn head_ops(logits: Qwen38LogitsMode, hidden: usize) -> Seq<ForwardOp> {
    match logits {
        Qwen38LogitsMode::Skip => seq![ForwardOp::Synchronize],
        Qwen38LogitsMode::Top1 => seq![
            ForwardOp::FinalMix { width: hidden },
            ForwardOp::HeadTop1,
            ForwardOp::ReadTop1,
        ],
        Qwen38LogitsMode::Full => seq![
            ForwardOp::FinalMix { width: hidden },
            ForwardOp::HeadLogits,
            ForwardOp::Synchronize,
        ],
    }
}

impl<'a> PrefillPass<'a> {
    /// Inputs whose arithmetic is representable.
    pub open spec fn fits(self) -> bool {
        &&& self.topology.shaped()
        &&& self.shape.fits(self.rows as int)
        &&& crate::append::segments_fit(self.segments@, self.position as int)
        &&& 4 * self.topology.weights@.len() + 3 <= usize::MAX
        &&& self.rows >= 1
    }

    /// Width of all residual streams of one token.
    pub open spec fn width(self) -> usize {
        self.shape.stream_width() as usize
    }

    /// Treatment of the rows by the hyperconnections.
    pub open spec fn hyper(self) -> HyperRows {
        hyper_rows(self.paths.exact_hyper_projections, self.rows)
    }

    /// One trace entry, where the pass is traced.
    pub open spec fn trace(self, layer: int, stage: Qwen38LayerProbeStage) -> Seq<ForwardOp> {
        if self.paths.traced {
            let width = if stage == Qwen38LayerProbeStage::MlpMix || stage
                == Qwen38LayerProbeStage::MlpFfn {
                self.shape.hidden
            } else {
                self.width()
            };
            seq![ForwardOp::Trace { layer: layer as usize, stage, rows: self.rows, width }]
        } else {
            seq![]
        }
    }

    /// Per-layer embedding, on its one layer.
    pub open spec fn ple_ops(self, layer: int) -> Seq<ForwardOp> {
        if layer == self.shape.ple_layer {
            seq![
                if self.paths.exact_ple {
                    ForwardOp::PleExactPair
                } else {
                    ForwardOp::Ple { rows: self.rows }
                },
                ForwardOp::AddPle,
                ForwardOp::SwapStreams,
            ] + self.trace(layer, Qwen38LayerProbeStage::Ple)
        } else {
            seq![]
        }
    }

    /// Row-by-row recurrent attention over the first `rows` rows. The state after the first
    /// row is kept.
    pub open spec fn gdn_row_ops(self, layer: int, rows: nat) -> Seq<ForwardOp>
        decreases rows,
    {
        if rows == 0 {
            seq![]
        } else {
            let row = rows - 1;
            let offset = (row * self.shape.hidden) as usize;
            self.gdn_row_ops(layer, (rows - 1) as nat) + seq![
                ForwardOp::GdnLoadRow { offset, width: self.shape.hidden },
                ForwardOp::GdnStep { layer: layer as usize },
            ] + (if row == 0 {
                seq![ForwardOp::GdnSnapshot { layer: layer as usize, slot: 0 }]
            } else {
                seq![]
            }) + seq![ForwardOp::GdnStoreRow { offset, width: self.shape.hidden }]
        }
    }

    /// Sparse attention of one row of a segment.
    pub open spec fn qsa_row_op(self, layer: int, segment: AppendSegment, offset: int) -> ForwardOp {
        let row = (segment.input_offset + offset) as usize;
        let page_offset = (segment.page_offset + offset) as usize;
        let position = (self.position + row) as usize;
        if self.paths.serial_qsa_rows {
            ForwardOp::QsaSerialRow {
                layer: layer as usize,
                page: segment.page,
                page_offset,
                row,
                position,
            }
        } else {
            ForwardOp::QsaPreparedRow {
                layer: layer as usize,
                page: segment.page,
                page_offset,
                row,
                position,
            }
        }
    }

    /// Sparse attention of the rows of one segment.
    pub open spec fn qsa_segment_ops(self, layer: int, segment: AppendSegment) -> Seq<ForwardOp> {
        Seq::new(segment.rows as nat, |offset: int| self.qsa_row_op(layer, segment, offset))
    }

    /// Sparse attention of the rows of the first `count` segments.
    pub open spec fn qsa_rows_ops(self, layer: int, count: nat) -> Seq<ForwardOp>
        decreases count,
    {
        if count == 0 {
            seq![]
        } else {
            self.qsa_rows_ops(layer, (count - 1) as nat) + self.qsa_segment_ops(
                layer,
                self.segments@[count - 1],
            )
        }
    }

    /// Attention of one layer.
    pub open spec fn attention_ops(self, layer: int) -> Seq<ForwardOp> {
        if self.topology.weights@[layer] == QwenLayerKind::LinearAttention {
            if self.paths.exact_gdn {
                self.gdn_row_ops(layer, self.rows as nat)
            } else {
                seq![
                    ForwardOp::GdnBatch {
                        layer: layer as usize,
                        rows: self.rows,
                        serial_projections: self.paths.serial_gdn_projections,
                    },
                ]
            }
        } else if self.paths.serial_qsa_rows {
            self.qsa_rows_ops(layer, self.segments@.len())
        } else {
            seq![
                ForwardOp::QsaPrepare {
                    layer: layer as usize,
                    rows: self.rows,
                    position: self.position,
                },
            ] + self.qsa_rows_ops(layer, self.segments@.len()) + seq![
                ForwardOp::QsaFinish { layer: layer as usize, rows: self.rows },
            ]
        }
    }

    /// Routed experts of one layer.
    pub open spec fn moe_ops(self, layer: int) -> Seq<ForwardOp> {
        if self.paths.exact_moe {
            seq![ForwardOp::MoeExactPair { layer: layer as usize }] + if self.paths.traced {
                seq![
                    ForwardOp::MoeOracleLoad { row: 0, offset: 0, width: self.shape.hidden },
                    ForwardOp::MoeOracleRun { layer: layer as usize, row: 0 },
                    ForwardOp::MoeOracleSnapshot { row: 0 },
                    ForwardOp::MoeOracleLoad {
                        row: 1,
                        offset: self.shape.hidden,
                        width: self.shape.hidden,
                    },
                    ForwardOp::MoeOracleRun { layer: layer as usize, row: 1 },
                    ForwardOp::MoeOracleSnapshot { row: 1 },
                ]
            } else {
                seq![]
            }
        } else if self.paths.canonical_moe_linears {
            seq![ForwardOp::MoeCanonical { layer: layer as usize, rows: self.rows }]
        } else {
            seq![ForwardOp::MoeBatch { layer: layer as usize, rows: self.rows }]
        }
    }

    /// Attachment of expert snapshots to a traced exact pass.
    pub open spec fn attach_ops(self, layer: int) -> Seq<ForwardOp> {
        if self.paths.exact_moe && self.paths.traced {
            seq![
                ForwardOp::AttachMoe {
                    layer: layer as usize,
                    entry: ffn_entry(self.shape.ple_layer as int, layer) as usize,
                },
            ]
        } else {
            seq![]
        }
    }

    /// Operations of one layer up to the residual streams after attention.
    pub open spec fn attention_half(self, layer: int) -> Seq<ForwardOp> {
        self.ple_ops(layer) + seq![
            ForwardOp::Mix {
                layer: layer as usize,
                sublayer: Sublayer::Attention,
                rows: self.hyper(),
            },
        ] + self.attention_ops(layer) + seq![
            ForwardOp::Combine {
                layer: layer as usize,
                sublayer: Sublayer::Attention,
                rows: self.hyper(),
            },
            ForwardOp::SwapStreams,
        ] + self.trace(layer, Qwen38LayerProbeStage::Attention)
    }

    /// Operations of one layer from the feed-forward input on.
    pub open spec fn mlp_half(self, layer: int) -> Seq<ForwardOp> {
        seq![
            ForwardOp::Mix { layer: layer as usize, sublayer: Sublayer::Mlp, rows: self.hyper() },
        ] + self.trace(layer, Qwen38LayerProbeStage::MlpMix) + self.moe_ops(layer) + self.trace(
            layer,
            Qwen38LayerProbeStage::MlpFfn,
        ) + seq![
            ForwardOp::Combine { layer: layer as usize, sublayer: Sublayer::Mlp, rows: self.hyper() },
            ForwardOp::SwapStreams,
        ] + self.attach_ops(layer) + self.trace(layer, Qwen38LayerProbeStage::Mlp)
    }

    /// Operations of the first `count` layers.
    pub open spec fn body_ops(self, count: nat) -> Seq<ForwardOp>
        decreases count,
    {
        if count == 0 {
            seq![]
        } else {
            self.body_ops((count - 1) as nat) + self.attention_half(count - 1) + self.mlp_half(
                count - 1,
            )
        }
    }

    /// Bindings of the recurrent states among the first `count` layers.
    pub open spec fn bind_ops(self, count: nat) -> Seq<ForwardOp>
        decreases count,
    {
        if count == 0 {
            seq![]
        } else {
            self.bind_ops((count - 1) as nat) + if self.topology.states@[count - 1]
                == QwenLayerKind::LinearAttention {
                seq![ForwardOp::BindGdn { layer: (count - 1) as usize }]
            } else {
                seq![]
            }
        }
    }

    /// Operations before the first layer.
    pub open spec fn entry_ops(self) -> Seq<ForwardOp> {
        (if self.paths.traced {
            seq![ForwardOp::ClearTrace]
        } else {
            seq![]
        }) + seq![
            ForwardOp::UploadTokens { rows: self.rows },
            ForwardOp::GatherEmbedding {
                vocab: self.shape.vocab,
                hidden: self.shape.hidden,
                rows: self.rows,
            },
            ForwardOp::RepeatStreams {
                rows: self.rows,
                hidden: self.shape.hidden,
                copies: self.shape.hc_count,
            },
            ForwardOp::BeginGdn { rows: self.rows },
        ] + self.bind_ops(self.topology.states@.len()) + seq![ForwardOp::FinishGdn]
    }

    /// All operations of the pass.
    pub open spec fn ops(self) -> Seq<ForwardOp> {
        self.entry_ops() + self.body_ops(self.topology.weights@.len()) + seq![
            ForwardOp::KeepLastRow {
                offset: ((self.rows - 1) * self.width()) as usize,
                width: self.width(),
            },
        ] + head_ops(self.logits, self.shape.hidden)
    }

    /// Whether the experts of the pass can take its rows.
    pub open spec fn moe_rows_usable(self) -> bool {
        self.paths.exact_moe ==> self.rows == 2
    }

    /// Whether the pass can be planned.
    pub open spec fn plannable(self) -> bool {
        &&& forall|layer: int|
            0 <= layer < self.topology.weights@.len() ==> #[trigger] self.topology.agrees(layer)
        &&& self.topology.weights@.len() > 0 ==> self.moe_rows_usable()
    }

    /// Whether `error` is the first obstacle to the pass.
    ///
    /// The kinds of a layer are compared before its experts are reached, and the experts of
    /// the first layer come before the kinds of the second.
    pub open spec fn refused(self, error: ForwardError) -> bool {
        match error {
            ForwardError::Topology { layer } => {
                &&& layer < self.topology.weights@.len()
                &&& !self.topology.agrees(layer as int)
                &&& forall|earlier: int|
                    0 <= earlier < layer ==> #[trigger] self.topology.agrees(earlier)
                &&& layer > 0 ==> self.moe_rows_usable()
            },
            ForwardError::ExactMoeRows => {
                &&& self.topology.weights@.len() > 0
                &&& self.topology.agrees(0)
                &&& !self.moe_rows_usable()
            },
            _ => false,
        }
    }
}


impl<'a> PrefillPass<'a> {
    fn stream_width(&self) -> (width: usize)
        requires
            self.fits(),
        ensures
            width == self.width(),
            width == self.shape.stream_width(),
    {
        self.shape.hidden * self.shape.hc_count
    }

    fn hyper_mode(&self) -> (rows: HyperRows)
        ensures
            rows == self.hyper(),
    {
        if self.paths.exact_hyper_projections {
            HyperRows::ExactPair
        } else {
            HyperRows::Batch(self.rows)
        }
    }

    fn push_trace(&self, ops: &mut Vec<ForwardOp>, layer: usize, stage: Qwen38LayerProbeStage)
        requires
            self.fits(),
        ensures
            final(ops)@ == old(ops)@ + self.trace(layer as int, stage),
    {
        if self.paths.traced {
            let width: usize = match stage {
                Qwen38LayerProbeStage::MlpMix | Qwen38LayerProbeStage::MlpFfn => self.shape.hidden,
                _ => self.stream_width(),
            };
            ops.push(ForwardOp::Trace { layer, stage, rows: self.rows, width });
        }
        assert(ops@ =~= old(ops)@ + self.trace(layer as int, stage));
    }

    fn push_ple(&self, ops: &mut Vec<ForwardOp>, layer: usize)
        requires
            self.fits(),
        ensures
            final(ops)@ == old(ops)@ + self.ple_ops(layer as int),
    {
        if layer == self.shape.ple_layer {
            ops.push(
                if self.paths.exact_ple {
                    ForwardOp::PleExactPair
                } else {
                    ForwardOp::Ple { rows: self.rows }
                },
            );
            ops.push(ForwardOp::AddPle);
            ops.push(ForwardOp::SwapStreams);
            self.push_trace(ops, layer, Qwen38LayerProbeStage::Ple);
        }
        assert(ops@ =~= old(ops)@ + self.ple_ops(layer as int));
    }

    fn push_gdn_rows(&self, ops: &mut Vec<ForwardOp>, layer: usize)
        requires
            self.fits(),
        ensures
            final(ops)@ == old(ops)@ + self.gdn_row_ops(layer as int, self.rows as nat),
    {
        let width: usize = self.shape.hidden;
        let mut row: usize = 0;
        assert(ops@ =~= old(ops)@ + self.gdn_row_ops(layer as int, 0));
        while row < self.rows
            invariant
                self.fits(),
                width == self.shape.hidden,
                row <= self.rows,
                ops@ == old(ops)@ + self.gdn_row_ops(layer as int, row as nat),
            decreases self.rows - row,
        {
            assert(row * width <= self.rows * width) by (nonlinear_arith)
                requires
                    row <= self.rows,
            ;
            let offset: usize = row * width;
            ops.push(ForwardOp::GdnLoadRow { offset, width });
            ops.push(ForwardOp::GdnStep { layer });
            if row == 0 {
                ops.push(ForwardOp::GdnSnapshot { layer, slot: 0 });
            }
            ops.push(ForwardOp::GdnStoreRow { offset, width });
            row += 1;
            assert(ops@ =~= old(ops)@ + self.gdn_row_ops(layer as int, row as nat));
        }
    }

    fn push_qsa_rows(&self, ops: &mut Vec<ForwardOp>, layer: usize)
        requires
            self.fits(),
        ensures
            final(ops)@ == old(ops)@ + self.qsa_rows_ops(layer as int, self.segments@.len()),
    {
        let mut index: usize = 0;
        assert(ops@ =~= old(ops)@ + self.qsa_rows_ops(layer as int, 0));
        while index < self.segments.len()
            invariant
                self.fits(),
                index <= self.segments@.len(),
                ops@ == old(ops)@ + self.qsa_rows_ops(layer as int, index as nat),
            decreases self.segments@.len() - index,
        {
            let segment: AppendSegment = self.segments[index];
            let ghost before = ops@;
            let mut offset: usize = 0;
            while offset < segment.rows
                invariant
                    self.fits(),
                    index < self.segments@.len(),
                    segment == self.segments@[index as int],
                    offset <= segment.rows,
                    ops@ == before + self.qsa_segment_ops(layer as int, segment).take(
                        offset as int,
                    ),
                decreases segment.rows - offset,
            {
                let row: usize = segment.input_offset + offset;
                let page_offset: usize = segment.page_offset + offset;
                let position: usize = self.position + row;
                ops.push(
                    if self.paths.serial_qsa_rows {
                        ForwardOp::QsaSerialRow {
                            layer,
                            page: segment.page,
                            page_offset,
                            row,
                            position,
                        }
                    } else {
                        ForwardOp::QsaPreparedRow {
                            layer,
                            page: segment.page,
                            page_offset,
                            row,
                            position,
                        }
                    },
                );
                offset += 1;
                assert(ops@ =~= before + self.qsa_segment_ops(layer as int, segment).take(
                    offset as int,
                ));
            }
            assert(ops@ =~= before + self.qsa_segment_ops(layer as int, segment));
            index += 1;
            assert(ops@ =~= old(ops)@ + self.qsa_rows_ops(layer as int, index as nat));
        }
    }

    fn push_attention(&self, ops: &mut Vec<ForwardOp>, layer: usize)
        requires
            self.fits(),
            layer < self.topology.weights@.len(),
        ensures
            final(ops)@ == old(ops)@ + self.attention_ops(layer as int),
    {
        match self.topology.weights[layer] {
            QwenLayerKind::LinearAttention => {
                if self.paths.exact_gdn {
                    self.push_gdn_rows(ops, layer);
                } else {
                    ops.push(
                        ForwardOp::GdnBatch {
                            layer,
                            rows: self.rows,
                            serial_projections: self.paths.serial_gdn_projections,
                        },
                    );
                }
            },
            QwenLayerKind::FullAttention => {
                if self.paths.serial_qsa_rows {
                    self.push_qsa_rows(ops, layer);
                } else {
                    ops.push(
                        ForwardOp::QsaPrepare { layer, rows: self.rows, position: self.position },
                    );
                    self.push_qsa_rows(ops, layer);
                    ops.push(ForwardOp::QsaFinish { layer, rows: self.rows });
                }
            },
        }
        assert(ops@ =~= old(ops)@ + self.attention_ops(layer as int));
    }

    fn push_moe(&self, ops: &mut Vec<ForwardOp>, layer: usize)
        ensures
            final(ops)@ == old(ops)@ + self.moe_ops(layer as int),
    {
        let width: usize = self.shape.hidden;
        if self.paths.exact_moe {
            ops.push(ForwardOp::MoeExactPair { layer });
            if self.paths.traced {
                ops.push(ForwardOp::MoeOracleLoad { row: 0, offset: 0, width });
                ops.push(ForwardOp::MoeOracleRun { layer, row: 0 });
                ops.push(ForwardOp::MoeOracleSnapshot { row: 0 });
                ops.push(ForwardOp::MoeOracleLoad { row: 1, offset: width, width });
                ops.push(ForwardOp::MoeOracleRun { layer, row: 1 });
                ops.push(ForwardOp::MoeOracleSnapshot { row: 1 });
            }
        } else if self.paths.canonical_moe_linears {
            ops.push(ForwardOp::MoeCanonical { layer, rows: self.rows });
        } else {
            ops.push(ForwardOp::MoeBatch { layer, rows: self.rows });
        }
        assert(ops@ =~= old(ops)@ + self.moe_ops(layer as int));
    }

    fn push_attention_half(&self, ops: &mut Vec<ForwardOp>, layer: usize)
        requires
            self.fits(),
            layer < self.topology.weights@.len(),
        ensures
            final(ops)@ == old(ops)@ + self.attention_half(layer as int),
    {
        let rows = self.hyper_mode();
        self.push_ple(ops, layer);
        ops.push(ForwardOp::Mix { layer, sublayer: Sublayer::Attention, rows });
        self.push_attention(ops, layer);
        ops.push(ForwardOp::Combine { layer, sublayer: Sublayer::Attention, rows });
        ops.push(ForwardOp::SwapStreams);
        self.push_trace(ops, layer, Qwen38LayerProbeStage::Attention);
        assert(ops@ =~= old(ops)@ + self.attention_half(layer as int));
    }

    fn push_mlp_half(&self, ops: &mut Vec<ForwardOp>, layer: usize)
        requires
            self.fits(),
            layer < self.topology.weights@.len(),
        ensures
            final(ops)@ == old(ops)@ + self.mlp_half(layer as int),
    {
        let rows = self.hyper_mode();
        ops.push(ForwardOp::Mix { layer, sublayer: Sublayer::Mlp, rows });
        self.push_trace(ops, layer, Qwen38LayerProbeStage::MlpMix);
        self.push_moe(ops, layer);
        self.push_trace(ops, layer, Qwen38LayerProbeStage::MlpFfn);
        ops.push(ForwardOp::Combine { layer, sublayer: Sublayer::Mlp, rows });
        ops.push(ForwardOp::SwapStreams);
        if self.paths.exact_moe && self.paths.traced {
            ops.push(ForwardOp::AttachMoe { layer, entry: trace_entry(self.shape.ple_layer, layer) });
        }
        self.push_trace(ops, layer, Qwen38LayerProbeStage::Mlp);
        assert(ops@ =~= old(ops)@ + self.mlp_half(layer as int));
    }

    fn push_entry(&self, ops: &mut Vec<ForwardOp>)
        requires
            self.fits(),
        ensures
            final(ops)@ == old(ops)@ + self.entry_ops(),
    {
        if self.paths.traced {
            ops.push(ForwardOp::ClearTrace);
        }
        let hidden: usize = self.shape.hidden;
        ops.push(ForwardOp::UploadTokens { rows: self.rows });
        ops.push(ForwardOp::GatherEmbedding { vocab: self.shape.vocab, hidden, rows: self.rows });
        ops.push(
            ForwardOp::RepeatStreams { rows: self.rows, hidden, copies: self.shape.hc_count },
        );
        ops.push(ForwardOp::BeginGdn { rows: self.rows });
        let ghost before = ops@;
        let mut layer: usize = 0;
        assert(before =~= before + self.bind_ops(0));
        while layer < self.topology.states.len()
            invariant
                layer <= self.topology.states@.len(),
                ops@ == before + self.bind_ops(layer as nat),
            decreases self.topology.states@.len() - layer,
        {
            if self.topology.states[layer] == QwenLayerKind::LinearAttention {
                ops.push(ForwardOp::BindGdn { layer });
            }
            layer += 1;
            assert(ops@ =~= before + self.bind_ops(layer as nat));
        }
        ops.push(ForwardOp::FinishGdn);
        assert(ops@ =~= old(ops)@ + self.entry_ops());
    }
}

fn trace_entry(ple_layer: usize, layer: usize) -> (entry: usize)
    requires
        4 * layer + 3 <= usize::MAX,
    ensures
        entry == ffn_entry(ple_layer as int, layer as int),
{
    let shift: usize = if ple_layer <= layer {
        1
    } else {
        0
    };
    4 * layer + shift + 2
}

fn push_head(ops: &mut Vec<ForwardOp>, logits: Qwen38LogitsMode, hidden: usize)
    ensures
        final(ops)@ == old(ops)@ + head_ops(logits, hidden),
{
    match logits {
        Qwen38LogitsMode::Skip => {
            ops.push(ForwardOp::Synchronize);
        },
        Qwen38LogitsMode::Top1 => {
            ops.push(ForwardOp::FinalMix { width: hidden });
            ops.push(ForwardOp::HeadTop1);
            ops.push(ForwardOp::ReadTop1);
        },
        Qwen38LogitsMode::Full => {
            ops.push(ForwardOp::FinalMix { width: hidden });
            ops.push(ForwardOp::HeadLogits);
            ops.push(ForwardOp::Synchronize);
        },
    }
    assert(ops@ =~= old(ops)@ + head_ops(logits, hidden));
}

/// Plans a prompt pass: every device operation in order, with its rows and offsets.
pub fn prefill_tokens_inner(pass: &PrefillPass) -> (result: Result<Vec<ForwardOp>, ForwardError>)
    requires
        pass.fits(),
    ensures
        match result {
            Ok(ops) => pass.plannable() && ops@ == pass.ops(),
            Err(error) => !pass.plannable() && pass.refused(error),
        },
{
    let layers: usize = pass.topology.weights.len();
    let mut ops: Vec<ForwardOp> = Vec::new();
    pass.push_entry(&mut ops);
    let mut layer: usize = 0;
    assert(ops@ =~= pass.entry_ops() + pass.body_ops(0));
    while layer < layers
        invariant
            pass.fits(),
            layers == pass.topology.weights@.len(),
            layer <= layers,
            forall|earlier: int| 0 <= earlier < layer ==> #[trigger] pass.topology.agrees(earlier),
            layer > 0 ==> pass.moe_rows_usable(),
            ops@ == pass.entry_ops() + pass.body_ops(layer as nat),
        decreases layers - layer,
    {
        let kind = pass.topology.weights[layer];
        if pass.topology.workspaces[layer] != kind || pass.topology.states[layer] != kind {
            assert(!pass.topology.agrees(layer as int));
            return Err(ForwardError::Topology { layer });
        }
        if pass.paths.exact_moe && pass.rows != 2 {
            assert(pass.topology.agrees(0));
            return Err(ForwardError::ExactMoeRows);
        }
        pass.push_attention_half(&mut ops, layer);
        pass.push_mlp_half(&mut ops, layer);
        layer += 1;
        assert(ops@ =~= pass.entry_ops() + pass.body_ops(layer as nat));
    }
    let width = pass.stream_width();
    assert((pass.rows - 1) * width <= pass.rows * width) by (nonlinear_arith);
    ops.push(ForwardOp::KeepLastRow { offset: (pass.rows - 1) * width, width });
    push_head(&mut ops, pass.logits, pass.shape.hidden);
    assert(ops@ =~= pass.ops());
    Ok(ops)
}


/// Everything that the order of a single-token pass depends on.
pub struct DecodePass<'a> {
    /// Dimensions.
    pub shape: ForwardShape,
    /// Attention kinds.
    pub topology: LayerTopology<'a>,
    /// Pages that receive the token.
    pub segments: &'a [AppendSegment],
    /// Position of the token.
    pub position: usize,
    /// Vocabulary-head work.
    pub logits: Qwen38LogitsMode,
    /// Whether the pass is traced.
    pub traced: bool,
}

impl<'a> DecodePass<'a> {
    /// Inputs whose arithmetic is representable.
    pub open spec fn fits(self) -> bool {
        &&& self.topology.shaped()
        &&& self.shape.stream_width() <= usize::MAX
        &&& 4 * self.topology.weights@.len() + 3 <= usize::MAX
    }

    /// One trace entry, where the pass is traced.
    pub open spec fn trace(self, layer: int, stage: Qwen38LayerProbeStage) -> Seq<ForwardOp> {
        if self.traced {
            let width = if stage == Qwen38LayerProbeStage::MlpMix || stage
                == Qwen38LayerProbeStage::MlpFfn {
                self.shape.hidden
            } else {
                self.shape.stream_width() as usize
            };
            seq![ForwardOp::Trace { layer: layer as usize, stage, rows: 1, width }]
        } else {
            seq![]
        }
    }

    /// Attention of one layer.
    pub open spec fn attention_op(self, layer: int) -> ForwardOp {
        if self.topology.weights@[layer] == QwenLayerKind::LinearAttention {
            ForwardOp::GdnStep { layer: layer as usize }
        } else {
            ForwardOp::QsaToken {
                layer: layer as usize,
                page: self.segments@[0].page,
                page_offset: self.segments@[0].page_offset,
                position: self.position,
            }
        }
    }

    /// Operations of one layer up to the residual streams after attention.
    pub open spec fn attention_half(self, layer: int) -> Seq<ForwardOp> {
        let one = HyperRows::Batch(1);
        let at = layer as usize;
        (if layer == self.shape.ple_layer {
            seq![ForwardOp::Ple { rows: 1 }, ForwardOp::AddPle, ForwardOp::SwapStreams]
                + self.trace(layer, Qwen38LayerProbeStage::Ple)
        } else {
            seq![]
        }) + seq![
            ForwardOp::Mix { layer: at, sublayer: Sublayer::Attention, rows: one },
            self.attention_op(layer),
            ForwardOp::Combine { layer: at, sublayer: Sublayer::Attention, rows: one },
            ForwardOp::SwapStreams,
        ] + self.trace(layer, Qwen38LayerProbeStage::Attention)
    }

    /// Operations of one layer from the feed-forward input on.
    pub open spec fn mlp_half(self, layer: int) -> Seq<ForwardOp> {
        let one = HyperRows::Batch(1);
        let at = layer as usize;
        seq![ForwardOp::Mix { layer: at, sublayer: Sublayer::Mlp, rows: one }] + self.trace(
            layer,
            Qwen38LayerProbeStage::MlpMix,
        ) + seq![ForwardOp::MoeToken { layer: at }] + self.trace(
            layer,
            Qwen38LayerProbeStage::MlpFfn,
        ) + seq![
            ForwardOp::Combine { layer: at, sublayer: Sublayer::Mlp, rows: one },
            ForwardOp::SwapStreams,
        ] + (if self.traced {
            seq![
                ForwardOp::AttachMoe {
                    layer: at,
                    entry: ffn_entry(self.shape.ple_layer as int, layer) as usize,
                },
            ]
        } else {
            seq![]
        }) + self.trace(layer, Qwen38LayerProbeStage::Mlp)
    }

    /// Operations of the first `count` layers.
    pub open spec fn body_ops(self, count: nat) -> Seq<ForwardOp>
        decreases count,
    {
        if count == 0 {
            seq![]
        } else {
            self.body_ops((count - 1) as nat) + self.attention_half(count - 1) + self.mlp_half(
                count - 1,
            )
        }
    }

    /// All operations of the pass.
    pub open spec fn ops(self) -> Seq<ForwardOp> {
        seq![
            ForwardOp::UploadTokens { rows: 1 },
            ForwardOp::GatherEmbedding {
                vocab: self.shape.vocab,
                hidden: self.shape.hidden,
                rows: 1,
            },
            ForwardOp::RepeatStreams {
                rows: 1,
                hidden: self.shape.hidden,
                copies: self.shape.hc_count,
            },
        ] + self.body_ops(self.topology.weights@.len()) + head_ops(self.logits, self.shape.hidden)
    }

    /// What stops the pass at `layer`, if anything.
    pub open spec fn obstacle(self, layer: int) -> Option<ForwardError> {
        if !self.topology.agrees(layer) {
            Some(ForwardError::Topology { layer: layer as usize })
        } else if self.topology.weights@[layer] == QwenLayerKind::LinearAttention {
            None
        } else if self.segments@.len() == 0 {
            Some(ForwardError::NoPage)
        } else if self.segments@.len() != 1 || self.segments@[0].rows != 1 {
            Some(ForwardError::NotOneRow)
        } else {
            None
        }
    }

    /// Whether nothing stops the pass before `layer`.
    pub open spec fn clear_before(self, layer: int) -> bool {
        forall|earlier: int| 0 <= earlier < layer ==> #[trigger] self.obstacle(earlier) is None
    }

    fn push_trace(&self, ops: &mut Vec<ForwardOp>, layer: usize, stage: Qwen38LayerProbeStage)
        requires
            self.fits(),
        ensures
            final(ops)@ == old(ops)@ + self.trace(layer as int, stage),
    {
        if self.traced {
            let width: usize = match stage {
                Qwen38LayerProbeStage::MlpMix | Qwen38LayerProbeStage::MlpFfn => self.shape.hidden,
                _ => self.shape.hidden * self.shape.hc_count,
            };
            ops.push(ForwardOp::Trace { layer, stage, rows: 1, width });
        }
        assert(ops@ =~= old(ops)@ + self.trace(layer as int, stage));
    }

    fn push_attention_half(&self, ops: &mut Vec<ForwardOp>, layer: usize)
        requires
            self.fits(),
            layer < self.topology.weights@.len(),
            self.obstacle(layer as int) is None,
        ensures
            final(ops)@ == old(ops)@ + self.attention_half(layer as int),
    {
        let rows = HyperRows::Batch(1);
        if layer == self.shape.ple_layer {
            ops.push(ForwardOp::Ple { rows: 1 });
            ops.push(ForwardOp::AddPle);
            ops.push(ForwardOp::SwapStreams);
            self.push_trace(ops, layer, Qwen38LayerProbeStage::Ple);
        }
        ops.push(ForwardOp::Mix { layer, sublayer: Sublayer::Attention, rows });
        ops.push(
            match self.topology.weights[layer] {
                QwenLayerKind::LinearAttention => ForwardOp::GdnStep { layer },
                QwenLayerKind::FullAttention => ForwardOp::QsaToken {
                    layer,
                    page: self.segments[0].page,
                    page_offset: self.segments[0].page_offset,
                    position: self.position,
                },
            },
        );
        ops.push(ForwardOp::Combine { layer, sublayer: Sublayer::Attention, rows });
        ops.push(ForwardOp::SwapStreams);
        self.push_trace(ops, layer, Qwen38LayerProbeStage::Attention);
        assert(ops@ =~= old(ops)@ + self.attention_half(layer as int));
    }

    fn push_mlp_half(&self, ops: &mut Vec<ForwardOp>, layer: usize)
        requires
            self.fits(),
            layer < self.topology.weights@.len(),
        ensures
            final(ops)@ == old(ops)@ + self.mlp_half(layer as int),
    {
        let rows = HyperRows::Batch(1);
        ops.push(ForwardOp::Mix { layer, sublayer: Sublayer::Mlp, rows });
        self.push_trace(ops, layer, Qwen38LayerProbeStage::MlpMix);
        ops.push(ForwardOp::MoeToken { layer });
        self.push_trace(ops, layer, Qwen38LayerProbeStage::MlpFfn);
        ops.push(ForwardOp::Combine { layer, sublayer: Sublayer::Mlp, rows });
        ops.push(ForwardOp::SwapStreams);
        if self.traced {
            ops.push(ForwardOp::AttachMoe { layer, entry: trace_entry(self.shape.ple_layer, layer) });
        }
        self.push_trace(ops, layer, Qwen38LayerProbeStage::Mlp);
        assert(ops@ =~= old(ops)@ + self.mlp_half(layer as int));
    }

    fn find_obstacle(&self, layer: usize) -> (found: Option<ForwardError>)
        requires
            self.fits(),
            layer < self.topology.weights@.len(),
        ensures
            found == self.obstacle(layer as int),
    {
        let kind = self.topology.weights[layer];
        if self.topology.workspaces[layer] != kind || self.topology.states[layer] != kind {
            return Some(ForwardError::Topology { layer });
        }
        match kind {
            QwenLayerKind::LinearAttention => None,
            QwenLayerKind::FullAttention => {
                if self.segments.len() == 0 {
                    Some(ForwardError::NoPage)
                } else if self.segments.len() != 1 || self.segments[0].rows != 1 {
                    Some(ForwardError::NotOneRow)
                } else {
                    None
                }
            },
        }
    }
}

/// Plans a single-token pass: every device operation in order.
pub fn decode_token_inner(pass: &DecodePass) -> (result: Result<Vec<ForwardOp>, ForwardError>)
    requires
        pass.fits(),
    ensures
        match result {
            Ok(ops) => pass.clear_before(pass.topology.weights@.len() as int) && ops@
                == pass.ops(),
            Err(error) => exists|layer: int|
                0 <= layer < pass.topology.weights@.len() && pass.clear_before(layer)
                    && #[trigger] pass.obstacle(layer) == Some(error),
        },
{
    let layers: usize = pass.topology.weights.len();
    let mut ops: Vec<ForwardOp> = Vec::new();
    ops.push(ForwardOp::UploadTokens { rows: 1 });
    ops.push(
        ForwardOp::GatherEmbedding { vocab: pass.shape.vocab, hidden: pass.shape.hidden, rows: 1 },
    );
    ops.push(
        ForwardOp::RepeatStreams {
            rows: 1,
            hidden: pass.shape.hidden,
            copies: pass.shape.hc_count,
        },
    );
    let ghost entry = ops@;
    let mut layer: usize = 0;
    assert(ops@ =~= entry + pass.body_ops(0));
    while layer < layers
        invariant
            pass.fits(),
            layers == pass.topology.weights@.len(),
            layer <= layers,
            pass.clear_before(layer as int),
            ops@ == entry + pass.body_ops(layer as nat),
        decreases layers - layer,
    {
        match pass.find_obstacle(layer) {
            Some(error) => {
                return Err(error);
            },
            None => {},
        }
        pass.push_attention_half(&mut ops, layer);
        pass.push_mlp_half(&mut ops, layer);
        layer += 1;
        assert(ops@ =~= entry + pass.body_ops(layer as nat));
    }
    push_head(&mut ops, pass.logits, pass.shape.hidden);
    assert(ops@ =~= pass.ops());
    Ok(ops)
}

} // verus!
