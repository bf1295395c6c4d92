//! What the operations of a forward pass leave in its buffers.

use crate::append::AppendSegment;
use crate::manifest::QwenLayerKind;
use crate::qwen38_flash_next::forward::{
    ForwardOp, ForwardShape, HyperRows, PrefillPaths, Qwen38LayerProbeStage, Sublayer,
};
use vstd::prelude::*;

verus! {

/// What the residual streams hold: the embedded tokens, and every update of them in order.
pub enum Streams {
    /// Nothing of this pass.
    Unknown,
    /// The embeddings of the tokens.
    Embedded,
    /// With the per-layer embedding added.
    WithPle(Box<Streams>),
    /// With the output of a sublayer injected that was computed from these very streams.
    After(Box<Streams>, int, Sublayer),
}

/// Streams after the first `count` layers of a model: each layer runs its own attention and then
/// its own feed-forward block, and one layer adds the per-layer embedding before that.
pub open spec fn layered(ple_layer: int, count: nat) -> Streams
    decreases count,
{
    if count == 0 {
        Streams::Embedded
    } else {
        let layer = count - 1;
        Streams::After(
            Box::new(
                Streams::After(
                    Box::new(entered(ple_layer, layered(ple_layer, layer as nat), layer)),
                    layer,
                    Sublayer::Attention,
                ),
            ),
            layer,
            Sublayer::Mlp,
        )
    }
}

/// Streams that the attention of a layer reads.
pub open spec fn entered(ple_layer: int, streams: Streams, layer: int) -> Streams {
    if layer == ple_layer {
        Streams::WithPle(Box::new(streams))
    } else {
        streams
    }
}

/// What a forward pass is about.
pub struct ForwardFrame {
    /// Dimensions.
    pub shape: ForwardShape,
    /// Paths of the workspace.
    pub paths: PrefillPaths,
    /// Whether the pass takes a single decoded token.
    pub decode: bool,
    /// Attention kind of each layer.
    pub kinds: Seq<QwenLayerKind>,
    /// Pages that receive the rows.
    pub segments: Seq<AppendSegment>,
    /// Rows.
    pub rows: int,
    /// Position of the first row.
    pub position: int,
}

/// Result of the vocabulary head.
pub enum HeadResult {
    /// None.
    Nothing,
    /// A token that was not read yet.
    Chosen,
    /// A token.
    Token,
    /// Logits that are still being computed.
    Pending,
    /// Logits.
    Logits,
}

/// Buffers of a forward pass.
pub struct ForwardDevice {
    /// Every operation so far found its inputs ready, belongs to the layer and the path at hand,
    /// and took all rows in order.
    pub sound: bool,
    /// Uploaded tokens.
    pub tokens: bool,
    /// Gathered embeddings.
    pub embeddings: bool,
    /// Current streams.
    pub streams: Streams,
    /// The other stream buffer, where it was written since the last exchange.
    pub update: Option<Streams>,
    /// Whether recurrent states are being bound.
    pub binding: bool,
    /// Layers whose recurrent state was bound, in order.
    pub bound: Seq<int>,
    /// Whether the bound states were published.
    pub published: bool,
    /// Per-layer embedding.
    pub ple: bool,
    /// Sublayer whose input was formed from the current streams.
    pub mixed: Option<(int, Sublayer)>,
    /// Rows of that sublayer that were computed.
    pub done: int,
    /// Row that was loaded for a single step.
    pub loaded: bool,
    /// Row that a single step has left to be stored.
    pub stepped: bool,
    /// Whether the projections of sparse attention are ready.
    pub prepared: bool,
    /// Sublayer whose output is complete.
    pub computed: Option<(int, Sublayer)>,
    /// Layers and rows whose recurrent state was kept, in order.
    pub kept_states: Seq<(int, int)>,
    /// Row of a reference evaluation that was loaded.
    pub oracle_input: Option<int>,
    /// Row of a reference evaluation that was run.
    pub oracle_output: Option<int>,
    /// Reference evaluations that were kept.
    pub oracles: int,
    /// Trace.
    pub trace: Seq<(usize, Qwen38LayerProbeStage)>,
    /// Layers whose expert snapshots were attached, in order.
    pub attached: Seq<int>,
    /// Streams of the last row that were kept.
    pub frontier: Option<Streams>,
    /// Streams that were collapsed for the head.
    pub collapsed: Option<Streams>,
    /// Result of the head.
    pub head: HeadResult,
}

/// Buffers before the first operation of a pass.
pub open spec fn idle() -> ForwardDevice {
    ForwardDevice {
        sound: true,
        tokens: false,
        embeddings: false,
        streams: Streams::Unknown,
        update: None,
        binding: false,
        bound: Seq::empty(),
        published: false,
        ple: false,
        mixed: None,
        done: 0,
        loaded: false,
        stepped: false,
        prepared: false,
        computed: None,
        kept_states: Seq::empty(),
        oracle_input: None,
        oracle_output: None,
        oracles: 0,
        trace: Seq::empty(),
        attached: Seq::empty(),
        frontier: None,
        collapsed: None,
        head: HeadResult::Nothing,
    }
}

impl ForwardFrame {
    /// Treatment of the rows by the hyperconnections.
    pub open spec fn hyper(self) -> HyperRows {
        if self.paths.exact_hyper_projections {
            HyperRows::ExactPair
        } else {
            HyperRows::Batch(self.rows as usize)
        }
    }

    /// Whether a layer is recurrent.
    pub open spec fn recurrent(self, layer: int) -> bool {
        0 <= layer < self.kinds.len() && self.kinds[layer] == QwenLayerKind::LinearAttention
    }

    /// Whether a layer attends sparsely.
    pub open spec fn sparse(self, layer: int) -> bool {
        0 <= layer < self.kinds.len() && self.kinds[layer] != QwenLayerKind::LinearAttention
    }

    /// Whether a place of a page was set aside for a row.
    pub open spec fn reserved(self, row: int, page: u32, page_offset: int) -> bool {
        exists|i: int| #[trigger] self.reserved_in(i, row, page, page_offset)
    }

    /// Whether a place of a page was set aside for a row in one segment.
    pub open spec fn reserved_in(self, i: int, row: int, page: u32, page_offset: int) -> bool {
        &&& 0 <= i < self.segments.len()
        &&& self.segments[i].input_offset <= row < self.segments[i].input_offset
            + self.segments[i].rows
        &&& page == self.segments[i].page
        &&& page_offset - self.segments[i].page_offset == row - self.segments[i].input_offset
    }
}

impl ForwardDevice {
    /// Whether a sublayer's input stands ready and nothing of its output was computed yet.
    pub open spec fn fresh(self, layer: int, sublayer: Sublayer) -> bool {
        &&& self.sound
        &&& self.mixed == Some((layer, sublayer))
        &&& self.computed is None
        &&& self.done == 0
        &&& !self.loaded
        &&& !self.stepped
    }

    /// What a complete evaluation of a sublayer leaves.
    pub open spec fn evaluated(self, layer: int, sublayer: Sublayer, fits: bool) -> ForwardDevice {
        ForwardDevice {
            sound: self.fresh(layer, sublayer) && fits,
            computed: Some((layer, sublayer)),
            ..self
        }
    }

    /// What an operation before the first layer leaves.
    pub open spec fn entry(self, frame: ForwardFrame, op: ForwardOp) -> ForwardDevice {
        match op {
            ForwardOp::ClearTrace => ForwardDevice {
                sound: self.sound && frame.paths.traced && !self.tokens,
                trace: Seq::empty(),
                ..self
            },
            ForwardOp::UploadTokens { rows } => ForwardDevice {
                sound: self.sound && !self.tokens && rows == frame.rows,
                tokens: true,
                ..self
            },
            ForwardOp::GatherEmbedding { vocab, hidden, rows } => ForwardDevice {
                sound: self.sound && self.tokens && !self.embeddings && rows == frame.rows
                    && vocab == frame.shape.vocab && hidden == frame.shape.hidden,
                embeddings: true,
                ..self
            },
            ForwardOp::RepeatStreams { rows, hidden, copies } => ForwardDevice {
                sound: self.sound && self.embeddings && self.streams is Unknown && rows
                    == frame.rows && hidden == frame.shape.hidden && copies
                    == frame.shape.hc_count,
                streams: Streams::Embedded,
                ..self
            },
            ForwardOp::BeginGdn { rows } => ForwardDevice {
                sound: self.sound && !self.binding && !self.published && rows == frame.rows,
                binding: true,
                ..self
            },
            ForwardOp::BindGdn { layer } => ForwardDevice {
                sound: self.sound && self.binding && frame.recurrent(layer as int),
                bound: self.bound.push(layer as int),
                ..self
            },
            ForwardOp::FinishGdn => ForwardDevice {
                sound: self.sound && self.binding,
                binding: false,
                published: true,
                ..self
            },
            _ => self,
        }
    }

    /// What an operation of an attention sublayer leaves.
    pub open spec fn attention(self, frame: ForwardFrame, op: ForwardOp) -> ForwardDevice {
        let width = frame.shape.hidden as int;
        match op {
            ForwardOp::GdnBatch { layer, rows, serial_projections } => self.evaluated(
                layer as int,
                Sublayer::Attention,
                frame.recurrent(layer as int) && !frame.decode && !frame.paths.exact_gdn
                    && self.published && self.bound.contains(layer as int) && rows == frame.rows
                    && serial_projections == frame.paths.serial_gdn_projections,
            ),
            ForwardOp::GdnLoadRow { offset, width: values } => ForwardDevice {
                sound: self.sound && frame.paths.exact_gdn && !frame.decode && self.mixed is Some
                    && self.computed is None && !self.loaded && !self.stepped && offset
                    == self.done * width && values == width,
                loaded: true,
                ..self
            },
            ForwardOp::GdnStep { layer } => if frame.decode {
                self.evaluated(layer as int, Sublayer::Attention, frame.recurrent(layer as int))
            } else {
                ForwardDevice {
                    sound: self.sound && self.loaded && frame.recurrent(layer as int)
                        && self.mixed == Some((layer as int, Sublayer::Attention)),
                    loaded: false,
                    stepped: true,
                    ..self
                }
            },
            ForwardOp::GdnSnapshot { layer, slot } => ForwardDevice {
                sound: self.sound && self.stepped && slot == self.done && self.mixed == Some(
                    (layer as int, Sublayer::Attention),
                ),
                kept_states: self.kept_states.push((layer as int, slot as int)),
                ..self
            },
            ForwardOp::GdnStoreRow { offset, width: values } => ForwardDevice {
                sound: self.sound && self.stepped && offset == self.done * width && values
                    == width && self.done < frame.rows,
                stepped: false,
                done: self.done + 1,
                computed: if self.done + 1 == frame.rows {
                    self.mixed
                } else {
                    None
                },
                ..self
            },
            ForwardOp::QsaPrepare { layer, rows, position } => ForwardDevice {
                sound: self.fresh(layer as int, Sublayer::Attention) && frame.sparse(layer as int)
                    && !frame.decode && !frame.paths.serial_qsa_rows && !self.prepared && rows
                    == frame.rows && position == frame.position,
                prepared: true,
                ..self
            },
            ForwardOp::QsaPreparedRow { layer, page, page_offset, row, position } => ForwardDevice {
                sound: self.sound && self.prepared && self.mixed == Some(
                    (layer as int, Sublayer::Attention),
                ) && self.done < frame.rows && row == self.done && position == frame.position
                    + row && frame.reserved(row as int, page, page_offset as int),
                done: self.done + 1,
                ..self
            },
            ForwardOp::QsaFinish { layer, rows } => ForwardDevice {
                sound: self.sound && self.prepared && self.mixed == Some(
                    (layer as int, Sublayer::Attention),
                ) && self.computed is None && self.done == frame.rows && rows == frame.rows,
                prepared: false,
                computed: self.mixed,
                ..self
            },
            ForwardOp::QsaSerialRow { layer, page, page_offset, row, position } => ForwardDevice {
                sound: self.sound && !frame.decode && frame.paths.serial_qsa_rows && frame.sparse(
                    layer as int,
                ) && self.mixed == Some((layer as int, Sublayer::Attention)) && self.done
                    < frame.rows && row == self.done && position == frame.position + row
                    && frame.reserved(row as int, page, page_offset as int),
                done: self.done + 1,
                computed: if self.done + 1 == frame.rows {
                    self.mixed
                } else {
                    None
                },
                ..self
            },
            ForwardOp::QsaToken { layer, page, page_offset, position } => self.evaluated(
                layer as int,
                Sublayer::Attention,
                frame.decode && frame.sparse(layer as int) && position == frame.position
                    && frame.segments.len() == 1 && page == frame.segments[0].page && page_offset
                    == frame.segments[0].page_offset,
            ),
            _ => self,
        }
    }

    /// What an operation of a feed-forward sublayer leaves.
    pub open spec fn experts(self, frame: ForwardFrame, op: ForwardOp) -> ForwardDevice {
        let width = frame.shape.hidden as int;
        let paths = frame.paths;
        match op {
            ForwardOp::MoeBatch { layer, rows } => self.evaluated(
                layer as int,
                Sublayer::Mlp,
                !frame.decode && !paths.exact_moe && !paths.canonical_moe_linears && rows
                    == frame.rows,
            ),
            ForwardOp::MoeCanonical { layer, rows } => self.evaluated(
                layer as int,
                Sublayer::Mlp,
                !frame.decode && !paths.exact_moe && paths.canonical_moe_linears && rows
                    == frame.rows,
            ),
            ForwardOp::MoeExactPair { layer } => self.evaluated(
                layer as int,
                Sublayer::Mlp,
                !frame.decode && paths.exact_moe && frame.rows == 2,
            ),
            ForwardOp::MoeToken { layer } => self.evaluated(
                layer as int,
                Sublayer::Mlp,
                frame.decode && frame.rows == 1,
            ),
            ForwardOp::MoeOracleLoad { row, offset, width: values } => ForwardDevice {
                sound: self.sound && self.computed is Some && self.mixed is Some && row
                    == self.oracles && offset == row * width && values == width,
                oracle_input: Some(row as int),
                ..self
            },
            ForwardOp::MoeOracleRun { layer, row } => ForwardDevice {
                sound: self.sound && self.oracle_input == Some(row as int) && self.mixed == Some(
                    (layer as int, Sublayer::Mlp),
                ),
                oracle_output: Some(row as int),
                ..self
            },
            ForwardOp::MoeOracleSnapshot { row } => ForwardDevice {
                sound: self.sound && self.oracle_output == Some(row as int) && row == self.oracles,
                oracles: self.oracles + 1,
                ..self
            },
            _ => self,
        }
    }

    /// Whether a stage of a layer has just been reached.
    pub open spec fn reached(self, layer: int, stage: Qwen38LayerProbeStage) -> bool {
        match stage {
            Qwen38LayerProbeStage::Ple => self.streams is WithPle,
            Qwen38LayerProbeStage::Attention => self.streams matches Streams::After(_, at, kind)
                && at == layer && kind == Sublayer::Attention && self.mixed is None,
            Qwen38LayerProbeStage::MlpMix => self.mixed == Some((layer, Sublayer::Mlp))
                && self.computed is None,
            Qwen38LayerProbeStage::MlpFfn => self.computed == Some((layer, Sublayer::Mlp)),
            Qwen38LayerProbeStage::Mlp => self.streams matches Streams::After(_, at, kind) && at
                == layer && kind == Sublayer::Mlp && self.mixed is None,
        }
    }

    /// What an operation on the streams or on the trace leaves.
    pub open spec fn residual(self, frame: ForwardFrame, op: ForwardOp) -> ForwardDevice {
        match op {
            ForwardOp::Ple { rows } => ForwardDevice {
                sound: self.sound && !self.ple && !frame.paths.exact_ple && rows == frame.rows,
                ple: true,
                ..self
            },
            ForwardOp::PleExactPair => ForwardDevice {
                sound: self.sound && !self.ple && frame.paths.exact_ple,
                ple: true,
                ..self
            },
            ForwardOp::AddPle => ForwardDevice {
                sound: self.sound && self.ple && self.update is None && self.mixed is None
                    && !(self.streams is Unknown),
                ple: false,
                update: Some(Streams::WithPle(Box::new(self.streams))),
                ..self
            },
            ForwardOp::SwapStreams => ForwardDevice {
                sound: self.sound && self.update is Some,
                streams: self.update->0,
                update: None,
                ..self
            },
            ForwardOp::Mix { layer, sublayer, rows } => ForwardDevice {
                sound: self.sound && self.update is None && self.mixed is None && !self.ple
                    && !self.prepared && !(self.streams is Unknown) && rows == frame.hyper(),
                mixed: Some((layer as int, sublayer)),
                done: 0,
                computed: None,
                ..self
            },
            ForwardOp::Combine { layer, sublayer, rows } => ForwardDevice {
                sound: self.sound && self.update is None && self.computed == Some(
                    (layer as int, sublayer),
                ) && self.mixed == self.computed && rows == frame.hyper(),
                update: Some(
                    Streams::After(Box::new(self.streams), layer as int, sublayer),
                ),
                mixed: None,
                computed: None,
                done: 0,
                ..self
            },
            ForwardOp::Trace { layer, stage, rows, width } => ForwardDevice {
                sound: self.sound && frame.paths.traced && self.update is None && self.reached(
                    layer as int,
                    stage,
                ) && rows == frame.rows && width == if stage == Qwen38LayerProbeStage::MlpMix
                    || stage == Qwen38LayerProbeStage::MlpFfn {
                    frame.shape.hidden as int
                } else {
                    frame.shape.hidden * frame.shape.hc_count
                },
                trace: self.trace.push((layer, stage)),
                ..self
            },
            ForwardOp::AttachMoe { layer, entry } => ForwardDevice {
                sound: self.sound && entry < self.trace.len() && self.trace[entry as int] == (
                    layer,
                    Qwen38LayerProbeStage::MlpFfn,
                ) && (frame.decode || self.oracles == 2),
                oracle_input: None,
                oracle_output: None,
                oracles: 0,
                attached: self.attached.push(layer as int),
                ..self
            },
            _ => self,
        }
    }

    /// What an operation behind the last layer leaves.
    pub open spec fn last(self, frame: ForwardFrame, op: ForwardOp) -> ForwardDevice {
        let width = frame.shape.hidden * frame.shape.hc_count;
        match op {
            ForwardOp::KeepLastRow { offset, width: values } => ForwardDevice {
                sound: self.sound && !frame.decode && self.update is None && self.mixed is None
                    && self.frontier is None && values == width && offset + width == frame.rows
                    * width,
                frontier: Some(self.streams),
                ..self
            },
            ForwardOp::FinalMix { width: values } => ForwardDevice {
                sound: self.sound && self.update is None && self.mixed is None && (frame.decode
                    || self.frontier is Some) && values == frame.shape.hidden,
                collapsed: if frame.decode {
                    Some(self.streams)
                } else {
                    self.frontier
                },
                ..self
            },
            ForwardOp::HeadTop1 => ForwardDevice {
                sound: self.sound && self.collapsed is Some && self.head is Nothing,
                head: HeadResult::Chosen,
                ..self
            },
            ForwardOp::ReadTop1 => ForwardDevice {
                sound: self.sound && self.head is Chosen,
                head: HeadResult::Token,
                ..self
            },
            ForwardOp::HeadLogits => ForwardDevice {
                sound: self.sound && self.collapsed is Some && self.head is Nothing,
                head: HeadResult::Pending,
                ..self
            },
            ForwardOp::Synchronize => ForwardDevice {
                head: if self.head is Pending {
                    HeadResult::Logits
                } else {
                    self.head
                },
                ..self
            },
            _ => self,
        }
    }

    /// What one operation leaves.
    pub open spec fn performed(self, frame: ForwardFrame, op: ForwardOp) -> ForwardDevice {
        match op {
            ForwardOp::ClearTrace | ForwardOp::UploadTokens { .. }
            | ForwardOp::GatherEmbedding { .. } | ForwardOp::RepeatStreams { .. }
            | ForwardOp::BeginGdn { .. } | ForwardOp::BindGdn { .. } | ForwardOp::FinishGdn => {
                self.entry(frame, op)
            },
            ForwardOp::MoeBatch { .. } | ForwardOp::MoeCanonical { .. }
            | ForwardOp::MoeExactPair { .. } | ForwardOp::MoeToken { .. }
            | ForwardOp::MoeOracleLoad { .. } | ForwardOp::MoeOracleRun { .. }
            | ForwardOp::MoeOracleSnapshot { .. } => self.experts(frame, op),
            ForwardOp::Ple { .. } | ForwardOp::PleExactPair | ForwardOp::AddPle
            | ForwardOp::SwapStreams | ForwardOp::Mix { .. } | ForwardOp::Combine { .. }
            | ForwardOp::Trace { .. } | ForwardOp::AttachMoe { .. } => self.residual(frame, op),
            ForwardOp::KeepLastRow { .. } | ForwardOp::FinalMix { .. } | ForwardOp::HeadTop1
            | ForwardOp::ReadTop1 | ForwardOp::HeadLogits | ForwardOp::Synchronize => self.last(
                frame,
                op,
            ),
            _ => self.attention(frame, op),
        }
    }
}

/// What the operations of a pass do.
pub open spec fn pass_step(frame: ForwardFrame) -> spec_fn(
    ForwardDevice,
    ForwardOp,
) -> ForwardDevice {
    |device: ForwardDevice, op: ForwardOp| device.performed(frame, op)
}

} // verus!
