//! Layer schedules of a batch: run layer by layer, captured into graphs, or replayed.

use vstd::prelude::*;
use crate::manifest::QwenLayerKind;
use crate::qwen36::capture::DFlash2TargetCapture;
use crate::qwen36::linear::{prepare_fp8_batch_input, BatchFp8InputQuantization, Linear, Storage};

verus! {

/// A graph of one layer.
#[derive(Clone, Copy, Debug, PartialEq, Eq, Structural)]
pub enum GraphPart {
    /// A whole recurrent layer.
    Whole,
    /// What precedes the cache of an attention layer.
    PreAttention,
    /// What follows the cache of an attention layer.
    PostAttention,
}

/// One step of a batch.
#[derive(Clone, Copy, Debug, PartialEq, Eq, Structural)]
#[allow(inconsistent_fields)]
pub enum LayerStep {
    /// Look the embeddings up.
    Gather { rows: usize },
    /// Normalise the residual stream.
    InputNorm { layer: usize, rows: usize },
    /// Recurrent attention of ragged prompts.
    LinearPrefill {
        layer: usize,
        sequences: usize,
        rows: usize,
        serial_projections: bool,
        serial_recurrence: bool,
    },
    /// Recurrent attention of a decode batch.
    LinearDecode { layer: usize, rows: usize },
    /// What precedes the cache of an attention layer.
    AttentionPre { layer: usize, rows: usize },
    /// Appends and attention of ragged prompts.
    PromptCache { layer: usize, serial_rows: bool },
    /// Appends and attention of a decode batch.
    DecodeCache { layer: usize, rows: usize },
    /// What follows the cache of an attention layer.
    AttentionPost { layer: usize, rows: usize },
    /// Residual update, normalisation and feed-forward block.
    Tail { layer: usize, rows: usize, stabilise: bool },
    /// Start the capture of a graph.
    BeginGraph { layer: usize, part: GraphPart },
    /// End the capture of a graph.
    EndGraph { layer: usize, part: GraphPart },
    /// Launch a captured graph.
    Launch { layer: usize, part: GraphPart },
    /// Exchange the residual stream with the output of the feed-forward block.
    Swap,
    /// Copy the residual rows for the draft model.
    Capture { layer: usize, tap: usize, rows: usize },
    /// Copy the activations of the layer to the host.
    Trace { layer: usize, rows: usize },
    /// Normalise the residual stream for the head.
    FinalNorm { rows: usize },
    /// Round the normalised stream to sixteen bits.
    RoundFinal,
    /// Quantise the normalised stream for the head.
    HeadQuantize { rows: usize, cols: usize, mode: BatchFp8InputQuantization },
    /// Run the head.
    Head { storage: Storage, rows: usize, mode: BatchFp8InputQuantization },
    /// Wait for the device.
    Synchronize,
}

/// How the layers of a batch run.
#[derive(Clone, Copy, Debug, PartialEq, Eq, Structural)]
pub struct LayerPass {
    /// Whether this is a decode batch.
    pub decode: bool,
    /// Rows of every operation, padding included.
    pub rows: usize,
    /// Rows that belong to sequences.
    pub active: usize,
    /// Sequences.
    pub sequences: usize,
    /// Whether recurrent projections run one row at a time.
    pub serial_projections: bool,
    /// Whether the recurrence runs one row at a time.
    pub serial_recurrence: bool,
    /// Whether attention runs one row at a time.
    pub serial_rows: bool,
}

impl LayerPass {
    /// Whether a row must come out the same whatever batch it is in.
    pub open spec fn stabilise(self) -> bool {
        self.decode || self.serial_projections
    }

    /// Residual update and feed-forward block.
    pub open spec fn tail(self, layer: usize) -> LayerStep {
        LayerStep::Tail { layer, rows: self.rows, stabilise: self.stabilise() }
    }

    /// Steps of a graph.
    pub open spec fn part_steps(self, layer: usize, part: GraphPart) -> Seq<LayerStep> {
        let rows = self.rows;
        match part {
            GraphPart::Whole => seq![
                LayerStep::InputNorm { layer, rows },
                if self.decode {
                    LayerStep::LinearDecode { layer, rows }
                } else {
                    LayerStep::LinearPrefill {
                        layer,
                        sequences: self.sequences,
                        rows,
                        serial_projections: self.serial_projections,
                        serial_recurrence: self.serial_recurrence,
                    }
                },
                self.tail(layer),
            ],
            GraphPart::PreAttention => seq![
                LayerStep::InputNorm { layer, rows },
                LayerStep::AttentionPre { layer, rows },
            ],
            GraphPart::PostAttention => seq![
                LayerStep::AttentionPost { layer, rows },
                self.tail(layer),
            ],
        }
    }

    /// The step between the graphs of an attention layer.
    pub open spec fn cache_step(self, layer: usize) -> LayerStep {
        if self.decode {
            LayerStep::DecodeCache { layer, rows: self.active }
        } else {
            LayerStep::PromptCache { layer, serial_rows: self.serial_rows }
        }
    }

    /// Steps of one layer.
    pub open spec fn eager(self, layer: usize, kind: QwenLayerKind) -> Seq<LayerStep> {
        match kind {
            QwenLayerKind::LinearAttention => self.part_steps(layer, GraphPart::Whole),
            QwenLayerKind::FullAttention => self.part_steps(layer, GraphPart::PreAttention)
                + seq![self.cache_step(layer)] + self.part_steps(layer, GraphPart::PostAttention),
        }
    }

    /// Steps of one layer whose graphs were captured.
    pub open spec fn replay(self, layer: usize, kind: QwenLayerKind) -> Seq<LayerStep> {
        match kind {
            QwenLayerKind::LinearAttention => seq![
                LayerStep::Launch { layer, part: GraphPart::Whole },
            ],
            QwenLayerKind::FullAttention => seq![
                LayerStep::Launch { layer, part: GraphPart::PreAttention },
                self.cache_step(layer),
                LayerStep::Launch { layer, part: GraphPart::PostAttention },
            ],
        }
    }

    /// Capture of one graph.
    pub open spec fn capture_part(self, layer: usize, part: GraphPart) -> Seq<LayerStep> {
        seq![LayerStep::BeginGraph { layer, part }] + self.part_steps(layer, part) + seq![
            LayerStep::EndGraph { layer, part },
        ]
    }

    /// Capture of the graphs of one layer.
    pub open spec fn capture_layer(self, layer: usize, kind: QwenLayerKind) -> Seq<LayerStep> {
        match kind {
            QwenLayerKind::LinearAttention => self.capture_part(layer, GraphPart::Whole),
            QwenLayerKind::FullAttention => self.capture_part(layer, GraphPart::PreAttention)
                + self.capture_part(layer, GraphPart::PostAttention),
        }
    }

    fn push_part(&self, steps: &mut Vec<LayerStep>, layer: usize, part: GraphPart)
        ensures
            final(steps)@ == old(steps)@ + self.part_steps(layer, part),
    {
        let rows: usize = self.rows;
        let stabilise = self.decode || self.serial_projections;
        match part {
            GraphPart::Whole => {
                steps.push(LayerStep::InputNorm { layer, rows });
                if self.decode {
                    steps.push(LayerStep::LinearDecode { layer, rows });
                } else {
                    steps.push(
                        LayerStep::LinearPrefill {
                            layer,
                            sequences: self.sequences,
                            rows,
                            serial_projections: self.serial_projections,
                            serial_recurrence: self.serial_recurrence,
                        },
                    );
                }
                steps.push(LayerStep::Tail { layer, rows, stabilise });
            },
            GraphPart::PreAttention => {
                steps.push(LayerStep::InputNorm { layer, rows });
                steps.push(LayerStep::AttentionPre { layer, rows });
            },
            GraphPart::PostAttention => {
                steps.push(LayerStep::AttentionPost { layer, rows });
                steps.push(LayerStep::Tail { layer, rows, stabilise });
            },
        }
        assert(steps@ =~= old(steps)@ + self.part_steps(layer, part));
    }

    fn push_cache(&self, steps: &mut Vec<LayerStep>, layer: usize)
        ensures
            final(steps)@ == old(steps)@.push(self.cache_step(layer)),
    {
        if self.decode {
            steps.push(LayerStep::DecodeCache { layer, rows: self.active });
        } else {
            steps.push(LayerStep::PromptCache { layer, serial_rows: self.serial_rows });
        }
    }

    fn push_layer(
        &self,
        steps: &mut Vec<LayerStep>,
        layer: usize,
        kind: QwenLayerKind,
        graphs: bool,
    )
        ensures
            final(steps)@ == old(steps)@ + if graphs {
                self.replay(layer, kind)
            } else {
                self.eager(layer, kind)
            },
    {
        match kind {
            QwenLayerKind::LinearAttention => {
                if graphs {
                    steps.push(LayerStep::Launch { layer, part: GraphPart::Whole });
                } else {
                    self.push_part(steps, layer, GraphPart::Whole);
                }
            },
            QwenLayerKind::FullAttention => {
                if graphs {
                    steps.push(LayerStep::Launch { layer, part: GraphPart::PreAttention });
                    self.push_cache(steps, layer);
                    steps.push(LayerStep::Launch { layer, part: GraphPart::PostAttention });
                } else {
                    self.push_part(steps, layer, GraphPart::PreAttention);
                    self.push_cache(steps, layer);
                    self.push_part(steps, layer, GraphPart::PostAttention);
                }
            },
        }
        assert(steps@ =~= old(steps)@ + if graphs {
            self.replay(layer, kind)
        } else {
            self.eager(layer, kind)
        });
    }

    fn push_capture_part(&self, steps: &mut Vec<LayerStep>, layer: usize, part: GraphPart)
        ensures
            final(steps)@ == old(steps)@ + self.capture_part(layer, part),
    {
        steps.push(LayerStep::BeginGraph { layer, part });
        self.push_part(steps, layer, part);
        steps.push(LayerStep::EndGraph { layer, part });
        assert(steps@ =~= old(steps)@ + self.capture_part(layer, part));
    }

    /// Capture of the first `count` layers.
    pub open spec fn capture_steps(self, kinds: Seq<QwenLayerKind>, count: nat) -> Seq<LayerStep>
        decreases count,
    {
        if count == 0 {
            seq![]
        } else {
            self.capture_steps(kinds, (count - 1) as nat) + self.capture_layer(
                (count - 1) as usize,
                kinds[count - 1],
            ) + seq![LayerStep::Swap]
        }
    }

    /// Plans the capture of the graphs of every layer.
    ///
    /// The residual stream and the output of the feed-forward block take turns; an odd number
    /// of layers is followed by one more exchange, so that a replay starts as the capture did.
    pub fn capture_layer_graphs(&self, kinds: &[QwenLayerKind]) -> (steps: Vec<LayerStep>)
        ensures
            steps@ == self.capture_steps(kinds@, kinds@.len()) + restore_order(kinds@.len()),
    {
        let mut steps: Vec<LayerStep> = Vec::new();
        let mut layer: usize = 0;
        while layer < kinds.len()
            invariant
                layer <= kinds@.len(),
                steps@ == self.capture_steps(kinds@, layer as nat),
            decreases kinds@.len() - layer,
        {
            match kinds[layer] {
                QwenLayerKind::LinearAttention => {
                    self.push_capture_part(&mut steps, layer, GraphPart::Whole);
                },
                QwenLayerKind::FullAttention => {
                    self.push_capture_part(&mut steps, layer, GraphPart::PreAttention);
                    self.push_capture_part(&mut steps, layer, GraphPart::PostAttention);
                },
            }
            steps.push(LayerStep::Swap);
            layer += 1;
            assert(steps@ =~= self.capture_steps(kinds@, layer as nat));
        }
        if kinds.len() % 2 != 0 {
            steps.push(LayerStep::Swap);
        }
        assert(steps@ =~= self.capture_steps(kinds@, kinds@.len()) + restore_order(kinds@.len()));
        steps
    }

    /// What follows the steps of one layer.
    pub open spec fn after_layer(
        self,
        layer: usize,
        capture: Option<DFlash2TargetCapture>,
        trace: bool,
    ) -> Seq<LayerStep> {
        seq![LayerStep::Swap] + (match capture {
            Some(capture) => match crate::qwen36::capture::tap_of(capture.layers@, layer) {
                Some(tap) => seq![LayerStep::Capture { layer, tap, rows: self.active }],
                None => seq![],
            },
            None => seq![],
        }) + (if trace {
            seq![LayerStep::Trace { layer, rows: self.active }]
        } else {
            seq![]
        })
    }

    /// Steps of one layer and what follows them.
    pub open spec fn layer_block(
        self,
        layer: usize,
        kind: QwenLayerKind,
        graphs: bool,
        capture: Option<DFlash2TargetCapture>,
        trace: bool,
    ) -> Seq<LayerStep> {
        (if graphs {
            self.replay(layer, kind)
        } else {
            self.eager(layer, kind)
        }) + self.after_layer(layer, capture, trace)
    }

    /// Steps of the first `count` layers.
    pub open spec fn layer_steps(
        self,
        kinds: Seq<QwenLayerKind>,
        graphs: bool,
        capture: Option<DFlash2TargetCapture>,
        trace: bool,
        count: nat,
    ) -> Seq<LayerStep>
        decreases count,
    {
        if count == 0 {
            seq![]
        } else {
            self.layer_steps(kinds, graphs, capture, trace, (count - 1) as nat) + self.layer_block(
                (count - 1) as usize,
                kinds[count - 1],
                graphs,
                capture,
                trace,
            )
        }
    }

    fn push_after_layer(
        &self,
        steps: &mut Vec<LayerStep>,
        layer: usize,
        capture: &Option<DFlash2TargetCapture>,
        trace: bool,
    )
        requires
            *capture matches Some(capture) ==> capture.well_formed(),
        ensures
            final(steps)@ == old(steps)@ + self.after_layer(layer, *capture, trace),
    {
        steps.push(LayerStep::Swap);
        match capture {
            Some(capture) => match capture.tap(layer) {
                Some(tap) => {
                    steps.push(LayerStep::Capture { layer, tap, rows: self.active });
                },
                None => {},
            },
            None => {},
        }
        if trace {
            steps.push(LayerStep::Trace { layer, rows: self.active });
        }
        assert(steps@ =~= old(steps)@ + self.after_layer(layer, *capture, trace));
    }

    fn push_layer_block(
        &self,
        steps: &mut Vec<LayerStep>,
        layer: usize,
        kind: QwenLayerKind,
        graphs: bool,
        capture: &Option<DFlash2TargetCapture>,
        trace: bool,
    )
        requires
            *capture matches Some(capture) ==> capture.well_formed(),
        ensures
            final(steps)@ == old(steps)@ + self.layer_block(layer, kind, graphs, *capture, trace),
    {
        self.push_layer(steps, layer, kind, graphs);
        self.push_after_layer(steps, layer, capture, trace);
        assert(steps@ =~= old(steps)@ + self.layer_block(layer, kind, graphs, *capture, trace));
    }

    fn push_layers(
        &self,
        steps: &mut Vec<LayerStep>,
        kinds: &[QwenLayerKind],
        graphs: bool,
        capture: &Option<DFlash2TargetCapture>,
        trace: bool,
    )
        requires
            *capture matches Some(capture) ==> capture.well_formed(),
        ensures
            final(steps)@ == old(steps)@ + self.layer_steps(
                kinds@,
                graphs,
                *capture,
                trace,
                kinds@.len(),
            ),
    {
        let ghost start = steps@;
        let mut layer: usize = 0;
        assert(steps@ =~= start + self.layer_steps(kinds@, graphs, *capture, trace, 0));
        while layer < kinds.len()
            invariant
                layer <= kinds@.len(),
                *capture matches Some(capture) ==> capture.well_formed(),
                steps@ == start + self.layer_steps(kinds@, graphs, *capture, trace, layer as nat),
            decreases kinds@.len() - layer,
        {
            let ghost before = self.layer_steps(kinds@, graphs, *capture, trace, layer as nat);
            self.push_layer_block(steps, layer, kinds[layer], graphs, capture, trace);
            proof {
                lemma_append(
                    start,
                    before,
                    self.layer_block(layer, kinds@[layer as int], graphs, *capture, trace),
                );
            }
            layer += 1;
        }
    }
}

proof fn lemma_append(start: Seq<LayerStep>, left: Seq<LayerStep>, right: Seq<LayerStep>)
    ensures
        start + left + right == start + (left + right),
{
    assert(start + left + right =~= start + (left + right));
}

/// The exchange that follows an odd number of layers.
pub open spec fn restore_order(layers: nat) -> Seq<LayerStep> {
    if layers % 2 != 0 {
        seq![LayerStep::Swap]
    } else {
        seq![]
    }
}

/// How a prompt batch of `total` rows runs.
pub open spec fn prefill_pass(
    sequences: usize,
    total: usize,
    serial_projections: bool,
    serial_recurrence: bool,
    serial_rows: bool,
) -> LayerPass {
    LayerPass {
        decode: false,
        rows: total,
        active: total,
        sequences,
        serial_projections,
        serial_recurrence,
        serial_rows,
    }
}

/// A prompt batch whose rows are packed.
pub struct PrefillSchedule<'a> {
    /// Attention kind of each layer.
    pub kinds: &'a [QwenLayerKind],
    /// Sequences.
    pub sequences: usize,
    /// Tokens of all sequences.
    pub total: usize,
    /// Most tokens of a batch.
    pub token_capacity: usize,
    /// Whether graphs were captured.
    pub graphs: bool,
    /// Whether recurrent projections run one row at a time.
    pub serial_projections: bool,
    /// Whether the recurrence runs one row at a time.
    pub serial_recurrence: bool,
    /// Whether attention runs one row at a time.
    pub serial_rows: bool,
    /// Layers that a draft model reads.
    pub capture: &'a Option<DFlash2TargetCapture>,
}

impl<'a> PrefillSchedule<'a> {
    /// How the layers run.
    pub open spec fn pass(self) -> LayerPass {
        prefill_pass(
            self.sequences,
            self.total,
            self.serial_projections,
            self.serial_recurrence,
            self.serial_rows,
        )
    }

    /// Graphs are replayed for a single sequence that fills the batch.
    pub open spec fn replays(self) -> bool {
        self.graphs && self.total == self.token_capacity && self.sequences == 1
    }

    /// Steps of the batch.
    pub open spec fn steps(self) -> Seq<LayerStep> {
        seq![LayerStep::Gather { rows: self.total }] + self.pass().layer_steps(
            self.kinds@,
            self.replays(),
            *self.capture,
            false,
            self.kinds@.len(),
        ) + restore_order(self.kinds@.len()) + seq![LayerStep::Synchronize]
    }

    /// Plans a prompt batch.
    pub fn plan_steps(&self) -> (steps: Vec<LayerStep>)
        requires
            *self.capture matches Some(capture) ==> capture.well_formed(),
        ensures
            steps@ == self.steps(),
    {
        let pass = LayerPass {
            decode: false,
            rows: self.total,
            active: self.total,
            sequences: self.sequences,
            serial_projections: self.serial_projections,
            serial_recurrence: self.serial_recurrence,
            serial_rows: self.serial_rows,
        };
        let graphs = self.graphs && self.total == self.token_capacity && self.sequences == 1;
        let mut steps: Vec<LayerStep> = Vec::new();
        steps.push(LayerStep::Gather { rows: self.total });
        pass.push_layers(&mut steps, self.kinds, graphs, self.capture, false);
        if self.kinds.len() % 2 != 0 {
            steps.push(LayerStep::Swap);
        }
        steps.push(LayerStep::Synchronize);
        assert(steps@ =~= self.steps());
        steps
    }
}

/// A decode batch whose rows are packed.
pub struct DecodeSchedule<'a> {
    /// Attention kind of each layer.
    pub kinds: &'a [QwenLayerKind],
    /// Rows of the batch, padding included.
    pub capacity: usize,
    /// Rows that belong to sequences.
    pub active: usize,
    /// Whether graphs were captured.
    pub graphs: bool,
    /// Layers that a draft model reads.
    pub capture: &'a Option<DFlash2TargetCapture>,
    /// Whether the activations of every layer are copied to the host.
    pub trace: bool,
    /// Width of the residual stream.
    pub hidden: usize,
    /// Head.
    pub head: Linear,
}

/// How a decode batch runs.
pub open spec fn decode_pass(capacity: usize, active: usize) -> LayerPass {
    LayerPass {
        decode: true,
        rows: capacity,
        active,
        sequences: active,
        serial_projections: false,
        serial_recurrence: false,
        serial_rows: false,
    }
}

/// Steps of the head on `rows` rows. Eight-bit weights take a quantised input.
pub open spec fn head_steps(head: Linear, hidden: usize, rows: usize) -> Seq<LayerStep> {
    match head.storage {
        Storage::Fp8 => {
            let mode = crate::qwen36::linear::quantization_of(seq![head], rows);
            seq![
                LayerStep::HeadQuantize { rows, cols: hidden, mode },
                LayerStep::Head { storage: Storage::Fp8, rows, mode },
            ]
        },
        storage => seq![
            LayerStep::Head { storage, rows, mode: BatchFp8InputQuantization::Unused },
        ],
    }
}

impl<'a> DecodeSchedule<'a> {
    /// Steps of the batch.
    pub open spec fn steps(self) -> Seq<LayerStep> {
        seq![LayerStep::Gather { rows: self.active }] + decode_pass(
            self.capacity,
            self.active,
        ).layer_steps(self.kinds@, self.graphs, *self.capture, self.trace, self.kinds@.len())
            + seq![LayerStep::FinalNorm { rows: self.capacity }, LayerStep::RoundFinal]
            + head_steps(self.head, self.hidden, self.capacity)
    }

    fn push_head(&self, steps: &mut Vec<LayerStep>)
        ensures
            final(steps)@ == old(steps)@ + head_steps(self.head, self.hidden, self.capacity),
    {
        let rows: usize = self.capacity;
        let storage = self.head.storage;
        match storage {
            Storage::Fp8 => {
                let linears: [Linear; 1] = [self.head];
                assert(linears@ =~= seq![self.head]);
                let mode = prepare_fp8_batch_input(linears.as_slice(), rows);
                steps.push(LayerStep::HeadQuantize { rows, cols: self.hidden, mode });
                steps.push(LayerStep::Head { storage, rows, mode });
            },
            _ => {
                steps.push(
                    LayerStep::Head { storage, rows, mode: BatchFp8InputQuantization::Unused },
                );
            },
        }
        assert(steps@ =~= old(steps)@ + head_steps(self.head, self.hidden, self.capacity));
    }

    /// Plans a decode batch.
    pub fn plan_steps(&self) -> (steps: Vec<LayerStep>)
        requires
            *self.capture matches Some(capture) ==> capture.well_formed(),
        ensures
            steps@ == self.steps(),
    {
        let pass = LayerPass {
            decode: true,
            rows: self.capacity,
            active: self.active,
            sequences: self.active,
            serial_projections: false,
            serial_recurrence: false,
            serial_rows: false,
        };
        let mut steps: Vec<LayerStep> = Vec::new();
        steps.push(LayerStep::Gather { rows: self.active });
        pass.push_layers(&mut steps, self.kinds, self.graphs, self.capture, self.trace);
        steps.push(LayerStep::FinalNorm { rows: self.capacity });
        steps.push(LayerStep::RoundFinal);
        self.push_head(&mut steps);
        assert(steps@ =~= self.steps());
        steps
    }
}

/// Steps that the device performs when graphs are launched.
pub open spec fn expanded(pass: LayerPass, steps: Seq<LayerStep>) -> Seq<LayerStep>
    decreases steps.len(),
{
    if steps.len() == 0 {
        seq![]
    } else {
        expanded(pass, steps.drop_last()) + match steps.last() {
            LayerStep::Launch { layer, part } => pass.part_steps(layer, part),
            step => seq![step],
        }
    }
}

/// Replaying the graphs of a layer performs the steps of the layer.
pub proof fn law_replay_performs_the_layer(pass: LayerPass, layer: usize, kind: QwenLayerKind)
    ensures
        expanded(pass, pass.replay(layer, kind)) == pass.eager(layer, kind),
{
    reveal_with_fuel(expanded, 4);
    let steps = pass.replay(layer, kind);
    match kind {
        QwenLayerKind::LinearAttention => {
            assert(steps.drop_last() =~= seq![]);
            assert(expanded(pass, steps) =~= pass.eager(layer, kind));
        },
        QwenLayerKind::FullAttention => {
            assert(steps.drop_last().drop_last().drop_last() =~= seq![]);
            assert(expanded(pass, steps) =~= pass.eager(layer, kind));
        },
    }
}

/// Launching a graph performs exactly the steps that were captured into it.
pub proof fn law_graphs_hold_what_they_replay(pass: LayerPass, layer: usize, part: GraphPart)
    ensures
        pass.capture_part(layer, part) == seq![LayerStep::BeginGraph { layer, part }] + expanded(
            pass,
            seq![LayerStep::Launch { layer, part }],
        ) + seq![LayerStep::EndGraph { layer, part }],
{
    reveal_with_fuel(expanded, 2);
    let steps = seq![LayerStep::Launch { layer, part }];
    assert(steps.drop_last() =~= seq![]);
    assert(expanded(pass, steps) =~= pass.part_steps(layer, part));
}

/// Number of exchanges among the steps.
pub open spec fn swaps(steps: Seq<LayerStep>) -> nat
    decreases steps.len(),
{
    if steps.len() == 0 {
        0
    } else {
        swaps(steps.drop_last()) + if steps.last() == LayerStep::Swap {
            1nat
        } else {
            0nat
        }
    }
}

proof fn lemma_swaps_add(left: Seq<LayerStep>, right: Seq<LayerStep>)
    ensures
        swaps(left + right) == swaps(left) + swaps(right),
    decreases right.len(),
{
    if right.len() == 0 {
        assert(left + right =~= left);
    } else {
        assert((left + right).drop_last() =~= left + right.drop_last());
        lemma_swaps_add(left, right.drop_last());
    }
}

proof fn lemma_no_swaps(steps: Seq<LayerStep>)
    requires
        forall|i: int| 0 <= i < steps.len() ==> (#[trigger] steps[i]) != LayerStep::Swap,
    ensures
        swaps(steps) == 0,
    decreases steps.len(),
{
    if steps.len() > 0 {
        lemma_no_swaps(steps.drop_last());
    }
}

proof fn lemma_one_swap()
    ensures
        swaps(seq![LayerStep::Swap]) == 1,
{
    reveal_with_fuel(swaps, 2);
    assert(seq![LayerStep::Swap].drop_last() =~= seq![]);
}

proof fn lemma_layer_swaps(
    pass: LayerPass,
    kinds: Seq<QwenLayerKind>,
    graphs: bool,
    capture: Option<DFlash2TargetCapture>,
    trace: bool,
    count: nat,
)
    requires
        count <= kinds.len(),
    ensures
        swaps(pass.layer_steps(kinds, graphs, capture, trace, count)) == count,
    decreases count,
{
    if count > 0 {
        let layer = (count - 1) as usize;
        let kind = kinds[count - 1];
        lemma_layer_swaps(pass, kinds, graphs, capture, trace, (count - 1) as nat);
        let before = pass.layer_steps(kinds, graphs, capture, trace, (count - 1) as nat);
        let body = if graphs {
            pass.replay(layer, kind)
        } else {
            pass.eager(layer, kind)
        };
        let after = pass.after_layer(layer, capture, trace);
        lemma_no_swaps(body);
        let rest = after.skip(1);
        assert(after =~= seq![LayerStep::Swap] + rest);
        lemma_no_swaps(rest);
        lemma_one_swap();
        lemma_swaps_add(seq![LayerStep::Swap], rest);
        lemma_swaps_add(before, body + after);
        lemma_swaps_add(body, after);
    } else {
        assert(pass.layer_steps(kinds, graphs, capture, trace, 0) =~= seq![]);
    }
}

/// A prompt batch leaves the two residual buffers where it found them, so that the graphs which
/// read and write them can be launched again.
pub proof fn law_prompt_batch_restores_the_buffers(schedule: PrefillSchedule)
    ensures
        swaps(schedule.steps()) % 2 == 0,
{
    let layers = schedule.kinds@.len();
    let pass = schedule.pass();
    let head = seq![LayerStep::Gather { rows: schedule.total }];
    let body = pass.layer_steps(
        schedule.kinds@,
        schedule.replays(),
        *schedule.capture,
        false,
        layers,
    );
    let tail = restore_order(layers);
    let last = seq![LayerStep::Synchronize];
    lemma_layer_swaps(
        pass,
        schedule.kinds@,
        schedule.replays(),
        *schedule.capture,
        false,
        layers,
    );
    lemma_no_swaps(head);
    lemma_no_swaps(last);
    lemma_one_swap();
    if layers % 2 == 0 {
        lemma_no_swaps(tail);
    }
    lemma_swaps_add(head, body);
    lemma_swaps_add(head + body, tail);
    lemma_swaps_add(head + body + tail, last);
}

/// One of the two buffers that take turns as the residual stream.
#[derive(Clone, Copy, Debug, PartialEq, Eq, Structural)]
pub enum RowBuffer {
    /// The residual stream.
    Stream,
    /// The output of the feed-forward block.
    FeedForward,
}

/// The buffer with the last layer's rows after a prompt batch. The exchange that follows an odd
/// number of layers moves them to the other one.
pub open spec fn prompt_buffer(layers: nat) -> RowBuffer {
    if layers % 2 == 0 {
        RowBuffer::Stream
    } else {
        RowBuffer::FeedForward
    }
}

/// What one of the two buffers holds.
pub open spec fn held(buffers: (Residual, Residual), buffer: RowBuffer) -> Residual {
    match buffer {
        RowBuffer::Stream => buffers.0,
        RowBuffer::FeedForward => buffers.1,
    }
}

/// What a residual buffer holds.
pub enum Residual {
    /// Nothing of this batch.
    Unset,
    /// The embeddings of the tokens.
    Embeddings,
    /// The output of a layer.
    Layer(usize),
}

/// The two residual buffers after one step: the residual stream, and the output of the
/// feed-forward block.
pub open spec fn buffers_after(buffers: (Residual, Residual), step: LayerStep) -> (
    Residual,
    Residual,
) {
    match step {
        LayerStep::Gather { .. } => (Residual::Embeddings, buffers.1),
        LayerStep::Tail { layer, .. } => (buffers.0, Residual::Layer(layer)),
        LayerStep::Launch { layer, part } => if part == GraphPart::PreAttention {
            buffers
        } else {
            (buffers.0, Residual::Layer(layer))
        },
        LayerStep::Swap => (buffers.1, buffers.0),
        _ => buffers,
    }
}

/// The two residual buffers after some steps.
pub open spec fn buffers(start: (Residual, Residual), steps: Seq<LayerStep>) -> (Residual, Residual)
    decreases steps.len(),
{
    if steps.len() == 0 {
        start
    } else {
        buffers_after(buffers(start, steps.drop_last()), steps.last())
    }
}

proof fn lemma_buffers_add(
    start: (Residual, Residual),
    left: Seq<LayerStep>,
    right: Seq<LayerStep>,
)
    ensures
        buffers(start, left + right) == buffers(buffers(start, left), right),
    decreases right.len(),
{
    if right.len() == 0 {
        assert(left + right =~= left);
    } else {
        assert((left + right).drop_last() =~= left + right.drop_last());
        lemma_buffers_add(start, left, right.drop_last());
    }
}

/// Whether a step leaves both buffers alone.
spec fn keeps_buffers(step: LayerStep) -> bool {
    !(step is Gather || step is Tail || step is Launch || step is Swap)
}

proof fn lemma_kept(start: (Residual, Residual), steps: Seq<LayerStep>)
    requires
        forall|i: int| 0 <= i < steps.len() ==> keeps_buffers(#[trigger] steps[i]),
    ensures
        buffers(start, steps) == start,
    decreases steps.len(),
{
    if steps.len() > 0 {
        lemma_kept(start, steps.drop_last());
        assert(keeps_buffers(steps.last()));
    }
}

proof fn lemma_layer_buffers(
    pass: LayerPass,
    start: (Residual, Residual),
    layer: usize,
    kind: QwenLayerKind,
    graphs: bool,
)
    ensures
        buffers(
            start,
            if graphs {
                pass.replay(layer, kind)
            } else {
                pass.eager(layer, kind)
            },
        ) == (start.0, Residual::Layer(layer)),
{
    let steps = if graphs {
        pass.replay(layer, kind)
    } else {
        pass.eager(layer, kind)
    };
    let front = steps.drop_last();
    let before = buffers(start, front);
    if graphs && kind == QwenLayerKind::FullAttention {
        let first = front.drop_last();
        assert(first.drop_last() =~= seq![]);
        reveal_with_fuel(buffers, 3);
        assert(before == start);
    } else {
        lemma_kept(start, front);
    }
    assert(buffers(start, steps) == buffers_after(before, steps.last()));
}

proof fn lemma_layers_buffers(
    pass: LayerPass,
    kinds: Seq<QwenLayerKind>,
    graphs: bool,
    capture: Option<DFlash2TargetCapture>,
    trace: bool,
    count: nat,
    start: (Residual, Residual),
)
    requires
        0 < count <= kinds.len() <= usize::MAX,
    ensures
        buffers(start, pass.layer_steps(kinds, graphs, capture, trace, count)).0 == Residual::Layer(
            (count - 1) as usize,
        ),
{
    let layer = (count - 1) as usize;
    let kind = kinds[count - 1];
    let before = pass.layer_steps(kinds, graphs, capture, trace, (count - 1) as nat);
    let body = if graphs {
        pass.replay(layer, kind)
    } else {
        pass.eager(layer, kind)
    };
    let after = pass.after_layer(layer, capture, trace);
    let rest = after.skip(1);
    let middle = buffers(start, before);
    assert(after =~= seq![LayerStep::Swap] + rest);
    lemma_buffers_add(start, before, body + after);
    lemma_buffers_add(middle, body, after);
    lemma_layer_buffers(pass, middle, layer, kind, graphs);
    let done = buffers(middle, body);
    lemma_buffers_add(done, seq![LayerStep::Swap], rest);
    assert(seq![LayerStep::Swap].drop_last() =~= seq![]);
    reveal_with_fuel(buffers, 2);
    assert(buffers(done, seq![LayerStep::Swap]) == (done.1, done.0));
    lemma_kept((done.1, done.0), rest);
}

/// After a prompt batch the rows that the last layer produced are in the buffer that
/// `prompt_buffer` names.
pub proof fn law_prompt_rows_come_from_the_last_layer(
    schedule: PrefillSchedule,
    start: (Residual, Residual),
)
    requires
        0 < schedule.kinds@.len() <= usize::MAX,
    ensures
        held(buffers(start, schedule.steps()), prompt_buffer(schedule.kinds@.len()))
            == Residual::Layer((schedule.kinds@.len() - 1) as usize),
{
    let layers = schedule.kinds@.len();
    let pass = schedule.pass();
    let head = seq![LayerStep::Gather { rows: schedule.total }];
    let body = pass.layer_steps(
        schedule.kinds@,
        schedule.replays(),
        *schedule.capture,
        false,
        layers,
    );
    let order = restore_order(layers);
    let last = seq![LayerStep::Synchronize];
    lemma_buffers_add(start, head + body + order, last);
    lemma_buffers_add(start, head + body, order);
    lemma_buffers_add(start, head, body);
    lemma_layers_buffers(
        pass,
        schedule.kinds@,
        schedule.replays(),
        *schedule.capture,
        false,
        layers,
        buffers(start, head),
    );
    let done = buffers(start, head + body);
    if layers % 2 != 0 {
        assert(order.drop_last() =~= seq![]);
        reveal_with_fuel(buffers, 2);
        assert(buffers(done, order) == (done.1, done.0));
    } else {
        assert(buffers(done, order) == done);
    }
    lemma_kept(buffers(start, head + body + order), last);
}

/// The head of a decode batch reads the rows that the last layer produced, and they are still
/// in the residual stream when the batch is done.
pub proof fn law_decode_rows_come_from_the_last_layer(
    schedule: DecodeSchedule,
    start: (Residual, Residual),
)
    requires
        0 < schedule.kinds@.len() <= usize::MAX,
    ensures
        buffers(start, schedule.steps()).0 == Residual::Layer((schedule.kinds@.len() - 1) as usize),
{
    let layers = schedule.kinds@.len();
    let pass = decode_pass(schedule.capacity, schedule.active);
    let head = seq![LayerStep::Gather { rows: schedule.active }];
    let body = pass.layer_steps(
        schedule.kinds@,
        schedule.graphs,
        *schedule.capture,
        schedule.trace,
        layers,
    );
    let last = seq![LayerStep::FinalNorm { rows: schedule.capacity }, LayerStep::RoundFinal]
        + head_steps(schedule.head, schedule.hidden, schedule.capacity);
    assert(schedule.steps() =~= head + body + last);
    lemma_buffers_add(start, head + body, last);
    lemma_buffers_add(start, head, body);
    lemma_layers_buffers(
        pass,
        schedule.kinds@,
        schedule.graphs,
        *schedule.capture,
        schedule.trace,
        layers,
        buffers(start, head),
    );
    lemma_kept(buffers(start, head + body), last);
}

impl LayerPass {
    /// Whether a step belongs to a pass over layers of given kinds: it names a layer of the kind
    /// that it is for, and has the rows of the pass.
    pub open spec fn holds(self, kinds: Seq<QwenLayerKind>, step: LayerStep) -> bool {
        match step {
            LayerStep::InputNorm { layer, rows } => layer < kinds.len() && rows == self.rows,
            LayerStep::LinearPrefill {
                layer,
                sequences,
                rows,
                serial_projections,
                serial_recurrence,
            } => {
                &&& layer < kinds.len() && kinds[layer as int] == QwenLayerKind::LinearAttention
                &&& !self.decode && rows == self.rows && sequences == self.sequences
                &&& serial_projections == self.serial_projections
                &&& serial_recurrence == self.serial_recurrence
            },
            LayerStep::LinearDecode { layer, rows } => {
                &&& layer < kinds.len() && kinds[layer as int] == QwenLayerKind::LinearAttention
                &&& self.decode && rows == self.rows
            },
            LayerStep::AttentionPre { layer, rows } => {
                &&& layer < kinds.len() && kinds[layer as int] == QwenLayerKind::FullAttention
                &&& rows == self.rows
            },
            LayerStep::PromptCache { layer, serial_rows } => {
                &&& layer < kinds.len() && kinds[layer as int] == QwenLayerKind::FullAttention
                &&& !self.decode && serial_rows == self.serial_rows
            },
            LayerStep::DecodeCache { layer, rows } => {
                &&& layer < kinds.len() && kinds[layer as int] == QwenLayerKind::FullAttention
                &&& self.decode && rows == self.active
            },
            LayerStep::AttentionPost { layer, rows } => {
                &&& layer < kinds.len() && kinds[layer as int] == QwenLayerKind::FullAttention
                &&& rows == self.rows
            },
            LayerStep::Tail { layer, rows, stabilise } => {
                &&& layer < kinds.len()
                &&& rows == self.rows && stabilise == self.stabilise()
            },
            _ => true,
        }
    }
}

/// Whether layers of a kind have this part.
spec fn part_of(kind: QwenLayerKind, part: GraphPart) -> bool {
    match kind {
        QwenLayerKind::LinearAttention => part is Whole,
        QwenLayerKind::FullAttention => !(part is Whole),
    }
}

proof fn lemma_part_step(
    pass: LayerPass,
    kinds: Seq<QwenLayerKind>,
    layer: usize,
    part: GraphPart,
    index: int,
)
    requires
        layer < kinds.len(),
        part_of(kinds[layer as int], part),
        0 <= index < pass.part_steps(layer, part).len(),
    ensures
        pass.holds(kinds, pass.part_steps(layer, part)[index]),
        !(pass.part_steps(layer, part)[index] is PromptCache),
        !(pass.part_steps(layer, part)[index] is DecodeCache),
{
}

proof fn lemma_eager_step(
    pass: LayerPass,
    kinds: Seq<QwenLayerKind>,
    layer: usize,
    index: int,
)
    requires
        layer < kinds.len(),
        0 <= index < pass.eager(layer, kinds[layer as int]).len(),
    ensures
        pass.holds(kinds, pass.eager(layer, kinds[layer as int])[index]),
{
    let steps = pass.eager(layer, kinds[layer as int]);
    match kinds[layer as int] {
        QwenLayerKind::LinearAttention => {
            lemma_part_step(pass, kinds, layer, GraphPart::Whole, index);
        },
        QwenLayerKind::FullAttention => {
            let first = pass.part_steps(layer, GraphPart::PreAttention);
            let last = pass.part_steps(layer, GraphPart::PostAttention);
            if index < first.len() {
                assert(steps[index] == first[index]);
                lemma_part_step(pass, kinds, layer, GraphPart::PreAttention, index);
            } else if index == first.len() {
                assert(steps[index] == pass.cache_step(layer));
            } else {
                assert(steps[index] == last[index - first.len() - 1]);
                lemma_part_step(
                    pass,
                    kinds,
                    layer,
                    GraphPart::PostAttention,
                    index - first.len() - 1,
                );
            }
        },
    }
}

proof fn lemma_replay_step(
    pass: LayerPass,
    kinds: Seq<QwenLayerKind>,
    layer: usize,
    index: int,
)
    requires
        layer < kinds.len(),
        0 <= index < pass.replay(layer, kinds[layer as int]).len(),
    ensures
        pass.holds(kinds, pass.replay(layer, kinds[layer as int])[index]),
{
}

proof fn lemma_later_step(
    pass: LayerPass,
    kinds: Seq<QwenLayerKind>,
    layer: usize,
    capture: Option<DFlash2TargetCapture>,
    trace: bool,
    index: int,
)
    requires
        0 <= index < pass.after_layer(layer, capture, trace).len(),
    ensures
        pass.holds(kinds, pass.after_layer(layer, capture, trace)[index]),
{
}

/// Every step of the layers of a batch belongs to its pass: it names a layer of the kind that it
/// is for, and has the rows of the pass.
pub proof fn law_steps_belong_to_their_layers(
    pass: LayerPass,
    kinds: Seq<QwenLayerKind>,
    graphs: bool,
    capture: Option<DFlash2TargetCapture>,
    trace: bool,
    count: nat,
    index: int,
)
    requires
        count <= kinds.len() <= usize::MAX,
        0 <= index < pass.layer_steps(kinds, graphs, capture, trace, count).len(),
    ensures
        pass.holds(kinds, pass.layer_steps(kinds, graphs, capture, trace, count)[index]),
    decreases count,
{
    if count > 0 {
        let before = pass.layer_steps(kinds, graphs, capture, trace, (count - 1) as nat);
        let layer = (count - 1) as usize;
        let body = if graphs {
            pass.replay(layer, kinds[count - 1])
        } else {
            pass.eager(layer, kinds[count - 1])
        };
        let after = pass.after_layer(layer, capture, trace);
        let at = index - before.len();
        let steps = pass.layer_steps(kinds, graphs, capture, trace, count);
        if index < before.len() {
            law_steps_belong_to_their_layers(
                pass,
                kinds,
                graphs,
                capture,
                trace,
                (count - 1) as nat,
                index,
            );
        } else if at < body.len() {
            assert(steps[index] == body[at]);
            if graphs {
                lemma_replay_step(pass, kinds, layer, at);
            } else {
                lemma_eager_step(pass, kinds, layer, at);
            }
        } else {
            assert(steps[index] == after[at - body.len()]);
            lemma_later_step(pass, kinds, layer, capture, trace, at - body.len());
        }
    }
}

proof fn lemma_recorded_step(
    pass: LayerPass,
    kinds: Seq<QwenLayerKind>,
    layer: usize,
    part: GraphPart,
    index: int,
)
    requires
        layer < kinds.len(),
        part_of(kinds[layer as int], part),
        0 <= index < pass.capture_part(layer, part).len(),
    ensures
        pass.holds(kinds, pass.capture_part(layer, part)[index]),
        !(pass.capture_part(layer, part)[index] is PromptCache),
        !(pass.capture_part(layer, part)[index] is DecodeCache),
{
    let inner = pass.part_steps(layer, part);
    if 0 < index <= inner.len() {
        assert(pass.capture_part(layer, part)[index] == inner[index - 1]);
        lemma_part_step(pass, kinds, layer, part, index - 1);
    }
}

/// Every step of a capture belongs to its pass too, and none of them reads the cache.
pub proof fn law_captured_steps_belong_to_their_layers(
    pass: LayerPass,
    kinds: Seq<QwenLayerKind>,
    count: nat,
    index: int,
)
    requires
        count <= kinds.len() <= usize::MAX,
        0 <= index < pass.capture_steps(kinds, count).len(),
    ensures
        pass.holds(kinds, pass.capture_steps(kinds, count)[index]),
        !(pass.capture_steps(kinds, count)[index] is PromptCache),
        !(pass.capture_steps(kinds, count)[index] is DecodeCache),
    decreases count,
{
    if count > 0 {
        let before = pass.capture_steps(kinds, (count - 1) as nat);
        let layer = (count - 1) as usize;
        let inner = pass.capture_layer(layer, kinds[count - 1]);
        let at = index - before.len();
        if index < before.len() {
            law_captured_steps_belong_to_their_layers(pass, kinds, (count - 1) as nat, index);
        } else if at < inner.len() {
            assert(pass.capture_steps(kinds, count)[index] == inner[at]);
            match kinds[count - 1] {
                QwenLayerKind::LinearAttention => {
                    lemma_recorded_step(pass, kinds, layer, GraphPart::Whole, at);
                },
                QwenLayerKind::FullAttention => {
                    let first = pass.capture_part(layer, GraphPart::PreAttention);
                    if at < first.len() {
                        assert(inner[at] == first[at]);
                        lemma_recorded_step(pass, kinds, layer, GraphPart::PreAttention, at);
                    } else {
                        let rest = at - first.len();
                        assert(inner[at] == pass.capture_part(
                            layer,
                            GraphPart::PostAttention,
                        )[rest]);
                        lemma_recorded_step(pass, kinds, layer, GraphPart::PostAttention, rest);
                    }
                },
            }
        }
    }
}

} // verus!
