//! What the steps of a batch leave in its buffers.

use crate::manifest::QwenLayerKind;
use crate::qwen36::capture::DFlash2TargetCapture;
use crate::qwen36::linear::{BatchFp8InputQuantization, Linear, Storage};
use crate::qwen36::schedule::{
    DecodeSchedule, GraphPart, LayerPass, LayerStep, PrefillSchedule,
};
use vstd::prelude::*;

verus! {

/// What a residual buffer holds: the embedded rows, and every layer that was applied to them.
pub enum Rows {
    /// Nothing of this batch.
    Unset,
    /// The embeddings.
    Embedded,
    /// Behind a layer that was computed from these very rows.
    After(Box<Rows>, int),
}

/// Rows behind the first `count` layers, each applied once and in order.
pub open spec fn layered(count: nat) -> Rows
    decreases count,
{
    if count == 0 {
        Rows::Embedded
    } else {
        Rows::After(Box::new(layered((count - 1) as nat)), count - 1)
    }
}

/// What a batch is about.
pub struct BatchFrame {
    /// How its layers run.
    pub pass: LayerPass,
    /// Attention kind of each layer.
    pub kinds: Seq<QwenLayerKind>,
    /// Whether graphs of this very shape were recorded.
    pub recorded: bool,
    /// Layers that a draft model reads.
    pub capture: Option<DFlash2TargetCapture>,
    /// Width of the residual stream.
    pub hidden: usize,
    /// Head.
    pub head: Linear,
}

/// Buffers of a batch.
pub struct BatchDevice {
    /// Every step so far found its inputs ready, belongs to the layer at hand, and took all
    /// rows.
    pub sound: bool,
    /// Residual stream.
    pub stream: Rows,
    /// Output of the feed-forward block.
    pub output: Rows,
    /// Whether that output awaits the exchange.
    pub pending: bool,
    /// Layer whose input is normalised.
    pub normed: Option<int>,
    /// Layer whose queries, keys and values are ready.
    pub rotated: Option<int>,
    /// Layer whose rows were cached and attended from.
    pub cached: Option<int>,
    /// Layer whose attention output is complete.
    pub attended: Option<int>,
    /// Layers that were captured, each with its place.
    pub captured: Seq<(int, int)>,
    /// Layers that were traced.
    pub traced: Seq<int>,
    /// Rows that were normalised for the head.
    pub normalised: Option<Rows>,
    /// Whether they were rounded.
    pub rounded: bool,
    /// How they were quantised.
    pub form: BatchFp8InputQuantization,
    /// Logits.
    pub logits: bool,
}

/// Buffers before the first step of a batch.
pub open spec fn idle() -> BatchDevice {
    BatchDevice {
        sound: true,
        stream: Rows::Unset,
        output: Rows::Unset,
        pending: false,
        normed: None,
        rotated: None,
        cached: None,
        attended: None,
        captured: Seq::empty(),
        traced: Seq::empty(),
        normalised: None,
        rounded: false,
        form: BatchFp8InputQuantization::Unused,
        logits: false,
    }
}

impl BatchFrame {
    /// Whether a layer has recurrent attention.
    pub open spec fn recurrent(self, layer: int) -> bool {
        0 <= layer < self.kinds.len() && self.kinds[layer] == QwenLayerKind::LinearAttention
    }

    /// Whether a layer has full attention.
    pub open spec fn full(self, layer: int) -> bool {
        0 <= layer < self.kinds.len() && self.kinds[layer] == QwenLayerKind::FullAttention
    }
}

impl BatchDevice {
    /// What a step of a layer leaves.
    pub open spec fn layer(self, frame: BatchFrame, op: LayerStep) -> BatchDevice {
        let pass = frame.pass;
        match op {
            LayerStep::InputNorm { layer, rows } => BatchDevice {
                sound: self.sound && !self.pending && !(self.stream is Unset) && self.normed is None
                    && rows == pass.rows,
                normed: Some(layer as int),
                ..self
            },
            LayerStep::LinearPrefill {
                layer,
                sequences,
                rows,
                serial_projections,
                serial_recurrence,
            } => BatchDevice {
                sound: self.sound && !pass.decode && frame.recurrent(layer as int) && self.normed
                    == Some(layer as int) && rows == pass.rows && sequences == pass.sequences
                    && serial_projections == pass.serial_projections && serial_recurrence
                    == pass.serial_recurrence,
                normed: None,
                attended: Some(layer as int),
                ..self
            },
            LayerStep::LinearDecode { layer, rows } => BatchDevice {
                sound: self.sound && pass.decode && frame.recurrent(layer as int) && self.normed
                    == Some(layer as int) && rows == pass.rows,
                normed: None,
                attended: Some(layer as int),
                ..self
            },
            LayerStep::AttentionPre { layer, rows } => BatchDevice {
                sound: self.sound && frame.full(layer as int) && self.normed == Some(layer as int)
                    && rows == pass.rows,
                normed: None,
                rotated: Some(layer as int),
                ..self
            },
            LayerStep::PromptCache { layer, serial_rows } => BatchDevice {
                sound: self.sound && !pass.decode && self.rotated == Some(layer as int)
                    && serial_rows == pass.serial_rows,
                rotated: None,
                cached: Some(layer as int),
                ..self
            },
            LayerStep::DecodeCache { layer, rows } => BatchDevice {
                sound: self.sound && pass.decode && self.rotated == Some(layer as int) && rows
                    == pass.active,
                rotated: None,
                cached: Some(layer as int),
                ..self
            },
            LayerStep::AttentionPost { layer, rows } => BatchDevice {
                sound: self.sound && self.cached == Some(layer as int) && rows == pass.rows,
                cached: None,
                attended: Some(layer as int),
                ..self
            },
            LayerStep::Tail { layer, rows, stabilise } => BatchDevice {
                sound: self.sound && !self.pending && self.attended == Some(layer as int) && rows
                    == pass.rows && stabilise == (pass.decode || pass.serial_projections),
                attended: None,
                output: Rows::After(Box::new(self.stream), layer as int),
                pending: true,
                ..self
            },
            _ => self,
        }
    }

    /// Whether the stream holds the output of a layer.
    pub open spec fn behind(self, layer: int) -> bool {
        self.stream matches Rows::After(_, at) && at == layer && !self.pending
    }

    /// What a step outside the layers leaves.
    pub open spec fn around(self, frame: BatchFrame, op: LayerStep) -> BatchDevice {
        let pass = frame.pass;
        match op {
            LayerStep::Gather { rows } => BatchDevice {
                sound: self.sound && self.stream is Unset && rows == pass.active,
                stream: Rows::Embedded,
                ..self
            },
            LayerStep::Swap => BatchDevice {
                stream: self.output,
                output: self.stream,
                pending: false,
                ..self
            },
            LayerStep::Capture { layer, tap, rows } => BatchDevice {
                sound: self.sound && self.behind(layer as int) && rows == pass.active
                    && frame.capture is Some && tap < frame.capture->0.layers@.len()
                    && frame.capture->0.layers@[tap as int] == layer,
                captured: self.captured.push((layer as int, tap as int)),
                ..self
            },
            LayerStep::Trace { layer, rows } => BatchDevice {
                sound: self.sound && self.behind(layer as int) && rows == pass.active,
                traced: self.traced.push(layer as int),
                ..self
            },
            LayerStep::FinalNorm { rows } => BatchDevice {
                sound: self.sound && !self.pending && self.normalised is None && rows
                    == pass.rows,
                normalised: Some(self.stream),
                ..self
            },
            LayerStep::RoundFinal => BatchDevice {
                sound: self.sound && self.normalised is Some && !self.rounded,
                rounded: true,
                ..self
            },
            LayerStep::HeadQuantize { rows, cols, mode } => BatchDevice {
                sound: self.sound && self.rounded && self.form is Unused && rows == pass.rows
                    && cols == frame.hidden,
                form: mode,
                ..self
            },
            LayerStep::Head { storage, rows, mode } => BatchDevice {
                sound: self.sound && self.rounded && !self.logits && storage == frame.head.storage
                    && rows == pass.rows && mode == self.form
                    && crate::qwen36::attention_flow::takes(frame.head, mode),
                logits: true,
                ..self
            },
            LayerStep::Synchronize => self,
            _ => BatchDevice { sound: false, ..self },
        }
    }

    /// What one step other than the launch of a graph leaves.
    pub open spec fn performed(self, frame: BatchFrame, op: LayerStep) -> BatchDevice {
        if op is InputNorm || op is LinearPrefill || op is LinearDecode || op is AttentionPre
            || op is PromptCache || op is DecodeCache || op is AttentionPost || op is Tail {
            self.layer(frame, op)
        } else {
            self.around(frame, op)
        }
    }

    /// What one step leaves. A graph performs what was recorded into it.
    pub open spec fn launched(self, frame: BatchFrame, op: LayerStep) -> BatchDevice {
        match op {
            LayerStep::Launch { layer, part } => {
                let next = crate::device::after(
                    plain_step(frame),
                    self,
                    frame.pass.part_steps(layer, part),
                );
                BatchDevice { sound: next.sound && frame.recorded, ..next }
            },
            _ => self.performed(frame, op),
        }
    }
}

/// What steps do that launch no graph.
pub open spec fn plain_step(frame: BatchFrame) -> spec_fn(BatchDevice, LayerStep) -> BatchDevice {
    |device: BatchDevice, op: LayerStep| device.performed(frame, op)
}

/// What the steps of a batch do.
pub open spec fn batch_step(frame: BatchFrame) -> spec_fn(BatchDevice, LayerStep) -> BatchDevice {
    |device: BatchDevice, op: LayerStep| device.launched(frame, op)
}

/// Whether a batch stands between two layers.
pub open spec fn resting(device: BatchDevice) -> bool {
    &&& device.sound
    &&& !(device.stream is Unset)
    &&& !device.pending
    &&& device.normed is None && device.rotated is None && device.cached is None
    &&& device.attended is None
}

/// What the layer itself leaves: its output, which awaits the exchange.
spec fn layer_done(before: BatchDevice, layer: int) -> BatchDevice {
    BatchDevice {
        output: Rows::After(Box::new(before.stream), layer),
        pending: true,
        ..before
    }
}

#[verifier::rlimit(40)]
proof fn lemma_whole(frame: BatchFrame, before: BatchDevice, layer: usize)
    requires
        resting(before),
        frame.recurrent(layer as int),
    ensures
        crate::device::after(
            plain_step(frame),
            before,
            frame.pass.part_steps(layer, GraphPart::Whole),
        ) == layer_done(before, layer as int),
        crate::device::after(
            batch_step(frame),
            before,
            frame.pass.part_steps(layer, GraphPart::Whole),
        ) == layer_done(before, layer as int),
{
    let ops = frame.pass.part_steps(layer, GraphPart::Whole);
    crate::device::lemma_after_three(plain_step(frame), before, ops);
    crate::device::lemma_after_three(batch_step(frame), before, ops);
    let d1 = before.performed(frame, ops[0]);
    assert(d1 == BatchDevice { normed: Some(layer as int), ..before });
    let d2 = d1.performed(frame, ops[1]);
    assert(d2 == BatchDevice { attended: Some(layer as int), ..before });
    let d3 = d2.performed(frame, ops[2]);
    assert(d3 == layer_done(before, layer as int));
}

#[verifier::rlimit(40)]
proof fn lemma_parts(frame: BatchFrame, before: BatchDevice, layer: usize)
    requires
        resting(before),
        frame.full(layer as int),
    ensures
        ({
            let pre = frame.pass.part_steps(layer, GraphPart::PreAttention);
            let post = frame.pass.part_steps(layer, GraphPart::PostAttention);
            let rotated = BatchDevice { rotated: Some(layer as int), ..before };
            let cached = BatchDevice { cached: Some(layer as int), ..before };
            &&& crate::device::after(plain_step(frame), before, pre) == rotated
            &&& crate::device::after(batch_step(frame), before, pre) == rotated
            &&& rotated.launched(frame, frame.pass.cache_step(layer)) == cached
            &&& crate::device::after(plain_step(frame), cached, post) == layer_done(
                before,
                layer as int,
            )
            &&& crate::device::after(batch_step(frame), cached, post) == layer_done(
                before,
                layer as int,
            )
        }),
{
    let pre = frame.pass.part_steps(layer, GraphPart::PreAttention);
    let post = frame.pass.part_steps(layer, GraphPart::PostAttention);
    let cached = BatchDevice { cached: Some(layer as int), ..before };
    crate::device::lemma_after_two(plain_step(frame), before, pre);
    crate::device::lemma_after_two(batch_step(frame), before, pre);
    crate::device::lemma_after_two(plain_step(frame), cached, post);
    crate::device::lemma_after_two(batch_step(frame), cached, post);
    let d1 = before.performed(frame, pre[0]);
    assert(d1 == BatchDevice { normed: Some(layer as int), ..before });
    let d2 = d1.performed(frame, pre[1]);
    assert(d2 == BatchDevice { rotated: Some(layer as int), ..before });
    let d3 = cached.performed(frame, post[0]);
    assert(d3 == BatchDevice { attended: Some(layer as int), ..before });
    let d4 = d3.performed(frame, post[1]);
    assert(d4 == layer_done(before, layer as int));
}

#[verifier::rlimit(40)]
proof fn lemma_layer(frame: BatchFrame, before: BatchDevice, layer: usize, graphs: bool)
    requires
        resting(before),
        layer < frame.kinds.len(),
        graphs ==> frame.recorded,
    ensures
        ({
            let kind = frame.kinds[layer as int];
            let steps = if graphs {
                frame.pass.replay(layer, kind)
            } else {
                frame.pass.eager(layer, kind)
            };
            crate::device::after(batch_step(frame), before, steps) == layer_done(
                before,
                layer as int,
            )
        }),
{
    let step = batch_step(frame);
    let kind = frame.kinds[layer as int];
    let replay = frame.pass.replay(layer, kind);
    match kind {
        QwenLayerKind::LinearAttention => {
            lemma_whole(frame, before, layer);
            crate::device::lemma_after_one(step, before, replay);
        },
        QwenLayerKind::FullAttention => {
            lemma_parts(frame, before, layer);
            let pre = frame.pass.part_steps(layer, GraphPart::PreAttention);
            let cache = seq![frame.pass.cache_step(layer)];
            let post = frame.pass.part_steps(layer, GraphPart::PostAttention);
            let rotated = BatchDevice { rotated: Some(layer as int), ..before };
            crate::device::lemma_after_both(step, before, pre + cache, post);
            crate::device::lemma_after_both(step, before, pre, cache);
            crate::device::lemma_after_one(step, rotated, cache);
            crate::device::lemma_after_three(step, before, replay);
            let cached = BatchDevice { cached: Some(layer as int), ..before };
            if graphs {
                assert(step(before, replay[0]) == rotated);
                assert(step(rotated, replay[1]) == cached);
                assert(step(cached, replay[2]) == layer_done(before, layer as int));
            }
        },
    }
}

/// Place of a layer among the captured ones, if it is one.
pub open spec fn layer_taps(capture: Option<DFlash2TargetCapture>, layer: int) -> Seq<(int, int)> {
    match capture {
        Some(capture) => if capture.layers@.contains(layer as usize) {
            seq![(layer, capture.layers@.index_of(layer as usize))]
        } else {
            seq![]
        },
        None => seq![],
    }
}

/// Captures among the first `count` layers: each layer that the draft model reads, once.
pub open spec fn all_taps(capture: Option<DFlash2TargetCapture>, count: nat) -> Seq<(int, int)>
    decreases count,
{
    if count == 0 {
        seq![]
    } else {
        all_taps(capture, (count - 1) as nat) + layer_taps(capture, count - 1)
    }
}

/// What a layer and what follows it leave.
spec fn block_done(frame: BatchFrame, before: BatchDevice, layer: int, trace: bool) -> BatchDevice {
    BatchDevice {
        stream: Rows::After(Box::new(before.stream), layer),
        output: before.stream,
        captured: before.captured + layer_taps(frame.capture, layer),
        traced: before.traced + if trace {
            seq![layer]
        } else {
            seq![]
        },
        ..before
    }
}

#[verifier::rlimit(40)]
proof fn lemma_after_layer(frame: BatchFrame, before: BatchDevice, layer: usize, trace: bool)
    requires
        resting(before),
        frame.capture matches Some(capture) ==> capture.layers@.len() <= usize::MAX,
    ensures
        crate::device::after(
            batch_step(frame),
            layer_done(before, layer as int),
            frame.pass.after_layer(layer, frame.capture, trace),
        ) == block_done(frame, before, layer as int, trace),
{
    let step = batch_step(frame);
    let start = layer_done(before, layer as int);
    let ops = frame.pass.after_layer(layer, frame.capture, trace);
    let d1 = step(start, LayerStep::Swap);
    assert(d1 == BatchDevice {
        stream: Rows::After(Box::new(before.stream), layer as int),
        output: before.stream,
        ..before
    });
    let taps = layer_taps(frame.capture, layer as int);
    assert(before.captured =~= before.captured + Seq::<(int, int)>::empty());
    assert(before.traced =~= before.traced + Seq::<int>::empty());
    assert(before.traced.push(layer as int) =~= before.traced + seq![layer as int]);
    if taps.len() == 1 {
        let layers = frame.capture->0.layers@;
        let tap = layers.index_of(layer);
        assert(0 <= tap < layers.len() && layers[tap] == layer) by {
            let i = choose|i: int| 0 <= i < layers.len() && layers[i] == layer;
            assert(layers[i] == layer);
        }
        assert(before.captured.push((layer as int, tap)) =~= before.captured + taps);
        if trace {
            crate::device::lemma_after_three(step, start, ops);
            let d2 = step(d1, ops[1]);
            assert(d2 == BatchDevice { captured: before.captured + taps, ..d1 });
        } else {
            crate::device::lemma_after_two(step, start, ops);
        }
    } else if trace {
        crate::device::lemma_after_two(step, start, ops);
    } else {
        crate::device::lemma_after_one(step, start, ops);
    }
}

/// What the first `count` layers leave.
spec fn layers_done(
    frame: BatchFrame,
    before: BatchDevice,
    count: nat,
    trace: bool,
) -> BatchDevice {
    BatchDevice {
        stream: layered(count),
        output: if count == 0 {
            before.output
        } else {
            layered((count - 1) as nat)
        },
        captured: all_taps(frame.capture, count),
        traced: if trace {
            Seq::new(count, |layer: int| layer)
        } else {
            Seq::empty()
        },
        ..before
    }
}

#[verifier::rlimit(40)]
proof fn lemma_layers(
    frame: BatchFrame,
    before: BatchDevice,
    graphs: bool,
    trace: bool,
    count: nat,
)
    requires
        resting(before),
        before.stream == Rows::Embedded,
        before.captured.len() == 0 && before.traced.len() == 0,
        count <= frame.kinds.len() <= usize::MAX,
        graphs ==> frame.recorded,
        frame.capture matches Some(capture) ==> capture.layers@.len() <= usize::MAX,
    ensures
        crate::device::after(
            batch_step(frame),
            before,
            frame.pass.layer_steps(frame.kinds, graphs, frame.capture, trace, count),
        ) == layers_done(frame, before, count, trace),
    decreases count,
{
    let step = batch_step(frame);
    if count == 0 {
        assert(before.captured =~= all_taps(frame.capture, 0));
        assert(before.traced =~= Seq::<int>::empty());
        assert(before.traced =~= Seq::new(0, |layer: int| layer));
    } else {
        let fewer = (count - 1) as nat;
        let layer = (count - 1) as usize;
        lemma_layers(frame, before, graphs, trace, fewer);
        let earlier = frame.pass.layer_steps(frame.kinds, graphs, frame.capture, trace, fewer);
        let kind = frame.kinds[count - 1];
        let steps = if graphs {
            frame.pass.replay(layer, kind)
        } else {
            frame.pass.eager(layer, kind)
        };
        let rest = frame.pass.after_layer(layer, frame.capture, trace);
        crate::device::lemma_after_both(step, before, earlier, steps + rest);
        let d1 = layers_done(frame, before, fewer, trace);
        crate::device::lemma_after_both(step, d1, steps, rest);
        lemma_layer(frame, d1, layer, graphs);
        lemma_after_layer(frame, d1, layer, trace);
        let done = block_done(frame, d1, layer as int, trace);
        if trace {
            assert(done.traced =~= Seq::new(count, |l: int| l));
        } else {
            assert(done.traced =~= Seq::<int>::empty());
        }
    }
}

/// What a prompt batch is about.
pub open spec fn prompt_frame(schedule: PrefillSchedule, head: Linear, hidden: usize) -> BatchFrame {
    BatchFrame {
        pass: LayerPass {
            decode: false,
            rows: schedule.total,
            active: schedule.total,
            sequences: schedule.sequences,
            serial_projections: schedule.serial_projections,
            serial_recurrence: schedule.serial_recurrence,
            serial_rows: schedule.serial_rows,
        },
        kinds: schedule.kinds@,
        recorded: schedule.graphs && schedule.total == schedule.token_capacity
            && schedule.sequences == 1,
        capture: *schedule.capture,
        hidden,
        head,
    }
}

/// A prompt batch runs as a whole: every layer takes all rows of the layer before it through its
/// own attention and its own feed-forward block, in graphs that were recorded for its very shape
/// or without. The rows of each layer that a draft model reads are captured behind that layer.
/// The last layer's rows end in the buffer that is read behind the batch.
#[verifier::rlimit(40)]
pub proof fn law_prompt_batch_runs(schedule: PrefillSchedule, head: Linear, hidden: usize)
    requires
        schedule.kinds@.len() <= usize::MAX,
        *schedule.capture matches Some(capture) ==> capture.layers@.len() <= usize::MAX,
    ensures
        ({
            let frame = prompt_frame(schedule, head, hidden);
            let layers = schedule.kinds@.len();
            let device = crate::device::after(batch_step(frame), idle(), schedule.steps());
            &&& device.sound
            &&& layers % 2 == 0 ==> device.stream == layered(layers)
            &&& layers % 2 != 0 ==> device.output == layered(layers)
            &&& device.captured == all_taps(*schedule.capture, layers)
        }),
{
    let frame = prompt_frame(schedule, head, hidden);
    let step = batch_step(frame);
    let layers = schedule.kinds@.len();
    assert(schedule.pass() == frame.pass);
    let gather = seq![LayerStep::Gather { rows: schedule.total }];
    let body = frame.pass.layer_steps(
        schedule.kinds@,
        schedule.replays(),
        *schedule.capture,
        false,
        layers,
    );
    let order = crate::qwen36::schedule::restore_order(layers);
    let last = seq![LayerStep::Synchronize];
    crate::device::lemma_after_both(step, idle(), gather + body + order, last);
    crate::device::lemma_after_both(step, idle(), gather + body, order);
    crate::device::lemma_after_both(step, idle(), gather, body);
    crate::device::lemma_after_one(step, idle(), gather);
    let d1 = crate::device::after(step, idle(), gather);
    assert(d1 == BatchDevice { stream: Rows::Embedded, ..idle() });
    lemma_layers(frame, d1, schedule.replays(), false, layers);
    let d2 = layers_done(frame, d1, layers, false);
    let d3 = crate::device::after(step, d2, order);
    if layers % 2 != 0 {
        crate::device::lemma_after_one(step, d2, order);
    }
    crate::device::lemma_after_one(step, d3, last);
}

/// What a decode batch is about: rows of one token each, padding included.
pub open spec fn decode_frame(schedule: DecodeSchedule) -> BatchFrame {
    BatchFrame {
        pass: LayerPass {
            decode: true,
            rows: schedule.capacity,
            active: schedule.active,
            sequences: schedule.active,
            serial_projections: false,
            serial_recurrence: false,
            serial_rows: false,
        },
        kinds: schedule.kinds@,
        recorded: schedule.graphs,
        capture: *schedule.capture,
        hidden: schedule.hidden,
        head: schedule.head,
    }
}

/// A decode batch runs as a whole: every layer takes the rows of the layer before it through its
/// own attention and its own feed-forward block, the layers that a draft model reads are captured
/// and, where asked for, every layer is traced; the head works on the rounded rows of the last
/// layer, in a form that its weights take.
#[verifier::rlimit(40)]
pub proof fn law_decode_batch_runs(schedule: DecodeSchedule)
    requires
        schedule.kinds@.len() <= usize::MAX,
        *schedule.capture matches Some(capture) ==> capture.layers@.len() <= usize::MAX,
    ensures
        ({
            let frame = decode_frame(schedule);
            let layers = schedule.kinds@.len();
            let device = crate::device::after(batch_step(frame), idle(), schedule.steps());
            &&& device.sound
            &&& device.logits
            &&& device.normalised == Some(layered(layers))
            &&& device.captured == all_taps(*schedule.capture, layers)
            &&& device.traced == if schedule.trace {
                Seq::new(layers, |layer: int| layer)
            } else {
                Seq::empty()
            }
        }),
{
    let frame = decode_frame(schedule);
    let step = batch_step(frame);
    let layers = schedule.kinds@.len();
    let pass = crate::qwen36::schedule::decode_pass(schedule.capacity, schedule.active);
    assert(pass == frame.pass);
    let gather = seq![LayerStep::Gather { rows: schedule.active }];
    let body = frame.pass.layer_steps(
        schedule.kinds@,
        schedule.graphs,
        *schedule.capture,
        schedule.trace,
        layers,
    );
    let norm = seq![LayerStep::FinalNorm { rows: schedule.capacity }, LayerStep::RoundFinal];
    let head = crate::qwen36::schedule::head_steps(
        schedule.head,
        schedule.hidden,
        schedule.capacity,
    );
    crate::device::lemma_after_both(step, idle(), gather + body + norm, head);
    crate::device::lemma_after_both(step, idle(), gather + body, norm);
    crate::device::lemma_after_both(step, idle(), gather, body);
    crate::device::lemma_after_one(step, idle(), gather);
    let d1 = crate::device::after(step, idle(), gather);
    assert(d1 == BatchDevice { stream: Rows::Embedded, ..idle() });
    lemma_layers(frame, d1, schedule.graphs, schedule.trace, layers);
    let d2 = layers_done(frame, d1, layers, schedule.trace);
    crate::device::lemma_after_two(step, d2, norm);
    let d3 = crate::device::after(step, d2, norm);
    assert(d3 == BatchDevice { normalised: Some(layered(layers)), rounded: true, ..d2 });
    if schedule.head.storage == Storage::Fp8 {
        let linears = seq![schedule.head];
        crate::qwen36::linear::law_prepared_activation_fits(linears, schedule.capacity, 0);
        crate::device::lemma_after_two(step, d3, head);
        let d4 = step(d3, head[0]);
        assert(d4 == BatchDevice { form: d4.form, ..d3 });
    } else {
        crate::device::lemma_after_one(step, d3, head);
    }
}

} // verus!
