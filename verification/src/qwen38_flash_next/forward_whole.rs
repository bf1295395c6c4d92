//! Whole forward passes: from the uploaded tokens to the result of the head.

use crate::qwen38_flash_next::forward::{
    DecodePass, ForwardOp, HyperRows, PrefillPass, Qwen38LayerProbeStage, Qwen38LogitsMode,
    Sublayer,
};
use crate::qwen38_flash_next::forward_flow::{ForwardDevice, ForwardFrame, HeadResult, Streams};
use vstd::prelude::*;

verus! {

/// Recurrent layers among the first `count`, in order.
pub open spec fn recurrent_layers(frame: ForwardFrame, count: nat) -> Seq<int>
    decreases count,
{
    if count == 0 {
        seq![]
    } else {
        let before = recurrent_layers(frame, (count - 1) as nat);
        if frame.recurrent(count - 1) {
            before.push(count - 1)
        } else {
            before
        }
    }
}

#[verifier::rlimit(40)]
proof fn lemma_recurrent_layers(frame: ForwardFrame, count: nat)
    requires
        count <= frame.kinds.len(),
    ensures
        forall|layer: int|
            0 <= layer < count && frame.recurrent(layer) ==> #[trigger] recurrent_layers(
                frame,
                count,
            ).contains(layer),
    decreases count,
{
    if count > 0 {
        let before = recurrent_layers(frame, (count - 1) as nat);
        let all = recurrent_layers(frame, count);
        lemma_recurrent_layers(frame, (count - 1) as nat);
        assert forall|layer: int| 0 <= layer < count && frame.recurrent(layer) implies #[trigger] all.contains(
        layer) by {
            if layer == count - 1 {
                assert(all[all.len() - 1] == layer);
            } else {
                assert(before.contains(layer));
                let i = choose|i: int| 0 <= i < before.len() && before[i] == layer;
                assert(all[i] == layer);
            }
        }
    }
}

#[verifier::rlimit(40)]
proof fn lemma_bindings(pass: PrefillPass, before: ForwardDevice, count: nat)
    requires
        pass.fits(),
        pass.plannable(),
        count <= pass.topology.weights@.len(),
        before.sound,
        before.binding,
        before.bound.len() == 0,
    ensures
        crate::device::after(
            crate::qwen38_flash_next::forward_flow::pass_step(
                crate::qwen38_flash_next::forward_runs::prefill_frame(pass),
            ),
            before,
            pass.bind_ops(count),
        ) == (ForwardDevice {
            bound: recurrent_layers(
                crate::qwen38_flash_next::forward_runs::prefill_frame(pass),
                count,
            ),
            ..before
        }),
    decreases count,
{
    let frame = crate::qwen38_flash_next::forward_runs::prefill_frame(pass);
    let step = crate::qwen38_flash_next::forward_flow::pass_step(frame);
    if count == 0 {
        assert(before.bound =~= recurrent_layers(frame, 0));
    } else {
        let fewer = (count - 1) as nat;
        lemma_bindings(pass, before, fewer);
        let earlier = pass.bind_ops(fewer);
        let all = pass.bind_ops(count);
        let last = all.subrange(earlier.len() as int, all.len() as int);
        assert(all =~= earlier + last);
        crate::device::lemma_after_both(step, before, earlier, last);
        assert(pass.topology.agrees(count - 1));
        if frame.recurrent(count - 1) {
            crate::device::lemma_after_one(step, crate::device::after(step, before, earlier), last);
        }
    }
}

/// What the operations before the first layer leave.
spec fn prompt_ready(pass: PrefillPass) -> ForwardDevice {
    let frame = crate::qwen38_flash_next::forward_runs::prefill_frame(pass);
    ForwardDevice {
        tokens: true,
        embeddings: true,
        streams: Streams::Embedded,
        published: true,
        bound: recurrent_layers(frame, pass.topology.weights@.len()),
        ..crate::qwen38_flash_next::forward_flow::idle()
    }
}

#[verifier::rlimit(40)]
proof fn lemma_prefill_entry(pass: PrefillPass)
    requires
        pass.fits(),
        pass.plannable(),
    ensures
        crate::device::after(
            crate::qwen38_flash_next::forward_flow::pass_step(
                crate::qwen38_flash_next::forward_runs::prefill_frame(pass),
            ),
            crate::qwen38_flash_next::forward_flow::idle(),
            pass.entry_ops(),
        ) == prompt_ready(pass),
{
    let frame = crate::qwen38_flash_next::forward_runs::prefill_frame(pass);
    let step = crate::qwen38_flash_next::forward_flow::pass_step(frame);
    let idle = crate::qwen38_flash_next::forward_flow::idle();
    let ops = pass.entry_ops();
    let clear = if pass.paths.traced {
        seq![ForwardOp::ClearTrace]
    } else {
        seq![]
    };
    let bind = pass.bind_ops(pass.topology.states@.len());
    let upload = ops.subrange(clear.len() as int, clear.len() as int + 4);
    let finish = seq![ForwardOp::FinishGdn];
    assert(ops =~= clear + upload + bind + finish);
    crate::device::lemma_after_both(step, idle, clear + upload + bind, finish);
    crate::device::lemma_after_both(step, idle, clear + upload, bind);
    crate::device::lemma_after_both(step, idle, clear, upload);
    let d0 = crate::device::after(step, idle, clear);
    assert(d0 == idle) by {
        if pass.paths.traced {
            crate::device::lemma_after_one(step, idle, clear);
            assert(Seq::<(usize, Qwen38LayerProbeStage)>::empty() =~= idle.trace);
        }
    }
    crate::device::lemma_after_four(step, d0, upload);
    let d1 = step(d0, upload[0]);
    assert(d1 == ForwardDevice { tokens: true, ..idle });
    let d2 = step(d1, upload[1]);
    assert(d2 == ForwardDevice { embeddings: true, ..d1 });
    let d3 = step(d2, upload[2]);
    assert(d3 == ForwardDevice { streams: Streams::Embedded, ..d2 });
    let d4 = step(d3, upload[3]);
    assert(d4 == ForwardDevice { binding: true, ..d3 });
    lemma_bindings(pass, d4, pass.topology.weights@.len());
    let d5 = crate::device::after(step, d4, bind);
    crate::device::lemma_after_one(step, d5, finish);
}

/// What the vocabulary head leaves of some streams.
pub open spec fn head_done(
    before: ForwardDevice,
    logits: Qwen38LogitsMode,
    streams: Streams,
) -> ForwardDevice {
    match logits {
        Qwen38LogitsMode::Skip => before,
        Qwen38LogitsMode::Top1 => ForwardDevice {
            collapsed: Some(streams),
            head: HeadResult::Token,
            ..before
        },
        Qwen38LogitsMode::Full => ForwardDevice {
            collapsed: Some(streams),
            head: HeadResult::Logits,
            ..before
        },
    }
}

#[verifier::rlimit(40)]
proof fn lemma_head(
    frame: ForwardFrame,
    before: ForwardDevice,
    logits: Qwen38LogitsMode,
    streams: Streams,
)
    requires
        before.sound,
        before.update is None,
        before.mixed is None,
        before.head is Nothing,
        if frame.decode {
            before.streams == streams
        } else {
            before.frontier == Some(streams)
        },
    ensures
        crate::device::after(
            crate::qwen38_flash_next::forward_flow::pass_step(frame),
            before,
            crate::qwen38_flash_next::forward::head_ops(logits, frame.shape.hidden),
        ) == head_done(before, logits, streams),
{
    let step = crate::qwen38_flash_next::forward_flow::pass_step(frame);
    let ops = crate::qwen38_flash_next::forward::head_ops(logits, frame.shape.hidden);
    if logits is Skip {
        crate::device::lemma_after_one(step, before, ops);
    } else {
        crate::device::lemma_after_three(step, before, ops);
        let d1 = step(before, ops[0]);
        assert(d1 == ForwardDevice { collapsed: Some(streams), ..before });
        let d2 = step(d1, ops[1]);
        assert(d2 == ForwardDevice { head: d2.head, ..d1 });
    }
}

/// A planned prompt pass runs as a whole. Every operation finds its inputs and takes all rows.
/// Each layer forms the input of its own attention from the current streams, computes it on its
/// own path, injects it, and then does the same with its own experts; one layer adds the
/// per-layer embedding first. The streams of the last row are kept, and the head works on them.
#[verifier::rlimit(40)]
pub proof fn law_prompt_pass_runs(pass: PrefillPass)
    requires
        pass.fits(),
        pass.plannable(),
        pass.topology.weights@.len() > 0,
        crate::append::segments_cover(pass.segments@, pass.rows as nat),
    ensures
        ({
            let frame = crate::qwen38_flash_next::forward_runs::prefill_frame(pass);
            let layers = pass.topology.weights@.len();
            let streams = crate::qwen38_flash_next::forward_flow::layered(
                pass.shape.ple_layer as int,
                layers,
            );
            let device = crate::device::after(
                crate::qwen38_flash_next::forward_flow::pass_step(frame),
                crate::qwen38_flash_next::forward_flow::idle(),
                pass.ops(),
            );
            &&& device.sound
            &&& device.streams == streams
            &&& device.frontier == Some(streams)
            &&& device.bound == recurrent_layers(frame, layers)
            &&& device.trace == crate::qwen38_flash_next::forward_runs::pass_trace(frame, layers)
            &&& device.kept_states == crate::qwen38_flash_next::forward_runs::pass_states(
                frame,
                layers,
            )
            &&& device.attached == crate::qwen38_flash_next::forward_runs::pass_attached(
                frame,
                layers,
            )
            &&& match pass.logits {
                Qwen38LogitsMode::Skip => device.head is Nothing,
                Qwen38LogitsMode::Top1 => device.head is Token && device.collapsed == Some(streams),
                Qwen38LogitsMode::Full => device.head is Logits && device.collapsed == Some(
                    streams,
                ),
            }
        }),
{
    let frame = crate::qwen38_flash_next::forward_runs::prefill_frame(pass);
    let step = crate::qwen38_flash_next::forward_flow::pass_step(frame);
    let idle = crate::qwen38_flash_next::forward_flow::idle();
    let layers = pass.topology.weights@.len();
    let entry = pass.entry_ops();
    let body = pass.body_ops(layers);
    let keep = seq![
        ForwardOp::KeepLastRow {
            offset: ((pass.rows - 1) * pass.width()) as usize,
            width: pass.width(),
        },
    ];
    let head = crate::qwen38_flash_next::forward::head_ops(pass.logits, pass.shape.hidden);
    crate::device::lemma_after_both(step, idle, entry + body + keep, head);
    crate::device::lemma_after_both(step, idle, entry + body, keep);
    crate::device::lemma_after_both(step, idle, entry, body);
    lemma_prefill_entry(pass);
    let d1 = prompt_ready(pass);
    lemma_recurrent_layers(frame, layers);
    crate::qwen38_flash_next::forward_runs::lemma_prefill_layers(pass, d1, layers);
    let d2 = crate::qwen38_flash_next::forward_runs::layers_done(frame, d1, layers);
    crate::device::lemma_after_one(step, d2, keep);
    let d3 = crate::device::after(step, d2, keep);
    let width = pass.shape.stream_width();
    let rows = pass.rows as int;
    assert(0 <= width) by (nonlinear_arith)
        requires
            width == pass.shape.hidden * pass.shape.hc_count,
    ;
    assert((rows - 1) * width + width == rows * width && 0 <= (rows - 1) * width)
        by (nonlinear_arith)
        requires
            rows >= 1,
            0 <= width,
    ;
    assert(d3 == ForwardDevice { frontier: Some(d2.streams), ..d2 });
    lemma_head(frame, d3, pass.logits, d2.streams);
}

#[verifier::rlimit(40)]
proof fn lemma_decode_trace(
    pass: DecodePass,
    before: ForwardDevice,
    layer: int,
    stage: Qwen38LayerProbeStage,
)
    requires
        pass.fits(),
        0 <= layer <= usize::MAX,
        before.sound,
        before.update is None,
        before.reached(layer, stage),
    ensures
        ({
            let frame = crate::qwen38_flash_next::forward_runs::decode_frame(pass);
            let after = crate::device::after(
                crate::qwen38_flash_next::forward_flow::pass_step(frame),
                before,
                pass.trace(layer, stage),
            );
            after == (ForwardDevice {
                trace: before.trace + crate::qwen38_flash_next::forward_runs::traced(
                    frame,
                    layer,
                    stage,
                ),
                ..before
            })
        }),
{
    let frame = crate::qwen38_flash_next::forward_runs::decode_frame(pass);
    let step = crate::qwen38_flash_next::forward_flow::pass_step(frame);
    let ops = pass.trace(layer, stage);
    let added = crate::qwen38_flash_next::forward_runs::traced(frame, layer, stage);
    if pass.traced {
        crate::device::lemma_after_one(step, before, ops);
        assert(before.trace.push((layer as usize, stage)) =~= before.trace + added);
    } else {
        assert(before.trace =~= before.trace + added);
    }
}

spec fn decode_ple(pass: DecodePass, layer: int) -> Seq<ForwardOp> {
    if layer == pass.shape.ple_layer {
        seq![ForwardOp::Ple { rows: 1 }, ForwardOp::AddPle, ForwardOp::SwapStreams] + pass.trace(
            layer,
            Qwen38LayerProbeStage::Ple,
        )
    } else {
        seq![]
    }
}

spec fn decode_entered(pass: DecodePass, before: ForwardDevice, layer: int) -> ForwardDevice {
    let frame = crate::qwen38_flash_next::forward_runs::decode_frame(pass);
    ForwardDevice {
        streams: crate::qwen38_flash_next::forward_flow::entered(
            frame.shape.ple_layer as int,
            before.streams,
            layer,
        ),
        trace: before.trace + (if layer == frame.shape.ple_layer {
            crate::qwen38_flash_next::forward_runs::traced(
                frame,
                layer,
                Qwen38LayerProbeStage::Ple,
            )
        } else {
            seq![]
        }),
        ..before
    }
}

#[verifier::rlimit(40)]
proof fn lemma_decode_ple(pass: DecodePass, before: ForwardDevice, layer: int)
    requires
        pass.fits(),
        0 <= layer <= usize::MAX,
        crate::qwen38_flash_next::forward_runs::resting(
            crate::qwen38_flash_next::forward_runs::decode_frame(pass),
            before,
        ),
    ensures
        crate::device::after(
            crate::qwen38_flash_next::forward_flow::pass_step(
                crate::qwen38_flash_next::forward_runs::decode_frame(pass),
            ),
            before,
            decode_ple(pass, layer),
        ) == decode_entered(pass, before, layer),
{
    let frame = crate::qwen38_flash_next::forward_runs::decode_frame(pass);
    let step = crate::qwen38_flash_next::forward_flow::pass_step(frame);
    let ops = decode_ple(pass, layer);
    if layer == frame.shape.ple_layer {
        let entry = pass.trace(layer, Qwen38LayerProbeStage::Ple);
        let first = ops.subrange(0, 3);
        assert(ops =~= first + entry);
        crate::device::lemma_after_both(step, before, first, entry);
        crate::device::lemma_after_three(step, before, first);
        let d1 = step(before, first[0]);
        assert(d1 == ForwardDevice { ple: true, ..before });
        let d2 = step(d1, first[1]);
        assert(d2 == ForwardDevice {
            update: Some(Streams::WithPle(Box::new(before.streams))),
            ..before
        });
        let d3 = step(d2, first[2]);
        lemma_decode_trace(pass, d3, layer, Qwen38LayerProbeStage::Ple);
    } else {
        assert(before.trace =~= before.trace + Seq::<(usize, Qwen38LayerProbeStage)>::empty());
    }
}

spec fn decode_attended(pass: DecodePass, before: ForwardDevice, layer: int) -> ForwardDevice {
    let frame = crate::qwen38_flash_next::forward_runs::decode_frame(pass);
    ForwardDevice {
        streams: Streams::After(
            Box::new(
                crate::qwen38_flash_next::forward_flow::entered(
                    frame.shape.ple_layer as int,
                    before.streams,
                    layer,
                ),
            ),
            layer,
            Sublayer::Attention,
        ),
        trace: before.trace + crate::qwen38_flash_next::forward_runs::attention_trace(
            frame,
            layer,
        ),
        ..before
    }
}

#[verifier::rlimit(40)]
proof fn lemma_decode_attention_half(pass: DecodePass, before: ForwardDevice, layer: int)
    requires
        pass.fits(),
        0 <= layer < pass.topology.weights@.len(),
        pass.obstacle(layer) is None,
        crate::qwen38_flash_next::forward_runs::resting(
            crate::qwen38_flash_next::forward_runs::decode_frame(pass),
            before,
        ),
    ensures
        crate::device::after(
            crate::qwen38_flash_next::forward_flow::pass_step(
                crate::qwen38_flash_next::forward_runs::decode_frame(pass),
            ),
            before,
            pass.attention_half(layer),
        ) == decode_attended(pass, before, layer),
{
    let frame = crate::qwen38_flash_next::forward_runs::decode_frame(pass);
    let step = crate::qwen38_flash_next::forward_flow::pass_step(frame);
    let at = layer as usize;
    let one = HyperRows::Batch(1);
    let ple = decode_ple(pass, layer);
    let sublayer = seq![
        ForwardOp::Mix { layer: at, sublayer: Sublayer::Attention, rows: one },
        pass.attention_op(layer),
        ForwardOp::Combine { layer: at, sublayer: Sublayer::Attention, rows: one },
        ForwardOp::SwapStreams,
    ];
    let entry = pass.trace(layer, Qwen38LayerProbeStage::Attention);
    assert(pass.attention_half(layer) =~= ple + sublayer + entry);
    crate::device::lemma_after_both(step, before, ple + sublayer, entry);
    crate::device::lemma_after_both(step, before, ple, sublayer);
    lemma_decode_ple(pass, before, layer);
    let d0 = decode_entered(pass, before, layer);
    crate::device::lemma_after_four(step, d0, sublayer);
    let d1 = step(d0, sublayer[0]);
    assert(d1 == ForwardDevice { mixed: Some((layer, Sublayer::Attention)), ..d0 });
    let d2 = step(d1, sublayer[1]);
    assert(d2 == ForwardDevice { computed: Some((layer, Sublayer::Attention)), ..d1 });
    let d3 = step(d2, sublayer[2]);
    assert(d3 == ForwardDevice {
        update: Some(Streams::After(Box::new(d0.streams), layer, Sublayer::Attention)),
        ..d0
    });
    let d4 = step(d3, sublayer[3]);
    lemma_decode_trace(pass, d4, layer, Qwen38LayerProbeStage::Attention);
    let d5 = crate::device::after(step, d4, entry);
    assert(d5.trace =~= before.trace + crate::qwen38_flash_next::forward_runs::attention_trace(
        frame,
        layer,
    ));
}

spec fn decode_mlp_front(pass: DecodePass, layer: int) -> Seq<ForwardOp> {
    let at = layer as usize;
    seq![
        ForwardOp::Mix { layer: at, sublayer: Sublayer::Mlp, rows: HyperRows::Batch(1) },
    ] + pass.trace(layer, Qwen38LayerProbeStage::MlpMix) + seq![ForwardOp::MoeToken { layer: at }]
        + pass.trace(layer, Qwen38LayerProbeStage::MlpFfn)
}

spec fn decode_computed(pass: DecodePass, before: ForwardDevice, layer: int) -> ForwardDevice {
    let frame = crate::qwen38_flash_next::forward_runs::decode_frame(pass);
    ForwardDevice {
        mixed: Some((layer, Sublayer::Mlp)),
        computed: Some((layer, Sublayer::Mlp)),
        trace: before.trace + crate::qwen38_flash_next::forward_runs::traced(
            frame,
            layer,
            Qwen38LayerProbeStage::MlpMix,
        ) + crate::qwen38_flash_next::forward_runs::traced(
            frame,
            layer,
            Qwen38LayerProbeStage::MlpFfn,
        ),
        ..before
    }
}

#[verifier::rlimit(40)]
proof fn lemma_decode_mlp_front(pass: DecodePass, before: ForwardDevice, layer: int)
    requires
        pass.fits(),
        0 <= layer < pass.topology.weights@.len(),
        crate::qwen38_flash_next::forward_runs::resting(
            crate::qwen38_flash_next::forward_runs::decode_frame(pass),
            before,
        ),
    ensures
        crate::device::after(
            crate::qwen38_flash_next::forward_flow::pass_step(
                crate::qwen38_flash_next::forward_runs::decode_frame(pass),
            ),
            before,
            decode_mlp_front(pass, layer),
        ) == decode_computed(pass, before, layer),
{
    let frame = crate::qwen38_flash_next::forward_runs::decode_frame(pass);
    let step = crate::qwen38_flash_next::forward_flow::pass_step(frame);
    let at = layer as usize;
    let mix = seq![
        ForwardOp::Mix { layer: at, sublayer: Sublayer::Mlp, rows: HyperRows::Batch(1) },
    ];
    let t1 = pass.trace(layer, Qwen38LayerProbeStage::MlpMix);
    let experts = seq![ForwardOp::MoeToken { layer: at }];
    let t2 = pass.trace(layer, Qwen38LayerProbeStage::MlpFfn);
    crate::device::lemma_after_both(step, before, mix + t1 + experts, t2);
    crate::device::lemma_after_both(step, before, mix + t1, experts);
    crate::device::lemma_after_both(step, before, mix, t1);
    crate::device::lemma_after_one(step, before, mix);
    let d1 = crate::device::after(step, before, mix);
    assert(d1 == ForwardDevice { mixed: Some((layer, Sublayer::Mlp)), ..before });
    lemma_decode_trace(pass, d1, layer, Qwen38LayerProbeStage::MlpMix);
    let d2 = crate::device::after(step, d1, t1);
    crate::device::lemma_after_one(step, d2, experts);
    let d3 = crate::device::after(step, d2, experts);
    assert(d3 == ForwardDevice { computed: Some((layer, Sublayer::Mlp)), ..d2 });
    lemma_decode_trace(pass, d3, layer, Qwen38LayerProbeStage::MlpFfn);
}

spec fn decode_attach(pass: DecodePass, layer: int) -> Seq<ForwardOp> {
    if pass.traced {
        seq![
            ForwardOp::AttachMoe {
                layer: layer as usize,
                entry: crate::qwen38_flash_next::forward::ffn_entry(
                    pass.shape.ple_layer as int,
                    layer,
                ) as usize,
            },
        ]
    } else {
        seq![]
    }
}

#[verifier::rlimit(40)]
proof fn lemma_decode_attach(pass: DecodePass, before: ForwardDevice, layer: int)
    requires
        pass.fits(),
        0 <= layer < pass.topology.weights@.len(),
        before.sound,
        before.trace == crate::qwen38_flash_next::forward_runs::pass_trace(
            crate::qwen38_flash_next::forward_runs::decode_frame(pass),
            layer as nat,
        ) + crate::qwen38_flash_next::forward_runs::attention_trace(
            crate::qwen38_flash_next::forward_runs::decode_frame(pass),
            layer,
        ) + crate::qwen38_flash_next::forward_runs::traced(
            crate::qwen38_flash_next::forward_runs::decode_frame(pass),
            layer,
            Qwen38LayerProbeStage::MlpMix,
        ) + crate::qwen38_flash_next::forward_runs::traced(
            crate::qwen38_flash_next::forward_runs::decode_frame(pass),
            layer,
            Qwen38LayerProbeStage::MlpFfn,
        ),
        before.oracles == 0 && before.oracle_input is None && before.oracle_output is None,
    ensures
        ({
            let frame = crate::qwen38_flash_next::forward_runs::decode_frame(pass);
            let after = crate::device::after(
                crate::qwen38_flash_next::forward_flow::pass_step(frame),
                before,
                decode_attach(pass, layer),
            );
            after == (ForwardDevice {
                attached: before.attached
                    + crate::qwen38_flash_next::forward_runs::layer_attached(frame, layer),
                ..before
            })
        }),
{
    let frame = crate::qwen38_flash_next::forward_runs::decode_frame(pass);
    let step = crate::qwen38_flash_next::forward_flow::pass_step(frame);
    let ops = decode_attach(pass, layer);
    let added = crate::qwen38_flash_next::forward_runs::layer_attached(frame, layer);
    if pass.traced {
        crate::device::lemma_after_one(step, before, ops);
        crate::qwen38_flash_next::forward_runs::lemma_trace_len(frame, layer as nat);
        let entry = crate::qwen38_flash_next::forward::ffn_entry(
            frame.shape.ple_layer as int,
            layer,
        );
        assert(entry == before.trace.len() - 1);
        assert(before.trace[entry] == (layer as usize, Qwen38LayerProbeStage::MlpFfn));
        assert(before.attached.push(layer) =~= before.attached + added);
    } else {
        assert(before.attached =~= before.attached + added);
    }
}

spec fn decode_mlp_done(pass: DecodePass, before: ForwardDevice, layer: int) -> ForwardDevice {
    let frame = crate::qwen38_flash_next::forward_runs::decode_frame(pass);
    ForwardDevice {
        streams: Streams::After(Box::new(before.streams), layer, Sublayer::Mlp),
        trace: before.trace + crate::qwen38_flash_next::forward_runs::mlp_trace(frame, layer),
        attached: before.attached + crate::qwen38_flash_next::forward_runs::layer_attached(
            frame,
            layer,
        ),
        ..before
    }
}

#[verifier::rlimit(40)]
proof fn lemma_decode_mlp_half(pass: DecodePass, before: ForwardDevice, layer: int)
    requires
        pass.fits(),
        0 <= layer < pass.topology.weights@.len(),
        crate::qwen38_flash_next::forward_runs::resting(
            crate::qwen38_flash_next::forward_runs::decode_frame(pass),
            before,
        ),
        before.trace == crate::qwen38_flash_next::forward_runs::pass_trace(
            crate::qwen38_flash_next::forward_runs::decode_frame(pass),
            layer as nat,
        ) + crate::qwen38_flash_next::forward_runs::attention_trace(
            crate::qwen38_flash_next::forward_runs::decode_frame(pass),
            layer,
        ),
    ensures
        crate::device::after(
            crate::qwen38_flash_next::forward_flow::pass_step(
                crate::qwen38_flash_next::forward_runs::decode_frame(pass),
            ),
            before,
            pass.mlp_half(layer),
        ) == decode_mlp_done(pass, before, layer),
{
    let frame = crate::qwen38_flash_next::forward_runs::decode_frame(pass);
    let step = crate::qwen38_flash_next::forward_flow::pass_step(frame);
    let at = layer as usize;
    let front = decode_mlp_front(pass, layer);
    let combine = seq![
        ForwardOp::Combine { layer: at, sublayer: Sublayer::Mlp, rows: HyperRows::Batch(1) },
        ForwardOp::SwapStreams,
    ];
    let attach = decode_attach(pass, layer);
    let t3 = pass.trace(layer, Qwen38LayerProbeStage::Mlp);
    assert(pass.mlp_half(layer) == front + combine + attach + t3);
    crate::device::lemma_after_both(step, before, front + combine + attach, t3);
    crate::device::lemma_after_both(step, before, front + combine, attach);
    crate::device::lemma_after_both(step, before, front, combine);
    lemma_decode_mlp_front(pass, before, layer);
    let d4 = decode_computed(pass, before, layer);
    crate::device::lemma_after_two(step, d4, combine);
    let d5 = crate::device::after(step, d4, combine);
    assert(d5 == ForwardDevice {
        streams: Streams::After(Box::new(before.streams), layer, Sublayer::Mlp),
        mixed: None,
        computed: None,
        ..d4
    });
    lemma_decode_attach(pass, d5, layer);
    let d6 = crate::device::after(step, d5, attach);
    lemma_decode_trace(pass, d6, layer, Qwen38LayerProbeStage::Mlp);
    let d7 = crate::device::after(step, d6, t3);
    assert(d7.trace =~= before.trace + crate::qwen38_flash_next::forward_runs::mlp_trace(
        frame,
        layer,
    ));
}

#[verifier::rlimit(40)]
proof fn lemma_no_states(frame: ForwardFrame, count: nat)
    requires
        !frame.paths.exact_gdn,
    ensures
        crate::qwen38_flash_next::forward_runs::pass_states(frame, count) == Seq::<
            (int, int),
        >::empty(),
    decreases count,
{
    if count > 0 {
        lemma_no_states(frame, (count - 1) as nat);
    }
    assert(crate::qwen38_flash_next::forward_runs::pass_states(frame, count) =~= Seq::<
        (int, int),
    >::empty());
}

#[verifier::rlimit(40)]
proof fn lemma_decode_layers(pass: DecodePass, before: ForwardDevice, count: nat)
    requires
        pass.fits(),
        count <= pass.topology.weights@.len(),
        pass.clear_before(count as int),
        crate::qwen38_flash_next::forward_runs::resting(
            crate::qwen38_flash_next::forward_runs::decode_frame(pass),
            before,
        ),
        before.streams == Streams::Embedded,
        before.trace.len() == 0 && before.kept_states.len() == 0 && before.attached.len() == 0,
    ensures
        crate::device::after(
            crate::qwen38_flash_next::forward_flow::pass_step(
                crate::qwen38_flash_next::forward_runs::decode_frame(pass),
            ),
            before,
            pass.body_ops(count),
        ) == crate::qwen38_flash_next::forward_runs::layers_done(
            crate::qwen38_flash_next::forward_runs::decode_frame(pass),
            before,
            count,
        ),
    decreases count,
{
    let frame = crate::qwen38_flash_next::forward_runs::decode_frame(pass);
    let step = crate::qwen38_flash_next::forward_flow::pass_step(frame);
    lemma_no_states(frame, count);
    assert(before.kept_states =~= Seq::<(int, int)>::empty());
    if count == 0 {
        assert(before.trace =~= crate::qwen38_flash_next::forward_runs::pass_trace(frame, 0));
        assert(before.attached =~= crate::qwen38_flash_next::forward_runs::pass_attached(
            frame,
            0,
        ));
    } else {
        let layer = count - 1;
        lemma_decode_layers(pass, before, layer as nat);
        lemma_no_states(frame, layer as nat);
        let earlier = pass.body_ops(layer as nat);
        let first = pass.attention_half(layer);
        let second = pass.mlp_half(layer);
        crate::device::lemma_after_both(step, before, earlier + first, second);
        crate::device::lemma_after_both(step, before, earlier, first);
        let d1 = crate::device::after(step, before, earlier);
        assert(pass.obstacle(layer) is None);
        lemma_decode_attention_half(pass, d1, layer);
        let d2 = decode_attended(pass, d1, layer);
        lemma_decode_mlp_half(pass, d2, layer);
    }
}

/// A planned single-token pass runs as a whole, and takes the token through the same sublayers
/// in the same order as a prompt pass: the input of each is formed from the current streams, it
/// is computed by the layer it belongs to, and then injected. The head works on the streams
/// behind the last layer.
#[verifier::rlimit(40)]
pub proof fn law_decode_pass_runs(pass: DecodePass)
    requires
        pass.fits(),
        pass.clear_before(pass.topology.weights@.len() as int),
    ensures
        ({
            let frame = crate::qwen38_flash_next::forward_runs::decode_frame(pass);
            let layers = pass.topology.weights@.len();
            let streams = crate::qwen38_flash_next::forward_flow::layered(
                pass.shape.ple_layer as int,
                layers,
            );
            let device = crate::device::after(
                crate::qwen38_flash_next::forward_flow::pass_step(frame),
                crate::qwen38_flash_next::forward_flow::idle(),
                pass.ops(),
            );
            &&& device.sound
            &&& device.streams == streams
            &&& device.trace == crate::qwen38_flash_next::forward_runs::pass_trace(frame, layers)
            &&& device.attached == crate::qwen38_flash_next::forward_runs::pass_attached(
                frame,
                layers,
            )
            &&& match pass.logits {
                Qwen38LogitsMode::Skip => device.head is Nothing,
                Qwen38LogitsMode::Top1 => device.head is Token && device.collapsed == Some(streams),
                Qwen38LogitsMode::Full => device.head is Logits && device.collapsed == Some(
                    streams,
                ),
            }
        }),
{
    let frame = crate::qwen38_flash_next::forward_runs::decode_frame(pass);
    let step = crate::qwen38_flash_next::forward_flow::pass_step(frame);
    let idle = crate::qwen38_flash_next::forward_flow::idle();
    let layers = pass.topology.weights@.len();
    let ops = pass.ops();
    let entry = ops.subrange(0, 3);
    let body = pass.body_ops(layers);
    let head = crate::qwen38_flash_next::forward::head_ops(pass.logits, pass.shape.hidden);
    assert(ops =~= entry + body + head);
    crate::device::lemma_after_both(step, idle, entry + body, head);
    crate::device::lemma_after_both(step, idle, entry, body);
    crate::device::lemma_after_three(step, idle, entry);
    let d1 = step(idle, entry[0]);
    assert(d1 == ForwardDevice { tokens: true, ..idle });
    let d2 = step(d1, entry[1]);
    assert(d2 == ForwardDevice { embeddings: true, ..d1 });
    let d3 = step(d2, entry[2]);
    assert(d3 == ForwardDevice { streams: Streams::Embedded, ..d2 });
    lemma_decode_layers(pass, d3, layers);
    let d4 = crate::qwen38_flash_next::forward_runs::layers_done(frame, d3, layers);
    lemma_head(frame, d4, pass.logits, d4.streams);
}

} // verus!
