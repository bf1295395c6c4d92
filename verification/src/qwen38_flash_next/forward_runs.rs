//! Every planned forward pass runs: its operations find what they need, layer by layer.

use crate::manifest::QwenLayerKind;
use crate::qwen38_flash_next::forward::{
    DecodePass, ForwardOp, PrefillPass, PrefillPaths, Qwen38LayerProbeStage, Sublayer,
};
use crate::qwen38_flash_next::forward_flow::{ForwardDevice, ForwardFrame, Streams};
use vstd::prelude::*;

verus! {

/// What a prompt pass is about.
pub open spec fn prefill_frame(pass: PrefillPass) -> ForwardFrame {
    ForwardFrame {
        shape: pass.shape,
        paths: pass.paths,
        decode: false,
        kinds: pass.topology.weights@,
        segments: pass.segments@,
        rows: pass.rows as int,
        position: pass.position as int,
    }
}

/// What a single-token pass is about: one row, on none of the exact or serial paths.
pub open spec fn decode_frame(pass: DecodePass) -> ForwardFrame {
    ForwardFrame {
        shape: pass.shape,
        paths: PrefillPaths {
            exact_ple: false,
            exact_gdn: false,
            exact_moe: false,
            serial_gdn_projections: false,
            serial_qsa_rows: false,
            canonical_moe_linears: false,
            exact_hyper_projections: false,
            traced: pass.traced,
        },
        decode: true,
        kinds: pass.topology.weights@,
        segments: pass.segments@,
        rows: 1,
        position: pass.position as int,
    }
}

/// Whether a pass stands between two sublayers.
pub open spec fn resting(frame: ForwardFrame, device: ForwardDevice) -> bool {
    &&& device.sound
    &&& !(device.streams is Unknown)
    &&& device.update is None
    &&& device.mixed is None
    &&& device.computed is None
    &&& device.done == 0
    &&& !device.loaded && !device.stepped && !device.prepared && !device.ple
    &&& device.oracles == 0 && device.oracle_input is None && device.oracle_output is None
    &&& device.frontier is None && device.collapsed is None && device.head is Nothing
    &&& !frame.decode ==> device.published && forall|layer: int|
        frame.recurrent(layer) ==> #[trigger] device.bound.contains(layer)
}

/// Entries that a traced pass adds to its trace.
pub open spec fn traced(
    frame: ForwardFrame,
    layer: int,
    stage: Qwen38LayerProbeStage,
) -> Seq<(usize, Qwen38LayerProbeStage)> {
    if frame.paths.traced {
        seq![(layer as usize, stage)]
    } else {
        seq![]
    }
}

/// Entries that the attention half of a layer adds to the trace.
pub open spec fn attention_trace(frame: ForwardFrame, layer: int) -> Seq<
    (usize, Qwen38LayerProbeStage),
> {
    (if layer == frame.shape.ple_layer {
        traced(frame, layer, Qwen38LayerProbeStage::Ple)
    } else {
        seq![]
    }) + traced(frame, layer, Qwen38LayerProbeStage::Attention)
}

/// Entries that the feed-forward half of a layer adds to the trace.
pub open spec fn mlp_trace(frame: ForwardFrame, layer: int) -> Seq<
    (usize, Qwen38LayerProbeStage),
> {
    traced(frame, layer, Qwen38LayerProbeStage::MlpMix) + traced(
        frame,
        layer,
        Qwen38LayerProbeStage::MlpFfn,
    ) + traced(frame, layer, Qwen38LayerProbeStage::Mlp)
}

/// States that the attention of a layer keeps: the one after the first row, on the row-by-row
/// path.
pub open spec fn layer_states(frame: ForwardFrame, layer: int) -> Seq<(int, int)> {
    if frame.paths.exact_gdn && frame.recurrent(layer) {
        seq![(layer, 0int)]
    } else {
        seq![]
    }
}

#[verifier::rlimit(40)]
proof fn lemma_prefill_trace(
    pass: PrefillPass,
    before: ForwardDevice,
    layer: int,
    stage: Qwen38LayerProbeStage,
)
    requires
        pass.fits(),
        0 <= layer <= usize::MAX,
        before.sound,
        before.update is None,
        before.reached(layer, stage),
    ensures
        ({
            let frame = prefill_frame(pass);
            let after = crate::device::after(
                crate::qwen38_flash_next::forward_flow::pass_step(frame),
                before,
                pass.trace(layer, stage),
            );
            after == (ForwardDevice {
                trace: before.trace + traced(frame, layer, stage),
                ..before
            })
        }),
{
    let frame = prefill_frame(pass);
    let step = crate::qwen38_flash_next::forward_flow::pass_step(frame);
    let ops = pass.trace(layer, stage);
    if pass.paths.traced {
        crate::device::lemma_after_one(step, before, ops);
        assert(before.trace.push((layer as usize, stage)) =~= before.trace + traced(
            frame,
            layer,
            stage,
        ));
    } else {
        assert(before.trace =~= before.trace + traced(frame, layer, stage));
    }
}

spec fn gdn_row(pass: PrefillPass, layer: int, row: int) -> Seq<ForwardOp> {
    let offset = (row * pass.shape.hidden) as usize;
    seq![
        ForwardOp::GdnLoadRow { offset, width: pass.shape.hidden },
        ForwardOp::GdnStep { layer: layer as usize },
    ] + (if row == 0 {
        seq![ForwardOp::GdnSnapshot { layer: layer as usize, slot: 0 }]
    } else {
        seq![]
    }) + seq![ForwardOp::GdnStoreRow { offset, width: pass.shape.hidden }]
}

spec fn gdn_rows_done(pass: PrefillPass, before: ForwardDevice, layer: int, rows: int) -> ForwardDevice {
    ForwardDevice {
        done: rows,
        computed: if rows == pass.rows {
            before.mixed
        } else {
            None
        },
        kept_states: before.kept_states + if rows > 0 {
            seq![(layer, 0int)]
        } else {
            seq![]
        },
        ..before
    }
}

#[verifier::rlimit(40)]
proof fn lemma_gdn_row(pass: PrefillPass, before: ForwardDevice, layer: int, row: int)
    requires
        pass.fits(),
        pass.paths.exact_gdn,
        0 <= row < pass.rows,
        prefill_frame(pass).recurrent(layer),
        before.fresh(layer, Sublayer::Attention),
        layer <= usize::MAX,
    ensures
        crate::device::after(
            crate::qwen38_flash_next::forward_flow::pass_step(prefill_frame(pass)),
            gdn_rows_done(pass, before, layer, row),
            gdn_row(pass, layer, row),
        ) == gdn_rows_done(pass, before, layer, row + 1),
{
    let frame = prefill_frame(pass);
    let step = crate::qwen38_flash_next::forward_flow::pass_step(frame);
    let d0 = gdn_rows_done(pass, before, layer, row);
    let ops = gdn_row(pass, layer, row);
    let hidden = pass.shape.hidden as int;
    assert(0 <= row * hidden <= pass.rows * hidden) by (nonlinear_arith)
        requires
            0 <= row <= pass.rows,
            0 <= hidden,
    ;
    assert(ops[0] == ForwardOp::GdnLoadRow {
        offset: (row * hidden) as usize,
        width: pass.shape.hidden,
    });
    let d1 = step(d0, ops[0]);
    assert(d1 == ForwardDevice { loaded: true, ..d0 });
    assert(ops[1] == ForwardOp::GdnStep { layer: layer as usize });
    let d2 = step(d1, ops[1]);
    assert(d2 == ForwardDevice { stepped: true, ..d0 });
    let store = ForwardOp::GdnStoreRow {
        offset: (row * hidden) as usize,
        width: pass.shape.hidden,
    };
    if row == 0 {
        crate::device::lemma_after_four(step, d0, ops);
        assert(ops[2] == ForwardOp::GdnSnapshot { layer: layer as usize, slot: 0 });
        assert(ops[3] == store);
        let d3 = step(d2, ops[2]);
        assert(d0.kept_states =~= before.kept_states);
        assert(d3 == ForwardDevice { kept_states: before.kept_states.push((layer, 0int)), ..d2 });
        assert(before.kept_states.push((layer, 0int)) =~= before.kept_states + seq![
            (layer, 0int),
        ]);
    } else {
        crate::device::lemma_after_three(step, d0, ops);
        assert(ops[2] == store);
    }
}

#[verifier::rlimit(40)]
proof fn lemma_gdn_rows(pass: PrefillPass, before: ForwardDevice, layer: int, rows: nat)
    requires
        pass.fits(),
        pass.paths.exact_gdn,
        rows <= pass.rows,
        prefill_frame(pass).recurrent(layer),
        before.fresh(layer, Sublayer::Attention),
        layer <= usize::MAX,
    ensures
        crate::device::after(
            crate::qwen38_flash_next::forward_flow::pass_step(prefill_frame(pass)),
            before,
            pass.gdn_row_ops(layer, rows),
        ) == gdn_rows_done(pass, before, layer, rows as int),
    decreases rows,
{
    let step = crate::qwen38_flash_next::forward_flow::pass_step(prefill_frame(pass));
    if rows == 0 {
        assert(before.kept_states =~= before.kept_states + Seq::<(int, int)>::empty());
    } else {
        let fewer = (rows - 1) as nat;
        lemma_gdn_rows(pass, before, layer, fewer);
        let earlier = pass.gdn_row_ops(layer, fewer);
        let last = gdn_row(pass, layer, rows - 1);
        assert(pass.gdn_row_ops(layer, rows) =~= earlier + last);
        crate::device::lemma_after_both(step, before, earlier, last);
        lemma_gdn_row(pass, before, layer, rows - 1);
    }
}

#[verifier::rlimit(40)]
proof fn lemma_qsa_segment(
    pass: PrefillPass,
    before: ForwardDevice,
    layer: int,
    index: int,
    rows: nat,
)
    requires
        pass.fits(),
        0 <= index < pass.segments@.len(),
        rows <= pass.segments@[index].rows,
        pass.segments@[index].input_offset == before.done,
        pass.segments@[index].input_offset + pass.segments@[index].rows <= pass.rows,
        prefill_frame(pass).sparse(layer),
        before.sound,
        before.mixed == Some((layer, Sublayer::Attention)),
        before.computed == if pass.paths.serial_qsa_rows && before.done == pass.rows {
            before.mixed
        } else {
            None
        },
        before.prepared == !pass.paths.serial_qsa_rows,
        layer <= usize::MAX,
    ensures
        ({
            let frame = prefill_frame(pass);
            let segment = pass.segments@[index];
            let ops = Seq::new(rows, |offset: int| pass.qsa_row_op(layer, segment, offset));
            let after = crate::device::after(
                crate::qwen38_flash_next::forward_flow::pass_step(frame),
                before,
                ops,
            );
            after == (ForwardDevice {
                done: before.done + rows,
                computed: if pass.paths.serial_qsa_rows && before.done + rows == pass.rows {
                    before.mixed
                } else {
                    None
                },
                ..before
            })
        }),
    decreases rows,
{
    let frame = prefill_frame(pass);
    let step = crate::qwen38_flash_next::forward_flow::pass_step(frame);
    let segment = pass.segments@[index];
    let ops = Seq::new(rows, |offset: int| pass.qsa_row_op(layer, segment, offset));
    if rows > 0 {
        let fewer = (rows - 1) as nat;
        lemma_qsa_segment(pass, before, layer, index, fewer);
        let earlier = Seq::new(fewer, |offset: int| pass.qsa_row_op(layer, segment, offset));
        assert(ops.drop_last() =~= earlier);
        let middle = crate::device::after(step, before, earlier);
        let op = pass.qsa_row_op(layer, segment, rows - 1);
        assert(crate::append::segments_fit(pass.segments@, pass.position as int));
        assert(frame.reserved_in(
            index,
            before.done + rows - 1,
            segment.page,
            segment.page_offset + rows - 1,
        ));
        assert(crate::device::after(step, before, ops) == step(middle, op));
    }
}

#[verifier::rlimit(40)]
proof fn lemma_qsa_rows(pass: PrefillPass, before: ForwardDevice, layer: int, count: nat)
    requires
        pass.fits(),
        crate::append::segments_cover(pass.segments@, pass.rows as nat),
        count <= pass.segments@.len(),
        prefill_frame(pass).sparse(layer),
        before.sound,
        before.mixed == Some((layer, Sublayer::Attention)),
        before.computed is None,
        before.done == 0,
        before.prepared == !pass.paths.serial_qsa_rows,
        layer <= usize::MAX,
    ensures
        ({
            let frame = prefill_frame(pass);
            let rows = crate::append::segment_rows(pass.segments@, count) as int;
            let after = crate::device::after(
                crate::qwen38_flash_next::forward_flow::pass_step(frame),
                before,
                pass.qsa_rows_ops(layer, count),
            );
            after == (ForwardDevice {
                done: rows,
                computed: if pass.paths.serial_qsa_rows && rows == pass.rows {
                    before.mixed
                } else {
                    None
                },
                ..before
            })
        }),
    decreases count,
{
    let step = crate::qwen38_flash_next::forward_flow::pass_step(prefill_frame(pass));
    if count > 0 {
        let fewer = (count - 1) as nat;
        lemma_qsa_rows(pass, before, layer, fewer);
        lemma_rows_grow(pass.segments@, count, pass.segments@.len());
        let earlier = pass.qsa_rows_ops(layer, fewer);
        let segment = pass.segments@[count - 1];
        let last = pass.qsa_segment_ops(layer, segment);
        crate::device::lemma_after_both(step, before, earlier, last);
        let middle = crate::device::after(step, before, earlier);
        assert(segment.input_offset == crate::append::segment_rows(pass.segments@, fewer));
        lemma_qsa_segment(pass, middle, layer, count - 1, segment.rows as nat);
    }
}

#[verifier::rlimit(40)]
proof fn lemma_rows_grow(
    segments: Seq<crate::append::AppendSegment>,
    fewer: nat,
    more: nat,
)
    requires
        fewer <= more,
    ensures
        crate::append::segment_rows(segments, fewer) <= crate::append::segment_rows(
            segments,
            more,
        ),
    decreases more,
{
    if fewer < more {
        lemma_rows_grow(segments, fewer, (more - 1) as nat);
    }
}

#[verifier::rlimit(40)]
proof fn lemma_prefill_prepared(pass: PrefillPass, before: ForwardDevice, layer: int)
    requires
        pass.fits(),
        crate::append::segments_cover(pass.segments@, pass.rows as nat),
        prefill_frame(pass).sparse(layer),
        layer <= usize::MAX,
        !pass.paths.serial_qsa_rows,
        before.fresh(layer, Sublayer::Attention),
        !before.prepared,
    ensures
        ({
            let after = crate::device::after(
                crate::qwen38_flash_next::forward_flow::pass_step(prefill_frame(pass)),
                before,
                pass.attention_ops(layer),
            );
            after == (ForwardDevice {
                done: pass.rows as int,
                computed: Some((layer, Sublayer::Attention)),
                ..before
            })
        }),
{
    let frame = prefill_frame(pass);
    let step = crate::qwen38_flash_next::forward_flow::pass_step(frame);
    let first = seq![
        ForwardOp::QsaPrepare {
            layer: layer as usize,
            rows: pass.rows,
            position: pass.position,
        },
    ];
    let rows = pass.qsa_rows_ops(layer, pass.segments@.len());
    let last = seq![ForwardOp::QsaFinish { layer: layer as usize, rows: pass.rows }];
    crate::device::lemma_after_both(step, before, first + rows, last);
    crate::device::lemma_after_both(step, before, first, rows);
    crate::device::lemma_after_one(step, before, first);
    let d1 = crate::device::after(step, before, first);
    assert(d1 == ForwardDevice { prepared: true, ..before });
    lemma_qsa_rows(pass, d1, layer, pass.segments@.len());
    let d2 = crate::device::after(step, d1, rows);
    assert(d2 == ForwardDevice { done: pass.rows as int, ..d1 });
    crate::device::lemma_after_one(step, d2, last);
}

/// What the attention of a layer leaves.
#[verifier::rlimit(40)]
proof fn lemma_prefill_attention(pass: PrefillPass, before: ForwardDevice, layer: int)
    requires
        pass.fits(),
        crate::append::segments_cover(pass.segments@, pass.rows as nat),
        0 <= layer < pass.topology.weights@.len(),
        before.fresh(layer, Sublayer::Attention),
        !before.prepared,
        before.published,
        prefill_frame(pass).recurrent(layer) ==> before.bound.contains(layer),
    ensures
        ({
            let frame = prefill_frame(pass);
            let after = crate::device::after(
                crate::qwen38_flash_next::forward_flow::pass_step(frame),
                before,
                pass.attention_ops(layer),
            );
            after == (ForwardDevice {
                done: after.done,
                computed: Some((layer, Sublayer::Attention)),
                kept_states: before.kept_states + layer_states(frame, layer),
                ..before
            })
        }),
{
    let frame = prefill_frame(pass);
    let step = crate::qwen38_flash_next::forward_flow::pass_step(frame);
    let ops = pass.attention_ops(layer);
    assert(before.kept_states =~= before.kept_states + Seq::<(int, int)>::empty());
    if pass.topology.weights@[layer] == QwenLayerKind::LinearAttention {
        if pass.paths.exact_gdn {
            lemma_gdn_rows(pass, before, layer, pass.rows as nat);
        } else {
            crate::device::lemma_after_one(step, before, ops);
        }
    } else if pass.paths.serial_qsa_rows {
        lemma_qsa_rows(pass, before, layer, pass.segments@.len());
    } else {
        lemma_prefill_prepared(pass, before, layer);
    }
}

#[verifier::rlimit(40)]
proof fn lemma_prefill_ple(pass: PrefillPass, before: ForwardDevice, layer: int)
    requires
        pass.fits(),
        0 <= layer <= usize::MAX,
        resting(prefill_frame(pass), before),
    ensures
        ({
            let frame = prefill_frame(pass);
            let after = crate::device::after(
                crate::qwen38_flash_next::forward_flow::pass_step(frame),
                before,
                pass.ple_ops(layer),
            );
            after == (ForwardDevice {
                streams: crate::qwen38_flash_next::forward_flow::entered(
                    frame.shape.ple_layer as int,
                    before.streams,
                    layer,
                ),
                trace: before.trace + (if layer == frame.shape.ple_layer {
                    traced(frame, layer, Qwen38LayerProbeStage::Ple)
                } else {
                    seq![]
                }),
                ..before
            })
        }),
{
    let frame = prefill_frame(pass);
    let step = crate::qwen38_flash_next::forward_flow::pass_step(frame);
    let ops = pass.ple_ops(layer);
    if layer == frame.shape.ple_layer {
        let entry = pass.trace(layer, Qwen38LayerProbeStage::Ple);
        let first = ops.subrange(0, 3);
        assert(ops =~= first + entry);
        crate::device::lemma_after_both(step, before, first, entry);
        crate::device::lemma_after_three(step, before, first);
        let d1 = step(before, first[0]);
        assert(d1 == ForwardDevice { ple: true, ..before });
        let d2 = step(d1, first[1]);
        assert(d2 == ForwardDevice {
            update: Some(Streams::WithPle(Box::new(before.streams))),
            ..before
        });
        let d3 = step(d2, first[2]);
        lemma_prefill_trace(pass, d3, layer, Qwen38LayerProbeStage::Ple);
    } else {
        assert(before.trace =~= before.trace + Seq::<(usize, Qwen38LayerProbeStage)>::empty());
    }
}

/// What the attention half of a layer leaves.
#[verifier::rlimit(40)]
proof fn lemma_prefill_attention_half(pass: PrefillPass, before: ForwardDevice, layer: int)
    requires
        pass.fits(),
        crate::append::segments_cover(pass.segments@, pass.rows as nat),
        0 <= layer < pass.topology.weights@.len(),
        resting(prefill_frame(pass), before),
    ensures
        ({
            let frame = prefill_frame(pass);
            let after = crate::device::after(
                crate::qwen38_flash_next::forward_flow::pass_step(frame),
                before,
                pass.attention_half(layer),
            );
            after == (ForwardDevice {
                streams: Streams::After(
                    Box::new(
                        crate::qwen38_flash_next::forward_flow::entered(
                            frame.shape.ple_layer as int,
                            before.streams,
                            layer,
                        ),
                    ),
                    layer,
                    Sublayer::Attention,
                ),
                trace: before.trace + attention_trace(frame, layer),
                kept_states: before.kept_states + layer_states(frame, layer),
                ..before
            })
        }),
{
    let frame = prefill_frame(pass);
    let step = crate::qwen38_flash_next::forward_flow::pass_step(frame);
    let at = layer as usize;
    let ple = pass.ple_ops(layer);
    let mix = seq![
        ForwardOp::Mix { layer: at, sublayer: Sublayer::Attention, rows: pass.hyper() },
    ];
    let attention = pass.attention_ops(layer);
    let combine = seq![
        ForwardOp::Combine { layer: at, sublayer: Sublayer::Attention, rows: pass.hyper() },
        ForwardOp::SwapStreams,
    ];
    let entry = pass.trace(layer, Qwen38LayerProbeStage::Attention);
    crate::device::lemma_after_both(step, before, ple + mix + attention + combine, entry);
    crate::device::lemma_after_both(step, before, ple + mix + attention, combine);
    crate::device::lemma_after_both(step, before, ple + mix, attention);
    crate::device::lemma_after_both(step, before, ple, mix);
    lemma_prefill_ple(pass, before, layer);
    let d1 = crate::device::after(step, before, ple);
    crate::device::lemma_after_one(step, d1, mix);
    let d2 = crate::device::after(step, d1, mix);
    assert(d2 == ForwardDevice { mixed: Some((layer, Sublayer::Attention)), ..d1 });
    lemma_prefill_attention(pass, d2, layer);
    let d3 = crate::device::after(step, d2, attention);
    crate::device::lemma_after_two(step, d3, combine);
    let d4 = crate::device::after(step, d3, combine);
    assert(d4 == ForwardDevice {
        streams: Streams::After(Box::new(d1.streams), layer, Sublayer::Attention),
        kept_states: d3.kept_states,
        ..d1
    });
    lemma_prefill_trace(pass, d4, layer, Qwen38LayerProbeStage::Attention);
    let d5 = crate::device::after(step, d4, entry);
    assert(d5.trace =~= before.trace + attention_trace(frame, layer));
}

/// What the experts of a layer leave.
spec fn experts_done(pass: PrefillPass, before: ForwardDevice, layer: int) -> ForwardDevice {
    if pass.paths.exact_moe && pass.paths.traced {
        ForwardDevice {
            computed: Some((layer, Sublayer::Mlp)),
            oracle_input: Some(1),
            oracle_output: Some(1),
            oracles: 2,
            ..before
        }
    } else {
        ForwardDevice { computed: Some((layer, Sublayer::Mlp)), ..before }
    }
}

#[verifier::rlimit(40)]
proof fn lemma_prefill_experts(pass: PrefillPass, before: ForwardDevice, layer: int)
    requires
        pass.fits(),
        pass.moe_rows_usable(),
        0 <= layer < pass.topology.weights@.len(),
        before.fresh(layer, Sublayer::Mlp),
        before.oracles == 0,
    ensures
        crate::device::after(
            crate::qwen38_flash_next::forward_flow::pass_step(prefill_frame(pass)),
            before,
            pass.moe_ops(layer),
        ) == experts_done(pass, before, layer),
{
    let frame = prefill_frame(pass);
    let step = crate::qwen38_flash_next::forward_flow::pass_step(frame);
    let ops = pass.moe_ops(layer);
    if pass.paths.exact_moe && pass.paths.traced {
        crate::device::lemma_after_seven(step, before, ops);
        let d1 = step(before, ops[0]);
        assert(d1 == ForwardDevice { computed: Some((layer, Sublayer::Mlp)), ..before });
        let d2 = step(d1, ops[1]);
        assert(d2 == ForwardDevice { oracle_input: Some(0), ..d1 });
        let d3 = step(d2, ops[2]);
        assert(d3 == ForwardDevice { oracle_output: Some(0), ..d2 });
        let d4 = step(d3, ops[3]);
        assert(d4 == ForwardDevice { oracles: 1, ..d3 });
        let d5 = step(d4, ops[4]);
        assert(d5 == ForwardDevice { oracle_input: Some(1), ..d4 });
        let d6 = step(d5, ops[5]);
        assert(d6 == ForwardDevice { oracle_output: Some(1), ..d5 });
        let d7 = step(d6, ops[6]);
        assert(d7 == ForwardDevice { oracles: 2, ..d6 });
    } else {
        crate::device::lemma_after_one(step, before, ops);
    }
}

/// Trace of the first `count` layers of a pass.
pub open spec fn pass_trace(frame: ForwardFrame, count: nat) -> Seq<
    (usize, Qwen38LayerProbeStage),
>
    decreases count,
{
    if count == 0 {
        seq![]
    } else {
        pass_trace(frame, (count - 1) as nat) + attention_trace(frame, count - 1) + mlp_trace(
            frame,
            count - 1,
        )
    }
}

#[verifier::rlimit(40)]
pub proof fn lemma_trace_len(frame: ForwardFrame, count: nat)
    requires
        frame.paths.traced,
    ensures
        pass_trace(frame, count).len() == 4 * count + if frame.shape.ple_layer < count {
            1nat
        } else {
            0nat
        },
    decreases count,
{
    if count > 0 {
        lemma_trace_len(frame, (count - 1) as nat);
    }
}

/// Layers whose expert snapshots a layer attaches.
pub open spec fn layer_attached(frame: ForwardFrame, layer: int) -> Seq<int> {
    if frame.paths.traced && (frame.decode || frame.paths.exact_moe) {
        seq![layer]
    } else {
        seq![]
    }
}

#[verifier::rlimit(40)]
proof fn lemma_prefill_attach(pass: PrefillPass, before: ForwardDevice, layer: int)
    requires
        pass.fits(),
        0 <= layer < pass.topology.weights@.len(),
        before.sound,
        before.update is None,
        before.trace == pass_trace(prefill_frame(pass), layer as nat) + attention_trace(
            prefill_frame(pass),
            layer,
        ) + traced(prefill_frame(pass), layer, Qwen38LayerProbeStage::MlpMix) + traced(
            prefill_frame(pass),
            layer,
            Qwen38LayerProbeStage::MlpFfn,
        ),
        pass.paths.exact_moe && pass.paths.traced ==> before.oracles == 2,
        !(pass.paths.exact_moe && pass.paths.traced) ==> before.oracles == 0
            && before.oracle_input is None && before.oracle_output is None,
    ensures
        ({
            let frame = prefill_frame(pass);
            let after = crate::device::after(
                crate::qwen38_flash_next::forward_flow::pass_step(frame),
                before,
                pass.attach_ops(layer),
            );
            after == (ForwardDevice {
                oracle_input: None,
                oracle_output: None,
                oracles: 0,
                attached: before.attached + layer_attached(frame, layer),
                ..before
            })
        }),
{
    let frame = prefill_frame(pass);
    let step = crate::qwen38_flash_next::forward_flow::pass_step(frame);
    let ops = pass.attach_ops(layer);
    if pass.paths.exact_moe && pass.paths.traced {
        crate::device::lemma_after_one(step, before, ops);
        lemma_trace_len(frame, layer as nat);
        let entry = crate::qwen38_flash_next::forward::ffn_entry(
            frame.shape.ple_layer as int,
            layer,
        );
        assert(entry == before.trace.len() - 1);
        assert(before.trace[entry] == (layer as usize, Qwen38LayerProbeStage::MlpFfn));
        assert(before.attached.push(layer) =~= before.attached + layer_attached(frame, layer));
    } else {
        assert(before.attached =~= before.attached + layer_attached(frame, layer));
    }
}

spec fn mlp_front(pass: PrefillPass, layer: int) -> Seq<ForwardOp> {
    seq![
        ForwardOp::Mix { layer: layer as usize, sublayer: Sublayer::Mlp, rows: pass.hyper() },
    ] + pass.trace(layer, Qwen38LayerProbeStage::MlpMix) + pass.moe_ops(layer) + pass.trace(
        layer,
        Qwen38LayerProbeStage::MlpFfn,
    )
}

/// What a layer leaves once its experts have run.
spec fn mlp_computed(pass: PrefillPass, before: ForwardDevice, layer: int) -> ForwardDevice {
    let frame = prefill_frame(pass);
    ForwardDevice {
        mixed: Some((layer, Sublayer::Mlp)),
        trace: before.trace + traced(frame, layer, Qwen38LayerProbeStage::MlpMix) + traced(
            frame,
            layer,
            Qwen38LayerProbeStage::MlpFfn,
        ),
        ..experts_done(pass, before, layer)
    }
}

#[verifier::rlimit(40)]
proof fn lemma_prefill_mlp_front(pass: PrefillPass, before: ForwardDevice, layer: int)
    requires
        pass.fits(),
        pass.moe_rows_usable(),
        0 <= layer < pass.topology.weights@.len(),
        resting(prefill_frame(pass), before),
    ensures
        crate::device::after(
            crate::qwen38_flash_next::forward_flow::pass_step(prefill_frame(pass)),
            before,
            mlp_front(pass, layer),
        ) == mlp_computed(pass, before, layer),
{
    let frame = prefill_frame(pass);
    let step = crate::qwen38_flash_next::forward_flow::pass_step(frame);
    let at = layer as usize;
    let mix = seq![ForwardOp::Mix { layer: at, sublayer: Sublayer::Mlp, rows: pass.hyper() }];
    let t1 = pass.trace(layer, Qwen38LayerProbeStage::MlpMix);
    let experts = pass.moe_ops(layer);
    let t2 = pass.trace(layer, Qwen38LayerProbeStage::MlpFfn);
    crate::device::lemma_after_both(step, before, mix + t1 + experts, t2);
    crate::device::lemma_after_both(step, before, mix + t1, experts);
    crate::device::lemma_after_both(step, before, mix, t1);
    crate::device::lemma_after_one(step, before, mix);
    let d1 = crate::device::after(step, before, mix);
    assert(d1 == ForwardDevice { mixed: Some((layer, Sublayer::Mlp)), ..before });
    lemma_prefill_trace(pass, d1, layer, Qwen38LayerProbeStage::MlpMix);
    let d2 = crate::device::after(step, d1, t1);
    lemma_prefill_experts(pass, d2, layer);
    let d3 = crate::device::after(step, d2, experts);
    lemma_prefill_trace(pass, d3, layer, Qwen38LayerProbeStage::MlpFfn);
}

/// What the feed-forward half of a layer leaves.
spec fn mlp_done(pass: PrefillPass, before: ForwardDevice, layer: int) -> ForwardDevice {
    let frame = prefill_frame(pass);
    ForwardDevice {
        streams: Streams::After(Box::new(before.streams), layer, Sublayer::Mlp),
        trace: before.trace + mlp_trace(frame, layer),
        attached: before.attached + layer_attached(frame, layer),
        ..before
    }
}

#[verifier::rlimit(40)]
proof fn lemma_prefill_mlp_half(pass: PrefillPass, before: ForwardDevice, layer: int)
    requires
        pass.fits(),
        pass.moe_rows_usable(),
        0 <= layer < pass.topology.weights@.len(),
        resting(prefill_frame(pass), before),
        before.trace == pass_trace(prefill_frame(pass), layer as nat) + attention_trace(
            prefill_frame(pass),
            layer,
        ),
    ensures
        crate::device::after(
            crate::qwen38_flash_next::forward_flow::pass_step(prefill_frame(pass)),
            before,
            pass.mlp_half(layer),
        ) == mlp_done(pass, before, layer),
{
    let frame = prefill_frame(pass);
    let step = crate::qwen38_flash_next::forward_flow::pass_step(frame);
    let at = layer as usize;
    let front = mlp_front(pass, layer);
    let combine = seq![
        ForwardOp::Combine { layer: at, sublayer: Sublayer::Mlp, rows: pass.hyper() },
        ForwardOp::SwapStreams,
    ];
    let attach = pass.attach_ops(layer);
    let t3 = pass.trace(layer, Qwen38LayerProbeStage::Mlp);
    assert(pass.mlp_half(layer) == front + combine + attach + t3);
    crate::device::lemma_after_both(step, before, front + combine + attach, t3);
    crate::device::lemma_after_both(step, before, front + combine, attach);
    crate::device::lemma_after_both(step, before, front, combine);
    lemma_prefill_mlp_front(pass, before, layer);
    let d4 = mlp_computed(pass, before, layer);
    crate::device::lemma_after_two(step, d4, combine);
    let d5 = crate::device::after(step, d4, combine);
    assert(d5 == ForwardDevice {
        streams: Streams::After(Box::new(before.streams), layer, Sublayer::Mlp),
        mixed: None,
        computed: None,
        ..d4
    });
    lemma_prefill_attach(pass, d5, layer);
    let d6 = crate::device::after(step, d5, attach);
    lemma_prefill_trace(pass, d6, layer, Qwen38LayerProbeStage::Mlp);
    let d7 = crate::device::after(step, d6, t3);
    assert(d7.trace =~= before.trace + mlp_trace(frame, layer));
}

/// States that the first `count` layers of a pass keep, in order.
pub open spec fn pass_states(frame: ForwardFrame, count: nat) -> Seq<(int, int)>
    decreases count,
{
    if count == 0 {
        seq![]
    } else {
        pass_states(frame, (count - 1) as nat) + layer_states(frame, count - 1)
    }
}

/// Layers among the first `count` whose expert snapshots a pass attaches, in order.
pub open spec fn pass_attached(frame: ForwardFrame, count: nat) -> Seq<int>
    decreases count,
{
    if count == 0 {
        seq![]
    } else {
        pass_attached(frame, (count - 1) as nat) + layer_attached(frame, count - 1)
    }
}

/// What the first `count` layers leave.
pub open spec fn layers_done(
    frame: ForwardFrame,
    before: ForwardDevice,
    count: nat,
) -> ForwardDevice {
    ForwardDevice {
        streams: crate::qwen38_flash_next::forward_flow::layered(
            frame.shape.ple_layer as int,
            count,
        ),
        trace: pass_trace(frame, count),
        kept_states: pass_states(frame, count),
        attached: pass_attached(frame, count),
        ..before
    }
}

#[verifier::rlimit(40)]
pub proof fn lemma_prefill_layers(pass: PrefillPass, before: ForwardDevice, count: nat)
    requires
        pass.fits(),
        pass.moe_rows_usable(),
        crate::append::segments_cover(pass.segments@, pass.rows as nat),
        count <= pass.topology.weights@.len(),
        resting(prefill_frame(pass), before),
        before.streams == Streams::Embedded,
        before.trace.len() == 0 && before.kept_states.len() == 0 && before.attached.len() == 0,
    ensures
        crate::device::after(
            crate::qwen38_flash_next::forward_flow::pass_step(prefill_frame(pass)),
            before,
            pass.body_ops(count),
        ) == layers_done(prefill_frame(pass), before, count),
    decreases count,
{
    let frame = prefill_frame(pass);
    let step = crate::qwen38_flash_next::forward_flow::pass_step(frame);
    if count == 0 {
        assert(before.trace =~= pass_trace(frame, 0));
        assert(before.kept_states =~= pass_states(frame, 0));
        assert(before.attached =~= pass_attached(frame, 0));
    } else {
        let layer = count - 1;
        lemma_prefill_layers(pass, before, layer as nat);
        let earlier = pass.body_ops(layer as nat);
        let first = pass.attention_half(layer);
        let second = pass.mlp_half(layer);
        crate::device::lemma_after_both(step, before, earlier + first, second);
        crate::device::lemma_after_both(step, before, earlier, first);
        let d1 = crate::device::after(step, before, earlier);
        lemma_prefill_attention_half(pass, d1, layer);
        let d2 = crate::device::after(step, d1, first);
        lemma_prefill_mlp_half(pass, d2, layer);
    }
}

} // verus!
