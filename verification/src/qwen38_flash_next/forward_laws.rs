//! What holds of every planned forward pass.

use crate::append::AppendSegment;
use crate::qwen38_flash_next::forward::{
    DecodePass, ForwardOp, HyperRows, PrefillPass, Qwen38LayerProbeStage, Qwen38LogitsMode,
    Sublayer,
};
use vstd::prelude::*;

verus! {

/// Number of stream exchanges among some operations.
pub open spec fn swaps(ops: Seq<ForwardOp>) -> nat
    decreases ops.len(),
{
    if ops.len() == 0 {
        0
    } else {
        swaps(ops.drop_last()) + if ops.last() == ForwardOp::SwapStreams {
            1nat
        } else {
            0nat
        }
    }
}

/// Layer and stage of each trace entry that some operations leave.
pub open spec fn trace_of(ops: Seq<ForwardOp>) -> Seq<(usize, Qwen38LayerProbeStage)>
    decreases ops.len(),
{
    if ops.len() == 0 {
        seq![]
    } else {
        let earlier = trace_of(ops.drop_last());
        match ops.last() {
            ForwardOp::Trace { layer, stage, .. } => earlier.push((layer, stage)),
            _ => earlier,
        }
    }
}

broadcast proof fn lemma_swaps_push(ops: Seq<ForwardOp>, op: ForwardOp)
    ensures
        #[trigger] swaps(ops.push(op)) == swaps(ops) + if op == ForwardOp::SwapStreams {
            1nat
        } else {
            0nat
        },
{
    assert(ops.push(op).drop_last() =~= ops);
}

broadcast proof fn lemma_swaps_add(left: Seq<ForwardOp>, right: Seq<ForwardOp>)
    ensures
        #[trigger] swaps(left + right) == swaps(left) + swaps(right),
    decreases right.len(),
{
    if right.len() == 0 {
        assert(left + right =~= left);
    } else {
        lemma_swaps_add(left, right.drop_last());
        assert((left + right).drop_last() =~= left + right.drop_last());
        assert((left + right).last() == right.last());
    }
}

broadcast proof fn lemma_trace_push(ops: Seq<ForwardOp>, op: ForwardOp)
    ensures
        #[trigger] trace_of(ops.push(op)) == match op {
            ForwardOp::Trace { layer, stage, .. } => trace_of(ops).push((layer, stage)),
            _ => trace_of(ops),
        },
{
    assert(ops.push(op).drop_last() =~= ops);
}

broadcast proof fn lemma_trace_add(left: Seq<ForwardOp>, right: Seq<ForwardOp>)
    ensures
        #[trigger] trace_of(left + right) == trace_of(left) + trace_of(right),
    decreases right.len(),
{
    if right.len() == 0 {
        assert(left + right =~= left);
        assert(trace_of(left) + trace_of(right) =~= trace_of(left));
    } else {
        lemma_trace_add(left, right.drop_last());
        assert((left + right).drop_last() =~= left + right.drop_last());
        assert((left + right).last() == right.last());
        assert(trace_of(left + right) =~= trace_of(left) + trace_of(right));
    }
}

broadcast group group_projections {
    lemma_swaps_push,
    lemma_swaps_add,
    lemma_trace_push,
    lemma_trace_add,
}

spec fn one_if_swap(op: ForwardOp) -> nat {
    if op == ForwardOp::SwapStreams {
        1
    } else {
        0
    }
}

/// Projections of a short list without trace entries.
proof fn lemma_short(ops: Seq<ForwardOp>)
    requires
        ops.len() <= 6,
        forall|i: int| 0 <= i < ops.len() ==> !(#[trigger] ops[i] is Trace),
    ensures
        trace_of(ops) == Seq::<(usize, Qwen38LayerProbeStage)>::empty(),
        swaps(ops) == (if ops.len() > 0 {
            one_if_swap(ops[0])
        } else {
            0
        }) + (if ops.len() > 1 {
            one_if_swap(ops[1])
        } else {
            0
        }) + (if ops.len() > 2 {
            one_if_swap(ops[2])
        } else {
            0
        }) + (if ops.len() > 3 {
            one_if_swap(ops[3])
        } else {
            0
        }) + (if ops.len() > 4 {
            one_if_swap(ops[4])
        } else {
            0
        }) + (if ops.len() > 5 {
            one_if_swap(ops[5])
        } else {
            0
        }),
    decreases ops.len(),
{
    if ops.len() > 0 {
        let shorter = ops.drop_last();
        assert forall|i: int| 0 <= i < shorter.len() implies !(#[trigger] shorter[i] is Trace) by {
            assert(shorter[i] == ops[i]);
        }
        lemma_short(shorter);
        assert(ops.last() == ops[ops.len() - 1]);
    }
}

proof fn lemma_gdn_rows_silent(pass: PrefillPass, layer: int, rows: nat)
    ensures
        swaps(pass.gdn_row_ops(layer, rows)) == 0,
        trace_of(pass.gdn_row_ops(layer, rows)).len() == 0,
    decreases rows,
{
    broadcast use group_projections;

    if rows > 0 {
        lemma_gdn_rows_silent(pass, layer, (rows - 1) as nat);
        let offset = ((rows - 1) * pass.shape.hidden) as usize;
        lemma_short(
            seq![
                ForwardOp::GdnLoadRow { offset, width: pass.shape.hidden },
                ForwardOp::GdnStep { layer: layer as usize },
            ],
        );
    }
}

proof fn lemma_plain_rows_silent(ops: Seq<ForwardOp>)
    requires
        forall|i: int|
            0 <= i < ops.len() ==> (#[trigger] ops[i] is QsaSerialRow || ops[i] is QsaPreparedRow),
    ensures
        swaps(ops) == 0,
        trace_of(ops).len() == 0,
    decreases ops.len(),
{
    if ops.len() > 0 {
        assert forall|i: int| 0 <= i < ops.drop_last().len() implies (
        #[trigger] ops.drop_last()[i] is QsaSerialRow || ops.drop_last()[i] is QsaPreparedRow) by {
            assert(ops.drop_last()[i] == ops[i]);
        }
        lemma_plain_rows_silent(ops.drop_last());
        assert(ops[ops.len() - 1] == ops.last());
    }
}

proof fn lemma_qsa_rows_silent(pass: PrefillPass, layer: int, count: nat)
    requires
        count <= pass.segments@.len(),
    ensures
        swaps(pass.qsa_rows_ops(layer, count)) == 0,
        trace_of(pass.qsa_rows_ops(layer, count)).len() == 0,
    decreases count,
{
    broadcast use group_projections;

    if count > 0 {
        lemma_qsa_rows_silent(pass, layer, (count - 1) as nat);
        lemma_plain_rows_silent(pass.qsa_segment_ops(layer, pass.segments@[count - 1]));
    }
}

proof fn lemma_attention_silent(pass: PrefillPass, layer: int)
    ensures
        swaps(pass.attention_ops(layer)) == 0,
        trace_of(pass.attention_ops(layer)).len() == 0,
{
    broadcast use group_projections;

    lemma_gdn_rows_silent(pass, layer, pass.rows as nat);
    lemma_qsa_rows_silent(pass, layer, pass.segments@.len());
}

proof fn lemma_moe_silent(pass: PrefillPass, layer: int)
    ensures
        swaps(pass.moe_ops(layer)) == 0,
        trace_of(pass.moe_ops(layer)).len() == 0,
{
    broadcast use group_projections;

    let at = layer as usize;
    let width = pass.shape.hidden;
    lemma_short(
        seq![
            ForwardOp::MoeOracleLoad { row: 0, offset: 0, width },
            ForwardOp::MoeOracleRun { layer: at, row: 0 },
            ForwardOp::MoeOracleSnapshot { row: 0 },
            ForwardOp::MoeOracleLoad { row: 1, offset: width, width },
            ForwardOp::MoeOracleRun { layer: at, row: 1 },
            ForwardOp::MoeOracleSnapshot { row: 1 },
        ],
    );
}

proof fn lemma_bind_silent(pass: PrefillPass, count: nat)
    ensures
        swaps(pass.bind_ops(count)) == 0,
        trace_of(pass.bind_ops(count)).len() == 0,
    decreases count,
{
    broadcast use group_projections;

    if count > 0 {
        lemma_bind_silent(pass, (count - 1) as nat);
    }
}

/// Trace entries of one layer of a traced pass, in order.
pub open spec fn layer_trace(ple_layer: int, layer: int) -> Seq<(usize, Qwen38LayerProbeStage)> {
    let at = layer as usize;
    (if layer == ple_layer {
        seq![(at, Qwen38LayerProbeStage::Ple)]
    } else {
        seq![]
    }) + seq![
        (at, Qwen38LayerProbeStage::Attention),
        (at, Qwen38LayerProbeStage::MlpMix),
        (at, Qwen38LayerProbeStage::MlpFfn),
        (at, Qwen38LayerProbeStage::Mlp),
    ]
}

/// Trace entries of the first `count` layers of a traced pass, in order.
pub open spec fn body_trace(ple_layer: int, count: nat) -> Seq<(usize, Qwen38LayerProbeStage)>
    decreases count,
{
    if count == 0 {
        seq![]
    } else {
        body_trace(ple_layer, (count - 1) as nat) + layer_trace(ple_layer, count - 1)
    }
}

proof fn lemma_prefill_layer(pass: PrefillPass, layer: int)
    requires
        0 <= layer <= usize::MAX,
    ensures
        swaps(pass.attention_half(layer) + pass.mlp_half(layer)) == 2 + if layer
            == pass.shape.ple_layer {
            1nat
        } else {
            0nat
        },
        trace_of(pass.attention_half(layer) + pass.mlp_half(layer)) == if pass.paths.traced {
            layer_trace(pass.shape.ple_layer as int, layer)
        } else {
            seq![]
        },
{
    broadcast use group_projections;

    let at = layer as usize;
    lemma_attention_silent(pass, layer);
    lemma_moe_silent(pass, layer);
    lemma_short(
        seq![
            if pass.paths.exact_ple {
                ForwardOp::PleExactPair
            } else {
                ForwardOp::Ple { rows: pass.rows }
            },
            ForwardOp::AddPle,
            ForwardOp::SwapStreams,
        ],
    );
    lemma_short(
        seq![
            ForwardOp::Combine { layer: at, sublayer: Sublayer::Attention, rows: pass.hyper() },
            ForwardOp::SwapStreams,
        ],
    );
    lemma_short(
        seq![
            ForwardOp::Combine { layer: at, sublayer: Sublayer::Mlp, rows: pass.hyper() },
            ForwardOp::SwapStreams,
        ],
    );
    assert(trace_of(pass.attention_half(layer) + pass.mlp_half(layer)) =~= if pass.paths.traced {
        layer_trace(pass.shape.ple_layer as int, layer)
    } else {
        seq![]
    });
}


proof fn lemma_decode_layer(pass: DecodePass, layer: int)
    requires
        0 <= layer <= usize::MAX,
    ensures
        swaps(pass.attention_half(layer) + pass.mlp_half(layer)) == 2 + if layer
            == pass.shape.ple_layer {
            1nat
        } else {
            0nat
        },
        trace_of(pass.attention_half(layer) + pass.mlp_half(layer)) == if pass.traced {
            layer_trace(pass.shape.ple_layer as int, layer)
        } else {
            seq![]
        },
{
    broadcast use group_projections;

    let at = layer as usize;
    let one = HyperRows::Batch(1);
    lemma_short(seq![ForwardOp::Ple { rows: 1 }, ForwardOp::AddPle, ForwardOp::SwapStreams]);
    lemma_short(
        seq![
            ForwardOp::Mix { layer: at, sublayer: Sublayer::Attention, rows: one },
            pass.attention_op(layer),
            ForwardOp::Combine { layer: at, sublayer: Sublayer::Attention, rows: one },
            ForwardOp::SwapStreams,
        ],
    );
    lemma_short(
        seq![
            ForwardOp::Combine { layer: at, sublayer: Sublayer::Mlp, rows: one },
            ForwardOp::SwapStreams,
        ],
    );
    assert(trace_of(pass.attention_half(layer) + pass.mlp_half(layer)) =~= if pass.traced {
        layer_trace(pass.shape.ple_layer as int, layer)
    } else {
        seq![]
    });
}

/// Stream exchanges of the first `count` layers of any pass.
pub open spec fn body_swaps(ple_layer: int, count: nat) -> nat {
    2 * count + if ple_layer < count {
        1nat
    } else {
        0nat
    }
}

proof fn lemma_prefill_body(pass: PrefillPass, count: nat)
    requires
        count <= usize::MAX,
    ensures
        swaps(pass.body_ops(count)) == body_swaps(pass.shape.ple_layer as int, count),
        trace_of(pass.body_ops(count)) == if pass.paths.traced {
            body_trace(pass.shape.ple_layer as int, count)
        } else {
            seq![]
        },
    decreases count,
{
    broadcast use group_projections;

    if count > 0 {
        lemma_prefill_body(pass, (count - 1) as nat);
        lemma_prefill_layer(pass, count - 1);
        let earlier = pass.body_ops((count - 1) as nat);
        let layer = pass.attention_half(count - 1) + pass.mlp_half(count - 1);
        assert(pass.body_ops(count) =~= earlier + layer);
        assert(trace_of(pass.body_ops(count)) =~= trace_of(earlier) + trace_of(layer));
    }
}

proof fn lemma_decode_body(pass: DecodePass, count: nat)
    requires
        count <= usize::MAX,
    ensures
        swaps(pass.body_ops(count)) == body_swaps(pass.shape.ple_layer as int, count),
        trace_of(pass.body_ops(count)) == if pass.traced {
            body_trace(pass.shape.ple_layer as int, count)
        } else {
            seq![]
        },
    decreases count,
{
    broadcast use group_projections;

    if count > 0 {
        lemma_decode_body(pass, (count - 1) as nat);
        lemma_decode_layer(pass, count - 1);
        let earlier = pass.body_ops((count - 1) as nat);
        let layer = pass.attention_half(count - 1) + pass.mlp_half(count - 1);
        assert(pass.body_ops(count) =~= earlier + layer);
        assert(trace_of(pass.body_ops(count)) =~= trace_of(earlier) + trace_of(layer));
    }
}

proof fn lemma_head_silent(logits: Qwen38LogitsMode, hidden: usize)
    ensures
        swaps(crate::qwen38_flash_next::forward::head_ops(logits, hidden)) == 0,
        trace_of(crate::qwen38_flash_next::forward::head_ops(logits, hidden)).len() == 0,
{
    lemma_short(crate::qwen38_flash_next::forward::head_ops(logits, hidden));
}

/// A prompt pass exchanges the stream buffers twice for each layer, and once more where the
/// per-layer embedding is added. A traced pass leaves four entries for each layer and one for
/// the embedding, in layer order.
pub proof fn law_prefill_streams_and_trace(pass: PrefillPass)
    requires
        pass.fits(),
    ensures
        swaps(pass.ops()) == body_swaps(
            pass.shape.ple_layer as int,
            pass.topology.weights@.len(),
        ),
        trace_of(pass.ops()) == if pass.paths.traced {
            body_trace(pass.shape.ple_layer as int, pass.topology.weights@.len())
        } else {
            seq![]
        },
{
    broadcast use group_projections;

    lemma_prefill_body(pass, pass.topology.weights@.len());
    lemma_bind_silent(pass, pass.topology.states@.len());
    lemma_head_silent(pass.logits, pass.shape.hidden);
    lemma_short(
        seq![
            ForwardOp::UploadTokens { rows: pass.rows },
            ForwardOp::GatherEmbedding {
                vocab: pass.shape.vocab,
                hidden: pass.shape.hidden,
                rows: pass.rows,
            },
            ForwardOp::RepeatStreams {
                rows: pass.rows,
                hidden: pass.shape.hidden,
                copies: pass.shape.hc_count,
            },
            ForwardOp::BeginGdn { rows: pass.rows },
        ],
    );
    assert(trace_of(pass.ops()) =~= trace_of(pass.body_ops(pass.topology.weights@.len())));
}

/// A single-token pass exchanges the stream buffers, and is traced, exactly as a prompt pass
/// over the same layers.
pub proof fn law_decode_streams_and_trace(pass: DecodePass)
    requires
        pass.fits(),
    ensures
        swaps(pass.ops()) == body_swaps(
            pass.shape.ple_layer as int,
            pass.topology.weights@.len(),
        ),
        trace_of(pass.ops()) == if pass.traced {
            body_trace(pass.shape.ple_layer as int, pass.topology.weights@.len())
        } else {
            seq![]
        },
{
    broadcast use group_projections;

    lemma_decode_body(pass, pass.topology.weights@.len());
    lemma_head_silent(pass.logits, pass.shape.hidden);
    lemma_short(
        seq![
            ForwardOp::UploadTokens { rows: 1 },
            ForwardOp::GatherEmbedding {
                vocab: pass.shape.vocab,
                hidden: pass.shape.hidden,
                rows: 1,
            },
            ForwardOp::RepeatStreams {
                rows: 1,
                hidden: pass.shape.hidden,
                copies: pass.shape.hc_count,
            },
        ],
    );
    assert(trace_of(pass.ops()) =~= trace_of(pass.body_ops(pass.topology.weights@.len())));
}

proof fn lemma_body_trace_len(ple_layer: int, count: nat)
    requires
        ple_layer >= 0,
    ensures
        body_trace(ple_layer, count).len() == 4 * count + if ple_layer < count {
            1nat
        } else {
            0nat
        },
    decreases count,
{
    if count > 0 {
        lemma_body_trace_len(ple_layer, (count - 1) as nat);
    }
}

/// The trace entry to which a layer's expert snapshots are attached is the entry of that
/// layer's feed-forward output.
pub proof fn law_snapshots_reach_their_entry(ple_layer: int, count: nat, layer: int)
    requires
        ple_layer >= 0,
        0 <= layer < count,
    ensures
        ({
            let entry = crate::qwen38_flash_next::forward::ffn_entry(ple_layer, layer);
            &&& 0 <= entry < body_trace(ple_layer, count).len()
            &&& body_trace(ple_layer, count)[entry] == (
                layer as usize,
                Qwen38LayerProbeStage::MlpFfn,
            )
        }),
    decreases count,
{
    lemma_body_trace_len(ple_layer, count);
    lemma_body_trace_len(ple_layer, (count - 1) as nat);
    if layer < count - 1 {
        law_snapshots_reach_their_entry(ple_layer, (count - 1) as nat, layer);
    }
}

/// Whether an operation attends to row `row` of a layer, at position `position`.
pub open spec fn is_row(op: ForwardOp, layer: int, row: int, position: int) -> bool {
    match op {
        ForwardOp::QsaSerialRow { layer: l, row: r, position: p, .. } => l == layer && r == row && p
            == position,
        ForwardOp::QsaPreparedRow { layer: l, row: r, position: p, .. } => l == layer && r == row
            && p == position,
        _ => false,
    }
}

/// Where the reserved pages cover the rows of a pass, every sparse-attention layer takes each
/// row once, in order, at the position that follows the rows before it.
pub proof fn law_each_row_once_in_order(pass: PrefillPass, layer: int, count: nat)
    requires
        pass.fits(),
        0 <= layer <= usize::MAX,
        count <= pass.segments@.len(),
        crate::append::segments_cover(pass.segments@, pass.rows as nat),
    ensures
        pass.qsa_rows_ops(layer, count).len() == crate::append::segment_rows(
            pass.segments@,
            count,
        ),
        forall|row: int|
            0 <= row < pass.qsa_rows_ops(layer, count).len() ==> is_row(
                #[trigger] pass.qsa_rows_ops(layer, count)[row],
                layer,
                row,
                pass.position + row,
            ),
    decreases count,
{
    if count > 0 {
        law_each_row_once_in_order(pass, layer, (count - 1) as nat);
        let segment: AppendSegment = pass.segments@[count - 1];
        let earlier = pass.qsa_rows_ops(layer, (count - 1) as nat);
        let ops = pass.qsa_rows_ops(layer, count);
        assert forall|row: int| 0 <= row < ops.len() implies is_row(
            #[trigger] ops[row],
            layer,
            row,
            pass.position + row,
        ) by {
            if row < earlier.len() {
                assert(ops[row] == earlier[row]);
            } else {
                let offset = row - earlier.len();
                assert(ops[row] == pass.qsa_row_op(layer, segment, offset));
                assert(segment.input_offset == crate::append::segment_rows(
                    pass.segments@,
                    (count - 1) as nat,
                ));
            }
        }
    }
}

} // verus!
