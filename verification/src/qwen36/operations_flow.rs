//! The steps of a batch, down to what their device operations leave.

use crate::qwen36::attention::{AttentionOp, PrefillSequence};
use crate::qwen36::attention_flow::AttentionDevice;
use crate::qwen36::ffn::{FfnOp, FfnPass, FfnWeights, MoeWeights};
use crate::qwen36::gdn::{GdnLayer, GdnOp};
use crate::qwen36::gdn_flow::GdnFrame;
use crate::qwen36::model::Qwen36TextModel;
use crate::qwen36::operations::{BatchSetting, LayerOp};
use crate::qwen36::schedule::LayerStep;
use crate::qwen36::workspace::{Qwen36HybridPrefillWorkspace, TailOp};
use vstd::prelude::*;

verus! {

/// Recurrent operations of one layer among some operations.
pub open spec fn recurrent_of(ops: Seq<LayerOp>) -> Seq<GdnOp> {
    Seq::new(ops.len(), |i: int| ops[i]->Gdn_op)
}

/// Whether operations are recurrent ones of one layer.
pub open spec fn recurrent_only(ops: Seq<LayerOp>, layer: usize) -> bool {
    forall|i: int|
        0 <= i < ops.len() ==> (#[trigger] ops[i]) is Gdn && ops[i]->Gdn_layer == layer
}

/// Attention operations of one layer among some operations.
pub open spec fn attention_of(ops: Seq<LayerOp>) -> Seq<AttentionOp> {
    Seq::new(ops.len(), |i: int| ops[i]->Attention_op)
}

/// Whether operations are attention ones of one layer.
pub open spec fn attention_only(ops: Seq<LayerOp>, layer: usize) -> bool {
    forall|i: int|
        0 <= i < ops.len() ==> (#[trigger] ops[i]) is Attention && ops[i]->Attention_layer
            == layer
}

/// Recurrent attention of a decode batch expands to operations of that very layer, on its own
/// weights, which run as a whole and take each row to its own state.
#[verifier::rlimit(40)]
pub proof fn law_recurrent_decode_step_runs(
    model: Qwen36TextModel,
    setting: BatchSetting,
    layer: usize,
    rows: usize,
)
    requires
        model.step_fits(setting, (LayerStep::LinearDecode { layer, rows })),
        model.step_runs(setting, (LayerStep::LinearDecode { layer, rows })),
    ensures
        ({
            let ops = model.step_ops(setting, LayerStep::LinearDecode { layer, rows });
            let frame = GdnFrame {
                layer: model.layers@[layer as int].attention->LinearAttention_0,
                index: layer as int,
                stride: rows as int,
                all: rows as int,
                lengths: Seq::new(rows as nat, |row: int| 1u32),
                serial: false,
                sigmoid: false,
                snapshots: None,
            };
            let device = crate::device::after(
                crate::qwen36::gdn_flow::layer_step(frame),
                crate::qwen36::gdn_flow::idle(),
                recurrent_of(ops),
            );
            let own = Seq::new(rows as nat, |row: int| (layer * rows + row, row));
            &&& recurrent_only(ops, layer)
            &&& device.sound
            &&& device.output
            &&& device.convolved == own
            &&& device.recurred == own
        }),
{
    let ops = model.step_ops(setting, LayerStep::LinearDecode { layer, rows });
    let pass = model.gdn_decode(setting, layer, rows);
    let inner = pass.body_ops() + pass.exit_ops();
    assert(recurrent_of(ops) =~= inner);
    crate::qwen36::gdn_flow::law_decode_rows_take_their_own_states(pass);
    let frame = crate::qwen36::gdn_flow::decode_frame(pass);
    assert(frame.lengths =~= Seq::new(rows as nat, |row: int| 1u32));
}

/// Recurrent attention of a prompt batch expands to operations of that very layer, on its own
/// weights, which run as a whole and take the rows of each sequence in order to the state of
/// that sequence.
#[verifier::rlimit(40)]
pub proof fn law_recurrent_prompt_step_runs(
    model: Qwen36TextModel,
    setting: BatchSetting,
    layer: usize,
    sequences: usize,
    rows: usize,
    serial_projections: bool,
    serial_recurrence: bool,
)
    requires
        ({
            let step = LayerStep::LinearPrefill {
                layer,
                sequences,
                rows,
                serial_projections,
                serial_recurrence,
            };
            model.step_fits(setting, step) && model.step_runs(setting, step)
        }),
        sequences == setting.lengths@.len(),
        rows == crate::qwen36::gdn::tokens_before(setting.lengths@, setting.lengths@.len()),
        forall|i: int| 0 <= i < setting.lengths@.len() ==> #[trigger] setting.lengths@[i] > 0,
        setting.snapshots matches Some(snapshots) ==> snapshots.state_table_stride
            == setting.sequence_capacity,
    ensures
        ({
            let ops = model.step_ops(
                setting,
                LayerStep::LinearPrefill {
                    layer,
                    sequences,
                    rows,
                    serial_projections,
                    serial_recurrence,
                },
            );
            let frame = GdnFrame {
                layer: model.layers@[layer as int].attention->LinearAttention_0,
                index: layer as int,
                stride: setting.sequence_capacity as int,
                all: rows as int,
                lengths: setting.lengths@,
                serial: serial_projections,
                sigmoid: false,
                snapshots: match setting.snapshots {
                    Some(snapshots) => Some(*snapshots),
                    None => None,
                },
            };
            let device = crate::device::after(
                crate::qwen36::gdn_flow::layer_step(frame),
                crate::qwen36::gdn_flow::idle(),
                recurrent_of(ops),
            );
            let own = crate::qwen36::gdn_flow::own_states(
                layer * setting.sequence_capacity,
                setting.lengths@,
                sequences as nat,
            );
            &&& recurrent_only(ops, layer)
            &&& device.sound
            &&& device.output
            &&& device.convolved == own
            &&& device.recurred == own
            &&& serial_recurrence && rows > sequences ==> {
                &&& device.kept_conv == frame.kept_rows(rows as int)
                &&& device.kept_recurrent == frame.kept_rows(rows as int)
            }
        }),
{
    let step = LayerStep::LinearPrefill {
        layer,
        sequences,
        rows,
        serial_projections,
        serial_recurrence,
    };
    let ops = model.step_ops(setting, step);
    let pass = model.gdn_prefill(
        setting,
        layer,
        sequences,
        rows,
        serial_projections,
        serial_recurrence,
    );
    assert(recurrent_of(ops) =~= pass.ops());
    crate::qwen36::gdn_flow::law_prompt_rows_take_their_own_states(pass);
}

/// The three attention steps of a layer of a decode batch expand to operations of that very
/// layer, on its own weights, which run as a whole: every active row is cached in the place of
/// its own sequence and attends from there.
#[verifier::rlimit(40)]
pub proof fn law_decode_attention_steps_run(
    model: Qwen36TextModel,
    setting: BatchSetting,
    layer: usize,
    rows: usize,
    active: usize,
)
    requires
        model.step_fits(setting, (LayerStep::AttentionPre { layer, rows })),
        model.step_fits(setting, (LayerStep::DecodeCache { layer, rows: active })),
        model.step_fits(setting, (LayerStep::AttentionPost { layer, rows })),
        model.step_runs(setting, (LayerStep::AttentionPre { layer, rows })),
        active <= rows,
    ensures
        ({
            let ops = model.step_ops(setting, LayerStep::AttentionPre { layer, rows })
                + model.step_ops(setting, LayerStep::DecodeCache { layer, rows: active })
                + model.step_ops(setting, LayerStep::AttentionPost { layer, rows });
            let weights = model.layers@[layer as int].attention->FullAttention_0;
            let device = crate::device::after(
                crate::qwen36::attention_flow::layer_step(weights, rows as int),
                crate::qwen36::attention_flow::idle(),
                attention_of(ops),
            );
            &&& attention_only(ops, layer)
            &&& device.sound
            &&& device.output
            &&& device.attended == Seq::new(
                active as nat,
                |row: int| crate::qwen36::attention_flow::decoded(setting.rows@[row], row),
            )
        }),
{
    let weights = model.layers@[layer as int].attention->FullAttention_0;
    let pre = model.step_ops(setting, LayerStep::AttentionPre { layer, rows });
    let cache = model.step_ops(setting, LayerStep::DecodeCache { layer, rows: active });
    let post = model.step_ops(setting, LayerStep::AttentionPost { layer, rows });
    let ops = pre + cache + post;
    let plans = setting.buffers.full.spec_plans();
    crate::qwen36::attention_flow::law_decode_attention_runs(
        weights,
        plans,
        rows,
        setting.rows@,
        active as nat,
    );
    assert(attention_of(ops) =~= weights.pre_ops(rows, weights.sections->0) + Seq::new(
        active as nat,
        |row: int| weights.decode_row(row, setting.rows@[row]),
    ) + weights.post_ops(rows));
}

/// Whether the prompts of a batch fill rows of the batch only.
pub open spec fn within_rows(
    prompts: Seq<PrefillSequence>,
    offsets: Seq<u32>,
    rows: usize,
) -> bool {
    forall|i: int, j: int|
        0 <= i < prompts.len() && 0 <= j < prompts[i].reservation.segments@.len()
            ==> offsets[i] + (#[trigger] prompts[i].reservation.segments@[j]).input_offset
            + prompts[i].reservation.segments@[j].rows <= rows
}

/// Whether an operation caches rows of a batch of `rows` rows.
spec fn caches_within(op: AttentionOp, rows: usize) -> bool {
    match op {
        AttentionOp::CacheRows { input_row, rows: count, .. } => input_row + count <= rows,
        _ => false,
    }
}

#[verifier::rlimit(40)]
proof fn lemma_cached(
    weights: crate::qwen36::attention::AttentionLayer,
    rows: usize,
    before: AttentionDevice,
    ops: Seq<AttentionOp>,
)
    requires
        before.sound && before.rows_ready() && !before.gated,
        forall|i: int| 0 <= i < ops.len() ==> caches_within(#[trigger] ops[i], rows),
    ensures
        ({
            let after = crate::device::after(
                crate::qwen36::attention_flow::layer_step(weights, rows as int),
                before,
                ops,
            );
            after == (AttentionDevice { attended: after.attended, ..before })
        }),
    decreases ops.len(),
{
    if ops.len() > 0 {
        assert forall|i: int| 0 <= i < ops.drop_last().len() implies caches_within(
            #[trigger] ops.drop_last()[i],
            rows,
        ) by {
            assert(ops.drop_last()[i] == ops[i]);
        }
        lemma_cached(weights, rows, before, ops.drop_last());
        assert(caches_within(ops.last(), rows));
    }
}

/// The three attention steps of a layer of a prompt batch expand to operations of that very
/// layer, on its own weights, which run as a whole; behind the rotation, the rows
/// of every prompt are cached and attended from.
#[verifier::rlimit(40)]
pub proof fn law_prompt_attention_steps_run(
    model: Qwen36TextModel,
    setting: BatchSetting,
    layer: usize,
    rows: usize,
    serial_rows: bool,
)
    requires
        model.step_fits(setting, (LayerStep::AttentionPre { layer, rows })),
        model.step_fits(setting, (LayerStep::PromptCache { layer, serial_rows })),
        model.step_fits(setting, (LayerStep::AttentionPost { layer, rows })),
        model.step_runs(setting, (LayerStep::AttentionPre { layer, rows })),
        within_rows(setting.prompts@, setting.offsets@, rows),
        setting.prompts@.len() <= usize::MAX,
    ensures
        ({
            let cache = model.step_ops(setting, LayerStep::PromptCache { layer, serial_rows });
            let ops = model.step_ops(setting, LayerStep::AttentionPre { layer, rows }) + cache
                + model.step_ops(setting, LayerStep::AttentionPost { layer, rows });
            let weights = model.layers@[layer as int].attention->FullAttention_0;
            let device = crate::device::after(
                crate::qwen36::attention_flow::layer_step(weights, rows as int),
                crate::qwen36::attention_flow::idle(),
                attention_of(ops),
            );
            &&& attention_only(ops, layer)
            &&& device.sound
            &&& device.output
            &&& crate::qwen36::attention_flow::cached_rows(attention_of(cache))
                == crate::qwen36::attention_flow::reserved_rows(
                setting.prompts@,
                setting.prompts@.len(),
            )
        }),
{
    let weights = model.layers@[layer as int].attention->FullAttention_0;
    let pre = model.step_ops(setting, LayerStep::AttentionPre { layer, rows });
    let cache = model.step_ops(setting, LayerStep::PromptCache { layer, serial_rows });
    let post = model.step_ops(setting, LayerStep::AttentionPost { layer, rows });
    let plans = setting.buffers.full.spec_plans();
    let count = setting.prompts@.len();
    let step = crate::qwen36::attention_flow::layer_step(weights, rows as int);
    let idle = crate::qwen36::attention_flow::idle();
    let first = weights.pre_ops(rows, weights.sections->0);
    let middle = crate::qwen36::attention::prefill_ops(
        setting.prompts@,
        setting.offsets@,
        serial_rows,
        count,
    );
    let last = weights.post_ops(rows);
    assert(attention_of(pre + cache + post) =~= first + middle + last);
    assert(attention_of(cache) =~= middle);
    crate::qwen36::attention_flow::law_prompt_rows_reach_their_pages(
        setting.prompts@,
        setting.offsets@,
        serial_rows,
        count,
    );
    assert forall|i: int| 0 <= i < middle.len() implies caches_within(
        #[trigger] middle[i],
        rows,
    ) by {
        assert(crate::qwen36::attention_flow::runs_in_batch(
            middle[i],
            setting.prompts@,
            setting.offsets@,
            count as int,
        ));
        let index = choose|index: int|
            0 <= index < count && #[trigger] crate::qwen36::attention_flow::runs_in_prompt(
                middle[i],
                setting.prompts@,
                setting.offsets@,
                index,
                setting.prompts@[index].reservation.segments@.len() as int,
            );
        let segment = choose|segment: int|
            0 <= segment < setting.prompts@[index].reservation.segments@.len()
                && #[trigger] crate::qwen36::attention_flow::runs_in_segment(
                middle[i],
                setting.prompts@,
                setting.offsets@,
                index,
                segment,
            );
        assert(setting.offsets@[index]
            + setting.prompts@[index].reservation.segments@[segment].input_offset
            + setting.prompts@[index].reservation.segments@[segment].rows <= rows);
    }
    crate::device::lemma_after_both(step, idle, first + middle, last);
    crate::device::lemma_after_both(step, idle, first, middle);
    crate::qwen36::attention_flow::law_rows_are_rotated_before_the_cache(weights, plans, rows);
    let rotated = crate::device::after(step, idle, first);
    lemma_cached(weights, rows, rotated, middle);
    let cached = crate::device::after(step, rotated, middle);
    crate::qwen36::attention_flow::law_attention_output_is_gated_and_projected(
        weights,
        rows,
        cached,
    );
}

/// Buffers of what follows the attention of a layer.
pub struct TailDevice<D> {
    /// Every operation so far found its inputs ready.
    pub sound: bool,
    /// Whether the attention output was added to the residual stream.
    pub added: bool,
    /// Whether the sum was normalised.
    pub normed: bool,
    /// Buffers of the feed-forward block.
    pub block: D,
}

impl<D> TailDevice<D> {
    /// What one operation leaves, of a layer with `rows` rows of width `hidden`.
    pub open spec fn performed(
        self,
        inner: spec_fn(D, FfnOp) -> D,
        rows: usize,
        hidden: usize,
        op: TailOp,
    ) -> TailDevice<D> {
        match op {
            TailOp::AddAttention(values) => TailDevice {
                sound: self.sound && !self.added && values == rows * hidden,
                added: true,
                ..self
            },
            TailOp::PostNorm(count) => TailDevice {
                sound: self.sound && self.added && !self.normed && count == rows,
                normed: true,
                ..self
            },
            TailOp::Ffn(op) => TailDevice {
                sound: self.sound && self.normed,
                block: inner(self.block, op),
                ..self
            },
        }
    }
}

/// What the operations behind the attention of a layer do.
pub open spec fn tail_step<D>(
    inner: spec_fn(D, FfnOp) -> D,
    rows: usize,
    hidden: usize,
) -> spec_fn(TailDevice<D>, TailOp) -> TailDevice<D> {
    |device: TailDevice<D>, op: TailOp| device.performed(inner, rows, hidden, op)
}

proof fn lemma_block<D>(
    inner: spec_fn(D, FfnOp) -> D,
    rows: usize,
    hidden: usize,
    before: TailDevice<D>,
    ops: Seq<FfnOp>,
)
    requires
        before.sound && before.normed,
    ensures
        crate::device::after(
            tail_step(inner, rows, hidden),
            before,
            crate::qwen36::workspace::ffn_tail(ops),
        ) == (TailDevice { block: crate::device::after(inner, before.block, ops), ..before }),
    decreases ops.len(),
{
    let all = crate::qwen36::workspace::ffn_tail(ops);
    if ops.len() > 0 {
        lemma_block(inner, rows, hidden, before, ops.drop_last());
        assert(all.drop_last() =~= crate::qwen36::workspace::ffn_tail(ops.drop_last()));
        assert(all.last() == TailOp::Ffn(ops.last()));
    }
}

#[verifier::rlimit(40)]
proof fn lemma_tail<D>(
    inner: spec_fn(D, FfnOp) -> D,
    pass: FfnPass,
    block: D,
    ops: Seq<FfnOp>,
)
    requires
        pass.rows * pass.hidden <= usize::MAX,
    ensures
        crate::device::after(
            tail_step(inner, pass.rows, pass.hidden),
            TailDevice { sound: true, added: false, normed: false, block },
            seq![
                TailOp::AddAttention((pass.rows * pass.hidden) as usize),
                TailOp::PostNorm(pass.rows),
            ] + crate::qwen36::workspace::ffn_tail(ops),
        ) == (TailDevice {
            sound: true,
            added: true,
            normed: true,
            block: crate::device::after(inner, block, ops),
        }),
{
    let step = tail_step(inner, pass.rows, pass.hidden);
    let start = TailDevice { sound: true, added: false, normed: false, block };
    let first = seq![
        TailOp::AddAttention((pass.rows * pass.hidden) as usize),
        TailOp::PostNorm(pass.rows),
    ];
    assert(0 <= pass.rows * pass.hidden) by (nonlinear_arith);
    crate::device::lemma_after_both(
        step,
        start,
        first,
        crate::qwen36::workspace::ffn_tail(ops),
    );
    crate::device::lemma_after_two(step, start, first);
    let ready = TailDevice { sound: true, added: true, normed: true, block };
    lemma_block(inner, pass.rows, pass.hidden, ready, ops);
}

/// Operations behind the attention of one layer among some operations.
pub open spec fn tail_of(ops: Seq<LayerOp>) -> Seq<TailOp> {
    Seq::new(ops.len(), |i: int| ops[i]->Tail_op)
}

/// Whether operations follow the attention of one layer.
pub open spec fn tail_only(ops: Seq<LayerOp>, layer: usize) -> bool {
    forall|i: int|
        0 <= i < ops.len() ==> (#[trigger] ops[i]) is Tail && ops[i]->Tail_layer == layer
}

/// What follows the attention of a layer expands to operations of that very layer: the attention
/// output is added to the residual stream, the sum is normalised, and then the layer's own
/// feed-forward block runs as a whole.
#[verifier::rlimit(40)]
pub proof fn law_tail_step_runs(
    model: Qwen36TextModel,
    setting: BatchSetting,
    layer: usize,
    rows: usize,
    stabilise: bool,
)
    requires
        model.step_fits(setting, (LayerStep::Tail { layer, rows, stabilise })),
        model.layers@[layer as int].ffn matches FfnWeights::Moe(weights) ==> rows
            * weights.experts_per_token <= usize::MAX && weights.expert_intermediate * 2
            <= usize::MAX,
    ensures
        ({
            let ops = model.step_ops(setting, LayerStep::Tail { layer, rows, stabilise });
            let hidden = model.manifest.hidden;
            let pass = FfnPass { hidden, rows, stabilise, parallel: true };
            &&& tail_only(ops, layer)
            &&& match model.layers@[layer as int].ffn {
                FfnWeights::Dense(weights) => {
                    let device = crate::device::after(
                        tail_step(
                            crate::qwen36::ffn_flow::dense_step(pass, weights),
                            rows,
                            hidden,
                        ),
                        TailDevice {
                            sound: true,
                            added: false,
                            normed: false,
                            block: crate::qwen36::ffn_flow::idle_dense(),
                        },
                        tail_of(ops),
                    );
                    device.sound && device.block.sound && device.block.rounded
                },
                FfnWeights::Moe(weights) => {
                    let device = crate::device::after(
                        tail_step(
                            crate::qwen36::ffn_flow::moe_step(pass, weights),
                            rows,
                            hidden,
                        ),
                        TailDevice {
                            sound: true,
                            added: false,
                            normed: false,
                            block: crate::qwen36::ffn_flow::idle_moe(),
                        },
                        tail_of(ops),
                    );
                    device.sound && device.block.sound && device.block.output
                },
            }
        }),
{
    let ops = model.step_ops(setting, LayerStep::Tail { layer, rows, stabilise });
    let pass = model.ffn_pass(rows, stabilise);
    let weights = model.layers@[layer as int].ffn;
    assert(tail_of(ops) =~= seq![
        TailOp::AddAttention((pass.rows * pass.hidden) as usize),
        TailOp::PostNorm(pass.rows),
    ] + crate::qwen36::workspace::ffn_tail(pass.ops(weights)));
    match weights {
        FfnWeights::Dense(dense) => {
            crate::qwen36::ffn_flow::law_dense_block_runs(pass, dense);
            lemma_tail(
                crate::qwen36::ffn_flow::dense_step(pass, dense),
                pass,
                crate::qwen36::ffn_flow::idle_dense(),
                pass.ops(weights),
            );
        },
        FfnWeights::Moe(experts) => {
            crate::qwen36::ffn_flow::law_expert_block_runs(pass, experts);
            lemma_tail(
                crate::qwen36::ffn_flow::moe_step(pass, experts),
                pass,
                crate::qwen36::ffn_flow::idle_moe(),
                pass.ops(weights),
            );
        },
    }
}

/// The recurrence of a chunk of one sequence runs as a whole on the layer's own weights: every
/// row in order takes the state of that sequence, under a plain sigmoid, and where states are
/// kept, that of every row is.
#[verifier::rlimit(40)]
pub proof fn law_hybrid_recurrence_runs<'a>(
    workspace: &'a Qwen36HybridPrefillWorkspace,
    weights: GdnLayer,
    layer: usize,
    tokens: usize,
    lengths: &'a [u32],
)
    requires
        workspace.gdn_fits(weights, layer, tokens),
        workspace.linear.spec_plans().obstacle(weights, tokens) is None,
        0 < tokens,
        lengths@ == seq![tokens as u32],
        workspace.state_snapshots matches Some(snapshots) ==> snapshots.state_table_stride == 1,
    ensures
        ({
            let frame = GdnFrame {
                layer: weights,
                index: layer as int,
                stride: 1,
                all: tokens as int,
                lengths: lengths@,
                serial: false,
                sigmoid: true,
                snapshots: workspace.state_snapshots,
            };
            let device = crate::device::after(
                crate::qwen36::gdn_flow::layer_step(frame),
                crate::qwen36::gdn_flow::idle(),
                workspace.gdn_pass(weights, layer, tokens, lengths).ops(),
            );
            let own = crate::qwen36::gdn_flow::own_states(layer as int, lengths@, 1);
            &&& device.sound
            &&& device.output
            &&& device.convolved == own
            &&& device.recurred == own
            &&& workspace.state_snapshots is Some && tokens > 1 ==> {
                &&& device.kept_conv == frame.kept_rows(tokens as int)
                &&& device.kept_recurrent == frame.kept_rows(tokens as int)
            }
        }),
{
    let pass = workspace.gdn_pass(weights, layer, tokens, lengths);
    reveal_with_fuel(crate::qwen36::gdn::tokens_before, 2);
    assert(layer * 1 == layer);
    crate::qwen36::gdn_flow::law_prompt_rows_take_their_own_states(pass);
}

/// The experts of a chunk run as a whole on one stream.
pub proof fn law_hybrid_experts_run(
    workspace: Qwen36HybridPrefillWorkspace,
    weights: MoeWeights,
    hidden: usize,
    tokens: usize,
)
    requires
        tokens * weights.experts_per_token <= usize::MAX,
        weights.expert_intermediate * 2 <= usize::MAX,
    ensures
        ({
            let pass = FfnPass { hidden, rows: tokens, stabilise: false, parallel: false };
            let device = crate::device::after(
                crate::qwen36::ffn_flow::moe_step(pass, weights),
                crate::qwen36::ffn_flow::idle_moe(),
                workspace.moe_pass(hidden, tokens).moe_ops(weights),
            );
            device.sound && device.output
        }),
{
    crate::qwen36::ffn_flow::law_expert_block_runs(workspace.moe_pass(hidden, tokens), weights);
}

} // verus!
