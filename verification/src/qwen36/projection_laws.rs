//! Planned projections run, and the buffers that they ran on serve the next batch.

use crate::manifest::QwenLayerKind;
use crate::qwen36::allocation::LayerBuffers;
use crate::qwen36::attention::{AttentionLayer, AttentionOp, PrefillSequence};
use crate::qwen36::ffn::{
    BatchFfnWorkspace, DenseWeights, FfnOp, FfnPass, FfnProjection, FfnWeights, MoeWeights,
};
use crate::qwen36::gdn::{GdnDecode, GdnOp, GdnPrefill};
use crate::qwen36::linear::{
    BatchLinearPlan, BatchLinearPlanSet, Linear, LinearError, LinearOp, Storage,
};
use crate::qwen36::model::Qwen36TextModel;
use crate::qwen36::operations::{BatchSetting, LayerOp};
use crate::qwen36::projection::{Projection, ProjectionSite};
use crate::qwen36::schedule::LayerStep;
use crate::qwen36::workspace::TailOp;
use vstd::prelude::*;

verus! {

/// Whether an operation of recurrent attention runs a projection.
pub open spec fn gdn_projects(op: GdnOp) -> bool {
    op is Project || op is ProjectAlphaBeta || op is ProjectQuantized
}

spec fn gdn_idle(ops: Seq<GdnOp>) -> bool {
    forall|i: int| 0 <= i < ops.len() ==> !gdn_projects(#[trigger] ops[i])
}

proof fn lemma_gdn_idle(left: Seq<GdnOp>, right: Seq<GdnOp>)
    requires
        gdn_idle(left),
        gdn_idle(right),
    ensures
        gdn_idle(left + right),
{
    let all = left + right;
    assert forall|i: int| 0 <= i < all.len() implies !gdn_projects(#[trigger] all[i]) by {
        if i < left.len() {
            assert(all[i] == left[i]);
        } else {
            assert(all[i] == right[i - left.len()]);
        }
    }
}

proof fn lemma_conv_sequence_idle(pass: GdnPrefill, sequence: int, start: int, rows: nat)
    ensures
        gdn_idle(pass.conv_sequence(sequence, start, rows)),
    decreases rows,
{
    if rows > 0 {
        lemma_conv_sequence_idle(pass, sequence, start, (rows - 1) as nat);
        assert(gdn_idle(pass.conv_row(sequence, start + rows - 1)));
        lemma_gdn_idle(
            pass.conv_sequence(sequence, start, (rows - 1) as nat),
            pass.conv_row(sequence, start + rows - 1),
        );
    }
}

proof fn lemma_recur_sequence_idle(pass: GdnPrefill, sequence: int, start: int, rows: nat)
    ensures
        gdn_idle(pass.recur_sequence(sequence, start, rows)),
    decreases rows,
{
    if rows > 0 {
        lemma_recur_sequence_idle(pass, sequence, start, (rows - 1) as nat);
        assert(gdn_idle(pass.recur_row(sequence, start + rows - 1)));
        lemma_gdn_idle(
            pass.recur_sequence(sequence, start, (rows - 1) as nat),
            pass.recur_row(sequence, start + rows - 1),
        );
    }
}

proof fn lemma_serial_idle(pass: GdnPrefill, count: nat)
    ensures
        gdn_idle(pass.conv_serial(count)),
        gdn_idle(pass.recur_serial(count)),
    decreases count,
{
    if count > 0 {
        let fewer = (count - 1) as nat;
        let start = crate::qwen36::gdn::tokens_before(pass.lengths@, fewer) as int;
        let rows = pass.lengths@[count - 1] as nat;
        lemma_serial_idle(pass, fewer);
        lemma_conv_sequence_idle(pass, count - 1, start, rows);
        lemma_recur_sequence_idle(pass, count - 1, start, rows);
        lemma_gdn_idle(pass.conv_serial(fewer), pass.conv_sequence(count - 1, start, rows));
        lemma_gdn_idle(pass.recur_serial(fewer), pass.recur_sequence(count - 1, start, rows));
    }
}

/// A projection of a prompt pass takes an input that was prepared for it.
proof fn lemma_prefill_projection(pass: GdnPrefill, index: int)
    requires
        0 <= index < pass.ops().len(),
        gdn_projects(pass.ops()[index]),
    ensures
        pass.ops()[index] matches GdnOp::Project { target, rows, mode, .. } ==> {
            &&& rows == pass.row_capacity
            &&& mode == if target is Out {
                pass.value_mode()
            } else {
                pass.hidden_mode()
            }
        },
        !(pass.ops()[index] is ProjectQuantized),
{
    let entry = pass.entry_ops();
    let gate = seq![
        GdnOp::Gate {
            rows: pass.row_capacity,
            heads: pass.layer.value_heads,
            chunked: pass.chunked(),
        },
    ];
    let exit = pass.exit_ops();
    lemma_serial_idle(pass, pass.lengths@.len());
    assert(gdn_idle(pass.conv_ops()));
    assert(gdn_idle(pass.recur_ops()));
    assert(gdn_idle(gate));
    lemma_gdn_idle(pass.conv_ops(), gate);
    lemma_gdn_idle(pass.conv_ops() + gate, pass.recur_ops());
    let middle = pass.conv_ops() + gate + pass.recur_ops();
    assert(pass.ops() =~= entry + middle + exit);
    if index < entry.len() {
        assert(pass.ops()[index] == entry[index]);
    } else if index < entry.len() + middle.len() {
        assert(pass.ops()[index] == middle[index - entry.len()]);
    } else {
        assert(pass.ops()[index] == exit[index - entry.len() - middle.len()]);
    }
}

/// A projection of a decode pass takes an input that was prepared for it.
proof fn lemma_decode_projection(pass: GdnDecode, index: int)
    requires
        0 <= index < (pass.body_ops() + pass.exit_ops()).len(),
        gdn_projects((pass.body_ops() + pass.exit_ops())[index]),
    ensures
        (pass.body_ops() + pass.exit_ops())[index] matches GdnOp::Project {
            target,
            rows,
            mode,
            ..
        } ==> {
            &&& rows == pass.capacity
            &&& mode == if target is Out {
                pass.value_mode()
            } else {
                pass.hidden_mode()
            }
        },
        (pass.body_ops() + pass.exit_ops())[index] is ProjectQuantized ==> {
            &&& pass.layer.out.storage == Storage::Nvfp4
            &&& pass.plans.out == Storage::Nvfp4
        },
{
    let body = pass.body_ops();
    let exit = pass.exit_ops();
    if index < body.len() {
        assert((body + exit)[index] == body[index]);
    } else {
        assert((body + exit)[index] == exit[index - body.len()]);
    }
}

spec fn attention_idle(ops: Seq<AttentionOp>) -> bool {
    forall|i: int| 0 <= i < ops.len() ==> !((#[trigger] ops[i]) is Project)
}

proof fn lemma_attention_idle(left: Seq<AttentionOp>, right: Seq<AttentionOp>)
    requires
        attention_idle(left),
        attention_idle(right),
    ensures
        attention_idle(left + right),
{
    let all = left + right;
    assert forall|i: int| 0 <= i < all.len() implies !((#[trigger] all[i]) is Project) by {
        if i < left.len() {
            assert(all[i] == left[i]);
        } else {
            assert(all[i] == right[i - left.len()]);
        }
    }
}

proof fn lemma_segment_idle(
    prompt: PrefillSequence,
    sequence: int,
    segment: crate::append::AppendSegment,
    input_row: int,
    serial: bool,
    processed: int,
)
    ensures
        attention_idle(prompt.segment_ops(sequence, segment, input_row, serial, processed)),
    decreases segment.rows - processed,
{
    let token = segment.input_offset + processed;
    let rows = crate::qwen36::attention::chunk_rows(
        segment.rows - processed,
        prompt.position + token,
        serial,
    );
    if processed < segment.rows && rows > 0 {
        lemma_segment_idle(prompt, sequence, segment, input_row, serial, processed + rows);
        let head = seq![
            AttentionOp::CacheRows {
                sequence: sequence as usize,
                page: segment.page,
                page_offset: (segment.page_offset + processed) as usize,
                position: (prompt.position + token) as usize,
                input_row: (input_row + token) as usize,
                rows: rows as usize,
            },
        ];
        lemma_attention_idle(
            head,
            prompt.segment_ops(sequence, segment, input_row, serial, processed + rows),
        );
    }
}

proof fn lemma_sequence_idle(
    prompt: PrefillSequence,
    sequence: int,
    input_row: int,
    serial: bool,
    count: nat,
)
    ensures
        attention_idle(prompt.sequence_ops(sequence, input_row, serial, count)),
    decreases count,
{
    if count > 0 {
        let fewer = (count - 1) as nat;
        let segment = prompt.reservation.segments@[count - 1];
        lemma_sequence_idle(prompt, sequence, input_row, serial, fewer);
        lemma_segment_idle(prompt, sequence, segment, input_row, serial, 0);
        lemma_attention_idle(
            prompt.sequence_ops(sequence, input_row, serial, fewer),
            prompt.segment_ops(sequence, segment, input_row, serial, 0),
        );
    }
}

proof fn lemma_prompts_idle(
    prompts: Seq<PrefillSequence>,
    offsets: Seq<u32>,
    serial: bool,
    count: nat,
)
    ensures
        attention_idle(crate::qwen36::attention::prefill_ops(prompts, offsets, serial, count)),
    decreases count,
{
    if count > 0 {
        let fewer = (count - 1) as nat;
        let last = prompts[count - 1];
        let row = offsets[count - 1] as int;
        let segments = last.reservation.segments@.len();
        lemma_prompts_idle(prompts, offsets, serial, fewer);
        lemma_sequence_idle(last, count - 1, row, serial, segments);
        lemma_attention_idle(
            crate::qwen36::attention::prefill_ops(prompts, offsets, serial, fewer),
            last.sequence_ops(count - 1, row, serial, segments),
        );
    }
}

proof fn lemma_entry_projection(layer: AttentionLayer, rows: usize, index: int)
    requires
        layer.sections is Some,
        0 <= index < layer.pre_ops(rows, layer.sections->0).len(),
    ensures
        layer.pre_ops(rows, layer.sections->0)[index] matches AttentionOp::Project {
            target,
            rows: planned,
            mode,
        } ==> {
            &&& planned == rows
            &&& !(target is Output)
            &&& mode == layer.hidden_mode(rows)
        },
{
}

proof fn lemma_exit_projection(layer: AttentionLayer, rows: usize, index: int)
    requires
        0 <= index < layer.post_ops(rows).len(),
    ensures
        layer.post_ops(rows)[index] matches AttentionOp::Project { target, rows: planned, mode }
            ==> {
            &&& planned == rows
            &&& target is Output
            &&& mode == layer.gated_mode(rows)
        },
{
}

proof fn lemma_dense_projection(pass: FfnPass, weights: DenseWeights, index: int)
    requires
        0 <= index < pass.dense_ops(weights).len(),
    ensures
        pass.dense_ops(weights)[index] matches FfnOp::Project { target, rows, mode, .. } ==> {
            &&& rows == pass.rows
            &&& mode == crate::qwen36::linear::quantization_of(
                seq![
                    if target is GateUp {
                        weights.gate_up
                    } else {
                        weights.down
                    },
                ],
                pass.rows,
            )
        },
{
    let up = pass.quantize_ops(FfnProjection::GateUp, weights.gate_up);
    let silu = seq![FfnOp::Silu { rows: pass.rows, width: weights.down.cols }];
    let down = pass.quantize_ops(FfnProjection::Down, weights.down);
    let last = seq![
        FfnOp::AddResidual { values: (pass.rows * pass.hidden) as usize },
        FfnOp::RoundOutput,
    ];
    let ops = pass.dense_ops(weights);
    assert(ops =~= up + silu + down + last);
    if index < up.len() {
        assert(ops[index] == up[index]);
    } else if index < up.len() + silu.len() {
        assert(ops[index] == silu[index - up.len()]);
    } else if index < up.len() + silu.len() + down.len() {
        assert(ops[index] == down[index - up.len() - silu.len()]);
    } else {
        assert(ops[index] == last[index - up.len() - silu.len() - down.len()]);
    }
}

spec fn ffn_idle(ops: Seq<FfnOp>) -> bool {
    forall|i: int| 0 <= i < ops.len() ==> !((#[trigger] ops[i]) is Project)
}

proof fn lemma_ffn_idle(left: Seq<FfnOp>, right: Seq<FfnOp>)
    requires
        ffn_idle(left),
        ffn_idle(right),
    ensures
        ffn_idle(left + right),
{
    let all = left + right;
    assert forall|i: int| 0 <= i < all.len() implies !((#[trigger] all[i]) is Project) by {
        if i < left.len() {
            assert(all[i] == left[i]);
        } else {
            assert(all[i] == right[i - left.len()]);
        }
    }
}

proof fn lemma_experts_idle(pass: FfnPass, weights: MoeWeights)
    ensures
        ffn_idle(pass.moe_ops(weights)),
{
    let fork = seq![FfnOp::RecordFork, FfnOp::WaitFork];
    let shared = pass.shared_ops(weights, crate::qwen36::ffn::FfnStream::Shared);
    let main = pass.shared_ops(weights, crate::qwen36::ffn::FfnStream::Main);
    let head = if pass.parallel {
        fork + shared
    } else {
        seq![]
    };
    let tail = if pass.parallel {
        seq![FfnOp::RecordJoin, FfnOp::WaitJoin]
    } else {
        main
    };
    let last = seq![FfnOp::Finalize { rows: pass.rows, hidden: pass.hidden }];
    lemma_ffn_idle(fork, shared);
    lemma_ffn_idle(head, pass.route_ops(weights));
    lemma_ffn_idle(head + pass.route_ops(weights), pass.expert_ops(weights));
    let routed = head + pass.route_ops(weights) + pass.expert_ops(weights);
    lemma_ffn_idle(routed, tail);
    lemma_ffn_idle(routed + tail, last);
    assert(pass.moe_ops(weights) =~= routed + tail + last);
}

proof fn lemma_recurrent_projections_run(
    model: Qwen36TextModel,
    setting: BatchSetting,
    step: LayerStep,
    index: int,
)
    requires
        step is LinearPrefill || step is LinearDecode,
        model.step_fits(setting, step),
        model.step_runs(setting, step),
        setting.buffers.linear.alpha_beta_plan.storage == Storage::Bf16,
        0 <= index < model.step_ops(setting, step).len(),
        model.projection_of(model.step_ops(setting, step)[index]) is Some,
    ensures
        planned_projection_runs(model, setting, model.step_ops(setting, step)[index]),
{
    match step {
        LayerStep::LinearPrefill {
            layer,
            sequences,
            rows,
            serial_projections,
            serial_recurrence,
        } => {
            let pass = model.gdn_prefill(
                setting,
                layer,
                sequences,
                rows,
                serial_projections,
                serial_recurrence,
            );
            assert(model.step_ops(setting, step)[index] == (LayerOp::Gdn {
                layer,
                op: pass.ops()[index],
            }));
            lemma_prefill_projection(pass, index);
        },
        LayerStep::LinearDecode { layer, rows } => {
            let pass = model.gdn_decode(setting, layer, rows);
            let ops = pass.body_ops() + pass.exit_ops();
            assert(model.step_ops(setting, step)[index] == (LayerOp::Gdn {
                layer,
                op: ops[index],
            }));
            lemma_decode_projection(pass, index);
        },
        _ => {},
    }
}

proof fn lemma_attention_projections_run(
    model: Qwen36TextModel,
    setting: BatchSetting,
    step: LayerStep,
    index: int,
)
    requires
        step is AttentionPre || step is AttentionPost || step is PromptCache
            || step is DecodeCache,
        model.step_fits(setting, step),
        model.step_runs(setting, step),
        0 <= index < model.step_ops(setting, step).len(),
        model.projection_of(model.step_ops(setting, step)[index]) is Some,
    ensures
        planned_projection_runs(model, setting, model.step_ops(setting, step)[index]),
{
    match step {
        LayerStep::AttentionPre { layer, rows } => {
            let weights = model.layers@[layer as int].attention->FullAttention_0;
            assert(model.step_ops(setting, step)[index] == (LayerOp::Attention {
                layer,
                op: weights.pre_ops(rows, weights.sections->0)[index],
            }));
            lemma_entry_projection(weights, rows, index);
        },
        LayerStep::AttentionPost { layer, rows } => {
            let weights = model.layers@[layer as int].attention->FullAttention_0;
            assert(model.step_ops(setting, step)[index] == (LayerOp::Attention {
                layer,
                op: weights.post_ops(rows)[index],
            }));
            lemma_exit_projection(weights, rows, index);
        },
        LayerStep::PromptCache { layer, serial_rows } => {
            let count = setting.prompts@.len();
            let ops = crate::qwen36::attention::prefill_ops(
                setting.prompts@,
                setting.offsets@,
                serial_rows,
                count,
            );
            assert(model.step_ops(setting, step)[index] == (LayerOp::Attention {
                layer,
                op: ops[index],
            }));
            lemma_prompts_idle(setting.prompts@, setting.offsets@, serial_rows, count);
        },
        _ => {},
    }
}

proof fn lemma_tail_projections_run(
    model: Qwen36TextModel,
    setting: BatchSetting,
    step: LayerStep,
    index: int,
)
    requires
        step is Tail,
        model.step_fits(setting, step),
        model.step_runs(setting, step),
        0 <= index < model.step_ops(setting, step).len(),
        model.projection_of(model.step_ops(setting, step)[index]) is Some,
    ensures
        planned_projection_runs(model, setting, model.step_ops(setting, step)[index]),
{
    match step {
        LayerStep::Tail { layer, rows, stabilise } => {
            let pass = model.ffn_pass(rows, stabilise);
            let weights = model.layers@[layer as int].ffn;
            let ops = model.step_ops(setting, step);
            if index >= 2 {
                assert(ops[index] == (LayerOp::Tail {
                    layer,
                    op: TailOp::Ffn(pass.ops(weights)[index - 2]),
                }));
                match weights {
                    FfnWeights::Dense(dense) => lemma_dense_projection(pass, dense, index - 2),
                    FfnWeights::Moe(experts) => lemma_experts_idle(pass, experts),
                }
            }
        },
        _ => {},
    }
}

/// Whether an operation's projection runs on the plans of its buffers.
pub open spec fn planned_projection_runs(
    model: Qwen36TextModel,
    setting: BatchSetting,
    op: LayerOp,
) -> bool {
    let projection = model.projection_of(op)->0;
    &&& setting.buffers.projection_obstacle(projection) is None
    &&& projection.quantized ==> projection.linear.storage == Storage::Nvfp4
}

/// Every projection among the operations of a step that runs has a plan in the buffers for the
/// storage format of its weights, and an input that was prepared for it: no projection is
/// refused once the step was planned.
pub proof fn law_planned_projections_run(
    model: Qwen36TextModel,
    setting: BatchSetting,
    step: LayerStep,
    index: int,
)
    requires
        model.step_fits(setting, step),
        model.step_runs(setting, step),
        setting.buffers.linear.alpha_beta_plan.storage == Storage::Bf16,
        0 <= index < model.step_ops(setting, step).len(),
        model.projection_of(model.step_ops(setting, step)[index]) is Some,
    ensures
        planned_projection_runs(model, setting, model.step_ops(setting, step)[index]),
{
    if step is LinearPrefill || step is LinearDecode {
        lemma_recurrent_projections_run(model, setting, step, index);
    } else if step is Tail {
        lemma_tail_projections_run(model, setting, step, index);
    } else if step is AttentionPre || step is AttentionPost || step is PromptCache
        || step is DecodeCache {
        lemma_attention_projections_run(model, setting, step, index);
    }
}

proof fn lemma_step_projections_run(
    model: Qwen36TextModel,
    setting: BatchSetting,
    steps: Seq<LayerStep>,
    count: nat,
    index: int,
)
    requires
        count <= steps.len(),
        forall|i: int| 0 <= i < steps.len() ==> model.step_fits(setting, #[trigger] steps[i]),
        forall|i: int| 0 <= i < steps.len() ==> model.step_runs(setting, #[trigger] steps[i]),
        setting.buffers.linear.alpha_beta_plan.storage == Storage::Bf16,
        0 <= index < model.steps_ops(setting, steps, count).len(),
        model.projection_of(model.steps_ops(setting, steps, count)[index]) is Some,
    ensures
        planned_projection_runs(model, setting, model.steps_ops(setting, steps, count)[index]),
    decreases count,
{
    let before = model.steps_ops(setting, steps, (count - 1) as nat);
    let last = model.step_ops(setting, steps[count - 1]);
    assert(model.steps_ops(setting, steps, count) == before + last);
    if index < before.len() {
        assert((before + last)[index] == before[index]);
        lemma_step_projections_run(model, setting, steps, (count - 1) as nat, index);
    } else {
        assert((before + last)[index] == last[index - before.len()]);
        law_planned_projections_run(
            model,
            setting,
            steps[count - 1],
            index - before.len(),
        );
    }
}

/// Once a batch is planned, no projection among its operations is refused: each expands to the
/// products of its weights on the plans of the batch's buffers.
pub proof fn law_planned_batches_run(
    model: Qwen36TextModel,
    setting: BatchSetting,
    steps: Seq<LayerStep>,
    ops: Seq<LayerOp>,
    index: int,
)
    requires
        forall|i: int| 0 <= i < steps.len() ==> model.step_fits(setting, #[trigger] steps[i]),
        model.steps_expanded(setting, steps, Ok(ops)),
        setting.buffers.linear.alpha_beta_plan.storage == Storage::Bf16,
        0 <= index < ops.len(),
        model.projection_of(ops[index]) is Some,
    ensures
        planned_projection_runs(model, setting, ops[index]),
{
    lemma_step_projections_run(model, setting, steps, steps.len(), index);
}

/// A projection that ran, or was refused, changes nothing for any other: what stands against a
/// projection stays the same, and every plan still counts each row count once.
pub proof fn law_projections_do_not_interfere(
    before: LayerBuffers,
    after: LayerBuffers,
    projection: Projection,
    result: Result<Seq<LinearOp>, LinearError>,
    other: Projection,
)
    requires
        before.plans_well_formed(),
        crate::qwen36::projection::projection_ran(before, after, projection, result),
    ensures
        after.plans_well_formed(),
        after.projection_obstacle(other) == before.projection_obstacle(other),
{
    let storage = projection.linear.storage;
    assert forall|site: ProjectionSite, format: Storage|
        (#[trigger] after.plan_of(site, format)) is Some implies after.plan_of(
        site,
        format,
    )->0.well_formed() by {
        if site == projection.site && (format == storage || !(site is Dense)) {
            assert(before.plan_of(site, format) is Some);
        } else {
            assert(after.plan_of(site, format) == before.plan_of(site, format));
        }
    }
    let site = other.site;
    let format = other.linear.storage;
    if site != projection.site || site is Dense && format != storage {
        assert(after.plan_of(site, format) == before.plan_of(site, format));
    }
}

proof fn lemma_sets_keep_serving(
    before: BatchLinearPlanSet,
    after: BatchLinearPlanSet,
    linears: Seq<Linear>,
    capacity: usize,
    storage: Storage,
    rows: usize,
)
    requires
        crate::qwen36::ffn::plans_for(before, linears, capacity),
        before.member(storage) is Some,
        after.member(storage) is Some,
        after == crate::qwen36::projection::with_member(
            before,
            storage,
            after.member(storage)->0,
        ),
        after.member(storage)->0.well_formed(),
        after.member(storage)->0.storage == before.member(storage)->0.storage,
        after.member(storage)->0.planned@ == before.member(storage)->0.with_rows(rows),
    ensures
        crate::qwen36::ffn::plans_for(after, linears, capacity),
{
    assert forall|format: Storage|
        crate::qwen36::linear::set_member(
            #[trigger] after.member(format),
            linears,
            format,
            capacity,
            linears.len() as int,
        ) by {
        assert(crate::qwen36::linear::set_member(
            before.member(format),
            linears,
            format,
            capacity,
            linears.len() as int,
        ));
        if format == storage {
            let some = choose|i: int|
                0 <= i < linears.len() && (#[trigger] linears[i]).storage == storage;
            crate::qwen36::linear::law_plans_keep_serving(
                before.member(storage)->0,
                after.member(storage)->0,
                linears[some],
                capacity,
                rows,
            );
        }
    }
}

proof fn lemma_dense_keeps_serving(
    model: Qwen36TextModel,
    before: LayerBuffers,
    after: LayerBuffers,
    projection: Projection,
    ops: Seq<LinearOp>,
    rows: usize,
)
    requires
        model.ffn_made_for(before.ffn, rows),
        projection.site is Dense,
        crate::qwen36::projection::projection_ran(before, after, projection, Ok(ops)),
    ensures
        model.ffn_made_for(after.ffn, rows),
        after.linear == before.linear,
        after.full == before.full,
{
    let layers = model.spec_ffn();
    let storage = projection.linear.storage;
    match (before.ffn, after.ffn, projection.site) {
        (
            BatchFfnWorkspace::Dense(old_plans),
            BatchFfnWorkspace::Dense(new_plans),
            ProjectionSite::Dense(FfnProjection::GateUp),
        ) => lemma_sets_keep_serving(
            old_plans.gate_up_plans,
            new_plans.gate_up_plans,
            crate::qwen36::ffn::dense_linears(layers, FfnProjection::GateUp, layers.len()),
            rows,
            storage,
            projection.planned_rows(),
        ),
        (
            BatchFfnWorkspace::Dense(old_plans),
            BatchFfnWorkspace::Dense(new_plans),
            ProjectionSite::Dense(FfnProjection::Down),
        ) => lemma_sets_keep_serving(
            old_plans.down_plans,
            new_plans.down_plans,
            crate::qwen36::ffn::dense_linears(layers, FfnProjection::Down, layers.len()),
            rows,
            storage,
            projection.planned_rows(),
        ),
        _ => {},
    }
}

proof fn lemma_plan_keeps_serving(
    before: BatchLinearPlan,
    after: BatchLinearPlan,
    rows: usize,
    capacity: usize,
)
    requires
        after.well_formed(),
        after.storage == before.storage,
        after.planned@ == before.with_rows(rows),
    ensures
        forall|linear: Linear|
            before.serves(linear, capacity) ==> #[trigger] after.serves(linear, capacity),
{
    assert forall|linear: Linear| before.serves(linear, capacity) implies #[trigger] after.serves(
        linear,
        capacity,
    ) by {
        crate::qwen36::linear::law_plans_keep_serving(before, after, linear, capacity, rows);
    }
}

/// Buffers that were made for a model still are after a projection ran on them: the next batch
/// is planned on the same buffers.
pub proof fn law_buffers_keep_serving(
    model: Qwen36TextModel,
    before: LayerBuffers,
    after: LayerBuffers,
    projection: Projection,
    result: Result<Seq<LinearOp>, LinearError>,
    rows: usize,
    states: usize,
    max_context_tokens: usize,
    chunked_prefill: bool,
)
    requires
        model.buffers_made_for(before, rows, states, max_context_tokens, chunked_prefill),
        crate::qwen36::projection::projection_ran(before, after, projection, result),
    ensures
        model.buffers_made_for(after, rows, states, max_context_tokens, chunked_prefill),
{
    match result {
        Ok(ops) => {
            if projection.site is Dense {
                lemma_dense_keeps_serving(model, before, after, projection, ops, rows);
            } else {
                let storage = projection.linear.storage;
                lemma_plan_keeps_serving(
                    before.plan_of(projection.site, storage)->0,
                    after.plan_of(projection.site, storage)->0,
                    projection.planned_rows(),
                    rows,
                );
            }
        },
        Err(_) => {},
    }
}

/// The plans of buffers that were made for a model with layers of both kinds are well formed,
/// and those of the gates keep sixteen bits: every projection of such a model can run on them.
pub proof fn law_made_buffers_hold_plans(
    model: Qwen36TextModel,
    buffers: LayerBuffers,
    recurrent: int,
    full: int,
    rows: usize,
    states: usize,
    max_context_tokens: usize,
    chunked_prefill: bool,
)
    requires
        model.buffers_made_for(buffers, rows, states, max_context_tokens, chunked_prefill),
        crate::qwen36::allocation::is_first(
            model.spec_kinds(),
            QwenLayerKind::LinearAttention,
            recurrent,
        ),
        crate::qwen36::allocation::is_first(model.spec_kinds(), QwenLayerKind::FullAttention, full),
    ensures
        buffers.plans_well_formed(),
        buffers.linear.alpha_beta_plan.storage == Storage::Bf16,
{
    let layers = model.spec_ffn();
    assert forall|site: ProjectionSite, storage: Storage|
        (#[trigger] buffers.plan_of(site, storage)) is Some implies buffers.plan_of(
        site,
        storage,
    )->0.well_formed() by {
        match (buffers.ffn, site) {
            (
                BatchFfnWorkspace::Dense(workspace),
                ProjectionSite::Dense(FfnProjection::GateUp),
            ) => {
                assert(workspace.gate_up_plans.member(storage) is Some);
            },
            (
                BatchFfnWorkspace::Dense(workspace),
                ProjectionSite::Dense(FfnProjection::Down),
            ) => {
                assert(workspace.down_plans.member(storage) is Some);
            },
            _ => {},
        }
    }
}

} // verus!
