//! What the operations of a projection leave in its buffers.

use crate::qwen36::attention::{AttentionOp, AttentionProjection};
use crate::qwen36::ffn::{FfnOp, FfnProjection};
use crate::qwen36::gdn::{GdnOp, GdnProjection};
use crate::qwen36::linear::{
    BatchFp8InputQuantization, BatchLinearPlan, Linear, LinearOp, ProductScale, Storage,
    STATIC_FP8_PREFILL_MIN_ROWS,
};
use crate::qwen36::model::Qwen36TextModel;
use crate::qwen36::operations::LayerOp;
use crate::qwen36::projection::{Projection, ProjectionSite};
use crate::qwen36::workspace::TailOp;
use vstd::prelude::*;

verus! {

/// What a projection is about.
pub struct LinearFrame {
    /// Projection.
    pub linear: Linear,
    /// How an activation in eight bits was prepared.
    pub quantization: BatchFp8InputQuantization,
    /// Rows.
    pub rows: usize,
}

impl LinearFrame {
    /// Whether a factor belongs to the weights and the activation.
    pub open spec fn takes(self, scale: ProductScale) -> bool {
        match self.linear.storage {
            Storage::Bf16 => scale is One,
            Storage::Nvfp4 => scale is BlockScales,
            Storage::Fp8 => match self.quantization {
                BatchFp8InputQuantization::Static(bits) => scale == ProductScale::Calibrated(bits),
                _ => scale is One,
            },
        }
    }

    /// Whether the product still lacks the scales of its rows.
    pub open spec fn unscaled(self) -> bool {
        self.linear.storage == Storage::Fp8 && self.quantization is Dynamic
    }
}

/// Buffers of a projection.
pub struct LinearDevice {
    /// Every operation so far found its inputs ready.
    pub sound: bool,
    /// Row counts with a product plan.
    pub planned: Seq<usize>,
    /// Whether the input has the form that the weights need.
    pub ready: bool,
    /// Rows with a product.
    pub done: int,
    /// Whether each row was multiplied on its own.
    pub single: bool,
    /// Whether the scale of the matrix stands for every channel.
    pub channels: bool,
    /// Whether the product was scaled by row.
    pub scaled: bool,
    /// Whether the output was rounded.
    pub rounded: bool,
}

/// Buffers before a projection. An eight-bit activation was prepared before.
pub open spec fn prepared(plan: BatchLinearPlan, linear: Linear) -> LinearDevice {
    LinearDevice {
        sound: true,
        planned: plan.planned@,
        ready: linear.storage == Storage::Fp8,
        done: 0,
        single: true,
        channels: false,
        scaled: false,
        rounded: false,
    }
}

impl LinearDevice {
    /// What one operation leaves.
    pub open spec fn performed(self, frame: LinearFrame, op: LinearOp) -> LinearDevice {
        match op {
            LinearOp::CreatePlan { rows } => LinearDevice {
                sound: self.sound && !self.planned.contains(rows),
                planned: self.planned.push(rows),
                ..self
            },
            LinearOp::ConvertInput { values } => LinearDevice {
                sound: self.sound && frame.linear.storage == Storage::Bf16 && values == frame.rows
                    * frame.linear.cols,
                ready: true,
                ..self
            },
            LinearOp::QuantizeInput { cols, rows } => LinearDevice {
                sound: self.sound && frame.linear.storage == Storage::Nvfp4 && cols
                    == frame.linear.cols && rows == frame.rows,
                ready: true,
                ..self
            },
            LinearOp::RunRow { input_offset, output_offset, scale } => LinearDevice {
                sound: self.sound && self.ready && self.planned.contains(1) && frame.takes(scale)
                    && self.done < frame.rows && input_offset == self.done * frame.linear.cols
                    && output_offset == self.done * frame.linear.rows,
                done: self.done + 1,
                ..self
            },
            LinearOp::Run { rows, scale } => LinearDevice {
                sound: self.sound && self.ready && self.planned.contains(rows) && frame.takes(
                    scale,
                ) && self.done == 0 && rows == frame.rows,
                done: rows as int,
                single: rows <= 1,
                ..self
            },
            LinearOp::FillChannelScale => LinearDevice {
                sound: self.sound && frame.unscaled() && !frame.linear.channel_scaled,
                channels: true,
                ..self
            },
            LinearOp::ScaleOutput { rows, cols, per_channel } => LinearDevice {
                sound: self.sound && frame.unscaled() && self.done == frame.rows && !self.scaled
                    && rows == frame.rows && cols == frame.linear.rows && per_channel
                    == frame.linear.channel_scaled && (per_channel || self.channels),
                scaled: true,
                ..self
            },
            LinearOp::RoundOutput => LinearDevice {
                sound: self.sound && self.done == frame.rows && (frame.unscaled() ==> self.scaled)
                    && !self.rounded,
                rounded: true,
                ..self
            },
        }
    }
}

/// What the operations of a projection do.
pub open spec fn linear_step(frame: LinearFrame) -> spec_fn(LinearDevice, LinearOp) -> LinearDevice {
    |device: LinearDevice, op: LinearOp| device.performed(frame, op)
}

/// Whether operations project every row, and round the output.
pub open spec fn projected(
    plan: BatchLinearPlan,
    linear: Linear,
    quantization: BatchFp8InputQuantization,
    rows: usize,
    ops: Seq<LinearOp>,
) -> bool {
    let device = crate::device::after(
        linear_step(LinearFrame { linear, quantization, rows }),
        prepared(plan, linear),
        ops,
    );
    device.sound && device.rounded && device.done == rows
}

/// Whether operations multiply each row on its own.
pub open spec fn row_by_row(
    plan: BatchLinearPlan,
    linear: Linear,
    quantization: BatchFp8InputQuantization,
    rows: usize,
    ops: Seq<LinearOp>,
) -> bool {
    crate::device::after(
        linear_step(LinearFrame { linear, quantization, rows }),
        prepared(plan, linear),
        ops,
    ).single
}

proof fn lemma_created(
    frame: LinearFrame,
    plan: BatchLinearPlan,
    before: LinearDevice,
    rows: usize,
)
    requires
        before.sound,
        before.planned == plan.planned@,
    ensures
        ({
            let after = crate::device::after(linear_step(frame), before, plan.creation(rows));
            &&& after == (LinearDevice { planned: after.planned, ..before })
            &&& after.planned.contains(rows)
            &&& after.planned == plan.with_rows(rows)
            &&& plan.planned@.is_prefix_of(after.planned)
        }),
{
    let ops = plan.creation(rows);
    let step = linear_step(frame);
    if plan.planned@.contains(rows) {
        assert(ops =~= seq![]);
    } else {
        crate::device::lemma_after_one(step, before, ops);
        let planned = plan.planned@.push(rows);
        assert(planned[plan.planned@.len() as int] == rows);
        assert(plan.planned@ =~= planned.subrange(0, plan.planned@.len() as int));
    }
}

#[verifier::rlimit(40)]
proof fn lemma_rows(frame: LinearFrame, before: LinearDevice, scale: ProductScale, count: nat)
    requires
        before.sound && before.ready && before.planned.contains(1),
        before.done == 0,
        frame.takes(scale),
        count <= frame.rows,
        crate::qwen36::linear::linear_fits(frame.linear, frame.rows),
    ensures
        crate::device::after(
            linear_step(frame),
            before,
            crate::qwen36::linear::row_products(frame.linear, frame.rows, scale).take(
                count as int,
            ),
        ) == (LinearDevice { done: count as int, ..before }),
    decreases count,
{
    let all = crate::qwen36::linear::row_products(frame.linear, frame.rows, scale);
    let ops = all.take(count as int);
    if count > 0 {
        let row = count - 1;
        lemma_rows(frame, before, scale, row as nat);
        assert(ops.drop_last() =~= all.take(row));
        assert(0 <= row * frame.linear.cols <= frame.rows * frame.linear.cols && 0 <= row
            * frame.linear.rows <= frame.rows * frame.linear.rows) by (nonlinear_arith)
            requires
                0 <= row < frame.rows,
        ;
    }
}

#[verifier::rlimit(40)]
proof fn lemma_products(
    frame: LinearFrame,
    plan: BatchLinearPlan,
    before: LinearDevice,
    byte_identical: bool,
    scale: ProductScale,
)
    requires
        before.sound && before.ready && before.single,
        before.done == 0,
        before.planned == plan.planned@,
        frame.takes(scale),
        crate::qwen36::linear::linear_fits(frame.linear, frame.rows),
    ensures
        ({
            let after = crate::device::after(
                linear_step(frame),
                before,
                crate::qwen36::linear::product_ops(
                    plan,
                    frame.linear,
                    frame.rows,
                    byte_identical,
                    scale,
                ),
            );
            &&& after == (LinearDevice {
                planned: after.planned,
                done: frame.rows as int,
                single: after.single,
                ..before
            })
            &&& byte_identical ==> after.single
            &&& after.planned == plan.with_rows(
                if byte_identical && frame.rows > 1 {
                    1
                } else {
                    frame.rows
                },
            )
            &&& plan.planned@.is_prefix_of(after.planned)
        }),
{
    let step = linear_step(frame);
    let linear = frame.linear;
    if byte_identical && frame.rows > 1 {
        let rows = crate::qwen36::linear::row_products(linear, frame.rows, scale);
        crate::device::lemma_after_both(step, before, plan.creation(1), rows);
        lemma_created(frame, plan, before, 1);
        let created = crate::device::after(step, before, plan.creation(1));
        lemma_rows(frame, created, scale, frame.rows as nat);
        assert(rows.take(frame.rows as int) =~= rows);
    } else {
        let run = seq![LinearOp::Run { rows: frame.rows, scale }];
        crate::device::lemma_after_both(step, before, plan.creation(frame.rows), run);
        lemma_created(frame, plan, before, frame.rows);
        let created = crate::device::after(step, before, plan.creation(frame.rows));
        crate::device::lemma_after_one(step, created, run);
    }
}

/// A projection runs as a whole: its input has the form that its weights need, every row is
/// multiplied once on a plan that exists, with the factor that belongs to weights and activation,
/// and the output is rounded. Where results must not depend on the batch, each row is multiplied
/// on its own. Product plans are only added, and none but the one that was missing.
#[verifier::rlimit(40)]
pub proof fn law_projection_runs(
    plan: BatchLinearPlan,
    linear: Linear,
    quantization: BatchFp8InputQuantization,
    rows: usize,
    byte_identical: bool,
)
    requires
        crate::qwen36::linear::linear_fits(linear, rows),
    ensures
        ({
            let frame = LinearFrame { linear, quantization, rows };
            let device = crate::device::after(
                linear_step(frame),
                prepared(plan, linear),
                crate::qwen36::linear::linear_ops(plan, linear, quantization, rows, byte_identical),
            );
            &&& device.sound
            &&& device.rounded
            &&& device.done == rows
            &&& device.scaled == frame.unscaled()
            &&& byte_identical && linear.storage != Storage::Nvfp4 ==> device.single
            &&& device.planned == plan.with_rows(
                crate::qwen36::linear::linear_rows(linear, rows, byte_identical),
            )
            &&& plan.planned@.is_prefix_of(device.planned)
        }),
{
    let frame = LinearFrame { linear, quantization, rows };
    let step = linear_step(frame);
    let start = prepared(plan, linear);
    let last = seq![LinearOp::RoundOutput];
    assert(0 <= rows * linear.cols) by (nonlinear_arith);
    match linear.storage {
        Storage::Nvfp4 => {
            let first = seq![LinearOp::QuantizeInput { cols: linear.cols, rows }];
            let create = plan.creation(rows);
            let run = seq![
                LinearOp::Run { rows, scale: ProductScale::BlockScales },
                LinearOp::RoundOutput,
            ];
            crate::device::lemma_after_both(step, start, first, create + run);
            crate::device::lemma_after_one(step, start, first);
            let ready = start.performed(frame, first[0]);
            crate::device::lemma_after_both(step, ready, create, run);
            lemma_created(frame, plan, ready, rows);
            crate::device::lemma_after_two(step, crate::device::after(step, ready, create), run);
        },
        Storage::Bf16 => {
            let first = seq![LinearOp::ConvertInput { values: (rows * linear.cols) as usize }];
            let scale = ProductScale::One;
            let products = crate::qwen36::linear::product_ops(
                plan,
                linear,
                rows,
                byte_identical,
                scale,
            );
            crate::device::lemma_after_both(step, start, first + products, last);
            crate::device::lemma_after_both(step, start, first, products);
            crate::device::lemma_after_one(step, start, first);
            let ready = start.performed(frame, first[0]);
            lemma_products(frame, plan, ready, byte_identical, scale);
            crate::device::lemma_after_one(step, crate::device::after(step, ready, products), last);
        },
        Storage::Fp8 => {
            let scale = crate::qwen36::linear::fp8_scale(quantization);
            let products = crate::qwen36::linear::product_ops(
                plan,
                linear,
                rows,
                byte_identical,
                scale,
            );
            let rescale = if quantization is Dynamic {
                crate::qwen36::linear::rescale_ops(linear, rows)
            } else {
                seq![]
            };
            crate::device::lemma_after_both(step, start, products + rescale, last);
            crate::device::lemma_after_both(step, start, products, rescale);
            lemma_products(frame, plan, start, byte_identical, scale);
            let multiplied = crate::device::after(step, start, products);
            if quantization is Dynamic {
                if linear.channel_scaled {
                    crate::device::lemma_after_one(step, multiplied, rescale);
                } else {
                    crate::device::lemma_after_two(step, multiplied, rescale);
                }
            }
            crate::device::lemma_after_one(
                step,
                crate::device::after(step, multiplied, rescale),
                last,
            );
        },
    }
}

/// An activation is prepared in eight bits where a projection needs it and only there, and the
/// calibrated scale is used where the batch is large enough and every projection relies on the
/// same one.
pub proof fn law_activation_is_prepared_where_needed(
    linears: Seq<Linear>,
    rows: usize,
    index: int,
    scale: u32,
)
    requires
        0 <= index < linears.len(),
        linears[index].storage == Storage::Fp8,
    ensures
        !(crate::qwen36::linear::quantization_of(linears, rows) is Unused),
        rows < STATIC_FP8_PREFILL_MIN_ROWS ==> crate::qwen36::linear::quantization_of(
            linears,
            rows,
        ) is Dynamic,
        rows >= STATIC_FP8_PREFILL_MIN_ROWS && (forall|i: int|
            0 <= i < linears.len() && (#[trigger] linears[i]).storage == Storage::Fp8 ==> {
                &&& linears[i].input_scale == Some(scale)
                &&& !linears[i].channel_scaled
                &&& !linears[i].weight_only
            }) ==> crate::qwen36::linear::quantization_of(linears, rows)
            == BatchFp8InputQuantization::Static(scale),
{
    assert(crate::qwen36::linear::any_fp8(linears));
    if rows >= STATIC_FP8_PREFILL_MIN_ROWS && (forall|i: int|
        0 <= i < linears.len() && (#[trigger] linears[i]).storage == Storage::Fp8 ==> {
            &&& linears[i].input_scale == Some(scale)
            &&& !linears[i].channel_scaled
            &&& !linears[i].weight_only
        }) {
        assert(crate::qwen36::linear::all_static(linears, scale));
        let chosen = choose|scale: u32| crate::qwen36::linear::all_static(linears, scale);
        assert(linears[index].static_scale() == Some(chosen));
    }
}

/// A projection runs as a whole, whether its input is in four bits already or not.
#[verifier::rlimit(40)]
pub proof fn law_layer_projection_runs(projection: Projection, plan: BatchLinearPlan)
    requires
        projection.fits(),
    ensures
        ({
            let frame = LinearFrame {
                linear: projection.linear,
                quantization: projection.mode,
                rows: projection.rows,
            };
            let start = LinearDevice {
                ready: projection.quantized || projection.linear.storage == Storage::Fp8,
                ..prepared(plan, projection.linear)
            };
            let device = crate::device::after(linear_step(frame), start, projection.ops(plan));
            &&& device.sound
            &&& device.rounded
            &&& device.done == projection.rows
            &&& device.planned == plan.with_rows(projection.planned_rows())
            &&& projection.serial && projection.linear.storage != Storage::Nvfp4 ==> device.single
        }),
{
    let linear = projection.linear;
    let rows = projection.rows;
    if projection.quantized {
        let frame = LinearFrame { linear, quantization: projection.mode, rows };
        let step = linear_step(frame);
        let start = LinearDevice { ready: true, ..prepared(plan, linear) };
        let create = plan.creation(rows);
        let run = seq![
            LinearOp::Run { rows, scale: ProductScale::BlockScales },
            LinearOp::RoundOutput,
        ];
        crate::device::lemma_after_both(step, start, create, run);
        lemma_created(frame, plan, start, rows);
        crate::device::lemma_after_two(step, crate::device::after(step, start, create), run);
    } else {
        law_projection_runs(plan, linear, projection.mode, rows, projection.serial);
    }
}

/// A projection of recurrent attention takes its own weights of its own layer and runs as its
/// operation says.
pub proof fn law_recurrent_projections_take_their_weights(
    model: Qwen36TextModel,
    layer: usize,
    rows: usize,
    serial: bool,
    mode: BatchFp8InputQuantization,
)
    ensures
        ({
            let weights = model.layers@[layer as int].attention->LinearAttention_0;
            let of = |target: GdnProjection|
                model.projection_of(
                    LayerOp::Gdn { layer, op: GdnOp::Project { target, rows, serial, mode } },
                );
            &&& of(GdnProjection::Qkv) matches Some(found) && found.linear == weights.qkv
            &&& of(GdnProjection::Z) matches Some(found) && found.linear == weights.z
            &&& of(GdnProjection::Out) matches Some(found) && found.linear == weights.out
            &&& forall|target: GdnProjection| (#[trigger] of(target)) matches Some(found) && {
                &&& found.site == ProjectionSite::Recurrent(target)
                &&& found.rows == rows && found.serial == serial && found.mode == mode
                &&& !found.quantized
            }
            &&& model.projection_of(
                LayerOp::Gdn { layer, op: GdnOp::ProjectAlphaBeta { rows, serial } },
            ) matches Some(found) && {
                &&& found.site is AlphaBeta && found.linear == weights.alpha_beta()
                &&& found.rows == rows && found.serial == serial && !found.quantized
            }
            &&& model.projection_of(
                LayerOp::Gdn { layer, op: GdnOp::ProjectQuantized { rows } },
            ) matches Some(found) && {
                &&& found.site == ProjectionSite::Recurrent(GdnProjection::Out)
                &&& found.linear == weights.out && found.rows == rows && found.quantized
            }
        }),
{
}

/// A projection of attention, or of a dense block, takes its own weights of its own layer and
/// runs as its operation says.
pub proof fn law_other_projections_take_their_weights(
    model: Qwen36TextModel,
    layer: usize,
    rows: usize,
    serial: bool,
    mode: BatchFp8InputQuantization,
)
    ensures
        ({
            let attention = model.layers@[layer as int].attention->FullAttention_0;
            let dense = model.layers@[layer as int].ffn->Dense_0;
            let of = |target: AttentionProjection|
                model.projection_of(
                    LayerOp::Attention { layer, op: AttentionOp::Project { target, rows, mode } },
                );
            let fed = |target: FfnProjection|
                model.projection_of(
                    LayerOp::Tail {
                        layer,
                        op: TailOp::Ffn(FfnOp::Project { target, rows, serial, mode }),
                    },
                );
            &&& of(AttentionProjection::Query) matches Some(found) && found.linear == attention.q
            &&& of(AttentionProjection::Key) matches Some(found) && found.linear == attention.k
            &&& of(AttentionProjection::Value) matches Some(found) && found.linear == attention.v
            &&& of(AttentionProjection::Output) matches Some(found) && found.linear == attention.o
            &&& forall|target: AttentionProjection| (#[trigger] of(target)) matches Some(found) && {
                &&& found.site == ProjectionSite::Attention(target)
                &&& found.rows == rows && !found.serial && found.mode == mode && !found.quantized
            }
            &&& fed(FfnProjection::GateUp) matches Some(found) && found.linear == dense.gate_up
            &&& fed(FfnProjection::Down) matches Some(found) && found.linear == dense.down
            &&& forall|target: FfnProjection| (#[trigger] fed(target)) matches Some(found) && {
                &&& found.site == ProjectionSite::Dense(target)
                &&& found.rows == rows && found.serial == serial && found.mode == mode
                &&& !found.quantized
            }
        }),
{
}

} // verus!
