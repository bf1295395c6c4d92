//! Projections of a batch, down to the products that a device runs.

use crate::qwen36::allocation::LayerBuffers;
use crate::qwen36::attention::{AttentionOp, AttentionProjection};
use crate::qwen36::ffn::{
    BatchDenseMlpWorkspace, BatchFfnWorkspace, FfnOp, FfnProjection, FfnWeights,
};
use crate::qwen36::gdn::{GdnOp, GdnProjection};
use crate::qwen36::linear::{
    prepare_fp8_batch_input, run_linear_batch, run_nvfp4_batch_quantized, run_on_plan,
    BatchFp8InputQuantization, BatchLinearPlan, BatchLinearPlanSet, Linear, LinearError, LinearOp, Storage,
};
use crate::qwen36::model::{Qwen36Attention, Qwen36TextModel};
use crate::qwen36::operations::LayerOp;
use crate::qwen36::workspace::{
    BatchFullAttentionWorkspace, BatchLinearAttentionWorkspace, TailOp,
};
use vstd::prelude::*;

verus! {

/// Plans that a projection runs on.
#[derive(Clone, Copy, Debug, PartialEq, Eq, Structural)]
pub enum ProjectionSite {
    /// Projection of recurrent attention.
    Recurrent(GdnProjection),
    /// Gates of recurrent attention.
    AlphaBeta,
    /// Projection of full attention.
    Attention(AttentionProjection),
    /// Projection of a dense block.
    Dense(FfnProjection),
}

/// One projection of a batch.
#[derive(Clone, Copy, Debug, PartialEq, Eq, Structural)]
pub struct Projection {
    /// Plans that it runs on.
    pub site: ProjectionSite,
    /// Weights.
    pub linear: Linear,
    /// How its input was prepared.
    pub mode: BatchFp8InputQuantization,
    /// Rows.
    pub rows: usize,
    /// Whether the rows run one at a time.
    pub serial: bool,
    /// Whether the input is in four bits already.
    pub quantized: bool,
}

impl Qwen36TextModel {
    /// The projection that an operation runs, if it runs one.
    pub open spec fn projection_of(self, op: LayerOp) -> Option<Projection> {
        match op {
            LayerOp::Gdn { layer, op: GdnOp::Project { target, rows, serial, mode } } => {
                let weights = self.layers@[layer as int].attention->LinearAttention_0;
                Some(
                    Projection {
                        site: ProjectionSite::Recurrent(target),
                        linear: match target {
                            GdnProjection::Qkv => weights.qkv,
                            GdnProjection::Z => weights.z,
                            GdnProjection::Out => weights.out,
                        },
                        mode,
                        rows,
                        serial,
                        quantized: false,
                    },
                )
            },
            LayerOp::Gdn { layer, op: GdnOp::ProjectAlphaBeta { rows, serial } } => Some(
                Projection {
                    site: ProjectionSite::AlphaBeta,
                    linear: self.layers@[layer as int].attention->LinearAttention_0.alpha_beta(),
                    mode: BatchFp8InputQuantization::Unused,
                    rows,
                    serial,
                    quantized: false,
                },
            ),
            LayerOp::Gdn { layer, op: GdnOp::ProjectQuantized { rows } } => Some(
                Projection {
                    site: ProjectionSite::Recurrent(GdnProjection::Out),
                    linear: self.layers@[layer as int].attention->LinearAttention_0.out,
                    mode: BatchFp8InputQuantization::Unused,
                    rows,
                    serial: false,
                    quantized: true,
                },
            ),
            LayerOp::Attention { layer, op: AttentionOp::Project { target, rows, mode } } => {
                let weights = self.layers@[layer as int].attention->FullAttention_0;
                Some(
                    Projection {
                        site: ProjectionSite::Attention(target),
                        linear: match target {
                            AttentionProjection::Query => weights.q,
                            AttentionProjection::Key => weights.k,
                            AttentionProjection::Value => weights.v,
                            AttentionProjection::Output => weights.o,
                        },
                        mode,
                        rows,
                        serial: false,
                        quantized: false,
                    },
                )
            },
            LayerOp::Tail {
                layer,
                op: TailOp::Ffn(FfnOp::Project { target, rows, serial, mode }),
            } => {
                let weights = self.layers@[layer as int].ffn->Dense_0;
                Some(
                    Projection {
                        site: ProjectionSite::Dense(target),
                        linear: match target {
                            FfnProjection::GateUp => weights.gate_up,
                            FfnProjection::Down => weights.down,
                        },
                        mode,
                        rows,
                        serial,
                        quantized: false,
                    },
                )
            },
            _ => None,
        }
    }

    /// Whether an operation that runs a projection belongs to a layer that has it.
    pub open spec fn has_projection(self, op: LayerOp) -> bool {
        match op {
            LayerOp::Gdn { layer, op } => op is Project || op is ProjectAlphaBeta
                || op is ProjectQuantized ==> {
                &&& self.has_layer(layer, true)
                &&& self.layers@[layer as int].attention->LinearAttention_0.value_heads * 2
                    <= usize::MAX
            },
            LayerOp::Attention { layer, op } => op is Project ==> self.has_layer(layer, false),
            LayerOp::Tail { layer, op: TailOp::Ffn(FfnOp::Project { .. }) } => layer
                < self.layers@.len() && self.layers@[layer as int].ffn is Dense,
            _ => true,
        }
    }

    fn recurrent_projection(&self, layer: usize, op: &GdnOp) -> (projection: Option<Projection>)
        requires
            self.has_projection((LayerOp::Gdn { layer, op: *op })),
        ensures
            projection == self.projection_of((LayerOp::Gdn { layer, op: *op })),
    {
        match *op {
            GdnOp::Project { target, rows, serial, mode } => {
                match self.layers[layer].attention {
                    Qwen36Attention::LinearAttention(weights) => Some(
                        Projection {
                            site: ProjectionSite::Recurrent(target),
                            linear: match target {
                                GdnProjection::Qkv => weights.qkv,
                                GdnProjection::Z => weights.z,
                                GdnProjection::Out => weights.out,
                            },
                            mode,
                            rows,
                            serial,
                            quantized: false,
                        },
                    ),
                    Qwen36Attention::FullAttention(_) => None,
                }
            },
            GdnOp::ProjectAlphaBeta { rows, serial } => {
                match self.layers[layer].attention {
                    Qwen36Attention::LinearAttention(weights) => Some(
                        Projection {
                            site: ProjectionSite::AlphaBeta,
                            linear: weights.gate_projection(),
                            mode: BatchFp8InputQuantization::Unused,
                            rows,
                            serial,
                            quantized: false,
                        },
                    ),
                    Qwen36Attention::FullAttention(_) => None,
                }
            },
            GdnOp::ProjectQuantized { rows } => {
                match self.layers[layer].attention {
                    Qwen36Attention::LinearAttention(weights) => Some(
                        Projection {
                            site: ProjectionSite::Recurrent(GdnProjection::Out),
                            linear: weights.out,
                            mode: BatchFp8InputQuantization::Unused,
                            rows,
                            serial: false,
                            quantized: true,
                        },
                    ),
                    Qwen36Attention::FullAttention(_) => None,
                }
            },
            _ => None,
        }
    }

    /// Names the projection that an operation runs, if it runs one.
    pub fn projection(&self, op: &LayerOp) -> (projection: Option<Projection>)
        requires
            self.has_projection(*op),
        ensures
            projection == self.projection_of(*op),
    {
        match *op {
            LayerOp::Gdn { layer, op } => self.recurrent_projection(layer, &op),
            LayerOp::Attention { layer, op: AttentionOp::Project { target, rows, mode } } => {
                match self.layers[layer].attention {
                    Qwen36Attention::FullAttention(weights) => Some(
                        Projection {
                            site: ProjectionSite::Attention(target),
                            linear: match target {
                                AttentionProjection::Query => weights.q,
                                AttentionProjection::Key => weights.k,
                                AttentionProjection::Value => weights.v,
                                AttentionProjection::Output => weights.o,
                            },
                            mode,
                            rows,
                            serial: false,
                            quantized: false,
                        },
                    ),
                    Qwen36Attention::LinearAttention(_) => None,
                }
            },
            LayerOp::Tail {
                layer,
                op: TailOp::Ffn(FfnOp::Project { target, rows, serial, mode }),
            } => {
                match self.layers[layer].ffn {
                    FfnWeights::Dense(weights) => Some(
                        Projection {
                            site: ProjectionSite::Dense(target),
                            linear: match target {
                                FfnProjection::GateUp => weights.gate_up,
                                FfnProjection::Down => weights.down,
                            },
                            mode,
                            rows,
                            serial,
                            quantized: false,
                        },
                    ),
                    FfnWeights::Moe(_) => None,
                }
            },
            _ => None,
        }
    }
}

/// A set of plans with the member for one storage format replaced.
pub open spec fn with_member(
    set: BatchLinearPlanSet,
    storage: Storage,
    plan: BatchLinearPlan,
) -> BatchLinearPlanSet {
    match storage {
        Storage::Bf16 => BatchLinearPlanSet { bf16: Some(plan), ..set },
        Storage::Fp8 => BatchLinearPlanSet { fp8: Some(plan), ..set },
        Storage::Nvfp4 => BatchLinearPlanSet { nvfp4: Some(plan), ..set },
    }
}

impl LayerBuffers {
    /// The plan that a projection of a storage format runs on at a site, if there is one.
    pub open spec fn plan_of(self, site: ProjectionSite, storage: Storage) -> Option<
        BatchLinearPlan,
    > {
        match site {
            ProjectionSite::Recurrent(GdnProjection::Qkv) => Some(self.linear.qkv_plan),
            ProjectionSite::Recurrent(GdnProjection::Z) => Some(self.linear.z_plan),
            ProjectionSite::Recurrent(GdnProjection::Out) => Some(self.linear.out_plan),
            ProjectionSite::AlphaBeta => Some(self.linear.alpha_beta_plan),
            ProjectionSite::Attention(AttentionProjection::Query) => Some(self.full.q_plan),
            ProjectionSite::Attention(AttentionProjection::Key) => Some(self.full.k_plan),
            ProjectionSite::Attention(AttentionProjection::Value) => Some(self.full.v_plan),
            ProjectionSite::Attention(AttentionProjection::Output) => Some(self.full.o_plan),
            ProjectionSite::Dense(target) => match (self.ffn, target) {
                (BatchFfnWorkspace::Dense(workspace), FfnProjection::GateUp) =>
                workspace.gate_up_plans.member(storage),
                (BatchFfnWorkspace::Dense(workspace), FfnProjection::Down) =>
                workspace.down_plans.member(storage),
                _ => None,
            },
        }
    }

    /// The buffers with the plan of a site replaced.
    pub open spec fn with_plan(
        self,
        site: ProjectionSite,
        storage: Storage,
        plan: BatchLinearPlan,
    ) -> LayerBuffers {
        let linear = self.linear;
        let full = self.full;
        match site {
            ProjectionSite::Recurrent(GdnProjection::Qkv) => LayerBuffers {
                linear: BatchLinearAttentionWorkspace { qkv_plan: plan, ..linear },
                ..self
            },
            ProjectionSite::Recurrent(GdnProjection::Z) => LayerBuffers {
                linear: BatchLinearAttentionWorkspace { z_plan: plan, ..linear },
                ..self
            },
            ProjectionSite::Recurrent(GdnProjection::Out) => LayerBuffers {
                linear: BatchLinearAttentionWorkspace { out_plan: plan, ..linear },
                ..self
            },
            ProjectionSite::AlphaBeta => LayerBuffers {
                linear: BatchLinearAttentionWorkspace { alpha_beta_plan: plan, ..linear },
                ..self
            },
            ProjectionSite::Attention(AttentionProjection::Query) => LayerBuffers {
                full: BatchFullAttentionWorkspace { q_plan: plan, ..full },
                ..self
            },
            ProjectionSite::Attention(AttentionProjection::Key) => LayerBuffers {
                full: BatchFullAttentionWorkspace { k_plan: plan, ..full },
                ..self
            },
            ProjectionSite::Attention(AttentionProjection::Value) => LayerBuffers {
                full: BatchFullAttentionWorkspace { v_plan: plan, ..full },
                ..self
            },
            ProjectionSite::Attention(AttentionProjection::Output) => LayerBuffers {
                full: BatchFullAttentionWorkspace { o_plan: plan, ..full },
                ..self
            },
            ProjectionSite::Dense(target) => match (self.ffn, target) {
                (BatchFfnWorkspace::Dense(workspace), FfnProjection::GateUp) => LayerBuffers {
                    ffn: BatchFfnWorkspace::Dense(
                        BatchDenseMlpWorkspace {
                            gate_up_plans: with_member(workspace.gate_up_plans, storage, plan),
                            ..workspace
                        },
                    ),
                    ..self
                },
                (BatchFfnWorkspace::Dense(workspace), FfnProjection::Down) => LayerBuffers {
                    ffn: BatchFfnWorkspace::Dense(
                        BatchDenseMlpWorkspace {
                            down_plans: with_member(workspace.down_plans, storage, plan),
                            ..workspace
                        },
                    ),
                    ..self
                },
                _ => self,
            },
        }
    }

    /// No plan counts rows twice.
    pub open spec fn plans_well_formed(self) -> bool {
        forall|site: ProjectionSite, storage: Storage|
            (#[trigger] self.plan_of(site, storage)) matches Some(plan) ==> plan.well_formed()
    }

    /// What stands against a projection, if anything.
    pub open spec fn projection_obstacle(self, projection: Projection) -> Option<LinearError> {
        crate::qwen36::linear::linear_obstacle(
            self.plan_of(projection.site, projection.linear.storage),
            projection.linear,
            projection.mode,
        )
    }
}

impl Projection {
    /// Projections with representable offsets; only weights of four bits take such an input.
    pub open spec fn fits(self) -> bool {
        &&& crate::qwen36::linear::linear_fits(self.linear, self.rows)
        &&& self.quantized ==> self.linear.storage == Storage::Nvfp4
    }

    /// Operations of the projection on a plan.
    pub open spec fn ops(self, plan: BatchLinearPlan) -> Seq<LinearOp> {
        if self.quantized {
            crate::qwen36::linear::nvfp4_quantized_ops(plan, self.rows)
        } else {
            crate::qwen36::linear::linear_ops(
                plan,
                self.linear,
                self.mode,
                self.rows,
                self.serial,
            )
        }
    }

    /// Row count whose plan the projection uses.
    pub open spec fn planned_rows(self) -> usize {
        if self.quantized {
            self.rows
        } else {
            crate::qwen36::linear::linear_rows(self.linear, self.rows, self.serial)
        }
    }

    fn run(&self, plan: &mut BatchLinearPlan) -> (result: Result<Vec<LinearOp>, LinearError>)
        requires
            old(plan).well_formed(),
            self.fits(),
        ensures
            final(plan).well_formed(),
            final(plan).storage == old(plan).storage,
            ({
                let obstacle = crate::qwen36::linear::storage_obstacle(
                    old(plan).storage,
                    self.linear,
                    self.mode,
                );
                match result {
                    Ok(ops) => {
                        &&& obstacle is None
                        &&& ops@ == self.ops(*old(plan))
                        &&& final(plan).planned@ == old(plan).with_rows(self.planned_rows())
                    },
                    Err(error) => obstacle == Some(error) && *final(plan) == *old(plan),
                }
            }),
    {
        if self.quantized {
            if plan.storage != self.linear.storage {
                return Err(LinearError::PlanStorage);
            }
            return Ok(run_nvfp4_batch_quantized(plan, self.rows));
        }
        run_on_plan(plan, &self.linear, self.mode, self.rows, self.serial)
    }

    fn run_in_set(&self, set: &mut BatchLinearPlanSet) -> (result: Result<
        Vec<LinearOp>,
        LinearError,
    >)
        requires
            forall|storage: Storage|
                (#[trigger] old(set).member(storage)) matches Some(plan) ==> plan.well_formed(),
            self.fits(),
        ensures
            ({
                let storage = self.linear.storage;
                let before = old(set).member(storage);
                let after = final(set).member(storage);
                let obstacle = crate::qwen36::linear::linear_obstacle(
                    before,
                    self.linear,
                    self.mode,
                );
                match result {
                    Ok(ops) => {
                        &&& obstacle is None
                        &&& ops@ == self.ops(before->0)
                        &&& after is Some
                        &&& *final(set) == with_member(*old(set), storage, after->0)
                        &&& after->0.well_formed()
                        &&& after->0.storage == before->0.storage
                        &&& after->0.planned@ == before->0.with_rows(self.planned_rows())
                    },
                    Err(error) => obstacle == Some(error) && *final(set) == *old(set),
                }
            }),
    {
        assert(old(set).member(self.linear.storage) matches Some(plan) ==> plan.well_formed());
        let found = match self.linear.storage {
            Storage::Bf16 => set.bf16.take(),
            Storage::Fp8 => set.fp8.take(),
            Storage::Nvfp4 => set.nvfp4.take(),
        };
        match found {
            None => Err(LinearError::NoPlan),
            Some(mut plan) => {
                let result = self.run(&mut plan);
                match self.linear.storage {
                    Storage::Bf16 => {
                        set.bf16 = Some(plan);
                    },
                    Storage::Fp8 => {
                        set.fp8 = Some(plan);
                    },
                    Storage::Nvfp4 => {
                        set.nvfp4 = Some(plan);
                    },
                }
                result
            },
        }
    }
}

/// Whether a projection ran on the plan of its site, or was refused.
pub open spec fn projection_ran(
    before: LayerBuffers,
    after: LayerBuffers,
    projection: Projection,
    result: Result<Seq<LinearOp>, LinearError>,
) -> bool {
    let storage = projection.linear.storage;
    let old_plan = before.plan_of(projection.site, storage);
    let new_plan = after.plan_of(projection.site, storage);
    let obstacle = before.projection_obstacle(projection);
    match result {
        Ok(ops) => {
            &&& obstacle is None
            &&& ops == projection.ops(old_plan->0)
            &&& new_plan is Some
            &&& after == before.with_plan(projection.site, storage, new_plan->0)
            &&& new_plan->0.well_formed()
            &&& new_plan->0.storage == old_plan->0.storage
            &&& new_plan->0.planned@ == old_plan->0.with_rows(projection.planned_rows())
        },
        Err(error) => obstacle == Some(error) && after == before,
    }
}

impl LayerBuffers {
    /// Plans the products of a projection on the plan of its site, which gains the row count
    /// that was missing.
    pub fn run_projection(&mut self, projection: &Projection) -> (result: Result<
        Vec<LinearOp>,
        LinearError,
    >)
        requires
            old(self).plans_well_formed(),
            projection.fits(),
        ensures
            projection_ran(
                *old(self),
                *final(self),
                *projection,
                match result {
                    Ok(ops) => Ok(ops@),
                    Err(error) => Err(error),
                },
            ),
    {
        let ghost before = *self;
        assert(before.plan_of(projection.site, projection.linear.storage) matches Some(plan)
            ==> plan.well_formed());
        match projection.site {
            ProjectionSite::Recurrent(GdnProjection::Qkv) => projection.run(
                &mut self.linear.qkv_plan,
            ),
            ProjectionSite::Recurrent(GdnProjection::Z) => projection.run(&mut self.linear.z_plan),
            ProjectionSite::Recurrent(GdnProjection::Out) => projection.run(
                &mut self.linear.out_plan,
            ),
            ProjectionSite::AlphaBeta => projection.run(&mut self.linear.alpha_beta_plan),
            ProjectionSite::Attention(AttentionProjection::Query) => projection.run(
                &mut self.full.q_plan,
            ),
            ProjectionSite::Attention(AttentionProjection::Key) => projection.run(
                &mut self.full.k_plan,
            ),
            ProjectionSite::Attention(AttentionProjection::Value) => projection.run(
                &mut self.full.v_plan,
            ),
            ProjectionSite::Attention(AttentionProjection::Output) => projection.run(
                &mut self.full.o_plan,
            ),
            ProjectionSite::Dense(target) => {
                proof {
                    assert forall|storage: Storage|
                        (#[trigger] before.plan_of(projection.site, storage)) is Some
                        implies before.plan_of(projection.site, storage)->0.well_formed() by {}
                }
                match &mut self.ffn {
                    BatchFfnWorkspace::Dense(workspace) => {
                        match target {
                            FfnProjection::GateUp => {
                                assert forall|storage: Storage|
                                    (#[trigger] workspace.gate_up_plans.member(storage)) is Some
                                    implies workspace.gate_up_plans.member(
                                    storage,
                                )->0.well_formed() by {
                                    assert(before.plan_of(projection.site, storage)
                                        == workspace.gate_up_plans.member(storage));
                                }
                                projection.run_in_set(&mut workspace.gate_up_plans)
                            },
                            FfnProjection::Down => {
                                assert forall|storage: Storage|
                                    (#[trigger] workspace.down_plans.member(storage)) is Some
                                    implies workspace.down_plans.member(
                                    storage,
                                )->0.well_formed() by {
                                    assert(before.plan_of(projection.site, storage)
                                        == workspace.down_plans.member(storage));
                                }
                                projection.run_in_set(&mut workspace.down_plans)
                            },
                        }
                    },
                    BatchFfnWorkspace::Moe(_) => Err(LinearError::NoPlan),
                }
            },
        }
    }
}

/// Whether a head on eight-bit weights can run on its plan.
pub open spec fn head_serves(plan: Option<BatchLinearPlan>, head: Linear, rows: usize) -> bool {
    &&& head.storage == Storage::Fp8
    &&& plan is Some
    &&& plan->0.well_formed()
    &&& plan->0.storage == Storage::Fp8
    &&& crate::qwen36::linear::linear_fits(head, rows)
}

/// Whether a plan gained the row count of a head that ran on it.
pub open spec fn head_planned(
    before: Option<BatchLinearPlan>,
    after: Option<BatchLinearPlan>,
    head: Linear,
    rows: usize,
    serial: bool,
) -> bool {
    &&& after is Some
    &&& after->0.well_formed()
    &&& after->0.storage == Storage::Fp8
    &&& after->0.planned@ == before->0.with_rows(
        crate::qwen36::linear::linear_rows(head, rows, serial),
    )
}

/// Plans the products of a decode batch's head on eight-bit weights: all rows at once, on an
/// input with the calibrated scale where the batch is large enough for it.
pub fn run_decode_head(plan: &mut Option<BatchLinearPlan>, head: &Linear, rows: usize) -> (ops: Vec<
    LinearOp,
>)
    requires
        head_serves(*old(plan), *head, rows),
    ensures
        ops@ == crate::qwen36::linear::linear_ops(
            old(plan)->0,
            *head,
            crate::qwen36::linear::quantization_of(seq![*head], rows),
            rows,
            false,
        ),
        head_planned(*old(plan), *final(plan), *head, rows, false),
        crate::qwen36::linear_flow::projected(
            old(plan)->0,
            *head,
            crate::qwen36::linear::quantization_of(seq![*head], rows),
            rows,
            ops@,
        ),
{
    let linears: [Linear; 1] = [*head];
    assert(linears@ =~= seq![*head]);
    let mode = prepare_fp8_batch_input(linears.as_slice(), rows);
    proof {
        crate::qwen36::linear::law_prepared_activation_fits(seq![*head], rows, 0);
        crate::qwen36::linear_flow::law_projection_runs(old(plan)->0, *head, mode, rows, false);
    }
    match run_linear_batch(plan, head, mode, rows, false) {
        Ok(ops) => ops,
        Err(_) => Vec::new(),
    }
}

/// Plans the products of a verification pass's head on eight-bit weights: row by row, each row
/// with a scale of its own.
pub fn run_verification_head(
    plan: &mut Option<BatchLinearPlan>,
    head: &Linear,
    rows: usize,
) -> (ops: Vec<LinearOp>)
    requires
        head_serves(*old(plan), *head, rows),
    ensures
        ops@ == crate::qwen36::linear::linear_ops(
            old(plan)->0,
            *head,
            BatchFp8InputQuantization::Dynamic,
            rows,
            true,
        ),
        head_planned(*old(plan), *final(plan), *head, rows, true),
        crate::qwen36::linear_flow::projected(
            old(plan)->0,
            *head,
            BatchFp8InputQuantization::Dynamic,
            rows,
            ops@,
        ),
        crate::qwen36::linear_flow::row_by_row(
            old(plan)->0,
            *head,
            BatchFp8InputQuantization::Dynamic,
            rows,
            ops@,
        ),
{
    proof {
        crate::qwen36::linear_flow::law_projection_runs(
            old(plan)->0,
            *head,
            BatchFp8InputQuantization::Dynamic,
            rows,
            true,
        );
    }
    match run_linear_batch(plan, head, BatchFp8InputQuantization::Dynamic, rows, true) {
        Ok(ops) => ops,
        Err(_) => Vec::new(),
    }
}

} // verus!
