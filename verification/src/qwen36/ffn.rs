//! Feed-forward blocks of a batch: dense, or routed experts beside a shared one.

use vstd::prelude::*;
use crate::qwen36::linear::{
    check_storage, prepare_fp8_batch_input, BatchFp8InputQuantization, BatchLinearPlanSet, Linear,
    LinearError, Storage,
};

verus! {

/// Why a feed-forward block cannot run.
#[derive(Clone, Copy, Debug, PartialEq, Eq, Structural)]
pub enum FfnError {
    /// Weights and workspace are of different kinds.
    WorkspaceKind,
    /// A projection of a dense block cannot run.
    Projection(LinearError),
    /// The routed experts are not resident in the grouped four-bit layout.
    ExpertLayout,
    /// The grouped expert weights are missing.
    NoGroupedWeights,
    /// The shared expert is stored in FP8.
    SharedFp8,
    /// The shared expert has no plan for its gate and up projection.
    NoSharedGateUpPlan,
    /// The shared expert has no plan for its down projection.
    NoSharedDownPlan,
    /// A batch does not fit the grouped workspace.
    Rows {
        /// Most rows.
        capacity: usize,
        /// Rows that were asked for.
        rows: usize,
    },
}

/// Weights of a dense feed-forward block.
#[derive(Clone, Copy, Debug, PartialEq, Eq, Structural)]
pub struct DenseWeights {
    /// Gate and up projection.
    pub gate_up: Linear,
    /// Down projection.
    pub down: Linear,
}

/// Weights of a block of routed experts.
#[derive(Clone, Copy, Debug, PartialEq, Eq, Structural)]
pub struct MoeWeights {
    /// Whether the routed experts are resident in the grouped four-bit layout.
    pub cutlass: bool,
    /// Whether the grouped expert weights are loaded.
    pub grouped: bool,
    /// Experts.
    pub experts: usize,
    /// Experts selected for each row.
    pub experts_per_token: usize,
    /// Inner width of one expert.
    pub expert_intermediate: usize,
    /// Whether the weights of the selected experts are normalised.
    pub norm_topk_prob: bool,
    /// Storage format of the shared expert.
    pub shared: Storage,
}

/// Weights of the feed-forward block of one layer.
#[derive(Clone, Copy, Debug, PartialEq, Eq, Structural)]
pub enum FfnWeights {
    /// Routed experts.
    Moe(MoeWeights),
    /// One dense block.
    Dense(DenseWeights),
}

/// Stream that an operation runs on.
#[derive(Clone, Copy, Debug, PartialEq, Eq, Structural)]
pub enum FfnStream {
    /// The stream of the batch.
    Main,
    /// The stream beside it.
    Shared,
}

/// Projection of a dense block or of the shared expert.
#[derive(Clone, Copy, Debug, PartialEq, Eq, Structural)]
pub enum FfnProjection {
    /// Gate and up.
    GateUp,
    /// Down.
    Down,
}

/// One device operation of a feed-forward block.
#[derive(Clone, Copy, Debug, PartialEq, Eq, Structural)]
#[allow(inconsistent_fields)]
pub enum FfnOp {
    /// Quantise the input of a dense projection.
    Quantize { target: FfnProjection, rows: usize, cols: usize, mode: BatchFp8InputQuantization },
    /// Run a dense projection.
    Project { target: FfnProjection, rows: usize, serial: bool, mode: BatchFp8InputQuantization },
    /// Gate the halves of a dense projection.
    Silu { rows: usize, width: usize },
    /// Add the residual stream to the output of a dense block.
    AddResidual { values: usize },
    /// Round the output of a dense block to sixteen bits.
    RoundOutput,
    /// Mark the point at which the shared expert may start.
    RecordFork,
    /// Let the stream of the shared expert wait for that point.
    WaitFork,
    /// Run a projection of the shared expert.
    SharedProject { stream: FfnStream, target: FfnProjection, storage: Storage, rows: usize },
    /// Gate the halves of the shared projection.
    SharedSilu { stream: FfnStream, rows: usize, width: usize },
    /// Run the shared expert's gating.
    SharedGate { stream: FfnStream, rows: usize },
    /// Run the router.
    Router { rows: usize },
    /// Round the router logits to sixteen bits.
    RoundRouter,
    /// Select experts.
    TopK { rows: usize, experts: usize, selected: usize, normalise: bool },
    /// Size the grouped workspace.
    SetRows { rows: usize, routes: usize },
    /// Sort the routes by expert.
    SortRoutes,
    /// Gather and quantise the rows of every expert.
    GatherQuantize,
    /// Address the output of gate and up products.
    GateUpTables { width: usize },
    /// Run gate and up products.
    GateUpProduct,
    /// Gate the halves and quantise them.
    SiluQuantize,
    /// Address the output of the down products.
    DownTables { width: usize },
    /// Run the down products.
    DownProduct,
    /// Add up the weighted outputs of every row.
    Accumulate { rows: usize, selected: usize, hidden: usize },
    /// Mark the point at which the shared expert is done.
    RecordJoin,
    /// Let the stream of the batch wait for that point.
    WaitJoin,
    /// Add routed output, gated shared output and residual stream.
    Finalize { rows: usize, hidden: usize },
}

/// Grouped workspace of the routed experts.
#[derive(Clone, Copy, Debug, PartialEq, Eq, Structural)]
pub struct BatchGroupedMoeWorkspace {
    /// Most rows of a batch.
    pub capacity_rows: usize,
    /// Experts selected for each row.
    pub routes_per_row: usize,
    /// Routes of a full batch.
    pub routes: usize,
    /// Values of gate and up products.
    pub gate_up: usize,
    /// Values of the down products.
    pub down: usize,
    /// Values of the routed output.
    pub routed_output: usize,
}

impl BatchGroupedMoeWorkspace {
    /// Whether the sizes belong together.
    pub open spec fn well_formed(self) -> bool {
        self.routes == self.capacity_rows * self.routes_per_row
    }

    /// Sizes the grouped workspace for `rows` rows.
    pub fn new(hidden: usize, weights: &MoeWeights, rows: usize) -> (workspace: Self)
        requires
            rows * weights.experts_per_token * weights.expert_intermediate * 2 <= usize::MAX,
            rows * weights.experts_per_token <= usize::MAX,
            rows * weights.experts_per_token * weights.expert_intermediate <= usize::MAX,
            rows * weights.experts_per_token * hidden <= usize::MAX,
            rows * hidden <= usize::MAX,
        ensures
            workspace.well_formed(),
            workspace.capacity_rows == rows,
            workspace.routes_per_row == weights.experts_per_token,
            workspace.gate_up == rows * weights.experts_per_token * weights.expert_intermediate * 2,
            workspace.down == rows * weights.experts_per_token * hidden,
            workspace.routed_output == rows * hidden,
    {
        let routes: usize = rows * weights.experts_per_token;
        Self {
            capacity_rows: rows,
            routes_per_row: weights.experts_per_token,
            routes,
            gate_up: routes * weights.expert_intermediate * 2,
            down: routes * hidden,
            routed_output: rows * hidden,
        }
    }

    /// Routes of a batch of `rows` rows.
    pub fn set_rows(&self, rows: usize) -> (result: Result<usize, FfnError>)
        requires
            self.well_formed(),
        ensures
            match result {
                Ok(routes) => 0 < rows <= self.capacity_rows && routes == rows
                    * self.routes_per_row,
                Err(error) => !(0 < rows <= self.capacity_rows) && error == (FfnError::Rows {
                    capacity: self.capacity_rows,
                    rows,
                }),
            },
    {
        if rows == 0 || rows > self.capacity_rows {
            return Err(FfnError::Rows { capacity: self.capacity_rows, rows });
        }
        assert(rows * self.routes_per_row <= self.capacity_rows * self.routes_per_row)
            by (nonlinear_arith)
            requires
                rows <= self.capacity_rows,
        ;
        Ok(rows * self.routes_per_row)
    }
}

/// Workspace of a block of routed experts, in values.
#[derive(Clone, Copy, Debug, PartialEq, Eq, Structural)]
pub struct BatchMoeWorkspace {
    /// Router logits.
    pub router_logits: usize,
    /// Selected experts, and as many weights.
    pub routes: usize,
    /// Gate and up projection of the shared expert.
    pub shared_gate_up: usize,
    /// Gated halves of the shared expert.
    pub shared_activated: usize,
    /// Output of the shared expert, and as many values for the output of the block.
    pub shared_output: usize,
    /// Whether gate and up projection of the shared expert has a plan.
    pub shared_gate_up_plan: bool,
    /// Whether the down projection of the shared expert has a plan.
    pub shared_down_plan: bool,
    /// Grouped workspace.
    pub grouped: BatchGroupedMoeWorkspace,
}

impl MoeWeights {
    /// Batches whose buffer sizes are representable.
    pub open spec fn fits(self, hidden: usize, capacity: usize) -> bool {
        &&& self.expert_intermediate * 2 <= usize::MAX
        &&& capacity * self.experts <= usize::MAX
        &&& capacity * self.experts_per_token <= usize::MAX
        &&& capacity * (self.expert_intermediate * 2) <= usize::MAX
        &&& capacity * self.expert_intermediate <= usize::MAX
        &&& capacity * self.experts_per_token * self.expert_intermediate * 2 <= usize::MAX
        &&& capacity * self.experts_per_token * self.expert_intermediate <= usize::MAX
        &&& capacity * self.experts_per_token * hidden <= usize::MAX
        &&& capacity * hidden <= usize::MAX
    }

    /// What stands against a batch workspace, if anything.
    pub open spec fn obstacle(self) -> Option<FfnError> {
        if !self.cutlass {
            Some(FfnError::ExpertLayout)
        } else if !self.grouped {
            Some(FfnError::NoGroupedWeights)
        } else if self.shared == Storage::Fp8 {
            Some(FfnError::SharedFp8)
        } else {
            None
        }
    }
}

impl BatchMoeWorkspace {
    /// Whether this is the workspace for `capacity` rows of a block.
    pub open spec fn made_for(self, hidden: usize, weights: MoeWeights, capacity: usize) -> bool {
        &&& self.grouped.well_formed()
        &&& self.grouped.capacity_rows == capacity
        &&& self.grouped.routes_per_row == weights.experts_per_token
        &&& self.grouped.gate_up == capacity * weights.experts_per_token
            * weights.expert_intermediate * 2
        &&& self.grouped.down == capacity * weights.experts_per_token * hidden
        &&& self.grouped.routed_output == capacity * hidden
        &&& self.router_logits == capacity * weights.experts
        &&& self.routes == capacity * weights.experts_per_token
        &&& self.shared_gate_up == capacity * (weights.expert_intermediate * 2)
        &&& self.shared_activated == capacity * weights.expert_intermediate
        &&& self.shared_output == capacity * hidden
        &&& self.shared_gate_up_plan == (weights.shared == Storage::Nvfp4)
        &&& self.shared_down_plan == (weights.shared == Storage::Nvfp4)
    }

    /// Sizes the workspace of a block of routed experts.
    pub fn new(hidden: usize, weights: &MoeWeights, capacity: usize) -> (result: Result<
        Self,
        FfnError,
    >)
        requires
            weights.fits(hidden, capacity),
        ensures
            match result {
                Ok(workspace) => weights.obstacle() is None && workspace.made_for(
                    hidden,
                    *weights,
                    capacity,
                ),
                Err(error) => weights.obstacle() == Some(error),
            },
    {
        if !weights.cutlass {
            return Err(FfnError::ExpertLayout);
        }
        if !weights.grouped {
            return Err(FfnError::NoGroupedWeights);
        }
        let planned = match weights.shared {
            Storage::Nvfp4 => true,
            Storage::Bf16 => false,
            Storage::Fp8 => {
                return Err(FfnError::SharedFp8);
            },
        };
        let gate_up_width: usize = weights.expert_intermediate * 2;
        Ok(
            Self {
                router_logits: capacity * weights.experts,
                routes: capacity * weights.experts_per_token,
                shared_gate_up: capacity * gate_up_width,
                shared_activated: capacity * weights.expert_intermediate,
                shared_output: capacity * hidden,
                shared_gate_up_plan: planned,
                shared_down_plan: planned,
                grouped: BatchGroupedMoeWorkspace::new(hidden, weights, capacity),
            },
        )
    }
}

/// Workspace of a dense block, in values.
pub struct BatchDenseMlpWorkspace {
    /// Plans of gate and up projections of every layer.
    pub gate_up_plans: BatchLinearPlanSet,
    /// Plans of the down projections of every layer.
    pub down_plans: BatchLinearPlanSet,
    /// Gate and up projection.
    pub gate_up: usize,
    /// Quantised input of gate and up projection.
    pub gate_up_quantized: usize,
    /// Gated halves, and as many values for their quantised form.
    pub activated: usize,
    /// Down projection, and as many values for the output of the block.
    pub down: usize,
}

/// Projections of the dense blocks among the first `count` layers.
pub open spec fn dense_linears(
    layers: Seq<FfnWeights>,
    target: FfnProjection,
    count: nat,
) -> Seq<Linear>
    decreases count,
{
    if count == 0 {
        seq![]
    } else {
        let before = dense_linears(layers, target, (count - 1) as nat);
        match layers[count - 1] {
            FfnWeights::Moe(_) => before,
            FfnWeights::Dense(weights) => before.push(
                match target {
                    FfnProjection::GateUp => weights.gate_up,
                    FfnProjection::Down => weights.down,
                },
            ),
        }
    }
}

fn collect_dense_linears(layers: &[FfnWeights], target: FfnProjection) -> (linears: Vec<Linear>)
    ensures
        linears@ == dense_linears(layers@, target, layers@.len()),
{
    let mut linears: Vec<Linear> = Vec::new();
    let mut i: usize = 0;
    while i < layers.len()
        invariant
            i <= layers@.len(),
            linears@ == dense_linears(layers@, target, i as nat),
        decreases layers@.len() - i,
    {
        match layers[i] {
            FfnWeights::Moe(_) => {},
            FfnWeights::Dense(weights) => {
                linears.push(
                    match target {
                        FfnProjection::GateUp => weights.gate_up,
                        FfnProjection::Down => weights.down,
                    },
                );
            },
        }
        i += 1;
    }
    linears
}

/// Whether a set of plans is the one that some projections need.
pub open spec fn plans_for(set: BatchLinearPlanSet, linears: Seq<Linear>, capacity: usize) -> bool {
    forall|storage: Storage|
        crate::qwen36::linear::set_member(
            #[trigger] set.member(storage),
            linears,
            storage,
            capacity,
            linears.len() as int,
        )
}

impl BatchDenseMlpWorkspace {
    /// Whether this is the workspace for `capacity` rows of a block.
    pub open spec fn made_for(
        self,
        layers: Seq<FfnWeights>,
        weights: DenseWeights,
        capacity: usize,
    ) -> bool {
        &&& plans_for(
            self.gate_up_plans,
            dense_linears(layers, FfnProjection::GateUp, layers.len()),
            capacity,
        )
        &&& plans_for(
            self.down_plans,
            dense_linears(layers, FfnProjection::Down, layers.len()),
            capacity,
        )
        &&& self.gate_up == capacity * weights.gate_up.rows
        &&& self.gate_up_quantized == capacity * weights.gate_up.cols
        &&& self.activated == capacity * weights.down.cols
        &&& self.down == capacity * weights.down.rows
    }

    /// Whether the plans are those that the projections start with.
    pub open spec fn fresh(self, capacity: usize) -> bool {
        forall|storage: Storage|
            {
                &&& crate::qwen36::linear::fresh_member(
                    #[trigger] self.gate_up_plans.member(storage),
                    capacity,
                )
                &&& crate::qwen36::linear::fresh_member(self.down_plans.member(storage), capacity)
            }
    }

    /// Sizes the workspace of a dense block. Its plans serve the dense blocks of every layer.
    pub fn new(layers: &[FfnWeights], weights: &DenseWeights, capacity: usize) -> (workspace: Self)
        requires
            crate::qwen36::linear::linear_fits(weights.gate_up, capacity),
            crate::qwen36::linear::linear_fits(weights.down, capacity),
        ensures
            workspace.made_for(layers@, *weights, capacity),
            workspace.fresh(capacity),
    {
        let gate_up = collect_dense_linears(layers, FfnProjection::GateUp);
        let down = collect_dense_linears(layers, FfnProjection::Down);
        let gate_up_plans = BatchLinearPlanSet::new(gate_up.as_slice(), capacity);
        let down_plans = BatchLinearPlanSet::new(down.as_slice(), capacity);
        assert forall|storage: Storage|
            {
                &&& crate::qwen36::linear::fresh_member(
                    #[trigger] gate_up_plans.member(storage),
                    capacity,
                )
                &&& crate::qwen36::linear::fresh_member(down_plans.member(storage), capacity)
            } by {
            assert(crate::qwen36::linear::fresh_member(down_plans.member(storage), capacity));
        }
        Self {
            gate_up_plans,
            down_plans,
            gate_up: capacity * weights.gate_up.rows,
            gate_up_quantized: capacity * weights.gate_up.cols,
            activated: capacity * weights.down.cols,
            down: capacity * weights.down.rows,
        }
    }
}

/// Workspace of a feed-forward block.
pub enum BatchFfnWorkspace {
    /// Routed experts.
    Moe(BatchMoeWorkspace),
    /// One dense block.
    Dense(BatchDenseMlpWorkspace),
}

impl FfnWeights {
    /// Batches whose sizes are representable.
    pub open spec fn fits(self, hidden: usize, capacity: usize) -> bool {
        match self {
            FfnWeights::Moe(weights) => weights.fits(hidden, capacity),
            FfnWeights::Dense(weights) => {
                &&& crate::qwen36::linear::linear_fits(weights.gate_up, capacity)
                &&& crate::qwen36::linear::linear_fits(weights.down, capacity)
                &&& capacity * hidden <= usize::MAX
            },
        }
    }
}

impl BatchFfnWorkspace {
    /// Sizes the workspace of the first layer's block for the batches of every layer.
    pub fn new(
        layers: &[FfnWeights],
        weights: &FfnWeights,
        hidden: usize,
        capacity: usize,
    ) -> (result: Result<Self, FfnError>)
        requires
            weights.fits(hidden, capacity),
        ensures
            match (result, *weights) {
                (Ok(BatchFfnWorkspace::Moe(workspace)), FfnWeights::Moe(weights)) =>
                weights.obstacle() is None && workspace.made_for(hidden, weights, capacity),
                (Ok(BatchFfnWorkspace::Dense(workspace)), FfnWeights::Dense(weights)) =>
                workspace.made_for(layers@, weights, capacity) && workspace.fresh(capacity),
                (Err(error), FfnWeights::Moe(weights)) => weights.obstacle() == Some(error),
                _ => false,
            },
    {
        match weights {
            FfnWeights::Moe(weights) => match BatchMoeWorkspace::new(hidden, weights, capacity) {
                Ok(workspace) => Ok(BatchFfnWorkspace::Moe(workspace)),
                Err(error) => Err(error),
            },
            FfnWeights::Dense(weights) => Ok(
                BatchFfnWorkspace::Dense(BatchDenseMlpWorkspace::new(layers, weights, capacity)),
            ),
        }
    }
}

/// One batch of a feed-forward block.
#[derive(Clone, Copy, Debug, PartialEq, Eq, Structural)]
pub struct FfnPass {
    /// Width of the residual stream.
    pub hidden: usize,
    /// Rows.
    pub rows: usize,
    /// Whether a row must come out the same whatever batch it is in.
    pub stabilise: bool,
    /// Whether the shared expert runs beside the routed ones.
    pub parallel: bool,
}

impl FfnPass {
    /// Quantisation of the input of a dense projection, where it is needed.
    pub open spec fn quantize_ops(self, target: FfnProjection, linear: Linear) -> Seq<FfnOp> {
        let mode = crate::qwen36::linear::quantization_of(seq![linear], self.rows);
        (if mode is Unused {
            seq![]
        } else {
            seq![FfnOp::Quantize { target, rows: self.rows, cols: linear.cols, mode }]
        }) + seq![FfnOp::Project { target, rows: self.rows, serial: self.stabilise, mode }]
    }

    /// Operations of a dense block.
    pub open spec fn dense_ops(self, weights: DenseWeights) -> Seq<FfnOp> {
        self.quantize_ops(FfnProjection::GateUp, weights.gate_up) + seq![
            FfnOp::Silu { rows: self.rows, width: weights.down.cols },
        ] + self.quantize_ops(FfnProjection::Down, weights.down) + seq![
            FfnOp::AddResidual { values: (self.rows * self.hidden) as usize },
            FfnOp::RoundOutput,
        ]
    }

    fn push_dense_projection(&self, ops: &mut Vec<FfnOp>, target: FfnProjection, linear: Linear)
        ensures
            final(ops)@ == old(ops)@ + self.quantize_ops(target, linear),
    {
        let linears: [Linear; 1] = [linear];
        assert(linears@ =~= seq![linear]);
        let mode = prepare_fp8_batch_input(linears.as_slice(), self.rows);
        match mode {
            BatchFp8InputQuantization::Unused => {},
            _ => {
                ops.push(FfnOp::Quantize { target, rows: self.rows, cols: linear.cols, mode });
            },
        }
        ops.push(FfnOp::Project { target, rows: self.rows, serial: self.stabilise, mode });
        assert(ops@ =~= old(ops)@ + self.quantize_ops(target, linear));
    }

    /// What stands against a projection on a set of plans, if anything.
    pub open spec fn set_obstacle(
        self,
        linear: Linear,
        plans: BatchLinearPlanSet,
    ) -> Option<FfnError> {
        let mode = crate::qwen36::linear::quantization_of(seq![linear], self.rows);
        match crate::qwen36::linear::linear_obstacle(plans.member(linear.storage), linear, mode) {
            Some(error) => Some(FfnError::Projection(error)),
            None => None,
        }
    }

    /// What stands against a dense block, if anything: the first projection without a plan.
    pub open spec fn dense_obstacle(
        self,
        weights: DenseWeights,
        workspace: BatchDenseMlpWorkspace,
    ) -> Option<FfnError> {
        let gate_up = self.set_obstacle(weights.gate_up, workspace.gate_up_plans);
        if gate_up is Some {
            gate_up
        } else {
            self.set_obstacle(weights.down, workspace.down_plans)
        }
    }

    fn check_set(&self, linear: &Linear, plans: &BatchLinearPlanSet) -> (obstacle: Option<FfnError>)
        ensures
            obstacle == self.set_obstacle(*linear, *plans),
    {
        let linears: [Linear; 1] = [*linear];
        assert(linears@ =~= seq![*linear]);
        let mode = prepare_fp8_batch_input(linears.as_slice(), self.rows);
        let member = match linear.storage {
            Storage::Bf16 => &plans.bf16,
            Storage::Fp8 => &plans.fp8,
            Storage::Nvfp4 => &plans.nvfp4,
        };
        match member {
            None => Some(FfnError::Projection(LinearError::NoPlan)),
            Some(plan) => match check_storage(plan.storage, linear, mode) {
                Some(error) => Some(FfnError::Projection(error)),
                None => None,
            },
        }
    }

    fn run_dense(&self, weights: &DenseWeights, workspace: &BatchDenseMlpWorkspace) -> (result:
        Result<Vec<FfnOp>, FfnError>)
        requires
            self.rows * self.hidden <= usize::MAX,
        ensures
            match result {
                Ok(ops) => self.dense_obstacle(*weights, *workspace) is None && ops@
                    == self.dense_ops(*weights),
                Err(error) => self.dense_obstacle(*weights, *workspace) == Some(error),
            },
    {
        match self.check_set(&weights.gate_up, &workspace.gate_up_plans) {
            Some(error) => return Err(error),
            None => {},
        }
        match self.check_set(&weights.down, &workspace.down_plans) {
            Some(error) => return Err(error),
            None => {},
        }
        let mut ops: Vec<FfnOp> = Vec::new();
        self.push_dense_projection(&mut ops, FfnProjection::GateUp, weights.gate_up);
        ops.push(FfnOp::Silu { rows: self.rows, width: weights.down.cols });
        self.push_dense_projection(&mut ops, FfnProjection::Down, weights.down);
        ops.push(FfnOp::AddResidual { values: self.rows * self.hidden });
        ops.push(FfnOp::RoundOutput);
        assert(ops@ =~= self.dense_ops(*weights));
        Ok(ops)
    }

    /// What stands against the shared expert, if anything.
    pub open spec fn shared_obstacle(
        self,
        weights: MoeWeights,
        workspace: BatchMoeWorkspace,
    ) -> Option<FfnError> {
        match weights.shared {
            Storage::Nvfp4 => if !workspace.shared_gate_up_plan {
                Some(FfnError::NoSharedGateUpPlan)
            } else if !workspace.shared_down_plan {
                Some(FfnError::NoSharedDownPlan)
            } else {
                None
            },
            Storage::Fp8 => Some(FfnError::SharedFp8),
            Storage::Bf16 => None,
        }
    }

    /// Operations of the shared expert.
    pub open spec fn shared_ops(self, weights: MoeWeights, stream: FfnStream) -> Seq<FfnOp> {
        let rows = self.rows;
        let storage = weights.shared;
        seq![
            FfnOp::SharedProject { stream, target: FfnProjection::GateUp, storage, rows },
            FfnOp::SharedSilu { stream, rows, width: weights.expert_intermediate },
            FfnOp::SharedProject { stream, target: FfnProjection::Down, storage, rows },
            FfnOp::SharedGate { stream, rows },
        ]
    }

    /// Plans the shared expert on one stream.
    pub fn enqueue_shared_batch(
        &self,
        weights: &MoeWeights,
        workspace: &BatchMoeWorkspace,
        stream: FfnStream,
    ) -> (result: Result<Vec<FfnOp>, FfnError>)
        ensures
            match result {
                Ok(ops) => self.shared_obstacle(*weights, *workspace) is None && ops@
                    == self.shared_ops(*weights, stream),
                Err(error) => self.shared_obstacle(*weights, *workspace) == Some(error),
            },
    {
        match weights.shared {
            Storage::Nvfp4 => {
                if !workspace.shared_gate_up_plan {
                    return Err(FfnError::NoSharedGateUpPlan);
                }
                if !workspace.shared_down_plan {
                    return Err(FfnError::NoSharedDownPlan);
                }
            },
            Storage::Fp8 => {
                return Err(FfnError::SharedFp8);
            },
            Storage::Bf16 => {},
        }
        let rows: usize = self.rows;
        let storage = weights.shared;
        let width: usize = weights.expert_intermediate;
        let mut ops: Vec<FfnOp> = Vec::new();
        ops.push(FfnOp::SharedProject { stream, target: FfnProjection::GateUp, storage, rows });
        ops.push(FfnOp::SharedSilu { stream, rows, width });
        ops.push(FfnOp::SharedProject { stream, target: FfnProjection::Down, storage, rows });
        ops.push(FfnOp::SharedGate { stream, rows });
        assert(ops@ =~= self.shared_ops(*weights, stream));
        Ok(ops)
    }

    /// Routing of a block of experts.
    pub open spec fn route_ops(self, weights: MoeWeights) -> Seq<FfnOp> {
        seq![FfnOp::Router { rows: self.rows }] + (if self.stabilise {
            seq![FfnOp::RoundRouter]
        } else {
            seq![]
        }) + seq![
            FfnOp::TopK {
                rows: self.rows,
                experts: weights.experts,
                selected: weights.experts_per_token,
                normalise: weights.norm_topk_prob,
            },
        ]
    }

    /// Products of the selected experts.
    pub open spec fn expert_ops(self, weights: MoeWeights) -> Seq<FfnOp> {
        seq![
            FfnOp::SetRows {
                rows: self.rows,
                routes: (self.rows * weights.experts_per_token) as usize,
            },
            FfnOp::SortRoutes,
            FfnOp::GatherQuantize,
            FfnOp::GateUpTables { width: (weights.expert_intermediate * 2) as usize },
            FfnOp::GateUpProduct,
            FfnOp::SiluQuantize,
            FfnOp::DownTables { width: self.hidden },
            FfnOp::DownProduct,
            FfnOp::Accumulate {
                rows: self.rows,
                selected: weights.experts_per_token,
                hidden: self.hidden,
            },
        ]
    }

    /// Operations of a block of routed experts.
    pub open spec fn moe_ops(self, weights: MoeWeights) -> Seq<FfnOp> {
        (if self.parallel {
            seq![FfnOp::RecordFork, FfnOp::WaitFork] + self.shared_ops(weights, FfnStream::Shared)
        } else {
            seq![]
        }) + self.route_ops(weights) + self.expert_ops(weights) + (if self.parallel {
            seq![FfnOp::RecordJoin, FfnOp::WaitJoin]
        } else {
            self.shared_ops(weights, FfnStream::Main)
        }) + seq![FfnOp::Finalize { rows: self.rows, hidden: self.hidden }]
    }

    /// What stands against a block of routed experts, if anything.
    ///
    /// The shared expert is met first where it runs beside the routed ones, which need the
    /// grouped weights.
    pub open spec fn moe_obstacle(
        self,
        weights: MoeWeights,
        workspace: BatchMoeWorkspace,
    ) -> Option<FfnError> {
        let rows = if 0 < self.rows <= workspace.grouped.capacity_rows {
            None
        } else {
            Some(FfnError::Rows { capacity: workspace.grouped.capacity_rows, rows: self.rows })
        };
        let shared = self.shared_obstacle(weights, workspace);
        if self.parallel && shared is Some {
            shared
        } else if !weights.grouped {
            Some(FfnError::NoGroupedWeights)
        } else if rows is Some {
            rows
        } else {
            shared
        }
    }

    fn push_experts(&self, ops: &mut Vec<FfnOp>, weights: &MoeWeights, routes: usize)
        requires
            routes == self.rows * weights.experts_per_token,
            weights.expert_intermediate * 2 <= usize::MAX,
        ensures
            final(ops)@ == old(ops)@ + self.expert_ops(*weights),
    {
        ops.push(FfnOp::SetRows { rows: self.rows, routes });
        ops.push(FfnOp::SortRoutes);
        ops.push(FfnOp::GatherQuantize);
        ops.push(FfnOp::GateUpTables { width: weights.expert_intermediate * 2 });
        ops.push(FfnOp::GateUpProduct);
        ops.push(FfnOp::SiluQuantize);
        ops.push(FfnOp::DownTables { width: self.hidden });
        ops.push(FfnOp::DownProduct);
        ops.push(
            FfnOp::Accumulate {
                rows: self.rows,
                selected: weights.experts_per_token,
                hidden: self.hidden,
            },
        );
        assert(ops@ =~= old(ops)@ + self.expert_ops(*weights));
    }

    fn push_routes(&self, ops: &mut Vec<FfnOp>, weights: &MoeWeights)
        ensures
            final(ops)@ == old(ops)@ + self.route_ops(*weights),
    {
        ops.push(FfnOp::Router { rows: self.rows });
        if self.stabilise {
            ops.push(FfnOp::RoundRouter);
        }
        ops.push(
            FfnOp::TopK {
                rows: self.rows,
                experts: weights.experts,
                selected: weights.experts_per_token,
                normalise: weights.norm_topk_prob,
            },
        );
        assert(ops@ =~= old(ops)@ + self.route_ops(*weights));
    }

    /// Whether the buffers of a block of experts serve another one.
    pub open spec fn serves_experts(
        self,
        weights: MoeWeights,
        workspace: BatchMoeWorkspace,
    ) -> bool {
        &&& workspace.grouped.well_formed()
        &&& workspace.grouped.routes_per_row == weights.experts_per_token
        &&& weights.expert_intermediate * 2 <= usize::MAX
    }

    /// Plans a block of routed experts.
    pub fn run_moe(&self, weights: &MoeWeights, workspace: &BatchMoeWorkspace) -> (result: Result<
        Vec<FfnOp>,
        FfnError,
    >)
        requires
            self.serves_experts(*weights, *workspace),
        ensures
            match result {
                Ok(ops) => self.moe_obstacle(*weights, *workspace) is None && ops@ == self.moe_ops(
                    *weights,
                ),
                Err(error) => self.moe_obstacle(*weights, *workspace) == Some(error),
            },
    {
        let mut ops: Vec<FfnOp> = Vec::new();
        if self.parallel {
            ops.push(FfnOp::RecordFork);
            ops.push(FfnOp::WaitFork);
            match self.enqueue_shared_batch(weights, workspace, FfnStream::Shared) {
                Ok(mut shared) => {
                    ops.append(&mut shared);
                },
                Err(error) => {
                    return Err(error);
                },
            }
        }
        let ghost head = ops@;
        self.push_routes(&mut ops, weights);
        if !weights.grouped {
            return Err(FfnError::NoGroupedWeights);
        }
        match workspace.grouped.set_rows(self.rows) {
            Ok(routes) => {
                self.push_experts(&mut ops, weights, routes);
            },
            Err(error) => {
                return Err(error);
            },
        }
        if self.parallel {
            ops.push(FfnOp::RecordJoin);
            ops.push(FfnOp::WaitJoin);
        } else {
            match self.enqueue_shared_batch(weights, workspace, FfnStream::Main) {
                Ok(mut shared) => {
                    ops.append(&mut shared);
                },
                Err(error) => {
                    return Err(error);
                },
            }
        }
        ops.push(FfnOp::Finalize { rows: self.rows, hidden: self.hidden });
        assert(ops@ =~= self.moe_ops(*weights));
        Ok(ops)
    }

    /// What stands against a feed-forward block, if anything.
    pub open spec fn obstacle(
        self,
        weights: FfnWeights,
        workspace: BatchFfnWorkspace,
    ) -> Option<FfnError> {
        match (weights, workspace) {
            (FfnWeights::Moe(weights), BatchFfnWorkspace::Moe(workspace)) => self.moe_obstacle(
                weights,
                workspace,
            ),
            (FfnWeights::Dense(weights), BatchFfnWorkspace::Dense(workspace)) =>
            self.dense_obstacle(weights, workspace),
            _ => Some(FfnError::WorkspaceKind),
        }
    }

    /// Operations of a feed-forward block.
    pub open spec fn ops(self, weights: FfnWeights) -> Seq<FfnOp> {
        match weights {
            FfnWeights::Moe(weights) => self.moe_ops(weights),
            FfnWeights::Dense(weights) => self.dense_ops(weights),
        }
    }

    /// Whether a workspace serves a block.
    pub open spec fn serves(self, weights: FfnWeights, workspace: BatchFfnWorkspace) -> bool {
        match (weights, workspace) {
            (FfnWeights::Moe(weights), BatchFfnWorkspace::Moe(workspace)) => self.serves_experts(
                weights,
                workspace,
            ),
            _ => self.rows * self.hidden <= usize::MAX,
        }
    }

    /// Plans a feed-forward block.
    pub fn run_batch(&self, weights: &FfnWeights, workspace: &BatchFfnWorkspace) -> (result: Result<
        Vec<FfnOp>,
        FfnError,
    >)
        requires
            self.serves(*weights, *workspace),
        ensures
            match result {
                Ok(ops) => self.obstacle(*weights, *workspace) is None && ops@ == self.ops(
                    *weights,
                ),
                Err(error) => self.obstacle(*weights, *workspace) == Some(error),
            },
    {
        match (weights, workspace) {
            (FfnWeights::Moe(weights), BatchFfnWorkspace::Moe(workspace)) => self.run_moe(
                weights,
                workspace,
            ),
            (FfnWeights::Dense(weights), BatchFfnWorkspace::Dense(workspace)) => self.run_dense(
                weights,
                workspace,
            ),
            _ => Err(FfnError::WorkspaceKind),
        }
    }
}

proof fn lemma_dense_linear(
    layers: Seq<FfnWeights>,
    target: FfnProjection,
    count: nat,
    layer: int,
    linear: Linear,
)
    requires
        0 <= layer < count <= layers.len(),
        layers[layer] matches FfnWeights::Dense(weights) && linear == (match target {
            FfnProjection::GateUp => weights.gate_up,
            FfnProjection::Down => weights.down,
        }),
    ensures
        dense_linears(layers, target, count).contains(linear),
    decreases count,
{
    let all = dense_linears(layers, target, count);
    let before = dense_linears(layers, target, (count - 1) as nat);
    if layer == count - 1 {
        assert(all[all.len() - 1] == linear);
    } else {
        lemma_dense_linear(layers, target, (count - 1) as nat, layer, linear);
        let i = choose|i: int| 0 <= i < before.len() && before[i] == linear;
        assert(all[i] == linear);
    }
}

proof fn lemma_set_serves(
    pass: FfnPass,
    linears: Seq<Linear>,
    plans: BatchLinearPlanSet,
    capacity: usize,
    linear: Linear,
)
    requires
        plans_for(plans, linears, capacity),
        linears.contains(linear),
    ensures
        pass.set_obstacle(linear, plans) is None,
{
    let member = plans.member(linear.storage);
    assert(crate::qwen36::linear::set_member(
        member,
        linears,
        linear.storage,
        capacity,
        linears.len() as int,
    ));
    let i = choose|i: int| 0 <= i < linears.len() && linears[i] == linear;
    assert(linears[i].storage == linear.storage);
    if linear.storage == Storage::Fp8 {
        crate::qwen36::linear::law_prepared_activation_fits(seq![linear], pass.rows, 0);
    }
}

/// The dense blocks of every layer run on the buffers that were made for all of them, whatever
/// formats their weights are stored in.
pub proof fn law_dense_blocks_run_on_their_plans(
    pass: FfnPass,
    layers: Seq<FfnWeights>,
    first: DenseWeights,
    workspace: BatchDenseMlpWorkspace,
    capacity: usize,
    layer: int,
)
    requires
        workspace.made_for(layers, first, capacity),
        0 <= layer < layers.len(),
        layers[layer] is Dense,
    ensures
        pass.obstacle(layers[layer], BatchFfnWorkspace::Dense(workspace)) is None,
{
    let weights = layers[layer]->Dense_0;
    let count = layers.len();
    lemma_dense_linear(layers, FfnProjection::GateUp, count, layer, weights.gate_up);
    lemma_dense_linear(layers, FfnProjection::Down, count, layer, weights.down);
    lemma_set_serves(
        pass,
        dense_linears(layers, FfnProjection::GateUp, count),
        workspace.gate_up_plans,
        capacity,
        weights.gate_up,
    );
    lemma_set_serves(
        pass,
        dense_linears(layers, FfnProjection::Down, count),
        workspace.down_plans,
        capacity,
        weights.down,
    );
}

/// Whether an operation runs on the stream of the shared expert.
pub open spec fn on_shared_stream(op: FfnOp) -> bool {
    match op {
        FfnOp::SharedProject { stream, .. } => stream == FfnStream::Shared,
        FfnOp::SharedSilu { stream, .. } => stream == FfnStream::Shared,
        FfnOp::SharedGate { stream, .. } => stream == FfnStream::Shared,
        _ => false,
    }
}

/// A shared expert that runs beside the routed ones starts after the fork, is done at the join,
/// and the outputs are added only after the join.
pub proof fn law_shared_expert_is_joined(pass: FfnPass, weights: MoeWeights, index: int)
    requires
        pass.parallel,
        0 <= index < pass.moe_ops(weights).len(),
        on_shared_stream(pass.moe_ops(weights)[index]),
    ensures
        ({
            let ops = pass.moe_ops(weights);
            &&& ops[0] == FfnOp::RecordFork
            &&& ops[1] == FfnOp::WaitFork
            &&& 1 < index < ops.len() - 3
            &&& ops[ops.len() - 3] == FfnOp::RecordJoin
            &&& ops[ops.len() - 2] == FfnOp::WaitJoin
            &&& ops[ops.len() - 1] is Finalize
        }),
{
    let ops = pass.moe_ops(weights);
    let head = seq![FfnOp::RecordFork, FfnOp::WaitFork] + pass.shared_ops(
        weights,
        FfnStream::Shared,
    );
    let routed = pass.route_ops(weights) + pass.expert_ops(weights);
    assert(head.len() == 6);
    assert(ops =~= head + routed + seq![
        FfnOp::RecordJoin,
        FfnOp::WaitJoin,
        FfnOp::Finalize { rows: pass.rows, hidden: pass.hidden },
    ]);
    assert forall|i: int| 0 <= i < routed.len() implies !on_shared_stream(#[trigger] routed[i]) by {
        if i < pass.route_ops(weights).len() {
            assert(routed[i] == pass.route_ops(weights)[i]);
        } else {
            assert(routed[i] == pass.expert_ops(weights)[i - pass.route_ops(weights).len()]);
        }
    }
    if 6 <= index < 6 + routed.len() {
        assert(ops[index] == routed[index - 6]);
    }
}

/// Whether the shared expert runs beside the routed ones changes neither what it computes nor
/// what they compute.
pub proof fn law_parallel_experts_do_the_same_work(pass: FfnPass, weights: MoeWeights)
    requires
        !pass.parallel,
    ensures
        ({
            let beside = FfnPass { parallel: true, ..pass };
            let routed = pass.route_ops(weights) + pass.expert_ops(weights);
            &&& pass.moe_ops(weights) == routed + pass.shared_ops(weights, FfnStream::Main) + seq![
                FfnOp::Finalize { rows: pass.rows, hidden: pass.hidden },
            ]
            &&& beside.moe_ops(weights) == seq![FfnOp::RecordFork, FfnOp::WaitFork]
                + pass.shared_ops(weights, FfnStream::Shared) + routed + seq![
                FfnOp::RecordJoin,
                FfnOp::WaitJoin,
                FfnOp::Finalize { rows: pass.rows, hidden: pass.hidden },
            ]
        }),
{
    let beside = FfnPass { parallel: true, ..pass };
    let routed = pass.route_ops(weights) + pass.expert_ops(weights);
    assert(beside.route_ops(weights) =~= pass.route_ops(weights));
    assert(beside.expert_ops(weights) =~= pass.expert_ops(weights));
    assert(beside.shared_ops(weights, FfnStream::Shared) =~= pass.shared_ops(
        weights,
        FfnStream::Shared,
    ));
    assert(pass.moe_ops(weights) =~= routed + pass.shared_ops(weights, FfnStream::Main) + seq![
        FfnOp::Finalize { rows: pass.rows, hidden: pass.hidden },
    ]);
    assert(beside.moe_ops(weights) =~= seq![FfnOp::RecordFork, FfnOp::WaitFork] + pass.shared_ops(
        weights,
        FfnStream::Shared,
    ) + routed + seq![
        FfnOp::RecordJoin,
        FfnOp::WaitJoin,
        FfnOp::Finalize { rows: pass.rows, hidden: pass.hidden },
    ]);
}

} // verus!
