//! What the operations of a feed-forward block leave in its buffers.

use crate::qwen36::ffn::{
    DenseWeights, FfnOp, FfnPass, FfnProjection, FfnStream, MoeWeights,
};
use crate::qwen36::linear::{BatchFp8InputQuantization, Storage};
use vstd::prelude::*;

verus! {

/// Buffers of a dense block.
pub struct DenseDevice {
    /// Every operation so far found its inputs ready and took all rows.
    pub sound: bool,
    /// How the input was quantised.
    pub input: BatchFp8InputQuantization,
    /// Gates and values.
    pub gate_up: bool,
    /// Activated values.
    pub activated: bool,
    /// How they were quantised.
    pub activated_form: BatchFp8InputQuantization,
    /// Projected values.
    pub down: bool,
    /// Sum with the residual stream.
    pub sum: bool,
    /// Whether the sum was rounded.
    pub rounded: bool,
}

/// Buffers before the first operation of a dense block.
pub open spec fn idle_dense() -> DenseDevice {
    DenseDevice {
        sound: true,
        input: BatchFp8InputQuantization::Unused,
        gate_up: false,
        activated: false,
        activated_form: BatchFp8InputQuantization::Unused,
        down: false,
        sum: false,
        rounded: false,
    }
}

impl DenseDevice {
    /// What one operation leaves.
    pub open spec fn performed(self, pass: FfnPass, weights: DenseWeights, op: FfnOp) -> DenseDevice {
        match op {
            FfnOp::Quantize { target: FfnProjection::GateUp, rows, cols, mode } => DenseDevice {
                sound: self.sound && self.input is Unused && !self.gate_up && rows == pass.rows
                    && cols == weights.gate_up.cols,
                input: mode,
                ..self
            },
            FfnOp::Quantize { target: FfnProjection::Down, rows, cols, mode } => DenseDevice {
                sound: self.sound && self.activated && self.activated_form is Unused && !self.down
                    && rows == pass.rows && cols == weights.down.cols,
                activated_form: mode,
                ..self
            },
            FfnOp::Project { target: FfnProjection::GateUp, rows, serial, mode } => DenseDevice {
                sound: self.sound && !self.gate_up && mode == self.input
                    && crate::qwen36::attention_flow::takes(weights.gate_up, mode) && rows
                    == pass.rows && serial == pass.stabilise,
                gate_up: true,
                ..self
            },
            FfnOp::Project { target: FfnProjection::Down, rows, serial, mode } => DenseDevice {
                sound: self.sound && self.activated && !self.down && mode == self.activated_form
                    && crate::qwen36::attention_flow::takes(weights.down, mode) && rows
                    == pass.rows && serial == pass.stabilise,
                down: true,
                ..self
            },
            FfnOp::Silu { rows, width } => DenseDevice {
                sound: self.sound && self.gate_up && !self.activated && rows == pass.rows && width
                    == weights.down.cols,
                activated: true,
                ..self
            },
            FfnOp::AddResidual { values } => DenseDevice {
                sound: self.sound && self.down && !self.sum && values == pass.rows * pass.hidden,
                sum: true,
                ..self
            },
            FfnOp::RoundOutput => DenseDevice {
                sound: self.sound && self.sum && !self.rounded,
                rounded: true,
                ..self
            },
            _ => DenseDevice { sound: false, ..self },
        }
    }
}

/// What the operations of a dense block do.
pub open spec fn dense_step(pass: FfnPass, weights: DenseWeights) -> spec_fn(
    DenseDevice,
    FfnOp,
) -> DenseDevice {
    |device: DenseDevice, op: FfnOp| device.performed(pass, weights, op)
}

/// A dense block runs as a whole: gates and values are projected from the input, activated,
/// projected down, each from a form that its weights take, and added to the residual stream;
/// the sum is rounded.
#[verifier::rlimit(40)]
pub proof fn law_dense_block_runs(pass: FfnPass, weights: DenseWeights)
    requires
        pass.rows * pass.hidden <= usize::MAX,
    ensures
        ({
            let device = crate::device::after(
                dense_step(pass, weights),
                idle_dense(),
                pass.dense_ops(weights),
            );
            &&& device.sound
            &&& device.sum
            &&& device.rounded
        }),
{
    let step = dense_step(pass, weights);
    let up_mode = crate::qwen36::linear::quantization_of(seq![weights.gate_up], pass.rows);
    let down_mode = crate::qwen36::linear::quantization_of(seq![weights.down], pass.rows);
    if weights.gate_up.storage == Storage::Fp8 {
        crate::qwen36::linear::law_prepared_activation_fits(seq![weights.gate_up], pass.rows, 0);
    }
    if weights.down.storage == Storage::Fp8 {
        crate::qwen36::linear::law_prepared_activation_fits(seq![weights.down], pass.rows, 0);
    }
    assert(0 <= pass.rows * pass.hidden) by (nonlinear_arith);
    let up = pass.quantize_ops(FfnProjection::GateUp, weights.gate_up);
    let silu = seq![FfnOp::Silu { rows: pass.rows, width: weights.down.cols }];
    let down = pass.quantize_ops(FfnProjection::Down, weights.down);
    let last = seq![
        FfnOp::AddResidual { values: (pass.rows * pass.hidden) as usize },
        FfnOp::RoundOutput,
    ];
    let idle = idle_dense();
    assert(pass.dense_ops(weights) =~= up + silu + down + last);
    crate::device::lemma_after_both(step, idle, up + silu + down, last);
    crate::device::lemma_after_both(step, idle, up + silu, down);
    crate::device::lemma_after_both(step, idle, up, silu);
    let d1 = crate::device::after(step, idle, up);
    assert(d1 == DenseDevice { input: up_mode, gate_up: true, ..idle }) by {
        if up_mode is Unused {
            crate::device::lemma_after_one(step, idle, up);
        } else {
            crate::device::lemma_after_two(step, idle, up);
        }
    }
    crate::device::lemma_after_one(step, d1, silu);
    let d2 = crate::device::after(step, d1, silu);
    assert(d2 == DenseDevice { activated: true, ..d1 });
    let d3 = crate::device::after(step, d2, down);
    assert(d3 == DenseDevice { activated_form: down_mode, down: true, ..d2 }) by {
        if down_mode is Unused {
            crate::device::lemma_after_one(step, d2, down);
        } else {
            crate::device::lemma_after_two(step, d2, down);
        }
    }
    crate::device::lemma_after_two(step, d3, last);
}

/// Buffers of a block of experts.
pub struct MoeDevice {
    /// Every operation so far found its inputs ready, on its own stream, and took all rows.
    pub sound: bool,
    /// Whether the point was marked from which the second stream may start.
    pub fork: bool,
    /// Whether the second stream waits for that point.
    pub forked: bool,
    /// Stream that the shared expert runs on.
    pub shared_stream: Option<FfnStream>,
    /// Gates and values of the shared expert.
    pub shared_up: bool,
    /// Its activated values.
    pub shared_activated: bool,
    /// Its projected values.
    pub shared_down: bool,
    /// Its gate.
    pub shared_gate: bool,
    /// Whether the point was marked at which the second stream is done.
    pub join: bool,
    /// Whether the batch waits for that point.
    pub joined: bool,
    /// Router logits.
    pub logits: bool,
    /// Whether they were rounded.
    pub rounded: bool,
    /// Selected experts and their weights.
    pub routes: bool,
    /// Whether the workspace was sized for them.
    pub sized: bool,
    /// Whether they were sorted by expert.
    pub sorted: bool,
    /// Gathered rows of every expert.
    pub gathered: bool,
    /// Where the next products go.
    pub table: Option<usize>,
    /// Gates and values of every expert.
    pub gate_up: bool,
    /// Activated values of every expert.
    pub activated: bool,
    /// Projected values of every expert.
    pub down: bool,
    /// Weighted sum of every row.
    pub routed: bool,
    /// Output of the block.
    pub output: bool,
}

/// Buffers before the first operation of a block of experts.
pub open spec fn idle_moe() -> MoeDevice {
    MoeDevice {
        sound: true,
        fork: false,
        forked: false,
        shared_stream: None,
        shared_up: false,
        shared_activated: false,
        shared_down: false,
        shared_gate: false,
        join: false,
        joined: false,
        logits: false,
        rounded: false,
        routes: false,
        sized: false,
        sorted: false,
        gathered: false,
        table: None,
        gate_up: false,
        activated: false,
        down: false,
        routed: false,
        output: false,
    }
}

impl MoeDevice {
    /// Whether the shared expert may run on a stream: on the second one behind the fork and
    /// before the join, where there are two.
    pub open spec fn may_share(self, pass: FfnPass, stream: FfnStream) -> bool {
        &&& self.sound
        &&& (stream == FfnStream::Shared) == pass.parallel
        &&& stream == FfnStream::Shared ==> self.forked && !self.join
    }

    /// What an operation of the shared expert leaves.
    pub open spec fn shared(self, pass: FfnPass, weights: MoeWeights, op: FfnOp) -> MoeDevice {
        match op {
            FfnOp::RecordFork => MoeDevice {
                sound: self.sound && pass.parallel && !self.fork,
                fork: true,
                ..self
            },
            FfnOp::WaitFork => MoeDevice {
                sound: self.sound && self.fork && !self.forked,
                forked: true,
                ..self
            },
            FfnOp::SharedProject { stream, target: FfnProjection::GateUp, storage, rows } => {
                MoeDevice {
                    sound: self.may_share(pass, stream) && !self.shared_up && storage
                        == weights.shared && rows == pass.rows,
                    shared_up: true,
                    ..self
                }
            },
            FfnOp::SharedSilu { stream, rows, width } => MoeDevice {
                sound: self.may_share(pass, stream) && self.shared_up && !self.shared_activated
                    && rows == pass.rows && width == weights.expert_intermediate,
                shared_activated: true,
                ..self
            },
            FfnOp::SharedProject { stream, target: FfnProjection::Down, storage, rows } => {
                MoeDevice {
                    sound: self.may_share(pass, stream) && self.shared_activated
                        && !self.shared_down && storage == weights.shared && rows == pass.rows,
                    shared_down: true,
                    ..self
                }
            },
            FfnOp::SharedGate { stream, rows } => MoeDevice {
                sound: self.may_share(pass, stream) && !self.shared_gate && rows == pass.rows,
                shared_gate: true,
                ..self
            },
            FfnOp::RecordJoin => MoeDevice {
                sound: self.sound && self.forked && self.shared_down && self.shared_gate
                    && !self.join,
                join: true,
                ..self
            },
            FfnOp::WaitJoin => MoeDevice {
                sound: self.sound && self.join && !self.joined,
                joined: true,
                ..self
            },
            _ => self,
        }
    }

    /// What an operation of the routed experts leaves.
    pub open spec fn experts(self, pass: FfnPass, weights: MoeWeights, op: FfnOp) -> MoeDevice {
        match op {
            FfnOp::Router { rows } => MoeDevice {
                sound: self.sound && !self.logits && rows == pass.rows,
                logits: true,
                ..self
            },
            FfnOp::RoundRouter => MoeDevice {
                sound: self.sound && pass.stabilise && self.logits && !self.rounded
                    && !self.routes,
                rounded: true,
                ..self
            },
            FfnOp::TopK { rows, experts, selected, normalise } => MoeDevice {
                sound: self.sound && self.logits && self.rounded == pass.stabilise && !self.routes
                    && rows == pass.rows && experts == weights.experts && selected
                    == weights.experts_per_token && normalise == weights.norm_topk_prob,
                routes: true,
                ..self
            },
            FfnOp::SetRows { rows, routes } => MoeDevice {
                sound: self.sound && !self.sized && rows == pass.rows && routes == pass.rows
                    * weights.experts_per_token,
                sized: true,
                ..self
            },
            FfnOp::SortRoutes => MoeDevice {
                sound: self.sound && self.routes && self.sized && !self.sorted,
                sorted: true,
                ..self
            },
            FfnOp::GatherQuantize => MoeDevice {
                sound: self.sound && self.sorted && !self.gathered,
                gathered: true,
                ..self
            },
            FfnOp::GateUpTables { width } => MoeDevice {
                sound: self.sound && self.sorted && width == weights.expert_intermediate * 2,
                table: Some(width),
                ..self
            },
            FfnOp::GateUpProduct => MoeDevice {
                sound: self.sound && self.gathered && !self.gate_up && self.table is Some
                    && self.table->0 == weights.expert_intermediate * 2,
                gate_up: true,
                table: None,
                ..self
            },
            FfnOp::SiluQuantize => MoeDevice {
                sound: self.sound && self.gate_up && !self.activated,
                activated: true,
                ..self
            },
            FfnOp::DownTables { width } => MoeDevice {
                sound: self.sound && self.sorted && self.gate_up && width == pass.hidden,
                table: Some(width),
                ..self
            },
            FfnOp::DownProduct => MoeDevice {
                sound: self.sound && self.activated && !self.down && self.table == Some(
                    pass.hidden,
                ),
                down: true,
                table: None,
                ..self
            },
            FfnOp::Accumulate { rows, selected, hidden } => MoeDevice {
                sound: self.sound && self.down && !self.routed && rows == pass.rows && selected
                    == weights.experts_per_token && hidden == pass.hidden,
                routed: true,
                ..self
            },
            FfnOp::Finalize { rows, hidden } => MoeDevice {
                sound: self.sound && self.routed && self.shared_down && self.shared_gate && (
                pass.parallel ==> self.joined) && !self.output && rows == pass.rows && hidden
                    == pass.hidden,
                output: true,
                ..self
            },
            _ => MoeDevice { sound: false, ..self },
        }
    }

    /// What one operation leaves.
    pub open spec fn performed(self, pass: FfnPass, weights: MoeWeights, op: FfnOp) -> MoeDevice {
        if op is RecordFork || op is WaitFork || op is SharedProject || op is SharedSilu
            || op is SharedGate || op is RecordJoin || op is WaitJoin {
            self.shared(pass, weights, op)
        } else {
            self.experts(pass, weights, op)
        }
    }
}

/// What the operations of a block of experts do.
pub open spec fn moe_step(pass: FfnPass, weights: MoeWeights) -> spec_fn(
    MoeDevice,
    FfnOp,
) -> MoeDevice {
    |device: MoeDevice, op: FfnOp| device.performed(pass, weights, op)
}

#[verifier::rlimit(40)]
proof fn lemma_shared(pass: FfnPass, weights: MoeWeights, before: MoeDevice, stream: FfnStream)
    requires
        before.may_share(pass, stream),
        !before.shared_up && !before.shared_activated && !before.shared_down
            && !before.shared_gate,
    ensures
        crate::device::after(
            moe_step(pass, weights),
            before,
            pass.shared_ops(weights, stream),
        ) == (MoeDevice {
            shared_up: true,
            shared_activated: true,
            shared_down: true,
            shared_gate: true,
            ..before
        }),
{
    let step = moe_step(pass, weights);
    let ops = pass.shared_ops(weights, stream);
    crate::device::lemma_after_four(step, before, ops);
    let d1 = step(before, ops[0]);
    assert(d1 == MoeDevice { shared_up: true, ..before });
    let d2 = step(d1, ops[1]);
    assert(d2 == MoeDevice { shared_activated: true, ..d1 });
    let d3 = step(d2, ops[2]);
    assert(d3 == MoeDevice { shared_down: true, ..d2 });
}

#[verifier::rlimit(40)]
proof fn lemma_routes(pass: FfnPass, weights: MoeWeights, before: MoeDevice)
    requires
        before.sound && !before.logits && !before.rounded && !before.routes,
    ensures
        crate::device::after(moe_step(pass, weights), before, pass.route_ops(weights)) == (
        MoeDevice { logits: true, rounded: pass.stabilise, routes: true, ..before }),
{
    let step = moe_step(pass, weights);
    let ops = pass.route_ops(weights);
    let select = FfnOp::TopK {
        rows: pass.rows,
        experts: weights.experts,
        selected: weights.experts_per_token,
        normalise: weights.norm_topk_prob,
    };
    assert(ops[0] == FfnOp::Router { rows: pass.rows });
    let d1 = before.performed(pass, weights, ops[0]);
    assert(d1 == MoeDevice { logits: true, ..before });
    if pass.stabilise {
        assert(ops.len() == 3 && ops[1] == FfnOp::RoundRouter && ops[2] == select);
        crate::device::lemma_after_three(step, before, ops);
        let d2 = d1.performed(pass, weights, FfnOp::RoundRouter);
        assert(d2 == MoeDevice { rounded: true, ..d1 });
        assert(d2.performed(pass, weights, select) == MoeDevice { routes: true, ..d2 });
    } else {
        assert(ops.len() == 2 && ops[1] == select);
        crate::device::lemma_after_two(step, before, ops);
        assert(d1.performed(pass, weights, select) == MoeDevice { routes: true, ..d1 });
    }
}

#[verifier::rlimit(40)]
proof fn lemma_experts_up(pass: FfnPass, weights: MoeWeights, before: MoeDevice)
    requires
        pass.rows * weights.experts_per_token <= usize::MAX,
        weights.expert_intermediate * 2 <= usize::MAX,
        before.sound && before.routes && !before.sized && !before.sorted && !before.gathered,
        !before.gate_up,
    ensures
        crate::device::after(
            moe_step(pass, weights),
            before,
            pass.expert_ops(weights).subrange(0, 5),
        ) == (MoeDevice {
            sized: true,
            sorted: true,
            gathered: true,
            gate_up: true,
            table: None,
            ..before
        }),
{
    let step = moe_step(pass, weights);
    let ops = pass.expert_ops(weights).subrange(0, 5);
    assert(0 <= pass.rows * weights.experts_per_token) by (nonlinear_arith);
    crate::device::lemma_after_five(step, before, ops);
    let width = (weights.expert_intermediate * 2) as usize;
    assert(ops[0] is SetRows && ops[1] is SortRoutes && ops[2] is GatherQuantize);
    assert(ops[3] == FfnOp::GateUpTables { width } && ops[4] is GateUpProduct);
    let d1 = before.performed(pass, weights, ops[0]);
    assert(d1 == MoeDevice { sized: true, ..before });
    let d2 = d1.performed(pass, weights, ops[1]);
    assert(d2 == MoeDevice { sorted: true, ..d1 });
    let d3 = d2.performed(pass, weights, ops[2]);
    assert(d3 == MoeDevice { gathered: true, ..d2 });
    let d4 = d3.performed(pass, weights, ops[3]);
    assert(d4 == MoeDevice { table: Some(width), ..d3 });
}

#[verifier::rlimit(40)]
proof fn lemma_experts_down(pass: FfnPass, weights: MoeWeights, before: MoeDevice)
    requires
        before.sound && before.sorted && before.gate_up && before.table is None,
        !before.activated && !before.down && !before.routed,
    ensures
        crate::device::after(
            moe_step(pass, weights),
            before,
            pass.expert_ops(weights).subrange(5, 9),
        ) == (MoeDevice { activated: true, down: true, routed: true, ..before }),
{
    let step = moe_step(pass, weights);
    let ops = pass.expert_ops(weights).subrange(5, 9);
    crate::device::lemma_after_four(step, before, ops);
    assert(ops[0] is SiluQuantize && ops[1] is DownTables && ops[2] is DownProduct);
    assert(ops[3] is Accumulate);
    let d1 = before.performed(pass, weights, ops[0]);
    assert(d1 == MoeDevice { activated: true, ..before });
    let d2 = d1.performed(pass, weights, ops[1]);
    assert(d2 == MoeDevice { table: Some(pass.hidden), ..d1 });
    let d3 = d2.performed(pass, weights, ops[2]);
    assert(d3 == MoeDevice { down: true, ..d1 });
}

#[verifier::rlimit(40)]
proof fn lemma_experts(pass: FfnPass, weights: MoeWeights, before: MoeDevice)
    requires
        pass.rows * weights.experts_per_token <= usize::MAX,
        weights.expert_intermediate * 2 <= usize::MAX,
        before.sound && before.routes && !before.sized && !before.sorted && !before.gathered,
        !before.gate_up && !before.activated && !before.down && !before.routed,
        before.table is None,
    ensures
        crate::device::after(moe_step(pass, weights), before, pass.expert_ops(weights)) == (
        MoeDevice {
            sized: true,
            sorted: true,
            gathered: true,
            gate_up: true,
            activated: true,
            down: true,
            routed: true,
            ..before
        }),
{
    let step = moe_step(pass, weights);
    let ops = pass.expert_ops(weights);
    assert(ops =~= ops.subrange(0, 5) + ops.subrange(5, 9));
    crate::device::lemma_after_both(step, before, ops.subrange(0, 5), ops.subrange(5, 9));
    lemma_experts_up(pass, weights, before);
    lemma_experts_down(pass, weights, crate::device::after(step, before, ops.subrange(0, 5)));
}

/// A block of experts runs as a whole: the selected experts take the rows that were routed to
/// them through both of their projections, the shared expert runs once on its own stream, and
/// the outputs of both are added once both are there.
#[verifier::rlimit(40)]
pub proof fn law_expert_block_runs(pass: FfnPass, weights: MoeWeights)
    requires
        pass.rows * weights.experts_per_token <= usize::MAX,
        weights.expert_intermediate * 2 <= usize::MAX,
    ensures
        ({
            let device = crate::device::after(
                moe_step(pass, weights),
                idle_moe(),
                pass.moe_ops(weights),
            );
            device.sound && device.output
        }),
{
    let step = moe_step(pass, weights);
    let idle = idle_moe();
    let fork = seq![FfnOp::RecordFork, FfnOp::WaitFork];
    let beside = pass.shared_ops(weights, FfnStream::Shared);
    let main = pass.shared_ops(weights, FfnStream::Main);
    let head = if pass.parallel {
        fork + beside
    } else {
        seq![]
    };
    let join = seq![FfnOp::RecordJoin, FfnOp::WaitJoin];
    let tail = if pass.parallel {
        join
    } else {
        main
    };
    let last = seq![FfnOp::Finalize { rows: pass.rows, hidden: pass.hidden }];
    let routes = pass.route_ops(weights);
    let experts = pass.expert_ops(weights);
    assert(pass.moe_ops(weights) =~= head + routes + experts + tail + last);
    crate::device::lemma_after_both(step, idle, head + routes + experts + tail, last);
    crate::device::lemma_after_both(step, idle, head + routes + experts, tail);
    crate::device::lemma_after_both(step, idle, head + routes, experts);
    crate::device::lemma_after_both(step, idle, head, routes);
    let d1 = crate::device::after(step, idle, head);
    if pass.parallel {
        crate::device::lemma_after_both(step, idle, fork, beside);
        crate::device::lemma_after_two(step, idle, fork);
        let d0 = crate::device::after(step, idle, fork);
        assert(d0 == MoeDevice { fork: true, forked: true, ..idle });
        lemma_shared(pass, weights, d0, FfnStream::Shared);
    }
    lemma_routes(pass, weights, d1);
    let d2 = crate::device::after(step, d1, routes);
    lemma_experts(pass, weights, d2);
    let d3 = crate::device::after(step, d2, experts);
    let d4 = crate::device::after(step, d3, tail);
    if pass.parallel {
        crate::device::lemma_after_two(step, d3, join);
        assert(d4 == MoeDevice { join: true, joined: true, ..d3 });
    } else {
        lemma_shared(pass, weights, d3, FfnStream::Main);
    }
    crate::device::lemma_after_one(step, d4, last);
}

} // verus!
