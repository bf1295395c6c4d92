//! What the operations of a residual block leave in its workspace.

use crate::qwen38_flash_next::hyperconnection::{
    HyperBuffer, HyperLinear, HyperOp, HyperProjection, Qwen38HyperConnectionWeights,
};
use vstd::prelude::*;

verus! {

/// What a residual block is about.
pub struct HyperFrame {
    /// Block.
    pub weights: Qwen38HyperConnectionWeights,
    /// Tokens.
    pub tokens: usize,
    /// How its projections are evaluated.
    pub projection: HyperProjection,
}

/// Workspace of a residual block.
pub struct HyperDevice {
    /// Every operation so far found its inputs ready.
    pub sound: bool,
    /// Whether the streams were normalised.
    pub normed: bool,
    /// Whether the low-rank projection is there.
    pub lowrank: bool,
    /// Whether it was activated.
    pub activated: bool,
    /// Whether the gates are there.
    pub gates: bool,
    /// Whether the sublayer's input is there.
    pub mixed: bool,
    /// Whether the injection strengths are there.
    pub strengths: bool,
    /// Whether the sublayer's output is in all streams.
    pub combined: bool,
}

/// Workspace before the first operation.
pub open spec fn idle() -> HyperDevice {
    HyperDevice {
        sound: true,
        normed: false,
        lowrank: false,
        activated: false,
        gates: false,
        mixed: false,
        strengths: false,
        combined: false,
    }
}

impl HyperDevice {
    /// Effect of a projection.
    pub open spec fn projected(
        self,
        linear: HyperLinear,
        input: HyperBuffer,
        output: HyperBuffer,
    ) -> HyperDevice {
        match linear {
            HyperLinear::MixDown => HyperDevice {
                sound: self.sound && self.normed && input == HyperBuffer::Normed && output
                    == HyperBuffer::Lowrank,
                lowrank: true,
                activated: false,
                ..self
            },
            HyperLinear::MixUp => HyperDevice {
                sound: self.sound && self.activated && input == HyperBuffer::Lowrank && output
                    == HyperBuffer::GateLogits,
                gates: true,
                ..self
            },
            HyperLinear::Inject => HyperDevice {
                sound: self.sound && self.normed && input == HyperBuffer::Normed && output
                    == HyperBuffer::InjectLogits,
                strengths: true,
                ..self
            },
        }
    }

    /// What one operation leaves.
    pub open spec fn performed(self, frame: HyperFrame, op: HyperOp) -> HyperDevice {
        let weights = frame.weights;
        match op {
            HyperOp::Norm { tokens, hidden, hc_count, eps_bits } => HyperDevice {
                sound: self.sound && tokens == frame.tokens && hidden == weights.hidden && hc_count
                    == weights.hc_count && eps_bits == weights.eps_bits,
                normed: true,
                ..self
            },
            HyperOp::Linear { linear, projection, input, output, tokens } => HyperDevice {
                sound: self.projected(linear, input, output).sound && tokens == frame.tokens
                    && projection == frame.projection,
                ..self.projected(linear, input, output)
            },
            HyperOp::SiluScale { values, hc_count } => HyperDevice {
                sound: self.sound && self.lowrank && !self.activated && values == frame.tokens
                    * weights.lowrank && hc_count == weights.hc_count,
                activated: true,
                ..self
            },
            HyperOp::Collapse { tokens, hidden, hc_count } => HyperDevice {
                sound: self.sound && self.gates && self.normed && tokens == frame.tokens && hidden
                    == weights.hidden && hc_count == weights.hc_count,
                mixed: true,
                ..self
            },
            HyperOp::Combine { tokens, hidden, hc_count } => HyperDevice {
                sound: self.sound && self.mixed && self.strengths && !self.combined && tokens
                    == frame.tokens && hidden == weights.hidden && hc_count == weights.hc_count,
                combined: true,
                ..self
            },
        }
    }
}

/// What the operations of a residual block do.
pub open spec fn hyper_step(frame: HyperFrame) -> spec_fn(HyperDevice, HyperOp) -> HyperDevice {
    |device: HyperDevice, op: HyperOp| device.performed(frame, op)
}

/// A residual block runs as a whole: the normalised streams of all tokens are gated and averaged
/// into the sublayer's input, and the sublayer's output goes back into every stream with a
/// strength from the same normalised streams.
#[verifier::rlimit(40)]
pub proof fn law_residual_block_runs(
    weights: Qwen38HyperConnectionWeights,
    tokens: usize,
    projection: HyperProjection,
)
    requires
        tokens * weights.lowrank <= usize::MAX,
    ensures
        ({
            let step = hyper_step(HyperFrame { weights, tokens, projection });
            let mixed = crate::device::after(step, idle(), weights.mix_ops(tokens, projection));
            let combined = crate::device::after(
                step,
                mixed,
                weights.combine_ops(tokens, projection),
            );
            &&& mixed.sound && mixed.mixed && !mixed.combined
            &&& combined.sound && combined.combined
        }),
{
    let frame = HyperFrame { weights, tokens, projection };
    let step = hyper_step(frame);
    let start = idle();
    let ops = weights.mix_ops(tokens, projection);
    let more = weights.combine_ops(tokens, projection);
    assert(0 <= tokens * weights.lowrank) by (nonlinear_arith);
    crate::device::lemma_after_five(step, start, ops);
    let d1 = start.performed(frame, ops[0]);
    assert(d1 == HyperDevice { normed: true, ..start });
    let d2 = d1.performed(frame, ops[1]);
    assert(d2 == HyperDevice { lowrank: true, ..d1 });
    let d3 = d2.performed(frame, ops[2]);
    assert(d3 == HyperDevice { activated: true, ..d2 });
    let d4 = d3.performed(frame, ops[3]);
    assert(d4 == HyperDevice { gates: true, ..d3 });
    let d5 = d4.performed(frame, ops[4]);
    assert(d5 == HyperDevice { mixed: true, ..d4 });
    crate::device::lemma_after_two(step, d5, more);
    let d6 = d5.performed(frame, more[0]);
    assert(d6 == HyperDevice { strengths: true, ..d5 });
}

} // verus!
