//! Generalised residual blocks: several residual streams, mixed before a sublayer and injected
//! into again after it.

use crate::qwen38_flash_next::config::Qwen38FlashNextConfig;
use crate::tensors::{matrix, push_tensor, vector, TensorSpec};
use vstd::prelude::*;

verus! {

/// Why a residual block cannot be loaded or run.
#[derive(Clone, Copy, Debug, PartialEq, Eq, Structural)]
pub enum HyperConnectionError {
    /// The width of all streams is not representable.
    Width { hidden: usize, hc_count: usize },
    /// A workspace was asked for no tokens.
    Capacity,
    /// The number of tokens or the dimensions do not fit the workspace.
    Workspace,
    /// The final mixer injects nothing.
    NoInjection,
}

/// Low-rank weights of one residual block.
#[derive(Clone, Copy, Debug, PartialEq, Eq, Structural)]
pub struct Qwen38HyperConnectionWeights {
    /// Whether the block injects its sublayer's result.
    pub inject: bool,
    /// Width of one residual stream.
    pub hidden: usize,
    /// Residual streams.
    pub hc_count: usize,
    /// Width of the low-rank projection.
    pub lowrank: usize,
    /// Bits of the normalisation constant.
    pub eps_bits: u32,
}

/// A residual block and the tensors that it is loaded from.
pub struct HyperConnectionLoad {
    /// The block.
    pub weights: Qwen38HyperConnectionWeights,
    /// Its tensors, in the order in which they are read.
    pub tensors: Vec<TensorSpec>,
}

/// A buffer of a residual block's workspace.
#[derive(Clone, Copy, Debug, PartialEq, Eq, Structural)]
pub enum HyperBuffer {
    /// The streams after normalisation.
    Normed,
    /// The low-rank projection.
    Lowrank,
    /// Gating values of each stream.
    GateLogits,
    /// The strength of each stream's injection.
    InjectLogits,
}

/// A projection of a residual block.
#[derive(Clone, Copy, Debug, PartialEq, Eq, Structural)]
pub enum HyperLinear {
    /// Streams to the low-rank width.
    MixDown,
    /// Inner width to one gate for each value of the streams.
    MixUp,
    /// Streams to one strength for each stream.
    Inject,
}

/// How the projections of a residual block are evaluated.
#[derive(Clone, Copy, Debug, PartialEq, Eq, Structural)]
pub enum HyperProjection {
    /// Single-precision activations, one warp to an output.
    Scalar,
    /// Half-precision activations on the tensor cores.
    TensorCore,
}

/// One operation of a residual block.
#[derive(Clone, Copy, Debug, PartialEq, Eq, Structural)]
pub enum HyperOp {
    /// Normalises the streams of each token.
    Norm { tokens: usize, hidden: usize, hc_count: usize, eps_bits: u32 },
    /// Projects every row of a buffer.
    Linear {
        linear: HyperLinear,
        projection: HyperProjection,
        input: HyperBuffer,
        output: HyperBuffer,
        tokens: usize,
    },
    /// Applies the gating activation in place, scaled by the number of streams.
    SiluScale { values: usize, hc_count: usize },
    /// Gates and averages the streams.
    Collapse { tokens: usize, hidden: usize, hc_count: usize },
    /// Adds the sublayer's output to every stream.
    Combine { tokens: usize, hidden: usize, hc_count: usize },
}

/// Reusable activations of a residual block, by their lengths.
#[derive(Clone, Copy, Debug, PartialEq, Eq, Structural)]
pub struct Qwen38HyperConnectionWorkspace {
    /// Values of the normalised streams.
    pub normed: usize,
    /// Values of the low-rank projection.
    pub lowrank: usize,
    /// Values of the gates.
    pub gate_logits: usize,
    /// Values of the injection strengths.
    pub inject_logits: usize,
    /// Values of the sublayer's input.
    pub mixed: usize,
    /// Most tokens.
    pub token_capacity: usize,
    /// Width of one residual stream.
    pub hidden: usize,
    /// Residual streams.
    pub hc_count: usize,
    /// Width of the low-rank projection.
    pub lowrank_width: usize,
    /// How the projections are evaluated.
    pub projection: HyperProjection,
}

/// Tensors of a residual block: names and shapes in the order in which they are read.
pub open spec fn hyper_tensors(
    prefix: Seq<char>,
    config: Qwen38FlashNextConfig,
    with_inject: bool,
) -> Seq<(Seq<char>, Seq<usize>)> {
    let width = config.stream_width() as usize;
    let mixing = seq![
        (prefix + ".hc_norm.weight"@, seq![width]),
        (prefix + ".input_mix_weight_down.weight"@, seq![config.hc_lowrank, width]),
        (prefix + ".input_mix_weight_up.weight"@, seq![width, config.hc_lowrank]),
    ];
    if with_inject {
        mixing.push((prefix + ".block_inject_weight.weight"@, seq![config.hc_count, width]))
    } else {
        mixing
    }
}

/// A tensor's name below a prefix.
fn below(prefix: &str, suffix: &str) -> (name: String)
    ensures
        name@ == prefix@ + suffix@,
{
    let mut name = String::from_str(prefix);
    name.append(suffix);
    name
}

impl Qwen38HyperConnectionWeights {
    /// Plans the loading of a residual block. Only the final mixer injects nothing.
    pub fn load(prefix: &str, config: &Qwen38FlashNextConfig, with_inject: bool) -> (result: Result<
        HyperConnectionLoad,
        HyperConnectionError,
    >)
        ensures
            match result {
                Ok(load) => {
                    &&& config.stream_width() <= usize::MAX
                    &&& load.weights == (Qwen38HyperConnectionWeights {
                        inject: with_inject,
                        hidden: config.hidden,
                        hc_count: config.hc_count,
                        lowrank: config.hc_lowrank,
                        eps_bits: config.rms_eps_bits,
                    })
                    &&& crate::tensors::tensor_views(load.tensors@) == hyper_tensors(
                        prefix@,
                        *config,
                        with_inject,
                    )
                },
                Err(error) => {
                    &&& config.stream_width() > usize::MAX
                    &&& error == (HyperConnectionError::Width {
                        hidden: config.hidden,
                        hc_count: config.hc_count,
                    })
                },
            },
    {
        let width: usize = match config.hidden.checked_mul(config.hc_count) {
            Some(width) => width,
            None => return Err(
                HyperConnectionError::Width { hidden: config.hidden, hc_count: config.hc_count },
            ),
        };
        let mut tensors: Vec<TensorSpec> = Vec::new();
        push_tensor(&mut tensors, below(prefix, ".hc_norm.weight"), vector(width));
        push_tensor(
            &mut tensors,
            below(prefix, ".input_mix_weight_down.weight"),
            matrix(config.hc_lowrank, width),
        );
        push_tensor(
            &mut tensors,
            below(prefix, ".input_mix_weight_up.weight"),
            matrix(width, config.hc_lowrank),
        );
        if with_inject {
            push_tensor(
                &mut tensors,
                below(prefix, ".block_inject_weight.weight"),
                matrix(config.hc_count, width),
            );
        }
        assert(crate::tensors::tensor_views(tensors@) =~= hyper_tensors(
            prefix@,
            *config,
            with_inject,
        ));
        Ok(
            HyperConnectionLoad {
                weights: Qwen38HyperConnectionWeights {
                    inject: with_inject,
                    hidden: config.hidden,
                    hc_count: config.hc_count,
                    lowrank: config.hc_lowrank,
                    eps_bits: config.rms_eps_bits,
                },
                tensors,
            },
        )
    }

    /// Operations that normalise, gate and average the residual streams.
    pub open spec fn mix_ops(self, tokens: usize, projection: HyperProjection) -> Seq<HyperOp> {
        seq![
            HyperOp::Norm {
                tokens,
                hidden: self.hidden,
                hc_count: self.hc_count,
                eps_bits: self.eps_bits,
            },
            HyperOp::Linear {
                linear: HyperLinear::MixDown,
                projection,
                input: HyperBuffer::Normed,
                output: HyperBuffer::Lowrank,
                tokens,
            },
            HyperOp::SiluScale {
                values: (tokens * self.lowrank) as usize,
                hc_count: self.hc_count,
            },
            HyperOp::Linear {
                linear: HyperLinear::MixUp,
                projection,
                input: HyperBuffer::Lowrank,
                output: HyperBuffer::GateLogits,
                tokens,
            },
            HyperOp::Collapse { tokens, hidden: self.hidden, hc_count: self.hc_count },
        ]
    }

    /// Plans the mixing of the residual streams into a sublayer's input.
    pub fn mix(&self, workspace: &Qwen38HyperConnectionWorkspace, tokens: usize) -> (result: Result<
        Vec<HyperOp>,
        HyperConnectionError,
    >)
        requires
            workspace.well_formed(),
        ensures
            match result {
                Ok(ops) => workspace.serves(*self, tokens) && ops@ == self.mix_ops(
                    tokens,
                    workspace.projection,
                ),
                Err(error) => !workspace.serves(*self, tokens) && error
                    == HyperConnectionError::Workspace,
            },
    {
        match workspace.require(self, tokens) {
            Err(error) => return Err(error),
            Ok(()) => {},
        }
        assert(tokens * self.lowrank <= workspace.lowrank) by (nonlinear_arith)
            requires
                tokens <= workspace.token_capacity,
                workspace.token_capacity * self.lowrank == workspace.lowrank,
        ;
        let values: usize = tokens * self.lowrank;
        let mut ops: Vec<HyperOp> = Vec::new();
        ops.push(
            HyperOp::Norm {
                tokens,
                hidden: self.hidden,
                hc_count: self.hc_count,
                eps_bits: self.eps_bits,
            },
        );
        ops.push(
            HyperOp::Linear {
                linear: HyperLinear::MixDown,
                projection: workspace.projection,
                input: HyperBuffer::Normed,
                output: HyperBuffer::Lowrank,
                tokens,
            },
        );
        ops.push(HyperOp::SiluScale { values, hc_count: self.hc_count });
        ops.push(
            HyperOp::Linear {
                linear: HyperLinear::MixUp,
                projection: workspace.projection,
                input: HyperBuffer::Lowrank,
                output: HyperBuffer::GateLogits,
                tokens,
            },
        );
        ops.push(HyperOp::Collapse { tokens, hidden: self.hidden, hc_count: self.hc_count });
        assert(ops@ =~= self.mix_ops(tokens, workspace.projection));
        Ok(ops)
    }

    /// Operations that add a sublayer's output to all residual streams.
    pub open spec fn combine_ops(
        self,
        tokens: usize,
        projection: HyperProjection,
    ) -> Seq<HyperOp> {
        seq![
            HyperOp::Linear {
                linear: HyperLinear::Inject,
                projection,
                input: HyperBuffer::Normed,
                output: HyperBuffer::InjectLogits,
                tokens,
            },
            HyperOp::Combine { tokens, hidden: self.hidden, hc_count: self.hc_count },
        ]
    }

    /// Plans the injection of a sublayer's output back into all residual streams.
    pub fn combine(&self, workspace: &Qwen38HyperConnectionWorkspace, tokens: usize) -> (result:
        Result<Vec<HyperOp>, HyperConnectionError>)
        ensures
            match result {
                Ok(ops) => workspace.serves(*self, tokens) && self.inject && ops@
                    == self.combine_ops(tokens, workspace.projection),
                Err(error) => if !workspace.serves(*self, tokens) {
                    error == HyperConnectionError::Workspace
                } else {
                    !self.inject && error == HyperConnectionError::NoInjection
                },
            },
    {
        match workspace.require(self, tokens) {
            Err(error) => return Err(error),
            Ok(()) => {},
        }
        if !self.inject {
            return Err(HyperConnectionError::NoInjection);
        }
        let mut ops: Vec<HyperOp> = Vec::new();
        ops.push(
            HyperOp::Linear {
                linear: HyperLinear::Inject,
                projection: workspace.projection,
                input: HyperBuffer::Normed,
                output: HyperBuffer::InjectLogits,
                tokens,
            },
        );
        ops.push(HyperOp::Combine { tokens, hidden: self.hidden, hc_count: self.hc_count });
        assert(ops@ =~= self.combine_ops(tokens, workspace.projection));
        Ok(ops)
    }
}

/// Whether the activations of `tokens` rows have representable lengths.
pub open spec fn workspace_fits(config: Qwen38FlashNextConfig, tokens: usize) -> bool {
    &&& config.stream_width() <= usize::MAX
    &&& tokens * config.stream_width() <= usize::MAX
    &&& tokens * config.hc_lowrank <= usize::MAX
    &&& tokens * config.hc_count <= usize::MAX
    &&& tokens * config.hidden <= usize::MAX
}

/// The activations of at most `tokens` rows.
pub open spec fn sized_workspace(
    config: Qwen38FlashNextConfig,
    tokens: usize,
    projection: HyperProjection,
) -> Qwen38HyperConnectionWorkspace {
    Qwen38HyperConnectionWorkspace {
        normed: (tokens * config.stream_width()) as usize,
        lowrank: (tokens * config.hc_lowrank) as usize,
        gate_logits: (tokens * config.stream_width()) as usize,
        inject_logits: (tokens * config.hc_count) as usize,
        mixed: (tokens * config.hidden) as usize,
        token_capacity: tokens,
        hidden: config.hidden,
        hc_count: config.hc_count,
        lowrank_width: config.hc_lowrank,
        projection,
    }
}

impl Qwen38HyperConnectionWorkspace {
    /// Whether the buffers have the lengths that the capacity needs.
    pub open spec fn well_formed(self) -> bool {
        &&& self.token_capacity > 0
        &&& self.normed == self.token_capacity * (self.hidden * self.hc_count)
        &&& self.lowrank == self.token_capacity * self.lowrank_width
        &&& self.gate_logits == self.token_capacity * (self.hidden * self.hc_count)
        &&& self.inject_logits == self.token_capacity * self.hc_count
        &&& self.mixed == self.token_capacity * self.hidden
    }

    /// Whether the workspace serves a block for a number of tokens.
    pub open spec fn serves(self, weights: Qwen38HyperConnectionWeights, tokens: usize) -> bool {
        &&& 1 <= tokens <= self.token_capacity
        &&& self.hidden == weights.hidden
        &&& self.hc_count == weights.hc_count
        &&& self.lowrank_width == weights.lowrank
    }

    fn sized(
        config: &Qwen38FlashNextConfig,
        token_capacity: usize,
        projection: HyperProjection,
    ) -> (result: Result<Self, HyperConnectionError>)
        requires
            token_capacity > 0 ==> workspace_fits(*config, token_capacity),
        ensures
            match result {
                Ok(workspace) => {
                    &&& token_capacity > 0
                    &&& workspace == sized_workspace(*config, token_capacity, projection)
                    &&& workspace.well_formed()
                },
                Err(error) => token_capacity == 0 && error == HyperConnectionError::Capacity,
            },
    {
        if token_capacity == 0 {
            return Err(HyperConnectionError::Capacity);
        }
        let width: usize = config.hidden * config.hc_count;
        Ok(
            Qwen38HyperConnectionWorkspace {
                normed: token_capacity * width,
                lowrank: token_capacity * config.hc_lowrank,
                gate_logits: token_capacity * width,
                inject_logits: token_capacity * config.hc_count,
                mixed: token_capacity * config.hidden,
                token_capacity,
                hidden: config.hidden,
                hc_count: config.hc_count,
                lowrank_width: config.hc_lowrank,
                projection,
            },
        )
    }

    /// Sizes the activations for at most `token_capacity` rows of scalar projections.
    pub fn new(config: &Qwen38FlashNextConfig, token_capacity: usize) -> (result: Result<
        Self,
        HyperConnectionError,
    >)
        requires
            token_capacity > 0 ==> workspace_fits(*config, token_capacity),
        ensures
            match result {
                Ok(workspace) => {
                    &&& token_capacity > 0
                    &&& workspace == sized_workspace(*config, token_capacity, HyperProjection::Scalar)
                    &&& workspace.well_formed()
                },
                Err(error) => token_capacity == 0 && error == HyperConnectionError::Capacity,
            },
    {
        Self::sized(config, token_capacity, HyperProjection::Scalar)
    }

    /// Sizes the activations for at most `token_capacity` prompt rows, which are projected on
    /// the tensor cores.
    pub fn new_prefill(config: &Qwen38FlashNextConfig, token_capacity: usize) -> (result: Result<
        Self,
        HyperConnectionError,
    >)
        requires
            token_capacity > 0 ==> workspace_fits(*config, token_capacity),
        ensures
            match result {
                Ok(workspace) => {
                    &&& token_capacity > 0
                    &&& workspace == sized_workspace(*config, token_capacity, HyperProjection::TensorCore)
                    &&& workspace.well_formed()
                },
                Err(error) => token_capacity == 0 && error == HyperConnectionError::Capacity,
            },
    {
        Self::sized(config, token_capacity, HyperProjection::TensorCore)
    }

    /// Values of all activations.
    pub open spec fn values(self) -> int {
        self.normed + self.lowrank + self.gate_logits + self.inject_logits + self.mixed
    }

    /// Device memory of the activations, four bytes to a value.
    pub fn device_bytes(&self) -> (bytes: usize)
        requires
            4 * self.values() <= usize::MAX,
        ensures
            bytes == 4 * self.values(),
    {
        4 * self.normed + 4 * self.lowrank + 4 * self.gate_logits + 4 * self.inject_logits + 4
            * self.mixed
    }

    /// Checks that the workspace serves a block for a number of tokens.
    pub fn require(&self, weights: &Qwen38HyperConnectionWeights, tokens: usize) -> (result: Result<
        (),
        HyperConnectionError,
    >)
        ensures
            match result {
                Ok(()) => self.serves(*weights, tokens),
                Err(error) => !self.serves(*weights, tokens) && error
                    == HyperConnectionError::Workspace,
            },
    {
        if tokens == 0 || tokens > self.token_capacity || self.hidden != weights.hidden
            || self.hc_count != weights.hc_count || self.lowrank_width != weights.lowrank {
            return Err(HyperConnectionError::Workspace);
        }
        Ok(())
    }
}

/// The rows that a workspace accepts fit all of its buffers.
pub proof fn law_accepted_rows_fit(
    workspace: Qwen38HyperConnectionWorkspace,
    weights: Qwen38HyperConnectionWeights,
    tokens: usize,
)
    requires
        workspace.well_formed(),
        workspace.serves(weights, tokens),
    ensures
        tokens * (weights.hidden * weights.hc_count) <= workspace.normed,
        tokens * weights.lowrank <= workspace.lowrank,
        tokens * (weights.hidden * weights.hc_count) <= workspace.gate_logits,
        tokens * weights.hc_count <= workspace.inject_logits,
        tokens * weights.hidden <= workspace.mixed,
{
    let width = weights.hidden * weights.hc_count;
    assert(0 <= width) by (nonlinear_arith)
        requires
            width == weights.hidden * weights.hc_count,
    ;
    let capacity = workspace.token_capacity;
    assert(tokens * width <= capacity * width) by (nonlinear_arith)
        requires
            tokens <= capacity,
            0 <= width,
    ;
    assert(tokens * weights.lowrank <= capacity * weights.lowrank) by (nonlinear_arith)
        requires
            tokens <= capacity,
    ;
    assert(tokens * weights.hc_count <= capacity * weights.hc_count) by (nonlinear_arith)
        requires
            tokens <= capacity,
    ;
    assert(tokens * weights.hidden <= capacity * weights.hidden) by (nonlinear_arith)
        requires
            tokens <= capacity,
    ;
}

} // verus!
