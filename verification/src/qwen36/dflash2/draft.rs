//! A resident companion: what it loads, what it allocates and how it drafts a block.

use vstd::prelude::*;
use crate::manifest::QwenModelManifest;
use crate::qwen36::dflash2::config::{DFlash2Config, DFlash2Error};
use crate::qwen36::dflash2::sequence::{
    Qwen38DFlash2SequenceState, DFLASH2_BLOCK_ROWS, DFLASH2_CONTEXT_ROWS,
};
use crate::qwen36::linear::{Linear, Storage};

verus! {

/// How a tensor is kept on the device.
#[derive(Clone, Copy, Debug, PartialEq, Eq, Structural)]
pub enum TensorRole {
    /// Weights with plans for proposals.
    Projection,
    /// Weights with plans for proposals and for context chunks.
    ContextProjection,
    /// Upper half of joined weights.
    JoinedFirst,
    /// Lower half of joined weights.
    JoinedSecond,
    /// Values in single precision.
    Values,
    /// Weights of the selector.
    SelectorProjection,
    /// Codebook that stays on the host.
    Codebook,
}

/// One tensor to load, by its place among the expected ones.
#[derive(Clone, Copy, Debug, PartialEq, Eq, Structural)]
pub struct TensorLoad {
    /// Place among the expected tensors.
    pub index: usize,
    /// How it is kept.
    pub role: TensorRole,
}

/// One device operation of a proposal.
#[derive(Clone, Copy, Debug, PartialEq, Eq, Structural)]
#[allow(inconsistent_fields)]
pub enum DraftOp {
    /// Look the embeddings of the block up.
    Gather { rows: usize },
    /// Normalise the residual stream before attention.
    InputNorm { layer: usize, rows: usize },
    /// Project convolution coefficients, before attention or before the feed-forward block.
    ConvProject { layer: usize, mlp: bool, rows: usize },
    /// Convolve the input or the output of attention or of the feed-forward block.
    Conv { layer: usize, mlp: bool, output: bool, rows: usize, groups: usize },
    /// Project queries.
    Query { layer: usize, rows: usize },
    /// Project keys.
    Key { layer: usize, rows: usize },
    /// Project values.
    Value { layer: usize, rows: usize },
    /// Normalise queries.
    QueryNorm { layer: usize, rows: usize },
    /// Normalise keys.
    KeyNorm { layer: usize, rows: usize },
    /// Rotate queries.
    QueryRope { layer: usize, rows: usize, position: usize },
    /// Rotate keys.
    KeyRope { layer: usize, rows: usize, position: usize },
    /// Attend to the window and to the block itself.
    Attend { layer: usize, position: usize, cached: usize, rows: usize },
    /// Project the attention output.
    Output { layer: usize, rows: usize },
    /// Add the residual stream.
    AddResidual { values: usize },
    /// Exchange the residual stream with the sum.
    Swap,
    /// Normalise the residual stream before the feed-forward block.
    PostNorm { layer: usize, rows: usize },
    /// Project gate and up.
    GateUp { layer: usize, rows: usize },
    /// Gate the halves.
    Silu { rows: usize, width: usize },
    /// Project down.
    Down { layer: usize, rows: usize },
    /// Normalise the residual stream for the head.
    FinalNorm { rows: usize },
    /// Take the rows of the masked positions.
    TakeDrafts { offset: usize, values: usize },
    /// Quantise the rows for the head.
    HeadQuantize { rows: usize, cols: usize },
    /// Run the head of the target.
    Head { storage: Storage, rows: usize },
    /// Project the rows for the selector.
    SelectorProject { rows: usize, hidden: usize, rank: usize },
    /// Copy the projected rows to the host.
    CopyProjected { values: usize },
    /// List the candidates of every row.
    TopK { rows: usize, k: usize },
}

/// A proposal to run: the tokens of its block and its operations.
pub struct Proposal {
    /// The anchor, then masks.
    pub tokens: Vec<u32>,
    /// Operations.
    pub ops: Vec<DraftOp>,
}

/// Why no block can be proposed.
#[derive(Clone, Copy, Debug, PartialEq, Eq, Structural)]
pub struct ProposalError {
    /// Anchor.
    pub anchor: u32,
    /// Draft tokens that were asked for.
    pub drafts: usize,
    /// Layers of the window.
    pub layers: usize,
}

/// Sizes of the buffers of a companion, in values.
#[derive(Clone, Copy, Debug, PartialEq, Eq, Structural)]
pub struct DraftBuffers {
    /// Captured rows.
    pub aux: usize,
    /// Residual stream, and as many for each of its normalised, convolved and updated forms.
    pub hidden: usize,
    /// Convolution coefficients.
    pub coefficients: usize,
    /// Queries, and as many for the attention output.
    pub query: usize,
    /// Keys, and as many for the values.
    pub key: usize,
    /// Gate and up.
    pub gate_up: usize,
    /// Gated halves.
    pub activated: usize,
    /// Rounded input of a projection.
    pub bf16_input: usize,
    /// Rows of the masked positions, and as many for their quantised form.
    pub sample_hidden: usize,
    /// Logits.
    pub logits: usize,
    /// Projected rows, and as many on the host.
    pub projected: usize,
    /// Candidates.
    pub candidates: usize,
    /// Whether the head of the target has a plan for the drafts.
    pub head_plan: bool,
}

/// A resident companion.
pub struct Qwen38DFlash2 {
    /// Its configuration.
    pub config: DFlash2Config,
}

/// Loads of one layer.
pub open spec fn layer_loads(layer: int) -> Seq<TensorLoad> {
    let first = 6 + 15 * layer;
    seq![
        TensorLoad { index: (first + 4) as usize, role: TensorRole::Values },
        TensorLoad { index: first as usize, role: TensorRole::Values },
        TensorLoad { index: (first + 1) as usize, role: TensorRole::Projection },
        TensorLoad { index: (first + 6) as usize, role: TensorRole::Projection },
        TensorLoad { index: (first + 7) as usize, role: TensorRole::ContextProjection },
        TensorLoad { index: (first + 8) as usize, role: TensorRole::ContextProjection },
        TensorLoad { index: (first + 10) as usize, role: TensorRole::Values },
        TensorLoad { index: (first + 11) as usize, role: TensorRole::Values },
        TensorLoad { index: (first + 9) as usize, role: TensorRole::Projection },
        TensorLoad { index: (first + 5) as usize, role: TensorRole::Values },
        TensorLoad { index: (first + 2) as usize, role: TensorRole::Values },
        TensorLoad { index: (first + 3) as usize, role: TensorRole::Projection },
        TensorLoad { index: (first + 12) as usize, role: TensorRole::JoinedFirst },
        TensorLoad { index: (first + 13) as usize, role: TensorRole::JoinedSecond },
        TensorLoad { index: (first + 14) as usize, role: TensorRole::Projection },
    ]
}

/// Loads before the layers.
pub open spec fn first_loads() -> Seq<TensorLoad> {
    seq![
        TensorLoad { index: 3, role: TensorRole::ContextProjection },
        TensorLoad { index: 4, role: TensorRole::Values },
    ]
}

/// Loads after the layers.
pub open spec fn last_loads() -> Seq<TensorLoad> {
    seq![
        TensorLoad { index: 5, role: TensorRole::Values },
        TensorLoad { index: 0, role: TensorRole::SelectorProjection },
        TensorLoad { index: 1, role: TensorRole::Codebook },
        TensorLoad { index: 2, role: TensorRole::Codebook },
    ]
}

/// Loads before the layers and of the first `count` layers.
pub open spec fn loads_up_to(count: nat) -> Seq<TensorLoad>
    decreases count,
{
    if count == 0 {
        first_loads()
    } else {
        loads_up_to((count - 1) as nat) + layer_loads(count - 1)
    }
}

fn push_layer_loads(loads: &mut Vec<TensorLoad>, layer: usize)
    requires
        6 + 15 * (layer + 1) <= usize::MAX,
    ensures
        final(loads)@ == old(loads)@ + layer_loads(layer as int),
{
    let first: usize = 6 + 15 * layer;
    loads.push(TensorLoad { index: first + 4, role: TensorRole::Values });
    loads.push(TensorLoad { index: first, role: TensorRole::Values });
    loads.push(TensorLoad { index: first + 1, role: TensorRole::Projection });
    loads.push(TensorLoad { index: first + 6, role: TensorRole::Projection });
    loads.push(TensorLoad { index: first + 7, role: TensorRole::ContextProjection });
    loads.push(TensorLoad { index: first + 8, role: TensorRole::ContextProjection });
    loads.push(TensorLoad { index: first + 10, role: TensorRole::Values });
    loads.push(TensorLoad { index: first + 11, role: TensorRole::Values });
    loads.push(TensorLoad { index: first + 9, role: TensorRole::Projection });
    loads.push(TensorLoad { index: first + 5, role: TensorRole::Values });
    loads.push(TensorLoad { index: first + 2, role: TensorRole::Values });
    loads.push(TensorLoad { index: first + 3, role: TensorRole::Projection });
    loads.push(TensorLoad { index: first + 12, role: TensorRole::JoinedFirst });
    loads.push(TensorLoad { index: first + 13, role: TensorRole::JoinedSecond });
    loads.push(TensorLoad { index: first + 14, role: TensorRole::Projection });
    assert(loads@ =~= old(loads)@ + layer_loads(layer as int));
}

impl Qwen38DFlash2 {
    /// Companions that were checked against a target.
    pub open spec fn well_formed(self) -> bool {
        self.config.valid() && self.config.block_size == DFLASH2_BLOCK_ROWS
    }

    /// Decides whether a companion can be loaded for a target.
    pub fn load(config: DFlash2Config, target: &QwenModelManifest) -> (result: Result<
        Self,
        DFlash2Error,
    >)
        requires
            config.valid(),
        ensures
            match result {
                Ok(draft) => {
                    &&& config.mismatches(*target).len() == 0
                    &&& config.block_size == DFLASH2_BLOCK_ROWS
                    &&& draft.config == config
                    &&& draft.well_formed()
                },
                Err(error) => if config.mismatches(*target).len() > 0 {
                    error matches DFlash2Error::Target(found) && found@ == config.mismatches(
                        *target,
                    )
                } else {
                    config.block_size != DFLASH2_BLOCK_ROWS && error == DFlash2Error::BlockSize(
                        config.block_size,
                    )
                },
            },
    {
        match config.validate_target(target) {
            Ok(_) => {},
            Err(error) => {
                return Err(error);
            },
        }
        if config.block_size != DFLASH2_BLOCK_ROWS {
            return Err(DFlash2Error::BlockSize(config.block_size));
        }
        Ok(Self { config })
    }

    /// Lists the tensors in the order in which they are loaded.
    pub fn load_order(&self) -> (loads: Vec<TensorLoad>)
        requires
            6 + 15 * self.config.layers <= usize::MAX,
        ensures
            loads@ == loads_up_to(self.config.layers as nat) + last_loads(),
    {
        let mut loads: Vec<TensorLoad> = Vec::new();
        loads.push(TensorLoad { index: 3, role: TensorRole::ContextProjection });
        loads.push(TensorLoad { index: 4, role: TensorRole::Values });
        assert(loads@ =~= first_loads());
        let mut layer: usize = 0;
        while layer < self.config.layers
            invariant
                layer <= self.config.layers,
                6 + 15 * self.config.layers <= usize::MAX,
                loads@ == loads_up_to(layer as nat),
            decreases self.config.layers - layer,
        {
            push_layer_loads(&mut loads, layer);
            layer += 1;
        }
        loads.push(TensorLoad { index: 5, role: TensorRole::Values });
        loads.push(TensorLoad { index: 0, role: TensorRole::SelectorProjection });
        loads.push(TensorLoad { index: 1, role: TensorRole::Codebook });
        loads.push(TensorLoad { index: 2, role: TensorRole::Codebook });
        assert(loads@ =~= loads_up_to(self.config.layers as nat) + last_loads());
        loads
    }

    /// Inputs whose arithmetic is representable.
    pub open spec fn buffers_fit(self) -> bool {
        let config = self.config;
        let rows = DFLASH2_CONTEXT_ROWS as int;
        let drafts = config.block_size - 1;
        &&& config.query_width() <= usize::MAX
        &&& config.kv_width() <= usize::MAX
        &&& rows * config.target_layers@.len() * config.hidden <= usize::MAX
        &&& rows * config.target_layers@.len() <= usize::MAX
        &&& config.target_layers@.len() * config.hidden <= usize::MAX
        &&& rows * config.hidden <= usize::MAX
        &&& rows * 2 * config.conv_kernel_size <= usize::MAX
        &&& rows * 2 * config.conv_kernel_size * config.groups() <= usize::MAX
        &&& DFLASH2_BLOCK_ROWS * config.query_width() <= usize::MAX
        &&& rows * config.kv_width() <= usize::MAX
        &&& DFLASH2_BLOCK_ROWS * 2 * config.intermediate <= usize::MAX
        &&& rows * config.intermediate <= usize::MAX
        &&& drafts * config.hidden <= usize::MAX
        &&& drafts * config.vocab <= usize::MAX
        &&& drafts * config.selector_rank <= usize::MAX
        &&& drafts * config.selector_top_k <= usize::MAX
    }

    /// Sizes the buffers of a companion.
    pub fn new_workspace(&self, head: &Linear) -> (buffers: DraftBuffers)
        requires
            self.well_formed(),
            self.buffers_fit(),
        ensures
            ({
                let config = self.config;
                let rows = DFLASH2_CONTEXT_ROWS as int;
                let drafts = config.block_size - 1;
                let joined = config.target_layers@.len() * config.hidden;
                &&& buffers.aux == rows * config.target_layers@.len() * config.hidden
                &&& buffers.hidden == rows * config.hidden
                &&& buffers.coefficients == rows * 2 * config.conv_kernel_size * config.groups()
                &&& buffers.query == DFLASH2_BLOCK_ROWS * config.query_width()
                &&& buffers.key == rows * config.kv_width()
                &&& buffers.gate_up == DFLASH2_BLOCK_ROWS * 2 * config.intermediate
                &&& buffers.activated == DFLASH2_BLOCK_ROWS * config.intermediate
                &&& buffers.bf16_input == rows * (if config.intermediate > joined {
                    config.intermediate as int
                } else {
                    joined
                })
                &&& buffers.sample_hidden == drafts * config.hidden
                &&& buffers.logits == drafts * config.vocab
                &&& buffers.projected == drafts * config.selector_rank
                &&& buffers.candidates == drafts * config.selector_top_k
                &&& buffers.head_plan == (head.storage == Storage::Fp8)
            }),
    {
        let config = &self.config;
        let rows: usize = DFLASH2_CONTEXT_ROWS;
        let block: usize = DFLASH2_BLOCK_ROWS;
        let drafts: usize = config.draft_tokens();
        let groups: usize = config.hidden / config.conv_group_size;
        let taps: usize = config.target_layers.len();
        let joined: usize = taps * config.hidden;
        let widest: usize = if config.intermediate > joined {
            config.intermediate
        } else {
            joined
        };
        proof {
            assert(rows * joined == rows * taps * config.hidden) by (nonlinear_arith)
                requires
                    joined == taps * config.hidden,
            ;
        }
        let head_plan = match head.storage {
            Storage::Fp8 => true,
            _ => false,
        };
        DraftBuffers {
            aux: rows * taps * config.hidden,
            hidden: rows * config.hidden,
            coefficients: rows * 2 * config.conv_kernel_size * groups,
            query: block * (config.heads * config.head_dim),
            key: rows * (config.kv_heads * config.head_dim),
            gate_up: block * 2 * config.intermediate,
            activated: block * config.intermediate,
            bf16_input: rows * widest,
            sample_hidden: drafts * config.hidden,
            logits: drafts * config.vocab,
            projected: drafts * config.selector_rank,
            candidates: drafts * config.selector_top_k,
            head_plan,
        }
    }

    /// Attention half of one layer.
    pub open spec fn attention_ops(
        self,
        layer: usize,
        position: usize,
        cached: usize,
        rows: usize,
    ) -> Seq<DraftOp> {
        let config = self.config;
        let groups = config.groups() as usize;
        seq![
            DraftOp::InputNorm { layer, rows },
            DraftOp::ConvProject { layer, mlp: false, rows },
            DraftOp::Conv { layer, mlp: false, output: false, rows, groups },
            DraftOp::Query { layer, rows },
            DraftOp::Key { layer, rows },
            DraftOp::Value { layer, rows },
            DraftOp::QueryNorm { layer, rows: (rows * config.heads) as usize },
            DraftOp::KeyNorm { layer, rows: (rows * config.kv_heads) as usize },
            DraftOp::QueryRope { layer, rows, position },
            DraftOp::KeyRope { layer, rows, position },
            DraftOp::Attend { layer, position, cached, rows },
            DraftOp::Output { layer, rows },
            DraftOp::Conv { layer, mlp: false, output: true, rows, groups },
            DraftOp::AddResidual { values: (rows * config.hidden) as usize },
            DraftOp::Swap,
        ]
    }

    /// Feed-forward half of one layer.
    pub open spec fn mlp_ops(self, layer: usize, rows: usize) -> Seq<DraftOp> {
        let config = self.config;
        let groups = config.groups() as usize;
        seq![
            DraftOp::PostNorm { layer, rows },
            DraftOp::ConvProject { layer, mlp: true, rows },
            DraftOp::Conv { layer, mlp: true, output: false, rows, groups },
            DraftOp::GateUp { layer, rows },
            DraftOp::Silu { rows, width: config.intermediate },
            DraftOp::Down { layer, rows },
            DraftOp::Conv { layer, mlp: true, output: true, rows, groups },
            DraftOp::AddResidual { values: (rows * config.hidden) as usize },
            DraftOp::Swap,
        ]
    }

    /// Operations of the first `count` layers.
    pub open spec fn layer_ops(
        self,
        state: Qwen38DFlash2SequenceState,
        rows: usize,
        count: nat,
    ) -> Seq<DraftOp>
        decreases count,
    {
        if count == 0 {
            seq![]
        } else {
            let layer = (count - 1) as usize;
            self.layer_ops(state, rows, (count - 1) as nat) + (self.attention_ops(
                layer,
                state.position,
                state.layers@[count - 1],
                rows,
            ) + self.mlp_ops(layer, rows))
        }
    }

    /// Head and selector inputs.
    pub open spec fn tail_ops(self, head: Linear, drafts: usize) -> Seq<DraftOp> {
        let config = self.config;
        seq![
            DraftOp::FinalNorm { rows: (drafts + 1) as usize },
            DraftOp::TakeDrafts {
                offset: config.hidden,
                values: (drafts * config.hidden) as usize,
            },
        ] + (if head.storage == Storage::Fp8 {
            seq![DraftOp::HeadQuantize { rows: drafts, cols: head.cols }]
        } else {
            seq![]
        }) + seq![
            DraftOp::Head { storage: head.storage, rows: drafts },
            DraftOp::SelectorProject {
                rows: drafts,
                hidden: config.hidden,
                rank: config.selector_rank,
            },
            DraftOp::CopyProjected { values: (drafts * config.selector_rank) as usize },
            DraftOp::TopK { rows: drafts, k: config.selector_top_k },
        ]
    }

    /// Whether a block can be proposed.
    pub open spec fn proposable(
        self,
        state: Qwen38DFlash2SequenceState,
        anchor: u32,
        drafts: usize,
    ) -> bool {
        &&& anchor < self.config.vocab
        &&& 0 < drafts < self.config.block_size
        &&& state.position + drafts + 1 <= self.config.max_seq_len
        &&& state.layers@.len() == self.config.layers
    }

    /// Inputs whose arithmetic is representable.
    pub open spec fn proposal_fits(self) -> bool {
        let config = self.config;
        &&& DFLASH2_BLOCK_ROWS * config.heads <= usize::MAX
        &&& DFLASH2_BLOCK_ROWS * config.kv_heads <= usize::MAX
        &&& DFLASH2_BLOCK_ROWS * config.hidden <= usize::MAX
        &&& DFLASH2_BLOCK_ROWS * config.selector_rank <= usize::MAX
    }

    fn push_attention(
        &self,
        ops: &mut Vec<DraftOp>,
        layer: usize,
        position: usize,
        cached: usize,
        rows: usize,
    )
        requires
            self.well_formed(),
            self.proposal_fits(),
            rows <= DFLASH2_BLOCK_ROWS,
        ensures
            final(ops)@ == old(ops)@ + self.attention_ops(layer, position, cached, rows),
    {
        let config = &self.config;
        let groups: usize = config.hidden / config.conv_group_size;
        assert(rows * config.heads <= DFLASH2_BLOCK_ROWS * config.heads && rows * config.kv_heads
            <= DFLASH2_BLOCK_ROWS * config.kv_heads && rows * config.hidden <= DFLASH2_BLOCK_ROWS
            * config.hidden) by (nonlinear_arith)
            requires
                rows <= DFLASH2_BLOCK_ROWS,
        ;
        ops.push(DraftOp::InputNorm { layer, rows });
        ops.push(DraftOp::ConvProject { layer, mlp: false, rows });
        ops.push(DraftOp::Conv { layer, mlp: false, output: false, rows, groups });
        ops.push(DraftOp::Query { layer, rows });
        ops.push(DraftOp::Key { layer, rows });
        ops.push(DraftOp::Value { layer, rows });
        ops.push(DraftOp::QueryNorm { layer, rows: rows * config.heads });
        ops.push(DraftOp::KeyNorm { layer, rows: rows * config.kv_heads });
        ops.push(DraftOp::QueryRope { layer, rows, position });
        ops.push(DraftOp::KeyRope { layer, rows, position });
        ops.push(DraftOp::Attend { layer, position, cached, rows });
        ops.push(DraftOp::Output { layer, rows });
        ops.push(DraftOp::Conv { layer, mlp: false, output: true, rows, groups });
        ops.push(DraftOp::AddResidual { values: rows * config.hidden });
        ops.push(DraftOp::Swap);
        assert(ops@ =~= old(ops)@ + self.attention_ops(layer, position, cached, rows));
    }

    fn push_mlp(&self, ops: &mut Vec<DraftOp>, layer: usize, rows: usize)
        requires
            self.well_formed(),
            self.proposal_fits(),
            rows <= DFLASH2_BLOCK_ROWS,
        ensures
            final(ops)@ == old(ops)@ + self.mlp_ops(layer, rows),
    {
        let config = &self.config;
        let groups: usize = config.hidden / config.conv_group_size;
        assert(rows * config.hidden <= DFLASH2_BLOCK_ROWS * config.hidden) by (nonlinear_arith)
            requires
                rows <= DFLASH2_BLOCK_ROWS,
        ;
        ops.push(DraftOp::PostNorm { layer, rows });
        ops.push(DraftOp::ConvProject { layer, mlp: true, rows });
        ops.push(DraftOp::Conv { layer, mlp: true, output: false, rows, groups });
        ops.push(DraftOp::GateUp { layer, rows });
        ops.push(DraftOp::Silu { rows, width: config.intermediate });
        ops.push(DraftOp::Down { layer, rows });
        ops.push(DraftOp::Conv { layer, mlp: true, output: true, rows, groups });
        ops.push(DraftOp::AddResidual { values: rows * config.hidden });
        ops.push(DraftOp::Swap);
        assert(ops@ =~= old(ops)@ + self.mlp_ops(layer, rows));
    }

    fn push_layers(&self, ops: &mut Vec<DraftOp>, state: &Qwen38DFlash2SequenceState, rows: usize)
        requires
            self.well_formed(),
            self.proposal_fits(),
            rows <= DFLASH2_BLOCK_ROWS,
        ensures
            final(ops)@ == old(ops)@ + self.layer_ops(*state, rows, state.layers@.len()),
    {
        let ghost before = ops@;
        let mut layer: usize = 0;
        assert(ops@ =~= before + self.layer_ops(*state, rows, 0));
        while layer < state.layers.len()
            invariant
                layer <= state.layers@.len(),
                self.well_formed(),
                self.proposal_fits(),
                rows <= DFLASH2_BLOCK_ROWS,
                ops@ == before + self.layer_ops(*state, rows, layer as nat),
            decreases state.layers@.len() - layer,
        {
            let ghost done = self.layer_ops(*state, rows, layer as nat);
            let cached: usize = state.layers[layer];
            self.push_attention(ops, layer, state.position, cached, rows);
            self.push_mlp(ops, layer, rows);
            proof {
                let attention = self.attention_ops(layer, state.position, cached, rows);
                let mlp = self.mlp_ops(layer, rows);
                lemma_append(before + done, attention, mlp);
                lemma_append(before, done, attention + mlp);
            }
            layer += 1;
        }
    }

    fn push_tail(&self, ops: &mut Vec<DraftOp>, head: &Linear, drafts: usize)
        requires
            self.well_formed(),
            self.proposal_fits(),
            drafts < DFLASH2_BLOCK_ROWS,
        ensures
            final(ops)@ == old(ops)@ + self.tail_ops(*head, drafts),
    {
        let config = &self.config;
        assert(drafts * config.hidden <= DFLASH2_BLOCK_ROWS * config.hidden && drafts
            * config.selector_rank <= DFLASH2_BLOCK_ROWS * config.selector_rank)
            by (nonlinear_arith)
            requires
                drafts < DFLASH2_BLOCK_ROWS,
        ;
        ops.push(DraftOp::FinalNorm { rows: drafts + 1 });
        ops.push(DraftOp::TakeDrafts { offset: config.hidden, values: drafts * config.hidden });
        match head.storage {
            Storage::Fp8 => {
                ops.push(DraftOp::HeadQuantize { rows: drafts, cols: head.cols });
            },
            _ => {},
        }
        ops.push(DraftOp::Head { storage: head.storage, rows: drafts });
        ops.push(
            DraftOp::SelectorProject {
                rows: drafts,
                hidden: config.hidden,
                rank: config.selector_rank,
            },
        );
        ops.push(DraftOp::CopyProjected { values: drafts * config.selector_rank });
        ops.push(DraftOp::TopK { rows: drafts, k: config.selector_top_k });
        assert(ops@ =~= old(ops)@ + self.tail_ops(*head, drafts));
    }

    /// Plans a proposal of `drafts` tokens after an anchor.
    pub fn propose(
        &self,
        state: &Qwen38DFlash2SequenceState,
        anchor: u32,
        drafts: usize,
        head: &Linear,
    ) -> (result: Result<Proposal, ProposalError>)
        requires
            self.well_formed(),
            self.proposal_fits(),
        ensures
            match result {
                Ok(proposal) => {
                    &&& self.proposable(*state, anchor, drafts)
                    &&& proposal.tokens@ == Seq::new(
                        (drafts + 1) as nat,
                        |i: int|
                            if i == 0 {
                                anchor
                            } else {
                                self.config.mask_token
                            },
                    )
                    &&& proposal.ops@ == seq![DraftOp::Gather { rows: (drafts + 1) as usize }]
                        + self.layer_ops(*state, (drafts + 1) as usize, self.config.layers as nat)
                        + self.tail_ops(*head, drafts)
                    &&& crate::qwen36::dflash2::draft_flow::proposed(
                        *self,
                        *state,
                        drafts,
                        *head,
                        proposal.ops@,
                    )
                },
                Err(error) => {
                    &&& !self.proposable(*state, anchor, drafts)
                    &&& error == (ProposalError {
                        anchor,
                        drafts,
                        layers: state.layers@.len() as usize,
                    })
                },
            },
    {
        let max_seq_len: usize = self.config.max_seq_len;
        if anchor as usize >= self.config.vocab || drafts == 0 || drafts
            > self.config.draft_tokens() || drafts >= max_seq_len || state.position > max_seq_len
            - drafts - 1 || state.layers.len() != self.config.layers {
            return Err(ProposalError { anchor, drafts, layers: state.layers.len() });
        }
        let rows: usize = drafts + 1;
        let mut tokens: Vec<u32> = Vec::new();
        tokens.push(anchor);
        let mut i: usize = 1;
        while i < rows
            invariant
                1 <= i <= rows,
                tokens@ == Seq::new(
                    i as nat,
                    |j: int|
                        if j == 0 {
                            anchor
                        } else {
                            self.config.mask_token
                        },
                ),
            decreases rows - i,
        {
            tokens.push(self.config.mask_token);
            i += 1;
            assert(tokens@ =~= Seq::new(
                i as nat,
                |j: int|
                    if j == 0 {
                        anchor
                    } else {
                        self.config.mask_token
                    },
            ));
        }
        let mut ops: Vec<DraftOp> = Vec::new();
        ops.push(DraftOp::Gather { rows });
        self.push_layers(&mut ops, state, rows);
        self.push_tail(&mut ops, head, drafts);
        assert(ops@ =~= seq![DraftOp::Gather { rows }] + self.layer_ops(
            *state,
            rows,
            self.config.layers as nat,
        ) + self.tail_ops(*head, drafts));
        proof {
            crate::qwen36::dflash2::draft_flow::law_proposals_run(
                *self,
                *state,
                anchor,
                drafts,
                *head,
            );
        }
        Ok(Proposal { tokens, ops })
    }
}

proof fn lemma_append(start: Seq<DraftOp>, left: Seq<DraftOp>, right: Seq<DraftOp>)
    ensures
        start + left + right == start + (left + right),
{
    assert(start + left + right =~= start + (left + right));
}

/// Every tensor that was checked is loaded, and there are as many loads as tensors.
pub proof fn law_every_checked_tensor_is_loaded(layers: nat, index: int)
    requires
        0 <= index < 6 + 15 * layers <= usize::MAX,
    ensures
        ({
            let loads = loads_up_to(layers) + last_loads();
            &&& loads.len() == 6 + 15 * layers
            &&& exists|i: int| 0 <= i < loads.len() && (#[trigger] loads[i]).index == index
        }),
{
    let before = loads_up_to(layers);
    let loads = before + last_loads();
    lemma_loads_len(layers);
    assert(loads.len() == 6 + 15 * layers);
    if index == 0 || index == 1 || index == 2 || index == 5 {
        let place = if index == 5 {
            0
        } else {
            index + 1
        };
        assert(last_loads()[place].index == index);
        assert(loads[before.len() + place].index == index);
    } else {
        let i = lemma_load_place(layers, index);
        assert(loads[i].index == index);
    }
}

proof fn lemma_loads_len(layers: nat)
    ensures
        loads_up_to(layers).len() == 2 + 15 * layers,
    decreases layers,
{
    if layers > 0 {
        lemma_loads_len((layers - 1) as nat);
    }
}

proof fn lemma_load_place(layers: nat, index: int) -> (place: int)
    requires
        index == 3 || index == 4 || 6 <= index < 6 + 15 * layers,
        6 + 15 * layers <= usize::MAX,
    ensures
        0 <= place < loads_up_to(layers).len(),
        loads_up_to(layers)[place].index == index,
    decreases layers,
{
    lemma_loads_len(layers);
    if layers == 0 {
        let place = index - 3;
        assert(first_loads()[place].index == index);
        place
    } else if index < 6 + 15 * (layers - 1) {
        let place = lemma_load_place((layers - 1) as nat, index);
        assert(loads_up_to(layers)[place] == loads_up_to((layers - 1) as nat)[place]);
        place
    } else {
        lemma_loads_len((layers - 1) as nat);
        let start = loads_up_to((layers - 1) as nat).len() as int;
        let inside = index - (6 + 15 * (layers - 1));
        let place = if inside == 0 {
            1int
        } else if inside == 1 {
            2
        } else if inside == 2 {
            10
        } else if inside == 3 {
            11
        } else if inside == 4 {
            0
        } else if inside == 5 {
            9
        } else if inside == 6 {
            3
        } else if inside == 7 {
            4
        } else if inside == 8 {
            5
        } else if inside == 9 {
            8
        } else if inside == 10 {
            6
        } else if inside == 11 {
            7
        } else if inside == 12 {
            12
        } else if inside == 13 {
            13
        } else {
            14
        };
        assert(layer_loads(layers - 1)[place].index == index);
        assert(loads_up_to(layers)[start + place] == layer_loads(layers - 1)[place]);
        start + place
    }
}

/// Every block that is proposed has a plan in every projection.
pub proof fn law_proposed_blocks_are_planned(
    draft: Qwen38DFlash2,
    state: Qwen38DFlash2SequenceState,
    anchor: u32,
    drafts: usize,
)
    requires
        draft.well_formed(),
        draft.proposable(state, anchor, drafts),
    ensures
        2 <= drafts + 1 <= DFLASH2_BLOCK_ROWS,
{
}

} // verus!
