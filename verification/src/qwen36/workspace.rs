//! Buffers of the attention layers, and the scratch that hybrid models share for prompts.

use vstd::prelude::*;
use crate::qwen36::attention::{AttentionLayer, AttentionPlans};
use crate::qwen36::ffn::{
    BatchFfnWorkspace, BatchMoeWorkspace, FfnError, FfnOp, FfnPass, FfnWeights, MoeWeights,
};
use crate::qwen36::gdn::{
    BatchLinearAttentionStateSnapshots, ChunkMetadata, GdnError, GdnLayer, GdnOp, GdnPlans,
    GdnPrefill, SinglePrefillTable, GDN_HEADS,
};
use crate::qwen36::linear::{new_batch_linear_plan, BatchLinearPlan, Linear, LinearError};

verus! {

/// Rows that the paged attention kernel takes at once.
pub const ATTENTION_ROWS: usize = 8;

/// Buffers of the full-attention layers, in values, with the plans of their projections.
pub struct BatchFullAttentionWorkspace {
    /// Most tokens of a sequence.
    pub max_context_tokens: usize,
    /// Rows that the kernel takes at once.
    pub attention_rows: usize,
    /// Quantised residual stream.
    pub hidden_quantized: usize,
    /// Query projection, gates included.
    pub q_proj: usize,
    /// Queries; as many for gates, rotated queries, attention output, gated and quantised
    /// output.
    pub q: usize,
    /// Keys; as many for raw keys, rotated keys and values.
    pub k: usize,
    /// Output.
    pub output: usize,
    /// Plans of the query projection.
    pub q_plan: BatchLinearPlan,
    /// Plans of the key projection.
    pub k_plan: BatchLinearPlan,
    /// Plans of the value projection.
    pub v_plan: BatchLinearPlan,
    /// Plans of the output projection.
    pub o_plan: BatchLinearPlan,
}

/// Whether a plan is the one that a projection starts with.
pub open spec fn fresh_plan(plan: BatchLinearPlan, linear: Linear, capacity: usize) -> bool {
    &&& plan.well_formed()
    &&& plan.storage == linear.storage
    &&& plan.planned@ == crate::qwen36::linear::initial_rows(linear.storage, capacity)
}

impl BatchFullAttentionWorkspace {
    /// Inputs whose sizes are representable.
    pub open spec fn fits(layer: AttentionLayer, capacity: usize) -> bool {
        &&& layer.fits(capacity)
        &&& capacity * layer.hidden <= usize::MAX
        &&& capacity * layer.q.rows <= usize::MAX
    }

    /// Whether this is the workspace for `capacity` rows of a layer.
    pub open spec fn made_for(
        self,
        layer: AttentionLayer,
        capacity: usize,
        max_context_tokens: usize,
    ) -> bool {
        &&& self.max_context_tokens == max_context_tokens
        &&& self.attention_rows == ATTENTION_ROWS
        &&& self.hidden_quantized == capacity * layer.hidden
        &&& self.q_proj == capacity * layer.q.rows
        &&& self.q == capacity * layer.q_width()
        &&& self.k == capacity * layer.kv_width()
        &&& self.output == capacity * layer.hidden
        &&& self.q_plan.serves(layer.q, capacity)
        &&& self.k_plan.serves(layer.k, capacity)
        &&& self.v_plan.serves(layer.v, capacity)
        &&& self.o_plan.serves(layer.o, capacity)
    }

    /// Whether the plans are those that the projections of a layer start with.
    pub open spec fn fresh(self, layer: AttentionLayer, capacity: usize) -> bool {
        &&& fresh_plan(self.q_plan, layer.q, capacity)
        &&& fresh_plan(self.k_plan, layer.k, capacity)
        &&& fresh_plan(self.v_plan, layer.v, capacity)
        &&& fresh_plan(self.o_plan, layer.o, capacity)
    }

    /// Storage formats that the projections are planned for.
    pub open spec fn spec_plans(self) -> AttentionPlans {
        AttentionPlans {
            q: self.q_plan.storage,
            k: self.k_plan.storage,
            v: self.v_plan.storage,
            o: self.o_plan.storage,
        }
    }

    /// Storage formats that the projections are planned for.
    pub fn plans(&self) -> (plans: AttentionPlans)
        ensures
            plans == self.spec_plans(),
    {
        AttentionPlans {
            q: self.q_plan.storage,
            k: self.k_plan.storage,
            v: self.v_plan.storage,
            o: self.o_plan.storage,
        }
    }

    /// Sizes the buffers of the full-attention layers.
    pub fn new(layer: &AttentionLayer, capacity: usize, max_context_tokens: usize) -> (workspace:
        Self)
        requires
            Self::fits(*layer, capacity),
        ensures
            workspace.made_for(*layer, capacity, max_context_tokens),
            workspace.fresh(*layer, capacity),
    {
        let q_width: usize = layer.q_heads * layer.head_dim;
        let kv_width: usize = layer.kv_heads * layer.head_dim;
        Self {
            max_context_tokens,
            attention_rows: ATTENTION_ROWS,
            hidden_quantized: capacity * layer.hidden,
            q_proj: capacity * layer.q.rows,
            q: capacity * q_width,
            k: capacity * kv_width,
            output: capacity * layer.hidden,
            q_plan: new_batch_linear_plan(&layer.q, capacity),
            k_plan: new_batch_linear_plan(&layer.k, capacity),
            v_plan: new_batch_linear_plan(&layer.v, capacity),
            o_plan: new_batch_linear_plan(&layer.o, capacity),
        }
    }
}

/// Buffers of the recurrent layers, in values, with the plans of their projections.
pub struct BatchLinearAttentionWorkspace {
    /// Quantised residual stream, and as many for the output.
    pub hidden_quantized: usize,
    /// Query, key and value projection.
    pub qkv_output: usize,
    /// Output-gate projection.
    pub z_output: usize,
    /// Gate projection.
    pub alpha_beta: usize,
    /// Gates, and as many for the second kind.
    pub gate: usize,
    /// Queries; as many for keys, values, the recurrent output and its normalised and
    /// quantised forms.
    pub q: usize,
    /// Query, key and value projection of one row.
    pub row_qkv: usize,
    /// Queries of one row; as many for keys, values and the recurrent output.
    pub row_q: usize,
    /// Gates of one row, and as many for the second kind.
    pub row_gate: usize,
    /// Entries of a state table, of which there are two.
    pub state_table: usize,
    /// Spare states for empty rows.
    pub padding_states: usize,
    /// Whether the chunked kernel is available.
    pub chunked: bool,
    /// Plans of the query, key and value projection.
    pub qkv_plan: BatchLinearPlan,
    /// Plans of the output-gate projection.
    pub z_plan: BatchLinearPlan,
    /// Plans of the output projection.
    pub out_plan: BatchLinearPlan,
    /// Plans of the alpha and beta projection.
    pub alpha_beta_plan: BatchLinearPlan,
}

impl BatchLinearAttentionWorkspace {
    /// Inputs whose sizes are representable.
    pub open spec fn fits(
        layer: GdnLayer,
        layers: usize,
        row_capacity: usize,
        state_capacity: usize,
    ) -> bool {
        &&& layer.value_dim() <= usize::MAX
        &&& layer.value_heads * 2 <= usize::MAX
        &&& layers * state_capacity <= usize::MAX
        &&& row_capacity * layer.hidden <= usize::MAX
        &&& row_capacity * layer.value_dim() <= usize::MAX
        &&& row_capacity * layer.qkv.rows <= usize::MAX
        &&& row_capacity * layer.z.rows <= usize::MAX
        &&& row_capacity * layer.value_heads <= usize::MAX
        &&& row_capacity * layer.value_heads * 2 <= usize::MAX
    }

    /// Whether this is the workspace for `row_capacity` rows of a layer.
    pub open spec fn made_for(
        self,
        layer: GdnLayer,
        layers: usize,
        row_capacity: usize,
        state_capacity: usize,
        chunked_prefill: bool,
    ) -> bool {
        &&& self.hidden_quantized == row_capacity * layer.hidden
        &&& self.qkv_output == row_capacity * layer.qkv.rows
        &&& self.z_output == row_capacity * layer.z.rows
        &&& self.alpha_beta == row_capacity * layer.value_heads * 2
        &&& self.gate == row_capacity * layer.value_heads
        &&& self.q == row_capacity * layer.value_dim()
        &&& self.row_qkv == layer.qkv.rows
        &&& self.row_q == layer.value_dim()
        &&& self.row_gate == layer.value_heads
        &&& self.state_table == layers * state_capacity
        &&& self.padding_states == state_capacity
        &&& self.chunked == (chunked_prefill && layer.value_heads == GDN_HEADS)
        &&& self.qkv_plan.serves(layer.qkv, row_capacity)
        &&& self.z_plan.serves(layer.z, row_capacity)
        &&& self.out_plan.serves(layer.out, row_capacity)
        &&& self.alpha_beta_plan.serves(layer.alpha_beta(), row_capacity)
    }

    /// Whether the plans are those that the projections of a layer start with.
    pub open spec fn fresh(self, layer: GdnLayer, row_capacity: usize) -> bool {
        &&& fresh_plan(self.qkv_plan, layer.qkv, row_capacity)
        &&& fresh_plan(self.z_plan, layer.z, row_capacity)
        &&& fresh_plan(self.out_plan, layer.out, row_capacity)
        &&& fresh_plan(self.alpha_beta_plan, layer.alpha_beta(), row_capacity)
    }

    /// Storage formats that the projections are planned for.
    pub open spec fn spec_plans(self) -> GdnPlans {
        GdnPlans {
            qkv: self.qkv_plan.storage,
            z: self.z_plan.storage,
            out: self.out_plan.storage,
        }
    }

    /// Storage formats that the projections are planned for.
    pub fn plans(&self) -> (plans: GdnPlans)
        ensures
            plans == self.spec_plans(),
    {
        GdnPlans {
            qkv: self.qkv_plan.storage,
            z: self.z_plan.storage,
            out: self.out_plan.storage,
        }
    }

    /// Sizes the buffers of the recurrent layers. The chunked kernel serves prompts of models
    /// with its own number of heads.
    pub fn new(
        layer: &GdnLayer,
        layers: usize,
        row_capacity: usize,
        state_capacity: usize,
        chunked_prefill: bool,
    ) -> (workspace: Self)
        requires
            Self::fits(*layer, layers, row_capacity, state_capacity),
        ensures
            workspace.made_for(*layer, layers, row_capacity, state_capacity, chunked_prefill),
            workspace.fresh(*layer, row_capacity),
    {
        let value_dim: usize = layer.value_heads * layer.value_head_dim;
        Self {
            hidden_quantized: row_capacity * layer.hidden,
            qkv_output: row_capacity * layer.qkv.rows,
            z_output: row_capacity * layer.z.rows,
            alpha_beta: row_capacity * layer.value_heads * 2,
            gate: row_capacity * layer.value_heads,
            q: row_capacity * value_dim,
            row_qkv: layer.qkv.rows,
            row_q: value_dim,
            row_gate: layer.value_heads,
            state_table: layers * state_capacity,
            padding_states: state_capacity,
            chunked: chunked_prefill && layer.value_heads == GDN_HEADS,
            qkv_plan: new_batch_linear_plan(&layer.qkv, row_capacity),
            z_plan: new_batch_linear_plan(&layer.z, row_capacity),
            out_plan: new_batch_linear_plan(&layer.out, row_capacity),
            alpha_beta_plan: new_batch_linear_plan(&layer.gate_projection(), row_capacity),
        }
    }
}

/// One device operation after the attention of a layer.
#[derive(Clone, Copy, Debug, PartialEq, Eq, Structural)]
pub enum TailOp {
    /// Add the attention output to the residual stream.
    AddAttention(usize),
    /// Normalise the sum.
    PostNorm(usize),
    /// An operation of the feed-forward block.
    Ffn(FfnOp),
}

/// Feed-forward operations of a tail.
pub open spec fn ffn_tail(ops: Seq<FfnOp>) -> Seq<TailOp> {
    ops.map_values(|op: FfnOp| TailOp::Ffn(op))
}

/// Plans what follows the attention of a layer: residual update, normalisation, feed-forward
/// block.
pub fn enqueue_batch_tail(
    pass: &FfnPass,
    weights: &FfnWeights,
    workspace: &BatchFfnWorkspace,
) -> (result: Result<Vec<TailOp>, FfnError>)
    requires
        pass.serves(*weights, *workspace),
        pass.rows * pass.hidden <= usize::MAX,
    ensures
        match result {
            Ok(ops) => {
                &&& pass.obstacle(*weights, *workspace) is None
                &&& ops@ == seq![
                    TailOp::AddAttention((pass.rows * pass.hidden) as usize),
                    TailOp::PostNorm(pass.rows),
                ] + ffn_tail(pass.ops(*weights))
            },
            Err(error) => pass.obstacle(*weights, *workspace) == Some(error),
        },
{
    let ffn = match pass.run_batch(weights, workspace) {
        Ok(ffn) => ffn,
        Err(error) => {
            return Err(error);
        },
    };
    let mut ops: Vec<TailOp> = Vec::new();
    ops.push(TailOp::AddAttention(pass.rows * pass.hidden));
    ops.push(TailOp::PostNorm(pass.rows));
    let ghost head = ops@;
    let ghost all = ffn_tail(ffn@);
    let mut i: usize = 0;
    while i < ffn.len()
        invariant
            i <= ffn@.len(),
            all == ffn_tail(ffn@),
            all.len() == ffn@.len(),
            ops@ == head + all.take(i as int),
        decreases ffn@.len() - i,
    {
        ops.push(TailOp::Ffn(ffn[i]));
        i += 1;
        assert(ops@ =~= head + all.take(i as int));
    }
    assert(all.take(i as int) =~= all);
    assert(ops@ =~= seq![
        TailOp::AddAttention((pass.rows * pass.hidden) as usize),
        TailOp::PostNorm(pass.rows),
    ] + ffn_tail(pass.ops(*weights)));
    Ok(ops)
}

/// Why a hybrid prompt chunk is refused.
#[derive(Clone, Copy, Debug, PartialEq, Eq, Structural)]
pub struct HybridTokens {
    /// Most tokens.
    pub capacity: usize,
    /// Tokens of the chunk.
    pub tokens: usize,
}

/// Why a hybrid prompt chunk cannot run.
#[derive(Clone, Copy, Debug, PartialEq, Eq, Structural)]
pub enum HybridError {
    /// The chunk has no tokens or too many.
    Tokens(HybridTokens),
    /// Its recurrence cannot be laid out.
    Gdn(GdnError),
    /// A projection of the layer cannot run.
    Projection(LinearError),
    /// The experts of the layer cannot run.
    FeedForward(FfnError),
}

/// Scratch for the prompt chunks of a hybrid model.
pub struct Qwen36HybridPrefillWorkspace {
    /// Most tokens of a chunk.
    pub token_capacity: usize,
    /// Buffers of the recurrent layers.
    pub linear: BatchLinearAttentionWorkspace,
    /// Buffers of the experts.
    pub moe: BatchMoeWorkspace,
    /// Where recurrent states are kept between rows, if they are.
    pub state_snapshots: Option<BatchLinearAttentionStateSnapshots>,
}

impl Qwen36HybridPrefillWorkspace {
    /// Sizes the scratch for chunks of one sequence, by a recurrent layer and a block of experts
    /// of a model with `layers` layers.
    pub fn new(
        linear: &GdnLayer,
        moe: &MoeWeights,
        layers: usize,
        hidden: usize,
        token_capacity: usize,
    ) -> (result: Result<Self, FfnError>)
        requires
            BatchLinearAttentionWorkspace::fits(*linear, layers, token_capacity, 1),
            moe.fits(hidden, token_capacity),
        ensures
            match result {
                Ok(workspace) => {
                    &&& moe.obstacle() is None
                    &&& workspace.token_capacity == token_capacity
                    &&& workspace.linear.made_for(*linear, layers, token_capacity, 1, true)
                    &&& workspace.linear.fresh(*linear, token_capacity)
                    &&& workspace.moe.made_for(hidden, *moe, token_capacity)
                    &&& workspace.state_snapshots is None
                },
                Err(error) => moe.obstacle() == Some(error),
            },
    {
        let buffers = BatchLinearAttentionWorkspace::new(linear, layers, token_capacity, 1, true);
        match BatchMoeWorkspace::new(hidden, moe, token_capacity) {
            Ok(moe) => Ok(
                Qwen36HybridPrefillWorkspace {
                    token_capacity,
                    linear: buffers,
                    moe,
                    state_snapshots: None,
                },
            ),
            Err(error) => Err(error),
        }
    }

    /// Checks the length of a chunk.
    pub fn require_tokens(&self, tokens: usize) -> (result: Result<(), HybridTokens>)
        ensures
            match result {
                Ok(_) => 0 < tokens <= self.token_capacity,
                Err(error) => !(0 < tokens <= self.token_capacity) && error == (HybridTokens {
                    capacity: self.token_capacity,
                    tokens,
                }),
            },
    {
        if tokens == 0 || tokens > self.token_capacity {
            return Err(HybridTokens { capacity: self.token_capacity, tokens });
        }
        Ok(())
    }

    /// Starts the recurrence of a chunk: the states of its layers are to be bound anew.
    pub fn begin_gdn_prefill(&self, table: &mut SinglePrefillTable, tokens: usize) -> (result:
        Result<Option<ChunkMetadata>, HybridError>)
        ensures
            match result {
                Err(HybridError::Tokens(error)) => {
                    &&& !(0 < tokens <= self.token_capacity)
                    &&& error == (HybridTokens { capacity: self.token_capacity, tokens })
                    &&& *final(table) == *old(table)
                },
                Err(HybridError::Gdn(error)) => {
                    &&& 0 < tokens <= self.token_capacity
                    &&& final(table).bound@ == Seq::new(old(table).bound@.len(), |i: int| false)
                    &&& crate::qwen36::gdn::single_chunks(
                        tokens,
                        self.linear.chunked,
                        Err::<Option<ChunkMetadata>, GdnError>(error),
                    )
                },
                Ok(chunks) => {
                    &&& 0 < tokens <= self.token_capacity
                    &&& final(table).bound@ == Seq::new(old(table).bound@.len(), |i: int| false)
                    &&& crate::qwen36::gdn::single_chunks(
                        tokens,
                        self.linear.chunked,
                        Ok::<Option<ChunkMetadata>, GdnError>(chunks),
                    )
                },
                Err(_) => false,
            },
    {
        match self.require_tokens(tokens) {
            Ok(_) => {},
            Err(error) => return Err(HybridError::Tokens(error)),
        }
        match table.begin_single_prefill(tokens, self.linear.chunked) {
            Ok(chunks) => Ok(chunks),
            Err(error) => Err(HybridError::Gdn(error)),
        }
    }

    /// Recurrence of one sequence whose rows `lengths` counts. The rows run one at a time
    /// exactly where states are kept, and the output gate is a plain sigmoid.
    pub open spec fn gdn_pass<'a>(
        &'a self,
        weights: GdnLayer,
        layer: usize,
        tokens: usize,
        lengths: &'a [u32],
    ) -> GdnPrefill<'a> {
        GdnPrefill {
            layer: weights,
            plans: self.linear.spec_plans(),
            layer_idx: layer,
            lengths,
            sequence_capacity: 1,
            sequence_count: 1,
            total_tokens: tokens,
            row_capacity: tokens,
            serial_projections: false,
            serial_recurrence: self.state_snapshots is Some,
            sigmoid_output_gate: true,
            chunked_available: self.linear.chunked,
            snapshots: match &self.state_snapshots {
                Some(snapshots) => Some(snapshots),
                None => None,
            },
        }
    }

    /// Whether the recurrence of a chunk has representable sizes and a place for its states.
    pub open spec fn gdn_fits(self, weights: GdnLayer, layer: usize, tokens: usize) -> bool {
        &&& tokens <= u32::MAX
        &&& layer < usize::MAX
        &&& weights.value_dim() <= usize::MAX
        &&& tokens * weights.qkv.rows <= usize::MAX
        &&& tokens * weights.value_dim() <= usize::MAX
        &&& tokens * weights.value_heads <= usize::MAX
        &&& self.state_snapshots matches Some(snapshots) ==> {
            &&& snapshots.well_formed()
            &&& layer < snapshots.linear_layers@.len()
            &&& snapshots.state_table_stride >= 1
        }
    }

    /// Plans the recurrence of a chunk of one sequence in one layer.
    pub fn run_gdn(&self, weights: &GdnLayer, layer: usize, tokens: usize) -> (result: Result<
        Vec<GdnOp>,
        HybridError,
    >)
        requires
            self.gdn_fits(*weights, layer, tokens),
        ensures
            ({
                let refused = self.linear.spec_plans().obstacle(*weights, tokens);
                match result {
                    Ok(ops) => {
                        &&& 0 < tokens <= self.token_capacity
                        &&& refused is None
                        &&& exists|lengths: &[u32]|
                            lengths@ == seq![tokens as u32] && ops@ == #[trigger] self.gdn_pass(
                                *weights,
                                layer,
                                tokens,
                                lengths,
                            ).ops()
                    },
                    Err(error) => if !(0 < tokens <= self.token_capacity) {
                        error == HybridError::Tokens(
                            HybridTokens { capacity: self.token_capacity, tokens },
                        )
                    } else {
                        refused is Some && error == HybridError::Projection(refused->0)
                    },
                }
            }),
    {
        match self.require_tokens(tokens) {
            Ok(_) => {},
            Err(error) => return Err(HybridError::Tokens(error)),
        }
        let counts: Vec<u32> = vec![tokens as u32];
        let lengths: &[u32] = counts.as_slice();
        let snapshots = match &self.state_snapshots {
            Some(snapshots) => Some(snapshots),
            None => None,
        };
        let pass = GdnPrefill {
            layer: *weights,
            plans: self.linear.plans(),
            layer_idx: layer,
            lengths,
            sequence_capacity: 1,
            sequence_count: 1,
            total_tokens: tokens,
            row_capacity: tokens,
            serial_projections: false,
            serial_recurrence: self.state_snapshots.is_some(),
            sigmoid_output_gate: true,
            chunked_available: self.linear.chunked,
            snapshots,
        };
        assert(lengths@ =~= seq![tokens as u32]);
        assert(pass == self.gdn_pass(*weights, layer, tokens, lengths));
        proof {
            reveal_with_fuel(crate::qwen36::gdn::tokens_before, 2);
        }
        match pass.enqueue_prefill_chunks() {
            Ok(ops) => Ok(ops),
            Err(error) => Err(HybridError::Projection(error)),
        }
    }

    /// The experts of a chunk: one stream, and no rounding of the router logits.
    pub open spec fn moe_pass(self, hidden: usize, tokens: usize) -> FfnPass {
        FfnPass { hidden, rows: tokens, stabilise: false, parallel: false }
    }

    /// Plans the experts of a chunk.
    pub fn run_moe(&self, weights: &MoeWeights, hidden: usize, tokens: usize) -> (result: Result<
        Vec<FfnOp>,
        HybridError,
    >)
        requires
            self.moe_pass(hidden, tokens).serves_experts(*weights, self.moe),
        ensures
            ({
                let pass = self.moe_pass(hidden, tokens);
                let refused = pass.moe_obstacle(*weights, self.moe);
                match result {
                    Ok(ops) => {
                        &&& 0 < tokens <= self.token_capacity
                        &&& refused is None
                        &&& ops@ == pass.moe_ops(*weights)
                    },
                    Err(error) => if !(0 < tokens <= self.token_capacity) {
                        error == HybridError::Tokens(
                            HybridTokens { capacity: self.token_capacity, tokens },
                        )
                    } else {
                        refused is Some && error == HybridError::FeedForward(refused->0)
                    },
                }
            }),
    {
        match self.require_tokens(tokens) {
            Ok(_) => {},
            Err(error) => return Err(HybridError::Tokens(error)),
        }
        let pass = FfnPass { hidden, rows: tokens, stabilise: false, parallel: false };
        match pass.run_moe(weights, &self.moe) {
            Ok(ops) => Ok(ops),
            Err(error) => Err(HybridError::FeedForward(error)),
        }
    }
}

} // verus!
