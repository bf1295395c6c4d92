//! Shape of a Qwen text model as the planners read it.

use vstd::prelude::*;

verus! {

/// Released model family of a manifest.
#[derive(Clone, Copy, Debug, PartialEq, Eq, Structural)]
pub enum QwenArchitecture {
    /// Hybrid Qwen3.6 text model.
    Qwen36,
    /// Qwen3.8 Flash Next text model.
    Qwen38FlashNext,
}

/// Attention kind of one layer.
#[derive(Clone, Copy, Debug, PartialEq, Eq, Structural)]
pub enum QwenLayerKind {
    /// Recurrent linear attention.
    LinearAttention,
    /// Attention over the paged KV cache.
    FullAttention,
}

/// Feed-forward kind of a model.
#[derive(Clone, Copy, Debug, PartialEq, Eq, Structural)]
pub enum QwenFfnConfig {
    /// One dense feed-forward block for each layer.
    Dense,
    /// Routed experts.
    Moe {
        /// Experts of each layer.
        experts: usize,
        /// Experts selected for each token.
        experts_per_token: usize,
        /// Inner width of one expert.
        expert_intermediate: usize,
        /// Whether the weights of the selected experts are normalised.
        norm_topk_prob: bool,
    },
}

/// Dimensions of the linear-attention layers.
#[derive(Clone, Copy, Debug, PartialEq, Eq, Structural)]
pub struct QwenLinearAttentionConfig {
    /// Taps of the causal convolution.
    pub conv_kernel: usize,
    /// Key heads.
    pub key_heads: usize,
    /// Value heads.
    pub value_heads: usize,
    /// Width of one key head.
    pub key_head_dim: usize,
    /// Width of one value head.
    pub value_head_dim: usize,
}

/// Dimensions of a loaded text model. Floating-point values are kept as bit patterns.
#[derive(Clone, Debug, PartialEq, Eq)]
pub struct QwenModelManifest {
    /// Model family.
    pub architecture: QwenArchitecture,
    /// Prefix of the tensor names.
    pub tensor_prefix: String,
    /// Width of the residual stream.
    pub hidden: usize,
    /// Number of layers.
    pub layers: usize,
    /// Number of vocabulary entries.
    pub vocab: usize,
    /// Inner width of the feed-forward block.
    pub intermediate: usize,
    /// Query heads.
    pub q_heads: usize,
    /// Key and value heads.
    pub kv_heads: usize,
    /// Width of one attention head.
    pub head_dim: usize,
    /// Rotated part of one attention head.
    pub rotary_dim: usize,
    /// RMSNorm epsilon.
    pub rms_eps_bits: u32,
    /// RoPE base.
    pub rope_theta_bits: u32,
    /// Sections of the multimodal rotary embedding.
    pub mrope_sections: Option<[usize; 4]>,
    /// Feed-forward kind.
    pub ffn: QwenFfnConfig,
    /// Attention kind of each layer.
    pub layer_kinds: Vec<QwenLayerKind>,
    /// Linear-attention dimensions.
    pub linear_attention: Option<QwenLinearAttentionConfig>,
    /// Inner width of the shared expert.
    pub shared_expert_intermediate: Option<usize>,
    /// Layers of the native draft block.
    pub mtp_layers: usize,
}

/// Whether the layer at `index` carries recurrent state.
pub open spec fn is_linear(kinds: Seq<QwenLayerKind>, index: int) -> bool {
    kinds[index] == QwenLayerKind::LinearAttention
}

/// Number of layers of `kind` among the first `count`.
pub open spec fn kind_count(kinds: Seq<QwenLayerKind>, kind: QwenLayerKind, count: nat) -> nat
    decreases count,
{
    if count == 0 {
        0
    } else {
        kind_count(kinds, kind, (count - 1) as nat) + if kinds[count - 1] == kind {
            1nat
        } else {
            0nat
        }
    }
}

/// Counts the layers of one kind.
pub fn count_kind(kinds: &Vec<QwenLayerKind>, kind: QwenLayerKind) -> (count: usize)
    ensures
        count == kind_count(kinds@, kind, kinds@.len()),
        count <= kinds@.len(),
{
    let mut count: usize = 0;
    let mut i: usize = 0;
    while i < kinds.len()
        invariant
            i <= kinds@.len(),
            count <= i,
            count == kind_count(kinds@, kind, i as nat),
        decreases kinds@.len() - i,
    {
        if kinds[i] == kind {
            count += 1;
        }
        i += 1;
    }
    count
}

/// Index of the first layer of one kind.
pub fn first_kind(kinds: &Vec<QwenLayerKind>, kind: QwenLayerKind) -> (found: Option<usize>)
    ensures
        match found {
            Some(index) => {
                &&& index < kinds@.len()
                &&& kinds@[index as int] == kind
                &&& forall|i: int| 0 <= i < index ==> kinds@[i] != kind
            },
            None => forall|i: int| 0 <= i < kinds@.len() ==> kinds@[i] != kind,
        },
{
    let mut i: usize = 0;
    while i < kinds.len()
        invariant
            i <= kinds@.len(),
            forall|j: int| 0 <= j < i ==> kinds@[j] != kind,
        decreases kinds@.len() - i,
    {
        if kinds[i] == kind {
            return Some(i);
        }
        i += 1;
    }
    None
}

} // verus!
