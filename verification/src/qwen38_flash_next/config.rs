//! Qwen3.8 Flash Next checkpoint configuration.

use crate::manifest::{
    QwenArchitecture, QwenFfnConfig, QwenLayerKind, QwenLinearAttentionConfig, QwenModelManifest,
};
use vstd::prelude::*;

verus! {

/// Per-layer attention type in the released text stack.
#[derive(Clone, Copy, Debug, PartialEq, Eq, Structural)]
pub enum Qwen38LayerType {
    /// Gated Delta Net recurrent attention.
    LinearAttention,
    /// Qwen Sparse Attention over the ordinary KV cache.
    FullAttention,
}

impl Qwen38LayerType {
    /// The manifest's name for this attention type.
    pub open spec fn kind(self) -> QwenLayerKind {
        match self {
            Qwen38LayerType::LinearAttention => QwenLayerKind::LinearAttention,
            Qwen38LayerType::FullAttention => QwenLayerKind::FullAttention,
        }
    }
}

/// Parsed text configuration for the released Qwen3.8 Flash Next checkpoint.
#[derive(Clone, Debug, PartialEq, Eq)]
#[allow(missing_docs)]
pub struct Qwen38FlashNextConfig {
    pub hidden: usize,
    pub vocab: usize,
    pub layers: usize,
    pub layer_types: Vec<Qwen38LayerType>,
    pub q_heads: usize,
    pub kv_heads: usize,
    pub head_dim: usize,
    pub rotary_dim: usize,
    pub linear_key_heads: usize,
    pub linear_value_heads: usize,
    pub linear_key_head_dim: usize,
    pub linear_value_head_dim: usize,
    pub linear_conv_kernel: usize,
    pub experts: usize,
    pub experts_per_token: usize,
    pub expert_intermediate: usize,
    pub shared_expert_intermediate: usize,
    pub hc_count: usize,
    pub hc_lowrank: usize,
    pub ple_layer: usize,
    pub ple_embedding_dim: usize,
    pub ple_conv_kernel: usize,
    pub ngram_size: usize,
    pub heads_per_ngram: usize,
    pub ngram_shards: usize,
    pub ngram_vocab_base: usize,
    pub ngram_vocab_alignment: usize,
    pub indexer_heads: usize,
    pub indexer_kv_heads: usize,
    pub indexer_head_dim: usize,
    pub indexer_compress_ratio: usize,
    pub indexer_budget: usize,
    pub max_position_embeddings: usize,
    pub eos_token_id: u32,
    pub rms_eps_bits: u32,
    pub rope_theta_bits: u32,
    pub mtp_layers: usize,
}

impl Qwen38FlashNextConfig {
    /// Number of hash heads as a number.
    pub open spec fn ngram_head_count(self) -> int {
        (self.ngram_size - 1) * self.heads_per_ngram
    }

    /// Width of all residual streams of one token.
    pub open spec fn stream_width(self) -> int {
        self.hidden * self.hc_count
    }

    /// Number of independent PLE hash heads selected for each token.
    pub fn ngram_heads(&self) -> (heads: usize)
        requires
            self.ngram_size >= 1,
            self.ngram_head_count() <= usize::MAX,
        ensures
            heads == self.ngram_head_count(),
    {
        (self.ngram_size - 1) * self.heads_per_ngram
    }

    /// Width of one selected PLE embedding row.
    pub fn ngram_head_dim(&self) -> (width: usize)
        requires
            self.ngram_size >= 1,
            0 < self.ngram_head_count() <= usize::MAX,
        ensures
            width == self.ple_embedding_dim as int / self.ngram_head_count(),
    {
        self.ple_embedding_dim / self.ngram_heads()
    }

    /// Whether a manifest is the one that shared components read for this configuration.
    pub open spec fn is_manifest(self, manifest: QwenModelManifest) -> bool {
        &&& manifest.architecture == QwenArchitecture::Qwen38FlashNext
        &&& manifest.tensor_prefix@ == "model.language_model"@
        &&& manifest.hidden == self.hidden
        &&& manifest.layers == self.layers
        &&& manifest.vocab == self.vocab
        &&& manifest.intermediate == self.expert_intermediate
        &&& manifest.q_heads == self.q_heads
        &&& manifest.kv_heads == self.kv_heads
        &&& manifest.head_dim == self.head_dim
        &&& manifest.rotary_dim == self.rotary_dim
        &&& manifest.rms_eps_bits == self.rms_eps_bits
        &&& manifest.rope_theta_bits == self.rope_theta_bits
        &&& manifest.mrope_sections is None
        &&& manifest.ffn == (QwenFfnConfig::Moe {
            experts: self.experts,
            experts_per_token: self.experts_per_token,
            expert_intermediate: self.expert_intermediate,
            norm_topk_prob: true,
        })
        &&& manifest.layer_kinds@.len() == self.layer_types@.len()
        &&& forall|i: int|
            0 <= i < self.layer_types@.len() ==> #[trigger] manifest.layer_kinds@[i]
                == self.layer_types@[i].kind()
        &&& manifest.linear_attention == Some(
            QwenLinearAttentionConfig {
                conv_kernel: self.linear_conv_kernel,
                key_heads: self.linear_key_heads,
                value_heads: self.linear_value_heads,
                key_head_dim: self.linear_key_head_dim,
                value_head_dim: self.linear_value_head_dim,
            },
        )
        &&& manifest.shared_expert_intermediate == Some(self.shared_expert_intermediate)
        &&& manifest.mtp_layers == self.mtp_layers
    }

    /// The manifest that shared Qwen components read.
    pub fn qwen_manifest(&self) -> (manifest: QwenModelManifest)
        ensures
            self.is_manifest(manifest),
    {
        let mut layer_kinds: Vec<QwenLayerKind> = Vec::with_capacity(self.layer_types.len());
        let mut i: usize = 0;
        while i < self.layer_types.len()
            invariant
                i <= self.layer_types@.len(),
                layer_kinds@.len() == i,
                forall|j: int|
                    0 <= j < i ==> #[trigger] layer_kinds@[j] == self.layer_types@[j].kind(),
            decreases self.layer_types@.len() - i,
        {
            layer_kinds.push(
                match self.layer_types[i] {
                    Qwen38LayerType::LinearAttention => QwenLayerKind::LinearAttention,
                    Qwen38LayerType::FullAttention => QwenLayerKind::FullAttention,
                },
            );
            i += 1;
        }
        QwenModelManifest {
            architecture: QwenArchitecture::Qwen38FlashNext,
            tensor_prefix: String::from_str("model.language_model"),
            hidden: self.hidden,
            layers: self.layers,
            vocab: self.vocab,
            intermediate: self.expert_intermediate,
            q_heads: self.q_heads,
            kv_heads: self.kv_heads,
            head_dim: self.head_dim,
            rotary_dim: self.rotary_dim,
            rms_eps_bits: self.rms_eps_bits,
            rope_theta_bits: self.rope_theta_bits,
            mrope_sections: None,
            ffn: QwenFfnConfig::Moe {
                experts: self.experts,
                experts_per_token: self.experts_per_token,
                expert_intermediate: self.expert_intermediate,
                norm_topk_prob: true,
            },
            layer_kinds,
            linear_attention: Some(
                QwenLinearAttentionConfig {
                    conv_kernel: self.linear_conv_kernel,
                    key_heads: self.linear_key_heads,
                    value_heads: self.linear_value_heads,
                    key_head_dim: self.linear_key_head_dim,
                    value_head_dim: self.linear_value_head_dim,
                },
            ),
            shared_expert_intermediate: Some(self.shared_expert_intermediate),
            mtp_layers: self.mtp_layers,
        }
    }
}

} // verus!
