//! Configuration and tensors of a companion checkpoint.

use vstd::prelude::*;
use crate::manifest::{QwenFfnConfig, QwenModelManifest};
use crate::tensors::{
    cube, matrix, numbered_name, push_tensor, vector, TensorInfo, TensorSpec,
};
use crate::text::same_text;

verus! {

/// Why a companion cannot be used.
#[derive(Clone, Debug, PartialEq, Eq)]
pub enum DFlash2Error {
    /// Not a non-causal BF16 companion of the released kind.
    Kind,
    /// The geometry is invalid.
    Geometry,
    /// The companion does not fit the target.
    Target(Vec<TargetMismatch>),
    /// The block size is not the one that the execution plans are for.
    BlockSize(usize),
    /// The tensor at this place of the expected ones has another format or shape.
    Tensor(usize),
}

/// One way in which a companion does not fit a target.
#[derive(Clone, Copy, Debug, PartialEq, Eq, Structural)]
pub enum TargetMismatch {
    /// The target has routed experts.
    NotDense,
    /// Vocabularies differ.
    Vocabulary,
    /// Hidden sizes differ.
    HiddenSize,
    /// The companion was trained for another number of layers.
    LayerCount,
    /// A captured layer does not exist.
    TargetLayers,
}

/// Rotary parameters of a raw configuration.
#[derive(Clone, Debug, PartialEq, Eq)]
pub struct RopeParameters {
    /// Bits of the single-precision base.
    pub rope_theta_bits: u32,
    /// Kind.
    pub rope_type: String,
}

/// Draft parameters of a raw configuration.
#[derive(Clone, Debug, PartialEq, Eq)]
pub struct RawDFlashConfig {
    /// Rows of one proposal.
    pub block_size: usize,
    /// Channels that share one convolution.
    pub conv_group_size: usize,
    /// Taps of the convolution.
    pub conv_kernel_size: usize,
    /// Token that stands for a position to draft.
    pub mask_token_id: u32,
    /// Rank of the transition scores.
    pub selector_rank: usize,
    /// Candidates for each position.
    pub selector_top_k: usize,
    /// Captured layers of the target.
    pub target_layer_ids: Vec<usize>,
}

/// A configuration as it stands in the checkpoint. Floating-point values are kept as the bits
/// of their single-precision form.
#[derive(Clone, Debug, PartialEq, Eq)]
pub struct RawConfig {
    /// Model classes.
    pub architectures: Vec<String>,
    /// Model family.
    pub model_type: String,
    /// Whether attention is causal.
    pub is_causal: bool,
    /// Storage format.
    pub dtype: String,
    /// Number of vocabulary entries.
    pub vocab_size: usize,
    /// Width of the residual stream.
    pub hidden_size: usize,
    /// Inner width of the feed-forward block.
    pub intermediate_size: usize,
    /// Layers.
    pub num_hidden_layers: usize,
    /// Query heads.
    pub num_attention_heads: usize,
    /// Key and value heads.
    pub num_key_value_heads: usize,
    /// Width of one head.
    pub head_dim: usize,
    /// Most positions.
    pub max_position_embeddings: usize,
    /// RMSNorm epsilon.
    pub rms_norm_eps_bits: u32,
    /// Positions that attention looks back.
    pub sliding_window: usize,
    /// Attention kinds.
    pub layer_types: Vec<String>,
    /// Rotary parameters.
    pub rope_parameters: RopeParameters,
    /// Draft parameters.
    pub dflash_config: RawDFlashConfig,
    /// Layers of the target.
    pub num_target_layers: usize,
}

/// A valid companion configuration.
#[derive(Clone, Debug, PartialEq, Eq)]
pub struct DFlash2Config {
    /// Number of vocabulary entries.
    pub vocab: usize,
    /// Width of the residual stream.
    pub hidden: usize,
    /// Inner width of the feed-forward block.
    pub intermediate: usize,
    /// Layers.
    pub layers: usize,
    /// Query heads.
    pub heads: usize,
    /// Key and value heads.
    pub kv_heads: usize,
    /// Width of one head.
    pub head_dim: usize,
    /// Most positions.
    pub max_seq_len: usize,
    /// Bits of the RMSNorm epsilon.
    pub rms_norm_eps_bits: u32,
    /// Bits of the rotary base.
    pub rope_theta_bits: u32,
    /// Positions that attention looks back.
    pub sliding_window: usize,
    /// Rows of one proposal.
    pub block_size: usize,
    /// Token that stands for a position to draft.
    pub mask_token: u32,
    /// Channels that share one convolution.
    pub conv_group_size: usize,
    /// Taps of the convolution.
    pub conv_kernel_size: usize,
    /// Rank of the transition scores.
    pub selector_rank: usize,
    /// Candidates for each position.
    pub selector_top_k: usize,
    /// Captured layers of the target.
    pub target_layers: Vec<usize>,
    /// Layers of the target.
    pub target_layer_count: usize,
}

/// Whether single-precision bits stand for a finite number above zero.
pub open spec fn finite_positive(bits: u32) -> bool {
    0 < bits < 0x7f80_0000
}

/// Whether `value` is a multiple of `factor`. Zero is the only multiple of zero.
pub open spec fn multiple_of(value: usize, factor: usize) -> bool {
    if factor == 0 {
        value == 0
    } else {
        value % factor == 0
    }
}

fn is_multiple(value: usize, factor: usize) -> (multiple: bool)
    ensures
        multiple == multiple_of(value, factor),
{
    if factor == 0 {
        value == 0
    } else {
        value % factor == 0
    }
}

impl RawConfig {
    /// Whether this is a non-causal BF16 companion of the released kind.
    pub open spec fn right_kind(self) -> bool {
        &&& self.architectures@.len() == 1
        &&& self.architectures@[0]@ == "DFlash2DraftModel"@
        &&& self.model_type@ == "qwen3"@
        &&& !self.is_causal
        &&& self.dtype@ == "bfloat16"@
    }

    /// Whether the widths and counts of the model are valid.
    pub open spec fn valid_model(self) -> bool {
        &&& self.hidden_size > 0
        &&& self.intermediate_size > 0
        &&& self.num_hidden_layers > 0
        &&& self.num_attention_heads > 0
        &&& self.num_key_value_heads > 0
        &&& multiple_of(self.num_attention_heads, self.num_key_value_heads)
        &&& self.head_dim > 0
        &&& self.max_position_embeddings > 0
        &&& self.sliding_window > 0
        &&& finite_positive(self.rms_norm_eps_bits)
        &&& finite_positive(self.rope_parameters.rope_theta_bits)
        &&& self.rope_parameters.rope_type@ == "default"@
        &&& self.layer_types@.len() == self.num_hidden_layers
        &&& forall|i: int|
            0 <= i < self.layer_types@.len() ==> (#[trigger] self.layer_types@[i])@
                == "sliding_attention"@
    }

    /// Whether the draft parameters are valid.
    pub open spec fn valid_draft(self) -> bool {
        let draft = self.dflash_config;
        let layers = draft.target_layer_ids@;
        &&& draft.block_size >= 2
        &&& draft.conv_kernel_size >= 2
        &&& draft.conv_group_size > 0
        &&& multiple_of(self.hidden_size, draft.conv_group_size)
        &&& draft.selector_rank > 0
        &&& 0 < draft.selector_top_k <= self.vocab_size
        &&& layers.len() == self.num_hidden_layers
        &&& forall|i: int, j: int| 0 <= i < j < layers.len() ==> layers[i] < layers[j]
        &&& forall|i: int| 0 <= i < layers.len() ==> #[trigger] layers[i] < self.num_target_layers
        &&& draft.mask_token_id < self.vocab_size
    }

    fn check_model(&self) -> (valid: bool)
        ensures
            valid == self.valid_model(),
    {
        if self.hidden_size == 0 || self.intermediate_size == 0 || self.num_hidden_layers == 0
            || self.num_attention_heads == 0 || self.num_key_value_heads == 0 || !is_multiple(
            self.num_attention_heads,
            self.num_key_value_heads,
        ) || self.head_dim == 0 || self.max_position_embeddings == 0 || self.sliding_window == 0 {
            return false;
        }
        if !(0 < self.rms_norm_eps_bits && self.rms_norm_eps_bits < 0x7f80_0000) || !(0
            < self.rope_parameters.rope_theta_bits && self.rope_parameters.rope_theta_bits
            < 0x7f80_0000) {
            return false;
        }
        if !same_text(self.rope_parameters.rope_type.as_str(), "default") || self.layer_types.len()
            != self.num_hidden_layers {
            return false;
        }
        let mut i: usize = 0;
        while i < self.layer_types.len()
            invariant
                i <= self.layer_types@.len(),
                forall|j: int|
                    0 <= j < i ==> (#[trigger] self.layer_types@[j])@ == "sliding_attention"@,
            decreases self.layer_types@.len() - i,
        {
            if !same_text(self.layer_types[i].as_str(), "sliding_attention") {
                assert(self.layer_types@[i as int]@ != "sliding_attention"@);
                return false;
            }
            i += 1;
        }
        true
    }

    fn check_draft(&self) -> (valid: bool)
        ensures
            valid == self.valid_draft(),
    {
        let draft = &self.dflash_config;
        if draft.block_size < 2 || draft.conv_kernel_size < 2 || draft.conv_group_size == 0
            || !is_multiple(self.hidden_size, draft.conv_group_size) || draft.selector_rank == 0
            || draft.selector_top_k == 0 || draft.selector_top_k > self.vocab_size
            || draft.target_layer_ids.len() != self.num_hidden_layers {
            return false;
        }
        let layers = &draft.target_layer_ids;
        let mut i: usize = 0;
        while i < layers.len()
            invariant
                i <= layers@.len(),
                forall|a: int, b: int| 0 <= a < b < i ==> layers@[a] < layers@[b],
                forall|a: int| 0 <= a < i ==> #[trigger] layers@[a] < self.num_target_layers,
                layers@ == self.dflash_config.target_layer_ids@,
            decreases layers@.len() - i,
        {
            if i > 0 && layers[i - 1] >= layers[i] {
                assert(!(layers@[i - 1] < layers@[i as int]));
                return false;
            }
            if layers[i] >= self.num_target_layers {
                assert(!(layers@[i as int] < self.num_target_layers));
                return false;
            }
            i += 1;
        }
        (draft.mask_token_id as usize) < self.vocab_size
    }

    /// Checks a raw configuration.
    pub fn validate_raw_config(&self) -> (result: Result<(), DFlash2Error>)
        ensures
            match result {
                Ok(_) => self.right_kind() && self.valid_model() && self.valid_draft(),
                Err(error) => if !self.right_kind() {
                    error == DFlash2Error::Kind
                } else {
                    !(self.valid_model() && self.valid_draft()) && error == DFlash2Error::Geometry
                },
            },
    {
        if self.architectures.len() != 1 || !same_text(
            self.architectures[0].as_str(),
            "DFlash2DraftModel",
        ) || !same_text(self.model_type.as_str(), "qwen3") || self.is_causal || !same_text(
            self.dtype.as_str(),
            "bfloat16",
        ) {
            return Err(DFlash2Error::Kind);
        }
        if !self.check_model() || !self.check_draft() {
            return Err(DFlash2Error::Geometry);
        }
        Ok(())
    }

    /// The configuration that these values stand for.
    pub open spec fn matches_config(self, config: DFlash2Config) -> bool {
        &&& config.vocab == self.vocab_size
        &&& config.hidden == self.hidden_size
        &&& config.intermediate == self.intermediate_size
        &&& config.layers == self.num_hidden_layers
        &&& config.heads == self.num_attention_heads
        &&& config.kv_heads == self.num_key_value_heads
        &&& config.head_dim == self.head_dim
        &&& config.max_seq_len == self.max_position_embeddings
        &&& config.rms_norm_eps_bits == self.rms_norm_eps_bits
        &&& config.rope_theta_bits == self.rope_parameters.rope_theta_bits
        &&& config.sliding_window == self.sliding_window
        &&& config.block_size == self.dflash_config.block_size
        &&& config.mask_token == self.dflash_config.mask_token_id
        &&& config.conv_group_size == self.dflash_config.conv_group_size
        &&& config.conv_kernel_size == self.dflash_config.conv_kernel_size
        &&& config.selector_rank == self.dflash_config.selector_rank
        &&& config.selector_top_k == self.dflash_config.selector_top_k
        &&& config.target_layers@ == self.dflash_config.target_layer_ids@
        &&& config.target_layer_count == self.num_target_layers
    }
}

/// Checks a raw configuration and takes its values over.
pub fn inspect_dflash2_config(raw: RawConfig) -> (result: Result<DFlash2Config, DFlash2Error>)
    ensures
        match result {
            Ok(config) => {
                &&& raw.right_kind() && raw.valid_model() && raw.valid_draft()
                &&& raw.matches_config(config)
            },
            Err(error) => if !raw.right_kind() {
                error == DFlash2Error::Kind
            } else {
                !(raw.valid_model() && raw.valid_draft()) && error == DFlash2Error::Geometry
            },
        },
{
    match raw.validate_raw_config() {
        Ok(_) => {},
        Err(error) => {
            return Err(error);
        },
    }
    Ok(
        DFlash2Config {
            vocab: raw.vocab_size,
            hidden: raw.hidden_size,
            intermediate: raw.intermediate_size,
            layers: raw.num_hidden_layers,
            heads: raw.num_attention_heads,
            kv_heads: raw.num_key_value_heads,
            head_dim: raw.head_dim,
            max_seq_len: raw.max_position_embeddings,
            rms_norm_eps_bits: raw.rms_norm_eps_bits,
            rope_theta_bits: raw.rope_parameters.rope_theta_bits,
            sliding_window: raw.sliding_window,
            block_size: raw.dflash_config.block_size,
            mask_token: raw.dflash_config.mask_token_id,
            conv_group_size: raw.dflash_config.conv_group_size,
            conv_kernel_size: raw.dflash_config.conv_kernel_size,
            selector_rank: raw.dflash_config.selector_rank,
            selector_top_k: raw.dflash_config.selector_top_k,
            target_layers: raw.dflash_config.target_layer_ids,
            target_layer_count: raw.num_target_layers,
        },
    )
}

impl DFlash2Config {
    /// What a valid configuration promises of the parameters that proposals rely on.
    pub open spec fn valid(self) -> bool {
        &&& self.hidden > 0
        &&& self.sliding_window > 0
        &&& self.block_size >= 2
        &&& self.conv_group_size > 0
        &&& self.selector_rank > 0
        &&& 0 < self.selector_top_k <= self.vocab
        &&& self.mask_token < self.vocab
        &&& self.target_layers@.len() == self.layers
        &&& self.layers > 0
        &&& crate::qwen36::capture::ordered_layers(self.target_layers@)
    }

    /// Most draft tokens of one proposal.
    pub fn draft_tokens(&self) -> (tokens: usize)
        requires
            self.block_size > 0,
        ensures
            tokens == self.block_size - 1,
    {
        self.block_size - 1
    }

    /// Whether a captured layer does not exist in the target.
    pub open spec fn exceeds(self, layers: usize) -> bool {
        exists|i: int| 0 <= i < self.target_layers@.len() && #[trigger] self.target_layers@[i]
            >= layers
    }

    /// Ways in which the companion does not fit a target, in order.
    pub open spec fn mismatches(self, target: QwenModelManifest) -> Seq<TargetMismatch> {
        (if target.ffn is Dense {
            seq![]
        } else {
            seq![TargetMismatch::NotDense]
        }) + (if self.vocab == target.vocab {
            seq![]
        } else {
            seq![TargetMismatch::Vocabulary]
        }) + (if self.hidden == target.hidden {
            seq![]
        } else {
            seq![TargetMismatch::HiddenSize]
        }) + (if self.target_layer_count == target.layers {
            seq![]
        } else {
            seq![TargetMismatch::LayerCount]
        }) + (if self.exceeds(target.layers) {
            seq![TargetMismatch::TargetLayers]
        } else {
            seq![]
        })
    }

    /// Checks that the companion fits a target, and lists every way in which it does not.
    pub fn validate_target(&self, target: &QwenModelManifest) -> (result: Result<(), DFlash2Error>)
        ensures
            match result {
                Ok(_) => self.mismatches(*target).len() == 0,
                Err(error) => {
                    &&& self.mismatches(*target).len() > 0
                    &&& error matches DFlash2Error::Target(found) && found@ == self.mismatches(
                        *target,
                    )
                },
            },
    {
        let mut found: Vec<TargetMismatch> = Vec::new();
        match target.ffn {
            QwenFfnConfig::Dense => {},
            _ => {
                found.push(TargetMismatch::NotDense);
            },
        }
        if self.vocab != target.vocab {
            found.push(TargetMismatch::Vocabulary);
        }
        if self.hidden != target.hidden {
            found.push(TargetMismatch::HiddenSize);
        }
        if self.target_layer_count != target.layers {
            found.push(TargetMismatch::LayerCount);
        }
        let mut exceeds = false;
        let mut i: usize = 0;
        while i < self.target_layers.len()
            invariant
                i <= self.target_layers@.len(),
                exceeds == exists|j: int|
                    0 <= j < i && #[trigger] self.target_layers@[j] >= target.layers,
            decreases self.target_layers@.len() - i,
        {
            if self.target_layers[i] >= target.layers {
                assert(self.target_layers@[i as int] >= target.layers);
                exceeds = true;
            }
            i += 1;
        }
        if exceeds {
            found.push(TargetMismatch::TargetLayers);
        }
        assert(found@ =~= self.mismatches(*target));
        if found.len() == 0 {
            Ok(())
        } else {
            Err(DFlash2Error::Target(found))
        }
    }

    /// Width of all queries.
    pub open spec fn query_width(self) -> int {
        self.heads * self.head_dim
    }

    /// Width of all keys, or of all values.
    pub open spec fn kv_width(self) -> int {
        self.kv_heads * self.head_dim
    }

    /// Convolution groups.
    pub open spec fn groups(self) -> int {
        self.hidden as int / self.conv_group_size as int
    }

    /// Rows of a kernel projection.
    pub open spec fn kernel_rows(self) -> int {
        2 * self.conv_kernel_size * self.groups()
    }

    /// Configurations whose tensor extents are representable.
    pub open spec fn extents_fit(self) -> bool {
        &&& self.conv_group_size > 0
        &&& self.query_width() <= usize::MAX
        &&& self.kv_width() <= usize::MAX
        &&& 2 * self.conv_kernel_size <= usize::MAX
        &&& self.kernel_rows() <= usize::MAX
        &&& self.target_layers@.len() * self.hidden <= usize::MAX
    }

    /// Tensors outside the layers.
    pub open spec fn shared_tensors(self) -> Seq<(Seq<char>, Seq<usize>)> {
        let hidden = self.hidden;
        seq![
            ("candidate_selector.hidden_projection.weight"@, seq![self.selector_rank, hidden]),
            ("candidate_selector.predecessor_codebook"@, seq![self.vocab, self.selector_rank]),
            ("candidate_selector.successor_codebook"@, seq![self.vocab, self.selector_rank]),
            ("fc.weight"@, seq![hidden, (self.target_layers@.len() * hidden) as usize]),
            ("hidden_norm.weight"@, seq![hidden]),
            ("norm.weight"@, seq![hidden]),
        ]
    }

    /// Tensors of one layer.
    pub open spec fn layer_tensors(self, layer: usize) -> Seq<(Seq<char>, Seq<usize>)> {
        let hidden = self.hidden;
        let query = self.query_width() as usize;
        let kv = self.kv_width() as usize;
        let rows = self.kernel_rows() as usize;
        let taps = self.conv_kernel_size;
        seq![
            (layer_name(layer, ".attention_conv.base_kernel"@), seq![2, taps, hidden]),
            (layer_name(layer, ".attention_conv.kernel_projection.weight"@), seq![rows, hidden]),
            (layer_name(layer, ".mlp_conv.base_kernel"@), seq![2, taps, hidden]),
            (layer_name(layer, ".mlp_conv.kernel_projection.weight"@), seq![rows, hidden]),
            (layer_name(layer, ".input_layernorm.weight"@), seq![hidden]),
            (layer_name(layer, ".post_attention_layernorm.weight"@), seq![hidden]),
            (layer_name(layer, ".self_attn.q_proj.weight"@), seq![query, hidden]),
            (layer_name(layer, ".self_attn.k_proj.weight"@), seq![kv, hidden]),
            (layer_name(layer, ".self_attn.v_proj.weight"@), seq![kv, hidden]),
            (layer_name(layer, ".self_attn.o_proj.weight"@), seq![hidden, query]),
            (layer_name(layer, ".self_attn.q_norm.weight"@), seq![self.head_dim]),
            (layer_name(layer, ".self_attn.k_norm.weight"@), seq![self.head_dim]),
            (layer_name(layer, ".mlp.gate_proj.weight"@), seq![self.intermediate, hidden]),
            (layer_name(layer, ".mlp.up_proj.weight"@), seq![self.intermediate, hidden]),
            (layer_name(layer, ".mlp.down_proj.weight"@), seq![hidden, self.intermediate]),
        ]
    }

    /// Tensors of the checkpoint, with those of the first `count` layers.
    pub open spec fn tensors(self, count: nat) -> Seq<(Seq<char>, Seq<usize>)>
        decreases count,
    {
        if count == 0 {
            self.shared_tensors()
        } else {
            self.tensors((count - 1) as nat) + self.layer_tensors((count - 1) as usize)
        }
    }

    fn shared_tensor_list(&self) -> (tensors: Vec<TensorSpec>)
        requires
            self.extents_fit(),
        ensures
            crate::tensors::tensor_views(tensors@) == self.shared_tensors(),
    {
        let hidden: usize = self.hidden;
        let mut tensors: Vec<TensorSpec> = Vec::new();
        push_tensor(
            &mut tensors,
            String::from_str("candidate_selector.hidden_projection.weight"),
            matrix(self.selector_rank, hidden),
        );
        push_tensor(
            &mut tensors,
            String::from_str("candidate_selector.predecessor_codebook"),
            matrix(self.vocab, self.selector_rank),
        );
        push_tensor(
            &mut tensors,
            String::from_str("candidate_selector.successor_codebook"),
            matrix(self.vocab, self.selector_rank),
        );
        push_tensor(
            &mut tensors,
            String::from_str("fc.weight"),
            matrix(hidden, self.target_layers.len() * hidden),
        );
        push_tensor(&mut tensors, String::from_str("hidden_norm.weight"), vector(hidden));
        push_tensor(&mut tensors, String::from_str("norm.weight"), vector(hidden));
        assert(crate::tensors::tensor_views(tensors@) =~= self.shared_tensors());
        tensors
    }

    fn push_layer_tensors(&self, tensors: &mut Vec<TensorSpec>, layer: usize)
        requires
            self.extents_fit(),
        ensures
            crate::tensors::tensor_views(final(tensors)@) == crate::tensors::tensor_views(
                old(tensors)@,
            ) + self.layer_tensors(layer),
    {
        let hidden: usize = self.hidden;
        let taps: usize = self.conv_kernel_size;
        let query: usize = self.heads * self.head_dim;
        let kv: usize = self.kv_heads * self.head_dim;
        let groups: usize = hidden / self.conv_group_size;
        let rows: usize = 2 * taps * groups;
        let inner: usize = self.intermediate;
        let width: usize = self.head_dim;
        let ghost before = crate::tensors::tensor_views(tensors@);
        push_tensor(tensors, layer_text(layer, ".attention_conv.base_kernel"), cube(2, taps, hidden));
        push_tensor(
            tensors,
            layer_text(layer, ".attention_conv.kernel_projection.weight"),
            matrix(rows, hidden),
        );
        push_tensor(tensors, layer_text(layer, ".mlp_conv.base_kernel"), cube(2, taps, hidden));
        push_tensor(
            tensors,
            layer_text(layer, ".mlp_conv.kernel_projection.weight"),
            matrix(rows, hidden),
        );
        push_tensor(tensors, layer_text(layer, ".input_layernorm.weight"), vector(hidden));
        push_tensor(tensors, layer_text(layer, ".post_attention_layernorm.weight"), vector(hidden));
        push_tensor(tensors, layer_text(layer, ".self_attn.q_proj.weight"), matrix(query, hidden));
        push_tensor(tensors, layer_text(layer, ".self_attn.k_proj.weight"), matrix(kv, hidden));
        push_tensor(tensors, layer_text(layer, ".self_attn.v_proj.weight"), matrix(kv, hidden));
        push_tensor(tensors, layer_text(layer, ".self_attn.o_proj.weight"), matrix(hidden, query));
        push_tensor(tensors, layer_text(layer, ".self_attn.q_norm.weight"), vector(width));
        push_tensor(tensors, layer_text(layer, ".self_attn.k_norm.weight"), vector(width));
        push_tensor(tensors, layer_text(layer, ".mlp.gate_proj.weight"), matrix(inner, hidden));
        push_tensor(tensors, layer_text(layer, ".mlp.up_proj.weight"), matrix(inner, hidden));
        push_tensor(tensors, layer_text(layer, ".mlp.down_proj.weight"), matrix(hidden, inner));
        assert(crate::tensors::tensor_views(tensors@) =~= before + self.layer_tensors(layer));
    }

    /// Lists the tensors of the checkpoint.
    pub fn expected_tensors(&self) -> (tensors: Vec<TensorSpec>)
        requires
            self.extents_fit(),
        ensures
            crate::tensors::tensor_views(tensors@) == self.tensors(self.layers as nat),
    {
        let mut tensors: Vec<TensorSpec> = self.shared_tensor_list();
        let mut layer: usize = 0;
        while layer < self.layers
            invariant
                layer <= self.layers,
                self.extents_fit(),
                crate::tensors::tensor_views(tensors@) == self.tensors(layer as nat),
            decreases self.layers - layer,
        {
            self.push_layer_tensors(&mut tensors, layer);
            layer += 1;
        }
        tensors
    }
}

/// Checks the tensors of a checkpoint. `found` holds what the checkpoint says of each
/// expected tensor, in their order.
pub fn validate_dflash2_checkpoint(config: &DFlash2Config, found: &[TensorInfo]) -> (result: Result<
    (),
    DFlash2Error,
>)
    requires
        config.extents_fit(),
        found@.len() == config.tensors(config.layers as nat).len(),
    ensures
        ({
            let expected = config.tensors(config.layers as nat);
            match result {
                Ok(_) => forall|i: int|
                    0 <= i < found@.len() ==> (#[trigger] found@[i]).is_bf16(expected[i].1),
                Err(error) => {
                    &&& error matches DFlash2Error::Tensor(index) && index < found@.len()
                        && !found@[index as int].is_bf16(expected[index as int].1) && forall|
                        i: int,
                    |
                        0 <= i < index ==> (#[trigger] found@[i]).is_bf16(expected[i].1)
                },
            }
        }),
{
    let tensors = config.expected_tensors();
    let ghost expected = config.tensors(config.layers as nat);
    assert(tensors@.len() == crate::tensors::tensor_views(tensors@).len());
    let mut i: usize = 0;
    while i < tensors.len()
        invariant
            i <= tensors@.len(),
            tensors@.len() == found@.len(),
            expected == config.tensors(config.layers as nat),
            crate::tensors::tensor_views(tensors@) == expected,
            forall|j: int| 0 <= j < i ==> (#[trigger] found@[j]).is_bf16(expected[j].1),
        decreases tensors@.len() - i,
    {
        assert(crate::tensors::tensor_views(tensors@)[i as int] == tensors@[i as int]@);
        if !found[i].check_bf16(tensors[i].shape.as_slice()) {
            return Err(DFlash2Error::Tensor(i));
        }
        i += 1;
    }
    Ok(())
}

/// Name of a tensor of one layer.
pub open spec fn layer_name(layer: usize, suffix: Seq<char>) -> Seq<char> {
    crate::tensors::numbered("layers."@, layer, suffix)
}

fn layer_text(layer: usize, suffix: &str) -> (name: String)
    ensures
        name@ == layer_name(layer, suffix@),
{
    numbered_name("layers.", layer, suffix)
}

/// A configuration that passed the checks promises what proposals rely on.
pub proof fn law_checked_config_is_valid(raw: RawConfig, config: DFlash2Config)
    requires
        raw.right_kind(),
        raw.valid_model(),
        raw.valid_draft(),
        raw.matches_config(config),
    ensures
        config.valid(),
{
}

/// A checkpoint holds six tensors and fifteen for each layer.
pub proof fn law_tensor_count(config: DFlash2Config, count: nat)
    ensures
        config.tensors(count).len() == 6 + 15 * count,
    decreases count,
{
    if count > 0 {
        law_tensor_count(config, (count - 1) as nat);
    }
}

/// A companion fits a target exactly where the target is dense, vocabulary, width and number of
/// layers agree, and every captured layer exists; each way in which it does not is reported.
pub proof fn law_companion_fits_where_everything_agrees(
    config: DFlash2Config,
    target: QwenModelManifest,
)
    ensures
        ({
            let found = config.mismatches(target);
            let captured = forall|i: int|
                0 <= i < config.target_layers@.len() ==> #[trigger] config.target_layers@[i]
                    < target.layers;
            &&& found.len() == 0 <==> target.ffn is Dense && config.vocab == target.vocab
                && config.hidden == target.hidden && config.target_layer_count == target.layers
                && captured
            &&& !(target.ffn is Dense) ==> found.contains(TargetMismatch::NotDense)
            &&& config.vocab != target.vocab ==> found.contains(TargetMismatch::Vocabulary)
            &&& config.hidden != target.hidden ==> found.contains(TargetMismatch::HiddenSize)
            &&& config.target_layer_count != target.layers ==> found.contains(
                TargetMismatch::LayerCount,
            )
            &&& !captured ==> found.contains(TargetMismatch::TargetLayers)
        }),
{
    let found = config.mismatches(target);
    let dense: int = if target.ffn is Dense { 0 } else { 1 };
    let vocab: int = dense + if config.vocab == target.vocab { 0int } else { 1int };
    let hidden: int = vocab + if config.hidden == target.hidden { 0int } else { 1int };
    let layers: int = hidden + if config.target_layer_count == target.layers { 0int } else { 1int };
    if !(target.ffn is Dense) {
        assert(found[0] == TargetMismatch::NotDense);
    }
    if config.vocab != target.vocab {
        assert(found[dense] == TargetMismatch::Vocabulary);
    }
    if config.hidden != target.hidden {
        assert(found[vocab] == TargetMismatch::HiddenSize);
    }
    if config.target_layer_count != target.layers {
        assert(found[hidden] == TargetMismatch::LayerCount);
    }
    if config.exceeds(target.layers) {
        assert(found[layers] == TargetMismatch::TargetLayers);
    }
}

} // verus!
