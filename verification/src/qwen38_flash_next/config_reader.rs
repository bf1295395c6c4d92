//! Reading the Qwen3.8 Flash Next configuration out of a checkpoint's JSON.

use crate::json::{
    get_field, parse_json, read_texts, read_unsigned, required_array, required_f64, required_str,
    required_usize,
};
use crate::qwen38_flash_next::config::{Qwen38FlashNextConfig, Qwen38LayerType};
use crate::text::same_text;
use vstd::prelude::*;

verus! {

/// Why a configuration is refused.
#[derive(Clone, Copy, Debug, PartialEq, Eq)]
pub enum ConfigError {
    /// The bytes are no JSON text.
    Json,
    /// A whole number is missing.
    MissingUnsigned(&'static str),
    /// A finite number is missing.
    MissingFinite(&'static str),
    /// A text is missing.
    MissingString(&'static str),
    /// An array is missing.
    MissingArray(&'static str),
    /// The model type is another one.
    ModelType,
    /// There is no text configuration.
    MissingTextConfig,
    /// The text model type is another one.
    TextModelType,
    /// A layer's attention type is unknown.
    LayerType { index: usize },
    /// The layer schedule has another length than the layer count.
    LayerCount { expected: usize, actual: usize },
    /// There is not exactly one embedding layer.
    PleLayers { count: usize },
    /// The embedding layer is no whole number.
    PleLayerNotUnsigned,
    /// The one-based embedding layer is zero.
    PleLayerZero,
    /// The output gate is another one.
    OutputGate,
    /// The end token does not fit thirty-two bits.
    EosToken { token: usize },
    /// There are no rotary parameters.
    MissingRope,
}

/// Number of sizes that are read after everything else.
pub const SIZE_COUNT: usize = 27;

/// Name of a size.
pub open spec fn size_name(index: int) -> &'static str {
    if index == 0 {
        "vocab_size"
    } else if index == 1 {
        "num_key_value_heads"
    } else if index == 2 {
        "linear_num_key_heads"
    } else if index == 3 {
        "linear_num_value_heads"
    } else if index == 4 {
        "linear_key_head_dim"
    } else if index == 5 {
        "linear_value_head_dim"
    } else if index == 6 {
        "linear_conv_kernel_dim"
    } else if index == 7 {
        "num_experts"
    } else if index == 8 {
        "num_experts_per_tok"
    } else if index == 9 {
        "moe_intermediate_size"
    } else if index == 10 {
        "shared_expert_intermediate_size"
    } else if index == 11 {
        "hc_count"
    } else if index == 12 {
        "hc_lowrank"
    } else if index == 13 {
        "ple_embed_dim"
    } else if index == 14 {
        "ple_conv_kernel_size"
    } else if index == 15 {
        "ngram_size"
    } else if index == 16 {
        "heads_per_ngram"
    } else if index == 17 {
        "split_ngram_parts"
    } else if index == 18 {
        "ngram_vocab_size_base"
    } else if index == 19 {
        "make_ngram_vocab_size_divisible_by"
    } else if index == 20 {
        "indexer_n_heads"
    } else if index == 21 {
        "indexer_kv_heads"
    } else if index == 22 {
        "indexer_head_dim"
    } else if index == 23 {
        "indexer_compress_ratio"
    } else if index == 24 {
        "indexer_budget"
    } else if index == 25 {
        "max_position_embeddings"
    } else {
        "mtp_num_hidden_layers"
    }
}

/// Name of a size.
fn name_of_size(index: usize) -> (name: &'static str)
    ensures
        name == size_name(index as int),
{
    if index == 0 {
        "vocab_size"
    } else if index == 1 {
        "num_key_value_heads"
    } else if index == 2 {
        "linear_num_key_heads"
    } else if index == 3 {
        "linear_num_value_heads"
    } else if index == 4 {
        "linear_key_head_dim"
    } else if index == 5 {
        "linear_value_head_dim"
    } else if index == 6 {
        "linear_conv_kernel_dim"
    } else if index == 7 {
        "num_experts"
    } else if index == 8 {
        "num_experts_per_tok"
    } else if index == 9 {
        "moe_intermediate_size"
    } else if index == 10 {
        "shared_expert_intermediate_size"
    } else if index == 11 {
        "hc_count"
    } else if index == 12 {
        "hc_lowrank"
    } else if index == 13 {
        "ple_embed_dim"
    } else if index == 14 {
        "ple_conv_kernel_size"
    } else if index == 15 {
        "ngram_size"
    } else if index == 16 {
        "heads_per_ngram"
    } else if index == 17 {
        "split_ngram_parts"
    } else if index == 18 {
        "ngram_vocab_size_base"
    } else if index == 19 {
        "make_ngram_vocab_size_divisible_by"
    } else if index == 20 {
        "indexer_n_heads"
    } else if index == 21 {
        "indexer_kv_heads"
    } else if index == 22 {
        "indexer_head_dim"
    } else if index == 23 {
        "indexer_compress_ratio"
    } else if index == 24 {
        "indexer_budget"
    } else if index == 25 {
        "max_position_embeddings"
    } else {
        "mtp_num_hidden_layers"
    }
}

/// The text part of a configuration as it is found, before anything is checked. Nothing stands
/// for a value that is absent or of another type.
pub struct TextFields {
    /// Type of the text model.
    pub model_type: Option<String>,
    /// Width of a residual stream.
    pub hidden_size: Option<usize>,
    /// Query heads.
    pub num_attention_heads: Option<usize>,
    /// Width of a head.
    pub head_dim: Option<usize>,
    /// Bits of the rotated fraction of a head.
    pub partial_rotary_factor: Option<u64>,
    /// Attention types by layer.
    pub layer_types: Option<Vec<Option<String>>>,
    /// Number of layers.
    pub num_hidden_layers: Option<usize>,
    /// One-based layers with token embeddings.
    pub ple_layer_ids: Option<Vec<Option<u64>>>,
    /// Type of the output gate.
    pub output_gate_type: Option<String>,
    /// End token.
    pub eos_token_id: Option<usize>,
    /// Bits of the normalisation constant.
    pub rms_norm_eps: Option<u64>,
    /// Bits of the rotary base, where there are rotary parameters at all.
    pub rope_theta: Option<Option<u64>>,
    /// The sizes, in the order of their names.
    pub sizes: Vec<Option<usize>>,
}

/// A configuration as it is found, before anything is checked.
pub struct FlashNextFields {
    /// Type of the model.
    pub model_type: Option<String>,
    /// The text part, where there is one.
    pub text: Option<TextFields>,
}

/// Text as it is seen.
pub open spec fn text_option(text: Option<String>) -> Option<Seq<char>> {
    match text {
        Some(text) => Some(text@),
        None => None,
    }
}

/// Whether the fields of a text part are those that a value holds.
pub open spec fn text_fields_of(fields: TextFields, view: crate::json::JsonView) -> bool {
    &&& text_option(fields.model_type) == crate::json::field_text(view, "model_type"@)
    &&& fields.hidden_size == crate::json::field_usize(view, "hidden_size"@)
    &&& fields.num_attention_heads == crate::json::field_usize(view, "num_attention_heads"@)
    &&& fields.head_dim == crate::json::field_usize(view, "head_dim"@)
    &&& fields.partial_rotary_factor == crate::json::field_double(view, "partial_rotary_factor"@)
    &&& match fields.layer_types {
        Some(texts) => match crate::json::field_array(view, "layer_types"@) {
            Some(items) => crate::json::text_options(texts@) == crate::json::texts_of(items),
            None => false,
        },
        None => crate::json::field_array(view, "layer_types"@) is None,
    }
    &&& fields.num_hidden_layers == crate::json::field_usize(view, "num_hidden_layers"@)
    &&& match fields.ple_layer_ids {
        Some(numbers) => match crate::json::field_array(view, "ple_layer_ids"@) {
            Some(items) => numbers@ == crate::json::unsigned_of(items),
            None => false,
        },
        None => crate::json::field_array(view, "ple_layer_ids"@) is None,
    }
    &&& text_option(fields.output_gate_type) == crate::json::field_text(view, "output_gate_type"@)
    &&& fields.eos_token_id == crate::json::field_usize(view, "eos_token_id"@)
    &&& fields.rms_norm_eps == crate::json::field_double(view, "rms_norm_eps"@)
    &&& match crate::json::field_view(view, "rope_parameters"@) {
        Some(rope) => fields.rope_theta == Some(crate::json::field_double(rope, "rope_theta"@)),
        None => fields.rope_theta is None,
    }
    &&& fields.sizes@ == Seq::new(
        SIZE_COUNT as nat,
        |i: int| crate::json::field_usize(view, size_name(i)@),
    )
}

/// Whether fields are those that a value holds.
pub open spec fn fields_of(fields: FlashNextFields, view: crate::json::JsonView) -> bool {
    &&& text_option(fields.model_type) == crate::json::field_text(view, "model_type"@)
    &&& match crate::json::field_view(view, "text_config"@) {
        Some(text) => match fields.text {
            Some(found) => text_fields_of(found, text),
            None => false,
        },
        None => fields.text is None,
    }
}

fn read_sizes(text: &serde_json::Value) -> (sizes: Vec<Option<usize>>)
    ensures
        sizes@ == Seq::new(
            SIZE_COUNT as nat,
            |i: int| crate::json::field_usize(crate::json::json_view(*text), size_name(i)@),
        ),
{
    let mut sizes: Vec<Option<usize>> = Vec::new();
    let mut i: usize = 0;
    while i < SIZE_COUNT
        invariant
            i <= SIZE_COUNT,
            sizes@.len() == i,
            forall|j: int|
                0 <= j < i ==> #[trigger] sizes@[j] == crate::json::field_usize(
                    crate::json::json_view(*text),
                    size_name(j)@,
                ),
        decreases SIZE_COUNT - i,
    {
        sizes.push(required_usize(text, name_of_size(i)));
        i += 1;
    }
    sizes
}

fn read_text_fields(text: &serde_json::Value) -> (fields: TextFields)
    ensures
        text_fields_of(fields, crate::json::json_view(*text)),
{
    let layer_types = match required_array(text, "layer_types") {
        Some(items) => Some(read_texts(items)),
        None => None,
    };
    let ple_layer_ids = match required_array(text, "ple_layer_ids") {
        Some(items) => Some(read_unsigned(items)),
        None => None,
    };
    let rope_theta = match get_field(text, "rope_parameters") {
        Some(rope) => Some(required_f64(rope, "rope_theta")),
        None => None,
    };
    TextFields {
        model_type: required_str(text, "model_type"),
        hidden_size: required_usize(text, "hidden_size"),
        num_attention_heads: required_usize(text, "num_attention_heads"),
        head_dim: required_usize(text, "head_dim"),
        partial_rotary_factor: required_f64(text, "partial_rotary_factor"),
        layer_types,
        num_hidden_layers: required_usize(text, "num_hidden_layers"),
        ple_layer_ids,
        output_gate_type: required_str(text, "output_gate_type"),
        eos_token_id: required_usize(text, "eos_token_id"),
        rms_norm_eps: required_f64(text, "rms_norm_eps"),
        rope_theta,
        sizes: read_sizes(text),
    }
}

/// Reads the fields of a configuration.
pub fn read_fields(root: &serde_json::Value) -> (fields: FlashNextFields)
    ensures
        fields_of(fields, crate::json::json_view(*root)),
{
    let text = match get_field(root, "text_config") {
        Some(text) => Some(read_text_fields(text)),
        None => None,
    };
    FlashNextFields { model_type: required_str(root, "model_type"), text }
}

/// Attention type that a text names.
pub open spec fn layer_type_of(text: Option<Seq<char>>) -> Option<Qwen38LayerType> {
    if text == Some("linear_attention"@) {
        Some(Qwen38LayerType::LinearAttention)
    } else if text == Some("full_attention"@) {
        Some(Qwen38LayerType::FullAttention)
    } else {
        None
    }
}

/// First layer from `index` on whose attention type is unknown.
pub open spec fn unknown_layer(texts: Seq<Option<Seq<char>>>, index: int) -> Option<int>
    decreases texts.len() - index,
{
    if index < 0 || index >= texts.len() {
        None
    } else if layer_type_of(texts[index]) is None {
        Some(index)
    } else {
        unknown_layer(texts, index + 1)
    }
}

/// First size from `index` on that is missing.
pub open spec fn missing_size(sizes: Seq<Option<usize>>, index: int) -> Option<int>
    decreases sizes.len() - index,
{
    if index < 0 || index >= sizes.len() {
        None
    } else if sizes[index] is None {
        Some(index)
    } else {
        missing_size(sizes, index + 1)
    }
}

/// What is wrong with a layer schedule, if anything.
pub open spec fn schedule_obstacle(text: TextFields) -> Option<ConfigError> {
    let texts = crate::json::text_options(text.layer_types->0@);
    if text.layer_types is None {
        Some(ConfigError::MissingArray("layer_types"))
    } else if unknown_layer(texts, 0) is Some {
        Some(ConfigError::LayerType { index: unknown_layer(texts, 0)->0 as usize })
    } else if text.num_hidden_layers is None {
        Some(ConfigError::MissingUnsigned("num_hidden_layers"))
    } else if texts.len() != text.num_hidden_layers->0 {
        Some(
            ConfigError::LayerCount {
                expected: text.num_hidden_layers->0,
                actual: texts.len() as usize,
            },
        )
    } else {
        None
    }
}

/// What is wrong with the embedding layer, if anything.
pub open spec fn ple_obstacle(text: TextFields) -> Option<ConfigError> {
    let ids = text.ple_layer_ids->0@;
    if text.ple_layer_ids is None {
        Some(ConfigError::MissingArray("ple_layer_ids"))
    } else if ids.len() != 1 {
        Some(ConfigError::PleLayers { count: ids.len() as usize })
    } else if ids[0] is None {
        Some(ConfigError::PleLayerNotUnsigned)
    } else if ids[0]->0 as usize == 0 {
        Some(ConfigError::PleLayerZero)
    } else {
        None
    }
}

/// What is wrong with the output gating, the end token and the numbers after them, if anything.
pub open spec fn tail_obstacle(text: TextFields) -> Option<ConfigError> {
    if text.output_gate_type is None {
        Some(ConfigError::MissingString("output_gate_type"))
    } else if text.output_gate_type->0@ != "sigmoid"@ {
        Some(ConfigError::OutputGate)
    } else if text.eos_token_id is None {
        Some(ConfigError::MissingUnsigned("eos_token_id"))
    } else if text.eos_token_id->0 > u32::MAX {
        Some(ConfigError::EosToken { token: text.eos_token_id->0 })
    } else if text.rms_norm_eps is None {
        Some(ConfigError::MissingFinite("rms_norm_eps"))
    } else if text.rope_theta is None {
        Some(ConfigError::MissingRope)
    } else if text.rope_theta->0 is None {
        Some(ConfigError::MissingFinite("rope_theta"))
    } else if missing_size(text.sizes@, 0) is Some {
        Some(ConfigError::MissingUnsigned(size_name(missing_size(text.sizes@, 0)->0)))
    } else {
        None
    }
}

/// What is wrong with a text part, if anything: the first of the checks that fails.
pub open spec fn text_obstacle(text: TextFields) -> Option<ConfigError> {
    if text.model_type is None {
        Some(ConfigError::MissingString("model_type"))
    } else if text.model_type->0@ != "qwen3_8_flash_next_text"@ {
        Some(ConfigError::TextModelType)
    } else if text.hidden_size is None {
        Some(ConfigError::MissingUnsigned("hidden_size"))
    } else if text.num_attention_heads is None {
        Some(ConfigError::MissingUnsigned("num_attention_heads"))
    } else if text.head_dim is None {
        Some(ConfigError::MissingUnsigned("head_dim"))
    } else if text.partial_rotary_factor is None {
        Some(ConfigError::MissingFinite("partial_rotary_factor"))
    } else if schedule_obstacle(text) is Some {
        schedule_obstacle(text)
    } else if ple_obstacle(text) is Some {
        ple_obstacle(text)
    } else {
        tail_obstacle(text)
    }
}

/// What is wrong with a configuration, if anything: the first of the checks that fails.
pub open spec fn config_obstacle(fields: FlashNextFields) -> Option<ConfigError> {
    if fields.model_type is None {
        Some(ConfigError::MissingString("model_type"))
    } else if fields.model_type->0@ != "qwen3_8_flash_next"@ {
        Some(ConfigError::ModelType)
    } else if fields.text is None {
        Some(ConfigError::MissingTextConfig)
    } else {
        text_obstacle(fields.text->0)
    }
}

/// A configuration whose rounded numbers are still to be filled in.
pub struct UnroundedConfig {
    /// The configuration. Its rotary width, normalisation constant and rotary base are zero.
    pub config: Qwen38FlashNextConfig,
    /// Bits of the double-precision rotated fraction of a head.
    pub partial_rotary_bits: u64,
    /// Bits of the double-precision normalisation constant.
    pub rms_eps_bits: u64,
    /// Bits of the double-precision rotary base.
    pub rope_theta_bits: u64,
}

/// Whether a configuration holds what a text part says.
pub open spec fn config_of(text: TextFields, found: UnroundedConfig) -> bool {
    let config = found.config;
    &&& config.hidden == text.hidden_size->0
    &&& config.layers == text.num_hidden_layers->0
    &&& config.layer_types@ == crate::json::text_options(text.layer_types->0@).map_values(
        |name: Option<Seq<char>>| layer_type_of(name)->0,
    )
    &&& config.q_heads == text.num_attention_heads->0
    &&& config.head_dim == text.head_dim->0
    &&& config.ple_layer == (text.ple_layer_ids->0@[0]->0 as usize) - 1
    &&& config.eos_token_id == text.eos_token_id->0
    &&& config.rotary_dim == 0
    &&& config.rms_eps_bits == 0
    &&& config.rope_theta_bits == 0
    &&& found.partial_rotary_bits == text.partial_rotary_factor->0
    &&& found.rms_eps_bits == text.rms_norm_eps->0
    &&& found.rope_theta_bits == text.rope_theta->0->0
    &&& sizes_of(text, config)
}

/// Whether a configuration holds the sizes of a text part.
pub open spec fn sizes_of(text: TextFields, config: Qwen38FlashNextConfig) -> bool {
    &&& config.vocab == text.sizes@[0]->0
    &&& config.kv_heads == text.sizes@[1]->0
    &&& config.linear_key_heads == text.sizes@[2]->0
    &&& config.linear_value_heads == text.sizes@[3]->0
    &&& config.linear_key_head_dim == text.sizes@[4]->0
    &&& config.linear_value_head_dim == text.sizes@[5]->0
    &&& config.linear_conv_kernel == text.sizes@[6]->0
    &&& config.experts == text.sizes@[7]->0
    &&& config.experts_per_token == text.sizes@[8]->0
    &&& config.expert_intermediate == text.sizes@[9]->0
    &&& config.shared_expert_intermediate == text.sizes@[10]->0
    &&& config.hc_count == text.sizes@[11]->0
    &&& config.hc_lowrank == text.sizes@[12]->0
    &&& config.ple_embedding_dim == text.sizes@[13]->0
    &&& config.ple_conv_kernel == text.sizes@[14]->0
    &&& config.ngram_size == text.sizes@[15]->0
    &&& config.heads_per_ngram == text.sizes@[16]->0
    &&& config.ngram_shards == text.sizes@[17]->0
    &&& config.ngram_vocab_base == text.sizes@[18]->0
    &&& config.ngram_vocab_alignment == text.sizes@[19]->0
    &&& config.indexer_heads == text.sizes@[20]->0
    &&& config.indexer_kv_heads == text.sizes@[21]->0
    &&& config.indexer_head_dim == text.sizes@[22]->0
    &&& config.indexer_compress_ratio == text.sizes@[23]->0
    &&& config.indexer_budget == text.sizes@[24]->0
    &&& config.max_position_embeddings == text.sizes@[25]->0
    &&& config.mtp_layers == text.sizes@[26]->0
}

fn layer_type(text: &Option<String>) -> (kind: Option<Qwen38LayerType>)
    ensures
        kind == layer_type_of(text_option(*text)),
{
    match text {
        Some(text) => {
            if same_text(text.as_str(), "linear_attention") {
                Some(Qwen38LayerType::LinearAttention)
            } else if same_text(text.as_str(), "full_attention") {
                Some(Qwen38LayerType::FullAttention)
            } else {
                None
            }
        },
        None => None,
    }
}

fn layer_schedule(texts: &Vec<Option<String>>) -> (result: Result<Vec<Qwen38LayerType>, usize>)
    ensures
        match result {
            Ok(kinds) => {
                &&& unknown_layer(crate::json::text_options(texts@), 0) is None
                &&& kinds@ == crate::json::text_options(texts@).map_values(
                    |name: Option<Seq<char>>| layer_type_of(name)->0,
                )
            },
            Err(index) => unknown_layer(crate::json::text_options(texts@), 0) == Some(
                index as int,
            ),
        },
{
    let ghost names = crate::json::text_options(texts@);
    let mut kinds: Vec<Qwen38LayerType> = Vec::new();
    let mut i: usize = 0;
    while i < texts.len()
        invariant
            i <= texts@.len(),
            names == crate::json::text_options(texts@),
            names.len() == texts@.len(),
            kinds@.len() == i,
            unknown_layer(names, 0) == unknown_layer(names, i as int),
            forall|j: int| 0 <= j < i ==> #[trigger] kinds@[j] == layer_type_of(names[j])->0,
        decreases texts@.len() - i,
    {
        assert(names[i as int] == text_option(texts@[i as int]));
        match layer_type(&texts[i]) {
            Some(kind) => {
                kinds.push(kind);
            },
            None => {
                return Err(i);
            },
        }
        i += 1;
    }
    assert(kinds@ =~= names.map_values(|name: Option<Seq<char>>| layer_type_of(name)->0));
    Ok(kinds)
}

fn first_missing(sizes: &Vec<Option<usize>>) -> (index: Option<usize>)
    ensures
        match index {
            Some(index) => index < sizes@.len() && missing_size(sizes@, 0) == Some(index as int),
            None => {
                &&& missing_size(sizes@, 0) is None
                &&& forall|j: int| 0 <= j < sizes@.len() ==> #[trigger] sizes@[j] is Some
            },
        },
{
    let mut i: usize = 0;
    while i < sizes.len()
        invariant
            i <= sizes@.len(),
            missing_size(sizes@, 0) == missing_size(sizes@, i as int),
            forall|j: int| 0 <= j < i ==> #[trigger] sizes@[j] is Some,
        decreases sizes@.len() - i,
    {
        if sizes[i].is_none() {
            return Some(i);
        }
        i += 1;
    }
    None
}

fn size_at(sizes: &Vec<Option<usize>>, index: usize) -> (size: usize)
    requires
        index < sizes@.len(),
        sizes@[index as int] is Some,
    ensures
        size == sizes@[index as int]->0,
{
    match sizes[index] {
        Some(size) => size,
        None => 0,
    }
}

fn check_ple(text: &TextFields) -> (result: Result<usize, ConfigError>)
    ensures
        match result {
            Ok(layer) => {
                &&& ple_obstacle(*text) is None
                &&& layer == (text.ple_layer_ids->0@[0]->0 as usize) - 1
            },
            Err(error) => ple_obstacle(*text) == Some(error),
        },
{
    match &text.ple_layer_ids {
        None => Err(ConfigError::MissingArray("ple_layer_ids")),
        Some(ids) => {
            if ids.len() != 1 {
                return Err(ConfigError::PleLayers { count: ids.len() });
            }
            match ids[0] {
                None => Err(ConfigError::PleLayerNotUnsigned),
                Some(id) => {
                    let one_based: usize = #[verifier::truncate] (id as usize);
                    if one_based == 0 {
                        Err(ConfigError::PleLayerZero)
                    } else {
                        Ok(one_based - 1)
                    }
                },
            }
        },
    }
}

fn check_schedule(text: &TextFields) -> (result: Result<
    (Vec<Qwen38LayerType>, usize),
    ConfigError,
>)
    ensures
        match result {
            Ok((kinds, layers)) => {
                &&& schedule_obstacle(*text) is None
                &&& kinds@ == crate::json::text_options(text.layer_types->0@).map_values(
                    |name: Option<Seq<char>>| layer_type_of(name)->0,
                )
                &&& layers == text.num_hidden_layers->0
            },
            Err(error) => schedule_obstacle(*text) == Some(error),
        },
{
    match &text.layer_types {
        None => Err(ConfigError::MissingArray("layer_types")),
        Some(texts) => match layer_schedule(texts) {
            Err(index) => Err(ConfigError::LayerType { index }),
            Ok(kinds) => match text.num_hidden_layers {
                None => Err(ConfigError::MissingUnsigned("num_hidden_layers")),
                Some(layers) => {
                    if kinds.len() != layers {
                        Err(ConfigError::LayerCount { expected: layers, actual: kinds.len() })
                    } else {
                        Ok((kinds, layers))
                    }
                },
            },
        },
    }
}

fn check_tail(text: &TextFields) -> (result: Result<(u32, u64, u64), ConfigError>)
    requires
        text.sizes@.len() == SIZE_COUNT,
    ensures
        match result {
            Ok((eos, eps, theta)) => {
                &&& tail_obstacle(*text) is None
                &&& eos == text.eos_token_id->0
                &&& eps == text.rms_norm_eps->0
                &&& theta == text.rope_theta->0->0
                &&& forall|j: int| 0 <= j < SIZE_COUNT ==> #[trigger] text.sizes@[j] is Some
            },
            Err(error) => tail_obstacle(*text) == Some(error),
        },
{
    match &text.output_gate_type {
        None => return Err(ConfigError::MissingString("output_gate_type")),
        Some(gate) => {
            if !same_text(gate.as_str(), "sigmoid") {
                return Err(ConfigError::OutputGate);
            }
        },
    }
    let eos: usize = match text.eos_token_id {
        None => return Err(ConfigError::MissingUnsigned("eos_token_id")),
        Some(eos) => eos,
    };
    if eos > u32::MAX as usize {
        return Err(ConfigError::EosToken { token: eos });
    }
    let eps: u64 = match text.rms_norm_eps {
        None => return Err(ConfigError::MissingFinite("rms_norm_eps")),
        Some(eps) => eps,
    };
    let theta: u64 = match text.rope_theta {
        None => return Err(ConfigError::MissingRope),
        Some(None) => return Err(ConfigError::MissingFinite("rope_theta")),
        Some(Some(theta)) => theta,
    };
    match first_missing(&text.sizes) {
        Some(index) => Err(ConfigError::MissingUnsigned(name_of_size(index))),
        None => Ok((eos as u32, eps, theta)),
    }
}

impl Qwen38FlashNextConfig {
    /// Checks the fields of a configuration, and takes over what they hold.
    pub fn from_fields(fields: &FlashNextFields) -> (result: Result<UnroundedConfig, ConfigError>)
        requires
            fields.text is Some ==> fields.text->0.sizes@.len() == SIZE_COUNT,
        ensures
            match result {
                Ok(found) => {
                    &&& config_obstacle(*fields) is None
                    &&& config_of(fields.text->0, found)
                },
                Err(error) => config_obstacle(*fields) == Some(error),
            },
    {
        match &fields.model_type {
            None => return Err(ConfigError::MissingString("model_type")),
            Some(model_type) => {
                if !same_text(model_type.as_str(), "qwen3_8_flash_next") {
                    return Err(ConfigError::ModelType);
                }
            },
        }
        let text = match &fields.text {
            None => return Err(ConfigError::MissingTextConfig),
            Some(text) => text,
        };
        match &text.model_type {
            None => return Err(ConfigError::MissingString("model_type")),
            Some(model_type) => {
                if !same_text(model_type.as_str(), "qwen3_8_flash_next_text") {
                    return Err(ConfigError::TextModelType);
                }
            },
        }
        let hidden: usize = match text.hidden_size {
            None => return Err(ConfigError::MissingUnsigned("hidden_size")),
            Some(hidden) => hidden,
        };
        let q_heads: usize = match text.num_attention_heads {
            None => return Err(ConfigError::MissingUnsigned("num_attention_heads")),
            Some(q_heads) => q_heads,
        };
        let head_dim: usize = match text.head_dim {
            None => return Err(ConfigError::MissingUnsigned("head_dim")),
            Some(head_dim) => head_dim,
        };
        let partial_rotary_bits: u64 = match text.partial_rotary_factor {
            None => return Err(ConfigError::MissingFinite("partial_rotary_factor")),
            Some(bits) => bits,
        };
        let (layer_types, layers) = match check_schedule(text) {
            Err(error) => return Err(error),
            Ok(schedule) => schedule,
        };
        let ple_layer: usize = match check_ple(text) {
            Err(error) => return Err(error),
            Ok(layer) => layer,
        };
        let (eos_token_id, rms_eps_bits, rope_theta_bits) = match check_tail(text) {
            Err(error) => return Err(error),
            Ok(tail) => tail,
        };
        let sizes = &text.sizes;
        let config = Qwen38FlashNextConfig {
            hidden,
            layers,
            layer_types,
            q_heads,
            head_dim,
            rotary_dim: 0,
            ple_layer,
            eos_token_id,
            rms_eps_bits: 0,
            rope_theta_bits: 0,
            vocab: size_at(sizes, 0),
            kv_heads: size_at(sizes, 1),
            linear_key_heads: size_at(sizes, 2),
            linear_value_heads: size_at(sizes, 3),
            linear_key_head_dim: size_at(sizes, 4),
            linear_value_head_dim: size_at(sizes, 5),
            linear_conv_kernel: size_at(sizes, 6),
            experts: size_at(sizes, 7),
            experts_per_token: size_at(sizes, 8),
            expert_intermediate: size_at(sizes, 9),
            shared_expert_intermediate: size_at(sizes, 10),
            hc_count: size_at(sizes, 11),
            hc_lowrank: size_at(sizes, 12),
            ple_embedding_dim: size_at(sizes, 13),
            ple_conv_kernel: size_at(sizes, 14),
            ngram_size: size_at(sizes, 15),
            heads_per_ngram: size_at(sizes, 16),
            ngram_shards: size_at(sizes, 17),
            ngram_vocab_base: size_at(sizes, 18),
            ngram_vocab_alignment: size_at(sizes, 19),
            indexer_heads: size_at(sizes, 20),
            indexer_kv_heads: size_at(sizes, 21),
            indexer_head_dim: size_at(sizes, 22),
            indexer_compress_ratio: size_at(sizes, 23),
            indexer_budget: size_at(sizes, 24),
            max_position_embeddings: size_at(sizes, 25),
            mtp_layers: size_at(sizes, 26),
        };
        Ok(UnroundedConfig { config, partial_rotary_bits, rms_eps_bits, rope_theta_bits })
    }

    /// Reads and checks a parsed configuration.
    pub fn from_value(root: &serde_json::Value) -> (result: Result<UnroundedConfig, ConfigError>)
        ensures
            exists|fields: FlashNextFields| #[trigger]
                fields_of(fields, crate::json::json_view(*root)) && match result {
                    Ok(found) => config_obstacle(fields) is None && config_of(
                        fields.text->0,
                        found,
                    ),
                    Err(error) => config_obstacle(fields) == Some(error),
                },
    {
        let fields = read_fields(root);
        Self::from_fields(&fields)
    }

    /// Reads and checks the bytes of a configuration file.
    pub fn load(bytes: &[u8]) -> (result: Result<UnroundedConfig, ConfigError>)
        ensures
            match crate::json::parsed_json(bytes@) {
                None => result == Err::<UnroundedConfig, ConfigError>(ConfigError::Json),
                Some(view) => exists|fields: FlashNextFields| #[trigger]
                    fields_of(fields, view) && match result {
                        Ok(found) => config_obstacle(fields) is None && config_of(
                            fields.text->0,
                            found,
                        ),
                        Err(error) => config_obstacle(fields) == Some(error),
                    },
            },
    {
        match parse_json(bytes) {
            Ok(root) => Self::from_value(&root),
            Err(_) => Err(ConfigError::Json),
        }
    }
}

impl UnroundedConfig {
    /// Fills in the numbers that are rounded from the double-precision ones.
    pub fn rounded(self, rotary_dim: usize, rms_eps_bits: u32, rope_theta_bits: u32) -> (config:
        Qwen38FlashNextConfig)
        ensures
            config == (Qwen38FlashNextConfig {
                rotary_dim,
                rms_eps_bits,
                rope_theta_bits,
                ..self.config
            }),
    {
        let mut config = self.config;
        config.rotary_dim = rotary_dim;
        config.rms_eps_bits = rms_eps_bits;
        config.rope_theta_bits = rope_theta_bits;
        config
    }
}

/// An accepted configuration names the attention type of every layer.
pub proof fn law_accepted_schedule_is_complete(fields: FlashNextFields, found: UnroundedConfig)
    requires
        config_obstacle(fields) is None,
        config_of(fields.text->0, found),
    ensures
        found.config.layer_types@.len() == found.config.layers,
{
}

} // verus!
