//! Every part of a configuration is read under its own name.

use crate::qwen38_flash_next::config::{Qwen38FlashNextConfig, Qwen38LayerType};
use crate::qwen38_flash_next::config_reader::{FlashNextFields, TextFields, UnroundedConfig};
use vstd::prelude::*;

verus! {

proof fn lemma_sizes_are_there(sizes: Seq<Option<usize>>, from: int)
    requires
        0 <= from,
        crate::qwen38_flash_next::config_reader::missing_size(sizes, from) is None,
    ensures
        forall|i: int| from <= i < sizes.len() ==> (#[trigger] sizes[i]) is Some,
    decreases sizes.len() - from,
{
    if from < sizes.len() {
        lemma_sizes_are_there(sizes, from + 1);
    }
}

proof fn lemma_size(fields: TextFields, text: crate::json::JsonView, index: int)
    requires
        crate::qwen38_flash_next::config_reader::text_fields_of(fields, text),
        0 <= index < 27,
        fields.sizes@[index] is Some,
    ensures
        crate::json::field_usize(
            text,
            crate::qwen38_flash_next::config_reader::size_name(index)@,
        ) == fields.sizes@[index],
{
}

/// The sizes of the model are read under their own names.
pub proof fn law_model_sizes_are_read_by_name(
    fields: TextFields,
    text: crate::json::JsonView,
    config: Qwen38FlashNextConfig,
)
    requires
        crate::qwen38_flash_next::config_reader::text_fields_of(fields, text),
        crate::qwen38_flash_next::config_reader::text_obstacle(fields) is None,
        crate::qwen38_flash_next::config_reader::sizes_of(fields, config),
    ensures
        crate::json::field_usize(text, "vocab_size"@) == Some(config.vocab),
        crate::json::field_usize(text, "num_key_value_heads"@) == Some(config.kv_heads),
        crate::json::field_usize(text, "linear_num_key_heads"@) == Some(config.linear_key_heads),
        crate::json::field_usize(text, "linear_num_value_heads"@) == Some(config.linear_value_heads),
        crate::json::field_usize(text, "linear_key_head_dim"@) == Some(config.linear_key_head_dim),
        crate::json::field_usize(text, "linear_value_head_dim"@) == Some(config.linear_value_head_dim),
        crate::json::field_usize(text, "linear_conv_kernel_dim"@) == Some(config.linear_conv_kernel),
        crate::json::field_usize(text, "num_experts"@) == Some(config.experts),
        crate::json::field_usize(text, "num_experts_per_tok"@) == Some(config.experts_per_token),
        crate::json::field_usize(text, "moe_intermediate_size"@) == Some(config.expert_intermediate),
        crate::json::field_usize(text, "shared_expert_intermediate_size"@) == Some(config.shared_expert_intermediate),
{
    lemma_sizes_are_there(fields.sizes@, 0);
    lemma_size(fields, text, 0);
    lemma_size(fields, text, 1);
    lemma_size(fields, text, 2);
    lemma_size(fields, text, 3);
    lemma_size(fields, text, 4);
    lemma_size(fields, text, 5);
    lemma_size(fields, text, 6);
    lemma_size(fields, text, 7);
    lemma_size(fields, text, 8);
    lemma_size(fields, text, 9);
    lemma_size(fields, text, 10);
}

/// The sizes of the residual streams and of the n-gram embeddings are read under their own
/// names.
pub proof fn law_embedding_sizes_are_read_by_name(
    fields: TextFields,
    text: crate::json::JsonView,
    config: Qwen38FlashNextConfig,
)
    requires
        crate::qwen38_flash_next::config_reader::text_fields_of(fields, text),
        crate::qwen38_flash_next::config_reader::text_obstacle(fields) is None,
        crate::qwen38_flash_next::config_reader::sizes_of(fields, config),
    ensures
        crate::json::field_usize(text, "hc_count"@) == Some(config.hc_count),
        crate::json::field_usize(text, "hc_lowrank"@) == Some(config.hc_lowrank),
        crate::json::field_usize(text, "ple_embed_dim"@) == Some(config.ple_embedding_dim),
        crate::json::field_usize(text, "ple_conv_kernel_size"@) == Some(config.ple_conv_kernel),
        crate::json::field_usize(text, "ngram_size"@) == Some(config.ngram_size),
        crate::json::field_usize(text, "heads_per_ngram"@) == Some(config.heads_per_ngram),
        crate::json::field_usize(text, "split_ngram_parts"@) == Some(config.ngram_shards),
        crate::json::field_usize(text, "ngram_vocab_size_base"@) == Some(config.ngram_vocab_base),
        crate::json::field_usize(text, "make_ngram_vocab_size_divisible_by"@) == Some(config.ngram_vocab_alignment),
{
    lemma_sizes_are_there(fields.sizes@, 0);
    lemma_size(fields, text, 11);
    lemma_size(fields, text, 12);
    lemma_size(fields, text, 13);
    lemma_size(fields, text, 14);
    lemma_size(fields, text, 15);
    lemma_size(fields, text, 16);
    lemma_size(fields, text, 17);
    lemma_size(fields, text, 18);
    lemma_size(fields, text, 19);
}

/// The sizes of the sparse attention, of the context and of the draft block are read under their own
/// names.
pub proof fn law_context_sizes_are_read_by_name(
    fields: TextFields,
    text: crate::json::JsonView,
    config: Qwen38FlashNextConfig,
)
    requires
        crate::qwen38_flash_next::config_reader::text_fields_of(fields, text),
        crate::qwen38_flash_next::config_reader::text_obstacle(fields) is None,
        crate::qwen38_flash_next::config_reader::sizes_of(fields, config),
    ensures
        crate::json::field_usize(text, "indexer_n_heads"@) == Some(config.indexer_heads),
        crate::json::field_usize(text, "indexer_kv_heads"@) == Some(config.indexer_kv_heads),
        crate::json::field_usize(text, "indexer_head_dim"@) == Some(config.indexer_head_dim),
        crate::json::field_usize(text, "indexer_compress_ratio"@) == Some(config.indexer_compress_ratio),
        crate::json::field_usize(text, "indexer_budget"@) == Some(config.indexer_budget),
        crate::json::field_usize(text, "max_position_embeddings"@) == Some(config.max_position_embeddings),
        crate::json::field_usize(text, "mtp_num_hidden_layers"@) == Some(config.mtp_layers),
{
    lemma_sizes_are_there(fields.sizes@, 0);
    lemma_size(fields, text, 20);
    lemma_size(fields, text, 21);
    lemma_size(fields, text, 22);
    lemma_size(fields, text, 23);
    lemma_size(fields, text, 24);
    lemma_size(fields, text, 25);
    lemma_size(fields, text, 26);
}

proof fn lemma_layers_are_known(texts: Seq<Option<Seq<char>>>, from: int)
    requires
        0 <= from,
        crate::qwen38_flash_next::config_reader::unknown_layer(texts, from) is None,
    ensures
        forall|i: int|
            from <= i < texts.len() ==> crate::qwen38_flash_next::config_reader::layer_type_of(
                #[trigger] texts[i],
            ) is Some,
    decreases texts.len() - from,
{
    if from < texts.len() {
        lemma_layers_are_known(texts, from + 1);
    }
}

/// An accepted configuration is that of a Flash Next model with a sigmoid gate, its scalars are
/// read under their own names, each layer has the attention that its entry names, and the
/// embedding layer is counted from one.
pub proof fn law_accepted_config_is_read_by_name(
    fields: FlashNextFields,
    view: crate::json::JsonView,
    found: UnroundedConfig,
)
    requires
        crate::qwen38_flash_next::config_reader::fields_of(fields, view),
        crate::qwen38_flash_next::config_reader::config_obstacle(fields) is None,
        crate::qwen38_flash_next::config_reader::config_of(fields.text->0, found),
    ensures
        ({
            let text = crate::json::field_view(view, "text_config"@)->0;
            let config = found.config;
            let types = crate::json::texts_of(crate::json::field_array(text, "layer_types"@)->0);
            let ids = crate::json::unsigned_of(
                crate::json::field_array(text, "ple_layer_ids"@)->0,
            );
            &&& crate::json::field_view(view, "text_config"@) is Some
            &&& crate::json::field_text(view, "model_type"@) == Some("qwen3_8_flash_next"@)
            &&& crate::json::field_text(text, "model_type"@) == Some("qwen3_8_flash_next_text"@)
            &&& crate::json::field_text(text, "output_gate_type"@) == Some("sigmoid"@)
            &&& crate::json::field_usize(text, "hidden_size"@) == Some(config.hidden)
            &&& crate::json::field_usize(text, "num_attention_heads"@) == Some(config.q_heads)
            &&& crate::json::field_usize(text, "head_dim"@) == Some(config.head_dim)
            &&& crate::json::field_usize(text, "num_hidden_layers"@) == Some(config.layers)
            &&& crate::json::field_usize(text, "eos_token_id"@) == Some(
                config.eos_token_id as usize,
            )
            &&& crate::json::field_double(text, "partial_rotary_factor"@) == Some(
                found.partial_rotary_bits,
            )
            &&& crate::json::field_double(text, "rms_norm_eps"@) == Some(found.rms_eps_bits)
            &&& crate::json::field_view(text, "rope_parameters"@) matches Some(rope)
                && crate::json::field_double(rope, "rope_theta"@) == Some(found.rope_theta_bits)
            &&& types.len() == config.layers
            &&& config.layer_types@.len() == config.layers
            &&& forall|layer: int|
                0 <= layer < config.layers ==> (#[trigger] types[layer]) == Some(
                    match config.layer_types@[layer] {
                        Qwen38LayerType::LinearAttention => "linear_attention"@,
                        Qwen38LayerType::FullAttention => "full_attention"@,
                    },
                )
            &&& ids.len() == 1
            &&& ids[0] is Some && ids[0]->0 as usize == config.ple_layer + 1
        }),
{
    let part = fields.text->0;
    let texts = crate::json::text_options(part.layer_types->0@);
    lemma_layers_are_known(texts, 0);
    assert forall|layer: int| 0 <= layer < found.config.layers implies (#[trigger] texts[layer])
        == Some(
        match found.config.layer_types@[layer] {
            Qwen38LayerType::LinearAttention => "linear_attention"@,
            Qwen38LayerType::FullAttention => "full_attention"@,
        },
    ) by {
        assert(crate::qwen38_flash_next::config_reader::layer_type_of(texts[layer]) is Some);
    }
}

} // verus!
