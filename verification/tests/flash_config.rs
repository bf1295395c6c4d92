//! Configuration of a Flash Next checkpoint.

use eider_infer::json::{required_array, required_f64, required_str, required_usize};
use eider_infer::manifest::{QwenFfnConfig, QwenLayerKind};
use eider_infer::qwen38_flash_next::config::{Qwen38FlashNextConfig, Qwen38LayerType};
use eider_infer::qwen38_flash_next::config_reader::{
    read_fields, ConfigError, FlashNextFields, UnroundedConfig, SIZE_COUNT,
};
use serde_json::Value;

fn layer_types() -> Value {
    let types = (0..48)
        .map(|layer| {
            if layer % 4 == 3 {
                Value::from("full_attention")
            } else {
                Value::from("linear_attention")
            }
        })
        .collect::<Vec<Value>>();
    Value::Array(types)
}

fn released_text() -> serde_json::Map<String, Value> {
    let sizes: [(&str, u64); 31] = [
        ("hidden_size", 2560),
        ("vocab_size", 248320),
        ("num_hidden_layers", 48),
        ("num_attention_heads", 24),
        ("num_key_value_heads", 2),
        ("head_dim", 256),
        ("linear_num_key_heads", 16),
        ("linear_num_value_heads", 48),
        ("linear_key_head_dim", 128),
        ("linear_value_head_dim", 128),
        ("linear_conv_kernel_dim", 4),
        ("num_experts", 512),
        ("num_experts_per_tok", 10),
        ("moe_intermediate_size", 640),
        ("shared_expert_intermediate_size", 640),
        ("hc_count", 4),
        ("hc_lowrank", 320),
        ("ple_embed_dim", 2560),
        ("ple_conv_kernel_size", 4),
        ("ngram_size", 3),
        ("heads_per_ngram", 8),
        ("split_ngram_parts", 128),
        ("ngram_vocab_size_base", 20000000),
        ("make_ngram_vocab_size_divisible_by", 128),
        ("indexer_n_heads", 4),
        ("indexer_kv_heads", 1),
        ("indexer_head_dim", 128),
        ("indexer_compress_ratio", 4),
        ("indexer_budget", 2048),
        ("max_position_embeddings", 262144),
        ("eos_token_id", 248044),
    ];
    let mut text = serde_json::Map::new();
    for (name, value) in sizes {
        text.insert(name.to_string(), Value::from(value));
    }
    text.insert("mtp_num_hidden_layers".to_string(), Value::from(1u64));
    text.insert("model_type".to_string(), Value::from("qwen3_8_flash_next_text"));
    text.insert("layer_types".to_string(), layer_types());
    text.insert("partial_rotary_factor".to_string(), Value::from(0.25));
    text.insert("ple_layer_ids".to_string(), Value::Array(vec![Value::from(2u64)]));
    text.insert("rms_norm_eps".to_string(), Value::from(0.000001));
    let mut rope = serde_json::Map::new();
    rope.insert("rope_theta".to_string(), Value::from(10000000.0));
    text.insert("rope_parameters".to_string(), Value::Object(rope));
    text.insert("output_gate_type".to_string(), Value::from("sigmoid"));
    text
}

fn root_with(text: serde_json::Map<String, Value>) -> Value {
    let mut root = serde_json::Map::new();
    root.insert("model_type".to_string(), Value::from("qwen3_8_flash_next"));
    root.insert("text_config".to_string(), Value::Object(text));
    Value::Object(root)
}

fn rounded(found: UnroundedConfig) -> Qwen38FlashNextConfig {
    let fraction = f64::from_bits(found.partial_rotary_bits);
    let rotary_dim = (found.config.head_dim as f64 * fraction).round() as usize;
    let rms_eps = f64::from_bits(found.rms_eps_bits) as f32;
    let rope_theta = f64::from_bits(found.rope_theta_bits) as f32;
    found.rounded(rotary_dim, rms_eps.to_bits(), rope_theta.to_bits())
}

fn refusal(text: serde_json::Map<String, Value>) -> ConfigError {
    match Qwen38FlashNextConfig::from_value(&root_with(text)) {
        Ok(_) => panic!("configuration was accepted"),
        Err(error) => error,
    }
}

fn without(name: &str) -> serde_json::Map<String, Value> {
    let mut text = released_text();
    text.remove(name);
    text
}

fn with(name: &str, value: Value) -> serde_json::Map<String, Value> {
    let mut text = released_text();
    text.insert(name.to_string(), value);
    text
}

#[test]
fn parses_released_checkpoint_config() {
    let value = root_with(released_text());
    let found = match Qwen38FlashNextConfig::from_value(&value) {
        Ok(found) => found,
        Err(_) => panic!("Flash Next config"),
    };
    let config = rounded(found);
    assert_eq!(config.hidden, 2560);
    assert_eq!(config.layers, 48);
    assert_eq!(config.layer_types[3], Qwen38LayerType::FullAttention);
    assert_eq!(config.experts, 512);
    assert_eq!(config.experts_per_token, 10);
    assert_eq!(config.ple_layer, 1);
    assert_eq!(config.ngram_heads(), 16);
    assert_eq!(config.ngram_head_dim(), 160);
    assert_eq!(config.indexer_budget, 2048);
    assert_eq!(config.rotary_dim, 64);
    assert_eq!(f32::from_bits(config.rms_eps_bits), 0.000001f32);
    assert_eq!(f32::from_bits(config.rope_theta_bits), 10000000.0f32);
    assert_eq!(config.eos_token_id, 248044);
    assert_eq!(config.vocab, 248320);
    assert_eq!(config.mtp_layers, 1);
    assert_eq!(config.layer_types.len(), config.layers);
}

#[test]
fn bytes_are_parsed_before_they_are_checked() {
    let bytes = serde_json::to_vec(&root_with(released_text())).unwrap();
    let Ok(found) = Qwen38FlashNextConfig::load(&bytes) else { panic!("configuration bytes") };
    assert_eq!(found.config.hidden, 2560);
    assert_eq!(found.config.max_position_embeddings, 262144);
    assert_eq!(found.config.rotary_dim, 0);
    assert!(matches!(Qwen38FlashNextConfig::load(b"{"), Err(ConfigError::Json)));
    assert!(matches!(
        Qwen38FlashNextConfig::load(b"[]"),
        Err(ConfigError::MissingString("model_type"))
    ));
}

#[test]
fn foreign_models_are_refused() {
    let mut root = serde_json::Map::new();
    root.insert("model_type".to_string(), Value::from("qwen3"));
    let value = Value::Object(root.clone());
    assert!(matches!(Qwen38FlashNextConfig::from_value(&value), Err(ConfigError::ModelType)));
    root.insert("model_type".to_string(), Value::from("qwen3_8_flash_next"));
    let value = Value::Object(root);
    assert!(matches!(
        Qwen38FlashNextConfig::from_value(&value),
        Err(ConfigError::MissingTextConfig)
    ));
    assert_eq!(refusal(with("model_type", Value::from("qwen3"))), ConfigError::TextModelType);
    assert_eq!(refusal(without("model_type")), ConfigError::MissingString("model_type"));
}

#[test]
fn missing_values_are_named_in_order() {
    assert_eq!(refusal(without("hidden_size")), ConfigError::MissingUnsigned("hidden_size"));
    assert_eq!(
        refusal(without("num_attention_heads")),
        ConfigError::MissingUnsigned("num_attention_heads")
    );
    assert_eq!(refusal(without("head_dim")), ConfigError::MissingUnsigned("head_dim"));
    assert_eq!(
        refusal(without("partial_rotary_factor")),
        ConfigError::MissingFinite("partial_rotary_factor")
    );
    assert_eq!(refusal(without("layer_types")), ConfigError::MissingArray("layer_types"));
    assert_eq!(
        refusal(without("num_hidden_layers")),
        ConfigError::MissingUnsigned("num_hidden_layers")
    );
    assert_eq!(refusal(without("ple_layer_ids")), ConfigError::MissingArray("ple_layer_ids"));
    assert_eq!(
        refusal(without("output_gate_type")),
        ConfigError::MissingString("output_gate_type")
    );
    assert_eq!(refusal(without("eos_token_id")), ConfigError::MissingUnsigned("eos_token_id"));
    assert_eq!(refusal(without("rms_norm_eps")), ConfigError::MissingFinite("rms_norm_eps"));
    assert_eq!(refusal(without("rope_parameters")), ConfigError::MissingRope);
    assert_eq!(refusal(without("vocab_size")), ConfigError::MissingUnsigned("vocab_size"));
    assert_eq!(
        refusal(without("mtp_num_hidden_layers")),
        ConfigError::MissingUnsigned("mtp_num_hidden_layers")
    );
    let mut text = without("indexer_budget");
    text.remove("hc_count");
    assert_eq!(refusal(text), ConfigError::MissingUnsigned("hc_count"));
    assert_eq!(
        refusal(with("hidden_size", Value::from(-1))),
        ConfigError::MissingUnsigned("hidden_size")
    );
    assert_eq!(
        refusal(with("rope_parameters", Value::Object(serde_json::Map::new()))),
        ConfigError::MissingFinite("rope_theta")
    );
}

#[test]
fn unusable_schedules_are_refused() {
    let Value::Array(mut types) = layer_types() else { panic!("array") };
    types[5] = Value::from("sliding_attention");
    assert_eq!(
        refusal(with("layer_types", Value::Array(types.clone()))),
        ConfigError::LayerType { index: 5 }
    );
    types[5] = Value::Null;
    assert_eq!(
        refusal(with("layer_types", Value::Array(types.clone()))),
        ConfigError::LayerType { index: 5 }
    );
    types.remove(5);
    assert_eq!(
        refusal(with("layer_types", Value::Array(types))),
        ConfigError::LayerCount { expected: 48, actual: 47 }
    );
}

#[test]
fn unusable_embedding_layers_and_tokens_are_refused() {
    let none = Value::Array(Vec::new());
    assert_eq!(refusal(with("ple_layer_ids", none)), ConfigError::PleLayers { count: 0 });
    let texts = Value::Array(vec![Value::from("2")]);
    assert_eq!(refusal(with("ple_layer_ids", texts)), ConfigError::PleLayerNotUnsigned);
    let zero = Value::Array(vec![Value::from(0u64)]);
    assert_eq!(refusal(with("ple_layer_ids", zero)), ConfigError::PleLayerZero);
    assert_eq!(
        refusal(with("output_gate_type", Value::from("silu"))),
        ConfigError::OutputGate
    );
    assert_eq!(
        refusal(with("eos_token_id", Value::from(4294967296u64))),
        ConfigError::EosToken { token: 4294967296 }
    );
}

#[test]
fn fields_are_read_as_they_stand() {
    let fields: FlashNextFields = read_fields(&root_with(released_text()));
    assert_eq!(fields.model_type.as_deref(), Some("qwen3_8_flash_next"));
    let text = fields.text.unwrap();
    assert_eq!(text.sizes.len(), SIZE_COUNT);
    assert_eq!(text.sizes[0], Some(248320));
    assert_eq!(text.sizes[26], Some(1));
    assert_eq!(text.ple_layer_ids, Some(vec![Some(2)]));
    assert_eq!(text.rope_theta, Some(Some(10000000.0f64.to_bits())));
    assert_eq!(text.layer_types.unwrap()[3].as_deref(), Some("full_attention"));
}

#[test]
fn named_values_are_read_by_type() {
    let value: Value = serde_json::from_str(
        r#"{"text":"a","count":7,"negative":-7,"half":0.5,"list":[1,2],"huge":1e400}"#,
    )
    .unwrap_or(Value::Null);
    // A number beyond double precision makes the whole text unreadable.
    assert!(value.is_null());
    let value: Value = serde_json::from_str(
        r#"{"text":"a","count":7,"negative":-7,"half":0.5,"list":[1,2]}"#,
    )
    .unwrap();
    assert_eq!(required_str(&value, "text").as_deref(), Some("a"));
    assert_eq!(required_str(&value, "count"), None);
    assert_eq!(required_usize(&value, "count"), Some(7));
    assert_eq!(required_usize(&value, "negative"), None);
    assert_eq!(required_usize(&value, "half"), None);
    assert_eq!(required_f64(&value, "half"), Some(0.5f64.to_bits()));
    assert_eq!(required_f64(&value, "negative"), Some((-7.0f64).to_bits()));
    assert_eq!(required_f64(&value, "text"), None);
    assert_eq!(required_array(&value, "list").map(|items| items.len()), Some(2));
    assert!(required_array(&value, "text").is_none());
    assert!(required_str(&value, "absent").is_none());
}

#[test]
fn the_manifest_repeats_the_configuration() {
    let Ok(found) = Qwen38FlashNextConfig::from_value(&root_with(released_text())) else {
        panic!("configuration")
    };
    let config = rounded(found);
    let manifest = config.qwen_manifest();
    assert_eq!(manifest.tensor_prefix, "model.language_model");
    assert_eq!(manifest.hidden, 2560);
    assert_eq!(manifest.layer_kinds[3], QwenLayerKind::FullAttention);
    assert_eq!(manifest.layer_kinds[4], QwenLayerKind::LinearAttention);
    assert_eq!(manifest.intermediate, 640);
    assert_eq!(
        manifest.ffn,
        QwenFfnConfig::Moe {
            experts: 512,
            experts_per_token: 10,
            expert_intermediate: 640,
            norm_topk_prob: true,
        }
    );
    assert_eq!(manifest.linear_attention.unwrap().value_heads, 48);
    assert_eq!(manifest.shared_expert_intermediate, Some(640));
}
