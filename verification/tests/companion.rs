//! External companion: its configuration, its tensors, its selector and its windows.

use eider_infer::manifest::{QwenArchitecture, QwenFfnConfig, QwenLayerKind, QwenModelManifest};
use eider_infer::qwen36::dflash2::config::{
    inspect_dflash2_config, validate_dflash2_checkpoint, DFlash2Config, DFlash2Error, RawConfig,
    RawDFlashConfig, RopeParameters, TargetMismatch,
};
use eider_infer::qwen36::dflash2::draft::{DraftOp, Qwen38DFlash2, TensorRole};
use eider_infer::qwen36::dflash2::selector::{
    bf16_to_f32, f32_to_bf16, vocabulary_top_k, DFlash2GreedySelector, ScoredToken, SelectorError,
};
use eider_infer::qwen36::dflash2::sequence::{
    append_ring_rows, draft_plan, ContextOp, DraftPlan, Qwen38DFlash2SequenceState, RingCopy,
    WindowError,
};
use eider_infer::qwen36::linear::{Linear, Storage};
use eider_infer::tensors::TensorInfo;
use serde_json::Value;

fn official_config() -> &'static str {
    r#"{
      "architectures":["DFlash2DraftModel"], "model_type":"qwen3",
      "is_causal":false, "dtype":"bfloat16", "vocab_size":248320,
      "hidden_size":5120, "intermediate_size":17408, "num_hidden_layers":5,
      "num_attention_heads":32, "num_key_value_heads":8, "head_dim":128,
      "max_position_embeddings":262144, "rms_norm_eps":0.000001,
      "sliding_window":2048,
      "layer_types":["sliding_attention","sliding_attention","sliding_attention","sliding_attention","sliding_attention"],
      "rope_parameters":{"rope_theta":10000000.0,"rope_type":"default"},
      "num_target_layers":64,
      "dflash_config":{"block_size":8,"conv_group_size":16,"conv_kernel_size":2,
        "mask_token_id":248070,"selector_rank":256,"selector_top_k":16,
        "target_layer_ids":[5,19,33,47,61]}
    }"#
}

fn number(value: &Value, name: &str) -> usize {
    value.get(name).and_then(Value::as_u64).unwrap() as usize
}

fn text(value: &Value, name: &str) -> String {
    value.get(name).and_then(Value::as_str).unwrap().to_string()
}

fn texts(value: &Value, name: &str) -> Vec<String> {
    let items = value.get(name).and_then(Value::as_array).unwrap();
    items.iter().map(|item| item.as_str().unwrap().to_string()).collect()
}

fn single_bits(value: &Value, name: &str) -> u32 {
    (value.get(name).and_then(Value::as_f64).unwrap() as f32).to_bits()
}

fn parse(source: &str) -> RawConfig {
    let root: Value = serde_json::from_str(source).unwrap();
    let rope = root.get("rope_parameters").unwrap();
    let draft = root.get("dflash_config").unwrap();
    let target_layer_ids = draft.get("target_layer_ids").and_then(Value::as_array).unwrap();
    RawConfig {
        architectures: texts(&root, "architectures"),
        model_type: text(&root, "model_type"),
        is_causal: root.get("is_causal").and_then(Value::as_bool).unwrap(),
        dtype: text(&root, "dtype"),
        vocab_size: number(&root, "vocab_size"),
        hidden_size: number(&root, "hidden_size"),
        intermediate_size: number(&root, "intermediate_size"),
        num_hidden_layers: number(&root, "num_hidden_layers"),
        num_attention_heads: number(&root, "num_attention_heads"),
        num_key_value_heads: number(&root, "num_key_value_heads"),
        head_dim: number(&root, "head_dim"),
        max_position_embeddings: number(&root, "max_position_embeddings"),
        rms_norm_eps_bits: single_bits(&root, "rms_norm_eps"),
        sliding_window: number(&root, "sliding_window"),
        layer_types: texts(&root, "layer_types"),
        rope_parameters: RopeParameters {
            rope_theta_bits: single_bits(rope, "rope_theta"),
            rope_type: text(rope, "rope_type"),
        },
        dflash_config: RawDFlashConfig {
            block_size: number(draft, "block_size"),
            conv_group_size: number(draft, "conv_group_size"),
            conv_kernel_size: number(draft, "conv_kernel_size"),
            mask_token_id: number(draft, "mask_token_id") as u32,
            selector_rank: number(draft, "selector_rank"),
            selector_top_k: number(draft, "selector_top_k"),
            target_layer_ids: target_layer_ids
                .iter()
                .map(|id| id.as_u64().unwrap() as usize)
                .collect(),
        },
        num_target_layers: number(&root, "num_target_layers"),
    }
}

fn official() -> DFlash2Config {
    match inspect_dflash2_config(parse(official_config())) {
        Ok(config) => config,
        Err(_) => panic!("official configuration"),
    }
}

fn small() -> DFlash2Config {
    DFlash2Config {
        vocab: 100,
        hidden: 32,
        intermediate: 48,
        layers: 2,
        heads: 4,
        kv_heads: 2,
        head_dim: 8,
        max_seq_len: 4096,
        rms_norm_eps_bits: 0x358637bd,
        rope_theta_bits: 0x4b189680,
        sliding_window: 300,
        block_size: 8,
        mask_token: 99,
        conv_group_size: 16,
        conv_kernel_size: 2,
        selector_rank: 4,
        selector_top_k: 3,
        target_layers: vec![1, 3],
        target_layer_count: 6,
    }
}

fn target(config: &DFlash2Config) -> QwenModelManifest {
    QwenModelManifest {
        architecture: QwenArchitecture::Qwen36,
        tensor_prefix: "model".to_string(),
        hidden: config.hidden,
        layers: config.target_layer_count,
        vocab: config.vocab,
        intermediate: 64,
        q_heads: 4,
        kv_heads: 2,
        head_dim: 8,
        rotary_dim: 4,
        rms_eps_bits: 0,
        rope_theta_bits: 0,
        mrope_sections: None,
        ffn: QwenFfnConfig::Dense,
        layer_kinds: vec![QwenLayerKind::FullAttention; config.target_layer_count],
        linear_attention: None,
        shared_expert_intermediate: None,
        mtp_layers: 0,
    }
}

fn head(config: &DFlash2Config) -> Linear {
    Linear {
        storage: Storage::Bf16,
        rows: config.vocab,
        cols: config.hidden,
        input_scale: None,
        channel_scaled: false,
        weight_only: false,
    }
}

#[test]
fn parses_official_qwen38_dflash2_contract() {
    let config = official();
    assert_eq!(config.target_layers, [5, 19, 33, 47, 61]);
    assert_eq!(config.block_size, 8);
    assert_eq!(config.draft_tokens(), 7);
    assert_eq!(config.selector_top_k, 16);
}

#[test]
fn validates_official_tensor_contract() {
    let config = official();
    let tensors = config.expected_tensors();
    assert_eq!(tensors.len(), 81);
    let found: Vec<TensorInfo> = tensors
        .iter()
        .map(|tensor| TensorInfo { dtype: "BF16".to_string(), shape: tensor.shape.clone() })
        .collect();
    assert!(validate_dflash2_checkpoint(&config, &found).is_ok());
}

#[test]
fn another_format_or_shape_is_refused() {
    let config = official();
    let tensors = config.expected_tensors();
    let infos = || -> Vec<TensorInfo> {
        tensors
            .iter()
            .map(|tensor| TensorInfo { dtype: "BF16".to_string(), shape: tensor.shape.clone() })
            .collect()
    };
    let mut found = infos();
    found[7].dtype = "F32".to_string();
    assert!(matches!(validate_dflash2_checkpoint(&config, &found), Err(DFlash2Error::Tensor(7))));
    let mut found = infos();
    found[80].shape.push(1);
    assert!(matches!(validate_dflash2_checkpoint(&config, &found), Err(DFlash2Error::Tensor(80))));
}

#[test]
fn selector_candidates_are_sorted_and_deterministic() {
    let logits: Vec<u32> =
        [1.0f32, 4.0, f32::NAN, 4.0, 2.0].iter().map(|value| value.to_bits()).collect();
    let selected: Vec<(u32, f32)> = vocabulary_top_k(&logits, 3)
        .iter()
        .map(|candidate| (candidate.id, f32::from_bits(candidate.score_bits)))
        .collect();
    assert_eq!(selected, [(1, 4.0), (3, 4.0), (4, 2.0)]);
}

#[test]
fn selector_follows_the_selected_predecessor() {
    let b = |values: &[f32]| -> Vec<u16> {
        values.iter().map(|value| f32_to_bf16(value.to_bits())).collect()
    };
    let selector = DFlash2GreedySelector { vocab: 4, rank: 1, top_k: 2 };
    let predecessor_codebook = b(&[2.0, -2.0, -3.0, 0.0]);
    let successor_codebook = b(&[0.0, -1.0, 1.0, 0.0]);
    let projected = [1.0f32, 1.0];
    let logits = [0.0f32, 1.0, 1.0, -1.0, 0.0, 1.0, 1.0, -1.0];
    let mut candidates: Vec<ScoredToken> = Vec::new();
    for row in logits.chunks_exact(4) {
        let bits: Vec<u32> = row.iter().map(|value| value.to_bits()).collect();
        candidates.extend(vocabulary_top_k(&bits, 2));
    }
    let mut run = match selector.start(0, projected.len(), candidates.len()) {
        Ok(run) => run,
        Err(_) => panic!("selector input"),
    };
    let wide = |bits: u16| f32::from_bits(bf16_to_f32(bits));
    while let Some(step) = run.step() {
        let row = &candidates[step * selector.top_k..(step + 1) * selector.top_k];
        let scored: Vec<ScoredToken> = row
            .iter()
            .map(|candidate| {
                let at = run.slices(candidate.id);
                let mut score = f32::from_bits(candidate.score_bits);
                for index in 0..selector.rank {
                    score += wide(predecessor_codebook[at.predecessor + index])
                        * projected[at.hidden + index]
                        * wide(successor_codebook[at.successor + index]);
                }
                ScoredToken { id: candidate.id, score_bits: score.to_bits() }
            })
            .collect();
        run.choose_candidate(&scored);
    }
    assert_eq!(run.finish(), [2, 1]);
}

#[test]
fn selector_refuses_foreign_anchors_and_short_candidates() {
    let selector = DFlash2GreedySelector { vocab: 4, rank: 2, top_k: 3 };
    assert!(matches!(
        selector.start(4, 4, 6),
        Err(SelectorError::Input { anchor: 4, values: 4 })
    ));
    assert!(matches!(selector.start(0, 0, 0), Err(SelectorError::Input { .. })));
    assert!(matches!(selector.start(0, 3, 3), Err(SelectorError::Input { .. })));
    assert!(matches!(
        selector.start(0, 4, 5),
        Err(SelectorError::Candidates { expected: 6, actual: 5 })
    ));
    assert!(selector.start(3, 4, 6).is_ok());
}

#[test]
fn equal_scores_choose_the_smaller_token() {
    let selector = DFlash2GreedySelector { vocab: 10, rank: 1, top_k: 3 };
    let Ok(mut run) = selector.start(0, 1, 3) else { panic!("selector input") };
    let score = 1.5f32.to_bits();
    let token = run.choose_candidate(&[
        ScoredToken { id: 9, score_bits: score },
        ScoredToken { id: 2, score_bits: score },
        ScoredToken { id: 5, score_bits: (-7.0f32).to_bits() },
    ]);
    assert_eq!(token, 2);
    assert_eq!(run.step(), None);
}

#[test]
fn narrow_values_survive_widening() {
    for bits in [0u16, 0x8000, 0x3f80, 0xbf80, 0x7f7f, 0x0001] {
        assert_eq!(f32_to_bf16(bf16_to_f32(bits)), bits);
    }
    assert_eq!(f32_to_bf16(1.0f32.to_bits()), 0x3f80);
    assert_eq!(f32_to_bf16(0x3f80_8000), 0x3f80);
    assert_eq!(f32_to_bf16(0x3f81_8000), 0x3f82);
}

#[test]
fn another_kind_of_companion_is_refused() {
    let mut raw = parse(official_config());
    raw.model_type = "llama".to_string();
    assert!(matches!(inspect_dflash2_config(raw), Err(DFlash2Error::Kind)));
    let mut raw = parse(official_config());
    raw.is_causal = true;
    assert!(matches!(inspect_dflash2_config(raw), Err(DFlash2Error::Kind)));
}

#[test]
fn impossible_geometry_is_refused() {
    let broken: Vec<fn(&mut RawConfig)> = vec![
        |raw| raw.hidden_size = 0,
        |raw| raw.num_key_value_heads = 5,
        |raw| raw.rms_norm_eps_bits = f32::NAN.to_bits(),
        |raw| raw.rms_norm_eps_bits = 0,
        |raw| raw.rope_parameters.rope_theta_bits = f32::INFINITY.to_bits(),
        |raw| raw.rope_parameters.rope_type = "yarn".to_string(),
        |raw| raw.layer_types[2] = "full_attention".to_string(),
        |raw| raw.dflash_config.block_size = 1,
        |raw| raw.dflash_config.conv_group_size = 3,
        |raw| raw.dflash_config.selector_top_k = 0,
        |raw| raw.dflash_config.target_layer_ids[1] = 5,
        |raw| raw.dflash_config.target_layer_ids[4] = 64,
        |raw| raw.dflash_config.mask_token_id = 248320,
    ];
    for spoil in broken {
        let mut raw = parse(official_config());
        spoil(&mut raw);
        assert!(matches!(raw.validate_raw_config(), Err(DFlash2Error::Geometry)));
    }
}

#[test]
fn a_companion_fits_one_kind_of_target() {
    let config = small();
    assert!(config.validate_target(&target(&config)).is_ok());
    let mut other = target(&config);
    other.vocab = 7;
    other.hidden = 9;
    other.layers = 3;
    let Err(DFlash2Error::Target(found)) = config.validate_target(&other) else {
        panic!("target mismatch")
    };
    assert!(found.contains(&TargetMismatch::Vocabulary));
    assert!(found.contains(&TargetMismatch::HiddenSize));
    assert!(found.contains(&TargetMismatch::LayerCount));
}

#[test]
fn tensors_of_each_layer_follow_the_shared_ones() {
    let config = small();
    let tensors = config.expected_tensors();
    assert_eq!(tensors.len(), 6 + 15 * config.layers);
    assert!(tensors.iter().any(|tensor| tensor.name == "layers.1.mlp.down_proj.weight"
        && tensor.shape == [32, 48]));
}

#[test]
fn every_checked_tensor_is_loaded_once() {
    let draft = Qwen38DFlash2 { config: small() };
    let loads = draft.load_order();
    let mut indices: Vec<usize> = loads.iter().map(|load| load.index).collect();
    indices.sort_unstable();
    assert_eq!(indices, (0..36).collect::<Vec<usize>>());
    assert_eq!(loads.iter().filter(|load| load.role == TensorRole::Codebook).count(), 2);
}

#[test]
fn a_companion_needs_blocks_of_eight_rows() {
    let mut config = small();
    config.block_size = 4;
    let manifest = target(&config);
    assert!(matches!(Qwen38DFlash2::load(config, &manifest), Err(DFlash2Error::BlockSize(4))));
    let config = small();
    let manifest = target(&config);
    assert!(Qwen38DFlash2::load(config, &manifest).is_ok());
}

#[test]
fn the_buffers_of_a_companion_follow_its_shape() {
    let config = small();
    let draft = Qwen38DFlash2 { config: small() };
    let buffers = draft.new_workspace(&head(&config));
    assert_eq!(buffers.aux, 128 * 64);
    assert_eq!(buffers.hidden, 128 * 32);
    assert_eq!(buffers.coefficients, 128 * 8);
    assert_eq!((buffers.query, buffers.key), (8 * 32, 128 * 16));
    assert_eq!((buffers.gate_up, buffers.activated), (8 * 96, 8 * 48));
    assert_eq!(buffers.bf16_input, 128 * 64);
    assert_eq!((buffers.sample_hidden, buffers.logits), (7 * 32, 700));
    assert_eq!((buffers.projected, buffers.candidates), (28, 21));
    assert!(!buffers.head_plan);
}

#[test]
fn a_block_holds_the_anchor_and_masks() {
    let draft = Qwen38DFlash2 { config: small() };
    let state = draft.config.new_sequence_state();
    let Ok(proposal) = draft.propose(&state, 17, 3, &head(&draft.config)) else {
        panic!("proposal")
    };
    assert_eq!(proposal.tokens, [17, 99, 99, 99]);
    assert_eq!(proposal.ops[0], DraftOp::Gather { rows: 4 });
    assert!(proposal.ops.contains(&DraftOp::TakeDrafts { offset: 32, values: 96 }));
    assert_eq!(*proposal.ops.last().unwrap(), DraftOp::TopK { rows: 3, k: 3 });
}

#[test]
fn more_drafts_than_a_block_holds_are_refused() {
    let draft = Qwen38DFlash2 { config: small() };
    let state = draft.config.new_sequence_state();
    let head = head(&draft.config);
    assert!(draft.propose(&state, 17, 8, &head).is_err());
    assert!(draft.propose(&state, 17, 0, &head).is_err());
    assert!(draft.propose(&state, 100, 3, &head).is_err());
    assert!(draft.propose(&state, 17, 7, &head).is_ok());
    let last = draft.config.max_seq_len - 8;
    let at = |position| Qwen38DFlash2SequenceState { position, layers: state.layers.clone() };
    assert!(draft.propose(&at(last), 17, 7, &head).is_ok());
    assert!(draft.propose(&at(last + 1), 17, 7, &head).is_err());
    assert!(draft.propose(&at(usize::MAX), 17, 7, &head).is_err());
}

#[test]
fn rings_wrap_at_the_window() {
    let copies = append_ring_rows(6, 4, 10, 8);
    assert_eq!(
        copies,
        [
            RingCopy { destination: 60, source: 0, values: 20 },
            RingCopy { destination: 0, source: 20, values: 20 },
        ]
    );
    let copies = append_ring_rows(16, 3, 10, 8);
    assert_eq!(copies, [RingCopy { destination: 0, source: 0, values: 30 }]);
}

#[test]
fn captured_rows_advance_the_window() {
    let config = small();
    let mut state = config.new_sequence_state();
    let aux = config.hidden * config.target_layers.len();
    let Ok(ops) = config.append_captured_context(&mut state, 10 * aux, 2, 5) else {
        panic!("append")
    };
    assert!(!ops.is_empty());
    assert_eq!(state.position, 5);
    assert_eq!(state.layers, [5, 5]);
    assert!(matches!(
        config.append_captured_context(&mut state, 10 * aux, 8, 5),
        Err(WindowError::ContextAppend)
    ));
    assert_eq!(state.position, 5);
    let Ok(_) = config.append_captured_context(&mut state, 400 * aux, 0, 400) else {
        panic!("long append")
    };
    assert_eq!(state.layers, [300, 300]);
    assert_eq!(state.position, 405);
}

#[test]
fn a_window_holds_the_latest_rows() {
    let config = small();
    let (window, width) = (config.sliding_window, config.kv_heads * config.head_dim);
    let aux = config.hidden * config.target_layers.len();
    let mut state = config.new_sequence_state();
    let mut keys = vec![vec![None; window * width]; config.layers];
    let mut values = vec![vec![None; window * width]; config.layers];
    for (captured_row, rows) in [(2, 5), (0, 290), (1, 400), (0, 130)] {
        let start = state.position;
        let captured = (captured_row + rows) * aux;
        let Ok(ops) = config.append_captured_context(&mut state, captured, captured_row, rows)
        else {
            panic!("append")
        };
        let (mut loaded, mut rotated) = (0, 0);
        for op in ops {
            match op {
                ContextOp::Load { source, .. } => loaded = start + source / aux - captured_row,
                ContextOp::KeyRope { position, .. } => rotated = position,
                ContextOp::KeepKey { layer, copy } => {
                    for index in 0..copy.values {
                        let from = copy.source + index;
                        keys[layer][copy.destination + index] =
                            Some((loaded + from / width, rotated + from / width, from % width));
                    }
                }
                ContextOp::KeepValue { layer, copy } => {
                    for index in 0..copy.values {
                        let from = copy.source + index;
                        values[layer][copy.destination + index] =
                            Some((loaded + from / width, from % width));
                    }
                }
                _ => {}
            }
        }
        let retained = state.position.min(window);
        assert_eq!(state.layers, [retained; 2]);
        for position in state.position - retained..state.position {
            for column in 0..width {
                let index = position % window * width + column;
                for layer in 0..config.layers {
                    assert_eq!(keys[layer][index], Some((position, position, column)));
                    assert_eq!(values[layer][index], Some((position, column)));
                }
            }
        }
    }
    assert_eq!(state.position, 825);
}

#[test]
fn tensor_names_differ() {
    let config = DFlash2Config { layers: 12, ..small() };
    let mut names: Vec<String> =
        config.expected_tensors().into_iter().map(|tensor| tensor.name).collect();
    assert_eq!(names.len(), 6 + 15 * 12);
    names.sort();
    names.dedup();
    assert_eq!(names.len(), 6 + 15 * 12);
}

#[test]
fn a_window_snapshot_restores_into_an_empty_state() {
    let config = small();
    let mut state = config.new_sequence_state();
    assert!(matches!(config.snapshot_sequence_state(&state), Err(WindowError::Snapshot)));
    let aux = config.hidden * config.target_layers.len();
    assert!(config.append_captured_context(&mut state, 20 * aux, 0, 20).is_ok());
    assert_eq!(config.sequence_snapshot_device_bytes(&state), Ok(20 * 16 * 4 * 2 * 2));
    let Ok(snapshot) = config.snapshot_sequence_state(&state) else { panic!("snapshot") };
    assert_eq!(snapshot.device_bytes, 20 * 16 * 4 * 2 * 2);
    let mut restored = config.new_sequence_state();
    assert_eq!(config.restore_sequence_snapshot(&snapshot, &mut restored), Ok(20 * 16));
    assert_eq!(restored.position, 20);
    assert_eq!(restored.layers, [20, 20]);
    assert!(matches!(
        config.restore_sequence_snapshot(&snapshot, &mut restored),
        Err(WindowError::Restore)
    ));
}

#[test]
fn rows_come_in_planned_sizes() {
    assert_eq!(draft_plan(2, false), Ok(DraftPlan::Proposal(0)));
    assert_eq!(draft_plan(8, true), Ok(DraftPlan::Proposal(6)));
    assert_eq!(draft_plan(128, true), Ok(DraftPlan::Context));
    assert_eq!(draft_plan(128, false), Err(WindowError::NoContextPlan));
    assert_eq!(draft_plan(9, true), Err(WindowError::Rows(9)));
    assert_eq!(draft_plan(1, true), Err(WindowError::Rows(1)));
}
