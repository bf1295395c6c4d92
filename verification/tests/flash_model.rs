//! Flash Next model: its residual blocks, its loading, its workspaces and its sequences.

use eider_infer::append::AppendSegment;
use eider_infer::manifest::QwenLayerKind;
use eider_infer::qwen38_flash_next::config::{Qwen38FlashNextConfig, Qwen38LayerType};
use eider_infer::qwen38_flash_next::execution::{
    Qwen38FlashNextExecutionConfig, Qwen38FlashNextExecutionState,
};
use eider_infer::qwen38_flash_next::forward::{
    decode_token_inner, prefill_tokens_inner, DecodePass, ForwardError, ForwardOp, ForwardShape,
    HyperRows, LayerTopology, PrefillPass, PrefillPaths, Qwen38LayerProbeStage, Qwen38LogitsMode,
    Sublayer,
};
use eider_infer::qwen38_flash_next::hyperconnection::{
    HyperBuffer, HyperConnectionError, HyperLinear, HyperOp, HyperProjection,
    Qwen38HyperConnectionWeights, Qwen38HyperConnectionWorkspace,
};
use eider_infer::qwen38_flash_next::loading::{HyperSite, LoadStep};
use eider_infer::qwen38_flash_next::model::{
    ModelError, Qwen38FlashNextModel, Qwen38VectorVerifierProbeMode,
};
use eider_infer::qwen38_flash_next::mtp::MtpOp;
use eider_infer::qwen38_flash_next::ple::PleError;
use eider_infer::qwen38_flash_next::speculative::{
    pair_top1, speculative_cycle_argmax, target_stream_offset, vector_verifier_top1,
    verification_tokens, Qwen38FlashNextSpeculativeFrontier, Qwen38NextToken, VerifierOp,
};
use eider_infer::qwen38_flash_next::state::StateError;

const KINDS: [QwenLayerKind; 2] = [QwenLayerKind::LinearAttention, QwenLayerKind::FullAttention];

fn config() -> Qwen38FlashNextConfig {
    Qwen38FlashNextConfig {
        hidden: 8,
        vocab: 100,
        layers: 2,
        layer_types: vec![Qwen38LayerType::LinearAttention, Qwen38LayerType::FullAttention],
        q_heads: 2,
        kv_heads: 1,
        head_dim: 4,
        rotary_dim: 2,
        linear_key_heads: 2,
        linear_value_heads: 2,
        linear_key_head_dim: 4,
        linear_value_head_dim: 4,
        linear_conv_kernel: 4,
        experts: 4,
        experts_per_token: 2,
        expert_intermediate: 8,
        shared_expert_intermediate: 8,
        hc_count: 3,
        hc_lowrank: 5,
        ple_layer: 1,
        ple_embedding_dim: 24,
        ple_conv_kernel: 4,
        ngram_size: 3,
        heads_per_ngram: 2,
        ngram_shards: 16,
        ngram_vocab_base: 10,
        ngram_vocab_alignment: 8,
        indexer_heads: 1,
        indexer_kv_heads: 1,
        indexer_head_dim: 4,
        indexer_compress_ratio: 1,
        indexer_budget: 16,
        max_position_embeddings: 4096,
        eos_token_id: 99,
        rms_eps_bits: 7,
        rope_theta_bits: 0,
        mtp_layers: 1,
    }
}

fn model() -> Qwen38FlashNextModel {
    match Qwen38FlashNextModel::open(config(), 11) {
        Ok(load) => load.model,
        Err(_) => panic!("model"),
    }
}

fn drafting_model() -> Qwen38FlashNextModel {
    let mut model = model();
    model.mtp_loaded();
    model
}

fn shape() -> ForwardShape {
    ForwardShape { vocab: 100, hidden: 8, hc_count: 3, ple_layer: 1 }
}

fn paths() -> PrefillPaths {
    PrefillPaths {
        exact_ple: false,
        exact_gdn: false,
        exact_moe: false,
        serial_gdn_projections: false,
        serial_qsa_rows: false,
        canonical_moe_linears: false,
        exact_hyper_projections: false,
        traced: false,
    }
}

fn topology() -> LayerTopology<'static> {
    LayerTopology { weights: &KINDS, workspaces: &KINDS, states: &KINDS }
}

fn segment(page: u32, page_offset: usize, input_offset: usize, rows: usize) -> AppendSegment {
    AppendSegment { page, page_offset, input_offset, rows }
}

#[test]
fn residual_blocks_are_loaded_by_prefix() {
    let Ok(load) = Qwen38HyperConnectionWeights::load("a.b", &config(), true) else {
        panic!("block")
    };
    let tensors: Vec<(String, Vec<usize>)> =
        load.tensors.iter().map(|tensor| (tensor.name.clone(), tensor.shape.clone())).collect();
    assert_eq!(
        tensors,
        [
            ("a.b.hc_norm.weight".to_string(), vec![24]),
            ("a.b.input_mix_weight_down.weight".to_string(), vec![5, 24]),
            ("a.b.input_mix_weight_up.weight".to_string(), vec![24, 5]),
            ("a.b.block_inject_weight.weight".to_string(), vec![3, 24]),
        ]
    );
    let Ok(mixer) = Qwen38HyperConnectionWeights::load("m", &config(), false) else {
        panic!("mixer")
    };
    assert_eq!(mixer.tensors.len(), 3);
    let mut wide = config();
    wide.hidden = usize::MAX;
    assert!(matches!(
        Qwen38HyperConnectionWeights::load("m", &wide, true),
        Err(HyperConnectionError::Width { hidden: usize::MAX, hc_count: 3 })
    ));
}

#[test]
fn streams_are_mixed_and_injected() {
    let Ok(load) = Qwen38HyperConnectionWeights::load("a", &config(), true) else {
        panic!("block")
    };
    let Ok(workspace) = Qwen38HyperConnectionWorkspace::new(&config(), 4) else {
        panic!("workspace")
    };
    assert_eq!((workspace.normed, workspace.lowrank), (96, 20));
    assert_eq!((workspace.inject_logits, workspace.mixed), (12, 32));
    assert_eq!(workspace.device_bytes(), 4 * (96 + 20 + 96 + 12 + 32));
    assert_eq!(
        load.weights.mix(&workspace, 2),
        Ok(vec![
            HyperOp::Norm { tokens: 2, hidden: 8, hc_count: 3, eps_bits: 7 },
            HyperOp::Linear {
                linear: HyperLinear::MixDown,
                projection: HyperProjection::Scalar,
                input: HyperBuffer::Normed,
                output: HyperBuffer::Lowrank,
                tokens: 2,
            },
            HyperOp::SiluScale { values: 10, hc_count: 3 },
            HyperOp::Linear {
                linear: HyperLinear::MixUp,
                projection: HyperProjection::Scalar,
                input: HyperBuffer::Lowrank,
                output: HyperBuffer::GateLogits,
                tokens: 2,
            },
            HyperOp::Collapse { tokens: 2, hidden: 8, hc_count: 3 },
        ])
    );
    assert_eq!(load.weights.combine(&workspace, 4).map(|ops| ops.len()), Ok(2));
    assert_eq!(load.weights.mix(&workspace, 5), Err(HyperConnectionError::Workspace));
    assert_eq!(load.weights.combine(&workspace, 0), Err(HyperConnectionError::Workspace));
    let mut mixer = load.weights;
    mixer.inject = false;
    assert_eq!(mixer.combine(&workspace, 1), Err(HyperConnectionError::NoInjection));
    assert_eq!(
        Qwen38HyperConnectionWorkspace::new(&config(), 0),
        Err(HyperConnectionError::Capacity)
    );
    let Ok(prompt) = Qwen38HyperConnectionWorkspace::new_prefill(&config(), 4) else {
        panic!("workspace")
    };
    assert_eq!(prompt.device_bytes(), workspace.device_bytes());
    assert_eq!(
        load.weights.combine(&prompt, 3),
        Ok(vec![
            HyperOp::Linear {
                linear: HyperLinear::Inject,
                projection: HyperProjection::TensorCore,
                input: HyperBuffer::Normed,
                output: HyperBuffer::InjectLogits,
                tokens: 3,
            },
            HyperOp::Combine { tokens: 3, hidden: 8, hc_count: 3 },
        ])
    );
    assert_eq!(
        Qwen38HyperConnectionWorkspace::new_prefill(&config(), 0),
        Err(HyperConnectionError::Capacity)
    );
}

#[test]
fn a_model_is_loaded_layer_by_layer() {
    let Ok(load) = Qwen38FlashNextModel::open(config(), 11) else { panic!("model") };
    assert_eq!(load.steps.len(), 12);
    assert_eq!(load.steps[0], LoadStep::Embedding { vocab: 100, hidden: 8 });
    assert_eq!(load.steps[1], LoadStep::PleWeights);
    assert_eq!(load.steps[2], LoadStep::Hyper(HyperSite::Attention(0)));
    assert_eq!(
        load.steps[8],
        LoadStep::Attention { layer: 1, kind: QwenLayerKind::FullAttention }
    );
    assert_eq!(load.steps[10], LoadStep::Hyper(HyperSite::Final));
    assert_eq!(load.steps[11], LoadStep::LmHead { vocab: 100, hidden: 8 });
    assert_eq!(load.model.model_id, 11);
    assert!(!load.model.mtp_enabled());
    assert_eq!(load.model.config().hidden, 8);
    assert_eq!(load.model.check_lm_head(100, 8), Ok(()));
    assert_eq!(load.model.check_lm_head(100, 9), Err(ModelError::LmHead));
    let mut wide = config();
    wide.hc_count = usize::MAX;
    assert!(Qwen38FlashNextModel::open(wide, 1).is_err());
}

#[test]
fn residual_blocks_have_their_own_prefixes() {
    assert_eq!(
        HyperSite::Attention(7).prefix(),
        "model.language_model.layers.7.attn_hyper_connection"
    );
    assert_eq!(HyperSite::Mlp(0).prefix(), "model.language_model.layers.0.mlp_hyper_connection");
    assert_eq!(HyperSite::Final.prefix(), "model.language_model.hyper_connection_mixer");
    assert_eq!(HyperSite::DraftFinal.prefix(), "mtp.hyper_connection_mixer");
    let Ok(load) = HyperSite::DraftFinal.load(&config()) else { panic!("mixer") };
    assert!(!load.weights.inject);
}

#[test]
fn the_draft_block_is_loaded_on_demand() {
    let model = model();
    assert!(matches!(model.enable_mtp(false), Err(ModelError::NoDraftBlock)));
    let Ok(Some(load)) = model.enable_mtp(true) else { panic!("draft block") };
    assert_eq!(load.manifest.tensor_prefix, "mtp");
    assert_eq!(load.manifest.layer_kinds, [QwenLayerKind::FullAttention]);
    assert_eq!(load.indexer, "mtp.layers.0.self_attn.indexer");
    assert_eq!(load.tensors[1].name, "mtp.pre_fc_norm_hidden.weight");
    assert_eq!(load.tensors[1].shape, [24]);
    assert_eq!(load.blocks.len(), 3);
    assert!(matches!(drafting_model().enable_mtp(true), Ok(None)));
}

#[test]
fn workspaces_follow_the_model() {
    let model = model();
    let Ok(workspace) = model.new_prefill_workspace(4) else { panic!("workspace") };
    assert_eq!(workspace.buffers.streams, 96);
    assert_eq!(workspace.linear_layers, [true, false]);
    assert!(matches!(model.new_prefill_workspace(0), Err(ModelError::Capacity)));
    let Ok(verifier) =
        model.new_vector_verifier_probe_workspace(2, Qwen38VectorVerifierProbeMode::Exact)
    else {
        panic!("verifier")
    };
    assert_eq!(verifier.verify.snapshot_slots, 1);
    assert_eq!(verifier.buffers.top1_scratch, 26);
    assert!(verifier.exact_output_head);
    assert!(matches!(
        model.new_vector_verifier_probe_workspace(1, Qwen38VectorVerifierProbeMode::Fast),
        Err(ModelError::VerifierRows)
    ));
    assert!(matches!(
        model.new_vector_verifier_probe_workspace(3, Qwen38VectorVerifierProbeMode::ExactMoe),
        Err(ModelError::ExactMoeRows)
    ));
    assert!(matches!(model.new_speculative_workspace(2), Err(ModelError::Drafts)));
    let Ok(mut load) = Qwen38FlashNextModel::open(config(), 1) else { panic!("model") };
    load.model.manifest.linear_attention = None;
    assert!(matches!(
        load.model.new_decode_state(8),
        Err(StateError::Model(ModelError::NoLinearAttention))
    ));
    let mut recurrent = config();
    recurrent.layer_types[1] = Qwen38LayerType::LinearAttention;
    let Ok(load) = Qwen38FlashNextModel::open(recurrent, 1) else { panic!("model") };
    assert!(matches!(load.model.new_prefill_workspace(1), Err(ModelError::NoSparseLayer)));
    let mut sparse = config();
    sparse.layer_types[0] = Qwen38LayerType::FullAttention;
    let Ok(load) = Qwen38FlashNextModel::open(sparse, 1) else { panic!("model") };
    assert!(matches!(load.model.new_prefill_workspace(1), Err(ModelError::NoRecurrentLayer)));
}

#[test]
fn resources_follow_the_limits() {
    let limits = Qwen38FlashNextExecutionConfig {
        max_active_sequences: 3,
        max_context_tokens: 256,
        prefill_token_capacity: 4,
        speculative_drafts: 1,
        retained_prefix_bytes: 1000,
    };
    assert!(matches!(
        Qwen38FlashNextExecutionState::new(&model(), limits),
        Err(ModelError::DraftDisabled)
    ));
    let Ok(state) = Qwen38FlashNextExecutionState::new(&drafting_model(), limits) else {
        panic!("resources")
    };
    assert_eq!(state.sequence_cache.max_retained_bytes, 1000);
    assert_eq!(state.sampler_vocab, 100);
    let drafting = state.drafting.unwrap();
    assert_eq!(drafting.cache.max_retained_bytes, 1000);
    assert_eq!(drafting.buffers.prompt_streams, 96);
    assert_eq!((drafting.buffers.prompt_tokens, drafting.buffers.prompt_hidden), (4, 32));
    assert_eq!((drafting.buffers.hidden, drafting.buffers.width), (8, 24));
    assert_eq!(state.prefill_workspace.paths, paths());
    assert_eq!(state.prefill_workspace.snapshot_slots, 0);
    assert_eq!(state.prefill_workspace.linear_layers, [true, false]);
    let verifier = drafting.verifier;
    assert_eq!((verifier.verify.token_capacity, verifier.verify.snapshot_slots), (2, 1));
    assert_eq!(verifier.verify.buffers.streams, 48);
    assert_eq!((verifier.buffers.final_hidden, verifier.buffers.exact_logits), (16, 200));
    assert_eq!((verifier.buffers.top1_scratch, verifier.buffers.argmax), (26, 2));
    assert!(verifier.exact_hyper_projections && verifier.exact_output_head);
    assert!(verifier.verify.paths.exact_moe && verifier.verify.paths.serial_qsa_rows);
    let plain = Qwen38FlashNextExecutionConfig { speculative_drafts: 0, ..limits };
    let Ok(state) = Qwen38FlashNextExecutionState::new(&model(), plain) else {
        panic!("resources")
    };
    assert!(state.drafting.is_none());
    let mut three = config();
    three.layers = 4;
    three.layer_types = vec![
        Qwen38LayerType::FullAttention,
        Qwen38LayerType::LinearAttention,
        Qwen38LayerType::FullAttention,
        Qwen38LayerType::FullAttention,
    ];
    let Ok(mut load) = Qwen38FlashNextModel::open(three, 1) else { panic!("model") };
    load.model.mtp_loaded();
    let Ok(state) = Qwen38FlashNextExecutionState::new(&load.model, limits) else {
        panic!("resources")
    };
    assert_eq!(state.drafting.unwrap().cache.max_retained_bytes, 333);
}

#[test]
fn a_prompt_pass_runs_its_layers_in_order() {
    let segments = [segment(5, 126, 0, 2), segment(9, 0, 2, 1)];
    let pass = PrefillPass {
        shape: shape(),
        paths: paths(),
        topology: topology(),
        segments: &segments,
        rows: 3,
        position: 126,
        logits: Qwen38LogitsMode::Top1,
    };
    let Ok(ops) = prefill_tokens_inner(&pass) else { panic!("pass") };
    let rows: Vec<ForwardOp> = ops
        .iter()
        .copied()
        .filter(|op| matches!(op, ForwardOp::QsaPreparedRow { .. }))
        .collect();
    assert_eq!(
        rows,
        [
            ForwardOp::QsaPreparedRow { layer: 1, page: 5, page_offset: 126, row: 0, position: 126 },
            ForwardOp::QsaPreparedRow { layer: 1, page: 5, page_offset: 127, row: 1, position: 127 },
            ForwardOp::QsaPreparedRow { layer: 1, page: 9, page_offset: 0, row: 2, position: 128 },
        ]
    );
    assert!(ops.contains(&ForwardOp::KeepLastRow { offset: 48, width: 24 }));
    assert!(ops.contains(&ForwardOp::Mix {
        layer: 0,
        sublayer: Sublayer::Attention,
        rows: HyperRows::Batch(3),
    }));
    assert!(ops.contains(&ForwardOp::HeadTop1));
    let swaps = ops.iter().filter(|op| **op == ForwardOp::SwapStreams).count();
    assert_eq!(swaps, 5);
}

#[test]
fn a_traced_pass_names_each_stage() {
    let segments = [segment(0, 0, 0, 1)];
    let mut traced = paths();
    traced.traced = true;
    let pass = PrefillPass {
        shape: shape(),
        paths: traced,
        topology: topology(),
        segments: &segments,
        rows: 1,
        position: 0,
        logits: Qwen38LogitsMode::Skip,
    };
    let Ok(ops) = prefill_tokens_inner(&pass) else { panic!("pass") };
    let trace: Vec<(usize, Qwen38LayerProbeStage)> = ops
        .iter()
        .filter_map(|op| match op {
            ForwardOp::Trace { layer, stage, .. } => Some((*layer, *stage)),
            _ => None,
        })
        .collect();
    assert_eq!(trace.len(), 9);
    assert_eq!(trace[0], (0, Qwen38LayerProbeStage::Attention));
    assert_eq!(trace[4], (1, Qwen38LayerProbeStage::Ple));
    assert_eq!(trace[8], (1, Qwen38LayerProbeStage::Mlp));
    assert!(!ops.contains(&ForwardOp::HeadTop1));
}

#[test]
fn mixed_up_layers_are_refused() {
    let segments = [segment(0, 0, 0, 3)];
    let swapped = [QwenLayerKind::LinearAttention, QwenLayerKind::LinearAttention];
    let pass = PrefillPass {
        shape: shape(),
        paths: paths(),
        topology: LayerTopology { weights: &KINDS, workspaces: &KINDS, states: &swapped },
        segments: &segments,
        rows: 3,
        position: 0,
        logits: Qwen38LogitsMode::Skip,
    };
    assert_eq!(prefill_tokens_inner(&pass), Err(ForwardError::Topology { layer: 1 }));
    let mut exact = paths();
    exact.exact_moe = true;
    let pass = PrefillPass { paths: exact, topology: topology(), ..pass };
    assert_eq!(prefill_tokens_inner(&pass), Err(ForwardError::ExactMoeRows));
}

#[test]
fn a_decode_pass_takes_one_row() {
    let segments = [segment(4, 7, 0, 1)];
    let pass = DecodePass {
        shape: shape(),
        topology: topology(),
        segments: &segments,
        position: 135,
        logits: Qwen38LogitsMode::Full,
        traced: false,
    };
    let Ok(ops) = decode_token_inner(&pass) else { panic!("pass") };
    assert!(ops.contains(&ForwardOp::QsaToken {
        layer: 1,
        page: 4,
        page_offset: 7,
        position: 135,
    }));
    assert!(ops.contains(&ForwardOp::HeadLogits));
    assert!(ops.contains(&ForwardOp::MoeToken { layer: 0 }));
    let none: [AppendSegment; 0] = [];
    let pass = DecodePass { segments: &none, ..pass };
    assert_eq!(decode_token_inner(&pass), Err(ForwardError::NoPage));
    let long = [segment(4, 7, 0, 2)];
    let pass = DecodePass { segments: &long, ..pass };
    assert_eq!(decode_token_inner(&pass), Err(ForwardError::NotOneRow));
}

#[test]
fn prompts_and_tokens_are_admitted() {
    let model = model();
    let Ok(mut state) = model.new_decode_state(10) else { panic!("state") };
    assert_eq!(model.admit_tokens(&state, 4, &[1, 2, 3]), Ok(3));
    assert_eq!(model.admit_tokens(&state, 4, &[]), Err(ModelError::Tokens));
    assert_eq!(model.admit_tokens(&state, 2, &[1, 2, 3]), Err(ModelError::Tokens));
    assert_eq!(model.admit_tokens(&state, 4, &[1, 100]), Err(ModelError::Token));
    assert_eq!(model.admit_token(&state), Ok(()));
    state.position = 9;
    assert_eq!(model.admit_tokens(&state, 4, &[1, 2]), Err(ModelError::Position));
    state.position = usize::MAX;
    assert_eq!(model.admit_tokens(&state, 4, &[1, 2]), Err(ModelError::PositionOverflow));
    assert_eq!(model.admit_token(&state), Err(ModelError::Position));
    assert!(matches!(
        model.new_decode_state(0),
        Err(StateError::Model(ModelError::Context))
    ));
    assert!(matches!(
        model.new_decode_state(4097),
        Err(StateError::Model(ModelError::Context))
    ));
    let mut short = config();
    short.ngram_size = 1;
    let Ok(load) = Qwen38FlashNextModel::open(short, 1) else { panic!("model") };
    assert!(matches!(
        load.model.new_decode_state(10),
        Err(StateError::Ple(PleError::TokenWindow))
    ));
}

#[test]
fn a_state_is_appended_to_or_left_alone() {
    let model = model();
    let Ok(mut state) = model.new_decode_state(10) else { panic!("state") };
    assert_eq!(state.begin_append(), Ok(vec![0]));
    state.ple_window.push(5);
    assert_eq!(state.commit_append(1), Ok(()));
    assert_eq!(state.position(), 1);
    let committed = state.ple_window.clone();
    assert_eq!(state.begin_append(), Ok(vec![0]));
    state.ple_window.push(6);
    assert_eq!(state.abort_layers(), [0]);
    assert_eq!(state.abort_append(), Ok(()));
    assert_eq!(state.ple_window, committed);
    assert_eq!(state.position(), 1);
    assert_eq!(state.begin_append(), Ok(vec![0]));
    assert_eq!(state.begin_failed(), Ok(()));
    assert_eq!(state.ple_window, committed);
    assert_eq!(state.begin_append(), Ok(vec![0]));
    state.ple_window.push(6);
    state.ple_window.push(7);
    assert_eq!(state.commit_append_prefix(&[6]), Ok(()));
    assert_eq!(state.position(), 2);
}

#[test]
fn a_snapshot_is_restored_into_an_empty_state() {
    let model = model();
    let Ok(mut state) = model.new_decode_state(300) else { panic!("state") };
    state.ple_window.push(5);
    state.ple_window.push(6);
    state.position = 100;
    assert!(matches!(
        model.snapshot_sequence(&state, 128, 10, 20, &[40, 0]),
        Err(StateError::Model(ModelError::Snapshot))
    ));
    state.position = 128;
    let Ok(snapshot) = model.snapshot_sequence(&state, 128, 10, 20, &[40, 0]) else {
        panic!("snapshot")
    };
    assert_eq!(snapshot.position(), 128);
    assert_eq!(snapshot.device_bytes(), 70);
    assert!(matches!(
        model.snapshot_sequence(&state, 128, 10, 20, &[usize::MAX, 0]),
        Err(StateError::Model(ModelError::SnapshotBytes))
    ));
    let Ok(mut restored) = model.new_decode_state(300) else { panic!("state") };
    assert!(matches!(model.restore_layers(&snapshot, &restored), Ok(layers) if layers == [0]));
    assert!(model.restore_sequence_snapshot(&snapshot, &mut restored).is_ok());
    assert_eq!(restored.position(), 128);
    assert_eq!(restored.ple_window, state.ple_window);
    assert!(matches!(
        model.restore_layers(&snapshot, &restored),
        Err(StateError::Model(ModelError::SnapshotMismatch))
    ));
    let Ok(mut other) = model.new_decode_state(300) else { panic!("state") };
    other.states = vec![QwenLayerKind::FullAttention; 2];
    assert!(matches!(
        model.restore_layers(&snapshot, &other),
        Err(StateError::Model(ModelError::SnapshotLayers))
    ));
}

#[test]
fn a_state_that_cannot_take_a_snapshot_is_left_alone() {
    let model = model();
    let Ok(mut source) = model.new_decode_state(300) else { panic!("state") };
    source.ple_window.push(5);
    source.position = 128;
    let Ok(snapshot) = model.snapshot_sequence(&source, 128, 10, 20, &[40, 0]) else {
        panic!("snapshot")
    };
    let Ok(fresh) = model.new_decode_state(300) else { panic!("state") };
    let Ok(mut used) = model.new_decode_state(300) else { panic!("state") };
    used.position = 1;
    assert_eq!(
        model.restore_sequence_snapshot(&snapshot, &mut used),
        Err(StateError::Model(ModelError::SnapshotMismatch))
    );
    assert_eq!(used.position(), 1);
    assert_eq!(used.ple_window, fresh.ple_window);
    let Ok(mut short) = model.new_decode_state(127) else { panic!("state") };
    assert_eq!(
        model.restore_sequence_snapshot(&snapshot, &mut short),
        Err(StateError::Model(ModelError::SnapshotMismatch))
    );
    assert_eq!(short.position(), 0);
    let Ok(mut foreign) = model.new_decode_state(300) else { panic!("state") };
    foreign.model_id += 1;
    assert_eq!(
        model.restore_sequence_snapshot(&snapshot, &mut foreign),
        Err(StateError::Model(ModelError::SnapshotMismatch))
    );
    assert_eq!(foreign.ple_window, fresh.ple_window);
    let Ok(mut mixed) = model.new_decode_state(300) else { panic!("state") };
    mixed.states = vec![QwenLayerKind::FullAttention; 2];
    assert_eq!(
        model.restore_sequence_snapshot(&snapshot, &mut mixed),
        Err(StateError::Model(ModelError::SnapshotLayers))
    );
    assert_eq!(mixed.ple_window, fresh.ple_window);
    let Ok(mut open) = model.new_decode_state(300) else { panic!("state") };
    assert!(open.begin_append().is_ok());
    assert_eq!(
        model.restore_sequence_snapshot(&snapshot, &mut open),
        Err(StateError::Ple(PleError::AppendActive))
    );
    assert_eq!(open.position(), 0);
    let Ok(mut exact) = model.new_decode_state(128) else { panic!("state") };
    assert_eq!(model.restore_sequence_snapshot(&snapshot, &mut exact), Ok(()));
    assert_eq!(exact.position(), 128);
    assert_eq!(exact.ple_window, source.ple_window);
}

#[test]
fn the_draft_block_runs_beside_the_target() {
    let disabled = model();
    let model = drafting_model();
    assert!(matches!(
        model.new_mtp_sequence_state(None, 10),
        Err(ModelError::Admission)
    ));
    let Ok(mut state) = model.new_mtp_sequence_state(Some(2), 4) else { panic!("state") };
    assert!(matches!(
        disabled.mtp_forward_token(&state, 24),
        Err(ModelError::DraftDisabled)
    ));
    assert_eq!(
        disabled.mtp_prefill_tokens(&state, 4, 1, 24, 24),
        Err(ModelError::DraftDisabled)
    );
    assert!(matches!(
        model.mtp_forward_token(&state, 23),
        Err(ModelError::TargetStreams)
    ));
    assert!(model.mtp_forward_token(&state, 24).is_ok());
    let Ok(ops) = model.mtp_forward_token_body(&state, &[segment(3, 2, 0, 1)], true) else {
        panic!("token")
    };
    assert!(ops.contains(&MtpOp::QsaToken { page: 3, page_offset: 2, position: 2 }));
    assert!(ops.contains(&MtpOp::HeadTop1));
    state.token_committed();
    assert_eq!(state.position, 3);
    assert_eq!(model.mtp_prefill_tokens(&state, 4, 1, 24, 24), Ok(4));
    assert_eq!(
        model.mtp_prefill_tokens(&state, 4, 0, 24, 24),
        Err(ModelError::Tokens)
    );
    assert_eq!(
        model.mtp_prefill_tokens(&state, 4, 2, 24, 48),
        Err(ModelError::Position)
    );
    assert_eq!(
        model.mtp_prefill_tokens(&state, 4, 1, 23, 24),
        Err(ModelError::TargetStreams)
    );
    assert_eq!(
        model.mtp_prefill_tokens(&state, 4, 1, 24, 23),
        Err(ModelError::TargetRows)
    );
    let ops = model.mtp_prefill_body(&state, 3, &[segment(1, 127, 0, 1), segment(2, 0, 1, 2)]);
    let rows: Vec<usize> = ops
        .iter()
        .filter_map(|op| match op {
            MtpOp::QsaAppendRow { row, .. } => Some(*row),
            _ => None,
        })
        .collect();
    assert_eq!(rows, [0, 1, 2]);
    state.prompt_committed(4);
    assert_eq!(state.position, 4);
    assert!(matches!(
        model.mtp_forward_token(&state, 24),
        Err(ModelError::Position)
    ));
    assert!(matches!(model.new_mtp_workspace(0), Err(ModelError::Capacity)));
}

#[test]
fn a_draft_is_accepted_or_replaced() {
    let mut frontier = Qwen38FlashNextSpeculativeFrontier { token: 5, logit_bits: 1 };
    assert_eq!(verification_tokens(&frontier, 7), [5, 7]);
    let top = pair_top1(&[7, 9], &[2, 3]);
    let outcome = speculative_cycle_argmax(&mut frontier, 7, &top);
    assert_eq!(outcome.accepted_drafts, 1);
    assert_eq!(
        outcome.committed,
        [Qwen38NextToken { id: 5, value_bits: 1 }, Qwen38NextToken { id: 7, value_bits: 2 }]
    );
    assert_eq!((frontier.token, frontier.logit_bits), (9, 3));
    let top = pair_top1(&[8, 6], &[4, 5]);
    let outcome = speculative_cycle_argmax(&mut frontier, 7, &top);
    assert_eq!(outcome.accepted_drafts, 0);
    assert_eq!(outcome.committed, [Qwen38NextToken { id: 9, value_bits: 3 }]);
    assert_eq!((frontier.token, frontier.logit_bits), (8, 4));
    assert_eq!(target_stream_offset(3, 24), 72);
}

#[test]
fn the_verifier_reads_every_row() {
    let model = model();
    let Ok(verifier) =
        model.new_vector_verifier_probe_workspace(4, Qwen38VectorVerifierProbeMode::Fast)
    else {
        panic!("verifier")
    };
    let Ok(ops) = vector_verifier_top1(&verifier, 3, 8) else { panic!("head") };
    assert_eq!(
        ops,
        [
            VerifierOp::FinalMix { rows: HyperRows::Batch(3) },
            VerifierOp::CopyHidden { values: 24 },
            VerifierOp::HeadTop1 { rows: 3 },
            VerifierOp::ReadArgmax { rows: 3 },
        ]
    );
    assert_eq!(verifier.probe_verification_argmax(&[1, 2]), Ok(2));
    assert_eq!(verifier.probe_verification_argmax(&[]), Err(ModelError::Tokens));
    assert_eq!(verifier.probe_verification_argmax(&[0; 5]), Err(ModelError::Tokens));
    let Ok(exact) = model.new_speculative_workspace(1) else { panic!("verifier") };
    assert_eq!(vector_verifier_top1(&exact, 1, 8), Err(ModelError::ExactHeadRows));
    let token = Qwen38NextToken { id: 3, value_bits: 4 };
    assert_eq!(model.decode_token(Some(token)), Ok(token));
    assert_eq!(model.decode_token(None), Err(ModelError::NoResult));
    assert_eq!(model.sample_logits_gpu(&[4, 6]), Ok(6));
    assert_eq!(model.sample_logits_gpu(&[]), Err(ModelError::NoResult));
}
