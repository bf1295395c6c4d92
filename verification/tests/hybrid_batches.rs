//! Batches of the hybrid model: admission, packing, schedules and transactions.

use eider_infer::manifest::{
    QwenArchitecture, QwenFfnConfig, QwenLayerKind, QwenModelManifest,
};
use eider_infer::qwen36::attention::{rotary_sections, AttentionLayer, MropeSections};
use eider_infer::qwen36::batch::{
    decode_lengths, pack_decode, pack_prefill, prefill_lengths, segmented_graphs, BatchError,
    Qwen36DecodeBatchWorkspace, Qwen36DecodeRow, Qwen36DecodedBatch, Qwen36NextToken,
    Qwen36PrefillBatchWorkspace, Qwen36PrefillRow, Qwen36SequenceState,
};
use eider_infer::qwen36::batch_append::{BatchAppend, BatchStage};
use eider_infer::qwen36::capture::{CaptureError, DFlash2TargetCapture};
use eider_infer::qwen36::dflash2::config::DFlash2Config;
use eider_infer::qwen36::dflash2::sequence::{ContextOp, WindowError};
use eider_infer::qwen36::ffn::{
    BatchFfnWorkspace, DenseWeights, FfnError, FfnWeights, MoeWeights,
};
use eider_infer::qwen36::gdn::GdnLayer;
use eider_infer::qwen36::linear::{Linear, Storage};
use eider_infer::qwen36::model::{
    CompanionAppend, CompanionError, NoCompanion, Qwen36Attention, Qwen36LayerBlock,
    Qwen36TextModel,
};
use eider_infer::qwen36::schedule::{
    DecodeSchedule, GraphPart, LayerPass, LayerStep, PrefillSchedule, RowBuffer,
};

fn linear(rows: usize, cols: usize) -> Linear {
    Linear {
        storage: Storage::Bf16,
        rows,
        cols,
        input_scale: None,
        channel_scaled: false,
        weight_only: false,
    }
}

fn manifest() -> QwenModelManifest {
    QwenModelManifest {
        architecture: QwenArchitecture::Qwen36,
        tensor_prefix: "model".to_string(),
        hidden: 16,
        layers: 2,
        vocab: 100,
        intermediate: 24,
        q_heads: 4,
        kv_heads: 2,
        head_dim: 4,
        rotary_dim: 2,
        rms_eps_bits: 0,
        rope_theta_bits: 0,
        mrope_sections: Some([1, 2, 3, 4]),
        ffn: QwenFfnConfig::Dense,
        layer_kinds: vec![QwenLayerKind::LinearAttention, QwenLayerKind::FullAttention],
        linear_attention: None,
        shared_expert_intermediate: None,
        mtp_layers: 0,
    }
}

fn dense() -> FfnWeights {
    FfnWeights::Dense(DenseWeights { gate_up: linear(48, 16), down: linear(16, 24) })
}

fn model() -> Qwen36TextModel {
    let attention = AttentionLayer {
        hidden: 16,
        q_heads: 4,
        kv_heads: 2,
        head_dim: 4,
        rotary_dim: 2,
        sections: Some(MropeSections { v0: 1, v1: 2, v2: 3, v3: 4 }),
        q: linear(32, 16),
        k: linear(8, 16),
        v: linear(8, 16),
        o: linear(16, 16),
    };
    let recurrent = GdnLayer {
        hidden: 16,
        value_heads: 2,
        value_head_dim: 4,
        qkv: linear(24, 16),
        z: linear(8, 16),
        out: linear(16, 8),
    };
    Qwen36TextModel {
        model_id: 3,
        manifest: manifest(),
        layers: vec![
            Qwen36LayerBlock {
                attention: Qwen36Attention::LinearAttention(recurrent),
                ffn: dense(),
            },
            Qwen36LayerBlock {
                attention: Qwen36Attention::FullAttention(attention),
                ffn: dense(),
            },
        ],
        lm_head: linear(100, 16),
        mtp: None,
        dflash2: None,
    }
}

fn state(position: usize) -> Qwen36SequenceState {
    Qwen36SequenceState { model_id: 3, position, max_tokens: 40 }
}

#[test]
fn prompt_rows_are_admitted_in_order() {
    let model = model();
    let Ok(allocation) = model.new_prefill_batch_workspace(2, 6, 40) else { panic!("workspace") };
    let workspace = allocation.workspace;
    assert_eq!(workspace.sequence_capacity(), 2);
    assert_eq!(workspace.token_capacity(), 6);
    assert_eq!(workspace.max_context_tokens(), 40);
    assert_eq!(workspace.prompt_hidden(2), RowBuffer::Stream);
    assert_eq!(workspace.prompt_hidden(3), RowBuffer::FeedForward);
    let first = state(10);
    let second = state(20);
    let rows = [
        Qwen36PrefillRow { token_ids: &[1, 2, 3], sequence: &first },
        Qwen36PrefillRow { token_ids: &[4, 5], sequence: &second },
    ];
    assert_eq!(workspace.admit_prefill(3, 100, &rows, 2), Ok(5));
    assert_eq!(
        workspace.admit_prefill(4, 100, &rows, 2),
        Err(BatchError::ForeignWorkspace)
    );
    assert_eq!(
        workspace.admit_prefill(3, 100, &rows, 1),
        Err(BatchError::Appends { rows: 2, appends: 1 })
    );
    assert_eq!(
        workspace.admit_prefill(3, 100, &[], 0),
        Err(BatchError::Rows { capacity: 2, rows: 0 })
    );
    assert_eq!(
        workspace.admit_prefill(3, 5, &rows, 2),
        Err(BatchError::TokenId { vocab: 5, token: 5 })
    );
    let empty = [
        Qwen36PrefillRow { token_ids: &[1], sequence: &first },
        Qwen36PrefillRow { token_ids: &[], sequence: &second },
    ];
    assert_eq!(workspace.admit_prefill(3, 100, &empty, 2), Err(BatchError::EmptyRow));
    let long = [Qwen36PrefillRow { token_ids: &[0; 7], sequence: &first }];
    assert_eq!(
        workspace.admit_prefill(3, 100, &long, 1),
        Err(BatchError::TokenCount { capacity: 6, tokens: 7 })
    );
    let foreign = Qwen36SequenceState { model_id: 9, ..state(0) };
    let rows = [Qwen36PrefillRow { token_ids: &[1], sequence: &foreign }];
    assert_eq!(workspace.admit_prefill(3, 100, &rows, 1), Err(BatchError::ForeignState));
    let full = state(38);
    let rows = [Qwen36PrefillRow { token_ids: &[1, 2, 3], sequence: &full }];
    assert_eq!(
        workspace.admit_prefill(3, 100, &rows, 1),
        Err(BatchError::SequenceCapacity { position: 41, max_tokens: 40, max_context_tokens: 40 })
    );
    let last = state(usize::MAX);
    let rows = [Qwen36PrefillRow { token_ids: &[1], sequence: &last }];
    assert_eq!(
        workspace.admit_prefill(3, 100, &rows, 1),
        Err(BatchError::PositionOverflow { position: usize::MAX, tokens: 1 })
    );
    assert!(matches!(
        Qwen36PrefillBatchWorkspace::new(3, 0, 6, 40),
        Err(BatchError::Capacity)
    ));
}

#[test]
fn prompt_rows_are_packed_one_after_the_other() {
    let first = state(10);
    let second = state(20);
    let rows = [
        Qwen36PrefillRow { token_ids: &[1, 2, 3], sequence: &first },
        Qwen36PrefillRow { token_ids: &[4, 5], sequence: &second },
    ];
    let packed = pack_prefill(&rows, 3);
    assert_eq!(packed.token_ids, [1, 2, 3, 4, 5]);
    assert_eq!(packed.positions, [10, 11, 12, 20, 21]);
    assert_eq!(packed.sequence_offsets, [0, 3, 0]);
    assert_eq!(packed.sequence_lengths, [3, 2, 0]);
}

#[test]
fn decode_rows_are_admitted_and_packed() {
    let model = model();
    let Ok(allocation) = model.new_decode_batch_workspace(3, 40, &None) else {
        panic!("workspace")
    };
    let workspace = allocation.workspace;
    assert_eq!((workspace.capacity(), workspace.max_context_tokens()), (3, 40));
    let first = state(10);
    let second = state(40);
    let rows = [Qwen36DecodeRow { token_id: 7, sequence: &first }];
    assert_eq!(workspace.admit_decode(3, 100, &rows, 1), Ok(()));
    assert_eq!(
        workspace.admit_decode(3, 100, &rows, 0),
        Err(BatchError::Appends { rows: 1, appends: 0 })
    );
    assert_eq!(
        workspace.admit_decode(3, 7, &rows, 1),
        Err(BatchError::TokenId { vocab: 7, token: 7 })
    );
    let full = [Qwen36DecodeRow { token_id: 7, sequence: &second }];
    assert_eq!(
        workspace.admit_decode(3, 100, &full, 1),
        Err(BatchError::SequenceCapacity { position: 40, max_tokens: 40, max_context_tokens: 40 })
    );
    let packed = pack_decode(&rows, 3);
    assert_eq!(packed.token_ids.len(), 3);
    assert_eq!((packed.token_ids[0], packed.positions[0]), (7, 10));
    assert!(matches!(
        Qwen36DecodeBatchWorkspace::new(3, 0, 40, false),
        Err(BatchError::Capacity)
    ));
    assert!(segmented_graphs(&Some("0".to_string())));
    assert!(segmented_graphs(&None));
    assert!(!segmented_graphs(&Some("yes".to_string())));
    let mut sequence = state(10);
    sequence.commit_append(3);
    assert_eq!(sequence.position, 13);
}

#[test]
fn decoded_batches_are_read_back() {
    let batch = Qwen36DecodedBatch { rows: 2, vocab: 33 };
    assert_eq!((batch.len(), batch.vocab(), batch.is_empty()), (2, 33, false));
    assert_eq!(batch.copy_logits(), Ok(66));
    assert_eq!(batch.mask_logits(4), Ok(4));
    assert_eq!(
        batch.mask_logits(3),
        Err(BatchError::MaskWords { expected: 4, actual: 3 })
    );
    assert_eq!(
        batch.top1(&[5, 6], &[7, 8]),
        [Qwen36NextToken { id: 5, value_bits: 7 }, Qwen36NextToken { id: 6, value_bits: 8 }]
    );
    assert_eq!(batch.sample_topk_topp(2), Ok(()));
    assert_eq!(
        batch.sample_topk_topp(1),
        Err(BatchError::SamplingRows { expected: 2, actual: 1 })
    );
    let huge = Qwen36DecodedBatch { rows: usize::MAX, vocab: 64 };
    assert_eq!(huge.copy_logits(), Err(BatchError::LogitsOverflow));
    assert_eq!(huge.mask_logits(4), Err(BatchError::MaskOverflow));
}

#[test]
fn a_decode_batch_ends_with_its_head() {
    let model = model();
    let Ok(allocation) = model.new_decode_batch_workspace(3, 40, &None) else {
        panic!("workspace")
    };
    let workspace = allocation.workspace;
    let sequence = state(10);
    let rows = [Qwen36DecodeRow { token_id: 7, sequence: &sequence }];
    let Ok(run) = model.decode_batch(&workspace, &rows, 1, &None) else {
        panic!("batch")
    };
    assert_eq!(run.steps[0], LayerStep::Gather { rows: 1 });
    assert!(run.steps.contains(&LayerStep::FinalNorm { rows: 3 }));
    assert_eq!((run.decoded.len(), run.decoded.vocab()), (1, model.manifest.vocab));
    let other = state(4);
    let pair = [
        Qwen36DecodeRow { token_id: 7, sequence: &sequence },
        Qwen36DecodeRow { token_id: 9, sequence: &other },
    ];
    let Ok(run) = model.decode_batch(&workspace, &pair, 2, &None) else {
        panic!("batch")
    };
    assert_eq!(run.decoded.len(), 2);
    assert_eq!(run.packed.token_ids[..2], [7, 9]);
    assert_eq!(decode_lengths(&pair), [1, 1]);
    let chunks = [
        Qwen36PrefillRow { token_ids: &[1, 2, 3], sequence: &sequence },
        Qwen36PrefillRow { token_ids: &[], sequence: &other },
    ];
    assert_eq!(prefill_lengths(&chunks), [3, 0]);
    let swaps = run.steps.iter().filter(|step| **step == LayerStep::Swap).count();
    assert_eq!(swaps, 2);
    let Ok(traced) = model.trace_decode_batch(&workspace, &rows, 1, &None) else {
        panic!("batch")
    };
    let traces = traced.steps.iter().filter(|step| matches!(step, LayerStep::Trace { .. }));
    assert_eq!(traces.count(), 2);
    assert!(model.decode_batch(&workspace, &rows, 2, &None).is_err());
}

#[test]
fn a_prompt_batch_restores_its_buffers() {
    let kinds = [QwenLayerKind::LinearAttention, QwenLayerKind::FullAttention];
    let Ok(capture) = DFlash2TargetCapture::new(&[1], 4, 16) else { panic!("capture") };
    let capture = Some(capture);
    let schedule = PrefillSchedule {
        kinds: &kinds,
        sequences: 1,
        total: 4,
        token_capacity: 8,
        graphs: false,
        serial_projections: false,
        serial_recurrence: false,
        serial_rows: false,
        capture: &capture,
    };
    let steps = schedule.plan_steps();
    assert_eq!(steps[0], LayerStep::Gather { rows: 4 });
    assert!(steps.contains(&LayerStep::Capture { layer: 1, tap: 0, rows: 4 }));
    let swaps = steps.iter().filter(|step| **step == LayerStep::Swap).count();
    assert_eq!(swaps % 2, 0);
    assert_eq!(steps.last(), Some(&LayerStep::Synchronize));
    let model = model();
    let Ok(allocation) = model.new_prefill_batch_workspace(2, 8, 40) else { panic!("workspace") };
    let workspace = allocation.workspace;
    let sequence = state(0);
    let rows = [Qwen36PrefillRow { token_ids: &[1, 2, 3, 4], sequence: &sequence }];
    let Ok(run) = model.prefill_batch(&workspace, &rows, 1, &capture) else { panic!("batch") };
    assert_eq!(run.total_tokens, 4);
    assert_eq!(run.steps, steps);
}

#[test]
fn graphs_hold_what_they_replay() {
    let kinds = [QwenLayerKind::LinearAttention, QwenLayerKind::FullAttention];
    let pass = LayerPass {
        decode: true,
        rows: 3,
        active: 2,
        sequences: 2,
        serial_projections: false,
        serial_recurrence: false,
        serial_rows: false,
    };
    let captured = pass.capture_layer_graphs(&kinds);
    assert!(captured.contains(&LayerStep::BeginGraph { layer: 0, part: GraphPart::Whole }));
    assert!(captured.contains(&LayerStep::EndGraph { layer: 1, part: GraphPart::PostAttention }));
    let schedule = DecodeSchedule {
        kinds: &kinds,
        capacity: 3,
        active: 2,
        graphs: true,
        capture: &None,
        trace: false,
        hidden: 16,
        head: linear(100, 16),
    };
    let steps = schedule.plan_steps();
    assert!(steps.contains(&LayerStep::Launch { layer: 0, part: GraphPart::Whole }));
    let launch = |part| {
        steps.iter().position(|step| *step == LayerStep::Launch { layer: 1, part }).unwrap()
    };
    let cache = steps
        .iter()
        .position(|step| matches!(step, LayerStep::DecodeCache { layer: 1, .. }))
        .unwrap();
    assert!(launch(GraphPart::PreAttention) < cache && cache < launch(GraphPart::PostAttention));
}

#[test]
fn captures_follow_ordered_layers() {
    let Ok(capture) = DFlash2TargetCapture::new(&[1, 4], 3, 16) else { panic!("capture") };
    assert_eq!(capture.values, 96);
    assert_eq!(capture.tap(4), Some(1));
    assert_eq!(capture.tap(2), None);
    assert!(matches!(DFlash2TargetCapture::new(&[4, 1], 3, 16), Err(CaptureError::Shape)));
    assert!(matches!(DFlash2TargetCapture::new(&[], 3, 16), Err(CaptureError::Shape)));
    assert!(matches!(DFlash2TargetCapture::new(&[1], 0, 16), Err(CaptureError::Shape)));
}

#[test]
fn a_batch_commits_all_of_its_rows() {
    let mut batch: BatchAppend<u8> = BatchAppend::new(2);
    let mut stages = Vec::new();
    let mut counts = Vec::new();
    while batch.stage() != BatchStage::Finished {
        stages.push(batch.stage());
        counts.push(batch.call_rows(&[3, 5]));
        batch.step(Ok(()));
    }
    assert_eq!(counts, [3, 5, 0, 0, 0, 3, 3, 5, 5]);
    assert_eq!(
        stages,
        [
            BatchStage::Reserve(0),
            BatchStage::Reserve(1),
            BatchStage::Begin(0),
            BatchStage::Begin(1),
            BatchStage::Body,
            BatchStage::Commit(0),
            BatchStage::CommitState(0),
            BatchStage::Commit(1),
            BatchStage::CommitState(1),
        ]
    );
    assert_eq!(batch.finish(), Ok(()));
}

#[test]
fn a_failed_batch_releases_its_rows() {
    let mut batch: BatchAppend<u8> = BatchAppend::new(2);
    let mut released = 0;
    let mut rolled_back = 0;
    while batch.stage() != BatchStage::Finished {
        match batch.stage() {
            BatchStage::Body => batch.step(Err(9)),
            BatchStage::Release { .. } => {
                released += 1;
                batch.step(Ok(()));
            }
            BatchStage::Rollback(_) => {
                rolled_back += 1;
                batch.step(Ok(()));
            }
            _ => batch.step(Ok(())),
        }
    }
    assert_eq!((released, rolled_back), (2, 2));
    assert_eq!(batch.finish(), Err(9));
}

#[test]
fn a_late_failure_keeps_a_prefix() {
    let mut batch: BatchAppend<u8> = BatchAppend::new(2);
    let mut kept = Vec::new();
    while batch.stage() != BatchStage::Finished {
        match batch.stage() {
            BatchStage::Commit(1) => batch.step(Err(4)),
            BatchStage::CommitState(row) => {
                kept.push(row);
                batch.step(Ok(()));
            }
            _ => batch.step(Ok(())),
        }
    }
    assert_eq!(kept, [0]);
    assert_eq!(batch.finish(), Err(4));
}

#[test]
fn the_model_names_its_layers() {
    let model = model();
    assert_eq!(model.batch_layer_count(), 2);
    assert_eq!(model.batch_linear_layers(), [true, false]);
    assert_eq!(model.layers[1].kind(), QwenLayerKind::FullAttention);
    assert_eq!(
        rotary_sections(&model.manifest),
        Some(MropeSections { v0: 1, v1: 2, v2: 3, v3: 4 })
    );
    let Ok(ffn) = BatchFfnWorkspace::new(&[dense()], &dense(), 16, 4) else { panic!("ffn") };
    let Ok(sizes) = model.capture_decode_layer_trace(&dense(), &ffn, 2) else { panic!("trace") };
    assert_eq!((sizes.hidden, sizes.dense, sizes.routes), (32, 32, 0));
    let moe = FfnWeights::Moe(MoeWeights {
        cutlass: true,
        grouped: true,
        experts: 8,
        experts_per_token: 2,
        expert_intermediate: 4,
        norm_topk_prob: true,
        shared: Storage::Bf16,
    });
    assert!(matches!(
        model.capture_decode_layer_trace(&moe, &ffn, 2),
        Err(FfnError::WorkspaceKind)
    ));
}

#[test]
fn a_companion_is_enabled_once_it_fits() {
    let mut model = model();
    assert!(!model.dflash2_enabled());
    assert!(matches!(model.companion(), Err(NoCompanion)));
    assert!(matches!(model.enable_dflash2_capture(4), Err(CompanionError::NotEnabled)));
    let config = DFlash2Config {
        vocab: 100,
        hidden: 16,
        intermediate: 24,
        layers: 1,
        heads: 4,
        kv_heads: 2,
        head_dim: 4,
        max_seq_len: 64,
        rms_norm_eps_bits: 0x358637bd,
        rope_theta_bits: 0x4b189680,
        sliding_window: 32,
        block_size: 8,
        mask_token: 99,
        conv_group_size: 8,
        conv_kernel_size: 2,
        selector_rank: 2,
        selector_top_k: 3,
        target_layers: vec![1],
        target_layer_count: 2,
    };
    let other = DFlash2Config { vocab: 101, ..config.clone() };
    assert!(model.enable_dflash2(other).is_err());
    assert!(!model.dflash2_enabled());
    assert!(model.enable_dflash2(config).is_ok());
    assert!(model.dflash2_enabled());
    assert_eq!(model.companion().map(|draft| draft.config.selector_top_k), Ok(3));
    let Ok(capture) = model.enable_dflash2_capture(4) else { panic!("capture") };
    assert_eq!(capture.values, 64);
    let Ok(draft) = model.companion() else { panic!("companion") };
    let mut window = draft.config.new_sequence_state();
    assert!(matches!(
        model.dflash2_append(&mut window, &None, 0, 2),
        Err(CompanionAppend::NoCapture)
    ));
    let capture = Some(capture);
    assert!(matches!(
        model.dflash2_append(&mut window, &capture, 3, 2),
        Err(CompanionAppend::Window(WindowError::ContextAppend))
    ));
    assert_eq!(window.position, 0);
    let Ok(ops) = model.dflash2_append(&mut window, &capture, 1, 3) else { panic!("append") };
    assert_eq!(ops[1], ContextOp::Load { source: 16, values: 48 });
    assert_eq!((window.position, window.layers[0]), (3, 3));
    assert!(matches!(
        model.enable_dflash2_capture(0),
        Err(CompanionError::Capture(CaptureError::Shape))
    ));
}
