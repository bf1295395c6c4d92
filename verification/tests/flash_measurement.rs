//! Measurement of single Flash Next blocks.

use eider_infer::manifest::QwenLayerKind;
use eider_infer::qwen36::gdn::GdnError;
use eider_infer::qwen38_flash_next::benchmark::{
    input_pattern, reject_non_finite, require_bitwise_equal, BenchError, LayerWork, Measured,
    Qwen38MtpMoeMicrobench, Qwen38TargetLayerMicrobench, TargetAttention,
};
use eider_infer::qwen38_flash_next::config::{Qwen38FlashNextConfig, Qwen38LayerType};
use eider_infer::qwen38_flash_next::gdn_benchmark::{GdnSerialOp, Qwen38GdnPrefillMicrobench};
use eider_infer::qwen38_flash_next::hyper_benchmark::{
    compare_exact_rows, ComparedBuffer, ComparedRows, ExactRowOp, Qwen38HyperPrefillMicrobench,
};
use eider_infer::qwen38_flash_next::hyperconnection::{
    HyperConnectionError, HyperOp, HyperProjection,
};
use eider_infer::qwen38_flash_next::qsa_benchmark::{
    populate_qsa_history, QsaBatchedOp, QsaRow, QsaRun, QsaSerialOp, Qwen38QsaPrefillMicrobench,
};

const PAGE: usize = 128;

fn config() -> Qwen38FlashNextConfig {
    Qwen38FlashNextConfig {
        hidden: 8,
        vocab: 100,
        layers: 3,
        layer_types: vec![
            Qwen38LayerType::LinearAttention,
            Qwen38LayerType::FullAttention,
            Qwen38LayerType::FullAttention,
        ],
        q_heads: 2,
        kv_heads: 1,
        head_dim: 4,
        rotary_dim: 2,
        linear_key_heads: 2,
        linear_value_heads: 2,
        linear_key_head_dim: 4,
        linear_value_head_dim: 4,
        linear_conv_kernel: 4,
        experts: 4,
        experts_per_token: 2,
        expert_intermediate: 8,
        shared_expert_intermediate: 8,
        hc_count: 3,
        hc_lowrank: 5,
        ple_layer: 1,
        ple_embedding_dim: 24,
        ple_conv_kernel: 4,
        ngram_size: 3,
        heads_per_ngram: 2,
        ngram_shards: 16,
        ngram_vocab_base: 10,
        ngram_vocab_alignment: 8,
        indexer_heads: 1,
        indexer_kv_heads: 1,
        indexer_head_dim: 4,
        indexer_compress_ratio: 1,
        indexer_budget: 150,
        max_position_embeddings: 4096,
        eos_token_id: 99,
        rms_eps_bits: 7,
        rope_theta_bits: 0,
        mtp_layers: 1,
    }
}

fn wide() -> Qwen38FlashNextConfig {
    Qwen38FlashNextConfig { hidden: usize::MAX, ..config() }
}

fn work<T: Copy>(ops: &[Measured<T>]) -> Vec<T> {
    ops.iter()
        .filter_map(|op| match op {
            Measured::Work(op) => Some(*op),
            Measured::Event(_) => None,
        })
        .collect()
}

fn events<T>(ops: &[Measured<T>]) -> Vec<usize> {
    ops.iter()
        .filter_map(|op| match op {
            Measured::Event(index) => Some(*index),
            Measured::Work(_) => None,
        })
        .collect()
}

#[test]
fn a_target_layer_is_measured_in_seven_stages() {
    let Ok(bench) = Qwen38TargetLayerMicrobench::open(&config(), 1, PAGE) else {
        panic!("layer")
    };
    let TargetAttention::Qsa { layer_mask, pages, context } = &bench.attention else {
        panic!("sparse layer")
    };
    assert_eq!(layer_mask, &[false, true, true]);
    assert_eq!((*pages, *context), (1, PAGE));
    assert_eq!(bench.stream_values, 24);
    assert_eq!(
        bench.blocks.attention.tensors[0].name,
        "model.language_model.layers.1.attn_hyper_connection.hc_norm.weight"
    );
    let measured = bench.profile();
    assert_eq!(events(&measured), (0..8).collect::<Vec<usize>>());
    assert_eq!(work(&measured), work(&bench.enqueue()));
    assert_eq!(events(&bench.enqueue()), Vec::<usize>::new());
    let ops = work(&measured);
    assert_eq!(ops[0], LayerWork::RepeatStreams { tokens: 1, hidden: 8, hc_count: 3 });
    assert_eq!(
        ops[2],
        LayerWork::Attention { layer: 1, kind: QwenLayerKind::FullAttention, tokens: 1 }
    );
    assert_eq!(ops.iter().filter(|op| **op == LayerWork::SwapStreams).count(), 2);
    let Ok(linear) = Qwen38TargetLayerMicrobench::open(&config(), 0, PAGE) else {
        panic!("layer")
    };
    assert!(matches!(linear.attention, TargetAttention::Linear(_)));
    assert!(matches!(
        Qwen38TargetLayerMicrobench::open(&config(), 3, PAGE),
        Err(BenchError::Layer { layers: 3, layer: 3 })
    ));
    assert!(matches!(
        Qwen38TargetLayerMicrobench::open(&wide(), 0, PAGE),
        Err(BenchError::HyperConnection(HyperConnectionError::Width { .. }))
    ));
}

#[test]
fn outputs_must_be_finite() {
    let finite = [0u32, 1.5f32.to_bits(), f32::MAX.to_bits(), (-0.0f32).to_bits()];
    assert_eq!(reject_non_finite(&finite), Ok(()));
    assert_eq!(reject_non_finite(&[0, f32::NAN.to_bits()]), Err(BenchError::NonFinite));
    assert_eq!(reject_non_finite(&[f32::INFINITY.to_bits()]), Err(BenchError::NonFinite));
    let bench = Qwen38MtpMoeMicrobench::open(&config());
    assert_eq!(bench.manifest.tensor_prefix, "mtp");
    assert_eq!(bench.manifest.layers, 1);
    assert_eq!(bench.validate(&finite), Ok(()));
    assert_eq!(
        bench.validate(&[f32::NEG_INFINITY.to_bits()]),
        Err(BenchError::NonFinite)
    );
}

#[test]
fn outputs_are_compared_bit_by_bit() {
    assert_eq!(require_bitwise_equal(&[1, 2], &[1, 2]), Ok(()));
    assert_eq!(
        require_bitwise_equal(&[1, 2], &[1]),
        Err(BenchError::Length { expected: 2, actual: 1 })
    );
    assert_eq!(
        require_bitwise_equal(&[1, 2, 3], &[1, 4, 5]),
        Err(BenchError::Differs { index: 1 })
    );
}

#[test]
fn inputs_are_deterministic() {
    let values = input_pattern(2, 3, 29, 17, 11, 61);
    assert_eq!(values, [11, 28, 45, 40, 57, 13]);
    assert_eq!(input_pattern(3, 0, 29, 17, 11, 61), Vec::<usize>::new());
}

#[test]
fn exact_rows_run_one_by_one() {
    let Ok(bench) = Qwen38HyperPrefillMicrobench::open(&config(), 2) else { panic!("block") };
    let Ok(serial) = bench.enqueue_serial() else { panic!("serial") };
    let Ok(tensor) = bench.enqueue_tensor() else { panic!("tensor") };
    assert_eq!(serial.len(), 7);
    assert_eq!(tensor.len(), 7);
    for (ops, path) in
        [(&serial, HyperProjection::Scalar), (&tensor, HyperProjection::TensorCore)]
    {
        let projections: Vec<HyperProjection> = ops
            .iter()
            .filter_map(|op| match op {
                HyperOp::Linear { projection, .. } => Some(*projection),
                _ => None,
            })
            .collect();
        assert_eq!(projections, [path; 3]);
    }
    assert_ne!(serial, tensor);
    let ops = bench.validate_exact_rows();
    assert_eq!(ops.len(), 2 * 8 + 6);
    assert_eq!(ops[8], ExactRowOp::LoadStreams { offset: 24, values: 24 });
    assert_eq!(ops[9], ExactRowOp::LoadBlock { offset: 8, values: 8 });
    assert_eq!(ops[15], ExactRowOp::StoreStreams { offset: 24, values: 24 });
    assert_eq!(
        ops[21],
        ExactRowOp::Compare { buffer: ComparedBuffer::Combined, values: 48 }
    );
    assert!(matches!(
        Qwen38HyperPrefillMicrobench::open(&config(), 0),
        Err(BenchError::Tokens)
    ));
    assert!(matches!(
        Qwen38HyperPrefillMicrobench::open(&wide(), 1),
        Err(BenchError::HyperConnection(_))
    ));
}

#[test]
fn compared_rows_name_the_first_buffer_that_differs() {
    let rows = |inject: u32, combined: u32| ComparedRows {
        normed: vec![1, 2],
        mixed: vec![3],
        inject_logits: vec![inject],
        combined: vec![combined],
    };
    assert_eq!(compare_exact_rows(&rows(4, 5), &rows(4, 5)), Ok(()));
    assert_eq!(
        compare_exact_rows(&rows(4, 5), &rows(6, 7)),
        Err((ComparedBuffer::InjectLogits, BenchError::Differs { index: 0 }))
    );
    assert_eq!(
        compare_exact_rows(&rows(4, 5), &rows(4, 7)),
        Err((ComparedBuffer::Combined, BenchError::Differs { index: 0 }))
    );
}

#[test]
fn a_sparse_prompt_lies_on_its_pages() {
    let Ok(bench) = Qwen38QsaPrefillMicrobench::open_with_context(&config(), 200, 128, 512, PAGE)
    else {
        panic!("prompt")
    };
    assert_eq!(bench.layer, 1);
    assert_eq!(bench.page_slots, 3);
    assert_eq!(bench.page_table, [0, 1, 2, 0]);
    assert_eq!(bench.linear_layers, [true, false, false]);
    assert_eq!(bench.pool_layers, [false, true, false]);
    assert_eq!(
        bench.batched_runs(),
        [
            QsaRun { dense: true, page: 1, page_offset: 0, row: 0, rows: 22, position: 128 },
            QsaRun { dense: false, page: 1, page_offset: 22, row: 22, rows: 106, position: 150 },
            QsaRun { dense: false, page: 2, page_offset: 0, row: 128, rows: 72, position: 256 },
        ]
    );
    let serial = bench.enqueue_serial();
    assert_eq!(serial.len(), 600);
    let mut rows: Vec<QsaRow> = Vec::new();
    for run in bench.batched_runs() {
        for offset in 0..run.rows {
            rows.push(QsaRow {
                page: run.page,
                page_offset: run.page_offset + offset,
                row: run.row + offset,
                position: run.position + offset,
            });
        }
    }
    let serial_rows: Vec<QsaRow> = serial
        .iter()
        .filter_map(|op| match op {
            QsaSerialOp::Attend(row) => Some(*row),
            _ => None,
        })
        .collect();
    assert_eq!(rows, serial_rows);
    assert_eq!(serial[3], QsaSerialOp::LoadRow { offset: 8, values: 8 });
    let measured = bench.profile();
    assert_eq!(events(&measured), [0, 1, 2, 3]);
    assert_eq!(work(&measured), work(&bench.enqueue_batched()));
    assert_eq!(work(&measured)[0], QsaBatchedOp::Prepare { tokens: 200, position: 128 });
}

#[test]
fn impossible_sparse_prompts_are_refused() {
    let open = |tokens, start, context| {
        Qwen38QsaPrefillMicrobench::open_with_context(&config(), tokens, start, context, PAGE).err()
    };
    let range = |tokens, start_position, max_context_tokens| {
        Some(BenchError::Range { tokens, start_position, max_context_tokens })
    };
    assert_eq!(open(0, 0, 128), range(0, 0, 128));
    assert_eq!(open(129, 0, 128), range(129, 0, 128));
    assert_eq!(open(1, 64, 128), range(1, 64, 128));
    assert_eq!(open(1, 0, 100), range(1, 0, 100));
    assert_eq!(open(usize::MAX, 128, 256), range(usize::MAX, 128, 256));
    assert_eq!(open(1, 0, 128), None);
    let mut recurrent = config();
    recurrent.layer_types = vec![Qwen38LayerType::LinearAttention; 3];
    assert!(matches!(
        Qwen38QsaPrefillMicrobench::open(&recurrent, 1, PAGE),
        Err(BenchError::NoSparseLayer)
    ));
    let long = 1usize << 40;
    assert!(matches!(
        Qwen38QsaPrefillMicrobench::open_with_max_context(&config(), long, long, PAGE),
        Err(BenchError::Pages { pages: 8589934592 })
    ));
}

#[test]
fn the_history_fills_the_pages_before_a_prompt() {
    let rows = populate_qsa_history(130, PAGE);
    assert_eq!(rows.len(), 130);
    assert_eq!((rows[127].slot, rows[127].page_offset), (0, 127));
    assert_eq!((rows[128].slot, rows[128].page_offset), (1, 0));
}

#[test]
fn a_recurrent_layer_is_measured_in_six_stages() {
    let Ok(bench) = Qwen38GdnPrefillMicrobench::open(&config(), 0, 3) else { panic!("layer") };
    assert_eq!(bench.stream_values, 72);
    assert_eq!(bench.linear.value_heads, 2);
    assert_eq!(bench.table.bound, [true, false, false]);
    assert!(bench.chunks.is_none());
    let serial = bench.enqueue_serial();
    assert_eq!(serial.len(), 9);
    assert_eq!(serial[6], GdnSerialOp::LoadRow { offset: 16, values: 8 });
    assert_eq!(serial[7], GdnSerialOp::Step { layer: 0 });
    let measured = bench.profile();
    assert_eq!(events(&measured), (0..7).collect::<Vec<usize>>());
    assert_eq!(work(&measured)[0], bench.reset_input());
    assert_eq!(work(&measured)[1..], work(&bench.enqueue_layer()));
    assert_eq!(
        bench.enqueue_batched(),
        LayerWork::Attention { layer: 0, kind: QwenLayerKind::LinearAttention, tokens: 3 }
    );
    assert_eq!(bench.validate_layer(&[0]), Ok(()));
    assert!(matches!(
        Qwen38GdnPrefillMicrobench::open(&config(), 0, 0),
        Err(BenchError::Tokens)
    ));
    assert!(matches!(
        Qwen38GdnPrefillMicrobench::open(&config(), 1, 3),
        Err(BenchError::LinearLayer { layer: 1 })
    ));
    assert!(matches!(
        Qwen38GdnPrefillMicrobench::open(&wide(), 0, 1),
        Err(BenchError::HyperConnection(_))
    ));
}

#[test]
fn a_batched_recurrent_prompt_is_laid_out_with_one_state_bound() {
    let mut chunked = config();
    chunked.linear_value_heads = 32;
    chunked.layer_types[2] = Qwen38LayerType::LinearAttention;
    let Ok(bench) = Qwen38GdnPrefillMicrobench::open(&chunked, 2, 70) else { panic!("layer") };
    assert_eq!(bench.table.bound, [false, false, true]);
    let Some(chunks) = bench.chunks else { panic!("chunks") };
    assert_eq!(chunks.cu_seqlens, [0, 70]);
    assert_eq!(chunks.chunk_indices, [0, 0, 0, 1]);
    assert_eq!(chunks.chunk_count, 2);
    let long = 1usize << 31;
    assert!(matches!(
        Qwen38GdnPrefillMicrobench::open(&chunked, 2, long),
        Err(BenchError::Gdn(GdnError::TokenCount))
    ));
    let Ok(plain) = Qwen38GdnPrefillMicrobench::open(&config(), 0, long) else { panic!("layer") };
    assert!(plain.chunks.is_none());
}

#[test]
fn residual_workspaces_have_the_sizes_of_their_prompt() {
    let config = config();
    let Ok(bench) = Qwen38HyperPrefillMicrobench::open(&config, 5) else { panic!("block") };
    let width = config.hidden * config.hc_count;
    for workspace in [&bench.serial, &bench.tensor] {
        assert_eq!(workspace.token_capacity, 5);
        assert_eq!(workspace.normed, 5 * width);
        assert_eq!(workspace.gate_logits, 5 * width);
        assert_eq!(workspace.lowrank, 5 * config.hc_lowrank);
        assert_eq!(workspace.inject_logits, 5 * config.hc_count);
        assert_eq!(workspace.mixed, 5 * config.hidden);
    }
    assert_eq!(bench.serial.projection, HyperProjection::Scalar);
    assert_eq!(bench.tensor.projection, HyperProjection::TensorCore);
}
