//! Layers of the hybrid model: projections, recurrence, attention and feed-forward blocks.

use eider_infer::append::{AppendSegment, Reservation};
use eider_infer::qwen36::attention::{
    enqueue_prefill_cache, AttentionError, AttentionLayer, AttentionOp, AttentionPlans,
    AttentionProjection, DecodeSequence, MropeSections, PrefillSequence,
};
use eider_infer::qwen36::ffn::{
    BatchFfnWorkspace, BatchGroupedMoeWorkspace, BatchMoeWorkspace, DenseWeights, FfnError, FfnOp,
    FfnPass, FfnStream, FfnWeights, MoeWeights,
};
use eider_infer::qwen36::gdn::{
    new_chunked_gdn_workspace, prepare_chunks, update_state_tables,
    BatchLinearAttentionStateSnapshots, GdnDecode, GdnError, GdnLayer, GdnOp, GdnPlans,
    GdnPrefill, SinglePrefillTable, StateCopy, StateRef,
};
use eider_infer::qwen36::linear::{
    new_batch_linear_plan, prepare_fp8_batch_input, run_bf16_batch, run_fp8_batch,
    run_linear_batch, run_nvfp4_batch, run_nvfp4_batch_quantized, BatchFp8InputQuantization,
    BatchLinearPlanSet, Linear, LinearError, LinearOp, ProductScale, Storage,
};
use eider_infer::qwen36::workspace::{
    enqueue_batch_tail, BatchFullAttentionWorkspace, BatchLinearAttentionWorkspace, HybridError,
    HybridTokens, Qwen36HybridPrefillWorkspace, TailOp,
};

fn linear(storage: Storage, rows: usize, cols: usize) -> Linear {
    Linear { storage, rows, cols, input_scale: None, channel_scaled: false, weight_only: false }
}

fn calibrated(rows: usize, cols: usize, scale: u32) -> Linear {
    Linear { input_scale: Some(scale), ..linear(Storage::Fp8, rows, cols) }
}

fn gdn_layer(storage: Storage) -> GdnLayer {
    GdnLayer {
        hidden: 16,
        value_heads: 2,
        value_head_dim: 4,
        qkv: linear(storage, 24, 16),
        z: linear(storage, 8, 16),
        out: linear(storage, 16, 8),
    }
}

fn gdn_plans(storage: Storage) -> GdnPlans {
    GdnPlans { qkv: storage, z: storage, out: storage }
}

fn attention_plans(storage: Storage) -> AttentionPlans {
    AttentionPlans { q: storage, k: storage, v: storage, o: storage }
}

fn attention_layer() -> AttentionLayer {
    AttentionLayer {
        hidden: 16,
        q_heads: 4,
        kv_heads: 2,
        head_dim: 4,
        rotary_dim: 2,
        sections: Some(MropeSections { v0: 1, v1: 0, v2: 0, v3: 0 }),
        q: linear(Storage::Bf16, 32, 16),
        k: linear(Storage::Bf16, 8, 16),
        v: linear(Storage::Bf16, 8, 16),
        o: linear(Storage::Bf16, 16, 16),
    }
}

fn moe() -> MoeWeights {
    MoeWeights {
        cutlass: true,
        grouped: true,
        experts: 8,
        experts_per_token: 2,
        expert_intermediate: 4,
        norm_topk_prob: true,
        shared: Storage::Nvfp4,
    }
}

fn segment(page: u32, page_offset: usize, input_offset: usize, rows: usize) -> AppendSegment {
    AppendSegment { page, page_offset, input_offset, rows }
}

#[test]
fn a_shared_calibration_is_used_for_long_prompts() {
    let same = [calibrated(4, 8, 7), calibrated(2, 8, 7), linear(Storage::Bf16, 2, 8)];
    assert_eq!(prepare_fp8_batch_input(&same, 128), BatchFp8InputQuantization::Static(7));
    assert_eq!(prepare_fp8_batch_input(&same, 127), BatchFp8InputQuantization::Dynamic);
    let mixed = [calibrated(4, 8, 7), calibrated(2, 8, 9)];
    assert_eq!(prepare_fp8_batch_input(&mixed, 128), BatchFp8InputQuantization::Dynamic);
    let none = [linear(Storage::Bf16, 2, 8), linear(Storage::Nvfp4, 2, 8)];
    assert_eq!(prepare_fp8_batch_input(&none, 128), BatchFp8InputQuantization::Unused);
}

#[test]
fn projections_run_in_their_storage_format() {
    let bf16 = linear(Storage::Bf16, 4, 8);
    let mut plan = new_batch_linear_plan(&bf16, 3);
    assert_eq!(plan.storage_name(), "BF16");
    assert_eq!(
        run_bf16_batch(&mut plan, &bf16, 3, false),
        [
            LinearOp::ConvertInput { values: 24 },
            LinearOp::Run { rows: 3, scale: ProductScale::One },
            LinearOp::RoundOutput,
        ]
    );
    assert_eq!(
        run_bf16_batch(&mut plan, &bf16, 2, false)[1],
        LinearOp::CreatePlan { rows: 2 }
    );
    let serial = run_bf16_batch(&mut plan, &bf16, 2, true);
    assert!(serial.contains(&LinearOp::RunRow {
        input_offset: 8,
        output_offset: 4,
        scale: ProductScale::One,
    }));
    let nvfp4 = linear(Storage::Nvfp4, 4, 8);
    let mut plan = new_batch_linear_plan(&nvfp4, 3);
    assert_eq!(
        run_nvfp4_batch(&mut plan, &nvfp4, 3),
        [
            LinearOp::QuantizeInput { cols: 8, rows: 3 },
            LinearOp::Run { rows: 3, scale: ProductScale::BlockScales },
            LinearOp::RoundOutput,
        ]
    );
    assert_eq!(
        run_nvfp4_batch_quantized(&mut plan, 2),
        [
            LinearOp::CreatePlan { rows: 2 },
            LinearOp::Run { rows: 2, scale: ProductScale::BlockScales },
            LinearOp::RoundOutput,
        ]
    );
}

#[test]
fn prepared_activations_must_match() {
    let fp8 = calibrated(4, 8, 7);
    let mut plan = new_batch_linear_plan(&fp8, 3);
    let mut run = |mode| run_fp8_batch(&mut plan, &fp8, mode, 3, false);
    assert_eq!(run(BatchFp8InputQuantization::Unused), Err(LinearError::NoActivation));
    assert_eq!(run(BatchFp8InputQuantization::Static(8)), Err(LinearError::StaticScale));
    let Ok(ops) = run(BatchFp8InputQuantization::Static(7)) else { panic!("static") };
    assert!(ops.contains(&LinearOp::Run { rows: 3, scale: ProductScale::Calibrated(7) }));
    let Ok(ops) = run(BatchFp8InputQuantization::Dynamic) else { panic!("dynamic") };
    assert!(ops.contains(&LinearOp::FillChannelScale));
    assert!(ops.contains(&LinearOp::ScaleOutput { rows: 3, cols: 4, per_channel: false }));
    let bf16 = linear(Storage::Bf16, 4, 8);
    let mut none = None;
    assert_eq!(
        run_linear_batch(&mut none, &bf16, BatchFp8InputQuantization::Unused, 3, false),
        Err(LinearError::NoPlan)
    );
    let mut other = Some(new_batch_linear_plan(&fp8, 3));
    assert_eq!(
        run_linear_batch(&mut other, &bf16, BatchFp8InputQuantization::Unused, 3, false),
        Err(LinearError::PlanStorage)
    );
    let mut set = BatchLinearPlanSet::new(&[fp8], 3);
    assert!(set.bf16.is_none());
    assert_eq!(
        set.run_linear_batch_from_set(&bf16, BatchFp8InputQuantization::Unused, 3, false),
        Err(LinearError::NoPlan)
    );
    assert!(set
        .run_linear_batch_from_set(&fp8, BatchFp8InputQuantization::Dynamic, 3, false)
        .is_ok());
}

#[test]
fn sequences_are_cut_into_chunks() {
    let Ok(chunks) = prepare_chunks(&[65, 64, 1]) else { panic!("chunks") };
    assert_eq!(chunks.cu_seqlens, [0, 65, 129, 130]);
    assert_eq!(chunks.chunk_indices, [0, 0, 0, 1, 1, 0, 2, 0]);
    assert_eq!(chunks.chunk_offsets, [0, 2, 3, 4]);
    assert_eq!(chunks.chunk_count, 4);
    assert!(matches!(prepare_chunks(&[u32::MAX]), Err(GdnError::TokenCount)));
    let buffers = new_chunked_gdn_workspace(128, 3);
    assert!(buffers.chunk_indices >= chunks.chunk_indices.len());
    assert_eq!(buffers.vectors, 128 * 32 * 128);
}

#[test]
fn snapshots_have_a_place_for_each_layer() {
    let Ok(snapshots) = BatchLinearAttentionStateSnapshots::new(&[true, false, true], 4, 3, 10, 20)
    else {
        panic!("snapshots")
    };
    assert_eq!(snapshots.layer_slots, [Some(0), None, Some(1)]);
    assert_eq!(snapshots.offset(2, 1, 10), Some(40));
    assert_eq!(snapshots.offset(1, 0, 10), None);
    assert_eq!(snapshots.offset(0, 3, 10), None);
    assert_eq!(
        snapshots.capture_conv(2, 0, 1),
        Some(StateCopy { table: 8, offset: 40, values: 10 })
    );
    assert_eq!(
        snapshots.capture_recurrent(2, 0, 1),
        Some(StateCopy { table: 8, offset: 80, values: 20 })
    );
    let restored = snapshots.restore(1);
    assert_eq!(restored.len(), 2);
    assert_eq!(restored[1].conv, StateCopy { table: 8, offset: 40, values: 10 });
    assert_eq!(restored[1].recurrent, StateCopy { table: 8, offset: 80, values: 20 });
    assert!(matches!(
        BatchLinearAttentionStateSnapshots::new(&[true, true], 4, usize::MAX, 10, 20),
        Err(GdnError::SnapshotRows)
    ));
    assert!(matches!(
        BatchLinearAttentionStateSnapshots::new(&[true, true], 4, 2, usize::MAX, 20),
        Err(GdnError::ConvSnapshots)
    ));
    assert!(matches!(
        BatchLinearAttentionStateSnapshots::new(&[true, true], 4, 2, 10, usize::MAX),
        Err(GdnError::RecurrentSnapshots)
    ));
}

#[test]
fn a_recurrent_prompt_takes_one_of_three_paths() {
    let pass = GdnPrefill {
        layer: gdn_layer(Storage::Bf16),
        plans: gdn_plans(Storage::Bf16),
        layer_idx: 1,
        lengths: &[2, 1],
        sequence_capacity: 4,
        sequence_count: 2,
        total_tokens: 3,
        row_capacity: 3,
        serial_projections: false,
        serial_recurrence: false,
        sigmoid_output_gate: false,
        chunked_available: true,
        snapshots: None,
    };
    let Ok(ops) = pass.enqueue_prefill_chunks() else { panic!("prompt") };
    assert!(ops.contains(&GdnOp::PrepRagged { table: 4, sequences: 2, tokens: 3 }));
    assert!(ops.contains(&GdnOp::RecurRagged { table: 4, sequences: 2, tokens: 3, heads: 2 }));
    let long = GdnPrefill {
        lengths: &[70, 1],
        total_tokens: 71,
        row_capacity: 71,
        ..pass
    };
    assert!(long.enqueue_prefill_chunks().is_ok_and(|ops| ops.contains(&GdnOp::RecurChunked {
        table: 4,
        sequences: 2,
        tokens: 71,
    })));
    let single = GdnPrefill { lengths: &[1, 1], total_tokens: 2, row_capacity: 2, ..pass };
    assert!(single.enqueue_prefill_chunks().is_ok_and(|ops| ops.contains(&GdnOp::RecurBatch {
        table: 4,
        rows: 2,
        heads: 2,
    })));
    let Ok(snapshots) = BatchLinearAttentionStateSnapshots::new(&[true, true], 4, 2, 10, 20) else {
        panic!("snapshots")
    };
    let serial = GdnPrefill { serial_recurrence: true, snapshots: Some(&snapshots), ..pass };
    let Ok(ops) = serial.enqueue_prefill_chunks() else { panic!("prompt") };
    let tables: Vec<usize> = ops
        .iter()
        .filter_map(|op| match op {
            GdnOp::RecurRow { table, .. } => Some(*table),
            _ => None,
        })
        .collect();
    assert_eq!(tables, [4, 4, 5]);
    assert!(ops.contains(&GdnOp::KeepConv(StateCopy { table: 4, offset: 20, values: 10 })));
}

#[test]
fn a_recurrent_decode_step_quantises_its_output() {
    let decode = GdnDecode {
        layer: gdn_layer(Storage::Nvfp4),
        plans: gdn_plans(Storage::Nvfp4),
        layer_idx: 2,
        capacity: 4,
    };
    let Ok(ops) = decode.enqueue_batch() else { panic!("decode") };
    assert!(ops.contains(&GdnOp::PrepBatch { table: 8, rows: 4 }));
    assert!(ops.iter().any(|op| matches!(op, GdnOp::NormQuantize { rows: 4, .. })));
    assert_eq!(ops.last(), Some(&GdnOp::ProjectQuantized { rows: 4 }));
}

#[test]
fn recurrent_layers_run_on_plans_of_their_format() {
    let layer = gdn_layer(Storage::Bf16);
    let other = GdnPlans { z: Storage::Fp8, ..gdn_plans(Storage::Bf16) };
    let decode = GdnDecode { layer, plans: other, layer_idx: 0, capacity: 2 };
    assert_eq!(decode.enqueue_batch(), Err(LinearError::PlanStorage));
    let prompt = GdnPrefill {
        layer,
        plans: other,
        layer_idx: 0,
        lengths: &[2],
        sequence_capacity: 1,
        sequence_count: 1,
        total_tokens: 2,
        row_capacity: 2,
        serial_projections: false,
        serial_recurrence: false,
        sigmoid_output_gate: false,
        chunked_available: false,
        snapshots: None,
    };
    assert_eq!(prompt.enqueue_prefill_chunks(), Err(LinearError::PlanStorage));
    let own = GdnPrefill { plans: gdn_plans(Storage::Bf16), ..prompt };
    assert!(own.enqueue_prefill_chunks().is_ok());
}

#[test]
fn state_tables_name_rows_and_padding() {
    let rows = [vec![true, false], vec![true, true]];
    let table = update_state_tables(&rows, 2, 3);
    assert_eq!(
        table,
        [
            StateRef::Row(0),
            StateRef::Row(1),
            StateRef::Padding(2),
            StateRef::Null,
            StateRef::Row(1),
            StateRef::Padding(2),
        ]
    );
    let mut single = SinglePrefillTable { bound: vec![true, true] };
    assert!(matches!(single.begin_single_prefill(3, false), Ok(None)));
    assert_eq!(single.bound, [false, false]);
    assert_eq!(single.bind_single_prefill_state(1), Ok(()));
    assert_eq!(single.bound, [false, true]);
    assert_eq!(single.bind_single_prefill_state(2), Err(GdnError::Layer));
}

#[test]
fn prompt_rows_attend_in_chunks() {
    let reservation = Reservation {
        start_position: 14,
        rows: 12,
        segments: vec![segment(3, 14, 0, 2), segment(4, 0, 2, 10)],
    };
    let sequence = PrefillSequence { position: 14, tokens: 12, reservation: &reservation };
    let Ok(ops) = enqueue_prefill_cache(&[sequence], &[5], false) else { panic!("cache") };
    let rows = |page, page_offset, position, input_row, rows| AttentionOp::CacheRows {
        sequence: 0,
        page,
        page_offset,
        position,
        input_row,
        rows,
    };
    assert_eq!(ops, [rows(3, 14, 14, 5, 2), rows(4, 0, 16, 7, 8), rows(4, 8, 24, 15, 2)]);
    let sequence = PrefillSequence { position: 14, tokens: 12, reservation: &reservation };
    let Ok(serial) = enqueue_prefill_cache(&[sequence], &[5], true) else { panic!("cache") };
    assert_eq!(serial.len(), 12);
    let moved = PrefillSequence { position: 13, tokens: 12, reservation: &reservation };
    assert_eq!(
        enqueue_prefill_cache(&[moved], &[5], false),
        Err(AttentionError::PrefillAppend { start: 14, rows: 12, position: 13, tokens: 12 })
    );
}

#[test]
fn decode_rows_attend_to_their_own_cache() {
    let layer = attention_layer();
    let plans = attention_plans(Storage::Bf16);
    let Ok(pre) = layer.enqueue_batch_pre(&plans, 3) else { panic!("projections") };
    assert!(pre.contains(&AttentionOp::Project {
        target: AttentionProjection::Query,
        rows: 3,
        mode: BatchFp8InputQuantization::Unused,
    }));
    let Ok(post) = layer.enqueue_batch_post(&plans, 3) else { panic!("output") };
    assert!(post.contains(&AttentionOp::Gate { values: 48 }));
    let first = Reservation { start_position: 7, rows: 1, segments: vec![segment(2, 7, 0, 1)] };
    let second = Reservation { start_position: 130, rows: 1, segments: vec![segment(6, 2, 0, 1)] };
    let sequences = [
        DecodeSequence { position: 7, reservation: &first },
        DecodeSequence { position: 130, reservation: &second },
    ];
    let Ok(ops) = layer.enqueue_batch_cache(&sequences, 2) else { panic!("cache") };
    assert_eq!(
        ops[1],
        AttentionOp::CacheRow {
            row: 1,
            page: 6,
            page_offset: 2,
            kv_offset: 8,
            context: 131,
            q_offset: 16,
        }
    );
    let stale = [DecodeSequence { position: 8, reservation: &first }];
    assert_eq!(layer.enqueue_batch_cache(&stale, 1), Err(AttentionError::DecodeAppend));
    let plain = AttentionLayer { sections: None, ..layer };
    assert_eq!(plain.enqueue_batch_pre(&plans, 3), Err(AttentionError::NoSections));
    let keys = AttentionPlans { k: Storage::Nvfp4, ..plans };
    assert_eq!(
        plain.enqueue_batch_pre(&keys, 3),
        Err(AttentionError::Projection(LinearError::PlanStorage))
    );
    assert!(layer.enqueue_batch_post(&keys, 3).is_ok());
    let outputs = AttentionPlans { o: Storage::Fp8, ..plans };
    assert!(layer.enqueue_batch_pre(&outputs, 3).is_ok());
    assert_eq!(
        layer.enqueue_batch_post(&outputs, 3),
        Err(AttentionError::Projection(LinearError::PlanStorage))
    );
    let workspace = BatchFullAttentionWorkspace::new(&layer, 3, 256);
    assert_eq!((workspace.q, workspace.k, workspace.output), (48, 24, 48));
}

#[test]
fn routed_experts_run_beside_a_shared_one() {
    let weights = moe();
    let Ok(workspace) = BatchMoeWorkspace::new(16, &weights, 4) else { panic!("workspace") };
    assert_eq!(workspace.router_logits, 32);
    let all = FfnWeights::Moe(weights);
    let workspace = BatchFfnWorkspace::Moe(workspace);
    let serial = FfnPass { hidden: 16, rows: 3, stabilise: false, parallel: false };
    let Ok(ops) = serial.run_batch(&all, &workspace) else { panic!("experts") };
    assert!(ops.contains(&FfnOp::TopK { rows: 3, experts: 8, selected: 2, normalise: true }));
    assert!(ops.contains(&FfnOp::SetRows { rows: 3, routes: 6 }));
    assert!(!ops.contains(&FfnOp::RecordFork));
    let parallel = FfnPass { parallel: true, ..serial };
    let Ok(ops) = parallel.run_batch(&all, &workspace) else { panic!("experts") };
    let place = |wanted: FfnOp| ops.iter().position(|op| *op == wanted).unwrap();
    assert!(place(FfnOp::RecordFork) < place(FfnOp::WaitFork));
    assert!(place(FfnOp::RecordJoin) < place(FfnOp::WaitJoin));
    let on_shared = |op: &FfnOp| {
        matches!(
            op,
            FfnOp::SharedProject { stream: FfnStream::Shared, .. }
                | FfnOp::SharedSilu { stream: FfnStream::Shared, .. }
                | FfnOp::SharedGate { stream: FfnStream::Shared, .. }
        )
    };
    let last = ops.iter().rposition(on_shared).unwrap();
    assert!(last < place(FfnOp::RecordJoin));
}

#[test]
fn unusable_experts_are_refused() {
    let layout = MoeWeights { cutlass: false, ..moe() };
    assert!(matches!(BatchMoeWorkspace::new(16, &layout, 4), Err(FfnError::ExpertLayout)));
    let ungrouped = MoeWeights { grouped: false, ..moe() };
    assert!(matches!(
        BatchMoeWorkspace::new(16, &ungrouped, 4),
        Err(FfnError::NoGroupedWeights)
    ));
    let grouped = BatchGroupedMoeWorkspace::new(16, &moe(), 4);
    assert_eq!((grouped.routes, grouped.gate_up), (8, 64));
    assert_eq!(grouped.set_rows(3), Ok(6));
    assert_eq!(grouped.set_rows(5), Err(FfnError::Rows { capacity: 4, rows: 5 }));
    assert_eq!(grouped.set_rows(0), Err(FfnError::Rows { capacity: 4, rows: 0 }));
    let pass = FfnPass { hidden: 16, rows: 3, stabilise: false, parallel: false };
    let Ok(workspace) = BatchMoeWorkspace::new(16, &moe(), 4) else { panic!("workspace") };
    let fp8 = MoeWeights { shared: Storage::Fp8, ..moe() };
    assert_eq!(
        pass.enqueue_shared_batch(&fp8, &workspace, FfnStream::Main),
        Err(FfnError::SharedFp8)
    );
    let no_gate_up = BatchMoeWorkspace { shared_gate_up_plan: false, ..workspace };
    assert_eq!(
        pass.enqueue_shared_batch(&moe(), &no_gate_up, FfnStream::Main),
        Err(FfnError::NoSharedGateUpPlan)
    );
    let no_down = BatchMoeWorkspace { shared_gate_up_plan: true, shared_down_plan: false, ..no_gate_up };
    assert_eq!(
        pass.enqueue_shared_batch(&moe(), &no_down, FfnStream::Main),
        Err(FfnError::NoSharedDownPlan)
    );
    let dense = FfnWeights::Dense(DenseWeights {
        gate_up: linear(Storage::Bf16, 8, 16),
        down: linear(Storage::Bf16, 16, 4),
    });
    let Ok(dense_workspace) = BatchFfnWorkspace::new(&[dense], &dense, 16, 4) else {
        panic!("workspace")
    };
    assert!(matches!(
        pass.run_batch(&FfnWeights::Moe(moe()), &dense_workspace),
        Err(FfnError::WorkspaceKind)
    ));
    let Ok(ops) = pass.run_batch(&dense, &dense_workspace) else { panic!("dense") };
    assert!(ops.contains(&FfnOp::AddResidual { values: 48 }));
    let Ok(tail) = enqueue_batch_tail(&pass, &dense, &dense_workspace) else { panic!("tail") };
    assert_eq!(tail[0], TailOp::AddAttention(48));
    assert_eq!(tail[1], TailOp::PostNorm(3));
    assert_eq!(tail.len(), ops.len() + 2);
    let narrow = FfnWeights::Dense(DenseWeights {
        gate_up: linear(Storage::Bf16, 8, 16),
        down: linear(Storage::Fp8, 16, 4),
    });
    assert_eq!(
        pass.run_batch(&narrow, &dense_workspace),
        Err(FfnError::Projection(LinearError::NoPlan))
    );
    let Ok(both) = BatchFfnWorkspace::new(&[dense, narrow], &dense, 16, 4) else {
        panic!("workspace")
    };
    assert!(pass.run_batch(&narrow, &both).is_ok());
}

#[test]
fn experts_without_grouped_weights_are_refused_in_every_layer() {
    let Ok(workspace) = BatchMoeWorkspace::new(16, &moe(), 4) else { panic!("workspace") };
    let ungrouped = MoeWeights { grouped: false, ..moe() };
    let pass = FfnPass { hidden: 16, rows: 3, stabilise: false, parallel: false };
    assert_eq!(pass.run_moe(&ungrouped, &workspace), Err(FfnError::NoGroupedWeights));
    let crowded = FfnPass { rows: 5, ..pass };
    assert_eq!(crowded.run_moe(&ungrouped, &workspace), Err(FfnError::NoGroupedWeights));
    assert_eq!(
        crowded.run_moe(&moe(), &workspace),
        Err(FfnError::Rows { capacity: 4, rows: 5 })
    );
    let lacking = BatchMoeWorkspace { shared_down_plan: false, ..workspace };
    assert_eq!(pass.run_moe(&ungrouped, &lacking), Err(FfnError::NoGroupedWeights));
    let beside = FfnPass { parallel: true, ..pass };
    assert_eq!(beside.run_moe(&ungrouped, &lacking), Err(FfnError::NoSharedDownPlan));
}

fn hybrid_workspace(layer: &GdnLayer) -> Qwen36HybridPrefillWorkspace {
    let Ok(workspace) = Qwen36HybridPrefillWorkspace::new(layer, &moe(), 2, 16, 4) else {
        panic!("workspace")
    };
    workspace
}

#[test]
fn hybrid_prompts_stay_within_their_capacity() {
    let layer = GdnLayer { value_heads: 32, ..gdn_layer(Storage::Bf16) };
    let workspace = hybrid_workspace(&layer);
    let crowded = HybridError::Tokens(HybridTokens { capacity: 4, tokens: 5 });
    assert_eq!(workspace.require_tokens(4), Ok(()));
    assert_eq!(
        workspace.run_gdn(&layer, 1, 0),
        Err(HybridError::Tokens(HybridTokens { capacity: 4, tokens: 0 }))
    );
    let mut table = SinglePrefillTable { bound: vec![true, true] };
    assert!(workspace.begin_gdn_prefill(&mut table, 5).is_err_and(|error| error == crowded));
    assert_eq!(table.bound, [true, true]);
    let Ok(Some(chunks)) = workspace.begin_gdn_prefill(&mut table, 3) else { panic!("chunks") };
    assert_eq!(table.bound, [false, false]);
    assert_eq!(chunks.cu_seqlens, [0, 3]);
    assert_eq!(chunks.chunk_count, 1);
    let Ok(ops) = workspace.run_gdn(&layer, 1, 3) else { panic!("recurrence") };
    assert!(ops.contains(&GdnOp::RecurRagged { table: 1, sequences: 1, tokens: 3, heads: 32 }));
    assert!(ops.contains(&GdnOp::Norm { rows: 96, width: 4, sigmoid: true }));
    let Ok(snapshots) = BatchLinearAttentionStateSnapshots::new(&[true, true], 1, 2, 10, 20) else {
        panic!("snapshots")
    };
    let keeping = Qwen36HybridPrefillWorkspace {
        state_snapshots: Some(snapshots),
        ..hybrid_workspace(&layer)
    };
    let Ok(ops) = keeping.run_gdn(&layer, 1, 3) else { panic!("recurrence") };
    let rows = ops.iter().filter(|op| matches!(op, GdnOp::RecurRow { table: 1, heads: 32 }));
    assert_eq!(rows.count(), 3);
    let kept = ops.iter().filter(|op| matches!(op, GdnOp::KeepRecurrent(_)));
    assert_eq!(kept.count(), 2);
    assert_eq!(keeping.run_gdn(&layer, 1, 5), Err(crowded));
    assert_eq!(workspace.run_moe(&moe(), 16, 5), Err(crowded));
    assert!(workspace.run_moe(&moe(), 16, 3).is_ok());
    let few = hybrid_workspace(&gdn_layer(Storage::Bf16));
    assert!(matches!(few.begin_gdn_prefill(&mut table, 3), Ok(None)));
    let sized = BatchLinearAttentionWorkspace::new(&gdn_layer(Storage::Bf16), 3, 5, 4, true);
    assert_eq!(sized.qkv_output, 120);
    assert_eq!(sized.state_table, 12);
    assert_eq!(sized.gate, 10);
}

#[test]
fn hybrid_prompts_run_on_the_plans_of_their_workspace() {
    let workspace = hybrid_workspace(&gdn_layer(Storage::Bf16));
    assert_eq!(
        workspace.run_gdn(&gdn_layer(Storage::Fp8), 1, 3),
        Err(HybridError::Projection(LinearError::PlanStorage))
    );
    let ungrouped = MoeWeights { grouped: false, ..moe() };
    assert_eq!(
        workspace.run_moe(&ungrouped, 16, 3),
        Err(HybridError::FeedForward(FfnError::NoGroupedWeights))
    );
    assert!(matches!(
        Qwen36HybridPrefillWorkspace::new(&gdn_layer(Storage::Bf16), &ungrouped, 2, 16, 4),
        Err(FfnError::NoGroupedWeights)
    ));
}
