//! Plans of the hybrid model's batches, down to their device operations, and its workspaces.

use eider_infer::append::{AppendSegment, Reservation};
use eider_infer::manifest::{
    QwenArchitecture, QwenFfnConfig, QwenLayerKind, QwenModelManifest,
};
use eider_infer::qwen36::allocation::AllocationError;
use eider_infer::qwen36::attention::{
    AttentionError, AttentionLayer, AttentionOp, AttentionProjection, MropeSections,
};
use eider_infer::qwen36::batch::{
    BatchError, Qwen36DecodeRow, Qwen36PrefillRow, Qwen36SequenceState,
};
use eider_infer::qwen36::ffn::{
    BatchFfnWorkspace, DenseWeights, FfnError, FfnProjection, FfnWeights, MoeWeights,
};
use eider_infer::qwen36::gdn::{
    GdnError, GdnLayer, GdnOp, GdnProjection, StateRef, GDN_HEADS,
};
use eider_infer::qwen36::linear::{
    new_batch_linear_plan, Linear, LinearError, LinearOp, ProductScale, Storage,
};
use eider_infer::qwen36::model::{Qwen36Attention, Qwen36LayerBlock, Qwen36TextModel};
use eider_infer::qwen36::mtp::{
    HiddenSource, MtpError, MtpOp, Qwen36MtpSequenceState, Qwen36MtpWeights,
};
use eider_infer::qwen36::operations::{LayerOp, StepError};
use eider_infer::qwen36::plan::PlanError;
use eider_infer::qwen36::projection::{
    run_decode_head, run_verification_head, ProjectionSite,
};
use eider_infer::qwen36::schedule::{GraphPart, LayerStep};
use eider_infer::qwen36::speculative::{SpeculativeError, StateValues};
use eider_infer::qwen36::workspace::TailOp;

fn linear(rows: usize, cols: usize) -> Linear {
    Linear {
        storage: Storage::Bf16,
        rows,
        cols,
        input_scale: None,
        channel_scaled: false,
        weight_only: false,
    }
}

fn manifest() -> QwenModelManifest {
    QwenModelManifest {
        architecture: QwenArchitecture::Qwen36,
        tensor_prefix: "model".to_string(),
        hidden: 16,
        layers: 2,
        vocab: 100,
        intermediate: 24,
        q_heads: 4,
        kv_heads: 2,
        head_dim: 4,
        rotary_dim: 2,
        rms_eps_bits: 0,
        rope_theta_bits: 0,
        mrope_sections: Some([1, 2, 3, 4]),
        ffn: QwenFfnConfig::Dense,
        layer_kinds: vec![QwenLayerKind::LinearAttention, QwenLayerKind::FullAttention],
        linear_attention: None,
        shared_expert_intermediate: None,
        mtp_layers: 0,
    }
}

fn dense() -> FfnWeights {
    FfnWeights::Dense(DenseWeights { gate_up: linear(48, 16), down: linear(16, 24) })
}

fn routed(cutlass: bool) -> FfnWeights {
    FfnWeights::Moe(MoeWeights {
        cutlass,
        grouped: true,
        experts: 8,
        experts_per_token: 2,
        expert_intermediate: 4,
        norm_topk_prob: true,
        shared: Storage::Bf16,
    })
}

fn attention() -> AttentionLayer {
    AttentionLayer {
        hidden: 16,
        q_heads: 4,
        kv_heads: 2,
        head_dim: 4,
        rotary_dim: 2,
        sections: Some(MropeSections { v0: 1, v1: 2, v2: 3, v3: 4 }),
        q: linear(32, 16),
        k: linear(8, 16),
        v: linear(8, 16),
        o: linear(16, 16),
    }
}

fn recurrent_layer(heads: usize) -> GdnLayer {
    GdnLayer {
        hidden: 16,
        value_heads: heads,
        value_head_dim: 4,
        qkv: linear(24, 16),
        z: linear(8, 16),
        out: linear(16, 8),
    }
}

fn model_with(heads: usize, ffn: FfnWeights, attention: AttentionLayer) -> Qwen36TextModel {
    let recurrent = recurrent_layer(heads);
    Qwen36TextModel {
        model_id: 3,
        manifest: manifest(),
        layers: vec![
            Qwen36LayerBlock { attention: Qwen36Attention::LinearAttention(recurrent), ffn },
            Qwen36LayerBlock { attention: Qwen36Attention::FullAttention(attention), ffn },
        ],
        lm_head: linear(100, 16),
        mtp: None,
        dflash2: None,
    }
}

fn extended(attention: Qwen36Attention, ffn: FfnWeights) -> Qwen36TextModel {
    let mut model = model();
    model.manifest.layers = 3;
    model.manifest.layer_kinds.push(match attention {
        Qwen36Attention::LinearAttention(_) => QwenLayerKind::LinearAttention,
        Qwen36Attention::FullAttention(_) => QwenLayerKind::FullAttention,
    });
    model.layers.push(Qwen36LayerBlock { attention, ffn });
    model
}

fn model() -> Qwen36TextModel {
    model_with(2, dense(), attention())
}

fn drafting() -> Qwen36TextModel {
    Qwen36TextModel { mtp: Some(Qwen36MtpWeights { attention: attention() }), ..model() }
}

fn state(position: usize) -> Qwen36SequenceState {
    Qwen36SequenceState { model_id: 3, position, max_tokens: 40 }
}

fn reservation(start_position: usize, rows: usize) -> Reservation {
    Reservation {
        start_position,
        rows,
        segments: vec![AppendSegment { page: 7, page_offset: 5, input_offset: 0, rows }],
    }
}

#[test]
fn prompt_buffers_follow_the_first_layers() {
    let Ok(allocation) = model().new_prefill_batch_workspace(2, 6, 40) else { panic!("buffers") };
    let buffers = allocation.buffers;
    assert_eq!((buffers.hidden, buffers.stream_events), (96, 2));
    assert_eq!((buffers.linear.qkv_output, buffers.linear.q), (144, 48));
    assert_eq!((buffers.linear.state_table, buffers.linear.padding_states), (4, 2));
    assert!(!buffers.linear.chunked);
    assert_eq!((buffers.full.q_proj, buffers.full.q, buffers.full.k), (192, 96, 48));
    let BatchFfnWorkspace::Dense(ffn) = buffers.ffn else { panic!("dense") };
    assert_eq!((ffn.gate_up, ffn.activated, ffn.down), (288, 144, 96));
    assert!(matches!(
        model().new_prefill_batch_workspace(2, 0, 40),
        Err(AllocationError::Capacity)
    ));
    let refused = model_with(2, routed(false), attention());
    assert!(matches!(
        refused.new_prefill_batch_workspace(2, 6, 40),
        Err(AllocationError::FeedForward(FfnError::ExpertLayout))
    ));
}

#[test]
fn decode_buffers_hold_logits_and_masks() {
    let Ok(allocation) = model().new_decode_batch_workspace(3, 40, &None) else {
        panic!("buffers")
    };
    assert!(allocation.workspace.layer_graphs);
    assert_eq!((allocation.logits, allocation.mask_words), (300, 12));
    assert!(allocation.head_plan.is_none());
    let mut quantised = model();
    quantised.lm_head.storage = Storage::Fp8;
    let Ok(allocation) = quantised.new_decode_batch_workspace(3, 40, &None) else {
        panic!("buffers")
    };
    assert!(allocation.head_plan.is_some());
    assert!(matches!(
        model().new_decode_batch_workspace(0, 40, &None),
        Err(AllocationError::Capacity)
    ));
}

#[test]
fn a_prompt_batch_is_planned_down_to_its_operations() {
    let model = model();
    let Ok(allocation) = model.new_prefill_batch_workspace(2, 6, 40) else { panic!("buffers") };
    let sequence = state(10);
    let rows = [Qwen36PrefillRow { token_ids: &[1, 2], sequence: &sequence }];
    let reserved = [reservation(10, 2)];
    let Ok(plan) = model.prefill_batch_impl(
        &allocation.workspace,
        &allocation.buffers,
        None,
        &rows,
        &reserved,
        &None,
    ) else {
        panic!("plan")
    };
    assert_eq!(plan.run.packed.positions, [10, 11]);
    assert_eq!(
        plan.table,
        [StateRef::Row(0), StateRef::Padding(1), StateRef::Null, StateRef::Padding(1)]
    );
    assert!(plan.chunks.is_none());
    assert_eq!(plan.ops[0], LayerOp::Step(LayerStep::Gather { rows: 2 }));
    assert_eq!(plan.ops.last(), Some(&LayerOp::Step(LayerStep::Synchronize)));
    let cache = LayerOp::Attention {
        layer: 1,
        op: AttentionOp::CacheRows {
            sequence: 0,
            page: 7,
            page_offset: 5,
            position: 10,
            input_row: 0,
            rows: 2,
        },
    };
    assert_eq!(plan.ops.iter().filter(|op| **op == cache).count(), 1);
    let output = plan
        .ops
        .iter()
        .position(|op| {
            matches!(
                op,
                LayerOp::Attention {
                    layer: 1,
                    op: AttentionOp::Project {
                        target: AttentionProjection::Output,
                        rows: 2,
                        ..
                    },
                }
            )
        })
        .unwrap();
    assert!(plan.ops.iter().position(|op| *op == cache).unwrap() < output);
    assert!(plan.ops.iter().any(|op| matches!(op, LayerOp::Gdn { layer: 0, .. })));
    assert!(plan
        .ops
        .contains(&LayerOp::Tail { layer: 0, op: TailOp::AddAttention(32) }));
}

#[test]
fn a_prompt_batch_is_refused_step_by_step() {
    let first = model();
    let Ok(allocation) = first.new_prefill_batch_workspace(2, 6, 40) else { panic!("buffers") };
    let sequence = state(10);
    let rows = [Qwen36PrefillRow { token_ids: &[1, 2], sequence: &sequence }];
    let plan = |model: &Qwen36TextModel, reserved: &[Reservation]| {
        model
            .prefill_batch_impl(
                &allocation.workspace,
                &allocation.buffers,
                None,
                &rows,
                reserved,
                &None,
            )
            .err()
    };
    assert_eq!(plan(&first, &[reservation(10, 2)]), None);
    assert_eq!(
        plan(&first, &[]),
        Some(PlanError::Batch(BatchError::Appends { rows: 1, appends: 0 }))
    );
    assert_eq!(
        plan(&first, &[reservation(10, 3)]),
        Some(PlanError::Step(StepError::Attention(AttentionError::PrefillAppend {
            start: 10,
            rows: 3,
            position: 10,
            tokens: 2,
        })))
    );
    let unrotated = model_with(2, dense(), AttentionLayer { sections: None, ..attention() });
    assert_eq!(
        plan(&unrotated, &[reservation(10, 2)]),
        Some(PlanError::Step(StepError::Attention(AttentionError::NoSections)))
    );
    let other = model_with(2, routed(true), attention());
    assert_eq!(
        plan(&other, &[reservation(10, 2)]),
        Some(PlanError::Step(StepError::FeedForward(FfnError::WorkspaceKind)))
    );
}

#[test]
fn a_later_layer_in_another_format_is_refused() {
    let fp8 = |linear: Linear| Linear { storage: Storage::Fp8, ..linear };
    let sequence = state(10);
    let decode = |model: &Qwen36TextModel| {
        let Ok(allocation) = model.new_decode_batch_workspace(2, 40, &Some("1".to_string())) else {
            panic!("buffers")
        };
        let rows = [Qwen36DecodeRow { token_id: 9, sequence: &sequence }];
        let reserved = [reservation(10, 1)];
        let (workspace, buffers) = (&allocation.workspace, &allocation.buffers);
        model.decode_batch_impl(workspace, buffers, &rows, &reserved, &None, false).err()
    };
    let prefill = |model: &Qwen36TextModel| {
        let Ok(allocation) = model.new_prefill_batch_workspace(2, 6, 40) else {
            panic!("buffers")
        };
        let rows = [Qwen36PrefillRow { token_ids: &[1, 2], sequence: &sequence }];
        let reserved = [reservation(10, 2)];
        let (workspace, buffers) = (&allocation.workspace, &allocation.buffers);
        model.prefill_batch_impl(workspace, buffers, None, &rows, &reserved, &None).err()
    };
    let same = extended(Qwen36Attention::LinearAttention(recurrent_layer(2)), dense());
    assert_eq!((decode(&same), prefill(&same)), (None, None));
    let z = GdnLayer { z: fp8(linear(8, 16)), ..recurrent_layer(2) };
    let recurrent = extended(Qwen36Attention::LinearAttention(z), dense());
    let refused = Some(PlanError::Step(StepError::Projection(LinearError::PlanStorage)));
    assert_eq!((decode(&recurrent), prefill(&recurrent)), (refused, refused));
    let full = AttentionLayer { o: fp8(linear(16, 16)), ..attention() };
    let attending = extended(Qwen36Attention::FullAttention(full), dense());
    let refused = Some(PlanError::Step(StepError::Attention(AttentionError::Projection(
        LinearError::PlanStorage,
    ))));
    assert_eq!((decode(&attending), prefill(&attending)), (refused, refused));
    let ffn = FfnWeights::Dense(DenseWeights {
        gate_up: fp8(linear(48, 16)),
        down: linear(16, 24),
    });
    let mixed = extended(Qwen36Attention::LinearAttention(recurrent_layer(2)), ffn);
    assert_eq!((decode(&mixed), prefill(&mixed)), (None, None));
}

#[test]
fn projections_run_on_the_plans_of_their_buffers() {
    let model = model();
    let Ok(mut allocation) = model.new_prefill_batch_workspace(2, 6, 40) else {
        panic!("buffers")
    };
    let sequence = state(10);
    let rows = [Qwen36PrefillRow { token_ids: &[1, 2], sequence: &sequence }];
    let reserved = [reservation(10, 2)];
    let mut created = Vec::new();
    for _ in 0..2 {
        let Ok(plan) = model.prefill_batch_impl(
            &allocation.workspace,
            &allocation.buffers,
            None,
            &rows,
            &reserved,
            &None,
        ) else {
            panic!("plan")
        };
        let projections: Vec<_> =
            plan.ops.iter().filter_map(|op| model.projection(op)).collect();
        assert_eq!(projections.len(), 12);
        assert!(projections.iter().all(|projection| projection.rows == 2));
        let mut plans = 0;
        for projection in &projections {
            let Ok(steps) = allocation.buffers.run_projection(projection) else {
                panic!("projection")
            };
            assert_eq!(
                steps[0],
                LinearOp::ConvertInput { values: 2 * projection.linear.cols }
            );
            plans += steps.iter().filter(|step| **step == LinearOp::CreatePlan { rows: 2 }).count();
            assert_eq!(
                steps[steps.len() - 2..],
                [LinearOp::Run { rows: 2, scale: ProductScale::One }, LinearOp::RoundOutput]
            );
        }
        created.push(plans);
    }
    assert_eq!(created, [10, 0]);
    assert_eq!(allocation.buffers.linear.qkv_plan.planned, [6, 2]);
    let norm = LayerOp::Tail { layer: 0, op: TailOp::PostNorm(2) };
    assert_eq!(model.projection(&norm), None);
}

#[test]
fn a_projection_without_a_plan_leaves_the_buffers_alone() {
    let model = model();
    let Ok(mut allocation) = model.new_prefill_batch_workspace(2, 6, 40) else {
        panic!("buffers")
    };
    let gates = LayerOp::Gdn { layer: 0, op: GdnOp::ProjectAlphaBeta { rows: 2, serial: true } };
    let Some(gates) = model.projection(&gates) else { panic!("gates") };
    assert_eq!(gates.site, ProjectionSite::AlphaBeta);
    assert_eq!((gates.linear.rows, gates.linear.cols), (4, 16));
    let row = |input_offset, output_offset| LinearOp::RunRow {
        input_offset,
        output_offset,
        scale: ProductScale::One,
    };
    assert_eq!(
        allocation.buffers.run_projection(&gates),
        Ok(vec![
            LinearOp::ConvertInput { values: 32 },
            LinearOp::CreatePlan { rows: 1 },
            row(0, 0),
            row(16, 4),
            LinearOp::RoundOutput,
        ])
    );
    let mut other = gates;
    other.site = ProjectionSite::Dense(FfnProjection::Down);
    other.linear.storage = Storage::Nvfp4;
    assert_eq!(allocation.buffers.run_projection(&other), Err(LinearError::NoPlan));
    other.site = ProjectionSite::Recurrent(GdnProjection::Out);
    assert_eq!(allocation.buffers.run_projection(&other), Err(LinearError::PlanStorage));
    assert_eq!(allocation.buffers.linear.out_plan.planned, [6]);
}

#[test]
fn heads_on_eight_bit_weights_run_on_their_plans() {
    let head = Linear { storage: Storage::Fp8, input_scale: Some(7), ..linear(100, 16) };
    let mut plan = Some(new_batch_linear_plan(&head, 3));
    assert_eq!(
        run_decode_head(&mut plan, &head, 3),
        [
            LinearOp::Run { rows: 3, scale: ProductScale::One },
            LinearOp::FillChannelScale,
            LinearOp::ScaleOutput { rows: 3, cols: 100, per_channel: false },
            LinearOp::RoundOutput,
        ]
    );
    assert_eq!(
        run_decode_head(&mut plan, &head, 128),
        [
            LinearOp::CreatePlan { rows: 128 },
            LinearOp::Run { rows: 128, scale: ProductScale::Calibrated(7) },
            LinearOp::RoundOutput,
        ]
    );
    let row = |input_offset, output_offset| LinearOp::RunRow {
        input_offset,
        output_offset,
        scale: ProductScale::One,
    };
    assert_eq!(
        run_verification_head(&mut plan, &head, 2),
        [
            row(0, 0),
            row(16, 100),
            LinearOp::FillChannelScale,
            LinearOp::ScaleOutput { rows: 2, cols: 100, per_channel: false },
            LinearOp::RoundOutput,
        ]
    );
}

#[test]
fn prompts_of_the_chunked_kernel_are_cut_into_chunks() {
    let model = model_with(GDN_HEADS, routed(true), attention());
    let Ok(allocation) = model.new_prefill_batch_workspace(2, 80, 100) else { panic!("buffers") };
    assert!(allocation.buffers.linear.chunked);
    let long = Qwen36SequenceState { model_id: 3, position: 0, max_tokens: 100 };
    let rows = [
        Qwen36PrefillRow { token_ids: &[1; 70], sequence: &long },
        Qwen36PrefillRow { token_ids: &[2; 3], sequence: &long },
    ];
    let reserved = [reservation(0, 70), reservation(0, 3)];
    let Ok(plan) = model.prefill_batch_impl(
        &allocation.workspace,
        &allocation.buffers,
        None,
        &rows,
        &reserved,
        &None,
    ) else {
        panic!("plan")
    };
    let Some(chunks) = plan.chunks else { panic!("chunks") };
    assert_eq!(chunks.cu_seqlens, [0, 70, 73]);
    assert_eq!(chunks.chunk_indices, [0, 0, 0, 1, 1, 0]);
    assert_eq!(chunks.chunk_offsets, [0, 2, 3]);
    assert_eq!(chunks.chunk_count, 3);
}

#[test]
fn a_decode_batch_is_planned_down_to_its_operations() {
    let model = model();
    let disabled = Some("1".to_string());
    let Ok(allocation) = model.new_decode_batch_workspace(2, 40, &disabled) else {
        panic!("buffers")
    };
    assert!(!allocation.workspace.layer_graphs);
    let sequence = state(10);
    let rows = [Qwen36DecodeRow { token_id: 9, sequence: &sequence }];
    let plan = |reserved: &[Reservation]| {
        model.decode_batch_impl(
            &allocation.workspace,
            &allocation.buffers,
            &rows,
            reserved,
            &None,
            false,
        )
    };
    let Ok(found) = plan(&[reservation(10, 1)]) else { panic!("plan") };
    assert_eq!(found.run.packed.token_ids, [9, 0]);
    assert_eq!(found.table[..2], [StateRef::Row(0), StateRef::Padding(1)]);
    let cached: Vec<&LayerOp> = found
        .ops
        .iter()
        .filter(|op| matches!(op, LayerOp::Attention { op: AttentionOp::CacheRow { .. }, .. }))
        .collect();
    assert_eq!(
        cached,
        [&LayerOp::Attention {
            layer: 1,
            op: AttentionOp::CacheRow {
                row: 0,
                page: 7,
                page_offset: 5,
                kv_offset: 0,
                context: 11,
                q_offset: 0,
            },
        }]
    );
    assert!(found.ops.iter().any(|op| matches!(
        op,
        LayerOp::Gdn { layer: 0, op: GdnOp::RecurBatch { table: 0, rows: 2, heads: 2 } }
    )));
    assert!(matches!(
        plan(&[reservation(11, 1)]),
        Err(PlanError::Step(StepError::Attention(AttentionError::DecodeAppend)))
    ));
    assert!(matches!(
        plan(&[]),
        Err(PlanError::Batch(BatchError::Appends { rows: 1, appends: 0 }))
    ));
}

#[test]
fn graphs_are_recorded_without_the_cache() {
    let model = model();
    let Ok(allocation) = model.new_decode_batch_workspace(3, 40, &None) else {
        panic!("buffers")
    };
    let Ok(ops) = model.capture_batch_layer_graphs(&allocation.workspace, &allocation.buffers)
    else {
        panic!("graphs")
    };
    assert_eq!(
        ops[0],
        LayerOp::Step(LayerStep::BeginGraph { layer: 0, part: GraphPart::Whole })
    );
    assert!(ops.contains(&LayerOp::Step(LayerStep::EndGraph {
        layer: 1,
        part: GraphPart::PostAttention,
    })));
    assert!(!ops.iter().any(|op| matches!(
        op,
        LayerOp::Attention { op: AttentionOp::CacheRow { .. }, .. }
            | LayerOp::Attention { op: AttentionOp::CacheRows { .. }, .. }
    )));
    assert_eq!(ops.last(), Some(&LayerOp::Step(LayerStep::Swap)));
    let sequence = state(10);
    let rows = [Qwen36DecodeRow { token_id: 9, sequence: &sequence }];
    let Ok(plan) = model.decode_batch_impl(
        &allocation.workspace,
        &allocation.buffers,
        &rows,
        &[reservation(10, 1)],
        &None,
        false,
    ) else {
        panic!("plan")
    };
    assert!(plan
        .ops
        .contains(&LayerOp::Step(LayerStep::Launch { layer: 0, part: GraphPart::Whole })));
    assert!(!plan.ops.iter().any(|op| matches!(op, LayerOp::Gdn { .. })));
    let unrotated = model_with(2, dense(), AttentionLayer { sections: None, ..attention() });
    assert_eq!(
        unrotated.capture_batch_layer_graphs(&allocation.workspace, &allocation.buffers),
        Err(StepError::Attention(AttentionError::NoSections))
    );
}

const STATE: StateValues = StateValues { conv: 12, recurrent: 20 };

#[test]
fn verification_runs_one_row_more_than_the_drafts() {
    let model = drafting();
    let Ok(workspace) = model.new_speculative_cycle_workspace(3, 40, STATE) else {
        panic!("workspace")
    };
    assert_eq!(workspace.verify.token_capacity, 4);
    assert!(workspace.verify.layer_graphs);
    assert_eq!((workspace.snapshots.slots, workspace.logits), (3, 400));
    assert_eq!((workspace.normed_hidden, workspace.top1_scratch), (64, 52));
    assert_eq!(workspace.mtp.map(|mtp| mtp.draft_tokens), Some(40));
    assert_eq!(model.speculative_cycle_argmax(&workspace, 2), Ok(3));
    assert_eq!(
        model.speculative_cycle_argmax(&workspace, 4),
        Err(SpeculativeError::Drafts { capacity: 3, drafts: 4 })
    );
    assert_eq!(model.verify_external_speculative(&workspace, 3), Ok(4));
    assert_eq!(
        model.verify_external_speculative(&workspace, 0),
        Err(SpeculativeError::Drafts { capacity: 3, drafts: 0 })
    );
    let Ok(external) = model.new_external_speculative_cycle_workspace(3, 40, STATE) else {
        panic!("workspace")
    };
    assert_eq!(
        model.speculative_cycle_argmax(&external, 2),
        Err(SpeculativeError::NoDraftScratch)
    );
    let Ok(graphs) = model.capture_speculative_prefill_layer_graphs(
        &workspace.verify,
        &workspace.buffers,
        Some(&workspace.snapshots),
    ) else {
        panic!("graphs")
    };
    let kept = graphs
        .iter()
        .filter(|op| matches!(op, LayerOp::Gdn { layer: 0, op: GdnOp::KeepRecurrent(_) }));
    assert_eq!(kept.count(), 3);
}

#[test]
fn a_verification_pass_keeps_the_state_of_each_draft() {
    let model = model();
    let Ok(workspace) = model.new_external_speculative_cycle_workspace(3, 40, STATE) else {
        panic!("workspace")
    };
    let sequence = state(10);
    let rows = [Qwen36PrefillRow { token_ids: &[1, 2, 3], sequence: &sequence }];
    let Ok(plan) = model.prefill_batch_impl(
        &workspace.verify,
        &workspace.buffers,
        Some(&workspace.snapshots),
        &rows,
        &[reservation(10, 3)],
        &None,
    ) else {
        panic!("plan")
    };
    let kept = plan
        .ops
        .iter()
        .filter(|op| matches!(op, LayerOp::Gdn { op: GdnOp::KeepConv(_), .. }))
        .count();
    assert_eq!(kept, 3);
    assert_eq!(workspace.snapshots.restore(1).len(), 1);
}

#[test]
fn verification_workspaces_are_refused_in_order() {
    let make = |model: &Qwen36TextModel, drafts, context, state, mtp| {
        model.new_speculative_verification_workspace(drafts, context, state, mtp).err()
    };
    let huge = StateValues { conv: usize::MAX, recurrent: 1 };
    assert_eq!(make(&drafting(), 3, 40, STATE, true), None);
    assert_eq!(make(&drafting(), 0, 40, STATE, true), Some(SpeculativeError::NoDrafts));
    assert_eq!(
        make(&drafting(), 3, 0, STATE, true),
        Some(SpeculativeError::Workspace(AllocationError::Capacity))
    );
    assert_eq!(
        make(&model_with(2, routed(false), attention()), 3, 40, huge, true),
        Some(SpeculativeError::Workspace(AllocationError::FeedForward(FfnError::ExpertLayout)))
    );
    assert_eq!(
        make(&model(), 3, 40, huge, true),
        Some(SpeculativeError::Snapshots(GdnError::ConvSnapshots))
    );
    assert_eq!(
        make(&model(), 3, 40, STATE, true),
        Some(SpeculativeError::Drafter(MtpError::NoWeights))
    );
    assert_eq!(make(&model(), 3, 40, STATE, false), None);
}

#[test]
fn the_draft_block_chains_its_tokens() {
    let model = drafting();
    assert_eq!(model.mtp_weights().map(|weights| weights.attention.hidden), Some(16));
    let state = Qwen36MtpSequenceState { rows: 5, max_tokens: 20 };
    let Ok(ops) = model.mtp_draft_chain_argmax(&state, 7, 3, 16, 3) else { panic!("chain") };
    assert_eq!(ops[0], MtpOp::SetToken(7));
    let rows: Vec<usize> = ops
        .iter()
        .filter_map(|op| match op {
            MtpOp::Attend { position } => Some(*position),
            _ => None,
        })
        .collect();
    assert_eq!(rows, [5, 6, 7]);
    assert_eq!(ops.iter().filter(|op| **op == MtpOp::ChainToken).count(), 2);
    assert_eq!(
        model.mtp_draft_chain_argmax(&state, 7, 3, 16, 2),
        Err(MtpError::DraftTokens { required: 3, actual: 2 })
    );
    assert_eq!(
        model.mtp_draft_chain_argmax(&state, 7, 3, 15, 3),
        Err(MtpError::Scratch { required: 16, actual: 15 })
    );
    let Ok(workspace) = model.new_mtp_draft_workspace(8) else { panic!("workspace") };
    assert_eq!((workspace.fused, workspace.gate_up, workspace.top1_scratch), (32, 48, 13));
}

#[test]
fn a_model_without_a_draft_block_does_not_draft() {
    let absent = model();
    let state = Qwen36MtpSequenceState { rows: 5, max_tokens: 20 };
    assert!(absent.mtp_weights().is_none());
    assert_eq!(absent.mtp_append_kv(&state, 7), Err(MtpError::NoWeights));
    assert!(matches!(absent.new_mtp_sequence_state(4), Err(MtpError::NoWeights)));
    assert_eq!(absent.new_mtp_draft_workspace(8), Err(MtpError::NoWeights));
}

#[test]
fn the_draft_block_warms_up_behind_the_target() {
    let model = drafting();
    let Ok(mut state) = model.new_mtp_sequence_state(20) else { panic!("state") };
    assert!(state.is_empty());
    let Ok(ops) = model.mtp_warmup_kv(&state, &[4, 5], 80, 32, 16) else { panic!("warm-up") };
    let appended: Vec<usize> = ops
        .iter()
        .filter_map(|op| match op {
            MtpOp::AppendKv { position } => Some(*position),
            _ => None,
        })
        .collect();
    assert_eq!(appended, [0, 1]);
    assert!(ops.iter().any(|op| matches!(
        op,
        MtpOp::LoadHidden { source: HiddenSource::TargetRow(32), values: 16 }
    )));
    assert!(matches!(
        model.mtp_warmup_kv(&state, &[4, 5], 20, 32, 16),
        Err(MtpError::WarmupHiddens { .. })
    ));
    assert!(matches!(
        model.mtp_warmup_kv(&state, &[4, 5], 20, usize::MAX, 16),
        Err(MtpError::WarmupOverflow)
    ));
    assert!(matches!(
        model.mtp_warmup_kv(&state, &[4, 5], 80, 32, 15),
        Err(MtpError::Scratch { required: 16, actual: 15 })
    ));
    state.appended();
    state.appended();
    assert_eq!(state.len(), 2);
    state.truncate(1);
    assert_eq!(state.len(), 1);
    state.truncate(4);
    assert_eq!(state.len(), 1);
}
