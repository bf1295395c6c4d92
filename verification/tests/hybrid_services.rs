//! Services around the hybrid model: prepared weights, resources, drafting and transactions.

use eider_infer::manifest::{
    count_kind, first_kind, QwenArchitecture, QwenFfnConfig, QwenLayerKind, QwenModelManifest,
};
use eider_infer::memory::device_bytes;
use eider_infer::qwen36::batch::Qwen36NextToken;
use eider_infer::qwen36::cache::{
    checkpoint_stamp, conversion_root, down_path, ensure_layer_cache, expert_builds, expert_tensor,
    gate_up_path, is_shard, layer_cache_complete, layer_dir, layer_uses_nvfp4_down,
    marker_contents, missing_experts, missing_layers, moe_shape, nvfp4_down, sort_shards,
    source_directory, stable_hash, weight_file, worker_count, CacheError, ConversionStats,
    ExpertFiles, LayerPreparation, LayerSurvey, ModelPreparation, PrepareStage, Shard,
};
use eider_infer::qwen36::execution::{
    captures_companion, decode_capacity_classes, plan_cache, CacheCosts, ExecutionError,
    Qwen36ExecutionConfig,
};
use eider_infer::qwen36::linear::{Linear, Storage};
use eider_infer::qwen36::mtp::load_mtp;
use eider_infer::qwen36::schedule::RowBuffer;
use eider_infer::qwen36::speculative::{
    commit_cycle, run_speculative_lm_head, ConstrainedChoices, Qwen36SpeculativeFrontier, VerifyOp,
};
use eider_infer::speculation::{
    accepted_drafts, align_speculative_committed_logits, verify_drafts, CycleKind, CycleStage,
    SpeculativeCycle,
};
use eider_infer::tensors::{bf16_values, cube, numbered_name, same_shape, TensorInfo};
use eider_infer::text::{append_decimal, append_decimal3, same_text};
use eider_infer::transaction::{AppendOutcome, AppendPolicy, AppendStage, AppendTransaction};

fn manifest() -> QwenModelManifest {
    QwenModelManifest {
        architecture: QwenArchitecture::Qwen36,
        tensor_prefix: "model".to_string(),
        hidden: 16,
        layers: 3,
        vocab: 100,
        intermediate: 24,
        q_heads: 4,
        kv_heads: 2,
        head_dim: 4,
        rotary_dim: 2,
        rms_eps_bits: 0,
        rope_theta_bits: 0,
        mrope_sections: None,
        ffn: QwenFfnConfig::Moe {
            experts: 8,
            experts_per_token: 2,
            expert_intermediate: 12,
            norm_topk_prob: true,
        },
        layer_kinds: vec![QwenLayerKind::FullAttention; 3],
        linear_attention: None,
        shared_expert_intermediate: None,
        mtp_layers: 0,
    }
}

fn shard(name: &str, len: u64) -> Shard {
    Shard { name: name.to_string(), len, seconds: 17, nanos: 5 }
}

#[test]
fn speculative_logits_align_with_frontier_then_accepted_drafts() {
    assert_eq!(
        align_speculative_committed_logits(0.5, &[1.5, 2.5, 3.5], 0),
        [0.5]
    );
    assert_eq!(
        align_speculative_committed_logits(0.5, &[1.5, 2.5, 3.5], 2),
        [0.5, 1.5, 2.5]
    );
}

#[test]
fn hashes_are_the_same_everywhere() {
    assert_eq!(conversion_root(), "qwen-fp8-nvfp4-v1");
    assert_eq!(stable_hash(b""), 0xcbf2_9ce4_8422_2325);
    assert_eq!(stable_hash(b"a"), 0xaf63_dc4c_8601_ec8c);
    assert_eq!(source_directory(b"a"), "af63dc4c8601ec8c");
    assert_eq!(weight_file(b"a"), "af63dc4c8601ec8c.nvfp4");
}

#[test]
fn prepared_weights_are_named_by_layer_and_expert() {
    assert_eq!(layer_dir(7), "layer-007");
    assert_eq!(down_path(12), "expert-012.down.s12x");
    assert_eq!(gate_up_path(123), "expert-123.gate-up.sm121-w4a16");
    assert_eq!(
        expert_tensor("model", 4, 31, ".up_proj.weight"),
        "model.layers.4.mlp.experts.31.up_proj.weight"
    );
    let probes = layer_uses_nvfp4_down(&manifest(), 2);
    assert_eq!(probes.scale, "model.layers.2.mlp.experts.0.down_proj.weight_scale_2");
    assert_eq!(
        probes.global_scale,
        "model.layers.2.mlp.experts.0.down_proj.weight_global_scale"
    );
    assert!(nvfp4_down(true, false) && nvfp4_down(false, true) && nvfp4_down(true, true));
    assert!(!nvfp4_down(false, false));
}

#[test]
fn stamps_do_not_depend_on_the_order_of_shards() {
    assert!(is_shard("model-1.safetensors"));
    assert!(!is_shard(".safetensors"));
    assert!(!is_shard("model.safetensors.index.json"));
    let sorted = sort_shards(vec![shard("b", 2), shard("a", 1), shard("c", 3)]);
    let names: Vec<&str> = sorted.iter().map(|shard| shard.name.as_str()).collect();
    assert_eq!(names, ["a", "b", "c"]);
    let stamp = "source=a:1:17:5\nsource=b:2:17:5\n".to_string();
    assert_eq!(checkpoint_stamp(vec![shard("b", 2), shard("a", 1)]), Ok(stamp.clone()));
    assert_eq!(checkpoint_stamp(vec![shard("a", 1), shard("b", 2)]), Ok(stamp));
    assert_eq!(checkpoint_stamp(Vec::new()), Err(CacheError::NoShards));
}

#[test]
fn markers_describe_a_layer() {
    assert_eq!(
        marker_contents(&manifest(), 2, "stamp\n"),
        Ok("eider-qwen36-experts-v2\nlayer=2\nexperts=8\nout=16;in=12\nstamp\n".to_string())
    );
    assert_eq!(moe_shape(&manifest()), Ok((8, 12)));
    let dense = QwenModelManifest { ffn: QwenFfnConfig::Dense, ..manifest() };
    assert_eq!(marker_contents(&dense, 2, ""), Err(CacheError::NotMoe));
    assert_eq!(moe_shape(&dense), Err(CacheError::NotMoe));
}

#[test]
fn only_missing_experts_are_built() {
    let whole = ExpertFiles { gate_up: true, down: true };
    let half = ExpertFiles { gate_up: true, down: false };
    let marker = Some("m".to_string());
    assert!(layer_cache_complete(&marker, "m", &[whole, whole]));
    assert!(!layer_cache_complete(&marker, "m", &[whole, half]));
    assert!(!layer_cache_complete(&None, "m", &[whole]));
    assert_eq!(missing_experts(&marker, "m", &[whole, half]), [1]);
    assert_eq!(missing_experts(&marker, "m", &[whole, whole]), Vec::<usize>::new());
    assert_eq!(missing_experts(&Some("n".to_string()), "m", &[whole, whole]), [0, 1]);
    let none = ExpertFiles { gate_up: false, down: false };
    assert_eq!(expert_builds(&half), ExpertFiles { gate_up: false, down: true });
    assert_eq!(expert_builds(&whole), none);
    assert_eq!(expert_builds(&none), whole);
    assert_eq!(worker_count(16, 3), 3);
    assert_eq!(worker_count(2, 30), 2);
    let mut stats = ConversionStats { hits: 0, prepared: 0 };
    assert!(stats.load_or_quantize(&Some("p".to_string()), "p"));
    assert!(!stats.load_or_quantize(&Some("q".to_string()), "p"));
    assert!(!stats.load_or_quantize(&None, "p"));
    assert_eq!(stats.stats(), (1, 0));
    stats.converted();
    assert_eq!(stats.stats(), (1, 1));
}

#[test]
fn layers_are_built_under_a_lock() {
    let ready = LayerSurvey { nvfp4_down: true, complete: true };
    let missing = LayerSurvey { nvfp4_down: true, complete: false };
    let native = LayerSurvey { nvfp4_down: false, complete: false };
    assert_eq!(missing_layers(&[ready, missing, native]), [1]);
    let mut preparation = ModelPreparation::new();
    assert_eq!(preparation.stage(), PrepareStage::Survey);
    preparation.surveyed(&[missing, ready, missing]);
    assert_eq!(preparation.stage(), PrepareStage::Lock);
    preparation.done();
    assert_eq!(preparation.stage(), PrepareStage::SurveyLocked);
    preparation.surveyed(&[ready, ready, missing]);
    assert_eq!(preparation.layer(), Some(2));
    preparation.done();
    assert_eq!(preparation.stage(), PrepareStage::Finished);
    let mut idle = ModelPreparation::new();
    idle.surveyed(&[ready, native]);
    assert_eq!(idle.stage(), PrepareStage::Finished);
    assert_eq!(
        ensure_layer_cache(&manifest(), 3, ready),
        Err(CacheError::Layer { layers: 3, layer: 3 })
    );
    assert_eq!(ensure_layer_cache(&manifest(), 2, missing), Ok(LayerPreparation::Build));
    assert_eq!(ensure_layer_cache(&manifest(), 2, ready), Ok(LayerPreparation::Ready));
}

#[test]
fn batches_fit_a_close_class() {
    assert_eq!(decode_capacity_classes(6), [1, 2, 4, 6]);
    assert_eq!(decode_capacity_classes(8), [1, 2, 4, 8]);
    assert_eq!(decode_capacity_classes(1), [1]);
}

fn costs() -> CacheCosts {
    CacheCosts {
        vocab: 10,
        private_state_bytes: 100,
        page_table_bytes: 60,
        page_bytes: 1000,
        page_tokens: 128,
    }
}

fn limits() -> Qwen36ExecutionConfig {
    Qwen36ExecutionConfig {
        decode_capacity: 4,
        prefill_sequence_capacity: 2,
        prefill_token_capacity: 64,
        max_active_sequences: 3,
        max_context_tokens: 300,
        speculative_drafts: 2,
        retained_prefix_bytes: 16000,
    }
}

#[test]
fn a_cache_holds_active_and_retained_pages() {
    let Ok(plan) = plan_cache(&costs(), &limits(), true) else { panic!("plan") };
    assert_eq!(plan.dflash2_retained_bytes, 2000);
    assert_eq!(plan.snapshot_capacity, 3500);
    assert_eq!(plan.page_slots, 9 + 10);
    assert_eq!(plan.managed_bytes, 3 * 200 + 9000 + 14000);
    let Ok(plan) = plan_cache(&costs(), &limits(), false) else { panic!("plan") };
    assert_eq!(plan.dflash2_retained_bytes, 0);
    assert_eq!(plan.page_slots, 9 + 12);
    assert!(captures_companion(&limits(), true));
    assert!(!captures_companion(&limits(), false));
    let plain = Qwen36ExecutionConfig { speculative_drafts: 0, ..limits() };
    assert!(!captures_companion(&plain, true));
}

#[test]
fn a_cache_that_cannot_be_counted_is_refused() {
    let refused = |costs: CacheCosts, config: Qwen36ExecutionConfig| {
        match plan_cache(&costs, &config, false) {
            Ok(_) => panic!("plan was accepted"),
            Err(error) => error,
        }
    };
    let max = usize::MAX;
    assert_eq!(
        refused(CacheCosts { vocab: max, ..costs() }, limits()),
        ExecutionError::SamplingBytes
    );
    assert_eq!(
        refused(CacheCosts { private_state_bytes: max, ..costs() }, limits()),
        ExecutionError::FixedBytes
    );
    assert_eq!(
        refused(CacheCosts { private_state_bytes: max / 2, ..costs() }, limits()),
        ExecutionError::FixedCapacity
    );
    let many = Qwen36ExecutionConfig { max_context_tokens: max, ..limits() };
    assert_eq!(
        refused(CacheCosts { page_tokens: 1, ..costs() }, many),
        ExecutionError::ActivePages
    );
    assert_eq!(
        refused(CacheCosts { page_bytes: max, ..costs() }, limits()),
        ExecutionError::ActivePageBytes
    );
    assert_eq!(
        refused(
            CacheCosts { page_bytes: max / 9, private_state_bytes: max / 4, ..costs() },
            limits()
        ),
        ExecutionError::ActiveCapacity
    );
    let retained = Qwen36ExecutionConfig { retained_prefix_bytes: max, ..limits() };
    assert_eq!(refused(costs(), retained), ExecutionError::ManagedBytes);
    let none =
        Qwen36ExecutionConfig { max_active_sequences: 0, retained_prefix_bytes: 0, ..limits() };
    assert!(matches!(refused(costs(), none), ExecutionError::NoPages { fixed_capacity: 0, .. }));
}

#[test]
fn the_draft_block_lists_its_tensors() {
    let tensors = load_mtp(&manifest());
    assert!(tensors.iter().any(|tensor| tensor.name == "mtp.fc.weight"
        && tensor.shape == [16, 32]));
}

fn head(storage: Storage) -> Linear {
    Linear {
        storage,
        rows: 100,
        cols: 16,
        input_scale: None,
        channel_scaled: false,
        weight_only: false,
    }
}

#[test]
fn the_head_chooses_tokens_at_once_where_nobody_reads_logits() {
    let full = run_speculative_lm_head(&head(Storage::Bf16), RowBuffer::Stream, 3, 4, true);
    assert_eq!(full.last(), Some(&VerifyOp::Argmax { rows: 4 }));
    let fused = run_speculative_lm_head(&head(Storage::Bf16), RowBuffer::Stream, 3, 4, false);
    assert_eq!(fused[0], VerifyOp::FinalNorm { source: RowBuffer::Stream, rows: 3 });
    assert_eq!(fused.last(), Some(&VerifyOp::FusedTop1 { rows: 3 }));
}

#[test]
fn constrained_choices_end_with_the_first_refusal() {
    let mut choices = ConstrainedChoices::new();
    choices.take_choice(Some(Qwen36NextToken { id: 4, value_bits: 7 }));
    choices.take_choice(None);
    assert_eq!(choices.tokens, [4]);
    assert_eq!(choices.logits, [7]);
    assert!(choices.ended);
}

#[test]
fn a_cycle_commits_what_the_target_would_choose() {
    assert_eq!(accepted_drafts(&[5, 6, 7], &[5, 6, 9, 1]), 2);
    assert_eq!(accepted_drafts(&[5], &[4, 1]), 0);
    let outcome = verify_drafts(3, 'f', &[5, 6, 7], &[5, 6, 9, 1], &['a', 'b', 'c', 'd']);
    assert_eq!(outcome.accepted, 2);
    assert_eq!(outcome.committed, [3, 5, 6]);
    assert_eq!(outcome.committed_logits, ['f', 'a', 'b']);
    assert_eq!(outcome.next, Some((9, 'c')));
    let mut frontier = Qwen36SpeculativeFrontier { token: 3, logit_bits: 30 };
    let outcome = commit_cycle(&mut frontier, &[5, 6], &[5, 6, 8], &[50, 60, 80], true);
    assert_eq!(outcome.committed, [3, 5, 6]);
    assert_eq!(outcome.committed_logits, [30, 50, 60]);
    assert_eq!((frontier.token, frontier.logit_bits), (8, 80));
    assert!(outcome.speculation_ready);
    let outcome = commit_cycle(&mut frontier, &[5, 6], &[5, 6], &[50, 60], true);
    assert_eq!(outcome.committed, [8, 5, 6]);
    assert!(!outcome.speculation_ready);
    assert_eq!((frontier.token, frontier.logit_bits), (8, 80));
    let outcome = commit_cycle(&mut frontier, &[5], &[4, 1], &[40, 10], false);
    assert!(!outcome.speculation_ready);
    let greedy = |mut token: u32, steps: usize| {
        let mut tokens = vec![token];
        for _ in 0..steps {
            token = token * 7 % 31;
            tokens.push(token);
        }
        tokens
    };
    let wanted = greedy(3, 3);
    let drafted = [wanted[1], wanted[2], 0];
    let chosen: Vec<u32> = [3, drafted[0], drafted[1], drafted[2]]
        .iter()
        .map(|token| token * 7 % 31)
        .collect();
    let outcome = verify_drafts(3, (), &drafted, &chosen, &[(); 4]);
    assert_eq!(outcome.committed, wanted[..3]);
    assert_eq!(outcome.next.map(|next| next.0), Some(wanted[3]));
}

#[test]
fn appends_follow_their_policy() {
    let mut append: AppendTransaction<u8> = AppendTransaction::new(AppendPolicy::forward());
    let mut stages = Vec::new();
    while append.stage() != AppendStage::Finished {
        stages.push(append.stage());
        append.step(AppendOutcome::Done);
    }
    assert_eq!(
        stages,
        [
            AppendStage::Reserve,
            AppendStage::BeginState,
            AppendStage::BeginRead,
            AppendStage::Body,
            AppendStage::CommitCache,
            AppendStage::CommitState,
        ]
    );
    assert_eq!(append.finish(), Ok(()));
}

#[test]
fn failed_appends_are_rolled_back() {
    for policy in [
        AppendPolicy::forward(),
        AppendPolicy::verification(),
        AppendPolicy::draft_token(),
        AppendPolicy::draft_prompt(),
        AppendPolicy::hybrid_verification(),
    ] {
        let mut append: AppendTransaction<u8> = AppendTransaction::new(policy);
        let mut released = false;
        let mut calls = 0;
        while append.stage() != AppendStage::Finished {
            match append.stage() {
                AppendStage::Body => append.step(AppendOutcome::Failed(1)),
                AppendStage::AbortCache => {
                    released = true;
                    append.step(AppendOutcome::Done);
                }
                AppendStage::CommitCache => panic!("a failed pass is committed"),
                _ => append.step(AppendOutcome::Done),
            }
            calls += 1;
        }
        assert!(released);
        assert!(calls <= 8);
        assert_eq!(append.finish(), Err(1));
    }
}

#[test]
fn a_failed_commit_releases_where_the_policy_says_so() {
    for policy in [
        AppendPolicy::forward(),
        AppendPolicy::verification(),
        AppendPolicy::draft_token(),
        AppendPolicy::draft_prompt(),
        AppendPolicy::hybrid_verification(),
    ] {
        let mut append: AppendTransaction<u8> = AppendTransaction::new(policy);
        let mut released = false;
        while append.stage() != AppendStage::Finished {
            match append.stage() {
                AppendStage::CommitCache => append.step(AppendOutcome::Failed(3)),
                AppendStage::AbortCache => {
                    released = true;
                    append.step(AppendOutcome::Done);
                }
                AppendStage::CommitState => panic!("the state is committed on its own"),
                _ => append.step(AppendOutcome::Done),
            }
        }
        assert_eq!(released, policy.release_after_commit);
        assert_eq!(append.finish(), Err(3));
    }
}

#[test]
fn a_partly_accepted_pass_is_restored_first() {
    let mut append: AppendTransaction<u8> =
        AppendTransaction::new(AppendPolicy::hybrid_verification());
    let mut stages = Vec::new();
    while append.stage() != AppendStage::Finished {
        stages.push(append.stage());
        match append.stage() {
            AppendStage::Body => append.step(AppendOutcome::DoneInPart),
            _ => append.step(AppendOutcome::Done),
        }
    }
    let restore = stages.iter().position(|stage| *stage == AppendStage::Restore).unwrap();
    let commit = stages.iter().position(|stage| *stage == AppendStage::CommitCache).unwrap();
    assert!(restore < commit);
    assert_eq!(append.take_failure(), None);
}

#[test]
fn a_native_cycle_keeps_its_drafter_in_step() {
    let mut cycle: SpeculativeCycle<u8> = SpeculativeCycle::new(CycleKind::Native);
    let mut stages = Vec::new();
    let mut guard = 0;
    while cycle.stage() != CycleStage::Finished {
        stages.push(cycle.stage());
        if cycle.stage() == CycleStage::Append && cycle.append_stage() == AppendStage::Body {
            cycle.verified(1, 1, true);
        } else {
            cycle.step(Ok(()));
        }
        guard += 1;
        assert!(guard < 40);
    }
    assert_eq!(stages[0], CycleStage::Draft);
    assert_eq!(cycle.accepted(), 1);
    assert_eq!(cycle.finish(), Ok(true));
}

fn external_cycle(drafted: &[u32], chosen: &[u32]) -> (Vec<(AppendStage, usize)>, bool) {
    let mut cycle: SpeculativeCycle<u8> = SpeculativeCycle::new(CycleKind::External);
    let mut rows = Vec::new();
    let mut guard = 0;
    while cycle.stage() != CycleStage::Finished {
        if cycle.stage() == CycleStage::Append {
            let count = cycle.append_rows(drafted.len());
            if count > 0 {
                rows.push((cycle.append_stage(), count));
            }
        }
        if cycle.stage() == CycleStage::Append && cycle.append_stage() == AppendStage::Body {
            cycle.verified_tokens(drafted, chosen);
        } else {
            cycle.step(Ok(()));
        }
        guard += 1;
        assert!(guard < 40);
    }
    match cycle.finish() {
        Ok(ready) => (rows, ready),
        Err(error) => panic!("failed with {error}"),
    }
}

#[test]
fn an_external_cycle_needs_a_next_token() {
    assert_eq!(
        external_cycle(&[5, 6], &[5, 7]),
        (
            vec![
                (AppendStage::Reserve, 3),
                (AppendStage::CommitCache, 2),
                (AppendStage::CommitState, 2),
            ],
            true
        )
    );
    let (rows, ready) = external_cycle(&[5, 6], &[5, 6, 7]);
    assert!(ready);
    assert_eq!(rows[1], (AppendStage::CommitCache, 3));
    let (rows, ready) = external_cycle(&[5, 6], &[5]);
    assert!(!ready);
    assert_eq!(rows[1], (AppendStage::CommitCache, 2));
}

#[test]
fn rows_are_counted_for_the_calls_that_take_them() {
    let mut append: AppendTransaction<u8> = AppendTransaction::new(AppendPolicy::forward());
    let mut counts = Vec::new();
    while append.stage() != AppendStage::Finished {
        counts.push(append.call_rows(4, 3));
        append.step(AppendOutcome::Done);
    }
    assert_eq!(counts, [4, 0, 0, 0, 3, 3]);
}

#[test]
fn a_failed_draft_ends_the_cycle() {
    let mut cycle: SpeculativeCycle<u8> = SpeculativeCycle::new(CycleKind::Chained);
    let mut guard = 0;
    cycle.step(Err(6));
    while cycle.stage() != CycleStage::Finished {
        cycle.step(Ok(()));
        guard += 1;
        assert!(guard < 40);
    }
    assert_eq!(cycle.finish(), Err(6));
}

#[test]
fn small_helpers_are_exact() {
    let mut text = String::from("n");
    append_decimal(&mut text, 1050);
    append_decimal3(&mut text, 7);
    append_decimal3(&mut text, 4096);
    assert_eq!(text, "n10500074096");
    assert!(same_text("abc", "abc") && !same_text("abc", "abd") && !same_text("ab", "abc"));
    assert_eq!(numbered_name("layer.", 12, ".weight"), "layer.12.weight");
    assert_eq!(cube(2, 3, 4), [2, 3, 4]);
    assert!(same_shape(&[2, 3], &[2, 3]) && !same_shape(&[2, 3], &[3, 2]));
    assert_eq!(bf16_values(&[1, 2, 3, 4, 5]), [0x0201, 0x0403]);
    let info = TensorInfo { dtype: "BF16".to_string(), shape: vec![2, 3] };
    assert!(info.check_bf16(&[2, 3]) && !info.check_bf16(&[3, 2]));
    assert_eq!(device_bytes(&[4, 0, 38]), 42);
    assert_eq!(device_bytes(&[]), 0);
    let kinds = vec![QwenLayerKind::LinearAttention, QwenLayerKind::FullAttention];
    assert_eq!(count_kind(&kinds, QwenLayerKind::FullAttention), 1);
    assert_eq!(first_kind(&kinds, QwenLayerKind::FullAttention), Some(1));
    assert_eq!(first_kind(&Vec::new(), QwenLayerKind::FullAttention), None);
}
