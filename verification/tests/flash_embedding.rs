//! Hashing, history and paging of the per-layer embedding.

use eider_infer::qwen38_flash_next::config::{Qwen38FlashNextConfig, Qwen38LayerType};
use eider_infer::qwen38_flash_next::loading::{hash_plan_tensors, table_shards, IntegerTensor};
use eider_infer::qwen38_flash_next::ple::{
    align_up, check_i64_vector, ple_embedding_prefix, read_i64_vector, PleError, PleReadStats,
    Qwen38PagedPle, Qwen38PleHashPlan, Qwen38PlePagingStats, Qwen38PleTokenWindow,
};

fn config() -> Qwen38FlashNextConfig {
    Qwen38FlashNextConfig {
        hidden: 8,
        vocab: 100,
        layers: 2,
        layer_types: vec![Qwen38LayerType::LinearAttention, Qwen38LayerType::FullAttention],
        q_heads: 2,
        kv_heads: 1,
        head_dim: 4,
        rotary_dim: 2,
        linear_key_heads: 2,
        linear_value_heads: 2,
        linear_key_head_dim: 4,
        linear_value_head_dim: 4,
        linear_conv_kernel: 4,
        experts: 4,
        experts_per_token: 2,
        expert_intermediate: 8,
        shared_expert_intermediate: 8,
        hc_count: 3,
        hc_lowrank: 5,
        ple_layer: 1,
        ple_embedding_dim: 24,
        ple_conv_kernel: 4,
        ngram_size: 3,
        heads_per_ngram: 2,
        ngram_shards: 16,
        ngram_vocab_base: 10,
        ngram_vocab_alignment: 8,
        indexer_heads: 1,
        indexer_kv_heads: 1,
        indexer_head_dim: 4,
        indexer_compress_ratio: 1,
        indexer_budget: 16,
        max_position_embeddings: 4096,
        eos_token_id: 99,
        rms_eps_bits: 0,
        rope_theta_bits: 0,
        mtp_layers: 1,
    }
}

fn small_plan() -> Qwen38PleHashPlan {
    match Qwen38PleHashPlan::new(vec![3, 5], vec![10, 7], vec![0, 10], 2, 2, 99) {
        Ok(plan) => plan,
        Err(_) => panic!("plan"),
    }
}

fn refused(
    multipliers: Vec<u64>,
    sizes: Vec<u64>,
    offsets: Vec<u64>,
    heads: usize,
    ngram: usize,
) -> PleError {
    match Qwen38PleHashPlan::new(multipliers, sizes, offsets, heads, ngram, 99) {
        Ok(_) => panic!("plan was accepted"),
        Err(error) => error,
    }
}

#[test]
fn qwen_hash_order_and_eos_reset_match_reference_formula() {
    let vocab_sizes = (0..16)
        .map(|index| 101 + index as u64 * 2)
        .collect::<Vec<_>>();
    let mut offsets = Vec::with_capacity(16);
    let mut offset = 0u64;
    for &size in &vocab_sizes {
        offsets.push(offset);
        offset += size;
    }
    let plan = Qwen38PleHashPlan::new(
        vec![3, 5, 7],
        vocab_sizes.clone(),
        offsets.clone(),
        8,
        3,
        99,
    )
    .expect("plan");
    let mut window = Qwen38PleTokenWindow::new(3, 99).expect("window");
    window.begin_append().expect("transaction");
    let mut rows = Vec::new();
    plan.hash_and_append(&mut window, 2, &mut rows)
        .expect("first token");
    let bigram = 2u64 * 3 ^ 99u64 * 5;
    let trigram = bigram ^ 99u64 * 7;
    for head in 0..8 {
        assert_eq!(
            rows[head] as u64,
            offsets[head] + bigram % vocab_sizes[head]
        );
    }
    for head in 8..16 {
        assert_eq!(
            rows[head] as u64,
            offsets[head] + trigram % vocab_sizes[head]
        );
    }

    rows.clear();
    plan.hash_and_append(&mut window, 99, &mut rows)
        .expect("EOS token");
    rows.clear();
    plan.hash_and_append(&mut window, 4, &mut rows)
        .expect("new segment");
    let reset_bigram = 4u64 * 3 ^ 99u64 * 5;
    assert_eq!(rows[0] as u64, offsets[0] + reset_bigram % vocab_sizes[0]);

    window.abort_append().expect("rollback");
    let reset = Qwen38PleTokenWindow::new(3, 99).expect("reset window");
    assert_eq!(window, reset);
}

#[test]
fn unusable_plans_are_refused() {
    assert_eq!(refused(vec![3], vec![], vec![], 1, 0), PleError::HashHeads);
    assert_eq!(refused(vec![3], vec![], vec![], usize::MAX, 3), PleError::HashHeads);
    assert_eq!(refused(vec![3], vec![], vec![], 1, 1), PleError::HashPlan);
    assert_eq!(refused(vec![3, 0], vec![4], vec![0], 1, 2), PleError::HashPlan);
    assert_eq!(refused(vec![3, 5], vec![0], vec![0], 1, 2), PleError::HashPlan);
    assert_eq!(refused(vec![3, 5], vec![4, 4], vec![0, 5], 2, 2), PleError::HeadOffsets);
    assert_eq!(
        refused(vec![3, 5], vec![u64::MAX], vec![1], 1, 2),
        PleError::TableRows
    );
    assert_eq!(small_plan().heads(), 2);
    assert_eq!(small_plan().table_rows(), 17);
    assert_eq!(small_plan().clone(), small_plan());
}

#[test]
fn a_window_belongs_to_its_plan() {
    let plan = small_plan();
    let mut rows = Vec::new();
    let mut window = Qwen38PleTokenWindow::new(3, 99).expect("window");
    assert_eq!(plan.hash_and_append(&mut window, 2, &mut rows), Err(PleError::TokenWindow));
    let mut window = Qwen38PleTokenWindow::new(2, 98).expect("window");
    assert_eq!(plan.hash_and_append(&mut window, 2, &mut rows), Err(PleError::TokenWindow));
    assert!(matches!(Qwen38PleTokenWindow::new(1, 99), Err(PleError::TokenWindow)));
}

#[test]
fn rows_beyond_the_identifier_are_refused() {
    let first = u32::MAX as u64 + 1;
    let plan = Qwen38PleHashPlan::new(vec![3, 5], vec![4], vec![first], 1, 2, 99).expect("plan");
    let mut window = Qwen38PleTokenWindow::new(2, 99).expect("window");
    let mut rows = Vec::new();
    assert_eq!(plan.hash_and_append(&mut window, 2, &mut rows), Err(PleError::RowId));
}

#[test]
fn appends_are_committed_or_undone() {
    let fresh = Qwen38PleTokenWindow::new(3, 99).expect("window");
    let mut window = fresh.clone();
    assert_eq!(window.commit_append(), Err(PleError::AppendInactive));
    assert_eq!(window.abort_append(), Err(PleError::AppendInactive));
    assert_eq!(window.begin_append(), Ok(()));
    assert_eq!(window.begin_append(), Err(PleError::AppendActive));
    window.push(7);
    window.push(8);
    assert!(matches!(window.snapshot(), Err(PleError::AppendActive)));
    assert_eq!(window.abort_append(), Ok(()));
    assert_eq!(window, fresh);

    assert_eq!(window.begin_append(), Ok(()));
    window.push(7);
    window.push(8);
    window.push(9);
    assert_eq!(window.commit_append_prefix(&[7, 8]), Ok(()));
    let mut short = fresh.clone();
    assert_eq!(short.begin_append(), Ok(()));
    short.push(7);
    short.push(8);
    assert_eq!(short.commit_append(), Ok(()));
    assert_eq!(window, short);

    let snapshot = short.snapshot().expect("snapshot");
    let mut other = fresh.clone();
    assert_eq!(other.restore_from(&snapshot), Ok(()));
    assert_eq!(other, short);
    let mut longer = Qwen38PleTokenWindow::new(4, 99).expect("window");
    assert!(longer.restore_from(&snapshot).is_err());
}

#[test]
fn the_end_token_starts_an_empty_segment() {
    let fresh = Qwen38PleTokenWindow::new(3, 99).expect("window");
    let mut window = fresh.clone();
    window.push(7);
    window.push(8);
    window.push(99);
    assert_eq!(window, fresh);
}

#[test]
fn batches_select_the_rows_of_single_tokens() {
    let plan = small_plan();
    let mut pager = Qwen38PagedPle::open(small_plan(), 24, 8, 4).expect("pager");
    let mut batch = Qwen38PleTokenWindow::new(2, 99).expect("window");
    let mut serial = batch.clone();
    assert_eq!(pager.begin_read_tokens(&mut batch, &[4, 99, 6]), Ok(()));
    let mut rows = Vec::new();
    for token in [4, 99, 6] {
        plan.hash_and_append(&mut serial, token, &mut rows).expect("token");
    }
    assert_eq!(pager.row_ids(), rows.as_slice());
    assert_eq!(rows.len(), 6);
    assert!(rows.iter().all(|&row| row < 17));
    assert!(rows.chunks(2).all(|pair| pair[0] < 10 && pair[1] >= 10));
    assert_eq!(batch, serial);
    assert_eq!(
        pager.begin_read_tokens(&mut batch, &[1, 2, 3, 4, 5]),
        Err(PleError::Tokens)
    );
    assert_eq!(pager.begin_read_tokens(&mut batch, &[]), Err(PleError::Tokens));
    assert_eq!(pager.hash_plan().heads(), 2);
}

#[test]
fn a_pager_checks_its_table() {
    assert!(matches!(Qwen38PagedPle::open(small_plan(), 24, 8, 0), Err(PleError::Capacity)));
    assert!(matches!(Qwen38PagedPle::open(small_plan(), 24, 0, 1), Err(PleError::Alignment)));
    assert!(matches!(
        Qwen38PagedPle::open(small_plan(), 24, usize::MAX, 1),
        Err(PleError::AlignmentOverflow)
    ));
    assert!(matches!(Qwen38PagedPle::open(small_plan(), 17, 8, 1), Err(PleError::Rows)));
    assert!(matches!(
        Qwen38PagedPle::open(small_plan(), 24, 8, usize::MAX),
        Err(PleError::RowCapacity)
    ));
}

#[test]
fn a_read_is_counted_once() {
    let mut pager = Qwen38PagedPle::open(small_plan(), 24, 8, 4).expect("pager");
    let read = PleReadStats { logical_rows: 6, unique_rows: 5, bytes_read: 4096, elapsed_ns: 70 };
    pager.account_read(read);
    assert_eq!(pager.stats(), Qwen38PlePagingStats::default());
    pager.read_started();
    pager.account_read(read);
    pager.account_read(read);
    assert_eq!(
        pager.stats(),
        Qwen38PlePagingStats {
            batches: 1,
            logical_rows: 6,
            unique_rows: 5,
            bytes_read: 4096,
            read_time_ns: 70,
        }
    );
}

#[test]
fn rows_are_aligned_upwards() {
    assert_eq!(align_up(17, 8), Ok(24));
    assert_eq!(align_up(24, 8), Ok(24));
    assert_eq!(align_up(0, 8), Ok(0));
    assert_eq!(align_up(1, 0), Err(PleError::Alignment));
    assert_eq!(align_up(usize::MAX, 2), Err(PleError::AlignmentOverflow));
}

#[test]
fn integer_tensors_are_checked_and_decoded() {
    assert_eq!(check_i64_vector("I64", &[2], 16, 2), Ok(()));
    assert_eq!(check_i64_vector("I32", &[2], 16, 2), Err(PleError::IntegerTensor));
    assert_eq!(check_i64_vector("I64", &[2, 1], 16, 2), Err(PleError::IntegerTensor));
    assert_eq!(check_i64_vector("I64", &[2], 8, 2), Err(PleError::IntegerTensor));
    let mut bytes = Vec::new();
    bytes.extend_from_slice(&5i64.to_le_bytes());
    bytes.extend_from_slice(&0x0102_0304_0506_0708i64.to_le_bytes());
    assert_eq!(read_i64_vector(&bytes), Ok(vec![5, 0x0102_0304_0506_0708]));
    bytes.extend_from_slice(&(-1i64).to_le_bytes());
    assert_eq!(read_i64_vector(&bytes), Err(PleError::NegativeInteger));
}

fn integers(values: &[i64]) -> IntegerTensor {
    let mut bytes = Vec::new();
    for value in values {
        bytes.extend_from_slice(&value.to_le_bytes());
    }
    IntegerTensor {
        dtype: "I64".to_string(),
        shape: vec![values.len()],
        byte_len: 8 * values.len() as u64,
        bytes,
    }
}

#[test]
fn the_hash_is_loaded_from_three_tensors() {
    let config = config();
    let names: Vec<String> =
        hash_plan_tensors(&config).iter().map(|tensor| tensor.name.clone()).collect();
    assert_eq!(
        names,
        [
            "model.language_model.layers.1.ple.ple_embedding.layer_multipliers",
            "model.language_model.layers.1.ple.ple_embedding.ngram_heads_vocab_sizes",
            "model.language_model.layers.1.ple.ple_embedding.ngram_heads_offsets",
        ]
    );
    let multipliers = integers(&[3, 5, 7]);
    let sizes = integers(&[10, 11, 12, 13]);
    let offsets = integers(&[0, 10, 21, 33]);
    let plan = Qwen38PleHashPlan::load(&config, &multipliers, &sizes, &offsets).expect("plan");
    assert_eq!(plan.heads(), 4);
    assert_eq!(plan.table_rows(), 46);
    let short = integers(&[3, 5]);
    assert!(matches!(
        Qwen38PleHashPlan::load(&config, &short, &sizes, &offsets),
        Err(PleError::IntegerTensor)
    ));
    let negative = integers(&[0, 10, 21, -33]);
    assert!(matches!(
        Qwen38PleHashPlan::load(&config, &multipliers, &sizes, &negative),
        Err(PleError::NegativeInteger)
    ));
}

#[test]
fn the_table_is_named_by_its_layer() {
    assert_eq!(
        ple_embedding_prefix(12),
        "model.language_model.layers.12.ple.ple_embedding"
    );
    let table = table_shards(&config());
    assert_eq!(
        table.first,
        "model.language_model.layers.1.ple.ple_embedding.ngram_embedding.shard_0.weight"
    );
    assert_eq!(
        table.prefix,
        "model.language_model.layers.1.ple.ple_embedding.ngram_embedding.shard_"
    );
    assert_eq!(table.suffix, ".weight");
    assert_eq!(table.shards, 16);
    assert_eq!(table.row_width, 6);
}
