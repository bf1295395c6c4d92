//! Batches have room in the buffers that are made for them, and bytes are shared out in full.

use crate::qwen36::attention::AttentionLayer;
use crate::qwen36::execution::{CacheCosts, Qwen36ExecutionConfig};
use crate::qwen36::ffn::{
    BatchDenseMlpWorkspace, BatchMoeWorkspace, DenseWeights, FfnWeights, MoeWeights,
};
use crate::qwen36::gdn::GdnLayer;
use crate::qwen36::workspace::{BatchFullAttentionWorkspace, BatchLinearAttentionWorkspace};
use vstd::prelude::*;

verus! {

proof fn lemma_room(rows: int, capacity: int, width: int)
    requires
        0 <= rows <= capacity,
        0 <= width,
    ensures
        rows * width <= capacity * width,
{
    assert(rows * width <= capacity * width) by (nonlinear_arith)
        requires
            0 <= rows <= capacity,
            0 <= width,
    ;
}

/// Attention buffers have room for every batch up to their capacity: its input, the queries with
/// their gates, all query heads, all key and value heads, and its output.
pub proof fn law_attention_rows_have_room(
    workspace: BatchFullAttentionWorkspace,
    layer: AttentionLayer,
    capacity: usize,
    max_context_tokens: usize,
    rows: int,
)
    requires
        workspace.made_for(layer, capacity, max_context_tokens),
        0 <= rows <= capacity,
    ensures
        rows * layer.hidden <= workspace.hidden_quantized,
        rows * layer.q.rows <= workspace.q_proj,
        rows * (layer.q_heads * layer.head_dim) <= workspace.q,
        rows * (layer.kv_heads * layer.head_dim) <= workspace.k,
        rows * layer.hidden <= workspace.output,
{
    assert(0 <= layer.q_heads * layer.head_dim && 0 <= layer.kv_heads * layer.head_dim)
        by (nonlinear_arith);
    lemma_room(rows, capacity as int, layer.hidden as int);
    lemma_room(rows, capacity as int, layer.q.rows as int);
    lemma_room(rows, capacity as int, layer.q_heads * layer.head_dim);
    lemma_room(rows, capacity as int, layer.kv_heads * layer.head_dim);
}

/// Recurrent buffers have room for every batch up to their capacity, for one row on its own, and
/// for a state table entry and a spare state of every row of every layer.
pub proof fn law_recurrent_rows_have_room(
    workspace: BatchLinearAttentionWorkspace,
    weights: GdnLayer,
    layers: usize,
    capacity: usize,
    states: usize,
    chunked: bool,
    rows: int,
    layer: int,
    state: int,
)
    requires
        workspace.made_for(weights, layers, capacity, states, chunked),
        0 <= rows <= capacity,
        0 <= layer < layers,
        0 <= state < states,
    ensures
        rows * weights.hidden <= workspace.hidden_quantized,
        rows * weights.qkv.rows <= workspace.qkv_output,
        rows * weights.z.rows <= workspace.z_output,
        rows * (weights.value_heads * 2) <= workspace.alpha_beta,
        rows * weights.value_heads <= workspace.gate,
        rows * (weights.value_heads * weights.value_head_dim) <= workspace.q,
        weights.qkv.rows <= workspace.row_qkv,
        weights.value_heads * weights.value_head_dim <= workspace.row_q,
        weights.value_heads <= workspace.row_gate,
        layer * states + state < workspace.state_table,
        state < workspace.padding_states,
{
    let heads = weights.value_heads as int;
    let all = capacity as int;
    assert(0 <= heads * weights.value_head_dim) by (nonlinear_arith)
        requires
            heads >= 0,
    ;
    lemma_room(rows, all, weights.hidden as int);
    lemma_room(rows, all, weights.qkv.rows as int);
    lemma_room(rows, all, weights.z.rows as int);
    lemma_room(rows, all, heads);
    lemma_room(rows, all, heads * 2);
    lemma_room(rows, all, heads * weights.value_head_dim);
    assert(all * (heads * 2) == all * heads * 2) by (nonlinear_arith);
    assert(layer * states + state < layers * states) by (nonlinear_arith)
        requires
            0 <= layer < layers,
            0 <= state < states,
    ;
}

/// Buffers of routed experts have room for every batch up to their capacity: the router's logits,
/// the routes, both products of every route, the shared expert, and the output.
pub proof fn law_expert_rows_have_room(
    workspace: BatchMoeWorkspace,
    hidden: usize,
    weights: MoeWeights,
    capacity: usize,
    rows: int,
)
    requires
        workspace.made_for(hidden, weights, capacity),
        0 <= rows <= capacity,
    ensures
        rows * weights.experts <= workspace.router_logits,
        rows * weights.experts_per_token <= workspace.routes,
        rows * weights.experts_per_token <= workspace.grouped.routes,
        (rows * weights.experts_per_token) * (weights.expert_intermediate * 2)
            <= workspace.grouped.gate_up,
        (rows * weights.experts_per_token) * hidden <= workspace.grouped.down,
        rows * hidden <= workspace.grouped.routed_output,
        rows * (weights.expert_intermediate * 2) <= workspace.shared_gate_up,
        rows * weights.expert_intermediate <= workspace.shared_activated,
        rows * hidden <= workspace.shared_output,
{
    let all = capacity as int;
    let routes = rows * weights.experts_per_token;
    let most = all * weights.experts_per_token;
    let wide = weights.expert_intermediate * 2;
    assert(0 <= routes) by (nonlinear_arith)
        requires
            routes == rows * weights.experts_per_token,
            0 <= rows,
    ;
    lemma_room(rows, all, weights.experts as int);
    lemma_room(rows, all, weights.experts_per_token as int);
    lemma_room(rows, all, hidden as int);
    lemma_room(rows, all, wide);
    lemma_room(rows, all, weights.expert_intermediate as int);
    lemma_room(routes, most, wide);
    lemma_room(routes, most, hidden as int);
    assert(most * wide == most * weights.expert_intermediate * 2) by (nonlinear_arith)
        requires
            wide == weights.expert_intermediate * 2,
    ;
}

/// Buffers of a dense block have room for every batch up to their capacity: its input, both
/// halves of the first product, the activated values, and the output.
pub proof fn law_dense_rows_have_room(
    workspace: BatchDenseMlpWorkspace,
    layers: Seq<FfnWeights>,
    weights: DenseWeights,
    capacity: usize,
    rows: int,
)
    requires
        workspace.made_for(layers, weights, capacity),
        0 <= rows <= capacity,
    ensures
        rows * weights.gate_up.cols <= workspace.gate_up_quantized,
        rows * weights.gate_up.rows <= workspace.gate_up,
        rows * weights.down.cols <= workspace.activated,
        rows * weights.down.rows <= workspace.down,
{
    lemma_room(rows, capacity as int, weights.gate_up.cols as int);
    lemma_room(rows, capacity as int, weights.gate_up.rows as int);
    lemma_room(rows, capacity as int, weights.down.cols as int);
    lemma_room(rows, capacity as int, weights.down.rows as int);
}

/// Retained bytes are shared out in full between target and companion, whose part is an eighth
/// while it drafts and nothing otherwise.
pub proof fn law_retained_bytes_are_shared_out(config: Qwen36ExecutionConfig, dflash2: bool)
    ensures
        ({
            let companion = crate::qwen36::execution::companion_bytes(config, dflash2);
            let target = crate::qwen36::execution::target_bytes(config, dflash2);
            &&& companion + target == config.retained_prefix_bytes
            &&& 0 <= companion && 0 <= target
            &&& dflash2 && config.speculative_drafts > 0 ==> 8 * companion
                <= config.retained_prefix_bytes < 8 * companion + 8
            &&& !dflash2 || config.speculative_drafts == 0 ==> companion == 0
        }),
{
}

/// A sequence takes the least number of pages that hold its tokens.
pub proof fn law_pages_are_just_enough(tokens: int, page_tokens: int)
    requires
        0 <= tokens,
        0 < page_tokens,
    ensures
        ({
            let pages = crate::qwen36::execution::pages_of(tokens, page_tokens);
            &&& 0 <= pages
            &&& tokens <= pages * page_tokens
            &&& (pages - 1) * page_tokens < tokens || tokens == 0
        }),
{
    let pages = (tokens + page_tokens - 1) / page_tokens;
    vstd::arithmetic::div_mod::lemma_fundamental_div_mod(tokens + page_tokens - 1, page_tokens);
    vstd::arithmetic::div_mod::lemma_mod_bound(tokens + page_tokens - 1, page_tokens);
    assert(page_tokens * pages == pages * page_tokens && (pages - 1) * page_tokens == pages
        * page_tokens - page_tokens) by (nonlinear_arith);
    assert(0 <= pages) by (nonlinear_arith)
        requires
            pages * page_tokens >= tokens,
            tokens >= 0,
            page_tokens > 0,
    ;
}

/// Pages beyond those of active sequences take no more than three quarters of the bytes that the
/// target retains, up to rounding, and one page more would not fit them.
pub proof fn law_retained_pages_fit_their_bytes(
    costs: CacheCosts,
    config: Qwen36ExecutionConfig,
    dflash2: bool,
)
    requires
        costs.page_bytes > 0,
    ensures
        ({
            let target = crate::qwen36::execution::target_bytes(config, dflash2);
            let spare = crate::qwen36::execution::page_slots(costs, config, dflash2)
                - costs.eager_pages(config);
            &&& 0 <= spare
            &&& 4 * (spare * costs.page_bytes) <= 3 * target + 3
            &&& 4 * ((spare + 1) * costs.page_bytes) > 3 * target
        }),
{
    let target = crate::qwen36::execution::target_bytes(config, dflash2);
    let bytes = target - target / 4;
    let page = costs.page_bytes as int;
    let spare = bytes / page;
    vstd::arithmetic::div_mod::lemma_fundamental_div_mod(bytes, page);
    vstd::arithmetic::div_mod::lemma_mod_bound(bytes, page);
    assert(page * spare == spare * page && (spare + 1) * page == spare * page + page)
        by (nonlinear_arith);
    assert(0 <= spare) by (nonlinear_arith)
        requires
            spare * page + page > bytes,
            bytes >= 0,
            page > 0,
    ;
}

/// Active sequences are counted with everything that each of them takes: its recurrent state, its
/// page table, four bytes for each vocabulary entry, and pages for its whole context.
pub proof fn law_active_sequences_are_counted_in_full(
    costs: CacheCosts,
    config: Qwen36ExecutionConfig,
)
    ensures
        costs.active_capacity(config) == (costs.private_state_bytes + costs.page_table_bytes
            + costs.vocab * 4 + crate::qwen36::execution::pages_of(
            config.max_context_tokens as int,
            costs.page_tokens as int,
        ) * costs.page_bytes) * config.max_active_sequences,
{
    let fixed = costs.private_state_bytes + costs.page_table_bytes + costs.vocab * 4;
    let pages = crate::qwen36::execution::pages_of(
        config.max_context_tokens as int,
        costs.page_tokens as int,
    );
    let bytes = costs.page_bytes as int;
    let count = config.max_active_sequences as int;
    assert(fixed * count + (pages * count) * bytes == (fixed + pages * bytes) * count)
        by (nonlinear_arith);
}

/// The words of a set of tokens, and the groups of a search over the vocabulary, are just enough
/// for one bit, or one entry, of every token.
pub proof fn law_vocabulary_is_covered(vocab: int)
    requires
        0 < vocab,
    ensures
        32 * (crate::qwen36::batch::mask_words(vocab) - 1) < vocab
            <= 32 * crate::qwen36::batch::mask_words(vocab),
        32 * (crate::qwen36::allocation::words(vocab) - 1) < vocab
            <= 32 * crate::qwen36::allocation::words(vocab),
        8 * (crate::qwen36::speculative::scratch_groups(vocab) - 1) < vocab
            <= 8 * crate::qwen36::speculative::scratch_groups(vocab),
        8 * (crate::qwen38_flash_next::model::vocab_groups(vocab) - 1) < vocab
            <= 8 * crate::qwen38_flash_next::model::vocab_groups(vocab),
{
}

} // verus!
