//! What the hash of an n-gram depends on, and how much room rows and states take.

use crate::manifest::QwenLayerKind;
use crate::qwen38_flash_next::model::Qwen38FlashNextModel;
use crate::qwen38_flash_next::ple::PlePlanModel;
use vstd::prelude::*;

verus! {

proof fn lemma_older_token(
    plan: PlePlanModel,
    previous: Seq<u32>,
    token: u32,
    order: nat,
    index: int,
    other: u32,
)
    requires
        order >= 1,
        order <= previous.len() + 1,
        order - 1 <= index < previous.len(),
    ensures
        plan.mixed(previous.update(index, other), token, order) == plan.mixed(
            previous,
            token,
            order,
        ),
    decreases order,
{
    if order > 1 {
        lemma_older_token(plan, previous, token, (order - 1) as nat, index, other);
    }
}

/// Only the tokens of an n-gram count: an older one changes nothing of its hash.
pub proof fn law_older_tokens_do_not_count(
    plan: PlePlanModel,
    previous: Seq<u32>,
    token: u32,
    order: nat,
    index: int,
    other: u32,
)
    requires
        2 <= order <= previous.len() + 1,
        order - 1 <= index < previous.len(),
    ensures
        plan.mixed(previous.update(index, other), token, order) == plan.mixed(
            previous,
            token,
            order,
        ),
{
    lemma_older_token(plan, previous, token, order, index, other);
}

/// Every token of an n-gram counts: replacing one takes its own product out of the hash and puts
/// that of the other one in, with the factor of its distance.
pub proof fn law_every_ngram_token_counts(
    plan: PlePlanModel,
    previous: Seq<u32>,
    token: u32,
    order: nat,
    index: int,
    other: u32,
)
    requires
        2 <= order <= previous.len() + 1,
        0 <= index < order - 1,
    ensures
        ({
            let factor = plan.multipliers[index + 1];
            plan.mixed(previous.update(index, other), token, order) == plan.mixed(
                previous,
                token,
                order,
            ) ^ (previous[index] as u64).wrapping_mul(factor) ^ (other as u64).wrapping_mul(factor)
        }),
    decreases order,
{
    let factor = plan.multipliers[index + 1];
    let old_product = (previous[index] as u64).wrapping_mul(factor);
    let new_product = (other as u64).wrapping_mul(factor);
    let less = (order - 1) as nat;
    let before = plan.mixed(previous, token, less);
    if index == order - 2 {
        lemma_older_token(plan, previous, token, less, index, other);
        assert(before ^ new_product == (before ^ old_product) ^ old_product ^ new_product)
            by (bit_vector);
    } else {
        law_every_ngram_token_counts(plan, previous, token, less, index, other);
        let last = (previous[order - 2] as u64).wrapping_mul(plan.multipliers[order - 1]);
        assert((before ^ old_product ^ new_product) ^ last == (before ^ last) ^ old_product
            ^ new_product) by (bit_vector);
    }
}

/// The newest token counts in every n-gram, with the first factor.
pub proof fn law_newest_token_counts(
    plan: PlePlanModel,
    previous: Seq<u32>,
    token: u32,
    order: nat,
    other: u32,
)
    requires
        1 <= order <= previous.len() + 1,
    ensures
        plan.mixed(previous, other, order) == plan.mixed(previous, token, order) ^ (
        token as u64).wrapping_mul(plan.multipliers[0]) ^ (other as u64).wrapping_mul(
            plan.multipliers[0],
        ),
    decreases order,
{
    let old_product = (token as u64).wrapping_mul(plan.multipliers[0]);
    let new_product = (other as u64).wrapping_mul(plan.multipliers[0]);
    if order > 1 {
        let less = (order - 1) as nat;
        law_newest_token_counts(plan, previous, token, less, other);
        let before = plan.mixed(previous, token, less);
        let last = (previous[order - 2] as u64).wrapping_mul(plan.multipliers[order - 1]);
        assert((before ^ old_product ^ new_product) ^ last == (before ^ last) ^ old_product
            ^ new_product) by (bit_vector);
    } else {
        assert(new_product == old_product ^ old_product ^ new_product) by (bit_vector);
    }
}

/// An n-gram of zeros has the hash zero.
pub proof fn law_zeros_hash_to_zero(plan: PlePlanModel, previous: Seq<u32>, order: nat)
    requires
        1 <= order <= previous.len() + 1,
        forall|i: int| 0 <= i < order - 1 ==> #[trigger] previous[i] == 0,
    ensures
        plan.mixed(previous, 0, order) == 0,
    decreases order,
{
    assert(forall|factor: u64| #[trigger] 0u64.wrapping_mul(factor) == 0);
    if order > 1 {
        law_zeros_hash_to_zero(plan, previous, (order - 1) as nat);
        assert(previous[order - 2] == 0);
        assert(0u64 ^ 0u64 == 0u64) by (bit_vector);
    }
}

/// The heads of each order hash n-grams of that order, bigrams first: each selects the row of its
/// own table that the hash leaves as a remainder.
pub proof fn law_heads_are_grouped_by_order(
    plan: PlePlanModel,
    previous: Seq<u32>,
    token: u32,
    order: nat,
    place: int,
)
    requires
        plan.shaped(),
        2 <= order <= plan.ngram_size,
        0 <= place < plan.heads_per_ngram,
    ensures
        ({
            let head = (order - 2) * plan.heads_per_ngram + place;
            let hash = plan.mixed(previous, token, order) as int;
            let chosen = plan.row(previous, token, head) - plan.offsets[head];
            &&& 0 <= head < plan.vocab_sizes.len()
            &&& 0 <= chosen < plan.vocab_sizes[head]
            &&& (hash - chosen) % (plan.vocab_sizes[head] as int) == 0
        }),
{
    let group = plan.heads_per_ngram as int;
    let head = (order - 2) * group + place;
    vstd::arithmetic::div_mod::lemma_fundamental_div_mod_converse(head, group, order - 2, place);
    assert(0 <= head < (plan.ngram_size - 1) * group) by (nonlinear_arith)
        requires
            head == (order - 2) * group + place,
            2 <= order <= plan.ngram_size,
            0 <= place < group,
    ;
    let size = plan.vocab_sizes[head] as int;
    assert(size != 0) by {
        assert(plan.vocab_sizes.contains(plan.vocab_sizes[head]));
    }
    let hash = plan.mixed(previous, token, order) as int;
    vstd::arithmetic::div_mod::lemma_mod_bound(hash, size);
    vstd::arithmetic::div_mod::lemma_fundamental_div_mod(hash, size);
    vstd::arithmetic::div_mod::lemma_mod_multiples_basic(hash / size, size);
    assert(size * (hash / size) == (hash / size) * size) by (nonlinear_arith);
}

/// The bytes of recurrent states are those of the recurrent layers, each once: the bytes of any
/// other layer change nothing.
pub proof fn law_recurrent_bytes_are_those_of_recurrent_layers(
    states: Seq<QwenLayerKind>,
    bytes: Seq<usize>,
    count: nat,
    layer: int,
    other: usize,
)
    requires
        count <= states.len(),
        states.len() == bytes.len(),
        0 <= layer < count,
    ensures
        crate::qwen38_flash_next::state::recurrent_bytes(states, bytes.update(layer, other), count)
            - crate::qwen38_flash_next::state::recurrent_bytes(states, bytes, count) == if states[layer]
            == QwenLayerKind::LinearAttention {
            other - bytes[layer]
        } else {
            0
        },
    decreases count,
{
    let less = (count - 1) as nat;
    if layer < less {
        law_recurrent_bytes_are_those_of_recurrent_layers(states, bytes, less, layer, other);
    } else {
        lemma_bytes_before(states, bytes, less, layer, other);
    }
}

proof fn lemma_bytes_before(
    states: Seq<QwenLayerKind>,
    bytes: Seq<usize>,
    count: nat,
    layer: int,
    other: usize,
)
    requires
        count <= layer < bytes.len(),
    ensures
        crate::qwen38_flash_next::state::recurrent_bytes(states, bytes.update(layer, other), count)
            == crate::qwen38_flash_next::state::recurrent_bytes(states, bytes, count),
    decreases count,
{
    if count > 0 {
        lemma_bytes_before(states, bytes, (count - 1) as nat, layer, other);
    }
}

/// Prompt buffers have room for the tokens, the hidden rows and all residual streams of every
/// prompt chunk up to their capacity, those of the draft block as well.
pub proof fn law_prompt_rows_have_room(model: Qwen38FlashNextModel, capacity: usize, rows: int)
    requires
        model.rows_fit(capacity as int),
        0 <= rows <= capacity,
    ensures
        ({
            let hidden = model.config.hidden;
            let width = hidden * model.config.hc_count;
            let target = crate::qwen38_flash_next::model::prefill_buffers(
                hidden as int,
                model.stream_width(),
                capacity as int,
            );
            let draft = crate::qwen38_flash_next::mtp::mtp_buffers(model, capacity);
            &&& rows <= target.token_ids
            &&& rows * width <= target.streams
            &&& rows * hidden <= target.hidden
            &&& rows * hidden <= target.qsa_serial_output
            &&& hidden <= target.qsa_serial_row_hidden
            &&& rows <= draft.prompt_tokens
            &&& rows * width <= draft.prompt_streams
            &&& rows * hidden <= draft.prompt_hidden
            &&& hidden <= draft.hidden
            &&& width <= draft.width
        }),
{
    let hidden = model.config.hidden as int;
    let width = hidden * model.config.hc_count;
    let all = capacity as int;
    assert(0 <= width) by (nonlinear_arith)
        requires
            width == hidden * model.config.hc_count,
            hidden >= 0,
    ;
    assert(0 <= rows * width <= all * width && 0 <= rows * hidden <= all * hidden)
        by (nonlinear_arith)
        requires
            0 <= rows <= all,
            0 <= width,
            0 <= hidden,
    ;
}

} // verus!
