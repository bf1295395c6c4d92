//! Names of the companion's tensors: no two of them are the same.

use crate::qwen36::dflash2::config::DFlash2Config;
use vstd::prelude::*;

verus! {

/// Suffix of the name of each tensor of a layer.
pub open spec fn layer_suffix(kind: int) -> Seq<char> {
    if kind == 0 {
        ".attention_conv.base_kernel"@
    } else if kind == 1 {
        ".attention_conv.kernel_projection.weight"@
    } else if kind == 2 {
        ".mlp_conv.base_kernel"@
    } else if kind == 3 {
        ".mlp_conv.kernel_projection.weight"@
    } else if kind == 4 {
        ".input_layernorm.weight"@
    } else if kind == 5 {
        ".post_attention_layernorm.weight"@
    } else if kind == 6 {
        ".self_attn.q_proj.weight"@
    } else if kind == 7 {
        ".self_attn.k_proj.weight"@
    } else if kind == 8 {
        ".self_attn.v_proj.weight"@
    } else if kind == 9 {
        ".self_attn.o_proj.weight"@
    } else if kind == 10 {
        ".self_attn.q_norm.weight"@
    } else if kind == 11 {
        ".self_attn.k_norm.weight"@
    } else if kind == 12 {
        ".mlp.gate_proj.weight"@
    } else if kind == 13 {
        ".mlp.up_proj.weight"@
    } else {
        ".mlp.down_proj.weight"@
    }
}

/// The tensor of a layer that a suffix belongs to, told by its length and three characters.
spec fn suffix_kind(suffix: Seq<char>) -> int {
    if suffix.len() == 27 {
        0
    } else if suffix.len() == 40 {
        1
    } else if suffix.len() == 21 && suffix[5] == 'c' {
        2
    } else if suffix.len() == 34 {
        3
    } else if suffix.len() == 23 {
        4
    } else if suffix.len() == 32 {
        5
    } else if suffix.len() == 24 && suffix[11] == 'q' && suffix[13] == 'p' {
        6
    } else if suffix.len() == 24 && suffix[11] == 'k' && suffix[13] == 'p' {
        7
    } else if suffix.len() == 24 && suffix[11] == 'v' && suffix[13] == 'p' {
        8
    } else if suffix.len() == 24 && suffix[11] == 'o' && suffix[13] == 'p' {
        9
    } else if suffix.len() == 24 && suffix[11] == 'q' && suffix[13] == 'n' {
        10
    } else if suffix.len() == 24 && suffix[11] == 'k' && suffix[13] == 'n' {
        11
    } else if suffix.len() == 21 && suffix[5] == 'g' {
        12
    } else if suffix.len() == 19 {
        13
    } else {
        14
    }
}

proof fn lemma_suffix_kind(kind: int)
    requires
        0 <= kind < 15,
    ensures
        suffix_kind(layer_suffix(kind)) == kind,
        layer_suffix(kind).len() > 0,
        layer_suffix(kind)[0] == '.',
{
    reveal_strlit(".attention_conv.base_kernel");
    reveal_strlit(".attention_conv.kernel_projection.weight");
    reveal_strlit(".mlp_conv.base_kernel");
    reveal_strlit(".mlp_conv.kernel_projection.weight");
    reveal_strlit(".input_layernorm.weight");
    reveal_strlit(".post_attention_layernorm.weight");
    reveal_strlit(".self_attn.q_proj.weight");
    reveal_strlit(".self_attn.k_proj.weight");
    reveal_strlit(".self_attn.v_proj.weight");
    reveal_strlit(".self_attn.o_proj.weight");
    reveal_strlit(".self_attn.q_norm.weight");
    reveal_strlit(".self_attn.k_norm.weight");
    reveal_strlit(".mlp.gate_proj.weight");
    reveal_strlit(".mlp.up_proj.weight");
    reveal_strlit(".mlp.down_proj.weight");
}

/// Name of each tensor outside the layers.
pub open spec fn shared_name(kind: int) -> Seq<char> {
    if kind == 0 {
        "candidate_selector.hidden_projection.weight"@
    } else if kind == 1 {
        "candidate_selector.predecessor_codebook"@
    } else if kind == 2 {
        "candidate_selector.successor_codebook"@
    } else if kind == 3 {
        "fc.weight"@
    } else if kind == 4 {
        "hidden_norm.weight"@
    } else {
        "norm.weight"@
    }
}

proof fn lemma_shared_names(left: int, right: int)
    requires
        0 <= left < 6,
        0 <= right < 6,
        shared_name(left) == shared_name(right),
    ensures
        left == right,
{
    reveal_strlit("candidate_selector.hidden_projection.weight");
    reveal_strlit("candidate_selector.predecessor_codebook");
    reveal_strlit("candidate_selector.successor_codebook");
    reveal_strlit("fc.weight");
    reveal_strlit("hidden_norm.weight");
    reveal_strlit("norm.weight");
    assert(shared_name(0).len() == 43);
    assert(shared_name(1).len() == 39);
    assert(shared_name(2).len() == 37);
    assert(shared_name(3).len() == 9);
    assert(shared_name(4).len() == 18);
    assert(shared_name(5).len() == 11);
}

/// Names that hold a number between the same prefix and suffixes that start with a point differ
/// in the number or in the suffix.
pub proof fn law_numbered_names_are_distinct(
    prefix: Seq<char>,
    left: usize,
    left_suffix: Seq<char>,
    right: usize,
    right_suffix: Seq<char>,
)
    requires
        left_suffix.len() > 0,
        left_suffix[0] == '.',
        right_suffix.len() > 0,
        right_suffix[0] == '.',
        crate::tensors::numbered(prefix, left, left_suffix) == crate::tensors::numbered(
            prefix,
            right,
            right_suffix,
        ),
    ensures
        left == right,
        left_suffix == right_suffix,
{
    let left_digits = crate::text::decimal(left as nat);
    let right_digits = crate::text::decimal(right as nat);
    let left_name = crate::tensors::numbered(prefix, left, left_suffix);
    let right_name = crate::tensors::numbered(prefix, right, right_suffix);
    let at = prefix.len() as int;
    crate::text::lemma_decimal_digits(left as nat);
    crate::text::lemma_decimal_digits(right as nat);
    if left_digits.len() < right_digits.len() {
        assert(left_name[at + left_digits.len()] == left_suffix[0]);
        assert(right_name[at + left_digits.len()] == right_digits[left_digits.len() as int]);
        assert(false);
    }
    if right_digits.len() < left_digits.len() {
        assert(right_name[at + right_digits.len()] == right_suffix[0]);
        assert(left_name[at + right_digits.len()] == left_digits[right_digits.len() as int]);
        assert(false);
    }
    let split = at + left_digits.len();
    assert(left_name.subrange(at, split) =~= left_digits);
    assert(right_name.subrange(at, split) =~= right_digits);
    crate::text::law_decimal_is_injective(left as nat, right as nat);
    assert(left_name.subrange(split, left_name.len() as int) =~= left_suffix);
    assert(right_name.subrange(split, right_name.len() as int) =~= right_suffix);
}

/// Where the name of a tensor stands in the list.
proof fn lemma_tensor_name(config: DFlash2Config, count: nat, index: int)
    requires
        count <= usize::MAX,
        0 <= index < config.tensors(count).len(),
    ensures
        config.tensors(count).len() == 6 + 15 * count,
        index < 6 ==> config.tensors(count)[index].0 == shared_name(index),
        index >= 6 ==> (index - 6) / 15 < count && config.tensors(count)[index].0
            == crate::qwen36::dflash2::config::layer_name(
            ((index - 6) / 15) as usize,
            layer_suffix((index - 6) % 15),
        ),
    decreases count,
{
    if count > 0 {
        let fewer = (count - 1) as nat;
        let own = config.layer_tensors(fewer as usize);
        assert(own.len() == 15);
        lemma_tensor_name(config, fewer, 0);
        if index < config.tensors(fewer).len() {
            lemma_tensor_name(config, fewer, index);
        } else {
            let kind = index - 6 - 15 * fewer;
            assert(config.tensors(count)[index] == own[kind]);
            assert((index - 6) / 15 == fewer && (index - 6) % 15 == kind);
        }
    }
}

/// No two tensors of a checkpoint share a name.
pub proof fn law_tensor_names_are_distinct(config: DFlash2Config, left: int, right: int)
    requires
        0 <= left < right < config.tensors(config.layers as nat).len(),
    ensures
        config.tensors(config.layers as nat)[left].0 != config.tensors(
            config.layers as nat,
        )[right].0,
{
    let names = config.tensors(config.layers as nat);
    lemma_tensor_name(config, config.layers as nat, left);
    lemma_tensor_name(config, config.layers as nat, right);
    if names[left].0 == names[right].0 {
        if right < 6 {
            lemma_shared_names(left, right);
        } else {
            let right_layer = ((right - 6) / 15) as usize;
            let right_kind = (right - 6) % 15;
            reveal_strlit("layers.");
            assert(names[right].0[0] == 'l');
            if left < 6 {
                lemma_shared_initials(left);
            } else {
                let left_kind = (left - 6) % 15;
                lemma_suffix_kind(left_kind);
                lemma_suffix_kind(right_kind);
                law_numbered_names_are_distinct(
                    "layers."@,
                    ((left - 6) / 15) as usize,
                    layer_suffix(left_kind),
                    right_layer,
                    layer_suffix(right_kind),
                );
            }
        }
    }
}

proof fn lemma_shared_initials(kind: int)
    requires
        0 <= kind < 6,
    ensures
        shared_name(kind).len() > 0,
        shared_name(kind)[0] != 'l',
{
    reveal_strlit("candidate_selector.hidden_projection.weight");
    reveal_strlit("candidate_selector.predecessor_codebook");
    reveal_strlit("candidate_selector.successor_codebook");
    reveal_strlit("fc.weight");
    reveal_strlit("hidden_norm.weight");
    reveal_strlit("norm.weight");
}

} // verus!
