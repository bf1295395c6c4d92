//! Stamps and markers tell checkpoints and layers apart.

use crate::qwen36::cache::Shard;
use vstd::prelude::*;

verus! {

/// A text up to its first separator, and what follows, are known from both together.
proof fn lemma_split(
    left: Seq<char>,
    left_rest: Seq<char>,
    right: Seq<char>,
    right_rest: Seq<char>,
    separator: Seq<char>,
)
    requires
        separator.len() > 0,
        !left.contains(separator[0]),
        !right.contains(separator[0]),
        left + separator + left_rest == right + separator + right_rest,
    ensures
        left == right,
        left_rest == right_rest,
{
    let one = left + separator + left_rest;
    let two = right + separator + right_rest;
    let mark = separator[0];
    if left.len() < right.len() {
        assert(one[left.len() as int] == mark);
        assert(two[left.len() as int] == right[left.len() as int]);
        assert(right.contains(mark));
    }
    if right.len() < left.len() {
        assert(two[right.len() as int] == mark);
        assert(one[right.len() as int] == left[right.len() as int]);
        assert(left.contains(mark));
    }
    let size = left.len() as int;
    assert(left =~= one.subrange(0, size));
    assert(right =~= two.subrange(0, size));
    let start = size + separator.len();
    assert(left_rest =~= one.subrange(start, one.len() as int));
    assert(right_rest =~= two.subrange(start, two.len() as int));
}

proof fn lemma_common(prefix: Seq<char>, left: Seq<char>, right: Seq<char>)
    requires
        prefix + left == prefix + right,
    ensures
        left == right,
{
    let one = prefix + left;
    let two = prefix + right;
    assert(left =~= one.subrange(prefix.len() as int, one.len() as int));
    assert(right =~= two.subrange(prefix.len() as int, two.len() as int));
}

proof fn lemma_no_separator(value: nat, mark: char)
    requires
        mark == ':' || mark == ';' || mark == '\n',
    ensures
        !crate::text::decimal(value).contains(mark),
{
    crate::text::lemma_decimal_digits(value);
}

/// Numbers in front of the same separator are known from the text.
proof fn lemma_number(
    left: nat,
    left_rest: Seq<char>,
    right: nat,
    right_rest: Seq<char>,
    separator: Seq<char>,
)
    requires
        separator.len() > 0,
        separator[0] == ':' || separator[0] == ';' || separator[0] == '\n',
        crate::text::decimal(left) + separator + left_rest == crate::text::decimal(right)
            + separator + right_rest,
    ensures
        left == right,
        left_rest == right_rest,
{
    lemma_no_separator(left, separator[0]);
    lemma_no_separator(right, separator[0]);
    lemma_split(
        crate::text::decimal(left),
        left_rest,
        crate::text::decimal(right),
        right_rest,
        separator,
    );
    if left != right {
        crate::text::law_decimal_is_injective(left, right);
    }
}

/// A shard that has changed in size or in time has another line.
pub proof fn law_changed_shard_has_another_line(left: Shard, right: Shard)
    requires
        left.name@ == right.name@,
        crate::qwen36::cache::shard_line(left) == crate::qwen36::cache::shard_line(right),
    ensures
        left.len == right.len,
        left.seconds == right.seconds,
        left.nanos == right.nanos,
{
    reveal_strlit(":");
    reveal_strlit("\n");
    let (l1, r1) = (
        crate::text::decimal(left.len as nat),
        crate::text::decimal(right.len as nat),
    );
    let (l2, r2) = (
        crate::text::decimal(left.seconds as nat),
        crate::text::decimal(right.seconds as nat),
    );
    let (l3, r3) = (
        crate::text::decimal(left.nanos as nat),
        crate::text::decimal(right.nanos as nat),
    );
    let head = "source="@ + left.name@ + ":"@;
    let (left_last, right_last) = (l3 + "\n"@ + seq![], r3 + "\n"@ + seq![]);
    let (left_middle, right_middle) = (l2 + ":"@ + left_last, r2 + ":"@ + right_last);
    let (left_all, right_all) = (l1 + ":"@ + left_middle, r1 + ":"@ + right_middle);
    assert(crate::qwen36::cache::shard_line(left) =~= head + left_all);
    assert(crate::qwen36::cache::shard_line(right) =~= head + right_all);
    lemma_common(head, left_all, right_all);
    lemma_number(left.len as nat, left_middle, right.len as nat, right_middle, ":"@);
    lemma_number(left.seconds as nat, left_last, right.seconds as nat, right_last, ":"@);
    lemma_number(left.nanos as nat, seq![], right.nanos as nat, seq![], "\n"@);
}

spec fn behind_hidden(intermediate: usize, stamp: Seq<char>) -> Seq<char> {
    crate::text::decimal(intermediate as nat) + "\n"@ + stamp
}

spec fn behind_experts(hidden: usize, rest: Seq<char>) -> Seq<char> {
    crate::text::decimal(hidden as nat) + ";in="@ + rest
}

spec fn behind_layer(experts: usize, rest: Seq<char>) -> Seq<char> {
    crate::text::decimal(experts as nat) + "\nout="@ + rest
}

spec fn behind_head(layer: usize, rest: Seq<char>) -> Seq<char> {
    crate::text::decimal(layer as nat) + "\nexperts="@ + rest
}

proof fn lemma_regroup(one: Seq<char>, two: Seq<char>, three: Seq<char>, rest: Seq<char>)
    ensures
        one + two + three + rest == one + (two + three + rest),
{
    assert(one + two + three + rest =~= one + (two + three + rest));
}

/// A marker, read from its start.
#[verifier::rlimit(40)]
proof fn lemma_marker(
    hidden: usize,
    experts: usize,
    intermediate: usize,
    layer: usize,
    stamp: Seq<char>,
)
    ensures
        crate::qwen36::cache::marker_text(hidden, experts, intermediate, layer, stamp)
            == "eider-qwen36-experts-v2\nlayer="@ + behind_head(
            layer,
            behind_layer(experts, behind_experts(hidden, behind_hidden(intermediate, stamp))),
        ),
{
    let a = "eider-qwen36-experts-v2\nlayer="@;
    let (b, c) = (crate::text::decimal(layer as nat), "\nexperts="@);
    let (d, e) = (crate::text::decimal(experts as nat), "\nout="@);
    let (f, g) = (crate::text::decimal(hidden as nat), ";in="@);
    let (h, i) = (crate::text::decimal(intermediate as nat), "\n"@);
    let third = f + g + (h + i + stamp);
    let second = d + e + third;
    lemma_regroup(a + b + c + d + e + f + g, h, i, stamp);
    lemma_regroup(a + b + c + d + e, f, g, h + i + stamp);
    lemma_regroup(a + b + c, d, e, third);
    lemma_regroup(a, b, c, second);
}

/// A marker stands for one layer, one shape of its experts and one stamp: with any of them
/// another, the marker is another.
pub proof fn law_marker_stands_for_one_layer(
    hidden: usize,
    experts: usize,
    intermediate: usize,
    layer: usize,
    stamp: Seq<char>,
    other_hidden: usize,
    other_experts: usize,
    other_intermediate: usize,
    other_layer: usize,
    other_stamp: Seq<char>,
)
    requires
        crate::qwen36::cache::marker_text(hidden, experts, intermediate, layer, stamp)
            == crate::qwen36::cache::marker_text(
            other_hidden,
            other_experts,
            other_intermediate,
            other_layer,
            other_stamp,
        ),
    ensures
        hidden == other_hidden,
        experts == other_experts,
        intermediate == other_intermediate,
        layer == other_layer,
        stamp == other_stamp,
{
    let head = "eider-qwen36-experts-v2\nlayer="@;
    let (l4, r4) = (behind_hidden(intermediate, stamp), behind_hidden(
        other_intermediate,
        other_stamp,
    ));
    let (l3, r3) = (behind_experts(hidden, l4), behind_experts(other_hidden, r4));
    let (l2, r2) = (behind_layer(experts, l3), behind_layer(other_experts, r3));
    let (l1, r1) = (behind_head(layer, l2), behind_head(other_layer, r2));
    lemma_marker(hidden, experts, intermediate, layer, stamp);
    lemma_marker(other_hidden, other_experts, other_intermediate, other_layer, other_stamp);
    reveal_strlit("\nexperts=");
    reveal_strlit("\nout=");
    reveal_strlit(";in=");
    reveal_strlit("\n");
    lemma_common(head, l1, r1);
    lemma_number(layer as nat, l2, other_layer as nat, r2, "\nexperts="@);
    lemma_number(experts as nat, l3, other_experts as nat, r3, "\nout="@);
    lemma_number(hidden as nat, l4, other_hidden as nat, r4, ";in="@);
    lemma_number(intermediate as nat, stamp, other_intermediate as nat, other_stamp, "\n"@);
}

} // verus!
