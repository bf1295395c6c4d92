//! What some operations leave behind on a device, one operation after the other.

use vstd::prelude::*;

verus! {

/// State of a device after some operations, where `step` is what one of them does.
pub open spec fn after<D, Op>(step: spec_fn(D, Op) -> D, start: D, ops: Seq<Op>) -> D
    decreases ops.len(),
{
    if ops.len() == 0 {
        start
    } else {
        step(after(step, start, ops.drop_last()), ops.last())
    }
}

pub broadcast proof fn lemma_after_none<D, Op>(step: spec_fn(D, Op) -> D, start: D)
    ensures
        #[trigger] after(step, start, Seq::<Op>::empty()) == start,
{
}

pub broadcast proof fn lemma_after_push<D, Op>(
    step: spec_fn(D, Op) -> D,
    start: D,
    ops: Seq<Op>,
    op: Op,
)
    ensures
        #[trigger] after(step, start, ops.push(op)) == step(after(step, start, ops), op),
{
    assert(ops.push(op).drop_last() =~= ops);
}

pub broadcast proof fn lemma_after_both<D, Op>(
    step: spec_fn(D, Op) -> D,
    start: D,
    left: Seq<Op>,
    right: Seq<Op>,
)
    ensures
        #[trigger] after(step, start, left + right) == after(
            step,
            after(step, start, left),
            right,
        ),
    decreases right.len(),
{
    if right.len() == 0 {
        assert(left + right =~= left);
    } else {
        lemma_after_both(step, start, left, right.drop_last());
        assert((left + right).drop_last() =~= left + right.drop_last());
        assert((left + right).last() == right.last());
    }
}

pub proof fn lemma_after_one<D, Op>(step: spec_fn(D, Op) -> D, start: D, ops: Seq<Op>)
    requires
        ops.len() == 1,
    ensures
        after(step, start, ops) == step(start, ops[0]),
{
    assert(after(step, start, ops.drop_last()) == start);
}

pub proof fn lemma_after_two<D, Op>(step: spec_fn(D, Op) -> D, start: D, ops: Seq<Op>)
    requires
        ops.len() == 2,
    ensures
        after(step, start, ops) == step(step(start, ops[0]), ops[1]),
{
    lemma_after_one(step, start, ops.drop_last());
}

pub proof fn lemma_after_three<D, Op>(step: spec_fn(D, Op) -> D, start: D, ops: Seq<Op>)
    requires
        ops.len() == 3,
    ensures
        after(step, start, ops) == step(step(step(start, ops[0]), ops[1]), ops[2]),
{
    lemma_after_two(step, start, ops.drop_last());
}

pub proof fn lemma_after_four<D, Op>(step: spec_fn(D, Op) -> D, start: D, ops: Seq<Op>)
    requires
        ops.len() == 4,
    ensures
        after(step, start, ops) == step(step(step(step(start, ops[0]), ops[1]), ops[2]), ops[3]),
{
    lemma_after_three(step, start, ops.drop_last());
}

pub proof fn lemma_after_five<D, Op>(step: spec_fn(D, Op) -> D, start: D, ops: Seq<Op>)
    requires
        ops.len() == 5,
    ensures
        after(step, start, ops) == step(step(step(step(step(start, ops[0]), ops[1]), ops[2]), ops[3]), ops[4]),
{
    lemma_after_four(step, start, ops.drop_last());
}

pub proof fn lemma_after_six<D, Op>(step: spec_fn(D, Op) -> D, start: D, ops: Seq<Op>)
    requires
        ops.len() == 6,
    ensures
        after(step, start, ops) == step(step(step(step(step(step(start, ops[0]), ops[1]), ops[2]), ops[3]), ops[4]), ops[5]),
{
    lemma_after_five(step, start, ops.drop_last());
}

pub proof fn lemma_after_seven<D, Op>(step: spec_fn(D, Op) -> D, start: D, ops: Seq<Op>)
    requires
        ops.len() == 7,
    ensures
        after(step, start, ops) == step(step(step(step(step(step(step(start, ops[0]), ops[1]), ops[2]), ops[3]), ops[4]), ops[5]), ops[6]),
{
    lemma_after_six(step, start, ops.drop_last());
}

pub proof fn lemma_after_eight<D, Op>(step: spec_fn(D, Op) -> D, start: D, ops: Seq<Op>)
    requires
        ops.len() == 8,
    ensures
        after(step, start, ops) == step(step(step(step(step(step(step(step(start, ops[0]), ops[1]), ops[2]), ops[3]), ops[4]), ops[5]), ops[6]), ops[7]),
{
    lemma_after_seven(step, start, ops.drop_last());
}

pub proof fn lemma_after_nine<D, Op>(step: spec_fn(D, Op) -> D, start: D, ops: Seq<Op>)
    requires
        ops.len() == 9,
    ensures
        after(step, start, ops) == step(step(step(step(step(step(step(step(step(start, ops[0]), ops[1]), ops[2]), ops[3]), ops[4]), ops[5]), ops[6]), ops[7]), ops[8]),
{
    lemma_after_eight(step, start, ops.drop_last());
}

pub broadcast group group_after {
    lemma_after_none,
    lemma_after_push,
    lemma_after_both,
}

} // verus!
