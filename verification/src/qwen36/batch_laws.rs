//! What holds of every batch: who is admitted, where its rows lie, and whose states they take.

use crate::manifest::QwenLayerKind;
use crate::qwen36::batch::{
    Qwen36DecodeBatchWorkspace, Qwen36DecodeRow, Qwen36PrefillBatchWorkspace, Qwen36PrefillRow,
};
use crate::qwen36::gdn::StateRef;
use crate::qwen36::model::Qwen36TextModel;
use vstd::prelude::*;

verus! {

/// Every row of a batch finds its own recurrent state in the table of any recurrent layer, the
/// rows beyond the batch find spare states, and no two rows of a layer share one.
pub proof fn law_rows_have_states_of_their_own(
    model: Qwen36TextModel,
    table: Seq<StateRef>,
    active: nat,
    capacity: usize,
    layer: int,
    row: int,
    other: int,
)
    requires
        model.table_made_for(table, active, capacity),
        active <= capacity,
        0 <= layer < model.layers@.len(),
        model.layers@[layer].spec_kind() == QwenLayerKind::LinearAttention,
        0 <= row < capacity,
        0 <= other < capacity,
        row != other,
    ensures
        layer * capacity + row < table.len(),
        row < active ==> table[layer * capacity + row] == StateRef::Row(row as usize),
        row >= active ==> table[layer * capacity + row] is Padding,
        table[layer * capacity + row] != table[layer * capacity + other],
{
    assert(layer * capacity + row < model.layers@.len() * capacity) by (nonlinear_arith)
        requires
            0 <= layer < model.layers@.len(),
            0 <= row < capacity,
    ;
    assert(table[layer * capacity + row] == model.state_of(layer, row, active));
    assert(table[layer * capacity + other] == model.state_of(layer, other, active));
}

/// The offsets and lengths of a prompt batch find every token of every row among the packed
/// tokens.
pub proof fn law_offsets_find_every_token(
    rows: Seq<Qwen36PrefillRow>,
    capacity: usize,
    row: int,
    token: int,
)
    requires
        rows.len() <= capacity,
        0 <= row < rows.len(),
        0 <= token < rows[row].token_ids@.len(),
        crate::qwen36::batch::tokens_in(rows, rows.len()) <= u32::MAX,
    ensures
        ({
            let offsets = crate::qwen36::plan::row_offsets(rows, capacity);
            let lengths = crate::qwen36::plan::row_lengths(rows);
            let packed = crate::qwen36::batch::packed_tokens(rows, rows.len());
            &&& offsets.len() == capacity
            &&& lengths.len() == rows.len()
            &&& lengths[row] == rows[row].token_ids@.len()
            &&& offsets[row] + token < packed.len()
            &&& packed[offsets[row] + token] == rows[row].token_ids@[token]
        }),
{
    crate::qwen36::batch::law_packed_rows_keep_their_tokens(rows, rows.len(), row, token);
    lemma_row_in_batch(rows, rows.len(), row);
}

proof fn lemma_row_in_batch(rows: Seq<Qwen36PrefillRow>, count: nat, row: int)
    requires
        0 <= row < count <= rows.len(),
    ensures
        crate::qwen36::batch::tokens_in(rows, row as nat) + rows[row].token_ids@.len()
            <= crate::qwen36::batch::tokens_in(rows, count),
    decreases count,
{
    if row < count - 1 {
        lemma_row_in_batch(rows, (count - 1) as nat, row);
    }
}

/// Whether a row of a prompt batch can run on a workspace.
pub open spec fn prompt_row_fits(
    workspace: Qwen36PrefillBatchWorkspace,
    model_id: u64,
    vocab: usize,
    row: Qwen36PrefillRow,
) -> bool {
    &&& row.token_ids@.len() > 0
    &&& row.sequence.model_id == model_id
    &&& forall|i: int| 0 <= i < row.token_ids@.len() ==> #[trigger] row.token_ids@[i] < vocab
    &&& row.sequence.position + row.token_ids@.len() <= row.sequence.max_tokens
        <= workspace.max_context_tokens
}

proof fn lemma_known_tokens(tokens: Seq<u32>, vocab: usize, from: int)
    requires
        0 <= from,
        forall|i: int| 0 <= i < tokens.len() ==> #[trigger] tokens[i] < vocab,
    ensures
        crate::qwen36::batch::foreign_token(tokens, vocab, from) is None,
    decreases tokens.len() - from,
{
    if from < tokens.len() {
        lemma_known_tokens(tokens, vocab, from + 1);
    }
}

proof fn lemma_prompt_rows(
    workspace: Qwen36PrefillBatchWorkspace,
    model_id: u64,
    vocab: usize,
    rows: Seq<Qwen36PrefillRow>,
    from: int,
)
    requires
        0 <= from,
        forall|i: int|
            0 <= i < rows.len() ==> prompt_row_fits(workspace, model_id, vocab, #[trigger] rows[i]),
    ensures
        workspace.rows_obstacle(model_id, vocab, rows, from) is None,
    decreases rows.len() - from,
{
    if from < rows.len() {
        assert(prompt_row_fits(workspace, model_id, vocab, rows[from]));
        lemma_known_tokens(rows[from].token_ids@, vocab, 0);
        lemma_prompt_rows(workspace, model_id, vocab, rows, from + 1);
    }
}

/// A prompt batch is admitted where every row fits, there are neither too many rows nor too many
/// tokens, and every row has its own append.
pub proof fn law_fitting_prompt_batch_is_admitted(
    workspace: Qwen36PrefillBatchWorkspace,
    vocab: usize,
    rows: Seq<Qwen36PrefillRow>,
    appends: usize,
)
    requires
        1 <= rows.len() <= workspace.sequence_capacity,
        appends == rows.len(),
        1 <= crate::qwen36::batch::tokens_in(rows, rows.len()) <= workspace.token_capacity,
        forall|i: int|
            0 <= i < rows.len() ==> prompt_row_fits(
                workspace,
                workspace.model_id,
                vocab,
                #[trigger] rows[i],
            ),
    ensures
        workspace.obstacle(workspace.model_id, vocab, rows, appends) is None,
{
    lemma_prompt_rows(workspace, workspace.model_id, vocab, rows, 0);
}

proof fn lemma_decode_rows(
    workspace: Qwen36DecodeBatchWorkspace,
    model_id: u64,
    vocab: usize,
    rows: Seq<Qwen36DecodeRow>,
    from: int,
)
    requires
        0 <= from,
        forall|i: int|
            0 <= i < rows.len() ==> {
                &&& (#[trigger] rows[i]).sequence.model_id == model_id
                &&& rows[i].token_id < vocab
                &&& rows[i].sequence.position < rows[i].sequence.max_tokens
                    <= workspace.max_context_tokens
            },
    ensures
        workspace.rows_obstacle(model_id, vocab, rows, from) is None,
    decreases rows.len() - from,
{
    if from < rows.len() {
        lemma_decode_rows(workspace, model_id, vocab, rows, from + 1);
    }
}

/// A decode batch is admitted where every row has a token of the vocabulary and room for one more
/// row, there are not too many rows, and every row has its own append.
pub proof fn law_fitting_decode_batch_is_admitted(
    workspace: Qwen36DecodeBatchWorkspace,
    vocab: usize,
    rows: Seq<Qwen36DecodeRow>,
    appends: usize,
)
    requires
        1 <= rows.len() <= workspace.capacity,
        appends == rows.len(),
        forall|i: int|
            0 <= i < rows.len() ==> {
                &&& (#[trigger] rows[i]).sequence.model_id == workspace.model_id
                &&& rows[i].token_id < vocab
                &&& rows[i].sequence.position < rows[i].sequence.max_tokens
                    <= workspace.max_context_tokens
            },
    ensures
        workspace.obstacle(workspace.model_id, vocab, rows, appends) is None,
{
    lemma_decode_rows(workspace, workspace.model_id, vocab, rows, 0);
}

} // verus!
