//! Batches of prompt chunks and of decode rows: what is accepted, and how rows are packed.

use vstd::prelude::*;
use crate::qwen36::schedule::RowBuffer;

verus! {

/// Why a batch is refused.
#[derive(Clone, Copy, Debug, PartialEq, Eq, Structural)]
#[allow(inconsistent_fields)]
pub enum BatchError {
    /// A capacity of a workspace is zero.
    Capacity,
    /// The workspace belongs to another model.
    ForeignWorkspace,
    /// The batch has no row, or too many.
    Rows {
        /// Most rows.
        capacity: usize,
        /// Rows of the batch.
        rows: usize,
    },
    /// The batch has another number of reservations than rows.
    Appends {
        /// Rows of the batch.
        rows: usize,
        /// Reservations.
        appends: usize,
    },
    /// The number of tokens is not representable.
    TokenCountOverflow,
    /// The batch has no token, or too many.
    TokenCount {
        /// Most tokens.
        capacity: usize,
        /// Tokens of the batch.
        tokens: usize,
    },
    /// A row has no token.
    EmptyRow,
    /// A sequence belongs to another model.
    ForeignState,
    /// A token is not in the vocabulary.
    TokenId {
        /// Number of vocabulary entries.
        vocab: usize,
        /// The token.
        token: u32,
    },
    /// The position after a row is not representable.
    PositionOverflow {
        /// Cached tokens of the sequence.
        position: usize,
        /// Tokens of the row.
        tokens: usize,
    },
    /// A row does not fit its sequence, or the sequence does not fit the workspace.
    SequenceCapacity {
        /// Position after the row, or before it in a decode batch.
        position: usize,
        /// Most tokens of the sequence.
        max_tokens: usize,
        /// Most tokens of a sequence in this workspace.
        max_context_tokens: usize,
    },
    /// The number of active logits is not representable.
    LogitsOverflow,
    /// The number of mask words is not representable.
    MaskOverflow,
    /// The mask does not have one word for each group of 32 tokens and row.
    MaskWords {
        /// Words that are needed.
        expected: usize,
        /// Words that were given.
        actual: usize,
    },
    /// The number of sampling rows is not the number of decoded rows.
    SamplingRows {
        /// Decoded rows.
        expected: usize,
        /// Sampling rows.
        actual: usize,
    },
}

/// Persistent state of a sequence, as far as a batch reads it.
#[derive(Clone, Copy, Debug, PartialEq, Eq, Structural)]
pub struct Qwen36SequenceState {
    /// Model that created the sequence.
    pub model_id: u64,
    /// Cached tokens.
    pub position: usize,
    /// Most cached tokens.
    pub max_tokens: usize,
}

impl Qwen36SequenceState {
    /// Advances the sequence by the tokens of a committed append.
    pub fn commit_append(&mut self, tokens: usize)
        requires
            old(self).position + tokens <= usize::MAX,
        ensures
            *final(self) == (Qwen36SequenceState {
                position: (old(self).position + tokens) as usize,
                ..*old(self)
            }),
    {
        self.position = self.position + tokens;
    }
}

/// One scheduler-selected prompt chunk of a batch.
pub struct Qwen36PrefillRow<'tokens, 'sequence> {
    /// Consecutive prompt tokens.
    pub token_ids: &'tokens [u32],
    /// Sequence that they extend.
    pub sequence: &'sequence Qwen36SequenceState,
}

/// One scheduler-selected sequence of a decode batch.
pub struct Qwen36DecodeRow<'a> {
    /// Token that the step consumes.
    pub token_id: u32,
    /// Sequence that it extends.
    pub sequence: &'a Qwen36SequenceState,
}

/// First token from `from` on that is not in the vocabulary.
pub open spec fn foreign_token(tokens: Seq<u32>, vocab: usize, from: int) -> Option<u32>
    decreases tokens.len() - from,
{
    if from < 0 || from >= tokens.len() {
        None
    } else if tokens[from] >= vocab {
        Some(tokens[from])
    } else {
        foreign_token(tokens, vocab, from + 1)
    }
}

fn find_foreign_token(tokens: &[u32], vocab: usize) -> (found: Option<u32>)
    ensures
        found == foreign_token(tokens@, vocab, 0),
{
    let mut i: usize = 0;
    while i < tokens.len()
        invariant
            i <= tokens@.len(),
            foreign_token(tokens@, vocab, 0) == foreign_token(tokens@, vocab, i as int),
        decreases tokens@.len() - i,
    {
        if tokens[i] as usize >= vocab {
            return Some(tokens[i]);
        }
        i += 1;
    }
    None
}

/// Tokens of the first `count` rows.
pub open spec fn tokens_in(rows: Seq<Qwen36PrefillRow>, count: nat) -> nat
    decreases count,
{
    if count == 0 {
        0
    } else {
        tokens_in(rows, (count - 1) as nat) + rows[count - 1].token_ids@.len()
    }
}

/// Rows that each chunk of a prompt batch appends.
pub open spec fn prefill_row_counts(rows: Seq<Qwen36PrefillRow>) -> Seq<usize> {
    Seq::new(rows.len(), |i: int| rows[i].token_ids@.len() as usize)
}

/// Counts the rows that each chunk of a prompt batch appends: one for each token.
pub fn prefill_lengths(rows: &[Qwen36PrefillRow]) -> (lengths: Vec<usize>)
    ensures
        lengths@ == prefill_row_counts(rows@),
{
    let mut lengths: Vec<usize> = Vec::new();
    let mut i: usize = 0;
    while i < rows.len()
        invariant
            i <= rows@.len(),
            lengths@ == prefill_row_counts(rows@).take(i as int),
        decreases rows@.len() - i,
    {
        lengths.push(rows[i].token_ids.len());
        i += 1;
        assert(lengths@ =~= prefill_row_counts(rows@).take(i as int));
    }
    assert(lengths@ =~= prefill_row_counts(rows@));
    lengths
}

/// Rows that each sequence of a decode batch appends.
pub open spec fn decode_row_counts(rows: Seq<Qwen36DecodeRow>) -> Seq<usize> {
    Seq::new(rows.len(), |i: int| 1usize)
}

/// Counts the rows that each sequence of a decode batch appends: one for its token.
pub fn decode_lengths(rows: &[Qwen36DecodeRow]) -> (lengths: Vec<usize>)
    ensures
        lengths@ == decode_row_counts(rows@),
{
    let mut lengths: Vec<usize> = Vec::new();
    let mut i: usize = 0;
    while i < rows.len()
        invariant
            i <= rows@.len(),
            lengths@ == decode_row_counts(rows@).take(i as int),
        decreases rows@.len() - i,
    {
        lengths.push(1);
        i += 1;
        assert(lengths@ =~= decode_row_counts(rows@).take(i as int));
    }
    assert(lengths@ =~= decode_row_counts(rows@));
    lengths
}

/// Workspace of prompt batches.
pub struct Qwen36PrefillBatchWorkspace {
    /// Model that created the workspace.
    pub model_id: u64,
    /// Most sequences of a batch.
    pub sequence_capacity: usize,
    /// Most tokens of a batch.
    pub token_capacity: usize,
    /// Most tokens of a sequence.
    pub max_context_tokens: usize,
    /// Whether layer graphs were captured.
    pub layer_graphs: bool,
    /// Whether recurrent projections run one row at a time.
    pub serial_linear_attention_projections: bool,
    /// Whether the recurrence runs one row at a time.
    pub serial_linear_attention_recurrence: bool,
    /// Whether attention runs one row at a time.
    pub serial_full_attention_rows: bool,
}

impl Qwen36PrefillBatchWorkspace {
    /// Creates the workspace of ordinary prompt batches.
    pub fn new(
        model_id: u64,
        sequence_capacity: usize,
        token_capacity: usize,
        max_context_tokens: usize,
    ) -> (result: Result<Self, BatchError>)
        ensures
            match result {
                Ok(workspace) => {
                    &&& sequence_capacity > 0 && token_capacity > 0 && max_context_tokens > 0
                    &&& workspace == (Qwen36PrefillBatchWorkspace {
                        model_id,
                        sequence_capacity,
                        token_capacity,
                        max_context_tokens,
                        layer_graphs: false,
                        serial_linear_attention_projections: false,
                        serial_linear_attention_recurrence: false,
                        serial_full_attention_rows: false,
                    })
                },
                Err(error) => {
                    &&& sequence_capacity == 0 || token_capacity == 0 || max_context_tokens == 0
                    &&& error == BatchError::Capacity
                },
            },
    {
        if sequence_capacity == 0 || token_capacity == 0 || max_context_tokens == 0 {
            return Err(BatchError::Capacity);
        }
        Ok(
            Self {
                model_id,
                sequence_capacity,
                token_capacity,
                max_context_tokens,
                layer_graphs: false,
                serial_linear_attention_projections: false,
                serial_linear_attention_recurrence: false,
                serial_full_attention_rows: false,
            },
        )
    }

    /// Most sequences of a batch.
    pub fn sequence_capacity(&self) -> (capacity: usize)
        ensures
            capacity == self.sequence_capacity,
    {
        self.sequence_capacity
    }

    /// Most tokens of a batch.
    pub fn token_capacity(&self) -> (capacity: usize)
        ensures
            capacity == self.token_capacity,
    {
        self.token_capacity
    }

    /// Most tokens of a sequence.
    pub fn max_context_tokens(&self) -> (tokens: usize)
        ensures
            tokens == self.max_context_tokens,
    {
        self.max_context_tokens
    }

    /// The buffer with the rows of the latest batch of a model with `layers` layers: row `i` is
    /// the residual stream after the last layer for the `i`-th token.
    pub fn prompt_hidden(&self, layers: usize) -> (buffer: RowBuffer)
        ensures
            buffer == crate::qwen36::schedule::prompt_buffer(layers as nat),
    {
        if layers % 2 == 0 {
            RowBuffer::Stream
        } else {
            RowBuffer::FeedForward
        }
    }

    /// What stands against one row, if anything.
    pub open spec fn row_obstacle(
        self,
        model_id: u64,
        vocab: usize,
        row: Qwen36PrefillRow,
    ) -> Option<BatchError> {
        let state = *row.sequence;
        let tokens = row.token_ids@.len();
        let foreign = foreign_token(row.token_ids@, vocab, 0);
        if tokens == 0 {
            Some(BatchError::EmptyRow)
        } else if state.model_id != model_id {
            Some(BatchError::ForeignState)
        } else if foreign is Some {
            Some(BatchError::TokenId { vocab, token: foreign->0 })
        } else if state.position + tokens > usize::MAX {
            Some(
                BatchError::PositionOverflow { position: state.position, tokens: tokens as usize },
            )
        } else if state.position + tokens > state.max_tokens || state.max_tokens
            > self.max_context_tokens {
            Some(
                BatchError::SequenceCapacity {
                    position: (state.position + tokens) as usize,
                    max_tokens: state.max_tokens,
                    max_context_tokens: self.max_context_tokens,
                },
            )
        } else {
            None
        }
    }

    /// What stands against the rows from `from` on, if anything.
    pub open spec fn rows_obstacle(
        self,
        model_id: u64,
        vocab: usize,
        rows: Seq<Qwen36PrefillRow>,
        from: int,
    ) -> Option<BatchError>
        decreases rows.len() - from,
    {
        if from < 0 || from >= rows.len() {
            None
        } else {
            let first = self.row_obstacle(model_id, vocab, rows[from]);
            if first is Some {
                first
            } else {
                self.rows_obstacle(model_id, vocab, rows, from + 1)
            }
        }
    }

    /// What stands against a prompt batch, if anything.
    pub open spec fn obstacle(
        self,
        model_id: u64,
        vocab: usize,
        rows: Seq<Qwen36PrefillRow>,
        appends: usize,
    ) -> Option<BatchError> {
        let total = tokens_in(rows, rows.len());
        if self.model_id != model_id {
            Some(BatchError::ForeignWorkspace)
        } else if rows.len() == 0 || rows.len() > self.sequence_capacity {
            Some(BatchError::Rows { capacity: self.sequence_capacity, rows: rows.len() as usize })
        } else if appends != rows.len() {
            Some(BatchError::Appends { rows: rows.len() as usize, appends })
        } else if total > usize::MAX {
            Some(BatchError::TokenCountOverflow)
        } else if total == 0 || total > self.token_capacity {
            Some(BatchError::TokenCount { capacity: self.token_capacity, tokens: total as usize })
        } else {
            self.rows_obstacle(model_id, vocab, rows, 0)
        }
    }

    fn check_row(&self, model_id: u64, vocab: usize, row: &Qwen36PrefillRow) -> (obstacle: Option<
        BatchError,
    >)
        ensures
            obstacle == self.row_obstacle(model_id, vocab, *row),
    {
        let state = row.sequence;
        let tokens: usize = row.token_ids.len();
        if tokens == 0 {
            return Some(BatchError::EmptyRow);
        }
        if state.model_id != model_id {
            return Some(BatchError::ForeignState);
        }
        match find_foreign_token(row.token_ids, vocab) {
            Some(token) => {
                return Some(BatchError::TokenId { vocab, token });
            },
            None => {},
        }
        match state.position.checked_add(tokens) {
            None => Some(BatchError::PositionOverflow { position: state.position, tokens }),
            Some(end) => {
                if end > state.max_tokens || state.max_tokens > self.max_context_tokens {
                    Some(
                        BatchError::SequenceCapacity {
                            position: end,
                            max_tokens: state.max_tokens,
                            max_context_tokens: self.max_context_tokens,
                        },
                    )
                } else {
                    None
                }
            },
        }
    }

    /// Decides whether a prompt batch can run, and counts its tokens.
    pub fn admit_prefill(
        &self,
        model_id: u64,
        vocab: usize,
        rows: &[Qwen36PrefillRow],
        appends: usize,
    ) -> (result: Result<usize, BatchError>)
        ensures
            match result {
                Ok(total) => {
                    &&& self.obstacle(model_id, vocab, rows@, appends) is None
                    &&& total == tokens_in(rows@, rows@.len())
                },
                Err(error) => self.obstacle(model_id, vocab, rows@, appends) == Some(error),
            },
    {
        if self.model_id != model_id {
            return Err(BatchError::ForeignWorkspace);
        }
        if rows.len() == 0 || rows.len() > self.sequence_capacity {
            return Err(BatchError::Rows { capacity: self.sequence_capacity, rows: rows.len() });
        }
        if appends != rows.len() {
            return Err(BatchError::Appends { rows: rows.len(), appends });
        }
        let mut total: usize = 0;
        let mut i: usize = 0;
        while i < rows.len()
            invariant
                i <= rows@.len(),
                total == tokens_in(rows@, i as nat),
                self.model_id == model_id,
                0 < rows@.len() <= self.sequence_capacity,
                appends == rows@.len(),
            decreases rows@.len() - i,
        {
            match total.checked_add(rows[i].token_ids.len()) {
                Some(sum) => {
                    total = sum;
                },
                None => {
                    proof {
                        lemma_tokens_monotone(rows@, (i + 1) as nat, rows@.len());
                    }
                    return Err(BatchError::TokenCountOverflow);
                },
            }
            i += 1;
        }
        if total == 0 || total > self.token_capacity {
            return Err(BatchError::TokenCount { capacity: self.token_capacity, tokens: total });
        }
        let mut i: usize = 0;
        while i < rows.len()
            invariant
                i <= rows@.len(),
                self.rows_obstacle(model_id, vocab, rows@, 0) == self.rows_obstacle(
                    model_id,
                    vocab,
                    rows@,
                    i as int,
                ),
                self.obstacle(model_id, vocab, rows@, appends) == self.rows_obstacle(
                    model_id,
                    vocab,
                    rows@,
                    0,
                ),
            decreases rows@.len() - i,
        {
            match self.check_row(model_id, vocab, &rows[i]) {
                Some(error) => {
                    return Err(error);
                },
                None => {},
            }
            i += 1;
        }
        Ok(total)
    }
}

proof fn lemma_tokens_monotone(rows: Seq<Qwen36PrefillRow>, left: nat, right: nat)
    requires
        left <= right,
    ensures
        tokens_in(rows, left) <= tokens_in(rows, right),
    decreases right - left,
{
    if left < right {
        lemma_tokens_monotone(rows, left, (right - 1) as nat);
    }
}

/// Every row of an accepted prompt batch has tokens, all of them in the vocabulary, and ends
/// within its own sequence and within the context of the workspace.
pub proof fn law_accepted_prompt_rows_fit(
    workspace: Qwen36PrefillBatchWorkspace,
    model_id: u64,
    vocab: usize,
    rows: Seq<Qwen36PrefillRow>,
    appends: usize,
    index: int,
)
    requires
        workspace.obstacle(model_id, vocab, rows, appends) is None,
        0 <= index < rows.len(),
    ensures
        ({
            let row = rows[index];
            &&& row.token_ids@.len() > 0
            &&& row.sequence.model_id == model_id
            &&& forall|i: int| 0 <= i < row.token_ids@.len() ==> #[trigger] row.token_ids@[i] < vocab
            &&& row.sequence.position + row.token_ids@.len() <= row.sequence.max_tokens
                <= workspace.max_context_tokens
        }),
{
    lemma_no_row_obstacle(workspace, model_id, vocab, rows, 0, index);
    let row = rows[index];
    assert forall|i: int| 0 <= i < row.token_ids@.len() implies #[trigger] row.token_ids@[i]
        < vocab by {
        lemma_no_foreign_token(row.token_ids@, vocab, 0, i);
    }
}

proof fn lemma_no_row_obstacle(
    workspace: Qwen36PrefillBatchWorkspace,
    model_id: u64,
    vocab: usize,
    rows: Seq<Qwen36PrefillRow>,
    from: int,
    index: int,
)
    requires
        0 <= from <= index < rows.len(),
        workspace.rows_obstacle(model_id, vocab, rows, from) is None,
    ensures
        workspace.row_obstacle(model_id, vocab, rows[index]) is None,
    decreases index - from,
{
    if from < index {
        lemma_no_row_obstacle(workspace, model_id, vocab, rows, from + 1, index);
    }
}

proof fn lemma_no_foreign_token(tokens: Seq<u32>, vocab: usize, from: int, index: int)
    requires
        0 <= from <= index < tokens.len(),
        foreign_token(tokens, vocab, from) is None,
    ensures
        tokens[index] < vocab,
    decreases index - from,
{
    if from < index {
        lemma_no_foreign_token(tokens, vocab, from + 1, index);
    }
}

/// Rows of a prompt batch, one sequence after the other.
pub struct PackedPrefill {
    /// Tokens.
    pub token_ids: Vec<u32>,
    /// Positions of the tokens in their sequences.
    pub positions: Vec<u32>,
    /// First token of every sequence, then zeros.
    pub sequence_offsets: Vec<u32>,
    /// Tokens of every sequence, then zeros.
    pub sequence_lengths: Vec<u32>,
}

/// Tokens of the first `count` rows, one row after the other.
pub open spec fn packed_tokens(rows: Seq<Qwen36PrefillRow>, count: nat) -> Seq<u32>
    decreases count,
{
    if count == 0 {
        seq![]
    } else {
        packed_tokens(rows, (count - 1) as nat) + rows[count - 1].token_ids@
    }
}

/// Positions of the tokens of one row.
pub open spec fn row_positions(row: Qwen36PrefillRow) -> Seq<u32> {
    Seq::new(row.token_ids@.len(), |i: int| (row.sequence.position + i) as u32)
}

/// Positions of the tokens of the first `count` rows, one row after the other.
pub open spec fn packed_positions(rows: Seq<Qwen36PrefillRow>, count: nat) -> Seq<u32>
    decreases count,
{
    if count == 0 {
        seq![]
    } else {
        packed_positions(rows, (count - 1) as nat) + row_positions(rows[count - 1])
    }
}

/// Packs the rows of a prompt batch.
pub fn pack_prefill(rows: &[Qwen36PrefillRow], sequence_capacity: usize) -> (packed: PackedPrefill)
    requires
        rows@.len() <= sequence_capacity,
        tokens_in(rows@, rows@.len()) <= usize::MAX,
        forall|i: int|
            0 <= i < rows@.len() ==> (#[trigger] rows@[i]).sequence.position
                + rows@[i].token_ids@.len() <= usize::MAX,
    ensures
        packed.token_ids@ == packed_tokens(rows@, rows@.len()),
        packed.positions@ == packed_positions(rows@, rows@.len()),
        packed.sequence_offsets@ == Seq::new(
            sequence_capacity as nat,
            |i: int|
                if i < rows@.len() {
                    tokens_in(rows@, i as nat) as u32
                } else {
                    0
                },
        ),
        packed.sequence_lengths@ == Seq::new(
            sequence_capacity as nat,
            |i: int|
                if i < rows@.len() {
                    rows@[i].token_ids@.len() as u32
                } else {
                    0
                },
        ),
{
    let mut token_ids: Vec<u32> = Vec::new();
    let mut positions: Vec<u32> = Vec::new();
    let mut sequence_offsets: Vec<u32> = Vec::new();
    let mut sequence_lengths: Vec<u32> = Vec::new();
    let mut offset: usize = 0;
    let mut sequence: usize = 0;
    while sequence < rows.len()
        invariant
            sequence <= rows@.len() <= sequence_capacity,
            tokens_in(rows@, rows@.len()) <= usize::MAX,
            forall|i: int|
                0 <= i < rows@.len() ==> (#[trigger] rows@[i]).sequence.position
                    + rows@[i].token_ids@.len() <= usize::MAX,
            offset == tokens_in(rows@, sequence as nat),
            token_ids@ == packed_tokens(rows@, sequence as nat),
            positions@ == packed_positions(rows@, sequence as nat),
            sequence_offsets@.len() == sequence,
            sequence_lengths@.len() == sequence,
            forall|i: int|
                0 <= i < sequence ==> #[trigger] sequence_offsets@[i] == tokens_in(
                    rows@,
                    i as nat,
                ) as u32,
            forall|i: int|
                0 <= i < sequence ==> #[trigger] sequence_lengths@[i]
                    == rows@[i].token_ids@.len() as u32,
        decreases rows@.len() - sequence,
    {
        let row = &rows[sequence];
        let tokens: usize = row.token_ids.len();
        assert(rows@[sequence as int].sequence.position + tokens <= usize::MAX);
        sequence_offsets.push(offset as u32);
        sequence_lengths.push(tokens as u32);
        let ghost tokens_before = token_ids@;
        let ghost positions_before = positions@;
        let mut i: usize = 0;
        while i < tokens
            invariant
                i <= tokens,
                tokens == row.token_ids@.len(),
                row.sequence.position + tokens <= usize::MAX,
                token_ids@ == tokens_before + row.token_ids@.take(i as int),
                positions@ == positions_before + row_positions(*row).take(i as int),
            decreases tokens - i,
        {
            token_ids.push(row.token_ids[i]);
            positions.push((row.sequence.position + i) as u32);
            i += 1;
            assert(token_ids@ =~= tokens_before + row.token_ids@.take(i as int));
            assert(positions@ =~= positions_before + row_positions(*row).take(i as int));
        }
        assert(row.token_ids@.take(i as int) =~= row.token_ids@);
        assert(row_positions(*row).take(i as int) =~= row_positions(*row));
        proof {
            lemma_tokens_monotone(rows@, (sequence + 1) as nat, rows@.len());
        }
        offset = offset + tokens;
        sequence += 1;
    }
    let mut padding: usize = rows.len();
    while padding < sequence_capacity
        invariant
            rows@.len() <= padding <= sequence_capacity,
            sequence_offsets@.len() == padding,
            sequence_lengths@.len() == padding,
            forall|i: int|
                0 <= i < padding ==> #[trigger] sequence_offsets@[i] == if i < rows@.len() {
                    tokens_in(rows@, i as nat) as u32
                } else {
                    0
                },
            forall|i: int|
                0 <= i < padding ==> #[trigger] sequence_lengths@[i] == if i < rows@.len() {
                    rows@[i].token_ids@.len() as u32
                } else {
                    0
                },
        decreases sequence_capacity - padding,
    {
        sequence_offsets.push(0);
        sequence_lengths.push(0);
        padding += 1;
    }
    PackedPrefill { token_ids, positions, sequence_offsets, sequence_lengths }
}

/// Every token of every row of an accepted batch has its place among the packed rows.
pub proof fn law_packed_rows_keep_their_tokens(
    rows: Seq<Qwen36PrefillRow>,
    count: nat,
    sequence: int,
    token: int,
)
    requires
        0 <= sequence < count <= rows.len(),
        0 <= token < rows[sequence].token_ids@.len(),
    ensures
        packed_tokens(rows, count).len() == tokens_in(rows, count),
        packed_positions(rows, count).len() == tokens_in(rows, count),
        tokens_in(rows, sequence as nat) + token < tokens_in(rows, count),
        packed_tokens(rows, count)[tokens_in(rows, sequence as nat) + token]
            == rows[sequence].token_ids@[token],
        packed_positions(rows, count)[tokens_in(rows, sequence as nat) + token] == (
        rows[sequence].sequence.position + token) as u32,
    decreases count,
{
    lemma_packed_len(rows, count);
    lemma_packed_len(rows, (count - 1) as nat);
    lemma_tokens_monotone(rows, (sequence + 1) as nat, count);
    if sequence < count - 1 {
        law_packed_rows_keep_their_tokens(rows, (count - 1) as nat, sequence, token);
    }
}

proof fn lemma_packed_len(rows: Seq<Qwen36PrefillRow>, count: nat)
    ensures
        packed_tokens(rows, count).len() == tokens_in(rows, count),
        packed_positions(rows, count).len() == tokens_in(rows, count),
    decreases count,
{
    if count > 0 {
        lemma_packed_len(rows, (count - 1) as nat);
    }
}

/// Workspace of decode batches.
pub struct Qwen36DecodeBatchWorkspace {
    /// Model that created the workspace.
    pub model_id: u64,
    /// Rows of a batch.
    pub capacity: usize,
    /// Most tokens of a sequence.
    pub max_context_tokens: usize,
    /// Whether layer graphs are captured.
    pub layer_graphs: bool,
}

/// Whether a value of the environment turns layer graphs off.
pub open spec fn disables_graphs(value: Option<Seq<char>>) -> bool {
    value matches Some(text) && (text == "1"@ || text == "true"@ || text == "TRUE"@ || text
        == "yes"@ || text == "YES"@)
}

/// Decides whether layer graphs are captured, from the value of the environment variable.
pub fn segmented_graphs(value: &Option<String>) -> (enabled: bool)
    ensures
        enabled == !disables_graphs(
            match *value {
                Some(text) => Some(text@),
                None => None,
            },
        ),
{
    match value {
        Some(text) => {
            let text = text.as_str();
            !(crate::text::same_text(text, "1") || crate::text::same_text(text, "true")
                || crate::text::same_text(text, "TRUE") || crate::text::same_text(text, "yes")
                || crate::text::same_text(text, "YES"))
        },
        None => true,
    }
}

/// Rows of a decode batch, then zeros.
pub struct PackedDecode {
    /// Tokens.
    pub token_ids: Vec<u32>,
    /// Positions of the tokens in their sequences.
    pub positions: Vec<u32>,
}

impl Qwen36DecodeBatchWorkspace {
    /// Creates the workspace of decode batches.
    pub fn new(
        model_id: u64,
        capacity: usize,
        max_context_tokens: usize,
        segmented_graphs: bool,
    ) -> (result: Result<Self, BatchError>)
        ensures
            match result {
                Ok(workspace) => {
                    &&& capacity > 0 && max_context_tokens > 0
                    &&& workspace == (Qwen36DecodeBatchWorkspace {
                        model_id,
                        capacity,
                        max_context_tokens,
                        layer_graphs: segmented_graphs,
                    })
                },
                Err(error) => {
                    &&& capacity == 0 || max_context_tokens == 0
                    &&& error == BatchError::Capacity
                },
            },
    {
        if capacity == 0 || max_context_tokens == 0 {
            return Err(BatchError::Capacity);
        }
        Ok(Self { model_id, capacity, max_context_tokens, layer_graphs: segmented_graphs })
    }

    /// Rows of a batch.
    pub fn capacity(&self) -> (capacity: usize)
        ensures
            capacity == self.capacity,
    {
        self.capacity
    }

    /// Most tokens of a sequence.
    pub fn max_context_tokens(&self) -> (tokens: usize)
        ensures
            tokens == self.max_context_tokens,
    {
        self.max_context_tokens
    }

    /// What stands against one row, if anything.
    pub open spec fn row_obstacle(
        self,
        model_id: u64,
        vocab: usize,
        row: Qwen36DecodeRow,
    ) -> Option<BatchError> {
        let state = *row.sequence;
        if state.model_id != model_id {
            Some(BatchError::ForeignState)
        } else if row.token_id >= vocab {
            Some(BatchError::TokenId { vocab, token: row.token_id })
        } else if state.position >= state.max_tokens || state.max_tokens
            > self.max_context_tokens {
            Some(
                BatchError::SequenceCapacity {
                    position: state.position,
                    max_tokens: state.max_tokens,
                    max_context_tokens: self.max_context_tokens,
                },
            )
        } else {
            None
        }
    }

    /// What stands against the rows from `from` on, if anything.
    pub open spec fn rows_obstacle(
        self,
        model_id: u64,
        vocab: usize,
        rows: Seq<Qwen36DecodeRow>,
        from: int,
    ) -> Option<BatchError>
        decreases rows.len() - from,
    {
        if from < 0 || from >= rows.len() {
            None
        } else {
            let first = self.row_obstacle(model_id, vocab, rows[from]);
            if first is Some {
                first
            } else {
                self.rows_obstacle(model_id, vocab, rows, from + 1)
            }
        }
    }

    /// What stands against a decode batch, if anything.
    pub open spec fn obstacle(
        self,
        model_id: u64,
        vocab: usize,
        rows: Seq<Qwen36DecodeRow>,
        appends: usize,
    ) -> Option<BatchError> {
        if self.model_id != model_id {
            Some(BatchError::ForeignWorkspace)
        } else if rows.len() == 0 || rows.len() > self.capacity {
            Some(BatchError::Rows { capacity: self.capacity, rows: rows.len() as usize })
        } else if appends != rows.len() {
            Some(BatchError::Appends { rows: rows.len() as usize, appends })
        } else {
            self.rows_obstacle(model_id, vocab, rows, 0)
        }
    }

    /// Decides whether a decode batch can run.
    pub fn admit_decode(
        &self,
        model_id: u64,
        vocab: usize,
        rows: &[Qwen36DecodeRow],
        appends: usize,
    ) -> (result: Result<(), BatchError>)
        ensures
            match result {
                Ok(_) => self.obstacle(model_id, vocab, rows@, appends) is None,
                Err(error) => self.obstacle(model_id, vocab, rows@, appends) == Some(error),
            },
    {
        if self.model_id != model_id {
            return Err(BatchError::ForeignWorkspace);
        }
        if rows.len() == 0 || rows.len() > self.capacity {
            return Err(BatchError::Rows { capacity: self.capacity, rows: rows.len() });
        }
        if appends != rows.len() {
            return Err(BatchError::Appends { rows: rows.len(), appends });
        }
        let mut i: usize = 0;
        while i < rows.len()
            invariant
                i <= rows@.len(),
                self.rows_obstacle(model_id, vocab, rows@, 0) == self.rows_obstacle(
                    model_id,
                    vocab,
                    rows@,
                    i as int,
                ),
                self.obstacle(model_id, vocab, rows@, appends) == self.rows_obstacle(
                    model_id,
                    vocab,
                    rows@,
                    0,
                ),
            decreases rows@.len() - i,
        {
            let row = &rows[i];
            let state = row.sequence;
            if state.model_id != model_id {
                return Err(BatchError::ForeignState);
            }
            if row.token_id as usize >= vocab {
                return Err(BatchError::TokenId { vocab, token: row.token_id });
            }
            if state.position >= state.max_tokens || state.max_tokens > self.max_context_tokens {
                return Err(
                    BatchError::SequenceCapacity {
                        position: state.position,
                        max_tokens: state.max_tokens,
                        max_context_tokens: self.max_context_tokens,
                    },
                );
            }
            i += 1;
        }
        Ok(())
    }
}

/// Every row of an accepted decode batch has a token of the vocabulary and room for one more row
/// in its sequence.
pub proof fn law_accepted_decode_rows_fit(
    workspace: Qwen36DecodeBatchWorkspace,
    model_id: u64,
    vocab: usize,
    rows: Seq<Qwen36DecodeRow>,
    appends: usize,
    index: int,
)
    requires
        workspace.obstacle(model_id, vocab, rows, appends) is None,
        0 <= index < rows.len(),
    ensures
        rows[index].sequence.model_id == model_id,
        rows[index].token_id < vocab,
        rows[index].sequence.position < rows[index].sequence.max_tokens
            <= workspace.max_context_tokens,
{
    lemma_no_decode_obstacle(workspace, model_id, vocab, rows, 0, index);
}

proof fn lemma_no_decode_obstacle(
    workspace: Qwen36DecodeBatchWorkspace,
    model_id: u64,
    vocab: usize,
    rows: Seq<Qwen36DecodeRow>,
    from: int,
    index: int,
)
    requires
        0 <= from <= index < rows.len(),
        workspace.rows_obstacle(model_id, vocab, rows, from) is None,
    ensures
        workspace.row_obstacle(model_id, vocab, rows[index]) is None,
    decreases index - from,
{
    if from < index {
        lemma_no_decode_obstacle(workspace, model_id, vocab, rows, from + 1, index);
    }
}

/// Packs the rows of a decode batch.
pub fn pack_decode(rows: &[Qwen36DecodeRow], capacity: usize) -> (packed: PackedDecode)
    requires
        rows@.len() <= capacity,
    ensures
        packed.token_ids@ == Seq::new(
            capacity as nat,
            |i: int|
                if i < rows@.len() {
                    rows@[i].token_id
                } else {
                    0
                },
        ),
        packed.positions@ == Seq::new(
            capacity as nat,
            |i: int|
                if i < rows@.len() {
                    rows@[i].sequence.position as u32
                } else {
                    0
                },
        ),
{
    let mut token_ids: Vec<u32> = Vec::new();
    let mut positions: Vec<u32> = Vec::new();
    let mut i: usize = 0;
    while i < capacity
        invariant
            i <= capacity,
            rows@.len() <= capacity,
            token_ids@.len() == i,
            positions@.len() == i,
            forall|j: int|
                0 <= j < i ==> #[trigger] token_ids@[j] == if j < rows@.len() {
                    rows@[j].token_id
                } else {
                    0
                },
            forall|j: int|
                0 <= j < i ==> #[trigger] positions@[j] == if j < rows@.len() {
                    rows@[j].sequence.position as u32
                } else {
                    0
                },
        decreases capacity - i,
    {
        if i < rows.len() {
            token_ids.push(rows[i].token_id);
            positions.push(rows[i].sequence.position as u32);
        } else {
            token_ids.push(0);
            positions.push(0);
        }
        i += 1;
    }
    PackedDecode { token_ids, positions }
}

/// Words of a packed set of allowed tokens.
pub open spec fn mask_words(vocab: int) -> int {
    (vocab + 31) / 32
}

/// Token that a row selects, with the bit pattern of its logit.
#[derive(Clone, Copy, Debug, PartialEq, Eq, Structural)]
pub struct Qwen36NextToken {
    /// Token.
    pub id: u32,
    /// Bits of its logit.
    pub value_bits: u32,
}

/// Output of a decode batch.
#[derive(Clone, Copy, Debug, PartialEq, Eq, Structural)]
pub struct Qwen36DecodedBatch {
    /// Decoded rows.
    pub rows: usize,
    /// Logits of one row.
    pub vocab: usize,
}

impl Qwen36DecodedBatch {
    /// Decoded rows.
    pub fn len(&self) -> (rows: usize)
        ensures
            rows == self.rows,
    {
        self.rows
    }

    /// Whether no row was decoded.
    pub fn is_empty(&self) -> (empty: bool)
        ensures
            empty == (self.rows == 0),
    {
        self.rows == 0
    }

    /// Logits of one row.
    pub fn vocab(&self) -> (vocab: usize)
        ensures
            vocab == self.vocab,
    {
        self.vocab
    }

    /// Number of logits that belong to decoded rows.
    pub fn copy_logits(&self) -> (result: Result<usize, BatchError>)
        ensures
            match result {
                Ok(values) => values == self.rows * self.vocab,
                Err(error) => self.rows * self.vocab > usize::MAX && error
                    == BatchError::LogitsOverflow,
            },
    {
        match self.rows.checked_mul(self.vocab) {
            Some(values) => Ok(values),
            None => Err(BatchError::LogitsOverflow),
        }
    }

    /// Checks that a mask has one set of allowed tokens for each decoded row, and counts its
    /// words.
    pub fn mask_logits(&self, allowed: usize) -> (result: Result<usize, BatchError>)
        ensures
            ({
                let needed = self.rows * mask_words(self.vocab as int);
                match result {
                    Ok(words) => words == needed && allowed == needed,
                    Err(error) => if needed > usize::MAX {
                        error == BatchError::MaskOverflow
                    } else {
                        &&& allowed != needed
                        &&& error == (BatchError::MaskWords {
                            expected: needed as usize,
                            actual: allowed,
                        })
                    },
                }
            }),
    {
        let words: usize = self.vocab / 32 + if self.vocab % 32 == 0 {
            0usize
        } else {
            1usize
        };
        assert(words == mask_words(self.vocab as int));
        match self.rows.checked_mul(words) {
            None => Err(BatchError::MaskOverflow),
            Some(expected) => {
                if allowed != expected {
                    Err(BatchError::MaskWords { expected, actual: allowed })
                } else {
                    Ok(expected)
                }
            },
        }
    }

    /// Pairs the winning tokens with the bits of their logits.
    pub fn top1(&self, indices: &[u32], values: &[u32]) -> (tokens: Vec<Qwen36NextToken>)
        requires
            indices@.len() == self.rows,
            values@.len() == self.rows,
        ensures
            tokens@ == Seq::new(
                self.rows as nat,
                |i: int| Qwen36NextToken { id: indices@[i], value_bits: values@[i] },
            ),
    {
        let mut tokens: Vec<Qwen36NextToken> = Vec::new();
        let mut i: usize = 0;
        while i < self.rows
            invariant
                i <= self.rows,
                indices@.len() == self.rows,
                values@.len() == self.rows,
                tokens@ == Seq::new(
                    i as nat,
                    |j: int| Qwen36NextToken { id: indices@[j], value_bits: values@[j] },
                ),
            decreases self.rows - i,
        {
            tokens.push(Qwen36NextToken { id: indices[i], value_bits: values[i] });
            i += 1;
            assert(tokens@ =~= Seq::new(
                i as nat,
                |j: int| Qwen36NextToken { id: indices@[j], value_bits: values@[j] },
            ));
        }
        tokens
    }

    /// Checks that every decoded row has its own sampling parameters.
    pub fn sample_topk_topp(&self, rows: usize) -> (result: Result<(), BatchError>)
        ensures
            match result {
                Ok(_) => rows == self.rows,
                Err(error) => rows != self.rows && error == (BatchError::SamplingRows {
                    expected: self.rows,
                    actual: rows,
                }),
            },
    {
        if rows != self.rows {
            return Err(BatchError::SamplingRows { expected: self.rows, actual: rows });
        }
        Ok(())
    }
}

} // verus!
