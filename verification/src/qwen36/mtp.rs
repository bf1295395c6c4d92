//! Native draft block of the hybrid model.

use vstd::prelude::*;
use crate::manifest::QwenModelManifest;
use crate::qwen36::attention::AttentionLayer;
use crate::qwen36::model::Qwen36TextModel;
use crate::tensors::{matrix, push_tensor, vector, TensorSpec};

verus! {

/// Why the draft block cannot run.
#[derive(Clone, Copy, Debug, PartialEq, Eq, Structural)]
pub enum MtpError {
    /// The model has no draft block.
    NoWeights,
    /// The number of target rows is not representable.
    WarmupOverflow,
    /// There are fewer target rows than a warm-up needs.
    WarmupHiddens {
        /// Values that are needed.
        required: usize,
        /// Values that were given.
        actual: usize,
    },
    /// A scratch row is too short.
    Scratch {
        /// Values that are needed.
        required: usize,
        /// Values that it has.
        actual: usize,
    },
    /// There is too little room for the drafted tokens.
    DraftTokens {
        /// Tokens that are needed.
        required: usize,
        /// Tokens that there is room for.
        actual: usize,
    },
}

/// Rows that the draft block has cached for one sequence.
#[derive(Clone, Copy, Debug, PartialEq, Eq, Structural)]
pub struct Qwen36MtpSequenceState {
    /// Cached rows.
    pub rows: usize,
    /// Most cached rows.
    pub max_tokens: usize,
}

impl Qwen36MtpSequenceState {
    /// Cached rows.
    pub fn len(&self) -> (rows: usize)
        ensures
            rows == self.rows,
    {
        self.rows
    }

    /// Whether no row is cached.
    pub fn is_empty(&self) -> (empty: bool)
        ensures
            empty == (self.rows == 0),
    {
        self.rows == 0
    }

    /// Drops the rows from `len` on.
    pub fn truncate(&mut self, len: usize)
        ensures
            *final(self) == (Qwen36MtpSequenceState {
                rows: if len < old(self).rows {
                    len
                } else {
                    old(self).rows
                },
                ..*old(self)
            }),
    {
        if len < self.rows {
            self.rows = len;
        }
    }

    /// Notes that one row was appended.
    pub fn appended(&mut self)
        requires
            old(self).rows < usize::MAX,
        ensures
            *final(self) == (Qwen36MtpSequenceState {
                rows: (old(self).rows + 1) as usize,
                ..*old(self)
            }),
    {
        self.rows = self.rows + 1;
    }
}

/// Source of the target state that goes with a token.
#[derive(Clone, Copy, Debug, PartialEq, Eq, Structural)]
pub enum HiddenSource {
    /// The state before the first token of a chunk.
    Initial,
    /// Values of the target rows from this one on.
    TargetRow(usize),
    /// The state that goes with the frontier.
    Frontier,
    /// The output of the draft step before.
    Chained,
}

/// One device operation of the draft block.
#[derive(Clone, Copy, Debug, PartialEq, Eq, Structural)]
#[allow(inconsistent_fields)]
pub enum MtpOp {
    /// Set the token.
    SetToken(u32),
    /// Take the token that the step before selected.
    ChainToken,
    /// Copy the state that goes with the token.
    LoadHidden { source: HiddenSource, values: usize },
    /// Look the embedding up.
    Gather,
    /// Normalise the embedding.
    EmbeddingNorm,
    /// Normalise the state.
    HiddenNorm,
    /// Join embedding and state.
    Concat,
    /// Project the pair.
    Fuse,
    /// Normalise the projected pair.
    InputNorm,
    /// Project keys and values at a position.
    PrepareKv { position: usize },
    /// Append keys and values at a position.
    AppendKv { position: usize },
    /// Attend at a position, which appends its keys and values.
    Attend { position: usize },
    /// Add the projected pair.
    AddAttention,
    /// Round the sum to sixteen bits.
    RoundAttention,
    /// Normalise before the feed-forward block.
    PostNorm,
    /// Project gate and up.
    GateUp,
    /// Gate the halves.
    Silu,
    /// Project down.
    Down,
    /// Add the attention residual.
    AddBlock,
    /// Round the sum to sixteen bits.
    RoundBlock,
    /// Normalise for the head.
    FinalNorm,
    /// Round the normalised state to sixteen bits.
    RoundFinal,
    /// Run the head and select a token.
    Head,
    /// Keep the selected token.
    KeepToken { index: usize },
}

/// Projection of the pair of embedding and state.
pub open spec fn input_ops() -> Seq<MtpOp> {
    seq![
        MtpOp::Gather,
        MtpOp::EmbeddingNorm,
        MtpOp::HiddenNorm,
        MtpOp::Concat,
        MtpOp::Fuse,
        MtpOp::InputNorm,
    ]
}

/// Append of one token's keys and values.
pub open spec fn append_ops(position: usize) -> Seq<MtpOp> {
    input_ops() + seq![MtpOp::PrepareKv { position }, MtpOp::AppendKv { position }]
}

/// One whole draft step.
pub open spec fn step_ops(position: usize) -> Seq<MtpOp> {
    input_ops() + seq![
        MtpOp::Attend { position },
        MtpOp::AddAttention,
        MtpOp::RoundAttention,
        MtpOp::PostNorm,
        MtpOp::GateUp,
        MtpOp::Silu,
        MtpOp::Down,
        MtpOp::AddBlock,
        MtpOp::RoundBlock,
        MtpOp::FinalNorm,
        MtpOp::RoundFinal,
    ]
}

fn push_input(ops: &mut Vec<MtpOp>)
    ensures
        final(ops)@ == old(ops)@ + input_ops(),
{
    ops.push(MtpOp::Gather);
    ops.push(MtpOp::EmbeddingNorm);
    ops.push(MtpOp::HiddenNorm);
    ops.push(MtpOp::Concat);
    ops.push(MtpOp::Fuse);
    ops.push(MtpOp::InputNorm);
    assert(ops@ =~= old(ops)@ + input_ops());
}

fn append_kv(ops: &mut Vec<MtpOp>, position: usize)
    ensures
        final(ops)@ == old(ops)@ + append_ops(position),
{
    push_input(ops);
    ops.push(MtpOp::PrepareKv { position });
    ops.push(MtpOp::AppendKv { position });
    assert(ops@ =~= old(ops)@ + append_ops(position));
}

fn draft_step(ops: &mut Vec<MtpOp>, position: usize)
    ensures
        final(ops)@ == old(ops)@ + step_ops(position),
{
    push_input(ops);
    ops.push(MtpOp::Attend { position });
    ops.push(MtpOp::AddAttention);
    ops.push(MtpOp::RoundAttention);
    ops.push(MtpOp::PostNorm);
    ops.push(MtpOp::GateUp);
    ops.push(MtpOp::Silu);
    ops.push(MtpOp::Down);
    ops.push(MtpOp::AddBlock);
    ops.push(MtpOp::RoundBlock);
    ops.push(MtpOp::FinalNorm);
    ops.push(MtpOp::RoundFinal);
    assert(ops@ =~= old(ops)@ + step_ops(position));
}

/// Weights of the draft block. Shapes that the manifest gives are not repeated.
#[derive(Clone, Copy, Debug, PartialEq, Eq, Structural)]
pub struct Qwen36MtpWeights {
    /// Attention.
    pub attention: AttentionLayer,
}

/// The state that goes with the token at `row` of a chunk: the one of the position before.
pub open spec fn warmup_source(hidden: usize, row: int, hidden_offset: int) -> HiddenSource {
    if row == 0 {
        HiddenSource::Initial
    } else {
        HiddenSource::TargetRow((hidden_offset + (row - 1) * hidden) as usize)
    }
}

/// Warm-up of one token.
pub open spec fn warmup_row(
    hidden: usize,
    tokens: Seq<u32>,
    rows: int,
    hidden_offset: int,
    row: int,
) -> Seq<MtpOp> {
    seq![
        MtpOp::SetToken(tokens[row]),
        MtpOp::LoadHidden {
            source: warmup_source(hidden, row, hidden_offset),
            values: hidden,
        },
    ] + append_ops((rows + row) as usize)
}

/// Warm-up of the first `count` tokens.
pub open spec fn warmup_ops(
    hidden: usize,
    tokens: Seq<u32>,
    rows: int,
    hidden_offset: int,
    count: nat,
) -> Seq<MtpOp>
    decreases count,
{
    if count == 0 {
        seq![]
    } else {
        warmup_ops(hidden, tokens, rows, hidden_offset, (count - 1) as nat) + warmup_row(
            hidden,
            tokens,
            rows,
            hidden_offset,
            count - 1,
        )
    }
}

/// Values of the target rows that a warm-up reads.
pub open spec fn warmup_values(hidden: usize, tokens: nat) -> int {
    if tokens == 0 {
        0
    } else {
        (tokens - 1) * hidden
    }
}

/// One step of a chain of drafts.
pub open spec fn chain_step(hidden: usize, token: u32, rows: int, step: int) -> Seq<MtpOp> {
    (if step == 0 {
        seq![
            MtpOp::SetToken(token),
            MtpOp::LoadHidden { source: HiddenSource::Frontier, values: hidden },
        ]
    } else {
        seq![
            MtpOp::LoadHidden { source: HiddenSource::Chained, values: hidden },
            MtpOp::ChainToken,
        ]
    }) + step_ops((rows + step) as usize) + seq![
        MtpOp::Head,
        MtpOp::KeepToken { index: step as usize },
    ]
}

/// The first `count` steps of a chain of drafts.
pub open spec fn chain_ops(hidden: usize, token: u32, rows: int, count: nat) -> Seq<MtpOp>
    decreases count,
{
    if count == 0 {
        seq![]
    } else {
        chain_ops(hidden, token, rows, (count - 1) as nat) + chain_step(
            hidden,
            token,
            rows,
            count - 1,
        )
    }
}

impl Qwen36TextModel {
    /// The native draft block, where the checkpoint has one.
    pub fn mtp_weights(&self) -> (weights: Option<&Qwen36MtpWeights>)
        ensures
            match weights {
                Some(weights) => self.mtp == Some(*weights),
                None => self.mtp is None,
            },
    {
        match &self.mtp {
            Some(weights) => Some(weights),
            None => None,
        }
    }

    /// Creates the rows of a sequence.
    pub fn new_mtp_sequence_state(&self, max_tokens: usize) -> (result: Result<
        Qwen36MtpSequenceState,
        MtpError,
    >)
        ensures
            match result {
                Ok(state) => self.mtp is Some && state == (Qwen36MtpSequenceState {
                    rows: 0,
                    max_tokens,
                }),
                Err(error) => self.mtp is None && error == MtpError::NoWeights,
            },
    {
        if self.mtp.is_none() {
            return Err(MtpError::NoWeights);
        }
        Ok(Qwen36MtpSequenceState { rows: 0, max_tokens })
    }

    /// Plans the warm-up of the cache over a prompt chunk. Each token is paired with the target
    /// state of the position before it.
    pub fn mtp_warmup_kv(
        &self,
        state: &Qwen36MtpSequenceState,
        tokens: &[u32],
        target_values: usize,
        hidden_offset: usize,
        scratch: usize,
    ) -> (result: Result<Vec<MtpOp>, MtpError>)
        requires
            warmup_values(self.manifest.hidden, tokens@.len()) <= usize::MAX,
            state.rows + tokens@.len() <= usize::MAX,
        ensures
            ({
                let required = hidden_offset + warmup_values(self.manifest.hidden, tokens@.len());
                match result {
                    Ok(ops) => {
                        &&& self.mtp is Some
                        &&& required <= target_values && self.manifest.hidden <= scratch
                        &&& ops@ == warmup_ops(
                            self.manifest.hidden,
                            tokens@,
                            state.rows as int,
                            hidden_offset as int,
                            tokens@.len(),
                        )
                        &&& crate::qwen36::mtp_flow::caches(
                            self.manifest.hidden,
                            state.rows,
                            ops@,
                            Seq::new(
                                tokens@.len(),
                                |row: int|
                                    crate::qwen36::mtp_flow::warmed(
                                        self.manifest.hidden,
                                        tokens@,
                                        hidden_offset as int,
                                        row,
                                    ),
                            ),
                        )
                    },
                    Err(error) => if self.mtp is None {
                        error == MtpError::NoWeights
                    } else if required > usize::MAX {
                        error == MtpError::WarmupOverflow
                    } else if required > target_values {
                        error == (MtpError::WarmupHiddens {
                            required: required as usize,
                            actual: target_values,
                        })
                    } else {
                        scratch < self.manifest.hidden && error == (MtpError::Scratch {
                            required: self.manifest.hidden,
                            actual: scratch,
                        })
                    },
                }
            }),
    {
        if self.mtp.is_none() {
            return Err(MtpError::NoWeights);
        }
        let hidden: usize = self.manifest.hidden;
        let values: usize = if tokens.len() == 0 {
            0
        } else {
            (tokens.len() - 1) * hidden
        };
        let required: usize = match hidden_offset.checked_add(values) {
            Some(required) => required,
            None => {
                return Err(MtpError::WarmupOverflow);
            },
        };
        if target_values < required {
            return Err(MtpError::WarmupHiddens { required, actual: target_values });
        }
        if scratch < hidden {
            return Err(MtpError::Scratch { required: hidden, actual: scratch });
        }
        let mut ops: Vec<MtpOp> = Vec::new();
        let mut row: usize = 0;
        while row < tokens.len()
            invariant
                row <= tokens@.len(),
                hidden == self.manifest.hidden,
                hidden_offset + warmup_values(self.manifest.hidden, tokens@.len()) <= usize::MAX,
                state.rows + tokens@.len() <= usize::MAX,
                ops@ == warmup_ops(
                    self.manifest.hidden,
                    tokens@,
                    state.rows as int,
                    hidden_offset as int,
                    row as nat,
                ),
            decreases tokens@.len() - row,
        {
            let ghost before = ops@;
            ops.push(MtpOp::SetToken(tokens[row]));
            if row == 0 {
                ops.push(MtpOp::LoadHidden { source: HiddenSource::Initial, values: hidden });
            } else {
                assert((row - 1) * hidden <= (tokens@.len() - 1) * hidden && 0 <= (row - 1)
                    * hidden) by (nonlinear_arith)
                    requires
                        1 <= row < tokens@.len(),
                        0 <= hidden,
                ;
                ops.push(
                    MtpOp::LoadHidden {
                        source: HiddenSource::TargetRow(hidden_offset + (row - 1) * hidden),
                        values: hidden,
                    },
                );
            }
            append_kv(&mut ops, state.rows + row);
            assert(ops@ =~= before + warmup_row(
                self.manifest.hidden,
                tokens@,
                state.rows as int,
                hidden_offset as int,
                row as int,
            ));
            row += 1;
        }
        proof {
            assert forall|cached: Seq<crate::qwen36::mtp_flow::Pair>|
                cached.len() == state.rows implies ({
                let device = #[trigger] crate::device::after(
                    crate::qwen36::mtp_flow::block_step(hidden),
                    crate::qwen36::mtp_flow::resting(cached, None),
                    ops@,
                );
                device.sound && device.cached == cached + Seq::new(
                    tokens@.len(),
                    |row: int|
                        crate::qwen36::mtp_flow::warmed(
                            hidden,
                            tokens@,
                            hidden_offset as int,
                            row,
                        ),
                )
            }) by {
                crate::qwen36::mtp_flow::law_warmup_pairs_tokens_with_states_before_them(
                    hidden,
                    cached,
                    tokens@,
                    hidden_offset as int,
                    tokens@.len(),
                );
            }
        }
        Ok(ops)
    }

    /// Plans the append of one committed token.
    pub fn mtp_append_kv(&self, state: &Qwen36MtpSequenceState, token: u32) -> (result: Result<
        Vec<MtpOp>,
        MtpError,
    >)
        ensures
            match result {
                Ok(ops) => {
                    &&& self.mtp is Some
                    &&& ops@ == seq![MtpOp::SetToken(token)] + append_ops(state.rows)
                    &&& crate::qwen36::mtp_flow::commits(
                        self.manifest.hidden,
                        state.rows,
                        ops@,
                        token,
                    )
                },
                Err(error) => self.mtp is None && error == MtpError::NoWeights,
            },
    {
        if self.mtp.is_none() {
            return Err(MtpError::NoWeights);
        }
        let mut ops: Vec<MtpOp> = Vec::new();
        ops.push(MtpOp::SetToken(token));
        append_kv(&mut ops, state.rows);
        assert(ops@ =~= seq![MtpOp::SetToken(token)] + append_ops(state.rows));
        proof {
            assert forall|
                cached: Seq<crate::qwen36::mtp_flow::Pair>,
                hidden: crate::qwen36::mtp_flow::Taken,
            | cached.len() == state.rows implies ({
                let device = #[trigger] crate::device::after(
                    crate::qwen36::mtp_flow::block_step(self.manifest.hidden),
                    crate::qwen36::mtp_flow::resting(cached, Some(hidden)),
                    ops@,
                );
                device.sound && device.cached == cached.push(
                    crate::qwen36::mtp_flow::Pair {
                        token: crate::qwen36::mtp_flow::Taken::Token(token),
                        state: hidden,
                    },
                )
            }) by {
                crate::qwen36::mtp_flow::law_committed_token_is_cached_with_its_state(
                    self.manifest.hidden,
                    cached,
                    hidden,
                    token,
                );
            }
        }
        Ok(ops)
    }

    /// Plans a chain of drafts from the frontier.
    pub fn mtp_draft_chain_argmax(
        &self,
        state: &Qwen36MtpSequenceState,
        initial_token: u32,
        drafts: usize,
        chained: usize,
        draft_tokens: usize,
    ) -> (result: Result<Vec<MtpOp>, MtpError>)
        requires
            state.rows + drafts <= usize::MAX,
        ensures
            match result {
                Ok(ops) => {
                    &&& self.mtp is Some
                    &&& drafts == 0 || (self.manifest.hidden <= chained && drafts <= draft_tokens)
                    &&& ops@ == chain_ops(
                        self.manifest.hidden,
                        initial_token,
                        state.rows as int,
                        drafts as nat,
                    )
                    &&& crate::qwen36::mtp_flow::keeps(
                        self.manifest.hidden,
                        state.rows,
                        ops@,
                        Seq::new(
                            drafts as nat,
                            |step: int|
                                crate::qwen36::mtp_flow::chained(initial_token, step as nat),
                        ),
                    )
                },
                Err(error) => if self.mtp is None {
                    error == MtpError::NoWeights
                } else {
                    &&& drafts > 0
                    &&& if chained < self.manifest.hidden {
                        error == (MtpError::Scratch {
                            required: self.manifest.hidden,
                            actual: chained,
                        })
                    } else {
                        draft_tokens < drafts && error == (MtpError::DraftTokens {
                            required: drafts,
                            actual: draft_tokens,
                        })
                    }
                },
            },
    {
        if self.mtp.is_none() {
            return Err(MtpError::NoWeights);
        }
        let mut ops: Vec<MtpOp> = Vec::new();
        if drafts == 0 {
            proof {
                lemma_chain_keeps(self.manifest.hidden, initial_token, state.rows, drafts, ops@);
            }
            return Ok(ops);
        }
        if chained < self.manifest.hidden {
            return Err(MtpError::Scratch { required: self.manifest.hidden, actual: chained });
        }
        if draft_tokens < drafts {
            return Err(MtpError::DraftTokens { required: drafts, actual: draft_tokens });
        }
        let hidden: usize = self.manifest.hidden;
        let mut step: usize = 0;
        while step < drafts
            invariant
                step <= drafts,
                state.rows + drafts <= usize::MAX,
                hidden == self.manifest.hidden,
                ops@ == chain_ops(hidden, initial_token, state.rows as int, step as nat),
            decreases drafts - step,
        {
            let ghost before = ops@;
            if step == 0 {
                ops.push(MtpOp::SetToken(initial_token));
                ops.push(
                    MtpOp::LoadHidden { source: HiddenSource::Frontier, values: hidden },
                );
            } else {
                ops.push(
                    MtpOp::LoadHidden { source: HiddenSource::Chained, values: hidden },
                );
                ops.push(MtpOp::ChainToken);
            }
            draft_step(&mut ops, state.rows + step);
            ops.push(MtpOp::Head);
            ops.push(MtpOp::KeepToken { index: step });
            assert(ops@ =~= before + chain_step(
                hidden,
                initial_token,
                state.rows as int,
                step as int,
            ));
            step += 1;
        }
        proof {
            lemma_chain_keeps(hidden, initial_token, state.rows, drafts, ops@);
        }
        Ok(ops)
    }
}

proof fn lemma_chain_keeps(
    hidden: usize,
    token: u32,
    rows: usize,
    drafts: usize,
    ops: Seq<MtpOp>,
)
    requires
        rows + drafts <= usize::MAX,
        ops == chain_ops(hidden, token, rows as int, drafts as nat),
    ensures
        crate::qwen36::mtp_flow::keeps(
            hidden,
            rows,
            ops,
            Seq::new(
                drafts as nat,
                |step: int| crate::qwen36::mtp_flow::chained(token, step as nat),
            ),
        ),
{
    let steps = Seq::new(
        drafts as nat,
        |step: int| crate::qwen36::mtp_flow::chained(token, step as nat),
    );
    assert forall|cached: Seq<crate::qwen36::mtp_flow::Pair>| cached.len() == rows implies (
    #[trigger] crate::device::after(
        crate::qwen36::mtp_flow::block_step(hidden),
        crate::qwen36::mtp_flow::resting(cached, None),
        ops,
    )).kept == steps by {
        crate::qwen36::mtp_flow::law_draft_chain_feeds_itself(
            hidden,
            cached,
            token,
            drafts as nat,
        );
    }
}

/// Whether a draft operation adds a cache row at a position.
pub open spec fn adds_row(op: MtpOp, position: int) -> bool {
    match op {
        MtpOp::AppendKv { position: at } => at == position,
        MtpOp::Attend { position: at } => at == position,
        _ => false,
    }
}

/// Positions at which cache rows are added, in order.
pub open spec fn added_rows(ops: Seq<MtpOp>) -> Seq<usize>
    decreases ops.len(),
{
    if ops.len() == 0 {
        seq![]
    } else {
        let before = added_rows(ops.drop_last());
        match ops.last() {
            MtpOp::AppendKv { position } => before.push(position),
            MtpOp::Attend { position } => before.push(position),
            _ => before,
        }
    }
}

proof fn lemma_added_add(left: Seq<MtpOp>, right: Seq<MtpOp>)
    ensures
        added_rows(left + right) == added_rows(left) + added_rows(right),
    decreases right.len(),
{
    if right.len() == 0 {
        assert(left + right =~= left);
        assert(added_rows(left) + added_rows(right) =~= added_rows(left));
    } else {
        assert((left + right).drop_last() =~= left + right.drop_last());
        lemma_added_add(left, right.drop_last());
        assert(added_rows(left + right) =~= added_rows(left) + added_rows(right));
    }
}

proof fn lemma_nothing_added(ops: Seq<MtpOp>)
    requires
        forall|i: int|
            0 <= i < ops.len() ==> !((#[trigger] ops[i]) is AppendKv) && !(ops[i] is Attend),
    ensures
        added_rows(ops) == Seq::<usize>::empty(),
    decreases ops.len(),
{
    if ops.len() > 0 {
        lemma_nothing_added(ops.drop_last());
        assert(!(ops[ops.len() - 1] is AppendKv) && !(ops[ops.len() - 1] is Attend));
    }
}

proof fn lemma_one_added(ops: Seq<MtpOp>, at: int, position: usize)
    requires
        0 <= at < ops.len(),
        adds_row(ops[at], position as int),
        forall|i: int|
            0 <= i < ops.len() && i != at ==> !((#[trigger] ops[i]) is AppendKv) && !(ops[i]
                is Attend),
    ensures
        added_rows(ops) == seq![position],
{
    let before = ops.take(at);
    let after = ops.skip(at + 1);
    assert(ops =~= before + seq![ops[at]] + after);
    lemma_nothing_added(before);
    lemma_nothing_added(after);
    lemma_added_add(before + seq![ops[at]], after);
    lemma_added_add(before, seq![ops[at]]);
    let single = seq![ops[at]];
    assert(single.drop_last() =~= seq![]);
    reveal_with_fuel(added_rows, 2);
    assert(added_rows(single) =~= seq![position]);
    assert(added_rows(ops) =~= seq![position]);
}

/// A chain of drafts adds one cache row for each step, at consecutive positions after the rows
/// that are cached already.
pub proof fn law_chain_rows_follow_the_cache(hidden: usize, token: u32, rows: int, count: nat)
    requires
        0 <= rows,
        rows + count <= usize::MAX,
    ensures
        added_rows(chain_ops(hidden, token, rows, count)) == Seq::new(
            count,
            |i: int| (rows + i) as usize,
        ),
    decreases count,
{
    if count > 0 {
        law_chain_rows_follow_the_cache(hidden, token, rows, (count - 1) as nat);
        let before = chain_ops(hidden, token, rows, (count - 1) as nat);
        let step = chain_step(hidden, token, rows, count - 1);
        lemma_one_added(step, 8, (rows + count - 1) as usize);
        lemma_added_add(before, step);
    }
    assert(added_rows(chain_ops(hidden, token, rows, count)) =~= Seq::new(
        count,
        |i: int| (rows + i) as usize,
    ));
}

/// A warm-up adds one cache row for each token, at consecutive positions after the rows that are
/// cached already.
pub proof fn law_warmup_rows_follow_the_cache(
    hidden: usize,
    tokens: Seq<u32>,
    rows: int,
    hidden_offset: int,
    count: nat,
)
    requires
        0 <= rows,
        rows + count <= usize::MAX,
        count <= tokens.len(),
    ensures
        added_rows(warmup_ops(hidden, tokens, rows, hidden_offset, count)) == Seq::new(
            count,
            |i: int| (rows + i) as usize,
        ),
    decreases count,
{
    if count > 0 {
        law_warmup_rows_follow_the_cache(hidden, tokens, rows, hidden_offset, (count - 1) as nat);
        let before = warmup_ops(hidden, tokens, rows, hidden_offset, (count - 1) as nat);
        let row = warmup_row(hidden, tokens, rows, hidden_offset, count - 1);
        lemma_one_added(row, 9, (rows + count - 1) as usize);
        lemma_added_add(before, row);
    }
    assert(added_rows(warmup_ops(hidden, tokens, rows, hidden_offset, count)) =~= Seq::new(
        count,
        |i: int| (rows + i) as usize,
    ));
}

/// Tensors of the draft block, in the order in which they are loaded. Projections are named
/// without the suffix of their storage format.
pub open spec fn mtp_tensors(manifest: QwenModelManifest) -> Seq<(Seq<char>, Seq<usize>)> {
    let hidden = manifest.hidden;
    let inner = manifest.intermediate;
    let query = (manifest.q_heads * manifest.head_dim) as usize;
    let kv = (manifest.kv_heads * manifest.head_dim) as usize;
    seq![
        ("mtp.layers.0.self_attn.q_proj"@, seq![(query * 2) as usize, hidden]),
        ("mtp.layers.0.self_attn.k_proj"@, seq![kv, hidden]),
        ("mtp.layers.0.self_attn.v_proj"@, seq![kv, hidden]),
        ("mtp.layers.0.self_attn.o_proj"@, seq![hidden, query]),
        ("mtp.layers.0.self_attn.q_norm.weight"@, seq![manifest.head_dim]),
        ("mtp.layers.0.self_attn.k_norm.weight"@, seq![manifest.head_dim]),
        ("mtp.layers.0.mlp.gate_proj.weight"@, seq![inner, hidden]),
        ("mtp.layers.0.mlp.up_proj.weight"@, seq![inner, hidden]),
        ("mtp.layers.0.mlp.down_proj.weight"@, seq![hidden, inner]),
        ("mtp.pre_fc_norm_embedding.weight"@, seq![hidden]),
        ("mtp.pre_fc_norm_hidden.weight"@, seq![hidden]),
        ("mtp.fc.weight"@, seq![hidden, (2 * hidden) as usize]),
        ("mtp.layers.0.input_layernorm.weight"@, seq![hidden]),
        ("mtp.layers.0.post_attention_layernorm.weight"@, seq![hidden]),
        ("mtp.norm.weight"@, seq![hidden]),
    ]
}

fn push_projections(tensors: &mut Vec<TensorSpec>, manifest: &QwenModelManifest)
    requires
        manifest.q_heads * manifest.head_dim * 2 <= usize::MAX,
        manifest.q_heads * manifest.head_dim <= usize::MAX,
        manifest.kv_heads * manifest.head_dim <= usize::MAX,
        old(tensors)@.len() == 0,
    ensures
        crate::tensors::tensor_views(final(tensors)@) == mtp_tensors(*manifest).take(6),
{
    let hidden: usize = manifest.hidden;
    let query: usize = manifest.q_heads * manifest.head_dim;
    let kv: usize = manifest.kv_heads * manifest.head_dim;
    push_tensor(
        tensors,
        String::from_str("mtp.layers.0.self_attn.q_proj"),
        matrix(query * 2, hidden),
    );
    push_tensor(tensors, String::from_str("mtp.layers.0.self_attn.k_proj"), matrix(kv, hidden));
    push_tensor(tensors, String::from_str("mtp.layers.0.self_attn.v_proj"), matrix(kv, hidden));
    push_tensor(tensors, String::from_str("mtp.layers.0.self_attn.o_proj"), matrix(hidden, query));
    push_tensor(
        tensors,
        String::from_str("mtp.layers.0.self_attn.q_norm.weight"),
        vector(manifest.head_dim),
    );
    push_tensor(
        tensors,
        String::from_str("mtp.layers.0.self_attn.k_norm.weight"),
        vector(manifest.head_dim),
    );
    assert(crate::tensors::tensor_views(tensors@) =~= mtp_tensors(*manifest).take(6));
}

/// Lists the tensors of the draft block.
pub fn load_mtp(manifest: &QwenModelManifest) -> (tensors: Vec<TensorSpec>)
    requires
        manifest.q_heads * manifest.head_dim * 2 <= usize::MAX,
        manifest.q_heads * manifest.head_dim <= usize::MAX,
        manifest.kv_heads * manifest.head_dim <= usize::MAX,
        2 * manifest.hidden <= usize::MAX,
    ensures
        crate::tensors::tensor_views(tensors@) == mtp_tensors(*manifest),
{
    let hidden: usize = manifest.hidden;
    let inner: usize = manifest.intermediate;
    let mut tensors: Vec<TensorSpec> = Vec::new();
    push_projections(&mut tensors, manifest);
    push_tensor(
        &mut tensors,
        String::from_str("mtp.layers.0.mlp.gate_proj.weight"),
        matrix(inner, hidden),
    );
    push_tensor(
        &mut tensors,
        String::from_str("mtp.layers.0.mlp.up_proj.weight"),
        matrix(inner, hidden),
    );
    push_tensor(
        &mut tensors,
        String::from_str("mtp.layers.0.mlp.down_proj.weight"),
        matrix(hidden, inner),
    );
    push_tensor(
        &mut tensors,
        String::from_str("mtp.pre_fc_norm_embedding.weight"),
        vector(hidden),
    );
    push_tensor(
        &mut tensors,
        String::from_str("mtp.pre_fc_norm_hidden.weight"),
        vector(hidden),
    );
    push_tensor(&mut tensors, String::from_str("mtp.fc.weight"), matrix(hidden, 2 * hidden));
    push_tensor(
        &mut tensors,
        String::from_str("mtp.layers.0.input_layernorm.weight"),
        vector(hidden),
    );
    push_tensor(
        &mut tensors,
        String::from_str("mtp.layers.0.post_attention_layernorm.weight"),
        vector(hidden),
    );
    push_tensor(&mut tensors, String::from_str("mtp.norm.weight"), vector(hidden));
    assert(crate::tensors::tensor_views(tensors@) =~= mtp_tensors(*manifest));
    tensors
}

} // verus!
