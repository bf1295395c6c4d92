//! What the operations of the draft block leave in its buffers.

use crate::qwen36::mtp::{HiddenSource, MtpOp};
use vstd::prelude::*;

verus! {

/// A token or a state that a draft step takes.
pub enum Taken {
    /// A token that was set.
    Token(u32),
    /// A state from outside the block.
    State(HiddenSource),
    /// The token that the head selected behind a draft step.
    Selected(Box<Pair>),
    /// The state that a draft step left.
    Output(Box<Pair>),
}

/// A token, with the state that produced it. A draft step is known by the pair that it took.
pub struct Pair {
    /// Token.
    pub token: Taken,
    /// State.
    pub state: Taken,
}

/// Pair of each step of a chain of drafts: the first takes the frontier, and every other one the
/// token that was selected behind the step before, with the state which that step left.
pub open spec fn chained(token: u32, step: nat) -> Pair
    decreases step,
{
    if step == 0 {
        Pair { token: Taken::Token(token), state: Taken::State(HiddenSource::Frontier) }
    } else {
        let before = chained(token, (step - 1) as nat);
        Pair { token: Taken::Selected(Box::new(before)), state: Taken::Output(Box::new(before)) }
    }
}

/// Buffers of the draft block. Each one is known by the pair that it was computed from.
pub struct MtpDevice {
    /// Every operation so far found its inputs ready.
    pub sound: bool,
    /// Token.
    pub token: Option<Taken>,
    /// State.
    pub state: Option<Taken>,
    /// Embedding of the token.
    pub embedded: Option<Taken>,
    /// Normalised embedding.
    pub normed_embedding: Option<Taken>,
    /// Normalised state.
    pub normed_state: Option<Taken>,
    /// Embedding and state, side by side.
    pub joined: Option<Pair>,
    /// Projected pair.
    pub projected: Option<Pair>,
    /// Normalised projection.
    pub input: Option<Pair>,
    /// Keys and values.
    pub prepared: Option<Pair>,
    /// Position of those keys and values.
    pub prepared_at: int,
    /// Cached pairs, in the order of their positions.
    pub cached: Seq<Pair>,
    /// Attention output.
    pub attended: Option<Pair>,
    /// Projected pair with the attention output.
    pub residual: Option<Pair>,
    /// Whether that sum was rounded.
    pub residual_rounded: bool,
    /// Normalised sum.
    pub normed: Option<Pair>,
    /// Gates and values.
    pub gate_up: Option<Pair>,
    /// Activated values.
    pub activated: Option<Pair>,
    /// Output of the feed-forward block.
    pub down: Option<Pair>,
    /// Sum with that output.
    pub block: Option<Pair>,
    /// Whether that sum was rounded.
    pub block_rounded: bool,
    /// State that the step leaves.
    pub output: Option<Pair>,
    /// Whether that state was rounded.
    pub output_rounded: bool,
    /// Step behind which the head selected a token.
    pub selected: Option<Pair>,
    /// Steps whose selected tokens were kept, in order.
    pub kept: Seq<Pair>,
}

/// Buffers with some cached pairs and a state at hand.
pub open spec fn resting(cached: Seq<Pair>, state: Option<Taken>) -> MtpDevice {
    MtpDevice {
        sound: true,
        token: None,
        state,
        embedded: None,
        normed_embedding: None,
        normed_state: None,
        joined: None,
        projected: None,
        input: None,
        prepared: None,
        prepared_at: 0,
        cached,
        attended: None,
        residual: None,
        residual_rounded: false,
        normed: None,
        gate_up: None,
        activated: None,
        down: None,
        block: None,
        block_rounded: false,
        output: None,
        output_rounded: false,
        selected: None,
        kept: seq![],
    }
}

impl MtpDevice {
    /// Effect of an operation up to the cached pair.
    pub open spec fn input_performed(self, hidden: usize, op: MtpOp) -> MtpDevice {
        match op {
            MtpOp::SetToken(token) => MtpDevice { token: Some(Taken::Token(token)), ..self },
            MtpOp::ChainToken => MtpDevice {
                sound: self.sound && self.selected is Some,
                token: Some(Taken::Selected(Box::new(self.selected->0))),
                ..self
            },
            MtpOp::LoadHidden { source, values } => MtpDevice {
                sound: self.sound && values == hidden && (source is Chained ==> self.output is Some
                    && self.output_rounded),
                state: Some(
                    if source is Chained {
                        Taken::Output(Box::new(self.output->0))
                    } else {
                        Taken::State(source)
                    },
                ),
                ..self
            },
            MtpOp::Gather => MtpDevice {
                sound: self.sound && self.token is Some,
                embedded: self.token,
                ..self
            },
            MtpOp::EmbeddingNorm => MtpDevice {
                sound: self.sound && self.embedded is Some,
                normed_embedding: self.embedded,
                ..self
            },
            MtpOp::HiddenNorm => MtpDevice {
                sound: self.sound && self.state is Some,
                normed_state: self.state,
                ..self
            },
            MtpOp::Concat => MtpDevice {
                sound: self.sound && self.normed_embedding is Some && self.normed_state is Some,
                joined: Some(
                    Pair { token: self.normed_embedding->0, state: self.normed_state->0 },
                ),
                ..self
            },
            MtpOp::Fuse => MtpDevice {
                sound: self.sound && self.joined is Some,
                projected: self.joined,
                ..self
            },
            MtpOp::InputNorm => MtpDevice {
                sound: self.sound && self.projected is Some,
                input: self.projected,
                ..self
            },
            MtpOp::PrepareKv { position } => MtpDevice {
                sound: self.sound && self.input is Some,
                prepared: self.input,
                prepared_at: position as int,
                ..self
            },
            MtpOp::AppendKv { position } => MtpDevice {
                sound: self.sound && self.prepared is Some && self.prepared_at == position
                    && position == self.cached.len(),
                cached: self.cached.push(self.prepared->0),
                ..self
            },
            _ => MtpDevice { sound: false, ..self },
        }
    }

    /// Effect of an operation from attention on.
    pub open spec fn block_performed(self, op: MtpOp) -> MtpDevice {
        match op {
            MtpOp::Attend { position } => MtpDevice {
                sound: self.sound && self.input is Some && position == self.cached.len(),
                cached: self.cached.push(self.input->0),
                attended: self.input,
                ..self
            },
            MtpOp::AddAttention => MtpDevice {
                sound: self.sound && self.attended is Some && self.projected == self.attended,
                residual: self.attended,
                residual_rounded: false,
                ..self
            },
            MtpOp::RoundAttention => MtpDevice {
                sound: self.sound && self.residual is Some,
                residual_rounded: true,
                ..self
            },
            MtpOp::PostNorm => MtpDevice {
                sound: self.sound && self.residual is Some && self.residual_rounded,
                normed: self.residual,
                ..self
            },
            MtpOp::GateUp => MtpDevice {
                sound: self.sound && self.normed is Some,
                gate_up: self.normed,
                ..self
            },
            MtpOp::Silu => MtpDevice {
                sound: self.sound && self.gate_up is Some,
                activated: self.gate_up,
                ..self
            },
            MtpOp::Down => MtpDevice {
                sound: self.sound && self.activated is Some,
                down: self.activated,
                ..self
            },
            MtpOp::AddBlock => MtpDevice {
                sound: self.sound && self.down is Some && self.residual == self.down
                    && self.residual_rounded,
                block: self.down,
                block_rounded: false,
                ..self
            },
            MtpOp::RoundBlock => MtpDevice {
                sound: self.sound && self.block is Some,
                block_rounded: true,
                ..self
            },
            MtpOp::FinalNorm => MtpDevice {
                sound: self.sound && self.block is Some && self.block_rounded,
                output: self.block,
                output_rounded: false,
                ..self
            },
            MtpOp::RoundFinal => MtpDevice {
                sound: self.sound && self.output is Some,
                output_rounded: true,
                ..self
            },
            MtpOp::Head => MtpDevice {
                sound: self.sound && self.output is Some && self.output_rounded,
                selected: self.output,
                ..self
            },
            MtpOp::KeepToken { index } => MtpDevice {
                sound: self.sound && self.selected is Some && index == self.kept.len(),
                kept: self.kept.push(self.selected->0),
                ..self
            },
            _ => MtpDevice { sound: false, ..self },
        }
    }

    /// What one operation leaves, of a block of width `hidden`.
    pub open spec fn performed(self, hidden: usize, op: MtpOp) -> MtpDevice {
        match op {
            MtpOp::SetToken(_) => self.input_performed(hidden, op),
            MtpOp::ChainToken => self.input_performed(hidden, op),
            MtpOp::LoadHidden { .. } => self.input_performed(hidden, op),
            MtpOp::Gather => self.input_performed(hidden, op),
            MtpOp::EmbeddingNorm => self.input_performed(hidden, op),
            MtpOp::HiddenNorm => self.input_performed(hidden, op),
            MtpOp::Concat => self.input_performed(hidden, op),
            MtpOp::Fuse => self.input_performed(hidden, op),
            MtpOp::InputNorm => self.input_performed(hidden, op),
            MtpOp::PrepareKv { .. } => self.input_performed(hidden, op),
            MtpOp::AppendKv { .. } => self.input_performed(hidden, op),
            _ => self.block_performed(op),
        }
    }

    /// Buffers with the projection of a pair.
    pub open spec fn with_input(self, pair: Pair) -> MtpDevice {
        MtpDevice {
            embedded: Some(pair.token),
            normed_embedding: Some(pair.token),
            normed_state: Some(pair.state),
            joined: Some(pair),
            projected: Some(pair),
            input: Some(pair),
            ..self
        }
    }

    /// Buffers after a draft step on a pair.
    pub open spec fn with_step(self, pair: Pair) -> MtpDevice {
        MtpDevice {
            cached: self.cached.push(pair),
            attended: Some(pair),
            residual: Some(pair),
            residual_rounded: true,
            normed: Some(pair),
            gate_up: Some(pair),
            activated: Some(pair),
            down: Some(pair),
            block: Some(pair),
            block_rounded: true,
            output: Some(pair),
            output_rounded: true,
            ..self.with_input(pair)
        }
    }
}

/// What the operations of the draft block do.
pub open spec fn block_step(hidden: usize) -> spec_fn(MtpDevice, MtpOp) -> MtpDevice {
    |device: MtpDevice, op: MtpOp| device.performed(hidden, op)
}

#[verifier::rlimit(40)]
proof fn lemma_input(hidden: usize, before: MtpDevice, pair: Pair)
    requires
        before.sound,
        before.token == Some(pair.token),
        before.state == Some(pair.state),
    ensures
        crate::device::after(block_step(hidden), before, crate::qwen36::mtp::input_ops())
            == before.with_input(pair),
{
    let step = block_step(hidden);
    let ops = crate::qwen36::mtp::input_ops();
    crate::device::lemma_after_six(step, before, ops);
    let d1 = step(before, ops[0]);
    assert(d1 == MtpDevice { embedded: Some(pair.token), ..before });
    let d2 = step(d1, ops[1]);
    assert(d2 == MtpDevice { normed_embedding: Some(pair.token), ..d1 });
    let d3 = step(d2, ops[2]);
    assert(d3 == MtpDevice { normed_state: Some(pair.state), ..d2 });
    let d4 = step(d3, ops[3]);
    assert(d4 == MtpDevice { joined: Some(pair), ..d3 });
    let d5 = step(d4, ops[4]);
    assert(d5 == MtpDevice { projected: Some(pair), ..d4 });
    let d6 = step(d5, ops[5]);
    assert(d6 == MtpDevice { input: Some(pair), ..d5 });
}

#[verifier::rlimit(40)]
proof fn lemma_append(hidden: usize, before: MtpDevice, pair: Pair, position: usize)
    requires
        before.sound,
        before.token == Some(pair.token),
        before.state == Some(pair.state),
        position == before.cached.len(),
    ensures
        crate::device::after(
            block_step(hidden),
            before,
            crate::qwen36::mtp::append_ops(position),
        ) == (MtpDevice {
            prepared: Some(pair),
            prepared_at: position as int,
            cached: before.cached.push(pair),
            ..before.with_input(pair)
        }),
{
    let step = block_step(hidden);
    let ops = crate::qwen36::mtp::append_ops(position);
    let first = crate::qwen36::mtp::input_ops();
    let last = seq![MtpOp::PrepareKv { position }, MtpOp::AppendKv { position }];
    assert(ops =~= first + last);
    lemma_input(hidden, before, pair);
    crate::device::lemma_after_both(step, before, first, last);
    let ready = before.with_input(pair);
    crate::device::lemma_after_two(step, ready, last);
    let d1 = step(ready, last[0]);
    assert(d1 == MtpDevice { prepared: Some(pair), prepared_at: position as int, ..ready });
}

#[verifier::rlimit(40)]
proof fn lemma_attended(hidden: usize, ready: MtpDevice, pair: Pair, ops: Seq<MtpOp>)
    requires
        ready.sound,
        ready.input == Some(pair),
        ready.projected == Some(pair),
        ready.cached.len() <= usize::MAX,
        ops == seq![
            MtpOp::Attend { position: ready.cached.len() as usize },
            MtpOp::AddAttention,
            MtpOp::RoundAttention,
            MtpOp::PostNorm,
        ],
    ensures
        crate::device::after(block_step(hidden), ready, ops) == (MtpDevice {
            cached: ready.cached.push(pair),
            attended: Some(pair),
            residual: Some(pair),
            residual_rounded: true,
            normed: Some(pair),
            ..ready
        }),
{
    let step = block_step(hidden);
    crate::device::lemma_after_four(step, ready, ops);
    let d1 = step(ready, ops[0]);
    assert(d1 == MtpDevice {
        cached: ready.cached.push(pair),
        attended: Some(pair),
        ..ready
    });
    let d2 = step(d1, ops[1]);
    assert(d2 == MtpDevice { residual: Some(pair), residual_rounded: false, ..d1 });
    let d3 = step(d2, ops[2]);
    assert(d3 == MtpDevice { residual_rounded: true, ..d2 });
}

#[verifier::rlimit(40)]
proof fn lemma_fed(hidden: usize, ready: MtpDevice, pair: Pair, ops: Seq<MtpOp>)
    requires
        ready.sound,
        ready.normed == Some(pair),
        ready.residual == Some(pair),
        ready.residual_rounded,
        ops == seq![
            MtpOp::GateUp,
            MtpOp::Silu,
            MtpOp::Down,
            MtpOp::AddBlock,
            MtpOp::RoundBlock,
            MtpOp::FinalNorm,
            MtpOp::RoundFinal,
        ],
    ensures
        crate::device::after(block_step(hidden), ready, ops) == (MtpDevice {
            gate_up: Some(pair),
            activated: Some(pair),
            down: Some(pair),
            block: Some(pair),
            block_rounded: true,
            output: Some(pair),
            output_rounded: true,
            ..ready
        }),
{
    let step = block_step(hidden);
    crate::device::lemma_after_seven(step, ready, ops);
    let d1 = step(ready, ops[0]);
    assert(d1 == MtpDevice { gate_up: Some(pair), ..ready });
    let d2 = step(d1, ops[1]);
    assert(d2 == MtpDevice { activated: Some(pair), ..d1 });
    let d3 = step(d2, ops[2]);
    assert(d3 == MtpDevice { down: Some(pair), ..d2 });
    let d4 = step(d3, ops[3]);
    assert(d4 == MtpDevice { block: Some(pair), block_rounded: false, ..d3 });
    let d5 = step(d4, ops[4]);
    assert(d5 == MtpDevice { block_rounded: true, ..d4 });
    let d6 = step(d5, ops[5]);
    assert(d6 == MtpDevice { output: Some(pair), output_rounded: false, ..d5 });
}

#[verifier::rlimit(40)]
proof fn lemma_step(hidden: usize, before: MtpDevice, pair: Pair, position: usize)
    requires
        before.sound,
        before.token == Some(pair.token),
        before.state == Some(pair.state),
        position == before.cached.len(),
    ensures
        crate::device::after(block_step(hidden), before, crate::qwen36::mtp::step_ops(position))
            == before.with_step(pair),
{
    let step = block_step(hidden);
    let ops = crate::qwen36::mtp::step_ops(position);
    let first = crate::qwen36::mtp::input_ops();
    let middle = seq![
        MtpOp::Attend { position },
        MtpOp::AddAttention,
        MtpOp::RoundAttention,
        MtpOp::PostNorm,
    ];
    let last = seq![
        MtpOp::GateUp,
        MtpOp::Silu,
        MtpOp::Down,
        MtpOp::AddBlock,
        MtpOp::RoundBlock,
        MtpOp::FinalNorm,
        MtpOp::RoundFinal,
    ];
    assert(ops =~= first + middle + last);
    crate::device::lemma_after_both(step, before, first + middle, last);
    crate::device::lemma_after_both(step, before, first, middle);
    lemma_input(hidden, before, pair);
    let ready = before.with_input(pair);
    lemma_attended(hidden, ready, pair, middle);
    lemma_fed(hidden, crate::device::after(step, ready, middle), pair, last);
}

/// Whether operations on a block with `rows` cached pairs cache these pairs behind them.
pub open spec fn caches(hidden: usize, rows: usize, ops: Seq<MtpOp>, pairs: Seq<Pair>) -> bool {
    forall|cached: Seq<Pair>|
        cached.len() == rows ==> {
            let device = #[trigger] crate::device::after(
                block_step(hidden),
                resting(cached, None),
                ops,
            );
            device.sound && device.cached == cached + pairs
        }
}

/// Whether operations on a block with `rows` cached pairs keep a token for each of these steps.
pub open spec fn keeps(hidden: usize, rows: usize, ops: Seq<MtpOp>, steps: Seq<Pair>) -> bool {
    forall|cached: Seq<Pair>|
        cached.len() == rows ==> (#[trigger] crate::device::after(
            block_step(hidden),
            resting(cached, None),
            ops,
        )).kept == steps
}

/// Whether operations on a block with `rows` cached pairs cache a token behind them, paired with
/// the state at hand.
pub open spec fn commits(hidden: usize, rows: usize, ops: Seq<MtpOp>, token: u32) -> bool {
    forall|cached: Seq<Pair>, state: Taken|
        cached.len() == rows ==> {
            let device = #[trigger] crate::device::after(
                block_step(hidden),
                resting(cached, Some(state)),
                ops,
            );
            device.sound && device.cached == cached.push(Pair { token: Taken::Token(token), state })
        }
}

/// An appended token is cached behind what was cached before, paired with the state at hand.
#[verifier::rlimit(40)]
pub proof fn law_committed_token_is_cached_with_its_state(
    hidden: usize,
    cached: Seq<Pair>,
    state: Taken,
    token: u32,
)
    requires
        cached.len() <= usize::MAX,
    ensures
        ({
            let device = crate::device::after(
                block_step(hidden),
                resting(cached, Some(state)),
                seq![MtpOp::SetToken(token)] + crate::qwen36::mtp::append_ops(
                    cached.len() as usize,
                ),
            );
            &&& device.sound
            &&& device.cached == cached.push(Pair { token: Taken::Token(token), state })
        }),
{
    let step = block_step(hidden);
    let start = resting(cached, Some(state));
    let first = seq![MtpOp::SetToken(token)];
    let last = crate::qwen36::mtp::append_ops(cached.len() as usize);
    crate::device::lemma_after_both(step, start, first, last);
    crate::device::lemma_after_one(step, start, first);
    let set = step(start, first[0]);
    assert(set == MtpDevice { token: Some(Taken::Token(token)), ..start });
    lemma_append(hidden, set, Pair { token: Taken::Token(token), state }, cached.len() as usize);
}

/// Pair of the token at a row of a prompt chunk: the state goes with the position before, which
/// is the given one for the first token, and the target's own row for every other one.
pub open spec fn warmed(hidden: usize, tokens: Seq<u32>, offset: int, row: int) -> Pair {
    Pair {
        token: Taken::Token(tokens[row]),
        state: Taken::State(
            if row == 0 {
                HiddenSource::Initial
            } else {
                HiddenSource::TargetRow((offset + (row - 1) * hidden) as usize)
            },
        ),
    }
}

/// A warm-up caches every token of a prompt chunk once and in order, behind what was cached
/// before, each paired with the target state of the position before it.
#[verifier::rlimit(40)]
pub proof fn law_warmup_pairs_tokens_with_states_before_them(
    hidden: usize,
    cached: Seq<Pair>,
    tokens: Seq<u32>,
    offset: int,
    count: nat,
)
    requires
        count <= tokens.len(),
        cached.len() + tokens.len() <= usize::MAX,
    ensures
        ({
            let device = crate::device::after(
                block_step(hidden),
                resting(cached, None),
                crate::qwen36::mtp::warmup_ops(
                    hidden,
                    tokens,
                    cached.len() as int,
                    offset,
                    count,
                ),
            );
            &&& device.sound
            &&& device.cached == cached + Seq::new(
                count,
                |row: int| warmed(hidden, tokens, offset, row),
            )
        }),
    decreases count,
{
    let step = block_step(hidden);
    let start = resting(cached, None);
    let rows = cached.len() as int;
    let all = Seq::new(count, |row: int| warmed(hidden, tokens, offset, row));
    if count > 0 {
        let row = count - 1;
        law_warmup_pairs_tokens_with_states_before_them(
            hidden,
            cached,
            tokens,
            offset,
            row as nat,
        );
        let before = Seq::new(row as nat, |row: int| warmed(hidden, tokens, offset, row));
        let ops = crate::qwen36::mtp::warmup_ops(hidden, tokens, rows, offset, row as nat);
        let more = crate::qwen36::mtp::warmup_row(hidden, tokens, rows, offset, row);
        let device = crate::device::after(step, start, ops);
        crate::device::lemma_after_both(step, start, ops, more);
        let first = more.subrange(0, 2);
        let last = crate::qwen36::mtp::append_ops((rows + row) as usize);
        assert(more =~= first + last);
        crate::device::lemma_after_both(step, device, first, last);
        crate::device::lemma_after_two(step, device, first);
        let pair = warmed(hidden, tokens, offset, row);
        let d1 = step(device, first[0]);
        assert(d1 == MtpDevice { token: Some(pair.token), ..device });
        let d2 = step(d1, first[1]);
        assert(d2 == MtpDevice { state: Some(pair.state), ..d1 });
        lemma_append(hidden, d2, pair, (rows + row) as usize);
        assert(all =~= before.push(pair));
        assert(cached + all =~= (cached + before).push(pair));
    } else {
        assert(cached + all =~= cached);
    }
}

/// A chain of drafts runs as a whole: each step takes the token and the state of the step before
/// it, is cached at its own position, and its token is kept at its own place.
#[verifier::rlimit(40)]
pub proof fn law_draft_chain_feeds_itself(
    hidden: usize,
    cached: Seq<Pair>,
    token: u32,
    count: nat,
)
    requires
        cached.len() + count <= usize::MAX,
    ensures
        ({
            let device = crate::device::after(
                block_step(hidden),
                resting(cached, None),
                crate::qwen36::mtp::chain_ops(hidden, token, cached.len() as int, count),
            );
            let steps = Seq::new(count, |step: int| chained(token, step as nat));
            &&& device.sound
            &&& device.cached == cached + steps
            &&& device.kept == steps
            &&& count > 0 ==> {
                &&& device.output == Some(chained(token, (count - 1) as nat))
                &&& device.output_rounded
                &&& device.selected == device.output
            }
        }),
    decreases count,
{
    let step = block_step(hidden);
    let start = resting(cached, None);
    let rows = cached.len() as int;
    let all = Seq::new(count, |step: int| chained(token, step as nat));
    if count > 0 {
        let at = count - 1;
        law_draft_chain_feeds_itself(hidden, cached, token, at as nat);
        let before = Seq::new(at as nat, |step: int| chained(token, step as nat));
        let ops = crate::qwen36::mtp::chain_ops(hidden, token, rows, at as nat);
        let more = crate::qwen36::mtp::chain_step(hidden, token, rows, at);
        let device = crate::device::after(step, start, ops);
        crate::device::lemma_after_both(step, start, ops, more);
        let first = more.subrange(0, 2);
        let middle = crate::qwen36::mtp::step_ops((rows + at) as usize);
        let last = seq![MtpOp::Head, MtpOp::KeepToken { index: at as usize }];
        assert(more =~= first + middle + last);
        crate::device::lemma_after_both(step, device, first + middle, last);
        crate::device::lemma_after_both(step, device, first, middle);
        crate::device::lemma_after_two(step, device, first);
        let pair = chained(token, at as nat);
        let d1 = step(device, first[0]);
        let d2 = step(d1, first[1]);
        assert(d2 == MtpDevice { token: Some(pair.token), state: Some(pair.state), ..device });
        lemma_step(hidden, d2, pair, (rows + at) as usize);
        let d3 = d2.with_step(pair);
        crate::device::lemma_after_two(step, d3, last);
        let d4 = step(d3, last[0]);
        assert(d4 == MtpDevice { selected: Some(pair), ..d3 });
        assert(all =~= before.push(pair));
        assert(cached + all =~= (cached + before).push(pair));
    } else {
        assert(cached + all =~= cached);
        assert(all =~= seq![]);
    }
}

} // verus!
