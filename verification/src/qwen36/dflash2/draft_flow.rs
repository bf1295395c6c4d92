//! What the operations of a proposal leave in the buffers of the companion.

use crate::qwen36::dflash2::config::DFlash2Config;
use crate::qwen36::dflash2::draft::{DraftOp, Qwen38DFlash2};
use crate::qwen36::dflash2::sequence::{Qwen38DFlash2SequenceState, DFLASH2_BLOCK_ROWS};
use crate::qwen36::linear::{Linear, Storage};
use vstd::prelude::*;

verus! {

/// What the residual stream holds: the embedded block, and every update of it in order.
pub enum Residual {
    /// The embeddings of the block.
    Embedded,
    /// With the output of attention, or of a feed-forward block, that was computed from this
    /// very stream.
    After(Box<Residual>, int, bool),
}

/// Residual stream behind the first `count` layers: each layer adds its attention and then its
/// feed-forward block.
pub open spec fn layered(count: nat) -> Residual
    decreases count,
{
    if count == 0 {
        Residual::Embedded
    } else {
        let layer = count - 1;
        Residual::After(
            Box::new(Residual::After(Box::new(layered(layer as nat)), layer, false)),
            layer,
            true,
        )
    }
}

/// What a buffer holds. A flag tells feed-forward blocks from attention.
pub enum Held {
    /// Nothing of this proposal.
    Nothing,
    /// A residual stream.
    Stream(Residual),
    /// The stream, normalised for a half of a layer.
    Normed(int, bool),
    /// Convolution coefficients of a half of a layer.
    Coefficients(int, bool),
    /// Convolved input of a half of a layer.
    Input(int, bool),
    /// Queries.
    Query(int),
    /// Keys.
    Key(int),
    /// Values.
    Value(int),
    /// Normalised queries.
    NormedQuery(int),
    /// Normalised keys.
    NormedKey(int),
    /// Queries, rotated from a position on.
    RotatedQuery(int, int),
    /// Keys, rotated from a position on.
    RotatedKey(int, int),
    /// Attention output.
    Attended(int),
    /// Projected output of a half of a layer.
    Output(int, bool),
    /// Convolved output of a half of a layer.
    Increment(int, bool),
    /// Gates and values of a feed-forward block.
    GateUp(int),
    /// Activated values of a feed-forward block.
    Activated(int),
    /// The stream, normalised for the head.
    Final(Residual),
}

/// What a proposal is about.
pub struct DraftFrame {
    /// Configuration.
    pub config: DFlash2Config,
    /// Tokens that the window has seen.
    pub position: int,
    /// Rows that the window of each layer holds.
    pub cached: Seq<usize>,
    /// Draft tokens.
    pub drafts: int,
    /// Head of the target.
    pub head: Linear,
}

/// Buffers of the companion, which several operations share.
pub struct DraftDevice {
    /// Every operation so far found its inputs in the buffers that it reads, and took all rows.
    pub sound: bool,
    /// Residual stream.
    pub hidden: Held,
    /// Normalised stream, or the sum that replaces the stream.
    pub normalized: Held,
    /// Convolution coefficients.
    pub coefficients: Held,
    /// Convolution output.
    pub convolved: Held,
    /// Queries.
    pub query: Held,
    /// Keys.
    pub key: Held,
    /// Values.
    pub value: Held,
    /// Normalised queries, then the attention output.
    pub attention: Held,
    /// Normalised keys, then a projected output.
    pub update: Held,
    /// Gates and values.
    pub gate_up: Held,
    /// Activated values.
    pub activated: Held,
    /// Streams of the masked positions, normalised.
    pub sample: Option<Residual>,
    /// Whether those rows were quantised for the head.
    pub quantised: bool,
    /// Logits of those rows.
    pub logits: bool,
    /// Projected rows of the selector.
    pub projected: bool,
    /// Whether they were copied to the host.
    pub copied: bool,
    /// Candidates of every row.
    pub candidates: bool,
}

/// Buffers before the first operation of a proposal.
pub open spec fn idle() -> DraftDevice {
    DraftDevice {
        sound: true,
        hidden: Held::Nothing,
        normalized: Held::Nothing,
        coefficients: Held::Nothing,
        convolved: Held::Nothing,
        query: Held::Nothing,
        key: Held::Nothing,
        value: Held::Nothing,
        attention: Held::Nothing,
        update: Held::Nothing,
        gate_up: Held::Nothing,
        activated: Held::Nothing,
        sample: None,
        quantised: false,
        logits: false,
        projected: false,
        copied: false,
        candidates: false,
    }
}

impl DraftFrame {
    /// Rows of the block.
    pub open spec fn rows(self) -> int {
        self.drafts + 1
    }
}

impl DraftDevice {
    /// What an operation of attention leaves.
    pub open spec fn attention_half(self, frame: DraftFrame, op: DraftOp) -> DraftDevice {
        let config = frame.config;
        let all = frame.rows();
        match op {
            DraftOp::Query { layer, rows } => DraftDevice {
                sound: self.sound && self.convolved == Held::Input(layer as int, false) && rows
                    == all,
                query: Held::Query(layer as int),
                ..self
            },
            DraftOp::Key { layer, rows } => DraftDevice {
                sound: self.sound && self.convolved == Held::Input(layer as int, false) && rows
                    == all,
                key: Held::Key(layer as int),
                ..self
            },
            DraftOp::Value { layer, rows } => DraftDevice {
                sound: self.sound && self.convolved == Held::Input(layer as int, false) && rows
                    == all,
                value: Held::Value(layer as int),
                ..self
            },
            DraftOp::QueryNorm { layer, rows } => DraftDevice {
                sound: self.sound && self.query == Held::Query(layer as int) && rows == all
                    * config.heads,
                attention: Held::NormedQuery(layer as int),
                ..self
            },
            DraftOp::KeyNorm { layer, rows } => DraftDevice {
                sound: self.sound && self.key == Held::Key(layer as int) && rows == all
                    * config.kv_heads,
                update: Held::NormedKey(layer as int),
                ..self
            },
            DraftOp::QueryRope { layer, rows, position } => DraftDevice {
                sound: self.sound && self.attention == Held::NormedQuery(layer as int) && rows
                    == all,
                query: Held::RotatedQuery(layer as int, position as int),
                ..self
            },
            DraftOp::KeyRope { layer, rows, position } => DraftDevice {
                sound: self.sound && self.update == Held::NormedKey(layer as int) && rows == all,
                key: Held::RotatedKey(layer as int, position as int),
                ..self
            },
            DraftOp::Attend { layer, position, cached, rows } => DraftDevice {
                sound: self.sound && position == frame.position && self.query
                    == Held::RotatedQuery(layer as int, frame.position) && self.key
                    == Held::RotatedKey(layer as int, frame.position) && self.value
                    == Held::Value(layer as int) && rows == all && layer < frame.cached.len()
                    && cached == frame.cached[layer as int],
                attention: Held::Attended(layer as int),
                ..self
            },
            DraftOp::Output { layer, rows } => DraftDevice {
                sound: self.sound && self.attention == Held::Attended(layer as int) && rows
                    == all,
                update: Held::Output(layer as int, false),
                ..self
            },
            _ => self,
        }
    }

    /// What an operation that both halves of a layer have leaves, or one of a feed-forward block.
    pub open spec fn shared_half(self, frame: DraftFrame, op: DraftOp) -> DraftDevice {
        let config = frame.config;
        let all = frame.rows();
        match op {
            DraftOp::InputNorm { layer, rows } => DraftDevice {
                sound: self.sound && self.hidden is Stream && rows == all,
                normalized: Held::Normed(layer as int, false),
                ..self
            },
            DraftOp::PostNorm { layer, rows } => DraftDevice {
                sound: self.sound && self.hidden is Stream && rows == all,
                normalized: Held::Normed(layer as int, true),
                ..self
            },
            DraftOp::ConvProject { layer, mlp, rows } => DraftDevice {
                sound: self.sound && self.normalized == Held::Normed(layer as int, mlp) && rows
                    == all,
                coefficients: Held::Coefficients(layer as int, mlp),
                ..self
            },
            DraftOp::Conv { layer, mlp, output, rows, groups } => DraftDevice {
                sound: self.sound && self.coefficients == Held::Coefficients(layer as int, mlp)
                    && rows == all && groups * config.conv_group_size <= config.hidden < (groups
                    + 1) * config.conv_group_size && if output {
                    self.update == Held::Output(layer as int, mlp)
                } else {
                    self.normalized == Held::Normed(layer as int, mlp)
                },
                convolved: if output {
                    Held::Increment(layer as int, mlp)
                } else {
                    Held::Input(layer as int, mlp)
                },
                ..self
            },
            DraftOp::GateUp { layer, rows } => DraftDevice {
                sound: self.sound && self.convolved == Held::Input(layer as int, true) && rows
                    == all,
                gate_up: Held::GateUp(layer as int),
                ..self
            },
            DraftOp::Silu { rows, width } => DraftDevice {
                sound: self.sound && self.gate_up is GateUp && rows == all && width
                    == config.intermediate,
                activated: Held::Activated(self.gate_up->GateUp_0),
                ..self
            },
            DraftOp::Down { layer, rows } => DraftDevice {
                sound: self.sound && self.activated == Held::Activated(layer as int) && rows
                    == all,
                update: Held::Output(layer as int, true),
                ..self
            },
            DraftOp::AddResidual { values } => DraftDevice {
                sound: self.sound && self.hidden is Stream && self.convolved is Increment && values
                    == all * config.hidden,
                normalized: Held::Stream(
                    Residual::After(
                        Box::new(self.hidden->Stream_0),
                        self.convolved->Increment_0,
                        self.convolved->Increment_1,
                    ),
                ),
                ..self
            },
            DraftOp::Swap => DraftDevice {
                sound: self.sound && self.normalized is Stream,
                hidden: self.normalized,
                normalized: self.hidden,
                ..self
            },
            _ => self,
        }
    }

    /// What an operation before the first layer or behind the last one leaves.
    pub open spec fn ends(self, frame: DraftFrame, op: DraftOp) -> DraftDevice {
        let config = frame.config;
        match op {
            DraftOp::Gather { rows } => DraftDevice {
                sound: self.sound && self.hidden is Nothing && rows == frame.rows(),
                hidden: Held::Stream(Residual::Embedded),
                ..self
            },
            DraftOp::FinalNorm { rows } => DraftDevice {
                sound: self.sound && self.hidden is Stream && rows == frame.rows(),
                normalized: Held::Final(self.hidden->Stream_0),
                ..self
            },
            DraftOp::TakeDrafts { offset, values } => DraftDevice {
                sound: self.sound && self.normalized is Final && offset == config.hidden && offset
                    + values == frame.rows() * config.hidden,
                sample: Some(self.normalized->Final_0),
                ..self
            },
            DraftOp::HeadQuantize { rows, cols } => DraftDevice {
                sound: self.sound && self.sample is Some && rows == frame.drafts && cols
                    == frame.head.cols,
                quantised: true,
                ..self
            },
            DraftOp::Head { storage, rows } => DraftDevice {
                sound: self.sound && self.sample is Some && rows == frame.drafts && storage
                    == frame.head.storage && (storage == Storage::Fp8 ==> self.quantised),
                logits: true,
                ..self
            },
            DraftOp::SelectorProject { rows, hidden, rank } => DraftDevice {
                sound: self.sound && self.sample is Some && rows == frame.drafts && hidden
                    == config.hidden && rank == config.selector_rank,
                projected: true,
                ..self
            },
            DraftOp::CopyProjected { values } => DraftDevice {
                sound: self.sound && self.projected && values == frame.drafts
                    * config.selector_rank,
                copied: true,
                ..self
            },
            DraftOp::TopK { rows, k } => DraftDevice {
                sound: self.sound && self.logits && rows == frame.drafts && k
                    == config.selector_top_k,
                candidates: true,
                ..self
            },
            _ => self,
        }
    }

    /// What one operation leaves.
    pub open spec fn performed(self, frame: DraftFrame, op: DraftOp) -> DraftDevice {
        match op {
            DraftOp::Gather { .. } | DraftOp::FinalNorm { .. } | DraftOp::TakeDrafts { .. }
            | DraftOp::HeadQuantize { .. } | DraftOp::Head { .. } | DraftOp::SelectorProject {
                ..
            } | DraftOp::CopyProjected { .. } | DraftOp::TopK { .. } => self.ends(frame, op),
            DraftOp::InputNorm { .. } | DraftOp::PostNorm { .. } | DraftOp::ConvProject { .. }
            | DraftOp::Conv { .. } | DraftOp::GateUp { .. } | DraftOp::Silu { .. }
            | DraftOp::Down { .. } | DraftOp::AddResidual { .. } | DraftOp::Swap => {
                self.shared_half(frame, op)
            },
            _ => self.attention_half(frame, op),
        }
    }
}

/// What the operations of a proposal do.
pub open spec fn draft_step(frame: DraftFrame) -> spec_fn(DraftDevice, DraftOp) -> DraftDevice {
    |device: DraftDevice, op: DraftOp| device.performed(frame, op)
}

/// What a proposal of a companion is about.
pub open spec fn proposal_frame(
    draft: Qwen38DFlash2,
    state: Qwen38DFlash2SequenceState,
    drafts: usize,
    head: Linear,
) -> DraftFrame {
    DraftFrame {
        config: draft.config,
        position: state.position as int,
        cached: state.layers@,
        drafts: drafts as int,
        head,
    }
}

#[verifier::rlimit(40)]
proof fn lemma_sizes(draft: Qwen38DFlash2, rows: usize)
    requires
        draft.well_formed(),
        draft.proposal_fits(),
        rows <= DFLASH2_BLOCK_ROWS,
    ensures
        ({
            let config = draft.config;
            &&& 0 <= rows * config.heads <= usize::MAX
            &&& 0 <= rows * config.kv_heads <= usize::MAX
            &&& 0 <= rows * config.hidden <= usize::MAX
            &&& 0 <= rows * config.selector_rank <= usize::MAX
            &&& 0 <= config.groups() <= usize::MAX
            &&& config.groups() * config.conv_group_size <= config.hidden
            &&& config.hidden < (config.groups() + 1) * config.conv_group_size
        }),
{
    let config = draft.config;
    assert(0 <= rows * config.heads <= DFLASH2_BLOCK_ROWS * config.heads && 0 <= rows
        * config.kv_heads <= DFLASH2_BLOCK_ROWS * config.kv_heads && 0 <= rows * config.hidden
        <= DFLASH2_BLOCK_ROWS * config.hidden && 0 <= rows * config.selector_rank
        <= DFLASH2_BLOCK_ROWS * config.selector_rank) by (nonlinear_arith)
        requires
            rows <= DFLASH2_BLOCK_ROWS,
    ;
    let hidden = config.hidden as int;
    let size = config.conv_group_size as int;
    let groups = config.groups();
    assert(size > 0);
    assert(groups == hidden / size);
    assert(0 <= groups <= hidden && groups * size <= hidden && hidden < (groups + 1) * size)
        by (nonlinear_arith)
        requires
            groups == hidden / size,
            size > 0,
            hidden >= 0,
    ;
}

#[verifier::rlimit(40)]
proof fn lemma_project(
    draft: Qwen38DFlash2,
    frame: DraftFrame,
    before: DraftDevice,
    layer: usize,
    rows: usize,
    position: usize,
    cached: usize,
    residual: Residual,
)
    requires
        draft.well_formed(),
        draft.proposal_fits(),
        rows <= DFLASH2_BLOCK_ROWS,
        frame.config == draft.config,
        frame.rows() == rows,
        before.sound,
        before.hidden == Held::Stream(residual),
    ensures
        ({
            let ops = draft.attention_ops(layer, position, cached, rows).subrange(0, 8);
            let after = crate::device::after(draft_step(frame), before, ops);
            after == (DraftDevice {
                normalized: Held::Normed(layer as int, false),
                coefficients: Held::Coefficients(layer as int, false),
                convolved: Held::Input(layer as int, false),
                query: Held::Query(layer as int),
                key: Held::Key(layer as int),
                value: Held::Value(layer as int),
                attention: Held::NormedQuery(layer as int),
                update: Held::NormedKey(layer as int),
                ..before
            })
        }),
{
    lemma_sizes(draft, rows);
    let step = draft_step(frame);
    let ops = draft.attention_ops(layer, position, cached, rows).subrange(0, 8);
    crate::device::lemma_after_eight(step, before, ops);
    let at = layer as int;
    let d1 = step(before, ops[0]);
    assert(d1 == DraftDevice { normalized: Held::Normed(at, false), ..before });
    let d2 = step(d1, ops[1]);
    assert(d2 == DraftDevice { coefficients: Held::Coefficients(at, false), ..d1 });
    let d3 = step(d2, ops[2]);
    assert(d3 == DraftDevice { convolved: Held::Input(at, false), ..d2 });
    let d4 = step(d3, ops[3]);
    assert(d4 == DraftDevice { query: Held::Query(at), ..d3 });
    let d5 = step(d4, ops[4]);
    assert(d5 == DraftDevice { key: Held::Key(at), ..d4 });
    let d6 = step(d5, ops[5]);
    assert(d6 == DraftDevice { value: Held::Value(at), ..d5 });
    let d7 = step(d6, ops[6]);
    assert(d7 == DraftDevice { attention: Held::NormedQuery(at), ..d6 });
    let d8 = step(d7, ops[7]);
    assert(d8 == DraftDevice { update: Held::NormedKey(at), ..d7 });
}

#[verifier::rlimit(40)]
proof fn lemma_attend(
    draft: Qwen38DFlash2,
    frame: DraftFrame,
    before: DraftDevice,
    layer: usize,
    rows: usize,
    position: usize,
    cached: usize,
    residual: Residual,
)
    requires
        draft.well_formed(),
        draft.proposal_fits(),
        rows <= DFLASH2_BLOCK_ROWS,
        frame.config == draft.config,
        frame.rows() == rows,
        frame.position == position,
        layer < frame.cached.len(),
        frame.cached[layer as int] == cached,
        before.sound,
        before.hidden == Held::Stream(residual),
        before.coefficients == Held::Coefficients(layer as int, false),
        before.query == Held::Query(layer as int),
        before.key == Held::Key(layer as int),
        before.value == Held::Value(layer as int),
        before.attention == Held::NormedQuery(layer as int),
        before.update == Held::NormedKey(layer as int),
    ensures
        ({
            let ops = draft.attention_ops(layer, position, cached, rows).subrange(8, 15);
            let after = crate::device::after(draft_step(frame), before, ops);
            &&& after.sound
            &&& after.hidden == Held::Stream(
                Residual::After(Box::new(residual), layer as int, false),
            )
            &&& after.sample == before.sample && after.quantised == before.quantised
            &&& after.logits == before.logits && after.projected == before.projected
            &&& after.copied == before.copied && after.candidates == before.candidates
        }),
{
    lemma_sizes(draft, rows);
    let step = draft_step(frame);
    let ops = draft.attention_ops(layer, position, cached, rows).subrange(8, 15);
    crate::device::lemma_after_seven(step, before, ops);
    let at = layer as int;
    let d1 = step(before, ops[0]);
    assert(d1 == DraftDevice { query: Held::RotatedQuery(at, position as int), ..before });
    let d2 = step(d1, ops[1]);
    assert(d2 == DraftDevice { key: Held::RotatedKey(at, position as int), ..d1 });
    let d3 = step(d2, ops[2]);
    assert(d3 == DraftDevice { attention: Held::Attended(at), ..d2 });
    let d4 = step(d3, ops[3]);
    assert(d4 == DraftDevice { update: Held::Output(at, false), ..d3 });
    let d5 = step(d4, ops[4]);
    assert(d5 == DraftDevice { convolved: Held::Increment(at, false), ..d4 });
    let d6 = step(d5, ops[5]);
    assert(d6.normalized == Held::Stream(Residual::After(Box::new(residual), at, false)));
    assert(d6 == DraftDevice { normalized: d6.normalized, ..d5 });
    let d7 = step(d6, ops[6]);
    assert(d7 == DraftDevice { hidden: d6.normalized, normalized: d6.hidden, ..d6 });
}

#[verifier::rlimit(40)]
proof fn lemma_feed_forward(
    draft: Qwen38DFlash2,
    frame: DraftFrame,
    before: DraftDevice,
    layer: usize,
    rows: usize,
    residual: Residual,
)
    requires
        draft.well_formed(),
        draft.proposal_fits(),
        rows <= DFLASH2_BLOCK_ROWS,
        frame.config == draft.config,
        frame.rows() == rows,
        before.sound,
        before.hidden == Held::Stream(residual),
    ensures
        ({
            let after = crate::device::after(
                draft_step(frame),
                before,
                draft.mlp_ops(layer, rows),
            );
            &&& after.sound
            &&& after.hidden == Held::Stream(
                Residual::After(Box::new(residual), layer as int, true),
            )
            &&& after.sample == before.sample && after.quantised == before.quantised
            &&& after.logits == before.logits && after.projected == before.projected
            &&& after.copied == before.copied && after.candidates == before.candidates
        }),
{
    lemma_sizes(draft, rows);
    let step = draft_step(frame);
    let ops = draft.mlp_ops(layer, rows);
    crate::device::lemma_after_nine(step, before, ops);
    let at = layer as int;
    let d1 = step(before, ops[0]);
    assert(d1 == DraftDevice { normalized: Held::Normed(at, true), ..before });
    let d2 = step(d1, ops[1]);
    assert(d2 == DraftDevice { coefficients: Held::Coefficients(at, true), ..d1 });
    let d3 = step(d2, ops[2]);
    assert(d3 == DraftDevice { convolved: Held::Input(at, true), ..d2 });
    let d4 = step(d3, ops[3]);
    assert(d4 == DraftDevice { gate_up: Held::GateUp(at), ..d3 });
    let d5 = step(d4, ops[4]);
    assert(d5 == DraftDevice { activated: Held::Activated(at), ..d4 });
    let d6 = step(d5, ops[5]);
    assert(d6 == DraftDevice { update: Held::Output(at, true), ..d5 });
    let d7 = step(d6, ops[6]);
    assert(d7 == DraftDevice { convolved: Held::Increment(at, true), ..d6 });
    let d8 = step(d7, ops[7]);
    assert(d8.normalized == Held::Stream(Residual::After(Box::new(residual), at, true)));
    assert(d8 == DraftDevice { normalized: d8.normalized, ..d7 });
    let d9 = step(d8, ops[8]);
    assert(d9 == DraftDevice { hidden: d8.normalized, normalized: d8.hidden, ..d8 });
}

/// Whether a proposal stands between two layers.
pub open spec fn between_layers(device: DraftDevice, count: nat) -> bool {
    &&& device.sound
    &&& device.hidden == Held::Stream(layered(count))
    &&& device.sample is None
    &&& !device.quantised && !device.logits && !device.projected && !device.copied
    &&& !device.candidates
}

#[verifier::rlimit(40)]
proof fn lemma_layers(
    draft: Qwen38DFlash2,
    state: Qwen38DFlash2SequenceState,
    frame: DraftFrame,
    before: DraftDevice,
    rows: usize,
    count: nat,
)
    requires
        draft.well_formed(),
        draft.proposal_fits(),
        rows <= DFLASH2_BLOCK_ROWS,
        frame.config == draft.config,
        frame.rows() == rows,
        frame.position == state.position,
        frame.cached == state.layers@,
        count <= state.layers@.len() <= usize::MAX,
        between_layers(before, 0),
    ensures
        between_layers(
            crate::device::after(draft_step(frame), before, draft.layer_ops(state, rows, count)),
            count,
        ),
    decreases count,
{
    if count > 0 {
        let step = draft_step(frame);
        let fewer = (count - 1) as nat;
        lemma_layers(draft, state, frame, before, rows, fewer);
        let layer = (count - 1) as usize;
        let cached = state.layers@[count - 1];
        let position = state.position;
        let earlier = draft.layer_ops(state, rows, fewer);
        let attention = draft.attention_ops(layer, position, cached, rows);
        let mlp = draft.mlp_ops(layer, rows);
        let first = attention.subrange(0, 8);
        let second = attention.subrange(8, 15);
        assert(attention =~= first + second);
        crate::device::lemma_after_both(step, before, earlier, attention + mlp);
        let d0 = crate::device::after(step, before, earlier);
        crate::device::lemma_after_both(step, d0, attention, mlp);
        crate::device::lemma_after_both(step, d0, first, second);
        lemma_project(draft, frame, d0, layer, rows, position, cached, layered(fewer));
        let d1 = crate::device::after(step, d0, first);
        lemma_attend(draft, frame, d1, layer, rows, position, cached, layered(fewer));
        let d2 = crate::device::after(step, d1, second);
        lemma_feed_forward(
            draft,
            frame,
            d2,
            layer,
            rows,
            Residual::After(Box::new(layered(fewer)), fewer as int, false),
        );
    }
}

#[verifier::rlimit(40)]
proof fn lemma_tail(
    draft: Qwen38DFlash2,
    frame: DraftFrame,
    before: DraftDevice,
    drafts: usize,
    count: nat,
)
    requires
        draft.well_formed(),
        draft.proposal_fits(),
        drafts < DFLASH2_BLOCK_ROWS,
        frame.config == draft.config,
        frame.drafts == drafts,
        between_layers(before, count),
    ensures
        ({
            let after = crate::device::after(
                draft_step(frame),
                before,
                draft.tail_ops(frame.head, drafts),
            );
            &&& after.sound
            &&& after.hidden == before.hidden
            &&& after.sample == Some(layered(count))
            &&& after.copied
            &&& after.candidates
        }),
{
    lemma_sizes(draft, drafts);
    let step = draft_step(frame);
    let ops = draft.tail_ops(frame.head, drafts);
    let hidden = draft.config.hidden as int;
    assert(hidden + drafts * hidden == (drafts + 1) * hidden) by (nonlinear_arith);
    let d1 = step(before, ops[0]);
    assert(d1 == DraftDevice { normalized: Held::Final(layered(count)), ..before });
    let d2 = step(d1, ops[1]);
    assert(d2 == DraftDevice { sample: Some(layered(count)), ..d1 });
    if frame.head.storage == Storage::Fp8 {
        crate::device::lemma_after_seven(step, before, ops);
        let d3 = step(d2, ops[2]);
        assert(d3 == DraftDevice { quantised: true, ..d2 });
        let d4 = step(d3, ops[3]);
        assert(d4 == DraftDevice { logits: true, ..d3 });
        let d5 = step(d4, ops[4]);
        assert(d5 == DraftDevice { projected: true, ..d4 });
        let d6 = step(d5, ops[5]);
        assert(d6 == DraftDevice { copied: true, ..d5 });
    } else {
        crate::device::lemma_after_six(step, before, ops);
        let d3 = step(d2, ops[2]);
        assert(d3 == DraftDevice { logits: true, ..d2 });
        let d4 = step(d3, ops[3]);
        assert(d4 == DraftDevice { projected: true, ..d3 });
        let d5 = step(d4, ops[4]);
        assert(d5 == DraftDevice { copied: true, ..d4 });
    }
}

/// Whether operations propose a block: every layer runs on what the one before left, at the
/// positions behind the window, and candidates for every draft come from the last one.
pub open spec fn proposed(
    draft: Qwen38DFlash2,
    state: Qwen38DFlash2SequenceState,
    drafts: usize,
    head: Linear,
    ops: Seq<DraftOp>,
) -> bool {
    let device = crate::device::after(
        draft_step(proposal_frame(draft, state, drafts, head)),
        idle(),
        ops,
    );
    &&& device.sound
    &&& device.sample == Some(layered(draft.config.layers as nat))
    &&& device.copied
    &&& device.candidates
}

/// A proposal runs as a whole, on buffers that its operations share. In every layer queries and
/// keys of the block are normalised and then rotated from the window's own position on, the one
/// that the attention starts from; attention and feed-forward block are computed from the
/// current stream and added to it. Candidates and selector inputs come from the streams of the
/// masked positions behind the last layer.
#[verifier::rlimit(40)]
pub proof fn law_proposals_run(
    draft: Qwen38DFlash2,
    state: Qwen38DFlash2SequenceState,
    anchor: u32,
    drafts: usize,
    head: Linear,
)
    requires
        draft.well_formed(),
        draft.proposal_fits(),
        draft.proposable(state, anchor, drafts),
    ensures
        ({
            let rows = (drafts + 1) as usize;
            let layers = draft.config.layers as nat;
            let ops = seq![DraftOp::Gather { rows }] + draft.layer_ops(state, rows, layers)
                + draft.tail_ops(head, drafts);
            proposed(draft, state, drafts, head, ops)
        }),
{
    let rows = (drafts + 1) as usize;
    let layers = draft.config.layers as nat;
    let frame = proposal_frame(draft, state, drafts, head);
    let step = draft_step(frame);
    let gather = seq![DraftOp::Gather { rows }];
    let body = draft.layer_ops(state, rows, layers);
    let tail = draft.tail_ops(head, drafts);
    crate::device::lemma_after_both(step, idle(), gather + body, tail);
    crate::device::lemma_after_both(step, idle(), gather, body);
    crate::device::lemma_after_one(step, idle(), gather);
    let d1 = crate::device::after(step, idle(), gather);
    lemma_layers(draft, state, frame, d1, rows, layers);
    let d2 = crate::device::after(step, d1, body);
    lemma_tail(draft, frame, d2, drafts, layers);
}

} // verus!
