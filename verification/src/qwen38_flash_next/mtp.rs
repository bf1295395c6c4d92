//! Native one-layer draft block of Flash Next: admission, operations and positions.

use crate::append::AppendSegment;
use crate::qwen38_flash_next::forward::ForwardError;
use crate::qwen38_flash_next::model::{ModelError, Qwen38FlashNextModel};
use vstd::prelude::*;

verus! {

/// Persistent private QSA position for one native MTP drafter.
#[derive(Clone, Copy, Debug, PartialEq, Eq, Structural)]
pub struct Qwen38FlashNextMtpSequenceState {
    /// Number of committed tokens.
    pub position: usize,
    /// Most tokens of the sequence.
    pub max_tokens: usize,
}

/// One device operation of the draft block.
#[derive(Clone, Copy, Debug, PartialEq, Eq, Structural)]
#[allow(inconsistent_fields)]
pub enum MtpOp {
    /// Copy the token identifiers to the device.
    UploadTokens { rows: usize },
    /// Gather the embedding rows of the uploaded tokens.
    GatherEmbedding { vocab: usize, hidden: usize, rows: usize },
    /// Normalise the embeddings.
    NormEmbedding { rows: usize, width: usize },
    /// Project the embeddings.
    ProjectEmbedding { rows: usize },
    /// Copy the target streams before the first row.
    CopyInitialStreams { width: usize },
    /// Copy the target streams of all rows but the last behind the initial ones.
    CopyTargetStreams { destination: usize, source: usize, values: usize },
    /// Normalise the target streams.
    NormHidden { rows: usize, width: usize },
    /// Project the target streams.
    ProjectHidden { rows: usize },
    /// Copy each projected embedding into every stream.
    RepeatEmbedding { rows: usize, hidden: usize, copies: usize },
    /// Add projected embeddings and projected streams.
    AddStreams,
    /// Collapse the streams into the attention input.
    MixAttention { rows: usize },
    /// Sparse attention of one token.
    QsaToken { page: u32, page_offset: usize, position: usize },
    /// Copy the attention output.
    CopyAttention { width: usize },
    /// Inject the attention output into the streams.
    CombineAttention,
    /// Exchange the stream buffers.
    SwapStreams,
    /// Collapse the streams into the feed-forward input.
    MixMlp,
    /// Routed experts of one token.
    Moe,
    /// Inject the feed-forward output into the streams.
    CombineMlp,
    /// Collapse the streams for the vocabulary head.
    FinalMix { width: usize },
    /// Vocabulary head with device-side argmax.
    HeadTop1,
    /// Copy the argmax and its logit to the host.
    ReadTop1,
    /// Batched attention projections of a prompt.
    QsaPrepare { rows: usize, position: usize },
    /// Append one prepared row to the cache.
    QsaAppendRow { page: u32, page_offset: usize, row: usize },
}

/// Dimensions that the draft block reads.
#[derive(Clone, Copy, Debug, PartialEq, Eq, Structural)]
pub struct MtpShape {
    /// Number of vocabulary entries.
    pub vocab: usize,
    /// Width of one residual stream.
    pub hidden: usize,
    /// Number of residual streams.
    pub hc_count: usize,
}

impl MtpShape {
    /// Width of all residual streams of one token.
    pub open spec fn width(self) -> int {
        self.hidden * self.hc_count
    }

    /// Whether the offsets of `rows` rows are representable.
    pub open spec fn fits(self, rows: int) -> bool {
        &&& self.width() <= usize::MAX
        &&& rows * self.width() <= usize::MAX
        &&& rows * self.hc_count <= usize::MAX
    }
}

/// Operations that form the draft input of one token from its embedding and the target
/// streams that produced it.
pub open spec fn token_entry_ops(shape: MtpShape) -> Seq<MtpOp> {
    seq![
        MtpOp::UploadTokens { rows: 1 },
        MtpOp::GatherEmbedding { vocab: shape.vocab, hidden: shape.hidden, rows: 1 },
        MtpOp::NormEmbedding { rows: 1, width: shape.hidden },
        MtpOp::ProjectEmbedding { rows: 1 },
        MtpOp::NormHidden { rows: 1, width: shape.width() as usize },
        MtpOp::ProjectHidden { rows: shape.hc_count },
        MtpOp::RepeatEmbedding { rows: 1, hidden: shape.hidden, copies: shape.hc_count },
        MtpOp::AddStreams,
        MtpOp::MixAttention { rows: 1 },
    ]
}

/// Operations of one draft token on its reserved page.
pub open spec fn token_body_ops(
    shape: MtpShape,
    segment: AppendSegment,
    position: usize,
    logits: bool,
) -> Seq<MtpOp> {
    seq![
        MtpOp::QsaToken { page: segment.page, page_offset: segment.page_offset, position },
        MtpOp::CopyAttention { width: shape.hidden },
        MtpOp::CombineAttention,
        MtpOp::SwapStreams,
        MtpOp::MixMlp,
        MtpOp::Moe,
        MtpOp::CombineMlp,
        MtpOp::SwapStreams,
    ] + if logits {
        seq![MtpOp::FinalMix { width: shape.hidden }, MtpOp::HeadTop1, MtpOp::ReadTop1]
    } else {
        seq![]
    }
}

/// Operations that prepare the draft rows of a prompt. Row `i` pairs token `i` with the target
/// streams before it: those of row `i - 1`, or the initial ones.
pub open spec fn prompt_entry_ops(shape: MtpShape, rows: usize, position: usize) -> Seq<MtpOp> {
    let width = shape.width() as usize;
    seq![
        MtpOp::UploadTokens { rows },
        MtpOp::GatherEmbedding { vocab: shape.vocab, hidden: shape.hidden, rows },
        MtpOp::NormEmbedding { rows, width: shape.hidden },
        MtpOp::ProjectEmbedding { rows },
        MtpOp::CopyInitialStreams { width },
    ] + (if rows > 1 {
        seq![
            MtpOp::CopyTargetStreams {
                destination: width,
                source: 0,
                values: ((rows - 1) * width) as usize,
            },
        ]
    } else {
        seq![]
    }) + seq![
        MtpOp::NormHidden { rows, width },
        MtpOp::ProjectHidden { rows: (rows * shape.hc_count) as usize },
        MtpOp::RepeatEmbedding { rows, hidden: shape.hidden, copies: shape.hc_count },
        MtpOp::AddStreams,
        MtpOp::MixAttention { rows },
        MtpOp::QsaPrepare { rows, position },
    ]
}

/// Cache appends of the rows of one segment.
pub open spec fn append_segment_ops(segment: AppendSegment) -> Seq<MtpOp> {
    Seq::new(
        segment.rows as nat,
        |offset: int|
            MtpOp::QsaAppendRow {
                page: segment.page,
                page_offset: (segment.page_offset + offset) as usize,
                row: (segment.input_offset + offset) as usize,
            },
    )
}

/// Cache appends of the rows of the first `count` segments.
pub open spec fn append_ops(segments: Seq<AppendSegment>, count: nat) -> Seq<MtpOp>
    decreases count,
{
    if count == 0 {
        seq![]
    } else {
        append_ops(segments, (count - 1) as nat) + append_segment_ops(segments[count - 1])
    }
}

impl Qwen38FlashNextModel {
    /// Dimensions of the draft block.
    pub open spec fn draft_shape(self) -> MtpShape {
        MtpShape {
            vocab: self.config.vocab,
            hidden: self.config.hidden,
            hc_count: self.config.hc_count,
        }
    }

    fn mtp_shape(&self) -> (shape: MtpShape)
        ensures
            shape == self.draft_shape(),
    {
        MtpShape {
            vocab: self.config.vocab,
            hidden: self.config.hidden,
            hc_count: self.config.hc_count,
        }
    }

    /// Plans the draft of one token up to the cache reservation.
    pub fn mtp_forward_token(
        &self,
        state: &Qwen38FlashNextMtpSequenceState,
        target_values: usize,
    ) -> (result: Result<Vec<MtpOp>, ModelError>)
        requires
            self.draft_shape().width() <= usize::MAX,
        ensures
            match result {
                Ok(ops) => {
                    &&& self.mtp
                    &&& state.position < state.max_tokens
                    &&& target_values >= self.draft_shape().width()
                    &&& ops@ == token_entry_ops(self.draft_shape())
                },
                Err(error) => if !self.mtp {
                    error == ModelError::DraftDisabled
                } else if state.position >= state.max_tokens {
                    error == ModelError::Position
                } else {
                    error == ModelError::TargetStreams && target_values < self.draft_shape().width()
                },
            },
    {
        let shape = self.mtp_shape();
        if !self.mtp {
            return Err(ModelError::DraftDisabled);
        }
        if state.position >= state.max_tokens {
            return Err(ModelError::Position);
        }
        let width: usize = shape.hidden * shape.hc_count;
        if target_values < width {
            return Err(ModelError::TargetStreams);
        }
        let hidden: usize = shape.hidden;
        let mut ops: Vec<MtpOp> = Vec::new();
        ops.push(MtpOp::UploadTokens { rows: 1 });
        ops.push(MtpOp::GatherEmbedding { vocab: shape.vocab, hidden, rows: 1 });
        ops.push(MtpOp::NormEmbedding { rows: 1, width: hidden });
        ops.push(MtpOp::ProjectEmbedding { rows: 1 });
        ops.push(MtpOp::NormHidden { rows: 1, width });
        ops.push(MtpOp::ProjectHidden { rows: shape.hc_count });
        ops.push(MtpOp::RepeatEmbedding { rows: 1, hidden, copies: shape.hc_count });
        ops.push(MtpOp::AddStreams);
        ops.push(MtpOp::MixAttention { rows: 1 });
        assert(ops@ =~= token_entry_ops(shape));
        Ok(ops)
    }

    /// Plans the draft of one token on its reserved pages.
    pub fn mtp_forward_token_body(
        &self,
        state: &Qwen38FlashNextMtpSequenceState,
        segments: &[AppendSegment],
        logits: bool,
    ) -> (result: Result<Vec<MtpOp>, ForwardError>)
        ensures
            match result {
                Ok(ops) => {
                    &&& segments@.len() > 0
                    &&& ops@ == token_body_ops(
                        self.draft_shape(),
                        segments@[0],
                        state.position,
                        logits,
                    )
                    &&& self.draft_shape().width() <= usize::MAX
                        ==> crate::qwen38_flash_next::mtp_flow::token_drafted(
                        self.draft_shape(),
                        segments@[0],
                        state.position,
                        logits,
                        token_entry_ops(self.draft_shape()) + ops@,
                    )
                },
                Err(error) => segments@.len() == 0 && error == ForwardError::NoPage,
            },
    {
        let shape = self.mtp_shape();
        if segments.len() == 0 {
            return Err(ForwardError::NoPage);
        }
        let segment: AppendSegment = segments[0];
        let mut ops: Vec<MtpOp> = Vec::new();
        ops.push(
            MtpOp::QsaToken {
                page: segment.page,
                page_offset: segment.page_offset,
                position: state.position,
            },
        );
        ops.push(MtpOp::CopyAttention { width: shape.hidden });
        ops.push(MtpOp::CombineAttention);
        ops.push(MtpOp::SwapStreams);
        ops.push(MtpOp::MixMlp);
        ops.push(MtpOp::Moe);
        ops.push(MtpOp::CombineMlp);
        ops.push(MtpOp::SwapStreams);
        if logits {
            ops.push(MtpOp::FinalMix { width: shape.hidden });
            ops.push(MtpOp::HeadTop1);
            ops.push(MtpOp::ReadTop1);
        }
        assert(ops@ =~= token_body_ops(shape, segment, state.position, logits));
        proof {
            if shape.width() <= usize::MAX {
                crate::qwen38_flash_next::mtp_flow::law_draft_token_runs(
                    shape,
                    segment,
                    state.position,
                    logits,
                );
            }
        }
        Ok(ops)
    }

    /// Admits a prompt chunk into the draft cache and gives the position after it.
    pub fn mtp_prefill_tokens(
        &self,
        state: &Qwen38FlashNextMtpSequenceState,
        token_capacity: usize,
        rows: usize,
        initial_values: usize,
        target_values: usize,
    ) -> (result: Result<usize, ModelError>)
        requires
            self.draft_shape().fits(token_capacity as int),
        ensures
            match result {
                Ok(end) => {
                    &&& self.mtp
                    &&& 1 <= rows <= token_capacity
                    &&& end == state.position + rows
                    &&& end <= state.max_tokens
                    &&& initial_values >= self.draft_shape().width()
                    &&& target_values >= rows * self.draft_shape().width()
                },
                Err(error) => if !self.mtp {
                    error == ModelError::DraftDisabled
                } else if !(1 <= rows <= token_capacity) {
                    error == ModelError::Tokens
                } else if state.position + rows > usize::MAX {
                    error == ModelError::PositionOverflow
                } else if state.position + rows > state.max_tokens {
                    error == ModelError::Position
                } else if initial_values < self.draft_shape().width() {
                    error == ModelError::TargetStreams
                } else {
                    error == ModelError::TargetRows && target_values < rows * self.draft_shape().width()
                },
            },
    {
        let shape = self.mtp_shape();
        if !self.mtp {
            return Err(ModelError::DraftDisabled);
        }
        if rows == 0 || rows > token_capacity {
            return Err(ModelError::Tokens);
        }
        let end: usize = match state.position.checked_add(rows) {
            Some(end) => end,
            None => {
                return Err(ModelError::PositionOverflow);
            },
        };
        if end > state.max_tokens {
            return Err(ModelError::Position);
        }
        let width: usize = shape.hidden * shape.hc_count;
        if initial_values < width {
            return Err(ModelError::TargetStreams);
        }
        assert(rows * width <= token_capacity * width) by (nonlinear_arith)
            requires
                rows <= token_capacity,
        ;
        if target_values < rows * width {
            return Err(ModelError::TargetRows);
        }
        Ok(end)
    }

    /// Plans the draft rows of a prompt chunk on its reserved pages.
    pub fn mtp_prefill_body(
        &self,
        state: &Qwen38FlashNextMtpSequenceState,
        rows: usize,
        segments: &[AppendSegment],
    ) -> (ops: Vec<MtpOp>)
        requires
            rows >= 1,
            self.draft_shape().fits(rows as int),
            crate::append::segments_fit(segments@, 0),
        ensures
            ops@ == prompt_entry_ops(self.draft_shape(), rows, state.position) + append_ops(
                segments@,
                segments@.len(),
            ),
            crate::append::segments_cover(segments@, rows as nat)
                ==> crate::qwen38_flash_next::mtp_flow::prompt_drafted(
                self.draft_shape(),
                rows,
                state.position,
                segments@,
                ops@,
            ),
    {
        let shape = self.mtp_shape();
        let hidden: usize = shape.hidden;
        let width: usize = hidden * shape.hc_count;
        let mut ops: Vec<MtpOp> = Vec::new();
        ops.push(MtpOp::UploadTokens { rows });
        ops.push(MtpOp::GatherEmbedding { vocab: shape.vocab, hidden, rows });
        ops.push(MtpOp::NormEmbedding { rows, width: hidden });
        ops.push(MtpOp::ProjectEmbedding { rows });
        ops.push(MtpOp::CopyInitialStreams { width });
        if rows > 1 {
            assert((rows - 1) * width <= rows * width) by (nonlinear_arith);
            ops.push(
                MtpOp::CopyTargetStreams {
                    destination: width,
                    source: 0,
                    values: (rows - 1) * width,
                },
            );
        }
        ops.push(MtpOp::NormHidden { rows, width });
        ops.push(MtpOp::ProjectHidden { rows: rows * shape.hc_count });
        ops.push(MtpOp::RepeatEmbedding { rows, hidden, copies: shape.hc_count });
        ops.push(MtpOp::AddStreams);
        ops.push(MtpOp::MixAttention { rows });
        ops.push(MtpOp::QsaPrepare { rows, position: state.position });
        let ghost entry = prompt_entry_ops(shape, rows, state.position);
        assert(ops@ =~= entry);
        let mut index: usize = 0;
        assert(ops@ =~= entry + append_ops(segments@, 0));
        while index < segments.len()
            invariant
                crate::append::segments_fit(segments@, 0),
                index <= segments@.len(),
                ops@ == entry + append_ops(segments@, index as nat),
            decreases segments@.len() - index,
        {
            let segment: AppendSegment = segments[index];
            let ghost before = ops@;
            let mut offset: usize = 0;
            while offset < segment.rows
                invariant
                    crate::append::segments_fit(segments@, 0),
                    index < segments@.len(),
                    segment == segments@[index as int],
                    offset <= segment.rows,
                    ops@ == before + append_segment_ops(segment).take(offset as int),
                decreases segment.rows - offset,
            {
                ops.push(
                    MtpOp::QsaAppendRow {
                        page: segment.page,
                        page_offset: segment.page_offset + offset,
                        row: segment.input_offset + offset,
                    },
                );
                offset += 1;
                assert(ops@ =~= before + append_segment_ops(segment).take(offset as int));
            }
            assert(ops@ =~= before + append_segment_ops(segment));
            index += 1;
            assert(ops@ =~= entry + append_ops(segments@, index as nat));
        }
        proof {
            if crate::append::segments_cover(segments@, rows as nat) {
                crate::qwen38_flash_next::mtp_flow::law_prompt_drafts_run(
                    shape,
                    rows,
                    state.position,
                    segments@,
                );
            }
        }
        ops
    }
}

impl Qwen38FlashNextMtpSequenceState {
    /// Moves past one committed draft token.
    pub fn token_committed(&mut self)
        requires
            old(self).position < old(self).max_tokens,
        ensures
            *final(self) == (Qwen38FlashNextMtpSequenceState {
                position: (old(self).position + 1) as usize,
                ..*old(self)
            }),
    {
        self.position = self.position + 1;
    }

    /// Moves to the end of a committed prompt chunk.
    pub fn prompt_committed(&mut self, end: usize)
        ensures
            *final(self) == (Qwen38FlashNextMtpSequenceState { position: end, ..*old(self) }),
    {
        self.position = end;
    }
}

/// Where the reserved pages cover a prompt chunk, each of its rows is appended once, in order.
pub proof fn law_prompt_rows_appended_in_order(
    segments: Seq<AppendSegment>,
    rows: nat,
    count: nat,
)
    requires
        count <= segments.len(),
        crate::append::segments_cover(segments, rows),
        crate::append::segments_fit(segments, 0),
    ensures
        append_ops(segments, count).len() == crate::append::segment_rows(segments, count),
        forall|row: int|
            0 <= row < append_ops(segments, count).len() ==> (#[trigger] append_ops(
                segments,
                count,
            )[row] matches MtpOp::QsaAppendRow { row: at, .. } && at == row),
    decreases count,
{
    if count > 0 {
        law_prompt_rows_appended_in_order(segments, rows, (count - 1) as nat);
        let segment = segments[count - 1];
        let earlier = append_ops(segments, (count - 1) as nat);
        let ops = append_ops(segments, count);
        assert(segment.input_offset == crate::append::segment_rows(segments, (count - 1) as nat));
        assert forall|row: int| 0 <= row < ops.len() implies (
        #[trigger] ops[row] matches MtpOp::QsaAppendRow { row: at, .. } && at == row) by {
            if row < earlier.len() {
                assert(ops[row] == earlier[row]);
            } else {
                assert(ops[row] == append_segment_ops(segment)[row - earlier.len()]);
            }
        }
    }
}

/// Sizes of the draft workspace, in values.
#[derive(Clone, Copy, Debug, PartialEq, Eq, Structural)]
pub struct MtpBuffers {
    /// Single-token buffers of one hidden width.
    pub hidden: usize,
    /// Single-token buffers of one stream width.
    pub width: usize,
    /// Token identifiers of a prompt chunk.
    pub prompt_tokens: usize,
    /// Prompt buffers of one hidden width for each token.
    pub prompt_hidden: usize,
    /// Prompt buffers of one stream width for each token.
    pub prompt_streams: usize,
}

/// Buffers of the draft block for prompt chunks of `tokens` tokens.
pub open spec fn mtp_buffers(model: Qwen38FlashNextModel, tokens: usize) -> MtpBuffers {
    MtpBuffers {
        hidden: model.config.hidden,
        width: model.stream_width() as usize,
        prompt_tokens: tokens,
        prompt_hidden: (tokens * model.config.hidden) as usize,
        prompt_streams: (tokens * model.stream_width()) as usize,
    }
}

impl Qwen38FlashNextModel {
    /// Starts a draft sequence at the position that the admitted prefix restores.
    ///
    /// `admitted` is the restored position, or nothing where the cache had no room.
    pub fn new_mtp_sequence_state(
        &self,
        admitted: Option<usize>,
        max_tokens: usize,
    ) -> (result: Result<Qwen38FlashNextMtpSequenceState, ModelError>)
        ensures
            match result {
                Ok(state) => self.mtp && admitted == Some(state.position) && state.max_tokens
                    == max_tokens,
                Err(error) => if !self.mtp {
                    error == ModelError::DraftDisabled
                } else {
                    error == ModelError::Admission && admitted is None
                },
            },
    {
        if !self.mtp {
            return Err(ModelError::DraftDisabled);
        }
        match admitted {
            Some(position) => Ok(Qwen38FlashNextMtpSequenceState { position, max_tokens }),
            None => Err(ModelError::Admission),
        }
    }

    /// Sizes the workspace of the draft block.
    pub fn new_mtp_workspace(&self, prefill_token_capacity: usize) -> (result: Result<
        MtpBuffers,
        ModelError,
    >)
        requires
            self.rows_fit(prefill_token_capacity as int),
        ensures
            match result {
                Ok(buffers) => {
                    &&& self.mtp
                    &&& prefill_token_capacity > 0
                    &&& buffers == mtp_buffers(*self, prefill_token_capacity)
                },
                Err(error) => if !self.mtp {
                    error == ModelError::DraftDisabled
                } else {
                    error == ModelError::Capacity && prefill_token_capacity == 0
                },
            },
    {
        if !self.mtp {
            return Err(ModelError::DraftDisabled);
        }
        let hidden: usize = self.config.hidden;
        let width: usize = hidden * self.config.hc_count;
        if prefill_token_capacity == 0 {
            return Err(ModelError::Capacity);
        }
        Ok(
            MtpBuffers {
                hidden,
                width,
                prompt_tokens: prefill_token_capacity,
                prompt_hidden: prefill_token_capacity * hidden,
                prompt_streams: prefill_token_capacity * width,
            },
        )
    }
}

} // verus!
