//! What the operations of the draft block leave in its buffers.

use crate::append::AppendSegment;
use crate::qwen38_flash_next::mtp::{MtpOp, MtpShape};
use vstd::prelude::*;

verus! {

/// One value of the target streams.
pub enum StreamValue {
    /// A value of the streams before the first row.
    Initial(int),
    /// A value of the streams of the rows.
    Target(int),
}

/// Residual streams of the block, known by the sublayers that they went through.
pub enum DraftStreams {
    /// Nothing yet.
    Nothing,
    /// Projected embeddings and projected target streams, added.
    Entered,
    /// With the output of attention on the entered streams.
    Attended,
    /// With the output of the experts on those.
    Fed,
}

/// What a draft is about.
pub struct MtpFrame {
    /// Dimensions.
    pub shape: MtpShape,
    /// Rows.
    pub rows: usize,
    /// Position of the first row.
    pub position: usize,
}

/// Buffers of the block.
pub struct MtpDevice {
    /// Every operation so far found its inputs ready.
    pub sound: bool,
    /// Whether the tokens are on the device.
    pub tokens: bool,
    /// Whether their embeddings were gathered.
    pub embedded: bool,
    /// Whether the embeddings were normalised.
    pub normed_embedding: bool,
    /// Whether the embeddings were projected.
    pub projected_embedding: bool,
    /// Target streams that go with the rows, value by value.
    pub target: spec_fn(int) -> Option<StreamValue>,
    /// Whether the target streams were normalised.
    pub normed_target: bool,
    /// Whether the target streams were projected.
    pub projected_target: bool,
    /// Whether every stream has its copy of the projected embedding.
    pub repeated: bool,
    /// Current streams.
    pub streams: DraftStreams,
    /// The other stream buffer.
    pub other: DraftStreams,
    /// Streams that the attention input was mixed from.
    pub attention_input: DraftStreams,
    /// Whether the attention inputs of all rows were projected.
    pub prepared: bool,
    /// Cached rows: page and place of each, in order.
    pub cached: Seq<(u32, int)>,
    /// Whether attention has run.
    pub attention: bool,
    /// Whether its output is where the streams take it from.
    pub copied: bool,
    /// Streams that the feed-forward input was mixed from.
    pub mlp_input: DraftStreams,
    /// Whether the experts have run.
    pub experts: bool,
    /// Streams that the head input was mixed from.
    pub head_input: DraftStreams,
    /// Whether the head has selected a token.
    pub selected: bool,
    /// Whether the host has it.
    pub read: bool,
}

/// Buffers before the first operation, with some target streams.
pub open spec fn idle(target: spec_fn(int) -> Option<StreamValue>) -> MtpDevice {
    MtpDevice {
        sound: true,
        tokens: false,
        embedded: false,
        normed_embedding: false,
        projected_embedding: false,
        target,
        normed_target: false,
        projected_target: false,
        repeated: false,
        streams: DraftStreams::Nothing,
        other: DraftStreams::Nothing,
        attention_input: DraftStreams::Nothing,
        prepared: false,
        cached: seq![],
        attention: false,
        copied: false,
        mlp_input: DraftStreams::Nothing,
        experts: false,
        head_input: DraftStreams::Nothing,
        selected: false,
        read: false,
    }
}

/// No target streams.
pub open spec fn unpaired() -> spec_fn(int) -> Option<StreamValue> {
    |value: int| None
}

/// The target streams of one token, which are those before it.
pub open spec fn given() -> spec_fn(int) -> Option<StreamValue> {
    |value: int| Some(StreamValue::Initial(value))
}

impl MtpDevice {
    /// Effect of an operation that forms the streams of the rows.
    pub open spec fn entry_performed(self, frame: MtpFrame, op: MtpOp) -> MtpDevice {
        let width = frame.shape.hidden * frame.shape.hc_count;
        match op {
            MtpOp::UploadTokens { rows } => MtpDevice {
                sound: self.sound && rows == frame.rows,
                tokens: true,
                ..self
            },
            MtpOp::GatherEmbedding { vocab, hidden, rows } => MtpDevice {
                sound: self.sound && self.tokens && rows == frame.rows && vocab
                    == frame.shape.vocab && hidden == frame.shape.hidden,
                embedded: true,
                ..self
            },
            MtpOp::NormEmbedding { rows, width } => MtpDevice {
                sound: self.sound && self.embedded && rows == frame.rows && width
                    == frame.shape.hidden,
                normed_embedding: true,
                ..self
            },
            MtpOp::ProjectEmbedding { rows } => MtpDevice {
                sound: self.sound && self.normed_embedding && rows == frame.rows,
                projected_embedding: true,
                ..self
            },
            MtpOp::CopyInitialStreams { width: values } => MtpDevice {
                target: |value: int|
                    if 0 <= value < values {
                        Some(StreamValue::Initial(value))
                    } else {
                        (self.target)(value)
                    },
                ..self
            },
            MtpOp::CopyTargetStreams { destination, source, values } => MtpDevice {
                target: |value: int|
                    if destination <= value < destination + values {
                        Some(StreamValue::Target(source + value - destination))
                    } else {
                        (self.target)(value)
                    },
                ..self
            },
            MtpOp::NormHidden { rows, width: values } => MtpDevice {
                sound: self.sound && rows == frame.rows && values == width && (forall|value: int|
                    0 <= value < rows * width ==> (#[trigger] (self.target)(value)) is Some),
                normed_target: true,
                ..self
            },
            MtpOp::ProjectHidden { rows } => MtpDevice {
                sound: self.sound && self.normed_target && rows == frame.rows
                    * frame.shape.hc_count,
                projected_target: true,
                ..self
            },
            MtpOp::RepeatEmbedding { rows, hidden, copies } => MtpDevice {
                sound: self.sound && self.projected_embedding && rows == frame.rows && hidden
                    == frame.shape.hidden && copies == frame.shape.hc_count,
                repeated: true,
                ..self
            },
            MtpOp::AddStreams => MtpDevice {
                sound: self.sound && self.repeated && self.projected_target,
                streams: DraftStreams::Entered,
                ..self
            },
            MtpOp::MixAttention { rows } => MtpDevice {
                sound: self.sound && self.streams is Entered && rows == frame.rows,
                attention_input: self.streams,
                ..self
            },
            MtpOp::QsaPrepare { rows, position } => MtpDevice {
                sound: self.sound && self.attention_input is Entered && rows == frame.rows
                    && position == frame.position,
                prepared: true,
                ..self
            },
            MtpOp::QsaAppendRow { page, page_offset, row } => MtpDevice {
                sound: self.sound && self.prepared && row == self.cached.len() && row < frame.rows,
                cached: self.cached.push((page, page_offset as int)),
                ..self
            },
            _ => MtpDevice { sound: false, ..self },
        }
    }

    /// Effect of an operation of the block on one token.
    pub open spec fn body_performed(self, frame: MtpFrame, op: MtpOp) -> MtpDevice {
        match op {
            MtpOp::QsaToken { page, page_offset, position } => MtpDevice {
                sound: self.sound && self.attention_input is Entered && frame.rows == 1
                    && position == frame.position,
                cached: self.cached.push((page, page_offset as int)),
                attention: true,
                copied: false,
                ..self
            },
            MtpOp::CopyAttention { width } => MtpDevice {
                sound: self.sound && self.attention && width == frame.shape.hidden,
                copied: true,
                ..self
            },
            MtpOp::CombineAttention => MtpDevice {
                sound: self.sound && self.copied && self.streams is Entered,
                other: DraftStreams::Attended,
                ..self
            },
            MtpOp::SwapStreams => MtpDevice {
                streams: self.other,
                other: self.streams,
                ..self
            },
            MtpOp::MixMlp => MtpDevice {
                sound: self.sound && self.streams is Attended,
                mlp_input: self.streams,
                ..self
            },
            MtpOp::Moe => MtpDevice {
                sound: self.sound && self.mlp_input is Attended,
                experts: true,
                ..self
            },
            MtpOp::CombineMlp => MtpDevice {
                sound: self.sound && self.experts && self.streams is Attended,
                other: DraftStreams::Fed,
                ..self
            },
            MtpOp::FinalMix { width } => MtpDevice {
                sound: self.sound && self.streams is Fed && width == frame.shape.hidden,
                head_input: self.streams,
                ..self
            },
            MtpOp::HeadTop1 => MtpDevice {
                sound: self.sound && self.head_input is Fed,
                selected: true,
                ..self
            },
            MtpOp::ReadTop1 => MtpDevice {
                sound: self.sound && self.selected,
                read: true,
                ..self
            },
            _ => MtpDevice { sound: false, ..self },
        }
    }

    /// What one operation leaves.
    pub open spec fn performed(self, frame: MtpFrame, op: MtpOp) -> MtpDevice {
        match op {
            MtpOp::QsaToken { .. } => self.body_performed(frame, op),
            MtpOp::CopyAttention { .. } => self.body_performed(frame, op),
            MtpOp::CombineAttention => self.body_performed(frame, op),
            MtpOp::SwapStreams => self.body_performed(frame, op),
            MtpOp::MixMlp => self.body_performed(frame, op),
            MtpOp::Moe => self.body_performed(frame, op),
            MtpOp::CombineMlp => self.body_performed(frame, op),
            MtpOp::FinalMix { .. } => self.body_performed(frame, op),
            MtpOp::HeadTop1 => self.body_performed(frame, op),
            MtpOp::ReadTop1 => self.body_performed(frame, op),
            _ => self.entry_performed(frame, op),
        }
    }
}

/// What the operations of the draft block do.
pub open spec fn draft_step(frame: MtpFrame) -> spec_fn(MtpDevice, MtpOp) -> MtpDevice {
    |device: MtpDevice, op: MtpOp| device.performed(frame, op)
}

spec fn embedding_ops(frame: MtpFrame) -> Seq<MtpOp> {
    seq![
        MtpOp::UploadTokens { rows: frame.rows },
        MtpOp::GatherEmbedding {
            vocab: frame.shape.vocab,
            hidden: frame.shape.hidden,
            rows: frame.rows,
        },
        MtpOp::NormEmbedding { rows: frame.rows, width: frame.shape.hidden },
        MtpOp::ProjectEmbedding { rows: frame.rows },
    ]
}

spec fn entering_ops(frame: MtpFrame) -> Seq<MtpOp> {
    seq![
        MtpOp::NormHidden { rows: frame.rows, width: frame.shape.width() as usize },
        MtpOp::ProjectHidden { rows: (frame.rows * frame.shape.hc_count) as usize },
        MtpOp::RepeatEmbedding {
            rows: frame.rows,
            hidden: frame.shape.hidden,
            copies: frame.shape.hc_count,
        },
        MtpOp::AddStreams,
        MtpOp::MixAttention { rows: frame.rows },
    ]
}

#[verifier::rlimit(40)]
proof fn lemma_embedded(frame: MtpFrame, before: MtpDevice, ops: Seq<MtpOp>)
    requires
        before.sound,
        ops == embedding_ops(frame),
    ensures
        crate::device::after(draft_step(frame), before, ops) == (MtpDevice {
            tokens: true,
            embedded: true,
            normed_embedding: true,
            projected_embedding: true,
            ..before
        }),
{
    let step = draft_step(frame);
    crate::device::lemma_after_four(step, before, ops);
    let d1 = step(before, ops[0]);
    assert(d1 == MtpDevice { tokens: true, ..before });
    let d2 = step(d1, ops[1]);
    assert(d2 == MtpDevice { embedded: true, ..d1 });
    let d3 = step(d2, ops[2]);
    assert(d3 == MtpDevice { normed_embedding: true, ..d2 });
}

/// Whether every row of the frame has its target streams.
spec fn has_target(frame: MtpFrame, device: MtpDevice) -> bool {
    forall|value: int|
        0 <= value < frame.rows * frame.shape.width() ==> (#[trigger] (device.target)(
            value,
        )) is Some
}

#[verifier::rlimit(40)]
proof fn lemma_entered(frame: MtpFrame, before: MtpDevice, ops: Seq<MtpOp>)
    requires
        before.sound,
        before.projected_embedding,
        has_target(frame, before),
        frame.shape.width() <= usize::MAX,
        frame.rows * frame.shape.hc_count <= usize::MAX,
        ops == entering_ops(frame),
    ensures
        crate::device::after(draft_step(frame), before, ops) == (MtpDevice {
            normed_target: true,
            projected_target: true,
            repeated: true,
            streams: DraftStreams::Entered,
            attention_input: DraftStreams::Entered,
            ..before
        }),
{
    let step = draft_step(frame);
    assert(0 <= frame.shape.width()) by {
        assert(0 <= frame.shape.hidden * frame.shape.hc_count) by (nonlinear_arith);
    }
    assert(0 <= frame.rows * frame.shape.hc_count) by (nonlinear_arith);
    crate::device::lemma_after_five(step, before, ops);
    let d1 = step(before, ops[0]);
    assert(d1 == MtpDevice { normed_target: true, ..before });
    let d2 = step(d1, ops[1]);
    assert(d2 == MtpDevice { projected_target: true, ..d1 });
    let d3 = step(d2, ops[2]);
    assert(d3 == MtpDevice { repeated: true, ..d2 });
    let d4 = step(d3, ops[3]);
    assert(d4 == MtpDevice { streams: DraftStreams::Entered, ..d3 });
}

#[verifier::rlimit(40)]
proof fn lemma_attended(
    frame: MtpFrame,
    before: MtpDevice,
    page: u32,
    place: usize,
    ops: Seq<MtpOp>,
)
    requires
        before.sound,
        before.streams is Entered,
        before.attention_input is Entered,
        frame.rows == 1,
        ops.len() == 4,
        ops[0] == (MtpOp::QsaToken { page, page_offset: place, position: frame.position }),
        ops[1] == (MtpOp::CopyAttention { width: frame.shape.hidden }),
        ops[2] == MtpOp::CombineAttention,
        ops[3] == MtpOp::SwapStreams,
    ensures
        crate::device::after(draft_step(frame), before, ops) == (MtpDevice {
            cached: before.cached.push((page, place as int)),
            attention: true,
            copied: true,
            streams: DraftStreams::Attended,
            other: DraftStreams::Entered,
            ..before
        }),
{
    let step = draft_step(frame);
    crate::device::lemma_after_four(step, before, ops);
    let d1 = before.performed(frame, ops[0]);
    assert(d1 == MtpDevice {
        cached: before.cached.push((page, place as int)),
        attention: true,
        copied: false,
        ..before
    });
    let d2 = d1.performed(frame, ops[1]);
    assert(d2 == MtpDevice { copied: true, ..d1 });
    let d3 = d2.performed(frame, ops[2]);
    assert(d3 == MtpDevice { other: DraftStreams::Attended, ..d2 });
}

#[verifier::rlimit(40)]
proof fn lemma_fed(frame: MtpFrame, before: MtpDevice, ops: Seq<MtpOp>)
    requires
        before.sound,
        before.streams is Attended,
        ops.len() == 4,
        ops[0] == MtpOp::MixMlp,
        ops[1] == MtpOp::Moe,
        ops[2] == MtpOp::CombineMlp,
        ops[3] == MtpOp::SwapStreams,
    ensures
        crate::device::after(draft_step(frame), before, ops) == (MtpDevice {
            streams: DraftStreams::Fed,
            other: DraftStreams::Attended,
            mlp_input: DraftStreams::Attended,
            experts: true,
            ..before
        }),
{
    let step = draft_step(frame);
    crate::device::lemma_after_four(step, before, ops);
    let d1 = before.performed(frame, ops[0]);
    assert(d1 == MtpDevice { mlp_input: DraftStreams::Attended, ..before });
    let d2 = d1.performed(frame, ops[1]);
    assert(d2 == MtpDevice { experts: true, ..d1 });
    let d3 = d2.performed(frame, ops[2]);
    assert(d3 == MtpDevice { other: DraftStreams::Fed, ..d2 });
}

/// Whether operations draft one token: it is cached on its page at its position, and where a token
/// is asked for, it is selected from the streams behind attention and experts.
pub open spec fn token_drafted(
    shape: MtpShape,
    segment: AppendSegment,
    position: usize,
    logits: bool,
    ops: Seq<MtpOp>,
) -> bool {
    let device = crate::device::after(
        draft_step(MtpFrame { shape, rows: 1, position }),
        idle(given()),
        ops,
    );
    &&& device.sound
    &&& device.cached == seq![(segment.page, segment.page_offset as int)]
    &&& device.streams is Fed
    &&& device.read == logits
}

/// The draft of one token runs as a whole: its embedding and the streams before it enter the
/// block, attention caches it on its page at its position, the experts follow on what attention
/// left, and where a token is asked for, it is selected from the streams behind both.
#[verifier::rlimit(40)]
pub proof fn law_draft_token_runs(
    shape: MtpShape,
    segment: AppendSegment,
    position: usize,
    logits: bool,
)
    requires
        shape.width() <= usize::MAX,
    ensures
        token_drafted(
            shape,
            segment,
            position,
            logits,
            crate::qwen38_flash_next::mtp::token_entry_ops(shape)
                + crate::qwen38_flash_next::mtp::token_body_ops(shape, segment, position, logits),
        ),
{
    let frame = MtpFrame { shape, rows: 1, position };
    let step = draft_step(frame);
    let start = idle(given());
    let entry = crate::qwen38_flash_next::mtp::token_entry_ops(shape);
    let body = crate::qwen38_flash_next::mtp::token_body_ops(shape, segment, position, logits);
    assert(1 * shape.hc_count == shape.hc_count);
    assert(frame.rows * shape.width() == shape.width()) by {
        assert(1 * shape.width() == shape.width());
    }
    crate::device::lemma_after_both(step, start, entry, body);
    let first = entry.subrange(0, 4);
    let second = entry.subrange(4, 9);
    assert(entry =~= first + second);
    crate::device::lemma_after_both(step, start, first, second);
    assert(first =~= embedding_ops(frame));
    lemma_embedded(frame, start, first);
    let embedded = crate::device::after(step, start, first);
    assert(second =~= entering_ops(frame));
    lemma_entered(frame, embedded, second);
    let entered = crate::device::after(step, embedded, second);
    let third = body.subrange(0, 4);
    let fourth = body.subrange(4, 8);
    let last = body.subrange(8, body.len() as int);
    assert(body =~= third + fourth + last);
    crate::device::lemma_after_both(step, entered, third + fourth, last);
    crate::device::lemma_after_both(step, entered, third, fourth);
    lemma_attended(frame, entered, segment.page, segment.page_offset, third);
    let attended = crate::device::after(step, entered, third);
    lemma_fed(frame, attended, fourth);
    let fed = crate::device::after(step, attended, fourth);
    assert(fed.cached =~= seq![(segment.page, segment.page_offset as int)]);
    if logits {
        crate::device::lemma_after_three(step, fed, last);
        let d1 = step(fed, last[0]);
        assert(d1 == MtpDevice { head_input: DraftStreams::Fed, ..fed });
        let d2 = step(d1, last[1]);
        assert(d2 == MtpDevice { selected: true, ..d1 });
    } else {
        assert(last =~= seq![]);
    }
}

/// Place of each row of the first `count` segments.
pub open spec fn places(segments: Seq<AppendSegment>, count: nat) -> Seq<(u32, int)>
    decreases count,
{
    if count == 0 {
        seq![]
    } else {
        let segment = segments[count - 1];
        places(segments, (count - 1) as nat) + Seq::new(
            segment.rows as nat,
            |offset: int| (segment.page, segment.page_offset + offset),
        )
    }
}

#[verifier::rlimit(40)]
proof fn lemma_segment(
    frame: MtpFrame,
    before: MtpDevice,
    segment: AppendSegment,
    count: nat,
)
    requires
        before.sound,
        before.prepared,
        count <= segment.rows,
        segment.input_offset == before.cached.len(),
        segment.input_offset + segment.rows <= frame.rows,
        segment.page_offset + segment.rows <= usize::MAX,
    ensures
        crate::device::after(
            draft_step(frame),
            before,
            crate::qwen38_flash_next::mtp::append_segment_ops(segment).take(count as int),
        ) == (MtpDevice {
            cached: before.cached + Seq::new(
                count,
                |offset: int| (segment.page, segment.page_offset + offset),
            ),
            ..before
        }),
    decreases count,
{
    let all = crate::qwen38_flash_next::mtp::append_segment_ops(segment);
    let ops = all.take(count as int);
    let rows = Seq::new(count, |offset: int| (segment.page, segment.page_offset + offset));
    if count > 0 {
        lemma_segment(frame, before, segment, (count - 1) as nat);
        assert(ops.drop_last() =~= all.take(count - 1));
        let fewer = Seq::new(
            (count - 1) as nat,
            |offset: int| (segment.page, segment.page_offset + offset),
        );
        assert(before.cached + rows =~= (before.cached + fewer).push(
            (segment.page, segment.page_offset + count - 1),
        ));
    } else {
        assert(before.cached + rows =~= before.cached);
    }
}

proof fn lemma_rows_grow(segments: Seq<AppendSegment>, count: nat, all: nat)
    requires
        count <= all,
    ensures
        crate::append::segment_rows(segments, count) <= crate::append::segment_rows(segments, all),
    decreases all - count,
{
    if count < all {
        lemma_rows_grow(segments, count, (all - 1) as nat);
    }
}

#[verifier::rlimit(40)]
proof fn lemma_segments(
    frame: MtpFrame,
    before: MtpDevice,
    segments: Seq<AppendSegment>,
    count: nat,
)
    requires
        before.sound,
        before.prepared,
        before.cached == Seq::<(u32, int)>::empty(),
        count <= segments.len(),
        crate::append::segments_fit(segments, 0),
        crate::append::segments_cover(segments, frame.rows as nat),
    ensures
        crate::device::after(
            draft_step(frame),
            before,
            crate::qwen38_flash_next::mtp::append_ops(segments, count),
        ) == (MtpDevice { cached: places(segments, count), ..before }),
        places(segments, count).len() == crate::append::segment_rows(segments, count),
    decreases count,
{
    if count > 0 {
        let less = (count - 1) as nat;
        lemma_segments(frame, before, segments, less);
        let segment = segments[count - 1];
        let ops = crate::qwen38_flash_next::mtp::append_segment_ops(segment);
        let step = draft_step(frame);
        crate::device::lemma_after_both(
            step,
            before,
            crate::qwen38_flash_next::mtp::append_ops(segments, less),
            ops,
        );
        assert(ops.take(segment.rows as int) =~= ops);
        lemma_rows_grow(segments, count, segments.len());
        lemma_segment(
            frame,
            MtpDevice { cached: places(segments, less), ..before },
            segment,
            segment.rows as nat,
        );
    }
}

/// Whether operations draft the rows of a prompt: each pairs its token with the target streams of
/// the row before it, or with the initial ones, and is cached at its own place.
pub open spec fn prompt_drafted(
    shape: MtpShape,
    rows: usize,
    position: usize,
    segments: Seq<AppendSegment>,
    ops: Seq<MtpOp>,
) -> bool {
    let device = crate::device::after(
        draft_step(MtpFrame { shape, rows, position }),
        idle(unpaired()),
        ops,
    );
    let width = shape.hidden * shape.hc_count;
    &&& device.sound
    &&& device.cached == places(segments, segments.len())
    &&& device.cached.len() == rows
    &&& forall|row: int, value: int|
        #![trigger (device.target)(row * width + value)]
        0 <= row < rows && 0 <= value < width ==> (device.target)(row * width + value) == Some(
            if row == 0 {
                StreamValue::Initial(value)
            } else {
                StreamValue::Target((row - 1) * width + value)
            },
        )
}

/// The draft rows of a prompt run as a whole: row `i` pairs token `i` with the target streams of
/// row `i - 1`, or with the initial ones, and is cached at its own place.
#[verifier::rlimit(40)]
pub proof fn law_prompt_drafts_run(
    shape: MtpShape,
    rows: usize,
    position: usize,
    segments: Seq<AppendSegment>,
)
    requires
        rows >= 1,
        shape.fits(rows as int),
        crate::append::segments_fit(segments, 0),
        crate::append::segments_cover(segments, rows as nat),
    ensures
        prompt_drafted(
            shape,
            rows,
            position,
            segments,
            crate::qwen38_flash_next::mtp::prompt_entry_ops(shape, rows, position)
                + crate::qwen38_flash_next::mtp::append_ops(segments, segments.len()),
        ),
{
    let frame = MtpFrame { shape, rows, position };
    let step = draft_step(frame);
    let start = idle(unpaired());
    let width = shape.hidden * shape.hc_count;
    let entry = crate::qwen38_flash_next::mtp::prompt_entry_ops(shape, rows, position);
    let appends = crate::qwen38_flash_next::mtp::append_ops(segments, segments.len());
    assert(0 <= width) by {
        assert(0 <= shape.hidden * shape.hc_count) by (nonlinear_arith);
    }
    assert(0 <= (rows - 1) * width <= rows * width) by (nonlinear_arith)
        requires
            rows >= 1,
            width >= 0,
    ;
    assert((rows - 1) * width + width == rows * width) by (nonlinear_arith);
    crate::device::lemma_after_both(step, start, entry, appends);
    let first = entry.subrange(0, 4);
    let copies = entry.subrange(4, entry.len() - 6);
    let tail = entry.subrange(entry.len() - 6, entry.len() as int);
    let enter = tail.subrange(0, 5);
    let prepare = tail.subrange(5, 6);
    assert(entry =~= first + copies + tail);
    assert(tail =~= enter + prepare);
    crate::device::lemma_after_both(step, start, first + copies, tail);
    crate::device::lemma_after_both(step, start, first, copies);
    assert(first =~= embedding_ops(frame));
    lemma_embedded(frame, start, first);
    let embedded = crate::device::after(step, start, first);
    let paired = crate::device::after(step, embedded, copies);
    if rows > 1 {
        crate::device::lemma_after_two(step, embedded, copies);
    } else {
        crate::device::lemma_after_one(step, embedded, copies);
    }
    assert(paired == MtpDevice { target: paired.target, ..embedded });
    assert forall|value: int| 0 <= value < rows * width implies (#[trigger] (paired.target)(value))
        == Some(
        if value < width {
            StreamValue::Initial(value)
        } else {
            StreamValue::Target(value - width)
        },
    ) by {}
    assert forall|row: int, value: int|
        #![trigger (paired.target)(row * width + value)]
        0 <= row < rows && 0 <= value < width implies (paired.target)(row * width + value) == Some(
        if row == 0 {
            StreamValue::Initial(value)
        } else {
            StreamValue::Target((row - 1) * width + value)
        },
    ) by {
        assert(0 <= row * width + value < rows * width) by (nonlinear_arith)
            requires
                0 <= row < rows,
                0 <= value < width,
        ;
        assert(row > 0 ==> row * width == (row - 1) * width + width && (row - 1) * width >= 0)
            by (nonlinear_arith)
            requires
                width >= 0,
        ;
        assert(row == 0 ==> row * width == 0) by (nonlinear_arith);
    }
    crate::device::lemma_after_both(step, paired, enter, prepare);
    assert(enter =~= entering_ops(frame));
    lemma_entered(frame, paired, enter);
    let entered = crate::device::after(step, paired, enter);
    crate::device::lemma_after_one(step, entered, prepare);
    let prepared = crate::device::after(step, entered, prepare);
    assert(prepared == MtpDevice { prepared: true, ..entered });
    lemma_segments(frame, prepared, segments, segments.len());
}

} // verus!
