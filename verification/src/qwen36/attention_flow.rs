//! What the operations of an attention layer leave in its buffers.

use crate::qwen36::attention::{
    AttentionInput, AttentionLayer, AttentionOp, AttentionPlans, AttentionProjection,
    DecodeSequence, PrefillSequence,
};
use crate::qwen36::linear::{BatchFp8InputQuantization, Linear, Storage};
use vstd::prelude::*;

verus! {

/// An operation that appends rows to the cache and attends from them: its first row, its row
/// count, where the rows go, and how many positions precede the first one.
pub struct Attended {
    /// Row of the batch.
    pub row: int,
    /// Rows.
    pub rows: int,
    /// Page.
    pub page: u32,
    /// First place in the page.
    pub page_offset: int,
    /// Position of the first row.
    pub position: int,
}

/// Buffers of an attention layer: which of them hold values of the batch at hand.
pub struct AttentionDevice {
    /// Every operation so far found its inputs ready, took all rows and widths of the layer,
    /// and wrote a buffer that was not written before.
    pub sound: bool,
    /// How the residual stream was quantised.
    pub hidden: BatchFp8InputQuantization,
    /// Projected queries with their gates.
    pub query: bool,
    /// Projected keys.
    pub key: bool,
    /// Projected values.
    pub value: bool,
    /// Normalised queries and keys, and the gates.
    pub normalised: bool,
    /// Rotated queries.
    pub rotated_query: bool,
    /// Rotated keys.
    pub rotated_key: bool,
    /// Rows that were cached and attended from, in order.
    pub attended: Seq<Attended>,
    /// Gated attention output.
    pub gated: bool,
    /// How the gated output was quantised.
    pub gated_form: BatchFp8InputQuantization,
    /// Output of the layer.
    pub output: bool,
}

/// Buffers before the first operation of a layer.
pub open spec fn idle() -> AttentionDevice {
    AttentionDevice {
        sound: true,
        hidden: BatchFp8InputQuantization::Unused,
        query: false,
        key: false,
        value: false,
        normalised: false,
        rotated_query: false,
        rotated_key: false,
        attended: Seq::empty(),
        gated: false,
        gated_form: BatchFp8InputQuantization::Unused,
        output: false,
    }
}

/// Whether weights can be multiplied with an input in some form.
pub open spec fn takes(linear: Linear, form: BatchFp8InputQuantization) -> bool {
    linear.storage == Storage::Fp8 ==> match form {
        BatchFp8InputQuantization::Unused => false,
        BatchFp8InputQuantization::Dynamic => true,
        BatchFp8InputQuantization::Static(bits) => !linear.channel_scaled && linear.input_scale
            == Some(bits),
    }
}

impl AttentionDevice {
    /// Whether the cache can be appended to and attended from.
    pub open spec fn rows_ready(self) -> bool {
        self.rotated_query && self.rotated_key && self.value
    }

    /// What a projection of all rows leaves.
    pub open spec fn projected(
        self,
        layer: AttentionLayer,
        target: AttentionProjection,
        mode: BatchFp8InputQuantization,
    ) -> AttentionDevice {
        match target {
            AttentionProjection::Query => AttentionDevice {
                sound: self.sound && !self.query && mode == self.hidden && takes(layer.q, mode),
                query: true,
                ..self
            },
            AttentionProjection::Key => AttentionDevice {
                sound: self.sound && !self.key && mode == self.hidden && takes(layer.k, mode),
                key: true,
                ..self
            },
            AttentionProjection::Value => AttentionDevice {
                sound: self.sound && !self.value && mode == self.hidden && takes(layer.v, mode),
                value: true,
                ..self
            },
            AttentionProjection::Output => AttentionDevice {
                sound: self.sound && self.gated && !self.output && mode == self.gated_form
                    && takes(layer.o, mode),
                output: true,
                ..self
            },
        }
    }

    /// What one operation leaves, of a layer that runs on `all` rows.
    pub open spec fn performed(
        self,
        layer: AttentionLayer,
        all: int,
        op: AttentionOp,
    ) -> AttentionDevice {
        match op {
            AttentionOp::Quantize { input: AttentionInput::Hidden, rows, cols, mode } => {
                AttentionDevice {
                    sound: self.sound && self.hidden is Unused && rows == all && cols
                        == layer.hidden && !self.query && !self.key && !self.value,
                    hidden: mode,
                    ..self
                }
            },
            AttentionOp::Quantize { input: AttentionInput::Gated, rows, cols, mode } => {
                AttentionDevice {
                    sound: self.sound && self.gated_form is Unused && self.gated && rows == all
                        && cols == layer.q_heads * layer.head_dim,
                    gated_form: mode,
                    ..self
                }
            },
            AttentionOp::Project { target, rows, mode } => {
                let next = self.projected(layer, target, mode);
                AttentionDevice { sound: next.sound && rows == all, ..next }
            },
            AttentionOp::Prep { rows, q_heads, kv_heads, head_dim } => AttentionDevice {
                sound: self.sound && self.query && self.key && !self.normalised && rows == all
                    && q_heads == layer.q_heads && kv_heads == layer.kv_heads && head_dim
                    == layer.head_dim,
                normalised: true,
                ..self
            },
            AttentionOp::RopeQuery { rows, heads, head_dim, rotary, sections } => AttentionDevice {
                sound: self.sound && self.normalised && !self.rotated_query && rows == all && heads
                    == layer.q_heads && head_dim == layer.head_dim && rotary == layer.rotary_dim
                    && layer.sections == Some(sections),
                rotated_query: true,
                ..self
            },
            AttentionOp::RopeKey { rows, heads, head_dim, rotary, sections } => AttentionDevice {
                sound: self.sound && self.normalised && !self.rotated_key && rows == all && heads
                    == layer.kv_heads && head_dim == layer.head_dim && rotary == layer.rotary_dim
                    && layer.sections == Some(sections),
                rotated_key: true,
                ..self
            },
            AttentionOp::CacheRow { row, page, page_offset, kv_offset, context, q_offset } => {
                AttentionDevice {
                    sound: self.sound && self.rows_ready() && row < all && !self.gated && kv_offset
                        == row * (layer.kv_heads * layer.head_dim) && q_offset == row * (
                    layer.q_heads * layer.head_dim),
                    attended: self.attended.push(
                        Attended {
                            row: row as int,
                            rows: 1,
                            page,
                            page_offset: page_offset as int,
                            position: context - 1,
                        },
                    ),
                    ..self
                }
            },
            AttentionOp::CacheRows { page, page_offset, position, input_row, rows, .. } => {
                AttentionDevice {
                    sound: self.sound && self.rows_ready() && input_row + rows <= all
                        && !self.gated,
                    attended: self.attended.push(
                        Attended {
                            row: input_row as int,
                            rows: rows as int,
                            page,
                            page_offset: page_offset as int,
                            position: position as int,
                        },
                    ),
                    ..self
                }
            },
            AttentionOp::Gate { values } => AttentionDevice {
                sound: self.sound && self.normalised && !self.gated && values == all * (
                layer.q_heads * layer.head_dim),
                gated: true,
                ..self
            },
        }
    }
}

/// What the operations of a layer that runs on `all` rows do.
pub open spec fn layer_step(layer: AttentionLayer, all: int) -> spec_fn(
    AttentionDevice,
    AttentionOp,
) -> AttentionDevice {
    |device: AttentionDevice, op: AttentionOp| device.performed(layer, all, op)
}

/// Before the cache is touched, queries, keys and values of all rows are projected from one
/// common form of the input, queries and keys are normalised, and then each of the two is
/// rotated, once, by the layer's own heads, rotary width and sections.
#[verifier::rlimit(40)]
pub proof fn law_rows_are_rotated_before_the_cache(
    layer: AttentionLayer,
    plans: AttentionPlans,
    capacity: usize,
)
    requires
        layer.pre_obstacle(plans, capacity) is None,
    ensures
        ({
            let ops = layer.pre_ops(capacity, layer.sections->0);
            let device = crate::device::after(layer_step(layer, capacity as int), idle(), ops);
            &&& device.sound
            &&& device.rows_ready()
            &&& device.normalised
            &&& device.attended.len() == 0
            &&& !device.gated && device.gated_form is Unused && !device.output
        }),
{
    broadcast use crate::device::group_after;

    lemma_entry_forms(layer, capacity);
    let mode = layer.hidden_mode(capacity);
    let step = layer_step(layer, capacity as int);
    let quantized = crate::qwen36::attention::quantize_ops(
        AttentionInput::Hidden,
        capacity,
        layer.hidden,
        mode,
    );
    let first = crate::device::after(step, idle(), quantized);
    assert(first == AttentionDevice { hidden: mode, ..idle() });
    let ops = layer.pre_ops(capacity, layer.sections->0);
    let rest = ops.subrange(quantized.len() as int, ops.len() as int);
    assert(ops =~= quantized + rest);
    reveal_with_fuel(crate::device::after, 8);
    assert(crate::device::after(step, first, rest).sound);
}

#[verifier::rlimit(40)]
proof fn lemma_entry_forms(layer: AttentionLayer, capacity: usize)
    ensures
        takes(layer.q, layer.hidden_mode(capacity)),
        takes(layer.k, layer.hidden_mode(capacity)),
        takes(layer.v, layer.hidden_mode(capacity)),
        takes(layer.o, layer.gated_mode(capacity)),
{
    let entry = seq![layer.q, layer.k, layer.v];
    if layer.q.storage == Storage::Fp8 {
        crate::qwen36::linear::law_prepared_activation_fits(entry, capacity, 0);
    }
    if layer.k.storage == Storage::Fp8 {
        crate::qwen36::linear::law_prepared_activation_fits(entry, capacity, 1);
    }
    if layer.v.storage == Storage::Fp8 {
        crate::qwen36::linear::law_prepared_activation_fits(entry, capacity, 2);
    }
    if layer.o.storage == Storage::Fp8 {
        crate::qwen36::linear::law_prepared_activation_fits(seq![layer.o], capacity, 0);
    }
}

/// Once its rows were attended from, a layer gates their outputs, prepares them for the output
/// projection as its weights need them, and projects all of them.
#[verifier::rlimit(40)]
pub proof fn law_attention_output_is_gated_and_projected(
    layer: AttentionLayer,
    capacity: usize,
    before: AttentionDevice,
)
    requires
        layer.fits(capacity),
        before.sound,
        before.normalised,
        !before.gated && before.gated_form is Unused && !before.output,
    ensures
        ({
            let ops = layer.post_ops(capacity);
            let device = crate::device::after(layer_step(layer, capacity as int), before, ops);
            &&& device.sound
            &&& device.output
            &&& device.attended == before.attended
        }),
{
    broadcast use crate::device::group_after;

    lemma_entry_forms(layer, capacity);
    let step = layer_step(layer, capacity as int);
    let ops = layer.post_ops(capacity);
    assert(0 <= layer.q_width()) by (nonlinear_arith)
        requires
            layer.q_width() == layer.q_heads * layer.head_dim,
    ;
    assert(0 <= capacity * layer.q_width()) by (nonlinear_arith)
        requires
            0 <= layer.q_width(),
    ;
    reveal_with_fuel(crate::device::after, 5);
    assert(crate::device::after(step, before, ops).sound);
}

/// What the cache operations of some decode rows leave.
#[verifier::rlimit(40)]
proof fn lemma_decode_rows(
    layer: AttentionLayer,
    capacity: usize,
    sequences: Seq<DecodeSequence>,
    before: AttentionDevice,
    rows: nat,
)
    requires
        layer.fits(capacity),
        rows <= capacity,
        rows <= sequences.len(),
        before.sound,
        before.rows_ready(),
        !before.gated,
        forall|i: int| 0 <= i < sequences.len() ==> (#[trigger] sequences[i]).position < usize::MAX,
    ensures
        ({
            let ops = Seq::new(rows, |row: int| layer.decode_row(row, sequences[row]));
            let device = crate::device::after(layer_step(layer, capacity as int), before, ops);
            &&& device.sound
            &&& device == AttentionDevice { attended: device.attended, ..before }
            &&& device.attended == before.attended + Seq::new(
                rows,
                |row: int| decoded(sequences[row], row),
            )
        }),
    decreases rows,
{
    let step = layer_step(layer, capacity as int);
    let ops = Seq::new(rows, |row: int| layer.decode_row(row, sequences[row]));
    if rows == 0 {
        assert(before.attended =~= before.attended + Seq::new(
            rows,
            |row: int| decoded(sequences[row], row),
        ));
    } else {
        let fewer = (rows - 1) as nat;
        let earlier = Seq::new(fewer, |row: int| layer.decode_row(row, sequences[row]));
        lemma_decode_rows(layer, capacity, sequences, before, fewer);
        assert(ops.drop_last() =~= earlier);
        let row = rows - 1;
        assert(sequences[row].position < usize::MAX);
        lemma_offset(row, capacity as int, layer.q_heads as int, layer.head_dim as int);
        lemma_offset(row, capacity as int, layer.kv_heads as int, layer.head_dim as int);
        let device = crate::device::after(step, before, ops);
        assert(device.attended =~= before.attended + Seq::new(
            rows,
            |r: int| decoded(sequences[r], r),
        ));
    }
}

#[verifier::rlimit(40)]
proof fn lemma_offset(row: int, rows: int, heads: int, head_dim: int)
    requires
        0 <= row <= rows,
        0 <= heads,
        0 <= head_dim,
    ensures
        0 <= heads * head_dim,
        0 <= row * (heads * head_dim) <= rows * (heads * head_dim),
{
    assert(0 <= heads * head_dim) by (nonlinear_arith)
        requires
            0 <= heads,
            0 <= head_dim,
    ;
    let width = heads * head_dim;
    assert(0 <= row * width <= rows * width) by (nonlinear_arith)
        requires
            0 <= row <= rows,
            0 <= width,
    ;
}

/// Where a decode row belongs: in the place that was set aside for its sequence, at the
/// position after the cached tokens.
pub open spec fn decoded(sequence: DecodeSequence, row: int) -> Attended {
    Attended {
        row,
        rows: 1,
        page: sequence.reservation.segments@[0].page,
        page_offset: sequence.reservation.segments@[0].page_offset as int,
        position: sequence.position as int,
    }
}

/// An attention layer of a decode batch runs as a whole: every operation finds its inputs, each
/// active row is cached once in the place of its own sequence and attends from there, and the
/// output of all rows is projected.
#[verifier::rlimit(40)]
pub proof fn law_decode_attention_runs(
    layer: AttentionLayer,
    plans: AttentionPlans,
    capacity: usize,
    sequences: Seq<DecodeSequence>,
    active: nat,
)
    requires
        layer.fits(capacity),
        layer.pre_obstacle(plans, capacity) is None,
        active <= capacity,
        active <= sequences.len(),
        forall|i: int| 0 <= i < sequences.len() ==> (#[trigger] sequences[i]).position < usize::MAX,
    ensures
        ({
            let ops = layer.pre_ops(capacity, layer.sections->0) + Seq::new(
                active,
                |row: int| layer.decode_row(row, sequences[row]),
            ) + layer.post_ops(capacity);
            let device = crate::device::after(layer_step(layer, capacity as int), idle(), ops);
            &&& device.sound
            &&& device.output
            &&& device.attended == Seq::new(active, |row: int| decoded(sequences[row], row))
        }),
{
    broadcast use crate::device::group_after;

    let step = layer_step(layer, capacity as int);
    let rotated = crate::device::after(
        step,
        idle(),
        layer.pre_ops(capacity, layer.sections->0),
    );
    law_rows_are_rotated_before_the_cache(layer, plans, capacity);
    lemma_decode_rows(layer, capacity, sequences, rotated, active);
    let cached = crate::device::after(
        step,
        rotated,
        Seq::new(active, |row: int| layer.decode_row(row, sequences[row])),
    );
    law_attention_output_is_gated_and_projected(layer, capacity, cached);
    assert(cached.attended =~= Seq::new(active, |row: int| decoded(sequences[row], row)));
}

/// Whether an operation caches rows of one segment of a prompt: a run of its rows, each in the
/// place of the segment's page and at the position that its offset gives it.
pub open spec fn runs_in_segment(
    op: AttentionOp,
    sequences: Seq<PrefillSequence>,
    offsets: Seq<u32>,
    index: int,
    segment: int,
) -> bool {
    let prompt = sequences[index];
    let place = prompt.reservation.segments@[segment];
    match op {
        AttentionOp::CacheRows { sequence, page, page_offset, position, input_row, rows } => {
            let from = page_offset - place.page_offset;
            &&& sequence == index
            &&& page == place.page
            &&& rows > 0
            &&& 0 <= from
            &&& from + rows <= place.rows
            &&& position == prompt.position + place.input_offset + from
            &&& input_row == offsets[index] + place.input_offset + from
        },
        _ => false,
    }
}

/// Whether some operation caches one row of a segment of a prompt.
pub open spec fn row_is_cached(
    ops: Seq<AttentionOp>,
    sequences: Seq<PrefillSequence>,
    offsets: Seq<u32>,
    index: int,
    segment: int,
    row: int,
) -> bool {
    exists|i: int|
        {
            &&& 0 <= i < ops.len()
            &&& #[trigger] runs_in_segment(ops[i], sequences, offsets, index, segment)
            &&& holds_row(
                ops[i],
                sequences[index].reservation.segments@[segment].page_offset as int + row,
            )
        }
}

/// Whether an operation writes one place of its page.
pub open spec fn holds_row(op: AttentionOp, place: int) -> bool {
    match op {
        AttentionOp::CacheRows { page_offset, rows, .. } => page_offset <= place < page_offset
            + rows,
        _ => false,
    }
}

/// Rows that some operations cache, counted as often as they are cached.
pub open spec fn cached_rows(ops: Seq<AttentionOp>) -> int
    decreases ops.len(),
{
    if ops.len() == 0 {
        0
    } else {
        cached_rows(ops.drop_last()) + match ops.last() {
            AttentionOp::CacheRows { rows, .. } => rows as int,
            _ => 0,
        }
    }
}

#[verifier::rlimit(40)]
proof fn lemma_cached_both(left: Seq<AttentionOp>, right: Seq<AttentionOp>)
    ensures
        cached_rows(left + right) == cached_rows(left) + cached_rows(right),
    decreases right.len(),
{
    if right.len() == 0 {
        assert(left + right =~= left);
    } else {
        lemma_cached_both(left, right.drop_last());
        assert((left + right).drop_last() =~= left + right.drop_last());
        assert((left + right).last() == right.last());
    }
}

#[verifier::rlimit(40)]
proof fn lemma_cached_within(
    part: Seq<AttentionOp>,
    all: Seq<AttentionOp>,
    shift: int,
    sequences: Seq<PrefillSequence>,
    offsets: Seq<u32>,
    index: int,
    segment: int,
    row: int,
)
    requires
        row_is_cached(part, sequences, offsets, index, segment, row),
        0 <= shift,
        shift + part.len() <= all.len(),
        forall|i: int| 0 <= i < part.len() ==> #[trigger] part[i] == all[shift + i],
    ensures
        row_is_cached(all, sequences, offsets, index, segment, row),
{
    let place = sequences[index].reservation.segments@[segment].page_offset as int + row;
    let i = choose|i: int|
        {
            &&& 0 <= i < part.len()
            &&& #[trigger] runs_in_segment(part[i], sequences, offsets, index, segment)
            &&& holds_row(part[i], place)
        };
    assert(runs_in_segment(all[shift + i], sequences, offsets, index, segment));
}

#[verifier::rlimit(40)]
proof fn lemma_segment_rows(
    sequences: Seq<PrefillSequence>,
    offsets: Seq<u32>,
    index: int,
    segment: int,
    serial: bool,
    processed: int,
)
    requires
        0 <= index < sequences.len(),
        index <= usize::MAX,
        0 <= segment < sequences[index].reservation.segments@.len(),
        sequences[index].fits(offsets[index] as int),
        0 <= processed <= sequences[index].reservation.segments@[segment].rows,
    ensures
        ({
            let prompt = sequences[index];
            let place = prompt.reservation.segments@[segment];
            let ops = prompt.segment_ops(index, place, offsets[index] as int, serial, processed);
            &&& forall|i: int|
                0 <= i < ops.len() ==> runs_in_segment(
                    #[trigger] ops[i],
                    sequences,
                    offsets,
                    index,
                    segment,
                )
            &&& forall|row: int|
                processed <= row < place.rows ==> #[trigger] row_is_cached(
                    ops,
                    sequences,
                    offsets,
                    index,
                    segment,
                    row,
                )
            &&& cached_rows(ops) == place.rows - processed
        }),
    decreases sequences[index].reservation.segments@[segment].rows - processed,
{
    let prompt = sequences[index];
    let place = prompt.reservation.segments@[segment];
    let start = offsets[index] as int;
    let ops = prompt.segment_ops(index, place, start, serial, processed);
    let rows = crate::qwen36::attention::chunk_rows(
        place.rows - processed,
        prompt.position + place.input_offset + processed,
        serial,
    );
    assert(crate::append::segments_fit(prompt.reservation.segments@, prompt.position as int));
    if processed < place.rows {
        assert(1 <= rows <= place.rows - processed);
        lemma_segment_rows(sequences, offsets, index, segment, serial, processed + rows);
        let rest = prompt.segment_ops(index, place, start, serial, processed + rows);
        let first = seq![ops[0]];
        assert(ops =~= first + rest);
        lemma_cached_both(first, rest);
        assert(cached_rows(first) == rows) by {
            reveal_with_fuel(cached_rows, 2);
        }
        assert forall|i: int| 0 <= i < ops.len() implies runs_in_segment(
            #[trigger] ops[i],
            sequences,
            offsets,
            index,
            segment,
        ) by {
            if i > 0 {
                assert(ops[i] == rest[i - 1]);
            }
        }
        assert forall|row: int| processed <= row < place.rows implies #[trigger] row_is_cached(
            ops,
            sequences,
            offsets,
            index,
            segment,
            row,
        ) by {
            if row < processed + rows {
                assert(runs_in_segment(ops[0], sequences, offsets, index, segment));
                assert(holds_row(ops[0], place.page_offset as int + row));
            } else {
                lemma_cached_within(rest, ops, 1, sequences, offsets, index, segment, row);
            }
        }
    }
}

/// Whether an operation runs in one of the first `count` segments of a prompt.
pub open spec fn runs_in_prompt(
    op: AttentionOp,
    sequences: Seq<PrefillSequence>,
    offsets: Seq<u32>,
    index: int,
    count: int,
) -> bool {
    exists|segment: int|
        0 <= segment < count && #[trigger] runs_in_segment(
            op,
            sequences,
            offsets,
            index,
            segment,
        )
}

#[verifier::rlimit(40)]
proof fn lemma_prompt_rows(
    sequences: Seq<PrefillSequence>,
    offsets: Seq<u32>,
    index: int,
    serial: bool,
    count: nat,
)
    requires
        0 <= index < sequences.len(),
        index <= usize::MAX,
        count <= sequences[index].reservation.segments@.len(),
        sequences[index].fits(offsets[index] as int),
    ensures
        ({
            let prompt = sequences[index];
            let segments = prompt.reservation.segments@;
            let ops = prompt.sequence_ops(index, offsets[index] as int, serial, count);
            &&& forall|i: int|
                0 <= i < ops.len() ==> runs_in_prompt(
                    #[trigger] ops[i],
                    sequences,
                    offsets,
                    index,
                    count as int,
                )
            &&& forall|segment: int, row: int|
                0 <= segment < count && 0 <= row < segments[segment].rows
                    ==> #[trigger] row_is_cached(ops, sequences, offsets, index, segment, row)
            &&& cached_rows(ops) == crate::append::segment_rows(segments, count)
        }),
    decreases count,
{
    if count > 0 {
        let prompt = sequences[index];
        let segments = prompt.reservation.segments@;
        let start = offsets[index] as int;
        let fewer = (count - 1) as nat;
        let before = prompt.sequence_ops(index, start, serial, fewer);
        let last = prompt.segment_ops(index, segments[count - 1], start, serial, 0);
        let ops = prompt.sequence_ops(index, start, serial, count);
        lemma_prompt_rows(sequences, offsets, index, serial, fewer);
        lemma_segment_rows(sequences, offsets, index, count - 1, serial, 0);
        lemma_cached_both(before, last);
        assert forall|i: int| 0 <= i < ops.len() implies runs_in_prompt(
            #[trigger] ops[i],
            sequences,
            offsets,
            index,
            count as int,
        ) by {
            if i < before.len() {
                assert(ops[i] == before[i]);
                assert(runs_in_prompt(before[i], sequences, offsets, index, fewer as int));
            } else {
                assert(ops[i] == last[i - before.len()]);
                assert(runs_in_segment(
                    last[i - before.len()],
                    sequences,
                    offsets,
                    index,
                    count - 1,
                ));
            }
        }
        assert forall|segment: int, row: int|
            0 <= segment < count && 0 <= row
                < segments[segment].rows implies #[trigger] row_is_cached(
            ops,
            sequences,
            offsets,
            index,
            segment,
            row,
        ) by {
            if segment < count - 1 {
                assert(row_is_cached(before, sequences, offsets, index, segment, row));
                lemma_cached_within(before, ops, 0, sequences, offsets, index, segment, row);
            } else {
                assert(row_is_cached(last, sequences, offsets, index, segment, row));
                lemma_cached_within(
                    last,
                    ops,
                    before.len() as int,
                    sequences,
                    offsets,
                    index,
                    segment,
                    row,
                );
            }
        }
    }
}

/// Rows that were set aside for the first `count` prompts.
pub open spec fn reserved_rows(sequences: Seq<PrefillSequence>, count: nat) -> int
    decreases count,
{
    if count == 0 {
        0
    } else {
        reserved_rows(sequences, (count - 1) as nat) + crate::append::segment_rows(
            sequences[count - 1].reservation.segments@,
            sequences[count - 1].reservation.segments@.len(),
        )
    }
}

/// Whether an operation runs in a segment of one of the first `count` prompts.
pub open spec fn runs_in_batch(
    op: AttentionOp,
    sequences: Seq<PrefillSequence>,
    offsets: Seq<u32>,
    count: int,
) -> bool {
    exists|index: int|
        0 <= index < count && #[trigger] runs_in_prompt(
            op,
            sequences,
            offsets,
            index,
            sequences[index].reservation.segments@.len() as int,
        )
}

/// A ragged prompt batch caches every row that was set aside for it, each once: in its place of
/// the page of its own sequence, from its own row of the batch and at its own position.
/// Nothing else is cached.
#[verifier::rlimit(40)]
pub proof fn law_prompt_rows_reach_their_pages(
    sequences: Seq<PrefillSequence>,
    offsets: Seq<u32>,
    serial: bool,
    count: nat,
)
    requires
        count <= sequences.len(),
        sequences.len() <= usize::MAX,
        sequences.len() <= offsets.len(),
        forall|i: int|
            0 <= i < sequences.len() ==> (#[trigger] sequences[i]).fits(offsets[i] as int),
    ensures
        ({
            let ops = crate::qwen36::attention::prefill_ops(sequences, offsets, serial, count);
            &&& forall|i: int|
                0 <= i < ops.len() ==> runs_in_batch(
                    #[trigger] ops[i],
                    sequences,
                    offsets,
                    count as int,
                )
            &&& forall|index: int, segment: int, row: int|
                0 <= index < count && 0 <= segment < sequences[index].reservation.segments@.len()
                    && 0 <= row < sequences[index].reservation.segments@[segment].rows
                    ==> #[trigger] row_is_cached(ops, sequences, offsets, index, segment, row)
            &&& cached_rows(ops) == reserved_rows(sequences, count)
        }),
    decreases count,
{
    if count > 0 {
        let fewer = (count - 1) as nat;
        let prompt = sequences[count - 1];
        let segments = prompt.reservation.segments@;
        assert(prompt.fits(offsets[count - 1] as int));
        let before = crate::qwen36::attention::prefill_ops(sequences, offsets, serial, fewer);
        let last = prompt.sequence_ops(
            count - 1,
            offsets[count - 1] as int,
            serial,
            segments.len(),
        );
        let ops = crate::qwen36::attention::prefill_ops(sequences, offsets, serial, count);
        assert(ops =~= before + last);
        law_prompt_rows_reach_their_pages(sequences, offsets, serial, fewer);
        lemma_prompt_rows(sequences, offsets, count - 1, serial, segments.len());
        lemma_cached_both(before, last);
        assert forall|i: int| 0 <= i < ops.len() implies runs_in_batch(
            #[trigger] ops[i],
            sequences,
            offsets,
            count as int,
        ) by {
            if i < before.len() {
                assert(ops[i] == before[i]);
                assert(runs_in_batch(before[i], sequences, offsets, fewer as int));
            } else {
                assert(ops[i] == last[i - before.len()]);
                assert(runs_in_prompt(
                    last[i - before.len()],
                    sequences,
                    offsets,
                    count - 1,
                    sequences[count - 1].reservation.segments@.len() as int,
                ));
            }
        }
        assert forall|index: int, segment: int, row: int|
            0 <= index < count && 0 <= segment < sequences[index].reservation.segments@.len() && 0
                <= row
                < sequences[index].reservation.segments@[segment].rows implies #[trigger] row_is_cached(
            ops,
            sequences,
            offsets,
            index,
            segment,
            row,
        ) by {
            if index < count - 1 {
                assert(row_is_cached(before, sequences, offsets, index, segment, row));
                lemma_cached_within(before, ops, 0, sequences, offsets, index, segment, row);
            } else {
                assert(row_is_cached(last, sequences, offsets, index, segment, row));
                lemma_cached_within(
                    last,
                    ops,
                    before.len() as int,
                    sequences,
                    offsets,
                    index,
                    segment,
                    row,
                );
            }
        }
    }
}

} // verus!
