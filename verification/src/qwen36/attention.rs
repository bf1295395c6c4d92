//! Full attention over paged keys and values, for ragged prompts and decode batches.

use vstd::prelude::*;
use crate::append::{AppendSegment, Reservation};
use crate::manifest::QwenModelManifest;
use crate::qwen36::linear::{
    check_storage, prepare_fp8_batch_input, BatchFp8InputQuantization, Linear, LinearError, Storage,
};

verus! {

/// Rows that one causal attention call takes at most.
pub const ATTENTION_CHUNK_ROWS: usize = 8;

/// Positions that share one block of packed keys.
pub const ATTENTION_BLOCK_POSITIONS: usize = 16;

/// Why full attention cannot run.
#[derive(Clone, Copy, Debug, PartialEq, Eq, Structural)]
pub enum AttentionError {
    /// A projection cannot run.
    Projection(LinearError),
    /// The manifest has no rotary sections.
    NoSections,
    /// A reservation does not cover exactly the row of its sequence.
    DecodeAppend,
    /// A reservation does not cover the tokens of its sequence.
    PrefillAppend {
        /// First reserved position.
        start: usize,
        /// Reserved rows.
        rows: usize,
        /// Position of the sequence.
        position: usize,
        /// Tokens of the sequence.
        tokens: usize,
    },
}

/// Sections of the multimodal rotary embedding.
#[derive(Clone, Copy, Debug, PartialEq, Eq, Structural)]
pub struct MropeSections {
    /// First section.
    pub v0: usize,
    /// Second section.
    pub v1: usize,
    /// Third section.
    pub v2: usize,
    /// Fourth section.
    pub v3: usize,
}

/// Activation that projections of an attention layer share.
#[derive(Clone, Copy, Debug, PartialEq, Eq, Structural)]
pub enum AttentionInput {
    /// Normalised residual stream.
    Hidden,
    /// Gated attention output.
    Gated,
}

/// Projection of an attention layer.
#[derive(Clone, Copy, Debug, PartialEq, Eq, Structural)]
pub enum AttentionProjection {
    /// Queries and their gates.
    Query,
    /// Keys.
    Key,
    /// Values.
    Value,
    /// Output.
    Output,
}

/// One device operation of an attention layer.
#[derive(Clone, Copy, Debug, PartialEq, Eq, Structural)]
#[allow(inconsistent_fields)]
pub enum AttentionOp {
    /// Quantise a shared activation.
    Quantize { input: AttentionInput, rows: usize, cols: usize, mode: BatchFp8InputQuantization },
    /// Run a projection.
    Project { target: AttentionProjection, rows: usize, mode: BatchFp8InputQuantization },
    /// Split queries from gates, and normalise queries and keys.
    Prep { rows: usize, q_heads: usize, kv_heads: usize, head_dim: usize },
    /// Rotate the queries.
    RopeQuery { rows: usize, heads: usize, head_dim: usize, rotary: usize, sections: MropeSections },
    /// Rotate the keys.
    RopeKey { rows: usize, heads: usize, head_dim: usize, rotary: usize, sections: MropeSections },
    /// Append keys and values of one decode row, then attend from it.
    CacheRow {
        row: usize,
        page: u32,
        page_offset: usize,
        kv_offset: usize,
        context: usize,
        q_offset: usize,
    },
    /// Append keys and values of prompt rows, then attend from them causally.
    CacheRows {
        sequence: usize,
        page: u32,
        page_offset: usize,
        position: usize,
        input_row: usize,
        rows: usize,
    },
    /// Multiply the attention output by the sigmoid of its gate.
    Gate { values: usize },
}

/// Dimensions and weights of an attention layer.
#[derive(Clone, Copy, Debug, PartialEq, Eq, Structural)]
pub struct AttentionLayer {
    /// Width of the residual stream.
    pub hidden: usize,
    /// Query heads.
    pub q_heads: usize,
    /// Key and value heads.
    pub kv_heads: usize,
    /// Width of one head.
    pub head_dim: usize,
    /// Rotated part of one head.
    pub rotary_dim: usize,
    /// Rotary sections.
    pub sections: Option<MropeSections>,
    /// Query projection.
    pub q: Linear,
    /// Key projection.
    pub k: Linear,
    /// Value projection.
    pub v: Linear,
    /// Output projection.
    pub o: Linear,
}

/// Storage formats that the projections of the attention layers are planned for.
#[derive(Clone, Copy, Debug, PartialEq, Eq, Structural)]
pub struct AttentionPlans {
    /// Query projection.
    pub q: Storage,
    /// Key projection.
    pub k: Storage,
    /// Value projection.
    pub v: Storage,
    /// Output projection.
    pub o: Storage,
}

/// Quantisation of a shared activation, where it is needed.
pub open spec fn quantize_ops(
    input: AttentionInput,
    rows: usize,
    cols: usize,
    mode: BatchFp8InputQuantization,
) -> Seq<AttentionOp> {
    if mode is Unused {
        seq![]
    } else {
        seq![AttentionOp::Quantize { input, rows, cols, mode }]
    }
}

fn push_quantize(
    ops: &mut Vec<AttentionOp>,
    input: AttentionInput,
    rows: usize,
    cols: usize,
    mode: BatchFp8InputQuantization,
)
    ensures
        final(ops)@ == old(ops)@ + quantize_ops(input, rows, cols, mode),
{
    match mode {
        BatchFp8InputQuantization::Unused => {},
        _ => {
            ops.push(AttentionOp::Quantize { input, rows, cols, mode });
        },
    }
    assert(ops@ =~= old(ops)@ + quantize_ops(input, rows, cols, mode));
}

/// Rows of the largest chunk at a position.
///
/// A chunk holds at most eight rows and stays within one block of packed keys. Serial rows are
/// taken one at a time.
pub open spec fn chunk_rows(left: int, position: int, serial: bool) -> int {
    let block = ATTENTION_BLOCK_POSITIONS - position % ATTENTION_BLOCK_POSITIONS as int;
    let fitting = if left < block {
        left
    } else {
        block
    };
    if serial {
        1
    } else if fitting < ATTENTION_CHUNK_ROWS {
        fitting
    } else {
        ATTENTION_CHUNK_ROWS as int
    }
}

/// A prompt row of a sequence within one batch.
pub struct PrefillSequence<'a> {
    /// Cached tokens of the sequence.
    pub position: usize,
    /// Tokens of the prompt chunk.
    pub tokens: usize,
    /// Reserved rows.
    pub reservation: &'a Reservation,
}

impl<'a> PrefillSequence<'a> {
    /// Whether the reservation covers the tokens.
    pub open spec fn covered(self) -> bool {
        self.reservation.start_position == self.position && self.reservation.rows == self.tokens
    }

    /// Inputs whose arithmetic is representable, for rows that start at `input_row`.
    pub open spec fn fits(self, input_row: int) -> bool {
        &&& crate::append::segments_fit(self.reservation.segments@, self.position as int)
        &&& crate::append::segments_fit(self.reservation.segments@, input_row)
    }

    /// Chunks of one segment, from the row `processed` on.
    pub open spec fn segment_ops(
        self,
        sequence: int,
        segment: AppendSegment,
        input_row: int,
        serial: bool,
        processed: int,
    ) -> Seq<AttentionOp>
        decreases segment.rows - processed,
    {
        let token = segment.input_offset + processed;
        let rows = chunk_rows(segment.rows - processed, self.position + token, serial);
        if processed >= segment.rows || rows <= 0 {
            seq![]
        } else {
            seq![
                AttentionOp::CacheRows {
                    sequence: sequence as usize,
                    page: segment.page,
                    page_offset: (segment.page_offset + processed) as usize,
                    position: (self.position + token) as usize,
                    input_row: (input_row + token) as usize,
                    rows: rows as usize,
                },
            ] + self.segment_ops(sequence, segment, input_row, serial, processed + rows)
        }
    }

    /// Chunks of the first `count` segments.
    pub open spec fn sequence_ops(
        self,
        sequence: int,
        input_row: int,
        serial: bool,
        count: nat,
    ) -> Seq<AttentionOp>
        decreases count,
    {
        if count == 0 {
            seq![]
        } else {
            self.sequence_ops(sequence, input_row, serial, (count - 1) as nat) + self.segment_ops(
                sequence,
                self.reservation.segments@[count - 1],
                input_row,
                serial,
                0,
            )
        }
    }

    fn push_segment(
        &self,
        ops: &mut Vec<AttentionOp>,
        sequence: usize,
        segment: AppendSegment,
        input_row: usize,
        serial: bool,
    )
        requires
            segment.page_offset + segment.rows <= usize::MAX,
            self.position + segment.input_offset + segment.rows <= usize::MAX,
            input_row + segment.input_offset + segment.rows <= usize::MAX,
        ensures
            final(ops)@ == old(ops)@ + self.segment_ops(
                sequence as int,
                segment,
                input_row as int,
                serial,
                0,
            ),
    {
        let ghost all = self.segment_ops(sequence as int, segment, input_row as int, serial, 0);
        let ghost start = ops@;
        let mut processed: usize = 0;
        while processed < segment.rows
            invariant
                processed <= segment.rows,
                segment.page_offset + segment.rows <= usize::MAX,
                self.position + segment.input_offset + segment.rows <= usize::MAX,
                input_row + segment.input_offset + segment.rows <= usize::MAX,
                start + all == ops@ + self.segment_ops(
                    sequence as int,
                    segment,
                    input_row as int,
                    serial,
                    processed as int,
                ),
            decreases segment.rows - processed,
        {
            let token: usize = segment.input_offset + processed;
            let position: usize = self.position + token;
            let rows: usize = if serial {
                1
            } else {
                let left: usize = segment.rows - processed;
                let block: usize = ATTENTION_BLOCK_POSITIONS - position % ATTENTION_BLOCK_POSITIONS;
                let fitting: usize = if left < block {
                    left
                } else {
                    block
                };
                if fitting < ATTENTION_CHUNK_ROWS {
                    fitting
                } else {
                    ATTENTION_CHUNK_ROWS
                }
            };
            let ghost before = ops@;
            ops.push(
                AttentionOp::CacheRows {
                    sequence,
                    page: segment.page,
                    page_offset: segment.page_offset + processed,
                    position,
                    input_row: input_row + token,
                    rows,
                },
            );
            proof {
                let rest = self.segment_ops(
                    sequence as int,
                    segment,
                    input_row as int,
                    serial,
                    processed + rows,
                );
                assert(self.segment_ops(
                    sequence as int,
                    segment,
                    input_row as int,
                    serial,
                    processed as int,
                ) == seq![ops@.last()] + rest);
                assert(before + (seq![ops@.last()] + rest) =~= ops@ + rest);
            }
            processed += rows;
        }
        assert(ops@ =~= start + all);
    }

    fn push_sequence(
        &self,
        ops: &mut Vec<AttentionOp>,
        sequence: usize,
        input_row: usize,
        serial: bool,
    )
        requires
            self.fits(input_row as int),
        ensures
            final(ops)@ == old(ops)@ + self.sequence_ops(
                sequence as int,
                input_row as int,
                serial,
                self.reservation.segments@.len(),
            ),
    {
        let ghost start = ops@;
        let mut i: usize = 0;
        assert(ops@ =~= start + self.sequence_ops(sequence as int, input_row as int, serial, 0));
        while i < self.reservation.segments.len()
            invariant
                i <= self.reservation.segments@.len(),
                self.fits(input_row as int),
                ops@ == start + self.sequence_ops(
                    sequence as int,
                    input_row as int,
                    serial,
                    i as nat,
                ),
            decreases self.reservation.segments@.len() - i,
        {
            let segment: AppendSegment = self.reservation.segments[i];
            assert(self.reservation.segments@[i as int] == segment);
            self.push_segment(ops, sequence, segment, input_row, serial);
            i += 1;
            assert(ops@ =~= start + self.sequence_ops(
                sequence as int,
                input_row as int,
                serial,
                i as nat,
            ));
        }
    }
}

/// Cache operations of the first `count` sequences of a prompt batch.
pub open spec fn prefill_ops(
    sequences: Seq<PrefillSequence>,
    row_offsets: Seq<u32>,
    serial: bool,
    count: nat,
) -> Seq<AttentionOp>
    decreases count,
{
    if count == 0 {
        seq![]
    } else {
        let last = sequences[count - 1];
        prefill_ops(sequences, row_offsets, serial, (count - 1) as nat) + last.sequence_ops(
            count - 1,
            row_offsets[count - 1] as int,
            serial,
            last.reservation.segments@.len(),
        )
    }
}

/// Plans the appends and the attention of a prompt batch.
///
/// The rows of a sequence start at its entry of `row_offsets`. Each chunk of rows is appended
/// before it attends.
pub fn enqueue_prefill_cache(
    sequences: &[PrefillSequence],
    row_offsets: &[u32],
    serial_rows: bool,
) -> (result: Result<Vec<AttentionOp>, AttentionError>)
    requires
        row_offsets@.len() >= sequences@.len(),
        forall|i: int|
            0 <= i < sequences@.len() ==> (#[trigger] sequences@[i]).fits(row_offsets@[i] as int),
    ensures
        match result {
            Ok(ops) => {
                &&& forall|i: int| 0 <= i < sequences@.len() ==> (#[trigger] sequences@[i]).covered()
                &&& ops@ == prefill_ops(sequences@, row_offsets@, serial_rows, sequences@.len())
            },
            Err(error) => exists|i: int|
                0 <= i < sequences@.len() && !(#[trigger] sequences@[i]).covered() && (
                forall|j: int| 0 <= j < i ==> (#[trigger] sequences@[j]).covered()) && error
                    == (AttentionError::PrefillAppend {
                    start: sequences@[i].reservation.start_position,
                    rows: sequences@[i].reservation.rows,
                    position: sequences@[i].position,
                    tokens: sequences@[i].tokens,
                }),
        },
{
    let mut ops: Vec<AttentionOp> = Vec::new();
    let mut i: usize = 0;
    while i < sequences.len()
        invariant
            i <= sequences@.len(),
            row_offsets@.len() >= sequences@.len(),
            forall|j: int|
                0 <= j < sequences@.len() ==> (#[trigger] sequences@[j]).fits(
                    row_offsets@[j] as int,
                ),
            forall|j: int| 0 <= j < i ==> (#[trigger] sequences@[j]).covered(),
            ops@ == prefill_ops(sequences@, row_offsets@, serial_rows, i as nat),
        decreases sequences@.len() - i,
    {
        let sequence = &sequences[i];
        let reservation = sequence.reservation;
        assert(sequences@[i as int].fits(row_offsets@[i as int] as int));
        if reservation.start_position != sequence.position || reservation.rows != sequence.tokens {
            assert(!sequences@[i as int].covered());
            return Err(
                AttentionError::PrefillAppend {
                    start: reservation.start_position,
                    rows: reservation.rows,
                    position: sequence.position,
                    tokens: sequence.tokens,
                },
            );
        }
        sequence.push_sequence(&mut ops, i, row_offsets[i] as usize, serial_rows);
        i += 1;
    }
    Ok(ops)
}

/// A sequence of a decode batch.
pub struct DecodeSequence<'a> {
    /// Cached tokens of the sequence.
    pub position: usize,
    /// Reserved row.
    pub reservation: &'a Reservation,
}

impl<'a> DecodeSequence<'a> {
    /// Whether the reservation covers exactly the decode row.
    pub open spec fn covered(self) -> bool {
        &&& self.reservation.start_position == self.position
        &&& self.reservation.rows == 1
        &&& self.reservation.segments@.len() == 1
    }
}

impl AttentionLayer {
    /// Width of all queries.
    pub open spec fn q_width(self) -> int {
        self.q_heads * self.head_dim
    }

    /// Width of all keys, or of all values.
    pub open spec fn kv_width(self) -> int {
        self.kv_heads * self.head_dim
    }

    /// Inputs whose arithmetic is representable.
    pub open spec fn fits(self, capacity: usize) -> bool {
        &&& self.q_width() <= usize::MAX
        &&& self.kv_width() <= usize::MAX
        &&& capacity * self.q_width() <= usize::MAX
        &&& capacity * self.kv_width() <= usize::MAX
    }

    /// Quantisation of the residual stream.
    pub open spec fn hidden_mode(self, capacity: usize) -> BatchFp8InputQuantization {
        crate::qwen36::linear::quantization_of(seq![self.q, self.k, self.v], capacity)
    }

    /// Quantisation of the gated output.
    pub open spec fn gated_mode(self, capacity: usize) -> BatchFp8InputQuantization {
        crate::qwen36::linear::quantization_of(seq![self.o], capacity)
    }

    /// Projections, normalisation and rotation.
    pub open spec fn pre_ops(self, capacity: usize, sections: MropeSections) -> Seq<AttentionOp> {
        let rows = capacity;
        let mode = self.hidden_mode(capacity);
        let head_dim = self.head_dim;
        let rotary = self.rotary_dim;
        quantize_ops(AttentionInput::Hidden, rows, self.hidden, mode) + seq![
            AttentionOp::Project { target: AttentionProjection::Query, rows, mode },
            AttentionOp::Project { target: AttentionProjection::Key, rows, mode },
            AttentionOp::Project { target: AttentionProjection::Value, rows, mode },
            AttentionOp::Prep { rows, q_heads: self.q_heads, kv_heads: self.kv_heads, head_dim },
            AttentionOp::RopeQuery { rows, heads: self.q_heads, head_dim, rotary, sections },
            AttentionOp::RopeKey { rows, heads: self.kv_heads, head_dim, rotary, sections },
        ]
    }

    /// What stands against the part before the attention itself, if anything: the first
    /// projection that its plan is not for, or missing sections.
    pub open spec fn pre_obstacle(
        self,
        plans: AttentionPlans,
        capacity: usize,
    ) -> Option<AttentionError> {
        let mode = self.hidden_mode(capacity);
        let q = crate::qwen36::linear::storage_obstacle(plans.q, self.q, mode);
        let k = crate::qwen36::linear::storage_obstacle(plans.k, self.k, mode);
        let v = crate::qwen36::linear::storage_obstacle(plans.v, self.v, mode);
        if q is Some {
            Some(AttentionError::Projection(q->0))
        } else if k is Some {
            Some(AttentionError::Projection(k->0))
        } else if v is Some {
            Some(AttentionError::Projection(v->0))
        } else if self.sections is None {
            Some(AttentionError::NoSections)
        } else {
            None
        }
    }

    fn check_entry(&self, plans: &AttentionPlans, mode: BatchFp8InputQuantization) -> (obstacle:
        Option<LinearError>)
        ensures
            obstacle == ({
                let q = crate::qwen36::linear::storage_obstacle(plans.q, self.q, mode);
                let k = crate::qwen36::linear::storage_obstacle(plans.k, self.k, mode);
                if q is Some {
                    q
                } else if k is Some {
                    k
                } else {
                    crate::qwen36::linear::storage_obstacle(plans.v, self.v, mode)
                }
            }),
    {
        match check_storage(plans.q, &self.q, mode) {
            Some(error) => return Some(error),
            None => {},
        }
        match check_storage(plans.k, &self.k, mode) {
            Some(error) => return Some(error),
            None => {},
        }
        check_storage(plans.v, &self.v, mode)
    }

    /// Plans what precedes the attention itself.
    pub fn enqueue_batch_pre(&self, plans: &AttentionPlans, capacity: usize) -> (result: Result<
        Vec<AttentionOp>,
        AttentionError,
    >)
        ensures
            match result {
                Ok(ops) => self.pre_obstacle(*plans, capacity) is None && ops@ == self.pre_ops(
                    capacity,
                    self.sections->0,
                ),
                Err(error) => self.pre_obstacle(*plans, capacity) == Some(error),
            },
    {
        let linears: [Linear; 3] = [self.q, self.k, self.v];
        assert(linears@ =~= seq![self.q, self.k, self.v]);
        let mode = prepare_fp8_batch_input(linears.as_slice(), capacity);
        match self.check_entry(plans, mode) {
            Some(error) => return Err(AttentionError::Projection(error)),
            None => {},
        }
        let sections: MropeSections = match self.sections {
            Some(sections) => sections,
            None => {
                return Err(AttentionError::NoSections);
            },
        };
        let rows: usize = capacity;
        let head_dim: usize = self.head_dim;
        let rotary: usize = self.rotary_dim;
        let mut ops: Vec<AttentionOp> = Vec::new();
        push_quantize(&mut ops, AttentionInput::Hidden, rows, self.hidden, mode);
        ops.push(AttentionOp::Project { target: AttentionProjection::Query, rows, mode });
        ops.push(AttentionOp::Project { target: AttentionProjection::Key, rows, mode });
        ops.push(AttentionOp::Project { target: AttentionProjection::Value, rows, mode });
        ops.push(
            AttentionOp::Prep { rows, q_heads: self.q_heads, kv_heads: self.kv_heads, head_dim },
        );
        ops.push(
            AttentionOp::RopeQuery { rows, heads: self.q_heads, head_dim, rotary, sections },
        );
        ops.push(AttentionOp::RopeKey { rows, heads: self.kv_heads, head_dim, rotary, sections });
        assert(ops@ =~= self.pre_ops(capacity, sections));
        Ok(ops)
    }

    /// Gate, quantisation and output projection.
    pub open spec fn post_ops(self, capacity: usize) -> Seq<AttentionOp> {
        let mode = self.gated_mode(capacity);
        seq![AttentionOp::Gate { values: (capacity * self.q_width()) as usize }] + quantize_ops(
            AttentionInput::Gated,
            capacity,
            self.q_width() as usize,
            mode,
        ) + seq![
            AttentionOp::Project { target: AttentionProjection::Output, rows: capacity, mode },
        ]
    }

    /// What stands against the part after the attention itself, if anything.
    pub open spec fn post_obstacle(
        self,
        plans: AttentionPlans,
        capacity: usize,
    ) -> Option<AttentionError> {
        match crate::qwen36::linear::storage_obstacle(plans.o, self.o, self.gated_mode(capacity)) {
            Some(error) => Some(AttentionError::Projection(error)),
            None => None,
        }
    }

    /// Plans what follows the attention itself.
    pub fn enqueue_batch_post(&self, plans: &AttentionPlans, capacity: usize) -> (result: Result<
        Vec<AttentionOp>,
        AttentionError,
    >)
        requires
            self.fits(capacity),
        ensures
            match result {
                Ok(ops) => self.post_obstacle(*plans, capacity) is None && ops@ == self.post_ops(
                    capacity,
                ),
                Err(error) => self.post_obstacle(*plans, capacity) == Some(error),
            },
    {
        let q_width: usize = self.q_heads * self.head_dim;
        let linears: [Linear; 1] = [self.o];
        assert(linears@ =~= seq![self.o]);
        let mode = prepare_fp8_batch_input(linears.as_slice(), capacity);
        match check_storage(plans.o, &self.o, mode) {
            Some(error) => return Err(AttentionError::Projection(error)),
            None => {},
        }
        let mut ops: Vec<AttentionOp> = Vec::new();
        ops.push(AttentionOp::Gate { values: capacity * q_width });
        push_quantize(&mut ops, AttentionInput::Gated, capacity, q_width, mode);
        ops.push(
            AttentionOp::Project { target: AttentionProjection::Output, rows: capacity, mode },
        );
        assert(ops@ =~= self.post_ops(capacity));
        Ok(ops)
    }

    /// Append and attention of one decode row.
    pub open spec fn decode_row(self, row: int, sequence: DecodeSequence) -> AttentionOp {
        let segment = sequence.reservation.segments@[0];
        AttentionOp::CacheRow {
            row: row as usize,
            page: segment.page,
            page_offset: segment.page_offset,
            kv_offset: (row * self.kv_width()) as usize,
            context: (sequence.position + 1) as usize,
            q_offset: (row * self.q_width()) as usize,
        }
    }

    /// Plans the appends and the attention of a decode batch, one row for each sequence.
    pub fn enqueue_batch_cache(&self, sequences: &[DecodeSequence], active_rows: usize) -> (result:
        Result<Vec<AttentionOp>, AttentionError>)
        requires
            active_rows <= sequences@.len(),
            self.fits(active_rows),
            forall|i: int|
                0 <= i < sequences@.len() ==> (#[trigger] sequences@[i]).position < usize::MAX,
        ensures
            match result {
                Ok(ops) => {
                    &&& forall|i: int| 0 <= i < active_rows ==> (#[trigger] sequences@[i]).covered()
                    &&& ops@ == Seq::new(
                        active_rows as nat,
                        |row: int| self.decode_row(row, sequences@[row]),
                    )
                },
                Err(error) => {
                    &&& exists|i: int|
                        0 <= i < active_rows && !(#[trigger] sequences@[i]).covered()
                    &&& error == AttentionError::DecodeAppend
                },
            },
    {
        let q_width: usize = self.q_heads * self.head_dim;
        let kv_width: usize = self.kv_heads * self.head_dim;
        let mut ops: Vec<AttentionOp> = Vec::new();
        let mut row: usize = 0;
        while row < active_rows
            invariant
                row <= active_rows <= sequences@.len(),
                self.fits(active_rows),
                q_width == self.q_width(),
                kv_width == self.kv_width(),
                forall|i: int|
                    0 <= i < sequences@.len() ==> (#[trigger] sequences@[i]).position < usize::MAX,
                forall|i: int| 0 <= i < row ==> (#[trigger] sequences@[i]).covered(),
                ops@ == Seq::new(row as nat, |r: int| self.decode_row(r, sequences@[r])),
            decreases active_rows - row,
        {
            let sequence = &sequences[row];
            let reservation = sequence.reservation;
            assert(sequences@[row as int].position < usize::MAX);
            if reservation.start_position != sequence.position || reservation.rows != 1
                || reservation.segments.len() != 1 {
                assert(!sequences@[row as int].covered());
                return Err(AttentionError::DecodeAppend);
            }
            let segment: AppendSegment = reservation.segments[0];
            assert(row * q_width <= active_rows * q_width && row * kv_width <= active_rows
                * kv_width) by (nonlinear_arith)
                requires
                    row <= active_rows,
            ;
            ops.push(
                AttentionOp::CacheRow {
                    row,
                    page: segment.page,
                    page_offset: segment.page_offset,
                    kv_offset: row * kv_width,
                    context: sequence.position + 1,
                    q_offset: row * q_width,
                },
            );
            row += 1;
            assert(ops@ =~= Seq::new(row as nat, |r: int| self.decode_row(r, sequences@[r])));
        }
        Ok(ops)
    }
}

/// Whether cache operations are chunks that follow one another without a gap.
pub open spec fn contiguous(ops: Seq<AttentionOp>) -> bool {
    &&& forall|i: int|
        0 <= i < ops.len() ==> (#[trigger] ops[i]) is CacheRows && 1 <= ops[i]->CacheRows_rows
            <= ATTENTION_CHUNK_ROWS
    &&& forall|i: int, j: int|
        #![trigger ops[i], ops[j]]
        0 <= i && j == i + 1 && j < ops.len() ==> {
            &&& ops[j]->CacheRows_position == ops[i]->CacheRows_position + ops[i]->CacheRows_rows
            &&& ops[j]->CacheRows_input_row == ops[i]->CacheRows_input_row + ops[i]->CacheRows_rows
            &&& ops[j]->CacheRows_page_offset == ops[i]->CacheRows_page_offset
                + ops[i]->CacheRows_rows
        }
}

/// The chunks of a segment hold its rows in order, each once, in chunks of at most eight rows
/// that stay within one block of packed keys.
pub proof fn law_prompt_chunks_cover_each_segment(
    sequence: PrefillSequence,
    index: int,
    segment: AppendSegment,
    input_row: int,
    serial: bool,
)
    requires
        segment.rows > 0,
        0 <= input_row,
        segment.page_offset + segment.rows <= usize::MAX,
        sequence.position + segment.input_offset + segment.rows <= usize::MAX,
        input_row + segment.input_offset + segment.rows <= usize::MAX,
    ensures
        ({
            let ops = sequence.segment_ops(index, segment, input_row, serial, 0);
            &&& ops.len() > 0
            &&& contiguous(ops)
            &&& ops[0]->CacheRows_page_offset == segment.page_offset
            &&& ops[0]->CacheRows_position == sequence.position + segment.input_offset
            &&& ops[0]->CacheRows_input_row == input_row + segment.input_offset
            &&& ops.last()->CacheRows_input_row + ops.last()->CacheRows_rows == input_row
                + segment.input_offset + segment.rows
            &&& forall|i: int|
                0 <= i < ops.len() ==> (#[trigger] ops[i])->CacheRows_position as int
                    / ATTENTION_BLOCK_POSITIONS as int == (ops[i]->CacheRows_position
                    + ops[i]->CacheRows_rows - 1) / ATTENTION_BLOCK_POSITIONS as int
        }),
{
    lemma_chunks(sequence, index, segment, input_row, serial, 0);
}

proof fn lemma_chunks(
    sequence: PrefillSequence,
    index: int,
    segment: AppendSegment,
    input_row: int,
    serial: bool,
    processed: int,
)
    requires
        0 <= processed < segment.rows,
        0 <= input_row,
        segment.page_offset + segment.rows <= usize::MAX,
        sequence.position + segment.input_offset + segment.rows <= usize::MAX,
        input_row + segment.input_offset + segment.rows <= usize::MAX,
    ensures
        ({
            let ops = sequence.segment_ops(index, segment, input_row, serial, processed);
            &&& ops.len() > 0
            &&& contiguous(ops)
            &&& ops[0]->CacheRows_page_offset == segment.page_offset + processed
            &&& ops[0]->CacheRows_position == sequence.position + segment.input_offset + processed
            &&& ops[0]->CacheRows_input_row == input_row + segment.input_offset + processed
            &&& ops.last()->CacheRows_input_row + ops.last()->CacheRows_rows == input_row
                + segment.input_offset + segment.rows
            &&& forall|i: int|
                0 <= i < ops.len() ==> (#[trigger] ops[i])->CacheRows_position as int
                    / ATTENTION_BLOCK_POSITIONS as int == (ops[i]->CacheRows_position
                    + ops[i]->CacheRows_rows - 1) / ATTENTION_BLOCK_POSITIONS as int
        }),
    decreases segment.rows - processed,
{
    let ops = sequence.segment_ops(index, segment, input_row, serial, processed);
    let rows = chunk_rows(
        segment.rows - processed,
        sequence.position + segment.input_offset + processed,
        serial,
    );
    let rest = sequence.segment_ops(index, segment, input_row, serial, processed + rows);
    assert(ops =~= seq![ops[0]] + rest);
    assert(1 <= rows <= segment.rows - processed);
    if processed + rows < segment.rows {
        lemma_chunks(sequence, index, segment, input_row, serial, processed + rows);
        assert forall|i: int| 0 <= i < ops.len() implies (#[trigger] ops[i]) is CacheRows && 1
            <= ops[i]->CacheRows_rows <= ATTENTION_CHUNK_ROWS && ops[i]->CacheRows_position as int
            / ATTENTION_BLOCK_POSITIONS as int == (ops[i]->CacheRows_position
            + ops[i]->CacheRows_rows - 1) / ATTENTION_BLOCK_POSITIONS as int by {
            if i > 0 {
                assert(ops[i] == rest[i - 1]);
            }
        }
        assert forall|i: int, j: int|
            #![trigger ops[i], ops[j]]
            0 <= i && j == i + 1 && j < ops.len() implies {
            &&& ops[j]->CacheRows_position == ops[i]->CacheRows_position + ops[i]->CacheRows_rows
            &&& ops[j]->CacheRows_input_row == ops[i]->CacheRows_input_row + ops[i]->CacheRows_rows
            &&& ops[j]->CacheRows_page_offset == ops[i]->CacheRows_page_offset
                + ops[i]->CacheRows_rows
        } by {
            assert(ops[j] == rest[j - 1]);
            if i > 0 {
                assert(ops[i] == rest[i - 1]);
            }
        }
        assert(ops.last() == rest.last());
    } else {
        assert(rest.len() == 0);
    }
}

/// Reads the rotary sections of a manifest.
pub fn rotary_sections(manifest: &QwenModelManifest) -> (sections: Option<MropeSections>)
    ensures
        match sections {
            Some(sections) => manifest.mrope_sections is Some && ({
                let given = manifest.mrope_sections->0;
                sections == (MropeSections {
                    v0: given[0],
                    v1: given[1],
                    v2: given[2],
                    v3: given[3],
                })
            }),
            None => manifest.mrope_sections is None,
        },
{
    match manifest.mrope_sections {
        Some(given) => Some(
            MropeSections { v0: given[0], v1: given[1], v2: given[2], v3: given[3] },
        ),
        None => None,
    }
}

/// The projections of a layer run exactly where each is planned for its own storage format:
/// their inputs are always prepared as they need them.
pub proof fn law_attention_layers_run_on_their_plans(
    layer: AttentionLayer,
    plans: AttentionPlans,
    capacity: usize,
)
    ensures
        layer.pre_obstacle(plans, capacity) is None <==> {
            &&& plans.q == layer.q.storage
            &&& plans.k == layer.k.storage
            &&& plans.v == layer.v.storage
            &&& layer.sections is Some
        },
        layer.post_obstacle(plans, capacity) is None <==> plans.o == layer.o.storage,
        layer.pre_obstacle(plans, capacity) matches Some(error) ==> error
            == AttentionError::NoSections || error == AttentionError::Projection(
            LinearError::PlanStorage,
        ),
        layer.post_obstacle(plans, capacity) matches Some(error) ==> error
            == AttentionError::Projection(LinearError::PlanStorage),
{
    let entry = seq![layer.q, layer.k, layer.v];
    let exit = seq![layer.o];
    if layer.q.storage == Storage::Fp8 {
        crate::qwen36::linear::law_prepared_activation_fits(entry, capacity, 0);
    }
    if layer.k.storage == Storage::Fp8 {
        crate::qwen36::linear::law_prepared_activation_fits(entry, capacity, 1);
    }
    if layer.v.storage == Storage::Fp8 {
        crate::qwen36::linear::law_prepared_activation_fits(entry, capacity, 2);
    }
    if layer.o.storage == Storage::Fp8 {
        crate::qwen36::linear::law_prepared_activation_fits(exit, capacity, 0);
    }
}

} // verus!
