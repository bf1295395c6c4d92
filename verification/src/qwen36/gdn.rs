//! Recurrent (gated delta net) layers of a batch: chunk metadata, state snapshots and the
//! order of the device operations.

use crate::qwen36::linear::{
    check_storage, prepare_fp8_batch_input, BatchFp8InputQuantization, Linear, LinearError, Storage,
};
use vstd::prelude::*;

verus! {

/// Value heads of the chunked kernel.
pub const GDN_HEADS: usize = 32;

/// Width of one head of the chunked kernel.
pub const GDN_HEAD_DIM: usize = 128;

/// Tokens of one chunk.
pub const GDN_CHUNK_TOKENS: usize = 64;

/// Values of one recurrent state of the chunked kernel.
pub const GDN_STATE_VALUES: usize = 524288;

/// Why a recurrent operation was refused.
#[derive(Clone, Copy, Debug, PartialEq, Eq, Structural)]
pub enum GdnError {
    /// The packed token count does not fit the device index.
    TokenCount,
    /// The number of snapshot rows is not representable.
    SnapshotRows,
    /// The size of the convolution snapshots is not representable.
    ConvSnapshots,
    /// The size of the recurrent snapshots is not representable.
    RecurrentSnapshots,
    /// A layer has no entry in the state table.
    Layer,
}

/// Chunks that `length` tokens take.
pub open spec fn chunks_of(length: int) -> int {
    (length + GDN_CHUNK_TOKENS - 1) / GDN_CHUNK_TOKENS as int
}

/// Tokens of the first `count` sequences.
pub open spec fn tokens_before(lengths: Seq<u32>, count: nat) -> nat
    decreases count,
{
    if count == 0 {
        0
    } else {
        tokens_before(lengths, (count - 1) as nat) + lengths[count - 1] as nat
    }
}

/// Chunks of the first `count` sequences.
pub open spec fn chunks_before(lengths: Seq<u32>, count: nat) -> int
    decreases count,
{
    if count == 0 {
        0
    } else {
        chunks_before(lengths, (count - 1) as nat) + chunks_of(lengths[count - 1] as int)
    }
}

/// Sequence and chunk number of each chunk of the first `count` sequences, flattened.
pub open spec fn chunk_pairs(lengths: Seq<u32>, count: nat) -> Seq<i32>
    decreases count,
{
    if count == 0 {
        seq![]
    } else {
        chunk_pairs(lengths, (count - 1) as nat) + sequence_pairs(
            count - 1,
            chunks_of(lengths[count - 1] as int) as nat,
        )
    }
}

/// The flattened pairs of the first `chunks` chunks of one sequence.
pub open spec fn sequence_pairs(sequence: int, chunks: nat) -> Seq<i32> {
    Seq::new(
        2 * chunks,
        |i: int|
            if i % 2 == 0 {
                sequence as i32
            } else {
                (i / 2) as i32
            },
    )
}

/// Chunk metadata of a packed batch of sequences.
pub struct ChunkMetadata {
    /// First token of each sequence, then the token count.
    pub cu_seqlens: Vec<i32>,
    /// Sequence and chunk number of each chunk.
    pub chunk_indices: Vec<i32>,
    /// First chunk of each sequence, then the chunk count.
    pub chunk_offsets: Vec<i64>,
    /// Number of chunks.
    pub chunk_count: usize,
}

proof fn lemma_tokens_grow(lengths: Seq<u32>, fewer: nat, more: nat)
    requires
        fewer <= more,
    ensures
        tokens_before(lengths, fewer) <= tokens_before(lengths, more),
    decreases more,
{
    if fewer < more {
        lemma_tokens_grow(lengths, fewer, (more - 1) as nat);
    }
}

proof fn lemma_chunks_bounded(lengths: Seq<u32>, count: nat)
    requires
        count <= lengths.len(),
    ensures
        0 <= chunks_before(lengths, count) <= tokens_before(lengths, count),
        chunk_pairs(lengths, count).len() == 2 * chunks_before(lengths, count),
    decreases count,
{
    if count > 0 {
        lemma_chunks_bounded(lengths, (count - 1) as nat);
        assert(0 <= chunks_of(lengths[count - 1] as int) <= lengths[count - 1]);
    }
}

/// Whether the chunk metadata of a packed batch was refused or built as it should be.
pub open spec fn chunks_prepared(lengths: Seq<u32>, result: Result<ChunkMetadata, GdnError>) -> bool {
    let count = lengths.len();
    match result {
        Ok(metadata) => {
            &&& tokens_before(lengths, count) <= i32::MAX
            &&& metadata.cu_seqlens@.len() == count + 1
            &&& forall|i: int|
                0 <= i <= count ==> #[trigger] metadata.cu_seqlens@[i] == tokens_before(
                    lengths,
                    i as nat,
                )
            &&& metadata.chunk_indices@ == chunk_pairs(lengths, count)
            &&& metadata.chunk_offsets@.len() == count + 1
            &&& forall|i: int|
                0 <= i <= count ==> #[trigger] metadata.chunk_offsets@[i] == chunks_before(
                    lengths,
                    i as nat,
                )
            &&& metadata.chunk_count == chunks_before(lengths, count)
        },
        Err(error) => error == GdnError::TokenCount && tokens_before(lengths, count) > i32::MAX,
    }
}

/// Builds the chunk metadata of a packed batch.
pub fn prepare_chunks(sequence_lengths: &[u32]) -> (result: Result<ChunkMetadata, GdnError>)
    requires
        sequence_lengths@.len() <= i32::MAX,
    ensures
        chunks_prepared(sequence_lengths@, result),
{
    let mut cu_seqlens: Vec<i32> = Vec::new();
    let mut chunk_indices: Vec<i32> = Vec::new();
    let mut chunk_offsets: Vec<i64> = Vec::new();
    cu_seqlens.push(0);
    chunk_offsets.push(0);
    let mut tokens: u64 = 0;
    let mut chunks: u64 = 0;
    let mut sequence: usize = 0;
    while sequence < sequence_lengths.len()
        invariant
            sequence <= sequence_lengths@.len(),
            sequence_lengths@.len() <= i32::MAX,
            tokens == tokens_before(sequence_lengths@, sequence as nat),
            tokens <= i32::MAX,
            chunks == chunks_before(sequence_lengths@, sequence as nat),
            chunks <= tokens,
            cu_seqlens@.len() == sequence + 1,
            forall|i: int|
                0 <= i <= sequence ==> #[trigger] cu_seqlens@[i] == tokens_before(
                    sequence_lengths@,
                    i as nat,
                ),
            chunk_indices@ == chunk_pairs(sequence_lengths@, sequence as nat),
            chunk_offsets@.len() == sequence + 1,
            forall|i: int|
                0 <= i <= sequence ==> #[trigger] chunk_offsets@[i] == chunks_before(
                    sequence_lengths@,
                    i as nat,
                ),
        decreases sequence_lengths@.len() - sequence,
    {
        let length: u32 = sequence_lengths[sequence];
        proof {
            lemma_tokens_grow(
                sequence_lengths@,
                (sequence + 1) as nat,
                sequence_lengths@.len(),
            );
            lemma_chunks_bounded(sequence_lengths@, (sequence + 1) as nat);
        }
        tokens = tokens + length as u64;
        if tokens > i32::MAX as u64 {
            return Err(GdnError::TokenCount);
        }
        cu_seqlens.push(tokens as i32);
        let sequence_chunks: u64 = (length as u64 + GDN_CHUNK_TOKENS as u64 - 1)
            / GDN_CHUNK_TOKENS as u64;
        let ghost before = chunk_indices@;
        let mut chunk: u64 = 0;
        while chunk < sequence_chunks
            invariant
                chunk <= sequence_chunks,
                sequence < sequence_lengths@.len(),
                sequence_lengths@.len() <= i32::MAX,
                sequence_chunks <= i32::MAX,
                chunk_indices@ == before + sequence_pairs(sequence as int, chunk as nat),
            decreases sequence_chunks - chunk,
        {
            chunk_indices.push(sequence as i32);
            chunk_indices.push(chunk as i32);
            chunk += 1;
            assert(chunk_indices@ =~= before + sequence_pairs(sequence as int, chunk as nat));
        }
        chunks = chunks + sequence_chunks;
        chunk_offsets.push(chunks as i64);
        sequence += 1;
        assert(chunk_indices@ =~= chunk_pairs(sequence_lengths@, sequence as nat));
    }
    Ok(ChunkMetadata { cu_seqlens, chunk_indices, chunk_offsets, chunk_count: chunks as usize })
}

/// The chunks of a packed batch fit the space that a workspace of its capacity reserves.
pub proof fn law_chunks_fit_the_workspace(lengths: Seq<u32>, count: nat, token_capacity: nat)
    requires
        count <= lengths.len(),
        tokens_before(lengths, count) <= token_capacity,
    ensures
        chunks_before(lengths, count) <= chunks_of(token_capacity as int) + count,
{
    lemma_chunks_rounding(lengths, count);
}

proof fn lemma_chunks_rounding(lengths: Seq<u32>, count: nat)
    requires
        count <= lengths.len(),
    ensures
        GDN_CHUNK_TOKENS * chunks_before(lengths, count) <= tokens_before(lengths, count)
            + GDN_CHUNK_TOKENS * count,
    decreases count,
{
    if count > 0 {
        lemma_chunks_rounding(lengths, (count - 1) as nat);
    }
}

/// The pair at each chunk number names the sequence that the chunk belongs to and its number
/// within that sequence.
pub proof fn law_chunk_pairs_name_their_chunk(
    lengths: Seq<u32>,
    count: nat,
    sequence: int,
    chunk: int,
)
    requires
        count <= lengths.len(),
        count <= i32::MAX,
        0 <= sequence < count,
        0 <= chunk < chunks_of(lengths[sequence] as int),
    ensures
        ({
            let at = chunks_before(lengths, sequence as nat) + chunk;
            &&& 0 <= 2 * at < chunk_pairs(lengths, count).len() - 1
            &&& chunk_pairs(lengths, count)[2 * at] == sequence
            &&& chunk_pairs(lengths, count)[2 * at + 1] == chunk
        }),
    decreases count,
{
    let at = chunks_before(lengths, sequence as nat) + chunk;
    lemma_chunks_bounded(lengths, (count - 1) as nat);
    lemma_chunks_bounded(lengths, count);
    lemma_chunks_bounded(lengths, sequence as nat);
    let earlier = chunk_pairs(lengths, (count - 1) as nat);
    if sequence < count - 1 {
        law_chunk_pairs_name_their_chunk(lengths, (count - 1) as nat, sequence, chunk);
        assert(chunk_pairs(lengths, count)[2 * at] == earlier[2 * at]);
        assert(chunk_pairs(lengths, count)[2 * at + 1] == earlier[2 * at + 1]);
    } else {
        let pairs = sequence_pairs(sequence, chunks_of(lengths[sequence] as int) as nat);
        assert(chunk_pairs(lengths, count)[2 * at] == pairs[2 * chunk]);
        assert(chunk_pairs(lengths, count)[2 * at + 1] == pairs[2 * chunk + 1]);
        assert((2 * chunk) % 2 == 0 && (2 * chunk + 1) % 2 == 1 && (2 * chunk + 1) / 2 == chunk);
    }
}


/// Values of each buffer of the chunked kernel.
#[derive(Clone, Copy, Debug, PartialEq, Eq, Structural)]
pub struct ChunkedGdnBuffers {
    /// Query, key, value, output and their intermediates.
    pub vectors: usize,
    /// Gates and their running sums.
    pub token_heads: usize,
    /// Chunk-local matrices.
    pub chunk_matrices: usize,
    /// State at the start of each chunk.
    pub chunk_states: usize,
    /// State of each sequence.
    pub states: usize,
    /// Sequence boundaries.
    pub boundaries: usize,
    /// Chunk pairs.
    pub chunk_indices: usize,
}

/// Most chunks of a batch within the capacities.
pub open spec fn max_chunks(token_capacity: int, sequence_capacity: int) -> int {
    chunks_of(token_capacity) + sequence_capacity
}

/// Sizes the workspace of the chunked kernel.
pub fn new_chunked_gdn_workspace(
    token_capacity: usize,
    sequence_capacity: usize,
) -> (buffers: ChunkedGdnBuffers)
    requires
        token_capacity * 4096 <= usize::MAX,
        (max_chunks(token_capacity as int, sequence_capacity as int) + 1) * GDN_STATE_VALUES
            <= usize::MAX,
        sequence_capacity < usize::MAX,
    ensures
        buffers.vectors == token_capacity * GDN_HEADS * GDN_HEAD_DIM,
        buffers.token_heads == token_capacity * GDN_HEADS,
        buffers.chunk_matrices == token_capacity * GDN_HEADS * GDN_CHUNK_TOKENS,
        buffers.chunk_states == max_chunks(token_capacity as int, sequence_capacity as int)
            * GDN_STATE_VALUES,
        buffers.states == sequence_capacity * GDN_STATE_VALUES,
        buffers.boundaries == sequence_capacity + 1,
        buffers.chunk_indices == max_chunks(token_capacity as int, sequence_capacity as int) * 2,
{
    let token_chunks: usize = if token_capacity % GDN_CHUNK_TOKENS == 0 {
        token_capacity / GDN_CHUNK_TOKENS
    } else {
        token_capacity / GDN_CHUNK_TOKENS + 1
    };
    assert(token_chunks == chunks_of(token_capacity as int));
    let chunks: usize = token_chunks + sequence_capacity;
    ChunkedGdnBuffers {
        vectors: token_capacity * GDN_HEADS * GDN_HEAD_DIM,
        token_heads: token_capacity * GDN_HEADS,
        chunk_matrices: token_capacity * GDN_HEADS * GDN_CHUNK_TOKENS,
        chunk_states: chunks * GDN_STATE_VALUES,
        states: sequence_capacity * GDN_STATE_VALUES,
        boundaries: sequence_capacity + 1,
        chunk_indices: chunks * 2,
    }
}

/// Number of recurrent layers below `layer`.
pub open spec fn linear_before(linear: Seq<bool>, layer: nat) -> nat
    decreases layer,
{
    if layer == 0 {
        0
    } else {
        linear_before(linear, (layer - 1) as nat) + if linear[layer - 1] {
            1nat
        } else {
            0nat
        }
    }
}

proof fn lemma_linear_before_grows(linear: Seq<bool>, fewer: nat, more: nat)
    requires
        fewer <= more,
    ensures
        linear_before(linear, fewer) <= linear_before(linear, more) <= linear_before(linear, fewer)
            + (more - fewer),
    decreases more,
{
    if fewer < more {
        lemma_linear_before_grows(linear, fewer, (more - 1) as nat);
    }
}

/// Where the recurrent states of each layer are kept between the rows of a pass.
pub struct BatchLinearAttentionStateSnapshots {
    /// Rows whose state is kept.
    pub slots: usize,
    /// State-table entries of one layer.
    pub state_table_stride: usize,
    /// Which layers are recurrent.
    pub linear_layers: Vec<bool>,
    /// Index of each recurrent layer among the recurrent layers.
    pub layer_slots: Vec<Option<usize>>,
    /// Values of one convolution state.
    pub conv_values: usize,
    /// Values of one recurrent state.
    pub recurrent_values: usize,
}

/// A copy of one state between the state table and the snapshot buffers.
#[derive(Clone, Copy, Debug, PartialEq, Eq, Structural)]
pub struct StateCopy {
    /// Entry of the state table.
    pub table: usize,
    /// First value of the snapshot.
    pub offset: usize,
    /// Number of values.
    pub values: usize,
}

/// Copies that bring one layer back to a kept row.
#[derive(Clone, Copy, Debug, PartialEq, Eq, Structural)]
pub struct LayerRestore {
    /// Convolution state.
    pub conv: StateCopy,
    /// Recurrent state.
    pub recurrent: StateCopy,
}

/// First value of the snapshot of a row in a buffer of `values` values for each snapshot.
pub open spec fn snapshot_offset(layer_slot: int, slots: int, slot: int, values: int) -> int {
    (layer_slot * slots + slot) * values
}

impl BatchLinearAttentionStateSnapshots {
    /// Number of recurrent layers below `layer`.
    pub open spec fn layers_before(self, layer: int) -> int {
        linear_before(self.linear_layers@, layer as nat) as int
    }

    /// Recurrent layers are numbered in order, and the buffers hold all their snapshots.
    pub open spec fn well_formed(self) -> bool {
        let layers = self.linear_layers@.len();
        &&& layers <= usize::MAX
        &&& self.layer_slots@.len() == layers
        &&& forall|i: int|
            0 <= i < layers ==> #[trigger] self.layer_slots@[i] == if self.linear_layers@[i] {
                Some(self.layers_before(i) as usize)
            } else {
                None
            }
        &&& self.layers_before(layers as int) * self.slots <= usize::MAX
        &&& self.layers_before(layers as int) * self.slots * self.conv_values <= usize::MAX
        &&& self.layers_before(layers as int) * self.slots * self.recurrent_values <= usize::MAX
        &&& layers * self.state_table_stride <= usize::MAX
    }

    /// First value of the snapshot of a row of a layer.
    pub open spec fn at(self, layer: int, slot: int, values: int) -> int {
        snapshot_offset(self.layers_before(layer), self.slots as int, slot, values)
    }

    /// Lays the snapshots of `slots` rows out for a model's recurrent layers.
    pub fn new(
        linear_layers: &[bool],
        state_table_stride: usize,
        slots: usize,
        conv_values: usize,
        recurrent_values: usize,
    ) -> (result: Result<Self, GdnError>)
        requires
            linear_layers@.len() * state_table_stride <= usize::MAX,
        ensures
            ({
                let rows = linear_before(linear_layers@, linear_layers@.len()) * slots;
                match result {
                    Ok(snapshots) => {
                        &&& rows <= usize::MAX
                        &&& rows * conv_values <= usize::MAX
                        &&& rows * recurrent_values <= usize::MAX
                        &&& snapshots.slots == slots
                        &&& snapshots.state_table_stride == state_table_stride
                        &&& snapshots.conv_values == conv_values
                        &&& snapshots.recurrent_values == recurrent_values
                        &&& snapshots.linear_layers@ == linear_layers@
                        &&& snapshots.well_formed()
                    },
                    Err(error) => if rows > usize::MAX {
                        error == GdnError::SnapshotRows
                    } else if rows * conv_values > usize::MAX {
                        error == GdnError::ConvSnapshots
                    } else {
                        error == GdnError::RecurrentSnapshots && rows * recurrent_values
                            > usize::MAX
                    },
                }
            }),
    {
        let mut layer_slots: Vec<Option<usize>> = Vec::with_capacity(linear_layers.len());
        let mut kept: Vec<bool> = Vec::with_capacity(linear_layers.len());
        let mut count: usize = 0;
        let mut i: usize = 0;
        while i < linear_layers.len()
            invariant
                i <= linear_layers@.len(),
                count <= i,
                count == linear_before(linear_layers@, i as nat),
                layer_slots@.len() == i,
                kept@ == linear_layers@.take(i as int),
                forall|j: int|
                    0 <= j < i ==> #[trigger] layer_slots@[j] == if linear_layers@[j] {
                        Some(linear_before(linear_layers@, j as nat) as usize)
                    } else {
                        None
                    },
            decreases linear_layers@.len() - i,
        {
            kept.push(linear_layers[i]);
            assert(linear_layers@.take(i + 1) =~= linear_layers@.take(i as int).push(
                linear_layers@[i as int],
            ));
            if linear_layers[i] {
                layer_slots.push(Some(count));
                count += 1;
            } else {
                layer_slots.push(None);
            }
            i += 1;
        }
        assert(kept@ =~= linear_layers@);
        let rows: usize = match count.checked_mul(slots) {
            Some(rows) => rows,
            None => {
                return Err(GdnError::SnapshotRows);
            },
        };
        if rows.checked_mul(conv_values).is_none() {
            return Err(GdnError::ConvSnapshots);
        }
        if rows.checked_mul(recurrent_values).is_none() {
            return Err(GdnError::RecurrentSnapshots);
        }
        Ok(
            Self {
                slots,
                state_table_stride,
                linear_layers: kept,
                layer_slots,
                conv_values,
                recurrent_values,
            },
        )
    }

    /// First value of a snapshot, where the layer is recurrent and the row is kept.
    pub fn offset(&self, layer_idx: usize, slot: usize, values: usize) -> (offset: Option<usize>)
        requires
            self.well_formed(),
            layer_idx < self.linear_layers@.len(),
            values == self.conv_values || values == self.recurrent_values,
        ensures
            match offset {
                Some(at) => slot < self.slots && self.linear_layers@[layer_idx as int] && at
                    == self.at(layer_idx as int, slot as int, values as int),
                None => slot >= self.slots || !self.linear_layers@[layer_idx as int],
            },
    {
        if slot >= self.slots {
            return None;
        }
        match self.layer_slots[layer_idx] {
            None => None,
            Some(layer_slot) => {
                proof {
                    self.lemma_within(layer_idx as int, slot as int, values as int);
                }
                Some((layer_slot * self.slots + slot) * values)
            },
        }
    }

    /// The snapshots of a recurrent layer lie within their buffer.
    proof fn lemma_within(self, layer: int, slot: int, values: int)
        requires
            self.well_formed(),
            0 <= layer < self.linear_layers@.len(),
            self.linear_layers@[layer],
            0 <= slot < self.slots,
            0 <= values,
        ensures
            self.layer_slots@[layer] == Some(self.layers_before(layer) as usize),
            0 <= self.layers_before(layer) <= usize::MAX,
            0 <= self.layers_before(layer) * self.slots,
            self.layers_before(layer) * self.slots + slot < self.layers_before(
                self.linear_layers@.len() as int,
            ) * self.slots,
            0 <= self.at(layer, slot, values),
            self.at(layer, slot, values) + values <= self.layers_before(
                self.linear_layers@.len() as int,
            ) * self.slots * values,
    {
        let linear = self.linear_layers@;
        lemma_linear_before_grows(linear, 0, layer as nat);
        lemma_linear_before_grows(linear, (layer + 1) as nat, linear.len());
        lemma_snapshot_within(
            self.layers_before(layer),
            self.layers_before(linear.len() as int),
            self.slots as int,
            slot,
            values,
        );
    }

    /// Entry of a layer's state in the state table.
    pub open spec fn table(self, layer: int, sequence: int) -> int {
        layer * self.state_table_stride + sequence
    }

    /// The copy that keeps the convolution state of a row, where it is kept.
    pub fn capture_conv(&self, layer_idx: usize, sequence: usize, slot: usize) -> (copy: Option<
        StateCopy,
    >)
        requires
            self.well_formed(),
            layer_idx < self.linear_layers@.len(),
            sequence < self.state_table_stride,
        ensures
            copy == self.conv_capture(layer_idx as int, sequence as int, slot as int),
    {
        match self.offset(layer_idx, slot, self.conv_values) {
            None => None,
            Some(offset) => {
                proof {
                    self.lemma_table(layer_idx as int, sequence as int);
                }
                Some(
                    StateCopy {
                        table: layer_idx * self.state_table_stride + sequence,
                        offset,
                        values: self.conv_values,
                    },
                )
            },
        }
    }

    /// The copy that keeps the recurrent state of a row, where it is kept.
    pub fn capture_recurrent(&self, layer_idx: usize, sequence: usize, slot: usize) -> (copy:
        Option<StateCopy>)
        requires
            self.well_formed(),
            layer_idx < self.linear_layers@.len(),
            sequence < self.state_table_stride,
        ensures
            copy == self.recurrent_capture(layer_idx as int, sequence as int, slot as int),
    {
        match self.offset(layer_idx, slot, self.recurrent_values) {
            None => None,
            Some(offset) => {
                proof {
                    self.lemma_table(layer_idx as int, sequence as int);
                }
                Some(
                    StateCopy {
                        table: layer_idx * self.state_table_stride + sequence,
                        offset,
                        values: self.recurrent_values,
                    },
                )
            },
        }
    }

    /// Snapshots of a kept row have representable places.
    pub proof fn lemma_places(self, layer: int, sequence: int, slot: int)
        requires
            self.well_formed(),
            0 <= layer < self.linear_layers@.len(),
            self.linear_layers@[layer],
            0 <= sequence < self.state_table_stride,
            0 <= slot < self.slots,
        ensures
            0 <= layer * self.state_table_stride + sequence <= usize::MAX,
            0 <= (linear_before(self.linear_layers@, layer as nat) * self.slots + slot)
                * self.conv_values <= usize::MAX,
            0 <= (linear_before(self.linear_layers@, layer as nat) * self.slots + slot)
                * self.recurrent_values <= usize::MAX,
    {
        self.lemma_table(layer, sequence);
        self.lemma_within(layer, slot, self.conv_values as int);
        self.lemma_within(layer, slot, self.recurrent_values as int);
    }

    proof fn lemma_table(self, layer: int, sequence: int)
        requires
            self.well_formed(),
            0 <= layer < self.linear_layers@.len(),
            0 <= sequence < self.state_table_stride,
        ensures
            0 <= layer * self.state_table_stride,
            self.table(layer, sequence) < self.linear_layers@.len() * self.state_table_stride,
    {
        let stride = self.state_table_stride as int;
        let layers = self.linear_layers@.len() as int;
        assert(layer * stride + stride <= layers * stride) by (nonlinear_arith)
            requires
                layer + 1 <= layers,
                0 <= stride,
        ;
        assert(0 <= layer * stride) by (nonlinear_arith)
            requires
                0 <= layer,
                0 <= stride,
        ;
    }

    /// The copy that keeps a convolution state.
    pub open spec fn conv_capture(self, layer: int, sequence: int, slot: int) -> Option<StateCopy> {
        if slot < self.slots && self.linear_layers@[layer] {
            Some(
                StateCopy {
                    table: self.table(layer, sequence) as usize,
                    offset: self.at(layer, slot, self.conv_values as int) as usize,
                    values: self.conv_values,
                },
            )
        } else {
            None
        }
    }

    /// The copy that keeps a recurrent state.
    pub open spec fn recurrent_capture(
        self,
        layer: int,
        sequence: int,
        slot: int,
    ) -> Option<StateCopy> {
        if slot < self.slots && self.linear_layers@[layer] {
            Some(
                StateCopy {
                    table: self.table(layer, sequence) as usize,
                    offset: self.at(layer, slot, self.recurrent_values as int) as usize,
                    values: self.recurrent_values,
                },
            )
        } else {
            None
        }
    }

    /// Copies that bring the first sequence of one layer back to a kept row.
    pub open spec fn layer_restore(self, layer: int, slot: int) -> LayerRestore {
        LayerRestore {
            conv: self.conv_capture(layer, 0, slot)->0,
            recurrent: self.recurrent_capture(layer, 0, slot)->0,
        }
    }

    /// Copies that bring the recurrent layers below `count` back to a kept row, in order.
    pub open spec fn restores(self, slot: int, count: nat) -> Seq<LayerRestore>
        decreases count,
    {
        if count == 0 {
            seq![]
        } else {
            let earlier = self.restores(slot, (count - 1) as nat);
            if self.linear_layers@[count - 1] {
                earlier.push(self.layer_restore(count - 1, slot))
            } else {
                earlier
            }
        }
    }

    /// Lists the copies that bring the first sequence back to a kept row.
    pub fn restore(&self, slot: usize) -> (copies: Vec<LayerRestore>)
        requires
            self.well_formed(),
            slot < self.slots,
            self.state_table_stride > 0,
        ensures
            copies@ == self.restores(slot as int, self.linear_layers@.len()),
    {
        let mut copies: Vec<LayerRestore> = Vec::new();
        let mut layer: usize = 0;
        while layer < self.linear_layers.len()
            invariant
                self.well_formed(),
                slot < self.slots,
                self.state_table_stride > 0,
                layer <= self.linear_layers@.len(),
                copies@ == self.restores(slot as int, layer as nat),
            decreases self.linear_layers@.len() - layer,
        {
            let conv = self.capture_conv(layer, 0, slot);
            let recurrent = self.capture_recurrent(layer, 0, slot);
            match (conv, recurrent) {
                (Some(conv), Some(recurrent)) => {
                    copies.push(LayerRestore { conv, recurrent });
                },
                _ => {},
            }
            layer += 1;
        }
        copies
    }
}

/// A restore reads back exactly what the captures of the same row wrote.
pub proof fn law_restore_undoes_capture(
    snapshots: BatchLinearAttentionStateSnapshots,
    layer: int,
    slot: int,
)
    requires
        snapshots.well_formed(),
        0 <= layer < snapshots.linear_layers@.len(),
        snapshots.linear_layers@[layer],
        0 <= slot < snapshots.slots,
    ensures
        snapshots.conv_capture(layer, 0, slot) == Some(snapshots.layer_restore(layer, slot).conv),
        snapshots.recurrent_capture(layer, 0, slot) == Some(
            snapshots.layer_restore(layer, slot).recurrent,
        ),
        snapshots.restores(slot, snapshots.linear_layers@.len()).contains(
            snapshots.layer_restore(layer, slot),
        ),
{
    lemma_restores_contain(snapshots, layer, slot, snapshots.linear_layers@.len());
}

proof fn lemma_restores_contain(
    snapshots: BatchLinearAttentionStateSnapshots,
    layer: int,
    slot: int,
    count: nat,
)
    requires
        0 <= layer < count <= snapshots.linear_layers@.len(),
        snapshots.linear_layers@[layer],
    ensures
        snapshots.restores(slot, count).contains(snapshots.layer_restore(layer, slot)),
    decreases count,
{
    let copies = snapshots.restores(slot, count);
    if layer == count - 1 {
        assert(copies[copies.len() - 1] == snapshots.layer_restore(layer, slot));
    } else {
        lemma_restores_contain(snapshots, layer, slot, (count - 1) as nat);
        let earlier = snapshots.restores(slot, (count - 1) as nat);
        let at = choose|at: int|
            0 <= at < earlier.len() && earlier[at] == snapshots.layer_restore(layer, slot);
        assert(copies[at] == earlier[at]);
    }
}

/// Snapshots of different layers or rows do not overlap, and every snapshot lies within its
/// buffer.
pub proof fn law_snapshots_are_disjoint(
    snapshots: BatchLinearAttentionStateSnapshots,
    left_layer: int,
    left_slot: int,
    right_layer: int,
    right_slot: int,
    values: int,
)
    requires
        snapshots.well_formed(),
        0 <= left_layer < snapshots.linear_layers@.len(),
        0 <= right_layer < snapshots.linear_layers@.len(),
        snapshots.linear_layers@[left_layer],
        snapshots.linear_layers@[right_layer],
        0 <= left_slot < snapshots.slots,
        0 <= right_slot < snapshots.slots,
        0 <= values,
        left_layer < right_layer || (left_layer == right_layer && left_slot < right_slot),
    ensures
        snapshots.at(left_layer, left_slot, values) + values <= snapshots.at(
            right_layer,
            right_slot,
            values,
        ),
        snapshots.at(right_layer, right_slot, values) + values <= snapshots.layers_before(
            snapshots.linear_layers@.len() as int,
        ) * snapshots.slots * values,
{
    let linear = snapshots.linear_layers@;
    let slots = snapshots.slots as int;
    let left = snapshots.layers_before(left_layer);
    let right = snapshots.layers_before(right_layer);
    snapshots.lemma_within(left_layer, left_slot, values);
    snapshots.lemma_within(right_layer, right_slot, values);
    if left_layer < right_layer {
        lemma_linear_before_grows(linear, (left_layer + 1) as nat, right_layer as nat);
        assert(left + 1 <= right);
        assert(left * slots + slots <= right * slots) by (nonlinear_arith)
            requires
                left + 1 <= right,
                0 <= slots,
        ;
    }
    let low = left * slots + left_slot;
    let high = right * slots + right_slot;
    assert(low + 1 <= high);
    assert(low * values + values <= high * values) by (nonlinear_arith)
        requires
            low + 1 <= high,
            0 <= values,
    ;
}

/// A snapshot lies within its buffer.
proof fn lemma_snapshot_within(layer_slot: int, layers: int, slots: int, slot: int, values: int)
    requires
        0 <= layer_slot < layers,
        0 <= slot < slots,
        0 <= values,
    ensures
        0 <= layer_slot * slots,
        layer_slot * slots + slot < layers * slots,
        0 <= snapshot_offset(layer_slot, slots, slot, values),
        snapshot_offset(layer_slot, slots, slot, values) + values <= layers * slots * values,
{
    assert(0 <= layer_slot * slots) by (nonlinear_arith)
        requires
            0 <= layer_slot,
            0 <= slots,
    ;
    assert(layer_slot * slots + slots <= layers * slots) by (nonlinear_arith)
        requires
            layer_slot + 1 <= layers,
            0 <= slots,
    ;
    let row = layer_slot * slots + slot;
    let rows = layers * slots;
    assert(row * values + values <= rows * values) by (nonlinear_arith)
        requires
            row + 1 <= rows,
            0 <= values,
    ;
    assert(0 <= row * values) by (nonlinear_arith)
        requires
            0 <= row,
            0 <= values,
    ;
}


/// Activation that projections of a recurrent layer share.
#[derive(Clone, Copy, Debug, PartialEq, Eq, Structural)]
pub enum GdnInput {
    /// Normalised residual stream.
    Hidden,
    /// Normalised recurrent output.
    Value,
}

/// Projection of a recurrent layer.
#[derive(Clone, Copy, Debug, PartialEq, Eq, Structural)]
pub enum GdnProjection {
    /// Query, key and value.
    Qkv,
    /// Output gate.
    Z,
    /// Output.
    Out,
}

/// One device operation of a recurrent layer.
#[derive(Clone, Copy, Debug, PartialEq, Eq, Structural)]
#[allow(inconsistent_fields)]
pub enum GdnOp {
    /// Quantise a shared activation.
    Quantize { input: GdnInput, rows: usize, cols: usize, mode: BatchFp8InputQuantization },
    /// Run a projection.
    Project { target: GdnProjection, rows: usize, serial: bool, mode: BatchFp8InputQuantization },
    /// Run the gating projection.
    ProjectAlphaBeta { rows: usize, serial: bool },
    /// Copy the projected query, key and value of one row.
    LoadQkv { offset: usize, width: usize },
    /// Convolution of one row.
    PrepRow { table: usize },
    /// Keep a convolution state.
    KeepConv(StateCopy),
    /// Copy the prepared query, key and value of one row.
    StorePrepared { offset: usize, width: usize },
    /// Convolution of ragged sequences for the chunked kernel.
    PrepChunked { table: usize, sequences: usize, tokens: usize },
    /// Convolution of one row for each sequence.
    PrepBatch { table: usize, rows: usize },
    /// Convolution of ragged sequences.
    PrepRagged { table: usize, sequences: usize, tokens: usize },
    /// Gates, in the precision of the chunked kernel or in full.
    Gate { rows: usize, heads: usize, chunked: bool },
    /// Copy the recurrence inputs of one row.
    LoadRow { offset: usize, width: usize, gate_offset: usize, heads: usize },
    /// Recurrence of one row.
    RecurRow { table: usize, heads: usize },
    /// Keep a recurrent state.
    KeepRecurrent(StateCopy),
    /// Copy the recurrence output of one row.
    StoreRow { offset: usize, width: usize },
    /// Chunked recurrence of ragged sequences.
    RecurChunked { table: usize, sequences: usize, tokens: usize },
    /// Recurrence of one row for each sequence.
    RecurBatch { table: usize, rows: usize, heads: usize },
    /// Recurrence of ragged sequences.
    RecurRagged { table: usize, sequences: usize, tokens: usize, heads: usize },
    /// Gated normalisation of the recurrent output.
    Norm { rows: usize, width: usize, sigmoid: bool },
    /// Gated normalisation straight into four bits.
    NormQuantize { rows: usize, heads: usize, width: usize },
    /// Output projection of an activation in four bits.
    ProjectQuantized { rows: usize },
}

/// Dimensions and weights of a recurrent layer.
#[derive(Clone, Copy, Debug, PartialEq, Eq, Structural)]
pub struct GdnLayer {
    /// Width of the residual stream.
    pub hidden: usize,
    /// Value heads.
    pub value_heads: usize,
    /// Width of one value head.
    pub value_head_dim: usize,
    /// Query, key and value projection.
    pub qkv: Linear,
    /// Output-gate projection.
    pub z: Linear,
    /// Output projection.
    pub out: Linear,
}

impl GdnLayer {
    /// Width of all value heads.
    pub open spec fn value_dim(self) -> int {
        self.value_heads * self.value_head_dim
    }

    /// Gate projection: two gates for each value head, from weights of sixteen bits.
    pub open spec fn alpha_beta(self) -> Linear {
        Linear {
            storage: Storage::Bf16,
            rows: (self.value_heads * 2) as usize,
            cols: self.hidden,
            input_scale: None,
            channel_scaled: false,
            weight_only: false,
        }
    }

    /// Gate projection.
    pub fn gate_projection(&self) -> (linear: Linear)
        requires
            self.value_heads * 2 <= usize::MAX,
        ensures
            linear == self.alpha_beta(),
    {
        Linear {
            storage: Storage::Bf16,
            rows: self.value_heads * 2,
            cols: self.hidden,
            input_scale: None,
            channel_scaled: false,
            weight_only: false,
        }
    }
}

/// Storage formats that the projections of the recurrent layers are planned for.
#[derive(Clone, Copy, Debug, PartialEq, Eq, Structural)]
pub struct GdnPlans {
    /// Query, key and value projection.
    pub qkv: Storage,
    /// Output-gate projection.
    pub z: Storage,
    /// Output projection.
    pub out: Storage,
}

impl GdnPlans {
    /// What stands against the projections of a layer on `rows` rows, if anything: the first
    /// one that the plans are not for.
    pub open spec fn obstacle(self, layer: GdnLayer, rows: usize) -> Option<LinearError> {
        let hidden = crate::qwen36::linear::quantization_of(seq![layer.qkv, layer.z], rows);
        let value = crate::qwen36::linear::quantization_of(seq![layer.out], rows);
        let qkv = crate::qwen36::linear::storage_obstacle(self.qkv, layer.qkv, hidden);
        let z = crate::qwen36::linear::storage_obstacle(self.z, layer.z, hidden);
        if qkv is Some {
            qkv
        } else if z is Some {
            z
        } else {
            crate::qwen36::linear::storage_obstacle(self.out, layer.out, value)
        }
    }

    /// Decides whether the projections of a layer run.
    pub fn check(&self, layer: &GdnLayer, rows: usize) -> (obstacle: Option<LinearError>)
        ensures
            obstacle == self.obstacle(*layer, rows),
    {
        let entry: [Linear; 2] = [layer.qkv, layer.z];
        assert(entry@ =~= seq![layer.qkv, layer.z]);
        let hidden = prepare_fp8_batch_input(entry.as_slice(), rows);
        match check_storage(self.qkv, &layer.qkv, hidden) {
            Some(error) => return Some(error),
            None => {},
        }
        match check_storage(self.z, &layer.z, hidden) {
            Some(error) => return Some(error),
            None => {},
        }
        let exit: [Linear; 1] = [layer.out];
        assert(exit@ =~= seq![layer.out]);
        let value = prepare_fp8_batch_input(exit.as_slice(), rows);
        check_storage(self.out, &layer.out, value)
    }
}

/// The projections of a layer run exactly where each is planned for its own storage format:
/// their inputs are always prepared as they need them.
pub proof fn law_recurrent_layers_run_on_their_plans(plans: GdnPlans, layer: GdnLayer, rows: usize)
    ensures
        plans.obstacle(layer, rows) is None <==> {
            &&& plans.qkv == layer.qkv.storage
            &&& plans.z == layer.z.storage
            &&& plans.out == layer.out.storage
        },
        plans.obstacle(layer, rows) matches Some(error) ==> error == LinearError::PlanStorage,
{
    let entry = seq![layer.qkv, layer.z];
    let exit = seq![layer.out];
    if layer.qkv.storage == Storage::Fp8 {
        crate::qwen36::linear::law_prepared_activation_fits(entry, rows, 0);
    }
    if layer.z.storage == Storage::Fp8 {
        crate::qwen36::linear::law_prepared_activation_fits(entry, rows, 1);
    }
    if layer.out.storage == Storage::Fp8 {
        crate::qwen36::linear::law_prepared_activation_fits(exit, rows, 0);
    }
}

/// Quantisation of a shared activation, where it is needed.
pub open spec fn quantize_ops(
    input: GdnInput,
    rows: usize,
    cols: usize,
    mode: BatchFp8InputQuantization,
) -> Seq<GdnOp> {
    if mode is Unused {
        seq![]
    } else {
        seq![GdnOp::Quantize { input, rows, cols, mode }]
    }
}

/// A ragged prompt pass of one recurrent layer.
pub struct GdnPrefill<'a> {
    /// Dimensions and weights.
    pub layer: GdnLayer,
    /// What the projections are planned for.
    pub plans: GdnPlans,
    /// Index of the layer.
    pub layer_idx: usize,
    /// Tokens of each sequence.
    pub lengths: &'a [u32],
    /// State-table entries of one layer.
    pub sequence_capacity: usize,
    /// Number of sequences.
    pub sequence_count: usize,
    /// Tokens of all sequences.
    pub total_tokens: usize,
    /// Rows of the projections.
    pub row_capacity: usize,
    /// Whether projections run one row at a time.
    pub serial_projections: bool,
    /// Whether the recurrence runs one row at a time.
    pub serial_recurrence: bool,
    /// Whether the output gate is a plain sigmoid.
    pub sigmoid_output_gate: bool,
    /// Whether the chunked kernel is available.
    pub chunked_available: bool,
    /// Where states are kept.
    pub snapshots: Option<&'a BatchLinearAttentionStateSnapshots>,
}

impl<'a> GdnPrefill<'a> {
    /// Rows run one by one.
    pub open spec fn serial(self) -> bool {
        self.serial_recurrence && self.total_tokens > self.sequence_count
    }

    /// The chunked kernel runs.
    pub open spec fn chunked(self) -> bool {
        !self.serial_recurrence && self.total_tokens >= GDN_CHUNK_TOKENS && self.chunked_available
    }

    /// First state-table entry of the layer.
    pub open spec fn table(self) -> int {
        self.layer_idx * self.sequence_capacity
    }

    /// Inputs whose arithmetic is representable.
    pub open spec fn fits(self) -> bool {
        let rows = tokens_before(self.lengths@, self.lengths@.len()) as int;
        &&& self.lengths@.len() <= self.sequence_capacity
        &&& self.layer.value_dim() <= usize::MAX
        &&& (self.layer_idx + 1) * self.sequence_capacity <= usize::MAX
        &&& rows <= usize::MAX
        &&& rows * self.layer.qkv.rows <= usize::MAX
        &&& rows * self.layer.value_dim() <= usize::MAX
        &&& rows * self.layer.value_heads <= usize::MAX
        &&& self.row_capacity * self.layer.value_heads <= usize::MAX
        &&& self.snapshots matches Some(snapshots) ==> {
            &&& snapshots.well_formed()
            &&& self.layer_idx < snapshots.linear_layers@.len()
            &&& self.lengths@.len() <= snapshots.state_table_stride
        }
    }

    /// The kept convolution state of a row.
    pub open spec fn keep_conv(self, sequence: int, row: int) -> Seq<GdnOp> {
        match self.snapshots {
            None => seq![],
            Some(snapshots) => match snapshots.conv_capture(self.layer_idx as int, sequence, row) {
                None => seq![],
                Some(copy) => seq![GdnOp::KeepConv(copy)],
            },
        }
    }

    /// The kept recurrent state of a row.
    pub open spec fn keep_recurrent(self, sequence: int, row: int) -> Seq<GdnOp> {
        match self.snapshots {
            None => seq![],
            Some(snapshots) => match snapshots.recurrent_capture(
                self.layer_idx as int,
                sequence,
                row,
            ) {
                None => seq![],
                Some(copy) => seq![GdnOp::KeepRecurrent(copy)],
            },
        }
    }

    /// Convolution of one row.
    pub open spec fn conv_row(self, sequence: int, row: int) -> Seq<GdnOp> {
        seq![
            GdnOp::LoadQkv {
                offset: (row * self.layer.qkv.rows) as usize,
                width: self.layer.qkv.rows,
            },
            GdnOp::PrepRow { table: (self.table() + sequence) as usize },
        ] + self.keep_conv(sequence, row) + seq![
            GdnOp::StorePrepared {
                offset: (row * self.layer.value_dim()) as usize,
                width: self.layer.value_dim() as usize,
            },
        ]
    }

    /// Recurrence of one row.
    pub open spec fn recur_row(self, sequence: int, row: int) -> Seq<GdnOp> {
        seq![
            GdnOp::LoadRow {
                offset: (row * self.layer.value_dim()) as usize,
                width: self.layer.value_dim() as usize,
                gate_offset: (row * self.layer.value_heads) as usize,
                heads: self.layer.value_heads,
            },
            GdnOp::RecurRow {
                table: (self.table() + sequence) as usize,
                heads: self.layer.value_heads,
            },
        ] + self.keep_recurrent(sequence, row) + seq![
            GdnOp::StoreRow {
                offset: (row * self.layer.value_dim()) as usize,
                width: self.layer.value_dim() as usize,
            },
        ]
    }

    /// Row-by-row convolution of the first `rows` rows of a sequence that starts at `start`.
    pub open spec fn conv_sequence(self, sequence: int, start: int, rows: nat) -> Seq<GdnOp>
        decreases rows,
    {
        if rows == 0 {
            seq![]
        } else {
            self.conv_sequence(sequence, start, (rows - 1) as nat) + self.conv_row(
                sequence,
                start + rows - 1,
            )
        }
    }

    /// Row-by-row recurrence of the first `rows` rows of a sequence that starts at `start`.
    pub open spec fn recur_sequence(self, sequence: int, start: int, rows: nat) -> Seq<GdnOp>
        decreases rows,
    {
        if rows == 0 {
            seq![]
        } else {
            self.recur_sequence(sequence, start, (rows - 1) as nat) + self.recur_row(
                sequence,
                start + rows - 1,
            )
        }
    }

    /// Row-by-row convolution of the first `count` sequences.
    pub open spec fn conv_serial(self, count: nat) -> Seq<GdnOp>
        decreases count,
    {
        if count == 0 {
            seq![]
        } else {
            self.conv_serial((count - 1) as nat) + self.conv_sequence(
                count - 1,
                tokens_before(self.lengths@, (count - 1) as nat) as int,
                self.lengths@[count - 1] as nat,
            )
        }
    }

    /// Row-by-row recurrence of the first `count` sequences.
    pub open spec fn recur_serial(self, count: nat) -> Seq<GdnOp>
        decreases count,
    {
        if count == 0 {
            seq![]
        } else {
            self.recur_serial((count - 1) as nat) + self.recur_sequence(
                count - 1,
                tokens_before(self.lengths@, (count - 1) as nat) as int,
                self.lengths@[count - 1] as nat,
            )
        }
    }

    /// Convolution of all rows.
    pub open spec fn conv_ops(self) -> Seq<GdnOp> {
        let table = self.table() as usize;
        if self.serial() {
            self.conv_serial(self.lengths@.len())
        } else if self.chunked() {
            seq![
                GdnOp::PrepChunked {
                    table,
                    sequences: self.sequence_count,
                    tokens: self.total_tokens,
                },
            ]
        } else if self.total_tokens == self.sequence_count {
            seq![GdnOp::PrepBatch { table, rows: self.sequence_count }]
        } else {
            seq![
                GdnOp::PrepRagged {
                    table,
                    sequences: self.sequence_count,
                    tokens: self.total_tokens,
                },
            ]
        }
    }

    /// Recurrence of all rows.
    pub open spec fn recur_ops(self) -> Seq<GdnOp> {
        let table = self.table() as usize;
        let heads = self.layer.value_heads;
        if self.serial() {
            self.recur_serial(self.lengths@.len())
        } else if self.chunked() {
            seq![
                GdnOp::RecurChunked {
                    table,
                    sequences: self.sequence_count,
                    tokens: self.total_tokens,
                },
            ]
        } else if self.total_tokens == self.sequence_count {
            seq![GdnOp::RecurBatch { table, rows: self.sequence_count, heads }]
        } else {
            seq![
                GdnOp::RecurRagged {
                    table,
                    sequences: self.sequence_count,
                    tokens: self.total_tokens,
                    heads,
                },
            ]
        }
    }

    /// Quantisation of the residual stream.
    pub open spec fn hidden_mode(self) -> BatchFp8InputQuantization {
        crate::qwen36::linear::quantization_of(
            seq![self.layer.qkv, self.layer.z],
            self.row_capacity,
        )
    }

    /// Quantisation of the recurrent output.
    pub open spec fn value_mode(self) -> BatchFp8InputQuantization {
        crate::qwen36::linear::quantization_of(seq![self.layer.out], self.row_capacity)
    }

    /// Projections of the residual stream.
    pub open spec fn entry_ops(self) -> Seq<GdnOp> {
        let rows = self.row_capacity;
        let serial = self.serial_projections;
        let mode = self.hidden_mode();
        quantize_ops(GdnInput::Hidden, rows, self.layer.hidden, mode) + seq![
            GdnOp::Project { target: GdnProjection::Qkv, rows, serial, mode },
            GdnOp::Project { target: GdnProjection::Z, rows, serial, mode },
            GdnOp::ProjectAlphaBeta { rows, serial },
        ]
    }

    /// Gated normalisation and output projection.
    pub open spec fn exit_ops(self) -> Seq<GdnOp> {
        let rows = self.row_capacity;
        let mode = self.value_mode();
        seq![
            GdnOp::Norm {
                rows: (rows * self.layer.value_heads) as usize,
                width: self.layer.value_head_dim,
                sigmoid: self.sigmoid_output_gate,
            },
        ] + quantize_ops(GdnInput::Value, rows, self.layer.value_dim() as usize, mode) + seq![
            GdnOp::Project { target: GdnProjection::Out, rows, serial: false, mode },
        ]
    }

    /// All operations of the pass.
    pub open spec fn ops(self) -> Seq<GdnOp> {
        self.entry_ops() + self.conv_ops() + seq![
            GdnOp::Gate {
                rows: self.row_capacity,
                heads: self.layer.value_heads,
                chunked: self.chunked(),
            },
        ] + self.recur_ops() + self.exit_ops()
    }

    fn push_quantize(
        ops: &mut Vec<GdnOp>,
        input: GdnInput,
        rows: usize,
        cols: usize,
        mode: BatchFp8InputQuantization,
    )
        ensures
            final(ops)@ == old(ops)@ + quantize_ops(input, rows, cols, mode),
    {
        match mode {
            BatchFp8InputQuantization::Unused => {},
            _ => {
                ops.push(GdnOp::Quantize { input, rows, cols, mode });
            },
        }
        assert(ops@ =~= old(ops)@ + quantize_ops(input, rows, cols, mode));
    }

    /// The offsets of every row are representable.
    pub proof fn lemma_row_fits(self, sequence: int, offset: int)
        requires
            self.fits(),
            0 <= sequence < self.lengths@.len(),
            0 <= offset < self.lengths@[sequence],
        ensures
            ({
                let row = tokens_before(self.lengths@, sequence as nat) + offset;
                &&& 0 <= row * self.layer.qkv.rows <= usize::MAX
                &&& 0 <= self.layer.value_dim() <= usize::MAX
                &&& 0 <= row * self.layer.value_dim() <= usize::MAX
                &&& 0 <= row * self.layer.value_heads <= usize::MAX
                &&& 0 <= self.layer_idx * self.sequence_capacity
                &&& self.layer_idx * self.sequence_capacity + sequence <= usize::MAX
            }),
    {
        self.lemma_row(sequence, offset);
        let dim = self.layer.value_dim();
        assert(0 <= dim) by (nonlinear_arith)
            requires
                dim == self.layer.value_heads * self.layer.value_head_dim,
        ;
    }

    /// The first state of the layer is representable.
    pub proof fn lemma_table_place(self)
        requires
            self.fits(),
        ensures
            0 <= self.layer_idx * self.sequence_capacity <= usize::MAX,
    {
        self.lemma_table_fits();
    }

    proof fn lemma_row(self, sequence: int, offset: int)
        requires
            self.fits(),
            0 <= sequence < self.lengths@.len(),
            0 <= offset < self.lengths@[sequence],
        ensures
            ({
                let row = tokens_before(self.lengths@, sequence as nat) + offset;
                let all = tokens_before(self.lengths@, self.lengths@.len());
                &&& 0 <= row < all
                &&& 0 <= row * self.layer.qkv.rows <= usize::MAX
                &&& 0 <= row * self.layer.value_dim() <= usize::MAX
                &&& 0 <= row * self.layer.value_heads <= usize::MAX
                &&& 0 <= self.table()
                &&& self.table() + sequence <= usize::MAX
            }),
    {
        let all = tokens_before(self.lengths@, self.lengths@.len()) as int;
        let row = tokens_before(self.lengths@, sequence as nat) + offset;
        lemma_tokens_grow(self.lengths@, (sequence + 1) as nat, self.lengths@.len());
        let width = self.layer.qkv.rows as int;
        let dim = self.layer.value_dim();
        let heads = self.layer.value_heads as int;
        assert(0 <= dim) by (nonlinear_arith)
            requires
                dim == self.layer.value_heads * self.layer.value_head_dim,
        ;
        assert(0 <= row * width <= all * width && 0 <= row * dim <= all * dim && 0 <= row * heads
            <= all * heads) by (nonlinear_arith)
            requires
                0 <= row <= all,
                0 <= width,
                0 <= dim,
                0 <= heads,
        ;
        let capacity = self.sequence_capacity as int;
        let index = self.layer_idx as int;
        assert((index + 1) * capacity == index * capacity + capacity && 0 <= index * capacity)
            by (nonlinear_arith)
            requires
                0 <= index,
                0 <= capacity,
        ;
    }

    fn push_conv_row(&self, ops: &mut Vec<GdnOp>, sequence: usize, row: usize, value_dim: usize)
        requires
            self.fits(),
            sequence < self.lengths@.len(),
            value_dim == self.layer.value_dim(),
            row * self.layer.qkv.rows <= usize::MAX,
            row * self.layer.value_dim() <= usize::MAX,
            0 <= self.table(),
            self.table() + sequence <= usize::MAX,
        ensures
            final(ops)@ == old(ops)@ + self.conv_row(sequence as int, row as int),
    {
        let width: usize = self.layer.qkv.rows;
        ops.push(GdnOp::LoadQkv { offset: row * width, width });
        ops.push(GdnOp::PrepRow { table: self.layer_idx * self.sequence_capacity + sequence });
        let ghost before = ops@;
        match self.snapshots {
            None => {},
            Some(snapshots) => {
                match snapshots.capture_conv(self.layer_idx, sequence, row) {
                    None => {},
                    Some(copy) => {
                        ops.push(GdnOp::KeepConv(copy));
                    },
                }
            },
        }
        assert(ops@ =~= before + self.keep_conv(sequence as int, row as int));
        ops.push(GdnOp::StorePrepared { offset: row * value_dim, width: value_dim });
        assert(ops@ =~= old(ops)@ + self.conv_row(sequence as int, row as int));
    }

    fn push_recur_row(&self, ops: &mut Vec<GdnOp>, sequence: usize, row: usize, value_dim: usize)
        requires
            self.fits(),
            sequence < self.lengths@.len(),
            value_dim == self.layer.value_dim(),
            row * self.layer.value_dim() <= usize::MAX,
            row * self.layer.value_heads <= usize::MAX,
            0 <= self.table(),
            self.table() + sequence <= usize::MAX,
        ensures
            final(ops)@ == old(ops)@ + self.recur_row(sequence as int, row as int),
    {
        let heads: usize = self.layer.value_heads;
        ops.push(
            GdnOp::LoadRow {
                offset: row * value_dim,
                width: value_dim,
                gate_offset: row * heads,
                heads,
            },
        );
        ops.push(
            GdnOp::RecurRow { table: self.layer_idx * self.sequence_capacity + sequence, heads },
        );
        let ghost before = ops@;
        match self.snapshots {
            None => {},
            Some(snapshots) => {
                match snapshots.capture_recurrent(self.layer_idx, sequence, row) {
                    None => {},
                    Some(copy) => {
                        ops.push(GdnOp::KeepRecurrent(copy));
                    },
                }
            },
        }
        assert(ops@ =~= before + self.keep_recurrent(sequence as int, row as int));
        ops.push(GdnOp::StoreRow { offset: row * value_dim, width: value_dim });
        assert(ops@ =~= old(ops)@ + self.recur_row(sequence as int, row as int));
    }

    fn push_serial(&self, ops: &mut Vec<GdnOp>, value_dim: usize, recurrence: bool)
        requires
            self.fits(),
            value_dim == self.layer.value_dim(),
        ensures
            final(ops)@ == old(ops)@ + if recurrence {
                self.recur_serial(self.lengths@.len())
            } else {
                self.conv_serial(self.lengths@.len())
            },
    {
        let ghost entry = ops@;
        let mut row: usize = 0;
        let mut sequence: usize = 0;
        assert(ops@ =~= entry + self.recur_serial(0));
        assert(ops@ =~= entry + self.conv_serial(0));
        while sequence < self.lengths.len()
            invariant
                self.fits(),
                value_dim == self.layer.value_dim(),
                sequence <= self.lengths@.len(),
                row == tokens_before(self.lengths@, sequence as nat),
                ops@ == entry + if recurrence {
                    self.recur_serial(sequence as nat)
                } else {
                    self.conv_serial(sequence as nat)
                },
            decreases self.lengths@.len() - sequence,
        {
            let length: u32 = self.lengths[sequence];
            let ghost start = row as int;
            let ghost before = ops@;
            let mut done: u32 = 0;
            assert(before =~= before + self.recur_sequence(sequence as int, start, 0));
            assert(before =~= before + self.conv_sequence(sequence as int, start, 0));
            while done < length
                invariant
                    self.fits(),
                    value_dim == self.layer.value_dim(),
                    sequence < self.lengths@.len(),
                    length == self.lengths@[sequence as int],
                    start == tokens_before(self.lengths@, sequence as nat),
                    done <= length,
                    row == start + done,
                    ops@ == before + if recurrence {
                        self.recur_sequence(sequence as int, start, done as nat)
                    } else {
                        self.conv_sequence(sequence as int, start, done as nat)
                    },
                decreases length - done,
            {
                proof {
                    self.lemma_row(sequence as int, done as int);
                }
                if recurrence {
                    self.push_recur_row(ops, sequence, row, value_dim);
                } else {
                    self.push_conv_row(ops, sequence, row, value_dim);
                }
                row += 1;
                done += 1;
                assert(ops@ =~= before + if recurrence {
                    self.recur_sequence(sequence as int, start, done as nat)
                } else {
                    self.conv_sequence(sequence as int, start, done as nat)
                });
            }
            sequence += 1;
            assert(ops@ =~= entry + if recurrence {
                self.recur_serial(sequence as nat)
            } else {
                self.conv_serial(sequence as nat)
            });
        }
    }

    fn push_entry(&self, ops: &mut Vec<GdnOp>)
        ensures
            final(ops)@ == old(ops)@ + self.entry_ops(),
    {
        let rows: usize = self.row_capacity;
        let serial = self.serial_projections;
        let linears: [Linear; 2] = [self.layer.qkv, self.layer.z];
        assert(linears@ =~= seq![self.layer.qkv, self.layer.z]);
        let mode = prepare_fp8_batch_input(linears.as_slice(), rows);
        Self::push_quantize(ops, GdnInput::Hidden, rows, self.layer.hidden, mode);
        ops.push(GdnOp::Project { target: GdnProjection::Qkv, rows, serial, mode });
        ops.push(GdnOp::Project { target: GdnProjection::Z, rows, serial, mode });
        ops.push(GdnOp::ProjectAlphaBeta { rows, serial });
        assert(ops@ =~= old(ops)@ + self.entry_ops());
    }

    fn push_conv(&self, ops: &mut Vec<GdnOp>, table: usize, value_dim: usize)
        requires
            self.fits(),
            table == self.table(),
            value_dim == self.layer.value_dim(),
        ensures
            final(ops)@ == old(ops)@ + self.conv_ops(),
    {
        let sequences: usize = self.sequence_count;
        let tokens: usize = self.total_tokens;
        if self.serial_recurrence && tokens > sequences {
            self.push_serial(ops, value_dim, false);
        } else if self.uses_chunks() {
            ops.push(GdnOp::PrepChunked { table, sequences, tokens });
        } else if tokens == sequences {
            ops.push(GdnOp::PrepBatch { table, rows: sequences });
        } else {
            ops.push(GdnOp::PrepRagged { table, sequences, tokens });
        }
        assert(ops@ =~= old(ops)@ + self.conv_ops());
    }

    fn push_recur(&self, ops: &mut Vec<GdnOp>, table: usize, value_dim: usize)
        requires
            self.fits(),
            table == self.table(),
            value_dim == self.layer.value_dim(),
        ensures
            final(ops)@ == old(ops)@ + self.recur_ops(),
    {
        let sequences: usize = self.sequence_count;
        let tokens: usize = self.total_tokens;
        let heads: usize = self.layer.value_heads;
        if self.serial_recurrence && tokens > sequences {
            self.push_serial(ops, value_dim, true);
        } else if self.uses_chunks() {
            ops.push(GdnOp::RecurChunked { table, sequences, tokens });
        } else if tokens == sequences {
            ops.push(GdnOp::RecurBatch { table, rows: sequences, heads });
        } else {
            ops.push(GdnOp::RecurRagged { table, sequences, tokens, heads });
        }
        assert(ops@ =~= old(ops)@ + self.recur_ops());
    }

    fn uses_chunks(&self) -> (chunked: bool)
        ensures
            chunked == self.chunked(),
    {
        !self.serial_recurrence && self.total_tokens >= GDN_CHUNK_TOKENS && self.chunked_available
    }

    fn push_exit(&self, ops: &mut Vec<GdnOp>, value_dim: usize)
        requires
            self.fits(),
            value_dim == self.layer.value_dim(),
        ensures
            final(ops)@ == old(ops)@ + self.exit_ops(),
    {
        let rows: usize = self.row_capacity;
        ops.push(
            GdnOp::Norm {
                rows: rows * self.layer.value_heads,
                width: self.layer.value_head_dim,
                sigmoid: self.sigmoid_output_gate,
            },
        );
        let linears: [Linear; 1] = [self.layer.out];
        assert(linears@ =~= seq![self.layer.out]);
        let mode = prepare_fp8_batch_input(linears.as_slice(), rows);
        Self::push_quantize(ops, GdnInput::Value, rows, value_dim, mode);
        ops.push(GdnOp::Project { target: GdnProjection::Out, rows, serial: false, mode });
        assert(ops@ =~= old(ops)@ + self.exit_ops());
    }

    /// What stands against the pass, if anything.
    pub open spec fn obstacle(self) -> Option<LinearError> {
        self.plans.obstacle(self.layer, self.row_capacity)
    }

    /// Plans a ragged prompt pass of one recurrent layer.
    pub fn enqueue_prefill_chunks(&self) -> (result: Result<Vec<GdnOp>, LinearError>)
        requires
            self.fits(),
        ensures
            match result {
                Ok(ops) => self.obstacle() is None && ops@ == self.ops(),
                Err(error) => self.obstacle() == Some(error),
            },
    {
        match self.plans.check(&self.layer, self.row_capacity) {
            Some(error) => return Err(error),
            None => {},
        }
        proof {
            self.lemma_table_fits();
        }
        let table: usize = self.layer_idx * self.sequence_capacity;
        let value_dim: usize = self.layer.value_heads * self.layer.value_head_dim;
        let mut ops: Vec<GdnOp> = Vec::new();
        self.push_entry(&mut ops);
        self.push_conv(&mut ops, table, value_dim);
        ops.push(
            GdnOp::Gate {
                rows: self.row_capacity,
                heads: self.layer.value_heads,
                chunked: self.uses_chunks(),
            },
        );
        self.push_recur(&mut ops, table, value_dim);
        self.push_exit(&mut ops, value_dim);
        assert(ops@ =~= self.ops());
        Ok(ops)
    }

    proof fn lemma_table_fits(self)
        requires
            self.fits(),
        ensures
            0 <= self.table() <= usize::MAX,
    {
        let capacity = self.sequence_capacity as int;
        let index = self.layer_idx as int;
        assert((index + 1) * capacity == index * capacity + capacity && 0 <= index * capacity)
            by (nonlinear_arith)
            requires
                0 <= index,
                0 <= capacity,
        ;
    }
}


/// A decode pass of one recurrent layer, one row for each sequence.
#[derive(Clone, Copy, Debug, PartialEq, Eq, Structural)]
pub struct GdnDecode {
    /// Dimensions and weights.
    pub layer: GdnLayer,
    /// Index of the layer.
    pub layer_idx: usize,
    /// What the projections are planned for.
    pub plans: GdnPlans,
    /// Rows of the batch, padding included.
    pub capacity: usize,
}

impl GdnDecode {
    /// Inputs whose arithmetic is representable.
    pub open spec fn fits(self) -> bool {
        &&& self.layer.value_dim() <= usize::MAX
        &&& self.layer_idx * self.capacity <= usize::MAX
        &&& self.capacity * self.layer.value_heads <= usize::MAX
    }

    /// Quantisation of the residual stream.
    pub open spec fn hidden_mode(self) -> BatchFp8InputQuantization {
        crate::qwen36::linear::quantization_of(seq![self.layer.qkv, self.layer.z], self.capacity)
    }

    /// Quantisation of the recurrent output.
    pub open spec fn value_mode(self) -> BatchFp8InputQuantization {
        crate::qwen36::linear::quantization_of(seq![self.layer.out], self.capacity)
    }

    /// Projections, convolution, gates and recurrence.
    pub open spec fn body_ops(self) -> Seq<GdnOp> {
        let rows = self.capacity;
        let mode = self.hidden_mode();
        let table = (self.layer_idx * self.capacity) as usize;
        let heads = self.layer.value_heads;
        quantize_ops(GdnInput::Hidden, rows, self.layer.hidden, mode) + seq![
            GdnOp::Project { target: GdnProjection::Qkv, rows, serial: false, mode },
            GdnOp::Project { target: GdnProjection::Z, rows, serial: false, mode },
            GdnOp::ProjectAlphaBeta { rows, serial: false },
            GdnOp::PrepBatch { table, rows },
            GdnOp::Gate { rows, heads, chunked: false },
            GdnOp::RecurBatch { table, rows, heads },
        ]
    }

    /// Normalisation and output projection. Four-bit output weights take the activation
    /// quantised by the normalisation itself.
    pub open spec fn exit_ops(self) -> Seq<GdnOp> {
        let rows = self.capacity;
        if self.layer.out.storage == Storage::Nvfp4 && self.plans.out == Storage::Nvfp4 {
            seq![
                GdnOp::NormQuantize {
                    rows,
                    heads: self.layer.value_heads,
                    width: self.layer.value_head_dim,
                },
                GdnOp::ProjectQuantized { rows },
            ]
        } else {
            seq![
                GdnOp::Norm {
                    rows: (rows * self.layer.value_heads) as usize,
                    width: self.layer.value_head_dim,
                    sigmoid: false,
                },
            ] + quantize_ops(
                GdnInput::Value,
                rows,
                self.layer.value_dim() as usize,
                self.value_mode(),
            ) + seq![
                GdnOp::Project {
                    target: GdnProjection::Out,
                    rows,
                    serial: false,
                    mode: self.value_mode(),
                },
            ]
        }
    }

    fn push_exit(&self, ops: &mut Vec<GdnOp>)
        requires
            self.fits(),
        ensures
            final(ops)@ == old(ops)@ + self.exit_ops(),
    {
        let rows: usize = self.capacity;
        let heads: usize = self.layer.value_heads;
        let width: usize = self.layer.value_head_dim;
        if self.layer.out.storage == Storage::Nvfp4 && self.plans.out == Storage::Nvfp4 {
            ops.push(GdnOp::NormQuantize { rows, heads, width });
            ops.push(GdnOp::ProjectQuantized { rows });
        } else {
            ops.push(GdnOp::Norm { rows: rows * heads, width, sigmoid: false });
            let linears: [Linear; 1] = [self.layer.out];
            assert(linears@ =~= seq![self.layer.out]);
            let mode = prepare_fp8_batch_input(linears.as_slice(), rows);
            match mode {
                BatchFp8InputQuantization::Unused => {},
                _ => {
                    ops.push(
                        GdnOp::Quantize { input: GdnInput::Value, rows, cols: heads * width, mode },
                    );
                },
            }
            ops.push(GdnOp::Project { target: GdnProjection::Out, rows, serial: false, mode });
        }
        assert(ops@ =~= old(ops)@ + self.exit_ops());
    }

    /// What stands against the pass, if anything.
    pub open spec fn obstacle(self) -> Option<LinearError> {
        self.plans.obstacle(self.layer, self.capacity)
    }

    /// Plans a decode pass of one recurrent layer.
    pub fn enqueue_batch(&self) -> (result: Result<Vec<GdnOp>, LinearError>)
        requires
            self.fits(),
        ensures
            match result {
                Ok(ops) => self.obstacle() is None && ops@ == self.body_ops() + self.exit_ops(),
                Err(error) => self.obstacle() == Some(error),
            },
    {
        match self.plans.check(&self.layer, self.capacity) {
            Some(error) => return Err(error),
            None => {},
        }
        let rows: usize = self.capacity;
        let heads: usize = self.layer.value_heads;
        let table: usize = self.layer_idx * self.capacity;
        let linears: [Linear; 2] = [self.layer.qkv, self.layer.z];
        assert(linears@ =~= seq![self.layer.qkv, self.layer.z]);
        let mode = prepare_fp8_batch_input(linears.as_slice(), rows);
        let mut ops: Vec<GdnOp> = Vec::new();
        match mode {
            BatchFp8InputQuantization::Unused => {},
            _ => {
                ops.push(
                    GdnOp::Quantize {
                        input: GdnInput::Hidden,
                        rows,
                        cols: self.layer.hidden,
                        mode,
                    },
                );
            },
        }
        ops.push(GdnOp::Project { target: GdnProjection::Qkv, rows, serial: false, mode });
        ops.push(GdnOp::Project { target: GdnProjection::Z, rows, serial: false, mode });
        ops.push(GdnOp::ProjectAlphaBeta { rows, serial: false });
        ops.push(GdnOp::PrepBatch { table, rows });
        ops.push(GdnOp::Gate { rows, heads, chunked: false });
        ops.push(GdnOp::RecurBatch { table, rows, heads });
        assert(ops@ =~= self.body_ops());
        self.push_exit(&mut ops);
        Ok(ops)
    }
}

/// Where an entry of the state table points.
#[derive(Clone, Copy, Debug, PartialEq, Eq, Structural)]
pub enum StateRef {
    /// Nowhere.
    Null,
    /// To the state of a batch row.
    Row(usize),
    /// To the spare state of an empty row.
    Padding(usize),
}

/// Entry of the state table for a layer and a row.
///
/// `rows[row][layer]` says whether the sequence of a row has recurrent state for a layer.
pub open spec fn state_entry(rows: Seq<Vec<bool>>, layer: int, row: int) -> StateRef {
    if row >= rows.len() {
        StateRef::Padding(row as usize)
    } else if rows[row]@[layer] {
        StateRef::Row(row as usize)
    } else {
        StateRef::Null
    }
}

/// Builds the state table of a batch: layers in order, `capacity` rows for each.
pub fn update_state_tables(
    rows: &[Vec<bool>],
    layer_count: usize,
    capacity: usize,
) -> (table: Vec<StateRef>)
    requires
        forall|i: int| 0 <= i < rows@.len() ==> #[trigger] rows@[i]@.len() >= layer_count,
    ensures
        table@.len() == layer_count * capacity,
        forall|layer: int, row: int|
            0 <= layer < layer_count && 0 <= row < capacity ==> #[trigger] table@[layer * capacity
                + row] == state_entry(rows@, layer, row),
{
    let mut table: Vec<StateRef> = Vec::new();
    let mut layer: usize = 0;
    while layer < layer_count
        invariant
            layer <= layer_count,
            forall|i: int| 0 <= i < rows@.len() ==> #[trigger] rows@[i]@.len() >= layer_count,
            table@.len() == layer * capacity,
            forall|l: int, r: int|
                0 <= l < layer && 0 <= r < capacity ==> #[trigger] table@[l * capacity + r]
                    == state_entry(rows@, l, r),
        decreases layer_count - layer,
    {
        let mut row: usize = 0;
        while row < capacity
            invariant
                layer < layer_count,
                row <= capacity,
                forall|i: int| 0 <= i < rows@.len() ==> #[trigger] rows@[i]@.len() >= layer_count,
                table@.len() == layer * capacity + row,
                forall|l: int, r: int|
                    0 <= l < layer && 0 <= r < capacity ==> #[trigger] table@[l * capacity + r]
                        == state_entry(rows@, l, r),
                forall|r: int|
                    0 <= r < row ==> #[trigger] table@[layer * capacity + r] == state_entry(
                        rows@,
                        layer as int,
                        r,
                    ),
            decreases capacity - row,
        {
            let entry: StateRef = if row < rows.len() {
                if rows[row][layer] {
                    StateRef::Row(row)
                } else {
                    StateRef::Null
                }
            } else {
                StateRef::Padding(row)
            };
            let ghost before = table@;
            table.push(entry);
            proof {
                assert forall|l: int, r: int|
                    0 <= l < layer && 0 <= r < capacity implies #[trigger] table@[l * capacity + r]
                    == state_entry(rows@, l, r) by {
                    lemma_entry_before(l, layer as int, capacity as int, r);
                    assert(before[l * capacity + r] == state_entry(rows@, l, r));
                }
            }
            row += 1;
        }
        layer += 1;
        proof {
            let done = layer - 1;
            assert(done * capacity + capacity == layer * capacity) by (nonlinear_arith)
                requires
                    done == layer - 1,
            ;
            assert forall|l: int, r: int|
                0 <= l < layer && 0 <= r < capacity implies #[trigger] table@[l * capacity + r]
                == state_entry(rows@, l, r) by {
                if l == done {
                    assert(table@[done * capacity + r] == state_entry(rows@, done as int, r));
                }
            }
        }
    }
    table
}

proof fn lemma_entry_before(layer: int, later: int, capacity: int, row: int)
    requires
        0 <= layer < later,
        0 <= row < capacity,
    ensures
        0 <= layer * capacity + row < later * capacity,
{
    assert(0 <= layer * capacity && layer * capacity + capacity <= later * capacity)
        by (nonlinear_arith)
        requires
            0 <= layer,
            layer + 1 <= later,
            0 <= capacity,
    ;
}

/// State table of a single-sequence prompt pass.
pub struct SinglePrefillTable {
    /// Whether each layer's state has been bound.
    pub bound: Vec<bool>,
}

/// Whether the chunks of one sequence of `tokens` rows were laid out where they are needed. The
/// device counts rows in 32 bits, and the count is cut to them.
pub open spec fn single_chunks(
    tokens: usize,
    chunked: bool,
    result: Result<Option<ChunkMetadata>, GdnError>,
) -> bool {
    let lengths = seq![tokens as u32];
    match result {
        Ok(Some(metadata)) => chunked && chunks_prepared(
            lengths,
            Ok::<ChunkMetadata, GdnError>(metadata),
        ),
        Ok(None) => !chunked,
        Err(error) => chunked && chunks_prepared(lengths, Err::<ChunkMetadata, GdnError>(error)),
    }
}

impl SinglePrefillTable {
    /// Forgets every binding, and lays out the chunks of one sequence of `tokens` rows where
    /// the chunked kernel is available.
    pub fn begin_single_prefill(&mut self, tokens: usize, chunked: bool) -> (result: Result<
        Option<ChunkMetadata>,
        GdnError,
    >)
        ensures
            final(self).bound@ == Seq::new(old(self).bound@.len(), |i: int| false),
            single_chunks(tokens, chunked, result),
    {
        let len: usize = self.bound.len();
        let mut i: usize = 0;
        while i < len
            invariant
                i <= len,
                len == self.bound@.len(),
                len == old(self).bound@.len(),
                forall|j: int| 0 <= j < i ==> !#[trigger] self.bound@[j],
            decreases len - i,
        {
            self.bound.set(i, false);
            i += 1;
        }
        assert(self.bound@ =~= Seq::new(old(self).bound@.len(), |j: int| false));
        if !chunked {
            return Ok(None);
        }
        let lengths: Vec<u32> = vec![#[verifier::truncate] (tokens as u32)];
        assert(lengths@ =~= seq![tokens as u32]);
        match prepare_chunks(lengths.as_slice()) {
            Ok(metadata) => Ok(Some(metadata)),
            Err(error) => Err(error),
        }
    }

    /// Binds the state of one layer.
    pub fn bind_single_prefill_state(&mut self, layer_idx: usize) -> (result: Result<(), GdnError>)
        ensures
            match result {
                Ok(_) => {
                    &&& layer_idx < old(self).bound@.len()
                    &&& final(self).bound@ == old(self).bound@.update(layer_idx as int, true)
                },
                Err(error) => {
                    &&& layer_idx >= old(self).bound@.len()
                    &&& final(self).bound@ == old(self).bound@
                    &&& error == GdnError::Layer
                },
            },
    {
        if layer_idx >= self.bound.len() {
            return Err(GdnError::Layer);
        }
        self.bound.set(layer_idx, true);
        Ok(())
    }
}

} // verus!
