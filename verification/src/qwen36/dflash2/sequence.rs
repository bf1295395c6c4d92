//! Sliding window of keys and values that a companion keeps for one sequence.

use vstd::prelude::*;
use crate::qwen36::dflash2::config::DFlash2Config;

verus! {

/// Rows of one proposal.
pub const DFLASH2_BLOCK_ROWS: usize = 8;

/// Most rows of one context chunk.
pub const DFLASH2_CONTEXT_ROWS: usize = 128;

/// Why the window of a sequence cannot be used.
#[derive(Clone, Copy, Debug, PartialEq, Eq, Structural)]
pub enum WindowError {
    /// No captured rows, rows outside the captured ones, or another number of layers.
    ContextAppend,
    /// Position and windows do not belong together.
    Snapshot,
    /// A byte count is not representable.
    SnapshotBytes,
    /// The number of window elements is not representable.
    RestoreElements,
    /// Snapshot and destination do not belong together.
    Restore,
    /// A projection has no plan for the context rows.
    NoContextPlan,
    /// No projection has a plan for this many rows.
    Rows(usize),
}

/// Which plan a projection uses.
#[derive(Clone, Copy, Debug, PartialEq, Eq, Structural)]
pub enum DraftPlan {
    /// The plan for this many rows, counted from two rows on.
    Proposal(usize),
    /// The plan for the context rows.
    Context,
}

/// Chooses the plan of a projection.
pub fn draft_plan(rows: usize, context: bool) -> (result: Result<DraftPlan, WindowError>)
    ensures
        match result {
            Ok(DraftPlan::Proposal(index)) => 2 <= rows <= DFLASH2_BLOCK_ROWS && index == rows - 2,
            Ok(DraftPlan::Context) => rows == DFLASH2_CONTEXT_ROWS && context,
            Err(error) => if rows == DFLASH2_CONTEXT_ROWS {
                !context && error == WindowError::NoContextPlan
            } else {
                !(2 <= rows <= DFLASH2_BLOCK_ROWS) && error == WindowError::Rows(rows)
            },
        },
{
    if 2 <= rows && rows <= DFLASH2_BLOCK_ROWS {
        Ok(DraftPlan::Proposal(rows - 2))
    } else if rows == DFLASH2_CONTEXT_ROWS {
        if context {
            Ok(DraftPlan::Context)
        } else {
            Err(WindowError::NoContextPlan)
        }
    } else {
        Err(WindowError::Rows(rows))
    }
}

/// Copy of consecutive values into a ring.
#[derive(Clone, Copy, Debug, PartialEq, Eq, Structural)]
pub struct RingCopy {
    /// First value in the ring.
    pub destination: usize,
    /// First value in the source.
    pub source: usize,
    /// Number of values.
    pub values: usize,
}

/// Rows that fit before the end of the ring.
pub open spec fn rows_before_end(start: int, rows: int, window: int) -> int {
    if rows < window - start % window {
        rows
    } else {
        window - start % window
    }
}

/// Copies of an append to a ring: up to its end, then from its start.
pub open spec fn ring_copies(start: int, rows: int, width: int, window: int) -> Seq<RingCopy> {
    let first = rows_before_end(start, rows, window);
    let head = RingCopy {
        destination: ((start % window) * width) as usize,
        source: 0,
        values: (first * width) as usize,
    };
    if rows > first {
        seq![
            head,
            RingCopy {
                destination: 0,
                source: (first * width) as usize,
                values: ((rows - first) * width) as usize,
            },
        ]
    } else {
        seq![head]
    }
}

/// Plans an append of rows at a position to a ring.
pub fn append_ring_rows(start_position: usize, rows: usize, width: usize, window: usize) -> (copies:
    Vec<RingCopy>)
    requires
        window > 0,
        window * width <= usize::MAX,
        rows * width <= usize::MAX,
    ensures
        copies@ == ring_copies(start_position as int, rows as int, width as int, window as int),
{
    let first_slot: usize = start_position % window;
    let room: usize = window - first_slot;
    let first_rows: usize = if rows < room {
        rows
    } else {
        room
    };
    let remaining: usize = rows - first_rows;
    assert(first_slot * width <= window * width && first_rows * width <= rows * width && remaining
        * width <= rows * width) by (nonlinear_arith)
        requires
            first_slot <= window,
            first_rows <= rows,
            remaining <= rows,
    ;
    let mut copies: Vec<RingCopy> = Vec::new();
    copies.push(
        RingCopy { destination: first_slot * width, source: 0, values: first_rows * width },
    );
    if remaining > 0 {
        copies.push(
            RingCopy { destination: 0, source: first_rows * width, values: remaining * width },
        );
    }
    assert(copies@ =~= ring_copies(
        start_position as int,
        rows as int,
        width as int,
        window as int,
    ));
    copies
}

/// Window of one sequence.
pub struct Qwen38DFlash2SequenceState {
    /// Tokens seen.
    pub position: usize,
    /// Rows that each layer holds.
    pub layers: Vec<usize>,
}

/// Rows that a window holds after `position` tokens.
pub open spec fn retained(position: usize, window: usize) -> usize {
    if position < window {
        position
    } else {
        window
    }
}

fn retained_rows(position: usize, window: usize) -> (rows: usize)
    ensures
        rows == retained(position, window),
{
    if position < window {
        position
    } else {
        window
    }
}

impl Qwen38DFlash2SequenceState {
    /// Tokens seen.
    pub fn position(&self) -> (position: usize)
        ensures
            position == self.position,
    {
        self.position
    }

    /// Whether every layer holds the rows that the position calls for.
    pub open spec fn consistent(self, config: DFlash2Config) -> bool {
        &&& self.layers@.len() == config.layers
        &&& forall|i: int|
            0 <= i < self.layers@.len() ==> #[trigger] self.layers@[i] == retained(
                self.position,
                config.sliding_window,
            )
    }

    /// Whether the window is the one before it after `rows` rows more: each layer holds as many
    /// rows more, up to the window.
    pub open spec fn advanced(self, before: Self, rows: usize, window: usize) -> bool {
        &&& self.position == before.position + rows
        &&& self.layers@.len() == before.layers@.len()
        &&& forall|i: int|
            0 <= i < self.layers@.len() ==> #[trigger] self.layers@[i] == if before.layers@[i]
                + rows < window {
                before.layers@[i] + rows
            } else {
                window as int
            }
    }

    fn check_layers(&self, layers: usize, rows: usize) -> (consistent: bool)
        ensures
            consistent == (self.layers@.len() == layers && forall|i: int|
                0 <= i < self.layers@.len() ==> #[trigger] self.layers@[i] == rows),
    {
        if self.layers.len() != layers {
            return false;
        }
        let mut i: usize = 0;
        while i < self.layers.len()
            invariant
                i <= self.layers@.len(),
                forall|j: int| 0 <= j < i ==> #[trigger] self.layers@[j] == rows,
            decreases self.layers@.len() - i,
        {
            if self.layers[i] != rows {
                assert(self.layers@[i as int] != rows);
                return false;
            }
            i += 1;
        }
        true
    }
}

/// Window that was kept for a prompt prefix.
pub struct Qwen38DFlash2SequenceSnapshot {
    /// Tokens seen.
    pub position: usize,
    /// Rows of each layer.
    pub layers: Vec<usize>,
    /// Values of the keys of each layer, and as many for its values.
    pub elements: Vec<usize>,
    /// Device bytes.
    pub device_bytes: usize,
}

impl Qwen38DFlash2SequenceSnapshot {
    /// Tokens seen.
    pub fn position(&self) -> (position: usize)
        ensures
            position == self.position,
    {
        self.position
    }

    /// Device bytes.
    pub fn device_bytes(&self) -> (bytes: usize)
        ensures
            bytes == self.device_bytes,
    {
        self.device_bytes
    }

    fn check_holds(&self, rows: usize, elements: usize) -> (holds: bool)
        requires
            self.elements@.len() == self.layers@.len(),
        ensures
            holds == self.holds(self.layers@.len() as usize, rows, elements),
    {
        let mut i: usize = 0;
        while i < self.layers.len()
            invariant
                i <= self.layers@.len(),
                self.elements@.len() == self.layers@.len(),
                forall|j: int| 0 <= j < i ==> #[trigger] self.layers@[j] == rows,
                forall|j: int| 0 <= j < i ==> #[trigger] self.elements@[j] == elements,
            decreases self.layers@.len() - i,
        {
            if self.layers[i] != rows {
                assert(self.layers@[i as int] != rows);
                return false;
            }
            if self.elements[i] != elements {
                assert(self.elements@[i as int] != elements);
                return false;
            }
            i += 1;
        }
        true
    }

    /// Whether every layer holds `rows` rows of `elements` values.
    pub open spec fn holds(self, layers: usize, rows: usize, elements: usize) -> bool {
        &&& self.layers@.len() == layers
        &&& self.elements@.len() == layers
        &&& forall|i: int| 0 <= i < layers ==> #[trigger] self.layers@[i] == rows
        &&& forall|i: int| 0 <= i < layers ==> #[trigger] self.elements@[i] == elements
    }
}

/// One device operation of a context append.
#[derive(Clone, Copy, Debug, PartialEq, Eq, Structural)]
#[allow(inconsistent_fields)]
pub enum ContextOp {
    /// Clear the captured rows of a chunk.
    Clear { values: usize },
    /// Copy captured rows.
    Load { source: usize, values: usize },
    /// Join the captured layers.
    Join { rows: usize },
    /// Normalise the joined rows.
    Norm { rows: usize },
    /// Project keys.
    Key { layer: usize, rows: usize },
    /// Project values.
    Value { layer: usize, rows: usize },
    /// Normalise keys.
    KeyNorm { layer: usize, rows: usize },
    /// Rotate keys.
    KeyRope { layer: usize, rows: usize, position: usize },
    /// Append keys to the ring of a layer.
    KeepKey { layer: usize, copy: RingCopy },
    /// Append values to the ring of a layer.
    KeepValue { layer: usize, copy: RingCopy },
}

/// Rows of the chunk at `processed`.
pub open spec fn chunk_of(left: int) -> int {
    if left < DFLASH2_CONTEXT_ROWS {
        left
    } else {
        DFLASH2_CONTEXT_ROWS as int
    }
}

/// Rows that the projections of a chunk run on.
pub open spec fn execution_rows(chunk: int) -> usize {
    if chunk <= DFLASH2_BLOCK_ROWS {
        DFLASH2_BLOCK_ROWS
    } else {
        DFLASH2_CONTEXT_ROWS
    }
}

/// Ring copies of one layer, keys or values.
pub open spec fn keep_ops(layer: usize, copies: Seq<RingCopy>, keys: bool) -> Seq<ContextOp> {
    copies.map_values(
        |copy: RingCopy|
            if keys {
                ContextOp::KeepKey { layer, copy }
            } else {
                ContextOp::KeepValue { layer, copy }
            },
    )
}

fn push_keeps(ops: &mut Vec<ContextOp>, layer: usize, copies: &Vec<RingCopy>, keys: bool)
    ensures
        final(ops)@ == old(ops)@ + keep_ops(layer, copies@, keys),
{
    let ghost before = ops@;
    let ghost all = keep_ops(layer, copies@, keys);
    let mut i: usize = 0;
    while i < copies.len()
        invariant
            i <= copies@.len(),
            all == keep_ops(layer, copies@, keys),
            all.len() == copies@.len(),
            ops@ == before + all.take(i as int),
        decreases copies@.len() - i,
    {
        let copy: RingCopy = copies[i];
        if keys {
            ops.push(ContextOp::KeepKey { layer, copy });
        } else {
            ops.push(ContextOp::KeepValue { layer, copy });
        }
        i += 1;
        assert(ops@ =~= before + all.take(i as int));
    }
    assert(all.take(i as int) =~= all);
}

impl DFlash2Config {
    /// Width of a captured row.
    pub open spec fn aux_width(self) -> int {
        self.target_layers@.len() * self.hidden
    }

    /// Starts an empty window.
    pub fn new_sequence_state(&self) -> (state: Qwen38DFlash2SequenceState)
        ensures
            state.position == 0,
            state.layers@ == Seq::new(self.layers as nat, |i: int| 0usize),
            state.consistent(*self),
    {
        let mut layers: Vec<usize> = Vec::new();
        let mut i: usize = 0;
        while i < self.layers
            invariant
                i <= self.layers,
                layers@ == Seq::new(i as nat, |j: int| 0usize),
            decreases self.layers - i,
        {
            layers.push(0);
            i += 1;
            assert(layers@ =~= Seq::new(i as nat, |j: int| 0usize));
        }
        Qwen38DFlash2SequenceState { position: 0, layers }
    }

    /// Device bytes of a snapshot: keys and values of every layer, four bytes each.
    pub open spec fn snapshot_bytes(self, position: usize) -> int {
        retained(position, self.sliding_window) * self.kv_width() * 4 * 2 * self.layers
    }

    /// Counts the device bytes of a snapshot.
    pub fn sequence_snapshot_device_bytes(&self, source: &Qwen38DFlash2SequenceState) -> (result:
        Result<usize, WindowError>)
        requires
            self.kv_width() <= usize::MAX,
            self.layers > 0,
        ensures
            match result {
                Ok(bytes) => {
                    &&& source.position > 0 && source.consistent(*self)
                    &&& bytes == self.snapshot_bytes(source.position)
                },
                Err(error) => if !(source.position > 0 && source.consistent(*self)) {
                    error == WindowError::Snapshot
                } else {
                    error == WindowError::SnapshotBytes && self.snapshot_bytes(source.position)
                        > usize::MAX
                },
            },
    {
        let rows: usize = retained_rows(source.position, self.sliding_window);
        if source.position == 0 || !source.check_layers(self.layers, rows) {
            return Err(WindowError::Snapshot);
        }
        let width: usize = self.kv_heads * self.head_dim;
        let ghost elements = rows * width;
        proof {
            lemma_bytes_grow(elements as int, self.layers as int);
        }
        let values: usize = match rows.checked_mul(width) {
            Some(values) => values,
            None => {
                return Err(WindowError::SnapshotBytes);
            },
        };
        let bytes: usize = match values.checked_mul(4) {
            Some(bytes) => bytes,
            None => {
                return Err(WindowError::SnapshotBytes);
            },
        };
        let pair: usize = match bytes.checked_mul(2) {
            Some(pair) => pair,
            None => {
                return Err(WindowError::SnapshotBytes);
            },
        };
        match pair.checked_mul(source.layers.len()) {
            Some(total) => {
                let ghost layers = self.layers as int;
                assert(total == elements * 4 * 2 * layers) by (nonlinear_arith)
                    requires
                        total == pair * layers,
                        pair == bytes * 2,
                        bytes == values * 4,
                        values == elements,
                ;
                assert(total == self.snapshot_bytes(source.position));
                Ok(total)
            },
            None => {
                let ghost layers = self.layers as int;
                assert(pair * layers == elements * 4 * 2 * layers) by (nonlinear_arith)
                    requires
                        pair == bytes * 2,
                        bytes == values * 4,
                        values == elements,
                ;
                Err(WindowError::SnapshotBytes)
            },
        }
    }

    /// Plans a snapshot of a window.
    pub fn snapshot_sequence_state(&self, source: &Qwen38DFlash2SequenceState) -> (result: Result<
        Qwen38DFlash2SequenceSnapshot,
        WindowError,
    >)
        requires
            self.kv_width() <= usize::MAX,
            self.layers > 0,
        ensures
            match result {
                Ok(snapshot) => {
                    &&& source.position > 0 && source.consistent(*self)
                    &&& snapshot.position == source.position
                    &&& snapshot.device_bytes == self.snapshot_bytes(source.position)
                    &&& snapshot.holds(
                        self.layers,
                        retained(source.position, self.sliding_window),
                        (retained(source.position, self.sliding_window) * self.kv_width()) as usize,
                    )
                },
                Err(error) => if !(source.position > 0 && source.consistent(*self)) {
                    error == WindowError::Snapshot
                } else {
                    error == WindowError::SnapshotBytes && self.snapshot_bytes(source.position)
                        > usize::MAX
                },
            },
    {
        let device_bytes: usize = match self.sequence_snapshot_device_bytes(source) {
            Ok(bytes) => bytes,
            Err(error) => {
                return Err(error);
            },
        };
        let rows: usize = retained_rows(source.position, self.sliding_window);
        let width: usize = self.kv_heads * self.head_dim;
        proof {
            lemma_bytes_grow(rows * width, self.layers as int);
        }
        let count: usize = rows * width;
        let mut layers: Vec<usize> = Vec::new();
        let mut elements: Vec<usize> = Vec::new();
        let mut i: usize = 0;
        while i < source.layers.len()
            invariant
                i <= source.layers@.len(),
                source.consistent(*self),
                rows == retained(source.position, self.sliding_window),
                layers@.len() == i,
                elements@.len() == i,
                forall|j: int| 0 <= j < i ==> #[trigger] layers@[j] == rows,
                forall|j: int| 0 <= j < i ==> #[trigger] elements@[j] == count,
            decreases source.layers@.len() - i,
        {
            assert(source.layers@[i as int] == rows);
            layers.push(source.layers[i]);
            elements.push(count);
            i += 1;
        }
        Ok(
            Qwen38DFlash2SequenceSnapshot {
                position: source.position,
                layers,
                elements,
                device_bytes,
            },
        )
    }

    /// Whether a snapshot can be restored into a window.
    pub open spec fn restorable(
        self,
        snapshot: Qwen38DFlash2SequenceSnapshot,
        destination: Qwen38DFlash2SequenceState,
    ) -> bool {
        let rows = retained(snapshot.position, self.sliding_window);
        &&& destination.position == 0
        &&& destination.layers@.len() == self.layers
        &&& snapshot.holds(self.layers, rows, (rows * self.kv_width()) as usize)
    }

    /// Restores a snapshot into an empty window, and counts the values of each copy.
    pub fn restore_sequence_snapshot(
        &self,
        snapshot: &Qwen38DFlash2SequenceSnapshot,
        destination: &mut Qwen38DFlash2SequenceState,
    ) -> (result: Result<usize, WindowError>)
        requires
            self.kv_width() <= usize::MAX,
            snapshot.elements@.len() == snapshot.layers@.len(),
        ensures
            ({
                let rows = retained(snapshot.position, self.sliding_window);
                match result {
                    Ok(elements) => {
                        &&& elements == rows * self.kv_width()
                        &&& self.restorable(*snapshot, *old(destination))
                        &&& final(destination).position == snapshot.position
                        &&& final(destination).consistent(*self)
                    },
                    Err(error) => {
                        &&& *final(destination) == *old(destination)
                        &&& if rows * self.kv_width() > usize::MAX {
                            error == WindowError::RestoreElements
                        } else {
                            !self.restorable(*snapshot, *old(destination)) && error
                                == WindowError::Restore
                        }
                    },
                }
            }),
    {
        let rows: usize = retained_rows(snapshot.position, self.sliding_window);
        let width: usize = self.kv_heads * self.head_dim;
        let count: usize = match rows.checked_mul(width) {
            Some(count) => count,
            None => {
                return Err(WindowError::RestoreElements);
            },
        };
        if destination.position != 0 || snapshot.layers.len() != self.layers
            || destination.layers.len() != self.layers {
            return Err(WindowError::Restore);
        }
        if !snapshot.check_holds(rows, count) {
            return Err(WindowError::Restore);
        }
        let mut layers: Vec<usize> = Vec::new();
        let mut i: usize = 0;
        while i < self.layers
            invariant
                i <= self.layers,
                layers@.len() == i,
                forall|j: int| 0 <= j < i ==> #[trigger] layers@[j] == rows,
            decreases self.layers - i,
        {
            layers.push(rows);
            i += 1;
        }
        destination.layers = layers;
        destination.position = snapshot.position;
        Ok(count)
    }

    /// Operations of one layer of a context chunk.
    pub open spec fn context_layer(
        self,
        layer: usize,
        position: int,
        chunk: int,
        rows: usize,
    ) -> Seq<ContextOp> {
        let copies = ring_copies(position, chunk, self.kv_width(), self.sliding_window as int);
        seq![
            ContextOp::Key { layer, rows },
            ContextOp::Value { layer, rows },
            ContextOp::KeyNorm { layer, rows: (rows * self.kv_heads) as usize },
            ContextOp::KeyRope { layer, rows, position: position as usize },
        ] + keep_ops(layer, copies, true) + keep_ops(layer, copies, false)
    }

    /// Operations of the first `count` layers of a context chunk.
    pub open spec fn context_layers(
        self,
        count: nat,
        position: int,
        chunk: int,
        rows: usize,
    ) -> Seq<ContextOp>
        decreases count,
    {
        if count == 0 {
            seq![]
        } else {
            self.context_layers((count - 1) as nat, position, chunk, rows) + self.context_layer(
                (count - 1) as usize,
                position,
                chunk,
                rows,
            )
        }
    }

    /// Operations of a context chunk.
    pub open spec fn context_chunk(
        self,
        position: int,
        captured_row: int,
        chunk: int,
    ) -> Seq<ContextOp> {
        let rows = execution_rows(chunk);
        seq![
            ContextOp::Clear { values: (rows * self.aux_width()) as usize },
            ContextOp::Load {
                source: (captured_row * self.aux_width()) as usize,
                values: (chunk * self.aux_width()) as usize,
            },
            ContextOp::Join { rows },
            ContextOp::Norm { rows },
        ] + self.context_layers(self.layers as nat, position, chunk, rows)
    }

    /// Operations of a context append, from the row `processed` on.
    pub open spec fn context_ops(
        self,
        position: int,
        captured_row: int,
        active_rows: int,
        processed: int,
    ) -> Seq<ContextOp>
        decreases active_rows - processed,
    {
        if processed >= active_rows {
            seq![]
        } else {
            let chunk = chunk_of(active_rows - processed);
            self.context_chunk(position + processed, captured_row + processed, chunk)
                + self.context_ops(position, captured_row, active_rows, processed + chunk)
        }
    }

    /// Whether captured rows can be appended to a window.
    pub open spec fn appendable(
        self,
        layers: nat,
        captured: usize,
        captured_row: usize,
        active_rows: usize,
    ) -> bool {
        &&& active_rows > 0
        &&& layers == self.layers
        &&& captured_row + active_rows <= usize::MAX
        &&& (captured_row + active_rows) * self.aux_width() <= captured
    }

    /// Inputs whose arithmetic is representable.
    pub open spec fn context_fits(self) -> bool {
        &&& self.sliding_window > 0
        &&& self.kv_width() <= usize::MAX
        &&& self.aux_width() <= usize::MAX
        &&& DFLASH2_CONTEXT_ROWS * self.aux_width() <= usize::MAX
        &&& DFLASH2_CONTEXT_ROWS * self.kv_heads <= usize::MAX
        &&& DFLASH2_CONTEXT_ROWS * self.kv_width() <= usize::MAX
        &&& self.sliding_window * self.kv_width() <= usize::MAX
    }

    fn push_context_layer(
        &self,
        ops: &mut Vec<ContextOp>,
        layer: usize,
        position: usize,
        chunk: usize,
        rows: usize,
    )
        requires
            self.context_fits(),
            chunk <= DFLASH2_CONTEXT_ROWS,
            rows <= DFLASH2_CONTEXT_ROWS,
        ensures
            final(ops)@ == old(ops)@ + self.context_layer(
                layer,
                position as int,
                chunk as int,
                rows,
            ),
    {
        let width: usize = self.kv_heads * self.head_dim;
        assert(rows * self.kv_heads <= DFLASH2_CONTEXT_ROWS * self.kv_heads && chunk * width
            <= DFLASH2_CONTEXT_ROWS * width) by (nonlinear_arith)
            requires
                rows <= DFLASH2_CONTEXT_ROWS,
                chunk <= DFLASH2_CONTEXT_ROWS,
        ;
        let copies = append_ring_rows(position, chunk, width, self.sliding_window);
        ops.push(ContextOp::Key { layer, rows });
        ops.push(ContextOp::Value { layer, rows });
        ops.push(ContextOp::KeyNorm { layer, rows: rows * self.kv_heads });
        ops.push(ContextOp::KeyRope { layer, rows, position });
        push_keeps(ops, layer, &copies, true);
        push_keeps(ops, layer, &copies, false);
        assert(ops@ =~= old(ops)@ + self.context_layer(layer, position as int, chunk as int, rows));
    }

    fn push_context_layers(
        &self,
        ops: &mut Vec<ContextOp>,
        position: usize,
        chunk: usize,
        rows: usize,
    )
        requires
            self.context_fits(),
            chunk <= DFLASH2_CONTEXT_ROWS,
            rows <= DFLASH2_CONTEXT_ROWS,
        ensures
            final(ops)@ == old(ops)@ + self.context_layers(
                self.layers as nat,
                position as int,
                chunk as int,
                rows,
            ),
    {
        let ghost before = ops@;
        let mut layer: usize = 0;
        assert(ops@ =~= before + self.context_layers(0, position as int, chunk as int, rows));
        while layer < self.layers
            invariant
                layer <= self.layers,
                self.context_fits(),
                chunk <= DFLASH2_CONTEXT_ROWS,
                rows <= DFLASH2_CONTEXT_ROWS,
                ops@ == before + self.context_layers(
                    layer as nat,
                    position as int,
                    chunk as int,
                    rows,
                ),
            decreases self.layers - layer,
        {
            let ghost done = self.context_layers(
                layer as nat,
                position as int,
                chunk as int,
                rows,
            );
            self.push_context_layer(ops, layer, position, chunk, rows);
            proof {
                lemma_append(
                    before,
                    done,
                    self.context_layer(layer, position as int, chunk as int, rows),
                );
            }
            layer += 1;
        }
    }

    fn push_context_chunk(
        &self,
        ops: &mut Vec<ContextOp>,
        position: usize,
        captured_row: usize,
        chunk: usize,
    )
        requires
            self.context_fits(),
            0 < chunk <= DFLASH2_CONTEXT_ROWS,
            captured_row * self.aux_width() <= usize::MAX,
        ensures
            final(ops)@ == old(ops)@ + self.context_chunk(
                position as int,
                captured_row as int,
                chunk as int,
            ),
    {
        let ghost before = ops@;
        let aux: usize = self.target_layers.len() * self.hidden;
        let rows: usize = if chunk <= DFLASH2_BLOCK_ROWS {
            DFLASH2_BLOCK_ROWS
        } else {
            DFLASH2_CONTEXT_ROWS
        };
        assert(rows * aux <= DFLASH2_CONTEXT_ROWS * aux && chunk * aux <= DFLASH2_CONTEXT_ROWS
            * aux) by (nonlinear_arith)
            requires
                rows <= DFLASH2_CONTEXT_ROWS,
                chunk <= DFLASH2_CONTEXT_ROWS,
        ;
        ops.push(ContextOp::Clear { values: rows * aux });
        ops.push(ContextOp::Load { source: captured_row * aux, values: chunk * aux });
        ops.push(ContextOp::Join { rows });
        ops.push(ContextOp::Norm { rows });
        self.push_context_layers(ops, position, chunk, rows);
        assert(ops@ =~= before + self.context_chunk(
            position as int,
            captured_row as int,
            chunk as int,
        ));
    }

    /// Plans the append of captured rows to a window, and advances it.
    pub fn append_captured_context(
        &self,
        state: &mut Qwen38DFlash2SequenceState,
        captured: usize,
        captured_row: usize,
        active_rows: usize,
    ) -> (result: Result<Vec<ContextOp>, WindowError>)
        requires
            self.context_fits(),
            old(state).position + active_rows <= usize::MAX,
            forall|i: int|
                0 <= i < old(state).layers@.len() ==> #[trigger] old(state).layers@[i]
                    <= self.sliding_window,
        ensures
            match result {
                Ok(ops) => {
                    &&& self.appendable(
                        old(state).layers@.len(),
                        captured,
                        captured_row,
                        active_rows,
                    )
                    &&& ops@ == self.context_ops(
                        old(state).position as int,
                        captured_row as int,
                        active_rows as int,
                        0,
                    )
                    &&& final(state).advanced(*old(state), active_rows, self.sliding_window)
                    &&& old(state).consistent(*self) ==> final(state).consistent(*self)
                    &&& self.aux_width() > 0 && DFLASH2_CONTEXT_ROWS <= self.sliding_window
                        ==> crate::qwen36::dflash2::context_flow::appended(
                        *self,
                        old(state).position as int,
                        captured_row as int,
                        active_rows as int,
                        ops@,
                    )
                },
                Err(error) => {
                    &&& !self.appendable(
                        old(state).layers@.len(),
                        captured,
                        captured_row,
                        active_rows,
                    )
                    &&& *final(state) == *old(state)
                    &&& error == WindowError::ContextAppend
                },
            },
    {
        let aux: usize = self.target_layers.len() * self.hidden;
        if active_rows == 0 || state.layers.len() != self.layers {
            return Err(WindowError::ContextAppend);
        }
        let end: usize = match captured_row.checked_add(active_rows) {
            Some(end) => end,
            None => {
                return Err(WindowError::ContextAppend);
            },
        };
        match end.checked_mul(aux) {
            Some(values) => {
                if values > captured {
                    return Err(WindowError::ContextAppend);
                }
            },
            None => {
                return Err(WindowError::ContextAppend);
            },
        }
        let ghost start = *state;
        let mut ops: Vec<ContextOp> = Vec::new();
        let mut processed: usize = 0;
        let ghost all = self.context_ops(
            start.position as int,
            captured_row as int,
            active_rows as int,
            0,
        );
        while processed < active_rows
            invariant
                processed <= active_rows,
                self.context_fits(),
                start.position + active_rows <= usize::MAX,
                captured_row + active_rows <= usize::MAX,
                (captured_row + active_rows) * self.aux_width() <= usize::MAX,
                *state == start,
                all == ops@ + self.context_ops(
                    start.position as int,
                    captured_row as int,
                    active_rows as int,
                    processed as int,
                ),
            decreases active_rows - processed,
        {
            let left: usize = active_rows - processed;
            let chunk: usize = if left < DFLASH2_CONTEXT_ROWS {
                left
            } else {
                DFLASH2_CONTEXT_ROWS
            };
            let ghost before = ops@;
            proof {
                let width = self.aux_width();
                assert((captured_row + processed) * width <= (captured_row + active_rows) * width)
                    by (nonlinear_arith)
                    requires
                        processed <= active_rows,
                        0 <= width,
                ;
            }
            self.push_context_chunk(
                &mut ops,
                state.position + processed,
                captured_row + processed,
                chunk,
            );
            proof {
                lemma_append(
                    before,
                    self.context_chunk(
                        start.position + processed,
                        captured_row + processed,
                        chunk as int,
                    ),
                    self.context_ops(
                        start.position as int,
                        captured_row as int,
                        active_rows as int,
                        processed + chunk,
                    ),
                );
            }
            processed += chunk;
        }
        assert(ops@ =~= all);
        self.advance(state, active_rows);
        proof {
            if start.consistent(*self) {
                law_append_keeps_windows_consistent(*self, start, *state, active_rows);
            }
            if self.aux_width() > 0 && DFLASH2_CONTEXT_ROWS <= self.sliding_window {
                crate::qwen36::dflash2::context_flow::lemma_appended(
                    *self,
                    start.position as int,
                    captured_row as int,
                    active_rows as int,
                );
            }
        }
        Ok(ops)
    }

    fn advance(&self, state: &mut Qwen38DFlash2SequenceState, rows: usize)
        requires
            old(state).position + rows <= usize::MAX,
            forall|i: int|
                0 <= i < old(state).layers@.len() ==> #[trigger] old(state).layers@[i]
                    <= self.sliding_window,
        ensures
            final(state).advanced(*old(state), rows, self.sliding_window),
    {
        let mut layers: Vec<usize> = Vec::new();
        let mut i: usize = 0;
        while i < state.layers.len()
            invariant
                i <= state.layers@.len(),
                *state == *old(state),
                forall|j: int|
                    0 <= j < state.layers@.len() ==> #[trigger] state.layers@[j]
                        <= self.sliding_window,
                layers@.len() == i,
                forall|j: int|
                    0 <= j < i ==> #[trigger] layers@[j] == if state.layers@[j] + rows
                        < self.sliding_window {
                        state.layers@[j] + rows
                    } else {
                        self.sliding_window as int
                    },
            decreases state.layers@.len() - i,
        {
            let len: usize = state.layers[i];
            assert(state.layers@[i as int] <= self.sliding_window);
            let room: usize = self.sliding_window - len;
            if rows < room {
                layers.push(len + rows);
            } else {
                layers.push(self.sliding_window);
            }
            i += 1;
        }
        state.layers = layers;
        state.position = state.position + rows;
    }
}

proof fn lemma_append(start: Seq<ContextOp>, left: Seq<ContextOp>, right: Seq<ContextOp>)
    ensures
        start + left + right == start + (left + right),
{
    assert(start + left + right =~= start + (left + right));
}

proof fn lemma_bytes_grow(elements: int, layers: int)
    requires
        0 <= elements,
        0 < layers,
    ensures
        elements <= elements * 4 * 2 * layers,
        elements * 4 <= elements * 4 * 2 * layers,
        elements * 4 * 2 <= elements * 4 * 2 * layers,
{
    assert(elements * 4 * 2 <= elements * 4 * 2 * layers) by (nonlinear_arith)
        requires
            0 <= elements,
            1 <= layers,
    ;
}

/// Appending keeps position and windows consistent.
pub proof fn law_append_keeps_windows_consistent(
    config: DFlash2Config,
    before: Qwen38DFlash2SequenceState,
    after: Qwen38DFlash2SequenceState,
    rows: usize,
)
    requires
        before.consistent(config),
        after.advanced(before, rows, config.sliding_window),
    ensures
        after.consistent(config),
{
    assert forall|i: int| 0 <= i < after.layers@.len() implies #[trigger] after.layers@[i]
        == retained(after.position, config.sliding_window) by {
        assert(before.layers@[i] == retained(before.position, config.sliding_window));
    }
}

/// A snapshot of a consistent window can be restored into any empty one of the same companion.
pub proof fn law_snapshot_can_be_restored(
    config: DFlash2Config,
    source: Qwen38DFlash2SequenceState,
    snapshot: Qwen38DFlash2SequenceSnapshot,
    destination: Qwen38DFlash2SequenceState,
)
    requires
        snapshot.position == source.position,
        snapshot.holds(
            config.layers,
            retained(source.position, config.sliding_window),
            (retained(source.position, config.sliding_window) * config.kv_width()) as usize,
        ),
        destination.position == 0,
        destination.layers@.len() == config.layers,
    ensures
        config.restorable(snapshot, destination),
{
}

/// A window that was restored is where the window stood that the snapshot was taken of.
pub proof fn law_snapshot_round_trip(
    config: DFlash2Config,
    source: Qwen38DFlash2SequenceState,
    snapshot: Qwen38DFlash2SequenceSnapshot,
    restored: Qwen38DFlash2SequenceState,
)
    requires
        source.consistent(config),
        snapshot.position == source.position,
        restored.position == snapshot.position,
        restored.consistent(config),
    ensures
        restored.position == source.position,
        restored.layers@ == source.layers@,
{
    assert forall|i: int| 0 <= i < source.layers@.len() implies restored.layers@[i]
        == source.layers@[i] by {
        assert(source.layers@[i] == retained(source.position, config.sliding_window));
        assert(restored.layers@[i] == retained(source.position, config.sliding_window));
    }
    assert(restored.layers@ =~= source.layers@);
}

} // verus!
