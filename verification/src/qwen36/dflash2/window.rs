//! What the sliding window of a sequence holds after the copies of a context append.

use crate::qwen36::dflash2::config::DFlash2Config;
use crate::qwen36::dflash2::sequence::{ContextOp, RingCopy, DFLASH2_CONTEXT_ROWS};
use vstd::prelude::*;

verus! {

/// One value of a key or a value row, by where it comes from.
pub struct WindowCell {
    /// Layer whose projection it is.
    pub layer: int,
    /// Position of the token whose captured row was projected.
    pub position: int,
    /// Position that a key was rotated to; values are not rotated.
    pub rotated: Option<int>,
    /// Column of the row.
    pub column: int,
}

/// The cell that belongs at a column of the row of a position.
pub open spec fn window_cell(layer: int, keys: bool, position: int, column: int) -> WindowCell {
    WindowCell {
        layer,
        position,
        rotated: if keys {
            Some(position)
        } else {
            None
        },
        column,
    }
}

/// The rings of all layers, and the rows that a context chunk has projected last.
pub struct WindowMemory {
    /// Position of the first captured row that was loaded.
    pub loaded: int,
    /// Layer whose keys were projected last.
    pub key_layer: int,
    /// Position that the first of these keys was rotated to.
    pub rotated: Option<int>,
    /// Layer whose values were projected last.
    pub value_layer: int,
    /// Keys of each layer.
    pub keys: Seq<Seq<WindowCell>>,
    /// Values of each layer.
    pub values: Seq<Seq<WindowCell>>,
}

impl WindowMemory {
    /// Cell at `index` of the projected rows, each `width` wide.
    pub open spec fn projected(self, keys: bool, width: int, index: int) -> WindowCell {
        WindowCell {
            layer: if keys {
                self.key_layer
            } else {
                self.value_layer
            },
            position: self.loaded + index / width,
            rotated: if keys {
                match self.rotated {
                    Some(first) => Some(first + index / width),
                    None => None,
                }
            } else {
                None
            },
            column: index % width,
        }
    }

    /// Rings of the keys, or of the values.
    pub open spec fn rings(self, keys: bool) -> Seq<Seq<WindowCell>> {
        if keys {
            self.keys
        } else {
            self.values
        }
    }
}

/// A ring after a copy of projected cells.
pub open spec fn ring_written(
    ring: Seq<WindowCell>,
    copy: RingCopy,
    memory: WindowMemory,
    keys: bool,
    width: int,
) -> Seq<WindowCell> {
    Seq::new(
        ring.len(),
        |index: int|
            if copy.destination <= index < copy.destination + copy.values {
                memory.projected(keys, width, copy.source + index - copy.destination)
            } else {
                ring[index]
            },
    )
}

/// A ring after copies of projected cells.
pub open spec fn ring_appended(
    ring: Seq<WindowCell>,
    copies: Seq<RingCopy>,
    memory: WindowMemory,
    keys: bool,
    width: int,
) -> Seq<WindowCell>
    decreases copies.len(),
{
    if copies.len() == 0 {
        ring
    } else {
        ring_written(
            ring_appended(ring, copies.drop_last(), memory, keys, width),
            copies.last(),
            memory,
            keys,
            width,
        )
    }
}

/// Index of a column of the row of a position in a ring.
pub open spec fn ring_index(position: int, column: int, window: int, width: int) -> int {
    (position % window) * width + column
}

/// Whether a ring holds the rows of the latest positions before `end`, each in the slot of its
/// remainder.
pub open spec fn ring_holds(
    ring: Seq<WindowCell>,
    layer: int,
    keys: bool,
    end: int,
    window: int,
    width: int,
) -> bool {
    &&& ring.len() == window * width
    &&& forall|position: int, column: int|
        0 <= position < end && end - window <= position && 0 <= column < width
            ==> ring[#[trigger] ring_index(position, column, window, width)] == window_cell(
            layer,
            keys,
            position,
            column,
        )
}

impl DFlash2Config {
    /// Memory after one operation of an append, in which the captured row `captured_row` belongs
    /// to the token at `start` and the rows after it to the tokens that follow.
    pub open spec fn context_step(
        self,
        memory: WindowMemory,
        op: ContextOp,
        start: int,
        captured_row: int,
    ) -> WindowMemory {
        match op {
            ContextOp::Load { source, .. } => WindowMemory {
                loaded: start + source as int / self.aux_width() - captured_row,
                ..memory
            },
            ContextOp::Key { layer, .. } => WindowMemory {
                key_layer: layer as int,
                rotated: None,
                ..memory
            },
            ContextOp::Value { layer, .. } => WindowMemory { value_layer: layer as int, ..memory },
            ContextOp::KeyRope { position, .. } => WindowMemory {
                rotated: Some(position as int),
                ..memory
            },
            ContextOp::KeepKey { layer, copy } => WindowMemory {
                keys: memory.keys.update(
                    layer as int,
                    ring_written(memory.keys[layer as int], copy, memory, true, self.kv_width()),
                ),
                ..memory
            },
            ContextOp::KeepValue { layer, copy } => WindowMemory {
                values: memory.values.update(
                    layer as int,
                    ring_written(memory.values[layer as int], copy, memory, false, self.kv_width()),
                ),
                ..memory
            },
            _ => memory,
        }
    }

    /// Memory after the operations of an append.
    pub open spec fn after_context(
        self,
        memory: WindowMemory,
        ops: Seq<ContextOp>,
        start: int,
        captured_row: int,
    ) -> WindowMemory
        decreases ops.len(),
    {
        if ops.len() == 0 {
            memory
        } else {
            self.context_step(
                self.after_context(memory, ops.drop_last(), start, captured_row),
                ops.last(),
                start,
                captured_row,
            )
        }
    }

    /// Whether the rings of a layer hold the latest rows before `end`.
    pub open spec fn layer_holds(self, memory: WindowMemory, layer: int, end: int) -> bool {
        let window = self.sliding_window as int;
        &&& ring_holds(memory.keys[layer], layer, true, end, window, self.kv_width())
        &&& ring_holds(memory.values[layer], layer, false, end, window, self.kv_width())
    }

    /// Whether the rings of every layer hold the latest rows before `end`.
    pub open spec fn window_holds(self, memory: WindowMemory, end: int) -> bool {
        &&& memory.keys.len() == self.layers
        &&& memory.values.len() == self.layers
        &&& forall|layer: int|
            0 <= layer < self.layers ==> #[trigger] self.layer_holds(memory, layer, end)
    }
}

proof fn lemma_remainder(value: int, quotient: int, remainder: int, divisor: int)
    requires
        divisor > 0,
        value == divisor * quotient + remainder,
        0 <= remainder < divisor,
    ensures
        value % divisor == remainder,
        value / divisor == quotient,
{
    assert(divisor * quotient == quotient * divisor) by (nonlinear_arith);
    vstd::arithmetic::div_mod::lemma_fundamental_div_mod_converse(
        value,
        divisor,
        quotient,
        remainder,
    );
}

/// The slot of a position that lies `offset` rows behind the first slot of an append.
proof fn lemma_slot(start: int, offset: int, window: int)
    requires
        window > 0,
        -window <= offset <= window,
    ensures
        ({
            let slot = start % window + offset;
            &&& 0 <= start % window < window
            &&& 0 <= slot < window ==> (start + offset) % window == slot
            &&& window <= slot < 2 * window ==> (start + offset) % window == slot - window
            &&& -window <= slot < 0 ==> (start + offset) % window == slot + window
        }),
{
    let quotient = start / window;
    let slot = start % window + offset;
    vstd::arithmetic::div_mod::lemma_fundamental_div_mod(start, window);
    vstd::arithmetic::div_mod::lemma_mod_bound(start, window);
    assert(window * (quotient + 1) == window * quotient + window) by (nonlinear_arith);
    assert(window * (quotient - 1) == window * quotient - window) by (nonlinear_arith);
    if 0 <= slot < window {
        lemma_remainder(start + offset, quotient, slot, window);
    } else if slot >= window {
        if slot < 2 * window {
            lemma_remainder(start + offset, quotient + 1, slot - window, window);
        }
    } else {
        lemma_remainder(start + offset, quotient - 1, slot + window, window);
    }
}

/// A cell stands below the end of a run of slots exactly where its slot does.
proof fn lemma_slot_order(slot: int, column: int, bound: int, width: int)
    requires
        0 <= column < width,
    ensures
        slot < bound ==> slot * width + column < bound * width,
        slot >= bound ==> slot * width + column >= bound * width,
{
    if slot < bound {
        assert(slot * width + width <= bound * width) by (nonlinear_arith)
            requires
                slot + 1 <= bound,
                width >= 0,
        ;
    } else {
        assert(slot * width >= bound * width) by (nonlinear_arith)
            requires
                slot >= bound,
                width >= 0,
        ;
    }
}

/// Whether the projected rows are those of a layer, from the position `start` on.
pub open spec fn projects(memory: WindowMemory, layer: int, keys: bool, start: int) -> bool {
    &&& memory.loaded == start
    &&& keys ==> memory.key_layer == layer && memory.rotated == Some(start)
    &&& !keys ==> memory.value_layer == layer
}

proof fn lemma_projected(
    memory: WindowMemory,
    layer: int,
    keys: bool,
    start: int,
    offset: int,
    column: int,
    width: int,
)
    requires
        projects(memory, layer, keys, start),
        0 <= column < width,
    ensures
        memory.projected(keys, width, offset * width + column) == window_cell(
            layer,
            keys,
            start + offset,
            column,
        ),
{
    assert(offset * width == width * offset) by (nonlinear_arith);
    lemma_remainder(offset * width + column, offset, column, width);
}

/// The cells that the copies of an append leave in a ring.
proof fn lemma_copies(
    ring: Seq<WindowCell>,
    memory: WindowMemory,
    keys: bool,
    start: int,
    rows: int,
    window: int,
    width: int,
)
    requires
        window > 0,
        width >= 0,
        0 <= rows <= window,
        window * width <= usize::MAX,
        rows * width <= usize::MAX,
    ensures
        ({
            let first = crate::qwen36::dflash2::sequence::rows_before_end(start, rows, window);
            let slot = start % window;
            let after = ring_appended(
                ring,
                crate::qwen36::dflash2::sequence::ring_copies(start, rows, width, window),
                memory,
                keys,
                width,
            );
            &&& after.len() == ring.len()
            &&& forall|index: int|
                0 <= index < ring.len() ==> #[trigger] after[index] == if rows > first && index < (
                rows - first) * width {
                    memory.projected(keys, width, first * width + index)
                } else if slot * width <= index < slot * width + first * width {
                    memory.projected(keys, width, index - slot * width)
                } else {
                    ring[index]
                }
        }),
{
    let first = crate::qwen36::dflash2::sequence::rows_before_end(start, rows, window);
    let slot = start % window;
    let copies = crate::qwen36::dflash2::sequence::ring_copies(start, rows, width, window);
    vstd::arithmetic::div_mod::lemma_mod_bound(start, window);
    assert(0 <= slot * width && slot * width <= window * width) by (nonlinear_arith)
        requires
            0 <= slot,
            slot <= window,
            width >= 0,
    ;
    assert(0 <= first * width && first * width <= rows * width) by (nonlinear_arith)
        requires
            0 <= first,
            first <= rows,
            width >= 0,
    ;
    assert((rows - first) * width == rows * width - first * width) by (nonlinear_arith);
    reveal_with_fuel(ring_appended, 3);
    let head = copies[0];
    let after_head = ring_written(ring, head, memory, keys, width);
    if rows > first {
        assert(copies.drop_last() =~= seq![head]);
        assert(seq![head].drop_last() =~= Seq::<RingCopy>::empty());
        assert(ring_appended(ring, seq![head], memory, keys, width) == after_head);
    } else {
        assert(copies.drop_last() =~= Seq::<RingCopy>::empty());
    }
}

/// An append of up to a window of rows keeps every position that is still in reach and puts the
/// new ones in the slots of the oldest.
proof fn lemma_ring_append(
    ring: Seq<WindowCell>,
    memory: WindowMemory,
    layer: int,
    keys: bool,
    start: int,
    rows: int,
    window: int,
    width: int,
)
    requires
        window > 0,
        width >= 0,
        0 <= start,
        0 <= rows <= window,
        window * width <= usize::MAX,
        rows * width <= usize::MAX,
        projects(memory, layer, keys, start),
        ring_holds(ring, layer, keys, start, window, width),
    ensures
        ring_holds(
            ring_appended(
                ring,
                crate::qwen36::dflash2::sequence::ring_copies(start, rows, width, window),
                memory,
                keys,
                width,
            ),
            layer,
            keys,
            start + rows,
            window,
            width,
        ),
{
    let first = crate::qwen36::dflash2::sequence::rows_before_end(start, rows, window);
    let slot = start % window;
    let copies = crate::qwen36::dflash2::sequence::ring_copies(start, rows, width, window);
    let after = ring_appended(ring, copies, memory, keys, width);
    lemma_copies(ring, memory, keys, start, rows, window, width);
    assert forall|position: int, column: int|
        0 <= position < start + rows && start + rows - window <= position && 0 <= column
            < width implies after[#[trigger] ring_index(position, column, window, width)]
        == window_cell(layer, keys, position, column) by {
        let offset = position - start;
        let index = ring_index(position, column, window, width);
        let own = position % window;
        lemma_slot(start, offset, window);
        assert(0 <= own < window);
        lemma_slot_order(own, column, window, width);
        lemma_slot_order(own, column, 0, width);
        lemma_slot_order(own, column, slot, width);
        lemma_slot_order(own, column, slot + first, width);
        lemma_slot_order(own, column, rows - first, width);
        assert((slot + first) * width == slot * width + first * width) by (nonlinear_arith);
        if offset >= 0 {
            lemma_projected(memory, layer, keys, start, offset, column, width);
            if slot + offset < window {
                assert(own == slot + offset);
                assert(own * width == slot * width + offset * width) by (nonlinear_arith)
                    requires
                        own == slot + offset,
                ;
                assert(index - slot * width == offset * width + column);
            } else {
                assert(own == slot + offset - window);
                assert(first == window - slot);
                assert(own * width == offset * width - first * width) by (nonlinear_arith)
                    requires
                        own == offset - first,
                ;
                assert(first * width + index == offset * width + column);
            }
        } else {
            assert(ring[index] == window_cell(layer, keys, position, column));
        }
    }
}

proof fn lemma_after_concat(
    config: DFlash2Config,
    memory: WindowMemory,
    left: Seq<ContextOp>,
    right: Seq<ContextOp>,
    start: int,
    captured_row: int,
)
    ensures
        config.after_context(memory, left + right, start, captured_row) == config.after_context(
            config.after_context(memory, left, start, captured_row),
            right,
            start,
            captured_row,
        ),
    decreases right.len(),
{
    if right.len() == 0 {
        assert(left + right =~= left);
    } else {
        assert((left + right).drop_last() =~= left + right.drop_last());
        assert((left + right).last() == right.last());
        lemma_after_concat(config, memory, left, right.drop_last(), start, captured_row);
    }
}

/// Memory whose rings of one layer are replaced.
pub open spec fn with_ring(
    memory: WindowMemory,
    layer: int,
    keys: bool,
    ring: Seq<WindowCell>,
) -> WindowMemory {
    if keys {
        WindowMemory { keys: memory.keys.update(layer, ring), ..memory }
    } else {
        WindowMemory { values: memory.values.update(layer, ring), ..memory }
    }
}

proof fn lemma_after_keeps(
    config: DFlash2Config,
    memory: WindowMemory,
    layer: usize,
    copies: Seq<RingCopy>,
    keys: bool,
    start: int,
    captured_row: int,
)
    requires
        layer < memory.rings(keys).len(),
    ensures
        config.after_context(
            memory,
            crate::qwen36::dflash2::sequence::keep_ops(layer, copies, keys),
            start,
            captured_row,
        ) == with_ring(
            memory,
            layer as int,
            keys,
            ring_appended(
                memory.rings(keys)[layer as int],
                copies,
                memory,
                keys,
                config.kv_width(),
            ),
        ),
    decreases copies.len(),
{
    let ops = crate::qwen36::dflash2::sequence::keep_ops(layer, copies, keys);
    let own = layer as int;
    let width = config.kv_width();
    let ring = memory.rings(keys)[own];
    if copies.len() == 0 {
        assert(memory.keys.update(own, memory.keys[own]) =~= memory.keys || !keys);
        assert(memory.values.update(own, memory.values[own]) =~= memory.values || keys);
    } else {
        let fewer = copies.drop_last();
        lemma_after_keeps(config, memory, layer, fewer, keys, start, captured_row);
        assert(ops.drop_last() =~= crate::qwen36::dflash2::sequence::keep_ops(layer, fewer, keys));
        let kept = ring_appended(ring, fewer, memory, keys, width);
        let before = with_ring(memory, own, keys, kept);
        assert(before.rings(keys)[own] == kept);
        assert(ring_written(kept, copies.last(), before, keys, width) =~= ring_written(
            kept,
            copies.last(),
            memory,
            keys,
            width,
        ));
        let written = ring_written(kept, copies.last(), memory, keys, width);
        assert(before.rings(keys).update(own, written) =~= memory.rings(keys).update(own, written));
    }
}

/// Whether two memories differ at most in the projected rows and the rings of one layer.
pub open spec fn same_but(before: WindowMemory, after: WindowMemory, layer: int) -> bool {
    &&& after.loaded == before.loaded
    &&& after.keys.len() == before.keys.len()
    &&& after.values.len() == before.values.len()
    &&& forall|other: int|
        0 <= other < before.keys.len() && other != layer ==> #[trigger] after.keys[other]
            == before.keys[other]
    &&& forall|other: int|
        0 <= other < before.values.len() && other != layer ==> #[trigger] after.values[other]
            == before.values[other]
}

proof fn lemma_after_layer(
    config: DFlash2Config,
    memory: WindowMemory,
    layer: usize,
    position: int,
    chunk: int,
    rows: usize,
    start: int,
    captured_row: int,
)
    requires
        config.context_fits(),
        0 <= position <= usize::MAX,
        0 <= chunk <= DFLASH2_CONTEXT_ROWS <= config.sliding_window,
        layer < memory.keys.len(),
        layer < memory.values.len(),
        memory.loaded == position,
        config.layer_holds(memory, layer as int, position),
    ensures
        ({
            let after = config.after_context(
                memory,
                config.context_layer(layer, position, chunk, rows),
                start,
                captured_row,
            );
            &&& config.layer_holds(after, layer as int, position + chunk)
            &&& same_but(memory, after, layer as int)
        }),
{
    let width = config.kv_width();
    let window = config.sliding_window as int;
    let own = layer as int;
    let copies = crate::qwen36::dflash2::sequence::ring_copies(position, chunk, width, window);
    let entry = seq![
        ContextOp::Key { layer, rows },
        ContextOp::Value { layer, rows },
        ContextOp::KeyNorm { layer, rows: (rows * config.kv_heads) as usize },
        ContextOp::KeyRope { layer, rows, position: position as usize },
    ];
    let keep_keys = crate::qwen36::dflash2::sequence::keep_ops(layer, copies, true);
    let keep_values = crate::qwen36::dflash2::sequence::keep_ops(layer, copies, false);
    lemma_after_concat(config, memory, entry + keep_keys, keep_values, start, captured_row);
    lemma_after_concat(config, memory, entry, keep_keys, start, captured_row);
    let ready = WindowMemory {
        key_layer: own,
        value_layer: own,
        rotated: Some(position),
        ..memory
    };
    assert(config.after_context(memory, entry, start, captured_row) == ready) by {
        reveal_with_fuel(DFlash2Config::after_context, 5);
        assert(entry.drop_last() =~= entry.take(3));
        assert(entry.take(3).drop_last() =~= entry.take(2));
        assert(entry.take(2).drop_last() =~= entry.take(1));
        assert(entry.take(1).drop_last() =~= entry.take(0));
    }
    lemma_after_keeps(config, ready, layer, copies, true, start, captured_row);
    let keyed = config.after_context(ready, keep_keys, start, captured_row);
    lemma_after_keeps(config, keyed, layer, copies, false, start, captured_row);
    assert(chunk * width <= DFLASH2_CONTEXT_ROWS * width) by (nonlinear_arith)
        requires
            chunk <= DFLASH2_CONTEXT_ROWS,
            width >= 0,
    ;
    assert(width >= 0) by (nonlinear_arith)
        requires
            width == config.kv_heads * config.head_dim,
    ;
    lemma_ring_append(memory.keys[own], ready, own, true, position, chunk, window, width);
    lemma_ring_append(memory.values[own], keyed, own, false, position, chunk, window, width);
}

proof fn lemma_after_layers(
    config: DFlash2Config,
    memory: WindowMemory,
    count: nat,
    position: int,
    chunk: int,
    rows: usize,
    start: int,
    captured_row: int,
)
    requires
        config.context_fits(),
        0 <= position <= usize::MAX,
        0 <= chunk <= DFLASH2_CONTEXT_ROWS <= config.sliding_window,
        count <= config.layers,
        memory.loaded == position,
        config.window_holds(memory, position),
    ensures
        ({
            let after = config.after_context(
                memory,
                config.context_layers(count, position, chunk, rows),
                start,
                captured_row,
            );
            &&& after.loaded == position
            &&& after.keys.len() == config.layers
            &&& after.values.len() == config.layers
            &&& forall|layer: int|
                0 <= layer < count ==> #[trigger] config.layer_holds(
                    after,
                    layer,
                    position + chunk,
                )
            &&& forall|layer: int|
                count <= layer < config.layers ==> #[trigger] config.layer_holds(
                    after,
                    layer,
                    position,
                )
        }),
    decreases count,
{
    if count > 0 {
        let fewer = (count - 1) as nat;
        lemma_after_layers(config, memory, fewer, position, chunk, rows, start, captured_row);
        let done = config.context_layers(fewer, position, chunk, rows);
        let last = config.context_layer(fewer as usize, position, chunk, rows);
        let before = config.after_context(memory, done, start, captured_row);
        lemma_after_concat(config, memory, done, last, start, captured_row);
        assert(config.layer_holds(before, fewer as int, position));
        lemma_after_layer(
            config,
            before,
            fewer as usize,
            position,
            chunk,
            rows,
            start,
            captured_row,
        );
        let after = config.after_context(before, last, start, captured_row);
        assert forall|layer: int| 0 <= layer < count implies #[trigger] config.layer_holds(
            after,
            layer,
            position + chunk,
        ) by {
            if layer != fewer {
                assert(config.layer_holds(before, layer, position + chunk));
            }
        }
        assert forall|layer: int|
            count <= layer < config.layers implies #[trigger] config.layer_holds(
            after,
            layer,
            position,
        ) by {
            assert(config.layer_holds(before, layer, position));
        }
    }
}

proof fn lemma_after_chunk(
    config: DFlash2Config,
    memory: WindowMemory,
    start: int,
    captured_row: int,
    processed: int,
    chunk: int,
)
    requires
        config.context_fits(),
        config.aux_width() > 0,
        0 <= start,
        0 <= captured_row,
        0 <= processed,
        start + processed <= usize::MAX,
        (captured_row + processed) * config.aux_width() <= usize::MAX,
        0 <= chunk <= DFLASH2_CONTEXT_ROWS <= config.sliding_window,
        config.window_holds(memory, start + processed),
    ensures
        config.window_holds(
            config.after_context(
                memory,
                config.context_chunk(start + processed, captured_row + processed, chunk),
                start,
                captured_row,
            ),
            start + processed + chunk,
        ),
{
    let rows = crate::qwen36::dflash2::sequence::execution_rows(chunk);
    let aux = config.aux_width();
    let row = captured_row + processed;
    let entry = seq![
        ContextOp::Clear { values: (rows * aux) as usize },
        ContextOp::Load { source: (row * aux) as usize, values: (chunk * aux) as usize },
        ContextOp::Join { rows },
        ContextOp::Norm { rows },
    ];
    let layers = config.context_layers(
        config.layers as nat,
        start + processed,
        chunk,
        rows,
    );
    lemma_after_concat(config, memory, entry, layers, start, captured_row);
    assert(0 <= row * aux) by (nonlinear_arith)
        requires
            row >= 0,
            aux > 0,
    ;
    assert(row * aux == aux * row) by (nonlinear_arith);
    lemma_remainder(row * aux, row, 0, aux);
    let ready = WindowMemory { loaded: start + processed, ..memory };
    assert(config.after_context(memory, entry, start, captured_row) == ready) by {
        reveal_with_fuel(DFlash2Config::after_context, 5);
        assert(entry.drop_last() =~= entry.take(3));
        assert(entry.take(3).drop_last() =~= entry.take(2));
        assert(entry.take(2).drop_last() =~= entry.take(1));
        assert(entry.take(1).drop_last() =~= entry.take(0));
    }
    assert(config.window_holds(ready, start + processed)) by {
        assert forall|layer: int| 0 <= layer < config.layers implies #[trigger] config.layer_holds(
            ready,
            layer,
            start + processed,
        ) by {
            assert(config.layer_holds(memory, layer, start + processed));
        }
    }
    lemma_after_layers(
        config,
        ready,
        config.layers as nat,
        start + processed,
        chunk,
        rows,
        start,
        captured_row,
    );
}

proof fn lemma_after_rows(
    config: DFlash2Config,
    memory: WindowMemory,
    start: int,
    captured_row: int,
    active_rows: int,
    processed: int,
)
    requires
        config.context_fits(),
        config.aux_width() > 0,
        DFLASH2_CONTEXT_ROWS <= config.sliding_window,
        0 <= start,
        0 <= captured_row,
        0 <= processed <= active_rows,
        start + active_rows <= usize::MAX,
        (captured_row + active_rows) * config.aux_width() <= usize::MAX,
        config.window_holds(memory, start + processed),
    ensures
        config.window_holds(
            config.after_context(
                memory,
                config.context_ops(start, captured_row, active_rows, processed),
                start,
                captured_row,
            ),
            start + active_rows,
        ),
    decreases active_rows - processed,
{
    if processed < active_rows {
        let chunk = crate::qwen36::dflash2::sequence::chunk_of(active_rows - processed);
        let aux = config.aux_width();
        assert((captured_row + processed) * aux <= (captured_row + active_rows) * aux)
            by (nonlinear_arith)
            requires
                processed <= active_rows,
                aux > 0,
        ;
        lemma_after_chunk(config, memory, start, captured_row, processed, chunk);
        let head = config.context_chunk(start + processed, captured_row + processed, chunk);
        let tail = config.context_ops(start, captured_row, active_rows, processed + chunk);
        lemma_after_concat(config, memory, head, tail, start, captured_row);
        lemma_after_rows(
            config,
            config.after_context(memory, head, start, captured_row),
            start,
            captured_row,
            active_rows,
            processed + chunk,
        );
    }
}

/// A window always holds the latest rows: where the rings of every layer held the key and value
/// rows of the latest positions before `position`, each in the slot of its remainder, they hold
/// those of the latest positions before `position + active_rows` after an append. The rows that
/// leave are the oldest, and the keys are rotated to their positions.
pub proof fn law_window_holds_latest_rows(
    config: DFlash2Config,
    memory: WindowMemory,
    position: usize,
    captured_row: usize,
    active_rows: usize,
)
    requires
        config.context_fits(),
        config.aux_width() > 0,
        DFLASH2_CONTEXT_ROWS <= config.sliding_window,
        position + active_rows <= usize::MAX,
        (captured_row + active_rows) * config.aux_width() <= usize::MAX,
        config.window_holds(memory, position as int),
    ensures
        config.window_holds(
            config.after_context(
                memory,
                config.context_ops(
                    position as int,
                    captured_row as int,
                    active_rows as int,
                    0,
                ),
                position as int,
                captured_row as int,
            ),
            position + active_rows,
        ),
{
    lemma_after_rows(
        config,
        memory,
        position as int,
        captured_row as int,
        active_rows as int,
        0,
    );
}

/// The empty window holds the latest rows, for there are none.
pub proof fn law_empty_window_holds_latest_rows(config: DFlash2Config, memory: WindowMemory)
    requires
        memory.keys.len() == config.layers,
        memory.values.len() == config.layers,
        forall|layer: int|
            0 <= layer < config.layers ==> (#[trigger] memory.keys[layer]).len()
                == config.sliding_window * config.kv_width(),
        forall|layer: int|
            0 <= layer < config.layers ==> (#[trigger] memory.values[layer]).len()
                == config.sliding_window * config.kv_width(),
    ensures
        config.window_holds(memory, 0),
{
    assert forall|layer: int| 0 <= layer < config.layers implies #[trigger] config.layer_holds(
        memory,
        layer,
        0,
    ) by {
        assert(memory.keys[layer].len() == config.sliding_window * config.kv_width());
        assert(memory.values[layer].len() == config.sliding_window * config.kv_width());
    }
}

/// A ring whose first `elements` cells were copied from another.
pub open spec fn ring_restored(
    ring: Seq<WindowCell>,
    source: Seq<WindowCell>,
    elements: int,
) -> Seq<WindowCell> {
    Seq::new(
        ring.len(),
        |index: int|
            if index < elements {
                source[index]
            } else {
                ring[index]
            },
    )
}

/// Memory whose rings each had their first `elements` cells copied from the rings of another.
pub open spec fn window_restored(
    memory: WindowMemory,
    source: WindowMemory,
    elements: int,
) -> WindowMemory {
    WindowMemory {
        keys: Seq::new(
            memory.keys.len(),
            |layer: int| ring_restored(memory.keys[layer], source.keys[layer], elements),
        ),
        values: Seq::new(
            memory.values.len(),
            |layer: int| ring_restored(memory.values[layer], source.values[layer], elements),
        ),
        ..memory
    }
}

proof fn lemma_ring_restored(
    ring: Seq<WindowCell>,
    source: Seq<WindowCell>,
    layer: int,
    keys: bool,
    position: usize,
    window: usize,
    width: int,
)
    requires
        window > 0,
        width >= 0,
        ring.len() == window * width,
        ring_holds(source, layer, keys, position as int, window as int, width),
    ensures
        ring_holds(
            ring_restored(
                ring,
                source,
                crate::qwen36::dflash2::sequence::retained(position, window) * width,
            ),
            layer,
            keys,
            position as int,
            window as int,
            width,
        ),
{
    let rows = crate::qwen36::dflash2::sequence::retained(position, window) as int;
    let after = ring_restored(ring, source, rows * width);
    assert forall|own: int, column: int|
        0 <= own < position && position - window <= own && 0 <= column < width implies after[
    #[trigger] ring_index(own, column, window as int, width)] == window_cell(
        layer,
        keys,
        own,
        column,
    ) by {
        let slot = own % (window as int);
        vstd::arithmetic::div_mod::lemma_mod_bound(own, window as int);
        if position < window {
            vstd::arithmetic::div_mod::lemma_small_mod(own as nat, window as nat);
        }
        assert(slot < rows);
        lemma_slot_order(slot, column, rows, width);
        lemma_slot_order(slot, column, 0, width);
        lemma_slot_order(slot, column, window as int, width);
        assert(source[ring_index(own, column, window as int, width)] == window_cell(
            layer,
            keys,
            own,
            column,
        ));
    }
}

/// A snapshot keeps all that a window holds: the values that it copies of each ring give the
/// latest rows back to another window.
pub proof fn law_window_snapshot_keeps_latest_rows(
    config: DFlash2Config,
    source: WindowMemory,
    position: usize,
    empty: WindowMemory,
)
    requires
        config.sliding_window > 0,
        config.window_holds(source, position as int),
        config.window_holds(empty, 0),
    ensures
        config.window_holds(
            window_restored(
                empty,
                source,
                crate::qwen36::dflash2::sequence::retained(position, config.sliding_window)
                    * config.kv_width(),
            ),
            position as int,
        ),
{
    let rows = crate::qwen36::dflash2::sequence::retained(position, config.sliding_window);
    let width = config.kv_width();
    let after = window_restored(empty, source, rows * width);
    assert(width >= 0) by (nonlinear_arith)
        requires
            width == config.kv_heads * config.head_dim,
    ;
    assert forall|layer: int| 0 <= layer < config.layers implies #[trigger] config.layer_holds(
        after,
        layer,
        position as int,
    ) by {
        assert(config.layer_holds(source, layer, position as int));
        assert(config.layer_holds(empty, layer, 0));
        lemma_ring_restored(
            empty.keys[layer],
            source.keys[layer],
            layer,
            true,
            position,
            config.sliding_window,
            width,
        );
        lemma_ring_restored(
            empty.values[layer],
            source.values[layer],
            layer,
            false,
            position,
            config.sliding_window,
            width,
        );
    }
}

} // verus!
