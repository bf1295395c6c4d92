//! What the operations of a context append leave in the windows of the companion.

use crate::qwen36::dflash2::config::DFlash2Config;
use crate::qwen36::dflash2::sequence::{ContextOp, RingCopy, DFLASH2_CONTEXT_ROWS};
use vstd::prelude::*;

verus! {

/// One kept value of a window.
pub struct Kept {
    /// Captured row that the chunk of the value starts with.
    pub row: int,
    /// Position that the keys of the chunk were rotated from.
    pub position: int,
    /// Value within the chunk.
    pub value: int,
}

/// Buffers of a context append.
pub struct ContextDevice {
    /// Every operation so far found its inputs ready, and took whole rows.
    pub sound: bool,
    /// Values that were cleared.
    pub cleared: int,
    /// First captured value of the chunk.
    pub source: int,
    /// Captured values of the chunk.
    pub loaded: int,
    /// Rows that were joined.
    pub joined: int,
    /// Rows that were normalised.
    pub normed: int,
    /// Layer and rows of the projected keys.
    pub key: Option<(int, int)>,
    /// Layer and rows of the projected values.
    pub value: Option<(int, int)>,
    /// Whether those keys were normalised.
    pub key_normed: bool,
    /// Position that those keys were rotated from.
    pub rotated: Option<int>,
    /// Kept keys of each layer, value by value.
    pub keys: spec_fn(int, int) -> Option<Kept>,
    /// Kept values of each layer, value by value.
    pub values: spec_fn(int, int) -> Option<Kept>,
}

/// Values of a window after one copy into it.
pub open spec fn copied(
    ring: spec_fn(int, int) -> Option<Kept>,
    layer: int,
    copy: RingCopy,
    row: int,
    position: int,
) -> spec_fn(int, int) -> Option<Kept> {
    |at: int, value: int|
        if at == layer && copy.destination <= value < copy.destination + copy.values {
            Some(Kept { row, position, value: copy.source + value - copy.destination })
        } else {
            ring(at, value)
        }
}

impl ContextDevice {
    /// Captured row that the chunk starts with.
    pub open spec fn first_row(self, config: DFlash2Config) -> int {
        self.source / (config.target_layers@.len() * config.hidden)
    }

    /// Whether a copy takes loaded rows and stays within a window.
    pub open spec fn copies(self, config: DFlash2Config, copy: RingCopy) -> bool {
        let aux = config.target_layers@.len() * config.hidden;
        &&& (copy.source + copy.values) * aux <= self.loaded * config.kv_width()
        &&& copy.destination + copy.values <= config.sliding_window * config.kv_width()
    }

    /// What one operation leaves.
    pub open spec fn performed(self, config: DFlash2Config, op: ContextOp) -> ContextDevice {
        let aux = config.target_layers@.len() * config.hidden;
        match op {
            ContextOp::Clear { values } => ContextDevice {
                cleared: values as int,
                loaded: 0,
                ..self
            },
            ContextOp::Load { source, values } => ContextDevice {
                sound: self.sound && values <= self.cleared,
                source: source as int,
                loaded: values as int,
                ..self
            },
            ContextOp::Join { rows } => ContextDevice {
                sound: self.sound && rows * aux == self.cleared && self.loaded > 0,
                joined: rows as int,
                ..self
            },
            ContextOp::Norm { rows } => ContextDevice {
                sound: self.sound && rows == self.joined,
                normed: rows as int,
                ..self
            },
            ContextOp::Key { layer, rows } => ContextDevice {
                sound: self.sound && rows == self.normed,
                key: Some((layer as int, rows as int)),
                key_normed: false,
                rotated: None,
                ..self
            },
            ContextOp::Value { layer, rows } => ContextDevice {
                sound: self.sound && rows == self.normed,
                value: Some((layer as int, rows as int)),
                ..self
            },
            ContextOp::KeyNorm { layer, rows } => ContextDevice {
                sound: self.sound && !self.key_normed && rows == self.normed * config.kv_heads
                    && self.key == Some((layer as int, self.normed)),
                key_normed: true,
                ..self
            },
            ContextOp::KeyRope { layer, rows, position } => ContextDevice {
                sound: self.sound && self.key_normed && self.rotated is None && self.key == Some(
                    (layer as int, rows as int),
                ),
                rotated: Some(position as int),
                ..self
            },
            ContextOp::KeepKey { layer, copy } => ContextDevice {
                sound: self.sound && self.rotated is Some && self.key == Some(
                    (layer as int, self.normed),
                ) && self.copies(config, copy),
                keys: copied(
                    self.keys,
                    layer as int,
                    copy,
                    self.first_row(config),
                    self.rotated->0,
                ),
                ..self
            },
            ContextOp::KeepValue { layer, copy } => ContextDevice {
                sound: self.sound && self.rotated is Some && self.value == Some(
                    (layer as int, self.normed),
                ) && self.copies(config, copy),
                values: copied(
                    self.values,
                    layer as int,
                    copy,
                    self.first_row(config),
                    self.rotated->0,
                ),
                ..self
            },
        }
    }
}

/// What the operations of a context append do.
pub open spec fn append_step(config: DFlash2Config) -> spec_fn(
    ContextDevice,
    ContextOp,
) -> ContextDevice {
    |device: ContextDevice, op: ContextOp| device.performed(config, op)
}

/// Whether a window holds, for the token at `position`, what was projected from its own captured
/// row and rotated at its own position. `base` is the captured row of position zero.
pub open spec fn holds(
    config: DFlash2Config,
    ring: spec_fn(int, int) -> Option<Kept>,
    layer: int,
    position: int,
    base: int,
    column: int,
) -> bool {
    let width = config.kv_width();
    match ring(layer, (position % (config.sliding_window as int)) * width + column) {
        Some(kept) => {
            &&& kept.row - kept.position == base
            &&& kept.value == (position - kept.position) * width + column
        },
        None => false,
    }
}

/// Whether a window holds the last tokens from `start` up to `end`, as many as it has room for.
pub open spec fn holds_tokens(
    config: DFlash2Config,
    ring: spec_fn(int, int) -> Option<Kept>,
    layer: int,
    start: int,
    end: int,
    base: int,
) -> bool {
    forall|position: int, column: int|
        #![trigger holds(config, ring, layer, position, base, column)]
        start <= position < end && end - config.sliding_window <= position && 0 <= column
            < config.kv_width() ==> holds(config, ring, layer, position, base, column)
}

/// Slot of a token that is not among the `rows` tokens from `start` on, though both are in one
/// window.
proof fn lemma_slot(window: int, start: int, rows: int, position: int)
    requires
        0 <= start,
        0 < rows <= window,
        start + rows - window <= position < start + rows,
        0 <= position,
    ensures
        ({
            let first = crate::qwen36::dflash2::sequence::rows_before_end(start, rows, window);
            let slot = position % window;
            &&& 0 <= start % window < window
            &&& 0 <= slot < window
            &&& start <= position < start + first ==> slot == start % window + position - start
            &&& start + first <= position ==> slot == position - start - first
            &&& position < start ==> !(start % window <= slot < start % window + first)
            &&& position < start && first < rows ==> !(0 <= slot < rows - first)
        }),
{
    let place = start % window;
    let turns = start / window;
    assert(start == window * turns + place && 0 <= place < window) by {
        vstd::arithmetic::div_mod::lemma_fundamental_div_mod(start, window);
        vstd::arithmetic::div_mod::lemma_mod_bound(start, window);
    }
    let at = place + position - start;
    vstd::arithmetic::div_mod::lemma_mod_bound(position, window);
    if at < 0 {
        assert(position == (turns - 1) * window + (at + window)) by (nonlinear_arith)
            requires
                start == window * turns + place,
                at == place + position - start,
        ;
        vstd::arithmetic::div_mod::lemma_fundamental_div_mod_converse(
            position,
            window,
            turns - 1,
            at + window,
        );
    } else if at < window {
        assert(position == turns * window + at) by (nonlinear_arith)
            requires
                start == window * turns + place,
                at == place + position - start,
        ;
        vstd::arithmetic::div_mod::lemma_fundamental_div_mod_converse(position, window, turns, at);
    } else {
        assert(position == (turns + 1) * window + (at - window)) by (nonlinear_arith)
            requires
                start == window * turns + place,
                at == place + position - start,
        ;
        vstd::arithmetic::div_mod::lemma_fundamental_div_mod_converse(
            position,
            window,
            turns + 1,
            at - window,
        );
    }
}

/// Value of a slot, within or outside of some slots.
proof fn lemma_value(width: int, slot: int, column: int, first: int, rows: int)
    requires
        0 <= column < width,
        0 <= rows,
    ensures
        first <= slot < first + rows <==> first * width <= slot * width + column < first * width
            + rows * width,
        slot * width + column - first * width == (slot - first) * width + column,
{
    assert(slot * width - first * width == (slot - first) * width) by (nonlinear_arith);
    let apart = slot - first;
    assert(0 <= apart < rows <==> 0 <= apart * width + column < rows * width) by (nonlinear_arith)
        requires
            0 <= column < width,
            0 <= rows,
    ;
}

/// Window after all copies of an append.
spec fn filled(
    ring: spec_fn(int, int) -> Option<Kept>,
    layer: int,
    copies: Seq<RingCopy>,
    row: int,
    position: int,
) -> spec_fn(int, int) -> Option<Kept> {
    if copies.len() == 1 {
        copied(ring, layer, copies[0], row, position)
    } else {
        copied(copied(ring, layer, copies[0], row, position), layer, copies[1], row, position)
    }
}

/// Whether the rows of a chunk can be appended to a window in one go.
spec fn appends(config: DFlash2Config, position: int, chunk: int) -> bool {
    &&& config.context_fits()
    &&& DFLASH2_CONTEXT_ROWS <= config.sliding_window
    &&& 0 < chunk <= DFLASH2_CONTEXT_ROWS
    &&& 0 <= position
    &&& position + chunk <= usize::MAX
}

proof fn lemma_copy_values(config: DFlash2Config, position: int, chunk: int)
    requires
        appends(config, position, chunk),
    ensures
        ({
            let width = config.kv_width();
            let window = config.sliding_window as int;
            let first = crate::qwen36::dflash2::sequence::rows_before_end(position, chunk, window);
            let copies = crate::qwen36::dflash2::sequence::ring_copies(
                position,
                chunk,
                width,
                window,
            );
            &&& 0 < first <= chunk
            &&& copies[0].destination == (position % window) * width
            &&& copies[0].source == 0
            &&& copies[0].values == first * width
            &&& (position % window + first) * width <= window * width
            &&& first < chunk ==> {
                &&& copies.len() == 2
                &&& copies[1].destination == 0
                &&& copies[1].source == first * width
                &&& copies[1].values == (chunk - first) * width
                &&& copies[1].values <= window * width
            }
            &&& first == chunk ==> copies.len() == 1
        }),
{
    let width = config.kv_width();
    let window = config.sliding_window as int;
    let first = crate::qwen36::dflash2::sequence::rows_before_end(position, chunk, window);
    let place = position % window;
    vstd::arithmetic::div_mod::lemma_mod_bound(position, window);
    assert(0 <= width) by {
        assert(0 <= config.kv_heads * config.head_dim) by (nonlinear_arith);
    }
    assert(0 <= place * width <= window * width) by (nonlinear_arith)
        requires
            0 <= place < window,
            0 <= width,
    ;
    assert(0 <= first * width <= DFLASH2_CONTEXT_ROWS * width && 0 <= (chunk - first) * width
        <= DFLASH2_CONTEXT_ROWS * width && (chunk - first) * width <= window * width)
        by (nonlinear_arith)
        requires
            0 < first <= chunk <= DFLASH2_CONTEXT_ROWS <= window,
            0 <= width,
    ;
    assert((place + first) * width <= window * width) by (nonlinear_arith)
        requires
            place + first <= window,
            0 <= width,
    ;
}

/// The copies of an append leave every token of it in its own slot, and the tokens before it as
/// far as they fit beside it.
#[verifier::rlimit(40)]
proof fn lemma_filled(
    config: DFlash2Config,
    ring: spec_fn(int, int) -> Option<Kept>,
    layer: int,
    start: int,
    position: int,
    chunk: int,
    row: int,
)
    requires
        appends(config, position, chunk),
        0 <= start <= position,
        holds_tokens(config, ring, layer, start, position, row - position),
    ensures
        ({
            let copies = crate::qwen36::dflash2::sequence::ring_copies(
                position,
                chunk,
                config.kv_width(),
                config.sliding_window as int,
            );
            let after = filled(ring, layer, copies, row, position);
            &&& holds_tokens(config, after, layer, start, position + chunk, row - position)
            &&& forall|at: int, value: int|
                at != layer ==> #[trigger] after(at, value) == ring(at, value)
        }),
{
    let width = config.kv_width();
    let window = config.sliding_window as int;
    let first = crate::qwen36::dflash2::sequence::rows_before_end(position, chunk, window);
    let copies = crate::qwen36::dflash2::sequence::ring_copies(position, chunk, width, window);
    let after = filled(ring, layer, copies, row, position);
    let base = row - position;
    lemma_copy_values(config, position, chunk);
    assert forall|token: int, column: int|
        #![trigger holds(config, after, layer, token, base, column)]
        start <= token < position + chunk && position + chunk - window <= token && 0 <= column
            < width implies holds(config, after, layer, token, base, column) by {
        lemma_slot(window, position, chunk, token);
        let slot = token % window;
        let place = position % window;
        lemma_value(width, slot, column, place, first);
        lemma_value(width, slot, column, 0, chunk - first);
        assert(0 * width == 0);
        if token < position {
            assert(holds(config, ring, layer, token, base, column));
            assert(after(layer, slot * width + column) == ring(layer, slot * width + column));
        } else if token < position + first {
            assert(!(first < chunk && 0 <= slot < chunk - first)) by {
                if first < chunk {
                    assert(place + first == window);
                    assert(chunk - first <= place) by {
                        assert(chunk <= window);
                    }
                }
            }
            assert(after(layer, slot * width + column) == Some(
                Kept { row, position, value: (token - position) * width + column },
            ));
        } else {
            assert(first * width + slot * width == (token - position) * width)
                by (nonlinear_arith)
                requires
                    slot == token - position - first,
            ;
            assert(after(layer, slot * width + column) == Some(
                Kept { row, position, value: (token - position) * width + column },
            ));
        }
    }
}

/// Whether a chunk that starts with the captured row `row` lies ready for the layers.
spec fn joined(config: DFlash2Config, device: ContextDevice, row: int, chunk: int) -> bool {
    &&& device.sound
    &&& config.aux_width() > 0
    &&& 0 <= row
    &&& device.source == row * config.aux_width()
    &&& device.loaded == chunk * config.aux_width()
    &&& device.normed == crate::qwen36::dflash2::sequence::execution_rows(chunk)
}

#[verifier::rlimit(40)]
proof fn lemma_keeps(
    config: DFlash2Config,
    before: ContextDevice,
    layer: usize,
    position: int,
    row: int,
    chunk: int,
    keys: bool,
)
    requires
        appends(config, position, chunk),
        joined(config, before, row, chunk),
        before.rotated == Some(position),
        keys ==> before.key == Some((layer as int, before.normed)),
        !keys ==> before.value == Some((layer as int, before.normed)),
    ensures
        ({
            let copies = crate::qwen36::dflash2::sequence::ring_copies(
                position,
                chunk,
                config.kv_width(),
                config.sliding_window as int,
            );
            crate::device::after(
                append_step(config),
                before,
                crate::qwen36::dflash2::sequence::keep_ops(layer, copies, keys),
            ) == if keys {
                ContextDevice {
                    keys: filled(before.keys, layer as int, copies, row, position),
                    ..before
                }
            } else {
                ContextDevice {
                    values: filled(before.values, layer as int, copies, row, position),
                    ..before
                }
            }
        }),
{
    let step = append_step(config);
    let width = config.kv_width();
    let window = config.sliding_window as int;
    let aux = config.aux_width();
    let first = crate::qwen36::dflash2::sequence::rows_before_end(position, chunk, window);
    let copies = crate::qwen36::dflash2::sequence::ring_copies(position, chunk, width, window);
    let ops = crate::qwen36::dflash2::sequence::keep_ops(layer, copies, keys);
    lemma_copy_values(config, position, chunk);
    assert(0 <= width) by {
        assert(0 <= config.kv_heads * config.head_dim) by (nonlinear_arith);
    }
    assert((first * width) * aux <= (chunk * aux) * width && (first * width + (chunk - first)
        * width) * aux == (chunk * aux) * width) by (nonlinear_arith)
        requires
            0 < first <= chunk,
            0 <= width,
            0 < aux,
    ;
    assert((position % window) * width + first * width == (position % window + first) * width)
        by (nonlinear_arith);
    assert(before.first_row(config) == row) by {
        vstd::arithmetic::div_mod::lemma_div_multiples_vanish(row, aux);
        assert(row * aux == aux * row) by (nonlinear_arith);
    }
    assert(before.copies(config, copies[0]));
    let d1 = before.performed(config, ops[0]);
    if first < chunk {
        crate::device::lemma_after_two(step, before, ops);
        assert(d1.copies(config, copies[1]));
        assert(d1.first_row(config) == row);
    } else {
        crate::device::lemma_after_one(step, before, ops);
    }
}

#[verifier::rlimit(40)]
proof fn lemma_layer(
    config: DFlash2Config,
    before: ContextDevice,
    layer: usize,
    position: int,
    row: int,
    chunk: int,
)
    requires
        appends(config, position, chunk),
        joined(config, before, row, chunk),
    ensures
        ({
            let rows = crate::qwen36::dflash2::sequence::execution_rows(chunk);
            let copies = crate::qwen36::dflash2::sequence::ring_copies(
                position,
                chunk,
                config.kv_width(),
                config.sliding_window as int,
            );
            let after = crate::device::after(
                append_step(config),
                before,
                config.context_layer(layer, position, chunk, rows),
            );
            &&& joined(config, after, row, chunk)
            &&& after.keys == filled(before.keys, layer as int, copies, row, position)
            &&& after.values == filled(before.values, layer as int, copies, row, position)
        }),
{
    let step = append_step(config);
    let rows = crate::qwen36::dflash2::sequence::execution_rows(chunk);
    let copies = crate::qwen36::dflash2::sequence::ring_copies(
        position,
        chunk,
        config.kv_width(),
        config.sliding_window as int,
    );
    let all = config.context_layer(layer, position, chunk, rows);
    let ops = all.subrange(0, 4);
    let keys = crate::qwen36::dflash2::sequence::keep_ops(layer, copies, true);
    let values = crate::qwen36::dflash2::sequence::keep_ops(layer, copies, false);
    assert(all =~= ops + keys + values);
    crate::device::lemma_after_both(step, before, ops + keys, values);
    crate::device::lemma_after_both(step, before, ops, keys);
    crate::device::lemma_after_four(step, before, ops);
    assert(0 <= rows * config.kv_heads <= DFLASH2_CONTEXT_ROWS * config.kv_heads)
        by (nonlinear_arith)
        requires
            0 <= rows <= DFLASH2_CONTEXT_ROWS,
    ;
    let d1 = before.performed(config, ops[0]);
    let d2 = d1.performed(config, ops[1]);
    let d3 = d2.performed(config, ops[2]);
    let d4 = d3.performed(config, ops[3]);
    assert(d4.sound && d4.rotated == Some(position));
    lemma_keeps(config, d4, layer, position, row, chunk, true);
    let d5 = crate::device::after(step, d4, keys);
    lemma_keeps(config, d5, layer, position, row, chunk, false);
}

/// Whether the windows of the layers from `first` up to `last` hold the tokens up to `end`.
pub open spec fn all_hold(
    config: DFlash2Config,
    device: ContextDevice,
    first: int,
    last: int,
    start: int,
    end: int,
    base: int,
) -> bool {
    forall|layer: int|
        first <= layer < last ==> {
            &&& #[trigger] holds_tokens(config, device.keys, layer, start, end, base)
            &&& holds_tokens(config, device.values, layer, start, end, base)
        }
}

proof fn lemma_untouched(
    config: DFlash2Config,
    before: spec_fn(int, int) -> Option<Kept>,
    after: spec_fn(int, int) -> Option<Kept>,
    touched: int,
    layer: int,
    start: int,
    end: int,
    base: int,
)
    requires
        layer != touched,
        forall|at: int, value: int|
            at != touched ==> #[trigger] after(at, value) == before(at, value),
        holds_tokens(config, before, layer, start, end, base),
    ensures
        holds_tokens(config, after, layer, start, end, base),
{
    assert forall|position: int, column: int|
        #![trigger holds(config, after, layer, position, base, column)]
        start <= position < end && end - config.sliding_window <= position && 0 <= column
            < config.kv_width() implies holds(config, after, layer, position, base, column) by {
        assert(holds(config, before, layer, position, base, column));
    }
}

#[verifier::rlimit(40)]
proof fn lemma_layers(
    config: DFlash2Config,
    before: ContextDevice,
    count: nat,
    start: int,
    position: int,
    row: int,
    chunk: int,
)
    requires
        appends(config, position, chunk),
        joined(config, before, row, chunk),
        count <= config.layers,
        0 <= start <= position,
        all_hold(config, before, 0, config.layers as int, start, position, row - position),
    ensures
        ({
            let rows = crate::qwen36::dflash2::sequence::execution_rows(chunk);
            let after = crate::device::after(
                append_step(config),
                before,
                config.context_layers(count, position, chunk, rows),
            );
            let base = row - position;
            &&& joined(config, after, row, chunk)
            &&& all_hold(config, after, 0, count as int, start, position + chunk, base)
            &&& all_hold(config, after, count as int, config.layers as int, start, position, base)
        }),
    decreases count,
{
    if count > 0 {
        let step = append_step(config);
        let rows = crate::qwen36::dflash2::sequence::execution_rows(chunk);
        let base = row - position;
        let layer = count - 1;
        lemma_layers(config, before, layer as nat, start, position, row, chunk);
        let ops = config.context_layers(layer as nat, position, chunk, rows);
        let more = config.context_layer(layer as usize, position, chunk, rows);
        crate::device::lemma_after_both(step, before, ops, more);
        let middle = crate::device::after(step, before, ops);
        let after = crate::device::after(step, middle, more);
        lemma_layer(config, middle, layer as usize, position, row, chunk);
        assert(holds_tokens(config, middle.keys, layer, start, position, base));
        lemma_filled(config, middle.keys, layer, start, position, chunk, row);
        lemma_filled(config, middle.values, layer, start, position, chunk, row);
        assert forall|at: int| 0 <= at < count implies {
            &&& #[trigger] holds_tokens(config, after.keys, at, start, position + chunk, base)
            &&& holds_tokens(config, after.values, at, start, position + chunk, base)
        } by {
            if at < layer {
                assert(holds_tokens(config, middle.keys, at, start, position + chunk, base));
                lemma_untouched(
                    config,
                    middle.keys,
                    after.keys,
                    layer,
                    at,
                    start,
                    position + chunk,
                    base,
                );
                lemma_untouched(
                    config,
                    middle.values,
                    after.values,
                    layer,
                    at,
                    start,
                    position + chunk,
                    base,
                );
            }
        }
        assert forall|at: int| count <= at < config.layers implies {
            &&& #[trigger] holds_tokens(config, after.keys, at, start, position, base)
            &&& holds_tokens(config, after.values, at, start, position, base)
        } by {
            assert(holds_tokens(config, middle.keys, at, start, position, base));
            lemma_untouched(
                config,
                middle.keys,
                after.keys,
                layer,
                at,
                start,
                position,
                base,
            );
            lemma_untouched(
                config,
                middle.values,
                after.values,
                layer,
                at,
                start,
                position,
                base,
            );
        }
    }
}

#[verifier::rlimit(40)]
proof fn lemma_chunk(
    config: DFlash2Config,
    before: ContextDevice,
    start: int,
    position: int,
    row: int,
    chunk: int,
)
    requires
        appends(config, position, chunk),
        before.sound,
        config.aux_width() > 0,
        0 <= row,
        (row + chunk) * config.aux_width() <= usize::MAX,
        0 <= start <= position,
        all_hold(config, before, 0, config.layers as int, start, position, row - position),
    ensures
        ({
            let after = crate::device::after(
                append_step(config),
                before,
                config.context_chunk(position, row, chunk),
            );
            &&& after.sound
            &&& all_hold(
                config,
                after,
                0,
                config.layers as int,
                start,
                position + chunk,
                row - position,
            )
        }),
{
    let step = append_step(config);
    let rows = crate::qwen36::dflash2::sequence::execution_rows(chunk);
    let aux = config.aux_width();
    let all = config.context_chunk(position, row, chunk);
    let ops = all.subrange(0, 4);
    let layers = config.context_layers(config.layers as nat, position, chunk, rows);
    assert(all =~= ops + layers);
    crate::device::lemma_after_both(step, before, ops, layers);
    crate::device::lemma_after_four(step, before, ops);
    assert(0 <= row * aux <= (row + chunk) * aux && 0 < chunk * aux <= rows * aux
        && rows * aux <= DFLASH2_CONTEXT_ROWS * aux) by (nonlinear_arith)
        requires
            0 <= row,
            0 < chunk <= rows <= DFLASH2_CONTEXT_ROWS,
            0 < aux,
    ;
    let d1 = before.performed(config, ops[0]);
    let d2 = d1.performed(config, ops[1]);
    let d3 = d2.performed(config, ops[2]);
    let d4 = d3.performed(config, ops[3]);
    assert(joined(config, d4, row, chunk));
    assert forall|layer: int| 0 <= layer < config.layers implies {
        &&& #[trigger] holds_tokens(config, d4.keys, layer, start, position, row - position)
        &&& holds_tokens(config, d4.values, layer, start, position, row - position)
    } by {
        assert(holds_tokens(config, before.keys, layer, start, position, row - position));
    }
    lemma_layers(config, d4, config.layers as nat, start, position, row, chunk);
}

/// A context append leaves, in the window of every layer, the keys and values of the appended
/// tokens as far as there is room: each was projected from the captured row of its own token,
/// rotated at its own position, and lies in its own slot.
#[verifier::rlimit(40)]
pub proof fn law_context_reaches_every_window(
    config: DFlash2Config,
    before: ContextDevice,
    position: int,
    captured_row: int,
    active_rows: int,
    processed: int,
)
    requires
        config.context_fits(),
        config.aux_width() > 0,
        DFLASH2_CONTEXT_ROWS <= config.sliding_window,
        0 <= position,
        position + active_rows <= usize::MAX,
        0 <= captured_row,
        0 <= processed <= active_rows,
        (captured_row + active_rows) * config.aux_width() <= usize::MAX,
        before.sound,
        all_hold(
            config,
            before,
            0,
            config.layers as int,
            position,
            position + processed,
            captured_row - position,
        ),
    ensures
        ({
            let after = crate::device::after(
                append_step(config),
                before,
                config.context_ops(position, captured_row, active_rows, processed),
            );
            &&& after.sound
            &&& all_hold(
                config,
                after,
                0,
                config.layers as int,
                position,
                position + active_rows,
                captured_row - position,
            )
        }),
    decreases active_rows - processed,
{
    if processed < active_rows {
        let step = append_step(config);
        let chunk = crate::qwen36::dflash2::sequence::chunk_of(active_rows - processed);
        let ops = config.context_chunk(position + processed, captured_row + processed, chunk);
        let more = config.context_ops(position, captured_row, active_rows, processed + chunk);
        crate::device::lemma_after_both(step, before, ops, more);
        let aux = config.aux_width();
        assert((captured_row + processed + chunk) * aux <= (captured_row + active_rows) * aux)
            by (nonlinear_arith)
            requires
                processed + chunk <= active_rows,
                0 < aux,
        ;
        lemma_chunk(
            config,
            before,
            position,
            position + processed,
            captured_row + processed,
            chunk,
        );
        law_context_reaches_every_window(
            config,
            crate::device::after(step, before, ops),
            position,
            captured_row,
            active_rows,
            processed + chunk,
        );
    }
}

/// Whether operations append the tokens from `position` on to every window, whatever the windows
/// held before.
pub open spec fn appended(
    config: DFlash2Config,
    position: int,
    captured_row: int,
    active_rows: int,
    ops: Seq<ContextOp>,
) -> bool {
    forall|before: ContextDevice|
        before.sound ==> {
            let after = #[trigger] crate::device::after(append_step(config), before, ops);
            &&& after.sound
            &&& all_hold(
                config,
                after,
                0,
                config.layers as int,
                position,
                position + active_rows,
                captured_row - position,
            )
        }
}

/// The operations of a context append do append its tokens.
pub proof fn lemma_appended(
    config: DFlash2Config,
    position: int,
    captured_row: int,
    active_rows: int,
)
    requires
        config.context_fits(),
        config.aux_width() > 0,
        DFLASH2_CONTEXT_ROWS <= config.sliding_window,
        0 <= position,
        position + active_rows <= usize::MAX,
        0 <= captured_row,
        0 <= active_rows,
        (captured_row + active_rows) * config.aux_width() <= usize::MAX,
    ensures
        appended(
            config,
            position,
            captured_row,
            active_rows,
            config.context_ops(position, captured_row, active_rows, 0),
        ),
{
    let ops = config.context_ops(position, captured_row, active_rows, 0);
    assert forall|before: ContextDevice| before.sound implies ({
        let after = #[trigger] crate::device::after(append_step(config), before, ops);
        &&& after.sound
        &&& all_hold(
            config,
            after,
            0,
            config.layers as int,
            position,
            position + active_rows,
            captured_row - position,
        )
    }) by {
        law_context_reaches_every_window(
            config,
            before,
            position,
            captured_row,
            active_rows,
            0,
        );
    }
}

} // verus!
