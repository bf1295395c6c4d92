//! What the operations of a recurrent layer leave in its buffers and states.

use crate::qwen36::gdn::{
    BatchLinearAttentionStateSnapshots, GdnDecode, GdnInput, GdnLayer, GdnOp, GdnPrefill,
    GdnProjection, StateCopy, StateRef,
};
use crate::qwen36::linear::{BatchFp8InputQuantization, Storage};
use vstd::prelude::*;

verus! {

/// What a pass of a recurrent layer is about.
pub struct GdnFrame {
    /// Dimensions and weights.
    pub layer: GdnLayer,
    /// Index of the layer.
    pub index: int,
    /// State-table entries of one layer.
    pub stride: int,
    /// Rows of the projections.
    pub all: int,
    /// Tokens of each sequence.
    pub lengths: Seq<u32>,
    /// Whether the projections of the residual stream run one row at a time.
    pub serial: bool,
    /// Whether the output gate is a plain sigmoid.
    pub sigmoid: bool,
    /// Where states are kept.
    pub snapshots: Option<BatchLinearAttentionStateSnapshots>,
}

/// Form of the normalised output.
pub enum NormForm {
    /// In full precision.
    Full,
    /// In eight bits, or not quantised at all.
    Quantised(BatchFp8InputQuantization),
    /// In four bits.
    FourBits,
}

/// Buffers and states of a recurrent layer.
pub struct GdnDevice {
    /// Every operation so far found its inputs ready, took the rows and widths of the layer,
    /// and wrote what was not written before.
    pub sound: bool,
    /// How the residual stream was quantised.
    pub hidden: BatchFp8InputQuantization,
    /// Projected queries, keys and values.
    pub qkv: bool,
    /// Projected output gates.
    pub z: bool,
    /// Projected decays and strengths.
    pub alpha_beta: bool,
    /// Row that was loaded for a single step.
    pub loaded: bool,
    /// Row that a single step has left to be stored.
    pub stepped: bool,
    /// Convolutions: the state that took a row, in order.
    pub convolved: Seq<(int, int)>,
    /// Whether the convolution wrote the chunked kernel's form.
    pub chunked: bool,
    /// Rows after which the convolution state was kept.
    pub kept_conv: Seq<int>,
    /// Gates, for the chunked kernel or not.
    pub gates: Option<bool>,
    /// Recurrent steps: the state that took a row, in order.
    pub recurred: Seq<(int, int)>,
    /// Rows after which the recurrent state was kept.
    pub kept_recurrent: Seq<int>,
    /// Normalised output.
    pub normed: Option<NormForm>,
    /// Output of the layer.
    pub output: bool,
}

/// Buffers before the first operation of a layer.
pub open spec fn idle() -> GdnDevice {
    GdnDevice {
        sound: true,
        hidden: BatchFp8InputQuantization::Unused,
        qkv: false,
        z: false,
        alpha_beta: false,
        loaded: false,
        stepped: false,
        convolved: Seq::empty(),
        chunked: false,
        kept_conv: Seq::empty(),
        gates: None,
        recurred: Seq::empty(),
        kept_recurrent: Seq::empty(),
        normed: None,
        output: false,
    }
}

/// The rows of ragged sequences in order, each with the state of its own sequence.
pub open spec fn own_states(first: int, lengths: Seq<u32>, count: nat) -> Seq<(int, int)>
    decreases count,
{
    if count == 0 {
        Seq::empty()
    } else {
        own_states(first, lengths, (count - 1) as nat) + sequence_states(
            first + count - 1,
            crate::qwen36::gdn::tokens_before(lengths, (count - 1) as nat) as int,
            lengths[count - 1] as nat,
        )
    }
}

/// The rows of one sequence in order, all with one state.
pub open spec fn sequence_states(state: int, start: int, rows: nat) -> Seq<(int, int)> {
    Seq::new(rows, |row: int| (state, start + row))
}

/// One row for each of some states.
pub open spec fn row_states(first: int, rows: int) -> Seq<(int, int)> {
    Seq::new(rows as nat, |row: int| (first + row, row))
}

impl GdnFrame {
    /// Rows of all sequences.
    pub open spec fn tokens(self) -> int {
        crate::qwen36::gdn::tokens_before(self.lengths, self.lengths.len()) as int
    }

    /// First state of the layer.
    pub open spec fn first(self) -> int {
        self.index * self.stride
    }

    /// Width of all value heads.
    pub open spec fn width(self) -> int {
        self.layer.value_heads * self.layer.value_head_dim
    }

    /// Whether a copy keeps a row of the layer: from the state that took the row last, into the
    /// place of that row among those of the layer.
    pub open spec fn keeps(self, copy: StateCopy, latest: (int, int), conv: bool) -> bool {
        match self.snapshots {
            None => false,
            Some(snapshots) => {
                let values = if conv {
                    snapshots.conv_values
                } else {
                    snapshots.recurrent_values
                };
                let below = crate::qwen36::gdn::linear_before(
                    snapshots.linear_layers@,
                    self.index as nat,
                );
                &&& copy.table == latest.0
                &&& copy.values == values
                &&& copy.offset == (below * snapshots.slots + latest.1) * values
                &&& 0 <= latest.1 < snapshots.slots
            },
        }
    }

    /// Rows whose states are kept: the first ones, as many as there is room for.
    pub open spec fn kept_rows(self, rows: int) -> Seq<int> {
        match self.snapshots {
            None => Seq::empty(),
            Some(snapshots) => {
                let kept = if !snapshots.linear_layers@[self.index] {
                    0
                } else if rows < snapshots.slots {
                    rows
                } else {
                    snapshots.slots as int
                };
                Seq::new(kept as nat, |row: int| row)
            },
        }
    }
}

impl GdnDevice {
    /// What the convolution of several rows leaves.
    pub open spec fn prepared(self, states: Seq<(int, int)>, chunked: bool, fits: bool) -> GdnDevice {
        GdnDevice {
            sound: self.sound && self.qkv && self.convolved.len() == 0 && self.gates is None
                && fits,
            convolved: states,
            chunked,
            ..self
        }
    }

    /// What the recurrence of several rows leaves.
    pub open spec fn advanced(
        self,
        frame: GdnFrame,
        states: Seq<(int, int)>,
        chunked: bool,
        fits: bool,
    ) -> GdnDevice {
        GdnDevice {
            sound: self.sound && self.convolved.len() == frame.tokens() && self.chunked == chunked
                && !self.stepped && self.gates == Some(chunked) && self.recurred.len() == 0
                && fits,
            recurred: states,
            ..self
        }
    }

    /// What a projection of all rows leaves.
    pub open spec fn projected(
        self,
        layer: GdnLayer,
        target: GdnProjection,
        mode: BatchFp8InputQuantization,
    ) -> GdnDevice {
        match target {
            GdnProjection::Qkv => GdnDevice {
                sound: self.sound && !self.qkv && mode == self.hidden
                    && crate::qwen36::attention_flow::takes(layer.qkv, mode),
                qkv: true,
                ..self
            },
            GdnProjection::Z => GdnDevice {
                sound: self.sound && !self.z && mode == self.hidden
                    && crate::qwen36::attention_flow::takes(layer.z, mode),
                z: true,
                ..self
            },
            GdnProjection::Out => GdnDevice {
                sound: self.sound && !self.output && self.normed == Some(
                    if mode is Unused {
                        NormForm::Full
                    } else {
                        NormForm::Quantised(mode)
                    },
                ) && crate::qwen36::attention_flow::takes(layer.out, mode),
                output: true,
                ..self
            },
        }
    }

    /// What an operation on a single row leaves.
    pub open spec fn stepped_row(self, frame: GdnFrame, op: GdnOp) -> GdnDevice {
        let next = self.convolved.len() as int;
        let later = self.recurred.len() as int;
        match op {
            GdnOp::LoadQkv { offset, width } => GdnDevice {
                sound: self.sound && self.qkv && !self.loaded && !self.stepped && width
                    == frame.layer.qkv.rows && offset == next * frame.layer.qkv.rows,
                loaded: true,
                ..self
            },
            GdnOp::PrepRow { table } => GdnDevice {
                sound: self.sound && self.loaded && self.gates is None,
                loaded: false,
                stepped: true,
                convolved: self.convolved.push((table as int, next)),
                ..self
            },
            GdnOp::KeepConv(copy) => GdnDevice {
                sound: self.sound && self.stepped && self.gates is None && frame.keeps(
                    copy,
                    self.convolved.last(),
                    true,
                ),
                kept_conv: self.kept_conv.push(self.convolved.last().1),
                ..self
            },
            GdnOp::StorePrepared { offset, width } => GdnDevice {
                sound: self.sound && self.stepped && self.gates is None && width == frame.width()
                    && offset == (next - 1) * frame.width(),
                stepped: false,
                ..self
            },
            GdnOp::LoadRow { offset, width, gate_offset, heads } => GdnDevice {
                sound: self.sound && !self.loaded && !self.stepped && self.convolved.len()
                    == frame.tokens() && !self.chunked && self.gates == Some(false) && width
                    == frame.width() && offset == later * frame.width() && heads
                    == frame.layer.value_heads && gate_offset == later * frame.layer.value_heads,
                loaded: true,
                ..self
            },
            GdnOp::RecurRow { table, heads } => GdnDevice {
                sound: self.sound && self.loaded && heads == frame.layer.value_heads,
                loaded: false,
                stepped: true,
                recurred: self.recurred.push((table as int, later)),
                ..self
            },
            GdnOp::KeepRecurrent(copy) => GdnDevice {
                sound: self.sound && self.stepped && self.gates is Some && frame.keeps(
                    copy,
                    self.recurred.last(),
                    false,
                ),
                kept_recurrent: self.kept_recurrent.push(self.recurred.last().1),
                ..self
            },
            GdnOp::StoreRow { offset, width } => GdnDevice {
                sound: self.sound && self.stepped && self.gates is Some && width == frame.width()
                    && offset == (later - 1) * frame.width(),
                stepped: false,
                ..self
            },
            _ => self,
        }
    }

    /// What one operation leaves.
    pub open spec fn performed(self, frame: GdnFrame, op: GdnOp) -> GdnDevice {
        let layer = frame.layer;
        let all = own_states(frame.first(), frame.lengths, frame.lengths.len());
        match op {
            GdnOp::Quantize { input: GdnInput::Hidden, rows, cols, mode } => GdnDevice {
                sound: self.sound && self.hidden is Unused && rows == frame.all && cols
                    == layer.hidden && !self.qkv && !self.z,
                hidden: mode,
                ..self
            },
            GdnOp::Quantize { input: GdnInput::Value, rows, cols, mode } => GdnDevice {
                sound: self.sound && self.normed == Some(NormForm::Full) && rows == frame.all
                    && cols == frame.width(),
                normed: Some(NormForm::Quantised(mode)),
                ..self
            },
            GdnOp::Project { target, rows, serial, mode } => {
                let next = self.projected(layer, target, mode);
                let alone = frame.serial && !(target is Out);
                GdnDevice { sound: next.sound && rows == frame.all && serial == alone, ..next }
            },
            GdnOp::ProjectAlphaBeta { rows, serial } => GdnDevice {
                sound: self.sound && !self.alpha_beta && rows == frame.all && serial
                    == frame.serial,
                alpha_beta: true,
                ..self
            },
            GdnOp::PrepBatch { table, rows } => self.prepared(
                row_states(table as int, rows as int),
                false,
                rows == frame.tokens() && rows == frame.lengths.len(),
            ),
            GdnOp::PrepRagged { table, sequences, tokens } => self.prepared(
                own_states(table as int, frame.lengths, sequences as nat),
                false,
                sequences == frame.lengths.len() && tokens == frame.tokens(),
            ),
            GdnOp::PrepChunked { table, sequences, tokens } => self.prepared(
                own_states(table as int, frame.lengths, sequences as nat),
                true,
                sequences == frame.lengths.len() && tokens == frame.tokens(),
            ),
            GdnOp::Gate { rows, heads, chunked } => GdnDevice {
                sound: self.sound && self.alpha_beta && self.gates is None && rows == frame.all
                    && heads == layer.value_heads,
                gates: Some(chunked),
                ..self
            },
            GdnOp::RecurBatch { table, rows, heads } => self.advanced(
                frame,
                row_states(table as int, rows as int),
                false,
                rows == frame.tokens() && rows == frame.lengths.len() && heads
                    == layer.value_heads,
            ),
            GdnOp::RecurRagged { table, sequences, tokens, heads } => self.advanced(
                frame,
                own_states(table as int, frame.lengths, sequences as nat),
                false,
                sequences == frame.lengths.len() && tokens == frame.tokens() && heads
                    == layer.value_heads,
            ),
            GdnOp::RecurChunked { table, sequences, tokens } => self.advanced(
                frame,
                own_states(table as int, frame.lengths, sequences as nat),
                true,
                sequences == frame.lengths.len() && tokens == frame.tokens(),
            ),
            GdnOp::Norm { rows, width, sigmoid } => GdnDevice {
                sound: self.sound && self.z && !self.stepped && self.recurred.len()
                    == frame.tokens() && self.normed is None && rows == frame.all
                    * layer.value_heads && width == layer.value_head_dim && sigmoid
                    == frame.sigmoid,
                normed: Some(NormForm::Full),
                ..self
            },
            GdnOp::NormQuantize { rows, heads, width } => GdnDevice {
                sound: self.sound && self.z && !self.stepped && self.recurred.len()
                    == frame.tokens() && self.normed is None && rows == frame.all && heads
                    == layer.value_heads && width == layer.value_head_dim && !frame.sigmoid,
                normed: Some(NormForm::FourBits),
                ..self
            },
            GdnOp::ProjectQuantized { rows } => GdnDevice {
                sound: self.sound && !self.output && self.normed == Some(NormForm::FourBits)
                    && rows == frame.all && layer.out.storage == Storage::Nvfp4,
                output: true,
                ..self
            },
            _ => self.stepped_row(frame, op),
        }
    }
}

/// What the operations of a pass do.
pub open spec fn layer_step(frame: GdnFrame) -> spec_fn(GdnDevice, GdnOp) -> GdnDevice {
    |device: GdnDevice, op: GdnOp| device.performed(frame, op)
}

/// What a decode pass is about: one row for each entry of the state table.
pub open spec fn decode_frame(pass: GdnDecode) -> GdnFrame {
    GdnFrame {
        layer: pass.layer,
        index: pass.layer_idx as int,
        stride: pass.capacity as int,
        all: pass.capacity as int,
        lengths: Seq::new(pass.capacity as nat, |row: int| 1u32),
        serial: false,
        sigmoid: false,
        snapshots: None,
    }
}

#[verifier::rlimit(40)]
proof fn lemma_single_rows(lengths: Seq<u32>, first: int, count: nat)
    requires
        count <= lengths.len(),
        forall|i: int| 0 <= i < lengths.len() ==> #[trigger] lengths[i] == 1,
    ensures
        crate::qwen36::gdn::tokens_before(lengths, count) == count,
        own_states(first, lengths, count) == row_states(first, count as int),
    decreases count,
{
    if count > 0 {
        lemma_single_rows(lengths, first, (count - 1) as nat);
        assert(lengths[count - 1] == 1);
    }
    assert(own_states(first, lengths, count) =~= row_states(first, count as int));
}

#[verifier::rlimit(40)]
proof fn lemma_forms(layer: GdnLayer, rows: usize)
    ensures
        ({
            let hidden = crate::qwen36::linear::quantization_of(seq![layer.qkv, layer.z], rows);
            let value = crate::qwen36::linear::quantization_of(seq![layer.out], rows);
            &&& crate::qwen36::attention_flow::takes(layer.qkv, hidden)
            &&& crate::qwen36::attention_flow::takes(layer.z, hidden)
            &&& crate::qwen36::attention_flow::takes(layer.out, value)
        }),
{
    let entry = seq![layer.qkv, layer.z];
    if layer.qkv.storage == Storage::Fp8 {
        crate::qwen36::linear::law_prepared_activation_fits(entry, rows, 0);
    }
    if layer.z.storage == Storage::Fp8 {
        crate::qwen36::linear::law_prepared_activation_fits(entry, rows, 1);
    }
    if layer.out.storage == Storage::Fp8 {
        crate::qwen36::linear::law_prepared_activation_fits(seq![layer.out], rows, 0);
    }
}

#[verifier::rlimit(40)]
proof fn lemma_decode_body(pass: GdnDecode)
    requires
        pass.fits(),
        pass.obstacle() is None,
    ensures
        ({
            let frame = decode_frame(pass);
            let middle = crate::device::after(layer_step(frame), idle(), pass.body_ops());
            &&& middle.sound
            &&& middle.recurred == row_states(frame.first(), pass.capacity as int)
            &&& middle.convolved == row_states(frame.first(), pass.capacity as int)
            &&& middle.z
            &&& !middle.output
            &&& middle.normed is None
            &&& !middle.stepped
        }),
{
    let frame = decode_frame(pass);
    let step = layer_step(frame);
    let first = frame.first();
    lemma_single_rows(frame.lengths, first, pass.capacity as nat);
    lemma_forms(pass.layer, pass.capacity);
    assert(0 <= first) by (nonlinear_arith)
        requires
            first == pass.layer_idx * pass.capacity,
    ;
    let mode = pass.hidden_mode();
    let quantized = crate::qwen36::gdn::quantize_ops(
        GdnInput::Hidden,
        pass.capacity,
        pass.layer.hidden,
        mode,
    );
    let ops = pass.body_ops();
    let rest = ops.subrange(quantized.len() as int, ops.len() as int);
    assert(ops =~= quantized + rest);
    crate::device::lemma_after_both(step, idle(), quantized, rest);
    let d0 = crate::device::after(step, idle(), quantized);
    assert(d0 == GdnDevice { hidden: mode, ..idle() }) by {
        if !(mode is Unused) {
            crate::device::lemma_after_one(step, idle(), quantized);
        }
    }
    crate::device::lemma_after_six(step, d0, rest);
    let d3 = step(step(step(d0, rest[0]), rest[1]), rest[2]);
    assert(d3 == GdnDevice { qkv: true, z: true, alpha_beta: true, ..d0 });
    let d4 = step(d3, rest[3]);
    assert(d4.convolved == row_states(first, pass.capacity as int));
    assert(d4 == GdnDevice { convolved: d4.convolved, ..d3 });
    let d5 = step(d4, rest[4]);
    assert(d5 == GdnDevice { gates: Some(false), ..d4 });
    let d6 = step(d5, rest[5]);
    assert(d6.recurred == row_states(first, pass.capacity as int));
    assert(d6 == GdnDevice { recurred: d6.recurred, ..d5 });
}

#[verifier::rlimit(40)]
proof fn lemma_decode_exit(pass: GdnDecode, middle: GdnDevice)
    requires
        pass.fits(),
        pass.obstacle() is None,
        middle.sound,
        middle.recurred.len() == pass.capacity,
        middle.z,
        !middle.output,
        middle.normed is None,
        !middle.stepped,
    ensures
        ({
            let end = crate::device::after(
                layer_step(decode_frame(pass)),
                middle,
                pass.exit_ops(),
            );
            &&& end.sound
            &&& end.output
            &&& end.convolved == middle.convolved
            &&& end.recurred == middle.recurred
        }),
{
    let frame = decode_frame(pass);
    let step = layer_step(frame);
    lemma_single_rows(frame.lengths, frame.first(), pass.capacity as nat);
    lemma_forms(pass.layer, pass.capacity);
    let width = frame.width();
    assert(0 <= width && 0 <= pass.capacity * pass.layer.value_heads) by (nonlinear_arith)
        requires
            width == pass.layer.value_heads * pass.layer.value_head_dim,
    ;
    let exit = pass.exit_ops();
    if exit.len() == 2 {
        crate::device::lemma_after_two(step, middle, exit);
        let d1 = step(middle, exit[0]);
        assert(d1 == GdnDevice { normed: d1.normed, ..middle });
    } else {
        crate::device::lemma_after_three(step, middle, exit);
        let d1 = step(middle, exit[0]);
        assert(d1 == GdnDevice { normed: Some(NormForm::Full), ..middle });
        let d2 = step(d1, exit[1]);
        assert(d2 == GdnDevice { normed: d2.normed, ..middle });
    }
}

/// A decode pass of a recurrent layer runs as a whole: every operation finds its inputs, and
/// convolution and recurrence of each row both take the state of that row among those of this
/// very layer.
#[verifier::rlimit(40)]
pub proof fn law_decode_rows_take_their_own_states(pass: GdnDecode)
    requires
        pass.fits(),
        pass.obstacle() is None,
    ensures
        ({
            let ops = pass.body_ops() + pass.exit_ops();
            let device = crate::device::after(layer_step(decode_frame(pass)), idle(), ops);
            let own = Seq::new(
                pass.capacity as nat,
                |row: int| (pass.layer_idx * pass.capacity + row, row),
            );
            &&& device.sound
            &&& device.output
            &&& device.convolved == own
            &&& device.recurred == own
        }),
{
    let frame = decode_frame(pass);
    let step = layer_step(frame);
    crate::device::lemma_after_both(step, idle(), pass.body_ops(), pass.exit_ops());
    lemma_decode_body(pass);
    lemma_decode_exit(pass, crate::device::after(step, idle(), pass.body_ops()));
    let own = Seq::new(
        pass.capacity as nat,
        |row: int| (pass.layer_idx * pass.capacity + row, row),
    );
    assert(own =~= row_states(frame.first(), pass.capacity as int));
}

/// Whether a state table names the states of a batch: entry by entry, layers in order, the
/// state of the row where the row has one, and a spare one behind the last row.
pub open spec fn names_states(
    table: Seq<StateRef>,
    rows: Seq<Vec<bool>>,
    layers: int,
    capacity: int,
) -> bool {
    forall|layer: int, row: int|
        0 <= layer < layers && 0 <= row < capacity ==> #[trigger] table[layer * capacity + row] == (
        if row >= rows.len() {
            StateRef::Padding(row as usize)
        } else if rows[row]@[layer] {
            StateRef::Row(row as usize)
        } else {
            StateRef::Null
        })
}

/// On the state table of its batch, a decode pass of a recurrent layer takes each row to the
/// state of the row's own sequence, and empty rows to spare states; two layers never take the
/// same entry.
#[verifier::rlimit(40)]
pub proof fn law_decode_states_belong_to_their_rows(
    pass: GdnDecode,
    table: Seq<StateRef>,
    rows: Seq<Vec<bool>>,
    layers: int,
    row: int,
    other: GdnDecode,
    other_row: int,
)
    requires
        pass.fits(),
        pass.obstacle() is None,
        pass.layer_idx < layers,
        names_states(table, rows, layers, pass.capacity as int),
        0 <= row < pass.capacity,
        row < rows.len() ==> rows[row]@[pass.layer_idx as int],
        other.fits(),
        other.obstacle() is None,
        other.capacity == pass.capacity,
        other.layer_idx != pass.layer_idx,
        0 <= other_row < pass.capacity,
    ensures
        ({
            let device = crate::device::after(
                layer_step(decode_frame(pass)),
                idle(),
                pass.body_ops() + pass.exit_ops(),
            );
            let elsewhere = crate::device::after(
                layer_step(decode_frame(other)),
                idle(),
                other.body_ops() + other.exit_ops(),
            );
            let expected = if row < rows.len() {
                StateRef::Row(row as usize)
            } else {
                StateRef::Padding(row as usize)
            };
            &&& table[device.convolved[row].0] == expected
            &&& table[device.recurred[row].0] == expected
            &&& device.recurred[row].0 != elsewhere.recurred[other_row].0
            &&& device.convolved[row].0 != elsewhere.convolved[other_row].0
        }),
{
    law_decode_rows_take_their_own_states(pass);
    law_decode_rows_take_their_own_states(other);
    let capacity = pass.capacity as int;
    let here = pass.layer_idx as int;
    let there = other.layer_idx as int;
    assert(here * capacity + row != there * capacity + other_row) by (nonlinear_arith)
        requires
            here != there,
            0 <= row < capacity,
            0 <= other_row < capacity,
    ;
}

/// What a prompt pass is about.
pub open spec fn prefill_frame(pass: GdnPrefill) -> GdnFrame {
    GdnFrame {
        layer: pass.layer,
        index: pass.layer_idx as int,
        stride: pass.sequence_capacity as int,
        all: pass.row_capacity as int,
        lengths: pass.lengths@,
        serial: pass.serial_projections,
        sigmoid: pass.sigmoid_output_gate,
        snapshots: match pass.snapshots {
            Some(snapshots) => Some(*snapshots),
            None => None,
        },
    }
}

/// Whether the counts of a prompt pass are those of its sequences, and states are kept for the
/// entries of its own state table.
pub open spec fn counted(pass: GdnPrefill) -> bool {
    &&& pass.fits()
    &&& pass.obstacle() is None
    &&& pass.sequence_count == pass.lengths@.len()
    &&& pass.total_tokens == crate::qwen36::gdn::tokens_before(pass.lengths@, pass.lengths@.len())
    &&& forall|i: int| 0 <= i < pass.lengths@.len() ==> #[trigger] pass.lengths@[i] > 0
    &&& pass.snapshots matches Some(snapshots) ==> snapshots.state_table_stride
        == pass.sequence_capacity
}

#[verifier::rlimit(40)]
proof fn lemma_own_states_len(first: int, lengths: Seq<u32>, count: nat)
    ensures
        own_states(first, lengths, count).len() == crate::qwen36::gdn::tokens_before(
            lengths,
            count,
        ),
    decreases count,
{
    if count > 0 {
        lemma_own_states_len(first, lengths, (count - 1) as nat);
    }
}

#[verifier::rlimit(40)]
proof fn lemma_as_many_rows(lengths: Seq<u32>, count: nat)
    requires
        count <= lengths.len(),
        forall|i: int| 0 <= i < lengths.len() ==> #[trigger] lengths[i] > 0,
    ensures
        crate::qwen36::gdn::tokens_before(lengths, count) >= count,
        crate::qwen36::gdn::tokens_before(lengths, count) == count ==> forall|i: int|
            0 <= i < count ==> #[trigger] lengths[i] == 1,
    decreases count,
{
    if count > 0 {
        lemma_as_many_rows(lengths, (count - 1) as nat);
        assert(lengths[count - 1] > 0);
    }
}

/// What a row-by-row part leaves, between two rows.
spec fn conv_done(before: GdnDevice, after: GdnDevice, frame: GdnFrame, states: Seq<(int, int)>) -> bool {
    &&& after == (GdnDevice {
        convolved: after.convolved,
        kept_conv: after.kept_conv,
        ..before
    })
    &&& after.convolved == before.convolved + states
    &&& after.kept_conv == frame.kept_rows(after.convolved.len() as int)
}

spec fn recur_done(
    before: GdnDevice,
    after: GdnDevice,
    frame: GdnFrame,
    states: Seq<(int, int)>,
) -> bool {
    &&& after == (GdnDevice {
        recurred: after.recurred,
        kept_recurrent: after.kept_recurrent,
        ..before
    })
    &&& after.recurred == before.recurred + states
    &&& after.kept_recurrent == frame.kept_rows(after.recurred.len() as int)
}

#[verifier::rlimit(40)]
proof fn lemma_copy(pass: GdnPrefill, sequence: int, row: int)
    requires
        counted(pass),
        0 <= sequence < pass.lengths@.len(),
        0 <= row,
    ensures
        ({
            let frame = prefill_frame(pass);
            let latest = (frame.first() + sequence, row);
            let snapshots = pass.snapshots->0;
            let kept = row < snapshots.slots && snapshots.linear_layers@[frame.index];
            &&& pass.snapshots is None ==> pass.keep_conv(sequence, row) == Seq::<GdnOp>::empty()
                && pass.keep_recurrent(sequence, row) == Seq::<GdnOp>::empty()
            &&& pass.snapshots is Some && !kept ==> pass.keep_conv(sequence, row) == Seq::<
                GdnOp,
            >::empty() && pass.keep_recurrent(sequence, row) == Seq::<GdnOp>::empty()
            &&& pass.snapshots is Some && kept ==> {
                let conv = snapshots.conv_capture(frame.index, sequence, row)->0;
                let recurrent = snapshots.recurrent_capture(frame.index, sequence, row)->0;
                &&& pass.keep_conv(sequence, row) == seq![GdnOp::KeepConv(conv)]
                &&& pass.keep_recurrent(sequence, row) == seq![GdnOp::KeepRecurrent(recurrent)]
                &&& frame.keeps(conv, latest, true)
                &&& frame.keeps(recurrent, latest, false)
            }
        }),
{
    match pass.snapshots {
        None => {},
        Some(snapshots) => {
            let index = pass.layer_idx as int;
            if row < snapshots.slots && snapshots.linear_layers@[index] {
                snapshots.lemma_places(index, sequence, row);
            }
        },
    }
}

#[verifier::rlimit(40)]
proof fn lemma_conv_row(pass: GdnPrefill, before: GdnDevice, sequence: int, offset: int)
    requires
        counted(pass),
        0 <= sequence < pass.lengths@.len(),
        0 <= offset < pass.lengths@[sequence],
        before.convolved.len() == crate::qwen36::gdn::tokens_before(pass.lengths@, sequence as nat)
            + offset,
        before.kept_conv == prefill_frame(pass).kept_rows(before.convolved.len() as int),
        before.sound && before.qkv && !before.loaded && !before.stepped && before.gates is None,
    ensures
        ({
            let frame = prefill_frame(pass);
            let row = before.convolved.len() as int;
            let after = crate::device::after(
                layer_step(frame),
                before,
                pass.conv_row(sequence, row),
            );
            conv_done(before, after, frame, seq![(frame.first() + sequence, row)])
        }),
{
    let frame = prefill_frame(pass);
    let step = layer_step(frame);
    let row = before.convolved.len() as int;
    let ops = pass.conv_row(sequence, row);
    pass.lemma_row_fits(sequence, offset);
    lemma_copy(pass, sequence, row);
    let latest = (frame.first() + sequence, row);
    let kept = pass.snapshots is Some && row < pass.snapshots->0.slots
        && pass.snapshots->0.linear_layers@[frame.index];
    let d1 = step(before, ops[0]);
    assert(d1 == GdnDevice { loaded: true, ..before });
    let d2 = step(d1, ops[1]);
    assert(d2 == GdnDevice { stepped: true, convolved: before.convolved.push(latest), ..before });
    assert(d2.convolved.last() == latest);
    if kept {
        assert(ops.len() == 4);
        crate::device::lemma_after_four(step, before, ops);
        let d3 = step(d2, ops[2]);
        assert(d3 == GdnDevice { kept_conv: before.kept_conv.push(row), ..d2 });
        let d4 = step(d3, ops[3]);
        assert(d4 == GdnDevice { stepped: false, ..d3 });
        assert(before.kept_conv.push(row) =~= frame.kept_rows(row + 1));
    } else {
        assert(ops.len() == 3);
        crate::device::lemma_after_three(step, before, ops);
        let d3 = step(d2, ops[2]);
        assert(d3 == GdnDevice { stepped: false, ..d2 });
        assert(before.kept_conv =~= frame.kept_rows(row + 1));
    }
    assert(before.convolved.push(latest) =~= before.convolved + seq![latest]);
}

#[verifier::rlimit(40)]
proof fn lemma_conv_rows(pass: GdnPrefill, before: GdnDevice, sequence: int, rows: nat)
    requires
        counted(pass),
        0 <= sequence < pass.lengths@.len(),
        rows <= pass.lengths@[sequence],
        before.convolved.len() == crate::qwen36::gdn::tokens_before(pass.lengths@, sequence as nat),
        before.kept_conv == prefill_frame(pass).kept_rows(before.convolved.len() as int),
        before.sound && before.qkv && !before.loaded && !before.stepped && before.gates is None,
    ensures
        ({
            let frame = prefill_frame(pass);
            let start = before.convolved.len() as int;
            let after = crate::device::after(
                layer_step(frame),
                before,
                pass.conv_sequence(sequence, start, rows),
            );
            conv_done(
                before,
                after,
                frame,
                sequence_states(frame.first() + sequence, start, rows),
            )
        }),
    decreases rows,
{
    let frame = prefill_frame(pass);
    let step = layer_step(frame);
    let start = before.convolved.len() as int;
    let states = sequence_states(frame.first() + sequence, start, rows);
    if rows == 0 {
        assert(before.convolved =~= before.convolved + states);
    } else {
        let fewer = (rows - 1) as nat;
        lemma_conv_rows(pass, before, sequence, fewer);
        let earlier = pass.conv_sequence(sequence, start, fewer);
        let middle = crate::device::after(step, before, earlier);
        let last = pass.conv_row(sequence, start + rows - 1);
        crate::device::lemma_after_both(step, before, earlier, last);
        lemma_conv_row(pass, middle, sequence, fewer as int);
        let after = crate::device::after(step, middle, last);
        assert(after.convolved =~= before.convolved + states);
    }
}

#[verifier::rlimit(40)]
proof fn lemma_conv_sequences(pass: GdnPrefill, before: GdnDevice, count: nat)
    requires
        counted(pass),
        count <= pass.lengths@.len(),
        before.convolved.len() == 0,
        before.kept_conv.len() == 0,
        before.sound && before.qkv && !before.loaded && !before.stepped && before.gates is None,
    ensures
        ({
            let frame = prefill_frame(pass);
            let after = crate::device::after(
                layer_step(frame),
                before,
                pass.conv_serial(count),
            );
            conv_done(before, after, frame, own_states(frame.first(), pass.lengths@, count))
        }),
    decreases count,
{
    let frame = prefill_frame(pass);
    let step = layer_step(frame);
    let states = own_states(frame.first(), pass.lengths@, count);
    if count == 0 {
        assert(before.convolved =~= before.convolved + states);
        assert(before.kept_conv =~= frame.kept_rows(0));
    } else {
        let fewer = (count - 1) as nat;
        lemma_conv_sequences(pass, before, fewer);
        let earlier = pass.conv_serial(fewer);
        let middle = crate::device::after(step, before, earlier);
        let start = crate::qwen36::gdn::tokens_before(pass.lengths@, fewer) as int;
        let rows = pass.lengths@[count - 1] as nat;
        let last = pass.conv_sequence(count - 1, start, rows);
        crate::device::lemma_after_both(step, before, earlier, last);
        lemma_own_states_len(frame.first(), pass.lengths@, fewer);
        lemma_conv_rows(pass, middle, count - 1, rows);
        let after = crate::device::after(step, middle, last);
        assert(after.convolved =~= before.convolved + states);
    }
}

#[verifier::rlimit(40)]
proof fn lemma_recur_row(pass: GdnPrefill, before: GdnDevice, sequence: int, offset: int)
    requires
        counted(pass),
        0 <= sequence < pass.lengths@.len(),
        0 <= offset < pass.lengths@[sequence],
        before.recurred.len() == crate::qwen36::gdn::tokens_before(pass.lengths@, sequence as nat)
            + offset,
        before.kept_recurrent == prefill_frame(pass).kept_rows(before.recurred.len() as int),
        before.sound && !before.loaded && !before.stepped && before.gates == Some(false),
        !before.chunked && before.convolved.len() == prefill_frame(pass).tokens(),
    ensures
        ({
            let frame = prefill_frame(pass);
            let row = before.recurred.len() as int;
            let after = crate::device::after(
                layer_step(frame),
                before,
                pass.recur_row(sequence, row),
            );
            recur_done(before, after, frame, seq![(frame.first() + sequence, row)])
        }),
{
    let frame = prefill_frame(pass);
    let step = layer_step(frame);
    let row = before.recurred.len() as int;
    let ops = pass.recur_row(sequence, row);
    pass.lemma_row_fits(sequence, offset);
    lemma_copy(pass, sequence, row);
    let latest = (frame.first() + sequence, row);
    let kept = pass.snapshots is Some && row < pass.snapshots->0.slots
        && pass.snapshots->0.linear_layers@[frame.index];
    let d1 = step(before, ops[0]);
    assert(d1 == GdnDevice { loaded: true, ..before });
    let d2 = step(d1, ops[1]);
    assert(d2 == GdnDevice { stepped: true, recurred: before.recurred.push(latest), ..before });
    assert(d2.recurred.last() == latest);
    if kept {
        assert(ops.len() == 4);
        crate::device::lemma_after_four(step, before, ops);
        let d3 = step(d2, ops[2]);
        assert(d3 == GdnDevice { kept_recurrent: before.kept_recurrent.push(row), ..d2 });
        let d4 = step(d3, ops[3]);
        assert(d4 == GdnDevice { stepped: false, ..d3 });
        assert(before.kept_recurrent.push(row) =~= frame.kept_rows(row + 1));
    } else {
        assert(ops.len() == 3);
        crate::device::lemma_after_three(step, before, ops);
        let d3 = step(d2, ops[2]);
        assert(d3 == GdnDevice { stepped: false, ..d2 });
        assert(before.kept_recurrent =~= frame.kept_rows(row + 1));
    }
    assert(before.recurred.push(latest) =~= before.recurred + seq![latest]);
}

#[verifier::rlimit(40)]
proof fn lemma_recur_rows(pass: GdnPrefill, before: GdnDevice, sequence: int, rows: nat)
    requires
        counted(pass),
        0 <= sequence < pass.lengths@.len(),
        rows <= pass.lengths@[sequence],
        before.recurred.len() == crate::qwen36::gdn::tokens_before(pass.lengths@, sequence as nat),
        before.kept_recurrent == prefill_frame(pass).kept_rows(before.recurred.len() as int),
        before.sound && !before.loaded && !before.stepped && before.gates == Some(false),
        !before.chunked && before.convolved.len() == prefill_frame(pass).tokens(),
    ensures
        ({
            let frame = prefill_frame(pass);
            let start = before.recurred.len() as int;
            let after = crate::device::after(
                layer_step(frame),
                before,
                pass.recur_sequence(sequence, start, rows),
            );
            recur_done(
                before,
                after,
                frame,
                sequence_states(frame.first() + sequence, start, rows),
            )
        }),
    decreases rows,
{
    let frame = prefill_frame(pass);
    let step = layer_step(frame);
    let start = before.recurred.len() as int;
    let states = sequence_states(frame.first() + sequence, start, rows);
    if rows == 0 {
        assert(before.recurred =~= before.recurred + states);
    } else {
        let fewer = (rows - 1) as nat;
        lemma_recur_rows(pass, before, sequence, fewer);
        let earlier = pass.recur_sequence(sequence, start, fewer);
        let middle = crate::device::after(step, before, earlier);
        let last = pass.recur_row(sequence, start + rows - 1);
        crate::device::lemma_after_both(step, before, earlier, last);
        lemma_recur_row(pass, middle, sequence, fewer as int);
        let after = crate::device::after(step, middle, last);
        assert(after.recurred =~= before.recurred + states);
    }
}

#[verifier::rlimit(40)]
proof fn lemma_recur_sequences(pass: GdnPrefill, before: GdnDevice, count: nat)
    requires
        counted(pass),
        count <= pass.lengths@.len(),
        before.recurred.len() == 0,
        before.kept_recurrent.len() == 0,
        before.sound && !before.loaded && !before.stepped && before.gates == Some(false),
        !before.chunked && before.convolved.len() == prefill_frame(pass).tokens(),
    ensures
        ({
            let frame = prefill_frame(pass);
            let after = crate::device::after(
                layer_step(frame),
                before,
                pass.recur_serial(count),
            );
            recur_done(before, after, frame, own_states(frame.first(), pass.lengths@, count))
        }),
    decreases count,
{
    let frame = prefill_frame(pass);
    let step = layer_step(frame);
    let states = own_states(frame.first(), pass.lengths@, count);
    if count == 0 {
        assert(before.recurred =~= before.recurred + states);
        assert(before.kept_recurrent =~= frame.kept_rows(0));
    } else {
        let fewer = (count - 1) as nat;
        lemma_recur_sequences(pass, before, fewer);
        let earlier = pass.recur_serial(fewer);
        let middle = crate::device::after(step, before, earlier);
        let start = crate::qwen36::gdn::tokens_before(pass.lengths@, fewer) as int;
        let rows = pass.lengths@[count - 1] as nat;
        let last = pass.recur_sequence(count - 1, start, rows);
        crate::device::lemma_after_both(step, before, earlier, last);
        lemma_own_states_len(frame.first(), pass.lengths@, fewer);
        lemma_recur_rows(pass, middle, count - 1, rows);
        let after = crate::device::after(step, middle, last);
        assert(after.recurred =~= before.recurred + states);
    }
}

#[verifier::rlimit(40)]
proof fn lemma_prefill_entry(pass: GdnPrefill)
    requires
        counted(pass),
    ensures
        crate::device::after(layer_step(prefill_frame(pass)), idle(), pass.entry_ops())
            == (GdnDevice {
            hidden: pass.hidden_mode(),
            qkv: true,
            z: true,
            alpha_beta: true,
            ..idle()
        }),
{
    let frame = prefill_frame(pass);
    let step = layer_step(frame);
    lemma_forms(pass.layer, pass.row_capacity);
    let mode = pass.hidden_mode();
    let quantized = crate::qwen36::gdn::quantize_ops(
        GdnInput::Hidden,
        pass.row_capacity,
        pass.layer.hidden,
        mode,
    );
    let ops = pass.entry_ops();
    let rest = ops.subrange(quantized.len() as int, ops.len() as int);
    assert(ops =~= quantized + rest);
    crate::device::lemma_after_both(step, idle(), quantized, rest);
    let d0 = crate::device::after(step, idle(), quantized);
    assert(d0 == GdnDevice { hidden: mode, ..idle() }) by {
        if !(mode is Unused) {
            crate::device::lemma_after_one(step, idle(), quantized);
        }
    }
    crate::device::lemma_after_three(step, d0, rest);
}

#[verifier::rlimit(40)]
proof fn lemma_prefill_conv(pass: GdnPrefill, before: GdnDevice)
    requires
        counted(pass),
        before == (GdnDevice {
            hidden: pass.hidden_mode(),
            qkv: true,
            z: true,
            alpha_beta: true,
            ..idle()
        }),
    ensures
        ({
            let frame = prefill_frame(pass);
            let after = crate::device::after(layer_step(frame), before, pass.conv_ops());
            &&& after == (GdnDevice {
                convolved: own_states(frame.first(), pass.lengths@, pass.lengths@.len()),
                chunked: pass.chunked(),
                kept_conv: after.kept_conv,
                ..before
            })
            &&& pass.serial() ==> after.kept_conv == frame.kept_rows(frame.tokens())
        }),
{
    let frame = prefill_frame(pass);
    let step = layer_step(frame);
    let count = pass.lengths@.len();
    let ops = pass.conv_ops();
    pass.lemma_table_place();
    lemma_own_states_len(frame.first(), pass.lengths@, count);
    if pass.serial() {
        lemma_conv_sequences(pass, before, count);
        let states = own_states(frame.first(), pass.lengths@, count);
        assert(before.convolved + states =~= states);
    } else {
        crate::device::lemma_after_one(step, before, ops);
        lemma_as_many_rows(pass.lengths@, count);
        if pass.total_tokens == pass.sequence_count {
            lemma_single_rows(pass.lengths@, frame.first(), count);
        }
    }
}

#[verifier::rlimit(40)]
proof fn lemma_prefill_recur(pass: GdnPrefill, before: GdnDevice)
    requires
        counted(pass),
        before.sound && !before.loaded && !before.stepped,
        before.gates == Some(pass.chunked()),
        before.chunked == pass.chunked(),
        before.convolved.len() == prefill_frame(pass).tokens(),
        before.recurred.len() == 0,
        before.kept_recurrent.len() == 0,
    ensures
        ({
            let frame = prefill_frame(pass);
            let after = crate::device::after(layer_step(frame), before, pass.recur_ops());
            &&& after == (GdnDevice {
                recurred: own_states(frame.first(), pass.lengths@, pass.lengths@.len()),
                kept_recurrent: after.kept_recurrent,
                ..before
            })
            &&& pass.serial() ==> after.kept_recurrent == frame.kept_rows(frame.tokens())
        }),
{
    let frame = prefill_frame(pass);
    let step = layer_step(frame);
    let count = pass.lengths@.len();
    let ops = pass.recur_ops();
    pass.lemma_table_place();
    lemma_own_states_len(frame.first(), pass.lengths@, count);
    if pass.serial() {
        lemma_recur_sequences(pass, before, count);
        let states = own_states(frame.first(), pass.lengths@, count);
        assert(before.recurred + states =~= states);
    } else {
        crate::device::lemma_after_one(step, before, ops);
        lemma_as_many_rows(pass.lengths@, count);
        if pass.total_tokens == pass.sequence_count {
            lemma_single_rows(pass.lengths@, frame.first(), count);
        }
    }
}

#[verifier::rlimit(40)]
proof fn lemma_prefill_exit(pass: GdnPrefill, before: GdnDevice)
    requires
        counted(pass),
        before.sound && before.z && !before.stepped && before.normed is None && !before.output,
        before.recurred.len() == prefill_frame(pass).tokens(),
    ensures
        ({
            let after = crate::device::after(
                layer_step(prefill_frame(pass)),
                before,
                pass.exit_ops(),
            );
            after == (GdnDevice { normed: after.normed, output: true, ..before })
        }),
{
    let frame = prefill_frame(pass);
    let step = layer_step(frame);
    lemma_forms(pass.layer, pass.row_capacity);
    let width = frame.width();
    assert(0 <= width && 0 <= pass.row_capacity * pass.layer.value_heads) by (nonlinear_arith)
        requires
            width == pass.layer.value_heads * pass.layer.value_head_dim,
    ;
    let ops = pass.exit_ops();
    let d1 = step(before, ops[0]);
    assert(d1 == GdnDevice { normed: Some(NormForm::Full), ..before });
    if ops.len() == 2 {
        crate::device::lemma_after_two(step, before, ops);
    } else {
        crate::device::lemma_after_three(step, before, ops);
        let d2 = step(d1, ops[1]);
        assert(d2 == GdnDevice { normed: d2.normed, ..before });
    }
}

/// A prompt pass of a recurrent layer runs as a whole, on whichever of its paths: every
/// operation finds its inputs, and convolution and recurrence take the rows of each sequence in
/// order to the state of that sequence among those of this very layer. Row by row, the states
/// after the first rows are kept, each in its own place.
#[verifier::rlimit(40)]
pub proof fn law_prompt_rows_take_their_own_states(pass: GdnPrefill)
    requires
        counted(pass),
    ensures
        ({
            let frame = prefill_frame(pass);
            let device = crate::device::after(layer_step(frame), idle(), pass.ops());
            let own = own_states(
                pass.layer_idx * pass.sequence_capacity,
                pass.lengths@,
                pass.lengths@.len(),
            );
            &&& device.sound
            &&& device.output
            &&& device.convolved == own
            &&& device.recurred == own
            &&& pass.serial() ==> {
                &&& device.kept_conv == frame.kept_rows(pass.total_tokens as int)
                &&& device.kept_recurrent == frame.kept_rows(pass.total_tokens as int)
            }
        }),
{
    let frame = prefill_frame(pass);
    let step = layer_step(frame);
    let gate = seq![
        GdnOp::Gate {
            rows: pass.row_capacity,
            heads: pass.layer.value_heads,
            chunked: pass.chunked(),
        },
    ];
    let (entry, conv, recur, exit) = (
        pass.entry_ops(),
        pass.conv_ops(),
        pass.recur_ops(),
        pass.exit_ops(),
    );
    lemma_own_states_len(frame.first(), pass.lengths@, pass.lengths@.len());
    crate::device::lemma_after_both(step, idle(), entry + conv + gate + recur, exit);
    crate::device::lemma_after_both(step, idle(), entry + conv + gate, recur);
    crate::device::lemma_after_both(step, idle(), entry + conv, gate);
    crate::device::lemma_after_both(step, idle(), entry, conv);
    lemma_prefill_entry(pass);
    let d1 = crate::device::after(step, idle(), entry);
    lemma_prefill_conv(pass, d1);
    let d2 = crate::device::after(step, d1, conv);
    crate::device::lemma_after_one(step, d2, gate);
    let d3 = crate::device::after(step, d2, gate);
    assert(d3 == GdnDevice { gates: Some(pass.chunked()), ..d2 });
    lemma_prefill_recur(pass, d3);
    let d4 = crate::device::after(step, d3, recur);
    lemma_prefill_exit(pass, d4);
}

} // verus!
