//! What the operations of a measured layer leave behind.

use crate::manifest::QwenLayerKind;
use crate::qwen38_flash_next::benchmark::{LayerWork, Measured};
use crate::qwen38_flash_next::forward::Sublayer;
use crate::qwen38_flash_next::gdn_benchmark::{GdnSerialOp, Qwen38GdnPrefillMicrobench};
use crate::qwen38_flash_next::hyper_benchmark::{
    ComparedBuffer, ExactRowOp, Qwen38HyperPrefillMicrobench,
};
use crate::qwen38_flash_next::qsa_benchmark::{
    QsaBatchedOp, QsaRow, QsaRun, QsaSerialOp, Qwen38QsaPrefillMicrobench,
};
use vstd::prelude::*;

verus! {

/// Residual streams of a measured layer.
pub enum LayerStreams {
    /// The input of the layer.
    Input,
    /// With the output of its attention.
    Attended,
    /// With the output of its experts on those.
    Fed,
    /// None of these.
    Nothing,
}

/// Buffers of a measured layer.
pub struct LayerDevice {
    /// Every operation so far found its inputs ready, and took all tokens.
    pub sound: bool,
    /// Current streams.
    pub streams: LayerStreams,
    /// The other stream buffer.
    pub other: LayerStreams,
    /// Streams that the sublayer's input was mixed from.
    pub mixed: LayerStreams,
    /// Streams that the sublayer's output was computed from.
    pub output: LayerStreams,
}

/// Buffers with the input of a layer.
pub open spec fn resting() -> LayerDevice {
    LayerDevice {
        sound: true,
        streams: LayerStreams::Input,
        other: LayerStreams::Nothing,
        mixed: LayerStreams::Nothing,
        output: LayerStreams::Nothing,
    }
}

impl LayerDevice {
    /// What one operation leaves, of a layer of one kind.
    pub open spec fn performed(
        self,
        layer: usize,
        kind: QwenLayerKind,
        tokens: usize,
        op: LayerWork,
    ) -> LayerDevice {
        match op {
            LayerWork::RepeatStreams { .. } => LayerDevice { sound: false, ..self },
            LayerWork::Mix { sublayer, tokens: rows } => LayerDevice {
                sound: self.sound && rows == tokens && (self.streams is Input && sublayer
                    == Sublayer::Attention || self.streams is Attended && sublayer
                    == Sublayer::Mlp),
                mixed: self.streams,
                ..self
            },
            LayerWork::Attention { layer: at, kind: run, tokens: rows } => LayerDevice {
                sound: self.sound && self.mixed is Input && at == layer && run == kind && rows
                    == tokens,
                output: self.mixed,
                ..self
            },
            LayerWork::Experts { layer: at, tokens: rows } => LayerDevice {
                sound: self.sound && self.mixed is Attended && at == layer && rows == tokens,
                output: self.mixed,
                ..self
            },
            LayerWork::Combine { sublayer, tokens: rows } => LayerDevice {
                sound: self.sound && rows == tokens && self.output == self.streams && (sublayer
                    == Sublayer::Attention && self.streams is Input || sublayer == Sublayer::Mlp
                    && self.streams is Attended),
                other: if sublayer == Sublayer::Attention {
                    LayerStreams::Attended
                } else {
                    LayerStreams::Fed
                },
                ..self
            },
            LayerWork::SwapStreams => LayerDevice {
                streams: self.other,
                other: self.streams,
                ..self
            },
        }
    }
}

/// What the operations of a measured layer do.
pub open spec fn layer_step(
    layer: usize,
    kind: QwenLayerKind,
    tokens: usize,
) -> spec_fn(LayerDevice, LayerWork) -> LayerDevice {
    |device: LayerDevice, op: LayerWork| device.performed(layer, kind, tokens, op)
}

/// A measured layer runs as a whole, with events or without: its attention and then its experts
/// run on all tokens, each on the streams that the one before left.
#[verifier::rlimit(40)]
pub proof fn law_measured_layer_runs(
    measured: bool,
    first: int,
    layer: usize,
    kind: QwenLayerKind,
    tokens: usize,
)
    ensures
        ({
            let device = crate::device::after(
                layer_step(layer, kind, tokens),
                resting(),
                crate::qwen38_flash_next::benchmark::work(
                    crate::qwen38_flash_next::benchmark::layer_ops(
                        measured,
                        first,
                        layer,
                        kind,
                        tokens,
                    ),
                ),
            );
            device.sound && device.streams is Fed
        }),
{
    crate::qwen38_flash_next::benchmark::law_events_only_measure(
        measured,
        first,
        layer,
        kind,
        tokens,
    );
    let step = layer_step(layer, kind, tokens);
    let ops = crate::qwen38_flash_next::benchmark::layer_work(layer, kind, tokens);
    let start = resting();
    crate::device::lemma_after_eight(step, start, ops);
    let d1 = start.performed(layer, kind, tokens, ops[0]);
    assert(d1 == LayerDevice { mixed: LayerStreams::Input, ..start });
    let d2 = d1.performed(layer, kind, tokens, ops[1]);
    assert(d2 == LayerDevice { output: LayerStreams::Input, ..d1 });
    let d3 = d2.performed(layer, kind, tokens, ops[2]);
    assert(d3 == LayerDevice { other: LayerStreams::Attended, ..d2 });
    let d4 = d3.performed(layer, kind, tokens, ops[3]);
    assert(d4 == LayerDevice {
        streams: LayerStreams::Attended,
        other: LayerStreams::Input,
        ..d3
    });
    let d5 = d4.performed(layer, kind, tokens, ops[4]);
    assert(d5 == LayerDevice { mixed: LayerStreams::Attended, ..d4 });
    let d6 = d5.performed(layer, kind, tokens, ops[5]);
    assert(d6 == LayerDevice { output: LayerStreams::Attended, ..d5 });
    let d7 = d6.performed(layer, kind, tokens, ops[6]);
    assert(d7 == LayerDevice { other: LayerStreams::Fed, ..d6 });
}

/// Buffers of a prompt that runs row by row.
pub struct SerialDevice {
    /// Every operation so far found its input ready, and took a whole row.
    pub sound: bool,
    /// Input offset of the loaded row.
    pub loaded: Option<int>,
    /// Input offset of the row that the recurrence took last.
    pub result: Option<int>,
    /// Input offsets that the recurrence took, in order.
    pub taken: Seq<int>,
    /// Stored rows: where each went, and the input offset that it came from.
    pub stored: Seq<(int, int)>,
}

/// What the operations of a prompt do that runs row by row.
pub open spec fn serial_step(bench: Qwen38GdnPrefillMicrobench) -> spec_fn(
    SerialDevice,
    GdnSerialOp,
) -> SerialDevice {
    |device: SerialDevice, op: GdnSerialOp|
        match op {
            GdnSerialOp::LoadRow { offset, values } => SerialDevice {
                sound: device.sound && values == bench.hidden,
                loaded: Some(offset as int),
                ..device
            },
            GdnSerialOp::Step { layer } => SerialDevice {
                sound: device.sound && layer == bench.layer && device.loaded is Some,
                loaded: None,
                result: device.loaded,
                taken: device.taken.push(device.loaded->0),
                ..device
            },
            GdnSerialOp::StoreRow { offset, values } => SerialDevice {
                sound: device.sound && values == bench.hidden && device.result is Some,
                result: None,
                stored: device.stored.push((offset as int, device.result->0)),
                ..device
            },
        }
}

/// Row by row, the recurrence takes every row of a prompt once and in order, and the result of
/// each goes to the row that it came from.
#[verifier::rlimit(40)]
pub proof fn law_serial_rows_run_in_order(bench: Qwen38GdnPrefillMicrobench, rows: nat)
    requires
        rows * bench.hidden <= usize::MAX,
    ensures
        ({
            let start = SerialDevice {
                sound: true,
                loaded: None,
                result: None,
                taken: seq![],
                stored: seq![],
            };
            let device = crate::device::after(serial_step(bench), start, bench.serial_ops(rows));
            &&& device.sound
            &&& device.taken == Seq::new(rows, |row: int| row * bench.hidden)
            &&& device.stored == Seq::new(
                rows,
                |row: int| (row * bench.hidden, row * bench.hidden),
            )
        }),
    decreases rows,
{
    let start = SerialDevice {
        sound: true,
        loaded: None,
        result: None,
        taken: seq![],
        stored: seq![],
    };
    let taken = Seq::new(rows, |row: int| row * bench.hidden);
    let stored = Seq::new(rows, |row: int| (row * bench.hidden, row * bench.hidden));
    if rows > 0 {
        let less = (rows - 1) as nat;
        assert(0 <= less * bench.hidden <= rows * bench.hidden) by (nonlinear_arith)
            requires
                less < rows,
        ;
        law_serial_rows_run_in_order(bench, less);
        let step = serial_step(bench);
        let ops = bench.serial_ops(less);
        let offset = (less * bench.hidden) as usize;
        let more = seq![
            GdnSerialOp::LoadRow { offset, values: bench.hidden },
            GdnSerialOp::Step { layer: bench.layer },
            GdnSerialOp::StoreRow { offset, values: bench.hidden },
        ];
        assert(bench.serial_ops(rows) =~= ops + more);
        crate::device::lemma_after_both(step, start, ops, more);
        crate::device::lemma_after_three(step, crate::device::after(step, start, ops), more);
        assert(taken =~= Seq::new(less, |row: int| row * bench.hidden).push(offset as int));
        assert(stored =~= Seq::new(less, |row: int| (row * bench.hidden, row * bench.hidden)).push(
            (offset as int, offset as int),
        ));
    } else {
        assert(bench.serial_ops(rows) =~= seq![]);
        assert(taken =~= seq![]);
        assert(stored =~= seq![]);
    }
}

/// Whether a cached row lies at its own position: its page and its place on that page make up the
/// position, which is that many rows behind the first one.
pub open spec fn in_place(bench: Qwen38QsaPrefillMicrobench, row: int, at: QsaRow) -> bool {
    &&& at.row == row
    &&& at.position == bench.start_position + row
    &&& at.page_offset < bench.page_tokens
    &&& at.page * bench.page_tokens + at.page_offset == at.position
}

/// Buffers of sparse attention on a prompt.
pub struct QsaDevice {
    /// Every operation so far found its input ready, and took all rows.
    pub sound: bool,
    /// Whether the rows were projected.
    pub prepared: bool,
    /// Rows that were attended with, in order.
    pub attended: Seq<QsaRow>,
    /// Whether the output was projected.
    pub finished: bool,
}

/// What the operations of a batched prompt do.
pub open spec fn batched_step(bench: Qwen38QsaPrefillMicrobench) -> spec_fn(
    QsaDevice,
    QsaBatchedOp,
) -> QsaDevice {
    |device: QsaDevice, op: QsaBatchedOp|
        match op {
            QsaBatchedOp::Prepare { tokens, position } => QsaDevice {
                sound: device.sound && !device.prepared && tokens == bench.tokens && position
                    == bench.start_position,
                prepared: true,
                ..device
            },
            QsaBatchedOp::Attend(run) => QsaDevice {
                sound: device.sound && device.prepared && !device.finished,
                attended: device.attended + crate::qwen38_flash_next::qsa_benchmark::run_rows(run),
                ..device
            },
            QsaBatchedOp::Finish { tokens } => QsaDevice {
                sound: device.sound && device.prepared && device.attended.len() == bench.tokens
                    && tokens == bench.tokens,
                finished: true,
                ..device
            },
        }
}

proof fn lemma_attended(
    bench: Qwen38QsaPrefillMicrobench,
    before: QsaDevice,
    runs: Seq<QsaRun>,
)
    requires
        before.sound && before.prepared && !before.finished,
        before.attended == Seq::<QsaRow>::empty(),
    ensures
        crate::device::after(
            batched_step(bench),
            before,
            runs.map_values(
                |run: QsaRun| QsaBatchedOp::Attend(run),
            ),
        ) == (QsaDevice {
            attended: crate::qwen38_flash_next::qsa_benchmark::flattened(runs),
            ..before
        }),
    decreases runs.len(),
{
    let ops = runs.map_values(
        |run: QsaRun| QsaBatchedOp::Attend(run),
    );
    if runs.len() > 0 {
        lemma_attended(bench, before, runs.drop_last());
        assert(ops.drop_last() =~= runs.drop_last().map_values(
            |run: QsaRun| QsaBatchedOp::Attend(run),
        ));
        assert(ops.last() == QsaBatchedOp::Attend(runs.last()));
    } else {
        assert(ops =~= seq![]);
    }
}

proof fn lemma_attend_work(runs: Seq<QsaRun>)
    ensures
        crate::qwen38_flash_next::benchmark::work(
            runs.map_values(
                |run: QsaRun|
                    Measured::Work(QsaBatchedOp::Attend(run)),
            ),
        ) == runs.map_values(
            |run: QsaRun| QsaBatchedOp::Attend(run),
        ),
    decreases runs.len(),
{
    let ops = runs.map_values(
        |run: QsaRun|
            Measured::Work(QsaBatchedOp::Attend(run)),
    );
    let plain = runs.map_values(
        |run: QsaRun| QsaBatchedOp::Attend(run),
    );
    if runs.len() > 0 {
        lemma_attend_work(runs.drop_last());
        assert(ops.drop_last() =~= runs.drop_last().map_values(
            |run: QsaRun|
                Measured::Work(QsaBatchedOp::Attend(run)),
        ));
        assert(plain =~= runs.drop_last().map_values(
            |run: QsaRun| QsaBatchedOp::Attend(run),
        ).push(QsaBatchedOp::Attend(runs.last())));
    } else {
        assert(plain =~= seq![]);
    }
}

/// A batched prompt runs as a whole, with events or without: every row is projected, attends once
/// and in order from its own place of the cache, and is projected back.
#[verifier::rlimit(40)]
pub proof fn law_batched_prompt_runs(bench: Qwen38QsaPrefillMicrobench, measured: bool)
    requires
        bench.well_formed(),
        bench.page_slots <= u32::MAX,
    ensures
        ({
            let device = crate::device::after(
                batched_step(bench),
                QsaDevice { sound: true, prepared: false, attended: seq![], finished: false },
                crate::qwen38_flash_next::benchmark::work(bench.batched_ops(measured)),
            );
            &&& device.sound
            &&& device.finished
            &&& device.attended.len() == bench.tokens
            &&& forall|row: int|
                0 <= row < bench.tokens ==> in_place(bench, row, #[trigger] device.attended[row])
        }),
{
    let runs = bench.runs_from(0);
    let step = batched_step(bench);
    let start = QsaDevice { sound: true, prepared: false, attended: seq![], finished: false };
    let e0 = crate::qwen38_flash_next::benchmark::event::<QsaBatchedOp>(measured, 0);
    let e1 = crate::qwen38_flash_next::benchmark::event::<QsaBatchedOp>(measured, 1);
    let e2 = crate::qwen38_flash_next::benchmark::event::<QsaBatchedOp>(measured, 2);
    let e3 = crate::qwen38_flash_next::benchmark::event::<QsaBatchedOp>(measured, 3);
    let prepare = QsaBatchedOp::Prepare { tokens: bench.tokens, position: bench.start_position };
    let finish = QsaBatchedOp::Finish { tokens: bench.tokens };
    let p = seq![Measured::Work(prepare)];
    let f = seq![Measured::Work(finish)];
    let attend = runs.map_values(
        |run: QsaRun|
            Measured::Work(QsaBatchedOp::Attend(run)),
    );
    let plain = runs.map_values(
        |run: QsaRun| QsaBatchedOp::Attend(run),
    );
    assert(bench.batched_ops(measured) == e0 + p + e1 + attend + e2 + f + e3);
    crate::qwen38_flash_next::benchmark::lemma_work_append(e0 + p + e1 + attend + e2 + f, e3);
    crate::qwen38_flash_next::benchmark::lemma_work_append(e0 + p + e1 + attend + e2, f);
    crate::qwen38_flash_next::benchmark::lemma_work_append(e0 + p + e1 + attend, e2);
    crate::qwen38_flash_next::benchmark::lemma_work_append(e0 + p + e1, attend);
    crate::qwen38_flash_next::benchmark::lemma_work_append(e0 + p, e1);
    crate::qwen38_flash_next::benchmark::lemma_work_append(e0, p);
    crate::qwen38_flash_next::benchmark::lemma_event_is_no_work::<QsaBatchedOp>(measured, 0);
    crate::qwen38_flash_next::benchmark::lemma_event_is_no_work::<QsaBatchedOp>(measured, 1);
    crate::qwen38_flash_next::benchmark::lemma_event_is_no_work::<QsaBatchedOp>(measured, 2);
    crate::qwen38_flash_next::benchmark::lemma_event_is_no_work::<QsaBatchedOp>(measured, 3);
    lemma_attend_work(runs);
    assert(p.drop_last() =~= seq![] && f.drop_last() =~= seq![]);
    reveal_with_fuel(crate::qwen38_flash_next::benchmark::work, 2);
    let ops = crate::qwen38_flash_next::benchmark::work(bench.batched_ops(measured));
    assert(ops =~= seq![prepare] + plain + seq![finish]);
    crate::device::lemma_after_both(step, start, seq![prepare] + plain, seq![finish]);
    crate::device::lemma_after_both(step, start, seq![prepare], plain);
    crate::device::lemma_after_one(step, start, seq![prepare]);
    let ready = step(start, prepare);
    lemma_attended(bench, ready, runs);
    crate::qwen38_flash_next::qsa_benchmark::law_batched_rows_are_the_serial_rows(bench);
    let attended = crate::device::after(step, ready, plain);
    crate::device::lemma_after_one(step, attended, seq![finish]);
    assert forall|row: int| 0 <= row < bench.tokens implies in_place(
        bench,
        row,
        #[trigger] attended.attended[row],
    ) by {
        lemma_in_place(bench, row);
    }
}

proof fn lemma_in_place(bench: Qwen38QsaPrefillMicrobench, row: int)
    requires
        bench.well_formed(),
        bench.page_slots <= u32::MAX,
        0 <= row < bench.tokens,
    ensures
        in_place(bench, row, bench.row_at(row)),
{
    let position = bench.start_position + row;
    let page = bench.page_tokens as int;
    vstd::arithmetic::div_mod::lemma_fundamental_div_mod(position, page);
    vstd::arithmetic::div_mod::lemma_mod_bound(position, page);
    bench.lemma_page_taken(position);
    assert(page * (position / page) == (position / page) * page) by (nonlinear_arith);
}

/// Buffers of a prompt that attends row by row.
pub struct QsaSerialDevice {
    /// Every operation so far found its input ready, and took a whole row.
    pub sound: bool,
    /// Input offset of the loaded row.
    pub loaded: Option<int>,
    /// Input offset of the row that attended last.
    pub result: Option<int>,
    /// Rows that attended, in order, each with the input offset that it came from.
    pub attended: Seq<(int, QsaRow)>,
    /// Stored rows: where each went, and the input offset that it came from.
    pub stored: Seq<(int, int)>,
}

/// What the operations of a prompt do that attends row by row.
pub open spec fn attending_step(bench: Qwen38QsaPrefillMicrobench) -> spec_fn(
    QsaSerialDevice,
    QsaSerialOp,
) -> QsaSerialDevice {
    |device: QsaSerialDevice, op: QsaSerialOp|
        match op {
            QsaSerialOp::LoadRow { offset, values } => QsaSerialDevice {
                sound: device.sound && values == bench.hidden,
                loaded: Some(offset as int),
                ..device
            },
            QsaSerialOp::Attend(row) => QsaSerialDevice {
                sound: device.sound && device.loaded is Some,
                loaded: None,
                result: device.loaded,
                attended: device.attended.push((device.loaded->0, row)),
                ..device
            },
            QsaSerialOp::StoreRow { offset, values } => QsaSerialDevice {
                sound: device.sound && values == bench.hidden && device.result is Some,
                result: None,
                stored: device.stored.push((offset as int, device.result->0)),
                ..device
            },
        }
}

/// Row by row, every row of a prompt attends once and in order from its own place of the cache,
/// and the result of each goes to the row that it came from.
#[verifier::rlimit(40)]
pub proof fn law_serial_rows_attend_in_order(bench: Qwen38QsaPrefillMicrobench, rows: nat)
    requires
        bench.well_formed(),
        bench.page_slots <= u32::MAX,
        rows <= bench.tokens,
        rows * bench.hidden <= usize::MAX,
    ensures
        ({
            let start = QsaSerialDevice {
                sound: true,
                loaded: None,
                result: None,
                attended: seq![],
                stored: seq![],
            };
            let device = crate::device::after(attending_step(bench), start, bench.serial_ops(rows));
            &&& device.sound
            &&& device.attended.len() == rows
            &&& forall|row: int|
                0 <= row < rows ==> {
                    &&& (#[trigger] device.attended[row]).0 == row * bench.hidden
                    &&& in_place(bench, row, device.attended[row].1)
                }
            &&& device.stored == Seq::new(
                rows,
                |row: int| (row * bench.hidden, row * bench.hidden),
            )
        }),
    decreases rows,
{
    let start = QsaSerialDevice {
        sound: true,
        loaded: None,
        result: None,
        attended: seq![],
        stored: seq![],
    };
    let stored = Seq::new(rows, |row: int| (row * bench.hidden, row * bench.hidden));
    if rows > 0 {
        let less = (rows - 1) as nat;
        assert(0 <= less * bench.hidden <= rows * bench.hidden) by (nonlinear_arith)
            requires
                less < rows,
        ;
        law_serial_rows_attend_in_order(bench, less);
        lemma_in_place(bench, less as int);
        let step = attending_step(bench);
        let ops = bench.serial_ops(less);
        let offset = (less * bench.hidden) as usize;
        let more = seq![
            QsaSerialOp::LoadRow { offset, values: bench.hidden },
            QsaSerialOp::Attend(bench.row_at(less as int)),
            QsaSerialOp::StoreRow { offset, values: bench.hidden },
        ];
        assert(bench.serial_ops(rows) =~= ops + more);
        crate::device::lemma_after_both(step, start, ops, more);
        crate::device::lemma_after_three(step, crate::device::after(step, start, ops), more);
        assert(stored =~= Seq::new(less, |row: int| (row * bench.hidden, row * bench.hidden)).push(
            (offset as int, offset as int),
        ));
    } else {
        assert(bench.serial_ops(rows) =~= seq![]);
        assert(stored =~= seq![]);
    }
}

/// Buffers of the comparison of rows on their own with rows of one call. A row is known by the
/// offset of its streams.
pub struct ExactDevice {
    /// Every operation so far found its inputs ready, and took whole rows.
    pub sound: bool,
    /// Loaded streams.
    pub streams: Option<int>,
    /// Row whose sublayer output was loaded, as the offset of its streams.
    pub block: Option<int>,
    /// Mixed row.
    pub mixed: Option<int>,
    /// Combined row.
    pub combined: Option<int>,
    /// Rows whose normalised streams were read.
    pub normed_read: Seq<int>,
    /// Rows whose sublayer input was read.
    pub mixed_read: Seq<int>,
    /// Rows whose injection strengths were read.
    pub strengths_read: Seq<int>,
    /// Stored rows: where each went, and where it came from.
    pub stored: Seq<(int, int)>,
    /// Whether all rows were mixed in one call.
    pub all_mixed: bool,
    /// Whether all rows were combined in one call.
    pub all_combined: bool,
    /// Compared buffers.
    pub compared: Set<ComparedBuffer>,
}

/// Buffers before the first row.
pub open spec fn unread() -> ExactDevice {
    ExactDevice {
        sound: true,
        streams: None,
        block: None,
        mixed: None,
        combined: None,
        normed_read: seq![],
        mixed_read: seq![],
        strengths_read: seq![],
        stored: seq![],
        all_mixed: false,
        all_combined: false,
        compared: set![],
    }
}

/// Values of one row of a buffer.
pub open spec fn row_values(bench: Qwen38HyperPrefillMicrobench, buffer: ComparedBuffer) -> int {
    let weights = bench.load.weights;
    match buffer {
        ComparedBuffer::Normed => weights.hidden * weights.hc_count,
        ComparedBuffer::Mixed => weights.hidden as int,
        ComparedBuffer::InjectLogits => weights.hc_count as int,
        ComparedBuffer::Combined => weights.hidden * weights.hc_count,
    }
}

impl ExactDevice {
    /// What one operation leaves.
    pub open spec fn performed(
        self,
        bench: Qwen38HyperPrefillMicrobench,
        op: ExactRowOp,
    ) -> ExactDevice {
        let hidden = bench.load.weights.hidden;
        let count = bench.load.weights.hc_count;
        match op {
            ExactRowOp::LoadStreams { offset, values } => ExactDevice {
                sound: self.sound && values == hidden * count,
                streams: Some(offset as int),
                block: None,
                mixed: None,
                combined: None,
                ..self
            },
            ExactRowOp::LoadBlock { offset, values } => ExactDevice {
                sound: self.sound && values == hidden,
                block: Some(offset * count),
                ..self
            },
            ExactRowOp::MixRow => ExactDevice {
                sound: self.sound && self.streams is Some,
                mixed: self.streams,
                ..self
            },
            ExactRowOp::ReadRow { buffer, values } => {
                let sound = self.sound && values == row_values(bench, buffer);
                match buffer {
                    ComparedBuffer::Normed => ExactDevice {
                        sound: sound && self.mixed is Some,
                        normed_read: self.normed_read.push(self.mixed->0),
                        ..self
                    },
                    ComparedBuffer::Mixed => ExactDevice {
                        sound: sound && self.mixed is Some,
                        mixed_read: self.mixed_read.push(self.mixed->0),
                        ..self
                    },
                    ComparedBuffer::InjectLogits => ExactDevice {
                        sound: sound && self.combined is Some,
                        strengths_read: self.strengths_read.push(self.combined->0),
                        ..self
                    },
                    ComparedBuffer::Combined => ExactDevice { sound: false, ..self },
                }
            },
            ExactRowOp::CombineRow => ExactDevice {
                sound: self.sound && self.mixed is Some && self.block == self.mixed,
                combined: self.mixed,
                ..self
            },
            ExactRowOp::StoreStreams { offset, values } => ExactDevice {
                sound: self.sound && self.combined is Some && values == hidden * count,
                stored: self.stored.push((offset as int, self.combined->0)),
                ..self
            },
            ExactRowOp::MixExactRows { tokens } => ExactDevice {
                sound: self.sound && tokens == bench.tokens,
                all_mixed: true,
                ..self
            },
            ExactRowOp::CombineExactRows { tokens } => ExactDevice {
                sound: self.sound && self.all_mixed && tokens == bench.tokens,
                all_combined: true,
                ..self
            },
            ExactRowOp::Compare { buffer, values } => ExactDevice {
                sound: self.sound && self.all_combined && values == bench.tokens * row_values(
                    bench,
                    buffer,
                ),
                compared: self.compared.insert(buffer),
                ..self
            },
        }
    }
}

/// What the operations of the comparison do.
pub open spec fn exact_step(bench: Qwen38HyperPrefillMicrobench) -> spec_fn(
    ExactDevice,
    ExactRowOp,
) -> ExactDevice {
    |device: ExactDevice, op: ExactRowOp| device.performed(bench, op)
}

/// Offsets of the streams of the first `rows` rows.
pub open spec fn stream_offsets(bench: Qwen38HyperPrefillMicrobench, rows: nat) -> Seq<int> {
    Seq::new(
        rows,
        |row: int| row * (bench.load.weights.hidden * bench.load.weights.hc_count),
    )
}

proof fn lemma_row_bounds(bench: Qwen38HyperPrefillMicrobench, row: int)
    requires
        bench.well_formed(),
        0 <= row <= bench.tokens,
    ensures
        ({
            let hidden = bench.load.weights.hidden;
            let count = bench.load.weights.hc_count;
            &&& 0 <= hidden * count <= usize::MAX
            &&& 0 <= row * (hidden * count) <= usize::MAX
            &&& 0 <= row * hidden <= usize::MAX
            &&& 0 <= row * count <= usize::MAX
            &&& (row * hidden) * count == row * (hidden * count)
        }),
{
    let hidden = bench.load.weights.hidden as int;
    let count = bench.load.weights.hc_count as int;
    let capacity = bench.serial.token_capacity as int;
    assert(0 <= hidden * count <= capacity * (hidden * count)) by (nonlinear_arith)
        requires
            0 <= hidden,
            0 <= count,
            1 <= capacity,
    ;
    assert(0 <= row * (hidden * count) <= capacity * (hidden * count) && 0 <= row * hidden
        <= capacity * hidden && 0 <= row * count <= capacity * count) by (nonlinear_arith)
        requires
            0 <= hidden,
            0 <= count,
            0 <= hidden * count,
            0 <= row <= capacity,
    ;
    assert((row * hidden) * count == row * (hidden * count)) by (nonlinear_arith);
}

#[verifier::rlimit(40)]
proof fn lemma_exact_row(bench: Qwen38HyperPrefillMicrobench, before: ExactDevice, row: int)
    requires
        bench.well_formed(),
        0 <= row < bench.tokens,
        before.sound,
    ensures
        ({
            let at = row * (bench.load.weights.hidden * bench.load.weights.hc_count);
            crate::device::after(exact_step(bench), before, bench.row_ops(row)) == (ExactDevice {
                streams: Some(at),
                block: Some(at),
                mixed: Some(at),
                combined: Some(at),
                normed_read: before.normed_read.push(at),
                mixed_read: before.mixed_read.push(at),
                strengths_read: before.strengths_read.push(at),
                stored: before.stored.push((at, at)),
                ..before
            })
        }),
{
    let step = exact_step(bench);
    let ops = bench.row_ops(row);
    let at = row * (bench.load.weights.hidden * bench.load.weights.hc_count);
    lemma_row_bounds(bench, row);
    crate::device::lemma_after_eight(step, before, ops);
    let d1 = before.performed(bench, ops[0]);
    assert(d1 == ExactDevice {
        streams: Some(at),
        block: None,
        mixed: None,
        combined: None,
        ..before
    });
    let d2 = d1.performed(bench, ops[1]);
    assert(d2 == ExactDevice { block: Some(at), ..d1 });
    let d3 = d2.performed(bench, ops[2]);
    assert(d3 == ExactDevice { mixed: Some(at), ..d2 });
    let d4 = d3.performed(bench, ops[3]);
    assert(d4 == ExactDevice { normed_read: before.normed_read.push(at), ..d3 });
    let d5 = d4.performed(bench, ops[4]);
    assert(d5 == ExactDevice { mixed_read: before.mixed_read.push(at), ..d4 });
    let d6 = d5.performed(bench, ops[5]);
    assert(d6 == ExactDevice { combined: Some(at), ..d5 });
    let d7 = d6.performed(bench, ops[6]);
    assert(d7 == ExactDevice { strengths_read: before.strengths_read.push(at), ..d6 });
}

#[verifier::rlimit(40)]
proof fn lemma_exact_rows(bench: Qwen38HyperPrefillMicrobench, rows: nat)
    requires
        bench.well_formed(),
        rows <= bench.tokens,
    ensures
        ({
            let device = crate::device::after(exact_step(bench), unread(), bench.rows_ops(rows));
            let offsets = stream_offsets(bench, rows);
            &&& device.sound
            &&& device.normed_read == offsets
            &&& device.mixed_read == offsets
            &&& device.strengths_read == offsets
            &&& device.stored == offsets.map_values(|at: int| (at, at))
            &&& !device.all_mixed && !device.all_combined
            &&& device.compared == Set::<ComparedBuffer>::empty()
        }),
    decreases rows,
{
    let offsets = stream_offsets(bench, rows);
    let step = exact_step(bench);
    if rows > 0 {
        let less = (rows - 1) as nat;
        lemma_exact_rows(bench, less);
        crate::device::lemma_after_both(
            step,
            unread(),
            bench.rows_ops(less),
            bench.row_ops(less as int),
        );
        lemma_exact_row(
            bench,
            crate::device::after(step, unread(), bench.rows_ops(less)),
            less as int,
        );
        let at = less * (bench.load.weights.hidden * bench.load.weights.hc_count);
        assert(offsets =~= stream_offsets(bench, less).push(at));
        assert(offsets.map_values(|at: int| (at, at)) =~= stream_offsets(bench, less).map_values(
            |at: int| (at, at),
        ).push((at, at)));
    } else {
        assert(bench.rows_ops(rows) =~= seq![]);
        assert(offsets =~= seq![]);
        assert(offsets.map_values(|at: int| (at, at)) =~= seq![]);
    }
}

/// The comparison runs as a whole: every row runs on its own with its own streams and its own
/// sublayer output, everything that it leaves is read in order and stored at its row, and the
/// whole of each of these buffers is compared with what one call for all rows leaves.
#[verifier::rlimit(40)]
pub proof fn law_exact_rows_are_all_compared(bench: Qwen38HyperPrefillMicrobench)
    requires
        bench.well_formed(),
    ensures
        ({
            let device = crate::device::after(
                exact_step(bench),
                unread(),
                bench.rows_ops(bench.tokens as nat) + bench.compare_ops(),
            );
            let offsets = stream_offsets(bench, bench.tokens as nat);
            &&& device.sound
            &&& device.normed_read == offsets
            &&& device.mixed_read == offsets
            &&& device.strengths_read == offsets
            &&& device.stored == offsets.map_values(|at: int| (at, at))
            &&& device.all_combined
            &&& forall|buffer: ComparedBuffer| #[trigger] device.compared.contains(buffer)
        }),
{
    let step = exact_step(bench);
    let rows = bench.rows_ops(bench.tokens as nat);
    let all = bench.compare_ops();
    lemma_exact_rows(bench, bench.tokens as nat);
    crate::device::lemma_after_both(step, unread(), rows, all);
    let before = crate::device::after(step, unread(), rows);
    lemma_row_bounds(bench, bench.tokens as int);
    crate::device::lemma_after_six(step, before, all);
    let d1 = before.performed(bench, all[0]);
    assert(d1 == ExactDevice { all_mixed: true, ..before });
    let d2 = d1.performed(bench, all[1]);
    assert(d2 == ExactDevice { all_combined: true, ..d1 });
    let d3 = d2.performed(bench, all[2]);
    assert(d3 == ExactDevice { compared: d2.compared.insert(ComparedBuffer::Normed), ..d2 });
    let d4 = d3.performed(bench, all[3]);
    assert(d4 == ExactDevice { compared: d3.compared.insert(ComparedBuffer::Mixed), ..d3 });
    let d5 = d4.performed(bench, all[4]);
    assert(d5 == ExactDevice { compared: d4.compared.insert(ComparedBuffer::InjectLogits), ..d4 });
    let d6 = d5.performed(bench, all[5]);
    assert(d6 == ExactDevice { compared: d5.compared.insert(ComparedBuffer::Combined), ..d5 });
    assert forall|buffer: ComparedBuffer| #[trigger] d6.compared.contains(buffer) by {
        match buffer {
            ComparedBuffer::Normed => {},
            ComparedBuffer::Mixed => {},
            ComparedBuffer::InjectLogits => {},
            ComparedBuffer::Combined => {},
        }
    }
}

} // verus!
