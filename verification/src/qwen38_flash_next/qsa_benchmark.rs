//! Measurement of sparse-attention prompts: one layer, run row by row and run in batches.

use crate::manifest::{first_kind, QwenLayerKind};
use crate::qwen38_flash_next::benchmark::{push_event, BenchError, Measured};
use crate::qwen38_flash_next::config::Qwen38FlashNextConfig;
use crate::qwen38_flash_next::model::linear_layers;
use vstd::prelude::*;

verus! {

/// One sparse-attention layer with independent serial and batched state.
pub struct Qwen38QsaPrefillMicrobench {
    /// The layer.
    pub layer: usize,
    /// Prompt rows.
    pub tokens: usize,
    /// Position of the first row.
    pub start_position: usize,
    /// Tokens of a page.
    pub page_tokens: usize,
    /// Pages that the prompt and its history take.
    pub page_slots: u32,
    /// Page of each logical page, zero where none is taken.
    pub page_table: Vec<u32>,
    /// Positions that attend to everything before them.
    pub indexer_budget: usize,
    /// Width of a row.
    pub hidden: usize,
    /// Which layers are recurrent.
    pub linear_layers: Vec<bool>,
    /// Which layers have cache pages.
    pub pool_layers: Vec<bool>,
}

/// A prompt row that attends on its own.
#[derive(Clone, Copy, Debug, PartialEq, Eq, Structural)]
pub struct QsaRow {
    /// Page that the row is appended to.
    pub page: u32,
    /// Offset in that page.
    pub page_offset: usize,
    /// Row of the prompt.
    pub row: usize,
    /// Position in the sequence.
    pub position: usize,
}

/// Prompt rows of one page that attend together.
#[derive(Clone, Copy, Debug, PartialEq, Eq, Structural)]
pub struct QsaRun {
    /// Whether the rows attend to everything before them.
    pub dense: bool,
    /// Page that the rows are appended to.
    pub page: u32,
    /// Offset of the first row in that page.
    pub page_offset: usize,
    /// First row of the prompt.
    pub row: usize,
    /// Number of rows.
    pub rows: usize,
    /// Position of the first row.
    pub position: usize,
}

/// One operation of a row-by-row prompt.
#[derive(Clone, Copy, Debug, PartialEq, Eq, Structural)]
pub enum QsaSerialOp {
    /// Copies one row of the input.
    LoadRow { offset: usize, values: usize },
    /// Attends with that row.
    Attend(QsaRow),
    /// Copies the result to its row of the output.
    StoreRow { offset: usize, values: usize },
}

/// One operation of a batched prompt.
#[derive(Clone, Copy, Debug, PartialEq, Eq, Structural)]
pub enum QsaBatchedOp {
    /// Projects all rows.
    Prepare { tokens: usize, position: usize },
    /// Attends with some rows.
    Attend(QsaRun),
    /// Projects all results.
    Finish { tokens: usize },
}

/// Place of a position of the history.
#[derive(Clone, Copy, Debug, PartialEq, Eq, Structural)]
pub struct HistoryRow {
    /// Page.
    pub slot: usize,
    /// Offset in that page.
    pub page_offset: usize,
}

/// Smaller of two numbers.
pub open spec fn least(left: int, right: int) -> int {
    if left < right {
        left
    } else {
        right
    }
}

/// Places of the history before a prompt.
pub open spec fn history_rows(tokens: nat, page_tokens: int) -> Seq<HistoryRow> {
    Seq::new(
        tokens,
        |position: int|
            HistoryRow {
                slot: (position / page_tokens) as usize,
                page_offset: (position % page_tokens) as usize,
            },
    )
}

/// Plans the history before a prompt: every position in the page that its index falls into.
pub fn populate_qsa_history(tokens: usize, page_tokens: usize) -> (rows: Vec<HistoryRow>)
    requires
        page_tokens > 0,
    ensures
        rows@ == history_rows(tokens as nat, page_tokens as int),
{
    let mut rows: Vec<HistoryRow> = Vec::new();
    let mut position: usize = 0;
    while position < tokens
        invariant
            position <= tokens,
            page_tokens > 0,
            rows@ == history_rows(position as nat, page_tokens as int),
        decreases tokens - position,
    {
        rows.push(
            HistoryRow {
                slot: position / page_tokens,
                page_offset: position % page_tokens,
            },
        );
        position += 1;
        assert(rows@ =~= history_rows(position as nat, page_tokens as int));
    }
    rows
}

/// Whether a prompt is a non-empty range of a page-aligned context, starting at a page.
pub open spec fn range_accepted(
    tokens: usize,
    start_position: usize,
    max_context_tokens: usize,
    page_tokens: usize,
) -> bool {
    &&& tokens > 0
    &&& start_position + tokens <= max_context_tokens
    &&& start_position as int % page_tokens as int == 0
    &&& max_context_tokens as int % page_tokens as int == 0
}

/// Pages that hold a number of tokens.
pub open spec fn pages_for(tokens: int, page_tokens: int) -> int {
    if tokens % page_tokens == 0 {
        tokens / page_tokens
    } else {
        tokens / page_tokens + 1
    }
}

fn count_pages(tokens: usize, page_tokens: usize) -> (pages: usize)
    requires
        page_tokens > 0,
    ensures
        pages == pages_for(tokens as int, page_tokens as int),
{
    let full: usize = tokens / page_tokens;
    if tokens % page_tokens == 0 {
        full
    } else {
        proof {
            vstd::arithmetic::div_mod::lemma_fundamental_div_mod(
                tokens as int,
                page_tokens as int,
            );
            assert(full <= page_tokens * full) by (nonlinear_arith)
                requires
                    page_tokens > 0,
                    full >= 0,
            ;
        }
        full + 1
    }
}

/// Page table that takes its first pages in order.
pub open spec fn table_of(pages: nat, taken: int) -> Seq<u32> {
    Seq::new(
        pages,
        |slot: int|
            if slot < taken {
                slot as u32
            } else {
                0u32
            },
    )
}

fn page_table(pages: usize, taken: u32) -> (table: Vec<u32>)
    ensures
        table@ == table_of(pages as nat, taken as int),
{
    let mut table: Vec<u32> = Vec::new();
    let mut next: u32 = 0;
    let mut slot: usize = 0;
    while slot < pages
        invariant
            slot <= pages,
            next <= taken,
            next == least(slot as int, taken as int),
            table@ == table_of(slot as nat, taken as int),
        decreases pages - slot,
    {
        if next < taken {
            table.push(next);
            next += 1;
        } else {
            table.push(0);
        }
        slot += 1;
        assert(table@ =~= table_of(slot as nat, taken as int));
    }
    table
}

fn only_layer(layers: usize, layer: usize) -> (mask: Vec<bool>)
    ensures
        mask@ == Seq::new(layers as nat, |candidate: int| candidate == layer),
{
    let mut mask: Vec<bool> = Vec::new();
    let mut candidate: usize = 0;
    while candidate < layers
        invariant
            candidate <= layers,
            mask@ == Seq::new(candidate as nat, |candidate: int| candidate == layer),
        decreases layers - candidate,
    {
        mask.push(candidate == layer);
        candidate += 1;
        assert(mask@ =~= Seq::new(candidate as nat, |candidate: int| candidate == layer));
    }
    mask
}

/// Index of the first sparse-attention layer.
pub open spec fn is_first_sparse(config: Qwen38FlashNextConfig, layer: int) -> bool {
    &&& 0 <= layer < config.layer_types@.len()
    &&& config.layer_types@[layer].kind() == QwenLayerKind::FullAttention
    &&& forall|i: int|
        0 <= i < layer ==> (#[trigger] config.layer_types@[i]).kind()
            != QwenLayerKind::FullAttention
}

impl Qwen38QsaPrefillMicrobench {
    /// Plans a prompt of one page.
    pub fn open(config: &Qwen38FlashNextConfig, tokens: usize, page_tokens: usize) -> (result:
        Result<Self, BenchError>)
        requires
            page_tokens > 0,
        ensures
            opened(*config, tokens, 0, page_tokens, page_tokens, result),
    {
        Self::open_with_context(config, tokens, 0, page_tokens, page_tokens)
    }

    /// Plans a prompt at the start of a context.
    pub fn open_with_max_context(
        config: &Qwen38FlashNextConfig,
        tokens: usize,
        max_context_tokens: usize,
        page_tokens: usize,
    ) -> (result: Result<Self, BenchError>)
        requires
            page_tokens > 0,
        ensures
            opened(*config, tokens, 0, max_context_tokens, page_tokens, result),
    {
        Self::open_with_context(config, tokens, 0, max_context_tokens, page_tokens)
    }

    /// Plans a prompt at a position of a context.
    pub fn open_with_context(
        config: &Qwen38FlashNextConfig,
        tokens: usize,
        start_position: usize,
        max_context_tokens: usize,
        page_tokens: usize,
    ) -> (result: Result<Self, BenchError>)
        requires
            page_tokens > 0,
        ensures
            opened(*config, tokens, start_position, max_context_tokens, page_tokens, result),
    {
        let in_context = match start_position.checked_add(tokens) {
            Some(end) => end <= max_context_tokens,
            None => false,
        };
        if tokens == 0 || !in_context || start_position % page_tokens != 0 || max_context_tokens
            % page_tokens != 0 {
            return Err(
                BenchError::Range { tokens, start_position, max_context_tokens },
            );
        }
        let manifest = config.qwen_manifest();
        let layer: usize = match first_kind(&manifest.layer_kinds, QwenLayerKind::FullAttention) {
            Some(layer) => {
                assert forall|i: int| 0 <= i < layer implies (
                #[trigger] config.layer_types@[i]).kind() != QwenLayerKind::FullAttention by {
                    assert(manifest.layer_kinds@[i] == config.layer_types@[i].kind());
                }
                layer
            },
            None => {
                assert forall|i: int| !is_first_sparse(*config, i) by {
                    if 0 <= i < config.layer_types@.len() {
                        assert(manifest.layer_kinds@[i] == config.layer_types@[i].kind());
                    }
                }
                return Err(BenchError::NoSparseLayer);
            },
        };
        assert(is_first_sparse(*config, layer as int));
        let slots: usize = count_pages(start_position + tokens, page_tokens);
        if slots > u32::MAX as usize {
            return Err(BenchError::Pages { pages: slots });
        }
        let page_slots: u32 = slots as u32;
        let linear = linear_layers(&manifest.layer_kinds);
        assert(linear@ =~= Seq::new(
            config.layer_types@.len(),
            |i: int| config.layer_types@[i].kind() == QwenLayerKind::LinearAttention,
        ));
        Ok(
            Qwen38QsaPrefillMicrobench {
                layer,
                tokens,
                start_position,
                page_tokens,
                page_slots,
                page_table: page_table(max_context_tokens / page_tokens, page_slots),
                indexer_budget: config.indexer_budget,
                hidden: config.hidden,
                linear_layers: linear,
                pool_layers: only_layer(manifest.layers, layer),
            },
        )
    }
}

/// What opening a prompt gives.
pub open spec fn opened(
    config: Qwen38FlashNextConfig,
    tokens: usize,
    start_position: usize,
    max_context_tokens: usize,
    page_tokens: usize,
    result: Result<Qwen38QsaPrefillMicrobench, BenchError>,
) -> bool {
    let pages = pages_for(start_position + tokens, page_tokens as int);
    match result {
        Ok(bench) => {
            &&& range_accepted(tokens, start_position, max_context_tokens, page_tokens)
            &&& is_first_sparse(config, bench.layer as int)
            &&& bench.tokens == tokens
            &&& bench.start_position == start_position
            &&& bench.page_tokens == page_tokens
            &&& bench.page_slots == pages
            &&& bench.page_table@ == table_of(
                (max_context_tokens as int / page_tokens as int) as nat,
                pages,
            )
            &&& bench.indexer_budget == config.indexer_budget
            &&& bench.hidden == config.hidden
            &&& bench.linear_layers@ == Seq::new(
                config.layer_types@.len(),
                |i: int| config.layer_types@[i].kind() == QwenLayerKind::LinearAttention,
            )
            &&& bench.pool_layers@ == Seq::new(
                config.layers as nat,
                |candidate: int| candidate == bench.layer,
            )
        },
        Err(error) => if !range_accepted(tokens, start_position, max_context_tokens, page_tokens) {
            error == (BenchError::Range { tokens, start_position, max_context_tokens })
        } else if forall|layer: int| !is_first_sparse(config, layer) {
            error == BenchError::NoSparseLayer
        } else {
            &&& pages > u32::MAX
            &&& error == (BenchError::Pages { pages: pages as usize })
        },
    }
}

impl Qwen38QsaPrefillMicrobench {
    /// Whether the prompt lies on the pages that were taken for it.
    pub open spec fn well_formed(self) -> bool {
        &&& self.page_tokens > 0
        &&& self.start_position + self.tokens <= usize::MAX
        &&& self.page_slots == pages_for(
            self.start_position + self.tokens,
            self.page_tokens as int,
        )
    }

    /// Place of a prompt row.
    pub open spec fn row_at(self, row: int) -> QsaRow {
        let position = self.start_position + row;
        QsaRow {
            page: (position / self.page_tokens as int) as u32,
            page_offset: (position % self.page_tokens as int) as usize,
            row: row as usize,
            position: position as usize,
        }
    }

    /// Operations of the first `rows` rows, one by one.
    pub open spec fn serial_ops(self, rows: nat) -> Seq<QsaSerialOp>
        decreases rows,
    {
        if rows == 0 {
            Seq::empty()
        } else {
            let offset = ((rows - 1) * self.hidden) as usize;
            self.serial_ops((rows - 1) as nat) + seq![
                QsaSerialOp::LoadRow { offset, values: self.hidden },
                QsaSerialOp::Attend(self.row_at(rows - 1)),
                QsaSerialOp::StoreRow { offset, values: self.hidden },
            ]
        }
    }

    /// Pages of prompt positions are among those that were taken.
    pub proof fn lemma_page_taken(self, position: int)
        requires
            self.well_formed(),
            0 <= position < self.start_position + self.tokens,
        ensures
            0 <= position / self.page_tokens as int,
            position / (self.page_tokens as int) < self.page_slots,
    {
        let end = self.start_position + self.tokens;
        let page = self.page_tokens as int;
        vstd::arithmetic::div_mod::lemma_fundamental_div_mod(position, page);
        vstd::arithmetic::div_mod::lemma_fundamental_div_mod(end, page);
        let full = end / page;
        let slot = position / page;
        assert(slot >= 0) by (nonlinear_arith)
            requires
                slot == position / page,
                position >= 0,
                page > 0,
        ;
        if slot >= full + 1 || (slot == full && end % page == 0) {
            assert(page * slot >= page * full + (if slot == full {
                0int
            } else {
                page
            })) by (nonlinear_arith)
                requires
                    page > 0,
                    slot == full || slot >= full + 1,
            ;
            assert(false);
        }
    }

    /// Plans the prompt row by row.
    pub fn enqueue_serial(&self) -> (ops: Vec<QsaSerialOp>)
        requires
            self.well_formed(),
            self.tokens * self.hidden <= usize::MAX,
        ensures
            ops@ == self.serial_ops(self.tokens as nat),
    {
        let mut ops: Vec<QsaSerialOp> = Vec::new();
        let mut row: usize = 0;
        while row < self.tokens
            invariant
                row <= self.tokens,
                self.well_formed(),
                self.tokens * self.hidden <= usize::MAX,
                ops@ == self.serial_ops(row as nat),
            decreases self.tokens - row,
        {
            let position: usize = self.start_position + row;
            proof {
                self.lemma_page_taken(position as int);
            }
            assert(row * self.hidden <= self.tokens * self.hidden) by (nonlinear_arith)
                requires
                    row <= self.tokens,
            ;
            let offset: usize = row * self.hidden;
            let ghost before = ops@;
            ops.push(QsaSerialOp::LoadRow { offset, values: self.hidden });
            ops.push(
                QsaSerialOp::Attend(
                    QsaRow {
                        page: (position / self.page_tokens) as u32,
                        page_offset: position % self.page_tokens,
                        row,
                        position,
                    },
                ),
            );
            ops.push(QsaSerialOp::StoreRow { offset, values: self.hidden });
            row += 1;
            assert(ops@ =~= self.serial_ops(row as nat));
        }
        ops
    }

    /// Rows from `row` on that lie on the same page.
    pub open spec fn page_rows(self, row: int) -> int {
        least(
            self.tokens - row,
            self.page_tokens - (self.start_position + row) % self.page_tokens as int,
        )
    }

    /// Rows from `row` on that lie on the same page and attend to everything before them.
    pub open spec fn dense_rows(self, row: int) -> int {
        let position = self.start_position + row;
        least(
            if self.indexer_budget > position {
                self.indexer_budget - position
            } else {
                0
            },
            self.page_rows(row),
        )
    }

    /// Runs of the page that row `row` lies on, from that row on.
    pub open spec fn runs_of_page(self, row: int) -> Seq<QsaRun> {
        let first = self.row_at(row);
        let dense = self.dense_rows(row);
        let sparse = self.page_rows(row) - dense;
        (if dense != 0 {
            seq![
                QsaRun {
                    dense: true,
                    page: first.page,
                    page_offset: first.page_offset,
                    row: first.row,
                    rows: dense as usize,
                    position: first.position,
                },
            ]
        } else {
            Seq::<QsaRun>::empty()
        }) + (if sparse != 0 {
            seq![
                QsaRun {
                    dense: false,
                    page: first.page,
                    page_offset: (first.page_offset + dense) as usize,
                    row: (row + dense) as usize,
                    rows: sparse as usize,
                    position: (first.position + dense) as usize,
                },
            ]
        } else {
            Seq::<QsaRun>::empty()
        })
    }

    /// Runs from row `row` on.
    pub open spec fn runs_from(self, row: int) -> Seq<QsaRun>
        decreases self.tokens - row,
    {
        if row < 0 || row >= self.tokens || self.page_rows(row) <= 0 {
            Seq::empty()
        } else {
            self.runs_of_page(row) + self.runs_from(row + self.page_rows(row))
        }
    }

    fn push_page(&self, runs: &mut Vec<QsaRun>, row: usize) -> (rows: usize)
        requires
            self.well_formed(),
            row < self.tokens,
        ensures
            rows == self.page_rows(row as int),
            0 < rows <= self.tokens - row,
            final(runs)@ == old(runs)@ + self.runs_of_page(row as int),
    {
        let position: usize = self.start_position + row;
        proof {
            self.lemma_page_taken(position as int);
            vstd::arithmetic::div_mod::lemma_mod_bound(position as int, self.page_tokens as int);
        }
        let page: u32 = (position / self.page_tokens) as u32;
        let page_offset: usize = position % self.page_tokens;
        let room: usize = self.page_tokens - page_offset;
        let left: usize = self.tokens - row;
        let page_rows: usize = if left < room {
            left
        } else {
            room
        };
        let budget: usize = if self.indexer_budget > position {
            self.indexer_budget - position
        } else {
            0
        };
        let dense_rows: usize = if budget < page_rows {
            budget
        } else {
            page_rows
        };
        if dense_rows != 0 {
            runs.push(
                QsaRun { dense: true, page, page_offset, row, rows: dense_rows, position },
            );
        }
        let sparse_rows: usize = page_rows - dense_rows;
        if sparse_rows != 0 {
            runs.push(
                QsaRun {
                    dense: false,
                    page,
                    page_offset: page_offset + dense_rows,
                    row: row + dense_rows,
                    rows: sparse_rows,
                    position: position + dense_rows,
                },
            );
        }
        assert(runs@ =~= old(runs)@ + self.runs_of_page(row as int));
        page_rows
    }

    /// Splits the prompt into runs of rows that attend together.
    pub fn batched_runs(&self) -> (runs: Vec<QsaRun>)
        requires
            self.well_formed(),
        ensures
            runs@ == self.runs_from(0),
    {
        let mut runs: Vec<QsaRun> = Vec::new();
        let mut row: usize = 0;
        assert(runs@ + self.runs_from(0) =~= self.runs_from(0));
        while row < self.tokens
            invariant
                row <= self.tokens,
                self.well_formed(),
                runs@ + self.runs_from(row as int) == self.runs_from(0),
            decreases self.tokens - row,
        {
            let ghost before = runs@;
            let ghost first = row as int;
            let rows: usize = self.push_page(&mut runs, row);
            row += rows;
            assert(runs@ + self.runs_from(row as int) =~= before + self.runs_from(first));
        }
        assert(runs@ + self.runs_from(row as int) =~= runs@);
        runs
    }

    /// Operations of the batched prompt, with or without events between its stages.
    pub open spec fn batched_ops(self, measured: bool) -> Seq<Measured<QsaBatchedOp>> {
        let attend = self.runs_from(0).map_values(
            |run: QsaRun| Measured::Work(QsaBatchedOp::Attend(run)),
        );
        crate::qwen38_flash_next::benchmark::event::<QsaBatchedOp>(measured, 0) + seq![
            Measured::Work(
                QsaBatchedOp::Prepare { tokens: self.tokens, position: self.start_position },
            ),
        ] + crate::qwen38_flash_next::benchmark::event::<QsaBatchedOp>(measured, 1) + attend
            + crate::qwen38_flash_next::benchmark::event::<QsaBatchedOp>(measured, 2) + seq![
            Measured::Work(QsaBatchedOp::Finish { tokens: self.tokens }),
        ] + crate::qwen38_flash_next::benchmark::event::<QsaBatchedOp>(measured, 3)
    }

    /// Plans the batched prompt, with or without events between its stages.
    pub fn enqueue_batched_with_events(&self, measured: bool) -> (ops: Vec<Measured<QsaBatchedOp>>)
        requires
            self.well_formed(),
        ensures
            ops@ == self.batched_ops(measured),
    {
        let runs = self.batched_runs();
        let mut ops: Vec<Measured<QsaBatchedOp>> = Vec::new();
        push_event(&mut ops, measured, 0);
        ops.push(
            Measured::Work(
                QsaBatchedOp::Prepare { tokens: self.tokens, position: self.start_position },
            ),
        );
        push_event(&mut ops, measured, 1);
        let ghost prepared = ops@;
        let mut i: usize = 0;
        while i < runs.len()
            invariant
                i <= runs@.len(),
                ops@ == prepared + runs@.take(i as int).map_values(
                    |run: QsaRun| Measured::Work(QsaBatchedOp::Attend(run)),
                ),
            decreases runs@.len() - i,
        {
            ops.push(Measured::Work(QsaBatchedOp::Attend(runs[i])));
            i += 1;
            assert(ops@ =~= prepared + runs@.take(i as int).map_values(
                |run: QsaRun| Measured::Work(QsaBatchedOp::Attend(run)),
            ));
        }
        assert(runs@.take(i as int) =~= runs@);
        push_event(&mut ops, measured, 2);
        ops.push(Measured::Work(QsaBatchedOp::Finish { tokens: self.tokens }));
        push_event(&mut ops, measured, 3);
        assert(ops@ =~= self.batched_ops(measured));
        ops
    }

    /// Plans the batched prompt.
    pub fn enqueue_batched(&self) -> (ops: Vec<Measured<QsaBatchedOp>>)
        requires
            self.well_formed(),
        ensures
            ops@ == self.batched_ops(false),
    {
        self.enqueue_batched_with_events(false)
    }

    /// Plans the batched prompt with events between its stages.
    pub fn profile(&self) -> (ops: Vec<Measured<QsaBatchedOp>>)
        requires
            self.well_formed(),
        ensures
            ops@ == self.batched_ops(true),
    {
        self.enqueue_batched_with_events(true)
    }
}

/// Rows of a run, one by one.
pub open spec fn run_rows(run: QsaRun) -> Seq<QsaRow> {
    Seq::new(
        run.rows as nat,
        |i: int|
            QsaRow {
                page: run.page,
                page_offset: (run.page_offset + i) as usize,
                row: (run.row + i) as usize,
                position: (run.position + i) as usize,
            },
    )
}

/// Rows of some runs, one by one.
pub open spec fn flattened(runs: Seq<QsaRun>) -> Seq<QsaRow>
    decreases runs.len(),
{
    if runs.len() == 0 {
        Seq::empty()
    } else {
        flattened(runs.drop_last()) + run_rows(runs.last())
    }
}

proof fn lemma_flattened_append(left: Seq<QsaRun>, right: Seq<QsaRun>)
    ensures
        flattened(left + right) == flattened(left) + flattened(right),
    decreases right.len(),
{
    if right.len() == 0 {
        assert(left + right =~= left);
        assert(flattened(left) + flattened(right) =~= flattened(left));
    } else {
        assert((left + right).drop_last() =~= left + right.drop_last());
        lemma_flattened_append(left, right.drop_last());
        assert(flattened(left + right) =~= flattened(left) + flattened(right));
    }
}

proof fn lemma_page_of_row(bench: Qwen38QsaPrefillMicrobench, row: int, offset: int)
    requires
        bench.well_formed(),
        0 <= row < bench.tokens,
        0 <= offset < bench.page_rows(row),
    ensures
        (bench.start_position + row + offset) / bench.page_tokens as int == (bench.start_position
            + row) / bench.page_tokens as int,
        (bench.start_position + row + offset) % bench.page_tokens as int == (bench.start_position
            + row) % bench.page_tokens as int + offset,
{
    let page = bench.page_tokens as int;
    let position = bench.start_position + row;
    vstd::arithmetic::div_mod::lemma_fundamental_div_mod(position, page);
    let quotient = position / page;
    assert(quotient * page == page * quotient) by (nonlinear_arith);
    vstd::arithmetic::div_mod::lemma_fundamental_div_mod_converse(
        position + offset,
        page,
        quotient,
        position % page + offset,
    );
}

proof fn lemma_page_runs(bench: Qwen38QsaPrefillMicrobench, row: int)
    requires
        bench.well_formed(),
        0 <= row < bench.tokens,
    ensures
        bench.page_rows(row) > 0,
        flattened(bench.runs_of_page(row)) == Seq::new(
            bench.page_rows(row) as nat,
            |i: int| bench.row_at(row + i),
        ),
{
    let page = bench.page_tokens as int;
    vstd::arithmetic::div_mod::lemma_mod_bound(bench.start_position + row, page);
    let runs = bench.runs_of_page(row);
    let dense = bench.dense_rows(row);
    let rows = Seq::new(bench.page_rows(row) as nat, |i: int| bench.row_at(row + i));
    assert forall|i: int| 0 <= i < bench.page_rows(row) implies {
        let first = bench.row_at(row);
        #[trigger] bench.row_at(row + i) == (QsaRow {
            page: first.page,
            page_offset: (first.page_offset + i) as usize,
            row: (first.row + i) as usize,
            position: (first.position + i) as usize,
        })
    } by {
        lemma_page_of_row(bench, row, i);
        assert(bench.start_position + (row + i) == bench.start_position + row + i);
    }
    reveal_with_fuel(flattened, 3);
    if dense == 0 || dense == bench.page_rows(row) {
        assert(runs.len() == 1);
        assert(runs.drop_last() =~= Seq::empty());
        assert(flattened(runs) =~= run_rows(runs[0]));
        assert(flattened(runs) =~= rows);
    } else {
        assert(runs.len() == 2);
        assert(runs.drop_last() =~= seq![runs[0]]);
        assert(seq![runs[0]].drop_last() =~= Seq::empty());
        assert(flattened(runs) =~= run_rows(runs[0]) + run_rows(runs[1]));
        assert forall|i: int| 0 <= i < rows.len() implies flattened(runs)[i] == rows[i] by {
            assert(rows[i] == bench.row_at(row + i));
            if i >= dense {
                assert(flattened(runs)[i] == run_rows(runs[1])[i - dense]);
            }
        }
        assert(flattened(runs) =~= rows);
    }
}

proof fn lemma_runs_are_rows(bench: Qwen38QsaPrefillMicrobench, row: int)
    requires
        bench.well_formed(),
        0 <= row <= bench.tokens,
    ensures
        flattened(bench.runs_from(row)) == Seq::new(
            (bench.tokens - row) as nat,
            |i: int| bench.row_at(row + i),
        ),
    decreases bench.tokens - row,
{
    if row < bench.tokens {
        lemma_page_runs(bench, row);
        let next = row + bench.page_rows(row);
        lemma_runs_are_rows(bench, next);
        lemma_flattened_append(bench.runs_of_page(row), bench.runs_from(next));
        assert(flattened(bench.runs_from(row)) =~= Seq::new(
            (bench.tokens - row) as nat,
            |i: int| bench.row_at(row + i),
        ));
    } else {
        assert(flattened(bench.runs_from(row)) =~= Seq::new(
            (bench.tokens - row) as nat,
            |i: int| bench.row_at(row + i),
        ));
    }
}

/// The batched prompt attends with the same rows as the row-by-row prompt: every row once, in
/// order, and at the same place of the cache.
pub proof fn law_batched_rows_are_the_serial_rows(bench: Qwen38QsaPrefillMicrobench)
    requires
        bench.well_formed(),
    ensures
        flattened(bench.runs_from(0)) == Seq::new(
            bench.tokens as nat,
            |row: int| bench.row_at(row),
        ),
        bench.serial_ops(bench.tokens as nat).len() == 3 * bench.tokens,
        forall|row: int|
            0 <= row < bench.tokens ==> #[trigger] bench.serial_ops(bench.tokens as nat)[3 * row
                + 1] == QsaSerialOp::Attend(bench.row_at(row)),
{
    lemma_runs_are_rows(bench, 0);
    assert(flattened(bench.runs_from(0)) =~= Seq::new(
        bench.tokens as nat,
        |row: int| bench.row_at(row),
    ));
    lemma_serial_rows(bench, bench.tokens as nat);
}

proof fn lemma_serial_rows(bench: Qwen38QsaPrefillMicrobench, rows: nat)
    ensures
        bench.serial_ops(rows).len() == 3 * rows,
        forall|row: int|
            0 <= row < rows ==> #[trigger] bench.serial_ops(rows)[3 * row + 1]
                == QsaSerialOp::Attend(bench.row_at(row)),
    decreases rows,
{
    if rows > 0 {
        lemma_serial_rows(bench, (rows - 1) as nat);
        let earlier = bench.serial_ops((rows - 1) as nat);
        assert forall|row: int| 0 <= row < rows implies #[trigger] bench.serial_ops(rows)[3 * row
            + 1] == QsaSerialOp::Attend(bench.row_at(row)) by {
            if row < rows - 1 {
                assert(bench.serial_ops(rows)[3 * row + 1] == earlier[3 * row + 1]);
            }
        }
    }
}

/// A batched prompt attends to everything before a row exactly where its position is below the
/// budget, and every run lies on one page.
pub proof fn law_budget_parts_the_rows(bench: Qwen38QsaPrefillMicrobench, row: int, index: int)
    requires
        bench.well_formed(),
        0 <= row <= bench.tokens,
        0 <= index < bench.runs_from(row).len(),
    ensures
        ({
            let run = bench.runs_from(row)[index];
            &&& run.rows > 0
            &&& run.dense ==> run.position + run.rows <= bench.indexer_budget
            &&& !run.dense ==> run.position >= bench.indexer_budget
            &&& run.page_offset + run.rows <= bench.page_tokens
            &&& run.page < bench.page_slots
        }),
    decreases bench.tokens - row,
{
    if row < bench.tokens {
        lemma_page_runs(bench, row);
        bench.lemma_page_taken(bench.start_position + row);
        vstd::arithmetic::div_mod::lemma_mod_bound(
            bench.start_position + row,
            bench.page_tokens as int,
        );
        let here = bench.runs_of_page(row);
        let next = row + bench.page_rows(row);
        if index >= here.len() {
            assert(bench.runs_from(row)[index] == bench.runs_from(next)[index - here.len()]);
            law_budget_parts_the_rows(bench, next, index - here.len());
        } else {
            assert(bench.runs_from(row)[index] == here[index]);
        }
    }
}

/// An opened prompt lies on the pages that were taken for it, and each of them is in the page
/// table under its own number.
pub proof fn law_opened_prompt_is_paged(
    config: Qwen38FlashNextConfig,
    tokens: usize,
    start_position: usize,
    max_context_tokens: usize,
    page_tokens: usize,
    bench: Qwen38QsaPrefillMicrobench,
    row: int,
)
    requires
        page_tokens > 0,
        opened(
            config,
            tokens,
            start_position,
            max_context_tokens,
            page_tokens,
            Ok::<Qwen38QsaPrefillMicrobench, BenchError>(bench),
        ),
        0 <= row < tokens,
    ensures
        bench.well_formed(),
        (bench.row_at(row).page as int) < bench.page_table@.len(),
        bench.page_table@[bench.row_at(row).page as int] == bench.row_at(row).page,
{
    bench.lemma_page_taken(start_position + row);
    let page = page_tokens as int;
    let position = start_position + row;
    vstd::arithmetic::div_mod::lemma_fundamental_div_mod(position, page);
    vstd::arithmetic::div_mod::lemma_fundamental_div_mod(max_context_tokens as int, page);
    let slot = position / page;
    let pages = max_context_tokens as int / page;
    assert(slot < pages) by (nonlinear_arith)
        requires
            page > 0,
            page * slot <= position,
            position < max_context_tokens,
            max_context_tokens == page * pages,
    ;
}

} // verus!
