//! Measurement of one residual block: scalar projections, tensor-core projections, and rows on
//! their own.

use crate::qwen38_flash_next::benchmark::{require_bitwise_equal, BenchError};
use crate::qwen38_flash_next::config::Qwen38FlashNextConfig;
use crate::qwen38_flash_next::hyperconnection::{
    HyperConnectionError, HyperConnectionLoad, HyperOp, HyperProjection,
    Qwen38HyperConnectionWeights, Qwen38HyperConnectionWorkspace,
};
use vstd::prelude::*;

verus! {

/// One residual block with scalar and tensor-core workspaces.
pub struct Qwen38HyperPrefillMicrobench {
    /// Prompt rows.
    pub tokens: usize,
    /// The block.
    pub load: HyperConnectionLoad,
    /// Workspace of the scalar projections.
    pub serial: Qwen38HyperConnectionWorkspace,
    /// Workspace of the tensor-core projections.
    pub tensor: Qwen38HyperConnectionWorkspace,
}

/// A buffer that is copied to the host.
#[derive(Clone, Copy, Debug, PartialEq, Eq, Structural)]
pub enum ComparedBuffer {
    /// The normalised streams.
    Normed,
    /// The sublayer's input.
    Mixed,
    /// The injection strengths.
    InjectLogits,
    /// The streams after the injection.
    Combined,
}

/// One operation of the comparison of rows on their own with rows in one call.
#[derive(Clone, Copy, Debug, PartialEq, Eq, Structural)]
pub enum ExactRowOp {
    /// Copies the streams of one row.
    LoadStreams { offset: usize, values: usize },
    /// Copies the sublayer's output of one row.
    LoadBlock { offset: usize, values: usize },
    /// Mixes one row.
    MixRow,
    /// Copies a row of a buffer to the host.
    ReadRow { buffer: ComparedBuffer, values: usize },
    /// Combines one row.
    CombineRow,
    /// Copies the combined streams to their row of the output.
    StoreStreams { offset: usize, values: usize },
    /// Mixes all rows, each as it would be on its own.
    MixExactRows { tokens: usize },
    /// Combines all rows, each as it would be on its own.
    CombineExactRows { tokens: usize },
    /// Compares a buffer with the rows that were read.
    Compare { buffer: ComparedBuffer, values: usize },
}

/// Name of the block that is measured.
pub open spec fn measured_block() -> Seq<char> {
    "model.language_model.layers.0.attn_hyper_connection"@
}

impl Qwen38HyperPrefillMicrobench {
    /// Plans the loading of the first layer's attention block.
    pub fn open(config: &Qwen38FlashNextConfig, tokens: usize) -> (result: Result<Self, BenchError>)
        requires
            tokens > 0 && config.stream_width() <= usize::MAX ==> {
                &&& tokens * config.stream_width() <= usize::MAX
                &&& tokens * config.hc_lowrank <= usize::MAX
                &&& tokens * config.hc_count <= usize::MAX
                &&& tokens * config.hidden <= usize::MAX
            },
        ensures
            match result {
                Ok(bench) => {
                    &&& tokens > 0
                    &&& config.stream_width() <= usize::MAX
                    &&& bench.well_formed()
                    &&& bench.tokens == tokens
                    &&& crate::qwen38_flash_next::benchmark::is_block(
                        bench.load,
                        measured_block(),
                        *config,
                    )
                    &&& bench.serial
                        == crate::qwen38_flash_next::hyperconnection::sized_workspace(
                        *config,
                        tokens,
                        HyperProjection::Scalar,
                    )
                    &&& bench.tensor
                        == crate::qwen38_flash_next::hyperconnection::sized_workspace(
                        *config,
                        tokens,
                        HyperProjection::TensorCore,
                    )
                },
                Err(error) => if tokens == 0 {
                    error == BenchError::Tokens
                } else {
                    &&& config.stream_width() > usize::MAX
                    &&& error == crate::qwen38_flash_next::benchmark::width_error(*config)
                },
            },
    {
        if tokens == 0 {
            return Err(BenchError::Tokens);
        }
        let load = match Qwen38HyperConnectionWeights::load(
            "model.language_model.layers.0.attn_hyper_connection",
            config,
            true,
        ) {
            Ok(load) => load,
            Err(error) => return Err(BenchError::HyperConnection(error)),
        };
        let serial = match Qwen38HyperConnectionWorkspace::new(config, tokens) {
            Ok(workspace) => workspace,
            Err(error) => return Err(BenchError::HyperConnection(error)),
        };
        let tensor = match Qwen38HyperConnectionWorkspace::new_prefill(config, tokens) {
            Ok(workspace) => workspace,
            Err(error) => return Err(BenchError::HyperConnection(error)),
        };
        Ok(Qwen38HyperPrefillMicrobench { tokens, load, serial, tensor })
    }

    /// Whether both workspaces serve the block for the prompt, each on its own path.
    pub open spec fn well_formed(self) -> bool {
        &&& self.load.weights.inject
        &&& self.serial.projection == HyperProjection::Scalar
        &&& self.tensor.projection == HyperProjection::TensorCore
        &&& self.serial.well_formed()
        &&& self.tensor.well_formed()
        &&& self.serial.serves(self.load.weights, self.tokens)
        &&& self.tensor.serves(self.load.weights, self.tokens)
    }

    /// Operations of one evaluation on a path.
    pub open spec fn ops(self, projection: HyperProjection) -> Seq<HyperOp> {
        self.load.weights.mix_ops(self.tokens, projection) + self.load.weights.combine_ops(
            self.tokens,
            projection,
        )
    }

    fn enqueue(&self, workspace: &Qwen38HyperConnectionWorkspace) -> (result: Result<
        Vec<HyperOp>,
        HyperConnectionError,
    >)
        requires
            workspace.well_formed(),
            workspace.serves(self.load.weights, self.tokens),
            self.load.weights.inject,
        ensures
            result is Ok,
            result->Ok_0@ == self.ops(workspace.projection),
    {
        let mut ops = match self.load.weights.mix(workspace, self.tokens) {
            Ok(ops) => ops,
            Err(error) => return Err(error),
        };
        let mut combine = match self.load.weights.combine(workspace, self.tokens) {
            Ok(ops) => ops,
            Err(error) => return Err(error),
        };
        ops.append(&mut combine);
        Ok(ops)
    }

    /// Plans the scalar projections.
    pub fn enqueue_serial(&self) -> (result: Result<Vec<HyperOp>, HyperConnectionError>)
        requires
            self.well_formed(),
        ensures
            result is Ok,
            result->Ok_0@ == self.ops(HyperProjection::Scalar),
    {
        self.enqueue(&self.serial)
    }

    /// Plans the tensor-core projections.
    pub fn enqueue_tensor(&self) -> (result: Result<Vec<HyperOp>, HyperConnectionError>)
        requires
            self.well_formed(),
        ensures
            result is Ok,
            result->Ok_0@ == self.ops(HyperProjection::TensorCore),
    {
        self.enqueue(&self.tensor)
    }

    /// Width of all residual streams of one token.
    pub open spec fn stream_width(self) -> int {
        self.load.weights.hidden * self.load.weights.hc_count
    }

    /// Operations that run one row on its own.
    pub open spec fn row_ops(self, row: int) -> Seq<ExactRowOp> {
        let width = self.stream_width() as usize;
        let hidden = self.load.weights.hidden;
        seq![
            ExactRowOp::LoadStreams { offset: (row * self.stream_width()) as usize, values: width },
            ExactRowOp::LoadBlock { offset: (row * hidden) as usize, values: hidden },
            ExactRowOp::MixRow,
            ExactRowOp::ReadRow { buffer: ComparedBuffer::Normed, values: width },
            ExactRowOp::ReadRow { buffer: ComparedBuffer::Mixed, values: hidden },
            ExactRowOp::CombineRow,
            ExactRowOp::ReadRow {
                buffer: ComparedBuffer::InjectLogits,
                values: self.load.weights.hc_count,
            },
            ExactRowOp::StoreStreams { offset: (row * self.stream_width()) as usize, values: width },
        ]
    }

    /// Operations that run the first `rows` rows on their own.
    pub open spec fn rows_ops(self, rows: nat) -> Seq<ExactRowOp>
        decreases rows,
    {
        if rows == 0 {
            Seq::empty()
        } else {
            self.rows_ops((rows - 1) as nat) + self.row_ops(rows - 1)
        }
    }

    /// Operations that run all rows in one call, and compare.
    pub open spec fn compare_ops(self) -> Seq<ExactRowOp> {
        let tokens = self.tokens;
        let streams = (tokens * self.stream_width()) as usize;
        seq![
            ExactRowOp::MixExactRows { tokens },
            ExactRowOp::CombineExactRows { tokens },
            ExactRowOp::Compare { buffer: ComparedBuffer::Normed, values: streams },
            ExactRowOp::Compare {
                buffer: ComparedBuffer::Mixed,
                values: (tokens * self.load.weights.hidden) as usize,
            },
            ExactRowOp::Compare {
                buffer: ComparedBuffer::InjectLogits,
                values: (tokens * self.load.weights.hc_count) as usize,
            },
            ExactRowOp::Compare { buffer: ComparedBuffer::Combined, values: streams },
        ]
    }

    fn push_row(&self, ops: &mut Vec<ExactRowOp>, row: usize)
        requires
            self.well_formed(),
            row < self.tokens,
        ensures
            final(ops)@ == old(ops)@ + self.row_ops(row as int),
    {
        let hidden: usize = self.load.weights.hidden;
        let hc_count: usize = self.load.weights.hc_count;
        proof {
            crate::qwen38_flash_next::hyperconnection::law_accepted_rows_fit(
                self.serial,
                self.load.weights,
                self.tokens,
            );
            let product = hidden * hc_count;
            assert(0 <= product && product <= self.tokens * product) by (nonlinear_arith)
                requires
                    product == hidden * hc_count,
                    self.tokens >= 1,
            ;
            assert(row * product <= self.tokens * product) by (nonlinear_arith)
                requires
                    row < self.tokens,
                    product >= 0,
            ;
            assert(row * hidden <= self.tokens * hidden) by (nonlinear_arith)
                requires
                    row < self.tokens,
            ;
        }
        let width: usize = hidden * hc_count;
        ops.push(ExactRowOp::LoadStreams { offset: row * width, values: width });
        ops.push(ExactRowOp::LoadBlock { offset: row * hidden, values: hidden });
        ops.push(ExactRowOp::MixRow);
        ops.push(ExactRowOp::ReadRow { buffer: ComparedBuffer::Normed, values: width });
        ops.push(ExactRowOp::ReadRow { buffer: ComparedBuffer::Mixed, values: hidden });
        ops.push(ExactRowOp::CombineRow);
        ops.push(ExactRowOp::ReadRow { buffer: ComparedBuffer::InjectLogits, values: hc_count });
        ops.push(ExactRowOp::StoreStreams { offset: row * width, values: width });
        assert(ops@ =~= old(ops)@ + self.row_ops(row as int));
    }

    fn push_compare(&self, ops: &mut Vec<ExactRowOp>)
        requires
            self.well_formed(),
        ensures
            final(ops)@ == old(ops)@ + self.compare_ops(),
    {
        let hidden: usize = self.load.weights.hidden;
        let hc_count: usize = self.load.weights.hc_count;
        let tokens: usize = self.tokens;
        proof {
            crate::qwen38_flash_next::hyperconnection::law_accepted_rows_fit(
                self.serial,
                self.load.weights,
                self.tokens,
            );
            let product = hidden * hc_count;
            assert(0 <= product && product <= self.tokens * product) by (nonlinear_arith)
                requires
                    product == hidden * hc_count,
                    self.tokens >= 1,
            ;
        }
        let width: usize = hidden * hc_count;
        ops.push(ExactRowOp::MixExactRows { tokens });
        ops.push(ExactRowOp::CombineExactRows { tokens });
        ops.push(ExactRowOp::Compare { buffer: ComparedBuffer::Normed, values: tokens * width });
        ops.push(ExactRowOp::Compare { buffer: ComparedBuffer::Mixed, values: tokens * hidden });
        ops.push(
            ExactRowOp::Compare {
                buffer: ComparedBuffer::InjectLogits,
                values: tokens * hc_count,
            },
        );
        ops.push(ExactRowOp::Compare { buffer: ComparedBuffer::Combined, values: tokens * width });
        assert(ops@ =~= old(ops)@ + self.compare_ops());
    }

    /// Plans the comparison of rows on their own with rows in one call.
    pub fn validate_exact_rows(&self) -> (ops: Vec<ExactRowOp>)
        requires
            self.well_formed(),
        ensures
            ops@ == self.rows_ops(self.tokens as nat) + self.compare_ops(),
    {
        let mut ops: Vec<ExactRowOp> = Vec::new();
        let mut row: usize = 0;
        while row < self.tokens
            invariant
                row <= self.tokens,
                self.well_formed(),
                ops@ == self.rows_ops(row as nat),
            decreases self.tokens - row,
        {
            self.push_row(&mut ops, row);
            row += 1;
        }
        self.push_compare(&mut ops);
        ops
    }
}

/// Values of the buffers that are compared, as bits.
pub struct ComparedRows {
    /// The normalised streams.
    pub normed: Vec<u32>,
    /// The sublayer's input.
    pub mixed: Vec<u32>,
    /// The injection strengths.
    pub inject_logits: Vec<u32>,
    /// The streams after the injection.
    pub combined: Vec<u32>,
}

impl ComparedRows {
    /// Values of one buffer.
    pub open spec fn buffer(self, buffer: ComparedBuffer) -> Seq<u32> {
        match buffer {
            ComparedBuffer::Normed => self.normed@,
            ComparedBuffer::Mixed => self.mixed@,
            ComparedBuffer::InjectLogits => self.inject_logits@,
            ComparedBuffer::Combined => self.combined@,
        }
    }
}

/// Buffers in the order in which they are compared.
pub open spec fn compared_order() -> Seq<ComparedBuffer> {
    seq![
        ComparedBuffer::Normed,
        ComparedBuffer::Mixed,
        ComparedBuffer::InjectLogits,
        ComparedBuffer::Combined,
    ]
}

/// Whether the comparison fails at the buffer at `index`, and at none before it.
pub open spec fn fails_at(
    expected: ComparedRows,
    actual: ComparedRows,
    index: int,
    error: BenchError,
) -> bool {
    let buffer = compared_order()[index];
    &&& 0 <= index < 4
    &&& forall|earlier: int|
        0 <= earlier < index ==> expected.buffer(#[trigger] compared_order()[earlier])
            == actual.buffer(compared_order()[earlier])
    &&& crate::qwen38_flash_next::benchmark::equal_outcome(
        expected.buffer(buffer),
        actual.buffer(buffer),
        Err::<(), BenchError>(error),
    )
}

/// Compares rows that ran on their own with rows of one call, buffer by buffer.
pub fn compare_exact_rows(expected: &ComparedRows, actual: &ComparedRows) -> (result: Result<
    (),
    (ComparedBuffer, BenchError),
>)
    ensures
        match result {
            Ok(()) => forall|buffer: ComparedBuffer|
                #![auto]
                expected.buffer(buffer) == actual.buffer(buffer),
            Err((buffer, error)) => exists|index: int|
                #![trigger compared_order()[index]]
                compared_order()[index] == buffer && fails_at(*expected, *actual, index, error),
        },
{
    match require_bitwise_equal(expected.normed.as_slice(), actual.normed.as_slice()) {
        Ok(()) => {},
        Err(error) => {
            assert(compared_order()[0] == ComparedBuffer::Normed);
            assert(fails_at(*expected, *actual, 0, error));
            return Err((ComparedBuffer::Normed, error));
        },
    }
    match require_bitwise_equal(expected.mixed.as_slice(), actual.mixed.as_slice()) {
        Ok(()) => {},
        Err(error) => {
            assert(compared_order()[1] == ComparedBuffer::Mixed);
            assert(fails_at(*expected, *actual, 1, error));
            return Err((ComparedBuffer::Mixed, error));
        },
    }
    match require_bitwise_equal(expected.inject_logits.as_slice(), actual.inject_logits.as_slice()) {
        Ok(()) => {},
        Err(error) => {
            assert(compared_order()[2] == ComparedBuffer::InjectLogits);
            assert(fails_at(*expected, *actual, 2, error));
            return Err((ComparedBuffer::InjectLogits, error));
        },
    }
    match require_bitwise_equal(expected.combined.as_slice(), actual.combined.as_slice()) {
        Ok(()) => Ok(()),
        Err(error) => {
            assert(compared_order()[3] == ComparedBuffer::Combined);
            assert(fails_at(*expected, *actual, 3, error));
            Err((ComparedBuffer::Combined, error))
        },
    }
}

} // verus!
