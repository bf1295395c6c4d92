//! Batched projections: activation quantisation, plan reuse and device operations.

use vstd::prelude::*;

verus! {

/// Fewest rows for which a static activation scale is used.
pub const STATIC_FP8_PREFILL_MIN_ROWS: usize = 128;

/// Why a projection cannot run.
#[derive(Clone, Copy, Debug, PartialEq, Eq, Structural)]
pub enum LinearError {
    /// An FP8 projection was given no prepared activation.
    NoActivation,
    /// A projection does not match the prepared static activation scale.
    StaticScale,
    /// A projection has no batch plan.
    NoPlan,
    /// A projection has a plan for another storage format.
    PlanStorage,
}

/// Storage format of weights.
#[derive(Clone, Copy, Debug, PartialEq, Eq, Structural)]
pub enum Storage {
    /// Sixteen-bit floating point.
    Bf16,
    /// Eight-bit floating point.
    Fp8,
    /// Four-bit floating point with block scales.
    Nvfp4,
}

/// A projection as its planner sees it. Scales are kept as bit patterns.
#[derive(Clone, Copy, Debug, PartialEq, Eq, Structural)]
pub struct Linear {
    /// Storage format.
    pub storage: Storage,
    /// Output width.
    pub rows: usize,
    /// Input width.
    pub cols: usize,
    /// Calibrated activation scale of FP8 weights.
    pub input_scale: Option<u32>,
    /// Whether FP8 weights have one scale for each output channel.
    pub channel_scaled: bool,
    /// Whether FP8 weights are meant for unquantised activations.
    pub weight_only: bool,
}

/// How the activation of FP8 projections has been prepared.
#[derive(Clone, Copy, Debug, PartialEq, Eq, Structural)]
pub enum BatchFp8InputQuantization {
    /// No projection needs it.
    Unused,
    /// One scale for each row, measured on the device.
    Dynamic,
    /// The calibrated scale with these bits.
    Static(u32),
}

impl Linear {
    /// The calibrated scale, where a batch may rely on it.
    pub open spec fn static_scale(self) -> Option<u32> {
        if self.channel_scaled || self.weight_only {
            None
        } else {
            self.input_scale
        }
    }
}

/// Whether one of the projections is stored in FP8.
pub open spec fn any_fp8(linears: Seq<Linear>) -> bool {
    exists|i: int| 0 <= i < linears.len() && (#[trigger] linears[i]).storage == Storage::Fp8
}

/// Whether every FP8 projection relies on the calibrated scale with these bits.
pub open spec fn all_static(linears: Seq<Linear>, scale: u32) -> bool {
    forall|i: int|
        0 <= i < linears.len() && (#[trigger] linears[i]).storage == Storage::Fp8
            ==> linears[i].static_scale() == Some(scale)
}

/// How the shared input of some projections is quantised.
///
/// A calibrated scale is used where every FP8 projection relies on the same one and the batch
/// is large enough; otherwise each row is measured.
pub open spec fn quantization_of(linears: Seq<Linear>, rows: usize) -> BatchFp8InputQuantization {
    if !any_fp8(linears) {
        BatchFp8InputQuantization::Unused
    } else if rows >= STATIC_FP8_PREFILL_MIN_ROWS && exists|scale: u32| all_static(linears, scale) {
        BatchFp8InputQuantization::Static(choose|scale: u32| all_static(linears, scale))
    } else {
        BatchFp8InputQuantization::Dynamic
    }
}

/// Two FP8 projections cannot rely on different scales and on one.
proof fn lemma_static_scale_unique(linears: Seq<Linear>, left: u32, right: u32)
    requires
        any_fp8(linears),
        all_static(linears, left),
        all_static(linears, right),
    ensures
        left == right,
{
    let i = choose|i: int|
        0 <= i < linears.len() && (#[trigger] linears[i]).storage == Storage::Fp8;
    assert(linears[i].static_scale() == Some(left));
}

/// Chooses how the shared input of some projections is quantised.
pub fn prepare_fp8_batch_input(linears: &[Linear], rows: usize) -> (quantization:
    BatchFp8InputQuantization)
    ensures
        quantization == quantization_of(linears@, rows),
{
    let mut found: Option<u32> = None;
    let mut i: usize = 0;
    while i < linears.len()
        invariant
            i <= linears@.len(),
            match found {
                None => forall|j: int|
                    0 <= j < i ==> (#[trigger] linears@[j]).storage != Storage::Fp8,
                Some(scale) => {
                    &&& exists|j: int|
                        0 <= j < i && (#[trigger] linears@[j]).storage == Storage::Fp8
                    &&& forall|j: int|
                        0 <= j < i && (#[trigger] linears@[j]).storage == Storage::Fp8
                            ==> linears@[j].static_scale() == Some(scale)
                },
            },
        decreases linears@.len() - i,
    {
        let linear: Linear = linears[i];
        if linear.storage == Storage::Fp8 {
            let usable: Option<u32> = if linear.channel_scaled || linear.weight_only {
                None
            } else {
                linear.input_scale
            };
            match usable {
                None => {
                    proof {
                        assert(linears@[i as int].static_scale() is None);
                        assert(any_fp8(linears@));
                        assert forall|scale: u32| !all_static(linears@, scale) by {
                            assert(linears@[i as int].static_scale() != Some(scale));
                        }
                    }
                    return BatchFp8InputQuantization::Dynamic;
                },
                Some(scale) => {
                    if found.is_some() {
                        let earlier: u32 = found.unwrap();
                        if earlier != scale {
                            proof {
                                let j = choose|j: int|
                                    0 <= j < i && (#[trigger] linears@[j]).storage == Storage::Fp8;
                                assert(linears@[j].static_scale() == Some(earlier));
                                assert(linears@[i as int].static_scale() == Some(scale));
                                assert(any_fp8(linears@));
                                assert forall|other: u32| !all_static(linears@, other) by {
                                    if all_static(linears@, other) {
                                        assert(linears@[j].static_scale() == Some(other));
                                        assert(linears@[i as int].static_scale() == Some(other));
                                    }
                                }
                            }
                            return BatchFp8InputQuantization::Dynamic;
                        }
                    }
                    found = Some(scale);
                    assert(linears@[i as int].storage == Storage::Fp8);
                },
            }
        }
        i += 1;
    }
    match found {
        None => BatchFp8InputQuantization::Unused,
        Some(scale) => {
            if rows < STATIC_FP8_PREFILL_MIN_ROWS {
                BatchFp8InputQuantization::Dynamic
            } else {
                proof {
                    assert(all_static(linears@, scale));
                    lemma_static_scale_unique(
                        linears@,
                        scale,
                        choose|other: u32| all_static(linears@, other),
                    );
                }
                BatchFp8InputQuantization::Static(scale)
            }
        },
    }
}

/// Factor applied to a product.
#[derive(Clone, Copy, Debug, PartialEq, Eq, Structural)]
pub enum ProductScale {
    /// No factor.
    One,
    /// Weight scale times the calibrated activation scale with these bits.
    Calibrated(u32),
    /// The two scales of four-bit weights and activations.
    BlockScales,
}

/// One device operation of a projection.
#[derive(Clone, Copy, Debug, PartialEq, Eq, Structural)]
#[allow(inconsistent_fields)]
pub enum LinearOp {
    /// Create a product plan for this many rows.
    CreatePlan { rows: usize },
    /// Round the input to sixteen bits.
    ConvertInput { values: usize },
    /// Quantise the input to four bits.
    QuantizeInput { cols: usize, rows: usize },
    /// Product of a single row.
    RunRow { input_offset: usize, output_offset: usize, scale: ProductScale },
    /// Product of all rows.
    Run { rows: usize, scale: ProductScale },
    /// Fill the channel scales with the scale of the whole matrix.
    FillChannelScale,
    /// Apply channel and row scales.
    ScaleOutput { rows: usize, cols: usize, per_channel: bool },
    /// Round the output to sixteen bits.
    RoundOutput,
}

/// Row counts that a projection is planned for from the start. FP8 projections are planned for
/// a single row as well.
pub open spec fn initial_rows(storage: Storage, capacity: usize) -> Seq<usize> {
    if storage == Storage::Fp8 && capacity != 1 {
        seq![capacity, 1]
    } else {
        seq![capacity]
    }
}

/// Product plans of one projection, by their number of rows.
pub struct BatchLinearPlan {
    /// Storage format that the plans are for.
    pub storage: Storage,
    /// Row counts that have a plan, each once.
    pub planned: Vec<usize>,
}

impl BatchLinearPlan {
    /// No row count is planned twice.
    pub open spec fn well_formed(self) -> bool {
        self.planned@.no_duplicates()
    }

    /// Whether the plans serve a projection: they are for its storage format, and those that
    /// it started with are still there.
    pub open spec fn serves(self, linear: Linear, capacity: usize) -> bool {
        &&& self.well_formed()
        &&& self.storage == linear.storage
        &&& initial_rows(linear.storage, capacity).is_prefix_of(self.planned@)
    }

    /// Row counts with a plan after `rows` was asked for.
    pub open spec fn with_rows(self, rows: usize) -> Seq<usize> {
        if self.planned@.contains(rows) {
            self.planned@
        } else {
            self.planned@.push(rows)
        }
    }

    /// Creation of a plan, where it is missing.
    pub open spec fn creation(self, rows: usize) -> Seq<LinearOp> {
        if self.planned@.contains(rows) {
            seq![]
        } else {
            seq![LinearOp::CreatePlan { rows }]
        }
    }

    /// Text of the storage format.
    pub fn storage_name(&self) -> (name: &'static str)
        ensures
            name@ == match self.storage {
                Storage::Bf16 => "BF16"@,
                Storage::Fp8 => "FP8"@,
                Storage::Nvfp4 => "NVFP4"@,
            },
    {
        match self.storage {
            Storage::Bf16 => "BF16",
            Storage::Fp8 => "FP8",
            Storage::Nvfp4 => "NVFP4",
        }
    }

    fn has_rows(&self, rows: usize) -> (found: bool)
        ensures
            found == self.planned@.contains(rows),
    {
        let mut i: usize = 0;
        while i < self.planned.len()
            invariant
                i <= self.planned@.len(),
                forall|j: int| 0 <= j < i ==> self.planned@[j] != rows,
            decreases self.planned@.len() - i,
        {
            if self.planned[i] == rows {
                assert(self.planned@[i as int] == rows);
                return true;
            }
            i += 1;
        }
        false
    }

    fn ensure_rows(&mut self, rows: usize, ops: &mut Vec<LinearOp>)
        requires
            old(self).well_formed(),
        ensures
            final(self).well_formed(),
            final(self).storage == old(self).storage,
            final(self).planned@ == old(self).with_rows(rows),
            final(ops)@ == old(ops)@ + old(self).creation(rows),
    {
        if !self.has_rows(rows) {
            self.planned.push(rows);
            ops.push(LinearOp::CreatePlan { rows });
        }
        assert(ops@ =~= old(ops)@ + old(self).creation(rows));
    }
}

/// Plans the products that a projection starts with.
///
/// FP8 projections are planned for a single row as well.
pub fn new_batch_linear_plan(linear: &Linear, capacity: usize) -> (plan: BatchLinearPlan)
    ensures
        plan.well_formed(),
        plan.storage == linear.storage,
        plan.planned@ == initial_rows(linear.storage, capacity),
{
    let mut planned: Vec<usize> = Vec::new();
    planned.push(capacity);
    if linear.storage == Storage::Fp8 && capacity != 1 {
        planned.push(1);
        assert(planned@ =~= seq![capacity, 1]);
    } else {
        assert(planned@ =~= seq![capacity]);
    }
    BatchLinearPlan { storage: linear.storage, planned }
}


/// Products of `rows` rows, one at a time, with the plan of a single row.
pub open spec fn row_products(linear: Linear, rows: usize, scale: ProductScale) -> Seq<LinearOp> {
    Seq::new(
        rows as nat,
        |row: int|
            LinearOp::RunRow {
                input_offset: (row * linear.cols) as usize,
                output_offset: (row * linear.rows) as usize,
                scale,
            },
    )
}

/// Plan creation and products of a projection.
pub open spec fn product_ops(
    plan: BatchLinearPlan,
    linear: Linear,
    rows: usize,
    byte_identical: bool,
    scale: ProductScale,
) -> Seq<LinearOp> {
    if byte_identical && rows > 1 {
        plan.creation(1) + row_products(linear, rows, scale)
    } else {
        plan.creation(rows) + seq![LinearOp::Run { rows, scale }]
    }
}

/// Row count whose plan a projection uses.
pub open spec fn product_rows(rows: usize, byte_identical: bool) -> usize {
    if byte_identical && rows > 1 {
        1
    } else {
        rows
    }
}

/// Scaling of a product whose activation was quantised row by row.
pub open spec fn rescale_ops(linear: Linear, rows: usize) -> Seq<LinearOp> {
    (if linear.channel_scaled {
        seq![]
    } else {
        seq![LinearOp::FillChannelScale]
    }) + seq![
        LinearOp::ScaleOutput { rows, cols: linear.rows, per_channel: linear.channel_scaled },
    ]
}

/// Factor of an FP8 product.
pub open spec fn fp8_scale(quantization: BatchFp8InputQuantization) -> ProductScale {
    match quantization {
        BatchFp8InputQuantization::Static(bits) => ProductScale::Calibrated(bits),
        _ => ProductScale::One,
    }
}

/// Whether a projection can take an activation prepared in this way.
pub open spec fn fp8_obstacle(
    linear: Linear,
    quantization: BatchFp8InputQuantization,
) -> Option<LinearError> {
    match quantization {
        BatchFp8InputQuantization::Unused => Some(LinearError::NoActivation),
        BatchFp8InputQuantization::Dynamic => None,
        BatchFp8InputQuantization::Static(bits) => if linear.channel_scaled || linear.input_scale
            != Some(bits) {
            Some(LinearError::StaticScale)
        } else {
            None
        },
    }
}

/// Operations of an FP8 projection.
pub open spec fn fp8_ops(
    plan: BatchLinearPlan,
    linear: Linear,
    quantization: BatchFp8InputQuantization,
    rows: usize,
    byte_identical: bool,
) -> Seq<LinearOp> {
    product_ops(plan, linear, rows, byte_identical, fp8_scale(quantization)) + (
    if quantization is Dynamic {
        rescale_ops(linear, rows)
    } else {
        seq![]
    }) + seq![LinearOp::RoundOutput]
}

/// Operations of a BF16 projection.
pub open spec fn bf16_ops(
    plan: BatchLinearPlan,
    linear: Linear,
    rows: usize,
    byte_identical: bool,
) -> Seq<LinearOp> {
    seq![LinearOp::ConvertInput { values: (rows * linear.cols) as usize }] + product_ops(
        plan,
        linear,
        rows,
        byte_identical,
        ProductScale::One,
    ) + seq![LinearOp::RoundOutput]
}

/// Operations of an NVFP4 projection whose input is quantised already.
pub open spec fn nvfp4_quantized_ops(plan: BatchLinearPlan, rows: usize) -> Seq<LinearOp> {
    plan.creation(rows) + seq![
        LinearOp::Run { rows, scale: ProductScale::BlockScales },
        LinearOp::RoundOutput,
    ]
}

/// Operations of an NVFP4 projection.
pub open spec fn nvfp4_ops(plan: BatchLinearPlan, linear: Linear, rows: usize) -> Seq<LinearOp> {
    seq![LinearOp::QuantizeInput { cols: linear.cols, rows }] + nvfp4_quantized_ops(plan, rows)
}

/// Whether the offsets of a projection are representable.
pub open spec fn linear_fits(linear: Linear, rows: usize) -> bool {
    rows * linear.cols <= usize::MAX && rows * linear.rows <= usize::MAX
}

fn push_products(
    plan: &mut BatchLinearPlan,
    linear: &Linear,
    rows: usize,
    byte_identical: bool,
    scale: ProductScale,
    ops: &mut Vec<LinearOp>,
)
    requires
        old(plan).well_formed(),
        linear_fits(*linear, rows),
    ensures
        final(plan).well_formed(),
        final(plan).storage == old(plan).storage,
        final(plan).planned@ == old(plan).with_rows(product_rows(rows, byte_identical)),
        final(ops)@ == old(ops)@ + product_ops(*old(plan), *linear, rows, byte_identical, scale),
{
    if byte_identical && rows > 1 {
        plan.ensure_rows(1, ops);
        let ghost before = ops@;
        let mut row: usize = 0;
        while row < rows
            invariant
                row <= rows,
                linear_fits(*linear, rows),
                ops@ == before + row_products(*linear, rows, scale).take(row as int),
            decreases rows - row,
        {
            assert(row * linear.cols <= rows * linear.cols && row * linear.rows <= rows
                * linear.rows) by (nonlinear_arith)
                requires
                    row <= rows,
            ;
            ops.push(
                LinearOp::RunRow {
                    input_offset: row * linear.cols,
                    output_offset: row * linear.rows,
                    scale,
                },
            );
            row += 1;
            assert(ops@ =~= before + row_products(*linear, rows, scale).take(row as int));
        }
        assert(ops@ =~= before + row_products(*linear, rows, scale));
    } else {
        plan.ensure_rows(rows, ops);
        ops.push(LinearOp::Run { rows, scale });
    }
    assert(ops@ =~= old(ops)@ + product_ops(*old(plan), *linear, rows, byte_identical, scale));
}

/// Plans an FP8 projection on a prepared activation.
pub fn run_fp8_batch(
    plan: &mut BatchLinearPlan,
    linear: &Linear,
    quantization: BatchFp8InputQuantization,
    rows: usize,
    byte_identical: bool,
) -> (result: Result<Vec<LinearOp>, LinearError>)
    requires
        old(plan).well_formed(),
        linear_fits(*linear, rows),
    ensures
        final(plan).well_formed(),
        final(plan).storage == old(plan).storage,
        match result {
            Ok(ops) => {
                &&& fp8_obstacle(*linear, quantization) is None
                &&& ops@ == fp8_ops(*old(plan), *linear, quantization, rows, byte_identical)
                &&& final(plan).planned@ == old(plan).with_rows(product_rows(rows, byte_identical))
            },
            Err(error) => fp8_obstacle(*linear, quantization) == Some(error) && *final(plan)
                == *old(plan),
        },
{
    let scale: ProductScale = match quantization {
        BatchFp8InputQuantization::Unused => {
            return Err(LinearError::NoActivation);
        },
        BatchFp8InputQuantization::Static(bits) => {
            let matching = match linear.input_scale {
                Some(own) => own == bits,
                None => false,
            };
            if linear.channel_scaled || !matching {
                return Err(LinearError::StaticScale);
            }
            ProductScale::Calibrated(bits)
        },
        BatchFp8InputQuantization::Dynamic => ProductScale::One,
    };
    let mut ops: Vec<LinearOp> = Vec::new();
    push_products(plan, linear, rows, byte_identical, scale, &mut ops);
    if matches!(quantization, BatchFp8InputQuantization::Dynamic) {
        if !linear.channel_scaled {
            ops.push(LinearOp::FillChannelScale);
        }
        ops.push(
            LinearOp::ScaleOutput { rows, cols: linear.rows, per_channel: linear.channel_scaled },
        );
    }
    ops.push(LinearOp::RoundOutput);
    assert(ops@ =~= fp8_ops(*old(plan), *linear, quantization, rows, byte_identical));
    Ok(ops)
}

/// Plans a BF16 projection.
pub fn run_bf16_batch(
    plan: &mut BatchLinearPlan,
    linear: &Linear,
    rows: usize,
    byte_identical: bool,
) -> (ops: Vec<LinearOp>)
    requires
        old(plan).well_formed(),
        linear_fits(*linear, rows),
    ensures
        final(plan).well_formed(),
        final(plan).storage == old(plan).storage,
        final(plan).planned@ == old(plan).with_rows(product_rows(rows, byte_identical)),
        ops@ == bf16_ops(*old(plan), *linear, rows, byte_identical),
{
    let mut ops: Vec<LinearOp> = Vec::new();
    ops.push(LinearOp::ConvertInput { values: rows * linear.cols });
    push_products(plan, linear, rows, byte_identical, ProductScale::One, &mut ops);
    ops.push(LinearOp::RoundOutput);
    assert(ops@ =~= bf16_ops(*old(plan), *linear, rows, byte_identical));
    ops
}

/// Plans an NVFP4 projection whose input is quantised already.
pub fn run_nvfp4_batch_quantized(plan: &mut BatchLinearPlan, rows: usize) -> (ops: Vec<LinearOp>)
    requires
        old(plan).well_formed(),
    ensures
        final(plan).well_formed(),
        final(plan).storage == old(plan).storage,
        final(plan).planned@ == old(plan).with_rows(rows),
        ops@ == nvfp4_quantized_ops(*old(plan), rows),
{
    let mut ops: Vec<LinearOp> = Vec::new();
    plan.ensure_rows(rows, &mut ops);
    ops.push(LinearOp::Run { rows, scale: ProductScale::BlockScales });
    ops.push(LinearOp::RoundOutput);
    assert(ops@ =~= nvfp4_quantized_ops(*old(plan), rows));
    ops
}

/// Plans an NVFP4 projection.
pub fn run_nvfp4_batch(plan: &mut BatchLinearPlan, linear: &Linear, rows: usize) -> (ops: Vec<
    LinearOp,
>)
    requires
        old(plan).well_formed(),
    ensures
        final(plan).well_formed(),
        final(plan).storage == old(plan).storage,
        final(plan).planned@ == old(plan).with_rows(rows),
        ops@ == nvfp4_ops(*old(plan), *linear, rows),
{
    let mut ops: Vec<LinearOp> = Vec::new();
    ops.push(LinearOp::QuantizeInput { cols: linear.cols, rows });
    plan.ensure_rows(rows, &mut ops);
    ops.push(LinearOp::Run { rows, scale: ProductScale::BlockScales });
    ops.push(LinearOp::RoundOutput);
    assert(ops@ =~= nvfp4_ops(*old(plan), *linear, rows));
    ops
}

/// Operations of a projection on a plan for its own storage format.
pub open spec fn linear_ops(
    plan: BatchLinearPlan,
    linear: Linear,
    quantization: BatchFp8InputQuantization,
    rows: usize,
    byte_identical: bool,
) -> Seq<LinearOp> {
    match linear.storage {
        Storage::Nvfp4 => nvfp4_ops(plan, linear, rows),
        Storage::Fp8 => fp8_ops(plan, linear, quantization, rows, byte_identical),
        Storage::Bf16 => bf16_ops(plan, linear, rows, byte_identical),
    }
}

/// What stands against a projection, if anything.
pub open spec fn linear_obstacle(
    plan: Option<BatchLinearPlan>,
    linear: Linear,
    quantization: BatchFp8InputQuantization,
) -> Option<LinearError> {
    match plan {
        None => Some(LinearError::NoPlan),
        Some(plan) => storage_obstacle(plan.storage, linear, quantization),
    }
}

/// What stands against a projection on plans for a storage format, if anything.
pub open spec fn storage_obstacle(
    planned: Storage,
    linear: Linear,
    quantization: BatchFp8InputQuantization,
) -> Option<LinearError> {
    if planned != linear.storage {
        Some(LinearError::PlanStorage)
    } else if linear.storage == Storage::Fp8 {
        fp8_obstacle(linear, quantization)
    } else {
        None
    }
}

/// Decides whether a projection runs on plans for a storage format.
pub fn check_storage(
    planned: Storage,
    linear: &Linear,
    quantization: BatchFp8InputQuantization,
) -> (obstacle: Option<LinearError>)
    ensures
        obstacle == storage_obstacle(planned, *linear, quantization),
{
    if planned != linear.storage {
        return Some(LinearError::PlanStorage);
    }
    if linear.storage != Storage::Fp8 {
        return None;
    }
    match quantization {
        BatchFp8InputQuantization::Unused => Some(LinearError::NoActivation),
        BatchFp8InputQuantization::Dynamic => None,
        BatchFp8InputQuantization::Static(bits) => {
            let matching = match linear.input_scale {
                Some(own) => own == bits,
                None => false,
            };
            if linear.channel_scaled || !matching {
                Some(LinearError::StaticScale)
            } else {
                None
            }
        },
    }
}

/// Row count whose plan a projection uses.
pub open spec fn linear_rows(linear: Linear, rows: usize, byte_identical: bool) -> usize {
    if linear.storage == Storage::Nvfp4 {
        rows
    } else {
        product_rows(rows, byte_identical)
    }
}

/// Plans a projection in the storage format of its weights, on plans that may be for another.
pub fn run_on_plan(
    plan: &mut BatchLinearPlan,
    linear: &Linear,
    quantization: BatchFp8InputQuantization,
    rows: usize,
    byte_identical: bool,
) -> (result: Result<Vec<LinearOp>, LinearError>)
    requires
        old(plan).well_formed(),
        linear_fits(*linear, rows),
    ensures
        final(plan).well_formed(),
        final(plan).storage == old(plan).storage,
        match result {
            Ok(ops) => {
                &&& storage_obstacle(old(plan).storage, *linear, quantization) is None
                &&& ops@ == linear_ops(*old(plan), *linear, quantization, rows, byte_identical)
                &&& final(plan).planned@ == old(plan).with_rows(
                    linear_rows(*linear, rows, byte_identical),
                )
            },
            Err(error) => storage_obstacle(old(plan).storage, *linear, quantization) == Some(error)
                && *final(plan) == *old(plan),
        },
{
    if plan.storage != linear.storage {
        return Err(LinearError::PlanStorage);
    }
    match linear.storage {
        Storage::Nvfp4 => Ok(run_nvfp4_batch(plan, linear, rows)),
        Storage::Fp8 => run_fp8_batch(plan, linear, quantization, rows, byte_identical),
        Storage::Bf16 => Ok(run_bf16_batch(plan, linear, rows, byte_identical)),
    }
}

/// Plans a projection in the storage format of its weights.
pub fn run_linear_batch(
    plan: &mut Option<BatchLinearPlan>,
    linear: &Linear,
    quantization: BatchFp8InputQuantization,
    rows: usize,
    byte_identical: bool,
) -> (result: Result<Vec<LinearOp>, LinearError>)
    requires
        *old(plan) matches Some(given) ==> given.well_formed(),
        linear_fits(*linear, rows),
    ensures
        *final(plan) matches Some(given) ==> given.well_formed(),
        match result {
            Ok(ops) => {
                &&& linear_obstacle(*old(plan), *linear, quantization) is None
                &&& ops@ == linear_ops(old(plan)->0, *linear, quantization, rows, byte_identical)
                &&& *final(plan) is Some
                &&& final(plan)->0.storage == linear.storage
                &&& final(plan)->0.planned@ == old(plan)->0.with_rows(
                    linear_rows(*linear, rows, byte_identical),
                )
            },
            Err(error) => linear_obstacle(*old(plan), *linear, quantization) == Some(error)
                && *final(plan) == *old(plan),
        },
{
    match plan.take() {
        None => Err(LinearError::NoPlan),
        Some(mut given) => {
            let result = run_on_plan(&mut given, linear, quantization, rows, byte_identical);
            *plan = Some(given);
            result
        },
    }
}

/// Plans for projections of every storage format that a set of layers uses.
pub struct BatchLinearPlanSet {
    /// Plans for BF16 projections.
    pub bf16: Option<BatchLinearPlan>,
    /// Plans for FP8 projections.
    pub fp8: Option<BatchLinearPlan>,
    /// Plans for NVFP4 projections.
    pub nvfp4: Option<BatchLinearPlan>,
}

/// Whether a plan is the one that a set of projections needs for a storage format.
pub open spec fn set_member(
    plan: Option<BatchLinearPlan>,
    linears: Seq<Linear>,
    storage: Storage,
    capacity: usize,
    count: int,
) -> bool {
    match plan {
        None => forall|i: int| 0 <= i < count ==> (#[trigger] linears[i]).storage != storage,
        Some(plan) => {
            &&& exists|i: int| 0 <= i < count && (#[trigger] linears[i]).storage == storage
            &&& plan.well_formed()
            &&& plan.storage == storage
            &&& initial_rows(storage, capacity).is_prefix_of(plan.planned@)
        },
    }
}

/// Whether a plan, where there is one, is as it was created.
pub open spec fn fresh_member(plan: Option<BatchLinearPlan>, capacity: usize) -> bool {
    plan matches Some(plan) ==> plan.planned@ == initial_rows(plan.storage, capacity)
}

impl BatchLinearPlanSet {
    /// The plan for a storage format.
    pub open spec fn member(self, storage: Storage) -> Option<BatchLinearPlan> {
        match storage {
            Storage::Bf16 => self.bf16,
            Storage::Fp8 => self.fp8,
            Storage::Nvfp4 => self.nvfp4,
        }
    }

    /// Creates one plan for each storage format among the projections.
    pub fn new(linears: &[Linear], capacity: usize) -> (set: Self)
        ensures
            forall|storage: Storage|
                set_member(
                    #[trigger] set.member(storage),
                    linears@,
                    storage,
                    capacity,
                    linears@.len() as int,
                ) && fresh_member(set.member(storage), capacity),
    {
        let mut set = Self { bf16: None, fp8: None, nvfp4: None };
        let mut i: usize = 0;
        while i < linears.len()
            invariant
                i <= linears@.len(),
                set_member(set.bf16, linears@, Storage::Bf16, capacity, i as int),
                set_member(set.fp8, linears@, Storage::Fp8, capacity, i as int),
                set_member(set.nvfp4, linears@, Storage::Nvfp4, capacity, i as int),
                fresh_member(set.bf16, capacity),
                fresh_member(set.fp8, capacity),
                fresh_member(set.nvfp4, capacity),
            decreases linears@.len() - i,
        {
            let linear: Linear = linears[i];
            assert(linears@[i as int] == linear);
            match linear.storage {
                Storage::Bf16 => {
                    if set.bf16.is_none() {
                        set.bf16 = Some(new_batch_linear_plan(&linear, capacity));
                    }
                },
                Storage::Fp8 => {
                    if set.fp8.is_none() {
                        set.fp8 = Some(new_batch_linear_plan(&linear, capacity));
                    }
                },
                Storage::Nvfp4 => {
                    if set.nvfp4.is_none() {
                        set.nvfp4 = Some(new_batch_linear_plan(&linear, capacity));
                    }
                },
            }
            i += 1;
        }
        set
    }

    /// Whether every member is a plan of its own storage format.
    pub open spec fn well_formed(self) -> bool {
        forall|storage: Storage|
            (#[trigger] self.member(storage)) matches Some(plan) ==> plan.well_formed()
                && plan.storage == storage
    }

    /// Plans a projection with the member for its storage format.
    pub fn run_linear_batch_from_set(
        &mut self,
        linear: &Linear,
        quantization: BatchFp8InputQuantization,
        rows: usize,
        byte_identical: bool,
    ) -> (result: Result<Vec<LinearOp>, LinearError>)
        requires
            old(self).well_formed(),
            linear_fits(*linear, rows),
        ensures
            final(self).well_formed(),
            forall|storage: Storage|
                storage != linear.storage ==> #[trigger] final(self).member(storage) == old(
                    self,
                ).member(storage),
            ({
                let before = old(self).member(linear.storage);
                let after = final(self).member(linear.storage);
                match result {
                    Ok(ops) => {
                        &&& linear_obstacle(before, *linear, quantization) is None
                        &&& ops@ == linear_ops(
                            before->0,
                            *linear,
                            quantization,
                            rows,
                            byte_identical,
                        )
                        &&& after is Some
                        &&& after->0.planned@ == before->0.with_rows(
                            linear_rows(*linear, rows, byte_identical),
                        )
                    },
                    Err(error) => linear_obstacle(before, *linear, quantization) == Some(error)
                        && after == before,
                }
            }),
    {
        assert(old(self).member(linear.storage) matches Some(plan) ==> plan.well_formed()
            && plan.storage == linear.storage);
        let ghost before = *self;
        let result = match linear.storage {
            Storage::Bf16 => run_linear_batch(
                &mut self.bf16,
                linear,
                quantization,
                rows,
                byte_identical,
            ),
            Storage::Fp8 => run_linear_batch(
                &mut self.fp8,
                linear,
                quantization,
                rows,
                byte_identical,
            ),
            Storage::Nvfp4 => run_linear_batch(
                &mut self.nvfp4,
                linear,
                quantization,
                rows,
                byte_identical,
            ),
        };
        proof {
            assert forall|storage: Storage|
                (#[trigger] self.member(storage)) is Some implies self.member(
                storage,
            )->0.well_formed() && self.member(storage)->0.storage == storage by {
                if storage != linear.storage {
                    assert(self.member(storage) == before.member(storage));
                }
            }
        }
        result
    }
}


/// An activation prepared for some projections fits every FP8 projection among them.
pub proof fn law_prepared_activation_fits(linears: Seq<Linear>, rows: usize, index: int)
    requires
        0 <= index < linears.len(),
        linears[index].storage == Storage::Fp8,
    ensures
        fp8_obstacle(linears[index], quantization_of(linears, rows)) is None,
{
    assert(any_fp8(linears));
}

/// Plans that serve a projection still do so after a row count was added to them.
pub proof fn law_plans_keep_serving(
    before: BatchLinearPlan,
    after: BatchLinearPlan,
    linear: Linear,
    capacity: usize,
    rows: usize,
)
    requires
        before.serves(linear, capacity),
        after.well_formed(),
        after.storage == before.storage,
        after.planned@ == before.with_rows(rows),
    ensures
        after.serves(linear, capacity),
        after.planned@.contains(rows),
{
    if !before.planned@.contains(rows) {
        assert(after.planned@[before.planned@.len() as int] == rows);
    }
    let initial = initial_rows(linear.storage, capacity);
    assert(initial =~= after.planned@.subrange(0, initial.len() as int)) by {
        assert(initial =~= before.planned@.subrange(0, initial.len() as int));
    }
}

/// The calibrated scale of a prepared activation is the one that every FP8 projection among
/// those that share it was calibrated with.
pub proof fn law_static_scale_is_shared(linears: Seq<Linear>, rows: usize, scale: u32, index: int)
    requires
        quantization_of(linears, rows) == BatchFp8InputQuantization::Static(scale),
        0 <= index < linears.len(),
        linears[index].storage == Storage::Fp8,
    ensures
        rows >= STATIC_FP8_PREFILL_MIN_ROWS,
        linears[index].input_scale == Some(scale),
        !linears[index].channel_scaled,
        !linears[index].weight_only,
{
}

} // verus!
