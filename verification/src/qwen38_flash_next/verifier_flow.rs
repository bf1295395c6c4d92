//! What the vocabulary head of a verification pass leaves in its buffers.

use crate::manifest::QwenLayerKind;
use crate::qwen38_flash_next::forward::HyperRows;
use crate::qwen38_flash_next::model::{
    Qwen38FlashNextModel, Qwen38FlashNextVectorVerifierProbeWorkspace,
    Qwen38VectorVerifierProbeMode,
};
use crate::qwen38_flash_next::speculative::VerifierOp;
use vstd::prelude::*;

verus! {

/// Rows in each buffer of the head.
pub struct VerifierDevice {
    /// Every operation so far found its input ready.
    pub sound: bool,
    /// Collapsed rows.
    pub mixed: int,
    /// Values of the rows that the head takes.
    pub copied: int,
    /// Rows that a token was chosen for.
    pub chosen: int,
    /// Whether each row was collapsed as it would be on its own.
    pub exact_rows: bool,
    /// Whether each token was chosen as it would be on its own.
    pub exact_head: bool,
    /// Rows whose token the host has.
    pub read: int,
}

/// Buffers before the first operation.
pub open spec fn idle() -> VerifierDevice {
    VerifierDevice {
        sound: true,
        mixed: 0,
        copied: 0,
        chosen: 0,
        exact_rows: false,
        exact_head: false,
        read: 0,
    }
}

/// What the operations of the head do, on rows of width `hidden`.
pub open spec fn verifier_step(hidden: usize) -> spec_fn(
    VerifierDevice,
    VerifierOp,
) -> VerifierDevice {
    |device: VerifierDevice, op: VerifierOp|
        match op {
            VerifierOp::FinalMix { rows } => VerifierDevice {
                mixed: match rows {
                    HyperRows::Batch(rows) => rows as int,
                    HyperRows::ExactPair => 2,
                },
                exact_rows: rows is ExactPair,
                ..device
            },
            VerifierOp::CopyHidden { values } => VerifierDevice {
                sound: device.sound && values <= device.mixed * hidden,
                copied: values as int,
                ..device
            },
            VerifierOp::HeadExactPair => VerifierDevice {
                sound: device.sound && device.copied == 2 * hidden,
                chosen: 2,
                exact_head: true,
                ..device
            },
            VerifierOp::HeadTop1 { rows } => VerifierDevice {
                sound: device.sound && device.copied == rows * hidden,
                chosen: rows as int,
                exact_head: false,
                ..device
            },
            VerifierOp::ReadArgmax { rows } => VerifierDevice {
                sound: device.sound && rows == device.chosen,
                read: rows as int,
                ..device
            },
        }
}

/// The head of a verification pass collapses every row, chooses a token for each, and hands all
/// of them to the host; a pair of rows is taken as each would be on its own wherever the
/// workspace asks for it.
#[verifier::rlimit(40)]
pub proof fn law_verifier_head_runs(
    workspace: Qwen38FlashNextVectorVerifierProbeWorkspace,
    rows: usize,
    hidden: usize,
)
    requires
        rows * hidden <= usize::MAX,
        workspace.exact_output_head || workspace.exact_hyper_projections ==> rows == 2,
    ensures
        ({
            let device = crate::device::after(
                verifier_step(hidden),
                idle(),
                crate::qwen38_flash_next::speculative::verifier_ops(workspace, rows, hidden),
            );
            &&& device.sound
            &&& device.mixed == rows
            &&& device.copied == rows * hidden
            &&& device.read == rows
            &&& device.exact_rows == workspace.exact_hyper_projections
            &&& device.exact_head == workspace.exact_output_head
        }),
{
    let step = verifier_step(hidden);
    let ops = crate::qwen38_flash_next::speculative::verifier_ops(workspace, rows, hidden);
    assert(0 <= rows * hidden) by (nonlinear_arith);
    crate::device::lemma_after_four(step, idle(), ops);
    let d1 = step(idle(), ops[0]);
    assert(d1.mixed == rows);
    let d2 = step(d1, ops[1]);
    assert(d2.sound && d2.copied == rows * hidden);
    let d3 = step(d2, ops[2]);
    assert(d3.sound && d3.chosen == rows);
}

/// Attention of a verification pass runs one row at a time in every mode. The exact mode takes
/// every path as it is for a single token and the fast one none, no mode takes two paths for its
/// experts, and recurrent rows are exact wherever their projections run one at a time.
pub proof fn law_modes_take_their_paths(mode: Qwen38VectorVerifierProbeMode)
    ensures
        ({
            let paths = crate::qwen38_flash_next::model::verifier_paths(mode);
            let any = paths.exact_ple || paths.exact_gdn || paths.exact_moe
                || paths.serial_gdn_projections || paths.canonical_moe_linears
                || paths.exact_hyper_projections;
            &&& paths.serial_qsa_rows && !paths.traced
            &&& paths.exact_gdn == paths.serial_gdn_projections
            &&& !(paths.exact_moe && paths.canonical_moe_linears)
            &&& mode is Fast <==> !any
            &&& mode is Exact <==> paths.exact_ple && paths.exact_gdn && paths.exact_moe
                && paths.exact_hyper_projections
            &&& paths.exact_ple || paths.exact_hyper_projections ==> mode is Exact
            &&& paths.exact_gdn && !paths.exact_moe && !paths.canonical_moe_linears
                <==> mode is SerialGdnProjections
            &&& paths.exact_gdn && paths.canonical_moe_linears
                <==> mode is CanonicalMoeLinearsSerialGdn
            &&& !paths.exact_gdn && paths.canonical_moe_linears <==> mode is CanonicalMoeLinears
            &&& !paths.exact_gdn && paths.exact_moe <==> mode is ExactMoe
        }),
{
}

/// A verifier can be made exactly where there are at least two rows, the model has both kinds of
/// attention, exact recurrent rows have their sizes, and exact experts have their pair of rows.
pub proof fn law_verifier_is_made_where_it_can_run(
    model: Qwen38FlashNextModel,
    rows: usize,
    mode: Qwen38VectorVerifierProbeMode,
)
    ensures
        model.verifier_obstacle(rows, mode) is None <==> {
            &&& rows >= 2
            &&& model.manifest.layer_kinds@.contains(QwenLayerKind::LinearAttention)
            &&& model.manifest.layer_kinds@.contains(QwenLayerKind::FullAttention)
            &&& mode is SerialGdnProjections || mode is CanonicalMoeLinearsSerialGdn
                || mode is Exact ==> model.manifest.linear_attention is Some
            &&& mode is ExactMoe || mode is Exact ==> rows == 2
        },
{
}

} // verus!
