//! Layers run on the workspaces that are made for them, and plans stand where everything fits.

use crate::qwen36::attention::{AttentionError, AttentionLayer};
use crate::qwen36::execution::{CacheCosts, Qwen36ExecutionConfig};
use crate::qwen36::ffn::{
    BatchDenseMlpWorkspace, BatchMoeWorkspace, DenseWeights, FfnPass, FfnProjection, FfnWeights,
    MoeWeights,
};
use crate::qwen36::gdn::GdnLayer;
use crate::qwen36::linear::{Linear, LinearError, Storage};
use crate::qwen36::workspace::{BatchFullAttentionWorkspace, BatchLinearAttentionWorkspace};
use vstd::prelude::*;

verus! {

/// A projection among some that share an input is never refused on plans for its own format.
proof fn lemma_planned(linears: Seq<Linear>, rows: usize, index: int)
    requires
        0 <= index < linears.len(),
    ensures
        crate::qwen36::linear::storage_obstacle(
            linears[index].storage,
            linears[index],
            crate::qwen36::linear::quantization_of(linears, rows),
        ) is None,
{
    if linears[index].storage == Storage::Fp8 {
        crate::qwen36::linear::law_prepared_activation_fits(linears, rows, index);
    }
}

/// An attention layer with rotary sections runs on the workspace that was made for it, with any
/// number of rows; one without sections is refused for that, and plans for another format are.
pub proof fn law_attention_runs_on_its_workspace(
    workspace: BatchFullAttentionWorkspace,
    layer: AttentionLayer,
    capacity: usize,
    max_context_tokens: usize,
    rows: usize,
)
    requires
        workspace.made_for(layer, capacity, max_context_tokens),
    ensures
        layer.pre_obstacle(workspace.spec_plans(), rows) == if layer.sections is Some {
            None
        } else {
            Some(AttentionError::NoSections)
        },
        layer.post_obstacle(workspace.spec_plans(), rows) is None,
{
    let entry = seq![layer.q, layer.k, layer.v];
    lemma_planned(entry, rows, 0);
    lemma_planned(entry, rows, 1);
    lemma_planned(entry, rows, 2);
    lemma_planned(seq![layer.o], rows, 0);
}

/// A recurrent layer runs on the workspace that was made for it, with any number of rows.
pub proof fn law_recurrence_runs_on_its_workspace(
    workspace: BatchLinearAttentionWorkspace,
    layer: GdnLayer,
    layers: usize,
    capacity: usize,
    states: usize,
    chunked: bool,
    rows: usize,
)
    requires
        workspace.made_for(layer, layers, capacity, states, chunked),
    ensures
        workspace.spec_plans().obstacle(layer, rows) is None,
{
    let entry = seq![layer.qkv, layer.z];
    lemma_planned(entry, rows, 0);
    lemma_planned(entry, rows, 1);
    lemma_planned(seq![layer.out], rows, 0);
}

/// A projection on plans for another storage format is refused for that, whatever its input.
pub proof fn law_plans_for_another_format_are_refused(linear: Linear, planned: Storage, rows: usize)
    requires
        planned != linear.storage,
    ensures
        crate::qwen36::linear::storage_obstacle(
            planned,
            linear,
            crate::qwen36::linear::quantization_of(seq![linear], rows),
        ) == Some(LinearError::PlanStorage),
{
}

proof fn lemma_dense_linear(layers: Seq<FfnWeights>, target: FfnProjection, count: nat, layer: int)
    requires
        0 <= layer < count <= layers.len(),
        layers[layer] is Dense,
    ensures
        crate::qwen36::ffn::dense_linears(layers, target, count).contains(
            match target {
                FfnProjection::GateUp => layers[layer]->Dense_0.gate_up,
                FfnProjection::Down => layers[layer]->Dense_0.down,
            },
        ),
    decreases count,
{
    let less = (count - 1) as nat;
    let before = crate::qwen36::ffn::dense_linears(layers, target, less);
    let after = crate::qwen36::ffn::dense_linears(layers, target, count);
    let wanted = match target {
        FfnProjection::GateUp => layers[layer]->Dense_0.gate_up,
        FfnProjection::Down => layers[layer]->Dense_0.down,
    };
    if layer < less {
        lemma_dense_linear(layers, target, less, layer);
        let at = before.index_of(wanted);
        assert(after[at] == wanted);
    } else {
        assert(after[before.len() as int] == wanted);
    }
}

/// The dense block of every layer runs on the workspace that was made for all of them.
pub proof fn law_dense_blocks_run_on_their_workspace(
    workspace: BatchDenseMlpWorkspace,
    layers: Seq<FfnWeights>,
    first: DenseWeights,
    capacity: usize,
    pass: FfnPass,
    layer: int,
)
    requires
        workspace.made_for(layers, first, capacity),
        0 <= layer < layers.len(),
        layers[layer] is Dense,
    ensures
        pass.dense_obstacle(layers[layer]->Dense_0, workspace) is None,
{
    let weights = layers[layer]->Dense_0;
    let gate_up = crate::qwen36::ffn::dense_linears(layers, FfnProjection::GateUp, layers.len());
    let down = crate::qwen36::ffn::dense_linears(layers, FfnProjection::Down, layers.len());
    lemma_dense_linear(layers, FfnProjection::GateUp, layers.len(), layer);
    lemma_dense_linear(layers, FfnProjection::Down, layers.len(), layer);
    lemma_planned(seq![weights.gate_up], pass.rows, 0);
    lemma_planned(seq![weights.down], pass.rows, 0);
    let first_member = workspace.gate_up_plans.member(weights.gate_up.storage);
    let second_member = workspace.down_plans.member(weights.down.storage);
    assert(gate_up[gate_up.index_of(weights.gate_up)].storage == weights.gate_up.storage);
    assert(down[down.index_of(weights.down)].storage == weights.down.storage);
    assert(first_member is Some && second_member is Some);
}

/// Routed experts that can be grouped run on the workspace that was made for them exactly where
/// the batch has rows and no more than fit.
pub proof fn law_experts_run_on_their_workspace(
    workspace: BatchMoeWorkspace,
    hidden: usize,
    weights: MoeWeights,
    capacity: usize,
    pass: FfnPass,
)
    requires
        workspace.made_for(hidden, weights, capacity),
        weights.cutlass && weights.grouped && weights.shared != Storage::Fp8,
    ensures
        weights.obstacle() is None,
        pass.moe_obstacle(weights, workspace) is None <==> 0 < pass.rows <= capacity,
{
}

/// A plan of the caches stands exactly where its sizes are representable and it has a page.
pub proof fn law_plan_stands_where_everything_fits(
    costs: CacheCosts,
    config: Qwen36ExecutionConfig,
    dflash2: bool,
)
    requires
        costs.page_bytes > 0,
        costs.page_tokens > 0,
    ensures
        ({
            let target = crate::qwen36::execution::target_bytes(config, dflash2);
            let slots = crate::qwen36::execution::page_slots(costs, config, dflash2);
            crate::qwen36::execution::plan_obstacle(costs, config, dflash2) is None <==> {
                &&& costs.active_capacity(config) + target <= usize::MAX
                &&& 0 < slots <= usize::MAX
                &&& costs.vocab * 4 <= usize::MAX
                &&& costs.fixed_per_sequence() <= usize::MAX
                &&& costs.eager_pages(config) <= usize::MAX
            }
        }),
{
    crate::qwen36::capacity_laws::law_pages_are_just_enough(
        config.max_context_tokens as int,
        costs.page_tokens as int,
    );
    crate::qwen36::capacity_laws::law_retained_bytes_are_shared_out(config, dflash2);
    let fixed = costs.fixed_per_sequence();
    let count = config.max_active_sequences as int;
    let pages = crate::qwen36::execution::pages_of(
        config.max_context_tokens as int,
        costs.page_tokens as int,
    );
    assert(0 <= fixed * count) by (nonlinear_arith)
        requires
            0 <= fixed,
            0 <= count,
    ;
    let eager = pages * count;
    assert(0 <= eager) by (nonlinear_arith)
        requires
            eager == pages * count,
            0 <= pages,
            0 <= count,
    ;
    assert(0 <= eager * costs.page_bytes) by (nonlinear_arith)
        requires
            0 <= eager,
    ;
}

} // verus!
