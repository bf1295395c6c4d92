//! Steps of a batch, down to the device operations of each layer.

use vstd::prelude::*;
use crate::qwen36::allocation::LayerBuffers;
use crate::qwen36::attention::{
    enqueue_prefill_cache, AttentionError, AttentionOp, DecodeSequence, PrefillSequence,
};
use crate::qwen36::ffn::{FfnError, FfnPass};
use crate::qwen36::gdn::{BatchLinearAttentionStateSnapshots, GdnDecode, GdnOp, GdnPrefill};
use crate::qwen36::linear::LinearError;
use crate::qwen36::model::{Qwen36Attention, Qwen36TextModel};
use crate::qwen36::schedule::LayerStep;
use crate::qwen36::workspace::{enqueue_batch_tail, TailOp};

verus! {

/// One device operation of a batch.
#[derive(Clone, Copy, Debug, PartialEq, Eq, Structural)]
pub enum LayerOp {
    /// A step that is one operation.
    Step(LayerStep),
    /// An operation of recurrent attention.
    Gdn { layer: usize, op: GdnOp },
    /// An operation of attention over cached keys and values.
    Attention { layer: usize, op: AttentionOp },
    /// An operation after the attention of a layer.
    Tail { layer: usize, op: TailOp },
}

/// Why a step cannot run.
#[derive(Clone, Copy, Debug, PartialEq, Eq, Structural)]
pub enum StepError {
    /// A projection of recurrent attention refused it.
    Projection(LinearError),
    /// The attention refused it.
    Attention(AttentionError),
    /// The feed-forward block refused it.
    FeedForward(FfnError),
}

/// What the steps of a batch run on.
pub struct BatchSetting<'a> {
    /// Buffers of the layers.
    pub buffers: &'a LayerBuffers,
    /// State-table entries of one layer.
    pub sequence_capacity: usize,
    /// Tokens of each sequence of a prompt batch.
    pub lengths: &'a [u32],
    /// First row of each sequence of a prompt batch.
    pub offsets: &'a [u32],
    /// Where recurrent states are kept.
    pub snapshots: Option<&'a BatchLinearAttentionStateSnapshots>,
    /// Sequences of a prompt batch.
    pub prompts: &'a [PrefillSequence<'a>],
    /// Sequences of a decode batch.
    pub rows: &'a [DecodeSequence<'a>],
}

/// Recurrent operations of a layer.
pub open spec fn gdn_ops(layer: usize, ops: Seq<GdnOp>) -> Seq<LayerOp> {
    ops.map_values(|op: GdnOp| LayerOp::Gdn { layer, op })
}

/// Attention operations of a layer.
pub open spec fn attention_ops(layer: usize, ops: Seq<AttentionOp>) -> Seq<LayerOp> {
    ops.map_values(|op: AttentionOp| LayerOp::Attention { layer, op })
}

/// Operations of a layer after its attention.
pub open spec fn tail_ops(layer: usize, ops: Seq<TailOp>) -> Seq<LayerOp> {
    ops.map_values(|op: TailOp| LayerOp::Tail { layer, op })
}

fn push_gdn(ops: &mut Vec<LayerOp>, layer: usize, inner: &Vec<GdnOp>)
    ensures
        final(ops)@ == old(ops)@ + gdn_ops(layer, inner@),
{
    let ghost start = ops@;
    let ghost all = gdn_ops(layer, inner@);
    let mut i: usize = 0;
    assert(ops@ =~= start + all.take(0));
    while i < inner.len()
        invariant
            i <= inner@.len(),
            all == gdn_ops(layer, inner@),
            all.len() == inner@.len(),
            ops@ == start + all.take(i as int),
        decreases inner@.len() - i,
    {
        ops.push(LayerOp::Gdn { layer, op: inner[i] });
        i += 1;
        assert(ops@ =~= start + all.take(i as int));
    }
    assert(all.take(i as int) =~= all);
}

fn push_attention(ops: &mut Vec<LayerOp>, layer: usize, inner: &Vec<AttentionOp>)
    ensures
        final(ops)@ == old(ops)@ + attention_ops(layer, inner@),
{
    let ghost start = ops@;
    let ghost all = attention_ops(layer, inner@);
    let mut i: usize = 0;
    assert(ops@ =~= start + all.take(0));
    while i < inner.len()
        invariant
            i <= inner@.len(),
            all == attention_ops(layer, inner@),
            all.len() == inner@.len(),
            ops@ == start + all.take(i as int),
        decreases inner@.len() - i,
    {
        ops.push(LayerOp::Attention { layer, op: inner[i] });
        i += 1;
        assert(ops@ =~= start + all.take(i as int));
    }
    assert(all.take(i as int) =~= all);
}

fn push_tail(ops: &mut Vec<LayerOp>, layer: usize, inner: &Vec<TailOp>)
    ensures
        final(ops)@ == old(ops)@ + tail_ops(layer, inner@),
{
    let ghost start = ops@;
    let ghost all = tail_ops(layer, inner@);
    let mut i: usize = 0;
    assert(ops@ =~= start + all.take(0));
    while i < inner.len()
        invariant
            i <= inner@.len(),
            all == tail_ops(layer, inner@),
            all.len() == inner@.len(),
            ops@ == start + all.take(i as int),
        decreases inner@.len() - i,
    {
        ops.push(LayerOp::Tail { layer, op: inner[i] });
        i += 1;
        assert(ops@ =~= start + all.take(i as int));
    }
    assert(all.take(i as int) =~= all);
}

impl Qwen36TextModel {
    /// Prompt pass of a recurrent layer.
    pub open spec fn gdn_prefill<'a>(
        self,
        setting: BatchSetting<'a>,
        layer: usize,
        sequences: usize,
        rows: usize,
        serial_projections: bool,
        serial_recurrence: bool,
    ) -> GdnPrefill<'a> {
        GdnPrefill {
            layer: self.layers@[layer as int].attention->LinearAttention_0,
            plans: setting.buffers.linear.spec_plans(),
            layer_idx: layer,
            lengths: setting.lengths,
            sequence_capacity: setting.sequence_capacity,
            sequence_count: sequences,
            total_tokens: rows,
            row_capacity: rows,
            serial_projections,
            serial_recurrence,
            sigmoid_output_gate: false,
            chunked_available: setting.buffers.linear.chunked,
            snapshots: setting.snapshots,
        }
    }

    /// Decode pass of a recurrent layer.
    pub open spec fn gdn_decode(self, setting: BatchSetting, layer: usize, rows: usize) -> GdnDecode {
        GdnDecode {
            layer: self.layers@[layer as int].attention->LinearAttention_0,
            layer_idx: layer,
            plans: setting.buffers.linear.spec_plans(),
            capacity: rows,
        }
    }

    /// Feed-forward pass of a layer. The shared expert runs beside the routed ones.
    pub open spec fn ffn_pass(self, rows: usize, stabilise: bool) -> FfnPass {
        FfnPass { hidden: self.manifest.hidden, rows, stabilise, parallel: true }
    }

    /// Whether a step names a layer of the model.
    pub open spec fn has_layer(self, layer: usize, linear: bool) -> bool {
        &&& layer < self.layers@.len()
        &&& linear == (self.layers@[layer as int].attention is LinearAttention)
    }

    /// Steps that a batch of this model can hold, with representable sizes.
    pub open spec fn step_fits(self, setting: BatchSetting, step: LayerStep) -> bool {
        match step {
            LayerStep::LinearPrefill {
                layer,
                sequences,
                rows,
                serial_projections,
                serial_recurrence,
            } => self.has_layer(layer, true) && self.gdn_prefill(
                setting,
                layer,
                sequences,
                rows,
                serial_projections,
                serial_recurrence,
            ).fits(),
            LayerStep::LinearDecode { layer, rows } => self.has_layer(layer, true)
                && self.gdn_decode(setting, layer, rows).fits(),
            LayerStep::AttentionPre { layer, .. } => self.has_layer(layer, false),
            LayerStep::PromptCache { layer, .. } => {
                &&& setting.offsets@.len() >= setting.prompts@.len()
                &&& forall|i: int|
                    0 <= i < setting.prompts@.len() ==> (#[trigger] setting.prompts@[i]).fits(
                        setting.offsets@[i] as int,
                    )
            },
            LayerStep::DecodeCache { layer, rows } => {
                &&& self.has_layer(layer, false)
                &&& rows <= setting.rows@.len()
                &&& self.layers@[layer as int].attention->FullAttention_0.fits(rows)
                &&& forall|i: int|
                    0 <= i < setting.rows@.len() ==> (#[trigger] setting.rows@[i]).position
                        < usize::MAX
            },
            LayerStep::AttentionPost { layer, rows } => self.has_layer(layer, false)
                && self.layers@[layer as int].attention->FullAttention_0.fits(rows),
            LayerStep::Tail { layer, rows, stabilise } => {
                &&& layer < self.layers@.len()
                &&& self.ffn_pass(rows, stabilise).serves(
                    self.layers@[layer as int].ffn,
                    setting.buffers.ffn,
                )
                &&& rows * self.manifest.hidden <= usize::MAX
            },
            _ => true,
        }
    }

    /// What stands against a step of recurrent attention, if anything: buffers whose plans are
    /// for another storage format than that of the layer's weights.
    pub open spec fn recurrent_obstacle(
        self,
        setting: BatchSetting,
        step: LayerStep,
    ) -> Option<LinearError> {
        let plans = setting.buffers.linear.spec_plans();
        match step {
            LayerStep::LinearPrefill { layer, rows, .. } => plans.obstacle(
                self.layers@[layer as int].attention->LinearAttention_0,
                rows,
            ),
            LayerStep::LinearDecode { layer, rows } => plans.obstacle(
                self.layers@[layer as int].attention->LinearAttention_0,
                rows,
            ),
            _ => None,
        }
    }

    /// What stands against a step before or after full attention, if anything.
    pub open spec fn attention_obstacle(
        self,
        setting: BatchSetting,
        step: LayerStep,
    ) -> Option<AttentionError> {
        let plans = setting.buffers.full.spec_plans();
        match step {
            LayerStep::AttentionPre { layer, rows } =>
            self.layers@[layer as int].attention->FullAttention_0.pre_obstacle(plans, rows),
            LayerStep::AttentionPost { layer, rows } =>
            self.layers@[layer as int].attention->FullAttention_0.post_obstacle(plans, rows),
            _ => None,
        }
    }

    /// Whether a step runs.
    pub open spec fn step_runs(self, setting: BatchSetting, step: LayerStep) -> bool {
        match step {
            LayerStep::LinearPrefill { .. } | LayerStep::LinearDecode { .. } =>
            self.recurrent_obstacle(setting, step) is None,
            LayerStep::AttentionPre { .. } | LayerStep::AttentionPost { .. } =>
            self.attention_obstacle(setting, step) is None,
            LayerStep::PromptCache { .. } => forall|i: int|
                0 <= i < setting.prompts@.len() ==> (#[trigger] setting.prompts@[i]).covered(),
            LayerStep::DecodeCache { rows, .. } => forall|i: int|
                0 <= i < rows ==> (#[trigger] setting.rows@[i]).covered(),
            LayerStep::Tail { layer, rows, stabilise } => self.ffn_pass(rows, stabilise).obstacle(
                self.layers@[layer as int].ffn,
                setting.buffers.ffn,
            ) is None,
            _ => true,
        }
    }

    /// Whether a step is refused with an error.
    pub open spec fn step_refused(
        self,
        setting: BatchSetting,
        step: LayerStep,
        error: StepError,
    ) -> bool {
        match step {
            LayerStep::LinearPrefill { .. } | LayerStep::LinearDecode { .. } =>
            match self.recurrent_obstacle(setting, step) {
                Some(obstacle) => error == StepError::Projection(obstacle),
                None => false,
            },
            LayerStep::AttentionPre { .. } | LayerStep::AttentionPost { .. } =>
            match self.attention_obstacle(setting, step) {
                Some(obstacle) => error == StepError::Attention(obstacle),
                None => false,
            },
            LayerStep::PromptCache { .. } => exists|i: int|
                {
                    &&& 0 <= i < setting.prompts@.len()
                    &&& !(#[trigger] setting.prompts@[i]).covered()
                    &&& forall|j: int|
                        0 <= j < i ==> (#[trigger] setting.prompts@[j]).covered()
                    &&& error == StepError::Attention(
                        AttentionError::PrefillAppend {
                            start: setting.prompts@[i].reservation.start_position,
                            rows: setting.prompts@[i].reservation.rows,
                            position: setting.prompts@[i].position,
                            tokens: setting.prompts@[i].tokens,
                        },
                    )
                },
            LayerStep::DecodeCache { rows, .. } => {
                &&& exists|i: int| 0 <= i < rows && !(#[trigger] setting.rows@[i]).covered()
                &&& error == StepError::Attention(AttentionError::DecodeAppend)
            },
            LayerStep::Tail { layer, rows, stabilise } => match self.ffn_pass(
                rows,
                stabilise,
            ).obstacle(self.layers@[layer as int].ffn, setting.buffers.ffn) {
                Some(obstacle) => error == StepError::FeedForward(obstacle),
                None => false,
            },
            _ => false,
        }
    }

    /// Operations of a step that runs.
    pub open spec fn step_ops(self, setting: BatchSetting, step: LayerStep) -> Seq<LayerOp> {
        match step {
            LayerStep::LinearPrefill {
                layer,
                sequences,
                rows,
                serial_projections,
                serial_recurrence,
            } => gdn_ops(
                layer,
                self.gdn_prefill(
                    setting,
                    layer,
                    sequences,
                    rows,
                    serial_projections,
                    serial_recurrence,
                ).ops(),
            ),
            LayerStep::LinearDecode { layer, rows } => {
                let pass = self.gdn_decode(setting, layer, rows);
                gdn_ops(layer, pass.body_ops() + pass.exit_ops())
            },
            LayerStep::AttentionPre { layer, rows } => {
                let weights = self.layers@[layer as int].attention->FullAttention_0;
                attention_ops(layer, weights.pre_ops(rows, weights.sections->0))
            },
            LayerStep::PromptCache { layer, serial_rows } => attention_ops(
                layer,
                crate::qwen36::attention::prefill_ops(
                    setting.prompts@,
                    setting.offsets@,
                    serial_rows,
                    setting.prompts@.len(),
                ),
            ),
            LayerStep::DecodeCache { layer, rows } => {
                let weights = self.layers@[layer as int].attention->FullAttention_0;
                attention_ops(
                    layer,
                    Seq::new(rows as nat, |row: int| weights.decode_row(row, setting.rows@[row])),
                )
            },
            LayerStep::AttentionPost { layer, rows } => attention_ops(
                layer,
                self.layers@[layer as int].attention->FullAttention_0.post_ops(rows),
            ),
            LayerStep::Tail { layer, rows, stabilise } => {
                let pass = self.ffn_pass(rows, stabilise);
                tail_ops(
                    layer,
                    seq![
                        TailOp::AddAttention((pass.rows * pass.hidden) as usize),
                        TailOp::PostNorm(pass.rows),
                    ] + crate::qwen36::workspace::ffn_tail(
                        pass.ops(self.layers@[layer as int].ffn),
                    ),
                )
            },
            _ => seq![LayerOp::Step(step)],
        }
    }

    fn push_linear(&self, setting: &BatchSetting, step: LayerStep, ops: &mut Vec<LayerOp>) -> (
    result: Result<(), StepError>)
        requires
            step is LinearPrefill || step is LinearDecode,
            self.step_fits(*setting, step),
        ensures
            match result {
                Ok(_) => self.step_runs(*setting, step) && final(ops)@ == old(ops)@
                    + self.step_ops(*setting, step),
                Err(error) => !self.step_runs(*setting, step) && self.step_refused(
                    *setting,
                    step,
                    error,
                ),
            },
    {
        match step {
            LayerStep::LinearPrefill {
                layer,
                sequences,
                rows,
                serial_projections,
                serial_recurrence,
            } => {
                if let Qwen36Attention::LinearAttention(weights) = self.layers[layer].attention {
                    let pass = GdnPrefill {
                        layer: weights,
                        plans: setting.buffers.linear.plans(),
                        layer_idx: layer,
                        lengths: setting.lengths,
                        sequence_capacity: setting.sequence_capacity,
                        sequence_count: sequences,
                        total_tokens: rows,
                        row_capacity: rows,
                        serial_projections,
                        serial_recurrence,
                        sigmoid_output_gate: false,
                        chunked_available: setting.buffers.linear.chunked,
                        snapshots: setting.snapshots,
                    };
                    match pass.enqueue_prefill_chunks() {
                        Ok(inner) => push_gdn(ops, layer, &inner),
                        Err(error) => {
                            return Err(StepError::Projection(error));
                        },
                    }
                }
            },
            LayerStep::LinearDecode { layer, rows } => {
                if let Qwen36Attention::LinearAttention(weights) = self.layers[layer].attention {
                    let pass = GdnDecode {
                        layer: weights,
                        layer_idx: layer,
                        plans: setting.buffers.linear.plans(),
                        capacity: rows,
                    };
                    match pass.enqueue_batch() {
                        Ok(inner) => push_gdn(ops, layer, &inner),
                        Err(error) => {
                            return Err(StepError::Projection(error));
                        },
                    }
                }
            },
            _ => {},
        }
        Ok(())
    }

    fn push_full(&self, setting: &BatchSetting, step: LayerStep, ops: &mut Vec<LayerOp>) -> (result:
        Result<(), StepError>)
        requires
            step is AttentionPre || step is PromptCache || step is DecodeCache
                || step is AttentionPost,
            self.step_fits(*setting, step),
        ensures
            match result {
                Ok(_) => self.step_runs(*setting, step) && final(ops)@ == old(ops)@
                    + self.step_ops(*setting, step),
                Err(error) => !self.step_runs(*setting, step) && self.step_refused(
                    *setting,
                    step,
                    error,
                ),
            },
    {
        match step {
            LayerStep::AttentionPre { layer, rows } => {
                if let Qwen36Attention::FullAttention(weights) = self.layers[layer].attention {
                    match weights.enqueue_batch_pre(&setting.buffers.full.plans(), rows) {
                        Ok(inner) => push_attention(ops, layer, &inner),
                        Err(error) => {
                            return Err(StepError::Attention(error));
                        },
                    }
                }
            },
            LayerStep::PromptCache { layer, serial_rows } => {
                match enqueue_prefill_cache(setting.prompts, setting.offsets, serial_rows) {
                    Ok(inner) => push_attention(ops, layer, &inner),
                    Err(error) => {
                        return Err(StepError::Attention(error));
                    },
                }
            },
            LayerStep::DecodeCache { layer, rows } => {
                if let Qwen36Attention::FullAttention(weights) = self.layers[layer].attention {
                    match weights.enqueue_batch_cache(setting.rows, rows) {
                        Ok(inner) => push_attention(ops, layer, &inner),
                        Err(error) => {
                            return Err(StepError::Attention(error));
                        },
                    }
                }
            },
            LayerStep::AttentionPost { layer, rows } => {
                if let Qwen36Attention::FullAttention(weights) = self.layers[layer].attention {
                    match weights.enqueue_batch_post(&setting.buffers.full.plans(), rows) {
                        Ok(inner) => push_attention(ops, layer, &inner),
                        Err(error) => {
                            return Err(StepError::Attention(error));
                        },
                    }
                }
            },
            _ => {},
        }
        Ok(())
    }

    fn push_step(&self, setting: &BatchSetting, step: LayerStep, ops: &mut Vec<LayerOp>) -> (result:
        Result<(), StepError>)
        requires
            self.step_fits(*setting, step),
        ensures
            match result {
                Ok(_) => self.step_runs(*setting, step) && final(ops)@ == old(ops)@
                    + self.step_ops(*setting, step),
                Err(error) => !self.step_runs(*setting, step) && self.step_refused(
                    *setting,
                    step,
                    error,
                ),
            },
    {
        match step {
            LayerStep::LinearPrefill { .. } | LayerStep::LinearDecode { .. } => {
                return self.push_linear(setting, step, ops);
            },
            LayerStep::AttentionPre { .. } | LayerStep::PromptCache { .. }
            | LayerStep::DecodeCache { .. } | LayerStep::AttentionPost { .. } => {
                return self.push_full(setting, step, ops);
            },
            LayerStep::Tail { layer, rows, stabilise } => {
                let pass = FfnPass { hidden: self.manifest.hidden, rows, stabilise, parallel: true };
                match enqueue_batch_tail(&pass, &self.layers[layer].ffn, &setting.buffers.ffn) {
                    Ok(inner) => push_tail(ops, layer, &inner),
                    Err(error) => {
                        return Err(StepError::FeedForward(error));
                    },
                }
            },
            _ => {
                ops.push(LayerOp::Step(step));
                assert(ops@ =~= old(ops)@ + self.step_ops(*setting, step));
            },
        }
        Ok(())
    }

    /// Operations of the first `count` steps.
    pub open spec fn steps_ops(
        self,
        setting: BatchSetting,
        steps: Seq<LayerStep>,
        count: nat,
    ) -> Seq<LayerOp>
        decreases count,
    {
        if count == 0 {
            seq![]
        } else {
            self.steps_ops(setting, steps, (count - 1) as nat) + self.step_ops(
                setting,
                steps[count - 1],
            )
        }
    }

    /// Whether steps were refused or expanded as they should be: an error is that of the first
    /// step that does not run.
    pub open spec fn steps_expanded(
        self,
        setting: BatchSetting,
        steps: Seq<LayerStep>,
        result: Result<Seq<LayerOp>, StepError>,
    ) -> bool {
        match result {
            Ok(ops) => {
                &&& forall|i: int|
                    0 <= i < steps.len() ==> self.step_runs(setting, #[trigger] steps[i])
                &&& ops == self.steps_ops(setting, steps, steps.len())
            },
            Err(error) => exists|i: int|
                {
                    &&& 0 <= i < steps.len()
                    &&& self.step_refused(setting, #[trigger] steps[i], error)
                    &&& !self.step_runs(setting, steps[i])
                    &&& forall|j: int|
                        0 <= j < i ==> self.step_runs(setting, #[trigger] steps[j])
                },
        }
    }

    /// Expands steps into the operations of their layers.
    pub fn enqueue_steps(&self, setting: &BatchSetting, steps: &[LayerStep]) -> (result: Result<
        Vec<LayerOp>,
        StepError,
    >)
        requires
            forall|i: int|
                0 <= i < steps@.len() ==> self.step_fits(*setting, #[trigger] steps@[i]),
        ensures
            self.steps_expanded(
                *setting,
                steps@,
                match result {
                    Ok(ops) => Ok(ops@),
                    Err(error) => Err(error),
                },
            ),
    {
        let mut ops: Vec<LayerOp> = Vec::new();
        let mut i: usize = 0;
        while i < steps.len()
            invariant
                i <= steps@.len(),
                forall|j: int|
                    0 <= j < steps@.len() ==> self.step_fits(*setting, #[trigger] steps@[j]),
                forall|j: int| 0 <= j < i ==> self.step_runs(*setting, #[trigger] steps@[j]),
                ops@ == self.steps_ops(*setting, steps@, i as nat),
            decreases steps@.len() - i,
        {
            let step: LayerStep = steps[i];
            assert(step == steps@[i as int]);
            match self.push_step(setting, step, &mut ops) {
                Ok(_) => {},
                Err(error) => {
                    assert(self.step_refused(*setting, steps@[i as int], error));
                    return Err(error);
                },
            }
            i += 1;
        }
        Ok(ops)
    }
}

} // verus!
