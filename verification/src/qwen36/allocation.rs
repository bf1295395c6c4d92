//! Workspaces of the hybrid model's batches, with the buffers of their layers.

use vstd::prelude::*;
use crate::manifest::{first_kind, QwenLayerKind};
use crate::qwen36::attention::AttentionLayer;
use crate::qwen36::batch::{
    segmented_graphs, Qwen36DecodeBatchWorkspace, Qwen36PrefillBatchWorkspace,
};
use crate::qwen36::ffn::{BatchFfnWorkspace, FfnError, FfnWeights};
use crate::qwen36::gdn::GdnLayer;
use crate::qwen36::linear::{new_batch_linear_plan, BatchLinearPlan, Storage};
use crate::qwen36::model::{Qwen36Attention, Qwen36LayerBlock, Qwen36TextModel};
use crate::qwen36::workspace::{BatchFullAttentionWorkspace, BatchLinearAttentionWorkspace};

verus! {

/// Why a workspace cannot be made.
#[derive(Clone, Copy, Debug, PartialEq, Eq, Structural)]
pub enum AllocationError {
    /// A capacity is zero.
    Capacity,
    /// The feed-forward block of the first layer does not run in batches.
    FeedForward(FfnError),
}

/// Buffers that the layers of a batch share.
pub struct LayerBuffers {
    /// Residual rows, in values; as many for the normalised rows, the attention residual and the
    /// input of the feed-forward block.
    pub hidden: usize,
    /// Pairs of events between the streams of routed and shared experts, one for each layer.
    pub stream_events: usize,
    /// Buffers of the recurrent layers.
    pub linear: BatchLinearAttentionWorkspace,
    /// Buffers of the attention layers.
    pub full: BatchFullAttentionWorkspace,
    /// Buffers of the feed-forward blocks.
    pub ffn: BatchFfnWorkspace,
}

/// A workspace of prompt batches and its buffers.
pub struct PrefillAllocation {
    /// Limits and paths.
    pub workspace: Qwen36PrefillBatchWorkspace,
    /// Buffers of the layers.
    pub buffers: LayerBuffers,
}

/// A workspace of decode batches and its buffers.
pub struct DecodeAllocation {
    /// Limits and paths.
    pub workspace: Qwen36DecodeBatchWorkspace,
    /// Buffers of the layers.
    pub buffers: LayerBuffers,
    /// Plans of the head, where its weights take eight bits.
    pub head_plan: Option<BatchLinearPlan>,
    /// Logits.
    pub logits: usize,
    /// Words of the token masks.
    pub mask_words: usize,
}

/// Whether the layer at an index is the first one of its kind.
pub open spec fn is_first(kinds: Seq<QwenLayerKind>, kind: QwenLayerKind, index: int) -> bool {
    &&& 0 <= index < kinds.len()
    &&& kinds[index] == kind
    &&& forall|i: int| 0 <= i < index ==> kinds[i] != kind
}

/// Words with one bit for each vocabulary entry.
pub open spec fn words(vocab: int) -> int {
    (vocab + 31) / 32
}

impl Qwen36LayerBlock {
    /// Whether the sizes of batches of this layer are representable.
    pub open spec fn batch_fits(
        self,
        hidden: usize,
        layers: usize,
        rows: usize,
        states: usize,
    ) -> bool {
        &&& match self.attention {
            Qwen36Attention::LinearAttention(layer) => BatchLinearAttentionWorkspace::fits(
                layer,
                layers,
                rows,
                states,
            ),
            Qwen36Attention::FullAttention(layer) => BatchFullAttentionWorkspace::fits(layer, rows),
        }
        &&& self.ffn.fits(hidden, rows)
    }
}

impl Qwen36TextModel {
    /// Models with both kinds of attention whose batches have representable sizes.
    pub open spec fn batches_fit(self, rows: usize, states: usize) -> bool {
        &&& self.spec_kinds().contains(QwenLayerKind::LinearAttention)
        &&& self.spec_kinds().contains(QwenLayerKind::FullAttention)
        &&& rows * self.manifest.hidden <= usize::MAX
        &&& forall|i: int|
            0 <= i < self.layers@.len() ==> (#[trigger] self.layers@[i]).batch_fits(
                self.manifest.hidden,
                self.layers@.len() as usize,
                rows,
                states,
            )
    }

    /// Feed-forward blocks of the layers.
    pub open spec fn spec_ffn(self) -> Seq<FfnWeights> {
        self.layers@.map_values(|block: Qwen36LayerBlock| block.ffn)
    }

    fn ffn_weights(&self) -> (weights: Vec<FfnWeights>)
        ensures
            weights@ == self.spec_ffn(),
    {
        let mut weights: Vec<FfnWeights> = Vec::new();
        let mut i: usize = 0;
        while i < self.layers.len()
            invariant
                i <= self.layers@.len(),
                weights@ == self.spec_ffn().take(i as int),
            decreases self.layers@.len() - i,
        {
            weights.push(self.layers[i].ffn);
            i += 1;
            assert(weights@ =~= self.spec_ffn().take(i as int));
        }
        assert(weights@ =~= self.spec_ffn());
        weights
    }

    /// What stands against the batches of the first layer's feed-forward block, if anything.
    pub open spec fn ffn_obstacle(self) -> Option<FfnError> {
        match self.layers@[0].ffn {
            FfnWeights::Moe(weights) => weights.obstacle(),
            FfnWeights::Dense(_) => None,
        }
    }

    /// Whether feed-forward buffers are those of the first layer.
    pub open spec fn ffn_made_for(self, ffn: BatchFfnWorkspace, rows: usize) -> bool {
        match (self.layers@[0].ffn, ffn) {
            (FfnWeights::Moe(weights), BatchFfnWorkspace::Moe(workspace)) => workspace.made_for(
                self.manifest.hidden,
                weights,
                rows,
            ),
            (FfnWeights::Dense(weights), BatchFfnWorkspace::Dense(workspace)) => workspace.made_for(
                self.spec_ffn(),
                weights,
                rows,
            ),
            _ => false,
        }
    }

    /// Whether buffers are sized and planned for batches: each kind of attention by its first
    /// layer, the feed-forward blocks by the first layer of all. Batches may have added plans.
    pub open spec fn buffers_made_for(
        self,
        buffers: LayerBuffers,
        rows: usize,
        states: usize,
        max_context_tokens: usize,
        chunked_prefill: bool,
    ) -> bool {
        &&& buffers.hidden == rows * self.manifest.hidden
        &&& buffers.stream_events == self.layers@.len()
        &&& forall|i: int| #[trigger]
            is_first(self.spec_kinds(), QwenLayerKind::LinearAttention, i)
                ==> buffers.linear.made_for(
                self.layers@[i].attention->LinearAttention_0,
                self.layers@.len() as usize,
                rows,
                states,
                chunked_prefill,
            )
        &&& forall|i: int| #[trigger]
            is_first(self.spec_kinds(), QwenLayerKind::FullAttention, i) ==> buffers.full.made_for(
                self.layers@[i].attention->FullAttention_0,
                rows,
                max_context_tokens,
            )
        &&& self.ffn_made_for(buffers.ffn, rows)
    }

    /// Whether the plans of buffers are those that the projections of their layers start with.
    pub open spec fn buffers_fresh(self, buffers: LayerBuffers, rows: usize) -> bool {
        &&& forall|i: int| #[trigger]
            is_first(self.spec_kinds(), QwenLayerKind::LinearAttention, i)
                ==> buffers.linear.fresh(self.layers@[i].attention->LinearAttention_0, rows)
        &&& forall|i: int| #[trigger]
            is_first(self.spec_kinds(), QwenLayerKind::FullAttention, i) ==> buffers.full.fresh(
                self.layers@[i].attention->FullAttention_0,
                rows,
            )
        &&& buffers.ffn matches BatchFfnWorkspace::Dense(workspace) ==> workspace.fresh(rows)
    }

    fn new_layer_buffers(
        &self,
        rows: usize,
        states: usize,
        max_context_tokens: usize,
        chunked_prefill: bool,
    ) -> (result: Result<LayerBuffers, AllocationError>)
        requires
            self.batches_fit(rows, states),
        ensures
            match result {
                Ok(buffers) => {
                    &&& self.ffn_obstacle() is None
                    &&& self.buffers_made_for(
                        buffers,
                        rows,
                        states,
                        max_context_tokens,
                        chunked_prefill,
                    )
                    &&& self.buffers_fresh(buffers, rows)
                },
                Err(error) => match self.ffn_obstacle() {
                    Some(obstacle) => error == AllocationError::FeedForward(obstacle),
                    None => false,
                },
            },
    {
        let kinds = self.layer_kinds();
        let layers: usize = self.layers.len();
        let first_linear: usize = match first_kind(&kinds, QwenLayerKind::LinearAttention) {
            Some(index) => index,
            None => 0,
        };
        let first_full: usize = match first_kind(&kinds, QwenLayerKind::FullAttention) {
            Some(index) => index,
            None => 0,
        };
        assert(is_first(
            self.spec_kinds(),
            QwenLayerKind::LinearAttention,
            first_linear as int,
        ));
        assert(is_first(self.spec_kinds(), QwenLayerKind::FullAttention, first_full as int));
        assert(self.layers@[first_linear as int].spec_kind() == kinds@[first_linear as int]);
        assert(self.layers@[first_full as int].spec_kind() == kinds@[first_full as int]);
        let weights = self.ffn_weights();
        let ffn = match BatchFfnWorkspace::new(
            weights.as_slice(),
            &self.layers[0].ffn,
            self.manifest.hidden,
            rows,
        ) {
            Ok(ffn) => ffn,
            Err(error) => {
                return Err(AllocationError::FeedForward(error));
            },
        };
        let linear_layer: GdnLayer = match self.layers[first_linear].attention {
            Qwen36Attention::LinearAttention(layer) => layer,
            Qwen36Attention::FullAttention(_) => {
                assert(false);
                return Err(AllocationError::Capacity);
            },
        };
        let full_layer: AttentionLayer = match self.layers[first_full].attention {
            Qwen36Attention::FullAttention(layer) => layer,
            Qwen36Attention::LinearAttention(_) => {
                assert(false);
                return Err(AllocationError::Capacity);
            },
        };
        let linear = BatchLinearAttentionWorkspace::new(
            &linear_layer,
            layers,
            rows,
            states,
            chunked_prefill,
        );
        let full = BatchFullAttentionWorkspace::new(&full_layer, rows, max_context_tokens);
        Ok(
            LayerBuffers {
                hidden: rows * self.manifest.hidden,
                stream_events: layers,
                linear,
                full,
                ffn,
            },
        )
    }

    /// Creates the workspace of prompt batches.
    pub fn new_prefill_batch_workspace(
        &self,
        sequence_capacity: usize,
        token_capacity: usize,
        max_context_tokens: usize,
    ) -> (result: Result<PrefillAllocation, AllocationError>)
        requires
            sequence_capacity > 0 && token_capacity > 0 && max_context_tokens > 0
                ==> self.batches_fit(token_capacity, sequence_capacity),
        ensures
            ({
                let usable = sequence_capacity > 0 && token_capacity > 0 && max_context_tokens > 0;
                match result {
                    Ok(allocation) => {
                        &&& usable && self.ffn_obstacle() is None
                        &&& allocation.workspace == (Qwen36PrefillBatchWorkspace {
                            model_id: self.model_id,
                            sequence_capacity,
                            token_capacity,
                            max_context_tokens,
                            layer_graphs: false,
                            serial_linear_attention_projections: false,
                            serial_linear_attention_recurrence: false,
                            serial_full_attention_rows: false,
                        })
                        &&& self.buffers_made_for(
                            allocation.buffers,
                            token_capacity,
                            sequence_capacity,
                            max_context_tokens,
                            true,
                        )
                        &&& self.buffers_fresh(allocation.buffers, token_capacity)
                    },
                    Err(error) => if !usable {
                        error == AllocationError::Capacity
                    } else {
                        match self.ffn_obstacle() {
                            Some(obstacle) => error == AllocationError::FeedForward(obstacle),
                            None => false,
                        }
                    },
                }
            }),
    {
        let workspace = match Qwen36PrefillBatchWorkspace::new(
            self.model_id,
            sequence_capacity,
            token_capacity,
            max_context_tokens,
        ) {
            Ok(workspace) => workspace,
            Err(_) => {
                return Err(AllocationError::Capacity);
            },
        };
        match self.new_layer_buffers(token_capacity, sequence_capacity, max_context_tokens, true) {
            Ok(buffers) => Ok(PrefillAllocation { workspace, buffers }),
            Err(error) => Err(error),
        }
    }

    /// Creates the workspace of decode batches. `graphs_variable` is the value of the
    /// environment variable that can turn layer graphs off.
    pub fn new_decode_batch_workspace(
        &self,
        capacity: usize,
        max_context_tokens: usize,
        graphs_variable: &Option<String>,
    ) -> (result: Result<DecodeAllocation, AllocationError>)
        requires
            capacity > 0 && max_context_tokens > 0 ==> {
                &&& self.batches_fit(capacity, capacity)
                &&& capacity * self.manifest.vocab <= usize::MAX
            },
        ensures
            ({
                let usable = capacity > 0 && max_context_tokens > 0;
                match result {
                    Ok(allocation) => {
                        &&& usable && self.ffn_obstacle() is None
                        &&& allocation.workspace == (Qwen36DecodeBatchWorkspace {
                            model_id: self.model_id,
                            capacity,
                            max_context_tokens,
                            layer_graphs: !crate::qwen36::batch::disables_graphs(
                                match *graphs_variable {
                                    Some(text) => Some(text@),
                                    None => None,
                                },
                            ),
                        })
                        &&& self.buffers_made_for(
                            allocation.buffers,
                            capacity,
                            capacity,
                            max_context_tokens,
                            false,
                        )
                        &&& self.buffers_fresh(allocation.buffers, capacity)
                        &&& match allocation.head_plan {
                            Some(plan) => self.lm_head.storage == Storage::Fp8
                                && crate::qwen36::workspace::fresh_plan(
                                plan,
                                self.lm_head,
                                capacity,
                            ),
                            None => self.lm_head.storage != Storage::Fp8,
                        }
                        &&& allocation.logits == capacity * self.manifest.vocab
                        &&& allocation.mask_words == capacity * words(self.manifest.vocab as int)
                    },
                    Err(error) => if !usable {
                        error == AllocationError::Capacity
                    } else {
                        match self.ffn_obstacle() {
                            Some(obstacle) => error == AllocationError::FeedForward(obstacle),
                            None => false,
                        }
                    },
                }
            }),
    {
        let workspace = match Qwen36DecodeBatchWorkspace::new(
            self.model_id,
            capacity,
            max_context_tokens,
            segmented_graphs(graphs_variable),
        ) {
            Ok(workspace) => workspace,
            Err(_) => {
                return Err(AllocationError::Capacity);
            },
        };
        let buffers = match self.new_layer_buffers(capacity, capacity, max_context_tokens, false) {
            Ok(buffers) => buffers,
            Err(error) => {
                return Err(error);
            },
        };
        let head_plan = match self.lm_head.storage {
            Storage::Fp8 => Some(new_batch_linear_plan(&self.lm_head, capacity)),
            _ => None,
        };
        let vocab: usize = self.manifest.vocab;
        let masks: usize = if vocab % 32 == 0 {
            vocab / 32
        } else {
            vocab / 32 + 1
        };
        assert(masks == words(vocab as int));
        assert(capacity * masks <= capacity * vocab) by (nonlinear_arith)
            requires
                masks <= vocab,
        ;
        Ok(
            DecodeAllocation {
                workspace,
                buffers,
                head_plan,
                logits: capacity * vocab,
                mask_words: capacity * masks,
            },
        )
    }
}

} // verus!
