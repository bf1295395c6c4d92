//! Resources that one Flash Next model keeps between service ticks.

use crate::manifest::{count_kind, QwenLayerKind};
use crate::qwen38_flash_next::model::{
    ModelError, Qwen38FlashNextModel, Qwen38FlashNextPrefillWorkspace,
    Qwen38FlashNextVectorVerifierProbeWorkspace, Qwen38VectorVerifierProbeMode,
};
use crate::qwen38_flash_next::mtp::MtpBuffers;
use vstd::prelude::*;

verus! {

/// Capacity and retention limits of one model.
#[derive(Clone, Copy, Debug, PartialEq, Eq, Structural)]
pub struct Qwen38FlashNextExecutionConfig {
    /// Most sequences at a time.
    pub max_active_sequences: usize,
    /// Most tokens of a sequence.
    pub max_context_tokens: usize,
    /// Most tokens of a prompt chunk.
    pub prefill_token_capacity: usize,
    /// Tokens drafted in each cycle.
    pub speculative_drafts: usize,
    /// Bytes of prefixes that are kept after their sequences.
    pub retained_prefix_bytes: usize,
}

/// Limits of a sequence cache.
#[derive(Clone, Copy, Debug, PartialEq, Eq, Structural)]
pub struct SequenceCachePlan {
    /// Most sequences at a time.
    pub max_active_sequences: usize,
    /// Most tokens of a sequence.
    pub max_context_tokens: usize,
    /// Bytes of prefixes that are kept.
    pub max_retained_bytes: usize,
}

/// Resources of native drafting.
pub struct DraftResources {
    /// Cache of the draft block.
    pub cache: SequenceCachePlan,
    /// Context of the draft block's attention.
    pub max_context_tokens: usize,
    /// Workspace of the draft block.
    pub buffers: MtpBuffers,
    /// Verifier of the drafts.
    pub verifier: Qwen38FlashNextVectorVerifierProbeWorkspace,
}

/// Resources of one model.
pub struct Qwen38FlashNextExecutionState {
    /// Workspace of prompt chunks.
    pub prefill_workspace: Qwen38FlashNextPrefillWorkspace,
    /// Cache of the target.
    pub sequence_cache: SequenceCachePlan,
    /// Rows of the sampler.
    pub sampler_rows: usize,
    /// Logits of each of them.
    pub sampler_vocab: usize,
    /// Resources of native drafting, where it is on.
    pub drafting: Option<DraftResources>,
}

/// Cache of the target.
pub open spec fn target_cache(config: Qwen38FlashNextExecutionConfig) -> SequenceCachePlan {
    SequenceCachePlan {
        max_active_sequences: config.max_active_sequences,
        max_context_tokens: config.max_context_tokens,
        max_retained_bytes: config.retained_prefix_bytes,
    }
}

/// Sparse-attention layers of a model, at least one.
pub open spec fn sparse_share(model: Qwen38FlashNextModel) -> int {
    let count = crate::manifest::kind_count(
        model.manifest.layer_kinds@,
        QwenLayerKind::FullAttention,
        model.manifest.layer_kinds@.len(),
    ) as int;
    if count < 1 {
        1
    } else {
        count
    }
}

/// Cache of the draft block: it keeps as many bytes as one layer of the target.
pub open spec fn draft_cache(
    model: Qwen38FlashNextModel,
    config: Qwen38FlashNextExecutionConfig,
) -> SequenceCachePlan {
    SequenceCachePlan {
        max_active_sequences: config.max_active_sequences,
        max_context_tokens: config.max_context_tokens,
        max_retained_bytes: (config.retained_prefix_bytes as int / sparse_share(model)) as usize,
    }
}

/// What stands against the resources, if anything.
pub open spec fn execution_obstacle(
    model: Qwen38FlashNextModel,
    config: Qwen38FlashNextExecutionConfig,
) -> Option<ModelError> {
    if model.prefill_obstacle(config.prefill_token_capacity) is Some {
        model.prefill_obstacle(config.prefill_token_capacity)
    } else if config.speculative_drafts != 1 {
        None
    } else if !model.mtp {
        Some(ModelError::DraftDisabled)
    } else {
        model.verifier_obstacle(2, Qwen38VectorVerifierProbeMode::Exact)
    }
}

/// Whether the resources are those of native drafting: the share of the cache, the buffers of
/// the draft block for prompt chunks of the target, and the exact two-row verifier.
pub open spec fn drafts_with(
    model: Qwen38FlashNextModel,
    config: Qwen38FlashNextExecutionConfig,
    drafting: DraftResources,
) -> bool {
    &&& drafting.cache == draft_cache(model, config)
    &&& drafting.max_context_tokens == config.max_context_tokens
    &&& drafting.buffers == crate::qwen38_flash_next::mtp::mtp_buffers(
        model,
        config.prefill_token_capacity,
    )
    &&& model.verifies(drafting.verifier, 2, Qwen38VectorVerifierProbeMode::Exact)
}

fn draft_resources(model: &Qwen38FlashNextModel, config: Qwen38FlashNextExecutionConfig) -> (result:
    Result<DraftResources, ModelError>)
    requires
        config.prefill_token_capacity > 0,
        model.rows_fit(config.prefill_token_capacity as int),
        model.rows_fit(2),
        2 * model.config.vocab <= usize::MAX,
    ensures
        match result {
            Ok(drafting) => {
                &&& model.mtp
                &&& model.verifier_obstacle(2, Qwen38VectorVerifierProbeMode::Exact) is None
                &&& drafts_with(*model, config, drafting)
            },
            Err(error) => if !model.mtp {
                error == ModelError::DraftDisabled
            } else {
                model.verifier_obstacle(2, Qwen38VectorVerifierProbeMode::Exact) == Some(error)
            },
        },
{
    let sparse: usize = count_kind(&model.manifest.layer_kinds, QwenLayerKind::FullAttention);
    let share: usize = if sparse < 1 {
        1
    } else {
        sparse
    };
    let cache = SequenceCachePlan {
        max_active_sequences: config.max_active_sequences,
        max_context_tokens: config.max_context_tokens,
        max_retained_bytes: config.retained_prefix_bytes / share,
    };
    let buffers = match model.new_mtp_workspace(config.prefill_token_capacity) {
        Ok(buffers) => buffers,
        Err(error) => return Err(error),
    };
    let verifier = match model.new_speculative_workspace(1) {
        Ok(verifier) => verifier,
        Err(error) => return Err(error),
    };
    Ok(
        DraftResources {
            cache,
            max_context_tokens: config.max_context_tokens,
            buffers,
            verifier,
        },
    )
}

impl Qwen38FlashNextExecutionState {
    /// Plans the resources of one model. Drafting is on with exactly one draft.
    pub fn new(model: &Qwen38FlashNextModel, config: Qwen38FlashNextExecutionConfig) -> (result:
        Result<Self, ModelError>)
        requires
            model.rows_fit(config.prefill_token_capacity as int),
            config.speculative_drafts == 1 ==> model.rows_fit(2) && 2 * model.config.vocab
                <= usize::MAX,
        ensures
            match result {
                Ok(state) => {
                    &&& execution_obstacle(*model, config) is None
                    &&& model.prefills(state.prefill_workspace, config.prefill_token_capacity)
                    &&& state.prefill_workspace.paths
                        == crate::qwen38_flash_next::model::plain_paths()
                    &&& state.prefill_workspace.snapshot_slots == 0
                    &&& state.sequence_cache == target_cache(config)
                    &&& state.sampler_rows == 1
                    &&& state.sampler_vocab == model.config.vocab
                    &&& state.drafting is Some == (config.speculative_drafts == 1)
                    &&& match state.drafting {
                        Some(drafting) => drafts_with(*model, config, drafting),
                        None => true,
                    }
                },
                Err(error) => execution_obstacle(*model, config) == Some(error),
            },
    {
        let prefill_workspace = match model.new_prefill_workspace(config.prefill_token_capacity) {
            Ok(workspace) => workspace,
            Err(error) => return Err(error),
        };
        let sequence_cache = SequenceCachePlan {
            max_active_sequences: config.max_active_sequences,
            max_context_tokens: config.max_context_tokens,
            max_retained_bytes: config.retained_prefix_bytes,
        };
        let drafting = if config.speculative_drafts == 1 {
            match draft_resources(model, config) {
                Ok(drafting) => Some(drafting),
                Err(error) => return Err(error),
            }
        } else {
            None
        };
        Ok(
            Qwen38FlashNextExecutionState {
                prefill_workspace,
                sequence_cache,
                sampler_rows: 1,
                sampler_vocab: model.config.vocab,
                drafting,
            },
        )
    }
}

/// The draft block's cache keeps no more than its share: as many of its kind as the target has
/// sparse-attention layers fit the bytes that the target keeps.
pub proof fn law_draft_cache_keeps_one_share(
    model: Qwen38FlashNextModel,
    config: Qwen38FlashNextExecutionConfig,
)
    ensures
        draft_cache(model, config).max_retained_bytes * sparse_share(model)
            <= target_cache(config).max_retained_bytes,
{
    let bytes = config.retained_prefix_bytes as int;
    let share = sparse_share(model);
    vstd::arithmetic::div_mod::lemma_fundamental_div_mod(bytes, share);
    vstd::arithmetic::div_mod::lemma_mod_bound(bytes, share);
    let quotient = bytes / share;
    assert(0 <= quotient && quotient <= bytes) by (nonlinear_arith)
        requires
            share >= 1,
            bytes >= 0,
            quotient == bytes / share,
    ;
    assert(quotient * share == share * quotient) by (nonlinear_arith);
}

} // verus!
