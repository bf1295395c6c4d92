//! Flash Next model, its workspaces and its per-sequence state, as the planners see them.

use crate::manifest::{
    first_kind, QwenLayerKind, QwenModelManifest,
};
use crate::qwen38_flash_next::config::Qwen38FlashNextConfig;
use crate::qwen38_flash_next::forward::PrefillPaths;
use vstd::prelude::*;

verus! {

/// Why a model operation was refused.
#[derive(Clone, Copy, Debug, PartialEq, Eq, Structural)]
pub enum ModelError {
    /// The checkpoint holds no one-layer draft block.
    NoDraftBlock,
    /// The draft block has not been loaded.
    DraftDisabled,
    /// A workspace was asked for no tokens.
    Capacity,
    /// The model has no recurrent layer.
    NoRecurrentLayer,
    /// The model has no sparse-attention layer.
    NoSparseLayer,
    /// The manifest has no linear-attention dimensions.
    NoLinearAttention,
    /// The native draft path takes exactly one draft.
    Drafts,
    /// A verifier takes at least two rows.
    VerifierRows,
    /// Exact expert evaluation takes exactly two rows.
    ExactMoeRows,
    /// The exact vocabulary head takes exactly two rows.
    ExactHeadRows,
    /// The context capacity is zero or over the model's limit.
    Context,
    /// The number of tokens is zero or over the capacity.
    Tokens,
    /// A position is not representable.
    PositionOverflow,
    /// A position is over the context capacity.
    Position,
    /// A token is outside the vocabulary.
    Token,
    /// The target streams are shorter than one row.
    TargetStreams,
    /// The target rows are shorter than the prompt.
    TargetRows,
    /// A snapshot needs a matching model and a page-aligned position.
    Snapshot,
    /// A snapshot and its destination are incompatible.
    SnapshotMismatch,
    /// The layers of a snapshot are of other kinds than those of its destination.
    SnapshotLayers,
    /// The size of a snapshot is not representable.
    SnapshotBytes,
    /// The draft cache has no room for the sequence.
    Admission,
    /// The vocabulary head has another shape than the configuration.
    LmHead,
    /// A pass with a vocabulary result returned none.
    NoResult,
}

/// How a vectorised verifier evaluates its rows.
#[derive(Clone, Copy, Debug, PartialEq, Eq, Structural)]
pub enum Qwen38VectorVerifierProbeMode {
    /// Batched paths throughout.
    Fast,
    /// Recurrent projections one row at a time.
    SerialGdnProjections,
    /// Canonical expert projections.
    CanonicalMoeLinears,
    /// Canonical expert projections, recurrent projections one row at a time.
    CanonicalMoeLinearsSerialGdn,
    /// Experts one row at a time.
    ExactMoe,
    /// Every path as it is for a single token.
    Exact,
}

impl Qwen38VectorVerifierProbeMode {
    /// Whether recurrent layers project one row at a time.
    pub fn serial_gdn_projections(self) -> (serial: bool)
        ensures
            serial == (self == Qwen38VectorVerifierProbeMode::SerialGdnProjections || self
                == Qwen38VectorVerifierProbeMode::CanonicalMoeLinearsSerialGdn || self
                == Qwen38VectorVerifierProbeMode::Exact),
    {
        matches!(
            self,
            Self::SerialGdnProjections | Self::CanonicalMoeLinearsSerialGdn | Self::Exact
        )
    }

    /// Whether experts take the canonical projections.
    pub fn canonical_moe_linears(self) -> (canonical: bool)
        ensures
            canonical == (self == Qwen38VectorVerifierProbeMode::CanonicalMoeLinears || self
                == Qwen38VectorVerifierProbeMode::CanonicalMoeLinearsSerialGdn),
    {
        matches!(self, Self::CanonicalMoeLinears | Self::CanonicalMoeLinearsSerialGdn)
    }

    /// Whether experts run one row at a time.
    pub fn exact_moe(self) -> (exact: bool)
        ensures
            exact == (self == Qwen38VectorVerifierProbeMode::ExactMoe || self
                == Qwen38VectorVerifierProbeMode::Exact),
    {
        matches!(self, Self::ExactMoe | Self::Exact)
    }

    /// Whether hyperconnections project one row at a time.
    pub fn exact_hyper_projections(self) -> (exact: bool)
        ensures
            exact == (self == Qwen38VectorVerifierProbeMode::Exact),
    {
        matches!(self, Self::Exact)
    }

    /// Whether the per-layer embedding runs one row at a time.
    pub fn exact_ple(self) -> (exact: bool)
        ensures
            exact == (self == Qwen38VectorVerifierProbeMode::Exact),
    {
        matches!(self, Self::Exact)
    }

    /// Whether the vocabulary head runs one row at a time.
    pub fn exact_output_head(self) -> (exact: bool)
        ensures
            exact == (self == Qwen38VectorVerifierProbeMode::Exact),
    {
        matches!(self, Self::Exact)
    }
}

/// Fully resident neural body with a direct-paged BF16 PLE table.
pub struct Qwen38FlashNextModel {
    /// Identifies the states that belong to this model.
    pub model_id: u64,
    /// Checkpoint configuration.
    pub config: Qwen38FlashNextConfig,
    /// Shape for shared components.
    pub manifest: QwenModelManifest,
    /// Whether the native draft block is resident.
    pub mtp: bool,
}

/// Values of each device buffer of a prompt workspace.
#[derive(Clone, Copy, Debug, PartialEq, Eq, Structural)]
pub struct PrefillBuffers {
    /// Token identifiers.
    pub token_ids: usize,
    /// Each of the two stream buffers.
    pub streams: usize,
    /// Gathered embeddings.
    pub hidden: usize,
    /// Output of row-by-row sparse attention.
    pub qsa_serial_output: usize,
    /// Input of row-by-row sparse attention.
    pub qsa_serial_row_hidden: usize,
}

/// Shared vectorized workspace for one scheduler-selected prompt chunk.
pub struct Qwen38FlashNextPrefillWorkspace {
    /// Most tokens of one chunk.
    pub token_capacity: usize,
    /// Sizes of the device buffers.
    pub buffers: PrefillBuffers,
    /// Paths of the chunk.
    pub paths: PrefillPaths,
    /// Which layers are recurrent.
    pub linear_layers: Vec<bool>,
    /// Recurrent states kept for each layer during a pass.
    pub snapshot_slots: usize,
}

/// Paths of an ordinary prompt chunk.
pub open spec fn plain_paths() -> PrefillPaths {
    PrefillPaths {
        exact_ple: false,
        exact_gdn: false,
        exact_moe: false,
        serial_gdn_projections: false,
        serial_qsa_rows: false,
        canonical_moe_linears: false,
        exact_hyper_projections: false,
        traced: false,
    }
}

/// Sizes of a prompt workspace for `tokens` tokens.
pub open spec fn prefill_buffers(hidden: int, width: int, tokens: int) -> PrefillBuffers {
    PrefillBuffers {
        token_ids: tokens as usize,
        streams: (tokens * width) as usize,
        hidden: (tokens * hidden) as usize,
        qsa_serial_output: (tokens * hidden) as usize,
        qsa_serial_row_hidden: hidden as usize,
    }
}

impl Qwen38FlashNextModel {
    /// Width of all residual streams of one token.
    pub open spec fn stream_width(self) -> int {
        self.config.stream_width()
    }

    /// Whether the buffers of `rows` rows are representable.
    pub open spec fn rows_fit(self, rows: int) -> bool {
        &&& self.stream_width() <= usize::MAX
        &&& rows * self.stream_width() <= usize::MAX
        &&& rows * self.config.hidden <= usize::MAX
    }

    /// What stands against a prompt workspace of this capacity, if anything.
    pub open spec fn prefill_obstacle(self, token_capacity: usize) -> Option<ModelError> {
        if token_capacity == 0 {
            Some(ModelError::Capacity)
        } else if !self.manifest.layer_kinds@.contains(QwenLayerKind::LinearAttention) {
            Some(ModelError::NoRecurrentLayer)
        } else if !self.manifest.layer_kinds@.contains(QwenLayerKind::FullAttention) {
            Some(ModelError::NoSparseLayer)
        } else {
            None
        }
    }

    /// Whether a workspace has room for prompt chunks of `token_capacity` tokens of the model
    /// and knows its recurrent layers.
    pub open spec fn prefills(
        self,
        workspace: Qwen38FlashNextPrefillWorkspace,
        token_capacity: usize,
    ) -> bool {
        &&& workspace.token_capacity == token_capacity
        &&& workspace.buffers == prefill_buffers(
            self.config.hidden as int,
            self.stream_width(),
            token_capacity as int,
        )
        &&& workspace.linear_layers@.len() == self.manifest.layer_kinds@.len()
        &&& forall|i: int|
            0 <= i < self.manifest.layer_kinds@.len() ==> #[trigger] workspace.linear_layers@[i]
                == crate::manifest::is_linear(self.manifest.layer_kinds@, i)
    }

    /// Allocates one shared prompt workspace for vectorized scheduler chunks.
    pub fn new_prefill_workspace(&self, token_capacity: usize) -> (result: Result<
        Qwen38FlashNextPrefillWorkspace,
        ModelError,
    >)
        requires
            self.rows_fit(token_capacity as int),
        ensures
            match result {
                Ok(workspace) => {
                    &&& self.prefill_obstacle(token_capacity) is None
                    &&& self.prefills(workspace, token_capacity)
                    &&& workspace.paths == plain_paths()
                    &&& workspace.snapshot_slots == 0
                },
                Err(error) => self.prefill_obstacle(token_capacity) == Some(error),
            },
    {
        if token_capacity == 0 {
            return Err(ModelError::Capacity);
        }
        let kinds = &self.manifest.layer_kinds;
        match first_kind(kinds, QwenLayerKind::LinearAttention) {
            None => {
                return Err(ModelError::NoRecurrentLayer);
            },
            Some(index) => {
                assert(kinds@[index as int] == QwenLayerKind::LinearAttention);
            },
        }
        match first_kind(kinds, QwenLayerKind::FullAttention) {
            None => {
                return Err(ModelError::NoSparseLayer);
            },
            Some(index) => {
                assert(kinds@[index as int] == QwenLayerKind::FullAttention);
            },
        }
        let hidden: usize = self.config.hidden;
        let width: usize = hidden * self.config.hc_count;
        Ok(
            Qwen38FlashNextPrefillWorkspace {
                token_capacity,
                buffers: PrefillBuffers {
                    token_ids: token_capacity,
                    streams: token_capacity * width,
                    hidden: token_capacity * hidden,
                    qsa_serial_output: token_capacity * hidden,
                    qsa_serial_row_hidden: hidden,
                },
                paths: PrefillPaths {
                    exact_ple: false,
                    exact_gdn: false,
                    exact_moe: false,
                    serial_gdn_projections: false,
                    serial_qsa_rows: false,
                    canonical_moe_linears: false,
                    exact_hyper_projections: false,
                    traced: false,
                },
                linear_layers: linear_layers(kinds),
                snapshot_slots: 0,
            },
        )
    }
}

/// Which layers are recurrent.
pub fn linear_layers(kinds: &Vec<QwenLayerKind>) -> (linear: Vec<bool>)
    ensures
        linear@.len() == kinds@.len(),
        forall|i: int|
            0 <= i < kinds@.len() ==> #[trigger] linear@[i] == crate::manifest::is_linear(kinds@, i),
{
    let mut linear: Vec<bool> = Vec::with_capacity(kinds.len());
    let mut i: usize = 0;
    while i < kinds.len()
        invariant
            i <= kinds@.len(),
            linear@.len() == i,
            forall|j: int|
                0 <= j < i ==> #[trigger] linear@[j] == crate::manifest::is_linear(kinds@, j),
        decreases kinds@.len() - i,
    {
        linear.push(kinds[i] == QwenLayerKind::LinearAttention);
        i += 1;
    }
    linear
}


/// Sizes of the buffers that a verifier adds to a prompt workspace.
#[derive(Clone, Copy, Debug, PartialEq, Eq, Structural)]
pub struct VerifierBuffers {
    /// Collapsed streams.
    pub final_hidden: usize,
    /// Logits of every row.
    pub exact_logits: usize,
    /// Each of the two partial-argmax buffers.
    pub top1_scratch: usize,
    /// Each of the two argmax buffers.
    pub argmax: usize,
}

/// Prompt workspace that also evaluates the vocabulary head on every row.
pub struct Qwen38FlashNextVectorVerifierProbeWorkspace {
    /// Prompt workspace.
    pub verify: Qwen38FlashNextPrefillWorkspace,
    /// Sizes of the added buffers.
    pub buffers: VerifierBuffers,
    /// Whether the final mixer projects its two rows one by one.
    pub exact_hyper_projections: bool,
    /// Whether the vocabulary head takes its two rows one by one.
    pub exact_output_head: bool,
}

/// Paths of a verifier.
pub open spec fn verifier_paths(mode: Qwen38VectorVerifierProbeMode) -> PrefillPaths {
    let serial_gdn = mode == Qwen38VectorVerifierProbeMode::SerialGdnProjections || mode
        == Qwen38VectorVerifierProbeMode::CanonicalMoeLinearsSerialGdn || mode
        == Qwen38VectorVerifierProbeMode::Exact;
    let exact = mode == Qwen38VectorVerifierProbeMode::Exact;
    PrefillPaths {
        exact_ple: exact,
        exact_gdn: serial_gdn,
        exact_moe: exact || mode == Qwen38VectorVerifierProbeMode::ExactMoe,
        serial_gdn_projections: serial_gdn,
        serial_qsa_rows: true,
        canonical_moe_linears: mode == Qwen38VectorVerifierProbeMode::CanonicalMoeLinears || mode
            == Qwen38VectorVerifierProbeMode::CanonicalMoeLinearsSerialGdn,
        exact_hyper_projections: exact,
        traced: false,
    }
}

/// Eight-entry groups of a vocabulary.
pub open spec fn vocab_groups(vocab: int) -> int {
    if vocab % 8 == 0 {
        vocab / 8
    } else {
        vocab / 8 + 1
    }
}

impl Qwen38FlashNextModel {
    /// Whether a workspace runs `rows` rows of the model in the given mode: it is a prompt
    /// workspace on the mode's paths, keeps the recurrent state after each row but the last,
    /// and has room for the logits and the choice of each row.
    pub open spec fn verifies(
        self,
        workspace: Qwen38FlashNextVectorVerifierProbeWorkspace,
        rows: usize,
        mode: Qwen38VectorVerifierProbeMode,
    ) -> bool {
        &&& self.prefills(workspace.verify, rows)
        &&& workspace.verify.paths == verifier_paths(mode)
        &&& workspace.verify.snapshot_slots == rows - 1
        &&& workspace.buffers == (VerifierBuffers {
            final_hidden: (rows * self.config.hidden) as usize,
            exact_logits: (rows * self.config.vocab) as usize,
            top1_scratch: (rows * vocab_groups(self.config.vocab as int)) as usize,
            argmax: rows,
        })
        &&& workspace.exact_hyper_projections == verifier_paths(mode).exact_hyper_projections
        &&& workspace.exact_output_head == (mode == Qwen38VectorVerifierProbeMode::Exact)
    }

    /// What stands against a verifier of this shape, if anything.
    pub open spec fn verifier_obstacle(
        self,
        rows: usize,
        mode: Qwen38VectorVerifierProbeMode,
    ) -> Option<ModelError> {
        if rows < 2 {
            Some(ModelError::VerifierRows)
        } else if self.prefill_obstacle(rows) is Some {
            self.prefill_obstacle(rows)
        } else if verifier_paths(mode).exact_gdn && self.manifest.linear_attention is None {
            Some(ModelError::NoLinearAttention)
        } else if verifier_paths(mode).exact_moe && rows != 2 {
            Some(ModelError::ExactMoeRows)
        } else {
            None
        }
    }

    /// Allocates a verifier that runs `rows` rows in the given mode.
    pub fn new_vector_verifier_probe_workspace(
        &self,
        rows: usize,
        mode: Qwen38VectorVerifierProbeMode,
    ) -> (result: Result<Qwen38FlashNextVectorVerifierProbeWorkspace, ModelError>)
        requires
            self.rows_fit(rows as int),
            rows * self.config.vocab <= usize::MAX,
            rows * vocab_groups(self.config.vocab as int) <= usize::MAX,
        ensures
            match result {
                Ok(workspace) => {
                    &&& self.verifier_obstacle(rows, mode) is None
                    &&& self.verifies(workspace, rows, mode)
                },
                Err(error) => self.verifier_obstacle(rows, mode) == Some(error),
            },
    {
        if rows < 2 {
            return Err(ModelError::VerifierRows);
        }
        let mut verify = match self.new_prefill_workspace(rows) {
            Ok(workspace) => workspace,
            Err(error) => {
                return Err(error);
            },
        };
        verify.snapshot_slots = rows - 1;
        if mode.serial_gdn_projections() && self.manifest.linear_attention.is_none() {
            return Err(ModelError::NoLinearAttention);
        }
        if mode.exact_moe() && rows != 2 {
            return Err(ModelError::ExactMoeRows);
        }
        verify.paths =
        PrefillPaths {
            exact_ple: mode.exact_ple(),
            exact_gdn: mode.serial_gdn_projections(),
            exact_moe: mode.exact_moe(),
            serial_gdn_projections: mode.serial_gdn_projections(),
            serial_qsa_rows: true,
            canonical_moe_linears: mode.canonical_moe_linears(),
            exact_hyper_projections: mode.exact_hyper_projections(),
            traced: false,
        };
        let vocab: usize = self.config.vocab;
        let groups: usize = if vocab % 8 == 0 {
            vocab / 8
        } else {
            vocab / 8 + 1
        };
        Ok(
            Qwen38FlashNextVectorVerifierProbeWorkspace {
                verify,
                buffers: VerifierBuffers {
                    final_hidden: rows * self.config.hidden,
                    exact_logits: rows * vocab,
                    top1_scratch: rows * groups,
                    argmax: rows,
                },
                exact_hyper_projections: mode.exact_hyper_projections(),
                exact_output_head: mode.exact_output_head(),
            },
        )
    }

    /// Allocates the exact two-row verifier of the native draft path.
    pub fn new_speculative_workspace(&self, drafts: usize) -> (result: Result<
        Qwen38FlashNextVectorVerifierProbeWorkspace,
        ModelError,
    >)
        requires
            self.rows_fit(2),
            2 * self.config.vocab <= usize::MAX,
        ensures
            match result {
                Ok(workspace) => {
                    &&& drafts == 1
                    &&& self.verifier_obstacle(2, Qwen38VectorVerifierProbeMode::Exact) is None
                    &&& self.verifies(workspace, 2, Qwen38VectorVerifierProbeMode::Exact)
                },
                Err(error) => if drafts != 1 {
                    error == ModelError::Drafts
                } else {
                    self.verifier_obstacle(2, Qwen38VectorVerifierProbeMode::Exact) == Some(error)
                },
            },
    {
        if drafts != 1 {
            return Err(ModelError::Drafts);
        }
        self.new_vector_verifier_probe_workspace(2, Qwen38VectorVerifierProbeMode::Exact)
    }

    /// Checks that the loaded vocabulary head has the shape of the configuration.
    pub fn check_lm_head(&self, rows: usize, columns: usize) -> (result: Result<(), ModelError>)
        ensures
            match result {
                Ok(_) => rows == self.config.vocab && columns == self.config.hidden,
                Err(error) => error == ModelError::LmHead && !(rows == self.config.vocab && columns
                    == self.config.hidden),
            },
    {
        if rows != self.config.vocab || columns != self.config.hidden {
            return Err(ModelError::LmHead);
        }
        Ok(())
    }

    /// Whether the native draft block is resident.
    pub fn mtp_enabled(&self) -> (enabled: bool)
        ensures
            enabled == self.mtp,
    {
        self.mtp
    }

    /// Records that the draft block is resident.
    pub fn mtp_loaded(&mut self)
        ensures
            *final(self) == (Qwen38FlashNextModel { mtp: true, ..*old(self) }),
    {
        self.mtp = true;
    }
}

/// Whether `draft` is the manifest of the one-layer draft block of `manifest`.
pub open spec fn is_draft_manifest(manifest: QwenModelManifest, draft: QwenModelManifest) -> bool {
    &&& draft.tensor_prefix@ == "mtp"@
    &&& draft.layers == 1
    &&& draft.layer_kinds@ == seq![QwenLayerKind::FullAttention]
    &&& draft.linear_attention is None
    &&& draft.mtp_layers == 0
    &&& draft.architecture == manifest.architecture
    &&& draft.hidden == manifest.hidden
    &&& draft.vocab == manifest.vocab
    &&& draft.intermediate == manifest.intermediate
    &&& draft.q_heads == manifest.q_heads
    &&& draft.kv_heads == manifest.kv_heads
    &&& draft.head_dim == manifest.head_dim
    &&& draft.rotary_dim == manifest.rotary_dim
    &&& draft.rms_eps_bits == manifest.rms_eps_bits
    &&& draft.rope_theta_bits == manifest.rope_theta_bits
    &&& draft.mrope_sections == manifest.mrope_sections
    &&& draft.ffn == manifest.ffn
    &&& draft.shared_expert_intermediate == manifest.shared_expert_intermediate
}

/// The manifest of the one-layer draft block.
pub fn draft_manifest(manifest: &QwenModelManifest) -> (draft: QwenModelManifest)
    ensures
        is_draft_manifest(*manifest, draft),
{
    let layer_kinds: Vec<QwenLayerKind> = vec![QwenLayerKind::FullAttention];
    assert(layer_kinds@ =~= seq![QwenLayerKind::FullAttention]);
    QwenModelManifest {
        architecture: manifest.architecture,
        tensor_prefix: String::from_str("mtp"),
        hidden: manifest.hidden,
        layers: 1,
        vocab: manifest.vocab,
        intermediate: manifest.intermediate,
        q_heads: manifest.q_heads,
        kv_heads: manifest.kv_heads,
        head_dim: manifest.head_dim,
        rotary_dim: manifest.rotary_dim,
        rms_eps_bits: manifest.rms_eps_bits,
        rope_theta_bits: manifest.rope_theta_bits,
        mrope_sections: manifest.mrope_sections,
        ffn: manifest.ffn,
        layer_kinds,
        linear_attention: None,
        shared_expert_intermediate: manifest.shared_expert_intermediate,
        mtp_layers: 0,
    }
}

} // verus!
