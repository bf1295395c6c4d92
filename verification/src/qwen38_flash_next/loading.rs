//! What a Flash Next model is loaded from, in the order in which it is read.

use crate::manifest::{QwenLayerKind, QwenModelManifest};
use crate::qwen38_flash_next::config::Qwen38FlashNextConfig;
use crate::qwen38_flash_next::hyperconnection::{
    HyperConnectionError, HyperConnectionLoad, Qwen38HyperConnectionWeights,
};
use crate::qwen38_flash_next::model::{draft_manifest, ModelError, Qwen38FlashNextModel};
use crate::qwen38_flash_next::ple::{
    check_i64_vector, ple_embedding_prefix, read_i64_vector, PleError, Qwen38PleHashPlan,
};
use crate::tensors::{matrix, numbered_name, push_tensor, vector, TensorSpec};
use vstd::prelude::*;

verus! {

/// A residual block of the model or of its draft block.
#[derive(Clone, Copy, Debug, PartialEq, Eq, Structural)]
pub enum HyperSite {
    /// Around the attention of a layer.
    Attention(usize),
    /// Around the experts of a layer.
    Mlp(usize),
    /// Before the vocabulary head.
    Final,
    /// Around the draft block's attention.
    DraftAttention,
    /// Around the draft block's experts.
    DraftMlp,
    /// Before the draft block's vocabulary head.
    DraftFinal,
}

impl HyperSite {
    /// Prefix of the block's tensors.
    pub open spec fn prefix_of(self) -> Seq<char> {
        match self {
            HyperSite::Attention(layer) => crate::tensors::numbered(
                "model.language_model.layers."@,
                layer,
                ".attn_hyper_connection"@,
            ),
            HyperSite::Mlp(layer) => crate::tensors::numbered(
                "model.language_model.layers."@,
                layer,
                ".mlp_hyper_connection"@,
            ),
            HyperSite::Final => "model.language_model.hyper_connection_mixer"@,
            HyperSite::DraftAttention => "mtp.layers.0.attn_hyper_connection"@,
            HyperSite::DraftMlp => "mtp.layers.0.mlp_hyper_connection"@,
            HyperSite::DraftFinal => "mtp.hyper_connection_mixer"@,
        }
    }

    /// Prefix of the block's tensors.
    pub fn prefix(self) -> (prefix: String)
        ensures
            prefix@ == self.prefix_of(),
    {
        match self {
            HyperSite::Attention(layer) => numbered_name(
                "model.language_model.layers.",
                layer,
                ".attn_hyper_connection",
            ),
            HyperSite::Mlp(layer) => numbered_name(
                "model.language_model.layers.",
                layer,
                ".mlp_hyper_connection",
            ),
            HyperSite::Final => String::from_str("model.language_model.hyper_connection_mixer"),
            HyperSite::DraftAttention => String::from_str("mtp.layers.0.attn_hyper_connection"),
            HyperSite::DraftMlp => String::from_str("mtp.layers.0.mlp_hyper_connection"),
            HyperSite::DraftFinal => String::from_str("mtp.hyper_connection_mixer"),
        }
    }

    /// Whether the block injects its sublayer's result. The final mixers do not.
    pub open spec fn injecting(self) -> bool {
        !(self is Final || self is DraftFinal)
    }

    /// Plans the loading of the block.
    pub fn load(self, config: &Qwen38FlashNextConfig) -> (result: Result<
        HyperConnectionLoad,
        HyperConnectionError,
    >)
        ensures
            match result {
                Ok(load) => {
                    &&& config.stream_width() <= usize::MAX
                    &&& load.weights.inject == self.injecting()
                    &&& load.weights.hidden == config.hidden
                    &&& load.weights.hc_count == config.hc_count
                    &&& load.weights.lowrank == config.hc_lowrank
                    &&& load.weights.eps_bits == config.rms_eps_bits
                    &&& crate::tensors::tensor_views(load.tensors@)
                        == crate::qwen38_flash_next::hyperconnection::hyper_tensors(
                        self.prefix_of(),
                        *config,
                        self.injecting(),
                    )
                },
                Err(error) => {
                    &&& config.stream_width() > usize::MAX
                    &&& error == (HyperConnectionError::Width {
                        hidden: config.hidden,
                        hc_count: config.hc_count,
                    })
                },
            },
    {
        let prefix = self.prefix();
        let inject = !matches!(self, HyperSite::Final | HyperSite::DraftFinal);
        Qwen38HyperConnectionWeights::load(prefix.as_str(), config, inject)
    }
}

/// One step of loading a model.
#[derive(Clone, Copy, Debug, PartialEq, Eq, Structural)]
#[allow(inconsistent_fields)]
pub enum LoadStep {
    /// Token embedding under `model.language_model.embed_tokens`.
    Embedding { vocab: usize, hidden: usize },
    /// Weights of the per-layer embedding.
    PleWeights,
    /// A residual block.
    Hyper(HyperSite),
    /// Attention of a layer, with the index of a sparse one.
    Attention { layer: usize, kind: QwenLayerKind },
    /// Experts of a layer.
    Experts { layer: usize },
    /// Vocabulary head.
    LmHead { vocab: usize, hidden: usize },
}

/// Steps of one layer.
pub open spec fn layer_steps(config: Qwen38FlashNextConfig, layer: int) -> Seq<LoadStep> {
    seq![
        LoadStep::Hyper(HyperSite::Attention(layer as usize)),
        LoadStep::Hyper(HyperSite::Mlp(layer as usize)),
        LoadStep::Attention {
            layer: layer as usize,
            kind: config.layer_types@[layer].kind(),
        },
        LoadStep::Experts { layer: layer as usize },
    ]
}

/// Steps of the first `count` layers.
pub open spec fn layers_steps(config: Qwen38FlashNextConfig, count: nat) -> Seq<LoadStep>
    decreases count,
{
    if count == 0 {
        Seq::empty()
    } else {
        layers_steps(config, (count - 1) as nat) + layer_steps(config, count - 1)
    }
}

/// Steps of loading a model.
pub open spec fn open_steps(config: Qwen38FlashNextConfig) -> Seq<LoadStep> {
    seq![
        LoadStep::Embedding { vocab: config.vocab, hidden: config.hidden },
        LoadStep::PleWeights,
    ] + layers_steps(config, config.layers as nat) + seq![
        LoadStep::Hyper(HyperSite::Final),
        LoadStep::LmHead { vocab: config.vocab, hidden: config.hidden },
    ]
}

fn push_layer_steps(
    steps: &mut Vec<LoadStep>,
    config: &Qwen38FlashNextConfig,
    manifest: &QwenModelManifest,
    layer: usize,
)
    requires
        layer < manifest.layer_kinds@.len(),
        manifest.layer_kinds@.len() == config.layer_types@.len(),
        manifest.layer_kinds@[layer as int] == config.layer_types@[layer as int].kind(),
    ensures
        final(steps)@ == old(steps)@ + layer_steps(*config, layer as int),
{
    steps.push(LoadStep::Hyper(HyperSite::Attention(layer)));
    steps.push(LoadStep::Hyper(HyperSite::Mlp(layer)));
    steps.push(LoadStep::Attention { layer, kind: manifest.layer_kinds[layer] });
    steps.push(LoadStep::Experts { layer });
    assert(steps@ =~= old(steps)@ + layer_steps(*config, layer as int));
}

/// A model and the steps that load it.
pub struct ModelLoad {
    /// The model.
    pub model: Qwen38FlashNextModel,
    /// Steps that load it, in order.
    pub steps: Vec<LoadStep>,
}

impl Qwen38FlashNextModel {
    /// Plans the loading of a model. The per-layer embedding table itself stays in storage.
    pub fn open(config: Qwen38FlashNextConfig, model_id: u64) -> (result: Result<
        ModelLoad,
        HyperConnectionError,
    >)
        requires
            config.layer_types@.len() == config.layers,
        ensures
            match result {
                Ok(load) => {
                    &&& config.stream_width() <= usize::MAX
                    &&& load.model.model_id == model_id
                    &&& load.model.config == config
                    &&& config.is_manifest(load.model.manifest)
                    &&& !load.model.mtp
                    &&& load.steps@ == open_steps(config)
                },
                Err(error) => {
                    &&& config.stream_width() > usize::MAX
                    &&& error == (HyperConnectionError::Width {
                        hidden: config.hidden,
                        hc_count: config.hc_count,
                    })
                },
            },
    {
        if config.hidden.checked_mul(config.hc_count).is_none() {
            return Err(
                HyperConnectionError::Width { hidden: config.hidden, hc_count: config.hc_count },
            );
        }
        let manifest = config.qwen_manifest();
        let mut steps: Vec<LoadStep> = Vec::new();
        steps.push(LoadStep::Embedding { vocab: config.vocab, hidden: config.hidden });
        steps.push(LoadStep::PleWeights);
        let ghost first = steps@;
        let mut layer: usize = 0;
        assert(steps@ =~= first + layers_steps(config, 0));
        while layer < config.layers
            invariant
                layer <= config.layers,
                config.layer_types@.len() == config.layers,
                config.is_manifest(manifest),
                steps@ == first + layers_steps(config, layer as nat),
            decreases config.layers - layer,
        {
            push_layer_steps(&mut steps, &config, &manifest, layer);
            layer += 1;
            assert(steps@ =~= first + layers_steps(config, layer as nat));
        }
        steps.push(LoadStep::Hyper(HyperSite::Final));
        steps.push(LoadStep::LmHead { vocab: config.vocab, hidden: config.hidden });
        assert(steps@ =~= open_steps(config));
        Ok(ModelLoad { model: Qwen38FlashNextModel { model_id, config, manifest, mtp: false }, steps })
    }
}

/// Every layer of a model is loaded once, in order: both of its residual blocks, attention of
/// its own kind, and its experts.
pub proof fn law_each_layer_is_loaded(config: Qwen38FlashNextConfig, layer: int)
    requires
        0 <= layer < config.layers,
    ensures
        open_steps(config).len() == 4 * config.layers + 4,
        open_steps(config).subrange(2 + 4 * layer, 6 + 4 * layer) == layer_steps(config, layer),
{
    lemma_layer_steps(config, config.layers as nat, layer);
    assert(open_steps(config).subrange(2 + 4 * layer, 6 + 4 * layer) =~= layers_steps(
        config,
        config.layers as nat,
    ).subrange(4 * layer, 4 * layer + 4));
}

proof fn lemma_layer_steps(config: Qwen38FlashNextConfig, count: nat, layer: int)
    requires
        0 <= layer < count,
    ensures
        layers_steps(config, count).len() == 4 * count,
        layers_steps(config, count).subrange(4 * layer, 4 * layer + 4) == layer_steps(
            config,
            layer,
        ),
    decreases count,
{
    let earlier = layers_steps(config, (count - 1) as nat);
    if layer < count - 1 {
        lemma_layer_steps(config, (count - 1) as nat, layer);
        assert(layers_steps(config, count).subrange(4 * layer, 4 * layer + 4) =~= earlier.subrange(
            4 * layer,
            4 * layer + 4,
        ));
    } else {
        lemma_steps_len(config, (count - 1) as nat);
        assert(layers_steps(config, count).subrange(4 * layer, 4 * layer + 4) =~= layer_steps(
            config,
            layer,
        ));
    }
}

proof fn lemma_steps_len(config: Qwen38FlashNextConfig, count: nat)
    ensures
        layers_steps(config, count).len() == 4 * count,
    decreases count,
{
    if count > 0 {
        lemma_steps_len(config, (count - 1) as nat);
    }
}

/// Tensors of the draft block outside its layer.
pub open spec fn draft_tensors(config: Qwen38FlashNextConfig) -> Seq<(Seq<char>, Seq<usize>)> {
    let hidden = config.hidden;
    seq![
        ("mtp.pre_fc_norm_embedding.weight"@, seq![hidden]),
        ("mtp.pre_fc_norm_hidden.weight"@, seq![config.stream_width() as usize]),
        ("mtp.fc_embedding.weight"@, seq![hidden, hidden]),
        ("mtp.fc_hidden.weight"@, seq![hidden, hidden]),
    ]
}

/// What the draft block is loaded from.
pub struct DraftLoad {
    /// Manifest of the block.
    pub manifest: QwenModelManifest,
    /// Prefix of the index of its sparse attention.
    pub indexer: String,
    /// Tensors outside its layer.
    pub tensors: Vec<TensorSpec>,
    /// Residual blocks.
    pub blocks: Vec<HyperSite>,
}

impl Qwen38FlashNextModel {
    /// Plans the loading of the one-layer draft block.
    ///
    /// `Ok(None)` means that it is resident already. `contains_fc` says whether the checkpoint
    /// holds `mtp.fc_embedding.weight`. `mtp_loaded` records that the block is resident.
    pub fn enable_mtp(&self, contains_fc: bool) -> (result: Result<Option<DraftLoad>, ModelError>)
        requires
            self.stream_width() <= usize::MAX,
        ensures
            match result {
                Ok(None) => self.mtp,
                Ok(Some(load)) => {
                    &&& !self.mtp
                    &&& self.config.mtp_layers == 1
                    &&& contains_fc
                    &&& crate::qwen38_flash_next::model::is_draft_manifest(
                        self.manifest,
                        load.manifest,
                    )
                    &&& load.indexer@ == "mtp.layers.0.self_attn.indexer"@
                    &&& crate::tensors::tensor_views(load.tensors@) == draft_tensors(self.config)
                    &&& load.blocks@ == seq![
                        HyperSite::DraftAttention,
                        HyperSite::DraftMlp,
                        HyperSite::DraftFinal,
                    ]
                },
                Err(error) => {
                    &&& !self.mtp
                    &&& self.config.mtp_layers != 1 || !contains_fc
                    &&& error == ModelError::NoDraftBlock
                },
            },
    {
        if self.mtp {
            return Ok(None);
        }
        if self.config.mtp_layers != 1 || !contains_fc {
            return Err(ModelError::NoDraftBlock);
        }
        let manifest = draft_manifest(&self.manifest);
        let hidden: usize = self.config.hidden;
        let width: usize = hidden * self.config.hc_count;
        let mut tensors: Vec<TensorSpec> = Vec::new();
        push_tensor(
            &mut tensors,
            String::from_str("mtp.pre_fc_norm_embedding.weight"),
            vector(hidden),
        );
        push_tensor(
            &mut tensors,
            String::from_str("mtp.pre_fc_norm_hidden.weight"),
            vector(width),
        );
        push_tensor(
            &mut tensors,
            String::from_str("mtp.fc_embedding.weight"),
            matrix(hidden, hidden),
        );
        push_tensor(&mut tensors, String::from_str("mtp.fc_hidden.weight"), matrix(hidden, hidden));
        assert(crate::tensors::tensor_views(tensors@) =~= draft_tensors(self.config));
        let mut blocks: Vec<HyperSite> = Vec::new();
        blocks.push(HyperSite::DraftAttention);
        blocks.push(HyperSite::DraftMlp);
        blocks.push(HyperSite::DraftFinal);
        assert(blocks@ =~= seq![
            HyperSite::DraftAttention,
            HyperSite::DraftMlp,
            HyperSite::DraftFinal,
        ]);
        Ok(
            Some(
                DraftLoad {
                    manifest,
                    indexer: String::from_str("mtp.layers.0.self_attn.indexer"),
                    tensors,
                    blocks,
                },
            ),
        )
    }
}

/// Prefix of the tensors of a configuration's embedding layer.
pub open spec fn embedding_prefix(config: Qwen38FlashNextConfig) -> Seq<char> {
    "model.language_model.layers."@ + crate::text::decimal(config.ple_layer as nat)
        + ".ple.ple_embedding"@
}

/// Integer tensors of the hash: names and lengths in the order in which they are read.
pub open spec fn hash_tensors(config: Qwen38FlashNextConfig) -> Seq<(Seq<char>, Seq<usize>)> {
    let prefix = embedding_prefix(config);
    let heads = config.ngram_head_count() as usize;
    seq![
        (prefix + ".layer_multipliers"@, seq![config.ngram_size]),
        (prefix + ".ngram_heads_vocab_sizes"@, seq![heads]),
        (prefix + ".ngram_heads_offsets"@, seq![heads]),
    ]
}

fn embedding_name(config: &Qwen38FlashNextConfig, suffix: &str) -> (name: String)
    ensures
        name@ == embedding_prefix(*config) + suffix@,
{
    let mut name = ple_embedding_prefix(config.ple_layer);
    name.append(suffix);
    name
}

/// Names the integer tensors of the hash.
pub fn hash_plan_tensors(config: &Qwen38FlashNextConfig) -> (tensors: Vec<TensorSpec>)
    requires
        config.ngram_size >= 1,
        config.ngram_head_count() <= usize::MAX,
    ensures
        crate::tensors::tensor_views(tensors@) == hash_tensors(*config),
{
    let heads: usize = config.ngram_heads();
    let mut tensors: Vec<TensorSpec> = Vec::new();
    push_tensor(
        &mut tensors,
        embedding_name(config, ".layer_multipliers"),
        vector(config.ngram_size),
    );
    push_tensor(&mut tensors, embedding_name(config, ".ngram_heads_vocab_sizes"), vector(heads));
    push_tensor(&mut tensors, embedding_name(config, ".ngram_heads_offsets"), vector(heads));
    assert(crate::tensors::tensor_views(tensors@) =~= hash_tensors(*config));
    tensors
}

/// Numbered tensors of the embedding table.
pub struct TableShards {
    /// Name of the first one.
    pub first: String,
    /// Name before the number.
    pub prefix: String,
    /// Name after the number.
    pub suffix: String,
    /// How many there are.
    pub shards: usize,
    /// Width of a row.
    pub row_width: usize,
}

/// Names the numbered tensors of the embedding table.
pub fn table_shards(config: &Qwen38FlashNextConfig) -> (table: TableShards)
    requires
        config.ngram_size >= 1,
        0 < config.ngram_head_count() <= usize::MAX,
    ensures
        table.first@ == embedding_prefix(*config) + ".ngram_embedding.shard_0.weight"@,
        table.prefix@ == embedding_prefix(*config) + ".ngram_embedding.shard_"@,
        table.suffix@ == ".weight"@,
        table.shards == config.ngram_shards,
        table.row_width == config.ple_embedding_dim as int / config.ngram_head_count(),
{
    TableShards {
        first: embedding_name(config, ".ngram_embedding.shard_0.weight"),
        prefix: embedding_name(config, ".ngram_embedding.shard_"),
        suffix: String::from_str(".weight"),
        shards: config.ngram_shards,
        row_width: config.ngram_head_dim(),
    }
}

/// A stored integer tensor.
pub struct IntegerTensor {
    /// Storage format.
    pub dtype: String,
    /// Extents.
    pub shape: Vec<usize>,
    /// Length that the checkpoint states.
    pub byte_len: u64,
    /// Payload.
    pub bytes: Vec<u8>,
}

impl IntegerTensor {
    /// Whether this is a vector of `len` integers.
    pub open spec fn is_vector(self, len: usize) -> bool {
        &&& self.dtype@ == "I64"@
        &&& self.shape@ == seq![len]
        &&& self.byte_len == len * 8
    }

    /// Whether no value is negative.
    pub open spec fn unsigned(self) -> bool {
        forall|i: int|
            0 <= i < self.bytes@.len() / 8
                ==> #[trigger] crate::qwen38_flash_next::ple::little_endian(self.bytes@, 8 * i)
                <= i64::MAX
    }

    /// The values.
    pub open spec fn values(self) -> Seq<u64> {
        Seq::new(
            self.bytes@.len() / 8,
            |i: int| crate::qwen38_flash_next::ple::little_endian(self.bytes@, 8 * i) as u64,
        )
    }

    /// What is wrong with a vector of `len` integers, if anything.
    pub open spec fn obstacle(self, len: usize) -> Option<PleError> {
        if !self.is_vector(len) {
            Some(PleError::IntegerTensor)
        } else if !self.unsigned() {
            Some(PleError::NegativeInteger)
        } else {
            None
        }
    }

    /// Checks and decodes a vector of `len` integers.
    pub fn read(&self, len: usize) -> (result: Result<Vec<u64>, PleError>)
        ensures
            match result {
                Ok(values) => self.obstacle(len) is None && values@ == self.values(),
                Err(error) => self.obstacle(len) == Some(error),
            },
    {
        match check_i64_vector(self.dtype.as_str(), self.shape.as_slice(), self.byte_len, len) {
            Ok(()) => {},
            Err(error) => return Err(error),
        }
        match read_i64_vector(self.bytes.as_slice()) {
            Ok(values) => {
                assert(values@ =~= self.values());
                Ok(values)
            },
            Err(error) => {
                Err(error)
            },
        }
    }
}

impl Qwen38PleHashPlan {
    /// Checks and takes over the hash of a checkpoint: its three integer tensors, in the order in
    /// which they are read.
    pub fn load(
        config: &Qwen38FlashNextConfig,
        multipliers: &IntegerTensor,
        vocab_sizes: &IntegerTensor,
        offsets: &IntegerTensor,
    ) -> (result: Result<Self, PleError>)
        requires
            config.ngram_size >= 1,
            config.ngram_head_count() <= usize::MAX,
        ensures
            ({
                let heads = config.ngram_head_count() as usize;
                let plan = crate::qwen38_flash_next::ple::PlePlanModel {
                    multipliers: multipliers.values(),
                    vocab_sizes: vocab_sizes.values(),
                    offsets: offsets.values(),
                    heads_per_ngram: config.heads_per_ngram as nat,
                    ngram_size: config.ngram_size as nat,
                    eos: config.eos_token_id,
                };
                match result {
                    Ok(loaded) => {
                        &&& multipliers.obstacle(config.ngram_size) is None
                        &&& vocab_sizes.obstacle(heads) is None
                        &&& offsets.obstacle(heads) is None
                        &&& loaded@ == plan
                        &&& plan.valid(usize::MAX as int)
                    },
                    Err(error) => if multipliers.obstacle(config.ngram_size) is Some {
                        multipliers.obstacle(config.ngram_size) == Some(error)
                    } else if vocab_sizes.obstacle(heads) is Some {
                        vocab_sizes.obstacle(heads) == Some(error)
                    } else if offsets.obstacle(heads) is Some {
                        offsets.obstacle(heads) == Some(error)
                    } else if !plan.shaped() {
                        error == PleError::HashPlan
                    } else if !plan.contiguous() {
                        error == PleError::HeadOffsets
                    } else {
                        error == PleError::TableRows && plan.end() > usize::MAX
                    },
                }
            }),
    {
        let multipliers = match multipliers.read(config.ngram_size) {
            Ok(values) => values,
            Err(error) => return Err(error),
        };
        let heads: usize = config.ngram_heads();
        let vocab_sizes = match vocab_sizes.read(heads) {
            Ok(values) => values,
            Err(error) => return Err(error),
        };
        let offsets = match offsets.read(heads) {
            Ok(values) => values,
            Err(error) => return Err(error),
        };
        Self::new(
            multipliers,
            vocab_sizes,
            offsets,
            config.heads_per_ngram,
            config.ngram_size,
            config.eos_token_id,
        )
    }
}

} // verus!
