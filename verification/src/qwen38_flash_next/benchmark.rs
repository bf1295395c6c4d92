//! Measurement of single blocks of a Flash Next model.

use crate::manifest::{QwenLayerKind, QwenLinearAttentionConfig, QwenModelManifest};
use crate::qwen36::gdn::GdnError;
use crate::qwen38_flash_next::config::Qwen38FlashNextConfig;
use crate::qwen38_flash_next::forward::Sublayer;
use crate::qwen38_flash_next::hyperconnection::{
    HyperConnectionError, HyperConnectionLoad, Qwen38HyperConnectionWeights,
};
use crate::qwen38_flash_next::model::draft_manifest;
use crate::tensors::numbered_name;
use vstd::prelude::*;

verus! {

/// Why a measurement cannot be set up or is rejected.
#[derive(Clone, Copy, Debug, PartialEq, Eq, Structural)]
pub enum BenchError {
    /// A prompt was asked for no tokens.
    Tokens,
    /// A layer is not one of the model's.
    Layer { layers: usize, layer: usize },
    /// A layer is no recurrent one.
    LinearLayer { layer: usize },
    /// A prompt is no range of a page-aligned context, or does not start at a page.
    Range { tokens: usize, start_position: usize, max_context_tokens: usize },
    /// The model has no sparse-attention layer.
    NoSparseLayer,
    /// The pages of a prompt cannot be numbered.
    Pages { pages: usize },
    /// A residual block cannot be loaded.
    HyperConnection(HyperConnectionError),
    /// The recurrence of a prompt cannot be laid out.
    Gdn(GdnError),
    /// An output holds a value that is not finite.
    NonFinite,
    /// Two outputs have different lengths.
    Length { expected: usize, actual: usize },
    /// Two outputs differ.
    Differs { index: usize },
}

/// An operation, or an event between two stages.
#[derive(Clone, Copy, Debug, PartialEq, Eq, Structural)]
pub enum Measured<T> {
    /// Records an event.
    Event(usize),
    /// Performs an operation.
    Work(T),
}

/// An event, where a run is measured.
pub open spec fn event<T>(measured: bool, index: usize) -> Seq<Measured<T>> {
    if measured {
        seq![Measured::Event(index)]
    } else {
        Seq::empty()
    }
}

/// Adds an event, where a run is measured.
pub fn push_event<T>(ops: &mut Vec<Measured<T>>, measured: bool, index: usize)
    ensures
        final(ops)@ == old(ops)@ + event::<T>(measured, index),
{
    if measured {
        ops.push(Measured::Event(index));
    }
    assert(ops@ =~= old(ops)@ + event::<T>(measured, index));
}

/// The operations of a run without its events.
pub open spec fn work<T>(ops: Seq<Measured<T>>) -> Seq<T>
    decreases ops.len(),
{
    if ops.len() == 0 {
        Seq::empty()
    } else {
        match ops.last() {
            Measured::Event(_) => work(ops.drop_last()),
            Measured::Work(op) => work(ops.drop_last()).push(op),
        }
    }
}

/// The operations of two runs one after the other.
pub proof fn lemma_work_append<T>(left: Seq<Measured<T>>, right: Seq<Measured<T>>)
    ensures
        work(left + right) == work(left) + work(right),
    decreases right.len(),
{
    if right.len() == 0 {
        assert(left + right =~= left);
        assert(work(left) + work(right) =~= work(left));
    } else {
        assert((left + right).drop_last() =~= left + right.drop_last());
        lemma_work_append(left, right.drop_last());
        assert(work(left + right) =~= work(left) + work(right));
    }
}

/// An event is no operation.
pub proof fn lemma_event_is_no_work<T>(measured: bool, index: usize)
    ensures
        work(event::<T>(measured, index)) == Seq::<T>::empty(),
{
    let ops = event::<T>(measured, index);
    if measured {
        assert(ops.drop_last() =~= Seq::empty());
        reveal_with_fuel(work, 2);
    }
}

/// One operation of a layer.
#[derive(Clone, Copy, Debug, PartialEq, Eq, Structural)]
pub enum LayerWork {
    /// Copies each input row into every residual stream.
    RepeatStreams { tokens: usize, hidden: usize, hc_count: usize },
    /// Mixes the residual streams into a sublayer's input.
    Mix { sublayer: Sublayer, tokens: usize },
    /// Runs the attention of a layer.
    Attention { layer: usize, kind: QwenLayerKind, tokens: usize },
    /// Runs the experts of a layer.
    Experts { layer: usize, tokens: usize },
    /// Injects a sublayer's output into the residual streams.
    Combine { sublayer: Sublayer, tokens: usize },
    /// Exchanges the two stream buffers.
    SwapStreams,
}

/// Operations of one sublayer and its residual block, with or without events before its stages.
pub open spec fn sublayer_ops(
    measured: bool,
    first: int,
    sublayer: Sublayer,
    body: LayerWork,
    tokens: usize,
) -> Seq<Measured<LayerWork>> {
    event::<LayerWork>(measured, first as usize) + seq![
        Measured::Work(LayerWork::Mix { sublayer, tokens }),
    ] + event::<LayerWork>(measured, (first + 1) as usize) + seq![Measured::Work(body)] + event::<
        LayerWork,
    >(measured, (first + 2) as usize) + seq![
        Measured::Work(LayerWork::Combine { sublayer, tokens }),
        Measured::Work(LayerWork::SwapStreams),
    ]
}

/// Operations of one layer, with or without events between its stages.
pub open spec fn layer_ops(
    measured: bool,
    first: int,
    layer: usize,
    kind: QwenLayerKind,
    tokens: usize,
) -> Seq<Measured<LayerWork>> {
    sublayer_ops(
        measured,
        first,
        Sublayer::Attention,
        LayerWork::Attention { layer, kind, tokens },
        tokens,
    ) + sublayer_ops(
        measured,
        first + 3,
        Sublayer::Mlp,
        LayerWork::Experts { layer, tokens },
        tokens,
    ) + event::<LayerWork>(measured, (first + 6) as usize)
}

fn push_sublayer(
    ops: &mut Vec<Measured<LayerWork>>,
    measured: bool,
    first: usize,
    sublayer: Sublayer,
    body: LayerWork,
    tokens: usize,
)
    requires
        first < 16,
    ensures
        final(ops)@ == old(ops)@ + sublayer_ops(measured, first as int, sublayer, body, tokens),
{
    push_event(ops, measured, first);
    ops.push(Measured::Work(LayerWork::Mix { sublayer, tokens }));
    push_event(ops, measured, first + 1);
    ops.push(Measured::Work(body));
    push_event(ops, measured, first + 2);
    ops.push(Measured::Work(LayerWork::Combine { sublayer, tokens }));
    ops.push(Measured::Work(LayerWork::SwapStreams));
    assert(ops@ =~= old(ops)@ + sublayer_ops(measured, first as int, sublayer, body, tokens));
}

/// Plans one layer, with or without events between its stages.
pub fn push_layer(
    ops: &mut Vec<Measured<LayerWork>>,
    measured: bool,
    first: usize,
    layer: usize,
    kind: QwenLayerKind,
    tokens: usize,
)
    requires
        first < 8,
    ensures
        final(ops)@ == old(ops)@ + layer_ops(measured, first as int, layer, kind, tokens),
{
    push_sublayer(
        ops,
        measured,
        first,
        Sublayer::Attention,
        LayerWork::Attention { layer, kind, tokens },
        tokens,
    );
    push_sublayer(
        ops,
        measured,
        first + 3,
        Sublayer::Mlp,
        LayerWork::Experts { layer, tokens },
        tokens,
    );
    push_event(ops, measured, first + 6);
    assert(ops@ =~= old(ops)@ + layer_ops(measured, first as int, layer, kind, tokens));
}

/// Operations of one layer without events.
pub open spec fn layer_work(layer: usize, kind: QwenLayerKind, tokens: usize) -> Seq<LayerWork> {
    seq![
        LayerWork::Mix { sublayer: Sublayer::Attention, tokens },
        LayerWork::Attention { layer, kind, tokens },
        LayerWork::Combine { sublayer: Sublayer::Attention, tokens },
        LayerWork::SwapStreams,
        LayerWork::Mix { sublayer: Sublayer::Mlp, tokens },
        LayerWork::Experts { layer, tokens },
        LayerWork::Combine { sublayer: Sublayer::Mlp, tokens },
        LayerWork::SwapStreams,
    ]
}

/// Measuring a layer changes nothing of its work, and the work ends in the stream buffer that it
/// began in: the buffers are exchanged twice.
pub proof fn law_events_only_measure(
    measured: bool,
    first: int,
    layer: usize,
    kind: QwenLayerKind,
    tokens: usize,
)
    ensures
        work(layer_ops(measured, first, layer, kind, tokens)) == layer_work(layer, kind, tokens),
        layer_work(layer, kind, tokens).filter(|op: LayerWork| op == LayerWork::SwapStreams).len()
            == 2,
{
    let attention = LayerWork::Attention { layer, kind, tokens };
    let experts = LayerWork::Experts { layer, tokens };
    let first_half = sublayer_ops(measured, first, Sublayer::Attention, attention, tokens);
    let second_half = sublayer_ops(measured, first + 3, Sublayer::Mlp, experts, tokens);
    let end = event::<LayerWork>(measured, (first + 6) as usize);
    lemma_sublayer_work(measured, first, Sublayer::Attention, attention, tokens);
    lemma_sublayer_work(measured, first + 3, Sublayer::Mlp, experts, tokens);
    lemma_work_append(first_half + second_half, end);
    lemma_work_append(first_half, second_half);
    lemma_event_is_no_work::<LayerWork>(measured, (first + 6) as usize);
    assert(work(layer_ops(measured, first, layer, kind, tokens)) =~= layer_work(
        layer,
        kind,
        tokens,
    ));
    lemma_two_swaps(layer, kind, tokens);
}

proof fn lemma_sublayer_work(
    measured: bool,
    first: int,
    sublayer: Sublayer,
    body: LayerWork,
    tokens: usize,
)
    ensures
        work(sublayer_ops(measured, first, sublayer, body, tokens)) == seq![
            LayerWork::Mix { sublayer, tokens },
            body,
            LayerWork::Combine { sublayer, tokens },
            LayerWork::SwapStreams,
        ],
{
    let e0 = event::<LayerWork>(measured, first as usize);
    let e1 = event::<LayerWork>(measured, (first + 1) as usize);
    let e2 = event::<LayerWork>(measured, (first + 2) as usize);
    let mix = seq![Measured::Work(LayerWork::Mix { sublayer, tokens })];
    let run = seq![Measured::Work(body)];
    let combine = seq![
        Measured::Work(LayerWork::Combine { sublayer, tokens }),
        Measured::Work(LayerWork::SwapStreams),
    ];
    lemma_event_is_no_work::<LayerWork>(measured, first as usize);
    lemma_event_is_no_work::<LayerWork>(measured, (first + 1) as usize);
    lemma_event_is_no_work::<LayerWork>(measured, (first + 2) as usize);
    lemma_work_append(e0, mix);
    lemma_work_append(e0 + mix, e1);
    lemma_work_append(e0 + mix + e1, run);
    lemma_work_append(e0 + mix + e1 + run, e2);
    lemma_work_append(e0 + mix + e1 + run + e2, combine);
    reveal_with_fuel(work, 3);
    assert(mix.drop_last() =~= Seq::empty());
    assert(run.drop_last() =~= Seq::empty());
    assert(combine.drop_last() =~= seq![combine[0]]);
    assert(seq![combine[0]].drop_last() =~= Seq::empty());
    assert(work(sublayer_ops(measured, first, sublayer, body, tokens)) =~= seq![
        LayerWork::Mix { sublayer, tokens },
        body,
        LayerWork::Combine { sublayer, tokens },
        LayerWork::SwapStreams,
    ]);
}

/// Residual blocks of one layer.
pub struct LayerBlocks {
    /// Block around the attention.
    pub attention: HyperConnectionLoad,
    /// Block around the experts.
    pub mlp: HyperConnectionLoad,
}

/// Prefix of a layer's tensors and the block after it.
pub open spec fn block_prefix(layer: usize, suffix: Seq<char>) -> Seq<char> {
    crate::tensors::numbered("model.language_model.layers."@, layer, suffix)
}

/// Whether a residual block is that of a configuration, with an injection.
pub open spec fn is_block(
    load: HyperConnectionLoad,
    prefix: Seq<char>,
    config: Qwen38FlashNextConfig,
) -> bool {
    &&& load.weights == (Qwen38HyperConnectionWeights {
        inject: true,
        hidden: config.hidden,
        hc_count: config.hc_count,
        lowrank: config.hc_lowrank,
        eps_bits: config.rms_eps_bits,
    })
    &&& crate::tensors::tensor_views(load.tensors@)
        == crate::qwen38_flash_next::hyperconnection::hyper_tensors(prefix, config, true)
}

/// Whether residual blocks are those of a layer.
pub open spec fn is_layer_blocks(
    blocks: LayerBlocks,
    config: Qwen38FlashNextConfig,
    layer: usize,
) -> bool {
    &&& is_block(blocks.attention, block_prefix(layer, ".attn_hyper_connection"@), config)
    &&& is_block(blocks.mlp, block_prefix(layer, ".mlp_hyper_connection"@), config)
}

/// Error for residual streams whose width is not representable.
pub open spec fn width_error(config: Qwen38FlashNextConfig) -> BenchError {
    BenchError::HyperConnection(
        HyperConnectionError::Width { hidden: config.hidden, hc_count: config.hc_count },
    )
}

/// Plans the loading of a layer's residual blocks.
pub fn load_layer_blocks(config: &Qwen38FlashNextConfig, layer: usize) -> (result: Result<
    LayerBlocks,
    BenchError,
>)
    ensures
        match result {
            Ok(blocks) => {
                &&& config.stream_width() <= usize::MAX
                &&& is_layer_blocks(blocks, *config, layer)
            },
            Err(error) => config.stream_width() > usize::MAX && error == width_error(*config),
        },
{
    let attention_prefix = numbered_name(
        "model.language_model.layers.",
        layer,
        ".attn_hyper_connection",
    );
    let mlp_prefix = numbered_name("model.language_model.layers.", layer, ".mlp_hyper_connection");
    let attention = match Qwen38HyperConnectionWeights::load(
        attention_prefix.as_str(),
        config,
        true,
    ) {
        Ok(load) => load,
        Err(error) => return Err(BenchError::HyperConnection(error)),
    };
    let mlp = match Qwen38HyperConnectionWeights::load(mlp_prefix.as_str(), config, true) {
        Ok(load) => load,
        Err(error) => return Err(BenchError::HyperConnection(error)),
    };
    Ok(LayerBlocks { attention, mlp })
}

/// Attention of a measured layer.
pub enum TargetAttention {
    /// Recurrent attention.
    Linear(QwenLinearAttentionConfig),
    /// Sparse attention over one page.
    Qsa {
        /// Which layers have cache pages.
        layer_mask: Vec<bool>,
        /// Pages of each of them.
        pages: usize,
        /// Tokens of the context.
        context: usize,
    },
}

/// One complete layer at a batch of one token.
pub struct Qwen38TargetLayerMicrobench {
    /// The layer.
    pub layer: usize,
    /// Its attention.
    pub attention: TargetAttention,
    /// Its residual blocks.
    pub blocks: LayerBlocks,
    /// Width of one residual stream.
    pub hidden: usize,
    /// Residual streams.
    pub hc_count: usize,
    /// Values of a stream buffer.
    pub stream_values: usize,
}

fn sparse_layers(kinds: &Vec<QwenLayerKind>) -> (mask: Vec<bool>)
    ensures
        mask@ == kinds@.map_values(|kind: QwenLayerKind| kind == QwenLayerKind::FullAttention),
{
    let mut mask: Vec<bool> = Vec::new();
    let mut i: usize = 0;
    while i < kinds.len()
        invariant
            i <= kinds@.len(),
            mask@ == kinds@.take(i as int).map_values(
                |kind: QwenLayerKind| kind == QwenLayerKind::FullAttention,
            ),
        decreases kinds@.len() - i,
    {
        mask.push(kinds[i] == QwenLayerKind::FullAttention);
        i += 1;
        assert(mask@ =~= kinds@.take(i as int).map_values(
            |kind: QwenLayerKind| kind == QwenLayerKind::FullAttention,
        ));
    }
    assert(kinds@.take(i as int) =~= kinds@);
    mask
}

/// Dimensions of a configuration's recurrent layers.
pub open spec fn linear_of(config: Qwen38FlashNextConfig) -> QwenLinearAttentionConfig {
    QwenLinearAttentionConfig {
        conv_kernel: config.linear_conv_kernel,
        key_heads: config.linear_key_heads,
        value_heads: config.linear_value_heads,
        key_head_dim: config.linear_key_head_dim,
        value_head_dim: config.linear_value_head_dim,
    }
}

impl Qwen38TargetLayerMicrobench {
    /// Kind of the layer's attention.
    pub open spec fn kind(self) -> QwenLayerKind {
        match self.attention {
            TargetAttention::Linear(_) => QwenLayerKind::LinearAttention,
            TargetAttention::Qsa { .. } => QwenLayerKind::FullAttention,
        }
    }

    /// Plans the loading of one complete layer.
    pub fn open(config: &Qwen38FlashNextConfig, layer: usize, page_tokens: usize) -> (result: Result<
        Self,
        BenchError,
    >)
        requires
            config.layer_types@.len() == config.layers,
        ensures
            match result {
                Ok(bench) => {
                    &&& layer < config.layers
                    &&& config.stream_width() <= usize::MAX
                    &&& bench.layer == layer
                    &&& bench.kind() == config.layer_types@[layer as int].kind()
                    &&& match bench.attention {
                        TargetAttention::Linear(linear) => linear == linear_of(*config),
                        TargetAttention::Qsa { layer_mask, pages, context } => {
                            &&& layer_mask@ == Seq::new(
                                config.layers as nat,
                                |i: int|
                                    config.layer_types@[i].kind() == QwenLayerKind::FullAttention,
                            )
                            &&& pages == 1
                            &&& context == page_tokens
                        },
                    }
                    &&& is_layer_blocks(bench.blocks, *config, layer)
                    &&& bench.hidden == config.hidden
                    &&& bench.hc_count == config.hc_count
                    &&& bench.stream_values == config.stream_width()
                },
                Err(error) => if layer >= config.layers {
                    error == (BenchError::Layer { layers: config.layers, layer })
                } else {
                    config.stream_width() > usize::MAX && error == width_error(*config)
                },
            },
    {
        let manifest = config.qwen_manifest();
        if layer >= manifest.layers {
            return Err(BenchError::Layer { layers: manifest.layers, layer });
        }
        let blocks = match load_layer_blocks(config, layer) {
            Ok(blocks) => blocks,
            Err(error) => return Err(error),
        };
        let attention = match manifest.layer_kinds[layer] {
            QwenLayerKind::LinearAttention => TargetAttention::Linear(
                QwenLinearAttentionConfig {
                    conv_kernel: config.linear_conv_kernel,
                    key_heads: config.linear_key_heads,
                    value_heads: config.linear_value_heads,
                    key_head_dim: config.linear_key_head_dim,
                    value_head_dim: config.linear_value_head_dim,
                },
            ),
            QwenLayerKind::FullAttention => {
                let layer_mask = sparse_layers(&manifest.layer_kinds);
                assert(layer_mask@ =~= Seq::new(
                    config.layers as nat,
                    |i: int| config.layer_types@[i].kind() == QwenLayerKind::FullAttention,
                ));
                TargetAttention::Qsa { layer_mask, pages: 1, context: page_tokens }
            },
        };
        Ok(
            Qwen38TargetLayerMicrobench {
                layer,
                attention,
                blocks,
                hidden: config.hidden,
                hc_count: config.hc_count,
                stream_values: config.hidden * config.hc_count,
            },
        )
    }

    /// Operations of one evaluation, with or without events between its stages.
    pub open spec fn ops(self, measured: bool) -> Seq<Measured<LayerWork>> {
        event::<LayerWork>(measured, 0) + seq![
            Measured::Work(
                LayerWork::RepeatStreams { tokens: 1, hidden: self.hidden, hc_count: self.hc_count },
            ),
        ] + layer_ops(measured, 1, self.layer, self.kind(), 1)
    }

    /// Plans one evaluation, with or without events between its stages.
    pub fn enqueue_with_events(&self, measured: bool) -> (ops: Vec<Measured<LayerWork>>)
        ensures
            ops@ == self.ops(measured),
    {
        let kind = match &self.attention {
            TargetAttention::Linear(_) => QwenLayerKind::LinearAttention,
            TargetAttention::Qsa { .. } => QwenLayerKind::FullAttention,
        };
        let mut ops: Vec<Measured<LayerWork>> = Vec::new();
        push_event(&mut ops, measured, 0);
        ops.push(
            Measured::Work(
                LayerWork::RepeatStreams { tokens: 1, hidden: self.hidden, hc_count: self.hc_count },
            ),
        );
        push_layer(&mut ops, measured, 1, self.layer, kind, 1);
        assert(ops@ =~= self.ops(measured));
        ops
    }

    /// Plans one evaluation.
    pub fn enqueue(&self) -> (ops: Vec<Measured<LayerWork>>)
        ensures
            ops@ == self.ops(false),
    {
        self.enqueue_with_events(false)
    }

    /// Plans one evaluation with events between its stages: stage `i` lies between the events
    /// `i` and `i + 1`.
    pub fn profile(&self) -> (ops: Vec<Measured<LayerWork>>)
        ensures
            ops@ == self.ops(true),
    {
        self.enqueue_with_events(true)
    }

    /// Rejects an output that is not finite throughout.
    pub fn validate(&self, output: &[u32]) -> (result: Result<(), BenchError>)
        ensures
            finite_outcome(output@, result),
    {
        reject_non_finite(output)
    }
}

/// Whether single-precision bits stand for a finite number.
pub open spec fn finite_single(bits: u32) -> bool {
    (bits / 0x80_0000) % 0x100 != 0xff
}

/// What the check of an output gives.
pub open spec fn finite_outcome(output: Seq<u32>, result: Result<(), BenchError>) -> bool {
    match result {
        Ok(()) => forall|i: int| 0 <= i < output.len() ==> finite_single(#[trigger] output[i]),
        Err(error) => {
            &&& error == BenchError::NonFinite
            &&& exists|i: int| 0 <= i < output.len() && !finite_single(#[trigger] output[i])
        },
    }
}

/// Rejects an output that holds a value that is not finite.
pub fn reject_non_finite(output: &[u32]) -> (result: Result<(), BenchError>)
    ensures
        finite_outcome(output@, result),
{
    let mut i: usize = 0;
    while i < output.len()
        invariant
            i <= output@.len(),
            forall|j: int| 0 <= j < i ==> finite_single(#[trigger] output@[j]),
        decreases output@.len() - i,
    {
        let bits: u32 = output[i];
        if (bits / 0x80_0000) % 0x100 == 0xff {
            assert(!finite_single(output@[i as int]));
            return Err(BenchError::NonFinite);
        }
        i += 1;
    }
    Ok(())
}

/// What the comparison of two outputs gives.
pub open spec fn equal_outcome(
    expected: Seq<u32>,
    actual: Seq<u32>,
    result: Result<(), BenchError>,
) -> bool {
    match result {
        Ok(()) => expected == actual,
        Err(error) => if expected.len() != actual.len() {
            error == (BenchError::Length {
                expected: expected.len() as usize,
                actual: actual.len() as usize,
            })
        } else {
            exists|index: int|
                {
                    &&& 0 <= index < expected.len()
                    &&& error == (BenchError::Differs { index: index as usize })
                    &&& #[trigger] expected[index] != actual[index]
                    &&& expected.take(index) == actual.take(index)
                }
        },
    }
}

/// Compares two outputs bit by bit, and names the first place where they differ.
pub fn require_bitwise_equal(expected: &[u32], actual: &[u32]) -> (result: Result<(), BenchError>)
    ensures
        equal_outcome(expected@, actual@, result),
{
    if expected.len() != actual.len() {
        return Err(BenchError::Length { expected: expected.len(), actual: actual.len() });
    }
    let mut index: usize = 0;
    while index < expected.len()
        invariant
            index <= expected@.len(),
            expected@.len() == actual@.len(),
            forall|j: int| 0 <= j < index ==> expected@[j] == actual@[j],
        decreases expected@.len() - index,
    {
        if expected[index] != actual[index] {
            assert(expected@[index as int] != actual@[index as int]);
            assert(expected@.take(index as int) =~= actual@.take(index as int));
            return Err(BenchError::Differs { index });
        }
        index += 1;
    }
    assert(expected@ =~= actual@);
    Ok(())
}

/// Numbers of a deterministic input: a value for each row and column.
pub open spec fn pattern(
    rows: nat,
    columns: int,
    row_step: int,
    column_step: int,
    offset: int,
    modulus: int,
) -> Seq<usize> {
    Seq::new(
        (rows * columns) as nat,
        |index: int|
            (((index / columns) * row_step + (index % columns) * column_step + offset)
                % modulus) as usize,
    )
}

/// Numbers of a deterministic input: a value for each row and column.
pub fn input_pattern(
    rows: usize,
    columns: usize,
    row_step: usize,
    column_step: usize,
    offset: usize,
    modulus: usize,
) -> (values: Vec<usize>)
    requires
        modulus > 0,
        rows * columns <= usize::MAX,
        rows * row_step + columns * column_step + offset <= usize::MAX,
    ensures
        values@ == pattern(
            rows as nat,
            columns as int,
            row_step as int,
            column_step as int,
            offset as int,
            modulus as int,
        ),
{
    let total: usize = rows * columns;
    let ghost all = pattern(
        rows as nat,
        columns as int,
        row_step as int,
        column_step as int,
        offset as int,
        modulus as int,
    );
    let mut values: Vec<usize> = Vec::new();
    let mut index: usize = 0;
    while index < total
        invariant
            index <= total,
            total == rows * columns,
            modulus > 0,
            rows * row_step + columns * column_step + offset <= usize::MAX,
            all == pattern(
                rows as nat,
                columns as int,
                row_step as int,
                column_step as int,
                offset as int,
                modulus as int,
            ),
            all.len() == total,
            values@ == all.take(index as int),
        decreases total - index,
    {
        assert(columns > 0) by (nonlinear_arith)
            requires
                index < total,
                total == rows * columns,
                index >= 0,
        ;
        let row: usize = index / columns;
        let column: usize = index % columns;
        proof {
            vstd::arithmetic::div_mod::lemma_fundamental_div_mod(index as int, columns as int);
            vstd::arithmetic::div_mod::lemma_mod_bound(index as int, columns as int);
            assert(row < rows) by (nonlinear_arith)
                requires
                    columns * row <= index,
                    index < rows * columns,
                    columns > 0,
            ;
            assert(row * row_step <= rows * row_step) by (nonlinear_arith)
                requires
                    row < rows,
            ;
            assert(column * column_step <= columns * column_step) by (nonlinear_arith)
                requires
                    column < columns,
            ;
            assert(row * row_step >= 0) by (nonlinear_arith);
            assert(column * column_step >= 0) by (nonlinear_arith);
        }
        values.push((row * row_step + column * column_step + offset) % modulus);
        index += 1;
        assert(values@ =~= all.take(index as int));
    }
    assert(all.take(index as int) =~= all);
    values
}

/// The one-layer draft block's experts at a batch of one token.
pub struct Qwen38MtpMoeMicrobench {
    /// Manifest of the draft block.
    pub manifest: QwenModelManifest,
}

impl Qwen38MtpMoeMicrobench {
    /// Plans the loading of the draft block's experts.
    pub fn open(config: &Qwen38FlashNextConfig) -> (bench: Self)
        ensures
            exists|manifest: QwenModelManifest|
                config.is_manifest(manifest)
                    && #[trigger] crate::qwen38_flash_next::model::is_draft_manifest(
                    manifest,
                    bench.manifest,
                ),
    {
        Qwen38MtpMoeMicrobench { manifest: draft_manifest(&config.qwen_manifest()) }
    }

    /// Plans one evaluation of the experts.
    pub fn enqueue(&self) -> (op: LayerWork)
        ensures
            op == (LayerWork::Experts { layer: 0, tokens: 1 }),
    {
        LayerWork::Experts { layer: 0, tokens: 1 }
    }

    /// Rejects an output that is not finite throughout.
    pub fn validate(&self, output: &[u32]) -> (result: Result<(), BenchError>)
        ensures
            finite_outcome(output@, result),
    {
        reject_non_finite(output)
    }
}

proof fn lemma_two_swaps(layer: usize, kind: QwenLayerKind, tokens: usize)
    ensures
        layer_work(layer, kind, tokens).filter(|op: LayerWork| op == LayerWork::SwapStreams).len()
            == 2,
{
    let ops = layer_work(layer, kind, tokens);
    let swap = |op: LayerWork| op == LayerWork::SwapStreams;
    reveal(Seq::filter);
    assert(ops.drop_last() =~= ops.take(7));
    assert(ops.take(7).drop_last() =~= ops.take(6));
    assert(ops.take(6).drop_last() =~= ops.take(5));
    assert(ops.take(5).drop_last() =~= ops.take(4));
    assert(ops.take(4).drop_last() =~= ops.take(3));
    assert(ops.take(3).drop_last() =~= ops.take(2));
    assert(ops.take(2).drop_last() =~= ops.take(1));
    assert(ops.take(1).drop_last() =~= ops.take(0));
    assert(ops.take(0).filter(swap).len() == 0);
    assert(ops.take(1).filter(swap).len() == 0);
    assert(ops.take(2).filter(swap).len() == 0);
    assert(ops.take(3).filter(swap).len() == 0);
    assert(ops.take(4).filter(swap).len() == 1);
    assert(ops.take(5).filter(swap).len() == 1);
    assert(ops.take(6).filter(swap).len() == 1);
    assert(ops.take(7).filter(swap).len() == 1);
}

} // verus!
