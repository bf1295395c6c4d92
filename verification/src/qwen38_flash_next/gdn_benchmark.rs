//! Measurement of recurrent prompts: one layer, run row by row and run in one batch.

use crate::manifest::{QwenLayerKind, QwenLinearAttentionConfig};
use crate::qwen36::gdn::{ChunkMetadata, GdnError, SinglePrefillTable, GDN_HEADS};
use crate::qwen38_flash_next::benchmark::{
    load_layer_blocks, push_layer, reject_non_finite, BenchError, LayerBlocks, LayerWork, Measured,
};
use crate::qwen38_flash_next::config::Qwen38FlashNextConfig;
use crate::qwen38_flash_next::model::linear_layers;
use vstd::prelude::*;

verus! {

/// One recurrent layer with independent serial and batched state.
pub struct Qwen38GdnPrefillMicrobench {
    /// The layer.
    pub layer: usize,
    /// Prompt rows.
    pub tokens: usize,
    /// Dimensions of the recurrence.
    pub linear: QwenLinearAttentionConfig,
    /// Which layers are recurrent.
    pub linear_layers: Vec<bool>,
    /// The layer's residual blocks.
    pub blocks: LayerBlocks,
    /// Width of one residual stream.
    pub hidden: usize,
    /// Residual streams.
    pub hc_count: usize,
    /// Values of a stream buffer.
    pub stream_values: usize,
    /// State table of the batched prompt.
    pub table: SinglePrefillTable,
    /// Chunks of the batched prompt, where the chunked kernel runs it.
    pub chunks: Option<ChunkMetadata>,
}

/// One operation of a row-by-row prompt.
#[derive(Clone, Copy, Debug, PartialEq, Eq, Structural)]
pub enum GdnSerialOp {
    /// Copies one row of the input.
    LoadRow { offset: usize, values: usize },
    /// Advances the recurrence by that row.
    Step { layer: usize },
    /// Copies the result to its row of the output.
    StoreRow { offset: usize, values: usize },
}

impl Qwen38GdnPrefillMicrobench {
    /// Plans the loading of one recurrent layer and its fixtures. The batched prompt is laid
    /// out, with the layer's state bound and no other.
    pub fn open(config: &Qwen38FlashNextConfig, layer: usize, tokens: usize) -> (result: Result<
        Self,
        BenchError,
    >)
        requires
            config.layer_types@.len() == config.layers,
            config.stream_width() <= usize::MAX ==> tokens * config.stream_width() <= usize::MAX,
        ensures
            match result {
                Ok(bench) => {
                    &&& tokens > 0
                    &&& config.stream_width() <= usize::MAX
                    &&& layer < config.layers
                    &&& config.layer_types@[layer as int].kind() == QwenLayerKind::LinearAttention
                    &&& bench.layer == layer
                    &&& bench.tokens == tokens
                    &&& bench.linear == crate::qwen38_flash_next::benchmark::linear_of(*config)
                    &&& bench.linear_layers@ == Seq::new(
                        config.layers as nat,
                        |i: int| config.layer_types@[i].kind() == QwenLayerKind::LinearAttention,
                    )
                    &&& crate::qwen38_flash_next::benchmark::is_layer_blocks(
                        bench.blocks,
                        *config,
                        layer,
                    )
                    &&& bench.hidden == config.hidden
                    &&& bench.hc_count == config.hc_count
                    &&& bench.stream_values == tokens * config.stream_width()
                    &&& bench.table.bound@ == Seq::new(
                        config.layers as nat,
                        |i: int| i == layer,
                    )
                    &&& crate::qwen36::gdn::single_chunks(
                        tokens,
                        config.linear_value_heads == GDN_HEADS,
                        Ok::<Option<ChunkMetadata>, GdnError>(bench.chunks),
                    )
                },
                Err(error) => if tokens == 0 {
                    error == BenchError::Tokens
                } else if layer >= config.layers || config.layer_types@[layer as int].kind()
                    != QwenLayerKind::LinearAttention {
                    error == (BenchError::LinearLayer { layer })
                } else if config.stream_width() > usize::MAX {
                    error == crate::qwen38_flash_next::benchmark::width_error(*config)
                } else {
                    &&& error matches BenchError::Gdn(cause)
                    &&& crate::qwen36::gdn::single_chunks(
                        tokens,
                        config.linear_value_heads == GDN_HEADS,
                        Err::<Option<ChunkMetadata>, GdnError>(cause),
                    )
                },
            },
    {
        if tokens == 0 {
            return Err(BenchError::Tokens);
        }
        let manifest = config.qwen_manifest();
        if layer >= manifest.layers || manifest.layer_kinds[layer]
            != QwenLayerKind::LinearAttention {
            return Err(BenchError::LinearLayer { layer });
        }
        let blocks = match load_layer_blocks(config, layer) {
            Ok(blocks) => blocks,
            Err(error) => return Err(error),
        };
        let linear = linear_layers(&manifest.layer_kinds);
        assert(linear@ =~= Seq::new(
            config.layers as nat,
            |i: int| config.layer_types@[i].kind() == QwenLayerKind::LinearAttention,
        ));
        let mut table = SinglePrefillTable { bound: vec![false; manifest.layers] };
        let chunked = config.linear_value_heads == GDN_HEADS;
        let chunks = match table.begin_single_prefill(tokens, chunked) {
            Ok(chunks) => chunks,
            Err(error) => return Err(BenchError::Gdn(error)),
        };
        match table.bind_single_prefill_state(layer) {
            Ok(_) => {},
            Err(error) => return Err(BenchError::Gdn(error)),
        }
        assert(table.bound@ =~= Seq::new(config.layers as nat, |i: int| i == layer));
        let width: usize = config.hidden * config.hc_count;
        Ok(
            Qwen38GdnPrefillMicrobench {
                layer,
                tokens,
                linear: QwenLinearAttentionConfig {
                    conv_kernel: config.linear_conv_kernel,
                    key_heads: config.linear_key_heads,
                    value_heads: config.linear_value_heads,
                    key_head_dim: config.linear_key_head_dim,
                    value_head_dim: config.linear_value_head_dim,
                },
                linear_layers: linear,
                blocks,
                hidden: config.hidden,
                hc_count: config.hc_count,
                stream_values: tokens * width,
                table,
                chunks,
            },
        )
    }

    /// Operations of the first `rows` rows, one by one.
    pub open spec fn serial_ops(self, rows: nat) -> Seq<GdnSerialOp>
        decreases rows,
    {
        if rows == 0 {
            Seq::empty()
        } else {
            let offset = ((rows - 1) * self.hidden) as usize;
            self.serial_ops((rows - 1) as nat) + seq![
                GdnSerialOp::LoadRow { offset, values: self.hidden },
                GdnSerialOp::Step { layer: self.layer },
                GdnSerialOp::StoreRow { offset, values: self.hidden },
            ]
        }
    }

    /// Plans the prompt row by row.
    pub fn enqueue_serial(&self) -> (ops: Vec<GdnSerialOp>)
        requires
            self.tokens * self.hidden <= usize::MAX,
        ensures
            ops@ == self.serial_ops(self.tokens as nat),
    {
        let mut ops: Vec<GdnSerialOp> = Vec::new();
        let mut row: usize = 0;
        while row < self.tokens
            invariant
                row <= self.tokens,
                self.tokens * self.hidden <= usize::MAX,
                ops@ == self.serial_ops(row as nat),
            decreases self.tokens - row,
        {
            assert(row * self.hidden <= self.tokens * self.hidden) by (nonlinear_arith)
                requires
                    row <= self.tokens,
            ;
            let offset: usize = row * self.hidden;
            ops.push(GdnSerialOp::LoadRow { offset, values: self.hidden });
            ops.push(GdnSerialOp::Step { layer: self.layer });
            ops.push(GdnSerialOp::StoreRow { offset, values: self.hidden });
            row += 1;
            assert(ops@ =~= self.serial_ops(row as nat));
        }
        ops
    }

    /// The batched recurrence of the prompt.
    pub fn enqueue_batched(&self) -> (op: LayerWork)
        ensures
            op == (LayerWork::Attention {
                layer: self.layer,
                kind: QwenLayerKind::LinearAttention,
                tokens: self.tokens,
            }),
    {
        LayerWork::Attention {
            layer: self.layer,
            kind: QwenLayerKind::LinearAttention,
            tokens: self.tokens,
        }
    }

    /// The operation that restores the layer's input.
    pub fn reset_input(&self) -> (op: LayerWork)
        ensures
            op == (LayerWork::RepeatStreams {
                tokens: self.tokens,
                hidden: self.hidden,
                hc_count: self.hc_count,
            }),
    {
        LayerWork::RepeatStreams {
            tokens: self.tokens,
            hidden: self.hidden,
            hc_count: self.hc_count,
        }
    }

    /// Operations of one complete layer, with or without events between its stages.
    pub open spec fn layer_ops(self, measured: bool) -> Seq<Measured<LayerWork>> {
        crate::qwen38_flash_next::benchmark::layer_ops(
            measured,
            0,
            self.layer,
            QwenLayerKind::LinearAttention,
            self.tokens,
        )
    }

    /// Plans one complete layer, with or without events between its stages.
    pub fn enqueue_layer_with_events(&self, measured: bool) -> (ops: Vec<Measured<LayerWork>>)
        ensures
            ops@ == self.layer_ops(measured),
    {
        let mut ops: Vec<Measured<LayerWork>> = Vec::new();
        push_layer(
            &mut ops,
            measured,
            0,
            self.layer,
            QwenLayerKind::LinearAttention,
            self.tokens,
        );
        assert(ops@ =~= self.layer_ops(measured));
        ops
    }

    /// Plans one complete layer.
    pub fn enqueue_layer(&self) -> (ops: Vec<Measured<LayerWork>>)
        ensures
            ops@ == self.layer_ops(false),
    {
        self.enqueue_layer_with_events(false)
    }

    /// Plans one complete layer on its restored input, with events between its stages: stage `i`
    /// lies between the events `i` and `i + 1`.
    pub fn profile(&self) -> (ops: Vec<Measured<LayerWork>>)
        ensures
            ops@ == seq![
                Measured::Work(
                    LayerWork::RepeatStreams {
                        tokens: self.tokens,
                        hidden: self.hidden,
                        hc_count: self.hc_count,
                    },
                ),
            ] + self.layer_ops(true),
    {
        let mut ops: Vec<Measured<LayerWork>> = Vec::new();
        ops.push(Measured::Work(self.reset_input()));
        let mut layer = self.enqueue_layer_with_events(true);
        ops.append(&mut layer);
        assert(ops@ =~= seq![
            Measured::Work(
                LayerWork::RepeatStreams {
                    tokens: self.tokens,
                    hidden: self.hidden,
                    hc_count: self.hc_count,
                },
            ),
        ] + self.layer_ops(true));
        ops
    }

    /// Rejects an output that is not finite throughout.
    pub fn validate_layer(&self, output: &[u32]) -> (result: Result<(), BenchError>)
        ensures
            crate::qwen38_flash_next::benchmark::finite_outcome(output@, result),
    {
        reject_non_finite(output)
    }
}

} // verus!
