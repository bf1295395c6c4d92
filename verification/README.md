# eider_infer

Planning core of a text-model runtime, verified with Verus.

The library decides what a request may do and in which order a device does it. It never touches
a device: every plan is a list of operations, every transaction a small state machine, and the
contracts say exactly which list or which stage comes out for which input.

## Layout

- `src/qwen36/` plans the hybrid model: admission and packing of prompt and decode batches
  (`batch`, `model`), the layers of a batch (`schedule`), their device operations (`gdn`,
  `attention`, `ffn`, `linear`, `workspace`), whole batches from rows to operations (`operations`,
  `plan`), projections on the plans of their buffers (`projection`), buffer sizes (`allocation`), the native draft block (`mtp`), verification passes
  (`speculative`), prepared weights (`cache`) and cache limits (`execution`).
- `src/qwen36/dflash2/` plans the external companion: its configuration and tensors, its sliding
  windows, its proposals and the greedy path through its candidates.
- `src/qwen38_flash_next/` plans the sparse-attention model: configuration, hashed per-layer
  embeddings, hyperconnections, forward passes, sequence states, drafting and measurements.
- `src/transaction.rs`, `src/speculation.rs` and `src/qwen36/batch_append.rs` hold the stages of
  appends, of speculative cycles and of batches.
- `src/json.rs` is the only place that relies on another crate: it reads values with `serde_json`.
- `app/` is ordinary Rust around the library: files, locks, floating-point work, and traits for
  the device and the sequence cache.
- `tests/` runs the library on concrete values.

Proof functions whose names start with `law_` state what holds of several functions together.
