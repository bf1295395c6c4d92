//! Host-side planning and bookkeeping of the Qwen inference engine.
//!
//! Every decision that the engine takes between two device calls lives here:
//! which tokens and rows are admitted, which rows of which tables are read,
//! in which order the device operations of a forward pass are issued and with
//! which offsets, how an append is committed or rolled back, and which drafted
//! tokens are accepted. The code around the library performs the device work.

pub mod append;
pub mod device;
pub mod json;
pub mod manifest;
pub mod memory;
pub mod qwen36;
pub mod qwen38_flash_next;
pub mod speculation;
pub mod tensors;
pub mod text;
pub mod transaction;
