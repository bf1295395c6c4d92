//! What the head of a verification pass leaves in its buffers.

use crate::qwen36::linear::{Linear, Storage};
use crate::qwen36::schedule::RowBuffer;
use crate::qwen36::speculative::VerifyOp;
use vstd::prelude::*;

verus! {

/// Buffers of the head.
pub struct HeadDevice {
    /// Every operation so far found its inputs ready, and took all rows.
    pub sound: bool,
    /// Whether the rows were normalised.
    pub normed: bool,
    /// Whether the normalised rows were rounded.
    pub rounded: bool,
    /// Whether those rows were quantised.
    pub quantised: bool,
    /// Whether the logits are there.
    pub logits: bool,
    /// Rows that a token was chosen for.
    pub chosen: Option<int>,
}

/// Buffers before the first operation.
pub open spec fn idle() -> HeadDevice {
    HeadDevice {
        sound: true,
        normed: false,
        rounded: false,
        quantised: false,
        logits: false,
        chosen: None,
    }
}

impl HeadDevice {
    /// What one operation leaves, of a head on `rows` rows in a buffer.
    pub open spec fn performed(
        self,
        head: Linear,
        source: RowBuffer,
        rows: usize,
        op: VerifyOp,
    ) -> HeadDevice {
        match op {
            VerifyOp::FinalNorm { source: from, rows: count } => HeadDevice {
                sound: self.sound && from == source && count == rows,
                normed: true,
                ..self
            },
            VerifyOp::RoundFinal => HeadDevice {
                sound: self.sound && self.normed && !self.rounded,
                rounded: true,
                ..self
            },
            VerifyOp::HeadQuantize { rows: count, cols } => HeadDevice {
                sound: self.sound && self.rounded && head.storage == Storage::Fp8 && count == rows
                    && cols == head.cols,
                quantised: true,
                ..self
            },
            VerifyOp::Head { storage, rows: count } => HeadDevice {
                sound: self.sound && self.rounded && storage == head.storage && count == rows && (
                storage == Storage::Fp8 ==> self.quantised),
                logits: true,
                ..self
            },
            VerifyOp::FusedTop1 { rows: count } => HeadDevice {
                sound: self.sound && self.rounded && head.storage == Storage::Bf16 && count
                    == rows,
                chosen: Some(count as int),
                ..self
            },
            VerifyOp::Argmax { rows: count } => HeadDevice {
                sound: self.sound && self.logits,
                chosen: Some(count as int),
                ..self
            },
        }
    }
}

/// What the operations of the head do.
pub open spec fn head_step(head: Linear, source: RowBuffer, rows: usize) -> spec_fn(
    HeadDevice,
    VerifyOp,
) -> HeadDevice {
    |device: HeadDevice, op: VerifyOp| device.performed(head, source, rows, op)
}

/// The head of a verification pass runs as a whole on the rows of its buffer: tokens are chosen
/// for all of them, and logits are kept wherever they are asked for.
#[verifier::rlimit(40)]
pub proof fn law_verification_head_runs(
    head: Linear,
    source: RowBuffer,
    rows: usize,
    row_capacity: usize,
    materialize_logits: bool,
)
    requires
        rows <= row_capacity,
    ensures
        ({
            let device = crate::device::after(
                head_step(head, source, rows),
                idle(),
                seq![VerifyOp::FinalNorm { source, rows }, VerifyOp::RoundFinal]
                    + crate::qwen36::speculative::speculative_head(
                    head,
                    rows,
                    row_capacity,
                    materialize_logits,
                ),
            );
            &&& device.sound
            &&& device.chosen is Some && device.chosen->0 >= rows
            &&& device.logits ==> device.chosen == Some(row_capacity as int)
            &&& materialize_logits ==> device.logits
        }),
{
    let step = head_step(head, source, rows);
    let start = idle();
    let first = seq![VerifyOp::FinalNorm { source, rows }, VerifyOp::RoundFinal];
    let last = crate::qwen36::speculative::speculative_head(
        head,
        rows,
        row_capacity,
        materialize_logits,
    );
    crate::device::lemma_after_both(step, start, first, last);
    crate::device::lemma_after_two(step, start, first);
    let ready = crate::device::after(step, start, first);
    assert(ready == HeadDevice { normed: true, rounded: true, ..start });
    match head.storage {
        Storage::Bf16 => {
            if materialize_logits {
                crate::device::lemma_after_two(step, ready, last);
            } else {
                crate::device::lemma_after_one(step, ready, last);
            }
        },
        Storage::Nvfp4 => {
            crate::device::lemma_after_two(step, ready, last);
        },
        Storage::Fp8 => {
            crate::device::lemma_after_three(step, ready, last);
        },
    }
}

} // verus!
