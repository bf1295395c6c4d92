//! Per-sequence state of a Flash Next model: position, token history and recurrent layers.

use crate::manifest::QwenLayerKind;
use crate::qwen38_flash_next::model::{ModelError, Qwen38FlashNextModel};
use crate::qwen38_flash_next::ple::{PleError, Qwen38PleTokenWindow};
use vstd::prelude::*;

verus! {

/// Why a sequence operation was refused.
#[derive(Clone, Copy, Debug, PartialEq, Eq, Structural)]
pub enum StateError {
    /// The model refused it.
    Model(ModelError),
    /// The token history refused it.
    Ple(PleError),
}

/// Mutable one-sequence state and reusable single-token workspace.
pub struct Qwen38FlashNextDecodeState {
    /// Model that the state belongs to.
    pub model_id: u64,
    /// Kind of each layer's workspace.
    pub workspaces: Vec<QwenLayerKind>,
    /// Kind of each layer's state.
    pub states: Vec<QwenLayerKind>,
    /// Whether a layer has a saved copy of its recurrent state.
    pub rollback: Vec<bool>,
    /// Token history of the per-layer embedding.
    pub ple_window: Qwen38PleTokenWindow,
    /// Number of committed tokens.
    pub position: usize,
    /// Most tokens of the sequence.
    pub max_tokens: usize,
}

/// Whether a layer's recurrent state takes part in roll-backs.
pub open spec fn saved_layer(states: Seq<QwenLayerKind>, rollback: Seq<bool>, layer: int) -> bool {
    0 <= layer < states.len() && layer < rollback.len() && states[layer]
        == QwenLayerKind::LinearAttention && rollback[layer]
}

/// The layers below `count` whose recurrent state takes part in roll-backs, in order.
pub open spec fn saved_layers(
    states: Seq<QwenLayerKind>,
    rollback: Seq<bool>,
    count: nat,
) -> Seq<usize>
    decreases count,
{
    if count == 0 {
        seq![]
    } else {
        let earlier = saved_layers(states, rollback, (count - 1) as nat);
        if saved_layer(states, rollback, count - 1) {
            earlier.push((count - 1) as usize)
        } else {
            earlier
        }
    }
}

impl Qwen38FlashNextDecodeState {
    /// The layers whose recurrent state takes part in roll-backs.
    pub open spec fn saved(self) -> Seq<usize> {
        saved_layers(self.states@, self.rollback@, self.states@.len())
    }

    /// Everything but the token history and the position.
    pub open spec fn same_frame(self, other: Self) -> bool {
        &&& self.model_id == other.model_id
        &&& self.workspaces == other.workspaces
        &&& self.states == other.states
        &&& self.rollback == other.rollback
        &&& self.max_tokens == other.max_tokens
    }

    fn list_saved(&self) -> (layers: Vec<usize>)
        ensures
            layers@ == self.saved(),
    {
        let mut layers: Vec<usize> = Vec::new();
        let mut i: usize = 0;
        while i < self.states.len()
            invariant
                i <= self.states@.len(),
                layers@ == saved_layers(self.states@, self.rollback@, i as nat),
            decreases self.states@.len() - i,
        {
            if i < self.rollback.len() {
                if self.states[i] == QwenLayerKind::LinearAttention && self.rollback[i] {
                    layers.push(i);
                }
            }
            i += 1;
        }
        layers
    }

    /// Starts the append transaction of the token history.
    ///
    /// The layers handed out are those whose recurrent state is saved next, once the
    /// convolution state of the per-layer embedding has started its own transaction.
    pub fn begin_append(&mut self) -> (result: Result<Vec<usize>, PleError>)
        ensures
            final(self).same_frame(*old(self)),
            final(self).position == old(self).position,
            match result {
                Ok(layers) => {
                    &&& old(self).ple_window@.rollback is None
                    &&& layers@ == old(self).saved()
                    &&& final(self).ple_window@.rollback == Some(old(self).ple_window@.previous)
                    &&& final(self).ple_window@.previous == old(self).ple_window@.previous
                    &&& final(self).ple_window@.eos == old(self).ple_window@.eos
                },
                Err(error) => {
                    &&& old(self).ple_window@.rollback is Some
                    &&& error == PleError::AppendActive
                    &&& final(self).ple_window@ == old(self).ple_window@
                },
            },
    {
        match self.ple_window.begin_append() {
            Ok(()) => Ok(self.list_saved()),
            Err(error) => Err(error),
        }
    }

    /// Takes back the start of an append whose convolution state could not be saved.
    pub fn begin_failed(&mut self) -> (result: Result<(), PleError>)
        ensures
            final(self).same_frame(*old(self)),
            final(self).position == old(self).position,
            match result {
                Ok(_) => {
                    &&& old(self).ple_window@.rollback is Some
                    &&& final(self).ple_window@.previous == old(self).ple_window@.rollback->0
                    &&& final(self).ple_window@.rollback is None
                    &&& final(self).ple_window@.eos == old(self).ple_window@.eos
                },
                Err(error) => {
                    &&& old(self).ple_window@.rollback is None
                    &&& error == PleError::AppendInactive
                    &&& final(self).ple_window@ == old(self).ple_window@
                },
            },
    {
        self.ple_window.abort_append()
    }

    /// Commits the token history and moves past `tokens` tokens.
    pub fn commit_append(&mut self, tokens: usize) -> (result: Result<(), PleError>)
        requires
            old(self).position + tokens <= usize::MAX,
        ensures
            final(self).same_frame(*old(self)),
            match result {
                Ok(_) => {
                    &&& old(self).ple_window@.rollback is Some
                    &&& final(self).position == old(self).position + tokens
                    &&& final(self).ple_window@.previous == old(self).ple_window@.previous
                    &&& final(self).ple_window@.rollback is None
                    &&& final(self).ple_window@.eos == old(self).ple_window@.eos
                },
                Err(error) => {
                    &&& old(self).ple_window@.rollback is None
                    &&& error == PleError::AppendInactive
                    &&& final(self).position == old(self).position
                    &&& final(self).ple_window@ == old(self).ple_window@
                },
            },
    {
        match self.ple_window.commit_append() {
            Ok(()) => {
                self.position = self.position + tokens;
                Ok(())
            },
            Err(error) => Err(error),
        }
    }

    /// Commits only the leading `tokens` of the append.
    pub fn commit_append_prefix(&mut self, tokens: &[u32]) -> (result: Result<(), PleError>)
        requires
            old(self).position + tokens@.len() <= usize::MAX,
        ensures
            final(self).same_frame(*old(self)),
            match result {
                Ok(_) => {
                    &&& old(self).ple_window@.rollback is Some
                    &&& final(self).position == old(self).position + tokens@.len()
                    &&& final(self).ple_window@.previous
                        == crate::qwen38_flash_next::ple::pushed_all(
                        old(self).ple_window@.rollback->0,
                        old(self).ple_window@.eos,
                        tokens@,
                    )
                    &&& final(self).ple_window@.rollback is None
                    &&& final(self).ple_window@.eos == old(self).ple_window@.eos
                },
                Err(error) => {
                    &&& old(self).ple_window@.rollback is None
                    &&& error == PleError::AppendInactive
                    &&& final(self).position == old(self).position
                    &&& final(self).ple_window@ == old(self).ple_window@
                },
            },
    {
        match self.ple_window.commit_append_prefix(tokens) {
            Ok(()) => {
                self.position = self.position + tokens.len();
                Ok(())
            },
            Err(error) => Err(error),
        }
    }

    /// The layers whose saved state an abort copies back, before the token history follows.
    pub fn abort_layers(&self) -> (layers: Vec<usize>)
        ensures
            layers@ == self.saved(),
    {
        self.list_saved()
    }

    /// Restores the token history of an aborted append.
    pub fn abort_append(&mut self) -> (result: Result<(), PleError>)
        ensures
            final(self).same_frame(*old(self)),
            final(self).position == old(self).position,
            match result {
                Ok(_) => {
                    &&& old(self).ple_window@.rollback is Some
                    &&& final(self).ple_window@.previous == old(self).ple_window@.rollback->0
                    &&& final(self).ple_window@.rollback is None
                    &&& final(self).ple_window@.eos == old(self).ple_window@.eos
                },
                Err(error) => {
                    &&& old(self).ple_window@.rollback is None
                    &&& error == PleError::AppendInactive
                    &&& final(self).ple_window@ == old(self).ple_window@
                },
            },
    {
        self.ple_window.abort_append()
    }

    /// Number of committed tokens.
    pub fn position(&self) -> (position: usize)
        ensures
            position == self.position,
    {
        self.position
    }
}

/// Contents of the recurrent states and of their saved copies.
pub struct RecurrentMemory<C> {
    /// Active state of each layer.
    pub active: Seq<C>,
    /// Saved state of each layer.
    pub saved: Seq<C>,
}

/// Memory after the active states of some layers have been saved.
pub open spec fn after_save<C>(memory: RecurrentMemory<C>, layers: Seq<usize>) -> RecurrentMemory<C>
    decreases layers.len(),
{
    if layers.len() == 0 {
        memory
    } else {
        let earlier = after_save(memory, layers.drop_last());
        let layer = layers.last() as int;
        RecurrentMemory { saved: earlier.saved.update(layer, earlier.active[layer]), ..earlier }
    }
}

/// Memory after the saved states of some layers have been copied back.
pub open spec fn after_restore<C>(
    memory: RecurrentMemory<C>,
    layers: Seq<usize>,
) -> RecurrentMemory<C>
    decreases layers.len(),
{
    if layers.len() == 0 {
        memory
    } else {
        let earlier = after_restore(memory, layers.drop_last());
        let layer = layers.last() as int;
        RecurrentMemory { active: earlier.active.update(layer, earlier.saved[layer]), ..earlier }
    }
}

proof fn lemma_after_save<C>(memory: RecurrentMemory<C>, layers: Seq<usize>)
    requires
        memory.saved.len() == memory.active.len(),
        forall|i: int| 0 <= i < layers.len() ==> #[trigger] layers[i] < memory.active.len(),
    ensures
        after_save(memory, layers).active == memory.active,
        after_save(memory, layers).saved.len() == memory.saved.len(),
        forall|i: int|
            0 <= i < layers.len() ==> after_save(memory, layers).saved[#[trigger] layers[i] as int]
                == memory.active[layers[i] as int],
    decreases layers.len(),
{
    if layers.len() > 0 {
        let shorter = layers.drop_last();
        assert forall|i: int| 0 <= i < shorter.len() implies #[trigger] shorter[i]
            < memory.active.len() by {
            assert(shorter[i] == layers[i]);
        }
        lemma_after_save(memory, shorter);
        let after = after_save(memory, layers);
        assert forall|i: int| 0 <= i < layers.len() implies after.saved[#[trigger] layers[i] as int]
            == memory.active[layers[i] as int] by {
            if i < shorter.len() {
                assert(shorter[i] == layers[i]);
            }
        }
    }
}

proof fn lemma_after_restore<C>(memory: RecurrentMemory<C>, layers: Seq<usize>)
    requires
        memory.saved.len() == memory.active.len(),
        forall|i: int| 0 <= i < layers.len() ==> #[trigger] layers[i] < memory.active.len(),
    ensures
        after_restore(memory, layers).saved == memory.saved,
        after_restore(memory, layers).active.len() == memory.active.len(),
        forall|i: int|
            0 <= i < layers.len() ==> after_restore(memory, layers).active[#[trigger] layers[i] as int]
                == memory.saved[layers[i] as int],
        forall|layer: int|
            0 <= layer < memory.active.len() && !layers.contains(layer as usize)
                ==> #[trigger] after_restore(memory, layers).active[layer] == memory.active[layer],
    decreases layers.len(),
{
    if layers.len() > 0 {
        let shorter = layers.drop_last();
        assert forall|i: int| 0 <= i < shorter.len() implies #[trigger] shorter[i]
            < memory.active.len() by {
            assert(shorter[i] == layers[i]);
        }
        lemma_after_restore(memory, shorter);
        let after = after_restore(memory, layers);
        assert forall|i: int| 0 <= i < layers.len() implies after.active[#[trigger] layers[i] as int]
            == memory.saved[layers[i] as int] by {
            if i < shorter.len() {
                assert(shorter[i] == layers[i]);
            }
        }
        assert forall|layer: int|
            0 <= layer < memory.active.len() && !layers.contains(
                layer as usize,
            ) implies #[trigger] after.active[layer] == memory.active[layer] by {
            assert(layers[layers.len() - 1] == layers.last());
            if shorter.contains(layer as usize) {
                let at = choose|at: int| 0 <= at < shorter.len() && shorter[at] == layer as usize;
                assert(layers[at] == layer as usize);
            }
        }
    }
}

/// Whatever a pass does to the active states of the saved layers, an abort brings back what
/// they held when the append began, as long as the saved copies were left alone.
pub proof fn law_abort_restores_recurrent_state<C>(
    start: RecurrentMemory<C>,
    run: RecurrentMemory<C>,
    layers: Seq<usize>,
)
    requires
        start.saved.len() == start.active.len(),
        start.active.len() <= usize::MAX,
        forall|i: int| 0 <= i < layers.len() ==> #[trigger] layers[i] < start.active.len(),
        run.saved == after_save(start, layers).saved,
        run.active.len() == start.active.len(),
        forall|layer: int|
            0 <= layer < start.active.len() && !layers.contains(layer as usize)
                ==> #[trigger] run.active[layer] == start.active[layer],
    ensures
        after_restore(run, layers).active == start.active,
{
    lemma_after_save(start, layers);
    lemma_after_restore(run, layers);
    let after = after_restore(run, layers).active;
    assert forall|layer: int| 0 <= layer < start.active.len() implies after[layer]
        == start.active[layer] by {
        if layers.contains(layer as usize) {
            let at = choose|at: int| 0 <= at < layers.len() && layers[at] == layer as usize;
            assert(after[layers[at] as int] == run.saved[layers[at] as int]);
        } else {
            assert(after[layer] == run.active[layer]);
        }
    }
    assert(after =~= start.active);
}


/// Immutable page-aligned snapshot of Flash Next's non-pageable sequence state.
///
/// QSA K/V and index-key pages remain owned by the shared sequence cache.
pub struct Qwen38FlashNextSequenceSnapshot {
    /// Model that the snapshot belongs to.
    pub model_id: u64,
    /// Position that the snapshot represents.
    pub position: usize,
    /// Which layers have a copy of their recurrent state.
    pub linear_states: Vec<bool>,
    /// Token history.
    pub ple_window: Qwen38PleTokenWindow,
    /// Device bytes retained outside shared pages.
    pub device_bytes: usize,
}

impl Qwen38FlashNextSequenceSnapshot {
    /// Returns the page-aligned position represented by this snapshot.
    pub fn position(&self) -> (position: usize)
        ensures
            position == self.position,
    {
        self.position
    }

    /// Returns exact device bytes retained outside shared QSA pages.
    pub fn device_bytes(&self) -> (bytes: usize)
        ensures
            bytes == self.device_bytes,
    {
        self.device_bytes
    }
}

/// Bytes of the recurrent states among the first `count` layers.
pub open spec fn recurrent_bytes(
    states: Seq<QwenLayerKind>,
    bytes: Seq<usize>,
    count: nat,
) -> nat
    decreases count,
{
    if count == 0 {
        0
    } else {
        recurrent_bytes(states, bytes, (count - 1) as nat) + if states[count - 1]
            == QwenLayerKind::LinearAttention {
            bytes[count - 1] as nat
        } else {
            0nat
        }
    }
}

proof fn lemma_recurrent_bytes_grow(
    states: Seq<QwenLayerKind>,
    bytes: Seq<usize>,
    fewer: nat,
    more: nat,
)
    requires
        fewer <= more,
    ensures
        recurrent_bytes(states, bytes, fewer) <= recurrent_bytes(states, bytes, more),
    decreases more,
{
    if fewer < more {
        lemma_recurrent_bytes_grow(states, bytes, fewer, (more - 1) as nat);
    }
}

/// Whether the recurrent copies of a snapshot fit the layers of a state.
pub open spec fn snapshot_layers_match(linear: Seq<bool>, states: Seq<QwenLayerKind>) -> bool {
    &&& linear.len() == states.len()
    &&& forall|i: int|
        0 <= i < states.len() ==> #[trigger] linear[i] == (states[i]
            == QwenLayerKind::LinearAttention)
}

impl Qwen38FlashNextSequenceSnapshot {
    /// Whether the snapshot holds what a sequence of the model had when it was taken.
    pub open spec fn keeps(self, source: Qwen38FlashNextDecodeState) -> bool {
        &&& self.model_id == source.model_id
        &&& self.position == source.position
        &&& self.ple_window@ == source.ple_window@
        &&& snapshot_layers_match(self.linear_states@, source.states@)
    }

    /// Whether the snapshot belongs to the model and the destination is an empty sequence
    /// of that model with room for it and as many layers.
    pub open spec fn fits(self, model_id: u64, destination: Qwen38FlashNextDecodeState) -> bool {
        &&& self.model_id == model_id
        &&& destination.model_id == model_id
        &&& destination.position == 0
        &&& self.position <= destination.max_tokens
        &&& self.linear_states@.len() == destination.states@.len()
    }

    /// Whether the token history of the destination can take the one of the snapshot.
    pub open spec fn window_fits(self, destination: Qwen38FlashNextDecodeState) -> bool {
        &&& destination.ple_window@.rollback is None
        &&& destination.ple_window@.eos == self.ple_window@.eos
        &&& destination.ple_window@.previous.len() == self.ple_window@.previous.len()
    }

    /// Whether the destination can take the snapshot.
    pub open spec fn restorable(
        self,
        model_id: u64,
        destination: Qwen38FlashNextDecodeState,
    ) -> bool {
        &&& self.fits(model_id, destination)
        &&& snapshot_layers_match(self.linear_states@, destination.states@)
        &&& self.window_fits(destination)
    }

    /// Whether a state holds what the snapshot kept, on the layers that it had before.
    pub open spec fn restored(
        self,
        before: Qwen38FlashNextDecodeState,
        after: Qwen38FlashNextDecodeState,
    ) -> bool {
        &&& after.same_frame(before)
        &&& after.position == self.position
        &&& after.ple_window@ == (crate::qwen38_flash_next::ple::PleWindowModel {
            previous: self.ple_window@.previous,
            rollback: None,
            eos: self.ple_window@.eos,
        })
    }
}

impl Qwen38FlashNextModel {
    /// Allocates private recurrent state for a sequence of at most `max_tokens` tokens.
    pub fn new_decode_state(&self, max_tokens: usize) -> (result: Result<
        Qwen38FlashNextDecodeState,
        StateError,
    >)
        ensures
            match result {
                Ok(state) => {
                    &&& 1 <= max_tokens <= self.config.max_position_embeddings
                    &&& self.manifest.linear_attention is Some
                    &&& self.config.ngram_size >= 2
                    &&& state.model_id == self.model_id
                    &&& state.workspaces@ == self.manifest.layer_kinds@
                    &&& state.states@ == self.manifest.layer_kinds@
                    &&& state.rollback@.len() == self.manifest.layer_kinds@.len()
                    &&& forall|i: int|
                        0 <= i < self.manifest.layer_kinds@.len()
                            ==> #[trigger] state.rollback@[i] == crate::manifest::is_linear(
                            self.manifest.layer_kinds@,
                            i,
                        )
                    &&& state.ple_window@ == (crate::qwen38_flash_next::ple::PleWindowModel {
                        previous: crate::qwen38_flash_next::ple::empty_history(
                            (self.config.ngram_size - 1) as nat,
                            self.config.eos_token_id,
                        ),
                        rollback: None,
                        eos: self.config.eos_token_id,
                    })
                    &&& state.position == 0
                    &&& state.max_tokens == max_tokens
                },
                Err(error) => if !(1 <= max_tokens <= self.config.max_position_embeddings) {
                    error == StateError::Model(ModelError::Context)
                } else if self.manifest.linear_attention is None {
                    error == StateError::Model(ModelError::NoLinearAttention)
                } else {
                    error == StateError::Ple(PleError::TokenWindow) && self.config.ngram_size < 2
                },
            },
    {
        if max_tokens == 0 || max_tokens > self.config.max_position_embeddings {
            return Err(StateError::Model(ModelError::Context));
        }
        if self.manifest.linear_attention.is_none() {
            return Err(StateError::Model(ModelError::NoLinearAttention));
        }
        let ple_window = match Qwen38PleTokenWindow::new(
            self.config.ngram_size,
            self.config.eos_token_id,
        ) {
            Ok(window) => window,
            Err(error) => {
                return Err(StateError::Ple(error));
            },
        };
        Ok(
            Qwen38FlashNextDecodeState {
                model_id: self.model_id,
                workspaces: copy_kinds(&self.manifest.layer_kinds),
                states: copy_kinds(&self.manifest.layer_kinds),
                rollback: crate::qwen38_flash_next::model::linear_layers(
                    &self.manifest.layer_kinds,
                ),
                ple_window,
                position: 0,
                max_tokens,
            },
        )
    }

    /// Copies recurrent GDN and PLE state for a retained prompt prefix.
    ///
    /// `ple_bytes`, `frontier_bytes` and `layer_bytes` are the sizes of the device copies.
    pub fn snapshot_sequence(
        &self,
        source: &Qwen38FlashNextDecodeState,
        page_tokens: usize,
        ple_bytes: usize,
        frontier_bytes: usize,
        layer_bytes: &[usize],
    ) -> (result: Result<Qwen38FlashNextSequenceSnapshot, StateError>)
        requires
            page_tokens > 0,
            ple_bytes + frontier_bytes <= usize::MAX,
            layer_bytes@.len() == source.states@.len(),
        ensures
            ({
                let total = ple_bytes + frontier_bytes + recurrent_bytes(
                    source.states@,
                    layer_bytes@,
                    source.states@.len(),
                );
                let usable = source.model_id == self.model_id && source.position != 0
                    && source.position % page_tokens == 0;
                match result {
                    Ok(snapshot) => {
                        &&& usable
                        &&& source.ple_window@.rollback is None
                        &&& snapshot.keeps(*source)
                        &&& snapshot.device_bytes == total
                    },
                    Err(error) => if !usable {
                        error == StateError::Model(ModelError::Snapshot)
                    } else if source.ple_window@.rollback is Some {
                        error == StateError::Ple(PleError::AppendActive)
                    } else {
                        error == StateError::Model(ModelError::SnapshotBytes) && total > usize::MAX
                    },
                }
            }),
    {
        if source.model_id != self.model_id || source.position == 0 || source.position % page_tokens
            != 0 {
            return Err(StateError::Model(ModelError::Snapshot));
        }
        let ple_window = match source.ple_window.snapshot() {
            Ok(window) => window,
            Err(error) => {
                return Err(StateError::Ple(error));
            },
        };
        let mut device_bytes: usize = ple_bytes + frontier_bytes;
        let mut linear_states: Vec<bool> = Vec::new();
        let mut i: usize = 0;
        while i < source.states.len()
            invariant
                i <= source.states@.len(),
                layer_bytes@.len() == source.states@.len(),
                linear_states@.len() == i,
                forall|j: int|
                    0 <= j < i ==> #[trigger] linear_states@[j] == (source.states@[j]
                        == QwenLayerKind::LinearAttention),
                device_bytes == ple_bytes + frontier_bytes + recurrent_bytes(
                    source.states@,
                    layer_bytes@,
                    i as nat,
                ),
                source.model_id == self.model_id,
                source.position != 0,
                source.position % page_tokens == 0,
                source.ple_window@.rollback is None,
            decreases source.states@.len() - i,
        {
            proof {
                lemma_recurrent_bytes_grow(
                    source.states@,
                    layer_bytes@,
                    (i + 1) as nat,
                    source.states@.len(),
                );
            }
            match source.states[i] {
                QwenLayerKind::LinearAttention => {
                    device_bytes = match device_bytes.checked_add(layer_bytes[i]) {
                        Some(total) => total,
                        None => {
                            return Err(StateError::Model(ModelError::SnapshotBytes));
                        },
                    };
                    linear_states.push(true);
                },
                QwenLayerKind::FullAttention => {
                    linear_states.push(false);
                },
            }
            i += 1;
        }
        Ok(
            Qwen38FlashNextSequenceSnapshot {
                model_id: self.model_id,
                position: source.position,
                linear_states,
                ple_window,
                device_bytes,
            },
        )
    }

    /// Lists the layers whose recurrent copies go back into an empty sequence state.
    pub fn restore_layers(
        &self,
        snapshot: &Qwen38FlashNextSequenceSnapshot,
        destination: &Qwen38FlashNextDecodeState,
    ) -> (result: Result<Vec<usize>, StateError>)
        ensures
            match result {
                Ok(layers) => {
                    &&& snapshot.fits(self.model_id, *destination)
                    &&& snapshot_layers_match(snapshot.linear_states@, destination.states@)
                    &&& layers@ == saved_layers(
                        destination.states@,
                        snapshot.linear_states@,
                        destination.states@.len(),
                    )
                },
                Err(error) => if !snapshot.fits(self.model_id, *destination) {
                    error == StateError::Model(ModelError::SnapshotMismatch)
                } else {
                    &&& error == StateError::Model(ModelError::SnapshotLayers)
                    &&& !snapshot_layers_match(snapshot.linear_states@, destination.states@)
                },
            },
    {
        if snapshot.model_id != self.model_id || destination.model_id != self.model_id
            || destination.position != 0 || snapshot.position > destination.max_tokens
            || snapshot.linear_states.len() != destination.states.len() {
            return Err(StateError::Model(ModelError::SnapshotMismatch));
        }
        let mut layers: Vec<usize> = Vec::new();
        let mut i: usize = 0;
        while i < destination.states.len()
            invariant
                i <= destination.states@.len(),
                snapshot.linear_states@.len() == destination.states@.len(),
                snapshot.model_id == self.model_id,
                destination.model_id == self.model_id,
                destination.position == 0,
                snapshot.position <= destination.max_tokens,
                forall|j: int|
                    0 <= j < i ==> #[trigger] snapshot.linear_states@[j] == (destination.states@[j]
                        == QwenLayerKind::LinearAttention),
                layers@ == saved_layers(destination.states@, snapshot.linear_states@, i as nat),
            decreases destination.states@.len() - i,
        {
            let linear = destination.states[i] == QwenLayerKind::LinearAttention;
            if snapshot.linear_states[i] != linear {
                assert(snapshot.linear_states@[i as int] != (destination.states@[i as int]
                    == QwenLayerKind::LinearAttention));
                return Err(StateError::Model(ModelError::SnapshotLayers));
            }
            if linear {
                layers.push(i);
            }
            i += 1;
        }
        Ok(layers)
    }

    /// Restores token history and position of an empty sequence once the device copies that
    /// `restore_layers` lists are back.
    ///
    /// A sequence that cannot take the snapshot is left as it was.
    pub fn restore_sequence_snapshot(
        &self,
        snapshot: &Qwen38FlashNextSequenceSnapshot,
        destination: &mut Qwen38FlashNextDecodeState,
    ) -> (result: Result<(), StateError>)
        ensures
            match result {
                Ok(_) => {
                    &&& snapshot.restorable(self.model_id, *old(destination))
                    &&& snapshot.restored(*old(destination), *final(destination))
                },
                Err(error) => {
                    &&& final(destination).same_frame(*old(destination))
                    &&& final(destination).position == old(destination).position
                    &&& final(destination).ple_window@ == old(destination).ple_window@
                    &&& if !snapshot.fits(self.model_id, *old(destination)) {
                        error == StateError::Model(ModelError::SnapshotMismatch)
                    } else if !snapshot_layers_match(
                        snapshot.linear_states@,
                        old(destination).states@,
                    ) {
                        error == StateError::Model(ModelError::SnapshotLayers)
                    } else if old(destination).ple_window@.rollback is Some {
                        error == StateError::Ple(PleError::AppendActive)
                    } else {
                        &&& error == StateError::Ple(PleError::TokenWindow)
                        &&& !snapshot.window_fits(*old(destination))
                    }
                },
            },
    {
        match self.restore_layers(snapshot, destination) {
            Ok(_) => {},
            Err(error) => {
                return Err(error);
            },
        }
        match destination.ple_window.restore_from(&snapshot.ple_window) {
            Ok(()) => {
                destination.position = snapshot.position;
                Ok(())
            },
            Err(error) => Err(StateError::Ple(error)),
        }
    }

    /// Admits one contiguous prompt chunk and gives the position after it.
    pub fn admit_tokens(
        &self,
        state: &Qwen38FlashNextDecodeState,
        token_capacity: usize,
        tokens: &[u32],
    ) -> (result: Result<usize, ModelError>)
        ensures
            match result {
                Ok(end) => {
                    &&& 1 <= tokens@.len() <= token_capacity
                    &&& end == state.position + tokens@.len()
                    &&& end <= state.max_tokens
                    &&& forall|i: int|
                        0 <= i < tokens@.len() ==> (#[trigger] tokens@[i]) < self.config.vocab
                },
                Err(error) => if !(1 <= tokens@.len() <= token_capacity) {
                    error == ModelError::Tokens
                } else if state.position + tokens@.len() > usize::MAX {
                    error == ModelError::PositionOverflow
                } else if state.position + tokens@.len() > state.max_tokens {
                    error == ModelError::Position
                } else {
                    &&& error == ModelError::Token
                    &&& exists|i: int|
                        0 <= i < tokens@.len() && (#[trigger] tokens@[i]) >= self.config.vocab
                },
            },
    {
        if tokens.len() == 0 || tokens.len() > token_capacity {
            return Err(ModelError::Tokens);
        }
        let end: usize = match state.position.checked_add(tokens.len()) {
            Some(end) => end,
            None => {
                return Err(ModelError::PositionOverflow);
            },
        };
        if end > state.max_tokens {
            return Err(ModelError::Position);
        }
        let mut i: usize = 0;
        while i < tokens.len()
            invariant
                i <= tokens@.len(),
                1 <= tokens@.len() <= token_capacity,
                end == state.position + tokens@.len(),
                end <= state.max_tokens,
                forall|j: int| 0 <= j < i ==> (#[trigger] tokens@[j]) < self.config.vocab,
            decreases tokens@.len() - i,
        {
            if tokens[i] as usize >= self.config.vocab {
                assert(tokens@[i as int] >= self.config.vocab);
                return Err(ModelError::Token);
            }
            i += 1;
        }
        Ok(end)
    }

    /// Admits one decode token.
    pub fn admit_token(&self, state: &Qwen38FlashNextDecodeState) -> (result: Result<
        (),
        ModelError,
    >)
        ensures
            match result {
                Ok(_) => state.position < state.max_tokens,
                Err(error) => state.position >= state.max_tokens && error == ModelError::Position,
            },
    {
        if state.position >= state.max_tokens {
            return Err(ModelError::Position);
        }
        Ok(())
    }
}

fn copy_kinds(kinds: &Vec<QwenLayerKind>) -> (copy: Vec<QwenLayerKind>)
    ensures
        copy@ == kinds@,
{
    let mut copy: Vec<QwenLayerKind> = Vec::with_capacity(kinds.len());
    let mut i: usize = 0;
    while i < kinds.len()
        invariant
            i <= kinds@.len(),
            copy@ == kinds@.take(i as int),
        decreases kinds@.len() - i,
    {
        copy.push(kinds[i]);
        i += 1;
        assert(kinds@.take(i as int) =~= kinds@.take(i as int - 1).push(kinds@[i as int - 1]));
    }
    assert(kinds@.take(kinds@.len() as int) =~= kinds@);
    copy
}

/// A snapshot of a sequence restored into an empty state of the same model gives back the
/// position, the token history and the layers of the sequence, and the layers that are copied
/// back are the recurrent layers of the sequence.
pub proof fn law_snapshot_round_trip(
    source: Qwen38FlashNextDecodeState,
    snapshot: Qwen38FlashNextSequenceSnapshot,
    model_id: u64,
    before: Qwen38FlashNextDecodeState,
    after: Qwen38FlashNextDecodeState,
)
    requires
        source.ple_window@.rollback is None,
        snapshot.keeps(source),
        snapshot.restorable(model_id, before),
        snapshot.restored(before, after),
    ensures
        after.model_id == source.model_id,
        after.position == source.position,
        after.ple_window@ == source.ple_window@,
        after.states@ == source.states@,
        forall|layer: int| #[trigger]
            saved_layer(after.states@, snapshot.linear_states@, layer) <==> 0 <= layer
                < source.states@.len() && source.states@[layer] == QwenLayerKind::LinearAttention,
{
    let linear = snapshot.linear_states@;
    assert forall|i: int| 0 <= i < source.states@.len() implies after.states@[i]
        == source.states@[i] by {
        assert(linear[i] == (source.states@[i] == QwenLayerKind::LinearAttention));
        assert(linear[i] == (after.states@[i] == QwenLayerKind::LinearAttention));
    }
    assert(after.states@ =~= source.states@);
}

/// A snapshot can be restored into every empty sequence of the same model that has room for
/// its position, whatever room the sequence had that it was taken of.
pub proof fn law_snapshot_can_be_restored(
    source: Qwen38FlashNextDecodeState,
    snapshot: Qwen38FlashNextSequenceSnapshot,
    destination: Qwen38FlashNextDecodeState,
)
    requires
        snapshot.keeps(source),
        destination.model_id == source.model_id,
        destination.states@ == source.states@,
        destination.position == 0,
        source.position <= destination.max_tokens,
        destination.ple_window@.rollback is None,
        destination.ple_window@.eos == source.ple_window@.eos,
        destination.ple_window@.previous.len() == source.ple_window@.previous.len(),
    ensures
        snapshot.restorable(source.model_id, destination),
{
}

} // verus!
