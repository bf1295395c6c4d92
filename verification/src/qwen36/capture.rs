//! Residual rows that a draft model reads at chosen layers.

use vstd::prelude::*;

verus! {

/// Why rows cannot be captured.
#[derive(Clone, Copy, Debug, PartialEq, Eq, Structural)]
pub enum CaptureError {
    /// No layers, layers out of order, or an empty size.
    Shape,
}

/// Whether layers can be captured: some, in strictly ascending order.
pub open spec fn ordered_layers(layers: Seq<usize>) -> bool {
    &&& layers.len() > 0
    &&& forall|i: int, j: int| 0 <= i < j < layers.len() ==> layers[i] < layers[j]
}

/// Where a layer stands among the captured ones.
pub open spec fn tap_of(layers: Seq<usize>, layer: usize) -> Option<usize> {
    if layers.contains(layer) {
        Some(layers.index_of(layer) as usize)
    } else {
        None
    }
}

/// Captured layers, and room for their rows.
pub struct DFlash2TargetCapture {
    /// Captured layers.
    pub layers: Vec<usize>,
    /// Values of all captured rows.
    pub values: usize,
}

impl DFlash2TargetCapture {
    /// Whether the layers are in order.
    pub open spec fn well_formed(self) -> bool {
        ordered_layers(self.layers@)
    }

    /// Makes room for `rows` rows of width `hidden` at each of the layers.
    pub fn new(layers: &[usize], rows: usize, hidden: usize) -> (result: Result<Self, CaptureError>)
        requires
            rows * layers@.len() <= usize::MAX,
            rows * layers@.len() * hidden <= usize::MAX,
        ensures
            match result {
                Ok(capture) => {
                    &&& ordered_layers(layers@) && rows > 0 && hidden > 0
                    &&& capture.well_formed()
                    &&& capture.layers@ == layers@
                    &&& capture.values == rows * layers@.len() * hidden
                },
                Err(error) => {
                    &&& !(ordered_layers(layers@) && rows > 0 && hidden > 0)
                    &&& error == CaptureError::Shape
                },
            },
    {
        if layers.len() == 0 || rows == 0 || hidden == 0 {
            return Err(CaptureError::Shape);
        }
        let mut kept: Vec<usize> = Vec::new();
        kept.push(layers[0]);
        let mut i: usize = 1;
        while i < layers.len()
            invariant
                1 <= i <= layers@.len(),
                kept@ == layers@.take(i as int),
                forall|a: int, b: int| 0 <= a < b < i ==> layers@[a] < layers@[b],
            decreases layers@.len() - i,
        {
            if layers[i - 1] >= layers[i] {
                assert(!(layers@[i - 1] < layers@[i as int]));
                return Err(CaptureError::Shape);
            }
            kept.push(layers[i]);
            i += 1;
            assert(kept@ =~= layers@.take(i as int));
        }
        assert(kept@ =~= layers@);
        Ok(Self { layers: kept, values: rows * layers.len() * hidden })
    }

    /// Looks a layer up.
    pub fn tap(&self, layer: usize) -> (tap: Option<usize>)
        requires
            self.well_formed(),
        ensures
            tap == tap_of(self.layers@, layer),
            tap matches Some(tap) ==> tap < self.layers@.len() && self.layers@[tap as int] == layer,
    {
        let ghost layers = self.layers@;
        let mut low: usize = 0;
        let mut high: usize = self.layers.len();
        while low < high
            invariant
                low <= high <= layers.len(),
                layers == self.layers@,
                ordered_layers(layers),
                forall|i: int| 0 <= i < low ==> layers[i] < layer,
                forall|i: int| high <= i < layers.len() ==> layers[i] > layer,
            decreases high - low,
        {
            let middle: usize = low + (high - low) / 2;
            let found: usize = self.layers[middle];
            if found == layer {
                proof {
                    assert(layers[middle as int] == layer);
                    assert(layers.contains(layer));
                    let index = layers.index_of(layer);
                    assert(layers[index] == layer);
                    assert(index == middle);
                }
                return Some(middle);
            }
            if found < layer {
                low = middle + 1;
            } else {
                high = middle;
            }
        }
        assert(!layers.contains(layer)) by {
            if layers.contains(layer) {
                let i = layers.index_of(layer);
                assert(layers[i] == layer);
            }
        }
        None
    }
}

} // verus!
