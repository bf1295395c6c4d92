//! Names and shapes of checkpoint tensors.

use vstd::prelude::*;
use crate::text::append_decimal;

verus! {

/// A tensor that a checkpoint holds.
pub struct TensorSpec {
    /// Name.
    pub name: String,
    /// Extents, outermost first.
    pub shape: Vec<usize>,
}

impl View for TensorSpec {
    type V = (Seq<char>, Seq<usize>);

    open spec fn view(&self) -> (Seq<char>, Seq<usize>) {
        (self.name@, self.shape@)
    }
}

/// Names and shapes of some tensors.
pub open spec fn tensor_views(tensors: Seq<TensorSpec>) -> Seq<(Seq<char>, Seq<usize>)> {
    tensors.map_values(|tensor: TensorSpec| tensor@)
}

/// Adds a tensor.
pub fn push_tensor(tensors: &mut Vec<TensorSpec>, name: String, shape: Vec<usize>)
    ensures
        tensor_views(final(tensors)@) == tensor_views(old(tensors)@).push((name@, shape@)),
{
    tensors.push(TensorSpec { name, shape });
    assert(tensor_views(tensors@) =~= tensor_views(old(tensors)@).push((name@, shape@)));
}

/// A name with one number in it.
pub open spec fn numbered(prefix: Seq<char>, number: usize, suffix: Seq<char>) -> Seq<char> {
    prefix + crate::text::decimal(number as nat) + suffix
}

/// Writes a name with one number in it.
pub fn numbered_name(prefix: &str, number: usize, suffix: &str) -> (name: String)
    ensures
        name@ == numbered(prefix@, number, suffix@),
{
    let mut name = String::from_str(prefix);
    append_decimal(&mut name, number as u64);
    name.append(suffix);
    name
}

/// Shape of a vector.
pub fn vector(len: usize) -> (shape: Vec<usize>)
    ensures
        shape@ == seq![len],
{
    let mut shape: Vec<usize> = Vec::new();
    shape.push(len);
    assert(shape@ =~= seq![len]);
    shape
}

/// Shape of a matrix.
pub fn matrix(rows: usize, cols: usize) -> (shape: Vec<usize>)
    ensures
        shape@ == seq![rows, cols],
{
    let mut shape: Vec<usize> = Vec::new();
    shape.push(rows);
    shape.push(cols);
    assert(shape@ =~= seq![rows, cols]);
    shape
}

/// Shape of a stack of matrices.
pub fn cube(depth: usize, rows: usize, cols: usize) -> (shape: Vec<usize>)
    ensures
        shape@ == seq![depth, rows, cols],
{
    let mut shape: Vec<usize> = Vec::new();
    shape.push(depth);
    shape.push(rows);
    shape.push(cols);
    assert(shape@ =~= seq![depth, rows, cols]);
    shape
}

/// Whether two shapes have the same extents.
pub fn same_shape(left: &[usize], right: &[usize]) -> (same: bool)
    ensures
        same == (left@ == right@),
{
    if left.len() != right.len() {
        return false;
    }
    let mut i: usize = 0;
    while i < left.len()
        invariant
            i <= left@.len(),
            left@.len() == right@.len(),
            forall|j: int| 0 <= j < i ==> left@[j] == right@[j],
        decreases left@.len() - i,
    {
        if left[i] != right[i] {
            assert(left@[i as int] != right@[i as int]);
            return false;
        }
        i += 1;
    }
    assert(left@ =~= right@);
    true
}

/// Storage format and shape of a tensor that was found.
pub struct TensorInfo {
    /// Storage format.
    pub dtype: String,
    /// Extents, outermost first.
    pub shape: Vec<usize>,
}

impl TensorInfo {
    /// Whether this is a BF16 tensor of a shape.
    pub open spec fn is_bf16(self, shape: Seq<usize>) -> bool {
        self.dtype@ == "BF16"@ && self.shape@ == shape
    }

    /// Checks that this is a BF16 tensor of a shape.
    pub fn check_bf16(&self, shape: &[usize]) -> (matching: bool)
        ensures
            matching == self.is_bf16(shape@),
    {
        crate::text::same_text(self.dtype.as_str(), "BF16") && same_shape(
            self.shape.as_slice(),
            shape,
        )
    }
}

/// Reads little-endian sixteen-bit values. An odd byte at the end is left out.
pub fn bf16_values(bytes: &[u8]) -> (values: Vec<u16>)
    ensures
        values@ == Seq::new(
            bytes@.len() / 2,
            |i: int| (bytes@[2 * i] + 256 * bytes@[2 * i + 1]) as u16,
        ),
{
    let mut values: Vec<u16> = Vec::new();
    let count: usize = bytes.len() / 2;
    let mut i: usize = 0;
    while i < count
        invariant
            i <= count,
            count == bytes@.len() / 2,
            values@ == Seq::new(
                i as nat,
                |j: int| (bytes@[2 * j] + 256 * bytes@[2 * j + 1]) as u16,
            ),
            2 * count <= bytes@.len() <= usize::MAX,
        decreases count - i,
    {
        values.push(bytes[2 * i] as u16 + 256 * (bytes[2 * i + 1] as u16));
        i += 1;
        assert(values@ =~= Seq::new(
            i as nat,
            |j: int| (bytes@[2 * j] + 256 * bytes@[2 * j + 1]) as u16,
        ));
    }
    values
}

} // verus!
