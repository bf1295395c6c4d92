//! Prepared expert weights on disk: names, markers and what has to be rebuilt.

use vstd::prelude::*;
use crate::manifest::{QwenFfnConfig, QwenModelManifest};
use crate::text::{append_decimal, append_decimal3};

verus! {

/// Why prepared weights cannot be described.
#[derive(Clone, Copy, Debug, PartialEq, Eq, Structural)]
pub enum CacheError {
    /// The model has no routed experts.
    NotMoe,
    /// The checkpoint has no shard.
    NoShards,
    /// There is no such layer.
    Layer {
        /// Layers of the model.
        layers: usize,
        /// The layer.
        layer: usize,
    },
}

/// Hash of the first `count` bytes.
pub open spec fn hash_of(bytes: Seq<u8>, count: nat) -> u64
    decreases count,
{
    if count == 0 {
        0xcbf2_9ce4_8422_2325
    } else {
        ((hash_of(bytes, (count - 1) as nat) ^ (bytes[count - 1] as u64)) as u64).wrapping_mul(
            0x100_0000_01b3,
        )
    }
}

/// Hashes bytes in the same way on every machine.
pub fn stable_hash(bytes: &[u8]) -> (hash: u64)
    ensures
        hash == hash_of(bytes@, bytes@.len()),
{
    let mut hash: u64 = 0xcbf2_9ce4_8422_2325;
    let mut i: usize = 0;
    while i < bytes.len()
        invariant
            i <= bytes@.len(),
            hash == hash_of(bytes@, i as nat),
        decreases bytes@.len() - i,
    {
        hash = (hash ^ bytes[i] as u64).wrapping_mul(0x100_0000_01b3);
        i += 1;
    }
    hash
}

/// The character of one hexadecimal digit.
pub open spec fn hex_char(digit: nat) -> char {
    if digit < 10 {
        crate::text::digit_char(digit)
    } else if digit == 10 {
        'a'
    } else if digit == 11 {
        'b'
    } else if digit == 12 {
        'c'
    } else if digit == 13 {
        'd'
    } else if digit == 14 {
        'e'
    } else {
        'f'
    }
}

/// The last `digits` hexadecimal digits of a value, most significant first.
pub open spec fn hex(value: nat, digits: nat) -> Seq<char>
    decreases digits,
{
    if digits == 0 {
        seq![]
    } else {
        hex(value / 16, (digits - 1) as nat).push(hex_char(value % 16))
    }
}

fn append_hex_digit(text: &mut String, digit: u64)
    requires
        digit < 16,
    ensures
        final(text)@ == old(text)@.push(hex_char(digit as nat)),
{
    proof {
        reveal_strlit("a");
        reveal_strlit("b");
        reveal_strlit("c");
        reveal_strlit("d");
        reveal_strlit("e");
        reveal_strlit("f");
        reveal_with_fuel(crate::text::decimal, 2);
    }
    if digit < 10 {
        append_decimal(text, digit);
        assert(text@ =~= old(text)@.push(hex_char(digit as nat)));
    } else {
        let piece: &str = if digit == 10 {
            "a"
        } else if digit == 11 {
            "b"
        } else if digit == 12 {
            "c"
        } else if digit == 13 {
            "d"
        } else if digit == 14 {
            "e"
        } else {
            "f"
        };
        text.append(piece);
        assert(piece@ =~= seq![hex_char(digit as nat)]);
        assert(text@ =~= old(text)@.push(hex_char(digit as nat)));
    }
}

fn append_hex(text: &mut String, value: u64, digits: u32)
    ensures
        final(text)@ == old(text)@ + hex(value as nat, digits as nat),
    decreases digits,
{
    if digits > 0 {
        append_hex(text, value / 16, digits - 1);
        append_hex_digit(text, value % 16);
    }
    assert(text@ =~= old(text)@ + hex(value as nat, digits as nat));
}

/// Directory of all converted projections, named for the layout of their files.
pub fn conversion_root() -> (name: &'static str)
    ensures
        name@ == "qwen-fp8-nvfp4-v1"@,
{
    "qwen-fp8-nvfp4-v1"
}

/// Name of the directory for the weights of a checkpoint, below that of all conversions: sixteen
/// hexadecimal digits.
pub fn source_directory(stamp: &[u8]) -> (name: String)
    ensures
        name@ == hex(hash_of(stamp@, stamp@.len()) as nat, 16),
{
    let mut name = String::from_str("");
    append_hex(&mut name, stable_hash(stamp), 16);
    proof {
        reveal_strlit("");
    }
    assert(name@ =~= hex(hash_of(stamp@, stamp@.len()) as nat, 16));
    name
}

/// Name of the file for one converted projection.
pub fn weight_file(prefix: &[u8]) -> (name: String)
    ensures
        name@ == hex(hash_of(prefix@, prefix@.len()) as nat, 16) + ".nvfp4"@,
{
    let mut name = source_directory(prefix);
    name.append(".nvfp4");
    name
}

/// What was found of a converted projection, and how often either came up.
#[derive(Clone, Copy, Debug, PartialEq, Eq, Structural)]
pub struct ConversionStats {
    /// Projections that were read back.
    pub hits: usize,
    /// Projections that were converted.
    pub prepared: usize,
}

impl ConversionStats {
    /// Decides whether a stored projection is used: it was read, and it is the right one.
    pub fn load_or_quantize(&mut self, stored: &Option<String>, prefix: &str) -> (hit: bool)
        ensures
            hit == (*stored matches Some(name) && name@ == prefix@),
            final(self).hits == if hit {
                old(self).hits.wrapping_add(1)
            } else {
                old(self).hits
            },
            final(self).prepared == old(self).prepared,
    {
        let hit = match stored {
            Some(name) => crate::text::same_text(name.as_str(), prefix),
            None => false,
        };
        if hit {
            self.hits = self.hits.wrapping_add(1);
        }
        hit
    }

    /// Counts a projection that was converted and stored.
    pub fn converted(&mut self)
        ensures
            final(self).hits == old(self).hits,
            final(self).prepared == old(self).prepared.wrapping_add(1),
    {
        self.prepared = self.prepared.wrapping_add(1);
    }

    /// Projections that were read back, and projections that were converted.
    pub fn stats(&self) -> (counts: (usize, usize))
        ensures
            counts == (self.hits, self.prepared),
    {
        (self.hits, self.prepared)
    }
}

/// Experts of a model, and their inner width.
pub fn moe_shape(manifest: &QwenModelManifest) -> (result: Result<(usize, usize), CacheError>)
    ensures
        match result {
            Ok((experts, intermediate)) => manifest.ffn matches QwenFfnConfig::Moe {
                experts: given,
                expert_intermediate,
                ..
            } && experts == given && intermediate == expert_intermediate,
            Err(error) => manifest.ffn is Dense && error == CacheError::NotMoe,
        },
{
    match manifest.ffn {
        QwenFfnConfig::Moe { experts, expert_intermediate, .. } => Ok(
            (experts, expert_intermediate),
        ),
        QwenFfnConfig::Dense => Err(CacheError::NotMoe),
    }
}

/// Name of the directory of a layer.
pub fn layer_dir(layer: usize) -> (name: String)
    ensures
        name@ == "layer-"@ + crate::text::decimal3(layer as nat),
{
    let mut name = String::from_str("layer-");
    append_decimal3(&mut name, layer as u64);
    name
}

/// Name of the file of a down projection.
pub fn down_path(expert: usize) -> (name: String)
    ensures
        name@ == "expert-"@ + crate::text::decimal3(expert as nat) + ".down.s12x"@,
{
    let mut name = String::from_str("expert-");
    append_decimal3(&mut name, expert as u64);
    name.append(".down.s12x");
    name
}

/// Name of the file of a gate and up projection.
pub fn gate_up_path(expert: usize) -> (name: String)
    ensures
        name@ == "expert-"@ + crate::text::decimal3(expert as nat) + ".gate-up.sm121-w4a16"@,
{
    let mut name = String::from_str("expert-");
    append_decimal3(&mut name, expert as u64);
    name.append(".gate-up.sm121-w4a16");
    name
}

/// Name of a projection of an expert.
pub open spec fn expert_name(
    prefix: Seq<char>,
    layer: usize,
    expert: usize,
    suffix: Seq<char>,
) -> Seq<char> {
    prefix + ".layers."@ + crate::text::decimal(layer as nat) + ".mlp.experts."@
        + crate::text::decimal(expert as nat) + suffix
}

/// Writes the name of a projection of an expert.
pub fn expert_tensor(prefix: &str, layer: usize, expert: usize, suffix: &str) -> (name: String)
    ensures
        name@ == expert_name(prefix@, layer, expert, suffix@),
{
    let mut name = String::from_str(prefix);
    name.append(".layers.");
    append_decimal(&mut name, layer as u64);
    name.append(".mlp.experts.");
    append_decimal(&mut name, expert as u64);
    name.append(suffix);
    name
}

/// Tensors of which either shows that the down projections of a layer are stored in NVFP4.
pub struct DownProbes {
    /// Scale of one export format.
    pub scale: String,
    /// Scale of the other.
    pub global_scale: String,
}

/// Names the tensors that show the storage format of the down projections of a layer.
pub fn layer_uses_nvfp4_down(manifest: &QwenModelManifest, layer: usize) -> (probes: DownProbes)
    ensures
        probes.scale@ == expert_name(
            manifest.tensor_prefix@,
            layer,
            0,
            ".down_proj.weight_scale_2"@,
        ),
        probes.global_scale@ == expert_name(
            manifest.tensor_prefix@,
            layer,
            0,
            ".down_proj.weight_global_scale"@,
        ),
{
    let prefix = manifest.tensor_prefix.as_str();
    DownProbes {
        scale: expert_tensor(prefix, layer, 0, ".down_proj.weight_scale_2"),
        global_scale: expert_tensor(prefix, layer, 0, ".down_proj.weight_global_scale"),
    }
}

/// Decides whether the down projections of a layer are stored in NVFP4: either tensor shows it.
pub fn nvfp4_down(scale_found: bool, global_scale_found: bool) -> (nvfp4: bool)
    ensures
        nvfp4 == (scale_found || global_scale_found),
{
    scale_found || global_scale_found
}

/// One shard of a checkpoint.
#[derive(Clone, Debug, PartialEq, Eq)]
pub struct Shard {
    /// File name.
    pub name: String,
    /// Bytes.
    pub len: u64,
    /// Seconds of its modification time.
    pub seconds: u64,
    /// Nanoseconds of its modification time.
    pub nanos: u32,
}

/// Whether a file name is that of a shard.
pub open spec fn shard_name(name: Seq<char>) -> bool {
    let suffix = ".safetensors"@;
    name.len() > suffix.len() && name.subrange(name.len() - suffix.len(), name.len() as int)
        == suffix
}

/// Decides whether a file name is that of a shard.
pub fn is_shard(name: &str) -> (shard: bool)
    ensures
        shard == shard_name(name@),
{
    let suffix: &str = ".safetensors";
    let len: usize = name.unicode_len();
    let tail: usize = suffix.unicode_len();
    if len <= tail {
        return false;
    }
    let mut i: usize = 0;
    while i < tail
        invariant
            i <= tail < len,
            len == name@.len(),
            tail == suffix@.len(),
            suffix@ == ".safetensors"@,
            forall|j: int| 0 <= j < i ==> name@[len - tail + j] == suffix@[j],
        decreases tail - i,
    {
        if name.get_char(len - tail + i) != suffix.get_char(i) {
            proof {
                let ending = name@.subrange(len - tail, len as int);
                assert(ending[i as int] == name@[len - tail + i]);
            }
            return false;
        }
        i += 1;
    }
    assert(name@.subrange(len - tail, len as int) =~= suffix@);
    true
}

/// Whether one text comes before another, or is the same, by their characters.
pub open spec fn text_le(left: Seq<char>, right: Seq<char>) -> bool
    decreases left.len(),
{
    if left.len() == 0 {
        true
    } else if right.len() == 0 {
        false
    } else if left[0] != right[0] {
        (left[0] as u32) < (right[0] as u32)
    } else {
        text_le(left.skip(1), right.skip(1))
    }
}

proof fn lemma_skip_one(text: Seq<char>, i: int)
    requires
        0 <= i < text.len(),
    ensures
        text.skip(i).skip(1) == text.skip(i + 1),
        text.skip(i)[0] == text[i],
{
    assert(text.skip(i).skip(1) =~= text.skip(i + 1));
}

fn is_text_le(left: &str, right: &str) -> (ordered: bool)
    ensures
        ordered == text_le(left@, right@),
{
    let left_len: usize = left.unicode_len();
    let right_len: usize = right.unicode_len();
    let mut i: usize = 0;
    assert(left@.skip(0) =~= left@);
    assert(right@.skip(0) =~= right@);
    while i < left_len && i < right_len
        invariant
            i <= left_len,
            i <= right_len,
            left_len == left@.len(),
            right_len == right@.len(),
            text_le(left@, right@) == text_le(left@.skip(i as int), right@.skip(i as int)),
        decreases left_len - i,
    {
        let a: char = left.get_char(i);
        let b: char = right.get_char(i);
        proof {
            lemma_skip_one(left@, i as int);
            lemma_skip_one(right@, i as int);
        }
        if a != b {
            return (a as u32) < (b as u32);
        }
        i += 1;
    }
    i == left_len
}

proof fn lemma_text_le_total(left: Seq<char>, right: Seq<char>)
    ensures
        text_le(left, right) || text_le(right, left),
    decreases left.len(),
{
    if left.len() > 0 && right.len() > 0 && left[0] == right[0] {
        lemma_text_le_total(left.skip(1), right.skip(1));
    } else if left.len() > 0 && right.len() > 0 {
        lemma_char_order(left[0], right[0]);
    }
}

proof fn lemma_char_order(left: char, right: char)
    requires
        left != right,
    ensures
        (left as u32) < (right as u32) || (right as u32) < (left as u32),
{
}

proof fn lemma_text_le_transitive(left: Seq<char>, middle: Seq<char>, right: Seq<char>)
    requires
        text_le(left, middle),
        text_le(middle, right),
    ensures
        text_le(left, right),
    decreases left.len(),
{
    if left.len() > 0 && middle.len() > 0 && right.len() > 0 && left[0] == middle[0] && middle[0]
        == right[0] {
        lemma_text_le_transitive(left.skip(1), middle.skip(1), right.skip(1));
    }
}

/// Whether shards are in the order of their names.
pub open spec fn shards_sorted(shards: Seq<Shard>) -> bool {
    forall|i: int, j: int|
        0 <= i < j < shards.len() ==> text_le(
            (#[trigger] shards[i]).name@,
            (#[trigger] shards[j]).name@,
        )
}

/// Orders shards by name. Shards of the same name keep their order.
pub fn sort_shards(shards: Vec<Shard>) -> (sorted: Vec<Shard>)
    ensures
        shards_sorted(sorted@),
        sorted@.to_multiset() == shards@.to_multiset(),
{
    let mut left = shards;
    let mut sorted: Vec<Shard> = Vec::new();
    let ghost all = left@;
    proof {
        vstd::seq_lib::lemma_multiset_commutative(left@, sorted@);
        assert(left@ + sorted@ =~= all);
    }
    while left.len() > 0
        invariant
            shards_sorted(sorted@),
            (left@ + sorted@).to_multiset() == all.to_multiset(),
        decreases left@.len(),
    {
        let ghost left_before = left@;
        let ghost sorted_before = sorted@;
        let shard = left.remove(left.len() - 1);
        let place: usize = find_place(&sorted, &shard);
        let ghost kept = shard;
        sorted.insert(place, shard);
        proof {
            assert(left@ =~= left_before.drop_last());
            assert(left_before =~= left@.push(kept));
            lemma_insert_sorted(sorted_before, place as int, kept);
            vstd::seq_lib::lemma_multiset_commutative(left_before, sorted_before);
            vstd::seq_lib::lemma_multiset_commutative(left@, sorted@);
            broadcast use vstd::seq_lib::group_to_multiset_ensures;

            assert(left_before.to_multiset() == left@.to_multiset().insert(kept));
            assert(sorted@ == sorted_before.insert(place as int, kept));
            vstd::seq_lib::to_multiset_insert(sorted_before, place as int, kept);
            assert((left@ + sorted@).to_multiset() =~= (left_before
                + sorted_before).to_multiset());
        }
    }
    assert(left@ + sorted@ =~= sorted@);
    sorted
}

fn find_place(sorted: &Vec<Shard>, shard: &Shard) -> (place: usize)
    requires
        shards_sorted(sorted@),
    ensures
        place <= sorted@.len(),
        forall|i: int| 0 <= i < place ==> !text_le(shard.name@, (#[trigger] sorted@[i]).name@),
        forall|i: int|
            place <= i < sorted@.len() ==> text_le(shard.name@, (#[trigger] sorted@[i]).name@),
{
    let mut place: usize = 0;
    while place < sorted.len()
        invariant
            place <= sorted@.len(),
            shards_sorted(sorted@),
            forall|i: int|
                0 <= i < place ==> !text_le(shard.name@, (#[trigger] sorted@[i]).name@),
        decreases sorted@.len() - place,
    {
        if is_text_le(shard.name.as_str(), sorted[place].name.as_str()) {
            proof {
                assert forall|i: int| place <= i < sorted@.len() implies text_le(
                    shard.name@,
                    (#[trigger] sorted@[i]).name@,
                ) by {
                    if place < i {
                        assert(text_le(sorted@[place as int].name@, sorted@[i].name@));
                        lemma_text_le_transitive(
                            shard.name@,
                            sorted@[place as int].name@,
                            sorted@[i].name@,
                        );
                    }
                }
            }
            return place;
        }
        place += 1;
    }
    place
}

proof fn lemma_insert_sorted(sorted: Seq<Shard>, place: int, shard: Shard)
    requires
        shards_sorted(sorted),
        0 <= place <= sorted.len(),
        forall|i: int| 0 <= i < place ==> !text_le(shard.name@, (#[trigger] sorted[i]).name@),
        forall|i: int|
            place <= i < sorted.len() ==> text_le(shard.name@, (#[trigger] sorted[i]).name@),
    ensures
        shards_sorted(sorted.insert(place, shard)),
{
    let after = sorted.insert(place, shard);
    assert forall|i: int, j: int| 0 <= i < j < after.len() implies text_le(
        (#[trigger] after[i]).name@,
        (#[trigger] after[j]).name@,
    ) by {
        if i < place && j == place {
            assert(!text_le(shard.name@, sorted[i].name@));
            lemma_text_le_total(shard.name@, sorted[i].name@);
        } else if i == place {
            assert(after[j] == sorted[j - 1]);
        } else if i < place && j < place {
            assert(text_le(sorted[i].name@, sorted[j].name@));
        } else if i < place {
            assert(after[j] == sorted[j - 1]);
            assert(text_le(sorted[i].name@, sorted[j - 1].name@));
        } else {
            assert(after[i] == sorted[i - 1]);
            assert(after[j] == sorted[j - 1]);
            assert(text_le(sorted[i - 1].name@, sorted[j - 1].name@));
        }
    }
}

proof fn lemma_text_le_antisymmetric(left: Seq<char>, right: Seq<char>)
    requires
        text_le(left, right),
        text_le(right, left),
    ensures
        left == right,
    decreases left.len(),
{
    if left.len() > 0 && right.len() > 0 {
        if left[0] != right[0] {
            lemma_char_order(left[0], right[0]);
        } else {
            lemma_text_le_antisymmetric(left.skip(1), right.skip(1));
            assert(left =~= seq![left[0]] + left.skip(1));
            assert(right =~= seq![right[0]] + right.skip(1));
        }
    } else {
        assert(left =~= right);
    }
}

/// Whether no two shards have the same name.
pub open spec fn distinct_names(shards: Seq<Shard>) -> bool {
    forall|i: int, j: int|
        0 <= i < shards.len() && 0 <= j < shards.len() && (#[trigger] shards[i]).name@ == (
        #[trigger] shards[j]).name@ ==> i == j
}

/// The order in which a directory lists its files does not matter: shards with different names
/// have only one order.
pub proof fn law_sorted_shards_are_unique(left: Seq<Shard>, right: Seq<Shard>)
    requires
        shards_sorted(left),
        shards_sorted(right),
        distinct_names(left),
        left.to_multiset() == right.to_multiset(),
    ensures
        left == right,
    decreases left.len(),
{
    broadcast use vstd::seq_lib::group_to_multiset_ensures;

    assert(left.len() == left.to_multiset().len());
    assert(right.len() == right.to_multiset().len());
    if left.len() > 0 {
        let first = left[0];
        let other = right[0];
        assert(left.contains(first));
        assert(right.contains(other));
        assert(right.to_multiset().count(first) > 0);
        assert(right.contains(first));
        assert(left.to_multiset().count(other) > 0);
        assert(left.contains(other));
        let i = left.index_of(other);
        let j = right.index_of(first);
        assert(left[i] == other);
        assert(right[j] == first);
        lemma_text_le_total(first.name@, first.name@);
        lemma_text_le_total(other.name@, other.name@);
        assert(text_le(first.name@, other.name@)) by {
            if i > 0 {
                assert(text_le(left[0].name@, left[i].name@));
            }
        }
        assert(text_le(other.name@, first.name@)) by {
            if j > 0 {
                assert(text_le(right[0].name@, right[j].name@));
            }
        }
        lemma_text_le_antisymmetric(first.name@, other.name@);
        assert(left[0].name@ == left[i].name@);
        assert(first == other);
        let left_rest = left.remove(0);
        let right_rest = right.remove(0);
        assert(left_rest.to_multiset() =~= left.to_multiset().remove(first));
        assert(right_rest.to_multiset() =~= right.to_multiset().remove(first));
        assert forall|a: int, b: int| 0 <= a < b < left_rest.len() implies text_le(
            (#[trigger] left_rest[a]).name@,
            (#[trigger] left_rest[b]).name@,
        ) by {
            assert(text_le(left[a + 1].name@, left[b + 1].name@));
        }
        assert forall|a: int, b: int| 0 <= a < b < right_rest.len() implies text_le(
            (#[trigger] right_rest[a]).name@,
            (#[trigger] right_rest[b]).name@,
        ) by {
            assert(text_le(right[a + 1].name@, right[b + 1].name@));
        }
        assert forall|a: int, b: int|
            0 <= a < left_rest.len() && 0 <= b < left_rest.len() && (#[trigger] left_rest[a]).name@
                == (#[trigger] left_rest[b]).name@ implies a == b by {
            assert(left_rest[a] == left[a + 1]);
            assert(left_rest[b] == left[b + 1]);
        }
        law_sorted_shards_are_unique(left_rest, right_rest);
        assert(left =~= seq![first] + left_rest);
        assert(right =~= seq![other] + right_rest);
    } else {
        assert(left =~= right);
    }
}

/// Line of one shard.
pub open spec fn shard_line(shard: Shard) -> Seq<char> {
    "source="@ + shard.name@ + ":"@ + crate::text::decimal(shard.len as nat) + ":"@
        + crate::text::decimal(shard.seconds as nat) + ":"@ + crate::text::decimal(
        shard.nanos as nat,
    ) + "\n"@
}

/// Lines of the first `count` shards.
pub open spec fn shard_lines(shards: Seq<Shard>, count: nat) -> Seq<char>
    decreases count,
{
    if count == 0 {
        seq![]
    } else {
        shard_lines(shards, (count - 1) as nat) + shard_line(shards[count - 1])
    }
}

fn append_shard(stamp: &mut String, shard: &Shard)
    ensures
        final(stamp)@ == old(stamp)@ + shard_line(*shard),
{
    stamp.append("source=");
    stamp.append(shard.name.as_str());
    stamp.append(":");
    append_decimal(stamp, shard.len);
    stamp.append(":");
    append_decimal(stamp, shard.seconds);
    stamp.append(":");
    append_decimal(stamp, shard.nanos as u64);
    stamp.append("\n");
    assert(stamp@ =~= old(stamp)@ + shard_line(*shard));
}

/// Describes the shards of a checkpoint, one line for each, in the order of their names.
pub fn checkpoint_stamp(shards: Vec<Shard>) -> (result: Result<String, CacheError>)
    ensures
        match result {
            Ok(stamp) => {
                &&& shards@.len() > 0
                &&& exists|sorted: Seq<Shard>|
                    shards_sorted(sorted) && sorted.to_multiset() == shards@.to_multiset()
                        && stamp@ == #[trigger] shard_lines(sorted, sorted.len())
            },
            Err(error) => shards@.len() == 0 && error == CacheError::NoShards,
        },
{
    if shards.len() == 0 {
        return Err(CacheError::NoShards);
    }
    let sorted = sort_shards(shards);
    let mut stamp = String::from_str("");
    proof {
        reveal_strlit("");
    }
    assert(stamp@ =~= seq![]);
    let mut i: usize = 0;
    while i < sorted.len()
        invariant
            i <= sorted@.len(),
            stamp@ == shard_lines(sorted@, i as nat),
        decreases sorted@.len() - i,
    {
        append_shard(&mut stamp, &sorted[i]);
        i += 1;
    }
    Ok(stamp)
}

/// Contents of the marker of a prepared layer.
pub open spec fn marker_text(
    hidden: usize,
    experts: usize,
    intermediate: usize,
    layer: usize,
    stamp: Seq<char>,
) -> Seq<char> {
    "eider-qwen36-experts-v2\nlayer="@ + crate::text::decimal(layer as nat) + "\nexperts="@
        + crate::text::decimal(experts as nat) + "\nout="@ + crate::text::decimal(hidden as nat)
        + ";in="@ + crate::text::decimal(intermediate as nat) + "\n"@ + stamp
}

/// Writes the contents of the marker of a prepared layer.
pub fn marker_contents(manifest: &QwenModelManifest, layer: usize, stamp: &str) -> (result: Result<
    String,
    CacheError,
>)
    ensures
        match result {
            Ok(marker) => manifest.ffn matches QwenFfnConfig::Moe {
                experts,
                expert_intermediate,
                ..
            } && marker@ == marker_text(
                manifest.hidden,
                experts,
                expert_intermediate,
                layer,
                stamp@,
            ),
            Err(error) => manifest.ffn is Dense && error == CacheError::NotMoe,
        },
{
    match moe_shape(manifest) {
        Ok((experts, intermediate)) => {
            let mut marker = String::from_str("eider-qwen36-experts-v2\nlayer=");
            append_decimal(&mut marker, layer as u64);
            marker.append("\nexperts=");
            append_decimal(&mut marker, experts as u64);
            marker.append("\nout=");
            append_decimal(&mut marker, manifest.hidden as u64);
            marker.append(";in=");
            append_decimal(&mut marker, intermediate as u64);
            marker.append("\n");
            marker.append(stamp);
            assert(marker@ =~= marker_text(
                manifest.hidden,
                experts,
                intermediate,
                layer,
                stamp@,
            ));
            Ok(marker)
        },
        Err(error) => Err(error),
    }
}

/// A choice among the two files of an expert, such as those that are ready.
#[derive(Clone, Copy, Debug, PartialEq, Eq, Structural)]
pub struct ExpertFiles {
    /// The file of gate and up weights.
    pub gate_up: bool,
    /// The down file.
    pub down: bool,
}

/// Decides which files of an expert are written: those that are not ready, and no others.
pub fn expert_builds(ready: &ExpertFiles) -> (builds: ExpertFiles)
    ensures
        builds.gate_up == !ready.gate_up,
        builds.down == !ready.down,
{
    ExpertFiles { gate_up: !ready.gate_up, down: !ready.down }
}

/// Decides whether a layer is prepared: its marker is current and every expert has its files.
pub fn layer_cache_complete(
    stored: &Option<String>,
    expected: &str,
    experts: &[ExpertFiles],
) -> (complete: bool)
    ensures
        complete == (*stored matches Some(marker) && marker@ == expected@ && forall|i: int|
            0 <= i < experts@.len() ==> (#[trigger] experts@[i]).gate_up && experts@[i].down),
{
    match stored {
        Some(marker) => {
            if !crate::text::same_text(marker.as_str(), expected) {
                return false;
            }
        },
        None => {
            return false;
        },
    }
    let mut i: usize = 0;
    while i < experts.len()
        invariant
            i <= experts@.len(),
            forall|j: int|
                0 <= j < i ==> (#[trigger] experts@[j]).gate_up && experts@[j].down,
        decreases experts@.len() - i,
    {
        let files: ExpertFiles = experts[i];
        if !files.gate_up || !files.down {
            assert(!(experts@[i as int].gate_up && experts@[i as int].down));
            return false;
        }
        i += 1;
    }
    true
}

/// Whether a layer is prepared anew because its marker is that of another checkpoint.
pub open spec fn outdated(stored: Option<Seq<char>>, expected: Seq<char>) -> bool {
    stored matches Some(marker) && marker != expected
}

/// Experts among the first `count` that have to be prepared.
pub open spec fn missing_of(experts: Seq<ExpertFiles>, all: bool, count: nat) -> Seq<usize>
    decreases count,
{
    if count == 0 {
        seq![]
    } else {
        let before = missing_of(experts, all, (count - 1) as nat);
        if all || !experts[count - 1].gate_up || !experts[count - 1].down {
            before.push((count - 1) as usize)
        } else {
            before
        }
    }
}

/// Lists the experts of a layer that have to be prepared: every one if the marker is that of
/// another checkpoint, otherwise those that lack a file.
pub fn missing_experts(
    stored: &Option<String>,
    expected: &str,
    experts: &[ExpertFiles],
) -> (missing: Vec<usize>)
    ensures
        missing@ == missing_of(
            experts@,
            outdated(
                match *stored {
                    Some(marker) => Some(marker@),
                    None => None,
                },
                expected@,
            ),
            experts@.len(),
        ),
{
    let all = match stored {
        Some(marker) => !crate::text::same_text(marker.as_str(), expected),
        None => false,
    };
    let mut missing: Vec<usize> = Vec::new();
    let mut i: usize = 0;
    while i < experts.len()
        invariant
            i <= experts@.len(),
            missing@ == missing_of(experts@, all, i as nat),
        decreases experts@.len() - i,
    {
        let files: ExpertFiles = experts[i];
        if all || !files.gate_up || !files.down {
            missing.push(i);
        }
        i += 1;
    }
    missing
}

/// Number of workers for some missing experts: at most eight, and no more than there is work.
pub fn worker_count(parallelism: usize, missing: usize) -> (workers: usize)
    ensures
        workers == ({
            let available = if parallelism < 8 {
                parallelism
            } else {
                8
            };
            let work = if missing > 1 {
                missing
            } else {
                1
            };
            if available < work {
                available
            } else {
                work
            }
        }),
{
    let available: usize = if parallelism < 8 {
        parallelism
    } else {
        8
    };
    let work: usize = if missing > 1 {
        missing
    } else {
        1
    };
    if available < work {
        available
    } else {
        work
    }
}

/// What a layer looks like before preparation.
#[derive(Clone, Copy, Debug, PartialEq, Eq, Structural)]
pub struct LayerSurvey {
    /// Its down projections are stored in NVFP4.
    pub nvfp4_down: bool,
    /// It is prepared.
    pub complete: bool,
}

/// Layers among the first `count` that have to be prepared.
pub open spec fn missing_layers_of(layers: Seq<LayerSurvey>, count: nat) -> Seq<usize>
    decreases count,
{
    if count == 0 {
        seq![]
    } else {
        let before = missing_layers_of(layers, (count - 1) as nat);
        if layers[count - 1].nvfp4_down && !layers[count - 1].complete {
            before.push((count - 1) as usize)
        } else {
            before
        }
    }
}

/// Lists the layers that have to be prepared.
pub fn missing_layers(layers: &[LayerSurvey]) -> (missing: Vec<usize>)
    ensures
        missing@ == missing_layers_of(layers@, layers@.len()),
{
    let mut missing: Vec<usize> = Vec::new();
    let mut i: usize = 0;
    while i < layers.len()
        invariant
            i <= layers@.len(),
            missing@ == missing_layers_of(layers@, i as nat),
        decreases layers@.len() - i,
    {
        let layer: LayerSurvey = layers[i];
        if layer.nvfp4_down && !layer.complete {
            missing.push(i);
        }
        i += 1;
    }
    missing
}

/// The call that the preparation of a model makes next.
#[derive(Clone, Copy, Debug, PartialEq, Eq, Structural)]
pub enum PrepareStage {
    /// Survey the layers.
    Survey,
    /// Lock the directory.
    Lock,
    /// Survey the layers again, with the directory locked.
    SurveyLocked,
    /// Prepare the layer at this place of the missing ones.
    Build(usize),
    /// Nothing is left to do.
    Finished,
}

/// Preparation of a model: the directory is locked only where something is missing, and what
/// is missing is looked up again under the lock.
pub struct ModelPreparation {
    stage: PrepareStage,
    missing: Vec<usize>,
}

impl ModelPreparation {
    /// The call to make next.
    pub closed spec fn spec_stage(self) -> PrepareStage {
        self.stage
    }

    /// Layers to prepare.
    pub closed spec fn spec_missing(self) -> Seq<usize> {
        self.missing@
    }

    /// Whether the layer to prepare is one of the missing ones.
    pub open spec fn well_formed(self) -> bool {
        self.spec_stage() matches PrepareStage::Build(index) ==> index < self.spec_missing().len()
    }

    /// Starts a preparation.
    pub fn new() -> (preparation: Self)
        ensures
            preparation.well_formed(),
            preparation.spec_stage() == PrepareStage::Survey,
    {
        Self { stage: PrepareStage::Survey, missing: Vec::new() }
    }

    /// The call to make next.
    pub fn stage(&self) -> (stage: PrepareStage)
        ensures
            stage == self.spec_stage(),
    {
        self.stage
    }

    /// The layer to prepare.
    pub fn layer(&self) -> (layer: Option<usize>)
        requires
            self.well_formed(),
        ensures
            layer == match self.spec_stage() {
                PrepareStage::Build(index) => Some(self.spec_missing()[index as int]),
                _ => None,
            },
    {
        match self.stage {
            PrepareStage::Build(index) => Some(self.missing[index]),
            _ => None,
        }
    }

    /// Takes a survey of the layers.
    pub fn surveyed(&mut self, layers: &[LayerSurvey])
        requires
            old(self).spec_stage() == PrepareStage::Survey || old(self).spec_stage()
                == PrepareStage::SurveyLocked,
        ensures
            final(self).well_formed(),
            final(self).spec_missing() == missing_layers_of(layers@, layers@.len()),
            final(self).spec_stage() == if missing_layers_of(layers@, layers@.len()).len() == 0 {
                PrepareStage::Finished
            } else if old(self).spec_stage() == PrepareStage::Survey {
                PrepareStage::Lock
            } else {
                PrepareStage::Build(0)
            },
    {
        let missing = missing_layers(layers);
        self.stage = if missing.len() == 0 {
            PrepareStage::Finished
        } else {
            match self.stage {
                PrepareStage::Survey => PrepareStage::Lock,
                _ => PrepareStage::Build(0),
            }
        };
        self.missing = missing;
    }

    /// Notes that the directory is locked, or that a layer is prepared.
    pub fn done(&mut self)
        requires
            old(self).well_formed(),
        ensures
            final(self).well_formed(),
            final(self).spec_missing() == old(self).spec_missing(),
            final(self).spec_stage() == match old(self).spec_stage() {
                PrepareStage::Lock => PrepareStage::SurveyLocked,
                PrepareStage::Build(index) => if index + 1 < old(self).spec_missing().len() {
                    PrepareStage::Build((index + 1) as usize)
                } else {
                    PrepareStage::Finished
                },
                stage => stage,
            },
    {
        match self.stage {
            PrepareStage::Lock => {
                self.stage = PrepareStage::SurveyLocked;
            },
            PrepareStage::Build(index) => {
                let count: usize = self.missing.len();
                if index + 1 < count {
                    self.stage = PrepareStage::Build(index + 1);
                } else {
                    self.stage = PrepareStage::Finished;
                }
            },
            _ => {},
        }
    }
}

/// What the preparation of a single layer calls for.
#[derive(Clone, Copy, Debug, PartialEq, Eq, Structural)]
pub enum LayerPreparation {
    /// Nothing.
    Ready,
    /// The layer has to be prepared.
    Build,
}

/// Decides whether a single layer has to be prepared.
pub fn ensure_layer_cache(manifest: &QwenModelManifest, layer: usize, survey: LayerSurvey) -> (
    result: Result<LayerPreparation, CacheError>)
    ensures
        match result {
            Ok(preparation) => layer < manifest.layers && preparation == if survey.nvfp4_down
                && !survey.complete {
                LayerPreparation::Build
            } else {
                LayerPreparation::Ready
            },
            Err(error) => layer >= manifest.layers && error == (CacheError::Layer {
                layers: manifest.layers,
                layer,
            }),
        },
{
    if layer >= manifest.layers {
        return Err(CacheError::Layer { layers: manifest.layers, layer });
    }
    if survey.nvfp4_down && !survey.complete {
        Ok(LayerPreparation::Build)
    } else {
        Ok(LayerPreparation::Ready)
    }
}

/// A prepared layer needs no further work: with a current marker and every file in place no
/// expert is missing.
pub proof fn law_complete_layer_misses_nothing(
    marker: Seq<char>,
    experts: Seq<ExpertFiles>,
    count: nat,
)
    requires
        count <= experts.len(),
        forall|i: int|
            0 <= i < experts.len() ==> (#[trigger] experts[i]).gate_up && experts[i].down,
    ensures
        missing_of(experts, outdated(Some(marker), marker), count).len() == 0,
    decreases count,
{
    if count > 0 {
        law_complete_layer_misses_nothing(marker, experts, (count - 1) as nat);
        assert(experts[count - 1].gate_up && experts[count - 1].down);
    }
}

/// An expert is prepared where its layer is prepared anew or where it lacks a file, and only
/// there; experts are listed once and in order.
pub proof fn law_missing_experts_are_those_without_files(
    experts: Seq<ExpertFiles>,
    all: bool,
    count: nat,
    expert: usize,
)
    requires
        count <= experts.len() <= usize::MAX,
    ensures
        missing_of(experts, all, count).contains(expert) <==> expert < count && (all
            || !experts[expert as int].gate_up || !experts[expert as int].down),
        forall|i: int, j: int|
            0 <= i < j < missing_of(experts, all, count).len() ==> missing_of(experts, all, count)[i]
                < missing_of(experts, all, count)[j],
    decreases count,
{
    if count > 0 {
        let less = (count - 1) as nat;
        law_missing_experts_are_those_without_files(experts, all, less, expert);
        let before = missing_of(experts, all, less);
        let after = missing_of(experts, all, count);
        assert forall|i: int| 0 <= i < before.len() implies #[trigger] before[i] < less by {
            law_missing_experts_are_those_without_files(experts, all, less, before[i]);
            assert(before.contains(before[i]));
        }
        if after != before {
            assert(after == before.push(less as usize));
            assert(after[before.len() as int] == less as usize);
            if before.contains(expert) {
                let at = before.index_of(expert);
                assert(after[at] == expert);
            }
        }
    }
}

/// A layer is prepared where its experts need it and it is not complete, and only there; layers
/// are listed once and in order.
pub proof fn law_missing_layers_are_the_incomplete_ones(
    layers: Seq<LayerSurvey>,
    count: nat,
    layer: usize,
)
    requires
        count <= layers.len() <= usize::MAX,
    ensures
        missing_layers_of(layers, count).contains(layer) <==> layer < count
            && layers[layer as int].nvfp4_down && !layers[layer as int].complete,
        forall|i: int, j: int|
            0 <= i < j < missing_layers_of(layers, count).len() ==> missing_layers_of(layers, count)[i]
                < missing_layers_of(layers, count)[j],
    decreases count,
{
    if count > 0 {
        let less = (count - 1) as nat;
        law_missing_layers_are_the_incomplete_ones(layers, less, layer);
        let before = missing_layers_of(layers, less);
        let after = missing_layers_of(layers, count);
        assert forall|i: int| 0 <= i < before.len() implies #[trigger] before[i] < less by {
            law_missing_layers_are_the_incomplete_ones(layers, less, before[i]);
            assert(before.contains(before[i]));
        }
        if after != before {
            assert(after == before.push(less as usize));
            assert(after[before.len() as int] == less as usize);
            if before.contains(layer) {
                let at = before.index_of(layer);
                assert(after[at] == layer);
            }
        }
    }
}

} // verus!
