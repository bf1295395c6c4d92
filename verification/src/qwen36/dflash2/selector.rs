//! Greedy path through the candidates of a proposal.

use vstd::prelude::*;

verus! {

/// Why candidates cannot be selected from.
#[derive(Clone, Copy, Debug, PartialEq, Eq, Structural)]
pub enum SelectorError {
    /// The anchor is not in the vocabulary, or the projected rows are incomplete.
    Input {
        /// Anchor.
        anchor: u32,
        /// Projected values.
        values: usize,
    },
    /// Not the number of candidates that the projected rows call for.
    Candidates {
        /// Candidates that are needed.
        expected: usize,
        /// Candidates that were given.
        actual: usize,
    },
}

/// Single-precision bits of the sixteen-bit value with these bits.
pub fn bf16_to_f32(bits: u16) -> (wide: u32)
    ensures
        wide == bits * 0x1_0000,
{
    assert((bits as u32) << 16 == bits * 0x1_0000) by (bit_vector);
    (bits as u32) << 16
}

/// Bits of the sixteen-bit value nearest to the single-precision value with these bits, with
/// ties to the even one.
pub open spec fn rounded_bf16(bits: u32) -> u16 {
    (((bits + 0x7fff + (bits / 0x1_0000) % 2) % 0x1_0000_0000) / 0x1_0000) as u16
}

/// Rounds single-precision bits to sixteen.
pub fn f32_to_bf16(bits: u32) -> (narrow: u16)
    ensures
        narrow == rounded_bf16(bits),
{
    let odd: u32 = (bits / 0x1_0000) % 2;
    let sum: u32 = bits.wrapping_add(0x7fff + odd);
    let high: u32 = sum / 0x1_0000;
    assert(high < 0x1_0000);
    high as u16
}

/// A value of sixteen bits survives the way to single precision and back.
pub proof fn law_bf16_round_trip(bits: u16)
    ensures
        rounded_bf16((bits * 0x1_0000) as u32) == bits,
{
    let wide = (bits * 0x1_0000) as u32;
    assert(wide == bits * 0x1_0000);
    assert((wide / 0x1_0000) % 2 == bits % 2);
    assert((wide + 0x7fff + bits % 2) / 0x1_0000 == bits);
}

/// Place of single-precision bits in the total order: negative NaNs, negative numbers, positive
/// numbers, positive NaNs.
pub open spec fn order_key(bits: u32) -> int {
    if bits < 0x8000_0000 {
        bits as int
    } else {
        0x7fff_ffff - bits
    }
}

fn order_rank(bits: u32) -> (key: i64)
    ensures
        key == order_key(bits),
{
    if bits < 0x8000_0000 {
        bits as i64
    } else {
        0x7fff_ffff - bits as i64
    }
}

/// A candidate for one position, with the bits of its score.
#[derive(Clone, Copy, Debug, PartialEq, Eq, Structural)]
pub struct ScoredToken {
    /// Token.
    pub id: u32,
    /// Bits of its score.
    pub score_bits: u32,
}

/// Whether a candidate is preferred over another: by its score, then by the smaller token.
pub open spec fn preferred(left: ScoredToken, right: ScoredToken) -> bool {
    order_key(left.score_bits) > order_key(right.score_bits) || (order_key(left.score_bits)
        == order_key(right.score_bits) && left.id < right.id)
}

/// Whether a candidate is the best of some: none is preferred over it.
pub open spec fn is_best(candidates: Seq<ScoredToken>, token: u32) -> bool {
    exists|i: int|
        0 <= i < candidates.len() && (#[trigger] candidates[i]).id == token && forall|j: int|
            0 <= j < candidates.len() ==> !preferred(#[trigger] candidates[j], candidates[i])
}

fn is_preferred(left: ScoredToken, right: ScoredToken) -> (better: bool)
    ensures
        better == preferred(left, right),
{
    let left_rank: i64 = order_rank(left.score_bits);
    let right_rank: i64 = order_rank(right.score_bits);
    left_rank > right_rank || (left_rank == right_rank && left.id < right.id)
}

/// Dimensions of the transition scores.
#[derive(Clone, Copy, Debug, PartialEq, Eq, Structural)]
pub struct DFlash2GreedySelector {
    /// Number of vocabulary entries.
    pub vocab: usize,
    /// Rank of the transition scores.
    pub rank: usize,
    /// Candidates for each position.
    pub top_k: usize,
}

/// Where the factors of a transition score start.
#[derive(Clone, Copy, Debug, PartialEq, Eq, Structural)]
pub struct TransitionSlices {
    /// In the predecessor codebook.
    pub predecessor: usize,
    /// In the projected rows.
    pub hidden: usize,
    /// In the successor codebook.
    pub successor: usize,
}

/// A greedy path in progress.
pub struct SelectorRun {
    selector: DFlash2GreedySelector,
    steps: usize,
    predecessor: u32,
    drafts: Vec<u32>,
}

impl DFlash2GreedySelector {
    /// Selectors with candidates to choose from, whose codebooks are addressable.
    pub open spec fn well_formed(self) -> bool {
        &&& self.rank > 0
        &&& self.top_k > 0
        &&& self.vocab * self.rank <= usize::MAX
    }

    /// Starts a path at an anchor, over row-major projected values and candidates.
    pub fn start(&self, anchor: u32, projected: usize, candidates: usize) -> (result: Result<
        SelectorRun,
        SelectorError,
    >)
        requires
            self.well_formed(),
            (projected as int / self.rank as int) * self.top_k <= usize::MAX,
        ensures
            match result {
                Ok(run) => {
                    &&& anchor < self.vocab && projected > 0 && projected % self.rank == 0
                    &&& candidates == (projected as int / self.rank as int) * self.top_k
                    &&& run.spec_selector() == *self
                    &&& run.spec_steps() == projected as int / self.rank as int
                    &&& run.spec_drafts() == Seq::<u32>::empty()
                    &&& run.spec_predecessor() == anchor
                    &&& run.well_formed()
                },
                Err(error) => if !(anchor < self.vocab && projected > 0 && projected % self.rank
                    == 0) {
                    error == (SelectorError::Input { anchor, values: projected })
                } else {
                    let needed = (projected as int / self.rank as int) * self.top_k;
                    &&& candidates != needed
                    &&& error == (SelectorError::Candidates {
                        expected: needed as usize,
                        actual: candidates,
                    })
                },
            },
    {
        if anchor as usize >= self.vocab || projected == 0 || projected % self.rank != 0 {
            return Err(SelectorError::Input { anchor, values: projected });
        }
        let steps: usize = projected / self.rank;
        let expected: usize = steps * self.top_k;
        if candidates != expected {
            return Err(SelectorError::Candidates { expected, actual: candidates });
        }
        proof {
            assert(steps * self.rank == projected) by (nonlinear_arith)
                requires
                    steps == projected as int / self.rank as int,
                    projected as int % self.rank as int == 0,
                    self.rank > 0,
            ;
        }
        Ok(SelectorRun { selector: *self, steps, predecessor: anchor, drafts: Vec::new() })
    }
}

impl SelectorRun {
    /// Dimensions of the transition scores.
    pub closed spec fn spec_selector(self) -> DFlash2GreedySelector {
        self.selector
    }

    /// Positions of the path.
    pub closed spec fn spec_steps(self) -> usize {
        self.steps
    }

    /// Tokens selected so far.
    pub closed spec fn spec_drafts(self) -> Seq<u32> {
        self.drafts@
    }

    /// Token before the next position.
    pub closed spec fn spec_predecessor(self) -> u32 {
        self.predecessor
    }

    /// Whether the path stays within its positions and within the vocabulary.
    pub open spec fn well_formed(self) -> bool {
        &&& self.spec_selector().well_formed()
        &&& self.spec_drafts().len() <= self.spec_steps()
        &&& self.spec_predecessor() < self.spec_selector().vocab
        &&& self.spec_steps() * self.spec_selector().rank <= usize::MAX
    }

    /// The next position, unless the path is complete.
    pub fn step(&self) -> (step: Option<usize>)
        requires
            self.well_formed(),
        ensures
            step == if self.spec_drafts().len() < self.spec_steps() {
                Some(self.spec_drafts().len() as usize)
            } else {
                None
            },
    {
        if self.drafts.len() < self.steps {
            Some(self.drafts.len())
        } else {
            None
        }
    }

    /// Where the factors of the transition score of a candidate start.
    pub fn slices(&self, candidate: u32) -> (slices: TransitionSlices)
        requires
            self.well_formed(),
            self.spec_drafts().len() < self.spec_steps(),
            candidate < self.spec_selector().vocab,
        ensures
            slices.predecessor == self.spec_predecessor() * self.spec_selector().rank,
            slices.hidden == self.spec_drafts().len() * self.spec_selector().rank,
            slices.successor == candidate * self.spec_selector().rank,
            slices.predecessor + self.spec_selector().rank <= self.spec_selector().vocab
                * self.spec_selector().rank,
            slices.successor + self.spec_selector().rank <= self.spec_selector().vocab
                * self.spec_selector().rank,
            slices.hidden + self.spec_selector().rank <= self.spec_steps()
                * self.spec_selector().rank,
    {
        let rank: usize = self.selector.rank;
        let step: usize = self.drafts.len();
        proof {
            lemma_row_within(self.predecessor as int, self.selector.vocab as int, rank as int);
            lemma_row_within(candidate as int, self.selector.vocab as int, rank as int);
            lemma_row_within(step as int, self.steps as int, rank as int);
        }
        TransitionSlices {
            predecessor: self.predecessor as usize * rank,
            hidden: step * rank,
            successor: candidate as usize * rank,
        }
    }

    /// Selects the best candidate for the next position. It is the predecessor of the position
    /// that follows.
    pub fn choose_candidate(&mut self, candidates: &[ScoredToken]) -> (token: u32)
        requires
            old(self).well_formed(),
            old(self).spec_drafts().len() < old(self).spec_steps(),
            candidates@.len() == old(self).spec_selector().top_k,
            forall|i: int|
                0 <= i < candidates@.len() ==> (#[trigger] candidates@[i]).id < old(
                    self,
                ).spec_selector().vocab,
        ensures
            final(self).well_formed(),
            final(self).spec_selector() == old(self).spec_selector(),
            final(self).spec_steps() == old(self).spec_steps(),
            is_best(candidates@, token),
            final(self).spec_drafts() == old(self).spec_drafts().push(token),
            final(self).spec_predecessor() == token,
    {
        let mut best: usize = 0;
        let mut i: usize = 1;
        while i < candidates.len()
            invariant
                best < i <= candidates@.len(),
                forall|j: int|
                    0 <= j < i ==> !preferred(#[trigger] candidates@[j], candidates@[best as int]),
            decreases candidates@.len() - i,
        {
            if is_preferred(candidates[i], candidates[best]) {
                best = i;
            }
            i += 1;
        }
        let token: u32 = candidates[best].id;
        assert(candidates@[best as int].id == token);
        self.drafts.push(token);
        self.predecessor = token;
        token
    }

    /// Hands the path out.
    pub fn finish(self) -> (drafts: Vec<u32>)
        ensures
            drafts@ == self.spec_drafts(),
    {
        self.drafts
    }
}

proof fn lemma_row_within(row: int, rows: int, width: int)
    requires
        0 <= row < rows,
        0 <= width,
    ensures
        0 <= row * width,
        row * width + width <= rows * width,
{
    assert(0 <= row * width && row * width + width <= rows * width) by (nonlinear_arith)
        requires
            0 <= row,
            row + 1 <= rows,
            0 <= width,
    ;
}

/// The best candidate is unique.
pub proof fn law_best_candidate_is_unique(candidates: Seq<ScoredToken>, left: u32, right: u32)
    requires
        is_best(candidates, left),
        is_best(candidates, right),
    ensures
        left == right,
{
    let i = choose|i: int|
        0 <= i < candidates.len() && (#[trigger] candidates[i]).id == left && forall|j: int|
            0 <= j < candidates.len() ==> !preferred(#[trigger] candidates[j], candidates[i]);
    let j = choose|j: int|
        0 <= j < candidates.len() && (#[trigger] candidates[j]).id == right && forall|k: int|
            0 <= k < candidates.len() ==> !preferred(#[trigger] candidates[k], candidates[j]);
    assert(!preferred(candidates[j], candidates[i]));
    assert(!preferred(candidates[i], candidates[j]));
}

/// Bits of a logit as candidates are ranked by it: NaN counts as negative infinity.
pub open spec fn ranked_bits(bits: u32) -> u32 {
    if 0x7f80_0000 < bits < 0x8000_0000 || bits > 0xff80_0000 {
        0xff80_0000
    } else {
        bits
    }
}

fn rank_bits(bits: u32) -> (ranked: u32)
    ensures
        ranked == ranked_bits(bits),
{
    if (0x7f80_0000 < bits && bits < 0x8000_0000) || bits > 0xff80_0000 {
        0xff80_0000
    } else {
        bits
    }
}

/// A token with the logit that it is ranked by.
pub open spec fn ranked_token(logits: Seq<u32>, token: int) -> ScoredToken {
    ScoredToken { id: token as u32, score_bits: ranked_bits(logits[token]) }
}

/// Whether some candidates are the best `k` of the first `count` tokens, best first.
pub open spec fn top_k_of(
    candidates: Seq<ScoredToken>,
    logits: Seq<u32>,
    k: usize,
    count: nat,
) -> bool {
    &&& candidates.len() == if count < k {
        count as int
    } else {
        k as int
    }
    &&& forall|i: int|
        0 <= i < candidates.len() ==> (#[trigger] candidates[i]).id < count && candidates[i]
            == ranked_token(logits, candidates[i].id as int)
    &&& forall|i: int, j: int|
        0 <= i < j < candidates.len() ==> preferred(#[trigger] candidates[i], #[trigger] candidates[j])
    &&& forall|token: int|
        0 <= token < count ==> candidates.contains(#[trigger] ranked_token(logits, token)) || (
        candidates.len() == k && forall|i: int|
            0 <= i < candidates.len() ==> preferred(
                #[trigger] candidates[i],
                ranked_token(logits, token),
            ))
}

/// Lists the best `k` tokens, best first: by logit, then by the smaller token.
pub fn vocabulary_top_k(logits: &[u32], k: usize) -> (candidates: Vec<ScoredToken>)
    requires
        logits@.len() <= u32::MAX,
    ensures
        top_k_of(candidates@, logits@, k, logits@.len()),
{
    let mut output: Vec<ScoredToken> = Vec::new();
    let mut token: usize = 0;
    while token < logits.len()
        invariant
            token <= logits@.len() <= u32::MAX,
            top_k_of(output@, logits@, k, token as nat),
        decreases logits@.len() - token,
    {
        let entry = ScoredToken { id: token as u32, score_bits: rank_bits(logits[token]) };
        insert_ranked(&mut output, logits, k, token, entry);
        token += 1;
    }
    output
}

fn insert_ranked(
    output: &mut Vec<ScoredToken>,
    logits: &[u32],
    k: usize,
    token: usize,
    entry: ScoredToken,
)
    requires
        token < logits@.len() <= u32::MAX,
        top_k_of(old(output)@, logits@, k, token as nat),
        entry == ranked_token(logits@, token as int),
    ensures
        top_k_of(final(output)@, logits@, k, (token + 1) as nat),
{
    let ghost before = output@;
    let mut insertion: usize = 0;
    while insertion < output.len() && is_preferred(output[insertion], entry)
        invariant
            insertion <= output@.len(),
            output@ == before,
            forall|i: int| 0 <= i < insertion ==> preferred(#[trigger] before[i], entry),
        decreases output@.len() - insertion,
    {
        insertion += 1;
    }
    proof {
        assert forall|i: int| insertion <= i < before.len() implies preferred(
            entry,
            #[trigger] before[i],
        ) by {
            assert(before[i].id < token);
            assert(!preferred(before[insertion as int], entry));
            if insertion < i {
                assert(preferred(before[insertion as int], before[i]));
            }
        }
    }
    if insertion < k {
        output.insert(insertion, entry);
        let ghost inserted = output@;
        assert(inserted == before.insert(insertion as int, entry));
        if output.len() > k {
            output.truncate(k);
        }
        proof {
            lemma_inserted(before, logits@, k, token as nat, entry, insertion as int);
            assert(output@ =~= if inserted.len() > k {
                inserted.take(k as int)
            } else {
                inserted
            });
        }
    } else {
        proof {
            assert forall|other: int| 0 <= other < token + 1 implies before.contains(
                #[trigger] ranked_token(logits@, other),
            ) || (before.len() == k && forall|i: int|
                0 <= i < before.len() ==> preferred(
                    #[trigger] before[i],
                    ranked_token(logits@, other),
                )) by {
                if other == token {
                    assert(before.len() == k);
                }
            }
        }
    }
}

proof fn lemma_inserted(
    before: Seq<ScoredToken>,
    logits: Seq<u32>,
    k: usize,
    count: nat,
    entry: ScoredToken,
    insertion: int,
)
    requires
        count < logits.len() <= u32::MAX,
        top_k_of(before, logits, k, count),
        entry == ranked_token(logits, count as int),
        0 <= insertion <= before.len(),
        insertion < k,
        forall|i: int| 0 <= i < insertion ==> preferred(#[trigger] before[i], entry),
        forall|i: int| insertion <= i < before.len() ==> preferred(entry, #[trigger] before[i]),
    ensures
        ({
            let inserted = before.insert(insertion, entry);
            top_k_of(
                if inserted.len() > k {
                    inserted.take(k as int)
                } else {
                    inserted
                },
                logits,
                k,
                count + 1,
            )
        }),
{
    let inserted = before.insert(insertion, entry);
    let result = if inserted.len() > k {
        inserted.take(k as int)
    } else {
        inserted
    };
    assert forall|i: int| 0 <= i < inserted.len() implies #[trigger] inserted[i] == if i
        < insertion {
        before[i]
    } else if i == insertion {
        entry
    } else {
        before[i - 1]
    } by {}
    assert forall|i: int| 0 <= i < result.len() implies (#[trigger] result[i]).id < count + 1
        && result[i] == ranked_token(logits, result[i].id as int) by {
        assert(result[i] == inserted[i]);
        if i < insertion {
            assert(before[i].id < count);
        } else if i > insertion {
            assert(before[i - 1].id < count);
        }
    }
    assert forall|i: int, j: int| 0 <= i < j < result.len() implies preferred(
        #[trigger] result[i],
        #[trigger] result[j],
    ) by {
        assert(result[i] == inserted[i]);
        assert(result[j] == inserted[j]);
        if j < insertion {
            assert(preferred(before[i], before[j]));
        } else if j == insertion {
            assert(preferred(before[i], entry));
        } else if i < insertion {
            assert(preferred(before[i], before[j - 1]));
        } else if i == insertion {
            assert(preferred(entry, before[j - 1]));
        } else {
            assert(preferred(before[i - 1], before[j - 1]));
        }
    }
    assert forall|token: int| 0 <= token < count + 1 implies result.contains(
        #[trigger] ranked_token(logits, token),
    ) || (result.len() == k && forall|i: int|
        0 <= i < result.len() ==> preferred(#[trigger] result[i], ranked_token(logits, token))) by {
        let ranked = ranked_token(logits, token);
        if token == count {
            assert(result[insertion] == entry);
        } else if before.contains(ranked) {
            let i = before.index_of(ranked);
            assert(before[i] == ranked);
            let place = if i < insertion {
                i
            } else {
                i + 1
            };
            assert(inserted[place] == ranked);
            if place < result.len() {
                assert(result[place] == ranked);
            } else {
                assert(result.len() == k);
                assert forall|j: int| 0 <= j < result.len() implies preferred(
                    #[trigger] result[j],
                    ranked,
                ) by {
                    assert(result[j] == inserted[j]);
                    if j < insertion {
                        assert(preferred(before[j], before[i]));
                    } else if j == insertion {
                        assert(preferred(entry, before[i]));
                    } else {
                        assert(preferred(before[j - 1], before[i]));
                    }
                }
            }
        } else {
            assert(before.len() == k);
            assert forall|j: int| 0 <= j < result.len() implies preferred(
                #[trigger] result[j],
                ranked,
            ) by {
                assert(result[j] == inserted[j]);
                if j < insertion {
                    assert(preferred(before[j], ranked));
                } else if j == insertion {
                    assert(preferred(entry, before[insertion]));
                    assert(preferred(before[insertion], ranked));
                } else {
                    assert(preferred(before[j - 1], ranked));
                }
            }
        }
    }
}

/// Scores are ordered as the numbers that they stand for: negative ones are below positive ones,
/// of two positive ones the larger magnitude is above, and of two negative ones below.
pub proof fn law_scores_are_ordered_as_numbers(left: u32, right: u32)
    requires
        left < 0x8000_0000,
        right < 0x8000_0000,
    ensures
        order_key(left) < order_key(right) <==> left < right,
        order_key((0x8000_0000 + left) as u32) < order_key((0x8000_0000 + right) as u32)
            <==> left > right,
        order_key((0x8000_0000 + left) as u32) < order_key(right),
{
}

/// The best candidate has the highest score, and the smallest token among those that share it.
pub proof fn law_best_candidate_has_the_highest_score(
    candidates: Seq<ScoredToken>,
    token: u32,
    other: int,
)
    requires
        is_best(candidates, token),
        0 <= other < candidates.len(),
    ensures
        exists|i: int|
            {
                &&& 0 <= i < candidates.len()
                &&& (#[trigger] candidates[i]).id == token
                &&& order_key(candidates[other].score_bits) <= order_key(candidates[i].score_bits)
                &&& order_key(candidates[other].score_bits) == order_key(candidates[i].score_bits)
                    ==> token <= candidates[other].id
            },
{
    let i = choose|i: int|
        0 <= i < candidates.len() && (#[trigger] candidates[i]).id == token && forall|j: int|
            0 <= j < candidates.len() ==> !preferred(#[trigger] candidates[j], candidates[i]);
    assert(!preferred(candidates[other], candidates[i]));
}

/// No logit ranks below one that is not a number, and other logits rank as they are.
pub proof fn law_no_number_ranks_last(bits: u32, other: u32)
    requires
        0x7f80_0000 < bits < 0x8000_0000 || bits > 0xff80_0000,
    ensures
        order_key(ranked_bits(bits)) <= order_key(ranked_bits(other)),
        other <= 0x7f80_0000 || 0x8000_0000 <= other <= 0xff80_0000 ==> ranked_bits(other)
            == other,
{
}

/// Rounding to sixteen bits goes to the nearest value, and to the even one from halfway.
pub proof fn law_rounding_goes_to_the_nearest(bits: u32)
    requires
        bits < 0xffff_8000,
    ensures
        ({
            let apart = bits - rounded_bf16(bits) * 0x1_0000;
            &&& -0x8000 <= apart <= 0x8000
            &&& apart == 0x8000 || apart == -0x8000 ==> rounded_bf16(bits) % 2 == 0
        }),
{
    let high = bits as int / 0x1_0000;
    let low = bits as int % 0x1_0000;
    let sum = bits + 0x7fff + high % 2;
    assert(sum < 0x1_0000_0000);
    assert(sum / 0x1_0000 == if low + 0x7fff + high % 2 >= 0x1_0000 {
        high + 1
    } else {
        high
    });
    assert(rounded_bf16(bits) == sum / 0x1_0000);
}

} // verus!
