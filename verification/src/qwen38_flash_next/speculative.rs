//! Two-row verification of the native Flash Next draft.

use crate::qwen38_flash_next::forward::HyperRows;
use crate::qwen38_flash_next::config::Qwen38FlashNextConfig;
use crate::qwen38_flash_next::model::{
    ModelError, Qwen38FlashNextModel, Qwen38FlashNextVectorVerifierProbeWorkspace,
};
use crate::speculation::accepted_drafts;
use vstd::prelude::*;

verus! {

/// Greedy next-token result from the native decode path. The logit is kept as a bit pattern.
#[derive(Clone, Copy, Debug, PartialEq, Eq, Structural)]
pub struct Qwen38NextToken {
    /// Argmax token identifier.
    pub id: u32,
    /// Winning logit.
    pub value_bits: u32,
}

/// Committed-but-unprocessed token.
#[derive(Clone, Copy, Debug, PartialEq, Eq, Structural)]
pub struct Qwen38FlashNextSpeculativeFrontier {
    /// Token identifier.
    pub token: u32,
    /// Its logit.
    pub logit_bits: u32,
}

/// Committed result of one speculative cycle.
pub struct Qwen38FlashNextSpeculativeOutcome {
    /// The old frontier, then the draft where it was accepted.
    pub committed: Vec<Qwen38NextToken>,
    /// Number of accepted drafts.
    pub accepted_drafts: usize,
}

/// One device operation of the verifier's vocabulary head.
#[derive(Clone, Copy, Debug, PartialEq, Eq, Structural)]
#[allow(inconsistent_fields)]
pub enum VerifierOp {
    /// Collapse the streams of every row.
    FinalMix { rows: HyperRows },
    /// Copy the collapsed rows.
    CopyHidden { values: usize },
    /// Argmax of two rows, each as it would be on its own.
    HeadExactPair,
    /// Batched argmax.
    HeadTop1 { rows: usize },
    /// Copy the argmax of every row to the host.
    ReadArgmax { rows: usize },
}

/// Operations of the vocabulary head of a verification pass.
pub open spec fn verifier_ops(
    workspace: Qwen38FlashNextVectorVerifierProbeWorkspace,
    rows: usize,
    hidden: usize,
) -> Seq<VerifierOp> {
    seq![
        VerifierOp::FinalMix {
            rows: crate::qwen38_flash_next::forward::hyper_rows(
                workspace.exact_hyper_projections,
                rows,
            ),
        },
        VerifierOp::CopyHidden { values: (rows * hidden) as usize },
        if workspace.exact_output_head {
            VerifierOp::HeadExactPair
        } else {
            VerifierOp::HeadTop1 { rows }
        },
        VerifierOp::ReadArgmax { rows },
    ]
}

/// Plans the vocabulary head of a verification pass over `rows` rows.
pub fn vector_verifier_top1(
    workspace: &Qwen38FlashNextVectorVerifierProbeWorkspace,
    rows: usize,
    hidden: usize,
) -> (result: Result<Vec<VerifierOp>, ModelError>)
    requires
        rows * hidden <= usize::MAX,
    ensures
        match result {
            Ok(ops) => {
                &&& workspace.exact_output_head ==> rows == 2
                &&& ops@ == verifier_ops(*workspace, rows, hidden)
            },
            Err(error) => workspace.exact_output_head && rows != 2 && error
                == ModelError::ExactHeadRows,
        },
{
    if workspace.exact_output_head && rows != 2 {
        return Err(ModelError::ExactHeadRows);
    }
    let mut ops: Vec<VerifierOp> = Vec::new();
    ops.push(
        VerifierOp::FinalMix {
            rows: if workspace.exact_hyper_projections {
                HyperRows::ExactPair
            } else {
                HyperRows::Batch(rows)
            },
        },
    );
    ops.push(VerifierOp::CopyHidden { values: rows * hidden });
    ops.push(
        if workspace.exact_output_head {
            VerifierOp::HeadExactPair
        } else {
            VerifierOp::HeadTop1 { rows }
        },
    );
    ops.push(VerifierOp::ReadArgmax { rows });
    assert(ops@ =~= verifier_ops(*workspace, rows, hidden));
    Ok(ops)
}

/// Pairs each argmax with its logit.
pub fn pair_top1(indices: &[u32], values: &[u32]) -> (tokens: Vec<Qwen38NextToken>)
    ensures
        tokens@.len() == if indices@.len() <= values@.len() {
            indices@.len()
        } else {
            values@.len()
        },
        forall|i: int|
            0 <= i < tokens@.len() ==> #[trigger] tokens@[i] == (Qwen38NextToken {
                id: indices@[i],
                value_bits: values@[i],
            }),
{
    let mut tokens: Vec<Qwen38NextToken> = Vec::new();
    let mut i: usize = 0;
    while i < indices.len() && i < values.len()
        invariant
            i <= indices@.len(),
            i <= values@.len(),
            tokens@.len() == i,
            forall|j: int|
                0 <= j < i ==> #[trigger] tokens@[j] == (Qwen38NextToken {
                    id: indices@[j],
                    value_bits: values@[j],
                }),
        decreases indices@.len() - i,
    {
        tokens.push(Qwen38NextToken { id: indices[i], value_bits: values[i] });
        i += 1;
    }
    tokens
}

/// The two tokens that a verification pass runs over.
pub fn verification_tokens(frontier: &Qwen38FlashNextSpeculativeFrontier, draft: u32) -> (tokens:
    Vec<u32>)
    ensures
        tokens@ == crate::speculation::proposal(frontier.token, seq![draft]),
{
    let tokens: Vec<u32> = vec![frontier.token, draft];
    assert(tokens@ =~= crate::speculation::proposal(frontier.token, seq![draft]));
    tokens
}

/// Identifiers of some tokens.
pub open spec fn token_ids(tokens: Seq<Qwen38NextToken>) -> Seq<u32> {
    Seq::new(tokens.len(), |i: int| tokens[i].id)
}

/// Accepts the draft where the target chose it as well, and moves the frontier to the
/// target's choice after the committed tokens.
///
/// `verification` holds the target's choice after the frontier and after the draft.
pub fn speculative_cycle_argmax(
    frontier: &mut Qwen38FlashNextSpeculativeFrontier,
    draft: u32,
    verification: &[Qwen38NextToken],
) -> (outcome: Qwen38FlashNextSpeculativeOutcome)
    requires
        verification@.len() == 2,
    ensures
        ({
            let accepted = outcome.accepted_drafts as int;
            let old_frontier = Qwen38NextToken {
                id: old(frontier).token,
                value_bits: old(frontier).logit_bits,
            };
            &&& crate::speculation::is_accepted(seq![draft], token_ids(verification@), accepted)
            &&& accepted == 1 <==> verification@[0].id == draft
            &&& outcome.committed@ == if accepted == 1 {
                seq![
                    old_frontier,
                    Qwen38NextToken { id: draft, value_bits: verification@[0].value_bits },
                ]
            } else {
                seq![old_frontier]
            }
            &&& *final(frontier) == (Qwen38FlashNextSpeculativeFrontier {
                token: verification@[accepted].id,
                logit_bits: verification@[accepted].value_bits,
            })
        }),
{
    let drafted: Vec<u32> = vec![draft];
    let chosen: Vec<u32> = vec![verification[0].id, verification[1].id];
    assert(drafted@ =~= seq![draft]);
    assert(chosen@ =~= token_ids(verification@));
    let accepted: usize = accepted_drafts(drafted.as_slice(), chosen.as_slice());
    assert(drafted@[0] == draft);
    assert(accepted == 1 ==> drafted@[0] == chosen@[0]);
    let mut committed: Vec<Qwen38NextToken> = Vec::new();
    committed.push(Qwen38NextToken { id: frontier.token, value_bits: frontier.logit_bits });
    if accepted == 1 {
        committed.push(Qwen38NextToken { id: draft, value_bits: verification[0].value_bits });
    }
    let ghost old_frontier = Qwen38NextToken {
        id: frontier.token,
        value_bits: frontier.logit_bits,
    };
    assert(accepted == 1 ==> committed@ =~= seq![
        old_frontier,
        Qwen38NextToken { id: draft, value_bits: verification@[0].value_bits },
    ]);
    assert(accepted != 1 ==> committed@ =~= seq![old_frontier]);
    frontier.token = verification[accepted].id;
    frontier.logit_bits = verification[accepted].value_bits;
    Qwen38FlashNextSpeculativeOutcome { committed, accepted_drafts: accepted }
}

/// Offset of one row of residual streams.
pub fn target_stream_offset(row: usize, width: usize) -> (offset: usize)
    requires
        row * width <= usize::MAX,
    ensures
        offset == row * width,
{
    row * width
}

impl Qwen38FlashNextModel {
    /// Configuration of the released model.
    pub fn config(&self) -> (config: &Qwen38FlashNextConfig)
        ensures
            *config == self.config,
    {
        &self.config
    }

    /// Takes the greedy result of a committed token: a pass with a vocabulary result owes one.
    ///
    /// The token is admitted by `admit_token`, its pass is planned by `decode_token_inner`, and
    /// the append around it is an `AppendTransaction`; this is the end of all three.
    pub fn decode_token(&self, next: Option<Qwen38NextToken>) -> (result: Result<
        Qwen38NextToken,
        ModelError,
    >)
        ensures
            match next {
                Some(token) => result == Ok::<Qwen38NextToken, ModelError>(token),
                None => result == Err::<Qwen38NextToken, ModelError>(ModelError::NoResult),
            },
    {
        match next {
            Some(token) => Ok(token),
            None => Err(ModelError::NoResult),
        }
    }

    /// Takes the token of a sampler that was handed one row.
    pub fn sample_logits_gpu(&self, sampled: &[u32]) -> (result: Result<u32, ModelError>)
        ensures
            match result {
                Ok(token) => sampled@.len() > 0 && token == sampled@.last(),
                Err(error) => sampled@.len() == 0 && error == ModelError::NoResult,
            },
    {
        if sampled.len() == 0 {
            return Err(ModelError::NoResult);
        }
        Ok(sampled[sampled.len() - 1])
    }
}

impl Qwen38FlashNextVectorVerifierProbeWorkspace {
    /// Admits the rows of a verification pass.
    pub fn probe_verification_argmax(&self, tokens: &[u32]) -> (result: Result<usize, ModelError>)
        ensures
            match result {
                Ok(rows) => rows == tokens@.len() && 1 <= rows <= self.verify.token_capacity,
                Err(error) => {
                    &&& !(1 <= tokens@.len() <= self.verify.token_capacity)
                    &&& error == ModelError::Tokens
                },
            },
    {
        let rows: usize = tokens.len();
        if rows == 0 || rows > self.verify.token_capacity {
            return Err(ModelError::Tokens);
        }
        Ok(rows)
    }
}

} // verus!
