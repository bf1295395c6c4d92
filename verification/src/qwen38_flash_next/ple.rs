//! Hashing, token history and paging of the per-layer embedding (PLE) table.

use crate::text::{append_decimal, same_text};
use vstd::prelude::*;

verus! {

/// Why a PLE operation was refused.
#[derive(Clone, Copy, Debug, PartialEq, Eq, Structural)]
pub enum PleError {
    /// `(ngram size - 1) * heads` is not representable.
    HashHeads,
    /// Multiplier, vocabulary and offset tables do not fit the plan, or hold a zero.
    HashPlan,
    /// Head tables are not laid out one after the other.
    HeadOffsets,
    /// The end of the last head table is not representable.
    TableRows,
    /// A token window belongs to another plan, or its n-gram size is below two.
    TokenWindow,
    /// A selected row does not fit the row identifier.
    RowId,
    /// An append transaction is already active.
    AppendActive,
    /// No append transaction is active.
    AppendInactive,
    /// The number of tokens is zero or over the capacity.
    Tokens,
    /// An integer tensor has another type, shape or size than the plan needs.
    IntegerTensor,
    /// An integer tensor holds a negative value.
    NegativeInteger,
    /// The row alignment is zero.
    Alignment,
    /// The aligned row count is not representable.
    AlignmentOverflow,
    /// The pager has no token capacity.
    Capacity,
    /// The stored table has another number of rows than the plan addresses.
    Rows,
    /// `tokens * heads` is not representable.
    RowCapacity,
}

/// The token history after `token` has been appended to `previous`.
///
/// The newest token comes first. The end-of-sequence token clears the history.
pub open spec fn pushed(previous: Seq<u32>, eos: u32, token: u32) -> Seq<u32> {
    if token == eos {
        Seq::new(previous.len(), |i: int| eos)
    } else {
        seq![token] + previous.drop_last()
    }
}

/// The token history after all of `tokens` have been appended in order.
pub open spec fn pushed_all(previous: Seq<u32>, eos: u32, tokens: Seq<u32>) -> Seq<u32>
    decreases tokens.len(),
{
    if tokens.len() == 0 {
        previous
    } else {
        pushed(pushed_all(previous, eos, tokens.drop_last()), eos, tokens.last())
    }
}

/// The history of an empty segment: every missing token reads as end of sequence.
pub open spec fn empty_history(len: nat, eos: u32) -> Seq<u32> {
    Seq::new(len, |i: int| eos)
}

/// Contents of a token window.
#[verifier::ext_equal]
pub struct PleWindowModel {
    /// Token history, newest first.
    pub previous: Seq<u32>,
    /// History at the start of the active append transaction.
    pub rollback: Option<Seq<u32>>,
    /// Token that ends a segment.
    pub eos: u32,
}

/// Per-sequence token history and transactional rollback for PLE hashing.
#[derive(Debug, PartialEq, Eq)]
pub struct Qwen38PleTokenWindow {
    previous: Vec<u32>,
    rollback: Option<Vec<u32>>,
    eos_token_id: u32,
}

impl View for Qwen38PleTokenWindow {
    type V = PleWindowModel;

    closed spec fn view(&self) -> PleWindowModel {
        PleWindowModel {
            previous: self.previous@,
            rollback: match self.rollback {
                Some(saved) => Some(saved@),
                None => None,
            },
            eos: self.eos_token_id,
        }
    }
}

/// A copy of a token list.
fn copied(tokens: &Vec<u32>) -> (copy: Vec<u32>)
    ensures
        copy@ == tokens@,
{
    let mut copy: Vec<u32> = Vec::with_capacity(tokens.len());
    let mut i: usize = 0;
    while i < tokens.len()
        invariant
            i <= tokens.len(),
            copy@ == tokens@.take(i as int),
        decreases tokens.len() - i,
    {
        copy.push(tokens[i]);
        i += 1;
    }
    assert(tokens@.take(tokens.len() as int) =~= tokens@);
    copy
}

impl Clone for Qwen38PleTokenWindow {
    fn clone(&self) -> (copy: Self)
        ensures
            copy@ == self@,
    {
        proof {
            use_type_invariant(self);
        }
        let rollback = match &self.rollback {
            Some(saved) => Some(copied(saved)),
            None => None,
        };
        Self { previous: copied(&self.previous), rollback, eos_token_id: self.eos_token_id }
    }
}

impl Qwen38PleTokenWindow {
    /// A history has at least one token, and a saved history has as many.
    #[verifier::type_invariant]
    spec fn well_formed(self) -> bool {
        &&& self.previous@.len() >= 1
        &&& self.rollback matches Some(saved) ==> saved@.len() == self.previous@.len()
    }

    /// Creates an empty segment whose missing left context is the EOS token.
    pub fn new(ngram_size: usize, eos_token_id: u32) -> (result: Result<Self, PleError>)
        ensures
            match result {
                Ok(window) => ngram_size >= 2 && window@ == (PleWindowModel {
                    previous: empty_history((ngram_size - 1) as nat, eos_token_id),
                    rollback: None,
                    eos: eos_token_id,
                }),
                Err(error) => ngram_size < 2 && error == PleError::TokenWindow,
            },
    {
        if ngram_size < 2 {
            return Err(PleError::TokenWindow);
        }
        let previous: Vec<u32> = vec![eos_token_id; ngram_size - 1];
        assert(previous@ =~= empty_history((ngram_size - 1) as nat, eos_token_id));
        Ok(Self { previous, rollback: None, eos_token_id })
    }

    /// Starts one append transaction for prefill, decode, or verification.
    pub fn begin_append(&mut self) -> (result: Result<(), PleError>)
        ensures
            match result {
                Ok(_) => old(self)@.rollback is None && final(self)@ == (PleWindowModel {
                    rollback: Some(old(self)@.previous),
                    ..old(self)@
                }),
                Err(error) => old(self)@.rollback is Some && final(self)@ == old(self)@ && error
                    == PleError::AppendActive,
            },
    {
        proof {
            use_type_invariant(&*self);
        }
        if self.rollback.is_some() {
            return Err(PleError::AppendActive);
        }
        let saved = copied(&self.previous);
        self.rollback = Some(saved);
        Ok(())
    }

    /// Commits the current token history.
    pub fn commit_append(&mut self) -> (result: Result<(), PleError>)
        ensures
            match result {
                Ok(_) => old(self)@.rollback is Some && final(self)@ == (PleWindowModel {
                    rollback: None,
                    ..old(self)@
                }),
                Err(error) => old(self)@.rollback is None && final(self)@ == old(self)@ && error
                    == PleError::AppendInactive,
            },
    {
        proof {
            use_type_invariant(&*self);
        }
        if self.rollback.is_none() {
            return Err(PleError::AppendInactive);
        }
        self.rollback = None;
        Ok(())
    }

    /// Restores token history from the start of the current transaction.
    pub fn abort_append(&mut self) -> (result: Result<(), PleError>)
        ensures
            match result {
                Ok(_) => old(self)@.rollback is Some && final(self)@ == (PleWindowModel {
                    previous: old(self)@.rollback->0,
                    rollback: None,
                    ..old(self)@
                }),
                Err(error) => old(self)@.rollback is None && final(self)@ == old(self)@ && error
                    == PleError::AppendInactive,
            },
    {
        proof {
            use_type_invariant(&*self);
        }
        match &self.rollback {
            None => Err(PleError::AppendInactive),
            Some(saved) => {
                let previous = copied(saved);
                *self = Self { previous, rollback: None, eos_token_id: self.eos_token_id };
                Ok(())
            },
        }
    }

    /// Appends one token to the history.
    pub fn push(&mut self, token: u32)
        ensures
            final(self)@ == (PleWindowModel {
                previous: pushed(old(self)@.previous, old(self)@.eos, token),
                ..old(self)@
            }),
    {
        proof {
            use_type_invariant(&*self);
        }
        let eos = self.eos_token_id;
        let len = self.previous.len();
        let mut previous: Vec<u32> = Vec::with_capacity(len);
        if token == eos {
            while previous.len() < len
                invariant
                    previous@.len() <= len,
                    forall|i: int| 0 <= i < previous@.len() ==> previous@[i] == eos,
                decreases len - previous@.len(),
            {
                previous.push(eos);
            }
        } else {
            previous.push(token);
            while previous.len() < len
                invariant
                    1 <= previous@.len() <= len,
                    len == self.previous@.len(),
                    previous@[0] == token,
                    forall|i: int| 1 <= i < previous@.len() ==> previous@[i] == self.previous@[i - 1],
                decreases len - previous@.len(),
            {
                let next = self.previous[previous.len() - 1];
                previous.push(next);
            }
        }
        assert(previous@ =~= pushed(self.previous@, eos, token));
        self.previous = previous;
    }
}


impl Qwen38PleTokenWindow {
    /// Commits only the leading `tokens` of the active transaction.
    ///
    /// The history becomes the one at the start of the transaction, extended by `tokens`.
    pub fn commit_append_prefix(&mut self, tokens: &[u32]) -> (result: Result<(), PleError>)
        ensures
            match result {
                Ok(_) => old(self)@.rollback is Some && final(self)@ == (PleWindowModel {
                    previous: pushed_all(old(self)@.rollback->0, old(self)@.eos, tokens@),
                    rollback: None,
                    ..old(self)@
                }),
                Err(error) => old(self)@.rollback is None && final(self)@ == old(self)@ && error
                    == PleError::AppendInactive,
            },
    {
        match self.abort_append() {
            Err(error) => Err(error),
            Ok(()) => {
                let ghost start = self@;
                let mut i: usize = 0;
                while i < tokens.len()
                    invariant
                        i <= tokens@.len(),
                        self@ == (PleWindowModel {
                            previous: pushed_all(start.previous, start.eos, tokens@.take(i as int)),
                            ..start
                        }),
                    decreases tokens@.len() - i,
                {
                    proof {
                        let longer = tokens@.take(i as int + 1);
                        assert(longer.drop_last() =~= tokens@.take(i as int));
                        assert(longer.last() == tokens@[i as int]);
                    }
                    self.push(tokens[i]);
                    i += 1;
                }
                assert(tokens@.take(tokens@.len() as int) =~= tokens@);
                Ok(())
            },
        }
    }

    /// Copies the history outside a transaction.
    pub fn snapshot(&self) -> (result: Result<Self, PleError>)
        ensures
            match result {
                Ok(copy) => self@.rollback is None && copy@ == self@,
                Err(error) => self@.rollback is Some && error == PleError::AppendActive,
            },
    {
        if self.rollback.is_some() {
            return Err(PleError::AppendActive);
        }
        Ok(self.clone())
    }

    /// Takes over the history of a snapshot of the same shape, outside a transaction.
    pub fn restore_from(&mut self, snapshot: &Self) -> (result: Result<(), PleError>)
        ensures
            match result {
                Ok(_) => {
                    &&& old(self)@.rollback is None
                    &&& old(self)@.eos == snapshot@.eos
                    &&& old(self)@.previous.len() == snapshot@.previous.len()
                    &&& final(self)@ == (PleWindowModel {
                        previous: snapshot@.previous,
                        ..old(self)@
                    })
                },
                Err(error) => {
                    &&& final(self)@ == old(self)@
                    &&& if old(self)@.rollback is Some {
                        error == PleError::AppendActive
                    } else {
                        &&& error == PleError::TokenWindow
                        &&& old(self)@.eos != snapshot@.eos || old(self)@.previous.len()
                            != snapshot@.previous.len()
                    }
                },
            },
    {
        proof {
            use_type_invariant(&*self);
            use_type_invariant(snapshot);
        }
        if self.rollback.is_some() {
            return Err(PleError::AppendActive);
        }
        if self.eos_token_id != snapshot.eos_token_id || self.previous.len()
            != snapshot.previous.len() {
            return Err(PleError::TokenWindow);
        }
        self.previous = copied(&snapshot.previous);
        Ok(())
    }
}

/// Parameters of a PLE hash.
#[verifier::ext_equal]
pub struct PlePlanModel {
    /// One multiplier for each position of an n-gram, newest token first.
    pub multipliers: Seq<u64>,
    /// Rows of each head's table.
    pub vocab_sizes: Seq<u64>,
    /// First row of each head's table.
    pub offsets: Seq<u64>,
    /// Heads of each n-gram order.
    pub heads_per_ngram: nat,
    /// Longest n-gram order.
    pub ngram_size: nat,
    /// Token that ends a segment.
    pub eos: u32,
}

impl PlePlanModel {
    /// Number of rows selected for each token.
    pub open spec fn heads(self) -> nat {
        self.vocab_sizes.len()
    }

    /// Every head follows the one before it in the table.
    pub open spec fn contiguous(self) -> bool {
        forall|head: int|
            1 <= head < self.offsets.len() ==> #[trigger] self.offsets[head] == self.offsets[head
                - 1] + self.vocab_sizes[head - 1]
    }

    /// Tables of the sizes that the plan needs, with no zero among factors and divisors.
    pub open spec fn shaped(self) -> bool {
        &&& self.ngram_size >= 2
        &&& self.heads_per_ngram > 0
        &&& self.multipliers.len() == self.ngram_size
        &&& self.vocab_sizes.len() == (self.ngram_size - 1) * self.heads_per_ngram
        &&& self.offsets.len() == (self.ngram_size - 1) * self.heads_per_ngram
        &&& !self.multipliers.contains(0)
        &&& !self.vocab_sizes.contains(0)
    }

    /// Row just after the last head's table.
    pub open spec fn end(self) -> int {
        self.offsets.last() + self.vocab_sizes.last()
    }

    /// A plan that addresses a table of at most `limit` rows.
    pub open spec fn valid(self, limit: int) -> bool {
        self.shaped() && self.contiguous() && self.end() <= limit
    }

    /// The n-gram hash of `token` after `previous`, over `order` tokens.
    pub open spec fn mixed(self, previous: Seq<u32>, token: u32, order: nat) -> u64
        decreases order,
    {
        if order <= 1 {
            (token as u64).wrapping_mul(self.multipliers[0])
        } else {
            self.mixed(previous, token, (order - 1) as nat) ^ (
            previous[order - 2] as u64).wrapping_mul(self.multipliers[order - 1])
        }
    }

    /// Table row that `head` selects. Heads are grouped by n-gram order, bigrams first.
    pub open spec fn row(self, previous: Seq<u32>, token: u32, head: int) -> int {
        let order = (head / self.heads_per_ngram as int + 2) as nat;
        self.offsets[head] + self.mixed(previous, token, order) as int % self.vocab_sizes[head] as int
    }

    /// Whether the rows that the first `count` heads select fit a row identifier.
    pub open spec fn rows_fit(self, previous: Seq<u32>, token: u32, count: int) -> bool {
        forall|head: int| 0 <= head < count ==> #[trigger] self.row(previous, token, head) <= u32::MAX
    }

    /// Row identifiers that the first `count` heads select.
    pub open spec fn rows(self, previous: Seq<u32>, token: u32, count: nat) -> Seq<u32> {
        Seq::new(count, |head: int| self.row(previous, token, head) as u32)
    }

    /// Whether a window with this content belongs to the plan.
    pub open spec fn accepts(self, window: PleWindowModel) -> bool {
        window.eos == self.eos && window.previous.len() == self.ngram_size - 1
    }
}

/// Exact Qwen PLE hash parameters loaded from the checkpoint.
#[derive(Debug, PartialEq, Eq)]
pub struct Qwen38PleHashPlan {
    multipliers: Vec<u64>,
    vocab_sizes: Vec<u64>,
    offsets: Vec<u64>,
    heads_per_ngram: usize,
    ngram_size: usize,
    eos_token_id: u32,
    table_rows: usize,
}

impl View for Qwen38PleHashPlan {
    type V = PlePlanModel;

    closed spec fn view(&self) -> PlePlanModel {
        PlePlanModel {
            multipliers: self.multipliers@,
            vocab_sizes: self.vocab_sizes@,
            offsets: self.offsets@,
            heads_per_ngram: self.heads_per_ngram as nat,
            ngram_size: self.ngram_size as nat,
            eos: self.eos_token_id,
        }
    }
}

fn contains_zero(values: &Vec<u64>) -> (found: bool)
    ensures
        found == values@.contains(0),
{
    let mut i: usize = 0;
    while i < values.len()
        invariant
            i <= values.len(),
            forall|j: int| 0 <= j < i ==> values@[j] != 0,
        decreases values.len() - i,
    {
        if values[i] == 0 {
            assert(values@[i as int] == 0);
            return true;
        }
        i += 1;
    }
    false
}

/// Every head's table ends at or before the end of the last one.
proof fn lemma_heads_within(plan: PlePlanModel, head: int)
    requires
        plan.contiguous(),
        plan.offsets.len() == plan.vocab_sizes.len(),
        0 <= head < plan.offsets.len(),
    ensures
        plan.offsets[head] + plan.vocab_sizes[head] <= plan.end(),
    decreases plan.offsets.len() - head,
{
    if head + 1 < plan.offsets.len() {
        lemma_heads_within(plan, head + 1);
        assert(plan.offsets[head + 1] == plan.offsets[head] + plan.vocab_sizes[head]);
    }
}

impl Clone for Qwen38PleHashPlan {
    /// A plan with the same parameters.
    fn clone(&self) -> (copy: Self)
        ensures
            copy@ == self@,
    {
        proof {
            use_type_invariant(self);
        }
        let multipliers = self.multipliers.clone();
        let vocab_sizes = self.vocab_sizes.clone();
        let offsets = self.offsets.clone();
        assert(multipliers@ =~= self.multipliers@);
        assert(vocab_sizes@ =~= self.vocab_sizes@);
        assert(offsets@ =~= self.offsets@);
        Qwen38PleHashPlan {
            multipliers,
            vocab_sizes,
            offsets,
            heads_per_ngram: self.heads_per_ngram,
            ngram_size: self.ngram_size,
            eos_token_id: self.eos_token_id,
            table_rows: self.table_rows,
        }
    }
}

impl Qwen38PleHashPlan {
    /// The tables have the sizes that hashing reads, and the row count is their end.
    #[verifier::type_invariant]
    spec fn well_formed(self) -> bool {
        self@.valid(usize::MAX as int) && self.table_rows == self@.end()
    }

    /// Checks the hash parameters of a checkpoint.
    pub fn new(
        multipliers: Vec<u64>,
        vocab_sizes: Vec<u64>,
        offsets: Vec<u64>,
        heads_per_ngram: usize,
        ngram_size: usize,
        eos_token_id: u32,
    ) -> (result: Result<Self, PleError>)
        ensures
            ({
                let plan = PlePlanModel {
                    multipliers: multipliers@,
                    vocab_sizes: vocab_sizes@,
                    offsets: offsets@,
                    heads_per_ngram: heads_per_ngram as nat,
                    ngram_size: ngram_size as nat,
                    eos: eos_token_id,
                };
                match result {
                    Ok(checked) => checked@ == plan && plan.valid(usize::MAX as int),
                    Err(error) => if ngram_size == 0 || (ngram_size - 1) * heads_per_ngram
                        > usize::MAX {
                        error == PleError::HashHeads
                    } else if !plan.shaped() {
                        error == PleError::HashPlan
                    } else if !plan.contiguous() {
                        error == PleError::HeadOffsets
                    } else {
                        error == PleError::TableRows && plan.end() > usize::MAX
                    },
                }
            }),
    {
        if ngram_size == 0 {
            return Err(PleError::HashHeads);
        }
        let heads: usize = match (ngram_size - 1).checked_mul(heads_per_ngram) {
            Some(heads) => heads,
            None => return Err(PleError::HashHeads),
        };
        let ghost plan = PlePlanModel {
            multipliers: multipliers@,
            vocab_sizes: vocab_sizes@,
            offsets: offsets@,
            heads_per_ngram: heads_per_ngram as nat,
            ngram_size: ngram_size as nat,
            eos: eos_token_id,
        };
        if ngram_size < 2 || heads_per_ngram == 0 || multipliers.len() != ngram_size
            || vocab_sizes.len() != heads || offsets.len() != heads || contains_zero(&multipliers)
            || contains_zero(&vocab_sizes) {
            return Err(PleError::HashPlan);
        }
        assert(plan.shaped());
        assert(heads >= 1) by (nonlinear_arith)
            requires
                heads == (ngram_size - 1) * heads_per_ngram,
                ngram_size >= 2,
                heads_per_ngram >= 1,
        ;
        let mut index: usize = 1;
        while index < heads
            invariant
                1 <= index <= heads,
                heads == offsets@.len(),
                heads == vocab_sizes@.len(),
                heads == (ngram_size - 1) * heads_per_ngram,
                ngram_size >= 2,
                plan.shaped(),
                plan == (PlePlanModel {
                    multipliers: multipliers@,
                    vocab_sizes: vocab_sizes@,
                    offsets: offsets@,
                    heads_per_ngram: heads_per_ngram as nat,
                    ngram_size: ngram_size as nat,
                    eos: eos_token_id,
                }),
                forall|head: int|
                    1 <= head < index ==> #[trigger] plan.offsets[head] == plan.offsets[head - 1]
                        + plan.vocab_sizes[head - 1],
            ensures
                plan.contiguous(),
            decreases heads - index,
        {
            let previous_end = offsets[index - 1].checked_add(vocab_sizes[index - 1]);
            match previous_end {
                Some(end) if end == offsets[index] => {},
                _ => {
                    assert(plan.offsets[index as int] != plan.offsets[index - 1]
                        + plan.vocab_sizes[index - 1]);
                    return Err(PleError::HeadOffsets);
                },
            }
            index += 1;
        }
        let table_rows: u64 = match offsets[heads - 1].checked_add(vocab_sizes[heads - 1]) {
            Some(rows) => rows,
            None => return Err(PleError::TableRows),
        };
        if table_rows > usize::MAX as u64 {
            return Err(PleError::TableRows);
        }
        Ok(
            Self {
                multipliers,
                vocab_sizes,
                offsets,
                heads_per_ngram,
                ngram_size,
                eos_token_id,
                table_rows: table_rows as usize,
            },
        )
    }

    /// Number of PLE rows selected for each token.
    pub fn heads(&self) -> (heads: usize)
        ensures
            heads == self@.heads(),
    {
        self.vocab_sizes.len()
    }

    /// Logical rows addressable by the hash heads, before shard padding.
    pub fn table_rows(&self) -> (rows: usize)
        ensures
            rows == self@.end(),
    {
        proof {
            use_type_invariant(self);
        }
        self.table_rows
    }
}


/// A head belongs to the n-gram order of its group.
proof fn lemma_head_order(head: int, order: int, heads_per_ngram: int)
    requires
        heads_per_ngram > 0,
        order >= 2,
        (order - 2) * heads_per_ngram <= head < (order - 1) * heads_per_ngram,
    ensures
        head / heads_per_ngram == order - 2,
{
    let offset = head - (order - 2) * heads_per_ngram;
    assert(offset < heads_per_ngram) by (nonlinear_arith)
        requires
            head < (order - 1) * heads_per_ngram,
            offset == head - (order - 2) * heads_per_ngram,
    ;
    vstd::arithmetic::div_mod::lemma_fundamental_div_mod_converse(
        head,
        heads_per_ngram,
        order - 2,
        offset,
    );
}

/// Groups of heads lie within the tables.
proof fn lemma_group_end(order: int, ngram_size: int, heads_per_ngram: int)
    requires
        2 <= order <= ngram_size,
        heads_per_ngram > 0,
    ensures
        0 <= (order - 2) * heads_per_ngram,
        (order - 2) * heads_per_ngram + heads_per_ngram == (order - 1) * heads_per_ngram,
        (order - 1) * heads_per_ngram <= (ngram_size - 1) * heads_per_ngram,
{
    assert((order - 2) * heads_per_ngram + heads_per_ngram == (order - 1) * heads_per_ngram)
        by (nonlinear_arith);
    assert((order - 1) * heads_per_ngram <= (ngram_size - 1) * heads_per_ngram)
        by (nonlinear_arith)
        requires
            order <= ngram_size,
            heads_per_ngram > 0,
    ;
    assert(0 <= (order - 2) * heads_per_ngram) by (nonlinear_arith)
        requires
            order >= 2,
            heads_per_ngram > 0,
    ;
}

impl Qwen38PleHashPlan {
    /// Selects the rows of `token`, appends them to `output` and moves the window on.
    ///
    /// Where a row does not fit its identifier the rows before it stay in `output`
    /// and the window stays as it is.
    pub fn hash_and_append(
        &self,
        window: &mut Qwen38PleTokenWindow,
        token: u32,
        output: &mut Vec<u32>,
    ) -> (result: Result<(), PleError>)
        ensures
            ({
                let previous = old(window)@.previous;
                match result {
                    Ok(_) => {
                        &&& self@.accepts(old(window)@)
                        &&& self@.rows_fit(previous, token, self@.heads() as int)
                        &&& final(output)@ == old(output)@ + self@.rows(
                            previous,
                            token,
                            self@.heads(),
                        )
                        &&& final(window)@ == (PleWindowModel {
                            previous: pushed(previous, self@.eos, token),
                            ..old(window)@
                        })
                    },
                    Err(error) => if !self@.accepts(old(window)@) {
                        &&& error == PleError::TokenWindow
                        &&& final(window)@ == old(window)@
                        &&& final(output)@ == old(output)@
                    } else {
                        &&& error == PleError::RowId
                        &&& final(window)@ == old(window)@
                        &&& exists|head: int|
                            {
                                &&& 0 <= head < self@.heads()
                                &&& #[trigger] self@.row(previous, token, head) > u32::MAX
                                &&& self@.rows_fit(previous, token, head)
                                &&& final(output)@ == old(output)@ + self@.rows(
                                    previous,
                                    token,
                                    head as nat,
                                )
                            }
                    },
                }
            }),
    {
        proof {
            use_type_invariant(self);
            use_type_invariant(&*window);
        }
        let plan = Ghost(self@);
        if window.eos_token_id != self.eos_token_id || window.previous.len() != self.ngram_size
            - 1 {
            return Err(PleError::TokenWindow);
        }
        let ghost previous = window@.previous;
        let mut mixed: u64 = (token as u64).wrapping_mul(self.multipliers[0]);
        let mut head: usize = 0;
        let mut group: usize = 0;
        let heads: usize = self.vocab_sizes.len();
        assert(self@.rows(previous, token, 0) =~= Seq::<u32>::empty());
        while group < self.ngram_size - 1
            invariant
                plan@ == self@,
                plan@.valid(usize::MAX as int),
                plan@.multipliers == self.multipliers@,
                plan@.offsets == self.offsets@,
                plan@.vocab_sizes == self.vocab_sizes@,
                plan@.heads_per_ngram == self.heads_per_ngram,
                plan@.ngram_size == self.ngram_size,
                plan@.eos == self.eos_token_id,
                plan@.accepts(window@),
                window@ == old(window)@,
                window.previous@ == previous,
                previous == old(window)@.previous,
                group <= self.ngram_size - 1,
                heads == plan@.heads(),
                heads == (self.ngram_size - 1) * self.heads_per_ngram,
                head == group * self.heads_per_ngram,
                mixed == plan@.mixed(previous, token, (group + 1) as nat),
                plan@.rows_fit(previous, token, head as int),
                output@ == old(output)@ + plan@.rows(previous, token, head as nat),
            decreases self.ngram_size - 1 - group,
        {
            let order: usize = group + 2;
            proof {
                lemma_group_end(order as int, self.ngram_size as int, self.heads_per_ngram as int);
            }
            let older = window.previous[order - 2];
            mixed = mixed ^ (older as u64).wrapping_mul(self.multipliers[order - 1]);
            let group_end: usize = head + self.heads_per_ngram;
            while head < group_end
                invariant
                    plan@ == self@,
                    plan@.valid(usize::MAX as int),
                    plan@.offsets == self.offsets@,
                    plan@.vocab_sizes == self.vocab_sizes@,
                    plan@.heads_per_ngram == self.heads_per_ngram,
                    plan@.accepts(window@),
                    window@ == old(window)@,
                    window.previous@ == previous,
                    previous == old(window)@.previous,
                    2 <= order,
                    (order - 2) * self.heads_per_ngram <= head <= group_end,
                    group_end == (order - 1) * self.heads_per_ngram,
                    group_end <= plan@.heads(),
                    mixed == plan@.mixed(previous, token, order as nat),
                    plan@.rows_fit(previous, token, head as int),
                    output@ == old(output)@ + plan@.rows(previous, token, head as nat),
                decreases group_end - head,
            {
                proof {
                    lemma_head_order(head as int, order as int, self.heads_per_ngram as int);
                    lemma_heads_within(plan@, head as int);
                    assert(plan@.vocab_sizes[head as int] != 0);
                }
                let row: u64 = self.offsets[head] + mixed % self.vocab_sizes[head];
                assert(row == plan@.row(previous, token, head as int));
                if row > u32::MAX as u64 {
                    return Err(PleError::RowId);
                }
                output.push(row as u32);
                assert(plan@.rows(previous, token, (head + 1) as nat) =~= plan@.rows(
                    previous,
                    token,
                    head as nat,
                ).push(row as u32));
                assert(output@ =~= old(output)@ + plan@.rows(previous, token, (head + 1) as nat));
                head += 1;
            }
            group += 1;
        }
        window.push(token);
        Ok(())
    }
}


impl PlePlanModel {
    /// Rows selected for `tokens` in order, starting from the history `previous`.
    pub open spec fn batch_rows(self, previous: Seq<u32>, tokens: Seq<u32>) -> Seq<u32>
        decreases tokens.len(),
    {
        if tokens.len() == 0 {
            Seq::empty()
        } else {
            self.batch_rows(previous, tokens.drop_last()) + self.rows(
                pushed_all(previous, self.eos, tokens.drop_last()),
                tokens.last(),
                self.heads(),
            )
        }
    }

    /// Whether every row selected for the token at `index` fits a row identifier.
    pub open spec fn token_fits(self, previous: Seq<u32>, tokens: Seq<u32>, index: int) -> bool {
        self.rows_fit(
            pushed_all(previous, self.eos, tokens.take(index)),
            tokens[index],
            self.heads() as int,
        )
    }

    /// Whether every row selected for the first `count` tokens fits a row identifier.
    pub open spec fn batch_fits(self, previous: Seq<u32>, tokens: Seq<u32>, count: int) -> bool {
        forall|index: int| 0 <= index < count ==> #[trigger] self.token_fits(previous, tokens, index)
    }
}

/// Longest read time that is told apart, in nanoseconds.
pub const MAX_READ_TIME_NS: u128 = 18446744073709551615999999999;

/// Cumulative I/O activity for the paged BF16 PLE table.
#[derive(Clone, Copy, Debug, PartialEq, Eq, Structural)]
pub struct Qwen38PlePagingStats {
    /// Number of row-read batches.
    pub batches: u64,
    /// Logical rows requested, including duplicates.
    pub logical_rows: u64,
    /// Unique rows issued to storage.
    pub unique_rows: u64,
    /// Aligned bytes requested through O_DIRECT.
    pub bytes_read: u64,
    /// Aggregate host-side read time in nanoseconds.
    pub read_time_ns: u128,
}

impl Default for Qwen38PlePagingStats {
    fn default() -> (stats: Self)
        ensures
            stats == (Qwen38PlePagingStats {
                batches: 0,
                logical_rows: 0,
                unique_rows: 0,
                bytes_read: 0,
                read_time_ns: 0,
            }),
    {
        Self { batches: 0, logical_rows: 0, unique_rows: 0, bytes_read: 0, read_time_ns: 0 }
    }
}

/// Storage activity of one read batch.
#[derive(Clone, Copy, Debug, PartialEq, Eq, Structural)]
pub struct PleReadStats {
    /// Rows requested, including duplicates.
    pub logical_rows: usize,
    /// Unique rows issued to storage.
    pub unique_rows: usize,
    /// Aligned bytes read.
    pub bytes_read: usize,
    /// Host-side read time in nanoseconds.
    pub elapsed_ns: u128,
}

/// The smaller of a sum and a limit.
pub open spec fn capped_sum(left: int, right: int, limit: int) -> int {
    if left + right > limit {
        limit
    } else {
        left + right
    }
}

/// Contents of a pager.
#[verifier::ext_equal]
pub struct PagedPleModel {
    /// Hash parameters.
    pub plan: PlePlanModel,
    /// Rows of the latest batch.
    pub row_ids: Seq<u32>,
    /// Most tokens of one batch.
    pub token_capacity: nat,
    /// Activity so far.
    pub stats: Qwen38PlePagingStats,
    /// Whether the latest read has been counted.
    pub read_accounted: bool,
}

/// Row selection and read accounting of the released BF16 PLE table.
pub struct Qwen38PagedPle {
    hash: Qwen38PleHashPlan,
    row_ids: Vec<u32>,
    token_capacity: usize,
    stats: Qwen38PlePagingStats,
    read_accounted: bool,
}

impl View for Qwen38PagedPle {
    type V = PagedPleModel;

    closed spec fn view(&self) -> PagedPleModel {
        PagedPleModel {
            plan: self.hash@,
            row_ids: self.row_ids@,
            token_capacity: self.token_capacity as nat,
            stats: self.stats,
            read_accounted: self.read_accounted,
        }
    }
}

/// The least multiple of `alignment` that is at least `value`.
pub open spec fn aligned(value: int, alignment: int) -> int {
    (value + alignment - 1) / alignment * alignment
}

/// Rounds a row count up to the shard alignment.
pub fn align_up(value: usize, alignment: usize) -> (result: Result<usize, PleError>)
    ensures
        match result {
            Ok(rows) => {
                &&& alignment > 0
                &&& value + alignment - 1 <= usize::MAX
                &&& rows == aligned(value as int, alignment as int)
            },
            Err(error) => if alignment == 0 {
                error == PleError::Alignment
            } else {
                error == PleError::AlignmentOverflow && value + alignment - 1 > usize::MAX
            },
        },
{
    if alignment == 0 {
        return Err(PleError::Alignment);
    }
    match value.checked_add(alignment - 1) {
        Some(raised) => {
            proof {
                vstd::arithmetic::div_mod::lemma_fundamental_div_mod(
                    raised as int,
                    alignment as int,
                );
                assert((raised / alignment) * alignment == alignment * (raised / alignment))
                    by (nonlinear_arith);
            }
            Ok(raised / alignment * alignment)
        },
        None => Err(PleError::AlignmentOverflow),
    }
}

impl Qwen38PagedPle {
    /// Checks a stored table against the hash plan that addresses it.
    ///
    /// `source_rows` is the number of rows found in storage.
    pub fn open(
        hash: Qwen38PleHashPlan,
        source_rows: usize,
        ngram_vocab_alignment: usize,
        token_capacity: usize,
    ) -> (result: Result<Self, PleError>)
        ensures
            ({
                let raised = hash@.end() + ngram_vocab_alignment - 1;
                match result {
                    Ok(pager) => {
                        &&& token_capacity > 0
                        &&& ngram_vocab_alignment > 0
                        &&& raised <= usize::MAX
                        &&& source_rows == aligned(hash@.end(), ngram_vocab_alignment as int)
                        &&& token_capacity * hash@.heads() <= usize::MAX
                        &&& pager@ == (PagedPleModel {
                            plan: hash@,
                            row_ids: Seq::empty(),
                            token_capacity: token_capacity as nat,
                            stats: Qwen38PlePagingStats {
                                batches: 0,
                                logical_rows: 0,
                                unique_rows: 0,
                                bytes_read: 0,
                                read_time_ns: 0,
                            },
                            read_accounted: true,
                        })
                    },
                    Err(error) => if token_capacity == 0 {
                        error == PleError::Capacity
                    } else if ngram_vocab_alignment == 0 {
                        error == PleError::Alignment
                    } else if raised > usize::MAX {
                        error == PleError::AlignmentOverflow
                    } else if source_rows != aligned(hash@.end(), ngram_vocab_alignment as int) {
                        error == PleError::Rows
                    } else {
                        error == PleError::RowCapacity && token_capacity * hash@.heads()
                            > usize::MAX
                    },
                }
            }),
    {
        if token_capacity == 0 {
            return Err(PleError::Capacity);
        }
        let expected_rows: usize = match align_up(hash.table_rows(), ngram_vocab_alignment) {
            Ok(rows) => rows,
            Err(error) => return Err(error),
        };
        if source_rows != expected_rows {
            return Err(PleError::Rows);
        }
        let row_capacity: usize = match token_capacity.checked_mul(hash.heads()) {
            Some(capacity) => capacity,
            None => return Err(PleError::RowCapacity),
        };
        Ok(
            Self {
                hash,
                row_ids: Vec::with_capacity(row_capacity),
                token_capacity,
                stats: Qwen38PlePagingStats::default(),
                read_accounted: true,
            },
        )
    }

    /// Selects the rows of one batch of tokens and moves the window past them.
    ///
    /// Start this before layer 0 so its GPU work overlaps the PLE read needed by
    /// layer 1. The rows are left for the reader; `read_started` records that
    /// storage has taken them.
    pub fn begin_read_tokens(
        &mut self,
        window: &mut Qwen38PleTokenWindow,
        tokens: &[u32],
    ) -> (result: Result<(), PleError>)
        ensures
            ({
                let plan = old(self)@.plan;
                let previous = old(window)@.previous;
                let count = tokens@.len();
                let usable = 1 <= count <= old(self)@.token_capacity;
                &&& final(self)@ == (PagedPleModel {
                    row_ids: final(self)@.row_ids,
                    ..old(self)@
                })
                &&& match result {
                    Ok(_) => {
                        &&& usable
                        &&& plan.accepts(old(window)@)
                        &&& plan.batch_fits(previous, tokens@, count as int)
                        &&& final(self)@.row_ids == plan.batch_rows(previous, tokens@)
                        &&& final(window)@ == (PleWindowModel {
                            previous: pushed_all(previous, plan.eos, tokens@),
                            ..old(window)@
                        })
                    },
                    Err(error) => if !usable {
                        &&& error == PleError::Tokens
                        &&& final(self)@ == old(self)@
                        &&& final(window)@ == old(window)@
                    } else if !plan.accepts(old(window)@) {
                        &&& error == PleError::TokenWindow
                        &&& final(window)@ == old(window)@
                    } else {
                        &&& error == PleError::RowId
                        &&& exists|index: int|
                            {
                                &&& 0 <= index < count
                                &&& plan.batch_fits(previous, tokens@, index)
                                &&& !#[trigger] plan.token_fits(previous, tokens@, index)
                                &&& final(window)@ == (PleWindowModel {
                                    previous: pushed_all(previous, plan.eos, tokens@.take(index)),
                                    ..old(window)@
                                })
                            }
                    },
                }
            }),
    {
        if tokens.len() == 0 || tokens.len() > self.token_capacity {
            return Err(PleError::Tokens);
        }
        proof {
            use_type_invariant(&*window);
        }
        self.row_ids.clear();
        let ghost plan = self.hash@;
        let ghost previous = window@.previous;
        let mut index: usize = 0;
        assert(tokens@.take(0) =~= Seq::<u32>::empty());
        while index < tokens.len()
            invariant
                index <= tokens@.len(),
                plan == self.hash@,
                plan == old(self)@.plan,
                previous == old(window)@.previous,
                previous.len() >= 1,
                1 <= tokens@.len() <= old(self)@.token_capacity,
                self@ == (PagedPleModel { row_ids: self.row_ids@, ..old(self)@ }),
                self.row_ids@ == plan.batch_rows(previous, tokens@.take(index as int)),
                plan.batch_fits(previous, tokens@, index as int),
                index > 0 ==> plan.accepts(old(window)@),
                window@ == (PleWindowModel {
                    previous: pushed_all(previous, old(window)@.eos, tokens@.take(index as int)),
                    ..old(window)@
                }),
            decreases tokens@.len() - index,
        {
            proof {
                lemma_pushed_all_len(previous, window@.eos, tokens@.take(index as int));
            }
            match self.hash.hash_and_append(window, tokens[index], &mut self.row_ids) {
                Ok(()) => {},
                Err(error) => {
                    assert(tokens@.take(0) =~= Seq::<u32>::empty());
                    assert(plan.accepts(old(window)@) ==> !plan.token_fits(
                        previous,
                        tokens@,
                        index as int,
                    ));
                    return Err(error);
                },
            }
            proof {
                let longer = tokens@.take(index as int + 1);
                assert(longer.drop_last() =~= tokens@.take(index as int));
                assert(longer.last() == tokens@[index as int]);
                assert(plan.token_fits(previous, tokens@, index as int));
            }
            index += 1;
        }
        assert(tokens@.take(tokens@.len() as int) =~= tokens@);
        Ok(())
    }
}

/// Appending tokens keeps the length of the history.
proof fn lemma_pushed_all_len(previous: Seq<u32>, eos: u32, tokens: Seq<u32>)
    requires
        previous.len() >= 1,
    ensures
        pushed_all(previous, eos, tokens).len() == previous.len(),
    decreases tokens.len(),
{
    if tokens.len() > 0 {
        lemma_pushed_all_len(previous, eos, tokens.drop_last());
    }
}


impl Qwen38PagedPle {
    /// Records that storage has taken the rows of the latest batch.
    pub fn read_started(&mut self)
        ensures
            final(self)@ == (PagedPleModel { read_accounted: false, ..old(self)@ }),
    {
        self.read_accounted = false;
    }

    /// Adds a finished read to the totals, once for each batch.
    pub fn account_read(&mut self, read: PleReadStats)
        ensures
            final(self)@ == if old(self)@.read_accounted {
                old(self)@
            } else {
                PagedPleModel {
                    stats: Qwen38PlePagingStats {
                        batches: capped_sum(old(self)@.stats.batches as int, 1, u64::MAX as int) as u64,
                        logical_rows: capped_sum(
                            old(self)@.stats.logical_rows as int,
                            read.logical_rows as int,
                            u64::MAX as int,
                        ) as u64,
                        unique_rows: capped_sum(
                            old(self)@.stats.unique_rows as int,
                            read.unique_rows as int,
                            u64::MAX as int,
                        ) as u64,
                        bytes_read: capped_sum(
                            old(self)@.stats.bytes_read as int,
                            read.bytes_read as int,
                            u64::MAX as int,
                        ) as u64,
                        read_time_ns: capped_sum(
                            old(self)@.stats.read_time_ns as int,
                            read.elapsed_ns as int,
                            MAX_READ_TIME_NS as int,
                        ) as u128,
                    },
                    read_accounted: true,
                    ..old(self)@
                }
            },
    {
        if self.read_accounted {
            return;
        }
        let time: u128 = self.stats.read_time_ns.saturating_add(read.elapsed_ns);
        self.stats = Qwen38PlePagingStats {
            batches: self.stats.batches.saturating_add(1),
            logical_rows: self.stats.logical_rows.saturating_add(read.logical_rows as u64),
            unique_rows: self.stats.unique_rows.saturating_add(read.unique_rows as u64),
            bytes_read: self.stats.bytes_read.saturating_add(read.bytes_read as u64),
            read_time_ns: if time > MAX_READ_TIME_NS {
                MAX_READ_TIME_NS
            } else {
                time
            },
        };
        self.read_accounted = true;
    }

    /// Exact hash parameters validated from the checkpoint.
    pub fn hash_plan(&self) -> (plan: &Qwen38PleHashPlan)
        ensures
            plan@ == self@.plan,
    {
        &self.hash
    }

    /// Cumulative direct-I/O statistics.
    pub fn stats(&self) -> (stats: Qwen38PlePagingStats)
        ensures
            stats == self@.stats,
    {
        self.stats
    }

    /// Rows selected for the latest batch.
    pub fn row_ids(&self) -> (rows: &[u32])
        ensures
            rows@ == self@.row_ids,
    {
        self.row_ids.as_slice()
    }
}

/// Name prefix of the embedding tensors of one layer.
pub fn ple_embedding_prefix(layer: usize) -> (prefix: String)
    ensures
        prefix@ == "model.language_model.layers."@ + crate::text::decimal(layer as nat) + ".ple.ple_embedding"@,
{
    let mut prefix = String::from_str("model.language_model.layers.");
    append_decimal(&mut prefix, layer as u64);
    prefix.append(".ple.ple_embedding");
    prefix
}

/// Value of eight little-endian bytes at `start`.
pub open spec fn little_endian(bytes: Seq<u8>, start: int) -> int {
    bytes[start] + 0x100 * bytes[start + 1] + 0x1_0000 * bytes[start + 2] + 0x100_0000 * bytes[start
        + 3] + 0x1_0000_0000 * bytes[start + 4] + 0x100_0000_0000 * bytes[start + 5]
        + 0x1_0000_0000_0000 * bytes[start + 6] + 0x100_0000_0000_0000 * bytes[start + 7]
}

/// Checks that a stored tensor is a vector of `expected_len` 64-bit integers.
pub fn check_i64_vector(
    dtype: &str,
    shape: &[usize],
    byte_len: u64,
    expected_len: usize,
) -> (result: Result<(), PleError>)
    ensures
        match result {
            Ok(_) => dtype@ == "I64"@ && shape@ == seq![expected_len] && byte_len == expected_len
                * 8,
            Err(error) => error == PleError::IntegerTensor && !(dtype@ == "I64"@ && shape@ == seq![
                expected_len,
            ] && byte_len == expected_len * 8),
        },
{
    if !same_text(dtype, "I64") || shape.len() != 1 || byte_len as u128 != expected_len as u128
        * 8 {
        return Err(PleError::IntegerTensor);
    }
    if shape[0] != expected_len {
        return Err(PleError::IntegerTensor);
    }
    assert(shape@ =~= seq![expected_len]);
    Ok(())
}

/// Decodes the payload of an integer tensor, whole words only.
///
/// The value of a word is refused where its sign bit is set.
pub fn read_i64_vector(bytes: &[u8]) -> (result: Result<Vec<u64>, PleError>)
    ensures
        ({
            let words = bytes@.len() / 8;
            match result {
                Ok(values) => {
                    &&& values@.len() == words
                    &&& forall|i: int|
                        0 <= i < words ==> #[trigger] values@[i] == little_endian(bytes@, 8 * i)
                    &&& forall|i: int|
                        0 <= i < words ==> #[trigger] little_endian(bytes@, 8 * i) <= i64::MAX
                },
                Err(error) => {
                    &&& error == PleError::NegativeInteger
                    &&& exists|i: int|
                        0 <= i < words && #[trigger] little_endian(bytes@, 8 * i) > i64::MAX
                },
            }
        }),
{
    let len: usize = bytes.len();
    let words: usize = len / 8;
    let mut values: Vec<u64> = Vec::with_capacity(words);
    let mut i: usize = 0;
    while i < words
        invariant
            i <= words,
            words == len / 8,
            len == bytes@.len(),
            values@.len() == i,
            forall|j: int| 0 <= j < i ==> #[trigger] values@[j] == little_endian(bytes@, 8 * j),
            forall|j: int| 0 <= j < i ==> #[trigger] little_endian(bytes@, 8 * j) <= i64::MAX,
        decreases words - i,
    {
        let at: usize = 8 * i;
        let value: u64 = bytes[at] as u64 + 0x100 * bytes[at + 1] as u64 + 0x1_0000 * bytes[at
            + 2] as u64 + 0x100_0000 * bytes[at + 3] as u64 + 0x1_0000_0000 * bytes[at + 4] as u64
            + 0x100_0000_0000 * bytes[at + 5] as u64 + 0x1_0000_0000_0000 * bytes[at + 6] as u64
            + 0x100_0000_0000_0000 * bytes[at + 7] as u64;
        assert(value == little_endian(bytes@, 8 * i as int));
        if value > i64::MAX as u64 {
            return Err(PleError::NegativeInteger);
        }
        values.push(value);
        i += 1;
    }
    Ok(values)
}


/// Two runs of appends in a row are one run over both token lists.
pub proof fn law_history_composes(previous: Seq<u32>, eos: u32, first: Seq<u32>, second: Seq<u32>)
    ensures
        pushed_all(previous, eos, first + second) == pushed_all(
            pushed_all(previous, eos, first),
            eos,
            second,
        ),
    decreases second.len(),
{
    if second.len() == 0 {
        assert(first + second =~= first);
    } else {
        law_history_composes(previous, eos, first, second.drop_last());
        assert((first + second).drop_last() =~= first + second.drop_last());
        assert((first + second).last() == second.last());
    }
}

/// Whatever came before it, the end-of-sequence token leaves the history of an empty segment.
pub proof fn law_eos_starts_an_empty_segment(previous: Seq<u32>, eos: u32, tokens: Seq<u32>)
    requires
        previous.len() >= 1,
    ensures
        pushed_all(previous, eos, tokens.push(eos)) == empty_history(previous.len(), eos),
{
    let run = tokens.push(eos);
    assert(run.drop_last() =~= tokens);
    lemma_pushed_all_len(previous, eos, tokens);
    assert(pushed_all(previous, eos, run) =~= empty_history(previous.len(), eos));
}

/// Within a segment the history holds the most recent tokens, newest first, and before
/// them what was there.
pub proof fn law_history_holds_recent_tokens(previous: Seq<u32>, eos: u32, tokens: Seq<u32>)
    requires
        previous.len() >= 1,
        !tokens.contains(eos),
    ensures
        pushed_all(previous, eos, tokens).len() == previous.len(),
        forall|i: int|
            0 <= i < previous.len() ==> #[trigger] pushed_all(previous, eos, tokens)[i] == if i
                < tokens.len() {
                tokens[tokens.len() - 1 - i]
            } else {
                previous[i - tokens.len()]
            },
    decreases tokens.len(),
{
    if tokens.len() > 0 {
        let shorter = tokens.drop_last();
        assert forall|token: u32| shorter.contains(token) implies tokens.contains(token) by {
            let at = choose|at: int| 0 <= at < shorter.len() && shorter[at] == token;
            assert(tokens[at] == token);
        }
        law_history_holds_recent_tokens(previous, eos, shorter);
        assert(tokens.last() != eos) by {
            assert(tokens[tokens.len() - 1] == tokens.last());
        }
        let before = pushed_all(previous, eos, shorter);
        let after = pushed_all(previous, eos, tokens);
        assert(after == seq![tokens.last()] + before.drop_last());
        assert forall|i: int| 0 <= i < previous.len() implies #[trigger] after[i] == if i
            < tokens.len() {
            tokens[tokens.len() - 1 - i]
        } else {
            previous[i - tokens.len()]
        } by {
            if i > 0 {
                assert(after[i] == before[i - 1]);
            }
        }
    }
}

/// An append that is begun, run over any tokens and aborted leaves the window as it was.
pub proof fn law_aborted_append_changes_nothing(
    start: PleWindowModel,
    begun: PleWindowModel,
    run: PleWindowModel,
    aborted: PleWindowModel,
    tokens: Seq<u32>,
)
    requires
        start.rollback is None,
        begun == (PleWindowModel { rollback: Some(start.previous), ..start }),
        run == (PleWindowModel { previous: pushed_all(begun.previous, begun.eos, tokens), ..begun }),
        aborted == (PleWindowModel { previous: run.rollback->0, rollback: None, ..run }),
    ensures
        aborted == start,
{
}

/// Committing a prefix of an append is the same as appending only that prefix.
pub proof fn law_prefix_commit_equals_short_append(
    start: PleWindowModel,
    run: PleWindowModel,
    committed: PleWindowModel,
    tokens: Seq<u32>,
    count: int,
)
    requires
        start.rollback is None,
        0 <= count <= tokens.len(),
        run == (PleWindowModel {
            previous: pushed_all(start.previous, start.eos, tokens),
            rollback: Some(start.previous),
            ..start
        }),
        committed == (PleWindowModel {
            previous: pushed_all(run.rollback->0, run.eos, tokens.take(count)),
            rollback: None,
            ..run
        }),
    ensures
        committed == (PleWindowModel {
            previous: pushed_all(start.previous, start.eos, tokens.take(count)),
            ..start
        }),
{
}

/// Every selected row lies in the table that the plan addresses.
pub proof fn law_rows_lie_in_the_table(
    plan: PlePlanModel,
    limit: int,
    previous: Seq<u32>,
    token: u32,
    head: int,
)
    requires
        plan.valid(limit),
        0 <= head < plan.heads(),
    ensures
        plan.offsets[head] <= plan.row(previous, token, head) < plan.offsets[head]
            + plan.vocab_sizes[head],
        0 <= plan.row(previous, token, head) < plan.end(),
{
    assert(plan.vocab_sizes[head] != 0);
    lemma_heads_within(plan, head);
}

/// Different heads select different rows.
pub proof fn law_heads_select_distinct_rows(
    plan: PlePlanModel,
    limit: int,
    previous: Seq<u32>,
    token: u32,
    left: int,
    right: int,
)
    requires
        plan.valid(limit),
        0 <= left < right < plan.heads(),
    ensures
        plan.row(previous, token, left) < plan.row(previous, token, right),
{
    law_rows_lie_in_the_table(plan, limit, previous, token, left);
    law_rows_lie_in_the_table(plan, limit, previous, token, right);
    lemma_heads_ordered(plan, left, right);
}

proof fn lemma_heads_ordered(plan: PlePlanModel, left: int, right: int)
    requires
        plan.contiguous(),
        plan.offsets.len() == plan.vocab_sizes.len(),
        0 <= left < right < plan.offsets.len(),
    ensures
        plan.offsets[left] + plan.vocab_sizes[left] <= plan.offsets[right],
    decreases right - left,
{
    assert(plan.offsets[right] == plan.offsets[right - 1] + plan.vocab_sizes[right - 1]);
    if left + 1 < right {
        lemma_heads_ordered(plan, left, right - 1);
    }
}

/// A batch selects the same rows as its tokens one batch at a time.
pub proof fn law_batch_hashing_equals_serial_hashing(
    plan: PlePlanModel,
    previous: Seq<u32>,
    first: Seq<u32>,
    second: Seq<u32>,
)
    ensures
        plan.batch_rows(previous, first + second) == plan.batch_rows(previous, first)
            + plan.batch_rows(pushed_all(previous, plan.eos, first), second),
    decreases second.len(),
{
    let after = pushed_all(previous, plan.eos, first);
    if second.len() == 0 {
        assert(first + second =~= first);
        assert(plan.batch_rows(previous, first) + plan.batch_rows(after, second)
            =~= plan.batch_rows(previous, first));
    } else {
        let shorter = second.drop_last();
        law_batch_hashing_equals_serial_hashing(plan, previous, first, shorter);
        law_history_composes(previous, plan.eos, first, shorter);
        assert((first + second).drop_last() =~= first + shorter);
        assert((first + second).last() == second.last());
        assert(plan.batch_rows(previous, first + second) =~= plan.batch_rows(previous, first)
            + plan.batch_rows(after, second));
    }
}

/// A batch selects one row for each head of each token.
pub proof fn law_batch_row_count(plan: PlePlanModel, previous: Seq<u32>, tokens: Seq<u32>)
    ensures
        plan.batch_rows(previous, tokens).len() == tokens.len() * plan.heads(),
    decreases tokens.len(),
{
    if tokens.len() > 0 {
        law_batch_row_count(plan, previous, tokens.drop_last());
        assert((tokens.len() - 1) * plan.heads() + plan.heads() == tokens.len() * plan.heads())
            by (nonlinear_arith);
    }
}

/// Alignment gives the least multiple that is not below the value.
pub proof fn law_alignment_is_least_multiple(value: int, alignment: int, other: int)
    requires
        value >= 0,
        alignment > 0,
        other >= value,
        other % alignment == 0,
    ensures
        aligned(value, alignment) % alignment == 0,
        value <= aligned(value, alignment) < value + alignment,
        aligned(value, alignment) <= other,
{
    let raised = value + alignment - 1;
    let quotient = raised / alignment;
    vstd::arithmetic::div_mod::lemma_fundamental_div_mod(raised, alignment);
    assert(aligned(value, alignment) == alignment * quotient) by (nonlinear_arith)
        requires
            aligned(value, alignment) == quotient * alignment,
    ;
    vstd::arithmetic::div_mod::lemma_mod_multiples_basic(quotient, alignment);
    vstd::arithmetic::div_mod::lemma_fundamental_div_mod(other, alignment);
    let other_quotient = other / alignment;
    assert(quotient <= other_quotient) by (nonlinear_arith)
        requires
            alignment > 0,
            alignment * quotient <= value + alignment - 1,
            other == alignment * other_quotient,
            other >= value,
    ;
    assert(alignment * quotient <= alignment * other_quotient) by (nonlinear_arith)
        requires
            alignment > 0,
            quotient <= other_quotient,
    ;
}

} // verus!
