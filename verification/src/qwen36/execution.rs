//! Capacities of the resources that a scheduler keeps across ticks.

use vstd::prelude::*;

verus! {

/// Why resources cannot be sized.
#[derive(Clone, Copy, Debug, PartialEq, Eq, Structural)]
pub enum ExecutionError {
    /// Bytes of the sampling state.
    SamplingBytes,
    /// Fixed bytes of one sequence.
    FixedBytes,
    /// Fixed bytes of all active sequences.
    FixedCapacity,
    /// Pages of all active sequences.
    ActivePages,
    /// Bytes of those pages.
    ActivePageBytes,
    /// Bytes of all active sequences.
    ActiveCapacity,
    /// Bytes of active sequences and retained prefixes.
    ManagedBytes,
    /// Pages of active sequences and retained prefixes.
    PageSlots,
    /// No page fits the budget.
    NoPages {
        /// Fixed bytes of all active sequences.
        fixed_capacity: usize,
        /// Bytes set aside for snapshots.
        snapshot_capacity: usize,
        /// Bytes of the budget.
        managed_bytes: usize,
    },
}

/// Capacity and retention limits.
#[derive(Clone, Copy, Debug, PartialEq, Eq, Structural)]
pub struct Qwen36ExecutionConfig {
    /// Rows of the largest decode batch.
    pub decode_capacity: usize,
    /// Sequences of a prompt batch.
    pub prefill_sequence_capacity: usize,
    /// Tokens of a prompt batch.
    pub prefill_token_capacity: usize,
    /// Sequences that are active at once.
    pub max_active_sequences: usize,
    /// Most tokens of a sequence.
    pub max_context_tokens: usize,
    /// Draft tokens of a cycle.
    pub speculative_drafts: usize,
    /// Bytes for retained prefixes.
    pub retained_prefix_bytes: usize,
}

/// What one sequence and one page cost.
#[derive(Clone, Copy, Debug, PartialEq, Eq, Structural)]
pub struct CacheCosts {
    /// Number of vocabulary entries.
    pub vocab: usize,
    /// Bytes of the recurrent state of a sequence.
    pub private_state_bytes: usize,
    /// Bytes of the page table of a sequence.
    pub page_table_bytes: usize,
    /// Bytes of a page.
    pub page_bytes: usize,
    /// Tokens of a page.
    pub page_tokens: usize,
}

/// Limits of the sequence cache.
#[derive(Clone, Copy, Debug, PartialEq, Eq, Structural)]
pub struct CachePlan {
    /// Bytes under management.
    pub managed_bytes: usize,
    /// Bytes set aside for snapshots.
    pub snapshot_capacity: usize,
    /// Most retained prefixes, where there is a limit.
    pub max_prefix_entries: Option<usize>,
    /// Pages.
    pub page_slots: usize,
    /// Bytes for the retained windows of the companion.
    pub dflash2_retained_bytes: usize,
}

/// Capacities of the decode workspaces from `value` on: it doubles below the largest one.
pub open spec fn classes_from(value: int, capacity: int) -> Seq<int>
    decreases
            if value < capacity {
                capacity - value
            } else {
                0
            },
{
    if value < 1 || value >= capacity {
        seq![capacity]
    } else {
        seq![value] + classes_from(2 * value, capacity)
    }
}

/// Lists the capacities of the decode workspaces: powers of two, then the largest batch.
pub fn decode_capacity_classes(capacity: usize) -> (classes: Vec<usize>)
    ensures
        classes@.map_values(|class: usize| class as int) == classes_from(1, capacity as int),
{
    let mut classes: Vec<usize> = Vec::new();
    let mut value: usize = 1;
    let ghost all = classes_from(1, capacity as int);
    let ghost mut exact: int = 1;
    assert(classes@.map_values(|class: usize| class as int) =~= seq![]);
    while value < capacity
        invariant
            1 <= value,
            exact >= 1,
            value == exact || (exact > usize::MAX && value == usize::MAX),
            all == classes@.map_values(|class: usize| class as int) + classes_from(
                exact,
                capacity as int,
            ),
        decreases
                if value < capacity {
                    capacity - value
                } else {
                    0
                },
    {
        let ghost before = classes@;
        assert(value == exact);
        classes.push(value);
        proof {
            assert(classes@.map_values(|class: usize| class as int) =~= before.map_values(
                |class: usize| class as int,
            ).push(value as int));
            assert(classes_from(exact, capacity as int) == seq![exact] + classes_from(
                2 * exact,
                capacity as int,
            ));
            assert(before.map_values(|class: usize| class as int) + (seq![exact] + classes_from(
                2 * exact,
                capacity as int,
            )) =~= classes@.map_values(|class: usize| class as int) + classes_from(
                2 * exact,
                capacity as int,
            ));
            exact = 2 * exact;
        }
        value = match value.checked_mul(2) {
            Some(doubled) => doubled,
            None => usize::MAX,
        };
    }
    let ghost before = classes@;
    classes.push(capacity);
    assert(classes@.map_values(|class: usize| class as int) =~= before.map_values(
        |class: usize| class as int,
    ) + seq![capacity as int]);
    classes
}

/// Every batch up to the capacity fits a workspace less than twice its size.
pub proof fn law_batches_fit_a_close_class(capacity: int, rows: int)
    requires
        1 <= rows <= capacity,
    ensures
        exists|i: int|
            0 <= i < classes_from(1, capacity).len() && rows <= #[trigger] classes_from(
                1,
                capacity,
            )[i] < 2 * rows,
{
    let i = lemma_class(1, capacity, rows);
}

proof fn lemma_class(value: int, capacity: int, rows: int) -> (i: int)
    requires
        1 <= value,
        value < 2 * rows,
        1 <= rows <= capacity,
    ensures
        0 <= i < classes_from(value, capacity).len(),
        rows <= classes_from(value, capacity)[i] < 2 * rows,
    decreases
            if value < capacity {
                capacity - value
            } else {
                0
            },
{
    if value >= capacity {
        assert(classes_from(value, capacity)[0] == capacity);
        0
    } else if value >= rows {
        assert(classes_from(value, capacity)[0] == value);
        0
    } else {
        let i = lemma_class(2 * value, capacity, rows);
        assert(classes_from(value, capacity)[i + 1] == classes_from(2 * value, capacity)[i]);
        i + 1
    }
}

/// Pages of a sequence of `tokens` tokens.
pub open spec fn pages_of(tokens: int, page_tokens: int) -> int {
    (tokens + page_tokens - 1) / page_tokens
}

impl CacheCosts {
    /// Fixed bytes of one sequence: recurrent state, page table, and four bytes of sampling
    /// state for each vocabulary entry.
    pub open spec fn fixed_per_sequence(self) -> int {
        self.private_state_bytes + self.page_table_bytes + self.vocab * 4
    }

    /// Fixed bytes of all active sequences.
    pub open spec fn fixed_capacity(self, config: Qwen36ExecutionConfig) -> int {
        self.fixed_per_sequence() * config.max_active_sequences
    }

    /// Pages of all active sequences.
    pub open spec fn eager_pages(self, config: Qwen36ExecutionConfig) -> int {
        pages_of(config.max_context_tokens as int, self.page_tokens as int)
            * config.max_active_sequences
    }

    /// Bytes of all active sequences.
    pub open spec fn active_capacity(self, config: Qwen36ExecutionConfig) -> int {
        self.fixed_capacity(config) + self.eager_pages(config) * self.page_bytes
    }
}

/// Whether batches keep what a companion model drafts from: there is one, and drafts are asked
/// for.
pub open spec fn companion_drafts(config: Qwen36ExecutionConfig, dflash2: bool) -> bool {
    dflash2 && config.speculative_drafts > 0
}

/// Decides whether the workspaces of all batches capture the companion model's inputs.
pub fn captures_companion(config: &Qwen36ExecutionConfig, dflash2: bool) -> (captures: bool)
    ensures
        captures == companion_drafts(*config, dflash2),
{
    dflash2 && config.speculative_drafts > 0
}

/// Bytes for the retained windows of the companion: an eighth, where it drafts.
pub open spec fn companion_bytes(config: Qwen36ExecutionConfig, dflash2: bool) -> int {
    if companion_drafts(config, dflash2) {
        config.retained_prefix_bytes as int / 8
    } else {
        0
    }
}

/// Bytes for the retained prefixes of the target.
pub open spec fn target_bytes(config: Qwen36ExecutionConfig, dflash2: bool) -> int {
    config.retained_prefix_bytes - companion_bytes(config, dflash2)
}

/// Pages of active sequences and retained prefixes. A quarter of what is retained is set aside
/// for snapshots.
pub open spec fn page_slots(
    costs: CacheCosts,
    config: Qwen36ExecutionConfig,
    dflash2: bool,
) -> int {
    let target = target_bytes(config, dflash2);
    costs.eager_pages(config) + (target - target / 4) / costs.page_bytes as int
}

/// What stands against a plan, if anything, in the order in which it is met.
pub open spec fn plan_obstacle(
    costs: CacheCosts,
    config: Qwen36ExecutionConfig,
    dflash2: bool,
) -> Option<ExecutionError> {
    let target = target_bytes(config, dflash2);
    if costs.vocab * 4 > usize::MAX {
        Some(ExecutionError::SamplingBytes)
    } else if costs.fixed_per_sequence() > usize::MAX {
        Some(ExecutionError::FixedBytes)
    } else if costs.fixed_capacity(config) > usize::MAX {
        Some(ExecutionError::FixedCapacity)
    } else if costs.eager_pages(config) > usize::MAX {
        Some(ExecutionError::ActivePages)
    } else if costs.eager_pages(config) * costs.page_bytes > usize::MAX {
        Some(ExecutionError::ActivePageBytes)
    } else if costs.active_capacity(config) > usize::MAX {
        Some(ExecutionError::ActiveCapacity)
    } else if costs.active_capacity(config) + target > usize::MAX {
        Some(ExecutionError::ManagedBytes)
    } else if page_slots(costs, config, dflash2) > usize::MAX {
        Some(ExecutionError::PageSlots)
    } else if page_slots(costs, config, dflash2) == 0 {
        Some(
            ExecutionError::NoPages {
                fixed_capacity: costs.fixed_capacity(config) as usize,
                snapshot_capacity: (target / 4) as usize,
                managed_bytes: (costs.active_capacity(config) + target) as usize,
            },
        )
    } else {
        None
    }
}

fn div_ceil(value: usize, divisor: usize) -> (quotient: usize)
    requires
        divisor > 0,
    ensures
        quotient == pages_of(value as int, divisor as int),
{
    let whole: usize = value / divisor;
    let rest: usize = value % divisor;
    proof {
        vstd::arithmetic::div_mod::lemma_fundamental_div_mod(value as int, divisor as int);
        let d = divisor as int;
        let q = whole as int;
        assert(q * d == d * q) by (nonlinear_arith);
        if rest == 0 {
            vstd::arithmetic::div_mod::lemma_fundamental_div_mod_converse(
                value + d - 1,
                d,
                q,
                d - 1,
            );
        } else {
            assert(d * (q + 1) == d * q + d) by (nonlinear_arith);
            assert((q + 1) * d == d * (q + 1)) by (nonlinear_arith);
            vstd::arithmetic::div_mod::lemma_fundamental_div_mod_converse(
                value + d - 1,
                d,
                q + 1,
                rest - 1,
            );
            if divisor == 1 {
                assert(rest == 0);
            }
            assert(q < value) by (nonlinear_arith)
                requires
                    value == d * q + rest,
                    rest > 0,
                    d >= 1,
                    q >= 0,
            ;
        }
    }
    if rest == 0 {
        whole
    } else {
        whole + 1
    }
}

/// Plans the sequence cache.
pub fn plan_cache(costs: &CacheCosts, config: &Qwen36ExecutionConfig, dflash2: bool) -> (result:
    Result<CachePlan, ExecutionError>)
    requires
        costs.page_bytes > 0,
        costs.page_tokens > 0,
    ensures
        match result {
            Ok(plan) => {
                let target = target_bytes(*config, dflash2);
                &&& plan_obstacle(*costs, *config, dflash2) is None
                &&& plan.managed_bytes == costs.active_capacity(*config) + target
                &&& plan.snapshot_capacity == target / 4
                &&& plan.max_prefix_entries == if target == 0 {
                    Some(0usize)
                } else {
                    None
                }
                &&& plan.page_slots == page_slots(*costs, *config, dflash2)
                &&& plan.dflash2_retained_bytes == companion_bytes(*config, dflash2)
            },
            Err(error) => plan_obstacle(*costs, *config, dflash2) == Some(error),
        },
{
    let sampling: usize = match costs.vocab.checked_mul(4) {
        Some(bytes) => bytes,
        None => {
            return Err(ExecutionError::SamplingBytes);
        },
    };
    let state: usize = match costs.private_state_bytes.checked_add(costs.page_table_bytes) {
        Some(bytes) => bytes,
        None => {
            return Err(ExecutionError::FixedBytes);
        },
    };
    let fixed: usize = match state.checked_add(sampling) {
        Some(bytes) => bytes,
        None => {
            return Err(ExecutionError::FixedBytes);
        },
    };
    let fixed_capacity: usize = match fixed.checked_mul(config.max_active_sequences) {
        Some(bytes) => bytes,
        None => {
            return Err(ExecutionError::FixedCapacity);
        },
    };
    let pages: usize = div_ceil(config.max_context_tokens, costs.page_tokens);
    let eager_pages: usize = match pages.checked_mul(config.max_active_sequences) {
        Some(pages) => pages,
        None => {
            return Err(ExecutionError::ActivePages);
        },
    };
    let page_bytes: usize = match eager_pages.checked_mul(costs.page_bytes) {
        Some(bytes) => bytes,
        None => {
            return Err(ExecutionError::ActivePageBytes);
        },
    };
    let active_capacity: usize = match fixed_capacity.checked_add(page_bytes) {
        Some(bytes) => bytes,
        None => {
            return Err(ExecutionError::ActiveCapacity);
        },
    };
    let dflash2_retained_bytes: usize = if captures_companion(config, dflash2) {
        config.retained_prefix_bytes / 8
    } else {
        0
    };
    let target: usize = config.retained_prefix_bytes - dflash2_retained_bytes;
    let snapshot_capacity: usize = target / 4;
    let managed_bytes: usize = match active_capacity.checked_add(target) {
        Some(bytes) => bytes,
        None => {
            return Err(ExecutionError::ManagedBytes);
        },
    };
    let retained_pages: usize = (target - snapshot_capacity) / costs.page_bytes;
    let slots: usize = match eager_pages.checked_add(retained_pages) {
        Some(slots) => slots,
        None => {
            return Err(ExecutionError::PageSlots);
        },
    };
    if slots == 0 {
        return Err(
            ExecutionError::NoPages { fixed_capacity, snapshot_capacity, managed_bytes },
        );
    }
    Ok(
        CachePlan {
            managed_bytes,
            snapshot_capacity,
            max_prefix_entries: if target == 0 {
                Some(0)
            } else {
                None
            },
            page_slots: slots,
            dflash2_retained_bytes,
        },
    )
}

/// Every active sequence can be cached in full at once: the planned pages and bytes are enough
/// for all of them.
pub proof fn law_active_sequences_fit(
    costs: CacheCosts,
    config: Qwen36ExecutionConfig,
    dflash2: bool,
)
    requires
        costs.page_bytes > 0,
        costs.page_tokens > 0,
        plan_obstacle(costs, config, dflash2) is None,
    ensures
        page_slots(costs, config, dflash2) >= costs.eager_pages(config),
        costs.active_capacity(config) + target_bytes(config, dflash2) >= costs.fixed_capacity(
            config,
        ) + costs.eager_pages(config) * costs.page_bytes,
{
    let target = target_bytes(config, dflash2);
    assert((target - target / 4) / costs.page_bytes as int >= 0) by (nonlinear_arith)
        requires
            target >= 0,
            costs.page_bytes > 0,
    ;
}

} // verus!
