//! Cooperative scheduling budget.
//!
//! Each task poll is granted a budget of operations. An operation that finds its
//! resource ready consumes one unit; when the budget runs out the operation yields
//! the task, which is woken at once and gets a full new budget with its next poll.
//! Root futures and unconstrained futures run with no budget at all.

use crate::poll::Poll;
use vstd::prelude::*;

verus! {

/// Operations granted to one task poll.
pub const BUDGET: u8 = 128;

/// The budget of one thread: what is left of it, or nothing where operations are
/// not counted.
#[derive(Debug, Clone, Copy, PartialEq, Eq, Structural)]
pub struct Budget {
    pub remaining: Option<u8>,
}

/// The budget that was in force before a guard was armed.
#[derive(Debug, Clone, Copy, PartialEq, Eq, Structural)]
pub struct BudgetGuard {
    pub previous: Option<u8>,
}

/// The budget outside of any task poll.
pub fn unarmed() -> (budget: Budget)
    ensures
        budget.remaining is None,
{
    Budget { remaining: None }
}

/// Arms a fresh budget for a task poll. Releasing the guard puts the old budget
/// back.
pub fn budget_guard(budget: &mut Budget) -> (guard: BudgetGuard)
    ensures
        guard.previous == old(budget).remaining,
        final(budget).remaining == Some(BUDGET),
{
    let previous = budget.remaining;
    budget.remaining = Some(BUDGET);
    BudgetGuard { previous }
}

impl BudgetGuard {
    /// Puts the old budget back.
    pub fn release(self, budget: &mut Budget)
        ensures
            final(budget).remaining == self.previous,
    {
        budget.remaining = self.previous;
    }
}

/// Whether nothing is left of a budget.
pub open spec fn exhausted(budget: Budget) -> bool {
    budget.remaining == Some(0u8)
}

/// A budget after one operation.
pub open spec fn spent(budget: Budget) -> Budget {
    match budget.remaining {
        Some(remaining) => if remaining == 0 {
            budget
        } else {
            Budget { remaining: Some((remaining - 1) as u8) }
        },
        None => budget,
    }
}

/// Consumes one unit of budget. An exhausted budget yields the task, which the
/// caller wakes at once. Unconstrained contexts always proceed.
pub fn poll_proceed(budget: &mut Budget) -> (poll: Poll<()>)
    ensures
        poll is Pending <==> exhausted(*old(budget)),
        *final(budget) == spent(*old(budget)),
{
    match budget.remaining {
        None => Poll::Ready(()),
        Some(remaining) => {
            if remaining == 0 {
                Poll::Pending
            } else {
                budget.remaining = Some(remaining - 1);
                Poll::Ready(())
            }
        },
    }
}

/// Whether the calling context still has budget. Always `true` outside a task and
/// inside an unconstrained future.
pub fn has_budget_remaining(budget: &Budget) -> (result: bool)
    ensures
        result == !exhausted(*budget),
{
    match budget.remaining {
        None => true,
        Some(remaining) => remaining > 0,
    }
}

/// Runs `poll` without a budget, and puts the budget of the caller back.
pub fn unconstrained<T, F: FnOnce(&mut Budget) -> T>(budget: &mut Budget, poll: F) -> (result: T)
    requires
        forall|inner: &mut Budget| inner.remaining is None ==> #[trigger] poll.requires((inner,)),
    ensures
        *final(budget) == *old(budget),
        exists|inner: &mut Budget|
            inner.remaining is None && #[trigger] poll.ensures((inner,), result),
{
    let mut inner = Budget { remaining: None };
    poll(&mut inner)
}

/// A budget after a number of operations.
pub open spec fn after_operations(budget: Budget, operations: nat) -> Budget
    decreases operations,
{
    if operations == 0 {
        budget
    } else {
        spent(after_operations(budget, (operations - 1) as nat))
    }
}

/// A fresh budget admits exactly as many operations as it grants: each of them
/// proceeds, and every later one yields.
pub proof fn law_budget_is_exact(operations: nat)
    ensures
        after_operations(Budget { remaining: Some(BUDGET) }, operations).remaining == Some(
            (if operations < BUDGET {
                BUDGET - operations
            } else {
                0
            }) as u8,
        ),
    decreases operations,
{
    if operations > 0 {
        law_budget_is_exact((operations - 1) as nat);
    }
}

/// Operations without a budget never run out.
pub proof fn law_unconstrained_never_yields(operations: nat)
    ensures
        !exhausted(after_operations(Budget { remaining: None }, operations)),
        after_operations(Budget { remaining: None }, operations).remaining is None,
    decreases operations,
{
    if operations > 0 {
        law_unconstrained_never_yields((operations - 1) as nat);
    }
}

} // verus!
