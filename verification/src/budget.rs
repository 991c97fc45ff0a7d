//! Formatting budget to prevent infinite recursion and excessive memory reads.

use vstd::prelude::*;

verus! {

/// Tracks resource limits during recursive pretty printing.
#[derive(Debug, Clone, Copy, PartialEq, Eq, Structural)]
pub struct FormatBudget {
    /// Maximum recursion depth remaining.
    pub max_depth: u32,
    /// Maximum collection elements remaining.
    pub max_elements: u32,
    /// Maximum total bytes to read from target memory.
    pub max_bytes: usize,
}

/// The smaller of two numbers.
pub open spec fn min_nat(a: nat, b: nat) -> nat {
    if a <= b {
        a
    } else {
        b
    }
}

impl Default for FormatBudget {
    /// Depth 5, 100 elements, 4096 bytes.
    fn default() -> (r: Self)
        ensures
            r == (FormatBudget { max_depth: 5, max_elements: 100, max_bytes: 4096 }),
    {
        FormatBudget { max_depth: 5, max_elements: 100, max_bytes: 4096 }
    }
}

impl FormatBudget {
    /// Create a new budget with custom limits.
    pub fn new(max_depth: u32, max_elements: u32, max_bytes: usize) -> (r: Self)
        ensures
            r == (FormatBudget { max_depth, max_elements, max_bytes }),
    {
        FormatBudget { max_depth, max_elements, max_bytes }
    }

    /// The budget for a nested value: one level shallower, the same element
    /// and byte allowances; none when no depth is left. `self` is unchanged.
    pub fn for_child(&mut self) -> (r: Option<Self>)
        ensures
            *final(self) == *old(self),
            old(self).max_depth == 0 ==> r is None,
            old(self).max_depth > 0 ==> r == Some(
                (FormatBudget { max_depth: (old(self).max_depth - 1) as u32, ..*old(self) }),
            ),
    {
        if self.max_depth == 0 {
            None
        } else {
            Some(
                FormatBudget {
                    max_depth: self.max_depth - 1,
                    max_elements: self.max_elements,
                    max_bytes: self.max_bytes,
                },
            )
        }
    }

    /// Consume up to `requested` elements; returns how many are granted.
    pub fn take_elements(&mut self, requested: u32) -> (allowed: u32)
        ensures
            allowed == min_nat(requested as nat, old(self).max_elements as nat),
            final(self).max_elements == old(self).max_elements - allowed,
            final(self).max_depth == old(self).max_depth,
            final(self).max_bytes == old(self).max_bytes,
    {
        let allowed = if requested < self.max_elements {
            requested
        } else {
            self.max_elements
        };
        self.max_elements = self.max_elements - allowed;
        allowed
    }

    /// Consume up to `requested` bytes; returns how many are granted.
    pub fn take_bytes(&mut self, requested: usize) -> (allowed: usize)
        ensures
            allowed == min_nat(requested as nat, old(self).max_bytes as nat),
            final(self).max_bytes == old(self).max_bytes - allowed,
            final(self).max_depth == old(self).max_depth,
            final(self).max_elements == old(self).max_elements,
    {
        let allowed = if requested < self.max_bytes {
            requested
        } else {
            self.max_bytes
        };
        self.max_bytes = self.max_bytes - allowed;
        allowed
    }

    /// Whether any of the three allowances is used up.
    pub fn is_exhausted(&self) -> (r: bool)
        ensures
            r == (self.max_depth == 0 || self.max_elements == 0 || self.max_bytes == 0),
    {
        self.max_depth == 0 || self.max_elements == 0 || self.max_bytes == 0
    }
}

/// Two successive grants never hand out more than the budget held: what
/// `take_elements` grants in total over two calls is at most the elements the
/// budget started with, and the remainder is exactly what was not granted.
pub proof fn law_take_elements_bounded(start: nat, first: nat, second: nat)
    ensures
        ({
            let a = min_nat(first, start);
            let b = min_nat(second, (start - a) as nat);
            a + b <= start && (start - a - b) + a + b == start
        }),
{
}

/// Two successive `take_bytes` calls never hand out more than the budget
/// held: together they hand out the smaller of what was asked in all and
/// what the budget held, and what is left is the rest.
pub proof fn law_take_bytes_successive(start: nat, first: nat, second: nat)
    ensures
        ({
            let a = min_nat(first, start);
            let b = min_nat(second, (start - a) as nat);
            &&& a + b == min_nat(first + second, start)
            &&& a + b <= start
        }),
{
}

/// Recursion through `for_child` ends: each child budget is one level
/// shallower, so at most `max_depth` nested children exist before
/// `for_child` refuses.
pub proof fn law_child_depth_decreases(b: FormatBudget)
    requires
        b.max_depth > 0,
    ensures
        ((FormatBudget { max_depth: (b.max_depth - 1) as u32, ..b }).max_depth) < b.max_depth,
{
}

} // verus!

verus! {

/// What successive `take_bytes` calls hand out from `left` bytes for the
/// requests `qs`, each as its contract states (the smaller of the request
/// and what is left, then taken off), and what is left after them.
pub open spec fn take_run(left: nat, qs: Seq<nat>) -> (Seq<nat>, nat)
    decreases qs.len(),
{
    if qs.len() == 0 {
        (Seq::empty(), left)
    } else {
        let a = min_nat(qs[0], left);
        let rest = take_run((left - a) as nat, qs.drop_first());
        (seq![a] + rest.0, rest.1)
    }
}

/// The sum of a sequence of amounts.
pub open spec fn total(s: Seq<nat>) -> nat
    decreases s.len(),
{
    if s.len() == 0 {
        0
    } else {
        s[0] + total(s.drop_first())
    }
}

/// Any number of successive `take_bytes` calls: each hands out at most what
/// it asked for; together with what is left they make up the budget they
/// started from; and a call that got less than it asked emptied the
/// budget, so every later call gets nothing (as does every call on an empty
/// budget).
pub proof fn law_take_bytes_run(left: nat, qs: Seq<nat>)
    ensures
        take_run(left, qs).0.len() == qs.len(),
        total(take_run(left, qs).0) + take_run(left, qs).1 == left,
        forall|i: int| 0 <= i < qs.len() ==> #[trigger] take_run(left, qs).0[i] <= qs[i],
        forall|i: int, j: int|
            0 <= i < j < qs.len() && #[trigger] take_run(left, qs).0[i] < qs[i] ==> #[trigger] take_run(
                left,
                qs,
            ).0[j] == 0,
        left == 0 ==> forall|i: int| 0 <= i < qs.len() ==> #[trigger] take_run(left, qs).0[i] == 0,
    decreases qs.len(),
{
    if qs.len() > 0 {
        let a = min_nat(qs[0], left);
        let l2 = (left - a) as nat;
        let q2 = qs.drop_first();
        law_take_bytes_run(l2, q2);
        let rest = take_run(l2, q2);
        let r = take_run(left, qs).0;
        assert(r == seq![a] + rest.0);
        assert(r.drop_first() =~= rest.0);
        assert forall|i: int| 0 <= i < qs.len() implies #[trigger] r[i] <= qs[i] by {
            if i > 0 {
                assert(r[i] == rest.0[i - 1]);
                assert(q2[i - 1] == qs[i]);
            }
        }
        assert forall|i: int, j: int| 0 <= i < j < qs.len() && #[trigger] r[i] < qs[i] implies #[trigger] r[j] == 0 by {
            assert(r[j] == rest.0[j - 1]);
            if i > 0 {
                assert(r[i] == rest.0[i - 1]);
                assert(q2[i - 1] == qs[i]);
                assert(rest.0[i - 1] < q2[i - 1]);
            } else {
                assert(l2 == 0);
            }
        }
        if left == 0 {
            assert forall|i: int| 0 <= i < qs.len() implies #[trigger] r[i] == 0 by {
                if i > 0 {
                    assert(r[i] == rest.0[i - 1]);
                }
            }
        }
    }
}

} // verus!
