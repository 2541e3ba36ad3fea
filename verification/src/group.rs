//! The `GroupVars` accumulator: a small monoid recording whether a rendered
//! subtree carried real variable-backed content.

use vstd::prelude::*;

verus! {

/// Three-valued accumulator recording whether a subtree carried real
/// (non-empty) variable-backed content.  `Plain` is the neutral element,
/// `Important` dominates everything, and `Missing` records a variable that
/// was attempted but rendered nothing.
#[derive(Debug, Clone, Copy, PartialEq, Eq, Structural)]
pub enum GroupVars {
    /// Only content that is not backed by a variable has been seen.
    Plain,
    /// A variable was consulted but produced no output.
    Missing,
    /// A variable produced real output; the subtree is meaningful.
    Important,
}

/// Dominance merge for two accumulator values: `Important` wins over
/// everything, `Missing` wins over `Plain`, and `Plain` is neutral.
pub open spec fn gv_neighbour(a: GroupVars, b: GroupVars) -> GroupVars {
    if a == GroupVars::Important || b == GroupVars::Important {
        GroupVars::Important
    } else if a == GroupVars::Missing || b == GroupVars::Missing {
        GroupVars::Missing
    } else {
        GroupVars::Plain
    }
}

impl GroupVars {
    /// The neutral starting value of an accumulation.
    pub fn new() -> (r: GroupVars)
        ensures
            r == GroupVars::Plain,
    {
        GroupVars::Plain
    }

    /// Fold one sibling's accumulator value into this one.
    pub fn neighbour(self, other: GroupVars) -> (r: GroupVars)
        ensures
            r == gv_neighbour(self, other),
    {
        match self {
            GroupVars::Important => GroupVars::Important,
            GroupVars::Missing => match other {
                GroupVars::Important => GroupVars::Important,
                _ => GroupVars::Missing,
            },
            GroupVars::Plain => other,
        }
    }
}

/// The merge is commutative: folding siblings in either order gives the
/// same accumulator value.
pub proof fn lemma_gv_neighbour_commutative(a: GroupVars, b: GroupVars)
    ensures
        gv_neighbour(a, b) == gv_neighbour(b, a),
{
}

/// The merge is associative, so folding a sibling list left to right is
/// insensitive to how the list is bracketed.
pub proof fn lemma_gv_neighbour_associative(a: GroupVars, b: GroupVars, c: GroupVars)
    ensures
        gv_neighbour(gv_neighbour(a, b), c) == gv_neighbour(a, gv_neighbour(b, c)),
{
}

/// `Plain` is the neutral element of the merge.
pub proof fn lemma_gv_neighbour_neutral(a: GroupVars)
    ensures
        gv_neighbour(GroupVars::Plain, a) == a,
        gv_neighbour(a, GroupVars::Plain) == a,
{
}

} // verus!
