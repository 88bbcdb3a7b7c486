//! Where the reduction is allowed to go: up to six nodes the user places on
//! the figure.

use vstd::prelude::*;

verus! {

/// How many nodes there are. Six is what a host stores, so six is the answer.
pub const NODES: usize = 6;

/// Where a click on empty figure puts a new node: the first one that is off.
/// When all six are on, nothing — a node somebody placed is never taken away
/// to make room for a click.
pub fn free_node(enabled: &[bool; 6]) -> (free: Option<usize>)
    ensures
        match free {
            Some(index) => index < NODES && !enabled@[index as int] && forall|earlier: int|
                0 <= earlier < index ==> enabled@[earlier],
            None => forall|index: int| 0 <= index < NODES ==> enabled@[index],
        },
{
    let mut index: usize = 0;
    while index < NODES
        invariant
            0 <= index <= NODES,
            forall|earlier: int| 0 <= earlier < index ==> enabled@[earlier],
        decreases NODES - index,
    {
        if !enabled[index] {
            return Some(index);
        }
        index = index + 1;
    }
    None
}

/// **Adding never evicts.** Whatever a click picks was off, so every node
/// that was on before the click is still on after it.
pub proof fn lemma_adding_never_evicts(enabled: [bool; 6], free: Option<usize>, node: int)
    requires
        0 <= node < NODES,
        enabled@[node],
        match free {
            Some(index) => index < NODES && !enabled@[index as int],
            None => true,
        },
    ensures
        match free {
            Some(index) => index != node,
            None => true,
        },
{
}

/// How many of the first `upto` nodes are on.
pub open spec fn enabled_before(enabled: [bool; 6], upto: nat) -> nat
    decreases upto,
{
    if upto == 0 {
        0
    } else {
        enabled_before(enabled, (upto - 1) as nat) + if enabled@[upto - 1] {
            1nat
        } else {
            0nat
        }
    }
}

/// The node behind the `shown`-th point of the figure. The figure draws only
/// the nodes that are on, so its indices count those and skip the rest; a
/// point past the last one is no node at all.
pub fn nth_enabled(enabled: &[bool; 6], shown: usize) -> (node: Option<usize>)
    ensures
        match node {
            Some(index) => index < NODES && enabled@[index as int] && enabled_before(
                *enabled,
                index as nat,
            ) == shown,
            None => enabled_before(*enabled, NODES as nat) <= shown,
        },
        node is None ==> forall|index: int|
            0 <= index < NODES && #[trigger] enabled@[index] ==> enabled_before(
                *enabled,
                index as nat,
            ) < shown,
{
    let mut index: usize = 0;
    let mut seen: usize = 0;
    while index < NODES
        invariant
            0 <= index <= NODES,
            seen == enabled_before(*enabled, index as nat),
            seen <= shown,
            seen <= index,
            forall|earlier: int|
                0 <= earlier < index && #[trigger] enabled@[earlier] ==> enabled_before(
                    *enabled,
                    earlier as nat,
                ) < shown,
        decreases NODES - index,
    {
        if enabled[index] {
            if seen == shown {
                return Some(index);
            }
            seen = seen + 1;
        }
        index = index + 1;
    }
    None
}

/// **The count covers all six nodes.** Counting the first `n` nodes gives at
/// most `n`; with every node on it gives exactly `n`, with every node off
/// none; and each node that is on adds exactly one to the count past it.
pub proof fn lemma_enabled_before_counts(enabled: [bool; 6], n: nat)
    requires
        n <= NODES,
    ensures
        enabled_before(enabled, n) <= n,
        (forall|i: int| 0 <= i < n ==> enabled@[i]) ==> enabled_before(enabled, n) == n,
        (forall|i: int| 0 <= i < n ==> !enabled@[i]) ==> enabled_before(enabled, n) == 0,
        n < NODES && enabled@[n as int] ==> enabled_before(enabled, n + 1) == enabled_before(
            enabled,
            n,
        ) + 1,
        n < NODES && !enabled@[n as int] ==> enabled_before(enabled, n + 1) == enabled_before(
            enabled,
            n,
        ),
    decreases n,
{
    if n > 0 {
        lemma_enabled_before_counts(enabled, (n - 1) as nat);
    }
}

/// **Every node that is on is some point of the figure.** The `k`-th point,
/// counting only the nodes that are on, is found for every `k` below the
/// number of nodes that are on: asking for the point of a node that is on
/// finds that very node.
pub proof fn lemma_every_enabled_node_is_a_point(enabled: [bool; 6], node: int)
    requires
        0 <= node < NODES,
        enabled@[node],
    ensures
        enabled_before(enabled, node as nat) < enabled_before(enabled, NODES as nat),
    decreases NODES - node,
{
    lemma_enabled_before_counts(enabled, node as nat);
    lemma_count_grows(enabled, (node + 1) as nat, NODES as nat);
}

proof fn lemma_count_grows(enabled: [bool; 6], a: nat, b: nat)
    requires
        a <= b <= NODES,
    ensures
        enabled_before(enabled, a) <= enabled_before(enabled, b),
    decreases b,
{
    if b > a {
        lemma_count_grows(enabled, a, (b - 1) as nat);
    }
}

} // verus!
