//! Depth-first topological sorting of a directed graph, with cycle
//! detection.
//!
//! The graph has the nodes `0..n` and is given by adjacency lists:
//! `adj[u]` lists the nodes on which `u` depends. The sort visits nodes
//! depth first. A node is *in progress* while its dependencies are explored
//! and *done* afterwards; it is appended to the order when it is done, so
//! after everything it depends on. Meeting a node that is in progress
//! closes a cycle, which is handed out.

use vstd::prelude::*;

verus! {

/// Every adjacency list names nodes of the graph only.
pub open spec fn graph_wf(adj: Seq<Vec<usize>>) -> bool {
    forall|u: int, k: int|
        0 <= u < adj.len() && 0 <= k < adj[u]@.len() ==> #[trigger] adj[u]@[k] < adj.len()
}

/// `u` depends on `v`.
pub open spec fn edge(adj: Seq<Vec<usize>>, u: int, v: int) -> bool {
    0 <= u < adj.len() && exists|k: int| 0 <= k < adj[u]@.len() && #[trigger] adj[u]@[k] == v
}

/// Each node of `path` depends on the next.
pub open spec fn is_path(adj: Seq<Vec<usize>>, path: Seq<usize>) -> bool {
    forall|k: int|
        0 <= k < path.len() - 1 ==> edge(adj, #[trigger] path[k] as int, path[k + 1] as int)
}

/// `path` leads from a node along at least one dependency back to it.
pub open spec fn is_cycle(adj: Seq<Vec<usize>>, path: Seq<usize>) -> bool {
    path.len() >= 2 && is_path(adj, path) && path[0] == path.last()
}

/// `v` is among the first `limit` entries of `order`.
pub open spec fn listed_before(order: Seq<usize>, limit: int, v: int) -> bool {
    exists|b: int| 0 <= b < limit && b < order.len() && #[trigger] order[b] == v
}

/// `v` is an entry of `order`.
pub open spec fn listed(order: Seq<usize>, v: int) -> bool {
    listed_before(order, order.len() as int, v)
}

/// `order` lists every node once, each behind all nodes it depends on.
pub open spec fn is_topological(adj: Seq<Vec<usize>>, order: Seq<usize>) -> bool {
    &&& forall|a: int| 0 <= a < order.len() ==> #[trigger] order[a] < adj.len()
    &&& forall|a: int, b: int| 0 <= a < b < order.len() ==> order[a] != order[b]
    &&& forall|v: int| 0 <= v < adj.len() ==> #[trigger] listed(order, v)
    &&& forall|a: int, b: int|
        0 <= a < order.len() && 0 <= b < order.len() && edge(
            adj,
            #[trigger] order[a] as int,
            #[trigger] order[b] as int,
        ) ==> b < a
}

/// Along a path in a graph with a topological order, positions in the
/// order strictly fall.
proof fn lemma_path_falls(adj: Seq<Vec<usize>>, order: Seq<usize>, path: Seq<usize>, k: int)
    requires
        graph_wf(adj),
        is_topological(adj, order),
        is_path(adj, path),
        1 <= k < path.len(),
    ensures
        exists|a: int, b: int|
            0 <= a < order.len() && 0 <= b < order.len() && order[a] == path[0] && order[b]
                == path[k] && b + k <= a,
    decreases k,
{
    let u = path[k - 1] as int;
    let v = path[k] as int;
    assert(listed(order, u));
    assert(listed(order, v));
    if k > 1 {
        lemma_path_falls(adj, order, path, k - 1);
    }
}

/// A graph with a topological order has no cycle.
pub proof fn lemma_topological_means_acyclic(
    adj: Seq<Vec<usize>>,
    order: Seq<usize>,
    path: Seq<usize>,
)
    requires
        graph_wf(adj),
        is_topological(adj, order),
    ensures
        !is_cycle(adj, path),
{
    if is_cycle(adj, path) {
        let k = path.len() - 1;
        lemma_path_falls(adj, order, path, k);
    }
}

/// The mark of a node that the search has not reached.
pub open spec fn todo() -> u8 {
    0
}

/// The mark of a node whose dependencies are being explored.
pub open spec fn in_progress() -> u8 {
    1
}

/// The mark of a node that is in the order.
pub open spec fn done() -> u8 {
    2
}

/// State of a depth-first search.
pub struct Search {
    /// The mark of each node.
    pub marks: Vec<u8>,
    /// The nodes that are done, in the order in which they were finished.
    pub order: Vec<usize>,
    /// The nodes in progress, outermost first.
    pub stack: Vec<usize>,
}

/// Number of nodes that the search has not reached yet.
pub open spec fn todo_count(marks: Seq<u8>) -> nat
    decreases marks.len(),
{
    if marks.len() == 0 {
        0
    } else if marks.last() == todo() {
        todo_count(marks.drop_last()) + 1
    } else {
        todo_count(marks.drop_last())
    }
}

/// Marking nodes as reached does not raise the number of those that are
/// not, and lowers it where a node is newly reached.
proof fn lemma_todo_count(before: Seq<u8>, after: Seq<u8>)
    requires
        before.len() == after.len(),
        forall|v: int| 0 <= v < before.len() && before[v] != todo() ==> after[v] != todo(),
    ensures
        todo_count(after) <= todo_count(before),
        (exists|u: int| 0 <= u < before.len() && before[u] == todo() && after[u] != todo())
            ==> todo_count(after) < todo_count(before),
    decreases before.len(),
{
    if before.len() > 0 {
        lemma_todo_count(before.drop_last(), after.drop_last());
        if exists|u: int| 0 <= u < before.len() && before[u] == todo() && after[u] != todo() {
            let u = choose|u: int| 0 <= u < before.len() && before[u] == todo() && after[u] != todo();
            if u < before.len() - 1 {
                assert(before.drop_last()[u] == todo() && after.drop_last()[u] != todo());
            }
        }
    }
}

impl Search {
    /// What holds of a search between two visits.
    pub open spec fn inv(&self, adj: Seq<Vec<usize>>) -> bool {
        let marks = self.marks@;
        let order = self.order@;
        let stack = self.stack@;
        &&& marks.len() == adj.len()
        &&& forall|v: int| 0 <= v < marks.len() ==> #[trigger] marks[v] <= done()
        &&& forall|a: int| 0 <= a < order.len() ==> #[trigger] order[a] < adj.len()
        &&& forall|a: int| 0 <= a < order.len() ==> marks[#[trigger] order[a] as int] == done()
        &&& forall|a: int, b: int| 0 <= a < b < order.len() ==> order[a] != order[b]
        &&& forall|v: int| 0 <= v < adj.len() && #[trigger] marks[v] == done() ==> listed(order, v)
        &&& forall|a: int, k: int|
            0 <= a < order.len() && 0 <= k < adj[order[a] as int]@.len() ==> listed_before(
                order,
                a,
                #[trigger] adj[order[a] as int]@[k] as int,
            )
        &&& forall|s: int| 0 <= s < stack.len() ==> #[trigger] stack[s] < adj.len()
        &&& forall|s: int| 0 <= s < stack.len() ==> marks[#[trigger] stack[s] as int] == in_progress()
        &&& forall|v: int|
            0 <= v < adj.len() && #[trigger] marks[v] == in_progress() ==> listed(stack, v)
        &&& is_path(adj, stack)
    }

    /// `self` continues the search `before`: nodes that were reached keep
    /// their marks, and the order has only grown.
    pub open spec fn continues(&self, before: &Search) -> bool {
        &&& self.marks@.len() == before.marks@.len()
        &&& forall|v: int|
            0 <= v < before.marks@.len() && before.marks@[v] != todo() ==> #[trigger] self.marks@[v]
                == before.marks@[v]
        &&& forall|v: int|
            0 <= v < before.marks@.len() ==> #[trigger] self.marks@[v] == before.marks@[v]
                || self.marks@[v] == done()
        &&& self.stack@ == before.stack@
        &&& before.order@.len() <= self.order@.len()
        &&& forall|a: int| 0 <= a < before.order@.len() ==> #[trigger] self.order@[a] == before.order@[a]
    }
}

/// The cycle that closes when the node on top of the stack turns out to
/// depend on the node `v` further down.
fn close_cycle(adj: &Vec<Vec<usize>>, search: &Search, v: usize) -> (cycle: Vec<usize>)
    requires
        graph_wf(adj@),
        search.inv(adj@),
        v < adj@.len(),
        search.marks@[v as int] == in_progress(),
        search.stack@.len() > 0,
        edge(adj@, search.stack@.last() as int, v as int),
    ensures
        is_cycle(adj@, cycle@),
        cycle@[0] == v,
{
    let mut j: usize = 0;
    while j < search.stack.len() && search.stack[j] != v
        invariant
            j <= search.stack@.len(),
            forall|s: int| 0 <= s < j ==> search.stack@[s] != v,
        decreases search.stack@.len() - j,
    {
        j += 1;
    }
    let mut cycle: Vec<usize> = Vec::new();
    let mut k: usize = j;
    while k < search.stack.len()
        invariant
            j <= k <= search.stack@.len(),
            cycle@ == search.stack@.subrange(j as int, k as int),
        decreases search.stack@.len() - k,
    {
        cycle.push(search.stack[k]);
        k += 1;
    }
    cycle.push(v);
    cycle
}

/// Explores everything that `u` depends on, then marks `u` as done and
/// appends it to the order; or hands out a cycle that it runs into.
fn visit(adj: &Vec<Vec<usize>>, search: &mut Search, u: usize) -> (r: Result<(), Vec<usize>>)
    requires
        graph_wf(adj@),
        old(search).inv(adj@),
        u < adj@.len(),
        old(search).marks@[u as int] == todo(),
        old(search).stack@.len() > 0 ==> edge(adj@, old(search).stack@.last() as int, u as int),
    ensures
        match r {
            Ok(_) => {
                &&& final(search).inv(adj@)
                &&& final(search).continues(old(search))
                &&& final(search).marks@[u as int] == done()
            },
            Err(cycle) => is_cycle(adj@, cycle@),
        },
    decreases todo_count(old(search).marks@),
{
    let ghost before = *search;
    search.marks.set(u, 1);
    search.stack.push(u);
    proof {
        lemma_todo_count(before.marks@, search.marks@);
        assert forall|v: int|
            0 <= v < adj@.len() && #[trigger] search.marks@[v] == in_progress() implies listed(
            search.stack@,
            v,
        ) by {
            if v == u {
                assert(search.stack@[search.stack@.len() - 1] == u);
            } else {
                let s = choose|s: int|
                    0 <= s < before.stack@.len() && s < before.stack@.len()
                        && #[trigger] before.stack@[s] == v;
                assert(search.stack@[s] == v);
            }
        }
    }
    let ghost opened = *search;
    let mut i: usize = 0;
    while i < adj[u].len()
        invariant
            graph_wf(adj@),
            u < adj@.len(),
            i <= adj@[u as int]@.len(),
            search.inv(adj@),
            opened.inv(adj@),
            search.continues(&opened),
            opened.stack@ == before.stack@.push(u),
            opened.marks@ == before.marks@.update(u as int, in_progress()),
            opened.order@ == before.order@,
            before.marks@[u as int] == todo(),
            before.marks@.len() == adj@.len(),
            before.marks@ == old(search).marks@,
            todo_count(opened.marks@) < todo_count(before.marks@),
            forall|k: int| 0 <= k < i ==> search.marks@[#[trigger] adj@[u as int]@[k] as int] == done(),
        decreases adj@[u as int]@.len() - i,
    {
        let v = adj[u][i];
        if search.marks[v] == 1 {
            return Err(close_cycle(adj, search, v));
        } else if search.marks[v] == 0 {
            proof {
                lemma_todo_count(opened.marks@, search.marks@);
            }
            match visit(adj, search, v) {
                Err(cycle) => {
                    return Err(cycle);
                },
                Ok(_) => {},
            }
        } else {
            assert(search.marks@[v as int] == done()) by {
                if search.marks@[v as int] != done() {
                    assert(opened.marks@[v as int] == search.marks@[v as int] || search.marks@[v as int]
                        == done());
                }
            }
        }
        i += 1;
    }
    let ghost explored = *search;
    search.stack.pop();
    search.marks.set(u, 2);
    search.order.push(u);
    proof {
        assert(search.stack@ =~= before.stack@);
        let order = search.order@;
        let last = order.len() - 1;
        // every done node is in the order
        assert forall|v: int|
            0 <= v < adj@.len() && #[trigger] search.marks@[v] == done() implies listed(order, v) by {
            if v == u {
                assert(order[last] == v);
            } else {
                let a = choose|a: int|
                    0 <= a < explored.order@.len() && a < explored.order@.len()
                        && #[trigger] explored.order@[a] == v;
                assert(order[a] == v);
            }
        }
        // every node of the order comes behind what it depends on
        assert forall|a: int, k: int|
            0 <= a < order.len() && 0 <= k < adj@[order[a] as int]@.len() implies listed_before(
            order,
            a,
            #[trigger] adj@[order[a] as int]@[k] as int,
        ) by {
            if a == last {
                let w = adj@[u as int]@[k];
                let b = choose|b: int|
                    0 <= b < explored.order@.len() && b < explored.order@.len()
                        && #[trigger] explored.order@[b] == w;
                assert(order[b] == w);
            } else {
                let w = adj@[explored.order@[a] as int]@[k];
                let b = choose|b: int|
                    0 <= b < a && b < explored.order@.len() && #[trigger] explored.order@[b] == w;
                assert(order[b] == w);
            }
        }
        // the stack holds exactly the nodes in progress
        assert forall|v: int|
            0 <= v < adj@.len() && #[trigger] search.marks@[v] == in_progress() implies listed(
            search.stack@,
            v,
        ) by {}
    }
    Ok(())
}

/// Sorts the nodes of a graph topologically.
///
/// Returns an order in which every node stands behind all nodes that it
/// depends on, or a cycle of the graph. An order is returned exactly if the
/// graph has no cycle.
pub fn sort(adj: &Vec<Vec<usize>>) -> (r: Result<Vec<usize>, Vec<usize>>)
    requires
        graph_wf(adj@),
    ensures
        match r {
            Ok(order) => is_topological(adj@, order@) && forall|path: Seq<usize>|
                !is_cycle(adj@, path),
            Err(cycle) => is_cycle(adj@, cycle@),
        },
{
    let n = adj.len();
    let mut marks: Vec<u8> = Vec::new();
    let mut filled: usize = 0;
    while filled < n
        invariant
            filled <= n,
            marks@.len() == filled,
            forall|v: int| 0 <= v < filled ==> marks@[v] == todo(),
        decreases n - filled,
    {
        marks.push(0);
        filled += 1;
    }
    let mut search = Search { marks, order: Vec::new(), stack: Vec::new() };
    let mut u: usize = 0;
    while u < n
        invariant
            n == adj@.len(),
            u <= n,
            graph_wf(adj@),
            search.inv(adj@),
            search.stack@.len() == 0,
            forall|v: int| 0 <= v < u ==> search.marks@[v] == done(),
        decreases n - u,
    {
        if search.marks[u] == 0 {
            match visit(adj, &mut search, u) {
                Err(cycle) => {
                    return Err(cycle);
                },
                Ok(_) => {},
            }
        }
        u += 1;
    }
    proof {
        let order = search.order@;
        assert forall|a: int, b: int|
            0 <= a < order.len() && 0 <= b < order.len() && edge(
                adj@,
                #[trigger] order[a] as int,
                #[trigger] order[b] as int,
            ) implies b < a by {}
        assert forall|v: int| 0 <= v < adj@.len() implies #[trigger] listed(order, v) by {
            assert(search.marks@[v] == done());
        }
        assert forall|path: Seq<usize>| !is_cycle(adj@, path) by {
            lemma_topological_means_acyclic(adj@, order, path);
        }
    }
    Ok(search.order)
}

} // verus!
