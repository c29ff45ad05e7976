//! The order in which the tasks of a configuration are built, started and
//! run within a tick.

use vstd::prelude::*;
use vstd::set_lib::{lemma_int_range, lemma_len_subset, set_int_range};
use crate::config::{incident, lemma_incident, ConfigModel, CuConfig, NodeId};
use crate::error::ConfigError;
use crate::order::as_ints;

verus! {

/// Whether `order` lists every node index of the graph once.
pub open spec fn lists_all_nodes(m: ConfigModel, order: Seq<int>) -> bool {
    &&& order.len() == m.nodes.len()
    &&& forall|i: int| 0 <= i < order.len() ==> 0 <= #[trigger] order[i] < m.nodes.len()
    &&& forall|i: int, j: int| 0 <= i < j < order.len() ==> order[i] != order[j]
}

/// Whether the source of every connection comes before its destination in
/// `order`.
pub open spec fn sources_first(m: ConfigModel, order: Seq<int>) -> bool {
    forall|e: int, i: int, j: int|
        0 <= e < m.edges.len() && 0 <= i < order.len() && 0 <= j < order.len() && #[trigger] order[i]
            == (#[trigger] m.edges[e]).src && #[trigger] order[j] == m.edges[e].dst ==> i < j
}

/// Whether `v` is among the first `k` items of `order`.
pub open spec fn placed(order: Seq<int>, k: int, v: int) -> bool {
    exists|i: int| 0 <= i < k && #[trigger] order[i] == v
}

/// Whether a connection reaches `v` from a node that is not among the first
/// `k` items of `order`.
pub open spec fn waits(m: ConfigModel, order: Seq<int>, k: int, v: int) -> bool {
    exists|e: int|
        0 <= e < m.edges.len() && (#[trigger] m.edges[e]).dst == v && !placed(
            order,
            k,
            m.edges[e].src,
        )
}

/// Whether each position of `order` holds the node with the lowest index
/// among those that can come next: every node with a lower index has come
/// before or still waits for one of its sources.
pub open spec fn lowest_first(m: ConfigModel, order: Seq<int>) -> bool {
    forall|k: int, v: int|
        0 <= k < order.len() && 0 <= v < #[trigger] order[k] ==> #[trigger] placed(order, k, v)
            || waits(m, order, k, v)
}

/// Whether `order` is the order in which the tasks run: a topological order
/// of the graph in which ties go to the lower node index.
pub open spec fn is_execution_order(m: ConfigModel, order: Seq<int>) -> bool {
    &&& lists_all_nodes(m, order)
    &&& sources_first(m, order)
    &&& lowest_first(m, order)
}

/// Whether the connections form no cycle: the nodes can be listed with the
/// source of every connection before its destination.
pub open spec fn acyclic(m: ConfigModel) -> bool {
    exists|order: Seq<int>| lists_all_nodes(m, order) && sources_first(m, order)
}

/// The node indices of a vector as integers.
pub open spec fn node_ints(s: Seq<NodeId>) -> Seq<int> {
    s.map_values(|x: NodeId| x as int)
}

/// A list of all nodes holds each node.
proof fn lemma_listed(m: ConfigModel, order: Seq<int>, v: int)
    requires
        lists_all_nodes(m, order),
        0 <= v < m.nodes.len(),
    ensures
        order.contains(v),
{
    if !order.contains(v) {
        let n = m.nodes.len() as int;
        assert(order.no_duplicates());
        order.unique_seq_to_set();
        lemma_int_range(0, n);
        let rest = set_int_range(0, n).remove(v);
        assert(order.to_set().subset_of(rest)) by {
            assert forall|x: int| order.to_set().contains(x) implies rest.contains(x) by {
                let i = choose|i: int| 0 <= i < order.len() && order[i] == x;
                assert(0 <= order[i] < n);
            }
        }
        lemma_len_subset(order.to_set(), rest);
    }
}

/// The first position up to `t` of `order` whose node is not in `p`.
proof fn lemma_first_outside(order: Seq<int>, p: Seq<int>, t: int) -> (t0: int)
    requires
        0 <= t < order.len(),
        !p.contains(order[t]),
    ensures
        0 <= t0 <= t,
        !p.contains(order[t0]),
        forall|j: int| 0 <= j < t0 ==> p.contains(#[trigger] order[j]),
    decreases t,
{
    if exists|j: int| 0 <= j < t && !p.contains(#[trigger] order[j]) {
        let j = choose|j: int| 0 <= j < t && !p.contains(#[trigger] order[j]);
        lemma_first_outside(order, p, j)
    } else {
        t
    }
}

/// Where some nodes are set aside and each other node is reached from
/// another node that is not set aside, the connections form a cycle.
proof fn lemma_stuck_is_cycle(m: ConfigModel, p: Seq<int>)
    requires
        m.wf(),
        p.len() < m.nodes.len(),
        forall|v: int|
            0 <= v < m.nodes.len() && !p.contains(v) ==> exists|e: int|
                0 <= e < m.edges.len() && (#[trigger] m.edges[e]).dst == v && !p.contains(
                    m.edges[e].src,
                ),
    ensures
        !acyclic(m),
{
    if acyclic(m) {
        let order = choose|order: Seq<int>| lists_all_nodes(m, order) && sources_first(m, order);
        let n = m.nodes.len() as int;
        if forall|t: int| 0 <= t < n ==> p.contains(#[trigger] order[t]) {
            assert(order.no_duplicates());
            order.unique_seq_to_set();
            p.lemma_cardinality_of_set();
            assert(order.to_set().subset_of(p.to_set())) by {
                assert forall|x: int| order.to_set().contains(x) implies p.to_set().contains(
                    x,
                ) by {
                    let i = choose|i: int| 0 <= i < order.len() && order[i] == x;
                    assert(p.contains(order[i]));
                }
            }
            lemma_len_subset(order.to_set(), p.to_set());
            assert(false);
        }
        let t = choose|t: int| 0 <= t < n && !p.contains(#[trigger] order[t]);
        let t0 = lemma_first_outside(order, p, t);
        let w = order[t0];
        let e = choose|e: int|
            0 <= e < m.edges.len() && (#[trigger] m.edges[e]).dst == w && !p.contains(
                m.edges[e].src,
            );
        let u = m.edges[e].src;
        lemma_listed(m, order, u);
        let i = choose|i: int| 0 <= i < order.len() && order[i] == u;
        assert(order[i] == m.edges[e].src && order[t0] == m.edges[e].dst);
        assert(i < t0);
        assert(p.contains(order[i]));
        assert(false);
    }
}

impl CuConfig {
    /// A connection that reaches `v` from a node that is not marked, where
    /// there is one.
    fn unplaced_source(&self, v: NodeId, marks: &Vec<bool>) -> (r: Option<usize>)
        requires
            self@.wf(),
            marks@.len() == self@.nodes.len(),
        ensures
            match r {
                Some(e) => e < self@.edges.len() && self@.edges[e as int].dst == v
                    && !marks@[self@.edges[e as int].src],
                None => forall|e: int|
                    0 <= e < self@.edges.len() && (#[trigger] self@.edges[e]).dst == v
                        ==> marks@[self@.edges[e].src],
            },
    {
        let edges = self.get_dst_edges(v);
        proof {
            lemma_incident(self@.edges, v as int, false);
        }
        let ghost list = incident(self@.edges, v as int, false);
        let mut k: usize = 0;
        while k < edges.len()
            invariant
                k <= edges@.len(),
                self@.wf(),
                marks@.len() == self@.nodes.len(),
                as_ints(edges@) == list,
                list == incident(self@.edges, v as int, false),
                forall|x: int|
                    list.contains(x) <==> (0 <= x < self@.edges.len() && self@.edges[x].end(false)
                        == v),
                forall|j: int|
                    0 <= j < k ==> marks@[self@.edges[(#[trigger] edges@[j]) as int].src],
            decreases edges@.len() - k,
        {
            let e = edges[k];
            assert(as_ints(edges@)[k as int] == e);
            assert(list.contains(list[k as int]));
            match self.get_edge_endpoints(e) {
                Some((src, _)) => {
                    if !marks[src as usize] {
                        return Some(e);
                    }
                },
                None => {},
            }
            k = k + 1;
        }
        proof {
            assert forall|e: int|
                0 <= e < self@.edges.len() && (#[trigger] self@.edges[e]).dst == v
                implies marks@[self@.edges[e].src] by {
                assert(list.contains(e));
                let j = choose|j: int| 0 <= j < list.len() && list[j] == e;
                assert(as_ints(edges@)[j] == e);
                assert(edges@[j] == e);
            }
        }
        None
    }

    /// The lowest node that is not marked and whose sources are all marked,
    /// where there is one.
    fn lowest_ready(&self, marks: &Vec<bool>) -> (r: Option<usize>)
        requires
            self@.wf(),
            marks@.len() == self@.nodes.len(),
            marks@.len() <= u32::MAX,
        ensures
            match r {
                Some(v) => {
                    &&& v < marks@.len()
                    &&& !marks@[v as int]
                    &&& !blocked(self@, marks@, v as int)
                    &&& forall|w: int| 0 <= w < v ==> marks@[w] || #[trigger] blocked(self@, marks@, w)
                },
                None => forall|w: int|
                    0 <= w < marks@.len() ==> marks@[w] || #[trigger] blocked(self@, marks@, w),
            },
    {
        let n = marks.len();
        let mut v: usize = 0;
        while v < n
            invariant
                v <= n,
                n == marks@.len(),
                n == self@.nodes.len(),
                n <= u32::MAX,
                self@.wf(),
                forall|w: int| 0 <= w < v ==> marks@[w] || #[trigger] blocked(self@, marks@, w),
            decreases n - v,
        {
            if !marks[v] {
                match self.unplaced_source(v as NodeId, marks) {
                    Some(e) => {
                        assert(self@.edges[e as int].dst == v);
                        assert(blocked(self@, marks@, v as int));
                    },
                    None => {
                        return Some(v);
                    },
                }
            }
            v = v + 1;
        }
        None
    }

    /// The order in which the tasks are built, started and run within a
    /// tick: the source of every connection comes before its destination,
    /// and where several tasks can come next, the one with the lowest node
    /// index does. Connections that form a cycle allow no such order.
    pub fn execution_order(&self) -> (r: Result<Vec<NodeId>, ConfigError>)
        ensures
            match r {
                Ok(order) => is_execution_order(self@, node_ints(order@)),
                Err(e) => e == ConfigError::Cycle && !acyclic(self@),
            },
    {
        let n = self.node_count();
        self.check_wf();
        let mut marks: Vec<bool> = Vec::new();
        let mut i: usize = 0;
        while i < n
            invariant
                i <= n,
                marks@.len() == i,
                forall|j: int| 0 <= j < i ==> !marks@[j],
            decreases n - i,
        {
            marks.push(false);
            i = i + 1;
        }
        let mut order: Vec<NodeId> = Vec::new();
        let mut k: usize = 0;
        while k < n
            invariant
                k <= n,
                n == self@.nodes.len(),
                n <= u32::MAX,
                self@.wf(),
                marks@.len() == n,
                order@.len() == k,
                grown(self@, node_ints(order@), marks@),
            decreases n - k,
        {
            let ghost before = node_ints(order@);
            let ghost unmarked = marks@;
            match self.lowest_ready(&marks) {
                None => {
                    proof {
                        lemma_nothing_ready_is_cycle(self@, before, unmarked);
                    }
                    return Err(ConfigError::Cycle);
                },
                Some(v) => {
                    marks.set(v, true);
                    order.push(v as NodeId);
                    proof {
                        assert(node_ints(order@) =~= before.push(v as int));
                        lemma_grows(self@, before, unmarked, v as int);
                    }
                },
            }
            k = k + 1;
        }
        proof {
            lemma_grown_is_order(self@, node_ints(order@), marks@);
        }
        Ok(order)
    }
}

/// Whether a connection reaches `w` from a node that is not marked.
pub open spec fn blocked(m: ConfigModel, marks: Seq<bool>, w: int) -> bool {
    exists|e: int|
        0 <= e < m.edges.len() && (#[trigger] m.edges[e]).dst == w && !marks[m.edges[e].src]
}

/// Whether `order` is the beginning of an execution order, with `marks` on
/// the nodes that it holds: it lists distinct nodes, each after all its
/// sources, and each the lowest that could come at its position.
spec fn grown(m: ConfigModel, order: Seq<int>, marks: Seq<bool>) -> bool {
    let k = order.len() as int;
    &&& marks.len() == m.nodes.len()
    &&& forall|v: int| 0 <= v < marks.len() ==> (marks[v] <==> placed(order, k, v))
    &&& forall|j: int| 0 <= j < k ==> 0 <= #[trigger] order[j] < m.nodes.len()
    &&& forall|a: int, b: int| 0 <= a < b < k ==> order[a] != order[b]
    &&& forall|e: int, j: int|
        0 <= e < m.edges.len() && 0 <= j < k && #[trigger] order[j] == (#[trigger] m.edges[e]).dst
            ==> placed(order, j, m.edges[e].src)
    &&& forall|j: int, v: int|
        0 <= j < k && 0 <= v < #[trigger] order[j] ==> #[trigger] placed(order, j, v) || waits(
            m,
            order,
            j,
            v,
        )
}

/// The beginning of an execution order stays one when the lowest node that
/// is ready is put behind it.
proof fn lemma_grows(m: ConfigModel, before: Seq<int>, marks: Seq<bool>, v: int)
    requires
        m.wf(),
        grown(m, before, marks),
        0 <= v < marks.len(),
        !marks[v],
        !blocked(m, marks, v),
        forall|w: int| 0 <= w < v ==> marks[w] || #[trigger] blocked(m, marks, w),
    ensures
        grown(m, before.push(v), marks.update(v, true)),
{
    let k = before.len() as int;
    let after = before.push(v);
    let marked = marks.update(v, true);
    assert forall|w: int| 0 <= w < marked.len() implies (marked[w] <==> placed(after, k + 1, w)) by {
        if placed(before, k, w) {
            let i = choose|i: int| 0 <= i < k && #[trigger] before[i] == w;
            assert(after[i] == w);
        }
        if w == v {
            assert(after[k] == w);
        }
        if placed(after, k + 1, w) {
            let i = choose|i: int| 0 <= i < k + 1 && #[trigger] after[i] == w;
            if i < k {
                assert(before[i] == w);
            }
        }
    }
    assert forall|a: int, b: int| 0 <= a < b < k + 1 implies after[a] != after[b] by {
        assert(before[a] == after[a]);
        if b == k {
            if after[a] == v {
                assert(placed(before, k, v));
            }
        } else {
            assert(before[b] == after[b]);
        }
    }
    assert forall|e: int, j: int|
        0 <= e < m.edges.len() && 0 <= j < k + 1 && #[trigger] after[j] == (#[trigger] m.edges[e]).dst
        implies placed(after, j, m.edges[e].src) by {
        let u = m.edges[e].src;
        if j < k {
            assert(before[j] == after[j]);
            let i = choose|i: int| 0 <= i < j && #[trigger] before[i] == u;
            assert(after[i] == u);
        } else {
            assert(marks[u]);
            let i = choose|i: int| 0 <= i < k && #[trigger] before[i] == u;
            assert(after[i] == u);
        }
    }
    assert forall|j: int, w: int| 0 <= j < k + 1 && 0 <= w < #[trigger] after[j] implies #[trigger] placed(
        after,
        j,
        w,
    ) || waits(m, after, j, w) by {
        lemma_prefix_same(m, before, after, j, w);
        if j < k {
            assert(before[j] == after[j]);
        } else if !marks[w] {
            assert(blocked(m, marks, w));
            let e = choose|e: int|
                0 <= e < m.edges.len() && (#[trigger] m.edges[e]).dst == w && !marks[m.edges[e].src];
            assert(!placed(before, k, m.edges[e].src));
            assert(waits(m, before, k, w));
        }
    }
}

/// The beginning of an execution order behind which no node is ready, and
/// which does not hold all nodes, shows a cycle.
proof fn lemma_nothing_ready_is_cycle(m: ConfigModel, order: Seq<int>, marks: Seq<bool>)
    requires
        m.wf(),
        grown(m, order, marks),
        order.len() < m.nodes.len(),
        forall|w: int| 0 <= w < marks.len() ==> marks[w] || #[trigger] blocked(m, marks, w),
    ensures
        !acyclic(m),
{
    assert forall|w: int| 0 <= w < m.nodes.len() && !order.contains(w) implies exists|e: int|
        0 <= e < m.edges.len() && (#[trigger] m.edges[e]).dst == w && !order.contains(
            m.edges[e].src,
        ) by {
        if marks[w] {
            let i = choose|i: int| 0 <= i < order.len() && #[trigger] order[i] == w;
            assert(order[i] == w);
        }
        assert(blocked(m, marks, w));
        let e = choose|e: int|
            0 <= e < m.edges.len() && (#[trigger] m.edges[e]).dst == w && !marks[m.edges[e].src];
        if order.contains(m.edges[e].src) {
            let i = choose|i: int| 0 <= i < order.len() && order[i] == m.edges[e].src;
            assert(placed(order, order.len() as int, m.edges[e].src));
        }
    }
    lemma_stuck_is_cycle(m, order);
}

/// A beginning of an execution order that holds as many nodes as the graph
/// has is the execution order.
proof fn lemma_grown_is_order(m: ConfigModel, order: Seq<int>, marks: Seq<bool>)
    requires
        grown(m, order, marks),
        order.len() == m.nodes.len(),
    ensures
        is_execution_order(m, order),
{
    assert forall|e: int, i: int, j: int|
        0 <= e < m.edges.len() && 0 <= i < order.len() && 0 <= j < order.len() && #[trigger] order[i]
            == (#[trigger] m.edges[e]).src && #[trigger] order[j] == m.edges[e].dst implies i
        < j by {
        assert(placed(order, j, m.edges[e].src));
        let i2 = choose|i2: int| 0 <= i2 < j && #[trigger] order[i2] == m.edges[e].src;
        if i2 < i {
            assert(order[i2] != order[i]);
        } else if i < i2 {
            assert(order[i] != order[i2]);
        }
    }
}

/// What holds of the first `j` items of a list holds of the same items of a
/// longer list.
proof fn lemma_prefix_same(m: ConfigModel, before: Seq<int>, after: Seq<int>, j: int, w: int)
    requires
        0 <= j <= before.len(),
        before.len() <= after.len(),
        forall|i: int| 0 <= i < before.len() ==> before[i] == after[i],
    ensures
        placed(before, j, w) <==> placed(after, j, w),
        waits(m, before, j, w) <==> waits(m, after, j, w),
{
    assert forall|x: int| placed(before, j, x) <==> placed(after, j, x) by {
        if placed(before, j, x) {
            let i = choose|i: int| 0 <= i < j && #[trigger] before[i] == x;
            assert(after[i] == x);
        }
        if placed(after, j, x) {
            let i = choose|i: int| 0 <= i < j && #[trigger] after[i] == x;
            assert(before[i] == x);
        }
    }
    if waits(m, before, j, w) {
        let e = choose|e: int|
            0 <= e < m.edges.len() && (#[trigger] m.edges[e]).dst == w && !placed(
                before,
                j,
                m.edges[e].src,
            );
        assert(!placed(after, j, m.edges[e].src));
    }
    if waits(m, after, j, w) {
        let e = choose|e: int|
            0 <= e < m.edges.len() && (#[trigger] m.edges[e]).dst == w && !placed(
                after,
                j,
                m.edges[e].src,
            );
        assert(!placed(before, j, m.edges[e].src));
    }
}


/// The three hooks that a task is called with in a tick.
#[derive(Debug, Clone, Copy, PartialEq, Eq, Structural)]
pub enum Hook {
    Preprocess,
    Process,
    Postprocess,
}

/// One call of a tick: a hook of the task at a node index.
#[derive(Debug, Clone, Copy, PartialEq, Eq, Structural)]
pub struct Step {
    pub node: NodeId,
    pub hook: Hook,
}

/// The hook of the call at position `i` of a tick.
pub open spec fn hook_at(i: int) -> Hook {
    if i % 3 == 0 {
        Hook::Preprocess
    } else if i % 3 == 1 {
        Hook::Process
    } else {
        Hook::Postprocess
    }
}

/// The call at position `i` of the tick over `order`.
pub open spec fn step_at(order: Seq<NodeId>, i: int) -> Step {
    Step { node: order[i / 3], hook: hook_at(i) }
}

/// The calls of one tick over `order`: for each task in its turn,
/// `preprocess`, then `process`, then `postprocess`.
pub open spec fn sweep(order: Seq<NodeId>) -> Seq<Step> {
    Seq::new(3 * order.len(), |i: int| step_at(order, i))
}

/// The calls of one tick: one sweep over the tasks in their execution order.
pub fn tick_steps(order: &Vec<NodeId>) -> (r: Vec<Step>)
    requires
        3 * order@.len() <= usize::MAX,
    ensures
        r@ == sweep(order@),
{
    let mut r: Vec<Step> = Vec::new();
    let mut k: usize = 0;
    while k < order.len()
        invariant
            k <= order@.len(),
            r@.len() == 3 * k,
            forall|i: int| 0 <= i < 3 * k ==> r@[i] == step_at(order@, i),
        decreases order@.len() - k,
    {
        r.push(Step { node: order[k], hook: Hook::Preprocess });
        r.push(Step { node: order[k], hook: Hook::Process });
        r.push(Step { node: order[k], hook: Hook::Postprocess });
        k = k + 1;
    }
    assert(r@ =~= sweep(order@));
    r
}

/// Within a tick over an execution order, for every connection the
/// `process` of its source is called, and has returned, before the
/// `preprocess` and the `process` of its destination are called.
pub proof fn lemma_sources_processed_first(
    m: ConfigModel,
    order: Seq<NodeId>,
    e: int,
    i: int,
    j: int,
)
    requires
        is_execution_order(m, node_ints(order)),
        0 <= e < m.edges.len(),
        0 <= i < sweep(order).len(),
        0 <= j < sweep(order).len(),
        sweep(order)[i] == (Step { node: m.edges[e].src as NodeId, hook: Hook::Process }),
        sweep(order)[j].node == m.edges[e].dst,
        0 <= m.edges[e].src <= u32::MAX,
    ensures
        i < j,
{
    let all = node_ints(order);
    assert(all[i / 3] == m.edges[e].src);
    assert(all[j / 3] == m.edges[e].dst);
    assert(i / 3 < j / 3);
}


/// Within a tick over an execution order, each hook of each task is called
/// exactly once.
pub proof fn lemma_each_hook_called_once(m: ConfigModel, order: Seq<NodeId>, v: NodeId, hook: Hook)
    requires
        is_execution_order(m, node_ints(order)),
        v < m.nodes.len(),
    ensures
        exists|i: int|
            0 <= i < sweep(order).len() && #[trigger] sweep(order)[i] == (Step { node: v, hook }),
        forall|i: int, j: int|
            0 <= i < sweep(order).len() && 0 <= j < sweep(order).len() && sweep(order)[i] == (Step {
                node: v,
                hook,
            }) && sweep(order)[j] == (Step { node: v, hook }) ==> i == j,
{
    let all = node_ints(order);
    lemma_listed(m, all, v as int);
    let k = choose|k: int| 0 <= k < all.len() && all[k] == v as int;
    let offset: int = match hook {
        Hook::Preprocess => 0,
        Hook::Process => 1,
        Hook::Postprocess => 2,
    };
    let at = 3 * k + offset;
    assert(at / 3 == k && at % 3 == offset);
    assert(sweep(order)[at] == (Step { node: v, hook }));
    assert forall|i: int, j: int|
        0 <= i < sweep(order).len() && 0 <= j < sweep(order).len() && sweep(order)[i] == (Step {
            node: v,
            hook,
        }) && sweep(order)[j] == (Step { node: v, hook }) implies i == j by {
        assert(all[i / 3] == v as int);
        assert(all[j / 3] == v as int);
        if i / 3 < j / 3 {
            assert(all[i / 3] != all[j / 3]);
        }
        if j / 3 < i / 3 {
            assert(all[j / 3] != all[i / 3]);
        }
        assert(hook_at(i) == hook_at(j));
    }
}


/// Two execution orders of a graph agree up to any position.
proof fn lemma_orders_agree(m: ConfigModel, a: Seq<int>, b: Seq<int>, k: int)
    requires
        m.wf(),
        is_execution_order(m, a),
        is_execution_order(m, b),
        0 <= k <= m.nodes.len(),
    ensures
        forall|i: int| 0 <= i < k ==> a[i] == b[i],
    decreases k,
{
    if k > 0 {
        lemma_orders_agree(m, a, b, k - 1);
        let j = k - 1;
        if a[j] < b[j] {
            lemma_comes_no_earlier(m, a, b, j);
        } else if b[j] < a[j] {
            lemma_comes_no_earlier(m, b, a, j);
        }
    }
}

/// Where two execution orders agree before the position `j`, the node of
/// the first at `j` is not lower than the node of the second.
proof fn lemma_comes_no_earlier(m: ConfigModel, a: Seq<int>, b: Seq<int>, j: int)
    requires
        m.wf(),
        is_execution_order(m, a),
        is_execution_order(m, b),
        0 <= j < m.nodes.len(),
        forall|i: int| 0 <= i < j ==> a[i] == b[i],
    ensures
        a[j] >= b[j],
{
    if a[j] < b[j] {
        let v = a[j];
        assert(placed(b, j, v) || waits(m, b, j, v));
        if placed(b, j, v) {
            let i = choose|i: int| 0 <= i < j && #[trigger] b[i] == v;
            assert(a[i] == a[j]);
        } else {
            let e = choose|e: int|
                0 <= e < m.edges.len() && (#[trigger] m.edges[e]).dst == v && !placed(
                    b,
                    j,
                    m.edges[e].src,
                );
            let u = m.edges[e].src;
            lemma_listed(m, a, u);
            let i = choose|i: int| 0 <= i < a.len() && a[i] == u;
            assert(a[i] == m.edges[e].src && a[j] == m.edges[e].dst);
            assert(i < j);
            assert(b[i] == u);
            assert(placed(b, j, u));
        }
    }
}

/// A graph has at most one execution order: the rule that ties go to the
/// lower node index leaves no choice.
pub proof fn lemma_execution_order_is_unique(m: ConfigModel, a: Seq<int>, b: Seq<int>)
    requires
        m.wf(),
        is_execution_order(m, a),
        is_execution_order(m, b),
    ensures
        a == b,
{
    lemma_orders_agree(m, a, b, m.nodes.len() as int);
    assert(a =~= b);
}

} // verus!
