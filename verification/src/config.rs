//! The configuration graph: tasks, their connections, and the monitor and
//! logging settings.

use petgraph::stable_graph::StableGraph;
use petgraph::{Directed, Direction};
use vstd::prelude::*;
use crate::cnx::{Cnx, CnxModel};
use crate::component_config::ComponentConfig;
use crate::error::ConfigError;
use crate::graph::{
    graph_add_edge, graph_add_node, graph_clone, graph_edge_count, graph_edge_endpoints,
    graph_edge_indices, graph_edge_weight, graph_edges, graph_edges_directed, graph_new,
    graph_node_count, graph_node_indices, graph_node_weight, graph_node_weight_mut, graph_nodes,
    is_edge, is_node, is_outgoing, touches, EdgeModel,
};
use crate::logging::LoggingConfig;
use crate::monitor::{MonitorConfig, MonitorModel};
use crate::node::{Node, NodeModel};
use crate::order::{as_ints, increasing, lemma_increasing_unique, sort_distinct};
use crate::outside::str_equal;

verus! {

/// The index of a node in the configuration graph.
pub type NodeId = u32;

/// The mathematical content of a [`CuConfig`].
pub struct ConfigModel {
    /// The tasks, by node index.
    pub nodes: Seq<NodeModel>,
    /// The connections, by edge index.
    pub edges: Seq<EdgeModel>,
    /// The monitor setting, where there is one.
    pub monitor: Option<MonitorModel>,
    /// The logging setting, where there is one.
    pub logging: Option<LoggingConfig>,
}

impl EdgeModel {
    /// The node at which the edge starts (`outgoing`) or ends.
    pub open spec fn end(self, outgoing: bool) -> int {
        if outgoing {
            self.src
        } else {
            self.dst
        }
    }
}

/// The indices of the edges that leave `v` (`outgoing`) or reach it, in the
/// order in which the edges were added.
pub open spec fn incident(edges: Seq<EdgeModel>, v: int, outgoing: bool) -> Seq<int>
    decreases edges.len(),
{
    if edges.len() == 0 {
        Seq::empty()
    } else {
        let rest = incident(edges.drop_last(), v, outgoing);
        if edges.last().end(outgoing) == v {
            rest.push(edges.len() - 1)
        } else {
            rest
        }
    }
}

/// Whether `i` is the lowest index of a node with the identifier `id`.
pub open spec fn is_first_with_id(nodes: Seq<NodeModel>, id: Seq<char>, i: int) -> bool {
    &&& 0 <= i < nodes.len()
    &&& nodes[i].id == id
    &&& forall|j: int| 0 <= j < i ==> (#[trigger] nodes[j]).id != id
}

/// The lowest index of a node with the identifier `id`, where there is one.
pub open spec fn find_node(nodes: Seq<NodeModel>, id: Seq<char>) -> Option<int> {
    if exists|i: int| is_first_with_id(nodes, id, i) {
        Some(choose|i: int| is_first_with_id(nodes, id, i))
    } else {
        None
    }
}

impl ConfigModel {
    /// Whether every connection joins two tasks of the graph.
    pub open spec fn wf(self) -> bool {
        forall|e: int|
            0 <= e < self.edges.len() ==> 0 <= (#[trigger] self.edges[e]).src < self.nodes.len()
                && 0 <= self.edges[e].dst < self.nodes.len()
    }

    /// The edge indices of the connections that leave the node `v`, in the
    /// order in which they were connected.
    pub open spec fn edges_from(self, v: int) -> Seq<int> {
        incident(self.edges, v, true)
    }

    /// The edge indices of the connections that reach the node `v`, in the
    /// order in which they were connected.
    pub open spec fn edges_to(self, v: int) -> Seq<int> {
        incident(self.edges, v, false)
    }

    /// The message type of the first connection that leaves (`outgoing`) or
    /// reaches the first node with the identifier `id`.
    pub open spec fn first_msg(self, id: Seq<char>, outgoing: bool) -> Seq<char>
        recommends
            find_node(self.nodes, id) is Some,
            incident(self.edges, find_node(self.nodes, id)->Some_0, outgoing).len() > 0,
    {
        self.edges[incident(self.edges, find_node(self.nodes, id)->Some_0, outgoing)[0]].cnx.msg
    }
}

/// The incident edges of a node are listed from the lowest index to the
/// highest, each once, and they are exactly the edges with that end.
pub proof fn lemma_incident(edges: Seq<EdgeModel>, v: int, outgoing: bool)
    ensures
        increasing(incident(edges, v, outgoing)),
        forall|x: int|
            incident(edges, v, outgoing).contains(x) <==> (0 <= x < edges.len() && edges[x].end(
                outgoing,
            ) == v),
    decreases edges.len(),
{
    let r = incident(edges, v, outgoing);
    if edges.len() == 0 {
        assert forall|x: int| r.contains(x) <==> (0 <= x < edges.len() && edges[x].end(outgoing)
            == v) by {
            if r.contains(x) {
                let i = choose|i: int| 0 <= i < r.len() && r[i] == x;
            }
        }
    } else {
        let front = edges.drop_last();
        let rest = incident(front, v, outgoing);
        lemma_incident(front, v, outgoing);
        let last = edges.len() - 1;
        assert forall|x: int| r.contains(x) <==> (0 <= x < edges.len() && edges[x].end(outgoing)
            == v) by {
            if r.contains(x) {
                let i = choose|i: int| 0 <= i < r.len() && r[i] == x;
                if i < rest.len() {
                    assert(rest[i] == x);
                    assert(rest.contains(x));
                    assert(front[x] == edges[x]);
                }
            }
            if 0 <= x < edges.len() && edges[x].end(outgoing) == v {
                if x == last {
                    assert(r[rest.len() as int] == x);
                } else {
                    assert(front[x] == edges[x]);
                    assert(rest.contains(x));
                    let i = choose|i: int| 0 <= i < rest.len() && rest[i] == x;
                    assert(r[i] == x);
                }
            }
        }
        assert forall|i: int, j: int| 0 <= i < j < r.len() implies r[i] < r[j] by {
            assert(rest.contains(rest[i]));
            if j < rest.len() {
            } else {
            }
        }
    }
}

/// Connecting two tasks gives the new connection the next edge index, and
/// adds that index behind those of the source's outgoing and of the
/// destination's incoming connections; the lists of the other nodes stay as
/// they are.
pub proof fn lemma_connect_appends(edges: Seq<EdgeModel>, e: EdgeModel, v: int, outgoing: bool)
    ensures
        incident(edges.push(e), v, outgoing) == if e.end(outgoing) == v {
            incident(edges, v, outgoing).push(edges.len() as int)
        } else {
            incident(edges, v, outgoing)
        },
{
    assert(edges.push(e).drop_last() =~= edges);
}

/// The configuration graph, with the monitor and logging settings.
pub struct CuConfig {
    graph: StableGraph<Node, Cnx, Directed, u32>,
    monitor: Option<MonitorConfig>,
    logging: Option<LoggingConfig>,
}

impl View for CuConfig {
    type V = ConfigModel;

    closed spec fn view(&self) -> ConfigModel {
        ConfigModel {
            nodes: Seq::new(
                graph_nodes(self.graph).len(),
                |i: int| graph_nodes(self.graph)[i]->Some_0,
            ),
            edges: Seq::new(
                graph_edges(self.graph).len(),
                |e: int| graph_edges(self.graph)[e]->Some_0,
            ),
            monitor: match self.monitor {
                Some(m) => Some(m@),
                None => None,
            },
            logging: self.logging,
        }
    }
}

impl CuConfig {
    #[verifier::type_invariant]
    spec fn dense(&self) -> bool {
        &&& forall|i: int|
            0 <= i < graph_nodes(self.graph).len() ==> (#[trigger] graph_nodes(self.graph)[i])
                is Some
        &&& forall|e: int|
            0 <= e < graph_edges(self.graph).len() ==> (#[trigger] graph_edges(self.graph)[e])
                is Some
        &&& graph_nodes(self.graph).len() <= u32::MAX
        &&& graph_edges(self.graph).len() <= u32::MAX
        &&& self@.wf()
    }

    /// A configuration without tasks, connections and settings.
    pub fn new() -> (r: Self)
        ensures
            r@ == (ConfigModel {
                nodes: Seq::empty(),
                edges: Seq::empty(),
                monitor: None,
                logging: None,
            }),
    {
        let r = CuConfig { graph: graph_new(), monitor: None, logging: None };
        assert(r@.nodes =~= Seq::empty());
        assert(r@.edges =~= Seq::empty());
        r
    }

    /// Adds a task and returns its index: the number of tasks added before.
    pub fn add_node(&mut self, node: Node) -> (id: NodeId)
        requires
            old(self)@.nodes.len() < u32::MAX,
        ensures
            id == old(self)@.nodes.len(),
            final(self)@ == (ConfigModel { nodes: old(self)@.nodes.push(node@), ..old(self)@ }),
            final(self)@.wf(),
    {
        proof {
            use_type_invariant(&*self);
        }
        let ghost before = self@;
        let mut graph = graph_new();
        std::mem::swap(&mut self.graph, &mut graph);
        let id = graph_add_node(&mut graph, node);
        self.graph = graph;
        assert(self@.nodes =~= before.nodes.push(node@));
        assert(self@.edges =~= before.edges);
        id
    }

    /// The task at index `node_id`, where there is one.
    pub fn get_node(&self, node_id: NodeId) -> (r: Option<&Node>)
        ensures
            match r {
                Some(node) => node_id < self@.nodes.len() && node@ == self@.nodes[node_id as int],
                None => node_id >= self@.nodes.len(),
            },
    {
        proof {
            use_type_invariant(self);
        }
        graph_node_weight(&self.graph, node_id)
    }

    /// The task at index `node_id` to be changed in place, where there is
    /// one. The other tasks, the connections and the settings stay as they
    /// are.
    pub fn get_node_mut(&mut self, node_id: NodeId) -> (r: Option<&mut Node>)
        ensures
            match r {
                Some(node) => node_id < old(self)@.nodes.len() && node@ == old(
                    self,
                )@.nodes[node_id as int] && final(self)@.nodes == old(self)@.nodes.update(
                    node_id as int,
                    final(node)@,
                ),
                None => node_id >= old(self)@.nodes.len() && final(self)@.nodes == old(
                    self,
                )@.nodes,
            },
            final(self)@.edges == old(self)@.edges,
            final(self)@.monitor == old(self)@.monitor,
            final(self)@.logging == old(self)@.logging,
    {
        proof {
            use_type_invariant(&*self);
        }
        graph_node_weight_mut(&mut self.graph, node_id)
    }

    /// Connects the task at `source` to the task at `target` and returns the
    /// connection's edge index: the number of connections made before.
    pub fn connect_ext(
        &mut self,
        source: NodeId,
        target: NodeId,
        msg_type: &str,
        batch: Option<u32>,
        store: Option<bool>,
    ) -> (id: usize)
        requires
            source < old(self)@.nodes.len(),
            target < old(self)@.nodes.len(),
            old(self)@.edges.len() < u32::MAX,
        ensures
            id == old(self)@.edges.len(),
            final(self)@ == (ConfigModel {
                edges: old(self)@.edges.push(
                    EdgeModel {
                        src: source as int,
                        dst: target as int,
                        cnx: CnxModel {
                            src: old(self)@.nodes[source as int].id,
                            dst: old(self)@.nodes[target as int].id,
                            msg: msg_type@,
                            batch,
                            store,
                        },
                    },
                ),
                ..old(self)@
            }),
            final(self)@.wf(),
    {
        proof {
            use_type_invariant(&*self);
        }
        let ghost before = self@;
        let src = match graph_node_weight(&self.graph, source) {
            Some(node) => node.get_id(),
            None => String::new(),
        };
        let dst = match graph_node_weight(&self.graph, target) {
            Some(node) => node.get_id(),
            None => String::new(),
        };
        let cnx = Cnx::new(src, dst, String::from_str(msg_type), batch, store);
        let ghost edge = EdgeModel { src: source as int, dst: target as int, cnx: cnx@ };
        let ghost slots = graph_edges(self.graph);
        let mut graph = graph_new();
        std::mem::swap(&mut self.graph, &mut graph);
        let id = graph_add_edge(&mut graph, source, target, cnx);
        proof {
            assert(graph_edges(graph) =~= slots.push(Some(edge)));
            assert forall|e: int| 0 <= e < graph_edges(graph).len() implies {
                let x = (#[trigger] graph_edges(graph)[e])->Some_0;
                0 <= x.src < before.nodes.len() && 0 <= x.dst < before.nodes.len()
            } by {
                if e < slots.len() {
                    assert(before.edges[e] == slots[e]->Some_0);
                }
            }
        }
        self.graph = graph;
        assert(self@.edges =~= before.edges.push(edge));
        assert(self@.nodes =~= before.nodes);
        id
    }

    /// Connects two tasks with a connection that is not batched and says
    /// nothing of logging.
    pub fn connect(&mut self, source: NodeId, target: NodeId, msg_type: &str) -> (id: usize)
        requires
            source < old(self)@.nodes.len(),
            target < old(self)@.nodes.len(),
            old(self)@.edges.len() < u32::MAX,
        ensures
            id == old(self)@.edges.len(),
            final(self)@ == (ConfigModel {
                edges: old(self)@.edges.push(
                    EdgeModel {
                        src: source as int,
                        dst: target as int,
                        cnx: CnxModel {
                            src: old(self)@.nodes[source as int].id,
                            dst: old(self)@.nodes[target as int].id,
                            msg: msg_type@,
                            batch: None,
                            store: None,
                        },
                    },
                ),
                ..old(self)@
            }),
            final(self)@.wf(),
    {
        self.connect_ext(source, target, msg_type, None, None)
    }

    /// The node indices of the graph, from the lowest to the highest.
    fn node_ids(&self) -> (r: Vec<NodeId>)
        ensures
            r@.len() == self@.nodes.len(),
            forall|k: int| 0 <= k < r@.len() ==> r@[k] == k,
    {
        proof {
            use_type_invariant(self);
        }
        let r = graph_node_indices(&self.graph);
        proof {
            let n = self@.nodes.len();
            let a = r@.map_values(|x: u32| x as int);
            let b = Seq::new(n, |i: int| i);
            assert forall|x: int| a.contains(x) <==> b.contains(x) by {
                if a.contains(x) {
                    let k = choose|k: int| 0 <= k < a.len() && a[k] == x;
                    assert(is_node(graph_nodes(self.graph), r@[k] as int));
                    assert(b[x] == x);
                }
                if b.contains(x) {
                    let i = choose|i: int| 0 <= i < b.len() && b[i] == x;
                    assert(is_node(graph_nodes(self.graph), x));
                    let k = choose|k: int| 0 <= k < r@.len() && #[trigger] r@[k] == x;
                    assert(a[k] == x);
                }
            }
            lemma_increasing_unique(a, b);
            assert forall|k: int| 0 <= k < r@.len() implies r@[k] == k by {
                assert(a[k] == b[k]);
            }
        }
        r
    }

    /// The edge indices of the graph, from the lowest to the highest.
    pub fn get_all_edges(&self) -> (r: Vec<usize>)
        ensures
            r@.len() == self@.edges.len(),
            forall|k: int| 0 <= k < r@.len() ==> r@[k] == k,
    {
        proof {
            use_type_invariant(self);
        }
        let r = graph_edge_indices(&self.graph);
        proof {
            let n = self@.edges.len();
            let a = as_ints(r@);
            let b = Seq::new(n, |i: int| i);
            assert forall|x: int| a.contains(x) <==> b.contains(x) by {
                if a.contains(x) {
                    let k = choose|k: int| 0 <= k < a.len() && a[k] == x;
                    assert(is_edge(graph_edges(self.graph), r@[k] as int));
                    assert(b[x] == x);
                }
                if b.contains(x) {
                    let i = choose|i: int| 0 <= i < b.len() && b[i] == x;
                    assert(is_edge(graph_edges(self.graph), x));
                    let k = choose|k: int| 0 <= k < r@.len() && #[trigger] r@[k] == x;
                    assert(a[k] == x);
                }
            }
            lemma_increasing_unique(a, b);
            assert forall|k: int| 0 <= k < r@.len() implies r@[k] == k by {
                assert(a[k] == b[k]);
            }
        }
        r
    }

    /// The edges at the node `node_id` in one direction, in the order in
    /// which they were connected.
    fn incident_edges(&self, node_id: NodeId, dir: Direction) -> (r: Vec<usize>)
        ensures
            as_ints(r@) == incident(self@.edges, node_id as int, is_outgoing(dir)),
    {
        proof {
            use_type_invariant(self);
        }
        let found = graph_edges_directed(&self.graph, node_id, dir);
        let r = sort_distinct(found);
        proof {
            let outgoing = is_outgoing(dir);
            let want = incident(self@.edges, node_id as int, outgoing);
            let slots = graph_edges(self.graph);
            lemma_incident(self@.edges, node_id as int, outgoing);
            assert forall|x: int| as_ints(r@).contains(x) <==> want.contains(x) by {
                if as_ints(r@).contains(x) {
                    let k = choose|k: int| 0 <= k < as_ints(r@).len() && as_ints(r@)[k] == x;
                    assert(r@.contains(r@[k]));
                    assert(found@.contains(r@[k]));
                    let l = choose|l: int| 0 <= l < found@.len() && found@[l] == r@[k];
                    assert(touches(slots, found@[l] as int, node_id as int, outgoing));
                    assert(self@.edges[x] == slots[x]->Some_0);
                }
                if want.contains(x) {
                    assert(self@.edges[x] == slots[x]->Some_0);
                    assert(touches(slots, x, node_id as int, outgoing));
                    let l = choose|l: int| 0 <= l < found@.len() && #[trigger] found@[l] == x;
                    assert(found@.contains(found@[l]));
                    assert(r@.contains(found@[l]));
                    let k = choose|k: int| 0 <= k < r@.len() && r@[k] == found@[l];
                    assert(as_ints(r@)[k] == x);
                }
            }
            lemma_increasing_unique(as_ints(r@), want);
        }
        r
    }

    /// The edge indices of the connections that leave the node `node_id`,
    /// in the order in which they were connected.
    pub fn get_src_edges(&self, node_id: NodeId) -> (r: Vec<usize>)
        ensures
            as_ints(r@) == self@.edges_from(node_id as int),
    {
        self.incident_edges(node_id, Direction::Outgoing)
    }

    /// The edge indices of the connections that reach the node `node_id`,
    /// in the order in which they were connected.
    pub fn get_dst_edges(&self, node_id: NodeId) -> (r: Vec<usize>)
        ensures
            as_ints(r@) == self@.edges_to(node_id as int),
    {
        self.incident_edges(node_id, Direction::Incoming)
    }

    /// The connection at edge index `index`, where there is one.
    pub fn get_edge_weight(&self, index: usize) -> (r: Option<Cnx>)
        ensures
            match r {
                Some(cnx) => index < self@.edges.len() && cnx@ == self@.edges[index as int].cnx,
                None => index >= self@.edges.len(),
            },
    {
        proof {
            use_type_invariant(self);
        }
        if index > u32::MAX as usize {
            return None;
        }
        match graph_edge_weight(&self.graph, index) {
            Some(cnx) => Some(cnx.clone()),
            None => None,
        }
    }

    /// The lowest index of a task with the identifier `id`, where there is
    /// one.
    pub fn find_node(&self, id: &str) -> (r: Option<NodeId>)
        ensures
            match r {
                Some(i) => find_node(self@.nodes, id@) == Some(i as int),
                None => find_node(self@.nodes, id@) is None,
            },
    {
        let ids = self.node_ids();
        let mut k: usize = 0;
        while k < ids.len()
            invariant
                k <= ids@.len(),
                ids@.len() == self@.nodes.len(),
                forall|j: int| 0 <= j < ids@.len() ==> ids@[j] == j,
                forall|j: int| 0 <= j < k ==> (#[trigger] self@.nodes[j]).id != id@,
            decreases ids@.len() - k,
        {
            let index = ids[k];
            if let Some(node) = self.get_node(index) {
                if str_equal(node.id(), id) {
                    assert(is_first_with_id(self@.nodes, id@, index as int));
                    return Some(index);
                }
            }
            k = k + 1;
        }
        None
    }

    /// The message type that the task with the identifier `node_id` sends:
    /// that of its first outgoing connection. `None` where no task has that
    /// identifier. A task that sends must have a connection that leaves it.
    pub fn get_node_output_msg_type(&self, node_id: &str) -> (r: Option<String>)
        requires
            find_node(self@.nodes, node_id@) matches Some(i) ==> self@.edges_from(i).len() > 0,
        ensures
            match r {
                Some(msg) => find_node(self@.nodes, node_id@) is Some && msg@ == self@.first_msg(
                    node_id@,
                    true,
                ),
                None => find_node(self@.nodes, node_id@) is None,
            },
    {
        self.first_msg_type(node_id, Direction::Outgoing)
    }

    /// The message type that the task with the identifier `node_id`
    /// receives: that of its first incoming connection. `None` where no task
    /// has that identifier. A task that receives must have a connection that
    /// reaches it.
    pub fn get_node_input_msg_type(&self, node_id: &str) -> (r: Option<String>)
        requires
            find_node(self@.nodes, node_id@) matches Some(i) ==> self@.edges_to(i).len() > 0,
        ensures
            match r {
                Some(msg) => find_node(self@.nodes, node_id@) is Some && msg@ == self@.first_msg(
                    node_id@,
                    false,
                ),
                None => find_node(self@.nodes, node_id@) is None,
            },
    {
        self.first_msg_type(node_id, Direction::Incoming)
    }

    /// The message type of the first connection in one direction at the
    /// first task with the identifier `node_id`.
    fn first_msg_type(&self, node_id: &str, dir: Direction) -> (r: Option<String>)
        requires
            find_node(self@.nodes, node_id@) matches Some(i) ==> incident(
                self@.edges,
                i,
                is_outgoing(dir),
            ).len() > 0,
        ensures
            match r {
                Some(msg) => find_node(self@.nodes, node_id@) is Some && msg@ == self@.first_msg(
                    node_id@,
                    is_outgoing(dir),
                ),
                None => find_node(self@.nodes, node_id@) is None,
            },
    {
        proof {
            use_type_invariant(self);
        }
        match self.find_node(node_id) {
            Some(index) => {
                let edges = self.incident_edges(index, dir);
                proof {
                    lemma_incident(self@.edges, index as int, is_outgoing(dir));
                    let list = incident(self@.edges, index as int, is_outgoing(dir));
                    assert(as_ints(edges@)[0] == list[0]);
                    assert(list.contains(list[0]));
                }
                match graph_edge_weight(&self.graph, edges[0]) {
                    Some(cnx) => Some(String::from_str(cnx.get_msg())),
                    None => None,
                }
            },
            None => None,
        }
    }

    /// All tasks with their node indices, from the lowest index to the
    /// highest.
    pub fn get_all_nodes(&self) -> (r: Vec<(NodeId, &Node)>)
        ensures
            r@.len() == self@.nodes.len(),
            forall|k: int|
                0 <= k < r@.len() ==> (#[trigger] r@[k]).0 == k && r@[k].1@ == self@.nodes[k],
    {
        let ids = self.node_ids();
        let mut r: Vec<(NodeId, &Node)> = Vec::new();
        let mut k: usize = 0;
        while k < ids.len()
            invariant
                k <= ids@.len(),
                ids@.len() == self@.nodes.len(),
                forall|j: int| 0 <= j < ids@.len() ==> ids@[j] == j,
                r@.len() == k,
                forall|j: int|
                    0 <= j < k ==> (#[trigger] r@[j]).0 == j && r@[j].1@ == self@.nodes[j],
            decreases ids@.len() - k,
        {
            let index = ids[k];
            if let Some(node) = self.get_node(index) {
                r.push((index, node));
            }
            k = k + 1;
        }
        r
    }

    /// The settings of every task, from the lowest node index to the
    /// highest.
    pub fn get_all_instances_configs(&self) -> (r: Vec<Option<&ComponentConfig>>)
        ensures
            r@.len() == self@.nodes.len(),
            forall|k: int|
                0 <= k < r@.len() ==> match #[trigger] r@[k] {
                    Some(c) => self@.nodes[k].config == Some(c.pairs()),
                    None => self@.nodes[k].config is None,
                },
    {
        let nodes = self.get_all_nodes();
        let mut r: Vec<Option<&ComponentConfig>> = Vec::new();
        let mut k: usize = 0;
        while k < nodes.len()
            invariant
                k <= nodes@.len(),
                nodes@.len() == self@.nodes.len(),
                forall|j: int| 0 <= j < nodes@.len() ==> (#[trigger] nodes@[j]).1@ == self@.nodes[j],
                r@.len() == k,
                forall|j: int|
                    0 <= j < k ==> match #[trigger] r@[j] {
                        Some(c) => self@.nodes[j].config == Some(c.pairs()),
                        None => self@.nodes[j].config is None,
                    },
            decreases nodes@.len() - k,
        {
            r.push(nodes[k].1.get_instance_config());
            k = k + 1;
        }
        r
    }

    /// The monitor setting, where there is one.
    pub fn get_monitor_config(&self) -> (r: Option<&MonitorConfig>)
        ensures
            match r {
                Some(m) => self@.monitor == Some(m@),
                None => self@.monitor is None,
            },
    {
        self.monitor.as_ref()
    }

    /// The logging setting, where there is one.
    pub fn get_logging_config(&self) -> (r: Option<LoggingConfig>)
        ensures
            r == self@.logging,
    {
        self.logging
    }

    /// Sets or removes the monitor setting.
    pub fn set_monitor_config(&mut self, monitor: Option<MonitorConfig>)
        ensures
            final(self)@ == (ConfigModel {
                monitor: match monitor {
                    Some(m) => Some(m@),
                    None => None,
                },
                ..old(self)@
            }),
    {
        proof {
            use_type_invariant(&*self);
        }
        self.monitor = monitor;
    }

    /// Sets or removes the logging setting.
    pub fn set_logging_config(&mut self, logging: Option<LoggingConfig>)
        ensures
            final(self)@ == (ConfigModel { logging, ..old(self)@ }),
    {
        proof {
            use_type_invariant(&*self);
        }
        self.logging = logging;
    }

    /// Accepts the configuration when it has no logging setting, or one in
    /// which a section fits in a slab.
    pub fn validate_logging_config(&self) -> (r: Result<(), ConfigError>)
        ensures
            r is Ok <==> (self@.logging matches Some(l) ==> l.section_fits()),
            r matches Err(e) ==> e == (ConfigError::SectionLargerThanSlab {
                section_size_mib: self@.logging->Some_0.section_size_mib->Some_0,
                slab_size_mib: self@.logging->Some_0.slab_size_mib->Some_0,
            }),
    {
        if let Some(logging) = &self.logging {
            return logging.validate();
        }
        Ok(())
    }

    /// The node indices of the two ends of the connection at edge index
    /// `index`, where there is one: the source, then the destination.
    pub fn get_edge_endpoints(&self, index: usize) -> (r: Option<(NodeId, NodeId)>)
        ensures
            match r {
                Some((src, dst)) => index < self@.edges.len() && src == self@.edges[index as int].src
                    && dst == self@.edges[index as int].dst && src < self@.nodes.len() && dst
                    < self@.nodes.len(),
                None => index >= self@.edges.len(),
            },
    {
        proof {
            use_type_invariant(self);
        }
        if index > u32::MAX as usize {
            return None;
        }
        let r = graph_edge_endpoints(&self.graph, index);
        proof {
            if r is Some {
                assert(self@.edges[index as int] == graph_edges(self.graph)[index as int]->Some_0);
            }
        }
        r
    }

    /// Brings to light what holds of every configuration: each connection
    /// joins two tasks of the graph, and the tasks and connections can be
    /// counted in 32 bits.
    pub fn check_wf(&self)
        ensures
            self@.wf(),
            self@.nodes.len() <= u32::MAX,
            self@.edges.len() <= u32::MAX,
    {
        proof {
            use_type_invariant(self);
        }
    }

    /// The number of tasks.
    pub fn node_count(&self) -> (n: usize)
        ensures
            n == self@.nodes.len(),
    {
        proof {
            use_type_invariant(self);
            let slots = graph_nodes(self.graph);
            assert(slots.filter(|slot: Option<NodeModel>| slot is Some) =~= slots) by {
                lemma_filter_all(slots, |slot: Option<NodeModel>| slot is Some);
            }
        }
        graph_node_count(&self.graph)
    }

    /// The number of connections.
    pub fn edge_count(&self) -> (n: usize)
        ensures
            n == self@.edges.len(),
    {
        proof {
            use_type_invariant(self);
            let slots = graph_edges(self.graph);
            assert(slots.filter(|slot: Option<EdgeModel>| slot is Some) =~= slots) by {
                lemma_filter_all(slots, |slot: Option<EdgeModel>| slot is Some);
            }
        }
        graph_edge_count(&self.graph)
    }
}

impl Clone for CuConfig {
    fn clone(&self) -> (r: Self)
        ensures
            r@ == self@,
    {
        proof {
            use_type_invariant(self);
        }
        let r = CuConfig {
            graph: graph_clone(&self.graph),
            monitor: match &self.monitor {
                Some(m) => Some(m.clone()),
                None => None,
            },
            logging: self.logging,
        };
        assert(r@.nodes =~= self@.nodes);
        assert(r@.edges =~= self@.edges);
        r
    }
}

impl Default for CuConfig {
    fn default() -> (r: Self)
        ensures
            r@ == (ConfigModel {
                nodes: Seq::empty(),
                edges: Seq::empty(),
                monitor: None,
                logging: None,
            }),
    {
        CuConfig::new()
    }
}

/// Filtering keeps a sequence whose items all pass.
proof fn lemma_filter_all<T>(s: Seq<T>, f: spec_fn(T) -> bool)
    requires
        forall|i: int| 0 <= i < s.len() ==> f(#[trigger] s[i]),
    ensures
        s.filter(f) == s,
    decreases s.len(),
{
    reveal(Seq::filter);
    if s.len() > 0 {
        lemma_filter_all(s.drop_last(), f);
        assert(s.drop_last().push(s.last()) =~= s);
    }
}

} // verus!
