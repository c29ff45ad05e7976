//! The configuration as the text format lists it: tasks, connections by
//! identifier, and the two settings.

use vstd::prelude::*;
use crate::cnx::{Cnx, CnxModel};
use crate::config::{find_node, is_first_with_id, ConfigModel, CuConfig};
use crate::error::ConfigError;
use crate::graph::EdgeModel;
use crate::logging::LoggingConfig;
use crate::monitor::{MonitorConfig, MonitorModel};
use crate::node::{Node, NodeModel};

verus! {

/// A configuration as a list of tasks and a list of connections.
#[derive(Debug)]
pub struct CuConfigRepresentation {
    /// The tasks; the position of a task is its node index.
    pub tasks: Vec<Node>,
    /// The connections; the position of a connection is its edge index.
    pub cnx: Vec<Cnx>,
    /// The monitor setting, where there is one.
    pub monitor: Option<MonitorConfig>,
    /// The logging setting, where there is one.
    pub logging: Option<LoggingConfig>,
}

/// The mathematical content of a [`CuConfigRepresentation`].
pub struct RepresentationModel {
    pub tasks: Seq<NodeModel>,
    pub cnx: Seq<CnxModel>,
    pub monitor: Option<MonitorModel>,
    pub logging: Option<LoggingConfig>,
}

impl View for CuConfigRepresentation {
    type V = RepresentationModel;

    open spec fn view(&self) -> RepresentationModel {
        RepresentationModel {
            tasks: self.tasks@.map_values(|n: Node| n@),
            cnx: self.cnx@.map_values(|c: Cnx| c@),
            monitor: match self.monitor {
                Some(m) => Some(m@),
                None => None,
            },
            logging: self.logging,
        }
    }
}

/// The edge that the connection `c` at position `k` becomes among `nodes`:
/// its ends are the first tasks with the identifiers that it names, and it
/// is labelled with the identifiers of those tasks. An end that no task has
/// is an error, the source before the destination.
pub open spec fn link_one(nodes: Seq<NodeModel>, c: CnxModel, k: int) -> Result<
    EdgeModel,
    ConfigError,
> {
    match find_node(nodes, c.src) {
        None => Err(ConfigError::UnknownSource(k as usize)),
        Some(s) => match find_node(nodes, c.dst) {
            None => Err(ConfigError::UnknownDestination(k as usize)),
            Some(d) => Ok(
                EdgeModel {
                    src: s,
                    dst: d,
                    cnx: CnxModel { src: nodes[s].id, dst: nodes[d].id, ..c },
                },
            ),
        },
    }
}

/// The edges that the connections become among `nodes`, or the error of the
/// first connection that names a task that does not exist.
pub open spec fn link(nodes: Seq<NodeModel>, cnx: Seq<CnxModel>) -> Result<
    Seq<EdgeModel>,
    ConfigError,
>
    decreases cnx.len(),
{
    if cnx.len() == 0 {
        Ok(Seq::empty())
    } else {
        match link(nodes, cnx.drop_last()) {
            Err(e) => Err(e),
            Ok(edges) => match link_one(nodes, cnx.last(), cnx.len() - 1) {
                Err(e) => Err(e),
                Ok(edge) => Ok(edges.push(edge)),
            },
        }
    }
}

/// The configuration graph that a representation describes.
pub open spec fn build(rep: RepresentationModel) -> Result<ConfigModel, ConfigError> {
    match link(rep.tasks, rep.cnx) {
        Err(e) => Err(e),
        Ok(edges) => Ok(
            ConfigModel { nodes: rep.tasks, edges, monitor: rep.monitor, logging: rep.logging },
        ),
    }
}

/// The representation of a configuration graph: its tasks by node index,
/// its connections by edge index, its settings.
pub open spec fn represent(m: ConfigModel) -> RepresentationModel {
    RepresentationModel {
        tasks: m.nodes,
        cnx: m.edges.map_values(|e: EdgeModel| e.cnx),
        monitor: m.monitor,
        logging: m.logging,
    }
}

/// An error among the first connections is the error of the whole list.
pub proof fn lemma_link_error_stays(nodes: Seq<NodeModel>, cnx: Seq<CnxModel>, k: int)
    requires
        0 <= k <= cnx.len(),
        link(nodes, cnx.take(k)) is Err,
    ensures
        link(nodes, cnx) == link(nodes, cnx.take(k)),
    decreases cnx.len() - k,
{
    if k == cnx.len() {
        assert(cnx.take(k) =~= cnx);
    } else {
        assert(cnx.take(k + 1).drop_last() =~= cnx.take(k));
        lemma_link_error_stays(nodes, cnx, k + 1);
    }
}

/// The graph that a representation describes has one edge for each
/// connection, at the connection's position: edge indices follow the order
/// of the connections, whatever the order of the tasks. Each edge joins two
/// tasks of the graph and is labelled with their identifiers.
pub proof fn lemma_edges_follow_connections(nodes: Seq<NodeModel>, cnx: Seq<CnxModel>)
    requires
        link(nodes, cnx) is Ok,
    ensures
        link(nodes, cnx)->Ok_0.len() == cnx.len(),
        forall|k: int|
            0 <= k < cnx.len() ==> link_one(nodes, #[trigger] cnx[k], k) == Ok::<
                EdgeModel,
                ConfigError,
            >(link(nodes, cnx)->Ok_0[k]),
        (ConfigModel { nodes, edges: link(nodes, cnx)->Ok_0, monitor: None, logging: None }).wf(),
        labelled(
            ConfigModel { nodes, edges: link(nodes, cnx)->Ok_0, monitor: None, logging: None },
        ),
    decreases cnx.len(),
{
    if cnx.len() > 0 {
        let front = cnx.drop_last();
        lemma_edges_follow_connections(nodes, front);
        let edges = link(nodes, cnx)->Ok_0;
        let before = link(nodes, front)->Ok_0;
        let last = cnx.len() - 1;
        assert forall|k: int| 0 <= k < cnx.len() implies link_one(nodes, #[trigger] cnx[k], k)
            == Ok::<EdgeModel, ConfigError>(edges[k]) by {
            if k < last {
                assert(front[k] == cnx[k]);
                assert(edges[k] == before[k]);
            }
        }
        let m = ConfigModel { nodes, edges, monitor: None, logging: None };
        assert forall|e: int| 0 <= e < m.edges.len() implies 0 <= (#[trigger] m.edges[e]).src
            < m.nodes.len() && 0 <= m.edges[e].dst < m.nodes.len() && m.edges[e].cnx.src
            == m.nodes[m.edges[e].src].id && m.edges[e].cnx.dst == m.nodes[m.edges[e].dst].id by {
            assert(link_one(nodes, cnx[e], e) == Ok::<EdgeModel, ConfigError>(edges[e]));
            let s = find_node(nodes, cnx[e].src)->Some_0;
            let d = find_node(nodes, cnx[e].dst)->Some_0;
            assert(is_first_with_id(nodes, cnx[e].src, s));
            assert(is_first_with_id(nodes, cnx[e].dst, d));
        }
    }
}

/// Whether no two tasks have the same identifier.
pub open spec fn unique_ids(nodes: Seq<NodeModel>) -> bool {
    forall|i: int, j: int|
        0 <= i < nodes.len() && 0 <= j < nodes.len() && i != j ==> (#[trigger] nodes[i]).id != (
        #[trigger] nodes[j]).id
}

/// Whether each connection is labelled with the identifiers of the two
/// tasks that it joins.
pub open spec fn labelled(m: ConfigModel) -> bool {
    forall|e: int|
        0 <= e < m.edges.len() ==> (#[trigger] m.edges[e]).cnx.src == m.nodes[m.edges[e].src].id
            && m.edges[e].cnx.dst == m.nodes[m.edges[e].dst].id
}

/// Among tasks with distinct identifiers, the identifier of a task finds
/// that task.
pub proof fn lemma_find_own_id(nodes: Seq<NodeModel>, i: int)
    requires
        unique_ids(nodes),
        0 <= i < nodes.len(),
    ensures
        find_node(nodes, nodes[i].id) == Some(i),
{
    assert(is_first_with_id(nodes, nodes[i].id, i));
}

/// The first `k` connections of a graph's representation give back the
/// graph's first `k` edges.
proof fn lemma_link_gives_back(m: ConfigModel, k: int)
    requires
        m.wf(),
        unique_ids(m.nodes),
        labelled(m),
        0 <= k <= m.edges.len(),
    ensures
        link(m.nodes, represent(m).cnx.take(k)) == Ok::<Seq<EdgeModel>, ConfigError>(
            m.edges.take(k),
        ),
    decreases k,
{
    let cnx = represent(m).cnx;
    if k == 0 {
        assert(m.edges.take(0) =~= Seq::<EdgeModel>::empty());
    } else {
        lemma_link_gives_back(m, k - 1);
        assert(cnx.take(k).drop_last() =~= cnx.take(k - 1));
        let edge = m.edges[k - 1];
        assert(cnx.take(k).last() == edge.cnx);
        lemma_find_own_id(m.nodes, edge.src);
        lemma_find_own_id(m.nodes, edge.dst);
        assert(m.edges.take(k) =~= m.edges.take(k - 1).push(edge));
    }
}

/// A graph in which the tasks have distinct identifiers and every
/// connection joins two tasks and is labelled with their identifiers comes
/// back from its representation as it was: the same tasks at the same node
/// indices, the same connections between the same ends at the same edge
/// indices, the same settings.
pub proof fn lemma_round_trip(m: ConfigModel)
    requires
        m.wf(),
        unique_ids(m.nodes),
        labelled(m),
    ensures
        build(represent(m)) == Ok::<ConfigModel, ConfigError>(m),
{
    lemma_link_gives_back(m, m.edges.len() as int);
    assert(represent(m).cnx.take(m.edges.len() as int) =~= represent(m).cnx);
    assert(m.edges.take(m.edges.len() as int) =~= m.edges);
}

impl CuConfig {
    /// Builds the configuration graph that a representation describes. The
    /// tasks get their node indices by position, then the connections their
    /// edge indices by position; each connection joins the first tasks with
    /// the identifiers that it names. The first connection that names a task
    /// that does not exist is the error.
    pub fn deserialize(representation: &CuConfigRepresentation) -> (r: Result<CuConfig, ConfigError>)
        requires
            representation.tasks@.len() <= u32::MAX,
            representation.cnx@.len() <= u32::MAX,
        ensures
            match r {
                Ok(config) => build(representation@) == Ok::<ConfigModel, ConfigError>(config@),
                Err(e) => build(representation@) == Err::<ConfigModel, ConfigError>(e),
            },
    {
        let ghost rep = representation@;
        let mut config = CuConfig::new();
        let mut i: usize = 0;
        while i < representation.tasks.len()
            invariant
                i <= representation.tasks@.len(),
                representation.tasks@.len() <= u32::MAX,
                config@.nodes == rep.tasks.take(i as int),
                config@.edges == Seq::<EdgeModel>::empty(),
                config@.monitor is None,
                config@.logging is None,
                rep == representation@,
            decreases representation.tasks@.len() - i,
        {
            let node = representation.tasks[i].clone();
            config.add_node(node);
            assert(rep.tasks.take(i + 1) =~= rep.tasks.take(i as int).push(rep.tasks[i as int]));
            i = i + 1;
        }
        assert(rep.tasks.take(i as int) =~= rep.tasks);
        let mut k: usize = 0;
        while k < representation.cnx.len()
            invariant
                k <= representation.cnx@.len(),
                representation.cnx@.len() <= u32::MAX,
                config@.nodes == rep.tasks,
                link(rep.tasks, rep.cnx.take(k as int)) == Ok::<Seq<EdgeModel>, ConfigError>(
                    config@.edges,
                ),
                config@.edges.len() == k,
                config@.monitor is None,
                config@.logging is None,
                rep == representation@,
            decreases representation.cnx@.len() - k,
        {
            let c = &representation.cnx[k];
            assert(rep.cnx.take(k + 1).drop_last() =~= rep.cnx.take(k as int));
            assert(rep.cnx.take(k + 1).last() == c@);
            let src = match config.find_node(c.get_src()) {
                Some(src) => src,
                None => {
                    proof {
                        lemma_link_error_stays(rep.tasks, rep.cnx, k + 1);
                    }
                    return Err(ConfigError::UnknownSource(k));
                },
            };
            let dst = match config.find_node(c.get_dst()) {
                Some(dst) => dst,
                None => {
                    proof {
                        lemma_link_error_stays(rep.tasks, rep.cnx, k + 1);
                    }
                    return Err(ConfigError::UnknownDestination(k));
                },
            };
            config.connect_ext(src, dst, c.get_msg(), c.get_batch(), c.get_store());
            k = k + 1;
        }
        assert(rep.cnx.take(k as int) =~= rep.cnx);
        config.set_monitor_config(
            match &representation.monitor {
                Some(m) => Some(m.clone()),
                None => None,
            },
        );
        config.set_logging_config(representation.logging);
        Ok(config)
    }

    /// The representation of the configuration graph: its tasks by node
    /// index, its connections by edge index, its settings.
    pub fn serialize(&self) -> (r: CuConfigRepresentation)
        ensures
            r@ == represent(self@),
    {
        let nodes = self.get_all_nodes();
        let mut tasks: Vec<Node> = Vec::new();
        let mut i: usize = 0;
        while i < nodes.len()
            invariant
                i <= nodes@.len(),
                nodes@.len() == self@.nodes.len(),
                forall|j: int| 0 <= j < nodes@.len() ==> (#[trigger] nodes@[j]).1@ == self@.nodes[j],
                tasks@.len() == i,
                forall|j: int| 0 <= j < i ==> (#[trigger] tasks@[j])@ == self@.nodes[j],
            decreases nodes@.len() - i,
        {
            tasks.push(nodes[i].1.clone());
            i = i + 1;
        }
        let edges = self.get_all_edges();
        let mut cnx: Vec<Cnx> = Vec::new();
        let mut k: usize = 0;
        while k < edges.len()
            invariant
                k <= edges@.len(),
                edges@.len() == self@.edges.len(),
                forall|j: int| 0 <= j < edges@.len() ==> edges@[j] == j,
                cnx@.len() == k,
                forall|j: int| 0 <= j < k ==> (#[trigger] cnx@[j])@ == self@.edges[j].cnx,
            decreases edges@.len() - k,
        {
            match self.get_edge_weight(edges[k]) {
                Some(c) => {
                    cnx.push(c);
                },
                None => {},
            }
            k = k + 1;
        }
        let r = CuConfigRepresentation {
            tasks,
            cnx,
            monitor: match self.get_monitor_config() {
                Some(m) => Some(m.clone()),
                None => None,
            },
            logging: self.get_logging_config(),
        };
        assert(r@.tasks =~= represent(self@).tasks);
        assert(r@.cnx =~= represent(self@).cnx);
        r
    }
}

} // verus!
