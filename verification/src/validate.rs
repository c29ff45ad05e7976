//! The rules that a configuration must meet before it is run.

use vstd::prelude::*;
use crate::config::{ConfigModel, CuConfig};
use crate::error::ConfigError;
use crate::node::NodeModel;
use crate::representation::{
    build, labelled, lemma_round_trip, represent, unique_ids, CuConfigRepresentation,
};
use crate::schedule::acyclic;
use crate::outside::str_equal;

verus! {

/// Whether the node at `j` has the identifier of a node before it.
pub open spec fn repeats(nodes: Seq<NodeModel>, j: int) -> bool {
    exists|i: int| 0 <= i < j && (#[trigger] nodes[i]).id == nodes[j].id
}

/// Whether `j` is the lowest index of a node that has the identifier of a
/// node before it.
pub open spec fn is_first_repeat(nodes: Seq<NodeModel>, j: int) -> bool {
    &&& 0 <= j < nodes.len()
    &&& repeats(nodes, j)
    &&& forall|l: int| 0 <= l < j ==> !#[trigger] repeats(nodes, l)
}

/// Whether the connection at `e` is labelled with the identifier of the
/// task that it leaves.
pub open spec fn source_named(m: ConfigModel, e: int) -> bool {
    m.edges[e].cnx.src == m.nodes[m.edges[e].src].id
}

/// Whether the connection at `e` is labelled with the identifier of the
/// task that it reaches.
pub open spec fn destination_named(m: ConfigModel, e: int) -> bool {
    m.edges[e].cnx.dst == m.nodes[m.edges[e].dst].id
}

/// Whether `e` is the lowest index of a connection that is not labelled
/// with the identifiers of the two tasks that it joins.
pub open spec fn is_first_misnamed(m: ConfigModel, e: int) -> bool {
    &&& 0 <= e < m.edges.len()
    &&& !(source_named(m, e) && destination_named(m, e))
    &&& forall|l: int| 0 <= l < e ==> #[trigger] source_named(m, l) && destination_named(m, l)
}

/// Whether the logging setting, where there is one, lets a section fit in a
/// slab.
pub open spec fn logging_fits(m: ConfigModel) -> bool {
    m.logging is Some ==> m.logging->Some_0.section_fits()
}

/// Whether the configuration meets the rules of the graph: the tasks have
/// distinct identifiers, every connection joins two tasks and names them,
/// the connections form no cycle, and a section of the log fits in a slab.
pub open spec fn valid(m: ConfigModel) -> bool {
    &&& m.wf()
    &&& unique_ids(m.nodes)
    &&& labelled(m)
    &&& acyclic(m)
    &&& logging_fits(m)
}

/// Whether `r` is the verdict on `m`: the first rule that `m` breaks, in
/// the order identifiers, names of the connections' ends, cycle, logging,
/// or `Ok` where it breaks none.
pub open spec fn is_verdict(m: ConfigModel, r: Result<(), ConfigError>) -> bool {
    match r {
        Ok(_) => unique_ids(m.nodes) && labelled(m) && acyclic(m) && logging_fits(m),
        Err(ConfigError::DuplicateNodeId(j)) => is_first_repeat(m.nodes, j as int),
        Err(ConfigError::UnknownSource(e)) => {
            &&& unique_ids(m.nodes)
            &&& is_first_misnamed(m, e as int)
            &&& !source_named(m, e as int)
        },
        Err(ConfigError::UnknownDestination(e)) => {
            &&& unique_ids(m.nodes)
            &&& is_first_misnamed(m, e as int)
            &&& source_named(m, e as int)
        },
        Err(ConfigError::Cycle) => unique_ids(m.nodes) && labelled(m) && !acyclic(m),
        Err(ConfigError::SectionLargerThanSlab { section_size_mib, slab_size_mib }) => {
            &&& unique_ids(m.nodes)
            &&& labelled(m)
            &&& acyclic(m)
            &&& m.logging is Some
            &&& m.logging->Some_0.section_size_mib == Some(section_size_mib)
            &&& m.logging->Some_0.slab_size_mib == Some(slab_size_mib)
            &&& section_size_mib > slab_size_mib
        },
    }
}

/// A configuration that meets the rules of the graph comes back from its
/// representation as it was.
pub proof fn lemma_valid_round_trip(m: ConfigModel)
    requires
        valid(m),
    ensures
        build(represent(m)) == Ok::<ConfigModel, ConfigError>(m),
{
    lemma_round_trip(m);
}

impl CuConfig {
    /// The lowest index of a task that has the identifier of a task before
    /// it, where the identifiers are not distinct.
    pub fn first_duplicate_id(&self) -> (r: Option<usize>)
        ensures
            match r {
                Some(j) => is_first_repeat(self@.nodes, j as int),
                None => unique_ids(self@.nodes),
            },
    {
        let nodes = self.get_all_nodes();
        let mut j: usize = 0;
        while j < nodes.len()
            invariant
                j <= nodes@.len(),
                nodes@.len() == self@.nodes.len(),
                forall|k: int| 0 <= k < nodes@.len() ==> (#[trigger] nodes@[k]).1@ == self@.nodes[k],
                forall|l: int| 0 <= l < j ==> !#[trigger] repeats(self@.nodes, l),
            decreases nodes@.len() - j,
        {
            let mut i: usize = 0;
            while i < j
                invariant
                    i <= j,
                    j < nodes@.len(),
                    nodes@.len() == self@.nodes.len(),
                    forall|k: int|
                        0 <= k < nodes@.len() ==> (#[trigger] nodes@[k]).1@ == self@.nodes[k],
                    forall|l: int| 0 <= l < i ==> (#[trigger] self@.nodes[l]).id != self@.nodes[j as int].id,
                    forall|l: int| 0 <= l < j ==> !#[trigger] repeats(self@.nodes, l),
                decreases j - i,
            {
                if str_equal(nodes[i].1.id(), nodes[j].1.id()) {
                    assert(self@.nodes[i as int].id == self@.nodes[j as int].id);
                    assert(repeats(self@.nodes, j as int));
                    return Some(j);
                }
                i = i + 1;
            }
            j = j + 1;
        }
        proof {
            assert forall|a: int, b: int|
                0 <= a < self@.nodes.len() && 0 <= b < self@.nodes.len() && a != b implies (
            #[trigger] self@.nodes[a]).id != (#[trigger] self@.nodes[b]).id by {
                if self@.nodes[a].id == self@.nodes[b].id {
                    if a < b {
                        assert(repeats(self@.nodes, b));
                    } else {
                        assert(repeats(self@.nodes, a));
                    }
                }
            }
        }
        None
    }

    /// The first connection that is not labelled with the identifiers of the
    /// two tasks that it joins, as the error that says which end is misnamed:
    /// the source where the source is, else the destination.
    pub fn check_connection_names(&self) -> (r: Result<(), ConfigError>)
        ensures
            match r {
                Ok(_) => labelled(self@),
                Err(ConfigError::UnknownSource(e)) => is_first_misnamed(self@, e as int)
                    && !source_named(self@, e as int),
                Err(ConfigError::UnknownDestination(e)) => is_first_misnamed(self@, e as int)
                    && source_named(self@, e as int),
                Err(_) => false,
            },
    {
        self.check_wf();
        let edges = self.get_all_edges();
        let mut k: usize = 0;
        while k < edges.len()
            invariant
                k <= edges@.len(),
                self@.wf(),
                edges@.len() == self@.edges.len(),
                forall|j: int| 0 <= j < edges@.len() ==> edges@[j] == j,
                forall|l: int|
                    0 <= l < k ==> #[trigger] source_named(self@, l) && destination_named(self@, l),
            decreases edges@.len() - k,
        {
            let e = edges[k];
            assert(e == k);
            let ends = self.get_edge_endpoints(e);
            let cnx = self.get_edge_weight(e);
            if let Some((src, dst)) = ends {
                if let Some(cnx) = cnx {
                    if let Some(node) = self.get_node(src) {
                        if !str_equal(cnx.get_src(), node.id()) {
                            assert(!source_named(self@, e as int));
                            return Err(ConfigError::UnknownSource(e));
                        }
                    }
                    assert(source_named(self@, e as int));
                    if let Some(node) = self.get_node(dst) {
                        if !str_equal(cnx.get_dst(), node.id()) {
                            assert(!destination_named(self@, e as int));
                            return Err(ConfigError::UnknownDestination(e));
                        }
                    }
                    assert(destination_named(self@, e as int));
                }
            }
            assert forall|l: int| 0 <= l < k + 1 implies #[trigger] source_named(self@, l)
                && destination_named(self@, l) by {
                if l == k {
                    assert(source_named(self@, k as int));
                    assert(destination_named(self@, k as int));
                }
            }
            k = k + 1;
        }
        proof {
            assert forall|e: int| 0 <= e < self@.edges.len() implies (
            #[trigger] self@.edges[e]).cnx.src == self@.nodes[self@.edges[e].src].id
                && self@.edges[e].cnx.dst == self@.nodes[self@.edges[e].dst].id by {
                assert(source_named(self@, e) && destination_named(self@, e));
            }
        }
        Ok(())
    }

    /// Checks the configuration against the rules of the graph and names
    /// the first that it breaks: tasks with the same identifier, a
    /// connection that does not name the tasks that it joins, connections
    /// that form a cycle, a section of the log that is larger than a slab.
    pub fn validate(&self) -> (r: Result<(), ConfigError>)
        ensures
            is_verdict(self@, r),
            r is Ok <==> valid(self@),
    {
        self.check_wf();
        if let Some(j) = self.first_duplicate_id() {
            proof {
                let i = choose|i: int|
                    0 <= i < j && (#[trigger] self@.nodes[i]).id == self@.nodes[j as int].id;
                assert(self@.nodes[i].id == self@.nodes[j as int].id);
            }
            return Err(ConfigError::DuplicateNodeId(j));
        }
        if let Err(e) = self.check_connection_names() {
            return Err(e);
        }
        if let Err(e) = self.execution_order() {
            return Err(e);
        }
        self.validate_logging_config()
    }

    /// Builds the configuration that a representation describes and checks
    /// it against the rules of the graph. The error is that of the first
    /// connection that names a task that does not exist or, where there is
    /// none, the first rule that the graph breaks.
    pub fn load(representation: &CuConfigRepresentation) -> (r: Result<CuConfig, ConfigError>)
        requires
            representation.tasks@.len() <= u32::MAX,
            representation.cnx@.len() <= u32::MAX,
        ensures
            match r {
                Ok(config) => build(representation@) == Ok::<ConfigModel, ConfigError>(config@)
                    && valid(config@),
                Err(e) => match build(representation@) {
                    Ok(m) => is_verdict(m, Err(e)),
                    Err(first) => e == first,
                },
            },
    {
        match CuConfig::deserialize(representation) {
            Ok(config) => match config.validate() {
                Ok(_) => Ok(config),
                Err(e) => Err(e),
            },
            Err(e) => Err(e),
        }
    }
}

} // verus!
