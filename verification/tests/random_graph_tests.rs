use copper_core::config::CuConfig;
use copper_core::error::ConfigError;
use copper_core::node::Node;

/// A small generator of numbers that gives the same sequence on every run.
struct Numbers(u64);

impl Numbers {
    fn next(&mut self, below: u32) -> u32 {
        self.0 = self
            .0
            .wrapping_mul(6364136223846793005)
            .wrapping_add(1442695040888963407);
        ((self.0 >> 33) % below as u64) as u32
    }
}

fn random_graph(numbers: &mut Numbers, forward_only: bool) -> (CuConfig, usize, Vec<(u32, u32)>) {
    let n = 1 + numbers.next(8);
    let m = numbers.next(14);
    let mut config = CuConfig::new();
    for i in 0..n {
        config.add_node(Node::new(&format!("task{i}"), "t"));
    }
    let mut edges = Vec::new();
    for k in 0..m {
        let mut a = numbers.next(n);
        let mut b = numbers.next(n);
        if forward_only {
            if a == b {
                continue;
            }
            // a permutation of the indices hides the direction from the node order
            let rank = |x: u32| (x * 5 + 3) % 11;
            if rank(a) > rank(b) {
                std::mem::swap(&mut a, &mut b);
            }
        }
        let id = config.connect(a, b, &format!("msg{k}"));
        assert_eq!(id, edges.len());
        edges.push((a, b));
    }
    (config, n as usize, edges)
}

fn expected_order(n: usize, edges: &[(u32, u32)]) -> Option<Vec<u32>> {
    let mut placed = vec![false; n];
    let mut order = Vec::new();
    while order.len() < n {
        let next = (0..n).find(|&v| {
            !placed[v]
                && edges
                    .iter()
                    .all(|&(a, b)| b as usize != v || placed[a as usize])
        });
        match next {
            Some(v) => {
                placed[v] = true;
                order.push(v as u32);
            }
            None => return None,
        }
    }
    Some(order)
}

#[test]
fn random_graphs_list_their_edges_in_connection_order() {
    let mut numbers = Numbers(7);
    for _ in 0..200 {
        let (config, n, edges) = random_graph(&mut numbers, false);
        assert_eq!(config.node_count(), n);
        assert_eq!(config.edge_count(), edges.len());
        for v in 0..n as u32 {
            let from: Vec<usize> = (0..edges.len()).filter(|&e| edges[e].0 == v).collect();
            let to: Vec<usize> = (0..edges.len()).filter(|&e| edges[e].1 == v).collect();
            assert_eq!(config.get_src_edges(v), from);
            assert_eq!(config.get_dst_edges(v), to);
        }
        for (e, ends) in edges.iter().enumerate() {
            assert_eq!(config.get_edge_endpoints(e), Some(*ends));
            assert_eq!(config.get_edge_weight(e).unwrap().msg, format!("msg{e}"));
        }
    }
}

#[test]
fn random_graphs_run_in_the_expected_order() {
    let mut numbers = Numbers(11);
    let mut cyclic = 0;
    let mut acyclic = 0;
    for round in 0..300 {
        let (config, n, edges) = random_graph(&mut numbers, round % 2 == 0);
        match expected_order(n, &edges) {
            Some(order) => {
                acyclic += 1;
                assert_eq!(config.execution_order(), Ok(order.clone()));
                for (a, b) in &edges {
                    let at = |x: &u32| order.iter().position(|v| v == x).unwrap();
                    assert!(at(a) < at(b));
                }
            }
            None => {
                cyclic += 1;
                assert_eq!(config.execution_order(), Err(ConfigError::Cycle));
            }
        }
    }
    assert!(cyclic > 20);
    assert!(acyclic > 100);
}

#[test]
fn random_graphs_come_back_from_their_representation() {
    let mut numbers = Numbers(13);
    for _ in 0..100 {
        let (config, n, edges) = random_graph(&mut numbers, false);
        let back = CuConfig::deserialize(&config.serialize()).unwrap();
        assert_eq!(back.node_count(), n);
        assert_eq!(back.edge_count(), edges.len());
        for v in 0..n as u32 {
            assert_eq!(
                back.get_node(v).unwrap().get_id(),
                config.get_node(v).unwrap().get_id()
            );
            assert_eq!(back.get_src_edges(v), config.get_src_edges(v));
            assert_eq!(back.get_dst_edges(v), config.get_dst_edges(v));
        }
        for e in 0..edges.len() {
            assert_eq!(back.get_edge_endpoints(e), config.get_edge_endpoints(e));
            let a = back.get_edge_weight(e).unwrap();
            let b = config.get_edge_weight(e).unwrap();
            assert_eq!(a.msg, b.msg);
            assert_eq!(a.get_src(), b.get_src());
            assert_eq!(a.get_dst(), b.get_dst());
        }
    }
}
