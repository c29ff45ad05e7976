use copper_core::cnx::Cnx;
use copper_core::config::CuConfig;
use copper_core::error::ConfigError;
use copper_core::logging::LoggingConfig;
use copper_core::node::Node;
use copper_core::representation::CuConfigRepresentation;
use copper_core::schedule::{tick_steps, Hook, Step};

fn graph(nodes: &[&str], edges: &[(u32, u32)]) -> CuConfig {
    let mut config = CuConfig::new();
    for id in nodes {
        config.add_node(Node::new(id, "t"));
    }
    for (a, b) in edges {
        config.connect(*a, *b, "m");
    }
    config
}

#[test]
fn sources_run_before_their_destinations() {
    // 3 -> 1 -> 0, 3 -> 2 -> 0, 4 alone
    let config = graph(
        &["sink", "left", "right", "src", "alone"],
        &[(3, 1), (1, 0), (3, 2), (2, 0)],
    );
    assert_eq!(config.execution_order(), Ok(vec![3, 1, 2, 0, 4]));
    assert!(config.validate().is_ok());
}

#[test]
fn ties_go_to_the_lower_node_index() {
    let config = graph(&["a", "b", "c"], &[]);
    assert_eq!(config.execution_order(), Ok(vec![0, 1, 2]));
    let config = graph(&["a", "b", "c"], &[(2, 0)]);
    assert_eq!(config.execution_order(), Ok(vec![1, 2, 0]));
    let config = graph(&["a", "b", "c", "d"], &[(3, 2), (2, 1), (1, 0)]);
    assert_eq!(config.execution_order(), Ok(vec![3, 2, 1, 0]));
    assert_eq!(CuConfig::new().execution_order(), Ok(vec![]));
}

#[test]
fn parallel_connections_are_no_cycle() {
    let config = graph(&["a", "b"], &[(0, 1), (0, 1)]);
    assert_eq!(config.execution_order(), Ok(vec![0, 1]));
}

#[test]
fn cycles_are_found() {
    let config = graph(&["a", "b", "c"], &[(0, 1), (1, 2), (2, 0)]);
    assert_eq!(config.execution_order(), Err(ConfigError::Cycle));
    assert_eq!(config.validate(), Err(ConfigError::Cycle));
    assert_eq!(ConfigError::Cycle.message(), "The connections form a cycle");
    let config = graph(&["a"], &[(0, 0)]);
    assert_eq!(config.execution_order(), Err(ConfigError::Cycle));
    let config = graph(&["a", "b", "c", "d"], &[(0, 1), (2, 3), (3, 2)]);
    assert_eq!(config.execution_order(), Err(ConfigError::Cycle));
}

#[test]
fn a_tick_calls_the_three_hooks_of_each_task_in_turn() {
    let steps = tick_steps(&vec![2, 0]);
    assert_eq!(
        steps,
        vec![
            Step { node: 2, hook: Hook::Preprocess },
            Step { node: 2, hook: Hook::Process },
            Step { node: 2, hook: Hook::Postprocess },
            Step { node: 0, hook: Hook::Preprocess },
            Step { node: 0, hook: Hook::Process },
            Step { node: 0, hook: Hook::Postprocess },
        ]
    );
    assert!(tick_steps(&vec![]).is_empty());
}

#[test]
fn repeated_identifiers_are_found() {
    let config = graph(&["a", "b", "a", "b"], &[]);
    assert_eq!(config.first_duplicate_id(), Some(2));
    assert_eq!(config.validate(), Err(ConfigError::DuplicateNodeId(2)));
    assert_eq!(
        ConfigError::DuplicateNodeId(2).message(),
        "Duplicate node id in task 2"
    );
    let config = graph(&["a", "b", "c"], &[]);
    assert_eq!(config.first_duplicate_id(), None);
}

#[test]
fn rules_are_checked_in_their_order() {
    // a repeated identifier comes before a cycle, a cycle before the logging sizes
    let mut config = graph(&["a", "a"], &[(0, 1), (1, 0)]);
    config.set_logging_config(Some(LoggingConfig {
        slab_size_mib: Some(1),
        section_size_mib: Some(2),
        enable_task_logging: true,
    }));
    assert_eq!(config.validate(), Err(ConfigError::DuplicateNodeId(1)));
    let mut config = graph(&["a", "b"], &[(0, 1), (1, 0)]);
    config.set_logging_config(Some(LoggingConfig {
        slab_size_mib: Some(1),
        section_size_mib: Some(2),
        enable_task_logging: true,
    }));
    assert_eq!(config.validate(), Err(ConfigError::Cycle));
    let mut config = graph(&["a", "b"], &[(0, 1)]);
    config.set_logging_config(Some(LoggingConfig {
        slab_size_mib: Some(1),
        section_size_mib: Some(2),
        enable_task_logging: true,
    }));
    assert_eq!(
        config.validate(),
        Err(ConfigError::SectionLargerThanSlab {
            section_size_mib: 2,
            slab_size_mib: 1
        })
    );
}

#[test]
fn loading_checks_the_graph() {
    let cnx = |src: &str, dst: &str| {
        Cnx::new(src.to_string(), dst.to_string(), "m".to_string(), None, None)
    };
    let rep = CuConfigRepresentation {
        tasks: vec![Node::new("a", "t"), Node::new("b", "t")],
        cnx: vec![cnx("a", "b")],
        monitor: None,
        logging: Some(LoggingConfig {
            slab_size_mib: Some(1024),
            section_size_mib: Some(100),
            enable_task_logging: true,
        }),
    };
    let config = CuConfig::load(&rep).unwrap();
    assert_eq!(config.node_count(), 2);
    assert_eq!(config.get_src_edges(0), vec![0]);
    let rep = CuConfigRepresentation {
        tasks: vec![Node::new("a", "t"), Node::new("b", "t")],
        cnx: vec![cnx("a", "b")],
        monitor: None,
        logging: Some(LoggingConfig {
            slab_size_mib: Some(100),
            section_size_mib: Some(1024),
            enable_task_logging: true,
        }),
    };
    assert_eq!(
        CuConfig::load(&rep).err(),
        Some(ConfigError::SectionLargerThanSlab {
            section_size_mib: 1024,
            slab_size_mib: 100
        })
    );
    let rep = CuConfigRepresentation {
        tasks: vec![Node::new("a", "t"), Node::new("b", "t")],
        cnx: vec![cnx("a", "b"), cnx("b", "a")],
        monitor: None,
        logging: None,
    };
    assert_eq!(CuConfig::load(&rep).err(), Some(ConfigError::Cycle));
    let rep = CuConfigRepresentation {
        tasks: vec![Node::new("a", "t"), Node::new("b", "t")],
        cnx: vec![cnx("a", "c")],
        monitor: None,
        logging: None,
    };
    assert_eq!(
        CuConfig::load(&rep).err(),
        Some(ConfigError::UnknownDestination(0))
    );
    let rep = CuConfigRepresentation {
        tasks: vec![Node::new("a", "t"), Node::new("a", "t")],
        cnx: vec![],
        monitor: None,
        logging: None,
    };
    assert_eq!(
        CuConfig::load(&rep).err(),
        Some(ConfigError::DuplicateNodeId(1))
    );
}

#[test]
fn connections_must_name_the_tasks_that_they_join() {
    let mut config = graph(&["a", "b", "c"], &[(0, 1), (1, 2)]);
    assert!(config.check_connection_names().is_ok());
    assert!(config.validate().is_ok());
    // the task that the second connection leaves gets another name
    *config.get_node_mut(1).unwrap() = Node::new("z", "t");
    assert_eq!(
        config.check_connection_names(),
        Err(ConfigError::UnknownDestination(0))
    );
    assert_eq!(config.validate(), Err(ConfigError::UnknownDestination(0)));
    let mut config = graph(&["a", "b", "c"], &[(0, 1), (1, 2)]);
    *config.get_node_mut(0).unwrap() = Node::new("z", "t");
    assert_eq!(config.validate(), Err(ConfigError::UnknownSource(0)));
    // such a graph does not come back from its representation
    assert_eq!(
        CuConfig::deserialize(&config.serialize()).err(),
        Some(ConfigError::UnknownSource(0))
    );
}
