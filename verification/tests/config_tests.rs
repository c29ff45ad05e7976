use copper_core::cnx::Cnx;
use copper_core::component_config::ComponentConfig;
use copper_core::config::CuConfig;
use copper_core::error::ConfigError;
use copper_core::logging::{default_as_true, LoggingConfig};
use copper_core::monitor::MonitorConfig;
use copper_core::node::Node;
use copper_core::representation::CuConfigRepresentation;
use copper_core::value::{Number, Value, ValueError, ValueKind};

fn cnx(src: &str, dst: &str, msg: &str) -> Cnx {
    Cnx::new(src.to_string(), dst.to_string(), msg.to_string(), None, None)
}

fn representation(
    tasks: Vec<Node>,
    cnx: Vec<Cnx>,
    monitor: Option<MonitorConfig>,
    logging: Option<LoggingConfig>,
) -> CuConfigRepresentation {
    CuConfigRepresentation {
        tasks,
        cnx,
        monitor,
        logging,
    }
}

#[test]
fn test_plain_serialize() {
    let mut config = CuConfig::default();
    let n1 = config.add_node(Node::new("test1", "package::Plugin1"));
    let n2 = config.add_node(Node::new("test2", "package::Plugin2"));
    config.connect(n1, n2, "msgpkg::MsgType");
    let serialized = config.serialize();
    let deserialized = CuConfig::deserialize(&serialized).unwrap();
    assert_eq!(config.node_count(), deserialized.node_count());
    assert_eq!(config.edge_count(), deserialized.edge_count());
}

#[test]
fn two_node_round_trip() {
    let mut config = CuConfig::default();
    let n1 = config.add_node(Node::new("test1", "pkg::P1"));
    let n2 = config.add_node(Node::new("test2", "pkg::P2"));
    assert_eq!((n1, n2), (0, 1));
    assert_eq!(config.connect(n1, n2, "pkg::M"), 0);
    let serialized = config.serialize();
    assert_eq!(serialized.tasks.len(), 2);
    assert_eq!(serialized.cnx.len(), 1);
    assert_eq!(serialized.cnx[0].get_src(), "test1");
    assert_eq!(serialized.cnx[0].get_dst(), "test2");
    let back = CuConfig::deserialize(&serialized).unwrap();
    assert_eq!(back.node_count(), 2);
    assert_eq!(back.edge_count(), 1);
    assert_eq!(back.get_edge_endpoints(0), Some((0, 1)));
    assert_eq!(back.get_edge_endpoints(1), None);
    assert_eq!(back.get_edge_weight(0).unwrap().msg, "pkg::M");
    assert_eq!(back.get_node(0).unwrap().get_id(), "test1");
    assert_eq!(back.get_node(0).unwrap().get_type(), "pkg::P1");
    assert_eq!(back.get_node(1).unwrap().get_id(), "test2");
    assert_eq!(back.get_node(1).unwrap().get_type(), "pkg::P2");
    assert!(back.get_node(2).is_none());
    assert!(back.get_monitor_config().is_none());
    assert!(back.get_logging_config().is_none());
}

#[test]
fn test_serialize_with_params() {
    let mut config = CuConfig::default();
    let mut camera = Node::new("copper-camera", "camerapkg::Camera");
    camera.set_param("resolution-height", 1080.into());
    config.add_node(camera);
    let serialized = config.serialize();
    let deserialized = CuConfig::deserialize(&serialized).unwrap();
    assert_eq!(
        deserialized
            .get_node(0)
            .unwrap()
            .get_param::<i32>("resolution-height")
            .unwrap(),
        Ok(1080)
    );
}

#[test]
fn test_monitor() {
    // ( tasks: [], cnx: [], monitor: (type: "ExampleMonitor", ) )
    let rep = representation(
        vec![],
        vec![],
        Some(MonitorConfig::new("ExampleMonitor".to_string(), None)),
        None,
    );
    let config = CuConfig::deserialize(&rep).unwrap();
    assert_eq!(
        config.get_monitor_config().unwrap().get_type(),
        "ExampleMonitor"
    );

    // ( tasks: [], cnx: [], monitor: (type: "ExampleMonitor", config: { "toto": 4, } ))
    let mut settings = ComponentConfig::new();
    settings.set("toto", Value::Number(Number::U8(4)));
    let rep = representation(
        vec![],
        vec![],
        Some(MonitorConfig::new(
            "ExampleMonitor".to_string(),
            Some(settings),
        )),
        None,
    );
    let config = CuConfig::deserialize(&rep).unwrap();
    let monitor = config.get_monitor_config().unwrap();
    assert_eq!(monitor.get_type(), "ExampleMonitor");
    let toto = monitor.get_config().unwrap();
    assert_eq!(toto.get::<u8>("toto"), Some(Ok(4)));
    assert_eq!(toto.get::<i64>("toto"), Some(Ok(4)));
    assert_eq!(toto.get::<u8>("titi"), None);
}

#[test]
fn test_logging_parameters() {
    // logging: ( slab_size_mib: 1024, section_size_mib: 100, enable_task_logging: false )
    let rep = representation(
        vec![],
        vec![],
        None,
        Some(LoggingConfig {
            slab_size_mib: Some(1024),
            section_size_mib: Some(100),
            enable_task_logging: false,
        }),
    );
    let config = CuConfig::deserialize(&rep).unwrap();
    assert!(config.get_logging_config().is_some());
    let logging_config = config.get_logging_config().unwrap();
    assert_eq!(logging_config.slab_size_mib.unwrap(), 1024);
    assert_eq!(logging_config.section_size_mib.unwrap(), 100);
    assert!(!logging_config.enable_task_logging);

    // `enable_task_logging` not provided
    let rep = representation(
        vec![],
        vec![],
        None,
        Some(LoggingConfig {
            slab_size_mib: Some(1024),
            section_size_mib: Some(100),
            enable_task_logging: default_as_true(),
        }),
    );
    let config = CuConfig::deserialize(&rep).unwrap();
    assert!(config.get_logging_config().is_some());
    let logging_config = config.get_logging_config().unwrap();
    assert_eq!(logging_config.slab_size_mib.unwrap(), 1024);
    assert_eq!(logging_config.section_size_mib.unwrap(), 100);
    assert!(logging_config.enable_task_logging);
}

#[test]
fn test_validate_logging_config() {
    let rep = representation(
        vec![],
        vec![],
        None,
        Some(LoggingConfig {
            slab_size_mib: Some(1024),
            section_size_mib: Some(100),
            enable_task_logging: true,
        }),
    );
    let config = CuConfig::deserialize(&rep).unwrap();
    assert!(config.validate_logging_config().is_ok());

    let rep = representation(
        vec![],
        vec![],
        None,
        Some(LoggingConfig {
            slab_size_mib: Some(100),
            section_size_mib: Some(1024),
            enable_task_logging: true,
        }),
    );
    let config = CuConfig::deserialize(&rep).unwrap();
    assert!(config.validate_logging_config().is_err());
    let e = config.validate_logging_config().unwrap_err();
    assert_eq!(
        e,
        ConfigError::SectionLargerThanSlab {
            section_size_mib: 1024,
            slab_size_mib: 100
        }
    );
    assert_eq!(
        e.message(),
        "Section size (1024 MiB) cannot be larger than slab size (100 MiB). Adjust the parameters accordingly."
    );
}

#[test]
fn logging_sizes_at_the_edge() {
    let equal = LoggingConfig {
        slab_size_mib: Some(7),
        section_size_mib: Some(7),
        enable_task_logging: true,
    };
    assert!(equal.validate().is_ok());
    let only_section = LoggingConfig {
        slab_size_mib: None,
        section_size_mib: Some(u64::MAX),
        enable_task_logging: true,
    };
    assert!(only_section.validate().is_ok());
    let only_slab = LoggingConfig {
        slab_size_mib: Some(0),
        section_size_mib: None,
        enable_task_logging: true,
    };
    assert!(only_slab.validate().is_ok());
    assert!(!LoggingConfig::default().enable_task_logging);
    assert!(CuConfig::default().validate_logging_config().is_ok());
}

// the edge id is suitable to sort the inputs of a task
#[test]
fn test_deserialization_edge_id_assignment() {
    // src1 is added before src2 in the tasks, but its connection comes after that of src2
    let rep = representation(
        vec![
            Node::new("src1", "a"),
            Node::new("src2", "b"),
            Node::new("sink", "c"),
        ],
        vec![cnx("src2", "sink", "msg1"), cnx("src1", "sink", "msg2")],
        None,
        None,
    );
    let config = CuConfig::deserialize(&rep).unwrap();
    assert!(config.validate_logging_config().is_ok());

    // the node id depends on the order in which the tasks are added
    let src1_id = 0;
    assert_eq!(config.get_node(src1_id).unwrap().get_id(), "src1");
    let src2_id = 1;
    assert_eq!(config.get_node(src2_id).unwrap().get_id(), "src2");

    // the edge id depends on the order in which the connection is created
    let src1_edge_id = *config.get_src_edges(src1_id).first().unwrap();
    assert_eq!(src1_edge_id, 1);
    let src2_edge_id = *config.get_src_edges(src2_id).first().unwrap();
    assert_eq!(src2_edge_id, 0);

    assert_eq!(config.get_dst_edges(2), vec![0, 1]);
    assert_eq!(config.get_src_edges(2), Vec::<usize>::new());
    assert_eq!(config.get_dst_edges(0), Vec::<usize>::new());
    assert_eq!(config.get_src_edges(3), Vec::<usize>::new());
}

#[test]
fn edges_are_listed_in_connection_order() {
    let mut config = CuConfig::new();
    let a = config.add_node(Node::new("a", "t"));
    let b = config.add_node(Node::new("b", "t"));
    let c = config.add_node(Node::new("c", "t"));
    assert_eq!(config.connect(a, b, "m0"), 0);
    assert_eq!(config.connect(c, b, "m1"), 1);
    assert_eq!(config.connect(a, c, "m2"), 2);
    assert_eq!(config.connect_ext(a, b, "m3", Some(4), Some(false)), 3);
    assert_eq!(config.connect(b, b, "m4"), 4);
    assert_eq!(config.get_src_edges(a), vec![0, 2, 3]);
    assert_eq!(config.get_dst_edges(b), vec![0, 1, 3, 4]);
    assert_eq!(config.get_src_edges(b), vec![4]);
    assert_eq!(config.get_dst_edges(c), vec![2]);
    assert_eq!(config.get_src_edges(c), vec![1]);
    let e3 = config.get_edge_weight(3).unwrap();
    assert_eq!((e3.get_src(), e3.get_dst()), ("a", "b"));
    assert_eq!(e3.batch, Some(4));
    assert_eq!(e3.store, Some(false));
    assert!(!e3.stores());
    assert!(config.get_edge_weight(0).unwrap().stores());
    assert!(Cnx::new("a".into(), "b".into(), "m".into(), None, Some(true)).stores());
    assert!(config.get_edge_weight(5).is_none());
    assert!(config.get_edge_weight(usize::MAX).is_none());
    assert_eq!(config.get_edge_endpoints(2), Some((0, 2)));
    assert_eq!(config.get_all_edges(), vec![0, 1, 2, 3, 4]);
    assert_eq!(CuConfig::new().get_all_edges(), Vec::<usize>::new());
}

#[test]
fn message_types_are_inferred_from_the_first_connection() {
    let mut config = CuConfig::new();
    let a = config.add_node(Node::new("a", "t"));
    let b = config.add_node(Node::new("b", "t"));
    let c = config.add_node(Node::new("c", "t"));
    config.connect(a, b, "first");
    config.connect(a, c, "second");
    config.connect(b, c, "third");
    assert_eq!(config.get_node_output_msg_type("a"), Some("first".to_string()));
    assert_eq!(config.get_node_output_msg_type("b"), Some("third".to_string()));
    assert_eq!(config.get_node_input_msg_type("c"), Some("second".to_string()));
    assert_eq!(config.get_node_input_msg_type("b"), Some("first".to_string()));
    assert_eq!(config.get_node_output_msg_type("nobody"), None);
    assert_eq!(config.get_node_input_msg_type("nobody"), None);
    assert_eq!(config.find_node("c"), Some(2));
    assert_eq!(config.find_node("d"), None);
}

#[test]
fn connections_to_unknown_tasks_are_rejected() {
    let rep = representation(
        vec![Node::new("a", "t"), Node::new("b", "t")],
        vec![cnx("a", "b", "m"), cnx("x", "y", "m"), cnx("z", "b", "m")],
        None,
        None,
    );
    assert_eq!(
        CuConfig::deserialize(&rep).err(),
        Some(ConfigError::UnknownSource(1))
    );
    let rep = representation(
        vec![Node::new("a", "t"), Node::new("b", "t")],
        vec![cnx("a", "b", "m"), cnx("a", "y", "m")],
        None,
        None,
    );
    let e = CuConfig::deserialize(&rep).err().unwrap();
    assert_eq!(e, ConfigError::UnknownDestination(1));
    assert_eq!(e.message(), "Destination node not found for connection 1");
    assert_eq!(
        ConfigError::UnknownSource(12).message(),
        "Source node not found for connection 12"
    );
}

#[test]
fn a_connection_joins_the_first_task_with_the_name() {
    let rep = representation(
        vec![Node::new("a", "t"), Node::new("b", "t"), Node::new("a", "u")],
        vec![cnx("a", "b", "m")],
        None,
        None,
    );
    let config = CuConfig::deserialize(&rep).unwrap();
    assert_eq!(config.get_edge_endpoints(0), Some((0, 1)));
}

#[test]
fn nodes_are_changed_in_place() {
    let mut config = CuConfig::new();
    config.add_node(Node::new("a", "t"));
    config.add_node(Node::new("b", "t"));
    config.connect(0, 1, "m");
    config
        .get_node_mut(1)
        .unwrap()
        .set_param("rate", Value::from(10u32));
    assert!(config.get_node_mut(2).is_none());
    assert_eq!(
        config.get_node(1).unwrap().get_param::<u32>("rate"),
        Some(Ok(10))
    );
    assert_eq!(config.get_node(0).unwrap().get_param::<u32>("rate"), None);
    assert_eq!(config.node_count(), 2);
    assert_eq!(config.edge_count(), 1);
    let configs = config.get_all_instances_configs();
    assert!(configs[0].is_none());
    assert_eq!(configs[1].unwrap().len(), 1);
    let all = config.get_all_nodes();
    assert_eq!(all.len(), 2);
    assert_eq!(all[1].0, 1);
    assert_eq!(all[1].1.get_id(), "b");
    let copy = config.clone();
    assert_eq!(copy.node_count(), 2);
    assert_eq!(copy.get_src_edges(0), vec![0]);
}

#[test]
fn settings_keep_one_value_for_a_key() {
    let mut c = ComponentConfig::new();
    c.set("a", Value::from(1i32));
    c.set("b", Value::from(true));
    c.set("a", Value::from("x".to_string()));
    assert_eq!(c.len(), 2);
    assert_eq!(c.key_at(0), "a");
    assert_eq!(c.key_at(1), "b");
    assert_eq!(c.get::<String>("a"), Some(Ok("x".to_string())));
    assert_eq!(c.get::<bool>("b"), Some(Ok(true)));
    assert_eq!(
        c.get::<bool>("a"),
        Some(Err(ValueError::KindMismatch {
            expected: ValueKind::Bool,
            found: ValueKind::Text
        }))
    );
    assert_eq!(c.get::<bool>("c"), None);
    assert_eq!(c.to_text().to_plain_string().unwrap(), "{a: x, b: true}");
    assert_eq!(ComponentConfig::new().to_text().to_plain_string().unwrap(), "{}");
}

#[test]
fn node_type_can_be_replaced() {
    let node = Node::new("a", "t");
    assert!(node.has_type());
    let node = node.set_type(Some("u".to_string()));
    assert_eq!(node.get_type(), "u");
    let node = node.set_type(None);
    assert!(!node.has_type());
    assert_eq!(node.type_or_none(), None);
    assert!(node.get_instance_config().is_none());
}
