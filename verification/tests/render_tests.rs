use copper_core::config::CuConfig;
use copper_core::node::Node;
use copper_core::value::Value;

#[test]
fn graph_is_described_for_the_layout_engine() {
    let mut config = CuConfig::new();
    let mut camera = Node::new("cam", "pkg::Camera");
    camera.set_param("height", Value::from(1080i32));
    camera.set_param("name", Value::from("front".to_string()));
    let a = config.add_node(camera);
    let b = config.add_node(Node::new("filter", "pkg::Filter"));
    let c = config.add_node(Node::new("sink", "pkg::Sink"));
    config.connect(a, b, "pkg::Image<u8>");
    config.connect(b, c, "a&b");
    let text = config.render().to_plain_string().unwrap();
    let expected = "digraph G {\n\
0 [\n\
shape=box,\n\
style=\"rounded, filled\",\n\
fontname=\"Noto Sans\"\n\
fillcolor=lightgreen,\n\
color=grey,\n\
labeljust=l,\n\
label=< <FONT COLOR=\"red\"><B>cam</B></FONT> <FONT COLOR=\"dimgray\">[pkg::Camera]</FONT><BR ALIGN=\"LEFT\"/>____________<BR/><BR ALIGN=\"LEFT\"/><B>height</B> = 1080<BR ALIGN=\"LEFT\"/>\n<B>name</B> = front<BR ALIGN=\"LEFT\"/> >\n\
];\n\
1 [\n\
shape=box,\n\
style=\"rounded, filled\",\n\
fontname=\"Noto Sans\"\n\
fillcolor=lightgrey,\n\
color=grey,\n\
labeljust=l,\n\
label=< <FONT COLOR=\"red\"><B>filter</B></FONT> <FONT COLOR=\"dimgray\">[pkg::Filter]</FONT><BR ALIGN=\"LEFT\"/> >\n\
];\n\
2 [\n\
shape=box,\n\
style=\"rounded, filled\",\n\
fontname=\"Noto Sans\"\n\
fillcolor=lightblue,\n\
color=grey,\n\
labeljust=l,\n\
label=< <FONT COLOR=\"red\"><B>sink</B></FONT> <FONT COLOR=\"dimgray\">[pkg::Sink]</FONT><BR ALIGN=\"LEFT\"/> >\n\
];\n\
0 -> 1 [label=< <B><FONT COLOR=\"gray\">pkg::Image&lt;u8&gt;</FONT></B> >];\n\
1 -> 2 [label=< <B><FONT COLOR=\"gray\">a&amp;b</FONT></B> >];\n\
}\n";
    assert_eq!(text, expected);
}

#[test]
fn empty_graph_is_described() {
    let text = CuConfig::new().render().to_plain_string().unwrap();
    assert_eq!(text, "digraph G {\n}\n");
}

#[test]
fn lone_node_is_a_source() {
    let mut config = CuConfig::new();
    config.add_node(Node::new("only", "t"));
    let text = config.render().to_plain_string().unwrap();
    assert!(text.contains("fillcolor=lightgreen,\n"));
}
