//! The configuration graph as a directed-graph description for a layout
//! engine.

use vstd::prelude::*;
use crate::config::{ConfigModel, CuConfig, NodeId};
use crate::display::value_text;
use crate::graph::EdgeModel;
use crate::node::{Node, NodeModel};
use crate::order::as_ints;
use crate::outside::{encode_text, int_to_string};
use crate::text::{escaped_text, glyphs, int_text, Glyph, Rendering};
use crate::value::ValueModel;

verus! {

/// The first `n` settings, one row each, with a line break between the rows.
pub open spec fn config_rows(pairs: Seq<(Seq<char>, ValueModel)>, n: nat) -> Seq<Glyph>
    decreases n,
{
    if n == 0 {
        Seq::empty()
    } else if n == 1 {
        config_row(pairs[0])
    } else {
        config_rows(pairs, (n - 1) as nat) + glyphs("\n"@) + config_row(pairs[n - 1])
    }
}

/// One setting as a row of a node's label.
pub open spec fn config_row(pair: (Seq<char>, ValueModel)) -> Seq<Glyph> {
    glyphs("<B>"@) + glyphs(pair.0) + glyphs("</B> = "@) + value_text(pair.1) + glyphs(
        "<BR ALIGN=\"LEFT\"/>"@,
    )
}

/// The settings of a node as the lower part of its label; nothing where the
/// node has none.
pub open spec fn config_block(config: Option<Seq<(Seq<char>, ValueModel)>>) -> Seq<Glyph> {
    match config {
        Some(pairs) => glyphs("____________<BR/><BR ALIGN=\"LEFT\"/>"@) + config_rows(
            pairs,
            pairs.len(),
        ),
        None => Seq::empty(),
    }
}

/// The line that sets a node's colour: light green for a node that nothing
/// reaches, light blue for another node that nothing leaves, light grey for
/// the rest.
pub open spec fn fill_line(m: ConfigModel, i: int) -> Seq<char> {
    if m.edges_to(i).len() == 0 {
        "fillcolor=lightgreen,\n"@
    } else if m.edges_from(i).len() == 0 {
        "fillcolor=lightblue,\n"@
    } else {
        "fillcolor=lightgrey,\n"@
    }
}

/// The lines that describe the node at index `i`.
pub open spec fn node_text(m: ConfigModel, i: int) -> Seq<Glyph> {
    glyphs(int_text(i)) + glyphs(" [\n"@) + glyphs("shape=box,\n"@) + glyphs(
        "style=\"rounded, filled\",\n"@,
    ) + glyphs("fontname=\"Noto Sans\"\n"@) + glyphs(fill_line(m, i)) + glyphs("color=grey,\n"@)
        + glyphs("labeljust=l,\n"@) + glyphs("label=< <FONT COLOR=\"red\"><B>"@) + glyphs(
        m.nodes[i].id,
    ) + glyphs("</B></FONT> <FONT COLOR=\"dimgray\">["@) + glyphs(m.nodes[i].type_->Some_0)
        + glyphs("]</FONT><BR ALIGN=\"LEFT\"/>"@) + config_block(m.nodes[i].config) + glyphs(
        " >\n"@,
    ) + glyphs("];\n"@)
}

/// The lines that describe the first `n` nodes.
pub open spec fn nodes_text(m: ConfigModel, n: nat) -> Seq<Glyph>
    decreases n,
{
    if n == 0 {
        Seq::empty()
    } else {
        nodes_text(m, (n - 1) as nat) + node_text(m, n - 1)
    }
}

/// The line that describes an edge: its two ends, and the message type as
/// regular HTML text.
pub open spec fn edge_text(e: EdgeModel) -> Seq<Glyph> {
    glyphs(int_text(e.src)) + glyphs(" -> "@) + glyphs(int_text(e.dst)) + glyphs(
        " [label=< <B><FONT COLOR=\"gray\">"@,
    ) + glyphs(escaped_text(e.cnx.msg)) + glyphs("</FONT></B> >];\n"@)
}

/// The lines that describe the first `n` edges.
pub open spec fn edges_text(edges: Seq<EdgeModel>, n: nat) -> Seq<Glyph>
    decreases n,
{
    if n == 0 {
        Seq::empty()
    } else {
        edges_text(edges, (n - 1) as nat) + edge_text(edges[n - 1])
    }
}

/// The whole description: the nodes by node index, then the edges by edge
/// index, between the opening and the closing line.
pub open spec fn dot_text(m: ConfigModel) -> Seq<Glyph> {
    glyphs("digraph G {\n"@) + nodes_text(m, m.nodes.len()) + edges_text(m.edges, m.edges.len())
        + glyphs("}\n"@)
}

/// Whether every task names its implementation.
pub open spec fn all_typed(nodes: Seq<NodeModel>) -> bool {
    forall|i: int| 0 <= i < nodes.len() ==> (#[trigger] nodes[i]).type_ is Some
}

/// Appending is associative.
proof fn lemma_append_assoc(a: Seq<Glyph>, b: Seq<Glyph>, c: Seq<Glyph>)
    ensures
        (a + b) + c == a + (b + c),
{
    assert((a + b) + c =~= a + (b + c));
}

/// Adds characters behind a text that is `start` followed by `acc`.
fn put(out: &mut Rendering, s: &str, Ghost(start): Ghost<Seq<Glyph>>, Ghost(acc): Ghost<Seq<Glyph>>)
    requires
        old(out)@ == start + acc,
    ensures
        final(out)@ == start + (acc + glyphs(s@)),
{
    out.push_str(s);
    proof {
        lemma_append_assoc(start, acc, glyphs(s@));
    }
}

/// Writes the settings of a node behind `out`.
fn render_config(node: &Node, out: &mut Rendering)
    ensures
        final(out)@ == old(out)@ + config_block(node@.config),
{
    let ghost start = out@;
    match node.get_instance_config() {
        Some(config) => {
            out.push_str("____________<BR/><BR ALIGN=\"LEFT\"/>");
            let ghost head = out@;
            let n = config.len();
            let mut k: usize = 0;
            while k < n
                invariant
                    k <= n,
                    n == config.pairs().len(),
                    out@ == head + config_rows(config.pairs(), k as nat),
                decreases n - k,
            {
                if k > 0 {
                    out.push_str("\n");
                }
                out.push_str("<B>");
                out.push_str(config.key_at(k));
                out.push_str("</B> = ");
                config.value_at(k).display(out);
                out.push_str("<BR ALIGN=\"LEFT\"/>");
                k = k + 1;
                assert(out@ =~= head + config_rows(config.pairs(), k as nat));
            }
            assert(out@ =~= start + config_block(node@.config));
        },
        None => {
            assert(out@ =~= start + config_block(node@.config));
        },
    }
}

impl CuConfig {
    /// Writes the lines that describe the node at `index` behind `out`.
    fn render_node(&self, index: NodeId, node: &Node, out: &mut Rendering)
        requires
            index < self@.nodes.len(),
            node@ == self@.nodes[index as int],
            node@.type_ is Some,
        ensures
            final(out)@ == old(out)@ + node_text(self@, index as int),
    {
        let ghost start = out@;
        out.push_str(int_to_string(index as i128).as_str());
        let ghost mut acc = glyphs(int_text(index as int));
        put(out, " [\n", Ghost(start), Ghost(acc));
        proof {
            acc = acc + glyphs(" [\n"@);
        }
        put(out, "shape=box,\n", Ghost(start), Ghost(acc));
        proof {
            acc = acc + glyphs("shape=box,\n"@);
        }
        put(out, "style=\"rounded, filled\",\n", Ghost(start), Ghost(acc));
        proof {
            acc = acc + glyphs("style=\"rounded, filled\",\n"@);
        }
        put(out, "fontname=\"Noto Sans\"\n", Ghost(start), Ghost(acc));
        proof {
            acc = acc + glyphs("fontname=\"Noto Sans\"\n"@);
        }
        let is_src = self.get_dst_edges(index).len() == 0;
        let is_sink = self.get_src_edges(index).len() == 0;
        let fill = if is_src {
            "fillcolor=lightgreen,\n"
        } else if is_sink {
            "fillcolor=lightblue,\n"
        } else {
            "fillcolor=lightgrey,\n"
        };
        assert(fill@ == fill_line(self@, index as int));
        put(out, fill, Ghost(start), Ghost(acc));
        proof {
            acc = acc + glyphs(fill_line(self@, index as int));
        }
        put(out, "color=grey,\n", Ghost(start), Ghost(acc));
        proof {
            acc = acc + glyphs("color=grey,\n"@);
        }
        put(out, "labeljust=l,\n", Ghost(start), Ghost(acc));
        proof {
            acc = acc + glyphs("labeljust=l,\n"@);
        }
        put(out, "label=< <FONT COLOR=\"red\"><B>", Ghost(start), Ghost(acc));
        proof {
            acc = acc + glyphs("label=< <FONT COLOR=\"red\"><B>"@);
        }
        put(out, node.id(), Ghost(start), Ghost(acc));
        proof {
            acc = acc + glyphs(node@.id);
        }
        put(out, "</B></FONT> <FONT COLOR=\"dimgray\">[", Ghost(start), Ghost(acc));
        proof {
            acc = acc + glyphs("</B></FONT> <FONT COLOR=\"dimgray\">["@);
        }
        put(out, node.get_type(), Ghost(start), Ghost(acc));
        proof {
            acc = acc + glyphs(node@.type_->Some_0);
        }
        put(out, "]</FONT><BR ALIGN=\"LEFT\"/>", Ghost(start), Ghost(acc));
        proof {
            acc = acc + glyphs("]</FONT><BR ALIGN=\"LEFT\"/>"@);
        }
        render_config(node, out);
        proof {
            lemma_append_assoc(start, acc, config_block(node@.config));
            acc = acc + config_block(node@.config);
        }
        put(out, " >\n", Ghost(start), Ghost(acc));
        proof {
            acc = acc + glyphs(" >\n"@);
        }
        put(out, "];\n", Ghost(start), Ghost(acc));
        proof {
            acc = acc + glyphs("];\n"@);
        }
        assert(acc == node_text(self@, index as int));
    }

    /// Writes the line that describes the edge at `index` behind `out`.
    fn render_edge(&self, index: usize, out: &mut Rendering)
        requires
            index < self@.edges.len(),
        ensures
            final(out)@ == old(out)@ + edge_text(self@.edges[index as int]),
    {
        let ghost start = out@;
        if let Some((src, dst)) = self.get_edge_endpoints(index) {
            if let Some(cnx) = self.get_edge_weight(index) {
                out.push_str(int_to_string(src as i128).as_str());
                out.push_str(" -> ");
                out.push_str(int_to_string(dst as i128).as_str());
                out.push_str(" [label=< <B><FONT COLOR=\"gray\">");
                out.push_str(encode_text(cnx.get_msg()).as_str());
                out.push_str("</FONT></B> >];\n");
            }
        }
        assert(out@ =~= start + edge_text(self@.edges[index as int]));
    }

    /// Describes the graph for a layout engine: one block of lines for each
    /// task, labelled with its identifier, its implementation and its
    /// settings, then one line for each connection, labelled with its
    /// message type. Every task must name its implementation.
    pub fn render(&self) -> (out: Rendering)
        requires
            all_typed(self@.nodes),
        ensures
            out@ == dot_text(self@),
    {
        let mut out = Rendering::new();
        out.push_str("digraph G {\n");
        let ghost head = out@;
        let nodes = self.get_all_nodes();
        let mut i: usize = 0;
        while i < nodes.len()
            invariant
                i <= nodes@.len(),
                nodes@.len() == self@.nodes.len(),
                all_typed(self@.nodes),
                forall|k: int|
                    0 <= k < nodes@.len() ==> (#[trigger] nodes@[k]).0 == k && nodes@[k].1@
                        == self@.nodes[k],
                out@ == head + nodes_text(self@, i as nat),
            decreases nodes@.len() - i,
        {
            assert(self@.nodes[i as int].type_ is Some);
            self.render_node(nodes[i].0, nodes[i].1, &mut out);
            i = i + 1;
            assert(out@ =~= head + nodes_text(self@, i as nat));
        }
        let ghost middle = out@;
        let edges = self.get_all_edges();
        let mut e: usize = 0;
        while e < edges.len()
            invariant
                e <= edges@.len(),
                edges@.len() == self@.edges.len(),
                forall|k: int| 0 <= k < edges@.len() ==> edges@[k] == k,
                out@ == middle + edges_text(self@.edges, e as nat),
            decreases edges@.len() - e,
        {
            self.render_edge(edges[e], &mut out);
            e = e + 1;
            assert(out@ =~= middle + edges_text(self@.edges, e as nat));
        }
        out.push_str("}\n");
        assert(out@ =~= dot_text(self@));
        out
    }
}

} // verus!
