//! Views of a graph in plain text: DOT and Markdown.

use super::escape::{escape, escaped, Escape};
use super::graph::{annotations, edge_total, node_named, Arc, Dag, Node, ViewerDag, ViewerNode};
use crate::sdk::{answers, fault, ExtensionError};
use crate::table::{find, holds, in_order, member, put_in_order};
use crate::text::{decimal, decimal_text, decimal_wide, join2, join3, same};
use vstd::prelude::*;

verus! {

/// The colour, glyph and label of a status.
pub struct StatusStyle {
    pub day: String,
    pub glyph: String,
    pub label: String,
}

/// What a [`StatusStyle`] holds.
#[verifier::ext_equal]
pub struct Style {
    pub day: Seq<char>,
    pub glyph: Seq<char>,
    pub label: Seq<char>,
}

impl DeepView for StatusStyle {
    type V = Style;

    open spec fn deep_view(&self) -> Style {
        Style { day: self.day@, glyph: self.glyph@, label: self.label@ }
    }
}

/// The colours of the views.
pub struct Palette {
    pub background: String,
    pub root: String,
    pub structural_edges: String,
    pub cross_arcs: String,
    pub arc_kinds: Vec<(String, String)>,
    pub statuses: Vec<(String, StatusStyle)>,
}

/// What a [`Palette`] holds.
#[verifier::ext_equal]
pub struct Colours {
    pub background: Seq<char>,
    pub root: Seq<char>,
    pub structural_edges: Seq<char>,
    pub cross_arcs: Seq<char>,
    pub arc_kinds: Seq<(Seq<char>, Seq<char>)>,
    pub statuses: Seq<(Seq<char>, Style)>,
}

impl DeepView for Palette {
    type V = Colours;

    open spec fn deep_view(&self) -> Colours {
        Colours {
            background: self.background@,
            root: self.root@,
            structural_edges: self.structural_edges@,
            cross_arcs: self.cross_arcs@,
            arc_kinds: self.arc_kinds.deep_view(),
            statuses: self.statuses.deep_view(),
        }
    }
}

/// The shape of a kind of node.
pub open spec fn shape_of(kind: Seq<char>) -> Seq<char> {
    if kind == "root"@ || kind == "attempt"@ {
        "circle"@
    } else if kind == "claim"@ {
        "diamond"@
    } else if kind == "checkpoint"@ {
        "box"@
    } else if kind == "synthesis"@ {
        "doublecircle"@
    } else {
        "ellipse"@
    }
}

fn graphviz_shape(kind: &str) -> (r: &'static str)
    ensures
        r@ == shape_of(kind@),
{
    if same(kind, "root") || same(kind, "attempt") {
        "circle"
    } else if same(kind, "claim") {
        "diamond"
    } else if same(kind, "checkpoint") {
        "box"
    } else if same(kind, "synthesis") {
        "doublecircle"
    } else {
        "ellipse"
    }
}

/// A node as a line of DOT.
pub open spec fn dot_node(node: Node, palette: Colours) -> Result<Seq<char>, Seq<char>> {
    match member(palette.statuses, node.status) {
        None => Err("causal-dag palette has no status `"@ + node.status + "`"@),
        Some(style) => {
            let is_root = node.kind == "root"@;
            let color = if is_root {
                palette.root
            } else {
                style.day
            };
            let glyph = if is_root {
                "○"@
            } else {
                style.glyph
            };
            Ok(
                "  \""@ + escaped(Escape::Dot, node.id) + "\" [label=\""@ + escaped(
                    Escape::Dot,
                    glyph,
                ) + " "@ + escaped(Escape::Dot, node.title) + "\", shape="@ + shape_of(node.kind)
                    + ", color=\""@ + color + "\", fontcolor=\""@ + color + "\", penwidth="@ + (
                if is_root || node.kind == "synthesis"@ {
                    "2"@
                } else {
                    "1"@
                }) + "];\n"@,
            )
        },
    }
}

fn dot_node_line(node: &ViewerNode, palette: &Palette) -> (r: Result<String, ExtensionError>)
    ensures
        answers(r, dot_node(node.deep_view(), palette.deep_view())),
{
    let style = match find(&palette.statuses, &node.status) {
        Some(style) => style,
        None => {
            return Err(
                fault(join3("causal-dag palette has no status `", &node.status, "`")),
            );
        },
    };
    let is_root = same(&node.kind, "root");
    let color = if is_root {
        &palette.root
    } else {
        &style.day
    };
    let glyph = if is_root {
        "○"
    } else {
        style.glyph.as_str()
    };
    let mut out = join2("  \"", &escape(Escape::Dot, &node.id));
    out.push_str("\" [label=\"");
    out.push_str(&escape(Escape::Dot, glyph));
    out.push_str(" ");
    out.push_str(&escape(Escape::Dot, &node.title));
    out.push_str("\", shape=");
    out.push_str(graphviz_shape(&node.kind));
    out.push_str(", color=\"");
    out.push_str(color);
    out.push_str("\", fontcolor=\"");
    out.push_str(color);
    out.push_str("\", penwidth=");
    out.push_str(
        if is_root || same(&node.kind, "synthesis") {
            "2"
        } else {
            "1"
        },
    );
    out.push_str("];\n");
    Ok(out)
}

/// The nodes from position `i` on as lines of DOT, behind what was written.
pub open spec fn dot_nodes(
    nodes: Seq<Node>,
    palette: Colours,
    i: nat,
    out: Seq<char>,
) -> Result<Seq<char>, Seq<char>>
    decreases nodes.len() - i,
{
    if i >= nodes.len() {
        Ok(out)
    } else {
        match dot_node(nodes[i as int], palette) {
            Err(e) => Err(e),
            Ok(line) => dot_nodes(nodes, palette, i + 1, out + line),
        }
    }
}

/// The backbone as lines of DOT, from position `i` on.
pub open spec fn dot_backbone(
    nodes: Seq<Node>,
    palette: Colours,
    i: nat,
    out: Seq<char>,
) -> Seq<char>
    decreases nodes.len() - i,
{
    if i >= nodes.len() {
        out
    } else {
        match nodes[i as int].parent {
            None => dot_backbone(nodes, palette, i + 1, out),
            Some(parent) => dot_backbone(
                nodes,
                palette,
                i + 1,
                out + ("  \""@ + escaped(Escape::Dot, parent) + "\" -> \""@ + escaped(
                    Escape::Dot,
                    nodes[i as int].id,
                ) + "\" [color=\""@ + palette.structural_edges + "\"];\n"@),
            ),
        }
    }
}

/// The colour of a kind of cross-arc.
pub open spec fn arc_colour(palette: Colours, kind: Seq<char>) -> Seq<char> {
    match member(palette.arc_kinds, kind) {
        Some(colour) => colour,
        None => palette.cross_arcs,
    }
}

/// The cross-arcs as lines of DOT, from position `i` on.
pub open spec fn dot_arcs(arcs: Seq<Arc>, palette: Colours, i: nat, out: Seq<char>) -> Seq<char>
    decreases arcs.len() - i,
{
    if i >= arcs.len() {
        out
    } else {
        let arc = arcs[i as int];
        dot_arcs(
            arcs,
            palette,
            i + 1,
            out + ("  \""@ + escaped(Escape::Dot, arc.from) + "\" -> \""@ + escaped(
                Escape::Dot,
                arc.to,
            ) + "\" [label=\""@ + escaped(Escape::Dot, arc.kind) + "\", style=dashed, color=\""@
                + palette.cross_arcs + "\", fontcolor=\""@ + arc_colour(palette, arc.kind)
                + "\", constraint=false];\n"@),
        )
    }
}

/// The head of a DOT graph.
pub open spec fn dot_head(palette: Colours) -> Seq<char> {
    "digraph causal_dag {\n"@ + "  graph [rankdir=TB, bgcolor=\""@ + palette.background
        + "\", pad=0.25, nodesep=0.35, ranksep=0.6];\n"@
        + "  node [fontname=\"monospace\", style=\"filled\", fillcolor=\""@ + palette.background
        + "\"];\n"@ + "  edge [fontname=\"monospace\", fontsize=9];\n"@
}

/// A graph in DOT.
pub open spec fn dot_of(dag: Dag, palette: Colours) -> Result<Seq<char>, Seq<char>> {
    match dot_nodes(dag.nodes, palette, 0, dot_head(palette)) {
        Err(e) => Err(e),
        Ok(out) => Ok(
            dot_arcs(dag.arcs, palette, 0, dot_backbone(dag.nodes, palette, 0, out)) + "}\n"@,
        ),
    }
}

/// Renders a graph in DOT.
pub fn render_dot(dag: &ViewerDag, palette: &Palette) -> (r: Result<String, ExtensionError>)
    ensures
        answers(r, dot_of(dag.deep_view(), palette.deep_view())),
{
    let ghost nodes = dag.nodes.deep_view();
    let ghost arcs = dag.arcs.deep_view();
    let ghost colours = palette.deep_view();
    let mut dot = "digraph causal_dag {\n".to_owned();
    dot.push_str("  graph [rankdir=TB, bgcolor=\"");
    dot.push_str(&palette.background);
    dot.push_str("\", pad=0.25, nodesep=0.35, ranksep=0.6];\n");
    dot.push_str("  node [fontname=\"monospace\", style=\"filled\", fillcolor=\"");
    dot.push_str(&palette.background);
    dot.push_str("\"];\n");
    dot.push_str("  edge [fontname=\"monospace\", fontsize=9];\n");
    let mut i: usize = 0;
    while i < dag.nodes.len()
        invariant
            i <= dag.nodes@.len(),
            nodes == dag.nodes.deep_view(),
            colours == palette.deep_view(),
            dot_nodes(nodes, colours, 0, dot_head(colours)) == dot_nodes(
                nodes,
                colours,
                i as nat,
                dot@,
            ),
        decreases dag.nodes@.len() - i,
    {
        assert(nodes[i as int] == dag.nodes@[i as int].deep_view());
        match dot_node_line(&dag.nodes[i], palette) {
            Ok(line) => dot.push_str(&line),
            Err(e) => return Err(e),
        }
        i += 1;
    }
    let ghost with_nodes = dot@;
    let mut i: usize = 0;
    while i < dag.nodes.len()
        invariant
            i <= dag.nodes@.len(),
            nodes == dag.nodes.deep_view(),
            colours == palette.deep_view(),
            dot_backbone(nodes, colours, 0, with_nodes) == dot_backbone(
                nodes,
                colours,
                i as nat,
                dot@,
            ),
        decreases dag.nodes@.len() - i,
    {
        assert(nodes[i as int] == dag.nodes@[i as int].deep_view());
        if let Some(parent) = &dag.nodes[i].parent {
            let mut line = join2("  \"", &escape(Escape::Dot, parent));
            line.push_str("\" -> \"");
            line.push_str(&escape(Escape::Dot, &dag.nodes[i].id));
            line.push_str("\" [color=\"");
            line.push_str(&palette.structural_edges);
            line.push_str("\"];\n");
            dot.push_str(&line);
        }
        i += 1;
    }
    let ghost with_backbone = dot@;
    let mut i: usize = 0;
    while i < dag.arcs.len()
        invariant
            i <= dag.arcs@.len(),
            arcs == dag.arcs.deep_view(),
            colours == palette.deep_view(),
            dot_arcs(arcs, colours, 0, with_backbone) == dot_arcs(arcs, colours, i as nat, dot@),
        decreases dag.arcs@.len() - i,
    {
        let arc = &dag.arcs[i];
        assert(arcs[i as int] == arc.deep_view());
        let colour = match find(&palette.arc_kinds, &arc.kind) {
            Some(colour) => colour,
            None => &palette.cross_arcs,
        };
        let mut line = join2("  \"", &escape(Escape::Dot, &arc.from));
        line.push_str("\" -> \"");
        line.push_str(&escape(Escape::Dot, &arc.to));
        line.push_str("\" [label=\"");
        line.push_str(&escape(Escape::Dot, &arc.kind));
        line.push_str("\", style=dashed, color=\"");
        line.push_str(&palette.cross_arcs);
        line.push_str("\", fontcolor=\"");
        line.push_str(colour);
        line.push_str("\", constraint=false];\n");
        dot.push_str(&line);
        i += 1;
    }
    dot.push_str("}\n");
    Ok(dot)
}

/// A text inside Markdown.
pub open spec fn md(s: Seq<char>) -> Seq<char> {
    escaped(Escape::Markdown, s)
}

/// The ids of the nodes below a node, among the first `n`.
pub open spec fn below(nodes: Seq<Node>, id: Seq<char>, n: nat) -> Seq<Seq<char>>
    decreases n,
{
    if n == 0 {
        Seq::empty()
    } else if nodes[n - 1].parent == Some(id) {
        below(nodes, id, (n - 1) as nat).push(nodes[n - 1].id)
    } else {
        below(nodes, id, (n - 1) as nat)
    }
}

/// The children of a node, by ascending id.
pub open spec fn children_of(nodes: Seq<Node>, id: Seq<char>) -> Seq<Seq<char>> {
    in_order(below(nodes, id, nodes.len()))
}

impl ViewerDag {
    /// The ids of the children of a node, in ascending order.
    pub fn children(&self, id: &str) -> (r: Vec<String>)
        ensures
            r.deep_view() == children_of(self.deep_view().nodes, id@),
    {
        let ghost nodes = self.nodes.deep_view();
        let mut found: Vec<String> = Vec::new();
        let mut i: usize = 0;
        assert(found.deep_view() =~= Seq::empty());
        while i < self.nodes.len()
            invariant
                i <= self.nodes@.len(),
                nodes == self.nodes.deep_view(),
                found.deep_view() == below(nodes, id@, i as nat),
            decreases self.nodes@.len() - i,
        {
            assert(nodes[i as int] == self.nodes@[i as int].deep_view());
            if let Some(parent) = &self.nodes[i].parent {
                if same(parent, id) {
                    let ghost was = found.deep_view();
                    found.push(self.nodes[i].id.clone());
                    assert(found.deep_view() =~= was.push(nodes[i as int].id));
                }
            }
            i += 1;
        }
        put_in_order(&found)
    }
}

/// Two spaces for each level.
pub open spec fn indent(depth: nat) -> Seq<char>
    decreases depth,
{
    if depth == 0 {
        Seq::empty()
    } else {
        indent((depth - 1) as nat) + "  "@
    }
}

fn indentation(depth: usize) -> (r: String)
    ensures
        r@ == indent(depth as nat),
{
    let mut out = String::new();
    let mut i: usize = 0;
    while i < depth
        invariant
            i <= depth,
            out@ == indent(i as nat),
        decreases depth - i,
    {
        out.push_str("  ");
        i += 1;
    }
    out
}

/// A node as a line of the outline.
pub open spec fn outline_line(node: Node, depth: nat) -> Seq<char> {
    indent(depth) + "- **"@ + md(node.title) + "** _"@ + md(node.status) + "_ — "@ + md(
        node.summary,
    ) + "\n"@
}

/// What the outline is after a node and all below it, and which nodes it then has: a node that
/// it has already is left out. There are at most `levels` levels below the node.
pub open spec fn outline(
    nodes: Seq<Node>,
    id: Seq<char>,
    depth: nat,
    levels: nat,
    seen: Seq<Seq<char>>,
    out: Seq<char>,
) -> (Seq<Seq<char>>, Seq<char>)
    decreases levels, 0nat,
{
    if seen.contains(id) {
        (seen, out)
    } else {
        match node_named(nodes, id, 0) {
            None => (seen.push(id), out),
            Some(node) => if levels == 0 {
                (seen.push(id), out + outline_line(node, depth))
            } else {
                outline_each(
                    nodes,
                    children_of(nodes, id),
                    0,
                    depth + 1,
                    (levels - 1) as nat,
                    seen.push(id),
                    out + outline_line(node, depth),
                )
            },
        }
    }
}

/// The outline after the nodes of some ids, from position `i` on, and all below them.
pub open spec fn outline_each(
    nodes: Seq<Node>,
    ids: Seq<Seq<char>>,
    i: nat,
    depth: nat,
    levels: nat,
    seen: Seq<Seq<char>>,
    out: Seq<char>,
) -> (Seq<Seq<char>>, Seq<char>)
    decreases levels, ids.len() - i + 1,
{
    if i >= ids.len() {
        (seen, out)
    } else {
        let (seen, out) = outline(nodes, ids[i as int], depth, levels, seen, out);
        outline_each(nodes, ids, i + 1, depth, levels, seen, out)
    }
}

fn render_outline(
    dag: &ViewerDag,
    id: &str,
    depth: usize,
    levels: usize,
    seen: &mut Vec<String>,
    out: &mut String,
)
    requires
        depth + levels <= usize::MAX,
    ensures
        (final(seen).deep_view(), final(out)@) == outline(
            dag.deep_view().nodes,
            id@,
            depth as nat,
            levels as nat,
            old(seen).deep_view(),
            old(out)@,
        ),
    decreases levels, 0nat,
{
    if holds(seen, id) {
        return;
    }
    let ghost was = seen.deep_view();
    seen.push(id.to_owned());
    assert(seen.deep_view() =~= was.push(id@));
    let node = match dag.node_by_id(id) {
        Some(node) => node,
        None => return,
    };
    let mut line = indentation(depth);
    line.push_str("- **");
    line.push_str(&escape(Escape::Markdown, &node.title));
    line.push_str("** _");
    line.push_str(&escape(Escape::Markdown, &node.status));
    line.push_str("_ — ");
    line.push_str(&escape(Escape::Markdown, &node.summary));
    line.push_str("\n");
    out.push_str(&line);
    if levels > 0 {
        let children = dag.children(id);
        render_outlines(dag, &children, depth + 1, levels - 1, seen, out);
    }
}

fn render_outlines(
    dag: &ViewerDag,
    ids: &Vec<String>,
    depth: usize,
    levels: usize,
    seen: &mut Vec<String>,
    out: &mut String,
)
    requires
        depth + levels <= usize::MAX,
    ensures
        (final(seen).deep_view(), final(out)@) == outline_each(
            dag.deep_view().nodes,
            ids.deep_view(),
            0,
            depth as nat,
            levels as nat,
            old(seen).deep_view(),
            old(out)@,
        ),
    decreases levels, ids@.len() + 1,
{
    let ghost nodes = dag.deep_view().nodes;
    let ghost all = ids.deep_view();
    let mut i: usize = 0;
    while i < ids.len()
        invariant
            i <= ids@.len(),
            depth + levels <= usize::MAX,
            nodes == dag.deep_view().nodes,
            all == ids.deep_view(),
            outline_each(
                nodes,
                all,
                0,
                depth as nat,
                levels as nat,
                old(seen).deep_view(),
                old(out)@,
            ) == outline_each(
                nodes,
                all,
                i as nat,
                depth as nat,
                levels as nat,
                seen.deep_view(),
                out@,
            ),
        decreases ids@.len() - i,
    {
        assert(all[i as int] == ids@[i as int]@);
        render_outline(dag, &ids[i], depth, levels, seen, out);
        i += 1;
    }
}

/// Whether a status is one of a dead end.
pub open spec fn is_dead(status: Seq<char>) -> bool {
    status == "dead_end"@ || status == "abandoned"@ || status == "superseded"@
}

/// Whether a status is one of the open frontier.
pub open spec fn is_open(status: Seq<char>) -> bool {
    status == "open"@ || status == "blocked"@ || status == "inconclusive"@
}

/// Whether a node is listed among the dead ends, or else on the open frontier.
pub open spec fn listed(node: Node, dead: bool) -> bool {
    if dead {
        is_dead(node.status)
    } else {
        is_open(node.status)
    }
}

/// How many of the first `n` nodes are listed.
pub open spec fn listed_count(nodes: Seq<Node>, dead: bool, n: nat) -> nat
    decreases n,
{
    if n == 0 {
        0
    } else {
        listed_count(nodes, dead, (n - 1) as nat) + (if listed(nodes[n - 1], dead) {
            1nat
        } else {
            0
        })
    }
}

/// The listed nodes as lines of Markdown, from position `i` on.
pub open spec fn listed_lines(nodes: Seq<Node>, dead: bool, i: nat, out: Seq<char>) -> Seq<char>
    decreases nodes.len() - i,
{
    if i >= nodes.len() {
        out
    } else if listed(nodes[i as int], dead) {
        let node = nodes[i as int];
        listed_lines(
            nodes,
            dead,
            i + 1,
            out + ("- **"@ + md(node.title) + "** (`"@ + md(node.status) + "`) — "@ + md(
                node.summary,
            ) + "\n"@),
        )
    } else {
        listed_lines(nodes, dead, i + 1, out)
    }
}

/// The listed nodes in Markdown, or a word that there is none.
pub open spec fn listed_section(nodes: Seq<Node>, dead: bool, out: Seq<char>) -> Seq<char> {
    let lines = listed_lines(nodes, dead, 0, out);
    if listed_count(nodes, dead, nodes.len()) == 0 {
        lines + "_None._\n"@
    } else {
        lines
    }
}

fn push_status_nodes(out: &mut String, dag: &ViewerDag, dead: bool)
    ensures
        final(out)@ == listed_section(dag.deep_view().nodes, dead, old(out)@),
{
    let ghost nodes = dag.nodes.deep_view();
    let mut any = false;
    let mut i: usize = 0;
    while i < dag.nodes.len()
        invariant
            i <= dag.nodes@.len(),
            nodes == dag.nodes.deep_view(),
            any == (listed_count(nodes, dead, i as nat) > 0),
            listed_lines(nodes, dead, 0, old(out)@) == listed_lines(nodes, dead, i as nat, out@),
        decreases dag.nodes@.len() - i,
    {
        let node = &dag.nodes[i];
        assert(nodes[i as int] == node.deep_view());
        let shown = if dead {
            same(&node.status, "dead_end") || same(&node.status, "abandoned") || same(
                &node.status,
                "superseded",
            )
        } else {
            same(&node.status, "open") || same(&node.status, "blocked") || same(
                &node.status,
                "inconclusive",
            )
        };
        if shown {
            any = true;
            let mut line = join2("- **", &escape(Escape::Markdown, &node.title));
            line.push_str("** (`");
            line.push_str(&escape(Escape::Markdown, &node.status));
            line.push_str("`) — ");
            line.push_str(&escape(Escape::Markdown, &node.summary));
            line.push_str("\n");
            out.push_str(&line);
        }
        i += 1;
    }
    if !any {
        out.push_str("_None._\n");
    }
}

/// The title of a node, or its id where there is no such node.
pub open spec fn title_or_id(nodes: Seq<Node>, id: Seq<char>) -> Seq<char> {
    match node_named(nodes, id, 0) {
        Some(node) => node.title,
        None => id,
    }
}

/// The cross-arcs as lines of Markdown, from position `i` on.
pub open spec fn arc_lines(nodes: Seq<Node>, arcs: Seq<Arc>, i: nat, out: Seq<char>) -> Seq<char>
    decreases arcs.len() - i,
{
    if i >= arcs.len() {
        out
    } else {
        let arc = arcs[i as int];
        arc_lines(
            nodes,
            arcs,
            i + 1,
            out + ("- **"@ + md(arc.kind) + ":** "@ + md(title_or_id(nodes, arc.from)) + " → "@
                + md(title_or_id(nodes, arc.to)) + (if arc.note.len() == 0 {
                Seq::empty()
            } else {
                " — "@ + md(arc.note)
            }) + "\n"@),
        )
    }
}

/// The head of the Markdown view.
pub open spec fn markdown_head(dag: Dag) -> Seq<char> {
    "# "@ + md(dag.title) + "\n\n- Session: `"@ + md(dag.session_id) + "`\n- Construction: `"@ + md(
        dag.operation,
    ) + "`\n- Nodes: "@ + decimal(dag.nodes.len()) + "\n- Edges: "@ + decimal(edge_total(dag))
        + "\n- Cross-arcs: "@ + decimal(annotations(dag.arcs, dag.arcs.len()))
        + "\n\n## Backbone\n\n"@
}

/// The backbone section of the Markdown view.
pub open spec fn markdown_backbone(dag: Dag) -> Seq<char> {
    if dag.roots.len() == 0 {
        markdown_head(dag) + "_Empty graph._\n"@
    } else {
        outline_each(
            dag.nodes,
            dag.roots,
            0,
            0,
            dag.nodes.len(),
            Seq::empty(),
            markdown_head(dag),
        ).1
    }
}

/// The Markdown view up to the cross-arcs.
pub open spec fn markdown_lists(dag: Dag) -> Seq<char> {
    listed_section(
        dag.nodes,
        false,
        listed_section(dag.nodes, true, markdown_backbone(dag) + "\n## Dead Ends\n\n"@)
            + "\n## Open Frontier\n\n"@,
    ) + "\n## Cross-Arcs\n\n"@
}

/// A graph in Markdown: its outline, its dead ends, its open frontier and its cross-arcs.
pub open spec fn markdown_of(dag: Dag) -> Seq<char> {
    if dag.arcs.len() == 0 {
        markdown_lists(dag) + "_None._\n"@
    } else {
        arc_lines(dag.nodes, dag.arcs, 0, markdown_lists(dag))
    }
}

/// Renders a graph in Markdown.
pub fn render_markdown(dag: &ViewerDag) -> (r: String)
    ensures
        r@ == markdown_of(dag.deep_view()),
{
    let ghost model = dag.deep_view();
    let nodes_below: usize = if dag.nodes.len() >= dag.roots.len() {
        dag.nodes.len() - dag.roots.len()
    } else {
        0
    };
    let edges: u128 = nodes_below as u128 + dag.arcs.len() as u128;
    let mut markdown = join2("# ", &escape(Escape::Markdown, &dag.title));
    markdown.push_str("\n\n- Session: `");
    markdown.push_str(&escape(Escape::Markdown, &dag.session_id));
    markdown.push_str("`\n- Construction: `");
    markdown.push_str(&escape(Escape::Markdown, &dag.operation));
    markdown.push_str("`\n- Nodes: ");
    markdown.push_str(&decimal_text(dag.node_count() as u64));
    markdown.push_str("\n- Edges: ");
    markdown.push_str(&decimal_wide(edges));
    markdown.push_str("\n- Cross-arcs: ");
    markdown.push_str(&decimal_text(dag.cross_arc_count() as u64));
    markdown.push_str("\n\n## Backbone\n\n");
    if dag.roots.len() == 0 {
        markdown.push_str("_Empty graph._\n");
    } else {
        let mut seen: Vec<String> = Vec::new();
        assert(seen.deep_view() =~= Seq::empty());
        render_outlines(dag, &dag.roots, 0, dag.nodes.len(), &mut seen, &mut markdown);
    }
    assert(markdown@ == markdown_backbone(model));
    markdown.push_str("\n## Dead Ends\n\n");
    push_status_nodes(&mut markdown, dag, true);
    markdown.push_str("\n## Open Frontier\n\n");
    push_status_nodes(&mut markdown, dag, false);
    markdown.push_str("\n## Cross-Arcs\n\n");
    if dag.arcs.len() == 0 {
        markdown.push_str("_None._\n");
        return markdown;
    }
    let ghost nodes = dag.nodes.deep_view();
    let ghost arcs = dag.arcs.deep_view();
    let mut i: usize = 0;
    while i < dag.arcs.len()
        invariant
            i <= dag.arcs@.len(),
            model == dag.deep_view(),
            nodes == dag.nodes.deep_view(),
            arcs == dag.arcs.deep_view(),
            arcs.len() > 0,
            arc_lines(nodes, arcs, 0, markdown_lists(model)) == arc_lines(
                nodes,
                arcs,
                i as nat,
                markdown@,
            ),
        decreases dag.arcs@.len() - i,
    {
        let arc = &dag.arcs[i];
        assert(arcs[i as int] == arc.deep_view());
        let from = match dag.node_by_id(&arc.from) {
            Some(node) => &node.title,
            None => &arc.from,
        };
        let to = match dag.node_by_id(&arc.to) {
            Some(node) => &node.title,
            None => &arc.to,
        };
        let mut line = join2("- **", &escape(Escape::Markdown, &arc.kind));
        line.push_str(":** ");
        line.push_str(&escape(Escape::Markdown, from));
        line.push_str(" → ");
        line.push_str(&escape(Escape::Markdown, to));
        if !arc.note.as_str().is_empty() {
            line.push_str(&join2(" — ", &escape(Escape::Markdown, &arc.note)));
        } else {
            assert(line@ + Seq::<char>::empty() =~= line@);
        }
        line.push_str("\n");
        markdown.push_str(&line);
        i += 1;
    }
    markdown
}

} // verus!
