//! What the plain-text views list: which nodes stand under which heading, and by which lines.

use super::escape::{escaped, Escape};
use super::graph::{annotations, edge_total, node_named, Arc, Dag, Node};
use super::text::{
    arc_lines, children_of, dot_arcs, dot_backbone, dot_head, dot_node, dot_nodes, dot_of, indent,
    listed, listed_count, listed_lines, listed_section, markdown_backbone, markdown_head,
    markdown_of, outline, outline_each, outline_line, Colours,
};
use crate::table::member;
use crate::text::decimal;
use vstd::prelude::*;

verus! {

/// Lines one behind the other.
pub open spec fn flat(lines: Seq<Seq<char>>) -> Seq<char>
    decreases lines.len(),
{
    if lines.len() == 0 {
        Seq::empty()
    } else {
        flat(lines.drop_last()) + lines.last()
    }
}

proof fn lemma_flat_push(lines: Seq<Seq<char>>, line: Seq<char>)
    ensures
        flat(lines.push(line)) == flat(lines) + line,
{
    assert(lines.push(line).drop_last() =~= lines);
}

proof fn lemma_flat_add(a: Seq<Seq<char>>, b: Seq<Seq<char>>)
    ensures
        flat(a + b) == flat(a) + flat(b),
    decreases b.len(),
{
    if b.len() == 0 {
        assert(a + b =~= a);
        assert(flat(a) + flat(b) =~= flat(a));
    } else {
        lemma_flat_add(a, b.drop_last());
        assert((a + b).drop_last() =~= a + b.drop_last());
        assert(flat(a) + (flat(b.drop_last()) + b.last()) =~= flat(a) + flat(b.drop_last())
            + b.last());
    }
}

/// A node as an entry of a list.
pub open spec fn entry(node: Node) -> Seq<char> {
    "- **"@ + escaped(Escape::Markdown, node.title) + "** (`"@ + escaped(
        Escape::Markdown,
        node.status,
    ) + "`) — "@ + escaped(Escape::Markdown, node.summary) + "\n"@
}

/// Whether a node has one of three statuses.
pub open spec fn has_one(node: Node, a: Seq<char>, b: Seq<char>, c: Seq<char>) -> bool {
    node.status == a || node.status == b || node.status == c
}

/// The entries of those of the first `n` nodes that have one of three statuses.
pub open spec fn entries(
    nodes: Seq<Node>,
    a: Seq<char>,
    b: Seq<char>,
    c: Seq<char>,
    n: nat,
) -> Seq<Seq<char>>
    decreases n,
{
    if n == 0 {
        Seq::empty()
    } else if has_one(nodes[n - 1], a, b, c) {
        entries(nodes, a, b, c, (n - 1) as nat).push(entry(nodes[n - 1]))
    } else {
        entries(nodes, a, b, c, (n - 1) as nat)
    }
}

/// Entries, or a word that there are none.
pub open spec fn or_none(lines: Seq<Seq<char>>) -> Seq<char> {
    if lines.len() == 0 {
        "_None._\n"@
    } else {
        flat(lines)
    }
}

/// A list holds the entry of a node if the node has one of the three statuses, and no entry but
/// of such nodes.
pub proof fn entries_are_of_their_statuses(
    nodes: Seq<Node>,
    a: Seq<char>,
    b: Seq<char>,
    c: Seq<char>,
    n: nat,
    line: Seq<char>,
)
    requires
        n <= nodes.len(),
    ensures
        entries(nodes, a, b, c, n).contains(line) <==> exists|k: int|
            0 <= k < n && has_one(#[trigger] nodes[k], a, b, c) && entry(nodes[k]) == line,
    decreases n,
{
    if n > 0 {
        let m = (n - 1) as nat;
        entries_are_of_their_statuses(nodes, a, b, c, m, line);
        let rest = entries(nodes, a, b, c, m);
        let all = entries(nodes, a, b, c, n);
        if rest.contains(line) {
            let i = choose|i: int| 0 <= i < rest.len() && rest[i] == line;
            assert(all[i] == line);
        }
        if has_one(nodes[n - 1], a, b, c) {
            assert(all[rest.len() as int] == entry(nodes[n - 1]));
        }
        if all.contains(line) {
            let i = choose|i: int| 0 <= i < all.len() && all[i] == line;
            if i < rest.len() {
                assert(rest[i] == line);
            } else {
                assert(entry(nodes[n - 1]) == line);
            }
        }
    }
}

proof fn lemma_listed(
    nodes: Seq<Node>,
    dead: bool,
    a: Seq<char>,
    b: Seq<char>,
    c: Seq<char>,
    i: nat,
    start: Seq<char>,
)
    requires
        i <= nodes.len(),
        forall|k: int|
            0 <= k < nodes.len() ==> listed(#[trigger] nodes[k], dead) == has_one(
                nodes[k],
                a,
                b,
                c,
            ),
    ensures
        listed_lines(nodes, dead, i, start + flat(entries(nodes, a, b, c, i))) == start + flat(
            entries(nodes, a, b, c, nodes.len()),
        ),
        listed_count(nodes, dead, i) == entries(nodes, a, b, c, i).len(),
    decreases nodes.len() - i,
{
    lemma_count(nodes, dead, a, b, c, i);
    if i < nodes.len() {
        lemma_listed(nodes, dead, a, b, c, i + 1, start);
        let node = nodes[i as int];
        if has_one(node, a, b, c) {
            lemma_flat_push(entries(nodes, a, b, c, i), entry(node));
            assert(start + flat(entries(nodes, a, b, c, i)) + entry(node) =~= start + flat(
                entries(nodes, a, b, c, i + 1),
            ));
        }
    }
}

proof fn lemma_count(
    nodes: Seq<Node>,
    dead: bool,
    a: Seq<char>,
    b: Seq<char>,
    c: Seq<char>,
    i: nat,
)
    requires
        i <= nodes.len(),
        forall|k: int|
            0 <= k < nodes.len() ==> listed(#[trigger] nodes[k], dead) == has_one(
                nodes[k],
                a,
                b,
                c,
            ),
    ensures
        listed_count(nodes, dead, i) == entries(nodes, a, b, c, i).len(),
    decreases i,
{
    if i > 0 {
        lemma_count(nodes, dead, a, b, c, (i - 1) as nat);
        assert(listed(nodes[i - 1], dead) == has_one(nodes[i - 1], a, b, c));
    }
}

/// A cross-arc as an entry: its kind, the titles of the nodes that it joins, and its note.
pub open spec fn arc_entry(nodes: Seq<Node>, arc: Arc) -> Seq<char> {
    let from = match node_named(nodes, arc.from, 0) {
        Some(node) => node.title,
        None => arc.from,
    };
    let to = match node_named(nodes, arc.to, 0) {
        Some(node) => node.title,
        None => arc.to,
    };
    "- **"@ + escaped(Escape::Markdown, arc.kind) + ":** "@ + escaped(Escape::Markdown, from)
        + " → "@ + escaped(Escape::Markdown, to) + (if arc.note.len() == 0 {
        Seq::empty()
    } else {
        " — "@ + escaped(Escape::Markdown, arc.note)
    }) + "\n"@
}

proof fn lemma_arcs(nodes: Seq<Node>, arcs: Seq<Arc>, i: nat, start: Seq<char>)
    requires
        i <= arcs.len(),
    ensures
        arc_lines(
            nodes,
            arcs,
            i,
            start + flat(Seq::new(i, |k: int| arc_entry(nodes, arcs[k]))),
        ) == start + flat(Seq::new(arcs.len(), |k: int| arc_entry(nodes, arcs[k]))),
    decreases arcs.len() - i,
{
    if i < arcs.len() {
        lemma_arcs(nodes, arcs, i + 1, start);
        let done = Seq::new(i, |k: int| arc_entry(nodes, arcs[k]));
        let line = arc_entry(nodes, arcs[i as int]);
        lemma_flat_push(done, line);
        assert(done.push(line) =~= Seq::new(i + 1, |k: int| arc_entry(nodes, arcs[k])));
        assert(start + flat(done) + line =~= start + flat(done.push(line)));
    }
}

/// In the Markdown view the outline is followed by three lists. Under `Dead Ends` stands an entry
/// for each node whose status is `dead_end`, `abandoned` or `superseded`, under `Open Frontier`
/// one for each node whose status is `open`, `blocked` or `inconclusive`, and for no other; under
/// `Cross-Arcs` one for each cross-arc. A node that succeeded or was verified stands in neither
/// of the first two.
pub proof fn the_frontier_is_what_is_unsettled(dag: Dag, line: Seq<char>)
    ensures
        ({
            let n = dag.nodes.len();
            let ends = entries(dag.nodes, "dead_end"@, "abandoned"@, "superseded"@, n);
            let open = entries(dag.nodes, "open"@, "blocked"@, "inconclusive"@, n);
            let arcs = Seq::new(dag.arcs.len(), |k: int| arc_entry(dag.nodes, dag.arcs[k]));
            &&& markdown_of(dag) == markdown_backbone(dag) + "\n## Dead Ends\n\n"@ + or_none(ends)
                + "\n## Open Frontier\n\n"@ + or_none(open) + "\n## Cross-Arcs\n\n"@ + or_none(arcs)
            &&& open.contains(line) <==> exists|k: int|
                0 <= k < n && has_one(
                    #[trigger] dag.nodes[k],
                    "open"@,
                    "blocked"@,
                    "inconclusive"@,
                ) && entry(dag.nodes[k]) == line
            &&& ends.contains(line) <==> exists|k: int|
                0 <= k < n && has_one(
                    #[trigger] dag.nodes[k],
                    "dead_end"@,
                    "abandoned"@,
                    "superseded"@,
                ) && entry(dag.nodes[k]) == line
            &&& forall|k: int|
                0 <= k < n && ((#[trigger] dag.nodes[k]).status == "success"@
                    || dag.nodes[k].status == "verified"@) ==> !has_one(
                    dag.nodes[k],
                    "open"@,
                    "blocked"@,
                    "inconclusive"@,
                ) && !has_one(dag.nodes[k], "dead_end"@, "abandoned"@, "superseded"@)
        }),
{
    let nodes = dag.nodes;
    let n = nodes.len();
    let ends = entries(nodes, "dead_end"@, "abandoned"@, "superseded"@, n);
    let open = entries(nodes, "open"@, "blocked"@, "inconclusive"@, n);
    let first = markdown_backbone(dag) + "\n## Dead Ends\n\n"@;
    lemma_listed(nodes, true, "dead_end"@, "abandoned"@, "superseded"@, 0, first);
    lemma_count(nodes, true, "dead_end"@, "abandoned"@, "superseded"@, n);
    assert(first + flat(Seq::empty()) =~= first);
    let ended = first + or_none(ends);
    assert(listed_section(nodes, true, first) =~= ended) by {
        if ends.len() == 0 {
            assert(first + flat(ends) =~= first);
        }
    }
    let second = ended + "\n## Open Frontier\n\n"@;
    lemma_listed(nodes, false, "open"@, "blocked"@, "inconclusive"@, 0, second);
    lemma_count(nodes, false, "open"@, "blocked"@, "inconclusive"@, n);
    assert(second + flat(Seq::empty()) =~= second);
    assert(listed_section(nodes, false, second) =~= second + or_none(open)) by {
        if open.len() == 0 {
            assert(second + flat(open) =~= second);
        }
    }
    let third = second + or_none(open) + "\n## Cross-Arcs\n\n"@;
    lemma_arcs(nodes, dag.arcs, 0, third);
    let none = Seq::new(0nat, |k: int| arc_entry(nodes, dag.arcs[k]));
    assert(none =~= Seq::empty());
    assert(third + flat(none) =~= third);
    entries_are_of_their_statuses(nodes, "dead_end"@, "abandoned"@, "superseded"@, n, line);
    entries_are_of_their_statuses(nodes, "open"@, "blocked"@, "inconclusive"@, n, line);
    reveal_strlit("success");
    reveal_strlit("verified");
    reveal_strlit("open");
    reveal_strlit("blocked");
    reveal_strlit("inconclusive");
    reveal_strlit("dead_end");
    reveal_strlit("abandoned");
    reveal_strlit("superseded");
    assert("success"@[0] == 's' && "verified"@[0] == 'v' && "open"@[0] == 'o' && "blocked"@[0]
        == 'b' && "inconclusive"@[0] == 'i' && "dead_end"@[0] == 'd' && "abandoned"@[0] == 'a');
    assert("success"@[2] == 'c' && "superseded"@[2] == 'p');
}

/// A node as DOT draws it: in the shape of its kind and the colour and glyph of its status, with a
/// heavier outline where it is a root or a synthesis. A root has a colour and a glyph of its own.
pub open spec fn drawn(node: Node, shape: Seq<char>, glyph: Seq<char>, colour: Seq<char>, width: Seq<char>) -> Seq<
    char,
> {
    "  \""@ + escaped(Escape::Dot, node.id) + "\" [label=\""@ + escaped(Escape::Dot, glyph) + " "@
        + escaped(Escape::Dot, node.title) + "\", shape="@ + shape + ", color=\""@ + colour
        + "\", fontcolor=\""@ + colour + "\", penwidth="@ + width + "];\n"@
}

/// A node is drawn by its kind and its status, and only where the palette knows the status.
pub proof fn nodes_are_drawn_by_kind_and_status(node: Node, palette: Colours)
    ensures
        dot_node(node, palette) is Ok <==> member(palette.statuses, node.status) is Some,
        dot_node(node, palette) matches Ok(line) ==> {
            let style = member(palette.statuses, node.status)->0;
            &&& node.kind == "root"@ ==> line == drawn(
                node,
                "circle"@,
                "○"@,
                palette.root,
                "2"@,
            )
            &&& node.kind == "attempt"@ ==> line == drawn(
                node,
                "circle"@,
                style.glyph,
                style.day,
                "1"@,
            )
            &&& node.kind == "claim"@ ==> line == drawn(
                node,
                "diamond"@,
                style.glyph,
                style.day,
                "1"@,
            )
            &&& node.kind == "checkpoint"@ ==> line == drawn(
                node,
                "box"@,
                style.glyph,
                style.day,
                "1"@,
            )
            &&& node.kind == "synthesis"@ ==> line == drawn(
                node,
                "doublecircle"@,
                style.glyph,
                style.day,
                "2"@,
            )
        },
{
    reveal_strlit("root");
    reveal_strlit("attempt");
    reveal_strlit("claim");
    reveal_strlit("checkpoint");
    reveal_strlit("synthesis");
    assert("root"@.len() == 4 && "attempt"@.len() == 7 && "claim"@.len() == 5 && "checkpoint"@.len()
        == 10 && "synthesis"@.len() == 9);
}

proof fn lemma_dot_nodes(nodes: Seq<Node>, palette: Colours, i: nat, out: Seq<char>)
    requires
        dot_nodes(nodes, palette, i, out) is Ok,
        i <= nodes.len(),
    ensures
        dot_nodes(nodes, palette, i, out)->Ok_0 == out + flat(
            Seq::new((nodes.len() - i) as nat, |k: int| dot_node(nodes[i + k], palette)->Ok_0),
        ),
        forall|k: int| i <= k < nodes.len() ==> dot_node(#[trigger] nodes[k], palette) is Ok,
    decreases nodes.len() - i,
{
    let lines = Seq::new(
        (nodes.len() - i) as nat,
        |k: int| dot_node(nodes[i + k], palette)->Ok_0,
    );
    if i < nodes.len() {
        let line = dot_node(nodes[i as int], palette)->Ok_0;
        lemma_dot_nodes(nodes, palette, i + 1, out + line);
        let rest = Seq::new(
            (nodes.len() - i - 1) as nat,
            |k: int| dot_node(nodes[i + 1 + k], palette)->Ok_0,
        );
        assert(lines =~= seq![line] + rest);
        lemma_flat_add(seq![line], rest);
        lemma_flat_push(Seq::empty(), line);
        assert(Seq::<Seq<char>>::empty().push(line) =~= seq![line]);
        assert(flat(seq![line]) =~= line);
        assert(out + line + flat(rest) =~= out + (line + flat(rest)));
    } else {
        assert(lines =~= Seq::empty());
        assert(out + flat(lines) =~= out);
    }
}

/// The step of the backbone that leads to a node, as DOT draws it; nothing for a root.
pub open spec fn step_line(node: Node, palette: Colours) -> Seq<char> {
    match node.parent {
        None => Seq::empty(),
        Some(parent) => "  \""@ + escaped(Escape::Dot, parent) + "\" -> \""@ + escaped(
            Escape::Dot,
            node.id,
        ) + "\" [color=\""@ + palette.structural_edges + "\"];\n"@,
    }
}

proof fn lemma_dot_backbone(nodes: Seq<Node>, palette: Colours, i: nat, out: Seq<char>)
    requires
        i <= nodes.len(),
    ensures
        dot_backbone(nodes, palette, i, out) == out + flat(
            Seq::new((nodes.len() - i) as nat, |k: int| step_line(nodes[i + k], palette)),
        ),
    decreases nodes.len() - i,
{
    let lines = Seq::new((nodes.len() - i) as nat, |k: int| step_line(nodes[i + k], palette));
    if i < nodes.len() {
        let line = step_line(nodes[i as int], palette);
        lemma_dot_backbone(nodes, palette, i + 1, out + line);
        let rest = Seq::new(
            (nodes.len() - i - 1) as nat,
            |k: int| step_line(nodes[i + 1 + k], palette),
        );
        assert(lines =~= seq![line] + rest);
        lemma_flat_add(seq![line], rest);
        lemma_flat_push(Seq::empty(), line);
        assert(Seq::<Seq<char>>::empty().push(line) =~= seq![line]);
        assert(flat(seq![line]) =~= line);
        assert(out + line + flat(rest) =~= out + (line + flat(rest)));
        assert(nodes[i as int].parent is None ==> out + line =~= out);
    } else {
        assert(lines =~= Seq::empty());
        assert(out + flat(lines) =~= out);
    }
}

/// A cross-arc as DOT draws it: dashed from its one end to its other, under its kind, and with no
/// say in where the nodes stand.
pub open spec fn arc_line(arc: Arc, palette: Colours) -> Seq<char> {
    "  \""@ + escaped(Escape::Dot, arc.from) + "\" -> \""@ + escaped(Escape::Dot, arc.to)
        + "\" [label=\""@ + escaped(Escape::Dot, arc.kind) + "\", style=dashed, color=\""@
        + palette.cross_arcs + "\", fontcolor=\""@ + (match member(palette.arc_kinds, arc.kind) {
        Some(colour) => colour,
        None => palette.cross_arcs,
    }) + "\", constraint=false];\n"@
}

proof fn lemma_dot_arcs(arcs: Seq<Arc>, palette: Colours, i: nat, out: Seq<char>)
    requires
        i <= arcs.len(),
    ensures
        dot_arcs(arcs, palette, i, out) == out + flat(
            Seq::new((arcs.len() - i) as nat, |k: int| arc_line(arcs[i + k], palette)),
        ),
    decreases arcs.len() - i,
{
    let lines = Seq::new((arcs.len() - i) as nat, |k: int| arc_line(arcs[i + k], palette));
    if i < arcs.len() {
        let line = arc_line(arcs[i as int], palette);
        lemma_dot_arcs(arcs, palette, i + 1, out + line);
        let rest = Seq::new(
            (arcs.len() - i - 1) as nat,
            |k: int| arc_line(arcs[i + 1 + k], palette),
        );
        assert(lines =~= seq![line] + rest);
        lemma_flat_add(seq![line], rest);
        lemma_flat_push(Seq::empty(), line);
        assert(Seq::<Seq<char>>::empty().push(line) =~= seq![line]);
        assert(flat(seq![line]) =~= line);
        assert(out + line + flat(rest) =~= out + (line + flat(rest)));
    } else {
        assert(lines =~= Seq::empty());
        assert(out + flat(lines) =~= out);
    }
}

/// DOT draws each node once, then each step of the backbone, from a node's parent to it, then each
/// cross-arc, all in their order.
pub proof fn every_part_is_drawn(dag: Dag, palette: Colours)
    requires
        dot_of(dag, palette) is Ok,
    ensures
        dot_of(dag, palette)->Ok_0 == dot_head(palette) + flat(
            Seq::new(dag.nodes.len(), |k: int| dot_node(dag.nodes[k], palette)->Ok_0),
        ) + flat(Seq::new(dag.nodes.len(), |k: int| step_line(dag.nodes[k], palette))) + flat(
            Seq::new(dag.arcs.len(), |k: int| arc_line(dag.arcs[k], palette)),
        ) + "}\n"@,
{
    lemma_dot_nodes(dag.nodes, palette, 0, dot_head(palette));
    let nodes = dot_nodes(dag.nodes, palette, 0, dot_head(palette))->Ok_0;
    lemma_dot_backbone(dag.nodes, palette, 0, nodes);
    lemma_dot_arcs(dag.arcs, palette, 0, dot_backbone(dag.nodes, palette, 0, nodes));
    assert(Seq::new(dag.nodes.len(), |k: int| dot_node(dag.nodes[k], palette)->Ok_0) =~= Seq::new(
        (dag.nodes.len() - 0) as nat,
        |k: int| dot_node(dag.nodes[0 + k], palette)->Ok_0,
    ));
    assert(Seq::new(dag.nodes.len(), |k: int| step_line(dag.nodes[k], palette)) =~= Seq::new(
        (dag.nodes.len() - 0) as nat,
        |k: int| step_line(dag.nodes[0 + k], palette),
    ));
    assert(Seq::new(dag.arcs.len(), |k: int| arc_line(dag.arcs[k], palette)) =~= Seq::new(
        (dag.arcs.len() - 0) as nat,
        |k: int| arc_line(dag.arcs[0 + k], palette),
    ));
}

/// Whether a text goes on from another.
pub open spec fn goes_on(s: Seq<char>, start: Seq<char>) -> bool {
    s.len() >= start.len() && s.take(start.len() as int) == start
}

proof fn lemma_goes_on(a: Seq<char>, b: Seq<char>, c: Seq<char>)
    requires
        goes_on(a, b),
        goes_on(b, c),
    ensures
        goes_on(a, c),
{
    assert(a.take(c.len() as int) =~= a.take(b.len() as int).take(c.len() as int));
}

proof fn lemma_outline(
    nodes: Seq<Node>,
    id: Seq<char>,
    depth: nat,
    levels: nat,
    seen: Seq<Seq<char>>,
    out: Seq<char>,
)
    ensures
        goes_on(outline(nodes, id, depth, levels, seen, out).1, out),
        !seen.contains(id) && node_named(nodes, id, 0) is Some ==> goes_on(
            outline(nodes, id, depth, levels, seen, out).1,
            out + outline_line(node_named(nodes, id, 0)->0, depth),
        ),
    decreases levels, 0nat,
{
    assert(out.take(out.len() as int) =~= out);
    if !seen.contains(id) && node_named(nodes, id, 0) is Some {
        let line = outline_line(node_named(nodes, id, 0)->0, depth);
        let next = out + line;
        assert(next.take(next.len() as int) =~= next);
        assert(next.take(out.len() as int) =~= out);
        if levels > 0 {
            lemma_outline_each(
                nodes,
                children_of(nodes, id),
                0,
                depth + 1,
                (levels - 1) as nat,
                seen.push(id),
                next,
            );
            lemma_goes_on(outline(nodes, id, depth, levels, seen, out).1, next, out);
        }
    }
}

proof fn lemma_outline_each(
    nodes: Seq<Node>,
    ids: Seq<Seq<char>>,
    i: nat,
    depth: nat,
    levels: nat,
    seen: Seq<Seq<char>>,
    out: Seq<char>,
)
    ensures
        goes_on(outline_each(nodes, ids, i, depth, levels, seen, out).1, out),
    decreases levels, ids.len() - i + 1,
{
    assert(out.take(out.len() as int) =~= out);
    if i < ids.len() {
        let (seen2, out2) = outline(nodes, ids[i as int], depth, levels, seen, out);
        lemma_outline(nodes, ids[i as int], depth, levels, seen, out);
        lemma_outline_each(nodes, ids, i + 1, depth, levels, seen2, out2);
        lemma_goes_on(outline_each(nodes, ids, i, depth, levels, seen, out).1, out2, out);
    }
}

proof fn lemma_below(nodes: Seq<Node>, id: Seq<char>, n: nat, child: Seq<char>)
    requires
        n <= nodes.len(),
    ensures
        super::text::below(nodes, id, n).contains(child) <==> exists|k: int|
            0 <= k < n && (#[trigger] nodes[k]).id == child && nodes[k].parent == Some(id),
    decreases n,
{
    if n > 0 {
        let m = (n - 1) as nat;
        lemma_below(nodes, id, m, child);
        let rest = super::text::below(nodes, id, m);
        let all = super::text::below(nodes, id, n);
        if rest.contains(child) {
            let k = choose|k: int| 0 <= k < rest.len() && rest[k] == child;
            assert(all[k] == child);
        }
        if nodes[n - 1].parent == Some(id) {
            assert(all[rest.len() as int] == nodes[n - 1].id);
        }
        if all.contains(child) {
            let k = choose|k: int| 0 <= k < all.len() && all[k] == child;
            if k < rest.len() {
                assert(rest[k] == child);
            }
        }
    }
}

/// The outline tells a node by its title, its status and its summary, two blanks further in for
/// each level, and then what hangs below it, one level further in. Below a node hang those that
/// name it as their parent.
pub proof fn outlines_go_down_the_backbone(
    nodes: Seq<Node>,
    id: Seq<char>,
    depth: nat,
    levels: nat,
    seen: Seq<Seq<char>>,
    out: Seq<char>,
    child: Seq<char>,
)
    requires
        !seen.contains(id),
        node_named(nodes, id, 0) is Some,
        levels > 0,
    ensures
        ({
            let node = node_named(nodes, id, 0)->0;
            let line = indent(depth) + "- **"@ + escaped(Escape::Markdown, node.title) + "** _"@
                + escaped(Escape::Markdown, node.status) + "_ — "@ + escaped(
                Escape::Markdown,
                node.summary,
            ) + "\n"@;
            &&& goes_on(outline(nodes, id, depth, levels, seen, out).1, out + line)
            &&& outline(nodes, id, depth, levels, seen, out) == outline_each(
                nodes,
                children_of(nodes, id),
                0,
                depth + 1,
                (levels - 1) as nat,
                seen.push(id),
                out + line,
            )
            &&& children_of(nodes, id).contains(child) <==> exists|k: int|
                0 <= k < nodes.len() && (#[trigger] nodes[k]).id == child && nodes[k].parent
                    == Some(id)
            &&& indent(0).len() == 0
            &&& indent(depth + 1) == indent(depth) + "  "@
        }),
{
    lemma_outline(nodes, id, depth, levels, seen, out);
    lemma_below(nodes, id, nodes.len(), child);
    crate::table::in_order_keeps_names(super::text::below(nodes, id, nodes.len()), child);
}

/// The Markdown view starts with the title, the session, how the graph was made, and its counts.
pub proof fn views_start_with_their_counts(dag: Dag)
    ensures
        goes_on(
            markdown_backbone(dag),
            "# "@ + escaped(Escape::Markdown, dag.title) + "\n\n- Session: `"@ + escaped(
                Escape::Markdown,
                dag.session_id,
            ) + "`\n- Construction: `"@ + escaped(Escape::Markdown, dag.operation)
                + "`\n- Nodes: "@ + decimal(dag.nodes.len()) + "\n- Edges: "@ + decimal(
                edge_total(dag),
            ) + "\n- Cross-arcs: "@ + decimal(annotations(dag.arcs, dag.arcs.len()))
                + "\n\n## Backbone\n\n"@,
        ),
        dag.roots.len() == 0 ==> markdown_backbone(dag) == markdown_head(dag) + "_Empty graph._\n"@,
        dag.nodes.len() >= dag.roots.len() ==> edge_total(dag) == dag.nodes.len() - dag.roots.len()
            + dag.arcs.len(),
{
    let head = markdown_head(dag);
    assert(head.take(head.len() as int) =~= head);
    if dag.roots.len() == 0 {
        assert((head + "_Empty graph._\n"@).take(head.len() as int) =~= head);
    } else {
        lemma_outline_each(dag.nodes, dag.roots, 0, 0, dag.nodes.len(), Seq::empty(), head);
    }
}

} // verus!
