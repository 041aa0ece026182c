//! A drawing of a graph: where its nodes stand, and the SVG that shows them.
//!
//! A layout says of each node its row and its seat among the others. The coordinates, which are
//! fractions, come from it; the drawing takes them as they are written.

use super::escape::{escape, escaped, Escape};
use super::graph::{annotations, Arc, Dag, Node, ViewerArc, ViewerDag, ViewerNode};
use super::text::{children_of, Colours, Palette};
use crate::sdk::{answers, fault, input_error, ExtensionError};
use crate::table::{find, holds, member};
use crate::text::{chars_of, decimal, decimal_text, join2, join3, same, slice_text};
use vstd::prelude::*;

verus! {

/// Where a node stands in its row: a leaf stands behind the leaves and the roots before it, any
/// other node in the middle between its first and its last child, which are given by their
/// positions in the layout.
pub enum Seat {
    Leaf { leaves: usize, roots: usize },
    Between { first: usize, last: usize },
}

/// What a [`Seat`] holds.
pub enum At {
    Leaf { leaves: nat, roots: nat },
    Between { first: nat, last: nat },
}

impl DeepView for Seat {
    type V = At;

    open spec fn deep_view(&self) -> At {
        match self {
            Seat::Leaf { leaves, roots } => At::Leaf { leaves: *leaves as nat, roots: *roots as nat },
            Seat::Between { first, last } => At::Between {
                first: *first as nat,
                last: *last as nat,
            },
        }
    }
}

/// A node in a layout.
pub struct Spot {
    pub id: String,
    pub depth: usize,
    pub seat: Seat,
}

/// What a [`Spot`] holds.
#[verifier::ext_equal]
pub struct Seated {
    pub id: Seq<char>,
    pub depth: nat,
    pub at: At,
}

impl DeepView for Spot {
    type V = Seated;

    open spec fn deep_view(&self) -> Seated {
        Seated { id: self.id@, depth: self.depth as nat, at: self.seat.deep_view() }
    }
}

/// A layout under way: the nodes that were come to, the spots that were given, and how many of
/// them are leaves.
#[verifier::ext_equal]
pub struct Laid {
    pub visited: Seq<Seq<char>>,
    pub spots: Seq<Seated>,
    pub leaves: nat,
}

struct Laying {
    visited: Vec<String>,
    spots: Vec<Spot>,
    leaves: usize,
}

impl DeepView for Laying {
    type V = Laid;

    closed spec fn deep_view(&self) -> Laid {
        Laid {
            visited: self.visited.deep_view(),
            spots: self.spots.deep_view(),
            leaves: self.leaves as nat,
        }
    }
}

/// What stands where the way down the backbone comes back to a node.
pub open spec fn circle() -> Seq<char> {
    "causal-dag backbone contains a cycle"@
}

/// The layout after a node and all below it. The trail holds the nodes above. A way down that
/// is longer than there are nodes comes back to one of them.
pub open spec fn seat(
    nodes: Seq<Node>,
    id: Seq<char>,
    depth: nat,
    levels: nat,
    roots: nat,
    trail: Seq<Seq<char>>,
    laid: Laid,
) -> Result<Laid, Seq<char>>
    decreases levels, 0nat,
{
    if trail.contains(id) {
        Err(circle())
    } else if laid.visited.contains(id) {
        Err("causal-dag node `"@ + id + "` appears in multiple backbone branches"@)
    } else {
        let below = children_of(nodes, id);
        let laid = Laid { visited: laid.visited.push(id), ..laid };
        if below.len() == 0 {
            Ok(
                Laid {
                    spots: laid.spots.push(
                        Seated { id, depth, at: At::Leaf { leaves: laid.leaves, roots } },
                    ),
                    leaves: laid.leaves + 1,
                    ..laid
                },
            )
        } else if levels == 0 {
            Err(circle())
        } else {
            match seat_each(
                nodes,
                below,
                0,
                depth + 1,
                (levels - 1) as nat,
                roots,
                trail.push(id),
                laid,
                0,
            ) {
                Err(e) => Err(e),
                Ok((laid, first)) => Ok(
                    Laid {
                        spots: laid.spots.push(
                            Seated {
                                id,
                                depth,
                                at: At::Between { first, last: (laid.spots.len() - 1) as nat },
                            },
                        ),
                        ..laid
                    },
                ),
            }
        }
    }
}

/// The layout after some nodes from position `i` on and all below them, and the position of the
/// first of them.
pub open spec fn seat_each(
    nodes: Seq<Node>,
    ids: Seq<Seq<char>>,
    i: nat,
    depth: nat,
    levels: nat,
    roots: nat,
    trail: Seq<Seq<char>>,
    laid: Laid,
    first: nat,
) -> Result<(Laid, nat), Seq<char>>
    decreases levels, ids.len() - i + 1,
{
    if i >= ids.len() {
        Ok((laid, first))
    } else {
        match seat(nodes, ids[i as int], depth, levels, roots, trail, laid) {
            Err(e) => Err(e),
            Ok(laid) => seat_each(
                nodes,
                ids,
                i + 1,
                depth,
                levels,
                roots,
                trail,
                laid,
                if i == 0 {
                    (laid.spots.len() - 1) as nat
                } else {
                    first
                },
            ),
        }
    }
}

/// The layout after the roots from position `i` on.
pub open spec fn seat_roots(dag: Dag, i: nat, laid: Laid) -> Result<Laid, Seq<char>>
    decreases dag.roots.len() - i,
{
    if i >= dag.roots.len() {
        Ok(laid)
    } else {
        match seat(dag.nodes, dag.roots[i as int], 0, dag.nodes.len(), i, Seq::empty(), laid) {
            Err(e) => Err(e),
            Ok(laid) => seat_roots(dag, i + 1, laid),
        }
    }
}

/// A layout with no node.
pub open spec fn bare() -> Laid {
    Laid { visited: Seq::empty(), spots: Seq::empty(), leaves: 0 }
}

/// The layout of a graph.
pub open spec fn layout_of(dag: Dag) -> Result<Seq<Seated>, Seq<char>> {
    if dag.nodes.len() == 0 {
        Ok(Seq::empty())
    } else {
        match seat_roots(dag, 0, bare()) {
            Err(e) => Err(e),
            Ok(laid) => if laid.visited.len() == dag.nodes.len() {
                Ok(laid.spots)
            } else {
                Err("causal-dag backbone contains nodes unreachable from forest roots"@)
            },
        }
    }
}

/// What one step of a layout keeps: a spot more at least, and no more leaves than spots.
pub open spec fn grows(before: Laid, after: Laid) -> bool {
    &&& after.spots.len() > before.spots.len()
    &&& after.leaves - before.leaves <= after.spots.len() - before.spots.len()
}

fn seat_node(
    dag: &ViewerDag,
    id: &str,
    depth: usize,
    levels: usize,
    roots: usize,
    trail: &mut Vec<String>,
    laying: &mut Laying,
) -> (r: Result<(), ExtensionError>)
    requires
        depth + levels <= usize::MAX,
        old(laying).leaves <= old(laying).spots@.len(),
    ensures
        ({
            let after = seat(
                dag.deep_view().nodes,
                id@,
                depth as nat,
                levels as nat,
                roots as nat,
                old(trail).deep_view(),
                old(laying).deep_view(),
            );
            match r {
                Ok(_) => {
                    &&& after == Ok::<Laid, Seq<char>>(final(laying).deep_view())
                    &&& final(trail).deep_view() == old(trail).deep_view()
                    &&& grows(old(laying).deep_view(), final(laying).deep_view())
                },
                Err(e) => e is Message && after == Err::<Laid, Seq<char>>(e.text()),
            }
        }),
    decreases levels, 0nat,
{
    if holds(trail, id) {
        return Err(input_error("causal-dag backbone contains a cycle"));
    }
    if holds(&laying.visited, id) {
        return Err(
            fault(join3("causal-dag node `", id, "` appears in multiple backbone branches")),
        );
    }
    let below = dag.children(id);
    assert(below.deep_view().len() == below@.len());
    let ghost was = laying.deep_view();
    laying.visited.push(id.to_owned());
    assert(laying.visited.deep_view() =~= was.visited.push(id@));
    if below.len() == 0 {
        let spot = Spot {
            id: id.to_owned(),
            depth,
            seat: Seat::Leaf { leaves: laying.leaves, roots },
        };
        let ghost seated = spot.deep_view();
        laying.spots.push(spot);
        assert(laying.spots.deep_view() =~= was.spots.push(seated));
        assert(laying.leaves < laying.spots.len());
        laying.leaves += 1;
        return Ok(());
    }
    if levels == 0 {
        return Err(input_error("causal-dag backbone contains a cycle"));
    }
    let ghost above = trail.deep_view();
    trail.push(id.to_owned());
    assert(trail.deep_view() =~= above.push(id@));
    let first = match seat_nodes(dag, &below, depth + 1, levels - 1, roots, trail, laying) {
        Ok(first) => first,
        Err(e) => return Err(e),
    };
    let ghost longer = trail@;
    assert(above.push(id@).len() == longer.len());
    trail.pop();
    assert forall|j: int| 0 <= j < above.len() implies trail@[j]@ == above[j] by {
        assert(above.push(id@)[j] == longer[j]@);
    }
    assert(trail.deep_view() =~= above);
    let last: usize = laying.spots.len() - 1;
    let spot = Spot { id: id.to_owned(), depth, seat: Seat::Between { first, last } };
    let ghost seated = spot.deep_view();
    let ghost spots = laying.spots.deep_view();
    laying.spots.push(spot);
    assert(laying.spots.deep_view() =~= spots.push(seated));
    Ok(())
}

fn seat_nodes(
    dag: &ViewerDag,
    ids: &Vec<String>,
    depth: usize,
    levels: usize,
    roots: usize,
    trail: &mut Vec<String>,
    laying: &mut Laying,
) -> (r: Result<usize, ExtensionError>)
    requires
        depth + levels <= usize::MAX,
        ids@.len() > 0,
        old(laying).leaves <= old(laying).spots@.len(),
    ensures
        ({
            let after = seat_each(
                dag.deep_view().nodes,
                ids.deep_view(),
                0,
                depth as nat,
                levels as nat,
                roots as nat,
                old(trail).deep_view(),
                old(laying).deep_view(),
                0,
            );
            match r {
                Ok(first) => {
                    &&& after == Ok::<(Laid, nat), Seq<char>>(
                        (final(laying).deep_view(), first as nat),
                    )
                    &&& final(trail).deep_view() == old(trail).deep_view()
                    &&& grows(old(laying).deep_view(), final(laying).deep_view())
                },
                Err(e) => e is Message && after == Err::<(Laid, nat), Seq<char>>(e.text()),
            }
        }),
    decreases levels, ids@.len() + 1,
{
    let ghost nodes = dag.deep_view().nodes;
    let ghost all = ids.deep_view();
    let ghost above = trail.deep_view();
    let ghost was = laying.deep_view();
    let mut first: usize = 0;
    let mut i: usize = 0;
    while i < ids.len()
        invariant
            i <= ids@.len(),
            depth + levels <= usize::MAX,
            nodes == dag.deep_view().nodes,
            all == ids.deep_view(),
            trail.deep_view() == above,
            above == old(trail).deep_view(),
            was == old(laying).deep_view(),
            was.leaves <= was.spots.len(),
            i == 0 ==> laying.deep_view() == was,
            i > 0 ==> grows(was, laying.deep_view()),
            seat_each(
                nodes,
                all,
                0,
                depth as nat,
                levels as nat,
                roots as nat,
                above,
                was,
                0,
            ) == seat_each(
                nodes,
                all,
                i as nat,
                depth as nat,
                levels as nat,
                roots as nat,
                above,
                laying.deep_view(),
                first as nat,
            ),
        decreases ids@.len() - i,
    {
        assert(all.len() == ids@.len());
        assert(all[i as int] == ids@[i as int]@);
        assert(laying.deep_view().spots.len() == laying.spots@.len());
        match seat_node(dag, &ids[i], depth, levels, roots, trail, laying) {
            Ok(_) => {},
            Err(e) => return Err(e),
        }
        if i == 0 {
            first = laying.spots.len() - 1;
        }
        i += 1;
    }
    Ok(first)
}

/// Lays a graph out: the spots of its nodes, each behind those below it.
pub fn layout(dag: &ViewerDag) -> (r: Result<Vec<Spot>, ExtensionError>)
    ensures
        answers(r, layout_of(dag.deep_view())),
{
    let ghost model = dag.deep_view();
    if dag.nodes.len() == 0 {
        let none: Vec<Spot> = Vec::new();
        assert(none.deep_view() =~= Seq::empty());
        return Ok(none);
    }
    let mut laying = Laying { visited: Vec::new(), spots: Vec::new(), leaves: 0 };
    let mut trail: Vec<String> = Vec::new();
    assert(laying.deep_view() =~= bare());
    assert(trail.deep_view() =~= Seq::empty());
    let mut i: usize = 0;
    while i < dag.roots.len()
        invariant
            i <= dag.roots@.len(),
            model == dag.deep_view(),
            dag.nodes@.len() > 0,
            trail.deep_view() == Seq::<Seq<char>>::empty(),
            laying.leaves <= laying.spots@.len(),
            seat_roots(model, 0, bare()) == seat_roots(model, i as nat, laying.deep_view()),
        decreases dag.roots@.len() - i,
    {
        assert(model.roots.len() == dag.roots@.len());
        assert(model.roots[i as int] == dag.roots@[i as int]@);
        assert(model.nodes.len() == dag.nodes@.len());
        assert(laying.deep_view().spots.len() == laying.spots@.len());
        match seat_node(dag, &dag.roots[i], 0, dag.nodes.len(), i, &mut trail, &mut laying) {
            Ok(_) => {},
            Err(e) => return Err(e),
        }
        assert(laying.deep_view().spots.len() == laying.spots@.len());
        i += 1;
    }
    assert(laying.deep_view().visited.len() == laying.visited@.len());
    if laying.visited.len() != dag.nodes.len() {
        return Err(
            input_error("causal-dag backbone contains nodes unreachable from forest roots"),
        );
    }
    Ok(laying.spots)
}

/// The coordinates of a node and of its caption, as they are written.
pub struct Point {
    pub x: String,
    pub y: String,
    pub caption_y: String,
}

/// What a [`Point`] holds.
#[verifier::ext_equal]
pub struct Mark {
    pub x: Seq<char>,
    pub y: Seq<char>,
    pub caption_y: Seq<char>,
}

impl DeepView for Point {
    type V = Mark;

    open spec fn deep_view(&self) -> Mark {
        Mark { x: self.x@, y: self.y@, caption_y: self.caption_y@ }
    }
}

/// The measures of a drawing, as they are written: its size, how much of a cross-arc shows, where
/// the nodes stand, and for each cross-arc the point to which it bends.
pub struct Canvas {
    pub width: String,
    pub height: String,
    pub opacity: String,
    pub points: Vec<(String, Point)>,
    pub bends: Vec<(String, String)>,
}

/// What a [`Canvas`] holds.
#[verifier::ext_equal]
pub struct Sheet {
    pub width: Seq<char>,
    pub height: Seq<char>,
    pub opacity: Seq<char>,
    pub points: Seq<(Seq<char>, Mark)>,
    pub bends: Seq<(Seq<char>, Seq<char>)>,
}

impl DeepView for Canvas {
    type V = Sheet;

    open spec fn deep_view(&self) -> Sheet {
        Sheet {
            width: self.width@,
            height: self.height@,
            opacity: self.opacity@,
            points: self.points.deep_view(),
            bends: self.bends.deep_view(),
        }
    }
}

/// The most characters of a caption.
pub const CAPTION_CHARS: usize = 28;

/// A text in SVG.
pub open spec fn xml(s: Seq<char>) -> Seq<char> {
    escaped(Escape::Xml, s)
}

/// A title as a caption: as it is where it is short enough, and else its start and an ellipsis.
pub open spec fn caption(title: Seq<char>) -> Seq<char> {
    if title.len() <= CAPTION_CHARS {
        title
    } else {
        title.take(CAPTION_CHARS - 1).push('…')
    }
}

fn caption_text(title: &str) -> (r: String)
    ensures
        r@ == caption(title@),
{
    let chars = chars_of(title);
    if chars.len() <= CAPTION_CHARS {
        return title.to_owned();
    }
    let mut text = slice_text(&chars, 0, CAPTION_CHARS - 1);
    assert(text@ =~= title@.take(CAPTION_CHARS - 1));
    text.push('…');
    text
}

/// The head of a drawing: its size, title and description, the ground, the arrow, and two lines
/// that name the graph.
pub open spec fn svg_head(dag: Dag, palette: Colours, sheet: Sheet) -> Seq<char> {
    let nodes = decimal(dag.nodes.len());
    let arcs = decimal(annotations(dag.arcs, dag.arcs.len()));
    "<svg xmlns=\"http://www.w3.org/2000/svg\" width=\""@ + sheet.width + "\" height=\""@
        + sheet.height + "\" viewBox=\"0 0 "@ + sheet.width + " "@ + sheet.height
        + "\" role=\"img\" aria-labelledby=\"title desc\">\n<title id=\"title\">"@ + xml(dag.title)
        + "</title><desc id=\"desc\">Euler causal DAG with "@ + nodes + " nodes and "@ + arcs
        + " annotation cross-arcs.</desc>\n<rect width=\"100%\" height=\"100%\" fill=\""@
        + palette.background
        + "\"/>\n<defs><marker id=\"arrow\" viewBox=\"0 0 10 10\" refX=\"9\" refY=\"5\" markerWidth=\"6\" markerHeight=\"6\" orient=\"auto-start-reverse\"><path d=\"M 0 0 L 10 5 L 0 10 z\" fill=\""@
        + palette.cross_arcs + "\" fill-opacity=\""@ + sheet.opacity
        + "\"/></marker></defs>\n<text x=\"40\" y=\"42\" font-family=\"ui-monospace,monospace\" font-size=\"18\" font-weight=\"600\" fill=\"#26251f\">"@
        + xml(dag.title)
        + "</text>\n<text x=\"40\" y=\"66\" font-family=\"ui-monospace,monospace\" font-size=\"12\" fill=\"#8a887f\">causal DAG · "@
        + nodes + " nodes · "@ + arcs + " cross-arcs · "@ + xml(dag.operation) + "</text>\n"@
}

fn push_head(svg: &mut String, dag: &ViewerDag, palette: &Palette, canvas: &Canvas)
    ensures
        final(svg)@ == old(svg)@ + svg_head(
            dag.deep_view(),
            palette.deep_view(),
            canvas.deep_view(),
        ),
{
    let title = escape(Escape::Xml, &dag.title);
    let nodes = decimal_text(dag.node_count() as u64);
    let arcs = decimal_text(dag.cross_arc_count() as u64);
    let mut head = join2("<svg xmlns=\"http://www.w3.org/2000/svg\" width=\"", &canvas.width);
    head.push_str("\" height=\"");
    head.push_str(&canvas.height);
    head.push_str("\" viewBox=\"0 0 ");
    head.push_str(&canvas.width);
    head.push_str(" ");
    head.push_str(&canvas.height);
    head.push_str(
        "\" role=\"img\" aria-labelledby=\"title desc\">\n<title id=\"title\">",
    );
    head.push_str(&title);
    head.push_str("</title><desc id=\"desc\">Euler causal DAG with ");
    head.push_str(&nodes);
    head.push_str(" nodes and ");
    head.push_str(&arcs);
    head.push_str(
        " annotation cross-arcs.</desc>\n<rect width=\"100%\" height=\"100%\" fill=\"",
    );
    head.push_str(&palette.background);
    head.push_str(
        "\"/>\n<defs><marker id=\"arrow\" viewBox=\"0 0 10 10\" refX=\"9\" refY=\"5\" markerWidth=\"6\" markerHeight=\"6\" orient=\"auto-start-reverse\"><path d=\"M 0 0 L 10 5 L 0 10 z\" fill=\"",
    );
    head.push_str(&palette.cross_arcs);
    head.push_str("\" fill-opacity=\"");
    head.push_str(&canvas.opacity);
    head.push_str(
        "\"/></marker></defs>\n<text x=\"40\" y=\"42\" font-family=\"ui-monospace,monospace\" font-size=\"18\" font-weight=\"600\" fill=\"#26251f\">",
    );
    head.push_str(&title);
    head.push_str(
        "</text>\n<text x=\"40\" y=\"66\" font-family=\"ui-monospace,monospace\" font-size=\"12\" fill=\"#8a887f\">causal DAG · ",
    );
    head.push_str(&nodes);
    head.push_str(" nodes · ");
    head.push_str(&arcs);
    head.push_str(" cross-arcs · ");
    head.push_str(&escape(Escape::Xml, &dag.operation));
    head.push_str("</text>\n");
    svg.push_str(&head);
}

/// The line from a parent to its child.
pub open spec fn svg_line(from: Mark, to: Mark, palette: Colours) -> Seq<char> {
    "<line x1=\""@ + from.x + "\" y1=\""@ + from.y + "\" x2=\""@ + to.x + "\" y2=\""@ + to.y
        + "\" stroke=\""@ + palette.structural_edges + "\" stroke-width=\"1.25\"/>\n"@
}

/// The backbone of a drawing, from position `i` on: a line to each node that stands in it and
/// whose parent does.
pub open spec fn svg_backbone(
    nodes: Seq<Node>,
    palette: Colours,
    points: Seq<(Seq<char>, Mark)>,
    i: nat,
    out: Seq<char>,
) -> Seq<char>
    decreases nodes.len() - i,
{
    if i >= nodes.len() {
        out
    } else {
        let node = nodes[i as int];
        let line = match node.parent {
            None => Seq::empty(),
            Some(parent) => match (member(points, parent), member(points, node.id)) {
                (Some(from), Some(to)) => svg_line(from, to, palette),
                _ => Seq::empty(),
            },
        };
        svg_backbone(nodes, palette, points, i + 1, out + line)
    }
}

fn push_backbone(svg: &mut String, dag: &ViewerDag, palette: &Palette, canvas: &Canvas)
    ensures
        final(svg)@ == svg_backbone(
            dag.deep_view().nodes,
            palette.deep_view(),
            canvas.deep_view().points,
            0,
            old(svg)@,
        ),
{
    let ghost nodes = dag.nodes.deep_view();
    let ghost colours = palette.deep_view();
    let ghost points = canvas.points.deep_view();
    let mut i: usize = 0;
    while i < dag.nodes.len()
        invariant
            i <= dag.nodes@.len(),
            nodes == dag.nodes.deep_view(),
            colours == palette.deep_view(),
            points == canvas.points.deep_view(),
            svg_backbone(nodes, colours, points, 0, old(svg)@) == svg_backbone(
                nodes,
                colours,
                points,
                i as nat,
                svg@,
            ),
        decreases dag.nodes@.len() - i,
    {
        let node = &dag.nodes[i];
        assert(nodes[i as int] == node.deep_view());
        let ghost was = svg@;
        assert(was + Seq::<char>::empty() =~= was);
        if let Some(parent) = &node.parent {
            if let Some(from) = find(&canvas.points, parent) {
                if let Some(to) = find(&canvas.points, &node.id) {
                    let mut line = join2("<line x1=\"", &from.x);
                    line.push_str("\" y1=\"");
                    line.push_str(&from.y);
                    line.push_str("\" x2=\"");
                    line.push_str(&to.x);
                    line.push_str("\" y2=\"");
                    line.push_str(&to.y);
                    line.push_str("\" stroke=\"");
                    line.push_str(&palette.structural_edges);
                    line.push_str("\" stroke-width=\"1.25\"/>\n");
                    svg.push_str(&line);
                }
            }
        }
        i += 1;
    }
}

/// A cross-arc.
pub open spec fn svg_arc(
    arc: Arc,
    from: Mark,
    bend: (Seq<char>, Seq<char>),
    to: Mark,
    palette: Colours,
    opacity: Seq<char>,
) -> Seq<char> {
    "<path d=\"M "@ + from.x + " "@ + from.y + " Q "@ + bend.0 + " "@ + bend.1 + " "@ + to.x + " "@
        + to.y + "\" fill=\"none\" stroke=\""@ + palette.cross_arcs + "\" stroke-opacity=\""@
        + opacity
        + "\" stroke-width=\"1.25\" stroke-dasharray=\"4 6\" marker-end=\"url(#arrow)\"><title>"@
        + xml(arc.kind) + ": "@ + xml(arc.note) + "</title></path>\n"@
}

/// The cross-arcs of a drawing, from position `i` on: those whose ends both stand in it.
pub open spec fn svg_arcs(
    arcs: Seq<Arc>,
    palette: Colours,
    sheet: Sheet,
    i: nat,
    out: Seq<char>,
) -> Seq<char>
    decreases arcs.len() - i,
{
    if i >= arcs.len() {
        out
    } else {
        let arc = arcs[i as int];
        let line = match (member(sheet.points, arc.from), member(sheet.points, arc.to)) {
            (Some(from), Some(to)) => svg_arc(
                arc,
                from,
                sheet.bends[i as int],
                to,
                palette,
                sheet.opacity,
            ),
            _ => Seq::empty(),
        };
        svg_arcs(arcs, palette, sheet, i + 1, out + line)
    }
}

fn arc_line(
    arc: &ViewerArc,
    from: &Point,
    bend: &(String, String),
    to: &Point,
    palette: &Palette,
    opacity: &str,
) -> (r: String)
    ensures
        r@ == svg_arc(
            arc.deep_view(),
            from.deep_view(),
            bend.deep_view(),
            to.deep_view(),
            palette.deep_view(),
            opacity@,
        ),
{
    let mut line = join2("<path d=\"M ", &from.x);
    line.push_str(" ");
    line.push_str(&from.y);
    line.push_str(" Q ");
    line.push_str(&bend.0);
    line.push_str(" ");
    line.push_str(&bend.1);
    line.push_str(" ");
    line.push_str(&to.x);
    line.push_str(" ");
    line.push_str(&to.y);
    line.push_str("\" fill=\"none\" stroke=\"");
    line.push_str(&palette.cross_arcs);
    line.push_str("\" stroke-opacity=\"");
    line.push_str(opacity);
    line.push_str(
        "\" stroke-width=\"1.25\" stroke-dasharray=\"4 6\" marker-end=\"url(#arrow)\"><title>",
    );
    line.push_str(&escape(Escape::Xml, &arc.kind));
    line.push_str(": ");
    line.push_str(&escape(Escape::Xml, &arc.note));
    line.push_str("</title></path>\n");
    line
}

fn push_arcs(svg: &mut String, dag: &ViewerDag, palette: &Palette, canvas: &Canvas)
    requires
        canvas.bends@.len() == dag.arcs@.len(),
    ensures
        final(svg)@ == svg_arcs(
            dag.deep_view().arcs,
            palette.deep_view(),
            canvas.deep_view(),
            0,
            old(svg)@,
        ),
{
    let ghost arcs = dag.arcs.deep_view();
    let ghost colours = palette.deep_view();
    let ghost sheet = canvas.deep_view();
    let mut i: usize = 0;
    while i < dag.arcs.len()
        invariant
            i <= dag.arcs@.len(),
            canvas.bends@.len() == dag.arcs@.len(),
            arcs == dag.arcs.deep_view(),
            colours == palette.deep_view(),
            sheet == canvas.deep_view(),
            svg_arcs(arcs, colours, sheet, 0, old(svg)@) == svg_arcs(
                arcs,
                colours,
                sheet,
                i as nat,
                svg@,
            ),
        decreases dag.arcs@.len() - i,
    {
        let arc = &dag.arcs[i];
        assert(arcs[i as int] == arc.deep_view());
        assert(sheet.bends[i as int] == canvas.bends@[i as int].deep_view());
        let ghost was = svg@;
        assert(was + Seq::<char>::empty() =~= was);
        if let Some(from) = find(&canvas.points, &arc.from) {
            if let Some(to) = find(&canvas.points, &arc.to) {
                let line = arc_line(arc, from, &canvas.bends[i], to, palette, &canvas.opacity);
                svg.push_str(&line);
            }
        }
        i += 1;
    }
}

/// A node in a drawing: its glyph and caption, and what is shown over it.
pub open spec fn svg_node(node: Node, point: Mark, palette: Colours) -> Result<
    Seq<char>,
    Seq<char>,
> {
    match member(palette.statuses, node.status) {
        None => Err("causal-dag palette has no status `"@ + node.status + "`"@),
        Some(style) => {
            let is_root = node.kind == "root"@;
            let colour = if is_root {
                palette.root
            } else {
                style.day
            };
            let glyph = if is_root {
                "○"@
            } else {
                style.glyph
            };
            let size = if is_root {
                "20\" font-weight=\"600"@
            } else {
                "17\" font-weight=\"400"@
            };
            Ok(
                "<g><title>"@ + xml(node.title) + " · "@ + xml(style.label) + "\n"@ + xml(
                    node.summary,
                ) + "\nEvidence: "@ + xml(node.ev) + "</title><text x=\""@ + point.x + "\" y=\""@
                    + point.y
                    + "\" text-anchor=\"middle\" dominant-baseline=\"central\" font-family=\"ui-monospace,monospace\" font-size=\""@
                    + size + "\" fill=\""@ + colour + "\">"@ + xml(glyph) + "</text><text x=\""@
                    + point.x + "\" y=\""@ + point.caption_y
                    + "\" text-anchor=\"middle\" font-family=\"ui-monospace,monospace\" font-size=\"11\" fill=\"#4a4840\">"@
                    + xml(caption(node.title)) + "</text></g>\n"@,
            )
        },
    }
}

fn node_group(node: &ViewerNode, point: &Point, palette: &Palette) -> (r: Result<
    String,
    ExtensionError,
>)
    ensures
        answers(r, svg_node(node.deep_view(), point.deep_view(), palette.deep_view())),
{
    let style = match find(&palette.statuses, &node.status) {
        Some(style) => style,
        None => {
            return Err(
                fault(join3("causal-dag palette has no status `", &node.status, "`")),
            );
        },
    };
    let is_root = same(&node.kind, "root");
    let colour = if is_root {
        &palette.root
    } else {
        &style.day
    };
    let glyph = if is_root {
        "○"
    } else {
        style.glyph.as_str()
    };
    let size = if is_root {
        "20\" font-weight=\"600"
    } else {
        "17\" font-weight=\"400"
    };
    let mut out = join2("<g><title>", &escape(Escape::Xml, &node.title));
    out.push_str(" · ");
    out.push_str(&escape(Escape::Xml, &style.label));
    out.push_str("\n");
    out.push_str(&escape(Escape::Xml, &node.summary));
    out.push_str("\nEvidence: ");
    out.push_str(&escape(Escape::Xml, &node.ev));
    out.push_str("</title><text x=\"");
    out.push_str(&point.x);
    out.push_str("\" y=\"");
    out.push_str(&point.y);
    out.push_str(
        "\" text-anchor=\"middle\" dominant-baseline=\"central\" font-family=\"ui-monospace,monospace\" font-size=\"",
    );
    out.push_str(size);
    out.push_str("\" fill=\"");
    out.push_str(colour);
    out.push_str("\">");
    out.push_str(&escape(Escape::Xml, glyph));
    out.push_str("</text><text x=\"");
    out.push_str(&point.x);
    out.push_str("\" y=\"");
    out.push_str(&point.caption_y);
    out.push_str(
        "\" text-anchor=\"middle\" font-family=\"ui-monospace,monospace\" font-size=\"11\" fill=\"#4a4840\">",
    );
    out.push_str(&escape(Escape::Xml, &caption_text(&node.title)));
    out.push_str("</text></g>\n");
    Ok(out)
}

/// The nodes of a drawing, from position `i` on: those that stand in it.
pub open spec fn svg_nodes(
    nodes: Seq<Node>,
    palette: Colours,
    points: Seq<(Seq<char>, Mark)>,
    i: nat,
    out: Seq<char>,
) -> Result<Seq<char>, Seq<char>>
    decreases nodes.len() - i,
{
    if i >= nodes.len() {
        Ok(out)
    } else {
        match member(points, nodes[i as int].id) {
            None => svg_nodes(nodes, palette, points, i + 1, out),
            Some(point) => match svg_node(nodes[i as int], point, palette) {
                Err(e) => Err(e),
                Ok(group) => svg_nodes(nodes, palette, points, i + 1, out + group),
            },
        }
    }
}

/// The drawing of a graph.
pub open spec fn svg_of(dag: Dag, palette: Colours, sheet: Sheet) -> Result<Seq<char>, Seq<char>> {
    let head = svg_head(dag, palette, sheet);
    let backbone = svg_backbone(dag.nodes, palette, sheet.points, 0, head);
    let arcs = svg_arcs(dag.arcs, palette, sheet, 0, backbone);
    match svg_nodes(dag.nodes, palette, sheet.points, 0, arcs) {
        Err(e) => Err(e),
        Ok(out) => Ok(out + "</svg>\n"@),
    }
}

/// Draws a graph on a canvas that has a bend for each cross-arc.
pub fn render_svg(dag: &ViewerDag, palette: &Palette, canvas: &Canvas) -> (r: Result<
    String,
    ExtensionError,
>)
    requires
        canvas.bends@.len() == dag.arcs@.len(),
    ensures
        answers(r, svg_of(dag.deep_view(), palette.deep_view(), canvas.deep_view())),
{
    let ghost nodes = dag.nodes.deep_view();
    let ghost colours = palette.deep_view();
    let ghost points = canvas.points.deep_view();
    let mut svg = String::new();
    push_head(&mut svg, dag, palette, canvas);
    assert(svg@ =~= svg_head(dag.deep_view(), colours, canvas.deep_view()));
    push_backbone(&mut svg, dag, palette, canvas);
    push_arcs(&mut svg, dag, palette, canvas);
    let mut i: usize = 0;
    while i < dag.nodes.len()
        invariant
            i <= dag.nodes@.len(),
            nodes == dag.nodes.deep_view(),
            colours == palette.deep_view(),
            points == canvas.points.deep_view(),
            svg_of(dag.deep_view(), colours, canvas.deep_view()) == (match svg_nodes(
                nodes,
                colours,
                points,
                i as nat,
                svg@,
            ) {
                Err(e) => Err(e),
                Ok(out) => Ok(out + "</svg>\n"@),
            }),
        decreases dag.nodes@.len() - i,
    {
        let node = &dag.nodes[i];
        assert(nodes[i as int] == node.deep_view());
        if let Some(point) = find(&canvas.points, &node.id) {
            match node_group(node, point, palette) {
                Ok(group) => svg.push_str(&group),
                Err(e) => return Err(e),
            }
        }
        i += 1;
    }
    svg.push_str("</svg>\n");
    Ok(svg)
}

/// A caption is the title, cut to twenty-eight characters where it is longer.
pub proof fn captions_are_short(title: Seq<char>)
    ensures
        title.len() <= 28 ==> caption(title) == title,
        title.len() > 28 ==> caption(title).len() == 28 && caption(title) == title.take(27).push(
            '…',
        ),
{
}

/// A node of a drawing tells its title, its status, its summary and its evidence, and stands at
/// its point in the colour and glyph of its status; a root has its own.
pub proof fn drawings_tell_their_nodes(node: Node, point: Mark, palette: Colours)
    ensures
        svg_node(node, point, palette) is Ok <==> member(palette.statuses, node.status) is Some,
        svg_node(node, point, palette) matches Ok(text) ==> {
            let style = member(palette.statuses, node.status)->0;
            let root = node.kind == "root"@;
            text == "<g><title>"@ + escaped(Escape::Xml, node.title) + " · "@ + escaped(
                Escape::Xml,
                style.label,
            ) + "\n"@ + escaped(Escape::Xml, node.summary) + "\nEvidence: "@ + escaped(
                Escape::Xml,
                node.ev,
            ) + "</title><text x=\""@ + point.x + "\" y=\""@ + point.y
                + "\" text-anchor=\"middle\" dominant-baseline=\"central\" font-family=\"ui-monospace,monospace\" font-size=\""@
                + (if root {
                "20\" font-weight=\"600"@
            } else {
                "17\" font-weight=\"400"@
            }) + "\" fill=\""@ + (if root {
                palette.root
            } else {
                style.day
            }) + "\">"@ + escaped(
                Escape::Xml,
                if root {
                    "○"@
                } else {
                    style.glyph
                },
            ) + "</text><text x=\""@ + point.x + "\" y=\""@ + point.caption_y
                + "\" text-anchor=\"middle\" font-family=\"ui-monospace,monospace\" font-size=\"11\" fill=\"#4a4840\">"@
                + escaped(Escape::Xml, caption(node.title)) + "</text></g>\n"@
        },
{
}

/// A step of the backbone is drawn from the point of the parent to that of the node, and a
/// cross-arc dashed from its one end through its bend to its other.
pub proof fn drawings_join_their_points(
    from: Mark,
    to: Mark,
    bend: (Seq<char>, Seq<char>),
    arc: Arc,
    palette: Colours,
    opacity: Seq<char>,
)
    ensures
        svg_line(from, to, palette) == "<line x1=\""@ + from.x + "\" y1=\""@ + from.y + "\" x2=\""@
            + to.x + "\" y2=\""@ + to.y + "\" stroke=\""@ + palette.structural_edges
            + "\" stroke-width=\"1.25\"/>\n"@,
        svg_arc(arc, from, bend, to, palette, opacity) == "<path d=\"M "@ + from.x + " "@ + from.y
            + " Q "@ + bend.0 + " "@ + bend.1 + " "@ + to.x + " "@ + to.y
            + "\" fill=\"none\" stroke=\""@ + palette.cross_arcs + "\" stroke-opacity=\""@ + opacity
            + "\" stroke-width=\"1.25\" stroke-dasharray=\"4 6\" marker-end=\"url(#arrow)\"><title>"@
            + escaped(Escape::Xml, arc.kind) + ": "@ + escaped(Escape::Xml, arc.note)
            + "</title></path>\n"@,
{
}

/// What is drawn of the nodes from a position on is what is drawn of the first of them, where it
/// has a point, and then the rest; the same of the backbone and of the cross-arcs.
pub proof fn drawings_are_made_part_by_part(
    dag: Dag,
    palette: Colours,
    sheet: Sheet,
    i: nat,
    out: Seq<char>,
)
    ensures
        i < dag.nodes.len() && member(sheet.points, dag.nodes[i as int].id) is None ==> svg_nodes(
            dag.nodes,
            palette,
            sheet.points,
            i,
            out,
        ) == svg_nodes(dag.nodes, palette, sheet.points, i + 1, out),
        i < dag.nodes.len() && member(sheet.points, dag.nodes[i as int].id) is Some && svg_node(
            dag.nodes[i as int],
            member(sheet.points, dag.nodes[i as int].id)->0,
            palette,
        ) is Ok ==> svg_nodes(dag.nodes, palette, sheet.points, i, out) == svg_nodes(
            dag.nodes,
            palette,
            sheet.points,
            i + 1,
            out + svg_node(
                dag.nodes[i as int],
                member(sheet.points, dag.nodes[i as int].id)->0,
                palette,
            )->Ok_0,
        ),
        i < dag.nodes.len() && dag.nodes[i as int].parent is Some && member(
            sheet.points,
            dag.nodes[i as int].parent->0,
        ) is Some && member(sheet.points, dag.nodes[i as int].id) is Some ==> svg_backbone(
            dag.nodes,
            palette,
            sheet.points,
            i,
            out,
        ) == svg_backbone(
            dag.nodes,
            palette,
            sheet.points,
            i + 1,
            out + svg_line(
                member(sheet.points, dag.nodes[i as int].parent->0)->0,
                member(sheet.points, dag.nodes[i as int].id)->0,
                palette,
            ),
        ),
        i < dag.arcs.len() && member(sheet.points, dag.arcs[i as int].from) is Some && member(
            sheet.points,
            dag.arcs[i as int].to,
        ) is Some ==> svg_arcs(dag.arcs, palette, sheet, i, out) == svg_arcs(
            dag.arcs,
            palette,
            sheet,
            i + 1,
            out + svg_arc(
                dag.arcs[i as int],
                member(sheet.points, dag.arcs[i as int].from)->0,
                sheet.bends[i as int],
                member(sheet.points, dag.arcs[i as int].to)->0,
                palette,
                sheet.opacity,
            ),
        ),
{
}

} // verus!
