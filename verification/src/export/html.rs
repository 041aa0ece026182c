//! The self-contained HTML view: four viewer pages with the graph put into each.

use super::escape::{escape, escaped, script_safe_json, Escape};
use super::graph::{Arc, Dag, Node, ViewerArc, ViewerDag, ViewerNode};
use crate::json::{counted, json_text, optional_text, texts, write_json, Json, Tree};
use crate::sdk::{answers, fault, ExtensionError};
use crate::table::{join, joined};
use crate::text::{chars_of, join2, join3, trim, trimmed};
use vstd::prelude::*;

verus! {

pub const RUNTIME_MARKER: &'static str = "<!--__EULER_RUNTIME__-->";

pub const DAG_MARKER: &'static str = "/*__EULER_DAG__*/";

pub const PALETTE_MARKER: &'static str = "/*__EULER_PALETTE__*/";

/// The script that shows one page at a time.
pub const PARENT_SCRIPT: &'static str = "<script>\nconst VIEWS = {\n  \"2D Top-Down.dc.html\": \"view-top-down\",\n  \"2D Indented Spine.dc.html\": \"view-indented-spine\",\n  \"Constellation 3D.dc.html\": \"view-constellation-3d\",\n  \"Constellation 3.5D.dc.html\": \"view-constellation-3-5d\"\n};\nfunction showView(name) {\n  const template = document.getElementById(VIEWS[name]);\n  if (!template) return;\n  document.getElementById(\"frame\").srcdoc = template.innerHTML;\n  try { localStorage.setItem(\"euler.causal-dag.view\", name); } catch (_) {}\n}\nwindow.addEventListener(\"message\", (event) => {\n  if (event.data && event.data.dagNav) showView(event.data.dagNav);\n});\nlet initial = \"2D Top-Down.dc.html\";\ntry { initial = localStorage.getItem(\"euler.causal-dag.view\") || initial; } catch (_) {}\nif (!VIEWS[initial]) initial = \"2D Top-Down.dc.html\";\nshowView(initial);\n</script>";

/// The fixed parts of the HTML view.
pub struct ViewerAssets {
    pub runtime: String,
    pub react: String,
    pub react_dom: String,
    pub top_down: String,
    pub indented_spine: String,
    pub constellation_3d: String,
    pub constellation_3_5d: String,
    pub palette_json: String,
}

/// What [`ViewerAssets`] hold.
#[verifier::ext_equal]
pub struct Assets {
    pub runtime: Seq<char>,
    pub react: Seq<char>,
    pub react_dom: Seq<char>,
    pub top_down: Seq<char>,
    pub indented_spine: Seq<char>,
    pub constellation_3d: Seq<char>,
    pub constellation_3_5d: Seq<char>,
    pub palette_json: Seq<char>,
}

impl DeepView for ViewerAssets {
    type V = Assets;

    open spec fn deep_view(&self) -> Assets {
        Assets {
            runtime: self.runtime@,
            react: self.react@,
            react_dom: self.react_dom@,
            top_down: self.top_down@,
            indented_spine: self.indented_spine@,
            constellation_3d: self.constellation_3d@,
            constellation_3_5d: self.constellation_3_5d@,
            palette_json: self.palette_json@,
        }
    }
}

/// Whether a word stands in a text at a position.
pub open spec fn stands_at(s: Seq<char>, word: Seq<char>, i: int) -> bool {
    i + word.len() <= s.len() && s.subrange(i, i + word.len()) == word
}

/// A text from position `i` on with each occurrence of a word replaced, behind what was
/// written; occurrences are found from left to right and do not overlap.
pub open spec fn replaced_from(
    s: Seq<char>,
    word: Seq<char>,
    with: Seq<char>,
    i: nat,
    out: Seq<char>,
) -> Seq<char>
    decreases s.len() - i,
{
    if i >= s.len() || word.len() == 0 {
        out
    } else if stands_at(s, word, i as int) {
        replaced_from(s, word, with, i + word.len(), out + with)
    } else {
        replaced_from(s, word, with, i + 1, out.push(s[i as int]))
    }
}

/// A text with each occurrence of a word replaced.
pub open spec fn replaced(s: Seq<char>, word: Seq<char>, with: Seq<char>) -> Seq<char> {
    replaced_from(s, word, with, 0, Seq::empty())
}

/// How often a word occurs in a text from position `i` on.
pub open spec fn occurrences(s: Seq<char>, word: Seq<char>, i: nat) -> nat
    decreases s.len() - i,
{
    if i >= s.len() || word.len() == 0 {
        0
    } else if stands_at(s, word, i as int) {
        1 + occurrences(s, word, i + word.len())
    } else {
        occurrences(s, word, i + 1)
    }
}

fn occurs_at(s: &Vec<char>, word: &Vec<char>, i: usize) -> (r: bool)
    requires
        i <= s@.len(),
    ensures
        r == stands_at(s@, word@, i as int),
{
    if word.len() > s.len() - i {
        return false;
    }
    let n: usize = s.len();
    let mut k: usize = 0;
    while k < word.len()
        invariant
            k <= word@.len(),
            i + word@.len() <= n == s@.len(),
            forall|j: int| 0 <= j < k ==> s@[i + j] == #[trigger] word@[j],
        decreases word@.len() - k,
    {
        if s[i + k] != word[k] {
            assert(s@.subrange(i as int, i + word@.len())[k as int] != word@[k as int]);
            return false;
        }
        k += 1;
    }
    assert(s@.subrange(i as int, i + word@.len()) =~= word@);
    true
}

fn replace_all(s: &str, word: &str, with: &str) -> (r: String)
    requires
        word@.len() > 0,
    ensures
        r@ == replaced(s@, word@, with@),
{
    let v = chars_of(s);
    let w = chars_of(word);
    let mut out = String::new();
    let mut i: usize = 0;
    while i < v.len()
        invariant
            i <= v@.len(),
            v@ == s@,
            w@ == word@,
            w@.len() > 0,
            replaced(s@, word@, with@) == replaced_from(s@, word@, with@, i as nat, out@),
        decreases v@.len() - i,
    {
        if occurs_at(&v, &w, i) {
            out.push_str(with);
            i += w.len();
        } else {
            out.push(v[i]);
            i += 1;
        }
    }
    out
}

fn occurs_once(s: &str, word: &str) -> (r: bool)
    requires
        word@.len() > 0,
    ensures
        r == (occurrences(s@, word@, 0) == 1),
{
    let v = chars_of(s);
    let w = chars_of(word);
    let mut count: usize = 0;
    let mut i: usize = 0;
    while i < v.len()
        invariant
            i <= v@.len(),
            v@ == s@,
            w@ == word@,
            w@.len() > 0,
            count <= 1,
            occurrences(s@, word@, 0) == count + occurrences(s@, word@, i as nat),
        decreases v@.len() - i,
    {
        if occurs_at(&v, &w, i) {
            if count == 1 {
                return false;
            }
            count += 1;
            i += w.len();
        } else {
            i += 1;
        }
    }
    count == 1
}

/// What is wrong with the places for insertion in a template: each is there once.
pub open spec fn template_fault(template: Seq<char>, i: nat) -> Option<Seq<char>>
    decreases 3 - i,
{
    if i >= 3 {
        None
    } else {
        let marker = if i == 0 {
            RUNTIME_MARKER@
        } else if i == 1 {
            DAG_MARKER@
        } else {
            PALETTE_MARKER@
        };
        if occurrences(template, marker, 0) != 1 {
            Some("causal-dag viewer template has an invalid `"@ + marker + "` injection point"@)
        } else {
            template_fault(template, i + 1)
        }
    }
}

/// The scripts that each page loads.
pub open spec fn runtime_of(assets: Assets) -> Seq<char> {
    "<script>\n"@ + assets.react + "\n</script>\n<script>\n"@ + assets.react_dom
        + "\n</script>\n<script>\n"@ + assets.runtime + "\n</script>"@
}

/// A template with the scripts, the palette and last the graph put in: text of the graph that
/// looks like a place for insertion stays text.
pub open spec fn page_of(
    template: Seq<char>,
    assets: Assets,
    dag_json: Seq<char>,
    palette_json: Seq<char>,
) -> Result<Seq<char>, Seq<char>> {
    match template_fault(template, 0) {
        Some(e) => Err(e),
        None => Ok(
            replaced(
                replaced(
                    replaced(template, RUNTIME_MARKER@, runtime_of(assets)),
                    PALETTE_MARKER@,
                    palette_json,
                ),
                DAG_MARKER@,
                dag_json,
            ),
        ),
    }
}

proof fn lemma_markers()
    ensures
        RUNTIME_MARKER@.len() > 0,
        DAG_MARKER@.len() > 0,
        PALETTE_MARKER@.len() > 0,
{
    reveal_strlit("<!--__EULER_RUNTIME__-->");
    reveal_strlit("/*__EULER_DAG__*/");
    reveal_strlit("/*__EULER_PALETTE__*/");
}

fn render_page(template: &str, assets: &ViewerAssets, dag_json: &str, palette_json: &str) -> (r:
    Result<String, ExtensionError>)
    ensures
        answers(r, page_of(template@, assets.deep_view(), dag_json@, palette_json@)),
{
    proof {
        lemma_markers();
        reveal_with_fuel(template_fault, 4);
    }
    if !occurs_once(template, RUNTIME_MARKER) {
        return Err(
            fault(
                join3(
                    "causal-dag viewer template has an invalid `",
                    RUNTIME_MARKER,
                    "` injection point",
                ),
            ),
        );
    }
    if !occurs_once(template, DAG_MARKER) {
        return Err(
            fault(
                join3(
                    "causal-dag viewer template has an invalid `",
                    DAG_MARKER,
                    "` injection point",
                ),
            ),
        );
    }
    if !occurs_once(template, PALETTE_MARKER) {
        return Err(
            fault(
                join3(
                    "causal-dag viewer template has an invalid `",
                    PALETTE_MARKER,
                    "` injection point",
                ),
            ),
        );
    }
    let mut runtime = join2("<script>\n", &assets.react);
    runtime.push_str("\n</script>\n<script>\n");
    runtime.push_str(&assets.react_dom);
    runtime.push_str("\n</script>\n<script>\n");
    runtime.push_str(&assets.runtime);
    runtime.push_str("\n</script>");
    let page = replace_all(template, RUNTIME_MARKER, &runtime);
    let page = replace_all(&page, PALETTE_MARKER, palette_json);
    Ok(replace_all(&page, DAG_MARKER, dag_json))
}

/// A node as JSON text, its members in the order in which the viewer names them.
pub open spec fn node_json(node: Node) -> Seq<char> {
    "{\"id\":"@ + json_text(Tree::Text(node.id)) + ",\"parent\":"@ + json_text(
        optional_text(node.parent),
    ) + ",\"sequence\":"@ + json_text(counted(node.sequence as nat)) + ",\"status\":"@ + json_text(
        Tree::Text(node.status),
    ) + ",\"kind\":"@ + json_text(Tree::Text(node.kind)) + ",\"title\":"@ + json_text(
        Tree::Text(node.title),
    ) + ",\"summary\":"@ + json_text(Tree::Text(node.summary)) + ",\"ev\":"@ + json_text(
        Tree::Text(node.ev),
    ) + "}"@
}

fn node_text(node: &ViewerNode) -> (r: String)
    ensures
        r@ == node_json(node.deep_view()),
{
    let mut out = join2("{\"id\":", &write_json(&Json::of_text(&node.id)));
    out.push_str(",\"parent\":");
    out.push_str(&write_json(&Json::of_optional_text(&node.parent)));
    out.push_str(",\"sequence\":");
    out.push_str(&write_json(&Json::of_count(node.sequence)));
    out.push_str(",\"status\":");
    out.push_str(&write_json(&Json::of_text(&node.status)));
    out.push_str(",\"kind\":");
    out.push_str(&write_json(&Json::of_text(&node.kind)));
    out.push_str(",\"title\":");
    out.push_str(&write_json(&Json::of_text(&node.title)));
    out.push_str(",\"summary\":");
    out.push_str(&write_json(&Json::of_text(&node.summary)));
    out.push_str(",\"ev\":");
    out.push_str(&write_json(&Json::of_text(&node.ev)));
    out.push_str("}");
    out
}

/// A cross-arc as JSON text.
pub open spec fn arc_json(arc: Arc) -> Seq<char> {
    "{\"id\":"@ + json_text(Tree::Text(arc.id)) + ",\"from\":"@ + json_text(Tree::Text(arc.from))
        + ",\"to\":"@ + json_text(Tree::Text(arc.to)) + ",\"class\":"@ + json_text(
        Tree::Text(arc.class),
    ) + ",\"kind\":"@ + json_text(Tree::Text(arc.kind)) + ",\"note\":"@ + json_text(
        Tree::Text(arc.note),
    ) + "}"@
}

fn arc_text(arc: &ViewerArc) -> (r: String)
    ensures
        r@ == arc_json(arc.deep_view()),
{
    let mut out = join2("{\"id\":", &write_json(&Json::of_text(&arc.id)));
    out.push_str(",\"from\":");
    out.push_str(&write_json(&Json::of_text(&arc.from)));
    out.push_str(",\"to\":");
    out.push_str(&write_json(&Json::of_text(&arc.to)));
    out.push_str(",\"class\":");
    out.push_str(&write_json(&Json::of_text(&arc.class)));
    out.push_str(",\"kind\":");
    out.push_str(&write_json(&Json::of_text(&arc.kind)));
    out.push_str(",\"note\":");
    out.push_str(&write_json(&Json::of_text(&arc.note)));
    out.push_str("}");
    out
}

/// A graph as JSON text for the viewer.
pub open spec fn dag_json(dag: Dag) -> Seq<char> {
    "{\"schema\":\"euler.causal_dag.viewer.v2\",\"session_id\":"@ + json_text(
        Tree::Text(dag.session_id),
    ) + ",\"title\":"@ + json_text(Tree::Text(dag.title)) + ",\"operation\":"@ + json_text(
        Tree::Text(dag.operation),
    ) + ",\"active_root\":"@ + json_text(optional_text(dag.active_root)) + ",\"roots\":"@
        + json_text(texts(dag.roots)) + ",\"nodes\":["@ + joined(
        Seq::new(dag.nodes.len(), |i: int| node_json(dag.nodes[i])),
        ","@,
    ) + "],\"arcs\":["@ + joined(
        Seq::new(dag.arcs.len(), |i: int| arc_json(dag.arcs[i])),
        ","@,
    ) + "]}"@
}

fn dag_text(dag: &ViewerDag) -> (r: String)
    ensures
        r@ == dag_json(dag.deep_view()),
{
    let ghost model = dag.deep_view();
    let mut nodes: Vec<String> = Vec::new();
    let mut i: usize = 0;
    while i < dag.nodes.len()
        invariant
            i <= dag.nodes@.len(),
            model == dag.deep_view(),
            nodes@.len() == i,
            forall|j: int| 0 <= j < i ==> (#[trigger] nodes@[j])@ == node_json(model.nodes[j]),
        decreases dag.nodes@.len() - i,
    {
        nodes.push(node_text(&dag.nodes[i]));
        i += 1;
    }
    assert(nodes.deep_view() =~= Seq::new(
        model.nodes.len(),
        |i: int| node_json(model.nodes[i]),
    ));
    let mut arcs: Vec<String> = Vec::new();
    let mut i: usize = 0;
    while i < dag.arcs.len()
        invariant
            i <= dag.arcs@.len(),
            model == dag.deep_view(),
            arcs@.len() == i,
            forall|j: int| 0 <= j < i ==> (#[trigger] arcs@[j])@ == arc_json(model.arcs[j]),
        decreases dag.arcs@.len() - i,
    {
        arcs.push(arc_text(&dag.arcs[i]));
        i += 1;
    }
    assert(arcs.deep_view() =~= Seq::new(model.arcs.len(), |i: int| arc_json(model.arcs[i])));
    let mut out = join2(
        "{\"schema\":\"euler.causal_dag.viewer.v2\",\"session_id\":",
        &write_json(&Json::of_text(&dag.session_id)),
    );
    out.push_str(",\"title\":");
    out.push_str(&write_json(&Json::of_text(&dag.title)));
    out.push_str(",\"operation\":");
    out.push_str(&write_json(&Json::of_text(&dag.operation)));
    out.push_str(",\"active_root\":");
    out.push_str(&write_json(&Json::of_optional_text(&dag.active_root)));
    out.push_str(",\"roots\":");
    out.push_str(&write_json(&Json::of_texts(&dag.roots)));
    out.push_str(",\"nodes\":[");
    out.push_str(&join(&nodes, ","));
    out.push_str("],\"arcs\":[");
    out.push_str(&join(&arcs, ","));
    out.push_str("]}");
    out
}

/// The head of the HTML view.
pub open spec fn html_head(title: Seq<char>) -> Seq<char> {
    "<!DOCTYPE html>\n<html lang=\"en\">\n<head>\n<meta charset=\"utf-8\">\n"@
        + "<meta name=\"viewport\" content=\"width=device-width,initial-scale=1\">\n"@
        + "<meta http-equiv=\"Content-Security-Policy\" content=\"default-src 'none'; script-src 'unsafe-inline' 'unsafe-eval'; style-src 'unsafe-inline'; font-src data:; img-src data:; connect-src 'none'; frame-src 'self' data: blob:;\">\n"@
        + "<title>"@ + escaped(Escape::Html, "Euler causal DAG · "@ + title)
        + "</title>\n<style>html,body{margin:0;height:100%;background:#fdfcf9}iframe{position:fixed;inset:0;border:0;width:100%;height:100%}</style>\n</head>\n<body>\n"@
        + "<iframe id=\"frame\" title=\"Euler causal DAG viewer\" allow=\"fullscreen\"></iframe>\n"@
}

/// A page as a template element.
pub open spec fn template_element(id: Seq<char>, page: Seq<char>) -> Seq<char> {
    "<template id=\""@ + id + "\">\n"@ + page + "\n</template>\n"@
}

fn template_text(id: &str, page: &str) -> (r: String)
    ensures
        r@ == template_element(id@, page@),
{
    let mut out = join3("<template id=\"", id, "\">\n");
    out.push_str(page);
    out.push_str("\n</template>\n");
    out
}

/// A graph as a self-contained HTML page.
pub open spec fn html_of(dag: Dag, assets: Assets) -> Result<Seq<char>, Seq<char>> {
    let graph = escaped(Escape::Script, dag_json(dag));
    let palette = escaped(Escape::Script, trimmed(assets.palette_json));
    match page_of(assets.top_down, assets, graph, palette) {
        Err(e) => Err(e),
        Ok(top_down) => match page_of(assets.indented_spine, assets, graph, palette) {
            Err(e) => Err(e),
            Ok(spine) => match page_of(assets.constellation_3d, assets, graph, palette) {
                Err(e) => Err(e),
                Ok(flat) => match page_of(assets.constellation_3_5d, assets, graph, palette) {
                    Err(e) => Err(e),
                    Ok(deep) => Ok(
                        html_head(dag.title) + template_element("view-top-down"@, top_down)
                            + template_element("view-indented-spine"@, spine) + template_element(
                            "view-constellation-3d"@,
                            flat,
                        ) + template_element("view-constellation-3-5d"@, deep)
                            + PARENT_SCRIPT@ + "\n</body>\n</html>\n"@,
                    ),
                },
            },
        },
    }
}

/// Renders a graph as a self-contained HTML page.
pub fn render_html(dag: &ViewerDag, assets: &ViewerAssets) -> (r: Result<String, ExtensionError>)
    ensures
        answers(r, html_of(dag.deep_view(), assets.deep_view())),
{
    let graph = script_safe_json(&dag_text(dag));
    let palette = script_safe_json(&trim(&assets.palette_json));
    let top_down = match render_page(&assets.top_down, assets, &graph, &palette) {
        Ok(page) => page,
        Err(e) => return Err(e),
    };
    let spine = match render_page(&assets.indented_spine, assets, &graph, &palette) {
        Ok(page) => page,
        Err(e) => return Err(e),
    };
    let flat = match render_page(&assets.constellation_3d, assets, &graph, &palette) {
        Ok(page) => page,
        Err(e) => return Err(e),
    };
    let deep = match render_page(&assets.constellation_3_5d, assets, &graph, &palette) {
        Ok(page) => page,
        Err(e) => return Err(e),
    };
    let mut html =
        "<!DOCTYPE html>\n<html lang=\"en\">\n<head>\n<meta charset=\"utf-8\">\n".to_owned();
    html.push_str("<meta name=\"viewport\" content=\"width=device-width,initial-scale=1\">\n");
    html.push_str(
        "<meta http-equiv=\"Content-Security-Policy\" content=\"default-src 'none'; script-src 'unsafe-inline' 'unsafe-eval'; style-src 'unsafe-inline'; font-src data:; img-src data:; connect-src 'none'; frame-src 'self' data: blob:;\">\n",
    );
    html.push_str("<title>");
    html.push_str(&escape(Escape::Html, &join2("Euler causal DAG · ", &dag.title)));
    html.push_str(
        "</title>\n<style>html,body{margin:0;height:100%;background:#fdfcf9}iframe{position:fixed;inset:0;border:0;width:100%;height:100%}</style>\n</head>\n<body>\n",
    );
    html.push_str(
        "<iframe id=\"frame\" title=\"Euler causal DAG viewer\" allow=\"fullscreen\"></iframe>\n",
    );
    html.push_str(&template_text("view-top-down", &top_down));
    html.push_str(&template_text("view-indented-spine", &spine));
    html.push_str(&template_text("view-constellation-3d", &flat));
    html.push_str(&template_text("view-constellation-3-5d", &deep));
    html.push_str(PARENT_SCRIPT);
    html.push_str("\n</body>\n</html>\n");
    Ok(html)
}

/// The pieces of a text from position `i` on between the occurrences of a word, behind those that
/// are done and the one begun.
pub open spec fn cut_from(
    s: Seq<char>,
    word: Seq<char>,
    i: nat,
    done: Seq<Seq<char>>,
    begun: Seq<char>,
) -> Seq<Seq<char>>
    decreases s.len() - i,
{
    if i >= s.len() || word.len() == 0 {
        done.push(begun)
    } else if stands_at(s, word, i as int) {
        cut_from(s, word, i + word.len(), done.push(begun), Seq::empty())
    } else {
        cut_from(s, word, i + 1, done, begun.push(s[i as int]))
    }
}

/// The pieces of a text between the occurrences of a word.
pub open spec fn cut(s: Seq<char>, word: Seq<char>) -> Seq<Seq<char>> {
    cut_from(s, word, 0, Seq::empty(), Seq::empty())
}

proof fn lemma_replaced_is_joined(
    s: Seq<char>,
    word: Seq<char>,
    with: Seq<char>,
    i: nat,
    done: Seq<Seq<char>>,
    begun: Seq<char>,
)
    ensures
        replaced_from(s, word, with, i, joined(done.push(begun), with)) == joined(
            cut_from(s, word, i, done, begun),
            with,
        ),
    decreases s.len() - i,
{
    let out = joined(done.push(begun), with);
    if i < s.len() && word.len() > 0 {
        assert(done.push(begun).drop_last() =~= done);
        if stands_at(s, word, i as int) {
            let next = done.push(begun);
            let none = Seq::<char>::empty();
            assert(next.push(none).drop_last() =~= next);
            assert(joined(next.push(none), with) =~= out + with);
            lemma_replaced_is_joined(s, word, with, i + word.len(), next, none);
        } else {
            let longer = begun.push(s[i as int]);
            assert(done.push(longer).drop_last() =~= done);
            assert(joined(done.push(longer), with) =~= out.push(s[i as int]));
            lemma_replaced_is_joined(s, word, with, i + 1, done, longer);
        }
    }
}

/// What a page holds around the text of the graph does not depend on that text: a part of the
/// text that looks like a place for insertion stays text.
pub proof fn graph_text_stays_text(
    template: Seq<char>,
    assets: Assets,
    dag_json: Seq<char>,
    palette_json: Seq<char>,
)
    requires
        template_fault(template, 0) is None,
    ensures
        page_of(template, assets, dag_json, palette_json) == Ok::<Seq<char>, Seq<char>>(
            joined(
                cut(
                    replaced(
                        replaced(template, RUNTIME_MARKER@, runtime_of(assets)),
                        PALETTE_MARKER@,
                        palette_json,
                    ),
                    DAG_MARKER@,
                ),
                dag_json,
            ),
        ),
{
    let page = replaced(
        replaced(template, RUNTIME_MARKER@, runtime_of(assets)),
        PALETTE_MARKER@,
        palette_json,
    );
    let none = Seq::<Seq<char>>::empty();
    assert(joined(none.push(Seq::empty()), dag_json) =~= Seq::empty());
    lemma_replaced_is_joined(page, DAG_MARKER@, dag_json, 0, none, Seq::empty());
}

/// The viewer is given the graph as it is: each node with its parent, status, kind, title, summary
/// and evidence, each arc with its ends, class, kind and note, all in their order.
pub proof fn viewers_are_given_the_graph(dag: Dag, node: Node, arc: Arc)
    ensures
        node_json(node) == "{\"id\":"@ + json_text(Tree::Text(node.id)) + ",\"parent\":"@
            + json_text(optional_text(node.parent)) + ",\"sequence\":"@ + json_text(
            counted(node.sequence as nat),
        ) + ",\"status\":"@ + json_text(Tree::Text(node.status)) + ",\"kind\":"@ + json_text(
            Tree::Text(node.kind),
        ) + ",\"title\":"@ + json_text(Tree::Text(node.title)) + ",\"summary\":"@ + json_text(
            Tree::Text(node.summary),
        ) + ",\"ev\":"@ + json_text(Tree::Text(node.ev)) + "}"@,
        arc_json(arc) == "{\"id\":"@ + json_text(Tree::Text(arc.id)) + ",\"from\":"@ + json_text(
            Tree::Text(arc.from),
        ) + ",\"to\":"@ + json_text(Tree::Text(arc.to)) + ",\"class\":"@ + json_text(
            Tree::Text(arc.class),
        ) + ",\"kind\":"@ + json_text(Tree::Text(arc.kind)) + ",\"note\":"@ + json_text(
            Tree::Text(arc.note),
        ) + "}"@,
        dag_json(dag) == "{\"schema\":\"euler.causal_dag.viewer.v2\",\"session_id\":"@ + json_text(
            Tree::Text(dag.session_id),
        ) + ",\"title\":"@ + json_text(Tree::Text(dag.title)) + ",\"operation\":"@ + json_text(
            Tree::Text(dag.operation),
        ) + ",\"active_root\":"@ + json_text(optional_text(dag.active_root)) + ",\"roots\":"@
            + json_text(texts(dag.roots)) + ",\"nodes\":["@ + joined(
            Seq::new(dag.nodes.len(), |i: int| node_json(dag.nodes[i])),
            ","@,
        ) + "],\"arcs\":["@ + joined(
            Seq::new(dag.arcs.len(), |i: int| arc_json(dag.arcs[i])),
            ","@,
        ) + "]}"@,
{
}

/// A page has four views of one graph, each made of its own template; a template without one place
/// each for the runtime, the graph and the palette is refused.
pub proof fn pages_have_four_views(dag: Dag, assets: Assets)
    ensures
        html_of(dag, assets) matches Ok(page) ==> {
            let graph = escaped(Escape::Script, dag_json(dag));
            let palette = escaped(Escape::Script, trimmed(assets.palette_json));
            let one = page_of(assets.top_down, assets, graph, palette);
            let two = page_of(assets.indented_spine, assets, graph, palette);
            let three = page_of(assets.constellation_3d, assets, graph, palette);
            let four = page_of(assets.constellation_3_5d, assets, graph, palette);
            &&& one is Ok && two is Ok && three is Ok && four is Ok
            &&& page == html_head(dag.title) + template_element("view-top-down"@, one->Ok_0)
                + template_element("view-indented-spine"@, two->Ok_0) + template_element(
                "view-constellation-3d"@,
                three->Ok_0,
            ) + template_element("view-constellation-3-5d"@, four->Ok_0) + PARENT_SCRIPT@
                + "\n</body>\n</html>\n"@
            &&& occurrences(assets.top_down, "<!--__EULER_RUNTIME__-->"@, 0) == 1
            &&& occurrences(assets.top_down, "/*__EULER_DAG__*/"@, 0) == 1
            &&& occurrences(assets.top_down, "/*__EULER_PALETTE__*/"@, 0) == 1
        },
{
    reveal_with_fuel(template_fault, 4);
}

} // verus!
