//! Source references: what a record cites, what an earlier graph cited, and how the two merge.

use super::fields::{
    need_count, need_text, object_value, required_json_str, required_str, required_u64, rows_of,
    text_in, unknown_member, reject_unknown_members,
};
use crate::active_state::{Active, ActiveGraphState};
use crate::event::{Event, EventEnvelope, EventKind};
use crate::json::{
    alike, counted, lower, optional_text, same_tree, settled, value_tree, Json, Members, Numeral, Tree,
};
use crate::sdk::{answers, fault, input_error, passes, ExtensionError};
use crate::table::{find, has_row, member, put, put_row};
use crate::text::{join3, join5, same};
use vstd::prelude::*;

verus! {

pub const OCCURRENCE_SOURCE_REF_ID: &'static str = "occurrence_source_ref_id";

/// What identifies a source: the event, and the place in it.
pub type SourceKey = (Seq<char>, Option<Seq<char>>);

/// A source that an earlier graph cited.
pub struct PriorSource {
    pub event_id: String,
    pub payload_pointer: Option<String>,
    pub source: Json,
}

impl DeepView for PriorSource {
    type V = (SourceKey, Tree);

    open spec fn deep_view(&self) -> (SourceKey, Tree) {
        ((self.event_id@, self.payload_pointer.deep_view()), self.source@)
    }
}

/// The last source of a key among the first `n`.
pub open spec fn source_at(sources: Seq<(SourceKey, Tree)>, key: SourceKey, n: nat) -> Option<Tree>
    decreases n,
{
    if n == 0 {
        None
    } else if sources[n - 1].0 == key {
        Some(sources[n - 1].1)
    } else {
        source_at(sources, key, (n - 1) as nat)
    }
}

fn same_optional(a: &Option<String>, b: &Option<String>) -> (r: bool)
    ensures
        r == (a.deep_view() == b.deep_view()),
{
    match (a, b) {
        (Some(a), Some(b)) => same(a, b),
        (None, None) => true,
        _ => false,
    }
}

pub fn find_prior<'a>(
    sources: &'a Vec<PriorSource>,
    event_id: &str,
    payload_pointer: &Option<String>,
) -> (r: Option<&'a Json>)
    ensures
        r.deep_view() == source_at(
            sources.deep_view(),
            (event_id@, payload_pointer.deep_view()),
            sources@.len(),
        ),
{
    let ghost key = (event_id@, payload_pointer.deep_view());
    let mut n: usize = sources.len();
    while n > 0
        invariant
            n <= sources@.len(),
            key == (event_id@, payload_pointer.deep_view()),
            source_at(sources.deep_view(), key, sources@.len()) == source_at(
                sources.deep_view(),
                key,
                n as nat,
            ),
        decreases n,
    {
        assert(sources.deep_view()[n - 1] == sources@[n - 1].deep_view());
        if same(&sources[n - 1].event_id, event_id) && same_optional(
            &sources[n - 1].payload_pointer,
            payload_pointer,
        ) {
            return Some(&sources[n - 1].source);
        }
        n -= 1;
    }
    None
}

/// The key of a source that is kept.
pub open spec fn key_of(source: Tree, label: Seq<char>) -> Result<SourceKey, Seq<char>> {
    match rows_of(source, label) {
        Err(e) => Err(e),
        Ok(o) => match need_text(o, "event_id"@, label) {
            Err(e) => Err(e),
            Ok(event_id) => match member(o, "payload_pointer"@) {
                Some(Tree::Text(pointer)) => Ok((event_id, Some(pointer))),
                Some(Tree::Null) => Ok((event_id, None)),
                _ => Err(label + " has invalid payload_pointer"@),
            },
        },
    }
}

pub fn persisted_source_key(source: &Json, label: &str) -> (r: Result<
    (String, Option<String>),
    ExtensionError,
>)
    ensures
        answers(r, key_of(source@, label@)),
{
    let o = object_value(source, label)?;
    let event_id = required_str(o, "event_id", label)?.clone();
    let pointer = match find(o, "payload_pointer") {
        Some(Json::Text(pointer)) => Some(pointer.clone()),
        Some(Json::Null) => None,
        _ => return Err(fault(crate::text::join2(label, " has invalid payload_pointer"))),
    };
    Ok((event_id, pointer))
}

/// The rows without the first of a name.
pub open spec fn without(o: Seq<(Seq<char>, Tree)>, name: Seq<char>) -> Seq<(Seq<char>, Tree)>
    decreases o.len(),
{
    if o.len() == 0 {
        o
    } else if o[0].0 == name {
        o.drop_first()
    } else {
        seq![o[0]] + without(o.drop_first(), name)
    }
}

/// A source without its id.
pub open spec fn meaning(source: Tree) -> Tree {
    match source {
        Tree::Object(o) => Tree::Object(without(o, "id"@)),
        _ => source,
    }
}

pub fn drop_row(o: &Members, name: &str) -> (r: Members)
    ensures
        r.deep_view() == without(o.deep_view(), name@),
{
    let ghost all = o.deep_view();
    let mut out: Members = Vec::new();
    let mut i: usize = 0;
    let mut dropped = false;
    assert(all.skip(0) =~= all);
    assert(out.deep_view() + without(all.skip(0), name@) =~= without(all, name@));
    while i < o.len()
        invariant
            i <= o@.len(),
            all == o.deep_view(),
            !dropped ==> out.deep_view() + without(all.skip(i as int), name@) == without(
                all,
                name@,
            ),
            dropped ==> out.deep_view() + all.skip(i as int) == without(all, name@),
        decreases o@.len() - i,
    {
        let ghost rest = all.skip(i as int);
        assert(rest[0] == all[i as int]);
        assert(rest.drop_first() =~= all.skip(i + 1));
        let ghost was = out.deep_view();
        if !dropped && same(&o[i].0, name) {
            dropped = true;
        } else {
            out.push((o[i].0.clone(), o[i].1.clone()));
            assert(out.deep_view() =~= was.push(all[i as int]));
            proof {
                if !dropped {
                    assert(without(rest, name@) =~= seq![rest[0]] + without(
                        rest.drop_first(),
                        name@,
                    ));
                    assert(out.deep_view() + without(all.skip(i + 1), name@) =~= was + (
                    seq![rest[0]] + without(rest.drop_first(), name@)));
                } else {
                    assert(out.deep_view() + all.skip(i + 1) =~= was + rest);
                }
            }
        }
        i += 1;
    }
    assert(all.skip(i as int) =~= Seq::empty());
    assert(out.deep_view() + Seq::empty() =~= out.deep_view());
    out
}

fn source_ref_without_id(source: &Json) -> (r: Json)
    ensures
        r@ == meaning(source@),
{
    broadcast use crate::json::object_model;

    match source {
        Json::Object(o) => Json::Object(drop_row(o, "id")),
        _ => source.clone(),
    }
}

pub fn same_meaning(a: &Json, b: &Json) -> (r: bool)
    ensures
        r == alike(meaning(a@), meaning(b@)),
{
    same_tree(&source_ref_without_id(a), &source_ref_without_id(b))
}

/// The sources of a graph, from source `i` of a list on: two of one key say the same.
pub open spec fn noted_from(
    list: Seq<Tree>,
    i: nat,
    noted: Seq<(SourceKey, Tree)>,
) -> Result<Seq<(SourceKey, Tree)>, Seq<char>>
    decreases list.len() - i,
{
    if i >= list.len() {
        Ok(noted)
    } else {
        match key_of(list[i as int], "active causal-dag source ref"@) {
            Err(e) => Err(e),
            Ok(key) => match source_at(noted, key, noted.len()) {
                Some(previous) => if !alike(
                    meaning(previous),
                    meaning(list[i as int]),
                ) {
                    Err("active causal-dag graph has inconsistent duplicate source refs"@)
                } else {
                    noted_from(list, i + 1, noted.push((key, list[i as int])))
                },
                None => noted_from(list, i + 1, noted.push((key, list[i as int]))),
            },
        }
    }
}

/// The sources of the records of a table, from record `i` on.
pub open spec fn record_sources(
    records: Seq<(Seq<char>, Tree)>,
    i: nat,
    noted: Seq<(SourceKey, Tree)>,
) -> Result<Seq<(SourceKey, Tree)>, Seq<char>>
    decreases records.len() - i,
{
    if i >= records.len() {
        Ok(noted)
    } else {
        match records[i as int].1.list_at("source_refs"@) {
            None => Err("active causal-dag record has invalid source_refs"@),
            Some(list) => match noted_from(list, 0, noted) {
                Err(e) => Err(e),
                Ok(noted) => record_sources(records, i + 1, noted),
            },
        }
    }
}

fn note_sources(list: &Vec<Json>, start: Vec<PriorSource>) -> (r: Result<
    Vec<PriorSource>,
    ExtensionError,
>)
    ensures
        answers(r, noted_from(list.deep_view(), 0, start.deep_view())),
{
    let ghost first = start.deep_view();
    let mut noted = start;
    let mut i: usize = 0;
    while i < list.len()
        invariant
            first == start.deep_view(),
            i <= list@.len(),
            noted_from(list.deep_view(), 0, first) == noted_from(
                list.deep_view(),
                i as nat,
                noted.deep_view(),
            ),
        decreases list@.len() - i,
    {
        assert(list.deep_view()[i as int] == list@[i as int]@);
        let (event_id, payload_pointer) = persisted_source_key(
            &list[i],
            "active causal-dag source ref",
        )?;
        if let Some(previous) = find_prior(&noted, &event_id, &payload_pointer) {
            if !same_meaning(previous, &list[i]) {
                return Err(
                    input_error("active causal-dag graph has inconsistent duplicate source refs"),
                );
            }
        }
        let ghost was = noted.deep_view();
        let entry = PriorSource { event_id, payload_pointer, source: list[i].clone() };
        let ghost model = entry.deep_view();
        noted.push(entry);
        assert(noted.deep_view() =~= was.push(model));
        i += 1;
    }
    Ok(noted)
}

fn note_records(records: &Members, start: Vec<PriorSource>) -> (r: Result<
    Vec<PriorSource>,
    ExtensionError,
>)
    ensures
        answers(r, record_sources(records.deep_view(), 0, start.deep_view())),
{
    let ghost first = start.deep_view();
    let mut noted = start;
    let mut i: usize = 0;
    while i < records.len()
        invariant
            first == start.deep_view(),
            i <= records@.len(),
            record_sources(records.deep_view(), 0, first) == record_sources(
                records.deep_view(),
                i as nat,
                noted.deep_view(),
            ),
        decreases records@.len() - i,
    {
        assert(records.deep_view()[i as int].1 == records@[i as int].1@);
        let list = match records[i].1.list_at("source_refs") {
            Some(list) => list,
            None => {
                return Err(input_error("active causal-dag record has invalid source_refs"));
            },
        };
        noted = note_sources(list, noted)?;
        i += 1;
    }
    Ok(noted)
}

/// The records of a list by id, from position `i` on.
pub open spec fn records_from(
    list: Seq<Tree>,
    kind: Seq<char>,
    i: nat,
    records: Seq<(Seq<char>, Tree)>,
) -> Result<Seq<(Seq<char>, Tree)>, Seq<char>>
    decreases list.len() - i,
{
    if i >= list.len() {
        Ok(records)
    } else {
        match text_in(list[i as int], "id"@, "active causal-dag "@ + kind) {
            Err(e) => Err(e),
            Ok(id) => if member(records, id) is Some {
                Err(
                    "active causal-dag artifact has duplicate "@ + kind + " id `"@ + id + "`"@,
                )
            } else {
                records_from(list, kind, i + 1, put(records, id, list[i as int]))
            },
        }
    }
}

/// The records of the selected graph by id.
pub open spec fn prior_records_of(artifact: Tree, name: Seq<char>, kind: Seq<char>) -> Result<
    Seq<(Seq<char>, Tree)>,
    Seq<char>,
> {
    match artifact.at("forest"@).list_at(name) {
        None => Err("active causal-dag artifact has invalid "@ + kind + "s"@),
        Some(list) => records_from(list, kind, 0, Seq::empty()),
    }
}

fn prior_records(artifact: &Json, name: &str, kind: &str) -> (r: Result<Members, ExtensionError>)
    ensures
        answers(r, prior_records_of(artifact@, name@, kind@)),
{
    let found = match artifact.get("forest") {
        Some(forest) => forest.list_at(name),
        None => None,
    };
    let list = match found {
        Some(list) => list,
        None => {
            return Err(fault(join3("active causal-dag artifact has invalid ", kind, "s")));
        },
    };
    let context = crate::text::join2("active causal-dag ", kind);
    let mut records: Members = Vec::new();
    let mut i: usize = 0;
    assert(records.deep_view() =~= Seq::empty());
    while i < list.len()
        invariant
            i <= list@.len(),
            context@ == "active causal-dag "@ + kind@,
            prior_records_of(artifact@, name@, kind@) == records_from(
                list.deep_view(),
                kind@,
                i as nat,
                records.deep_view(),
            ),
        decreases list@.len() - i,
    {
        assert(list.deep_view()[i as int] == list@[i as int]@);
        let id = required_json_str(&list[i], "id", &context)?;
        if has_row(&records, id) {
            return Err(
                fault(
                    join5("active causal-dag artifact has duplicate ", kind, " id `", id, "`"),
                ),
            );
        }
        put_row(&mut records, id, list[i].clone());
        i += 1;
    }
    Ok(records)
}

/// The graph that a revision starts from.
pub struct PriorGraph {
    pub nodes: Members,
    pub edges: Members,
    pub sources: Vec<PriorSource>,
}

/// What a [`PriorGraph`] holds.
#[verifier::ext_equal]
pub struct Prior {
    pub nodes: Seq<(Seq<char>, Tree)>,
    pub edges: Seq<(Seq<char>, Tree)>,
    pub sources: Seq<(SourceKey, Tree)>,
}

impl DeepView for PriorGraph {
    type V = Prior;

    open spec fn deep_view(&self) -> Prior {
        Prior {
            nodes: self.nodes.deep_view(),
            edges: self.edges.deep_view(),
            sources: self.sources.deep_view(),
        }
    }
}

/// A graph with nothing in it.
pub open spec fn nothing_prior() -> Prior {
    Prior { nodes: Seq::empty(), edges: Seq::empty(), sources: Seq::empty() }
}

/// The graph that a revision of the selected graph starts from.
pub open spec fn prior_of(active: Option<Active>) -> Result<Prior, Seq<char>> {
    match active {
        None => Ok(nothing_prior()),
        Some(state) => match prior_records_of(state.artifact, "nodes"@, "node"@) {
            Err(e) => Err(e),
            Ok(nodes) => match prior_records_of(state.artifact, "edges"@, "edge"@) {
                Err(e) => Err(e),
                Ok(edges) => match record_sources(nodes, 0, Seq::empty()) {
                    Err(e) => Err(e),
                    Ok(noted) => match record_sources(edges, 0, noted) {
                        Err(e) => Err(e),
                        Ok(sources) => Ok(Prior { nodes, edges, sources }),
                    },
                },
            },
        },
    }
}

impl PriorGraph {
    pub fn nothing() -> (r: Self)
        ensures
            r.deep_view() == nothing_prior(),
    {
        let r = PriorGraph { nodes: Vec::new(), edges: Vec::new(), sources: Vec::new() };
        assert(r.deep_view() =~= nothing_prior());
        r
    }
}

pub fn prior_graph(active: Option<&ActiveGraphState>) -> (r: Result<PriorGraph, ExtensionError>)
    ensures
        answers(r, prior_of(active.deep_view())),
{
    let state = match active {
        Some(state) => state,
        None => return Ok(PriorGraph::nothing()),
    };
    let nodes = prior_records(state.artifact(), "nodes", "node")?;
    let edges = prior_records(state.artifact(), "edges", "edge")?;
    let none: Vec<PriorSource> = Vec::new();
    assert(none.deep_view() =~= Seq::empty());
    let noted = note_records(&nodes, none)?;
    let sources = note_records(&edges, noted)?;
    Ok(PriorGraph { nodes, edges, sources })
}

/// Whether a JSON pointer leads to a value.
pub uninterp spec fn pointer_leads(tree: Tree, pointer: Seq<char>) -> bool;

/// `serde_json::Value::pointer`: whether a JSON pointer leads from a value to one within it,
/// which depends on what the value holds and on the pointer.
#[verifier::external_body]
fn has_pointer(value: &serde_json::Value, pointer: &str) -> (r: bool)
    ensures
        r == pointer_leads(value_tree(*value), pointer@),
{
    value.pointer(pointer).is_some()
}

/// A text for each name as a tree.
pub open spec fn text_rows(rows: Seq<(Seq<char>, Seq<char>)>) -> Tree {
    Tree::Object(Seq::new(rows.len(), |i: int| (rows[i].0, Tree::Text(rows[i].1))))
}

/// An event as a tree.
pub open spec fn event_tree(event: Event) -> Tree {
    Tree::Object(
        seq![
            ("agent"@, Tree::Text(event.agent)),
            ("blobs"@, text_rows(event.blobs)),
            ("id"@, Tree::Text(event.id)),
            ("kind"@, Tree::Text(event.kind)),
            ("parent"@, optional_text(event.parent)),
            ("payload"@, Tree::Object(event.payload)),
            ("session"@, Tree::Text(event.session)),
            ("ts"@, Tree::Text(event.ts)),
            ("v"@, counted(event.v as nat)),
        ],
    )
}

fn event_value(event: &EventEnvelope) -> (r: Json)
    ensures
        r@ == event_tree(event@),
{
    broadcast use crate::json::object_model;

    let mut blobs: Members = Vec::new();
    let mut i: usize = 0;
    while i < event.blobs.len()
        invariant
            i <= event.blobs@.len(),
            blobs@.len() == i,
            forall|j: int|
                0 <= j < i ==> (#[trigger] blobs@[j]).0@ == event.blobs@[j].0@ && blobs@[j].1@
                    == Tree::Text(event.blobs@[j].1@),
        decreases event.blobs@.len() - i,
    {
        blobs.push((event.blobs[i].0.clone(), Json::of_text(&event.blobs[i].1)));
        i += 1;
    }
    assert(blobs.deep_view() =~= text_rows(event@.blobs)->Object_0);
    let rows = vec![
        ("agent".to_owned(), Json::of_text(&event.agent)),
        ("blobs".to_owned(), Json::Object(blobs)),
        ("id".to_owned(), Json::of_text(&event.id)),
        ("kind".to_owned(), Json::of_text(event.kind.as_str())),
        ("parent".to_owned(), Json::of_optional_text(&event.parent)),
        ("payload".to_owned(), Json::Object(crate::json::copy_members(&event.payload))),
        ("session".to_owned(), Json::of_text(&event.session)),
        ("ts".to_owned(), Json::of_text(&event.ts)),
        ("v".to_owned(), Json::of_count(event.v as usize)),
    ];
    assert(rows.deep_view() =~= event_tree(event@)->Object_0);
    Json::Object(rows)
}

/// What is wrong with a pointer into an event.
pub open spec fn pointer_fault(event: Event, pointer: Seq<char>, id: Seq<char>) -> Option<
    Seq<char>,
> {
    if !(pointer.len() > 0 && pointer[0] == '/') {
        Some("causal-dag source ref `"@ + id + "` has invalid payload_pointer"@)
    } else if !pointer_leads(settled(event_tree(event)), pointer) {
        Some("causal-dag source ref `"@ + id + "` payload_pointer does not resolve"@)
    } else {
        None
    }
}

/// What is wrong with a pointer into an event, where it is known whether it leads anywhere.
pub fn check_pointer(pointer: &str, id: &str, leads: bool) -> (r: Result<(), ExtensionError>)
    ensures
        passes(
            r,
            if !(pointer@.len() > 0 && pointer@[0] == '/') {
                Some("causal-dag source ref `"@ + id@ + "` has invalid payload_pointer"@)
            } else if !leads {
                Some("causal-dag source ref `"@ + id@ + "` payload_pointer does not resolve"@)
            } else {
                None
            },
        ),
{
    let v = crate::text::chars_of(pointer);
    if !(v.len() > 0 && v[0] == '/') {
        return Err(
            fault(join3("causal-dag source ref `", id, "` has invalid payload_pointer")),
        );
    }
    if !leads {
        return Err(
            fault(join3("causal-dag source ref `", id, "` payload_pointer does not resolve")),
        );
    }
    Ok(())
}

fn validate_payload_pointer(event: &EventEnvelope, pointer: &str, id: &str) -> (r: Result<
    (),
    ExtensionError,
>)
    ensures
        passes(r, pointer_fault(event@, pointer@, id@)),
{
    let leads = has_pointer(&lower(&event_value(event)), pointer);
    check_pointer(pointer, id, leads)
}

/// What an artifact event says of its artifact.
pub open spec fn artifact_ref_of(event: Event) -> Result<Tree, Seq<char>> {
    let context = "extension.artifact payload"@;
    match need_text(event.payload, "path"@, context) {
        Err(e) => Err(e),
        Ok(path) => match need_text(event.payload, "sha256"@, context) {
            Err(e) => Err(e),
            Ok(sha256) => match need_count(event.payload, "byte_len"@, context) {
                Err(e) => Err(e),
                Ok(byte_len) => Ok(
                    Tree::Object(
                        seq![
                            ("byte_len"@, counted(byte_len as nat)),
                            ("path"@, Tree::Text(path)),
                            ("sha256"@, Tree::Text(sha256)),
                        ],
                    ),
                ),
            },
        },
    }
}

fn artifact_ref(event: &EventEnvelope) -> (r: Result<Json, ExtensionError>)
    ensures
        answers(r, artifact_ref_of(event@)),
{
    broadcast use crate::json::object_model;

    let context = "extension.artifact payload";
    let path = required_str(&event.payload, "path", context)?;
    let sha256 = required_str(&event.payload, "sha256", context)?;
    let byte_len: u64 = required_u64(&event.payload, "byte_len", context)?;
    let rows = vec![
        ("byte_len".to_owned(), Json::Number(Numeral::Positive(byte_len))),
        ("path".to_owned(), Json::of_text(path)),
        ("sha256".to_owned(), Json::of_text(sha256)),
    ];
    assert(rows.deep_view() =~= artifact_ref_of(event@)->Ok_0->Object_0);
    Ok(Json::Object(rows))
}

/// A source reference as a tree.
pub open spec fn source_tree(
    id: Seq<char>,
    kind: Seq<char>,
    event: Event,
    pointer: Option<Seq<char>>,
    artifact: Tree,
) -> Tree {
    Tree::Object(
        seq![
            ("artifact"@, artifact),
            ("blob"@, Tree::Null),
            ("event_id"@, Tree::Text(event.id)),
            ("event_kind"@, Tree::Text(event.kind)),
            ("id"@, Tree::Text(id)),
            ("kind"@, Tree::Text(kind)),
            ("payload_pointer"@, optional_text(pointer)),
        ],
    )
}

pub fn source_value(
    id: &str,
    kind: &str,
    event: &EventEnvelope,
    pointer: &Option<String>,
    artifact: Json,
) -> (r: Json)
    ensures
        r@ == source_tree(id@, kind@, event@, pointer.deep_view(), artifact@),
{
    broadcast use crate::json::object_model;

    let ghost model = artifact@;
    let rows = vec![
        ("artifact".to_owned(), artifact),
        ("blob".to_owned(), Json::Null),
        ("event_id".to_owned(), Json::of_text(&event.id)),
        ("event_kind".to_owned(), Json::of_text(event.kind.as_str())),
        ("id".to_owned(), Json::of_text(id)),
        ("kind".to_owned(), Json::of_text(kind)),
        ("payload_pointer".to_owned(), Json::of_optional_text(pointer)),
    ];
    assert(rows.deep_view() =~= source_tree(
        id@,
        kind@,
        event@,
        pointer.deep_view(),
        model,
    )->Object_0);
    Json::Object(rows)
}

/// The position of the event of an id, from `i` on.
pub open spec fn event_index(events: Seq<Event>, id: Seq<char>, i: nat) -> Option<int>
    decreases events.len() - i,
{
    if i >= events.len() {
        None
    } else if events[i as int].id == id {
        Some(i as int)
    } else {
        event_index(events, id, i + 1)
    }
}

pub fn find_event(events: &Vec<EventEnvelope>, id: &str) -> (r: Option<usize>)
    ensures
        match r {
            Some(i) => i < events@.len() && event_index(events.deep_view(), id@, 0) == Some(
                i as int,
            ),
            None => event_index(events.deep_view(), id@, 0) is None,
        },
{
    let mut i: usize = 0;
    while i < events.len()
        invariant
            i <= events@.len(),
            event_index(events.deep_view(), id@, 0) == event_index(
                events.deep_view(),
                id@,
                i as nat,
            ),
        decreases events@.len() - i,
    {
        assert(events.deep_view()[i as int] == events@[i as int]@);
        if same(&events[i].id, id) {
            return Some(i);
        }
        i += 1;
    }
    None
}

/// The fields of a source hint.
pub open spec fn source_fields() -> Seq<Seq<char>> {
    seq!["id"@, "event_id"@, "payload_pointer"@]
}

/// The source that a hint asks for: one of the events at hand, or else one that the earlier
/// graph cited.
pub open spec fn source_of_hint(
    value: Tree,
    events: Seq<Event>,
    prior: Seq<(SourceKey, Tree)>,
) -> Result<Tree, Seq<char>> {
    let context = "causal-dag source ref hint"@;
    match rows_of(value, context) {
        Err(e) => Err(e),
        Ok(o) => match unknown_member(o, source_fields(), context, 0) {
            Some(e) => Err(e),
            None => match need_text(o, "id"@, context) {
                Err(e) => Err(e),
                Ok(id) => match need_text(o, "event_id"@, context) {
                    Err(e) => Err(e),
                    Ok(event_id) => match member(o, "payload_pointer"@) {
                        None => source_of_parts(id, event_id, None, events, prior),
                        Some(Tree::Null) => source_of_parts(id, event_id, None, events, prior),
                        Some(Tree::Text(pointer)) => source_of_parts(
                            id,
                            event_id,
                            Some(pointer),
                            events,
                            prior,
                        ),
                        Some(_) => Err(
                            "causal-dag source ref hint.payload_pointer must be a string or null"@,
                        ),
                    },
                },
            },
        },
    }
}

/// The source of an id at a place in an event.
pub open spec fn source_of_parts(
    id: Seq<char>,
    event_id: Seq<char>,
    pointer: Option<Seq<char>>,
    events: Seq<Event>,
    prior: Seq<(SourceKey, Tree)>,
) -> Result<Tree, Seq<char>> {
    match event_index(events, event_id, 0) {
        None => match source_at(prior, (event_id, pointer), prior.len()) {
            None => Err(
                "causal-dag source ref `"@ + id + "` references unknown event `"@ + event_id
                    + "`"@,
            ),
            Some(previous) => Ok(with_member(previous, "id"@, Tree::Text(id))),
        },
        Some(i) => {
            let event = events[i];
            if pointer is Some && pointer_fault(event, pointer->0, id) is Some {
                Err(pointer_fault(event, pointer->0, id)->0)
            } else if event.kind == EventKind::EXTENSION_ARTIFACT@ {
                if pointer is Some {
                    Err("artifact source ref `"@ + id + "` must use null payload_pointer"@)
                } else {
                    match artifact_ref_of(event) {
                        Err(e) => Err(e),
                        Ok(artifact) => Ok(source_tree(id, "artifact"@, event, None, artifact)),
                    }
                }
            } else {
                Ok(source_tree(id, "event"@, event, pointer, Tree::Null))
            }
        },
    }
}

/// The members of a tree, none where it is no object.
pub open spec fn rows(tree: Tree) -> Seq<(Seq<char>, Tree)> {
    match tree {
        Tree::Object(o) => o,
        _ => Seq::empty(),
    }
}

/// A tree with one member set.
pub open spec fn with_member(tree: Tree, name: Seq<char>, value: Tree) -> Tree {
    Tree::Object(put(rows(tree), name, value))
}

/// A copy of a tree with one member set.
pub fn with_field(tree: &Json, name: &str, value: Json) -> (r: Json)
    ensures
        r@ == with_member(tree@, name@, value@),
{
    broadcast use crate::json::object_model;

    let mut o: Members = match tree {
        Json::Object(o) => crate::json::copy_members(o),
        _ => {
            let none: Members = Vec::new();
            assert(none.deep_view() =~= Seq::empty());
            none
        },
    };
    put_row(&mut o, name, value);
    Json::Object(o)
}

pub fn source_ref_from_hint(
    value: &Json,
    events: &Vec<EventEnvelope>,
    prior: &Vec<PriorSource>,
) -> (r: Result<Json, ExtensionError>)
    ensures
        answers(r, source_of_hint(value@, events.deep_view(), prior.deep_view())),
{
    let context = "causal-dag source ref hint";
    let o = object_value(value, context)?;
    let allowed = vec!["id", "event_id", "payload_pointer"];
    assert(allowed.deep_view() =~= source_fields());
    reject_unknown_members(o, &allowed, context)?;
    let id = required_str(o, "id", context)?;
    let event_id = required_str(o, "event_id", context)?;
    let pointer = match find(o, "payload_pointer") {
        None => None,
        Some(Json::Null) => None,
        Some(Json::Text(pointer)) => Some(pointer.clone()),
        Some(_) => {
            return Err(
                input_error("causal-dag source ref hint.payload_pointer must be a string or null"),
            );
        },
    };
    let index: usize = match find_event(events, event_id) {
        Some(i) => i,
        None => {
            return match find_prior(prior, event_id, &pointer) {
                None => Err(
                    fault(
                        join5(
                            "causal-dag source ref `",
                            id,
                            "` references unknown event `",
                            event_id,
                            "`",
                        ),
                    ),
                ),
                Some(previous) => Ok(with_field(previous, "id", Json::of_text(id))),
            };
        },
    };
    let event = &events[index];
    assert(events.deep_view()[index as int] == event@);
    if let Some(pointer) = &pointer {
        validate_payload_pointer(event, pointer, id)?;
    }
    if same(event.kind.as_str(), EventKind::EXTENSION_ARTIFACT) {
        if let Some(_) = &pointer {
            return Err(
                fault(join3("artifact source ref `", id, "` must use null payload_pointer")),
            );
        }
        let artifact = artifact_ref(event)?;
        return Ok(source_value(id, "artifact", event, &None, artifact));
    }
    Ok(source_value(id, "event", event, &pointer, Json::Null))
}

} // verus!
