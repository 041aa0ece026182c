//! Semantic hints: what an observer says of the graph, checked and collected.

use super::fields::{
    list_or_none, need, need_flag, need_list, need_text, object_or_empty, object_value,
    optional_array, optional_object, reject_unknown_members, required_array, required_bool,
    required_json_str, required_str, required_value, rows_of, text_in, unknown_member,
};
use super::revision::{merge_record_sources, require_current_evidence, revised_record, stale_fault};
use super::sources::{
    source_of_hint, source_ref_from_hint, Prior, PriorSource, SourceKey, OCCURRENCE_SOURCE_REF_ID,
};
use crate::event::{Event, EventEnvelope};
use crate::export::graph::{class_allows, known_kind};
use crate::json::{texts, Json, Members, Tree};
use crate::schema::HINTS_SCHEMA_NAME;
use crate::sdk::{answers, fault, input_error, passes, ExtensionError};
use crate::table::{find, has_row, holds, member, put, put_row};
use crate::text::{join3, join5, same};
use vstd::prelude::*;

verus! {

pub const HINTS_KEY: &'static str = "causal_dag";

/// The fields of a hint.
pub open spec fn hint_fields() -> Seq<Seq<char>> {
    seq!["schema"@, "nodes"@, "edges"@]
}

/// What is wrong with the head of a hint.
pub open spec fn hint_schema_fault(o: Seq<(Seq<char>, Tree)>) -> Option<Seq<char>> {
    match need_text(o, "schema"@, "causal-dag hint"@) {
        Err(e) => Some(e),
        Ok(schema) => if schema != HINTS_SCHEMA_NAME@ {
            Some("causal-dag hint schema must be "@ + HINTS_SCHEMA_NAME@)
        } else {
            unknown_member(o, hint_fields(), "causal-dag hint"@, 0)
        },
    }
}

fn validate_hint_schema(o: &Members) -> (r: Result<(), ExtensionError>)
    ensures
        passes(r, hint_schema_fault(o.deep_view())),
{
    let schema = required_str(o, "schema", "causal-dag hint")?;
    if !same(schema, HINTS_SCHEMA_NAME) {
        return Err(
            fault(crate::text::join2("causal-dag hint schema must be ", HINTS_SCHEMA_NAME)),
        );
    }
    let allowed = vec!["schema", "nodes", "edges"];
    assert(allowed.deep_view() =~= hint_fields());
    reject_unknown_members(o, &allowed, "causal-dag hint")
}

/// What is wrong with a value as a hint, by its head.
pub open spec fn hint_header_fault(hints: Tree) -> Option<Seq<char>> {
    match rows_of(hints, "causal-dag hint"@) {
        Err(e) => Some(e),
        Ok(o) => hint_schema_fault(o),
    }
}

/// Checks the head of a hint.
pub fn validate_semantic_hint_value_header(hints: &Json) -> (r: Result<(), ExtensionError>)
    ensures
        passes(r, hint_header_fault(hints@)),
{
    validate_hint_schema(object_value(hints, "causal-dag hint")?)
}

/// Whether an event carries a hint.
pub open spec fn carries_hint(event: Event) -> bool {
    member(event.payload, HINTS_KEY@) is Some
}

/// Whether some event carries a hint.
pub fn has_semantic_hints(events: &Vec<EventEnvelope>) -> (r: bool)
    ensures
        r == exists|i: int| 0 <= i < events@.len() && carries_hint(#[trigger] events.deep_view()[i]),
{
    let mut i: usize = 0;
    while i < events.len()
        invariant
            i <= events@.len(),
            forall|j: int| 0 <= j < i ==> !carries_hint(#[trigger] events.deep_view()[j]),
        decreases events@.len() - i,
    {
        assert(events.deep_view()[i as int] == events@[i as int]@);
        if has_row(&events[i].payload, HINTS_KEY) {
            assert(carries_hint(events.deep_view()[i as int]));
            return true;
        }
        i += 1;
    }
    false
}

/// What is wrong with the heads of the hints that events carry, from event `i` on.
pub open spec fn hint_headers_fault(events: Seq<Event>, i: nat) -> Option<Seq<char>>
    decreases events.len() - i,
{
    if i >= events.len() {
        None
    } else {
        match member(events[i as int].payload, HINTS_KEY@) {
            None => hint_headers_fault(events, i + 1),
            Some(hints) => match hint_header_fault(hints) {
                Some(e) => Some(e),
                None => hint_headers_fault(events, i + 1),
            },
        }
    }
}

pub fn validate_semantic_hint_headers(events: &Vec<EventEnvelope>) -> (r: Result<
    (),
    ExtensionError,
>)
    ensures
        passes(r, hint_headers_fault(events.deep_view(), 0)),
{
    let mut i: usize = 0;
    while i < events.len()
        invariant
            i <= events@.len(),
            hint_headers_fault(events.deep_view(), 0) == hint_headers_fault(
                events.deep_view(),
                i as nat,
            ),
        decreases events@.len() - i,
    {
        assert(events.deep_view()[i as int] == events@[i as int]@);
        if let Some(hints) = find(&events[i].payload, HINTS_KEY) {
            validate_semantic_hint_value_header(hints)?;
        }
        i += 1;
    }
    Ok(())
}

/// Whether the ids of events can be cited: none is empty and none stands twice.
pub open spec fn citable(events: Seq<Event>) -> bool {
    &&& forall|i: int| 0 <= i < events.len() ==> (#[trigger] events[i]).id.len() > 0
    &&& forall|i: int, j: int|
        0 <= i < j < events.len() ==> (#[trigger] events[i]).id != (#[trigger] events[j]).id
}

pub fn ids_are_citable(events: &Vec<EventEnvelope>) -> (r: bool)
    ensures
        r == citable(events.deep_view()),
{
    let ghost all = events.deep_view();
    let mut i: usize = 0;
    while i < events.len()
        invariant
            i <= events@.len(),
            all == events.deep_view(),
            forall|a: int| 0 <= a < i ==> (#[trigger] all[a]).id.len() > 0,
            forall|a: int, b: int| 0 <= a < b < i ==> (#[trigger] all[a]).id != (#[trigger] all[b]).id,
        decreases events@.len() - i,
    {
        assert(all[i as int] == events@[i as int]@);
        if events[i].id.as_str().is_empty() {
            assert(all[i as int].id.len() == 0);
            return false;
        }
        let mut j: usize = 0;
        while j < i
            invariant
                j <= i < events@.len(),
                all == events.deep_view(),
                forall|a: int| 0 <= a < j ==> (#[trigger] all[a]).id != all[i as int].id,
            decreases i - j,
        {
            assert(all[j as int] == events@[j as int]@);
            assert(all[i as int] == events@[i as int]@);
            if same(&events[i].id, &events[j].id) {
                return false;
            }
            j += 1;
        }
        i += 1;
    }
    true
}

/// The sources of a record hint, from position `i` on.
pub open spec fn sources_from(
    list: Seq<Tree>,
    events: Seq<Event>,
    prior: Seq<(SourceKey, Tree)>,
    i: nat,
    made: Seq<Tree>,
) -> Result<Seq<Tree>, Seq<char>>
    decreases list.len() - i,
{
    if i >= list.len() {
        Ok(made)
    } else {
        match source_of_hint(list[i as int], events, prior) {
            Err(e) => Err(e),
            Ok(source) => sources_from(list, events, prior, i + 1, made.push(source)),
        }
    }
}

/// The sources of a record hint: there is at least one.
pub open spec fn sources_of(
    o: Seq<(Seq<char>, Tree)>,
    events: Seq<Event>,
    prior: Seq<(SourceKey, Tree)>,
) -> Result<Seq<Tree>, Seq<char>> {
    match need_list(o, "source_refs"@, "causal-dag hint record"@) {
        Err(e) => Err(e),
        Ok(list) => if list.len() == 0 {
            Err("causal-dag hint source_refs must not be empty"@)
        } else {
            sources_from(list, events, prior, 0, Seq::empty())
        },
    }
}

fn hinted_source_refs(o: &Members, events: &Vec<EventEnvelope>, prior: &Vec<PriorSource>) -> (r:
    Result<Vec<Json>, ExtensionError>)
    ensures
        answers(r, sources_of(o.deep_view(), events.deep_view(), prior.deep_view())),
{
    let list = required_array(o, "source_refs", "causal-dag hint record")?;
    if list.len() == 0 {
        assert(list.deep_view().len() == 0);
        return Err(input_error("causal-dag hint source_refs must not be empty"));
    }
    let mut out: Vec<Json> = Vec::new();
    let mut i: usize = 0;
    assert(out.deep_view() =~= Seq::empty());
    assert(list.deep_view().len() > 0);
    while i < list.len()
        invariant
            i <= list@.len(),
            sources_of(o.deep_view(), events.deep_view(), prior.deep_view()) == sources_from(
                list.deep_view(),
                events.deep_view(),
                prior.deep_view(),
                i as nat,
                out.deep_view(),
            ),
        decreases list@.len() - i,
    {
        assert(list.deep_view()[i as int] == list@[i as int]@);
        let source = source_ref_from_hint(&list[i], events, prior)?;
        let ghost was = out.deep_view();
        let ghost model = source@;
        out.push(source);
        assert(out.deep_view() =~= was.push(model));
        i += 1;
    }
    Ok(out)
}

/// The ids of sources, from position `i` on.
pub open spec fn source_ids_from(list: Seq<Tree>, i: nat, found: Seq<Seq<char>>) -> Result<
    Seq<Seq<char>>,
    Seq<char>,
>
    decreases list.len() - i,
{
    if i >= list.len() {
        Ok(found)
    } else {
        match text_in(list[i as int], "id"@, "causal-dag source ref"@) {
            Err(e) => Err(e),
            Ok(id) => source_ids_from(list, i + 1, found.push(id)),
        }
    }
}

fn source_ref_ids(list: &Vec<Json>) -> (r: Result<Vec<String>, ExtensionError>)
    ensures
        answers(r, source_ids_from(list.deep_view(), 0, Seq::empty())),
{
    let mut out: Vec<String> = Vec::new();
    let mut i: usize = 0;
    assert(out.deep_view() =~= Seq::empty());
    while i < list.len()
        invariant
            i <= list@.len(),
            source_ids_from(list.deep_view(), 0, Seq::empty()) == source_ids_from(
                list.deep_view(),
                i as nat,
                out.deep_view(),
            ),
        decreases list@.len() - i,
    {
        assert(list.deep_view()[i as int] == list@[i as int]@);
        let id = required_json_str(&list[i], "id", "causal-dag source ref")?;
        let ghost was = out.deep_view();
        out.push(id.clone());
        assert(out.deep_view() =~= was.push(id@));
        i += 1;
    }
    Ok(out)
}

/// Whether a kind of basis is known.
pub open spec fn known_basis(kind: Seq<char>) -> bool {
    kind == "direct"@ || kind == "cluster"@ || kind == "inferred"@ || kind == "chronology"@ || kind
        == "operator"@
}

/// The basis of a record hint.
pub open spec fn basis_of(o: Seq<(Seq<char>, Tree)>, ids: Seq<Seq<char>>) -> Result<
    Tree,
    Seq<char>,
> {
    match need(o, "basis"@, "causal-dag hint record"@) {
        Err(e) => Err(e),
        Ok(value) => match rows_of(value, "causal-dag basis"@) {
            Err(e) => Err(e),
            Ok(basis) => match unknown_member(
                basis,
                seq!["kind"@, "summary"@],
                "causal-dag basis"@,
                0,
            ) {
                Some(e) => Err(e),
                None => match need_text(basis, "kind"@, "causal-dag basis"@) {
                    Err(e) => Err(e),
                    Ok(kind) => if !known_basis(kind) {
                        Err("unknown causal-dag basis kind `"@ + kind + "`"@)
                    } else {
                        match need_text(basis, "summary"@, "causal-dag basis"@) {
                            Err(e) => Err(e),
                            Ok(summary) => Ok(
                                Tree::Object(
                                    seq![
                                        ("kind"@, Tree::Text(kind)),
                                        ("source_ref_ids"@, texts(ids)),
                                        ("summary"@, Tree::Text(summary)),
                                    ],
                                ),
                            ),
                        }
                    },
                },
            },
        },
    }
}

fn hinted_basis(o: &Members, ids: &Vec<String>) -> (r: Result<Json, ExtensionError>)
    ensures
        answers(r, basis_of(o.deep_view(), ids.deep_view())),
{
    broadcast use crate::json::object_model;

    let basis = object_value(
        required_value(o, "basis", "causal-dag hint record")?,
        "causal-dag basis",
    )?;
    let allowed = vec!["kind", "summary"];
    assert(allowed.deep_view() =~= seq!["kind"@, "summary"@]);
    reject_unknown_members(basis, &allowed, "causal-dag basis")?;
    let kind = required_str(basis, "kind", "causal-dag basis")?;
    if !(same(kind, "direct") || same(kind, "cluster") || same(kind, "inferred") || same(
        kind,
        "chronology",
    ) || same(kind, "operator")) {
        return Err(fault(join3("unknown causal-dag basis kind `", kind, "`")));
    }
    let summary = required_str(basis, "summary", "causal-dag basis")?;
    let rows = vec![
        ("kind".to_owned(), Json::of_text(kind)),
        ("source_ref_ids".to_owned(), Json::of_texts(ids)),
        ("summary".to_owned(), Json::of_text(summary)),
    ];
    assert(rows.deep_view() =~= basis_of(o.deep_view(), ids.deep_view())->Ok_0->Object_0);
    Ok(Json::Object(rows))
}

/// What is wrong with the occurrence anchor that metadata names.
pub open spec fn occurrence_fault(metadata: Tree, ids: Seq<Seq<char>>) -> Option<Seq<char>> {
    match metadata.get(OCCURRENCE_SOURCE_REF_ID@) {
        None => None,
        Some(Tree::Text(id)) => if ids.contains(id) {
            None
        } else {
            Some(
                "causal-dag node metadata."@ + OCCURRENCE_SOURCE_REF_ID@
                    + " references missing source ref `"@ + id + "`"@,
            )
        },
        Some(_) => Some(
            "causal-dag node metadata."@ + OCCURRENCE_SOURCE_REF_ID@ + " must be a string"@,
        ),
    }
}

fn validate_occurrence_source_ref(metadata: &Json, ids: &Vec<String>) -> (r: Result<
    (),
    ExtensionError,
>)
    ensures
        passes(r, occurrence_fault(metadata@, ids.deep_view())),
{
    match metadata.get(OCCURRENCE_SOURCE_REF_ID) {
        None => Ok(()),
        Some(Json::Text(id)) => {
            if holds(ids, id) {
                return Ok(());
            }
            Err(
                fault(
                    join5(
                        "causal-dag node metadata.",
                        OCCURRENCE_SOURCE_REF_ID,
                        " references missing source ref `",
                        id,
                        "`",
                    ),
                ),
            )
        },
        Some(_) => Err(
            fault(
                join3(
                    "causal-dag node metadata.",
                    OCCURRENCE_SOURCE_REF_ID,
                    " must be a string",
                ),
            ),
        ),
    }
}

/// Whether a status is known.
pub open spec fn known_status(status: Seq<char>) -> bool {
    status == "open"@ || status == "blocked"@ || status == "dead_end"@ || status
        == "inconclusive"@ || status == "success"@ || status == "verified"@ || status
        == "superseded"@ || status == "abandoned"@
}

/// What is wrong with the kind and the status of a node.
pub open spec fn node_form_fault(kind: Seq<char>, status: Seq<char>) -> Option<Seq<char>> {
    if !known_kind(kind) {
        Some("unknown causal-dag node kind `"@ + kind + "`"@)
    } else if !known_status(status) {
        Some("unknown causal-dag node status `"@ + status + "`"@)
    } else {
        None
    }
}

fn validate_node_form(kind: &str, status: &str) -> (r: Result<(), ExtensionError>)
    ensures
        passes(r, node_form_fault(kind@, status@)),
{
    if !(same(kind, "root") || same(kind, "attempt") || same(kind, "claim") || same(
        kind,
        "checkpoint",
    ) || same(kind, "synthesis")) {
        return Err(fault(join3("unknown causal-dag node kind `", kind, "`")));
    }
    if !(same(status, "open") || same(status, "blocked") || same(status, "dead_end") || same(
        status,
        "inconclusive",
    ) || same(status, "success") || same(status, "verified") || same(status, "superseded") || same(
        status,
        "abandoned",
    )) {
        return Err(fault(join3("unknown causal-dag node status `", status, "`")));
    }
    Ok(())
}

/// What is wrong with the class and the kind of an edge that an observer proposes.
pub open spec fn edge_kind_fault(
    class: Seq<char>,
    kind: Seq<char>,
    canonical_backbone: bool,
) -> Option<Seq<char>> {
    if canonical_backbone && class != "structural"@ {
        Some("causal-dag canonical_backbone edges must be structural"@)
    } else if class != "structural"@ && class != "annotation"@ && class != "chronology"@ {
        Some("unknown causal-dag edge class `"@ + class + "`"@)
    } else if !class_allows(class, kind) {
        Some(
            "causal-dag edge kind `"@ + kind + "` is not valid for class `"@ + class + "`"@,
        )
    } else if class == "chronology"@ {
        Some("causal-dag semantic hints do not support chronology edges"@)
    } else {
        None
    }
}

pub fn validate_edge_kind(class: &str, kind: &str, canonical_backbone: bool) -> (r: Result<
    (),
    ExtensionError,
>)
    ensures
        passes(r, edge_kind_fault(class@, kind@, canonical_backbone)),
{
    proof {
        reveal_strlit("structural");
        reveal_strlit("annotation");
        reveal_strlit("chronology");
        assert("structural"@[0] == 's' && "annotation"@[0] == 'a' && "chronology"@[0] == 'c');
    }
    if canonical_backbone && !same(class, "structural") {
        return Err(input_error("causal-dag canonical_backbone edges must be structural"));
    }
    let valid = if same(class, "structural") {
        same(kind, "continuation") || same(kind, "refinement") || same(kind, "repair") || same(
            kind,
            "fork",
        ) || same(kind, "decomposition") || same(kind, "integration") || same(kind, "verification")
    } else if same(class, "annotation") {
        same(kind, "evidence") || same(kind, "refutation") || same(kind, "artifact_use") || same(
            kind,
            "pivot",
        ) || same(kind, "related") || same(kind, "supersedes")
    } else if same(class, "chronology") {
        same(kind, "sequence")
    } else {
        return Err(fault(join3("unknown causal-dag edge class `", class, "`")));
    };
    if !valid {
        return Err(
            fault(
                join5("causal-dag edge kind `", kind, "` is not valid for class `", class, "`"),
            ),
        );
    }
    if same(class, "chronology") {
        return Err(input_error("causal-dag semantic hints do not support chronology edges"));
    }
    Ok(())
}

/// The parts that node hints and edge hints share: sources, their ids, the basis and metadata.
pub open spec fn evidence_of_hint(
    o: Seq<(Seq<char>, Tree)>,
    context: Seq<char>,
    events: Seq<Event>,
    prior: Seq<(SourceKey, Tree)>,
) -> Result<(Seq<Tree>, Seq<Seq<char>>, Tree, Tree), Seq<char>> {
    match sources_of(o, events, prior) {
        Err(e) => Err(e),
        Ok(sources) => match source_ids_from(sources, 0, Seq::empty()) {
            Err(e) => Err(e),
            Ok(ids) => match basis_of(o, ids) {
                Err(e) => Err(e),
                Ok(basis) => match object_or_empty(o, "metadata"@, context) {
                    Err(e) => Err(e),
                    Ok(metadata) => Ok((sources, ids, basis, metadata)),
                },
            },
        },
    }
}

/// What stands for evidence in code.
pub struct Evidence {
    pub sources: Vec<Json>,
    pub ids: Vec<String>,
    pub basis: Json,
    pub metadata: Json,
}

impl DeepView for Evidence {
    type V = (Seq<Tree>, Seq<Seq<char>>, Tree, Tree);

    open spec fn deep_view(&self) -> (Seq<Tree>, Seq<Seq<char>>, Tree, Tree) {
        (self.sources.deep_view(), self.ids.deep_view(), self.basis@, self.metadata@)
    }
}

fn hinted_evidence(
    o: &Members,
    context: &str,
    events: &Vec<EventEnvelope>,
    prior: &Vec<PriorSource>,
) -> (r: Result<Evidence, ExtensionError>)
    ensures
        answers(
            r,
            evidence_of_hint(o.deep_view(), context@, events.deep_view(), prior.deep_view()),
        ),
{
    let sources = hinted_source_refs(o, events, prior)?;
    let ids = source_ref_ids(&sources)?;
    let basis = hinted_basis(o, &ids)?;
    let metadata = optional_object(o, "metadata", context)?;
    Ok(Evidence { sources, ids, basis, metadata })
}

/// The fields of a node hint.
pub open spec fn node_fields() -> Seq<Seq<char>> {
    seq![
        "id"@,
        "root_id"@,
        "kind"@,
        "status"@,
        "title"@,
        "summary"@,
        "source_refs"@,
        "basis"@,
        "metadata"@,
    ]
}

/// The node that a hint proposes.
#[verifier::opaque]
pub open spec fn node_of_hint(
    value: Tree,
    events: Seq<Event>,
    prior: Seq<(SourceKey, Tree)>,
) -> Result<Tree, Seq<char>> {
    let context = "causal-dag node hint"@;
    match rows_of(value, context) {
        Err(e) => Err(e),
        Ok(o) => match unknown_member(o, node_fields(), context, 0) {
            Some(e) => Err(e),
            None => match need_text(o, "id"@, context) {
                Err(e) => Err(e),
                Ok(id) => match need_text(o, "root_id"@, context) {
                    Err(e) => Err(e),
                    Ok(root_id) => match need_text(o, "kind"@, context) {
                        Err(e) => Err(e),
                        Ok(kind) => match need_text(o, "status"@, context) {
                            Err(e) => Err(e),
                            Ok(status) => match need_text(o, "title"@, context) {
                                Err(e) => Err(e),
                                Ok(title) => match need_text(o, "summary"@, context) {
                                    Err(e) => Err(e),
                                    Ok(summary) => match node_form_fault(kind, status) {
                                        Some(e) => Err(e),
                                        None => match evidence_of_hint(o, context, events, prior) {
                                            Err(e) => Err(e),
                                            Ok((sources, ids, basis, metadata)) =>
                                                match occurrence_fault(metadata, ids) {
                                                Some(e) => Err(e),
                                                None => Ok(
                                                    Tree::Object(
                                                        seq![
                                                            ("basis"@, basis),
                                                            ("id"@, Tree::Text(id)),
                                                            ("kind"@, Tree::Text(kind)),
                                                            ("metadata"@, metadata),
                                                            ("root_id"@, Tree::Text(root_id)),
                                                            ("source_refs"@, Tree::List(sources)),
                                                            ("status"@, Tree::Text(status)),
                                                            ("summary"@, Tree::Text(summary)),
                                                            ("title"@, Tree::Text(title)),
                                                        ],
                                                    ),
                                                ),
                                            },
                                        },
                                    },
                                },
                            },
                        },
                    },
                },
            },
        },
    }
}

fn hinted_node(value: &Json, events: &Vec<EventEnvelope>, prior: &Vec<PriorSource>) -> (r: Result<
    Json,
    ExtensionError,
>)
    ensures
        answers(r, node_of_hint(value@, events.deep_view(), prior.deep_view())),
{
    broadcast use {crate::json::list_model, crate::json::object_model};

    reveal(node_of_hint);
    let context = "causal-dag node hint";
    let o = object_value(value, context)?;
    let allowed = vec![
        "id",
        "root_id",
        "kind",
        "status",
        "title",
        "summary",
        "source_refs",
        "basis",
        "metadata",
    ];
    assert(allowed.deep_view() =~= node_fields());
    reject_unknown_members(o, &allowed, context)?;
    let id = required_str(o, "id", context)?;
    let root_id = required_str(o, "root_id", context)?;
    let kind = required_str(o, "kind", context)?;
    let status = required_str(o, "status", context)?;
    let title = required_str(o, "title", context)?;
    let summary = required_str(o, "summary", context)?;
    validate_node_form(kind, status)?;
    let evidence = hinted_evidence(o, context, events, prior)?;
    validate_occurrence_source_ref(&evidence.metadata, &evidence.ids)?;
    let rows = vec![
        ("basis".to_owned(), evidence.basis),
        ("id".to_owned(), Json::of_text(id)),
        ("kind".to_owned(), Json::of_text(kind)),
        ("metadata".to_owned(), evidence.metadata),
        ("root_id".to_owned(), Json::of_text(root_id)),
        ("source_refs".to_owned(), Json::List(evidence.sources)),
        ("status".to_owned(), Json::of_text(status)),
        ("summary".to_owned(), Json::of_text(summary)),
        ("title".to_owned(), Json::of_text(title)),
    ];
    assert(rows.deep_view() =~= node_of_hint(
        value@,
        events.deep_view(),
        prior.deep_view(),
    )->Ok_0->Object_0);
    Ok(Json::Object(rows))
}

/// The fields of an edge hint.
pub open spec fn edge_fields() -> Seq<Seq<char>> {
    seq![
        "id"@,
        "from"@,
        "to"@,
        "class"@,
        "kind"@,
        "canonical_backbone"@,
        "source_refs"@,
        "basis"@,
        "metadata"@,
    ]
}

/// The edge that a hint proposes.
#[verifier::opaque]
pub open spec fn edge_of_hint(
    value: Tree,
    events: Seq<Event>,
    prior: Seq<(SourceKey, Tree)>,
) -> Result<Tree, Seq<char>> {
    let context = "causal-dag edge hint"@;
    match rows_of(value, context) {
        Err(e) => Err(e),
        Ok(o) => match unknown_member(o, edge_fields(), context, 0) {
            Some(e) => Err(e),
            None => match need_text(o, "id"@, context) {
                Err(e) => Err(e),
                Ok(id) => match need_text(o, "from"@, context) {
                    Err(e) => Err(e),
                    Ok(from) => match need_text(o, "to"@, context) {
                        Err(e) => Err(e),
                        Ok(to) => match need_text(o, "class"@, context) {
                            Err(e) => Err(e),
                            Ok(class) => match need_text(o, "kind"@, context) {
                                Err(e) => Err(e),
                                Ok(kind) => match need_flag(o, "canonical_backbone"@, context) {
                                    Err(e) => Err(e),
                                    Ok(canonical) => match edge_kind_fault(class, kind, canonical) {
                                        Some(e) => Err(e),
                                        None => match evidence_of_hint(o, context, events, prior) {
                                            Err(e) => Err(e),
                                            Ok((sources, ids, basis, metadata)) => Ok(
                                                Tree::Object(
                                                    seq![
                                                        ("basis"@, basis),
                                                        (
                                                            "canonical_backbone"@,
                                                            Tree::Bool(canonical),
                                                        ),
                                                        ("class"@, Tree::Text(class)),
                                                        ("from"@, Tree::Text(from)),
                                                        ("id"@, Tree::Text(id)),
                                                        ("kind"@, Tree::Text(kind)),
                                                        ("metadata"@, metadata),
                                                        ("source_refs"@, Tree::List(sources)),
                                                        ("to"@, Tree::Text(to)),
                                                    ],
                                                ),
                                            ),
                                        },
                                    },
                                },
                            },
                        },
                    },
                },
            },
        },
    }
}

fn hinted_edge(value: &Json, events: &Vec<EventEnvelope>, prior: &Vec<PriorSource>) -> (r: Result<
    Json,
    ExtensionError,
>)
    ensures
        answers(r, edge_of_hint(value@, events.deep_view(), prior.deep_view())),
{
    broadcast use {crate::json::list_model, crate::json::object_model};

    reveal(edge_of_hint);
    let context = "causal-dag edge hint";
    let o = object_value(value, context)?;
    let allowed = vec![
        "id",
        "from",
        "to",
        "class",
        "kind",
        "canonical_backbone",
        "source_refs",
        "basis",
        "metadata",
    ];
    assert(allowed.deep_view() =~= edge_fields());
    reject_unknown_members(o, &allowed, context)?;
    let id = required_str(o, "id", context)?;
    let from = required_str(o, "from", context)?;
    let to = required_str(o, "to", context)?;
    let class = required_str(o, "class", context)?;
    let kind = required_str(o, "kind", context)?;
    let canonical = required_bool(o, "canonical_backbone", context)?;
    validate_edge_kind(class, kind, canonical)?;
    let evidence = hinted_evidence(o, context, events, prior)?;
    let rows = vec![
        ("basis".to_owned(), evidence.basis),
        ("canonical_backbone".to_owned(), Json::Bool(canonical)),
        ("class".to_owned(), Json::of_text(class)),
        ("from".to_owned(), Json::of_text(from)),
        ("id".to_owned(), Json::of_text(id)),
        ("kind".to_owned(), Json::of_text(kind)),
        ("metadata".to_owned(), evidence.metadata),
        ("source_refs".to_owned(), Json::List(evidence.sources)),
        ("to".to_owned(), Json::of_text(to)),
    ];
    assert(rows.deep_view() =~= edge_of_hint(
        value@,
        events.deep_view(),
        prior.deep_view(),
    )->Ok_0->Object_0);
    Ok(Json::Object(rows))
}

/// What a hint is collected against.
pub struct Ground {
    pub events: Seq<Event>,
    pub prior: Seq<(SourceKey, Tree)>,
    pub revises: bool,
}

/// The word for a record.
pub open spec fn record_word(node: bool) -> Seq<char> {
    if node {
        "node"@
    } else {
        "edge"@
    }
}

/// The record that a hint proposes, with its id; in a revision it must cite something new.
#[verifier::opaque]
pub open spec fn proposed(value: Tree, node: bool, ground: Ground) -> Result<
    (Seq<char>, Tree),
    Seq<char>,
> {
    let made = if node {
        node_of_hint(value, ground.events, ground.prior)
    } else {
        edge_of_hint(value, ground.events, ground.prior)
    };
    match made {
        Err(e) => Err(e),
        Ok(record) => match text_in(record, "id"@, "causal-dag "@ + record_word(node)) {
            Err(e) => Err(e),
            Ok(id) => if ground.revises && stale_fault(
                record,
                ground.events,
                record_word(node),
                id,
            ) is Some {
                Err(stale_fault(record, ground.events, record_word(node), id)->0)
            } else {
                Ok((id, record))
            },
        },
    }
}

/// The records after hint `i` of a list and those behind it: a revision merges with the record
/// that was there, and no hint comes twice.
pub open spec fn collected_from(
    list: Seq<Tree>,
    node: bool,
    ground: Ground,
    i: nat,
    records: Seq<(Seq<char>, Tree)>,
    seen: Seq<Seq<char>>,
) -> Result<(Seq<(Seq<char>, Tree)>, Seq<Seq<char>>), Seq<char>>
    decreases list.len() - i,
{
    if i >= list.len() {
        Ok((records, seen))
    } else {
        match proposed(list[i as int], node, ground) {
            Err(e) => Err(e),
            Ok((id, record)) => if seen.contains(id) {
                Err("duplicate causal-dag "@ + record_word(node) + " id `"@ + id + "`"@)
            } else {
                match member(records, id) {
                    None => collected_from(
                        list,
                        node,
                        ground,
                        i + 1,
                        put(records, id, record),
                        seen.push(id),
                    ),
                    Some(previous) => if !ground.revises {
                        Err("duplicate causal-dag "@ + record_word(node) + " id `"@ + id + "`"@)
                    } else {
                        match revised_record(previous, record) {
                            Err(e) => Err(e),
                            Ok(merged) => collected_from(
                                list,
                                node,
                                ground,
                                i + 1,
                                put(records, id, merged),
                                seen.push(id),
                            ),
                        }
                    },
                }
            },
        }
    }
}

fn propose(
    value: &Json,
    node: bool,
    events: &Vec<EventEnvelope>,
    prior: &Vec<PriorSource>,
    revises: bool,
) -> (r: Result<(String, Json), ExtensionError>)
    ensures
        answers(
            r,
            proposed(
                value@,
                node,
                Ground { events: events.deep_view(), prior: prior.deep_view(), revises },
            ),
        ),
{
    reveal(proposed);
    let word = if node {
        "node"
    } else {
        "edge"
    };
    let record = if node {
        hinted_node(value, events, prior)?
    } else {
        hinted_edge(value, events, prior)?
    };
    let context = crate::text::join2("causal-dag ", word);
    let id = required_json_str(&record, "id", &context)?.clone();
    if revises {
        require_current_evidence(&record, events, word, &id)?;
    }
    Ok((id, record))
}

fn collect_records(
    list: Option<&Vec<Json>>,
    node: bool,
    events: &Vec<EventEnvelope>,
    prior: &Vec<PriorSource>,
    revises: bool,
    record_start: Members,
    seen_start: Vec<String>,
) -> (r: Result<(Members, Vec<String>), ExtensionError>)
    ensures
        answers(
            r,
            collected_from(
                match list {
                    Some(list) => list.deep_view(),
                    None => Seq::empty(),
                },
                node,
                Ground { events: events.deep_view(), prior: prior.deep_view(), revises },
                0,
                record_start.deep_view(),
                seen_start.deep_view(),
            ),
        ),
{
    let items = match list {
        Some(items) => items,
        None => return Ok((record_start, seen_start)),
    };
    let ghost ground = Ground { events: events.deep_view(), prior: prior.deep_view(), revises };
    let ghost first = (record_start.deep_view(), seen_start.deep_view());
    let word = if node {
        "node"
    } else {
        "edge"
    };
    let mut records = record_start;
    let mut seen = seen_start;
    let mut i: usize = 0;
    while i < items.len()
        invariant
            i <= items@.len(),
            list == Some(items),
            word@ == record_word(node),
            ground == (Ground { events: events.deep_view(), prior: prior.deep_view(), revises }),
            first == (record_start.deep_view(), seen_start.deep_view()),
            collected_from(items.deep_view(), node, ground, 0, first.0, first.1) == collected_from(
                items.deep_view(),
                node,
                ground,
                i as nat,
                records.deep_view(),
                seen.deep_view(),
            ),
        decreases items@.len() - i,
    {
        assert(items.deep_view()[i as int] == items@[i as int]@);
        let (id, record) = propose(&items[i], node, events, prior, revises)?;
        if holds(&seen, &id) {
            return Err(fault(join5("duplicate causal-dag ", word, " id `", &id, "`")));
        }
        let merged = match find(&records, &id) {
            None => record,
            Some(previous) => {
                if !revises {
                    return Err(fault(join5("duplicate causal-dag ", word, " id `", &id, "`")));
                }
                merge_record_sources(previous, &record)?
            },
        };
        put_row(&mut records, &id, merged);
        let ghost was = seen.deep_view();
        let ghost name = id@;
        seen.push(id);
        assert(seen.deep_view() =~= was.push(name));
        i += 1;
    }
    Ok((records, seen))
}

/// What has been collected of hints.
pub struct HintCollector {
    pub seen_node_ids: Vec<String>,
    pub seen_edge_ids: Vec<String>,
    pub nodes: Members,
    pub edges: Members,
}

/// What a [`HintCollector`] holds.
#[verifier::ext_equal]
pub struct Collected {
    pub seen_node_ids: Seq<Seq<char>>,
    pub seen_edge_ids: Seq<Seq<char>>,
    pub nodes: Seq<(Seq<char>, Tree)>,
    pub edges: Seq<(Seq<char>, Tree)>,
}

impl DeepView for HintCollector {
    type V = Collected;

    open spec fn deep_view(&self) -> Collected {
        Collected {
            seen_node_ids: self.seen_node_ids.deep_view(),
            seen_edge_ids: self.seen_edge_ids.deep_view(),
            nodes: self.nodes.deep_view(),
            edges: self.edges.deep_view(),
        }
    }
}

/// What is collected before any hint: the earlier records, where they are to be revised.
pub open spec fn start_collected(prior: Prior, revises: bool) -> Collected {
    Collected {
        seen_node_ids: Seq::empty(),
        seen_edge_ids: Seq::empty(),
        nodes: if revises {
            prior.nodes
        } else {
            Seq::empty()
        },
        edges: if revises {
            prior.edges
        } else {
            Seq::empty()
        },
    }
}

/// What is collected after one more hint.
pub open spec fn collected_with(state: Collected, hints: Tree, ground: Ground) -> Result<
    Collected,
    Seq<char>,
> {
    match rows_of(hints, "causal-dag hint"@) {
        Err(e) => Err(e),
        Ok(o) => match hint_schema_fault(o) {
            Some(e) => Err(e),
            None => match list_or_none(o, "nodes"@, "causal-dag hint"@) {
                Err(e) => Err(e),
                Ok(nodes) => match collected_from(
                    nodes,
                    true,
                    ground,
                    0,
                    state.nodes,
                    state.seen_node_ids,
                ) {
                    Err(e) => Err(e),
                    Ok((all_nodes, seen_nodes)) => match list_or_none(
                        o,
                        "edges"@,
                        "causal-dag hint"@,
                    ) {
                        Err(e) => Err(e),
                        Ok(edges) => match collected_from(
                            edges,
                            false,
                            ground,
                            0,
                            state.edges,
                            state.seen_edge_ids,
                        ) {
                            Err(e) => Err(e),
                            Ok((all_edges, seen_edges)) => Ok(
                                Collected {
                                    seen_node_ids: seen_nodes,
                                    seen_edge_ids: seen_edges,
                                    nodes: all_nodes,
                                    edges: all_edges,
                                },
                            ),
                        },
                    },
                },
            },
        },
    }
}

impl HintCollector {
    pub fn new(nodes: Members, edges: Members, revises: bool) -> (r: Self)
        ensures
            r.deep_view() == start_collected(
                Prior {
                    nodes: nodes.deep_view(),
                    edges: edges.deep_view(),
                    sources: Seq::empty(),
                },
                revises,
            ),
    {
        let none: Members = Vec::new();
        let other: Members = Vec::new();
        assert(none.deep_view() =~= Seq::empty());
        assert(other.deep_view() =~= Seq::empty());
        let (nodes, edges) = if revises {
            (nodes, edges)
        } else {
            (none, other)
        };
        let r = HintCollector {
            seen_node_ids: Vec::new(),
            seen_edge_ids: Vec::new(),
            nodes,
            edges,
        };
        assert(r.seen_node_ids.deep_view() =~= Seq::empty());
        assert(r.seen_edge_ids.deep_view() =~= Seq::empty());
        r
    }

    pub fn collect(
        self,
        hints: &Json,
        events: &Vec<EventEnvelope>,
        prior: &Vec<PriorSource>,
        revises: bool,
    ) -> (r: Result<Self, ExtensionError>)
        ensures
            answers(
                r,
                collected_with(
                    self.deep_view(),
                    hints@,
                    Ground { events: events.deep_view(), prior: prior.deep_view(), revises },
                ),
            ),
    {
        let o = object_value(hints, "causal-dag hint")?;
        validate_hint_schema(o)?;
        let node_hints = optional_array(o, "nodes", "causal-dag hint")?;
        let (nodes, seen_node_ids) = collect_records(
            node_hints,
            true,
            events,
            prior,
            revises,
            self.nodes,
            self.seen_node_ids,
        )?;
        let edge_hints = optional_array(o, "edges", "causal-dag hint")?;
        let (edges, seen_edge_ids) = collect_records(
            edge_hints,
            false,
            events,
            prior,
            revises,
            self.edges,
            self.seen_edge_ids,
        )?;
        Ok(HintCollector { seen_node_ids, seen_edge_ids, nodes, edges })
    }
}

/// A hint is taken only with words that are known: a node is of one of five kinds and has one of
/// eight statuses, an edge is structural or an annotation and of a kind of its class, an edge of
/// the backbone is structural, and what either rests on is of one of five kinds.
pub proof fn hints_keep_to_known_words(
    value: Tree,
    events: Seq<Event>,
    prior: Seq<(SourceKey, Tree)>,
)
    ensures
        node_of_hint(value, events, prior) is Ok ==> {
            let kind = value.text_at("kind"@)->0;
            let status = value.text_at("status"@)->0;
            let basis = value.at("basis"@).text_at("kind"@)->0;
            &&& value.text_at("kind"@) is Some && value.text_at("status"@) is Some
            &&& kind == "root"@ || kind == "attempt"@ || kind == "claim"@ || kind == "checkpoint"@
                || kind == "synthesis"@
            &&& status == "open"@ || status == "blocked"@ || status == "dead_end"@ || status
                == "inconclusive"@ || status == "success"@ || status == "verified"@ || status
                == "superseded"@ || status == "abandoned"@
            &&& value.at("basis"@).text_at("kind"@) is Some
            &&& basis == "direct"@ || basis == "cluster"@ || basis == "inferred"@ || basis
                == "chronology"@ || basis == "operator"@
        },
        edge_of_hint(value, events, prior) is Ok ==> {
            let class = value.text_at("class"@)->0;
            let kind = value.text_at("kind"@)->0;
            let basis = value.at("basis"@).text_at("kind"@)->0;
            &&& value.text_at("class"@) is Some && value.text_at("kind"@) is Some
            &&& class == "structural"@ || class == "annotation"@
            &&& class == "structural"@ ==> kind == "continuation"@ || kind == "refinement"@ || kind
                == "repair"@ || kind == "fork"@ || kind == "decomposition"@ || kind == "integration"@
                || kind == "verification"@
            &&& class == "annotation"@ ==> kind == "evidence"@ || kind == "refutation"@ || kind
                == "artifact_use"@ || kind == "pivot"@ || kind == "related"@ || kind == "supersedes"@
            &&& value.flag_at("canonical_backbone"@) is Some
            &&& value.flag_at("canonical_backbone"@) == Some(true) ==> class == "structural"@
            &&& value.at("basis"@).text_at("kind"@) is Some
            &&& basis == "direct"@ || basis == "cluster"@ || basis == "inferred"@ || basis
                == "chronology"@ || basis == "operator"@
        },
{
    reveal(node_of_hint);
    reveal(edge_of_hint);
    reveal_strlit("structural");
    reveal_strlit("annotation");
    reveal_strlit("chronology");
    assert("structural"@[0] == 's' && "annotation"@[0] == 'a' && "chronology"@[0] == 'c');
}

/// Whether each source of a record is the one that the hint names at its place.
pub open spec fn sourced(record: Tree, value: Tree) -> bool {
    &&& value.list_at("source_refs"@) matches Some(hinted)
    &&& record.list_at("source_refs"@) matches Some(made)
    &&& made.len() == hinted.len() > 0
    &&& forall|i: int|
        0 <= i < made.len() ==> hinted[i].text_at("id"@) is Some && (#[trigger] made[i]).text_at(
            "id"@,
        ) == hinted[i].text_at("id"@)
}

proof fn lemma_sources_from(
    list: Seq<Tree>,
    events: Seq<Event>,
    prior: Seq<(SourceKey, Tree)>,
    i: nat,
    made: Seq<Tree>,
)
    requires
        sources_from(list, events, prior, i, made) is Ok,
        made.len() == i <= list.len(),
        forall|j: int|
            0 <= j < i ==> list[j].text_at("id"@) is Some && (#[trigger] made[j]).text_at("id"@)
                == list[j].text_at("id"@),
    ensures
        ({
            let out = sources_from(list, events, prior, i, made)->Ok_0;
            &&& out.len() == list.len()
            &&& forall|j: int|
                0 <= j < out.len() ==> list[j].text_at("id"@) is Some && (#[trigger] out[j]).text_at(
                    "id"@,
                ) == list[j].text_at("id"@)
        }),
    decreases list.len() - i,
{
    if i < list.len() {
        let source = source_of_hint(list[i as int], events, prior)->Ok_0;
        let o = list[i as int]->Object_0;
        let id = member(o, "id"@)->0->Text_0;
        let event = member(o, "event_id"@)->0->Text_0;
        let pointer = match member(o, "payload_pointer"@) {
            Some(Tree::Text(pointer)) => Some(pointer),
            _ => None,
        };
        super::linked::hinted_sources_are_their_events(id, event, pointer, events, prior);
        lemma_sources_from(list, events, prior, i + 1, made.push(source));
    }
}

/// A record cites what its hint cites, each source in its place under the name that it was given;
/// and it cites something.
pub proof fn records_cite_what_their_hints_cite(
    value: Tree,
    events: Seq<Event>,
    prior: Seq<(SourceKey, Tree)>,
)
    ensures
        node_of_hint(value, events, prior) is Ok ==> sourced(
            node_of_hint(value, events, prior)->Ok_0,
            value,
        ),
        edge_of_hint(value, events, prior) is Ok ==> sourced(
            edge_of_hint(value, events, prior)->Ok_0,
            value,
        ),
{
    reveal(node_of_hint);
    reveal(edge_of_hint);
    if value is Object {
        let list = value.list_at("source_refs"@);
        if list is Some && sources_from(list->0, events, prior, 0, Seq::empty()) is Ok {
            lemma_sources_from(list->0, events, prior, 0, Seq::empty());
        }
        if node_of_hint(value, events, prior) is Ok {
            let o = node_of_hint(value, events, prior)->Ok_0->Object_0;
            reveal_strlit("basis");
            reveal_strlit("id");
            reveal_strlit("kind");
            reveal_strlit("metadata");
            reveal_strlit("root_id");
            reveal_strlit("source_refs");
            assert(o[0].0.len() == 5 && o[1].0.len() == 2 && o[2].0.len() == 4 && o[3].0.len() == 8 && o[4].0.len() == 7 && "source_refs"@.len() == 11);
            crate::table::lemma_first_row(o, "source_refs"@, 5);
        }
        if edge_of_hint(value, events, prior) is Ok {
            let o = edge_of_hint(value, events, prior)->Ok_0->Object_0;
            reveal_strlit("basis");
            reveal_strlit("canonical_backbone");
            reveal_strlit("class");
            reveal_strlit("from");
            reveal_strlit("id");
            reveal_strlit("kind");
            reveal_strlit("metadata");
            reveal_strlit("source_refs");
            assert(o[0].0.len() == 5 && o[1].0.len() == 18 && o[2].0.len() == 5 && o[3].0.len() == 4 && o[4].0.len() == 2 && o[5].0.len() == 4 && o[6].0.len() == 8 && "source_refs"@.len() == 11);
            crate::table::lemma_first_row(o, "source_refs"@, 7);
        }
    }
}

} // verus!
