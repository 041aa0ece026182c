//! How an entity is shown as a node.

use super::placement::{Place, Placement};
use crate::json::{counted, optional_text, texts, Json, Tree};
use crate::research_record::ledger::{Accepted, AcceptedRecord};
use crate::research_record::queries::{active_assessments, latest_outcome};
use crate::research_record::record::append_texts;
use crate::research_record::types::{
    Assessment, AssessmentVerdict, Entity, EntityKind, InvestigationOutcome, Outcome,
    ResearchAssessment, ResearchEntity, ResearchOutcome,
};
use crate::sdk::{answers, ExtensionError};
use crate::table::{find, in_order, join, joined, member, put_in_order};
use crate::text::{before, decimal, decimal_text, join2, join3, join5, precedes, same};
use vstd::prelude::*;

verus! {

/// The id of the node of an entity.
pub open spec fn node_name(id: Seq<char>) -> Seq<char> {
    "node-"@ + id
}

pub fn node_id(entity_id: &str) -> (r: String)
    ensures
        r@ == node_name(entity_id@),
{
    join2("node-", entity_id)
}

/// The kind of a node.
pub open spec fn graph_kind_of(kind: EntityKind) -> Seq<char> {
    match kind {
        EntityKind::Question => "root"@,
        EntityKind::Investigation => "attempt"@,
        EntityKind::Claim => "claim"@,
        EntityKind::Observation => "checkpoint"@,
        EntityKind::Artifact => "checkpoint"@,
        EntityKind::Synthesis => "synthesis"@,
    }
}

fn graph_kind(kind: EntityKind) -> (r: &'static str)
    ensures
        r@ == graph_kind_of(kind),
{
    match kind {
        EntityKind::Question => "root",
        EntityKind::Investigation => "attempt",
        EntityKind::Claim => "claim",
        EntityKind::Observation => "checkpoint",
        EntityKind::Artifact => "checkpoint",
        EntityKind::Synthesis => "synthesis",
    }
}

/// A reference to an event.
pub open spec fn ref_tree(
    prefix: Seq<char>,
    ids: Seq<Seq<char>>,
    kinds: Seq<(Seq<char>, Seq<char>)>,
    i: nat,
) -> Tree {
    Tree::Object(
        seq![
            ("artifact"@, Tree::Null),
            ("blob"@, Tree::Null),
            ("event_id"@, Tree::Text(ids[i as int])),
            (
                "event_kind"@,
                Tree::Text(
                    match member(kinds, ids[i as int]) {
                        Some(kind) => kind,
                        None => "unknown"@,
                    },
                ),
            ),
            ("id"@, Tree::Text(ref_name(prefix, i))),
            ("kind"@, Tree::Text("event"@)),
            ("payload_pointer"@, Tree::Null),
        ],
    )
}

/// The id of a reference.
pub open spec fn ref_name(prefix: Seq<char>, i: nat) -> Seq<char> {
    prefix + "-"@ + decimal(i)
}

/// The references to events.
pub open spec fn refs_tree(
    prefix: Seq<char>,
    ids: Seq<Seq<char>>,
    kinds: Seq<(Seq<char>, Seq<char>)>,
) -> Tree {
    Tree::List(Seq::new(ids.len(), |i: int| ref_tree(prefix, ids, kinds, i as nat)))
}

/// The ids of the references to so many events.
pub open spec fn ref_names(prefix: Seq<char>, n: nat) -> Seq<Seq<char>> {
    Seq::new(n, |i: int| ref_name(prefix, i as nat))
}

fn source_ref(prefix: &str, ids: &Vec<String>, kinds: &Vec<(String, String)>, i: usize) -> (r: Json)
    requires
        i < ids@.len(),
    ensures
        r@ == ref_tree(prefix@, ids.deep_view(), kinds.deep_view(), i as nat),
{
    broadcast use crate::json::object_model;

    assert(ids.deep_view()[i as int] == ids@[i as int]@);
    let kind = match find(kinds, &ids[i]) {
        Some(kind) => kind.clone(),
        None => "unknown".to_owned(),
    };
    let rows = vec![
        ("artifact".to_owned(), Json::Null),
        ("blob".to_owned(), Json::Null),
        ("event_id".to_owned(), Json::of_text(&ids[i])),
        ("event_kind".to_owned(), Json::of_text(&kind)),
        ("id".to_owned(), Json::of_text(&join3(prefix, "-", &decimal_text(i as u64)))),
        ("kind".to_owned(), Json::of_text("event")),
        ("payload_pointer".to_owned(), Json::Null),
    ];
    assert(rows.deep_view() =~= ref_tree(
        prefix@,
        ids.deep_view(),
        kinds.deep_view(),
        i as nat,
    )->Object_0);
    Json::Object(rows)
}

/// The references to events, and their ids.
pub fn source_refs(prefix: &str, ids: &Vec<String>, kinds: &Vec<(String, String)>) -> (r: (
    Json,
    Vec<String>,
))
    ensures
        r.0@ == refs_tree(prefix@, ids.deep_view(), kinds.deep_view()),
        r.1.deep_view() == ref_names(prefix@, ids@.len()),
{
    broadcast use crate::json::list_model;

    let mut refs: Vec<Json> = Vec::new();
    let mut names: Vec<String> = Vec::new();
    let mut i: usize = 0;
    while i < ids.len()
        invariant
            i <= ids@.len(),
            refs@.len() == i,
            names@.len() == i,
            forall|j: int|
                0 <= j < i ==> (#[trigger] refs@[j])@ == ref_tree(
                    prefix@,
                    ids.deep_view(),
                    kinds.deep_view(),
                    j as nat,
                ),
            forall|j: int| 0 <= j < i ==> (#[trigger] names@[j])@ == ref_name(prefix@, j as nat),
        decreases ids@.len() - i,
    {
        refs.push(source_ref(prefix, ids, kinds, i));
        names.push(join3(prefix, "-", &decimal_text(i as u64)));
        i += 1;
    }
    assert(refs.deep_view() =~= refs_tree(prefix@, ids.deep_view(), kinds.deep_view())->List_0);
    assert(names.deep_view() =~= ref_names(prefix@, ids@.len()));
    (Json::List(refs), names)
}

/// What something rests on.
pub open spec fn basis_tree(summary: Seq<char>, names: Seq<Seq<char>>) -> Tree {
    Tree::Object(
        seq![
            ("kind"@, Tree::Text("direct"@)),
            ("source_ref_ids"@, texts(names)),
            ("summary"@, Tree::Text(summary)),
        ],
    )
}

pub fn basis_value(summary: &str, names: &Vec<String>) -> (r: Json)
    ensures
        r@ == basis_tree(summary@, names.deep_view()),
{
    broadcast use crate::json::object_model;

    let rows = vec![
        ("kind".to_owned(), Json::of_text("direct")),
        ("source_ref_ids".to_owned(), Json::of_texts(names)),
        ("summary".to_owned(), Json::of_text(summary)),
    ];
    assert(rows.deep_view() =~= basis_tree(summary@, names.deep_view())->Object_0);
    Json::Object(rows)
}

/// How the active assessments of a claim are shown.
pub struct ClaimAssessmentState {
    pub status: &'static str,
    pub summary: Option<String>,
    pub contested: bool,
    pub scope_limited: bool,
    pub scope_count: usize,
}

/// What a [`ClaimAssessmentState`] holds.
#[verifier::ext_equal]
pub struct Standing {
    pub status: Seq<char>,
    pub summary: Option<Seq<char>>,
    pub contested: bool,
    pub scope_limited: bool,
    pub scope_count: nat,
}

impl DeepView for ClaimAssessmentState {
    type V = Standing;

    open spec fn deep_view(&self) -> Standing {
        Standing {
            status: self.status@,
            summary: self.summary.deep_view(),
            contested: self.contested,
            scope_limited: self.scope_limited,
            scope_count: self.scope_count as nat,
        }
    }
}

/// Whether a verdict speaks for a claim.
pub open spec fn positive(verdict: AssessmentVerdict) -> bool {
    verdict == AssessmentVerdict::Supported || verdict == AssessmentVerdict::Corroborated
        || verdict == AssessmentVerdict::Proven
}

fn is_positive(verdict: AssessmentVerdict) -> (r: bool)
    ensures
        r == positive(verdict),
{
    verdict == AssessmentVerdict::Supported || verdict == AssessmentVerdict::Corroborated
        || verdict == AssessmentVerdict::Proven
}

/// The scopes of assessments, as they stand.
pub open spec fn scopes_of(list: Seq<Assessment>) -> Seq<Seq<char>> {
    Seq::new(list.len(), |i: int| list[i].scope)
}

/// Whether a scope is contested: one assessment speaks for the claim and one refutes it.
pub open spec fn contested(list: Seq<Assessment>, scope: Seq<char>) -> bool {
    &&& exists|i: int|
        0 <= i < list.len() && (#[trigger] list[i]).scope == scope && positive(list[i].verdict)
    &&& exists|i: int|
        0 <= i < list.len() && (#[trigger] list[i]).scope == scope && list[i].verdict
            == AssessmentVerdict::Refuted
}

/// The contested ones of the first `n` scopes.
pub open spec fn contested_among(list: Seq<Assessment>, scopes: Seq<Seq<char>>, n: nat) -> Seq<
    Seq<char>,
>
    decreases n,
{
    if n == 0 {
        Seq::empty()
    } else {
        let rest = contested_among(list, scopes, (n - 1) as nat);
        if contested(list, scopes[n - 1]) {
            rest.push(scopes[n - 1])
        } else {
            rest
        }
    }
}

/// How strong a verdict is.
pub open spec fn priority(verdict: AssessmentVerdict) -> int {
    match verdict {
        AssessmentVerdict::Proven => 5,
        AssessmentVerdict::Corroborated => 4,
        AssessmentVerdict::Supported => 3,
        AssessmentVerdict::Refuted => 2,
        AssessmentVerdict::Inconclusive => 1,
    }
}

/// Whether an assessment is shown rather than another: its verdict is stronger, or as strong and
/// its id comes first.
pub open spec fn outranks(a: Assessment, b: Assessment) -> bool {
    priority(a.verdict) > priority(b.verdict) || (priority(a.verdict) == priority(b.verdict)
        && before(a.id, b.id))
}

/// The position of the one of the first `n` assessments that is shown; of equals the last.
pub open spec fn chosen(list: Seq<Assessment>, n: nat) -> int
    decreases n,
{
    if n <= 1 {
        0
    } else {
        let k = chosen(list, (n - 1) as nat);
        if outranks(list[k], list[n - 1]) {
            k
        } else {
            n - 1
        }
    }
}

/// The status of a claim with an assessment.
pub open spec fn verdict_status(verdict: AssessmentVerdict) -> Seq<char> {
    match verdict {
        AssessmentVerdict::Supported => "verified"@,
        AssessmentVerdict::Corroborated => "verified"@,
        AssessmentVerdict::Proven => "verified"@,
        AssessmentVerdict::Refuted => "dead_end"@,
        AssessmentVerdict::Inconclusive => "inconclusive"@,
    }
}

/// What is said of an assessment.
pub open spec fn verdict_text(a: Assessment) -> Seq<char> {
    "Assessment ("@ + a.verdict.name() + ", scope: "@ + a.scope + "): "@ + a.summary
}

/// How the active assessments of a claim are shown. Scopes are never merged: where several are
/// assessed, or one is contested, the claim is inconclusive.
pub open spec fn standing_of(list: Seq<Assessment>) -> Standing {
    let scopes = in_order(scopes_of(list));
    let disputed = contested_among(list, scopes, scopes.len());
    if list.len() == 0 {
        Standing {
            status: "open"@,
            summary: None,
            contested: false,
            scope_limited: false,
            scope_count: 0,
        }
    } else if disputed.len() > 0 {
        Standing {
            status: "inconclusive"@,
            summary: Some(
                "Contested active assessments at scope(s): "@ + joined(disputed, ", "@)
                    + ". Inspect the scoped assessment metadata."@,
            ),
            contested: true,
            scope_limited: scopes.len() > 1,
            scope_count: scopes.len(),
        }
    } else if scopes.len() > 1 {
        Standing {
            status: "inconclusive"@,
            summary: Some(
                "Active assessments cover "@ + decimal(scopes.len())
                    + " distinct scopes. Inspect the scoped assessment metadata."@,
            ),
            contested: false,
            scope_limited: true,
            scope_count: scopes.len(),
        }
    } else {
        let a = list[chosen(list, list.len())];
        Standing {
            status: verdict_status(a.verdict),
            summary: Some(verdict_text(a)),
            contested: false,
            scope_limited: false,
            scope_count: 1,
        }
    }
}

fn assessment_priority(verdict: AssessmentVerdict) -> (r: u8)
    ensures
        r == priority(verdict),
{
    match verdict {
        AssessmentVerdict::Proven => 5,
        AssessmentVerdict::Corroborated => 4,
        AssessmentVerdict::Supported => 3,
        AssessmentVerdict::Refuted => 2,
        AssessmentVerdict::Inconclusive => 1,
    }
}

fn is_shown_before(a: &ResearchAssessment, b: &ResearchAssessment) -> (r: bool)
    ensures
        r == outranks(a.deep_view(), b.deep_view()),
{
    let first: u8 = assessment_priority(a.verdict);
    let second: u8 = assessment_priority(b.verdict);
    first > second || (first == second && precedes(&a.id, &b.id))
}

fn selected_assessment(list: &Vec<ResearchAssessment>) -> (k: usize)
    requires
        list@.len() > 0,
    ensures
        k == chosen(list.deep_view(), list@.len()),
        k < list@.len(),
{
    let mut k: usize = 0;
    let mut i: usize = 1;
    while i < list.len()
        invariant
            1 <= i <= list@.len(),
            k < i,
            k == chosen(list.deep_view(), i as nat),
        decreases list@.len() - i,
    {
        assert(list.deep_view()[k as int] == list@[k as int].deep_view());
        assert(list.deep_view()[i as int] == list@[i as int].deep_view());
        if !is_shown_before(&list[k], &list[i]) {
            k = i;
        }
        i += 1;
    }
    k
}

fn group_is_contested(list: &Vec<ResearchAssessment>, scope: &str) -> (r: bool)
    ensures
        r == contested(list.deep_view(), scope@),
{
    let ghost all = list.deep_view();
    let mut for_it = false;
    let mut against = false;
    let mut i: usize = 0;
    while i < list.len()
        invariant
            i <= list@.len(),
            all == list.deep_view(),
            for_it == exists|j: int|
                0 <= j < i && (#[trigger] all[j]).scope == scope@ && positive(all[j].verdict),
            against == exists|j: int|
                0 <= j < i && (#[trigger] all[j]).scope == scope@ && all[j].verdict
                    == AssessmentVerdict::Refuted,
        decreases list@.len() - i,
    {
        assert(all[i as int] == list@[i as int].deep_view());
        if same(&list[i].scope, scope) {
            if is_positive(list[i].verdict) {
                for_it = true;
            }
            if list[i].verdict == AssessmentVerdict::Refuted {
                against = true;
            }
        }
        i += 1;
    }
    for_it && against
}

fn list_scopes(list: &Vec<ResearchAssessment>) -> (r: Vec<String>)
    ensures
        r.deep_view() == in_order(scopes_of(list.deep_view())),
{
    let mut out: Vec<String> = Vec::new();
    let mut i: usize = 0;
    while i < list.len()
        invariant
            i <= list@.len(),
            out@.len() == i,
            forall|j: int| 0 <= j < i ==> (#[trigger] out@[j])@ == list@[j].scope@,
        decreases list@.len() - i,
    {
        out.push(list[i].scope.clone());
        i += 1;
    }
    assert(out.deep_view() =~= scopes_of(list.deep_view()));
    put_in_order(&out)
}

fn list_contested(list: &Vec<ResearchAssessment>, scopes: &Vec<String>) -> (r: Vec<String>)
    ensures
        r.deep_view() == contested_among(list.deep_view(), scopes.deep_view(), scopes@.len()),
{
    let mut out: Vec<String> = Vec::new();
    let mut i: usize = 0;
    assert(out.deep_view() =~= Seq::empty());
    while i < scopes.len()
        invariant
            i <= scopes@.len(),
            out.deep_view() == contested_among(
                list.deep_view(),
                scopes.deep_view(),
                i as nat,
            ),
        decreases scopes@.len() - i,
    {
        assert(scopes.deep_view()[i as int] == scopes@[i as int]@);
        if group_is_contested(list, &scopes[i]) {
            let ghost was = out.deep_view();
            out.push(scopes[i].clone());
            assert(out.deep_view() =~= was.push(scopes@[i as int]@));
        }
        i += 1;
    }
    out
}

/// How the active assessments of a claim are shown.
pub fn claim_assessment_state(list: &Vec<ResearchAssessment>) -> (r: ClaimAssessmentState)
    ensures
        r.deep_view() == standing_of(list.deep_view()),
{
    assert(list.deep_view().len() == list@.len());
    if list.len() == 0 {
        return ClaimAssessmentState {
            status: "open",
            summary: None,
            contested: false,
            scope_limited: false,
            scope_count: 0,
        };
    }
    let scopes = list_scopes(list);
    let disputed = list_contested(list, &scopes);
    assert(scopes.deep_view().len() == scopes@.len());
    assert(disputed.deep_view().len() == disputed@.len());
    if disputed.len() > 0 {
        return ClaimAssessmentState {
            status: "inconclusive",
            summary: Some(
                join3(
                    "Contested active assessments at scope(s): ",
                    &join(&disputed, ", "),
                    ". Inspect the scoped assessment metadata.",
                ),
            ),
            contested: true,
            scope_limited: scopes.len() > 1,
            scope_count: scopes.len(),
        };
    }
    if scopes.len() > 1 {
        return ClaimAssessmentState {
            status: "inconclusive",
            summary: Some(
                join3(
                    "Active assessments cover ",
                    &decimal_text(scopes.len() as u64),
                    " distinct scopes. Inspect the scoped assessment metadata.",
                ),
            ),
            contested: false,
            scope_limited: true,
            scope_count: scopes.len(),
        };
    }
    let k = selected_assessment(list);
    let a = &list[k];
    assert(list.deep_view()[k as int] == a.deep_view());
    let status = match a.verdict {
        AssessmentVerdict::Supported => "verified",
        AssessmentVerdict::Corroborated => "verified",
        AssessmentVerdict::Proven => "verified",
        AssessmentVerdict::Refuted => "dead_end",
        AssessmentVerdict::Inconclusive => "inconclusive",
    };
    let start = join5("Assessment (", a.verdict.as_str(), ", scope: ", &a.scope, "): ");
    ClaimAssessmentState {
        status,
        summary: Some(join2(&start, &a.summary)),
        contested: false,
        scope_limited: false,
        scope_count: 1,
    }
}

/// The status of an investigation with an outcome.
pub open spec fn outcome_status(outcome: InvestigationOutcome) -> Seq<char> {
    match outcome {
        InvestigationOutcome::Active => "open"@,
        InvestigationOutcome::Blocked => "blocked"@,
        InvestigationOutcome::DeadEnd => "dead_end"@,
        InvestigationOutcome::Completed => "success"@,
        InvestigationOutcome::Abandoned => "abandoned"@,
    }
}

/// The status and the summary of a node.
pub open spec fn shown(entity: Entity, outcome: Option<Outcome>, standing: Standing) -> (
    Seq<char>,
    Seq<char>,
) {
    match entity.kind {
        EntityKind::Question => ("open"@, entity.summary),
        EntityKind::Investigation => match outcome {
            Some(outcome) => (
                outcome_status(outcome.outcome),
                "Outcome ("@ + outcome.outcome.name() + "): "@ + outcome.summary + "\n"@
                    + entity.summary,
            ),
            None => ("open"@, entity.summary),
        },
        EntityKind::Observation => ("success"@, entity.summary),
        EntityKind::Artifact => ("success"@, entity.summary),
        EntityKind::Synthesis => ("verified"@, entity.summary),
        EntityKind::Claim => match standing.summary {
            Some(summary) => (standing.status, summary + "\n"@ + entity.summary),
            None => ("open"@, entity.summary),
        },
    }
}

fn node_status_and_summary(
    entity: &ResearchEntity,
    outcome: Option<&ResearchOutcome>,
    state: &ClaimAssessmentState,
) -> (r: (&'static str, String))
    ensures
        (r.0@, r.1@) == shown(entity.deep_view(), outcome.deep_view(), state.deep_view()),
{
    match entity.kind {
        EntityKind::Question => ("open", entity.summary.clone()),
        EntityKind::Investigation => match outcome {
            Some(outcome) => {
                let status = match outcome.outcome {
                    InvestigationOutcome::Active => "open",
                    InvestigationOutcome::Blocked => "blocked",
                    InvestigationOutcome::DeadEnd => "dead_end",
                    InvestigationOutcome::Completed => "success",
                    InvestigationOutcome::Abandoned => "abandoned",
                };
                let start = join5(
                    "Outcome (",
                    outcome.outcome.as_str(),
                    "): ",
                    &outcome.summary,
                    "\n",
                );
                (status, join2(&start, &entity.summary))
            },
            None => ("open", entity.summary.clone()),
        },
        EntityKind::Observation => ("success", entity.summary.clone()),
        EntityKind::Artifact => ("success", entity.summary.clone()),
        EntityKind::Synthesis => ("verified", entity.summary.clone()),
        EntityKind::Claim => match &state.summary {
            Some(summary) => (state.status, join3(summary, "\n", &entity.summary)),
            None => ("open", entity.summary.clone()),
        },
    }
}

/// An assessment as it is shown.
pub open spec fn shown_assessment(a: Assessment) -> Tree {
    Tree::Object(
        seq![
            ("id"@, Tree::Text(a.id)),
            ("scope"@, Tree::Text(a.scope)),
            ("standard"@, Tree::Text(a.standard)),
            ("summary"@, Tree::Text(a.summary)),
            ("supersedes_assessment_id"@, optional_text(a.supersedes_assessment_id)),
            ("verdict"@, Tree::Text(a.verdict.name())),
        ],
    )
}

fn assessment_value(a: &ResearchAssessment) -> (r: Json)
    ensures
        r@ == shown_assessment(a.deep_view()),
{
    broadcast use crate::json::object_model;

    let rows = vec![
        ("id".to_owned(), Json::of_text(&a.id)),
        ("scope".to_owned(), Json::of_text(&a.scope)),
        ("standard".to_owned(), Json::of_text(&a.standard)),
        ("summary".to_owned(), Json::of_text(&a.summary)),
        (
            "supersedes_assessment_id".to_owned(),
            Json::of_optional_text(&a.supersedes_assessment_id),
        ),
        ("verdict".to_owned(), Json::of_text(a.verdict.as_str())),
    ];
    assert(rows.deep_view() =~= shown_assessment(a.deep_view())->Object_0);
    Json::Object(rows)
}

/// An outcome as it is shown.
pub open spec fn shown_outcome(outcome: Option<Outcome>) -> Tree {
    match outcome {
        Some(o) => Tree::Object(
            seq![
                ("id"@, Tree::Text(o.id)),
                ("outcome"@, Tree::Text(o.outcome.name())),
                ("summary"@, Tree::Text(o.summary)),
                ("supersedes_outcome_id"@, optional_text(o.supersedes_outcome_id)),
            ],
        ),
        None => Tree::Null,
    }
}

fn outcome_value(outcome: Option<&ResearchOutcome>) -> (r: Json)
    ensures
        r@ == shown_outcome(outcome.deep_view()),
{
    broadcast use crate::json::object_model;

    match outcome {
        Some(o) => {
            let rows = vec![
                ("id".to_owned(), Json::of_text(&o.id)),
                ("outcome".to_owned(), Json::of_text(o.outcome.as_str())),
                ("summary".to_owned(), Json::of_text(&o.summary)),
                (
                    "supersedes_outcome_id".to_owned(),
                    Json::of_optional_text(&o.supersedes_outcome_id),
                ),
            ];
            assert(rows.deep_view() =~= shown_outcome(outcome.deep_view())->Object_0);
            Json::Object(rows)
        },
        None => Json::Null,
    }
}

/// What is known of an entity beyond its node.
pub open spec fn metadata_tree(
    entity: Entity,
    outcome: Option<Outcome>,
    list: Seq<Assessment>,
    standing: Standing,
) -> Tree {
    Tree::Object(
        seq![
            (
                "active_assessments"@,
                Tree::List(Seq::new(list.len(), |i: int| shown_assessment(list[i]))),
            ),
            (
                "assessment_presentation"@,
                Tree::Object(
                    seq![
                        ("contested"@, Tree::Bool(standing.contested)),
                        ("scope_count"@, counted(standing.scope_count)),
                        ("scope_limited"@, Tree::Bool(standing.scope_limited)),
                    ],
                ),
            ),
            ("entity_id"@, Tree::Text(entity.id)),
            ("entity_kind"@, Tree::Text(entity.kind.name())),
            ("investigation_outcome"@, shown_outcome(outcome)),
            (
                "lifecycle"@,
                match entity.lifecycle {
                    Some(lifecycle) => Tree::Text(lifecycle.name()),
                    None => Tree::Null,
                },
            ),
        ],
    )
}

fn presentation_value(state: &ClaimAssessmentState) -> (r: Json)
    ensures
        r@ == Tree::Object(
            seq![
                ("contested"@, Tree::Bool(state.contested)),
                ("scope_count"@, counted(state.scope_count as nat)),
                ("scope_limited"@, Tree::Bool(state.scope_limited)),
            ],
        ),
{
    broadcast use crate::json::object_model;

    let rows = vec![
        ("contested".to_owned(), Json::Bool(state.contested)),
        ("scope_count".to_owned(), Json::of_count(state.scope_count)),
        ("scope_limited".to_owned(), Json::Bool(state.scope_limited)),
    ];
    assert(rows.deep_view() =~= seq![
        ("contested"@, Tree::Bool(state.contested)),
        ("scope_count"@, counted(state.scope_count as nat)),
        ("scope_limited"@, Tree::Bool(state.scope_limited)),
    ]);
    Json::Object(rows)
}

fn node_metadata(
    entity: &ResearchEntity,
    outcome: Option<&ResearchOutcome>,
    list: &Vec<ResearchAssessment>,
    state: &ClaimAssessmentState,
) -> (r: Json)
    ensures
        r@ == metadata_tree(
            entity.deep_view(),
            outcome.deep_view(),
            list.deep_view(),
            state.deep_view(),
        ),
{
    broadcast use {crate::json::object_model, crate::json::list_model};

    let mut assessments: Vec<Json> = Vec::new();
    let mut i: usize = 0;
    while i < list.len()
        invariant
            i <= list@.len(),
            assessments@.len() == i,
            forall|j: int|
                0 <= j < i ==> (#[trigger] assessments@[j])@ == shown_assessment(
                    list@[j].deep_view(),
                ),
        decreases list@.len() - i,
    {
        assessments.push(assessment_value(&list[i]));
        i += 1;
    }
    let ghost all = list.deep_view();
    assert(assessments.deep_view() =~= Seq::new(all.len(), |i: int| shown_assessment(all[i])));
    let lifecycle = match entity.lifecycle {
        Some(lifecycle) => Json::of_text(lifecycle.as_str()),
        None => Json::Null,
    };
    let rows = vec![
        ("active_assessments".to_owned(), Json::List(assessments)),
        ("assessment_presentation".to_owned(), presentation_value(state)),
        ("entity_id".to_owned(), Json::of_text(&entity.id)),
        ("entity_kind".to_owned(), Json::of_text(entity.kind.as_str())),
        ("investigation_outcome".to_owned(), outcome_value(outcome)),
        ("lifecycle".to_owned(), lifecycle),
    ];
    assert(rows.deep_view() =~= metadata_tree(
        entity.deep_view(),
        outcome.deep_view(),
        all,
        state.deep_view(),
    )->Object_0);
    Json::Object(rows)
}

/// The sources of the first `n` assessments.
pub open spec fn assessment_sources(list: Seq<Assessment>, n: nat) -> Seq<Seq<char>>
    decreases n,
{
    if n == 0 {
        Seq::empty()
    } else {
        assessment_sources(list, (n - 1) as nat) + list[n - 1].source_event_ids
    }
}

/// The sources of a node, in ascending order.
pub open spec fn node_sources(
    entity: Entity,
    outcome: Option<Outcome>,
    list: Seq<Assessment>,
) -> Seq<Seq<char>> {
    in_order(
        entity.source_event_ids + match outcome {
            Some(outcome) => outcome.source_event_ids,
            None => Seq::empty(),
        } + assessment_sources(list, list.len()),
    )
}

fn node_source_event_ids(
    entity: &ResearchEntity,
    outcome: Option<&ResearchOutcome>,
    list: &Vec<ResearchAssessment>,
) -> (r: Vec<String>)
    ensures
        r.deep_view() == node_sources(
            entity.deep_view(),
            outcome.deep_view(),
            list.deep_view(),
        ),
{
    let mut out = crate::table::copy_texts(&entity.source_event_ids);
    let ghost own = entity.deep_view().source_event_ids;
    let ghost more = match outcome.deep_view() {
        Some(outcome) => outcome.source_event_ids,
        None => Seq::empty(),
    };
    if let Some(outcome) = outcome {
        append_texts(&mut out, &outcome.source_event_ids);
    }
    assert(out.deep_view() =~= own + more);
    let mut i: usize = 0;
    assert(own + more + assessment_sources(list.deep_view(), 0) =~= own + more);
    while i < list.len()
        invariant
            i <= list@.len(),
            out.deep_view() == own + more + assessment_sources(list.deep_view(), i as nat),
        decreases list@.len() - i,
    {
        assert(list.deep_view()[i as int] == list@[i as int].deep_view());
        let ghost was = assessment_sources(list.deep_view(), i as nat);
        append_texts(&mut out, &list[i].source_event_ids);
        assert(out.deep_view() =~= own + more + (was
            + list@[i as int].deep_view().source_event_ids));
        i += 1;
    }
    assert(list.deep_view().len() == list@.len());
    put_in_order(&out)
}

/// The assessments that a node shows.
pub open spec fn assessments_shown(a: Accepted, entity: Entity) -> Seq<Assessment> {
    if entity.kind == EntityKind::Claim {
        active_assessments(a, entity.id)
    } else {
        Seq::empty()
    }
}

/// The outcome that a node shows.
pub open spec fn outcome_shown(a: Accepted, entity: Entity) -> Option<Outcome> {
    if entity.kind == EntityKind::Investigation {
        latest_outcome(a, entity.id)
    } else {
        None
    }
}

/// The node of an entity.
pub open spec fn entity_node(
    a: Accepted,
    entity: Entity,
    place: Place,
    kinds: Seq<(Seq<char>, Seq<char>)>,
) -> Tree {
    let list = assessments_shown(a, entity);
    let outcome = outcome_shown(a, entity);
    let standing = standing_of(list);
    let sources = node_sources(entity, outcome, list);
    let prefix = "src-node-"@ + entity.id;
    Tree::Object(
        seq![
            (
                "basis"@,
                basis_tree(
                    "Accepted research-record entity."@,
                    ref_names(prefix, sources.len()),
                ),
            ),
            ("id"@, Tree::Text(node_name(entity.id))),
            ("kind"@, Tree::Text(graph_kind_of(entity.kind))),
            ("metadata"@, metadata_tree(entity, outcome, list, standing)),
            ("root_id"@, Tree::Text(node_name(place.root))),
            ("source_refs"@, refs_tree(prefix, sources, kinds)),
            ("status"@, Tree::Text(shown(entity, outcome, standing).0)),
            ("summary"@, Tree::Text(shown(entity, outcome, standing).1)),
            ("title"@, Tree::Text(entity.title)),
        ],
    )
}

/// The node of the entity of an id.
pub open spec fn node_tree(
    a: Accepted,
    id: Seq<char>,
    place: Place,
    kinds: Seq<(Seq<char>, Seq<char>)>,
) -> Result<Tree, Seq<char>> {
    match member(a.entities, id) {
        Some(entity) => Ok(entity_node(a, entity, place, kinds)),
        None => Err("research-record references unknown entity `"@ + id + "`"@),
    }
}

/// The node of the entity of an id.
pub fn node_value(
    a: &AcceptedRecord,
    id: &str,
    placement: &Placement,
    kinds: &Vec<(String, String)>,
) -> (r: Result<Json, ExtensionError>)
    ensures
        answers(
            r,
            node_tree(a.deep_view(), id@, placement.deep_view(), kinds.deep_view()),
        ),
{
    broadcast use crate::json::object_model;

    let entity = a.entity(id)?;
    let list = if entity.kind == EntityKind::Claim {
        a.active_assessments_for(&entity.id)
    } else {
        let none: Vec<ResearchAssessment> = Vec::new();
        assert(none.deep_view() =~= Seq::empty());
        none
    };
    let state = claim_assessment_state(&list);
    let outcome = if entity.kind == EntityKind::Investigation {
        a.latest_outcome_for(&entity.id)
    } else {
        None
    };
    let (status, summary) = node_status_and_summary(entity, outcome, &state);
    let sources = node_source_event_ids(entity, outcome, &list);
    let prefix = join2("src-node-", &entity.id);
    let (refs, names) = source_refs(&prefix, &sources, kinds);
    assert(sources.deep_view().len() == sources@.len());
    let rows = vec![
        ("basis".to_owned(), basis_value("Accepted research-record entity.", &names)),
        ("id".to_owned(), Json::of_text(&node_id(&entity.id))),
        ("kind".to_owned(), Json::of_text(graph_kind(entity.kind))),
        ("metadata".to_owned(), node_metadata(entity, outcome, &list, &state)),
        ("root_id".to_owned(), Json::of_text(&node_id(&placement.root_entity_id))),
        ("source_refs".to_owned(), refs),
        ("status".to_owned(), Json::of_text(status)),
        ("summary".to_owned(), Json::of_text(&summary)),
        ("title".to_owned(), Json::of_text(&entity.title)),
    ];
    assert(rows.deep_view() =~= entity_node(
        a.deep_view(),
        entity.deep_view(),
        placement.deep_view(),
        kinds.deep_view(),
    )->Object_0);
    Ok(Json::Object(rows))
}

/// A claim that is contested at a scope is inconclusive, whatever else is said of it.
pub proof fn contested_claims_are_inconclusive(list: Seq<Assessment>, scope: Seq<char>)
    requires
        contested(list, scope),
    ensures
        standing_of(list).contested,
        standing_of(list).status == "inconclusive"@,
{
    let scopes = in_order(scopes_of(list));
    let i = choose|i: int|
        0 <= i < list.len() && (#[trigger] list[i]).scope == scope && positive(list[i].verdict);
    crate::table::in_order_keeps_names(scopes_of(list), scope);
    assert(scopes_of(list)[i] == scope);
    let k = scopes.index_of(scope);
    lemma_contested_among(list, scopes, scopes.len(), k);
}

proof fn lemma_contested_among(list: Seq<Assessment>, scopes: Seq<Seq<char>>, n: nat, k: int)
    requires
        0 <= k < n <= scopes.len(),
        contested(list, scopes[k]),
    ensures
        contested_among(list, scopes, n).len() > 0,
    decreases n,
{
    if k < n - 1 {
        lemma_contested_among(list, scopes, (n - 1) as nat, k);
    }
}

proof fn lemma_assessment_sources(list: Seq<Assessment>, n: nat, name: Seq<char>)
    requires
        n <= list.len(),
    ensures
        assessment_sources(list, n).contains(name) <==> exists|k: int|
            0 <= k < n && (#[trigger] list[k]).source_event_ids.contains(name),
    decreases n,
{
    if n > 0 {
        let m = (n - 1) as nat;
        lemma_assessment_sources(list, m, name);
        lemma_either(assessment_sources(list, m), list[n - 1].source_event_ids, name);
    }
}

proof fn lemma_either(a: Seq<Seq<char>>, b: Seq<Seq<char>>, name: Seq<char>)
    ensures
        (a + b).contains(name) <==> a.contains(name) || b.contains(name),
{
    if a.contains(name) {
        let k = choose|k: int| 0 <= k < a.len() && a[k] == name;
        assert((a + b)[k] == name);
    }
    if b.contains(name) {
        let k = choose|k: int| 0 <= k < b.len() && b[k] == name;
        assert((a + b)[a.len() + k] == name);
    }
    if (a + b).contains(name) {
        let k = choose|k: int| 0 <= k < (a + b).len() && (a + b)[k] == name;
        if k < a.len() {
            assert(a[k] == name);
        } else {
            assert(b[k - a.len()] == name);
        }
    }
}

proof fn lemma_ref(
    prefix: Seq<char>,
    ids: Seq<Seq<char>>,
    kinds: Seq<(Seq<char>, Seq<char>)>,
    i: nat,
)
    ensures
        ({
            let t = ref_tree(prefix, ids, kinds, i);
            &&& t.text_at("event_id"@) == Some(ids[i as int])
            &&& member(kinds, ids[i as int]) is Some ==> t.text_at("event_kind"@) == member(
                kinds,
                ids[i as int],
            )
            &&& t.text_at("kind"@) == Some("event"@)
            &&& t.text_at("id"@) == Some(prefix + "-"@ + decimal(i))
        }),
{
    let o = ref_tree(prefix, ids, kinds, i)->Object_0;
    reveal_strlit("artifact");
    reveal_strlit("blob");
    reveal_strlit("event_id");
    reveal_strlit("event_kind");
    reveal_strlit("id");
    reveal_strlit("kind");
    assert(o[0].0[0] == 'a' && o[1].0.len() == 4 && "event_id"@.len() == 8 && "event_id"@[0] == 'e');
    crate::table::lemma_first_row(o, "event_id"@, 2);
    assert(o[0].0.len() == 8 && o[1].0.len() == 4 && o[2].0.len() == 8 && "event_kind"@.len() == 10);
    crate::table::lemma_first_row(o, "event_kind"@, 3);
    assert(o[0].0.len() == 8 && o[1].0.len() == 4 && o[2].0.len() == 8 && o[3].0.len() == 10 && "id"@.len() == 2);
    crate::table::lemma_first_row(o, "id"@, 4);
    assert(o[0].0.len() == 8 && o[1].0[0] == 'b' && o[2].0.len() == 8 && o[3].0.len() == 10 && o[4].0.len() == 2 && "kind"@.len() == 4 && "kind"@[0] == 'k');
    crate::table::lemma_first_row(o, "kind"@, 5);
}

/// Whether an entity rests on an event: by itself, by its outcome or by one of its assessments.
pub open spec fn rests_on(a: Accepted, entity: Entity, name: Seq<char>) -> bool {
    let outcome = outcome_shown(a, entity);
    let list = assessments_shown(a, entity);
    ||| entity.source_event_ids.contains(name)
    ||| outcome is Some && outcome->0.source_event_ids.contains(name)
    ||| exists|k: int| 0 <= k < list.len() && (#[trigger] list[k]).source_event_ids.contains(name)
}

/// A node cites the events that its entity rests on, with the kinds that they had, and no others;
/// its basis is direct. Only a claim is shown with assessments, only an investigation with an
/// outcome.
pub proof fn nodes_cite_what_their_entities_rest_on(
    a: Accepted,
    entity: Entity,
    place: Place,
    kinds: Seq<(Seq<char>, Seq<char>)>,
    name: Seq<char>,
    i: int,
)
    ensures
        ({
            let t = entity_node(a, entity, place, kinds);
            let refs = t.list_at("source_refs"@)->0;
            let m = t.at("metadata"@);
            &&& t.list_at("source_refs"@) is Some
            &&& t.at("basis"@).text_at("kind"@) == Some("direct"@)
            &&& rests_on(a, entity, name) <==> exists|k: int|
                0 <= k < refs.len() && (#[trigger] refs[k]).text_at("event_id"@) == Some(name)
            &&& 0 <= i < refs.len() ==> refs[i].text_at("kind"@) == Some("event"@) && (member(
                kinds,
                refs[i].text_at("event_id"@)->0,
            ) is Some ==> refs[i].text_at("event_kind"@) == member(
                kinds,
                refs[i].text_at("event_id"@)->0,
            ))
            &&& m.text_at("entity_id"@) == Some(entity.id)
            &&& m.text_at("entity_kind"@) == Some(entity.kind.name())
            &&& entity.lifecycle is None ==> m.at("lifecycle"@) is Null
            &&& entity.lifecycle is Some ==> m.text_at("lifecycle"@) == Some(
                entity.lifecycle->0.name(),
            )
            &&& m.list_at("active_assessments"@) is Some
            &&& m.list_at("active_assessments"@)->0.len() == assessments_shown(a, entity).len()
            &&& entity.kind != EntityKind::Claim ==> m.list_at("active_assessments"@)->0.len() == 0
            &&& entity.kind != EntityKind::Investigation ==> m.at("investigation_outcome"@) is Null
        }),
{
    let list = assessments_shown(a, entity);
    let outcome = outcome_shown(a, entity);
    let sources = node_sources(entity, outcome, list);
    let prefix = "src-node-"@ + entity.id;
    let o = entity_node(a, entity, place, kinds)->Object_0;
    reveal_strlit("basis");
    reveal_strlit("id");
    reveal_strlit("kind");
    reveal_strlit("metadata");
    reveal_strlit("root_id");
    reveal_strlit("source_refs");
    crate::table::lemma_first_row(o, "basis"@, 0);
    assert(o[0].0.len() == 5 && o[1].0.len() == 2 && o[2].0.len() == 4 && "metadata"@.len() == 8);
    crate::table::lemma_first_row(o, "metadata"@, 3);
    assert(o[0].0.len() == 5 && o[1].0.len() == 2 && o[2].0.len() == 4 && o[3].0.len() == 8 && o[4].0.len() == 7 && "source_refs"@.len() == 11);
    crate::table::lemma_first_row(o, "source_refs"@, 5);
    let b = basis_tree("Accepted research-record entity."@, ref_names(prefix, sources.len()))->Object_0;
    reveal_strlit("kind");
    crate::table::lemma_first_row(b, "kind"@, 0);
    let m = metadata_tree(entity, outcome, list, standing_of(list))->Object_0;
    reveal_strlit("active_assessments");
    reveal_strlit("assessment_presentation");
    reveal_strlit("entity_id");
    reveal_strlit("entity_kind");
    reveal_strlit("investigation_outcome");
    reveal_strlit("lifecycle");
    crate::table::lemma_first_row(m, "active_assessments"@, 0);
    assert(m[0].0.len() == 18 && m[1].0.len() == 23 && "entity_id"@.len() == 9);
    crate::table::lemma_first_row(m, "entity_id"@, 2);
    assert(m[0].0.len() == 18 && m[1].0.len() == 23 && m[2].0.len() == 9 && "entity_kind"@.len() == 11);
    crate::table::lemma_first_row(m, "entity_kind"@, 3);
    assert(m[0].0.len() == 18 && m[1].0.len() == 23 && m[2].0.len() == 9 && m[3].0.len() == 11 && "investigation_outcome"@.len() == 21);
    crate::table::lemma_first_row(m, "investigation_outcome"@, 4);
    assert(m[0].0.len() == 18 && m[1].0.len() == 23 && m[2].0[0] == 'e' && m[3].0.len() == 11 && m[4].0.len() == 21 && "lifecycle"@.len() == 9 && "lifecycle"@[0] == 'l');
    crate::table::lemma_first_row(m, "lifecycle"@, 5);
    let own = entity.source_event_ids;
    let its = match outcome {
        Some(outcome) => outcome.source_event_ids,
        None => Seq::empty(),
    };
    lemma_either(own + its, assessment_sources(list, list.len()), name);
    lemma_either(own, its, name);
    lemma_assessment_sources(list, list.len(), name);
    crate::table::in_order_keeps_names(
        own + its + assessment_sources(list, list.len()),
        name,
    );
    let refs = refs_tree(prefix, sources, kinds)->List_0;
    assert forall|k: int| 0 <= k < refs.len() implies (#[trigger] refs[k]).text_at("event_id"@)
        == Some(sources[k]) by {
        lemma_ref(prefix, sources, kinds, k as nat);
    }
    if sources.contains(name) {
        let k = choose|k: int| 0 <= k < sources.len() && sources[k] == name;
        assert(refs[k].text_at("event_id"@) == Some(name));
    }
    if exists|k: int|
        0 <= k < refs.len() && (#[trigger] refs[k]).text_at("event_id"@) == Some(name) {
        let k = choose|k: int|
            0 <= k < refs.len() && (#[trigger] refs[k]).text_at("event_id"@) == Some(name);
        assert(sources[k] == name);
    }
    if 0 <= i < refs.len() {
        lemma_ref(prefix, sources, kinds, i as nat);
    }
}

} // verus!
