//! What the graph of a research record shows is what the record says.

use super::artifact::{kinds_among, nodes_of, research_graph};
use super::drawn::{
    accepted_things_stand_under_their_ids, lemma_entity, lemma_nodes_from, lemma_placed, node_at,
};
use super::placement::{placed_of, Place};
use super::presentation::{
    chosen, contested, contested_among, entity_node, node_name, positive, priority, scopes_of,
    standing_of,
};
use crate::json::Tree;
use crate::projection::drawn::lemma_node_tree;
use crate::research_record::ledger::{accepted_of, Accepted};
use crate::research_record::queries::{active_among, active_assessments, latest_among};
use crate::research_record::types::{
    Assessment, AssessmentVerdict, Entity, EntityKind, InvestigationOutcome, Outcome, Record,
};
use crate::table::{
    in_order, in_order_keeps_names, lemma_first_row, lemma_found_is_row, lemma_row_is_found, member,
};
use crate::text::lemma_before_irreflexive;
use vstd::prelude::*;

verus! {

/// Whether an assessment speaks for its claim: it is supported, corroborated or proven.
pub open spec fn speaks_for(x: Assessment) -> bool {
    x.verdict is Supported || x.verdict is Corroborated || x.verdict is Proven
}

/// Whether some assessment speaks for the claim.
pub open spec fn some_for(list: Seq<Assessment>) -> bool {
    exists|i: int| 0 <= i < list.len() && speaks_for(#[trigger] list[i])
}

/// Whether some assessment refutes the claim.
pub open spec fn some_against(list: Seq<Assessment>) -> bool {
    exists|i: int| 0 <= i < list.len() && (#[trigger] list[i]).verdict is Refuted
}

/// Whether all assessments have one scope.
pub open spec fn one_scope(list: Seq<Assessment>) -> bool {
    forall|i: int, j: int|
        0 <= i < list.len() && 0 <= j < list.len() ==> (#[trigger] list[i]).scope == (
        #[trigger] list[j]).scope
}

proof fn lemma_same_names(names: Seq<Seq<char>>, name: Seq<char>)
    requires
        names.len() > 0,
        forall|i: int| 0 <= i < names.len() ==> (#[trigger] names[i]) == name,
    ensures
        in_order(names).len() == 1,
{
    let order = in_order(names);
    in_order_keeps_names(names, name);
    assert(names.contains(names[0]));
    assert(order.contains(name));
    if order.len() > 1 {
        in_order_keeps_names(names, order[0]);
        in_order_keeps_names(names, order[1]);
        assert(order.contains(order[0]) && order.contains(order[1]));
        assert(names.contains(order[0]) && names.contains(order[1]));
        lemma_before_irreflexive(name);
    }
}

proof fn lemma_contested_only(list: Seq<Assessment>, scopes: Seq<Seq<char>>, n: nat)
    requires
        n <= scopes.len(),
        forall|k: int| 0 <= k < n ==> !contested(list, #[trigger] scopes[k]),
    ensures
        contested_among(list, scopes, n).len() == 0,
    decreases n,
{
    if n > 0 {
        lemma_contested_only(list, scopes, (n - 1) as nat);
    }
}

proof fn lemma_chosen(list: Seq<Assessment>, n: nat)
    requires
        0 < n <= list.len(),
    ensures
        0 <= chosen(list, n) < n,
        forall|i: int|
            0 <= i < n ==> priority(list[chosen(list, n)].verdict) >= priority(
                (#[trigger] list[i]).verdict,
            ),
    decreases n,
{
    if n > 1 {
        lemma_chosen(list, (n - 1) as nat);
    }
}

/// How the active assessments of a claim are shown. Without any, the claim is open. Where they
/// differ in scope, or one speaks for it and one refutes it, it is inconclusive. Else it is
/// verified where one speaks for it, a dead end where one refutes it, and inconclusive where none
/// does either.
pub proof fn claims_stand_by_their_assessments(list: Seq<Assessment>)
    ensures
        list.len() == 0 <==> standing_of(list).status == "open"@,
        list.len() > 0 && !one_scope(list) ==> standing_of(list).status == "inconclusive"@,
        some_for(list) && some_against(list) ==> standing_of(list).status == "inconclusive"@,
        one_scope(list) && some_for(list) && !some_against(list) ==> standing_of(list).status
            == "verified"@,
        one_scope(list) && some_against(list) && !some_for(list) ==> standing_of(list).status
            == "dead_end"@,
        list.len() > 0 && !some_for(list) && !some_against(list) ==> standing_of(list).status
            == "inconclusive"@,
        standing_of(list).status == "verified"@ ==> some_for(list) && !some_against(list),
        standing_of(list).status == "dead_end"@ ==> some_against(list) && !some_for(list),
        standing_of(list).scope_limited == !one_scope(list),
        standing_of(list).contested ==> some_for(list) && some_against(list),
        one_scope(list) && some_for(list) && some_against(list) ==> standing_of(list).contested,
{
    reveal_strlit("open");
    reveal_strlit("inconclusive");
    reveal_strlit("verified");
    reveal_strlit("dead_end");
    assert("open"@[0] == 'o' && "inconclusive"@[0] == 'i' && "verified"@[0] == 'v' && "dead_end"@[0]
        == 'd');
    let scopes = in_order(scopes_of(list));
    let disputed = contested_among(list, scopes, scopes.len());
    if list.len() > 0 {
        if one_scope(list) {
            assert forall|i: int| 0 <= i < scopes_of(list).len() implies (#[trigger] scopes_of(
                list,
            )[i]) == list[0].scope by {
                assert(list[i].scope == list[0].scope);
            }
            lemma_same_names(scopes_of(list), list[0].scope);
        } else {
            let (i, j) = choose|i: int, j: int|
                0 <= i < list.len() && 0 <= j < list.len() && (#[trigger] list[i]).scope != (
                #[trigger] list[j]).scope;
            in_order_keeps_names(scopes_of(list), list[i].scope);
            in_order_keeps_names(scopes_of(list), list[j].scope);
            assert(scopes_of(list)[i] == list[i].scope && scopes_of(list)[j] == list[j].scope);
            assert(scopes_of(list).contains(list[i].scope));
            assert(scopes_of(list).contains(list[j].scope));
            let p = choose|p: int| 0 <= p < scopes.len() && scopes[p] == list[i].scope;
            let q = choose|q: int| 0 <= q < scopes.len() && scopes[q] == list[j].scope;
            assert(p != q);
        }
        if some_for(list) && some_against(list) {
            let i = choose|i: int| 0 <= i < list.len() && speaks_for(#[trigger] list[i]);
            let j = choose|j: int| 0 <= j < list.len() && (#[trigger] list[j]).verdict is Refuted;
            if one_scope(list) {
                assert(list[i].scope == list[j].scope);
                assert(positive(list[i].verdict));
                assert(contested(list, list[i].scope));
                super::presentation::contested_claims_are_inconclusive(list, list[i].scope);
            }
        } else {
            assert forall|k: int| 0 <= k < scopes.len() implies !contested(
                list,
                #[trigger] scopes[k],
            ) by {
                if contested(list, scopes[k]) {
                    let i = choose|i: int|
                        0 <= i < list.len() && (#[trigger] list[i]).scope == scopes[k] && positive(
                            list[i].verdict,
                        );
                    assert(speaks_for(list[i]));
                    let j = choose|j: int|
                        0 <= j < list.len() && (#[trigger] list[j]).scope == scopes[k]
                            && list[j].verdict == AssessmentVerdict::Refuted;
                    assert(list[j].verdict is Refuted);
                }
            }
            lemma_contested_only(list, scopes, scopes.len());
        }
        lemma_chosen(list, list.len());
        let best = list[chosen(list, list.len())];
        if some_for(list) {
            let i = choose|i: int| 0 <= i < list.len() && speaks_for(#[trigger] list[i]);
            assert(priority(best.verdict) >= priority(list[i].verdict));
            assert(speaks_for(best));
        }
        if some_against(list) {
            let i = choose|i: int| 0 <= i < list.len() && (#[trigger] list[i]).verdict is Refuted;
            assert(priority(best.verdict) >= priority(list[i].verdict));
        }
    }
}

/// Whether a verdict is as strong as another: proven above corroborated, that above supported,
/// that above refuted, and inconclusive last.
pub open spec fn as_strong(a: AssessmentVerdict, b: AssessmentVerdict) -> bool {
    match b {
        AssessmentVerdict::Proven => a is Proven,
        AssessmentVerdict::Corroborated => a is Proven || a is Corroborated,
        AssessmentVerdict::Supported => a is Proven || a is Corroborated || a is Supported,
        AssessmentVerdict::Refuted => !(a is Inconclusive),
        AssessmentVerdict::Inconclusive => true,
    }
}

/// Whether no assessment is stronger than a verdict.
pub open spec fn no_stronger(list: Seq<Assessment>, verdict: AssessmentVerdict) -> bool {
    forall|i: int| 0 <= i < list.len() ==> as_strong(verdict, (#[trigger] list[i]).verdict)
}

/// An assessment in words: its verdict, its scope and its summary.
pub open spec fn told(x: Assessment) -> Seq<char> {
    "Assessment ("@ + x.verdict.name() + ", scope: "@ + x.scope + "): "@ + x.summary
}

/// Where the active assessments of a claim are of one scope and do not contradict each other, the
/// claim tells one of the strongest in its own words.
pub proof fn the_strongest_assessment_is_told(list: Seq<Assessment>)
    requires
        list.len() > 0,
        one_scope(list),
        !(some_for(list) && some_against(list)),
    ensures
        exists|k: int|
            0 <= k < list.len() && standing_of(list).summary == Some(#[trigger] told(list[k]))
                && no_stronger(list, list[k].verdict),
{
    lemma_chosen(list, list.len());
    let k = chosen(list, list.len());
    let scopes = in_order(scopes_of(list));
    assert forall|i: int| 0 <= i < scopes_of(list).len() implies (#[trigger] scopes_of(list)[i])
        == list[0].scope by {
        assert(list[i].scope == list[0].scope);
    }
    lemma_same_names(scopes_of(list), list[0].scope);
    assert forall|s: int| 0 <= s < scopes.len() implies !contested(list, #[trigger] scopes[s]) by {
        if contested(list, scopes[s]) {
            let i = choose|i: int|
                0 <= i < list.len() && (#[trigger] list[i]).scope == scopes[s] && positive(
                    list[i].verdict,
                );
            assert(speaks_for(list[i]));
            let j = choose|j: int|
                0 <= j < list.len() && (#[trigger] list[j]).scope == scopes[s] && list[j].verdict
                    == AssessmentVerdict::Refuted;
            assert(list[j].verdict is Refuted);
        }
    }
    lemma_contested_only(list, scopes, scopes.len());
    assert forall|i: int| 0 <= i < list.len() implies as_strong(
        list[k].verdict,
        (#[trigger] list[i]).verdict,
    ) by {
        assert(priority(list[k].verdict) >= priority(list[i].verdict));
    }
    assert(no_stronger(list, list[k].verdict));
    assert(standing_of(list).summary == Some(told(list[k])));
}

/// Whether an assessment of a claim was accepted and is not superseded by another one of it.
pub open spec fn stands(a: Accepted, claim: Seq<char>, x: Assessment) -> bool {
    exists|j: int|
        0 <= j < a.assessment_order.len() && member(a.assessments, #[trigger] a.assessment_order[j])
            == Some(x) && x.claim_id == claim && forall|i: int|
            0 <= i < a.assessments.len() && (#[trigger] a.assessments[i]).1.claim_id == claim
                ==> a.assessments[i].1.supersedes_assessment_id != Some(a.assessment_order[j])
}

proof fn lemma_active(a: Accepted, claim: Seq<char>, n: nat, x: Assessment)
    requires
        n <= a.assessment_order.len(),
    ensures
        active_among(a, claim, n).contains(x) == exists|j: int|
            0 <= j < n && member(a.assessments, #[trigger] a.assessment_order[j]) == Some(x)
                && x.claim_id == claim && forall|i: int|
                0 <= i < a.assessments.len() && (#[trigger] a.assessments[i]).1.claim_id == claim
                    ==> a.assessments[i].1.supersedes_assessment_id != Some(a.assessment_order[j]),
    decreases n,
{
    if n > 0 {
        let m = (n - 1) as nat;
        lemma_active(a, claim, m, x);
        let rest = active_among(a, claim, m);
        let all = active_among(a, claim, n);
        let id = a.assessment_order[n - 1];
        if rest.contains(x) {
            let k = choose|k: int| 0 <= k < rest.len() && rest[k] == x;
            assert(all[k] == x);
        }
        if crate::research_record::queries::active_assessment(a, claim, id) {
            assert(all[rest.len() as int] == member(a.assessments, id)->0);
            if all.contains(x) && !rest.contains(x) {
                let k = choose|k: int| 0 <= k < all.len() && all[k] == x;
                if k < rest.len() {
                    assert(rest[k] == x);
                }
                assert(x == member(a.assessments, id)->0);
                assert(member(a.assessments, a.assessment_order[n - 1]) == Some(x));
                assert(!crate::research_record::queries::superseded(a, claim, id));
            }
        }
        if exists|j: int|
            0 <= j < n && member(a.assessments, #[trigger] a.assessment_order[j]) == Some(x)
                && x.claim_id == claim && forall|i: int|
                0 <= i < a.assessments.len() && (#[trigger] a.assessments[i]).1.claim_id == claim
                    ==> a.assessments[i].1.supersedes_assessment_id != Some(
                    a.assessment_order[j],
                ) {
            let j = choose|j: int|
                0 <= j < n && member(a.assessments, #[trigger] a.assessment_order[j]) == Some(x)
                    && x.claim_id == claim && forall|i: int|
                    0 <= i < a.assessments.len() && (#[trigger] a.assessments[i]).1.claim_id
                        == claim ==> a.assessments[i].1.supersedes_assessment_id != Some(
                        a.assessment_order[j],
                    );
            if j == n - 1 {
                assert(!crate::research_record::queries::superseded(a, claim, id));
                assert(all[rest.len() as int] == x);
            } else {
                assert(rest.contains(x));
            }
        }
    }
}

/// The assessments that a claim is shown with are those that stand.
pub proof fn claims_are_shown_with_what_stands(a: Accepted, claim: Seq<char>, x: Assessment)
    ensures
        active_assessments(a, claim).contains(x) == stands(a, claim, x),
{
    lemma_active(a, claim, a.assessment_order.len(), x);
}

/// Whether an outcome is the last one that was accepted for an investigation.
pub open spec fn last_outcome(a: Accepted, investigation: Seq<char>, o: Outcome) -> bool {
    exists|j: int|
        0 <= j < a.outcome_order.len() && member(a.outcomes, #[trigger] a.outcome_order[j]) == Some(
            o,
        ) && o.investigation_id == investigation && forall|k: int|
            j < k < a.outcome_order.len() ==> other_outcome(a, investigation, k)
}

/// Whether the outcome accepted at a position is not one of an investigation.
pub open spec fn other_outcome(a: Accepted, investigation: Seq<char>, k: int) -> bool {
    match member(a.outcomes, a.outcome_order[k]) {
        Some(o) => o.investigation_id != investigation,
        None => true,
    }
}

proof fn lemma_latest(a: Accepted, investigation: Seq<char>, n: nat)
    requires
        n <= a.outcome_order.len(),
        forall|k: int|
            n <= k < a.outcome_order.len() ==> #[trigger] other_outcome(a, investigation, k),
    ensures
        match latest_among(a, investigation, n) {
            Some(o) => last_outcome(a, investigation, o),
            None => forall|k: int|
                0 <= k < a.outcome_order.len() ==> #[trigger] other_outcome(a, investigation, k),
        },
    decreases n,
{
    if n > 0 {
        let id = a.outcome_order[n - 1];
        if other_outcome(a, investigation, n - 1) {
            lemma_latest(a, investigation, (n - 1) as nat);
        } else {
            assert(member(a.outcomes, a.outcome_order[n - 1]) == latest_among(a, investigation, n));
            assert(forall|k: int|
                n - 1 < k < a.outcome_order.len() ==> #[trigger] other_outcome(
                    a,
                    investigation,
                    k,
                ));
        }
    }
}

/// The current outcome of an investigation is the last one accepted for it; without one it has
/// none.
pub proof fn the_current_outcome_is_the_last(a: Accepted, investigation: Seq<char>)
    ensures
        match crate::research_record::queries::latest_outcome(a, investigation) {
            Some(o) => last_outcome(a, investigation, o),
            None => forall|k: int|
                0 <= k < a.outcome_order.len() ==> #[trigger] other_outcome(a, investigation, k),
        },
{
    lemma_latest(a, investigation, a.outcome_order.len());
}

/// Whether a node has the kind of its entity: a question is a root, an investigation an attempt,
/// a claim a claim, a synthesis a synthesis, and an observation or an artifact a checkpoint.
pub open spec fn kind_shown(entity: Entity, node: Tree) -> bool {
    node.text_at("kind"@) == Some(
        match entity.kind {
            EntityKind::Question => "root"@,
            EntityKind::Investigation => "attempt"@,
            EntityKind::Claim => "claim"@,
            EntityKind::Synthesis => "synthesis"@,
            _ => "checkpoint"@,
        },
    )
}

/// Whether a node has the status that its entity has reached: a claim by the assessments of it
/// that stand, an investigation by its last outcome, and the others once and for all.
pub open spec fn status_shown(a: Accepted, entity: Entity, node: Tree) -> bool {
    let status = node.text_at("status"@);
    match entity.kind {
        EntityKind::Question => status == Some("open"@),
        EntityKind::Observation => status == Some("success"@),
        EntityKind::Artifact => status == Some("success"@),
        EntityKind::Synthesis => status == Some("verified"@),
        EntityKind::Investigation => {
            ||| status == Some("open"@) && forall|k: int|
                0 <= k < a.outcome_order.len() ==> #[trigger] other_outcome(a, entity.id, k)
            ||| exists|o: Outcome| #[trigger]
                last_outcome(a, entity.id, o) && status == Some(
                    match o.outcome {
                        InvestigationOutcome::Active => "open"@,
                        InvestigationOutcome::Blocked => "blocked"@,
                        InvestigationOutcome::DeadEnd => "dead_end"@,
                        InvestigationOutcome::Completed => "success"@,
                        InvestigationOutcome::Abandoned => "abandoned"@,
                    },
                )
        },
        EntityKind::Claim => {
            let any = exists|x: Assessment| stands(a, entity.id, x);
            let pro = exists|x: Assessment| stands(a, entity.id, x) && speaks_for(x);
            let con = exists|x: Assessment| stands(a, entity.id, x) && x.verdict is Refuted;
            let split = exists|x: Assessment, y: Assessment|
                #![trigger stands(a, entity.id, x), stands(a, entity.id, y)]
                stands(a, entity.id, x) && stands(a, entity.id, y) && x.scope != y.scope;
            status == Some(
                if !any {
                    "open"@
                } else if split || (pro && con) {
                    "inconclusive"@
                } else if pro {
                    "verified"@
                } else if con {
                    "dead_end"@
                } else {
                    "inconclusive"@
                },
            )
        },
    }
}

/// Whether a text ends with another.
pub open spec fn ends_with(s: Seq<char>, end: Seq<char>) -> bool {
    s.len() >= end.len() && s.skip(s.len() - end.len()) == end
}

/// Whether a node shows an entity: under its id, with its title, its summary at the end of what is
/// said of it, its kind, and the status that it has reached, below its root.
pub open spec fn entity_shown(a: Accepted, entity: Entity, root: Seq<char>, node: Tree) -> bool {
    &&& node.text_at("id"@) == Some("node-"@ + entity.id)
    &&& node.text_at("root_id"@) == Some("node-"@ + root)
    &&& node.text_at("title"@) == Some(entity.title)
    &&& node.text_at("summary"@) is Some
    &&& ends_with(node.text_at("summary"@)->0, entity.summary)
    &&& kind_shown(entity, node)
    &&& status_shown(a, entity, node)
}

proof fn lemma_ends_with(s: Seq<char>, end: Seq<char>)
    ensures
        ends_with(s + end, end),
        ends_with(end, end),
{
    assert((s + end).skip(s.len() as int) =~= end);
    assert(end.skip(0) =~= end);
}

proof fn lemma_claim_status(a: Accepted, entity: Entity, list: Seq<Assessment>, node: Tree)
    requires
        entity.kind == EntityKind::Claim,
        list == active_assessments(a, entity.id),
        node.text_at("status"@) == Some(
            if list.len() == 0 { "open"@ } else { standing_of(list).status },
        ),
    ensures
        status_shown(a, entity, node),
{
    claims_stand_by_their_assessments(list);
    assert forall|x: Assessment| list.contains(x) == #[trigger] stands(a, entity.id, x) by {
        claims_are_shown_with_what_stands(a, entity.id, x);
    }
    let any = exists|x: Assessment| stands(a, entity.id, x);
    let pro = exists|x: Assessment| stands(a, entity.id, x) && speaks_for(x);
    let con = exists|x: Assessment| stands(a, entity.id, x) && x.verdict is Refuted;
    if list.len() > 0 {
        assert(list.contains(list[0]));
        assert(stands(a, entity.id, list[0]));
    }
    if any {
        let x = choose|x: Assessment| stands(a, entity.id, x);
        assert(list.contains(x));
    }
    if pro {
        let x = choose|x: Assessment| stands(a, entity.id, x) && speaks_for(x);
        assert(list.contains(x));
        let k = choose|k: int| 0 <= k < list.len() && list[k] == x;
        assert(speaks_for(list[k]));
    }
    if some_for(list) {
        let k = choose|k: int| 0 <= k < list.len() && speaks_for(#[trigger] list[k]);
        assert(list.contains(list[k]));
        assert(stands(a, entity.id, list[k]));
    }
    if con {
        let x = choose|x: Assessment| stands(a, entity.id, x) && x.verdict is Refuted;
        assert(list.contains(x));
        let k = choose|k: int| 0 <= k < list.len() && list[k] == x;
        assert(list[k].verdict is Refuted);
    }
    if some_against(list) {
        let k = choose|k: int| 0 <= k < list.len() && (#[trigger] list[k]).verdict is Refuted;
        assert(list.contains(list[k]));
        assert(stands(a, entity.id, list[k]));
    }
    if !one_scope(list) {
        let (i, j) = choose|i: int, j: int|
            0 <= i < list.len() && 0 <= j < list.len() && (#[trigger] list[i]).scope != (
            #[trigger] list[j]).scope;
        assert(list.contains(list[i]) && list.contains(list[j]));
        assert(stands(a, entity.id, list[i]) && stands(a, entity.id, list[j]));
    }
    if exists|x: Assessment, y: Assessment|
        #![trigger stands(a, entity.id, x), stands(a, entity.id, y)]
        stands(a, entity.id, x) && stands(a, entity.id, y) && x.scope != y.scope {
        let (x, y) = choose|x: Assessment, y: Assessment|
            #![trigger stands(a, entity.id, x), stands(a, entity.id, y)]
            stands(a, entity.id, x) && stands(a, entity.id, y) && x.scope != y.scope;
        assert(list.contains(x) && list.contains(y));
        let i = choose|i: int| 0 <= i < list.len() && list[i] == x;
        let j = choose|j: int| 0 <= j < list.len() && list[j] == y;
        assert(list[i].scope != list[j].scope);
    }
}

proof fn lemma_entity_shown(
    a: Accepted,
    entity: Entity,
    place: Place,
    kinds: Seq<(Seq<char>, Seq<char>)>,
)
    ensures
        entity_shown(a, entity, place.root, entity_node(a, entity, place, kinds)),
{
    let node = entity_node(a, entity, place, kinds);
    let list = super::presentation::assessments_shown(a, entity);
    let outcome = super::presentation::outcome_shown(a, entity);
    let standing = standing_of(list);
    let sources = super::presentation::node_sources(entity, outcome, list);
    let prefix = "src-node-"@ + entity.id;
    let (status, summary) = super::presentation::shown(entity, outcome, standing);
    lemma_node_tree(
        super::presentation::basis_tree(
            "Accepted research-record entity."@,
            super::presentation::ref_names(prefix, sources.len()),
        ),
        node_name(entity.id),
        super::presentation::graph_kind_of(entity.kind),
        super::presentation::metadata_tree(entity, outcome, list, standing),
        node_name(place.root),
        super::presentation::refs_tree(prefix, sources, kinds),
        status,
        summary,
        entity.title,
    );
    assert(node.text_at("status"@) == Some(status));
    assert(node.text_at("summary"@) == Some(summary));
    assert(ends_with(summary, entity.summary)) by {
        match entity.kind {
            EntityKind::Investigation => {
                if let Some(o) = outcome {
                    lemma_ends_with(
                        "Outcome ("@ + o.outcome.name() + "): "@ + o.summary + "\n"@,
                        entity.summary,
                    );
                } else {
                    lemma_ends_with(Seq::empty(), entity.summary);
                }
            },
            EntityKind::Claim => {
                if let Some(said) = standing.summary {
                    lemma_ends_with(said + "\n"@, entity.summary);
                } else {
                    lemma_ends_with(Seq::empty(), entity.summary);
                }
            },
            _ => {
                lemma_ends_with(Seq::empty(), entity.summary);
            },
        }
    }
    if entity.kind == EntityKind::Claim {
        lemma_claim_status(a, entity, list, node);
    }
    if entity.kind == EntityKind::Investigation {
        the_current_outcome_is_the_last(a, entity.id);
        if let Some(o) = outcome {
            assert(last_outcome(a, entity.id, o));
        }
    }
}

pub(crate) proof fn lemma_forest(r: Record, id: Seq<char>)
    requires
        research_graph(r, id) is Ok,
    ensures
        ({
            let artifact = research_graph(r, id)->Ok_0.0;
            let a = accepted_of(r.ledger)->Ok_0;
            let kinds = kinds_among(r.episodes, r.episodes.len());
            &&& artifact.at("forest"@).list_at("nodes"@) == Some(nodes_of(r, a)->Ok_0)
            &&& artifact.at("forest"@).list_at("edges"@) == Some(
                super::artifact::edge_trees(super::edges::edges_of(a, placed_of(a), kinds)),
            )
            &&& artifact.at("forest"@).list_at("roots"@) == crate::json::texts(
                super::artifact::roots_among(a.entities, a.entities.len()),
            ).list()
        }),
{
    let artifact = research_graph(r, id)->Ok_0.0;
    let o = artifact->Object_0;
    reveal_strlit("construction");
    reveal_strlit("diagnostics");
    reveal_strlit("forest");
    assert(o[0].0[0] == 'c' && o[1].0[0] == 'd' && o[2].0[0] == 'f');
    lemma_first_row(o, "forest"@, 2);
    let f = artifact.at("forest"@)->Object_0;
    reveal_strlit("active_root");
    reveal_strlit("edges");
    reveal_strlit("nodes");
    reveal_strlit("roots");
    assert(f[0].0[0] == 'a' && f[1].0[0] == 'e' && f[2].0[0] == 'n' && f[3].0[0] == 'r');
    lemma_first_row(f, "edges"@, 1);
    lemma_first_row(f, "nodes"@, 2);
    lemma_first_row(f, "roots"@, 3);
}

/// Whether one of some nodes shows an entity.
pub open spec fn shown_among(nodes: Seq<Tree>, a: Accepted, entity: Entity, root: Seq<char>) -> bool {
    exists|j: int| 0 <= j < nodes.len() && entity_shown(a, entity, root, #[trigger] nodes[j])
}

/// Whether a node shows some entity that was accepted.
pub open spec fn shows_one(node: Tree, a: Accepted) -> bool {
    exists|k: int|
        0 <= k < a.entities.len() && member(placed_of(a), (#[trigger] a.entities[k]).0) is Some
            && entity_shown(
            a,
            a.entities[k].1,
            member(placed_of(a), a.entities[k].0)->0.root,
            node,
        )
}

/// The graph of a record shows each entity that hangs from a question as it stands, and shows
/// nothing else.
pub proof fn records_are_shown_as_they_stand(r: Record, id: Seq<char>)
    requires
        research_graph(r, id) is Ok,
    ensures
        ({
            let a = accepted_of(r.ledger)->Ok_0;
            let nodes = research_graph(r, id)->Ok_0.0.at("forest"@).list_at("nodes"@)->0;
            &&& research_graph(r, id)->Ok_0.0.at("forest"@).list_at("nodes"@) is Some
            &&& forall|k: int|
                0 <= k < a.entities.len() && member(placed_of(a), (#[trigger] a.entities[k]).0)
                    is Some ==> shown_among(
                    nodes,
                    a,
                    a.entities[k].1,
                    member(placed_of(a), a.entities[k].0)->0.root,
                )
            &&& forall|j: int| 0 <= j < nodes.len() ==> shows_one(#[trigger] nodes[j], a)
        }),
{
    let a = accepted_of(r.ledger)->Ok_0;
    let kinds = kinds_among(r.episodes, r.episodes.len());
    let placed = placed_of(a);
    accepted_things_stand_under_their_ids(r.ledger);
    lemma_forest(r, id);
    lemma_nodes_from(a, kinds, 0, Seq::empty());
    let nodes = nodes_of(r, a)->Ok_0;
    assert forall|k: int|
        0 <= k < a.entities.len() && member(placed, (#[trigger] a.entities[k]).0)
            is Some implies shown_among(
        nodes,
        a,
        a.entities[k].1,
        member(placed, a.entities[k].0)->0.root,
    ) by {
        let name = a.entities[k].0;
        lemma_row_is_found(a.entities, k);
        lemma_found_is_row(placed, name);
        let j = choose|j: int| 0 <= j < placed.len() && #[trigger] placed[j] == (
            name,
            member(placed, name)->0,
        );
        assert(nodes[j] == node_at(a, kinds, j));
        lemma_entity_shown(a, a.entities[k].1, placed[j].1, kinds);
    }
    assert forall|j: int| 0 <= j < nodes.len() implies shows_one(#[trigger] nodes[j], a) by {
        let name = placed[j].0;
        assert(nodes[j] == node_at(a, kinds, j));
        lemma_placed(a, name);
        lemma_row_is_found(placed, j);
        lemma_entity(a, name);
        let k = choose|k: int|
            0 <= k < a.entities.len() && #[trigger] a.entities[k] == (
                name,
                member(a.entities, name)->0,
            );
        lemma_entity_shown(a, a.entities[k].1, placed[j].1, kinds);
        assert(a.entities[k].0 == name);
    }
}

} // verus!
