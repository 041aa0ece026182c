//! What the ledger of a record holds: proposals, decisions, and what was accepted.

use super::forms::{id_form, sources_form, valid_id, valid_source_ids};
use super::types::{
    Assessment, DecisionOutcome, Entity, Entry, InvestigationOutcome, LedgerEntry, Outcome,
    Relation, ResearchAssessment, ResearchEntity, ResearchOutcome, ResearchRelation, Semantic,
    SemanticRecord,
};
use crate::sdk::{answers, input_error, ExtensionError};
use crate::table::{find, has_row, holds, member, put, put_row, put_then_member};
use crate::text::same;
use vstd::prelude::*;

verus! {

/// The policy under which proposals are accepted.
pub const AUTO_ACCEPT_POLICY: &'static str = "source-grounded-auto-accept-v1";

/// The ledger as it is read: the proposals, the ids of all entries, the proposals that were
/// decided, and those that were accepted.
#[verifier::ext_equal]
pub struct Docket {
    pub proposals: Seq<(Seq<char>, Semantic)>,
    pub entry_ids: Seq<Seq<char>>,
    pub decided: Seq<Seq<char>>,
    pub accepted: Seq<Seq<char>>,
}

/// The ledger before its first entry.
pub open spec fn empty_docket() -> Docket {
    Docket {
        proposals: Seq::empty(),
        entry_ids: Seq::empty(),
        decided: Seq::empty(),
        accepted: Seq::empty(),
    }
}

/// The ledger after one more entry.
pub open spec fn entered(d: Docket, entry: Entry) -> Result<Docket, Seq<char>> {
    match entry {
        Entry::Proposal { id, semantic } => if !id_form(id) || d.entry_ids.contains(id) {
            Err("research-record ledger entry id is invalid"@)
        } else {
            Ok(
                Docket {
                    proposals: put(d.proposals, id, semantic),
                    entry_ids: d.entry_ids.push(id),
                    ..d
                },
            )
        },
        Entry::Decision { id, proposal_id, outcome, policy, source_event_ids } => if !id_form(id)
            || d.entry_ids.contains(id) {
            Err("research-record ledger entry id is invalid"@)
        } else if !id_form(proposal_id) || policy != AUTO_ACCEPT_POLICY@ || !sources_form(
            source_event_ids,
        ) {
            Err("research-record decision is invalid"@)
        } else if member(d.proposals, proposal_id) is None || d.decided.contains(proposal_id) {
            Err("research-record decision does not name one undecided proposal"@)
        } else {
            Ok(
                Docket {
                    entry_ids: d.entry_ids.push(id),
                    decided: d.decided.push(proposal_id),
                    accepted: if outcome == DecisionOutcome::Accepted {
                        d.accepted.push(proposal_id)
                    } else {
                        d.accepted
                    },
                    ..d
                },
            )
        },
    }
}

/// The ledger by its entries from position `i` on.
pub open spec fn docket_from(ledger: Seq<Entry>, i: nat, d: Docket) -> Result<Docket, Seq<char>>
    decreases ledger.len() - i,
{
    if i >= ledger.len() {
        Ok(d)
    } else {
        match entered(d, ledger[i as int]) {
            Err(e) => Err(e),
            Ok(next) => docket_from(ledger, i + 1, next),
        }
    }
}

/// The ledger, in which each proposal is decided.
pub open spec fn docket_of(ledger: Seq<Entry>) -> Result<Docket, Seq<char>> {
    match docket_from(ledger, 0, empty_docket()) {
        Err(e) => Err(e),
        Ok(d) => if d.proposals.len() != d.decided.len() {
            Err("research-record proposal is missing its acceptance decision"@)
        } else {
            Ok(d)
        },
    }
}

/// The ledger as it is read.
struct LedgerState {
    proposals: Vec<(String, SemanticRecord)>,
    entry_ids: Vec<String>,
    decided: Vec<String>,
    accepted: Vec<String>,
}

impl DeepView for LedgerState {
    type V = Docket;

    closed spec fn deep_view(&self) -> Docket {
        Docket {
            proposals: self.proposals.deep_view(),
            entry_ids: self.entry_ids.deep_view(),
            decided: self.decided.deep_view(),
            accepted: self.accepted.deep_view(),
        }
    }
}

fn enter(state: LedgerState, entry: &LedgerEntry) -> (r: Result<LedgerState, ExtensionError>)
    ensures
        answers(r, entered(state.deep_view(), entry.deep_view())),
{
    let ghost given = state.deep_view();
    let mut state = state;
    match entry {
        LedgerEntry::Proposal { id, semantic } => {
            if !valid_id(id) || holds(&state.entry_ids, id) {
                return Err(input_error("research-record ledger entry id is invalid"));
            }
            put_row(&mut state.proposals, id, semantic.clone());
            state.entry_ids.push(id.clone());
            assert(state.entry_ids.deep_view() =~= given.entry_ids.push(id@));
            Ok(state)
        },
        LedgerEntry::Decision { id, proposal_id, outcome, policy, source_event_ids } => {
            if !valid_id(id) || holds(&state.entry_ids, id) {
                return Err(input_error("research-record ledger entry id is invalid"));
            }
            if !valid_id(proposal_id) || !same(policy, AUTO_ACCEPT_POLICY) || !valid_source_ids(
                source_event_ids,
            ) {
                return Err(input_error("research-record decision is invalid"));
            }
            if !has_row(&state.proposals, proposal_id) || holds(&state.decided, proposal_id) {
                return Err(
                    input_error("research-record decision does not name one undecided proposal"),
                );
            }
            state.entry_ids.push(id.clone());
            assert(state.entry_ids.deep_view() =~= given.entry_ids.push(id@));
            state.decided.push(proposal_id.clone());
            assert(state.decided.deep_view() =~= given.decided.push(proposal_id@));
            if *outcome == DecisionOutcome::Accepted {
                state.accepted.push(proposal_id.clone());
                assert(state.accepted.deep_view() =~= given.accepted.push(proposal_id@));
            }
            Ok(state)
        },
    }
}

fn accepted_proposals(ledger: &Vec<LedgerEntry>) -> (r: Result<LedgerState, ExtensionError>)
    ensures
        answers(r, docket_of(ledger.deep_view())),
{
    let mut state = LedgerState {
        proposals: Vec::new(),
        entry_ids: Vec::new(),
        decided: Vec::new(),
        accepted: Vec::new(),
    };
    assert(state.proposals.deep_view() =~= Seq::empty());
    assert(state.entry_ids.deep_view() =~= Seq::empty());
    assert(state.decided.deep_view() =~= Seq::empty());
    assert(state.accepted.deep_view() =~= Seq::empty());
    let mut i: usize = 0;
    while i < ledger.len()
        invariant
            i <= ledger@.len(),
            docket_from(ledger.deep_view(), 0, empty_docket()) == docket_from(
                ledger.deep_view(),
                i as nat,
                state.deep_view(),
            ),
        decreases ledger@.len() - i,
    {
        assert(ledger.deep_view()[i as int] == ledger@[i as int].deep_view());
        state = enter(state, &ledger[i])?;
        i += 1;
    }
    assert(state.deep_view().proposals.len() == state.proposals@.len());
    assert(state.deep_view().decided.len() == state.decided@.len());
    if state.proposals.len() != state.decided.len() {
        return Err(input_error("research-record proposal is missing its acceptance decision"));
    }
    Ok(state)
}

/// What was accepted: entities, outcomes, relations and assessments by their ids, and the last
/// two in the order in which they were accepted.
pub struct AcceptedRecord {
    pub entities: Vec<(String, ResearchEntity)>,
    pub outcomes: Vec<(String, ResearchOutcome)>,
    pub relations: Vec<(String, ResearchRelation)>,
    pub assessments: Vec<(String, ResearchAssessment)>,
    pub outcome_order: Vec<String>,
    pub assessment_order: Vec<String>,
}

/// What an [`AcceptedRecord`] holds.
#[verifier::ext_equal]
pub struct Accepted {
    pub entities: Seq<(Seq<char>, Entity)>,
    pub outcomes: Seq<(Seq<char>, Outcome)>,
    pub relations: Seq<(Seq<char>, Relation)>,
    pub assessments: Seq<(Seq<char>, Assessment)>,
    pub outcome_order: Seq<Seq<char>>,
    pub assessment_order: Seq<Seq<char>>,
}

impl DeepView for AcceptedRecord {
    type V = Accepted;

    open spec fn deep_view(&self) -> Accepted {
        Accepted {
            entities: self.entities.deep_view(),
            outcomes: self.outcomes.deep_view(),
            relations: self.relations.deep_view(),
            assessments: self.assessments.deep_view(),
            outcome_order: self.outcome_order.deep_view(),
            assessment_order: self.assessment_order.deep_view(),
        }
    }
}

/// Before anything was accepted.
pub open spec fn nothing_accepted() -> Accepted {
    Accepted {
        entities: Seq::empty(),
        outcomes: Seq::empty(),
        relations: Seq::empty(),
        assessments: Seq::empty(),
        outcome_order: Seq::empty(),
        assessment_order: Seq::empty(),
    }
}

/// What was accepted, with one more thing.
pub open spec fn accepting(a: Accepted, semantic: Semantic) -> Accepted {
    match semantic {
        Semantic::Entity(value) => Accepted { entities: put(a.entities, value.id, value), ..a },
        Semantic::InvestigationOutcome(value) => Accepted {
            outcomes: put(a.outcomes, value.id, value),
            outcome_order: a.outcome_order.push(value.id),
            ..a
        },
        Semantic::Relation(value) => Accepted { relations: put(a.relations, value.id, value), ..a },
        Semantic::Assessment(value) => Accepted {
            assessments: put(a.assessments, value.id, value),
            assessment_order: a.assessment_order.push(value.id),
            ..a
        },
    }
}

/// What was accepted, by the decisions from position `i` on.
pub open spec fn accepted_from(
    d: Docket,
    i: nat,
    ids: Seq<Seq<char>>,
    a: Accepted,
) -> Result<Accepted, Seq<char>>
    decreases d.accepted.len() - i,
{
    if i >= d.accepted.len() {
        Ok(a)
    } else {
        match member(d.proposals, d.accepted[i as int]) {
            None => accepted_from(d, i + 1, ids, a),
            Some(semantic) => if ids.contains(semantic.id()) {
                Err("research-record semantic id is duplicated"@)
            } else {
                accepted_from(d, i + 1, ids.push(semantic.id()), accepting(a, semantic))
            },
        }
    }
}

/// What the ledger accepted.
pub open spec fn accepted_of(ledger: Seq<Entry>) -> Result<Accepted, Seq<char>> {
    match docket_of(ledger) {
        Err(e) => Err(e),
        Ok(d) => accepted_from(d, 0, Seq::empty(), nothing_accepted()),
    }
}

impl AcceptedRecord {
    pub fn new() -> (r: Self)
        ensures
            r.deep_view() == nothing_accepted(),
    {
        let r = AcceptedRecord {
            entities: Vec::new(),
            outcomes: Vec::new(),
            relations: Vec::new(),
            assessments: Vec::new(),
            outcome_order: Vec::new(),
            assessment_order: Vec::new(),
        };
        assert(r.deep_view() =~= nothing_accepted());
        r
    }

    /// Accepts one more thing.
    pub fn accept(&mut self, semantic: &SemanticRecord)
        ensures
            final(self).deep_view() == accepting(old(self).deep_view(), semantic.deep_view()),
    {
        let ghost was = self.deep_view();
        match semantic {
            SemanticRecord::Entity(value) => {
                put_row(&mut self.entities, &value.id, value.clone());
            },
            SemanticRecord::InvestigationOutcome(value) => {
                put_row(&mut self.outcomes, &value.id, value.clone());
                self.outcome_order.push(value.id.clone());
                assert(self.outcome_order.deep_view() =~= was.outcome_order.push(value.id@));
            },
            SemanticRecord::Relation(value) => {
                put_row(&mut self.relations, &value.id, value.clone());
            },
            SemanticRecord::Assessment(value) => {
                put_row(&mut self.assessments, &value.id, value.clone());
                self.assessment_order.push(value.id.clone());
                assert(self.assessment_order.deep_view() =~= was.assessment_order.push(value.id@));
            },
        }
    }
}

/// What the ledger accepted.
pub fn accepted_in(ledger: &Vec<LedgerEntry>) -> (r: Result<AcceptedRecord, ExtensionError>)
    ensures
        answers(r, accepted_of(ledger.deep_view())),
{
    let state = accepted_proposals(ledger)?;
    let ghost d = state.deep_view();
    let mut out = AcceptedRecord::new();
    let mut ids: Vec<String> = Vec::new();
    let mut i: usize = 0;
    assert(ids.deep_view() =~= Seq::empty());
    while i < state.accepted.len()
        invariant
            i <= state.accepted@.len(),
            d == state.deep_view(),
            docket_of(ledger.deep_view()) == Ok::<Docket, Seq<char>>(d),
            accepted_from(d, 0, Seq::empty(), nothing_accepted()) == accepted_from(
                d,
                i as nat,
                ids.deep_view(),
                out.deep_view(),
            ),
        decreases state.accepted@.len() - i,
    {
        assert(d.accepted[i as int] == state.accepted@[i as int]@);
        if let Some(semantic) = find(&state.proposals, &state.accepted[i]) {
            if holds(&ids, semantic.id()) {
                return Err(input_error("research-record semantic id is duplicated"));
            }
            let ghost was = ids.deep_view();
            ids.push(semantic.id().clone());
            assert(ids.deep_view() =~= was.push(semantic.deep_view().id()));
            out.accept(semantic);
        }
        i += 1;
    }
    assert(d.accepted.len() == state.accepted@.len());
    Ok(out)
}

/// Each thing that was decided is a proposal, and each thing that was accepted was decided.
pub open spec fn decided_once(d: Docket) -> bool {
    &&& d.decided.no_duplicates()
    &&& forall|i: int| 0 <= i < d.decided.len() ==> member(d.proposals, #[trigger] d.decided[i]) is Some
    &&& forall|i: int| 0 <= i < d.accepted.len() ==> d.decided.contains(#[trigger] d.accepted[i])
}

proof fn lemma_entered_decided_once(d: Docket, entry: Entry)
    requires
        decided_once(d),
        entered(d, entry) is Ok,
    ensures
        decided_once(entered(d, entry)->Ok_0),
{
    let next = entered(d, entry)->Ok_0;
    match entry {
        Entry::Proposal { id, semantic } => {
            assert forall|i: int| 0 <= i < next.decided.len() implies member(
                next.proposals,
                #[trigger] next.decided[i],
            ) is Some by {
                crate::table::put_then_member(d.proposals, id, semantic, d.decided[i]);
            }
        },
        Entry::Decision { id, proposal_id, outcome, policy, source_event_ids } => {
            assert forall|i: int| 0 <= i < next.accepted.len() implies next.decided.contains(
                #[trigger] next.accepted[i],
            ) by {
                if i < d.accepted.len() {
                    assert(d.decided.contains(d.accepted[i]));
                    let j = choose|j: int| 0 <= j < d.decided.len() && d.decided[j] == d.accepted[i];
                    assert(next.decided[j] == next.accepted[i]);
                } else {
                    assert(next.decided[next.decided.len() - 1] == proposal_id);
                }
            }
        },
    }
}

proof fn lemma_docket_decided_once(ledger: Seq<Entry>, i: nat, d: Docket)
    requires
        decided_once(d),
        docket_from(ledger, i, d) is Ok,
    ensures
        decided_once(docket_from(ledger, i, d)->Ok_0),
    decreases ledger.len() - i,
{
    if i < ledger.len() {
        lemma_entered_decided_once(d, ledger[i as int]);
        lemma_docket_decided_once(ledger, i + 1, entered(d, ledger[i as int])->Ok_0);
    }
}

/// In a ledger that is read each decision is about one proposal, no proposal is decided twice,
/// and what was accepted was decided.
pub proof fn proposals_are_decided_once(ledger: Seq<Entry>)
    requires
        docket_of(ledger) is Ok,
    ensures
        decided_once(docket_of(ledger)->Ok_0),
{
    lemma_docket_decided_once(ledger, 0, empty_docket());
}

/// Whether something stands among what was accepted, just as it is.
pub open spec fn stands(a: Accepted, s: Semantic) -> bool {
    match s {
        Semantic::Entity(value) => member(a.entities, value.id) == Some(value),
        Semantic::InvestigationOutcome(value) => member(a.outcomes, value.id) == Some(value),
        Semantic::Relation(value) => member(a.relations, value.id) == Some(value),
        Semantic::Assessment(value) => member(a.assessments, value.id) == Some(value),
    }
}

/// Whether an entry proposes something under a name.
pub open spec fn proposes(entry: Entry, id: Seq<char>, s: Semantic) -> bool {
    entry is Proposal && entry->Proposal_id == id && entry->Proposal_semantic == s
}

/// Whether an entry accepts what was proposed under a name.
pub open spec fn accepts(entry: Entry, id: Seq<char>) -> bool {
    entry is Decision && entry->Decision_outcome == DecisionOutcome::Accepted
        && entry->Decision_proposal_id == id
}

proof fn lemma_accepting(a: Accepted, made: Semantic, s: Semantic)
    requires
        s.id() == made.id() ==> !stands(a, s),
    ensures
        stands(accepting(a, made), s) <==> stands(a, s) || s == made,
{
    match made {
        Semantic::Entity(value) => {
            if s is Entity {
                put_then_member(a.entities, value.id, value, s->Entity_0.id);
            }
        },
        Semantic::InvestigationOutcome(value) => {
            if s is InvestigationOutcome {
                put_then_member(a.outcomes, value.id, value, s->InvestigationOutcome_0.id);
            }
        },
        Semantic::Relation(value) => {
            if s is Relation {
                put_then_member(a.relations, value.id, value, s->Relation_0.id);
            }
        },
        Semantic::Assessment(value) => {
            if s is Assessment {
                put_then_member(a.assessments, value.id, value, s->Assessment_0.id);
            }
        },
    }
}

proof fn lemma_accepted_stands(
    d: Docket,
    i: nat,
    ids: Seq<Seq<char>>,
    a: Accepted,
    s: Semantic,
)
    requires
        accepted_from(d, i, ids, a) is Ok,
        stands(a, s) ==> ids.contains(s.id()),
    ensures
        stands(accepted_from(d, i, ids, a)->Ok_0, s) <==> stands(a, s) || exists|k: int|
            i <= k < d.accepted.len() && member(d.proposals, #[trigger] d.accepted[k]) == Some(s),
    decreases d.accepted.len() - i,
{
    if i < d.accepted.len() {
        match member(d.proposals, d.accepted[i as int]) {
            None => {
                lemma_accepted_stands(d, i + 1, ids, a, s);
            },
            Some(made) => {
                let more = ids.push(made.id());
                lemma_accepting(a, made, s);
                assert(more[ids.len() as int] == made.id());
                if ids.contains(s.id()) {
                    let k = choose|k: int| 0 <= k < ids.len() && ids[k] == s.id();
                    assert(more[k] == s.id());
                }
                lemma_accepted_stands(d, i + 1, more, accepting(a, made), s);
            },
        }
    }
}

proof fn lemma_docket(ledger: Seq<Entry>, i: nat, d: Docket, id: Seq<char>, s: Semantic)
    requires
        docket_from(ledger, i, d) is Ok,
        i <= ledger.len(),
        member(d.proposals, id) is Some ==> d.entry_ids.contains(id),
        d.accepted.contains(id) ==> d.decided.contains(id),
        member(d.proposals, id) == Some(s) <==> exists|k: int|
            0 <= k < i && proposes(#[trigger] ledger[k], id, s),
        d.accepted.contains(id) <==> exists|k: int| 0 <= k < i && accepts(#[trigger] ledger[k], id),
    ensures
        ({
            let all = docket_from(ledger, i, d)->Ok_0;
            &&& member(all.proposals, id) == Some(s) <==> exists|k: int|
                0 <= k < ledger.len() && proposes(#[trigger] ledger[k], id, s)
            &&& all.accepted.contains(id) <==> exists|k: int|
                0 <= k < ledger.len() && accepts(#[trigger] ledger[k], id)
        }),
    decreases ledger.len() - i,
{
    if i < ledger.len() {
        let entry = ledger[i as int];
        let next = entered(d, entry)->Ok_0;
        match entry {
            Entry::Proposal { id: name, semantic } => {
                put_then_member(d.proposals, name, semantic, id);
                assert(next.entry_ids[d.entry_ids.len() as int] == name);
            },
            Entry::Decision { id: name, proposal_id, outcome, policy, source_event_ids } => {
                assert(next.decided[d.decided.len() as int] == proposal_id);
                if outcome == DecisionOutcome::Accepted {
                    assert(next.accepted[d.accepted.len() as int] == proposal_id);
                }
                if next.accepted.contains(id) {
                    let k = choose|k: int| 0 <= k < next.accepted.len() && next.accepted[k] == id;
                    if k < d.accepted.len() {
                        assert(d.accepted[k] == id);
                    }
                }
                if d.accepted.contains(id) {
                    let k = choose|k: int| 0 <= k < d.accepted.len() && d.accepted[k] == id;
                    assert(next.accepted[k] == id);
                }
                if d.decided.contains(id) {
                    let k = choose|k: int| 0 <= k < d.decided.len() && d.decided[k] == id;
                    assert(next.decided[k] == id);
                }
            },
        }
        if d.entry_ids.contains(id) {
            let k = choose|k: int| 0 <= k < d.entry_ids.len() && d.entry_ids[k] == id;
            assert(next.entry_ids[k] == id);
        }
        lemma_docket(ledger, i + 1, next, id, s);
    }
}

/// What stands is what was proposed and accepted: what was only proposed does not stand, nor what
/// was rejected, and nothing that was accepted is lost or changed.
pub proof fn what_stands_was_accepted(ledger: Seq<Entry>, s: Semantic)
    requires
        accepted_of(ledger) is Ok,
    ensures
        stands(accepted_of(ledger)->Ok_0, s) <==> exists|i: int, j: int|
            0 <= i < ledger.len() && 0 <= j < ledger.len() && (#[trigger] ledger[i]) is Proposal
                && ledger[i]->Proposal_semantic == s && accepts(
                #[trigger] ledger[j],
                ledger[i]->Proposal_id,
            ),
{
    let d = docket_of(ledger)->Ok_0;
    let a = accepted_of(ledger)->Ok_0;
    let none = Seq::<Seq<char>>::empty();
    lemma_accepted_stands(d, 0, none, nothing_accepted(), s);
    assert forall|id: Seq<char>| #![trigger member(d.proposals, id)] {
        &&& member(d.proposals, id) == Some(s) <==> exists|k: int|
            0 <= k < ledger.len() && proposes(#[trigger] ledger[k], id, s)
        &&& d.accepted.contains(id) <==> exists|k: int|
            0 <= k < ledger.len() && accepts(#[trigger] ledger[k], id)
    } by {
        lemma_docket(ledger, 0, empty_docket(), id, s);
    }
    if stands(a, s) {
        let k = choose|k: int|
            0 <= k < d.accepted.len() && member(d.proposals, #[trigger] d.accepted[k]) == Some(s);
        let id = d.accepted[k];
        assert(d.accepted.contains(id));
        let i = choose|i: int| 0 <= i < ledger.len() && proposes(#[trigger] ledger[i], id, s);
        let j = choose|j: int| 0 <= j < ledger.len() && accepts(#[trigger] ledger[j], id);
        assert(ledger[i] is Proposal && accepts(ledger[j], ledger[i]->Proposal_id));
    }
    if exists|i: int, j: int|
        0 <= i < ledger.len() && 0 <= j < ledger.len() && (#[trigger] ledger[i]) is Proposal
            && ledger[i]->Proposal_semantic == s && accepts(
            #[trigger] ledger[j],
            ledger[i]->Proposal_id,
        ) {
        let (i, j) = choose|i: int, j: int|
            0 <= i < ledger.len() && 0 <= j < ledger.len() && (#[trigger] ledger[i]) is Proposal
                && ledger[i]->Proposal_semantic == s && accepts(
                #[trigger] ledger[j],
                ledger[i]->Proposal_id,
            );
        let id = ledger[i]->Proposal_id;
        assert(proposes(ledger[i], id, s));
        assert(member(d.proposals, id) == Some(s));
        assert(d.accepted.contains(id));
        let k = choose|k: int| 0 <= k < d.accepted.len() && d.accepted[k] == id;
        assert(member(d.proposals, d.accepted[k]) == Some(s));
    }
}

} // verus!
