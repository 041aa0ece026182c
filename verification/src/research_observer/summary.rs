//! What an observer is told of the record that it continues.

use super::lines::{
    assessment_lines, assessment_summary_lines, entity_lines, entity_summary_lines, outcome_lines,
    outcome_summary_lines, relation_lines, relation_summary_lines, MAX_CURRENT_INVESTIGATIONS,
    MAX_RECENT_SEMANTIC_IDS, MAX_RECENT_SEMANTIC_ID_BYTES,
};
use crate::research_record::append::{semantic_ids, taken_ids};
use crate::research_record::ledger::{accepted_of, Accepted, AcceptedRecord};
use crate::research_record::queries::{latest_outcome, lineage_anchor, productive};
use crate::research_record::record::append_texts;
use crate::research_record::types::{
    DecisionOutcome, Entity, EntityKind, Entry, LedgerEntry, Record, ResearchEntity,
    ResearchRecord, Semantic, SemanticRecord,
};
use crate::table::{find, holds, join, joined, member, put, put_row};
use crate::text::{before, byte_count, byte_len, join2, join3, join7, precedes};
use vstd::prelude::*;

verus! {

/// The proposals that the first `n` entries accept.
pub open spec fn approved_among(ledger: Seq<Entry>, n: nat) -> Seq<Seq<char>>
    decreases n,
{
    if n == 0 {
        Seq::empty()
    } else {
        let rest = approved_among(ledger, (n - 1) as nat);
        match ledger[n - 1] {
            Entry::Decision { id: _, proposal_id, outcome, policy: _, source_event_ids: _ } => if outcome
                == DecisionOutcome::Accepted {
                rest.push(proposal_id)
            } else {
                rest
            },
            Entry::Proposal { id: _, semantic: _ } => rest,
        }
    }
}

fn accepted_proposal_ids(ledger: &Vec<LedgerEntry>) -> (r: Vec<String>)
    ensures
        r.deep_view() == approved_among(ledger.deep_view(), ledger@.len()),
{
    let mut out: Vec<String> = Vec::new();
    let mut i: usize = 0;
    assert(out.deep_view() =~= Seq::empty());
    while i < ledger.len()
        invariant
            i <= ledger@.len(),
            out.deep_view() == approved_among(ledger.deep_view(), i as nat),
        decreases ledger@.len() - i,
    {
        assert(ledger.deep_view()[i as int] == ledger@[i as int].deep_view());
        if let LedgerEntry::Decision {
            id: _,
            proposal_id,
            outcome,
            policy: _,
            source_event_ids: _,
        } = &ledger[i] {
            if *outcome == DecisionOutcome::Accepted {
                let ghost was = out.deep_view();
                out.push(proposal_id.clone());
                assert(out.deep_view() =~= was.push(proposal_id@));
            }
        }
        i += 1;
    }
    out
}

/// The ids of what was accepted last, newest first, from the first `n` entries: those of
/// accepted proposals, each once, until there are too many or they take too many bytes.
pub open spec fn recent_from(
    ledger: Seq<Entry>,
    n: nat,
    approved: Seq<Seq<char>>,
    known: Seq<Seq<char>>,
    ids: Seq<Seq<char>>,
    bytes: nat,
) -> Seq<Seq<char>>
    decreases n,
{
    if n == 0 {
        ids
    } else {
        match ledger[n - 1] {
            Entry::Decision { id: _, proposal_id: _, outcome: _, policy: _, source_event_ids: _ } => {
                recent_from(ledger, (n - 1) as nat, approved, known, ids, bytes)
            },
            Entry::Proposal { id, semantic } => {
                let name = semantic.id();
                let next = bytes + byte_len(name) + if ids.len() == 0 {
                    0nat
                } else {
                    1nat
                };
                if !approved.contains(id) || !known.contains(name) || ids.contains(name) {
                    recent_from(ledger, (n - 1) as nat, approved, known, ids, bytes)
                } else if ids.len() == MAX_RECENT_SEMANTIC_IDS || next
                    > MAX_RECENT_SEMANTIC_ID_BYTES {
                    ids
                } else {
                    recent_from(ledger, (n - 1) as nat, approved, known, ids.push(name), next)
                }
            },
        }
    }
}

/// The line of the ids of what was accepted last.
pub open spec fn recent_lines(r: Record, a: Accepted) -> Seq<Seq<char>> {
    let ids = recent_from(
        r.ledger,
        r.ledger.len(),
        approved_among(r.ledger, r.ledger.len()),
        taken_ids(a),
        Seq::empty(),
        0,
    );
    if ids.len() == 0 {
        Seq::empty()
    } else {
        seq!["RECENT ACCEPTED SEMANTIC IDS (do not re-emit): "@ + joined(ids, ","@)]
    }
}

fn recent_semantic_id_lines(record: &ResearchRecord, a: &AcceptedRecord) -> (r: Vec<String>)
    ensures
        r.deep_view() == recent_lines(record.deep_view(), a.deep_view()),
{
    let ledger = &record.ledger;
    let approved = accepted_proposal_ids(ledger);
    let known = semantic_ids(a);
    let mut ids: Vec<String> = Vec::new();
    let mut bytes: usize = 0;
    let mut n: usize = ledger.len();
    let ghost goal = recent_from(
        ledger.deep_view(),
        ledger@.len(),
        approved.deep_view(),
        known.deep_view(),
        Seq::empty(),
        0,
    );
    assert(ids.deep_view() =~= Seq::empty());
    assert(record.deep_view().ledger.len() == ledger@.len());
    let mut going = true;
    while n > 0 && going
        invariant
            n <= ledger@.len(),
            bytes <= MAX_RECENT_SEMANTIC_ID_BYTES,
            going ==> goal == recent_from(
                ledger.deep_view(),
                n as nat,
                approved.deep_view(),
                known.deep_view(),
                ids.deep_view(),
                bytes as nat,
            ),
            !going ==> goal == ids.deep_view(),
        decreases n,
    {
        n -= 1;
        assert(ledger.deep_view()[n as int] == ledger@[n as int].deep_view());
        if let LedgerEntry::Proposal { id, semantic } = &ledger[n] {
            let name = semantic.id();
            assert(ids.deep_view().len() == ids@.len());
            if holds(&approved, id) && holds(&known, name) && !holds(&ids, name) {
                let separator: usize = if ids.len() == 0 {
                    0
                } else {
                    1
                };
                let next = bytes.saturating_add(separator).saturating_add(byte_count(name));
                if ids.len() == MAX_RECENT_SEMANTIC_IDS || next > MAX_RECENT_SEMANTIC_ID_BYTES {
                    going = false;
                } else {
                    let ghost was = ids.deep_view();
                    bytes = next;
                    ids.push(name.clone());
                    assert(ids.deep_view() =~= was.push(name@));
                }
            }
        }
    }
    assert(ids.deep_view() == goal);
    assert(ids.deep_view().len() == ids@.len());
    let mut out: Vec<String> = Vec::new();
    if ids.len() > 0 {
        out.push(join2("RECENT ACCEPTED SEMANTIC IDS (do not re-emit): ", &join(&ids, ",")));
    }
    assert(out.deep_view() =~= recent_lines(record.deep_view(), a.deep_view()));
    out
}

/// The investigations that a thing is about.
pub open spec fn investigations_of(s: Semantic) -> Seq<Seq<char>> {
    match s {
        Semantic::Entity(e) => if e.kind == EntityKind::Investigation {
            seq![e.id]
        } else {
            Seq::empty()
        },
        Semantic::InvestigationOutcome(o) => seq![o.investigation_id],
        Semantic::Relation(r) => seq![r.from, r.to],
        Semantic::Assessment(_) => Seq::empty(),
    }
}

fn semantic_investigation_ids(s: &SemanticRecord) -> (r: Vec<String>)
    ensures
        r.deep_view() == investigations_of(s.deep_view()),
{
    let mut out: Vec<String> = Vec::new();
    match s {
        SemanticRecord::Entity(e) => {
            if e.kind == EntityKind::Investigation {
                out.push(e.id.clone());
            }
        },
        SemanticRecord::InvestigationOutcome(o) => {
            out.push(o.investigation_id.clone());
        },
        SemanticRecord::Relation(r) => {
            out.push(r.from.clone());
            out.push(r.to.clone());
        },
        SemanticRecord::Assessment(_) => {},
    }
    assert(out.deep_view() =~= investigations_of(s.deep_view()));
    out
}

/// The ids of the investigations among the first `n` entities.
pub open spec fn investigation_ids(entities: Seq<(Seq<char>, Entity)>, n: nat) -> Seq<Seq<char>>
    decreases n,
{
    if n == 0 {
        Seq::empty()
    } else {
        let rest = investigation_ids(entities, (n - 1) as nat);
        if entities[n - 1].1.kind == EntityKind::Investigation {
            rest.push(entities[n - 1].1.id)
        } else {
            rest
        }
    }
}

fn list_investigations(entities: &Vec<(String, ResearchEntity)>) -> (r: Vec<String>)
    ensures
        r.deep_view() == investigation_ids(entities.deep_view(), entities@.len()),
{
    let mut out: Vec<String> = Vec::new();
    let mut i: usize = 0;
    assert(out.deep_view() =~= Seq::empty());
    while i < entities.len()
        invariant
            i <= entities@.len(),
            out.deep_view() == investigation_ids(entities.deep_view(), i as nat),
        decreases entities@.len() - i,
    {
        let e = &entities[i].1;
        assert(entities.deep_view()[i as int].1 == e.deep_view());
        if e.kind == EntityKind::Investigation {
            let ghost was = out.deep_view();
            out.push(e.id.clone());
            assert(out.deep_view() =~= was.push(e.id@));
        }
        i += 1;
    }
    out
}

/// Positions, with those of the first `k` names that are investigations set to a new one.
pub open spec fn marked(
    names: Seq<Seq<char>>,
    known: Seq<Seq<char>>,
    position: usize,
    positions: Seq<(Seq<char>, usize)>,
    k: nat,
) -> Seq<(Seq<char>, usize)>
    decreases k,
{
    if k == 0 {
        positions
    } else {
        let rest = marked(names, known, position, positions, (k - 1) as nat);
        if known.contains(names[k - 1]) {
            put(rest, names[k - 1], position)
        } else {
            rest
        }
    }
}

/// The positions of the last of the first `n` entries that are about each investigation.
pub open spec fn positions_among(
    ledger: Seq<Entry>,
    approved: Seq<Seq<char>>,
    known: Seq<Seq<char>>,
    n: nat,
) -> Seq<(Seq<char>, usize)>
    decreases n,
{
    if n == 0 {
        Seq::empty()
    } else {
        let rest = positions_among(ledger, approved, known, (n - 1) as nat);
        match ledger[n - 1] {
            Entry::Proposal { id, semantic } => if approved.contains(id) {
                let names = investigations_of(semantic);
                marked(names, known, (n - 1) as usize, rest, names.len())
            } else {
                rest
            },
            Entry::Decision { id: _, proposal_id: _, outcome: _, policy: _, source_event_ids: _ } => rest,
        }
    }
}

fn mark(
    names: &Vec<String>,
    known: &Vec<String>,
    position: usize,
    positions: Vec<(String, usize)>,
) -> (r: Vec<(String, usize)>)
    ensures
        r.deep_view() == marked(
            names.deep_view(),
            known.deep_view(),
            position,
            positions.deep_view(),
            names@.len(),
        ),
{
    let ghost given = positions.deep_view();
    let mut out = positions;
    let mut k: usize = 0;
    while k < names.len()
        invariant
            k <= names@.len(),
            out.deep_view() == marked(
                names.deep_view(),
                known.deep_view(),
                position,
                given,
                k as nat,
            ),
        decreases names@.len() - k,
    {
        assert(names.deep_view()[k as int] == names@[k as int]@);
        if holds(known, &names[k]) {
            put_row(&mut out, &names[k], position);
        }
        k += 1;
    }
    out
}

/// Where the ledger last speaks of each investigation.
pub open spec fn positions_of(r: Record, a: Accepted) -> Seq<(Seq<char>, usize)> {
    positions_among(
        r.ledger,
        approved_among(r.ledger, r.ledger.len()),
        investigation_ids(a.entities, a.entities.len()),
        r.ledger.len(),
    )
}

fn latest_investigation_positions(record: &ResearchRecord, a: &AcceptedRecord) -> (r: Vec<
    (String, usize),
>)
    ensures
        r.deep_view() == positions_of(record.deep_view(), a.deep_view()),
{
    let ledger = &record.ledger;
    let approved = accepted_proposal_ids(ledger);
    let known = list_investigations(&a.entities);
    let mut out: Vec<(String, usize)> = Vec::new();
    let mut i: usize = 0;
    assert(out.deep_view() =~= Seq::empty());
    assert(record.deep_view().ledger.len() == ledger@.len());
    assert(a.deep_view().entities.len() == a.entities@.len());
    while i < ledger.len()
        invariant
            i <= ledger@.len(),
            out.deep_view() == positions_among(
                ledger.deep_view(),
                approved.deep_view(),
                known.deep_view(),
                i as nat,
            ),
        decreases ledger@.len() - i,
    {
        assert(ledger.deep_view()[i as int] == ledger@[i as int].deep_view());
        if let LedgerEntry::Proposal { id, semantic } = &ledger[i] {
            if holds(&approved, id) {
                let names = semantic_investigation_ids(semantic);
                assert(names.deep_view().len() == names@.len());
                out = mark(&names, &known, i, out);
            }
        }
        i += 1;
    }
    out
}

/// Whether an investigation is told before another: the ledger spoke of it later, or of both at
/// once and its id comes first. One that the ledger never spoke of comes last.
pub open spec fn told_before(positions: Seq<(Seq<char>, usize)>, a: Seq<char>, b: Seq<char>) -> bool {
    match (member(positions, a), member(positions, b)) {
        (Some(p), Some(q)) => p > q || (p == q && before(a, b)),
        (Some(_), None) => true,
        (None, Some(_)) => false,
        (None, None) => before(a, b),
    }
}

fn is_told_before(positions: &Vec<(String, usize)>, a: &str, b: &str) -> (r: bool)
    ensures
        r == told_before(positions.deep_view(), a@, b@),
{
    match find(positions, a) {
        Some(p) => match find(positions, b) {
            Some(q) => *p > *q || (*p == *q && precedes(a, b)),
            None => true,
        },
        None => match find(positions, b) {
            Some(_) => false,
            None => precedes(a, b),
        },
    }
}

/// Investigations in the order in which they are told, with one more behind all that do not come
/// after it.
pub open spec fn ranked(
    positions: Seq<(Seq<char>, usize)>,
    list: Seq<Seq<char>>,
    id: Seq<char>,
) -> Seq<Seq<char>>
    decreases list.len(),
{
    if list.len() == 0 || !told_before(positions, id, list.last()) {
        list.push(id)
    } else {
        ranked(positions, list.drop_last(), id).push(list.last())
    }
}

/// The first `n` investigations in the order in which they are told.
pub open spec fn in_told_order(
    positions: Seq<(Seq<char>, usize)>,
    list: Seq<Seq<char>>,
    n: nat,
) -> Seq<Seq<char>>
    decreases n,
{
    if n == 0 {
        Seq::empty()
    } else {
        ranked(positions, in_told_order(positions, list, (n - 1) as nat), list[n - 1])
    }
}

fn sort_told(positions: &Vec<(String, usize)>, list: &Vec<String>) -> (r: Vec<String>)
    ensures
        r.deep_view() == in_told_order(positions.deep_view(), list.deep_view(), list@.len()),
{
    let ghost p = positions.deep_view();
    let mut out: Vec<String> = Vec::new();
    let mut i: usize = 0;
    assert(out.deep_view() =~= Seq::empty());
    while i < list.len()
        invariant
            i <= list@.len(),
            p == positions.deep_view(),
            out.deep_view() == in_told_order(p, list.deep_view(), i as nat),
        decreases list@.len() - i,
    {
        let id = list[i].clone();
        let ghost name = id@;
        assert(list.deep_view()[i as int] == name);
        let ghost all = out.deep_view();
        let mut j: usize = out.len();
        assert(all.take(j as int) =~= all);
        assert(all.skip(j as int) =~= Seq::empty());
        assert(ranked(p, all, name) + Seq::<Seq<char>>::empty() =~= ranked(p, all, name));
        while j > 0 && is_told_before(positions, &id, &out[j - 1])
            invariant
                j <= out@.len(),
                p == positions.deep_view(),
                all == out.deep_view(),
                name == id@,
                ranked(p, all, name) == ranked(p, all.take(j as int), name) + all.skip(j as int),
            decreases j,
        {
            let ghost head = all.take(j as int);
            assert(head.last() == out@[j - 1]@);
            assert(head.drop_last() =~= all.take(j - 1));
            assert(all.skip(j - 1) =~= seq![head.last()] + all.skip(j as int));
            assert(ranked(p, all, name) =~= ranked(p, all.take(j - 1), name) + all.skip(j - 1));
            j -= 1;
        }
        proof {
            let head = all.take(j as int);
            if j > 0 {
                assert(head.last() == out@[j - 1]@);
            }
            assert(ranked(p, head, name) == head.push(name));
        }
        out.insert(j, id);
        assert(out.deep_view() =~= all.take(j as int).push(name) + all.skip(j as int));
        i += 1;
    }
    out
}

/// The line of an investigation.
pub open spec fn investigation_line(a: Accepted, id: Seq<char>) -> Seq<char> {
    let (outcome_id, outcome) = match latest_outcome(a, id) {
        Some(o) => (o.id, o.outcome.name()),
        None => ("-"@, "none"@),
    };
    let anchor = match lineage_anchor(a, id) {
        Some(anchor) => anchor,
        None => "-"@,
    };
    "CURRENT investigation="@ + id + " current_outcome_id="@ + outcome_id + " current_outcome="@
        + outcome + " productive="@ + (if productive(a, id) {
        "true"@
    } else {
        "false"@
    }) + " lineage_anchor="@ + anchor
}

fn render_investigation(a: &AcceptedRecord, id: &str) -> (r: String)
    ensures
        r@ == investigation_line(a.deep_view(), id@),
{
    let (outcome_id, outcome) = match a.latest_outcome_for(id) {
        Some(o) => (o.id.clone(), o.outcome.as_str()),
        None => ("-".to_owned(), "none"),
    };
    let anchor = match a.lineage_anchor_for(id) {
        Some(anchor) => anchor.clone(),
        None => "-".to_owned(),
    };
    let flag = if a.is_productive_investigation(id) {
        "true"
    } else {
        "false"
    };
    let start = join7(
        "CURRENT investigation=",
        id,
        " current_outcome_id=",
        &outcome_id,
        " current_outcome=",
        outcome,
        " productive=",
    );
    join2(&join3(&start, flag, " lineage_anchor="), &anchor)
}

/// The investigations in the order in which they are told.
pub open spec fn told_investigations(r: Record, a: Accepted) -> Seq<Seq<char>> {
    let ids = investigation_ids(a.entities, a.entities.len());
    in_told_order(positions_of(r, a), ids, ids.len())
}

/// The lines of the investigations.
pub open spec fn investigation_lines(r: Record, a: Accepted) -> Seq<Seq<char>> {
    let ids = told_investigations(r, a);
    Seq::new(
        super::lines::told(ids.len(), MAX_CURRENT_INVESTIGATIONS as nat),
        |i: int| investigation_line(a, ids[i]),
    )
}

fn current_investigation_lines(record: &ResearchRecord, a: &AcceptedRecord) -> (r: Vec<String>)
    ensures
        r.deep_view() == investigation_lines(record.deep_view(), a.deep_view()),
{
    let positions = latest_investigation_positions(record, a);
    let listed = list_investigations(&a.entities);
    assert(a.deep_view().entities.len() == a.entities@.len());
    assert(listed.deep_view().len() == listed@.len());
    let ids = sort_told(&positions, &listed);
    let mut out: Vec<String> = Vec::new();
    let mut i: usize = 0;
    while i < ids.len() && i < MAX_CURRENT_INVESTIGATIONS
        invariant
            i <= ids@.len(),
            i <= MAX_CURRENT_INVESTIGATIONS,
            out@.len() == i,
            forall|j: int|
                0 <= j < i ==> (#[trigger] out@[j])@ == investigation_line(
                    a.deep_view(),
                    ids@[j]@,
                ),
        decreases ids@.len() - i,
    {
        out.push(render_investigation(a, &ids[i]));
        i += 1;
    }
    assert(ids.deep_view() == told_investigations(record.deep_view(), a.deep_view()));
    assert(out.deep_view() =~= investigation_lines(record.deep_view(), a.deep_view()));
    out
}

/// All that could be told of a record, the most needed first.
pub open spec fn candidate_lines(r: Record, a: Accepted) -> Seq<Seq<char>> {
    let current = investigation_lines(r, a);
    recent_lines(r, a) + (if current.len() == 0 {
        Seq::empty()
    } else {
        seq!["CURRENT INVESTIGATION LEDGER:"@] + current
    }) + entity_lines(a.entities, true, a.entities.len()) + outcome_lines(a.outcomes)
        + relation_lines(a.relations) + entity_lines(a.entities, false, a.entities.len())
        + assessment_lines(a.assessments)
}

fn summary_candidates(record: &ResearchRecord, a: &AcceptedRecord) -> (r: Vec<String>)
    ensures
        r.deep_view() == candidate_lines(record.deep_view(), a.deep_view()),
{
    let ghost goal = candidate_lines(record.deep_view(), a.deep_view());
    let mut out = recent_semantic_id_lines(record, a);
    let ghost first = out.deep_view();
    let current = current_investigation_lines(record, a);
    assert(current.deep_view().len() == current@.len());
    assert(a.deep_view().entities.len() == a.entities@.len());
    let ghost second = if current@.len() == 0 {
        Seq::empty()
    } else {
        seq!["CURRENT INVESTIGATION LEDGER:"@] + current.deep_view()
    };
    if current.len() > 0 {
        out.push("CURRENT INVESTIGATION LEDGER:".to_owned());
        assert(out.deep_view() =~= first + seq!["CURRENT INVESTIGATION LEDGER:"@]);
        append_texts(&mut out, &current);
    }
    assert(out.deep_view() =~= first + second);
    append_texts(&mut out, &entity_summary_lines(&a.entities, true));
    append_texts(&mut out, &outcome_summary_lines(&a.outcomes));
    append_texts(&mut out, &relation_summary_lines(&a.relations));
    append_texts(&mut out, &entity_summary_lines(&a.entities, false));
    append_texts(&mut out, &assessment_summary_lines(&a.assessments));
    assert(out.deep_view() =~= goal);
    out
}

/// The lines from position `i` on that fit, until one does not.
pub open spec fn trimmed_from(lines: Seq<Seq<char>>, i: nat, used: nat, budget: nat) -> Seq<
    Seq<char>,
>
    decreases lines.len() - i,
{
    if i >= lines.len() {
        Seq::empty()
    } else {
        let next = used + byte_len(lines[i as int]) + 1;
        if next > budget {
            Seq::empty()
        } else {
            seq![lines[i as int]] + trimmed_from(lines, i + 1, next, budget)
        }
    }
}

fn trim_to_budget(lines: Vec<String>, budget: usize) -> (r: Vec<String>)
    requires
        budget < usize::MAX,
    ensures
        r.deep_view() == trimmed_from(lines.deep_view(), 0, 0, budget as nat),
{
    let ghost all = lines.deep_view();
    let mut out: Vec<String> = Vec::new();
    let mut used: usize = 0;
    let mut i: usize = 0;
    let ghost goal = trimmed_from(all, 0, 0, budget as nat);
    assert(out.deep_view() + goal =~= goal);
    assert(all.len() == lines@.len());
    while i < lines.len()
        invariant
            i <= lines@.len(),
            budget < usize::MAX,
            all == lines.deep_view(),
            all.len() == lines@.len(),
            goal == trimmed_from(all, 0, 0, budget as nat),
            goal == out.deep_view() + trimmed_from(all, i as nat, used as nat, budget as nat),
        decreases lines@.len() - i,
    {
        assert(all[i as int] == lines@[i as int]@);
        let next = used.saturating_add(byte_count(&lines[i])).saturating_add(1);
        if next > budget {
            assert(out.deep_view() =~= goal);
            return out;
        }
        let ghost was = out.deep_view();
        out.push(lines[i].clone());
        assert(out.deep_view() =~= was.push(all[i as int]));
        assert(goal =~= out.deep_view() + trimmed_from(
            all,
            (i + 1) as nat,
            next as nat,
            budget as nat,
        ));
        used = next;
        i += 1;
    }
    assert(out.deep_view() =~= goal);
    out
}

/// What an observer is told of a record, in so many bytes.
pub open spec fn record_summary(r: Record, budget: nat) -> Seq<Seq<char>> {
    match accepted_of(r.ledger) {
        Err(_) => seq!["accepted record could not be read"@],
        Ok(a) => trimmed_from(candidate_lines(r, a), 0, 0, budget),
    }
}

/// What an observer is told of a record, in so many bytes.
pub fn render_record_summary(record: &ResearchRecord, budget: usize) -> (r: Vec<String>)
    requires
        budget < usize::MAX,
    ensures
        r.deep_view() == record_summary(record.deep_view(), budget as nat),
{
    match record.accepted() {
        Err(_) => {
            let lines = vec!["accepted record could not be read".to_owned()];
            assert(lines.deep_view() =~= seq!["accepted record could not be read"@]);
            lines
        },
        Ok(a) => trim_to_budget(summary_candidates(record, &a), budget),
    }
}

/// The bytes of lines, with a line end behind each.
pub open spec fn lines_bytes(lines: Seq<Seq<char>>, n: nat) -> nat
    decreases n,
{
    if n == 0 {
        0
    } else {
        lines_bytes(lines, (n - 1) as nat) + byte_len(lines[n - 1]) + 1
    }
}

proof fn lemma_trimmed(lines: Seq<Seq<char>>, i: nat, used: nat, budget: nat)
    ensures
        ({
            let out = trimmed_from(lines, i, used, budget);
            used <= budget ==> used + lines_bytes(out, out.len()) <= budget
        }),
    decreases lines.len() - i,
{
    if i < lines.len() {
        let next = used + byte_len(lines[i as int]) + 1;
        if next <= budget {
            lemma_trimmed(lines, i + 1, next, budget);
            let rest = trimmed_from(lines, i + 1, next, budget);
            lemma_lines_bytes_front(lines[i as int], rest, rest.len());
        }
    }
}

proof fn lemma_lines_bytes_front(line: Seq<char>, rest: Seq<Seq<char>>, n: nat)
    requires
        n <= rest.len(),
    ensures
        lines_bytes(seq![line] + rest, n + 1) == byte_len(line) + 1 + lines_bytes(rest, n),
    decreases n,
{
    let all = seq![line] + rest;
    if n > 0 {
        lemma_lines_bytes_front(line, rest, (n - 1) as nat);
        assert(all[n as int] == rest[n - 1]);
    } else {
        assert(lines_bytes(all, 1) == lines_bytes(all, 0) + byte_len(all[0]) + 1);
    }
}

/// What an observer is told of a record that can be read keeps to its budget.
pub proof fn record_summaries_keep_to_their_budget(r: Record, budget: nat)
    requires
        accepted_of(r.ledger) is Ok,
    ensures
        lines_bytes(record_summary(r, budget), record_summary(r, budget).len()) <= budget,
{
    lemma_trimmed(candidate_lines(r, accepted_of(r.ledger)->Ok_0), 0, 0, budget);
}

proof fn lemma_approved(ledger: Seq<Entry>, n: nat, name: Seq<char>)
    requires
        n <= ledger.len(),
    ensures
        approved_among(ledger, n).contains(name) <==> exists|i: int|
            0 <= i < n && approves(#[trigger] ledger[i], name),
    decreases n,
{
    if n > 0 {
        let m = (n - 1) as nat;
        lemma_approved(ledger, m, name);
        let rest = approved_among(ledger, m);
        let all = approved_among(ledger, n);
        if rest.contains(name) {
            let k = choose|k: int| 0 <= k < rest.len() && rest[k] == name;
            assert(all[k] == name);
        }
        if all.len() > rest.len() {
            assert(all[rest.len() as int] == ledger[n - 1]->Decision_proposal_id);
        }
        if all.contains(name) {
            let k = choose|k: int| 0 <= k < all.len() && all[k] == name;
            if k < rest.len() {
                assert(rest[k] == name);
            }
        }
    }
}

/// Whether an entry accepts a proposal.
pub open spec fn approves(entry: Entry, name: Seq<char>) -> bool {
    entry is Decision && entry->Decision_outcome == DecisionOutcome::Accepted
        && entry->Decision_proposal_id == name
}

/// Whether an entry proposes something under a name, and the ledger accepts it.
pub open spec fn entered(ledger: Seq<Entry>, i: int, name: Seq<char>) -> bool {
    &&& ledger[i] is Proposal
    &&& ledger[i]->Proposal_semantic.id() == name
    &&& exists|j: int| 0 <= j < ledger.len() && approves(#[trigger] ledger[j], ledger[i]->Proposal_id)
}

/// Whether something was proposed under a name and accepted.
pub open spec fn was_entered(ledger: Seq<Entry>, name: Seq<char>) -> bool {
    exists|i: int| 0 <= i < ledger.len() && #[trigger] entered(ledger, i, name)
}

proof fn lemma_recent(
    ledger: Seq<Entry>,
    n: nat,
    known: Seq<Seq<char>>,
    ids: Seq<Seq<char>>,
    bytes: nat,
)
    requires
        n <= ledger.len(),
        ids.len() <= 24,
        forall|k: int|
            0 <= k < ids.len() ==> known.contains(#[trigger] ids[k]) && was_entered(ledger, ids[k]),
        ids.no_duplicates(),
    ensures
        ({
            let told = recent_from(
                ledger,
                n,
                approved_among(ledger, ledger.len()),
                known,
                ids,
                bytes,
            );
            &&& told.len() <= 24
            &&& told.no_duplicates()
            &&& forall|k: int|
                0 <= k < told.len() ==> known.contains(#[trigger] told[k]) && was_entered(
                    ledger,
                    told[k],
                )
        }),
    decreases n,
{
    if n > 0 {
        let m = (n - 1) as nat;
        match ledger[n - 1] {
            Entry::Decision { id: _, proposal_id: _, outcome: _, policy: _, source_event_ids: _ } => {
                lemma_recent(ledger, m, known, ids, bytes);
            },
            Entry::Proposal { id, semantic } => {
                let name = semantic.id();
                let next = bytes + byte_len(name) + if ids.len() == 0 {
                    0nat
                } else {
                    1nat
                };
                let approved = approved_among(ledger, ledger.len());
                lemma_approved(ledger, ledger.len(), id);
                if !approved.contains(id) || !known.contains(name) || ids.contains(name) {
                    lemma_recent(ledger, m, known, ids, bytes);
                } else if ids.len() < 24 && next <= MAX_RECENT_SEMANTIC_ID_BYTES {
                    assert(entered(ledger, n - 1, name));
                    assert(was_entered(ledger, name));
                    lemma_recent(ledger, m, known, ids.push(name), next);
                }
            },
        }
    }
}

/// What is told as recent was proposed and accepted, and stands in the record; each is told once,
/// and no more than twenty-four of them.
pub proof fn recent_names_were_accepted(r: Record, a: Accepted)
    ensures
        ({
            let told = recent_from(
                r.ledger,
                r.ledger.len(),
                approved_among(r.ledger, r.ledger.len()),
                taken_ids(a),
                Seq::empty(),
                0,
            );
            &&& told.len() <= 24
            &&& told.no_duplicates()
            &&& forall|k: int|
                0 <= k < told.len() ==> taken_ids(a).contains(#[trigger] told[k]) && was_entered(
                    r.ledger,
                    told[k],
                )
            &&& told.len() > 0 ==> recent_lines(r, a) == seq![
                "RECENT ACCEPTED SEMANTIC IDS (do not re-emit): "@ + joined(told, ","@),
            ]
            &&& told.len() == 0 ==> recent_lines(r, a).len() == 0
        }),
{
    lemma_recent(r.ledger, r.ledger.len(), taken_ids(a), Seq::empty(), 0);
}

proof fn lemma_told_before(positions: Seq<(Seq<char>, usize)>, a: Seq<char>, b: Seq<char>)
    ensures
        told_before(positions, a, b) ==> !told_before(positions, b, a),
{
    if before(a, b) && before(b, a) {
        crate::text::lemma_before_transitive(a, b, a);
        crate::text::lemma_before_irreflexive(a);
    }
}

/// Whether each investigation stands before one that was touched earlier: none follows one that it
/// should be told before.
pub open spec fn newest_first(
    positions: Seq<(Seq<char>, usize)>,
    list: Seq<Seq<char>>,
) -> bool {
    forall|i: int|
        0 <= i < list.len() - 1 ==> !told_before(positions, list[i + 1], #[trigger] list[i])
}

proof fn lemma_ranked(positions: Seq<(Seq<char>, usize)>, list: Seq<Seq<char>>, id: Seq<char>)
    requires
        newest_first(positions, list),
    ensures
        newest_first(positions, ranked(positions, list, id)),
        ranked(positions, list, id).len() == list.len() + 1,
        ranked(positions, list, id).last() == id || list.len() > 0 && ranked(
            positions,
            list,
            id,
        ).last() == list.last(),
    decreases list.len(),
{
    let out = ranked(positions, list, id);
    if list.len() == 0 || !told_before(positions, id, list.last()) {
        assert forall|i: int| 0 <= i < out.len() - 1 implies !told_before(
            positions,
            out[i + 1],
            #[trigger] out[i],
        ) by {
            if i < list.len() - 1 {
                assert(out[i] == list[i] && out[i + 1] == list[i + 1]);
            }
        }
    } else {
        let front = list.drop_last();
        assert forall|i: int| 0 <= i < front.len() - 1 implies !told_before(
            positions,
            front[i + 1],
            #[trigger] front[i],
        ) by {
            assert(front[i] == list[i] && front[i + 1] == list[i + 1]);
        }
        lemma_ranked(positions, front, id);
        lemma_told_before(positions, id, list.last());
        let rest = ranked(positions, front, id);
        if front.len() > 0 {
            assert(front.last() == list[list.len() - 2]);
            assert(!told_before(positions, list[list.len() - 2 + 1], list[list.len() - 2]));
        }
        assert forall|i: int| 0 <= i < out.len() - 1 implies !told_before(
            positions,
            out[i + 1],
            #[trigger] out[i],
        ) by {
            if i < rest.len() - 1 {
                assert(out[i] == rest[i] && out[i + 1] == rest[i + 1]);
            } else {
                assert(out[i] == rest.last() && out[i + 1] == list.last());
            }
        }
    }
}

proof fn lemma_in_told_order(positions: Seq<(Seq<char>, usize)>, list: Seq<Seq<char>>, n: nat)
    requires
        n <= list.len(),
    ensures
        newest_first(positions, in_told_order(positions, list, n)),
        in_told_order(positions, list, n).len() == n,
    decreases n,
{
    if n > 0 {
        lemma_in_told_order(positions, list, (n - 1) as nat);
        lemma_ranked(
            positions,
            in_told_order(positions, list, (n - 1) as nat),
            list[n - 1],
        );
    }
}

/// Investigations are told by when they were last touched, the latest first, and by name where
/// that is the same; one that was never touched comes last. All of them are in that order, and the
/// first thirty-two are told.
pub proof fn investigations_are_told_newest_first(
    r: Record,
    a: Accepted,
    positions: Seq<(Seq<char>, usize)>,
    x: Seq<char>,
    y: Seq<char>,
)
    ensures
        newest_first(positions_of(r, a), told_investigations(r, a)),
        told_investigations(r, a).len() == investigation_ids(a.entities, a.entities.len()).len(),
        investigation_lines(r, a).len() <= 32,
        investigation_lines(r, a).len() <= told_investigations(r, a).len(),
        member(positions, x) is Some && member(positions, y) is None ==> told_before(
            positions,
            x,
            y,
        ),
        member(positions, x) is Some && member(positions, y) is Some && member(positions, x)->0
            > member(positions, y)->0 ==> told_before(positions, x, y) && !told_before(
            positions,
            y,
            x,
        ),
        member(positions, x) == member(positions, y) ==> (told_before(positions, x, y) <==> before(
            x,
            y,
        )),
{
    let ids = investigation_ids(a.entities, a.entities.len());
    lemma_in_told_order(positions_of(r, a), ids, ids.len());
}

/// An investigation is told with its current outcome, whether it was productive, and where its
/// lineage is anchored.
pub proof fn investigations_are_told_as_they_stand(a: Accepted, id: Seq<char>)
    ensures
        ({
            let outcome = latest_outcome(a, id);
            let anchor = lineage_anchor(a, id);
            investigation_line(a, id) == "CURRENT investigation="@ + id + " current_outcome_id="@
                + (if outcome is Some {
                outcome->0.id
            } else {
                "-"@
            }) + " current_outcome="@ + (if outcome is Some {
                outcome->0.outcome.name()
            } else {
                "none"@
            }) + " productive="@ + (if productive(a, id) {
                "true"@
            } else {
                "false"@
            }) + " lineage_anchor="@ + (if anchor is Some {
                anchor->0
            } else {
                "-"@
            })
        }),
{
}

} // verus!
