//! The task of an observer: its rules, the record so far, and the new events.

use super::summary::{record_summary, render_record_summary};
use crate::event::{Event, EventEnvelope};
use crate::json::{json_text, write_json, Json, Members, Tree};
use crate::research_record::record::append_texts;
use crate::research_record::types::{Record, ResearchRecord};
use crate::sdk::{answers, input_error, ExtensionError, MAX_TASK_BYTES};
use crate::table::{copy_texts, find, join, joined, member};
use crate::text::{byte_count, byte_len, compact, compacted, join2, join3, join5};
use vstd::prelude::*;

verus! {

/// The most characters of what an event holds that are told.
pub const EVENT_EXTRACT_CHARS: usize = 240;

/// The bytes that are kept free for events.
pub const MIN_EVENT_CONTEXT_BYTES: usize = 3072;

pub const RULE_EVIDENCE: &'static str = "Observe only this pilot evidence. Do not solve, call tools, infer hidden reasoning, or add prose. Return exactly one proposal JSON object; every array is required. When an accepted record exists, a window with no new durable semantic change may return all arrays empty instead of duplicating recap material.";

pub const RULE_IDS: &'static str = "Use only NEW EVENT ids or ids in ACCEPTED RECORD. Every new semantic record cites at least one NEW EVENT.";

pub const RULE_COLLISIONS: &'static str = "RECENT ACCEPTED SEMANTIC IDS is a collision fence: omit any listed id instead of re-emitting it from overlapping or recap evidence.";

pub const RULE_INVESTIGATIONS: &'static str = "Each investigation has investigates(investigation,question); an attempt claim also has investigates(investigation,claim) or produces(investigation,claim). repairs/continues_from/pivots_from are successor→predecessor; decomposes is whole→component; produces is investigation→output.";

pub const RULE_LINEAGE: &'static str = "repairs/pivots_from require a predecessor whose latest accepted outcome is blocked or dead_end. continues_from requires an active/completed productive predecessor. For any lineage relation, cite its predecessor's listed lineage_anchor and a successor source; never change an outcome to force lineage—continue or omit it.";

pub const RULE_OUTCOMES: &'static str = "Outcomes append, never edit: first supersedes_outcome_id=null; a revision names the exact current_outcome_id from the CURRENT INVESTIGATION LEDGER. Claims use scoped assessments: proven only formal_proof; refuted only counterexample or formal_proof; a revision preserves exact claim and scope.";

pub const RULE_SYNTHESIS: &'static str = "Synthesis needs addresses(synthesis,question) plus two distinct integrates(synthesis,input); integrates never chooses its backbone parent.";

pub const RULE_FIELDS: &'static str = "FIELDS: entities {id,kind,title,summary,lifecycle,source_event_ids}; outcomes {id,investigation_id,outcome,summary,supersedes_outcome_id,source_event_ids}; relations {id,kind,from,to,summary,source_event_ids}; assessments {id,claim_id,scope,verdict,standard,summary,supersedes_assessment_id,source_event_ids}. No alias fields.";

pub const RULE_WORDS: &'static str = "ENUMS: kind=question|claim|investigation|observation|artifact|synthesis; lifecycle=draft|active|withdrawn|archived|null; outcome=active|blocked|dead_end|completed|abandoned; relation=investigates|produces|evidence_for|evidence_against|repairs|continues_from|pivots_from|decomposes|addresses|integrates; verdict=supported|corroborated|proven|refuted|inconclusive; standard=formal_proof|counterexample|derivation|experiment|replication|measurement|benchmark|simulation|computation|argument|review.";

pub const RULE_NEW_IDS: &'static str = "New ids use lowercase letters, digits, hyphens, or underscores.";

pub const RULE_SCHEMA: &'static str = "OUTPUT SCHEMA: {\"schema\":\"euler.research_record.proposals.v1\",\"entities\":[],\"outcomes\":[],\"relations\":[],\"assessments\":[]}";

/// The rules of an observer.
pub open spec fn rules() -> Seq<Seq<char>> {
    seq![
        RULE_EVIDENCE@,
        RULE_IDS@,
        RULE_COLLISIONS@,
        RULE_INVESTIGATIONS@,
        RULE_LINEAGE@,
        RULE_OUTCOMES@,
        RULE_SYNTHESIS@,
        RULE_FIELDS@,
        RULE_WORDS@,
        RULE_NEW_IDS@,
        RULE_SCHEMA@,
    ]
}

fn list_rules() -> (r: Vec<String>)
    ensures
        r.deep_view() == rules(),
{
    let lines = vec![
        RULE_EVIDENCE.to_owned(),
        RULE_IDS.to_owned(),
        RULE_COLLISIONS.to_owned(),
        RULE_INVESTIGATIONS.to_owned(),
        RULE_LINEAGE.to_owned(),
        RULE_OUTCOMES.to_owned(),
        RULE_SYNTHESIS.to_owned(),
        RULE_FIELDS.to_owned(),
        RULE_WORDS.to_owned(),
        RULE_NEW_IDS.to_owned(),
        RULE_SCHEMA.to_owned(),
    ];
    assert(lines.deep_view() =~= rules());
    lines
}

/// The bytes of lines, with a line end behind each, up to the `n`-th.
pub open spec fn header_bytes(lines: Seq<Seq<char>>, n: nat) -> nat
    decreases n,
{
    if n == 0 {
        0
    } else {
        header_bytes(lines, (n - 1) as nat) + byte_len(lines[n - 1]) + 1
    }
}

/// The bytes that a record may be told in behind given lines.
pub open spec fn summary_budget(header: Seq<Seq<char>>) -> nat {
    let fixed = header_bytes(header, header.len()) + byte_len("NEW EVENTS:"@) + 1
        + MIN_EVENT_CONTEXT_BYTES as nat;
    if fixed > MAX_TASK_BYTES {
        0
    } else {
        (MAX_TASK_BYTES - fixed) as nat
    }
}

/// At most the largest number of bytes.
spec fn capped(n: nat) -> nat {
    if n > usize::MAX {
        usize::MAX as nat
    } else {
        n
    }
}

fn record_summary_budget(header: &Vec<String>) -> (r: usize)
    ensures
        r == summary_budget(header.deep_view()),
        r <= MAX_TASK_BYTES,
{
    let mut bytes: usize = 0;
    let mut i: usize = 0;
    assert(header.deep_view().len() == header@.len());
    while i < header.len()
        invariant
            i <= header@.len(),
            bytes == capped(header_bytes(header.deep_view(), i as nat)),
        decreases header@.len() - i,
    {
        assert(header.deep_view()[i as int] == header@[i as int]@);
        bytes = bytes.saturating_add(byte_count(&header[i])).saturating_add(1);
        i += 1;
    }
    let fixed = bytes.saturating_add(byte_count("NEW EVENTS:")).saturating_add(1).saturating_add(
        MIN_EVENT_CONTEXT_BYTES,
    );
    if fixed > MAX_TASK_BYTES {
        0
    } else {
        MAX_TASK_BYTES - fixed
    }
}

/// The lines before the events.
pub open spec fn prefix_lines(record: Option<Record>) -> Seq<Seq<char>> {
    match record {
        Some(record) => {
            let header = rules().push("ACCEPTED RECORD (semantic context, not a prior graph):"@);
            header + record_summary(record, summary_budget(header))
        },
        None => rules().push(
            "No accepted record exists yet. Establish a source-backed question before adding investigations."@,
        ),
    }.push("NEW EVENTS:"@)
}

/// The lines before the events.
pub fn task_prefix(record: Option<&ResearchRecord>) -> (r: Vec<String>)
    ensures
        r.deep_view() == prefix_lines(record.deep_view()),
{
    let mut lines = list_rules();
    let ghost first = lines.deep_view();
    match record {
        Some(record) => {
            lines.push("ACCEPTED RECORD (semantic context, not a prior graph):".to_owned());
            assert(lines.deep_view() =~= first.push(
                "ACCEPTED RECORD (semantic context, not a prior graph):"@,
            ));
            let budget = record_summary_budget(&lines);
            let told = render_record_summary(record, budget);
            append_texts(&mut lines, &told);
        },
        None => {
            lines.push(
                "No accepted record exists yet. Establish a source-backed question before adding investigations.".to_owned(),
            );
            assert(lines.deep_view() =~= first.push(
                "No accepted record exists yet. Establish a source-backed question before adding investigations."@,
            ));
        },
    }
    let ghost second = lines.deep_view();
    lines.push("NEW EVENTS:".to_owned());
    assert(lines.deep_view() =~= second.push("NEW EVENTS:"@));
    lines
}

/// The members of an event that are told, the first that is there first.
pub open spec fn extract_keys() -> Seq<Seq<char>> {
    seq!["content"@, "output"@, "summary"@, "message"@, "command"@, "path"@]
}

/// What is told of a value, unless it is null.
pub open spec fn value_text(value: Tree) -> Option<Seq<char>> {
    match value {
        Tree::Text(text) => Some(text),
        Tree::Null => None,
        _ => Some(json_text(value)),
    }
}

/// What is told of the first of the keys from position `i` on that is there and not null.
pub open spec fn keyed_text(payload: Seq<(Seq<char>, Tree)>, i: nat) -> Option<Seq<char>>
    decreases extract_keys().len() - i,
{
    if i >= extract_keys().len() {
        None
    } else {
        match member(payload, extract_keys()[i as int]) {
            None => keyed_text(payload, i + 1),
            Some(value) => match value_text(value) {
                Some(text) => Some(text),
                None => keyed_text(payload, i + 1),
            },
        }
    }
}

/// What is told of an event: one of a few members, or else the first.
pub open spec fn extract(payload: Seq<(Seq<char>, Tree)>) -> Seq<char> {
    match keyed_text(payload, 0) {
        Some(text) => text,
        None => if payload.len() == 0 {
            Seq::empty()
        } else {
            payload[0].0 + "="@ + json_text(payload[0].1)
        },
    }
}

fn told_value(value: &Json) -> (r: Option<String>)
    ensures
        r.deep_view() == value_text(value@),
{
    match value {
        Json::Text(text) => Some(text.clone()),
        Json::Null => None,
        _ => Some(write_json(value)),
    }
}

fn event_extract(payload: &Members) -> (r: String)
    ensures
        r@ == extract(payload.deep_view()),
{
    let keys = vec!["content", "output", "summary", "message", "command", "path"];
    assert(keys.deep_view() =~= extract_keys());
    let mut i: usize = 0;
    while i < keys.len()
        invariant
            i <= keys@.len(),
            keys.deep_view() == extract_keys(),
            keys@.len() == extract_keys().len(),
            keyed_text(payload.deep_view(), 0) == keyed_text(payload.deep_view(), i as nat),
        decreases keys@.len() - i,
    {
        assert(keys.deep_view()[i as int] == keys@[i as int]@);
        if let Some(value) = find(payload, keys[i]) {
            if let Some(text) = told_value(value) {
                return text;
            }
        }
        i += 1;
    }
    assert(payload.deep_view().len() == payload@.len());
    if payload.len() == 0 {
        return String::new();
    }
    assert(payload.deep_view()[0] == (payload@[0].0@, payload@[0].1@));
    join3(&payload[0].0, "=", &write_json(&payload[0].1))
}

/// The line of an event.
pub open spec fn event_line(event: Event) -> Seq<char> {
    "EVENT id="@ + event.id + " kind="@ + event.kind + " data="@ + compacted(
        extract(event.payload),
        EVENT_EXTRACT_CHARS as nat,
    )
}

fn render_event_line(event: &EventEnvelope) -> (r: String)
    ensures
        r@ == event_line(event@),
{
    let data = compact(&event_extract(&event.payload), EVENT_EXTRACT_CHARS);
    let start = join5("EVENT id=", &event.id, " kind=", event.kind.as_str(), " data=");
    join2(&start, &data)
}

/// The lines of events.
pub open spec fn event_lines(events: Seq<Event>) -> Seq<Seq<char>> {
    Seq::new(events.len(), |i: int| event_line(events[i]))
}

fn render_event_lines(events: &Vec<EventEnvelope>) -> (r: Vec<String>)
    ensures
        r.deep_view() == event_lines(events.deep_view()),
{
    let mut out: Vec<String> = Vec::new();
    let mut i: usize = 0;
    while i < events.len()
        invariant
            i <= events@.len(),
            out@.len() == i,
            forall|j: int| 0 <= j < i ==> (#[trigger] out@[j])@ == event_line(events@[j]@),
        decreases events@.len() - i,
    {
        out.push(render_event_line(&events[i]));
        i += 1;
    }
    assert(out.deep_view() =~= event_lines(events.deep_view()));
    out
}

/// The line of an event, shortened.
pub open spec fn shortened(line: Seq<char>, extract: nat) -> Seq<char> {
    compacted(line, if byte_len(line) < 128 + extract { byte_len(line) } else { 128 + extract })
}

/// The text of a task: the lines before the events, and the first `count` events.
pub open spec fn task_text(
    prefix: Seq<Seq<char>>,
    lines: Seq<Seq<char>>,
    count: nat,
    extract: nat,
) -> Seq<char> {
    let told = if count < lines.len() {
        count
    } else {
        lines.len()
    };
    joined(prefix + Seq::new(told, |i: int| shortened(lines[i], extract)), "\n"@)
}

fn render_task(prefix: &Vec<String>, lines: &Vec<String>, count: usize, extract: usize) -> (r:
    String)
    requires
        extract <= EVENT_EXTRACT_CHARS,
    ensures
        r@ == task_text(prefix.deep_view(), lines.deep_view(), count as nat, extract as nat),
{
    let mut events: Vec<String> = Vec::new();
    let mut i: usize = 0;
    while i < lines.len() && i < count
        invariant
            i <= lines@.len(),
            i <= count,
            extract <= EVENT_EXTRACT_CHARS,
            events@.len() == i,
            forall|j: int|
                0 <= j < i ==> (#[trigger] events@[j])@ == shortened(lines@[j]@, extract as nat),
        decreases lines@.len() - i,
    {
        let bytes = byte_count(&lines[i]);
        let max: usize = if bytes < 128 + extract {
            bytes
        } else {
            128 + extract
        };
        events.push(compact(&lines[i], max));
        i += 1;
    }
    let mut all = copy_texts(prefix);
    append_texts(&mut all, &events);
    let ghost named = lines.deep_view();
    let ghost told = if count < named.len() {
        count as nat
    } else {
        named.len()
    };
    assert(events.deep_view() =~= Seq::new(told, |i: int| shortened(named[i], extract as nat)));
    join(&all, "\n")
}

/// Whether a task with the first `count` events fits.
pub open spec fn fits(prefix: Seq<Seq<char>>, lines: Seq<Seq<char>>, count: nat, extract: nat) -> bool {
    byte_len(task_text(prefix, lines, count, extract)) <= MAX_TASK_BYTES
}

/// The largest number of events up to `count` that fit, or none.
pub open spec fn fitting_count(prefix: Seq<Seq<char>>, lines: Seq<Seq<char>>, count: nat) -> nat
    decreases count,
{
    if count == 0 || fits(prefix, lines, count, EVENT_EXTRACT_CHARS as nat) {
        count
    } else {
        fitting_count(prefix, lines, (count - 1) as nat)
    }
}

/// A task of at most so many bytes, and how many of the events it tells.
pub open spec fn fitted_task(prefix: Seq<Seq<char>>, lines: Seq<Seq<char>>) -> Result<
    (Seq<char>, usize),
    Seq<char>,
> {
    let count = fitting_count(prefix, lines, lines.len());
    if !fits(prefix, lines, 1, 0) {
        Err(
            "research-record observer context cannot fit one source event; use a smaller record or add compaction"@,
        )
    } else if count == 0 {
        Err("research-record observer task cannot fit one source event"@)
    } else {
        Ok(
            (
                task_text(prefix, lines, count, EVENT_EXTRACT_CHARS as nat),
                count as usize,
            ),
        )
    }
}

/// A task of lines before the events and lines of events, and how many of the events it tells.
pub fn fit_lines(prefix: &Vec<String>, lines: &Vec<String>) -> (r: Result<
    (String, usize),
    ExtensionError,
>)
    ensures
        answers(r, fitted_task(prefix.deep_view(), lines.deep_view())),
        r matches Ok((text, count)) ==> byte_len(text@) <= MAX_TASK_BYTES && 0 < count
            <= lines@.len(),
{
    let ghost p = prefix.deep_view();
    let ghost l = lines.deep_view();
    assert(l.len() == lines@.len());
    if byte_count(&render_task(prefix, lines, 1, 0)) > MAX_TASK_BYTES {
        return Err(
            input_error(
                "research-record observer context cannot fit one source event; use a smaller record or add compaction",
            ),
        );
    }
    let mut count: usize = lines.len();
    let mut text = render_task(prefix, lines, count, EVENT_EXTRACT_CHARS);
    while count > 0 && byte_count(&text) > MAX_TASK_BYTES
        invariant
            count <= lines@.len(),
            p == prefix.deep_view(),
            l == lines.deep_view(),
            text@ == task_text(p, l, count as nat, EVENT_EXTRACT_CHARS as nat),
            fitting_count(p, l, l.len()) == fitting_count(p, l, count as nat),
        decreases count,
    {
        count -= 1;
        text = render_task(prefix, lines, count, EVENT_EXTRACT_CHARS);
    }
    if count == 0 {
        return Err(input_error("research-record observer task cannot fit one source event"));
    }
    Ok((text, count))
}

/// The task of an observer of a record and new events, and how many of the events it tells.
pub open spec fn task_of(record: Option<Record>, events: Seq<Event>) -> Result<
    (Seq<char>, usize),
    Seq<char>,
> {
    fitted_task(prefix_lines(record), event_lines(events))
}

/// The task of an observer of a record and new events, and how many of the events it tells.
pub fn fit_task(record: Option<&ResearchRecord>, events: &Vec<EventEnvelope>) -> (r: Result<
    (String, usize),
    ExtensionError,
>)
    ensures
        answers(r, task_of(record.deep_view(), events.deep_view())),
        r matches Ok((text, count)) ==> byte_len(text@) <= MAX_TASK_BYTES && 0 < count
            <= events@.len(),
{
    let prefix = task_prefix(record);
    let lines = render_event_lines(events);
    assert(lines.deep_view().len() == lines@.len());
    fit_lines(&prefix, &lines)
}

proof fn lemma_fitting_count(prefix: Seq<Seq<char>>, lines: Seq<Seq<char>>, count: nat, k: nat)
    requires
        fitting_count(prefix, lines, count) < k <= count,
    ensures
        !fits(prefix, lines, k, EVENT_EXTRACT_CHARS as nat),
    decreases count,
{
    if k < count {
        lemma_fitting_count(prefix, lines, (count - 1) as nat, k);
    }
}

/// A task tells as many events as fit: with any larger number of them it would be too long.
pub proof fn tasks_tell_as_many_events_as_fit(
    prefix: Seq<Seq<char>>,
    lines: Seq<Seq<char>>,
    k: nat,
)
    requires
        fitting_count(prefix, lines, lines.len()) < k <= lines.len(),
    ensures
        !fits(prefix, lines, k, EVENT_EXTRACT_CHARS as nat),
{
    lemma_fitting_count(prefix, lines, lines.len(), k);
}

/// An event is told by its id, its kind and the first of these that it holds: its content, its
/// output, its summary, its message, its command, its path. A text is told as it is, anything
/// else in JSON, and null is not told.
pub proof fn events_are_told_by_their_content(event: Event)
    ensures
        event_line(event) == "EVENT id="@ + event.id + " kind="@ + event.kind + " data="@
            + compacted(extract(event.payload), 240),
        member(event.payload, "content"@) matches Some(Tree::Text(t)) ==> extract(event.payload)
            == t,
        member(event.payload, "content"@) matches Some(v) ==> v is Text || v is Null || extract(
            event.payload,
        ) == json_text(v),
        member(event.payload, "content"@) is None ==> (member(
            event.payload,
            "output"@,
        ) matches Some(Tree::Text(t)) ==> extract(event.payload) == t),
        member(event.payload, "content"@) is None && member(event.payload, "output"@) is None ==> (
        member(event.payload, "summary"@) matches Some(Tree::Text(t)) ==> extract(event.payload)
            == t),
        member(event.payload, "content"@) is None && member(event.payload, "output"@) is None
            && member(event.payload, "summary"@) is None ==> (member(
            event.payload,
            "message"@,
        ) matches Some(Tree::Text(t)) ==> extract(event.payload) == t),
        member(event.payload, "content"@) is None && member(event.payload, "output"@) is None
            && member(event.payload, "summary"@) is None && member(event.payload, "message"@)
            is None ==> (member(event.payload, "command"@) matches Some(Tree::Text(t)) ==> extract(
            event.payload,
        ) == t),
        member(event.payload, "content"@) is None && member(event.payload, "output"@) is None
            && member(event.payload, "summary"@) is None && member(event.payload, "message"@)
            is None && member(event.payload, "command"@) is None ==> (member(
            event.payload,
            "path"@,
        ) matches Some(Tree::Text(t)) ==> extract(event.payload) == t),
        event.payload.len() == 0 ==> extract(event.payload).len() == 0,
{
    reveal_with_fuel(keyed_text, 7);
    let k = extract_keys();
    assert(k[0] == "content"@ && k[1] == "output"@ && k[2] == "summary"@ && k[3] == "message"@
        && k[4] == "command"@ && k[5] == "path"@);
}

/// Above the events stand the rules, and what is known: the record so far, or that there is none.
pub proof fn tasks_start_with_what_is_known(record: Option<Record>)
    ensures
        ({
            let lines = prefix_lines(record);
            let n = rules().len() as int;
            &&& lines.len() >= n + 2
            &&& lines.take(n) == rules()
            &&& lines.last() == "NEW EVENTS:"@
            &&& record is Some ==> lines[n]
                == "ACCEPTED RECORD (semantic context, not a prior graph):"@
            &&& record is None ==> lines.len() == n + 2 && lines[n]
                == "No accepted record exists yet. Establish a source-backed question before adding investigations."@
        }),
{
    assert(prefix_lines(record).take(rules().len() as int) =~= rules());
}

} // verus!
