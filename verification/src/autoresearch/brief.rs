//! The brief of the planner: the newest events that fit, and its instructions.

use crate::event::EventKind;
use crate::inputs::{optional_string, reject_unknown_fields, text_field, unknown_field};
use crate::json::{
    counted, json_text, optional_text, write_json, Json, Members, Numeral, NumberModel, Tree,
};
use crate::refresh::{parse_positive_number, positive_number};
use crate::sdk::{answers, input_error, ExtensionError, MAX_SYSTEM_PROMPT_BYTES, MAX_TASK_BYTES};
use crate::table::{join, joined};
use crate::text::{
    byte_count, byte_len, chars_of, control, is_control, join2, join3, join5, lemma_byte_len_add,
    lemma_byte_len_push, prefix, prefix_text, same, text_of,
};
use vstd::prelude::*;

verus! {

pub const OBJECTIVE_BRIEF_SCHEMA: &'static str = "euler.autoresearch.objective_brief.v1";

pub const OBJECTIVE_SCHEMA: &'static str = "euler.autoresearch.objective.v1";

pub const OBJECTIVE_PERSONA: &'static str = "autoresearch-planner";

pub const DEFAULT_BRIEF_LIMIT: u64 = 64;

pub const DEFAULT_REPORT_LIMIT: u64 = 128;

/// The tokens that the planner may spend, what it reads and what it writes together.
pub const DEFAULT_MAX_TOKENS: u64 = 24576;

/// The most characters of what an event holds that are told.
pub const EXTRACT_CHARS: usize = 240;

/// What the host is asked for.
#[derive(Clone, Debug, PartialEq, Eq)]
pub struct ObjectiveQuery {
    pub limit: u64,
    pub scan_limit: u64,
    pub after_event_id: Option<String>,
}

/// What an objective brief is asked of.
#[derive(Debug, PartialEq, Eq)]
pub struct ObjectiveBriefInput {
    pub limit: u64,
    pub scan_limit: Option<u64>,
    pub after_event_id: Option<String>,
    pub max_tokens: u64,
}

/// What an [`ObjectiveBriefInput`] holds.
#[verifier::ext_equal]
pub struct Asked {
    pub limit: u64,
    pub scan_limit: Option<u64>,
    pub after: Option<Seq<char>>,
    pub max_tokens: u64,
}

impl DeepView for ObjectiveBriefInput {
    type V = Asked;

    open spec fn deep_view(&self) -> Asked {
        Asked {
            limit: self.limit,
            scan_limit: self.scan_limit,
            after: self.after_event_id.deep_view(),
            max_tokens: self.max_tokens,
        }
    }
}

/// A positive number, or what stands for it where it is missing.
pub open spec fn number_or(o: Seq<(Seq<char>, Tree)>, field: Seq<char>, default: u64) -> Result<
    u64,
    Seq<char>,
> {
    match positive_number(o, field, Some(default)) {
        Err(e) => Err(e),
        Ok(Some(n)) => Ok(n),
        Ok(None) => Ok(default),
    }
}

pub fn parse_positive_u64(o: &Members, field: &str, default: u64) -> (r: Result<
    u64,
    ExtensionError,
>)
    ensures
        answers(r, number_or(o.deep_view(), field@, default)),
{
    match parse_positive_number(o, field, Some(default))? {
        Some(n) => Ok(n),
        None => Ok(default),
    }
}

/// The fields of an objective brief.
pub open spec fn brief_fields() -> Seq<Seq<char>> {
    seq!["limit"@, "scan_limit"@, "after_event_id"@, "max_tokens"@]
}

/// What an objective brief is asked of where nothing is said.
pub open spec fn default_brief() -> Asked {
    Asked {
        limit: DEFAULT_BRIEF_LIMIT,
        scan_limit: None,
        after: None,
        max_tokens: DEFAULT_MAX_TOKENS,
    }
}

/// What an objective brief is asked of.
pub open spec fn brief_asked(value: Tree) -> Result<Asked, Seq<char>> {
    match value {
        Tree::Null => Ok(default_brief()),
        Tree::Object(o) => match unknown_field(o, brief_fields(), 0) {
            Some(e) => Err(e),
            None => match number_or(o, "limit"@, DEFAULT_BRIEF_LIMIT) {
                Err(e) => Err(e),
                Ok(limit) => match positive_number(o, "scan_limit"@, None) {
                    Err(e) => Err(e),
                    Ok(scan_limit) => match text_field(o, "after_event_id"@) {
                        Err(e) => Err(e),
                        Ok(after) => match number_or(o, "max_tokens"@, DEFAULT_MAX_TOKENS) {
                            Err(e) => Err(e),
                            Ok(max_tokens) => Ok(
                                Asked { limit, scan_limit, after, max_tokens },
                            ),
                        },
                    },
                },
            },
        },
        _ => Err("autoresearch objective-brief input must be a JSON object"@),
    }
}

/// What the host is asked for, where it scans `default_scan_limit` events unless told otherwise.
pub open spec fn asks(
    q: ObjectiveQuery,
    limit: u64,
    scan_limit: Option<u64>,
    after: Option<Seq<char>>,
    default_scan_limit: u64,
) -> bool {
    &&& q.limit == limit
    &&& q.scan_limit == match scan_limit {
        Some(n) => n,
        None => default_scan_limit,
    }
    &&& q.after_event_id.deep_view() == after
}

impl Default for ObjectiveBriefInput {
    fn default() -> (r: Self)
        ensures
            r.deep_view() == default_brief(),
    {
        ObjectiveBriefInput {
            limit: DEFAULT_BRIEF_LIMIT,
            scan_limit: None,
            after_event_id: None,
            max_tokens: DEFAULT_MAX_TOKENS,
        }
    }
}

impl ObjectiveBriefInput {
    pub fn parse(value: &Json) -> (r: Result<Self, ExtensionError>)
        ensures
            answers(r, brief_asked(value@)),
    {
        broadcast use crate::json::object_model;

        let o = match value {
            Json::Null => {
                return Ok(ObjectiveBriefInput::default());
            },
            Json::Object(o) => o,
            _ => {
                return Err(
                    input_error("autoresearch objective-brief input must be a JSON object"),
                );
            },
        };
        let allowed = vec!["limit", "scan_limit", "after_event_id", "max_tokens"];
        assert(allowed.deep_view() =~= brief_fields());
        reject_unknown_fields(o, &allowed)?;
        let limit = parse_positive_u64(o, "limit", DEFAULT_BRIEF_LIMIT)?;
        let scan_limit = parse_positive_number(o, "scan_limit", None)?;
        let after_event_id = optional_string(o, "after_event_id")?;
        let max_tokens = parse_positive_u64(o, "max_tokens", DEFAULT_MAX_TOKENS)?;
        Ok(ObjectiveBriefInput { limit, scan_limit, after_event_id, max_tokens })
    }

    pub fn query(&self, default_scan_limit: u64) -> (r: ObjectiveQuery)
        ensures
            asks(
                r,
                self.limit,
                self.scan_limit,
                self.deep_view().after,
                default_scan_limit,
            ),
    {
        ObjectiveQuery {
            limit: self.limit,
            scan_limit: match self.scan_limit {
                Some(n) => n,
                None => default_scan_limit,
            },
            after_event_id: self.after_event_id.clone(),
        }
    }
}

/// The events of a page.
pub open spec fn events_of(page: Tree) -> Seq<Tree> {
    match page.list_at("events"@) {
        Some(events) => events,
        None => Seq::empty(),
    }
}

/// A text of a tree, or an empty one.
pub open spec fn text_or_empty(tree: Tree, name: Seq<char>) -> Seq<char> {
    match tree.text_at(name) {
        Some(text) => text,
        None => Seq::empty(),
    }
}

/// A text of a tree, or an empty one.
pub fn read_text(tree: &Json, name: &str) -> (r: String)
    ensures
        r@ == text_or_empty(tree@, name@),
{
    match tree.text_at(name) {
        Some(text) => text.clone(),
        None => String::new(),
    }
}

/// The text of the first of the keys from position `i` on that names one.
pub open spec fn first_text(payload: Tree, keys: Seq<Seq<char>>, i: nat) -> Seq<char>
    decreases keys.len() - i,
{
    if i >= keys.len() {
        Seq::empty()
    } else {
        match payload.text_at(keys[i as int]) {
            Some(text) => text,
            None => first_text(payload, keys, i + 1),
        }
    }
}

fn first_string(payload: &Json, keys: &Vec<&'static str>) -> (r: String)
    ensures
        r@ == first_text(payload@, keys.deep_view(), 0),
{
    let mut i: usize = 0;
    assert(keys.deep_view().len() == keys@.len());
    while i < keys.len()
        invariant
            i <= keys@.len(),
            keys.deep_view().len() == keys@.len(),
            first_text(payload@, keys.deep_view(), 0) == first_text(
                payload@,
                keys.deep_view(),
                i as nat,
            ),
        decreases keys@.len() - i,
    {
        assert(keys.deep_view()[i as int] == keys@[i as int]@);
        if let Some(text) = payload.text_at(keys[i]) {
            return text.clone();
        }
        i += 1;
    }
    String::new()
}

/// A part of what is told of an event: a text by its key.
pub open spec fn text_part(payload: Tree, key: Seq<char>) -> Seq<Seq<char>> {
    match payload.text_at(key) {
        Some(text) => seq![key + "="@ + text],
        None => Seq::empty(),
    }
}

/// A part of what is told of an event: a value by its key.
pub open spec fn value_part(payload: Tree, key: Seq<char>) -> Seq<Seq<char>> {
    match payload.get(key) {
        Some(value) => seq![key + "="@ + json_text(value)],
        None => Seq::empty(),
    }
}

/// A part of what is told of an event: the schema of its metadata.
pub open spec fn schema_part(payload: Tree) -> Seq<Seq<char>> {
    match payload.at("metadata"@).text_at("schema"@) {
        Some(schema) => seq!["schema="@ + schema],
        None => Seq::empty(),
    }
}

fn add_text_part(parts: &mut Vec<String>, payload: &Json, key: &str)
    ensures
        final(parts).deep_view() == old(parts).deep_view() + text_part(payload@, key@),
{
    let ghost was = parts.deep_view();
    if let Some(text) = payload.text_at(key) {
        parts.push(join3(key, "=", text));
    }
    assert(parts.deep_view() =~= was + text_part(payload@, key@));
}

fn add_value_part(parts: &mut Vec<String>, payload: &Json, key: &str)
    ensures
        final(parts).deep_view() == old(parts).deep_view() + value_part(payload@, key@),
{
    let ghost was = parts.deep_view();
    if let Some(value) = payload.get(key) {
        parts.push(join3(key, "=", &write_json(value)));
    }
    assert(parts.deep_view() =~= was + value_part(payload@, key@));
}

fn add_schema_part(parts: &mut Vec<String>, payload: &Json)
    ensures
        final(parts).deep_view() == old(parts).deep_view() + schema_part(payload@),
{
    let ghost was = parts.deep_view();
    if let Some(metadata) = payload.get("metadata") {
        if let Some(schema) = metadata.text_at("schema") {
            parts.push(join2("schema=", schema));
        }
    }
    assert(parts.deep_view() =~= was + schema_part(payload@));
}

/// The parts of what is told of an event, by its kind; none for a kind that is told otherwise.
pub open spec fn parts_of(kind: Seq<char>, payload: Tree) -> Option<Seq<Seq<char>>> {
    if kind == EventKind::TOOL_CALL@ {
        Some(text_part(payload, "name"@) + value_part(payload, "input"@))
    } else if kind == EventKind::TOOL_RESULT@ {
        Some(
            text_part(payload, "name"@) + value_part(payload, "ok"@) + text_part(
                payload,
                "error"@,
            ) + text_part(payload, "output"@),
        )
    } else if kind == EventKind::CHECK_STARTED@ || kind == EventKind::CHECK_RESULT@ {
        Some(
            text_part(payload, "name"@) + value_part(payload, "ok"@) + text_part(
                payload,
                "command"@,
            ) + text_part(payload, "output"@) + text_part(payload, "error"@),
        )
    } else if kind == EventKind::EXTENSION_ARTIFACT@ {
        Some(
            text_part(payload, "extension_id"@) + text_part(payload, "media_type"@)
                + schema_part(payload),
        )
    } else {
        None
    }
}

/// What is told of an event.
pub open spec fn extract(kind: Seq<char>, payload: Tree) -> Seq<char> {
    if kind == EventKind::USER_MESSAGE@ || kind == EventKind::ASSISTANT_MESSAGE@ || kind
        == EventKind::ASSISTANT_ACTIVITY@ {
        first_text(payload, seq!["content"@, "summary"@, "message"@], 0)
    } else if kind == EventKind::PLAN_UPDATE@ {
        first_text(payload, seq!["content"@, "summary"@, "plan"@], 0)
    } else {
        match parts_of(kind, payload) {
            Some(parts) => joined(parts, " "@),
            None => json_text(payload),
        }
    }
}

fn list_parts(kind: &str, payload: &Json) -> (r: Option<Vec<String>>)
    ensures
        match r {
            Some(parts) => parts_of(kind@, payload@) == Some(parts.deep_view()),
            None => parts_of(kind@, payload@) is None,
        },
{
    let mut parts: Vec<String> = Vec::new();
    assert(parts.deep_view() =~= Seq::empty());
    if same(kind, EventKind::TOOL_CALL) {
        add_text_part(&mut parts, payload, "name");
        add_value_part(&mut parts, payload, "input");
        assert(parts.deep_view() =~= parts_of(kind@, payload@)->0);
        Some(parts)
    } else if same(kind, EventKind::TOOL_RESULT) {
        add_text_part(&mut parts, payload, "name");
        add_value_part(&mut parts, payload, "ok");
        add_text_part(&mut parts, payload, "error");
        add_text_part(&mut parts, payload, "output");
        assert(parts.deep_view() =~= parts_of(kind@, payload@)->0);
        Some(parts)
    } else if same(kind, EventKind::CHECK_STARTED) || same(kind, EventKind::CHECK_RESULT) {
        add_text_part(&mut parts, payload, "name");
        add_value_part(&mut parts, payload, "ok");
        add_text_part(&mut parts, payload, "command");
        add_text_part(&mut parts, payload, "output");
        add_text_part(&mut parts, payload, "error");
        assert(parts.deep_view() =~= parts_of(kind@, payload@)->0);
        Some(parts)
    } else if same(kind, EventKind::EXTENSION_ARTIFACT) {
        add_text_part(&mut parts, payload, "extension_id");
        add_text_part(&mut parts, payload, "media_type");
        add_schema_part(&mut parts, payload);
        assert(parts.deep_view() =~= parts_of(kind@, payload@)->0);
        Some(parts)
    } else {
        None
    }
}

fn payload_extract(kind: &str, payload: &Json) -> (r: String)
    ensures
        r@ == extract(kind@, payload@),
{
    if same(kind, EventKind::USER_MESSAGE) || same(kind, EventKind::ASSISTANT_MESSAGE) || same(
        kind,
        EventKind::ASSISTANT_ACTIVITY,
    ) {
        let keys = vec!["content", "summary", "message"];
        assert(keys.deep_view() =~= seq!["content"@, "summary"@, "message"@]);
        return first_string(payload, &keys);
    }
    if same(kind, EventKind::PLAN_UPDATE) {
        let keys = vec!["content", "summary", "plan"];
        assert(keys.deep_view() =~= seq!["content"@, "summary"@, "plan"@]);
        return first_string(payload, &keys);
    }
    match list_parts(kind, payload) {
        Some(parts) => join(&parts, " "),
        None => write_json(payload),
    }
}

/// A text with a space in the place of each control character.
pub open spec fn normalized(s: Seq<char>) -> Seq<char> {
    Seq::new(s.len(), |i: int| if is_control(s[i]) { ' ' } else { s[i] })
}

fn normalize_extract(value: &str) -> (r: String)
    ensures
        r@ == normalized(value@),
{
    let v = chars_of(value);
    let mut out: Vec<char> = Vec::new();
    let mut i: usize = 0;
    while i < v.len()
        invariant
            i <= v@.len(),
            out@.len() == i,
            forall|j: int|
                0 <= j < i ==> out@[j] == (if is_control(v@[j]) {
                    ' '
                } else {
                    v@[j]
                }),
        decreases v@.len() - i,
    {
        if control(v[i]) {
            out.push(' ');
        } else {
            out.push(v[i]);
        }
        i += 1;
    }
    assert(out@ =~= normalized(value@));
    text_of(&out)
}

/// The line of an event.
pub open spec fn event_line(event: Tree) -> Seq<char> {
    let kind = text_or_empty(event, "kind"@);
    text_or_empty(event, "id"@) + " "@ + kind + " "@ + prefix(
        normalized(extract(kind, event.at("payload"@))),
        EXTRACT_CHARS as nat,
    )
}

fn render_event_line(event: &Json) -> (r: String)
    ensures
        r@ == event_line(event@),
{
    let id = read_text(event, "id");
    let kind = read_text(event, "kind");
    let told = match event.get("payload") {
        Some(payload) => payload_extract(&kind, payload),
        None => payload_extract(&kind, &Json::Null),
    };
    let told = prefix_text(&normalize_extract(&told), EXTRACT_CHARS);
    join5(&id, " ", &kind, " ", &told)
}

/// The lines of events.
pub open spec fn event_lines(events: Seq<Tree>) -> Seq<Seq<char>> {
    Seq::new(events.len(), |i: int| event_line(events[i]))
}

fn render_event_lines(events: &Vec<Json>) -> (r: Vec<String>)
    ensures
        r.deep_view() == event_lines(events.deep_view()),
{
    let mut out: Vec<String> = Vec::new();
    let mut i: usize = 0;
    while i < events.len()
        invariant
            i <= events@.len(),
            out@.len() == i,
            forall|j: int| 0 <= j < i ==> (#[trigger] out@[j])@ == event_line(events@[j]@),
        decreases events@.len() - i,
    {
        out.push(render_event_line(&events[i]));
        i += 1;
    }
    assert(out.deep_view() =~= event_lines(events.deep_view()));
    out
}

pub const TASK_RULE: &'static str = "Choose the next repo-directed research objective from these Euler events.";

pub const CITATION_RULE: &'static str = "Cite only listed event ids in evidence_refs.";

/// The bytes that are left for events.
pub open spec fn event_budget() -> nat {
    let header = byte_len(TASK_RULE@) + byte_len(CITATION_RULE@) + 2;
    if header > MAX_TASK_BYTES {
        0
    } else {
        (MAX_TASK_BYTES - header) as nat
    }
}

/// How many of the first `n` lines fit, counted from the last on until one does not.
pub open spec fn kept_count(lines: Seq<Seq<char>>, n: nat, used: nat) -> nat
    decreases n,
{
    if n == 0 || used + byte_len(lines[n - 1]) + 1 > event_budget() {
        0
    } else {
        1 + kept_count(lines, (n - 1) as nat, used + byte_len(lines[n - 1]) + 1)
    }
}

/// The text of a task with the last `count` lines.
pub open spec fn task_text(lines: Seq<Seq<char>>, count: nat) -> Seq<char> {
    joined(seq![TASK_RULE@, CITATION_RULE@] + lines.skip(lines.len() - count), "\n"@)
}

/// A task with the newest events that fit, and how many are left out.
pub open spec fn task_of(lines: Seq<Seq<char>>) -> Result<(Seq<char>, usize), Seq<char>> {
    let count = kept_count(lines, lines.len(), 0);
    if count == 0 {
        Err("objective-brief window has no event line that fits the task budget"@)
    } else {
        Ok((task_text(lines, count), (lines.len() - count) as usize))
    }
}

/// A task with the newest of the lines that fit, and how many are left out.
pub fn fit_task(lines: &Vec<String>) -> (r: Result<(String, usize), ExtensionError>)
    ensures
        answers(r, task_of(lines.deep_view())),
        r matches Ok((_, omitted)) ==> omitted < lines@.len(),
{
    let ghost all = lines.deep_view();
    assert(all.len() == lines@.len());
    let header = byte_count(TASK_RULE).saturating_add(byte_count(CITATION_RULE)).saturating_add(
        2,
    );
    let budget: usize = if header > MAX_TASK_BYTES {
        0
    } else {
        MAX_TASK_BYTES - header
    };
    assert(budget == event_budget());
    let mut from: usize = lines.len();
    let mut used: usize = 0;
    let mut going = true;
    while from > 0 && going
        invariant
            from <= lines@.len(),
            all == lines.deep_view(),
            all.len() == lines@.len(),
            budget == event_budget(),
            budget <= MAX_TASK_BYTES,
            used <= budget,
            going ==> kept_count(all, all.len(), 0) == (all.len() - from) + kept_count(
                all,
                from as nat,
                used as nat,
            ),
            !going ==> kept_count(all, all.len(), 0) == all.len() - from,
        decreases from, if going { 1int } else { 0int },
    {
        assert(all[from - 1] == lines@[from - 1]@);
        let next = used.saturating_add(byte_count(&lines[from - 1])).saturating_add(1);
        if next > budget {
            going = false;
        } else {
            used = next;
            from -= 1;
        }
    }
    assert(kept_count(all, all.len(), 0) == all.len() - from);
    if from == lines.len() {
        return Err(
            input_error("objective-brief window has no event line that fits the task budget"),
        );
    }
    let mut kept = vec![TASK_RULE.to_owned(), CITATION_RULE.to_owned()];
    let ghost head = seq![TASK_RULE@, CITATION_RULE@];
    assert(kept.deep_view() =~= head);
    let mut i: usize = from;
    while i < lines.len()
        invariant
            from <= i <= lines@.len(),
            all == lines.deep_view(),
            all.len() == lines@.len(),
            kept.deep_view() == head + all.subrange(from as int, i as int),
        decreases lines@.len() - i,
    {
        let ghost was = kept.deep_view();
        assert(all[i as int] == lines@[i as int]@);
        kept.push(lines[i].clone());
        assert(kept.deep_view() =~= was.push(all[i as int]));
        assert(all.subrange(from as int, i + 1) =~= all.subrange(from as int, i as int).push(
            all[i as int],
        ));
        assert(kept.deep_view() =~= head + all.subrange(from as int, i + 1));
        i += 1;
    }
    assert(all.subrange(from as int, all.len() as int) =~= all.skip(from as int));
    Ok((join(&kept, "\n"), from))
}

/// The task of events, and how many are left out.
pub fn objective_task(events: &Vec<Json>) -> (r: Result<(String, usize), ExtensionError>)
    ensures
        answers(r, task_of(event_lines(events.deep_view()))),
        r matches Ok((_, omitted)) ==> omitted < events@.len(),
{
    let lines = render_event_lines(events);
    assert(lines.deep_view().len() == lines@.len());
    fit_task(&lines)
}

pub const PROMPT_ROLE: &'static str = "You are the Autoresearch planner for Euler.";

pub const PROMPT_FORM: &'static str = "Return exactly one raw JSON object. Do not use markdown fences.";

pub const PROMPT_SCHEMA: &'static str = "Use schema euler.autoresearch.objective.v1 and this exact top-level shape:";

pub const PROMPT_SHAPE: &'static str = "{\"schema\":\"euler.autoresearch.objective.v1\",\"objectives\":[],\"dead_ends_to_avoid\":[],\"recommended_objective_id\":\"objective-id\",\"confidence\":{\"level\":\"medium\",\"score\":0.5}}";

pub const PROMPT_OBJECTIVES: &'static str = "Each objective has: id, title, rationale, evidence_refs, expected_outcome, acceptance_checks.";

pub const PROMPT_DEAD_ENDS: &'static str = "Each dead_ends_to_avoid item has: summary, evidence_refs.";

pub const PROMPT_EVIDENCE: &'static str = "Each evidence ref has exactly: event_id, payload_pointer.";

pub const PROMPT_CITATIONS: &'static str = "Every evidence_ref.event_id must be one of the event ids listed in the task.";

pub const PROMPT_HONESTY: &'static str = "Do not invent event ids, payload pointers, files, web facts, literature facts, or tools.";

pub const PROMPT_POINTERS: &'static str = "Use JSON Pointers against the event object, usually /payload/content, /payload/output, or /payload/error.";

pub const PROMPT_SCOPE: &'static str = "Objectives must be repo-directed next work for the current Euler session.";

pub const PROMPT_CHECKS: &'static str = "Acceptance checks must be concrete commands, inspections, or review steps the operator can run.";

pub const PROMPT_CHOICE: &'static str = "Set recommended_objective_id to one objective id from objectives.";

pub const PROMPT_CONFIDENCE: &'static str = "Confidence level is high, medium, or low; score is 0.0 through 1.0.";

/// The lines of the instructions.
pub open spec fn prompt_lines() -> Seq<Seq<char>> {
    seq![
        PROMPT_ROLE@,
        PROMPT_FORM@,
        PROMPT_SCHEMA@,
        PROMPT_SHAPE@,
        PROMPT_OBJECTIVES@,
        PROMPT_DEAD_ENDS@,
        PROMPT_EVIDENCE@,
        PROMPT_CITATIONS@,
        PROMPT_HONESTY@,
        PROMPT_POINTERS@,
        PROMPT_SCOPE@,
        PROMPT_CHECKS@,
        PROMPT_CHOICE@,
        PROMPT_CONFIDENCE@,
    ]
}

/// The instructions, unless they are too long.
pub open spec fn prompt() -> Result<Seq<char>, Seq<char>> {
    if byte_len(joined(prompt_lines(), "\n"@)) > MAX_SYSTEM_PROMPT_BYTES {
        Err("objective system_prompt exceeds 8192 bytes"@)
    } else {
        Ok(joined(prompt_lines(), "\n"@))
    }
}

/// The instructions of the planner.
pub fn objective_system_prompt() -> (r: Result<String, ExtensionError>)
    ensures
        answers(r, prompt()),
{
    let lines = vec![
        PROMPT_ROLE.to_owned(),
        PROMPT_FORM.to_owned(),
        PROMPT_SCHEMA.to_owned(),
        PROMPT_SHAPE.to_owned(),
        PROMPT_OBJECTIVES.to_owned(),
        PROMPT_DEAD_ENDS.to_owned(),
        PROMPT_EVIDENCE.to_owned(),
        PROMPT_CITATIONS.to_owned(),
        PROMPT_HONESTY.to_owned(),
        PROMPT_POINTERS.to_owned(),
        PROMPT_SCOPE.to_owned(),
        PROMPT_CHECKS.to_owned(),
        PROMPT_CHOICE.to_owned(),
        PROMPT_CONFIDENCE.to_owned(),
    ];
    assert(lines.deep_view() =~= prompt_lines());
    let prompt = join(&lines, "\n");
    if byte_count(&prompt) > MAX_SYSTEM_PROMPT_BYTES {
        return Err(input_error("objective system_prompt exceeds 8192 bytes"));
    }
    Ok(prompt)
}

/// An optional number as JSON holds it.
pub open spec fn optional_number(n: Option<u64>) -> Tree {
    match n {
        Some(n) => number(n),
        None => Tree::Null,
    }
}

/// A number as JSON holds it.
pub open spec fn number(n: u64) -> Tree {
    Tree::Number(NumberModel::Positive(n))
}

/// The window of a brief.
pub open spec fn window_tree(b: Asked, watermark: Seq<char>, page: Tree) -> Tree {
    Tree::Object(
        seq![
            ("after_event_id"@, optional_text(b.after)),
            ("applied_limit"@, page.at("applied_limit"@)),
            ("applied_scan_limit"@, page.at("applied_scan_limit"@)),
            ("limit"@, number(b.limit)),
            ("next_after_event_id"@, page.at("next_after_event_id"@)),
            ("scan_limit"@, optional_number(b.scan_limit)),
            ("scanned_events"@, page.at("scanned_events"@)),
            ("truncated"@, page.at("truncated"@)),
            ("watermark_event_id"@, Tree::Text(watermark)),
        ],
    )
}

/// What the planner may spend.
pub open spec fn budget_tree(b: Asked) -> Tree {
    Tree::Object(
        seq![
            ("max_tokens"@, number(b.max_tokens)),
            ("max_tool_calls"@, number(0)),
            ("max_turns"@, number(1)),
        ],
    )
}

/// A brief.
pub open spec fn brief_tree(
    b: Asked,
    task: Seq<char>,
    prompt: Seq<char>,
    watermark: Seq<char>,
    page: Tree,
    listed: nat,
    omitted: nat,
) -> Tree {
    Tree::Object(
        seq![
            ("budget"@, budget_tree(b)),
            ("capabilities"@, Tree::List(Seq::empty())),
            ("listed_event_count"@, counted(listed)),
            ("model"@, Tree::Text(Seq::empty())),
            ("objective_window"@, window_tree(b, watermark, page)),
            ("omitted_event_count"@, counted(omitted)),
            ("persona"@, Tree::Text(OBJECTIVE_PERSONA@)),
            ("provider"@, Tree::Text(Seq::empty())),
            ("schema"@, Tree::Text(OBJECTIVE_BRIEF_SCHEMA@)),
            ("system_prompt"@, Tree::Text(prompt)),
            ("task"@, Tree::Text(task)),
            ("watermark_event_id"@, Tree::Text(watermark)),
        ],
    )
}

/// The event that the window of a brief ends at: the one that the page names, or its last.
pub open spec fn watermark_of(page: Tree) -> Seq<char> {
    match page.text_at("watermark_event_id"@) {
        Some(id) => id,
        None => text_or_empty(events_of(page).last(), "id"@),
    }
}

/// The brief of a page.
pub open spec fn objective_brief(b: Asked, page: Tree) -> Result<Tree, Seq<char>> {
    let events = events_of(page);
    if events.len() == 0 {
        Err("autoresearch objective-brief found no events in bounded provenance window"@)
    } else {
        match task_of(event_lines(events)) {
            Err(e) => Err(e),
            Ok((task, omitted)) => match prompt() {
                Err(e) => Err(e),
                Ok(prompt) => Ok(
                    brief_tree(
                        b,
                        task,
                        prompt,
                        watermark_of(page),
                        page,
                        (events.len() - omitted) as nat,
                        omitted as nat,
                    ),
                ),
            },
        }
    }
}

/// A member of a tree, or null.
pub fn member_or_null(tree: &Json, name: &str) -> (r: Json)
    ensures
        r@ == tree@.at(name@),
{
    match tree.get(name) {
        Some(value) => value.clone(),
        None => Json::Null,
    }
}

fn window_value(b: &ObjectiveBriefInput, watermark: &str, page: &Json) -> (r: Json)
    ensures
        r@ == window_tree(b.deep_view(), watermark@, page@),
{
    broadcast use crate::json::object_model;

    let scan_limit = match b.scan_limit {
        Some(n) => Json::Number(Numeral::Positive(n)),
        None => Json::Null,
    };
    let rows = vec![
        ("after_event_id".to_owned(), Json::of_optional_text(&b.after_event_id)),
        ("applied_limit".to_owned(), member_or_null(page, "applied_limit")),
        ("applied_scan_limit".to_owned(), member_or_null(page, "applied_scan_limit")),
        ("limit".to_owned(), Json::Number(Numeral::Positive(b.limit))),
        ("next_after_event_id".to_owned(), member_or_null(page, "next_after_event_id")),
        ("scan_limit".to_owned(), scan_limit),
        ("scanned_events".to_owned(), member_or_null(page, "scanned_events")),
        ("truncated".to_owned(), member_or_null(page, "truncated")),
        ("watermark_event_id".to_owned(), Json::of_text(watermark)),
    ];
    assert(rows.deep_view() =~= window_tree(b.deep_view(), watermark@, page@)->Object_0);
    Json::Object(rows)
}

fn budget_value(b: &ObjectiveBriefInput) -> (r: Json)
    ensures
        r@ == budget_tree(b.deep_view()),
{
    broadcast use crate::json::object_model;

    let rows = vec![
        ("max_tokens".to_owned(), Json::Number(Numeral::Positive(b.max_tokens))),
        ("max_tool_calls".to_owned(), Json::Number(Numeral::Positive(0))),
        ("max_turns".to_owned(), Json::Number(Numeral::Positive(1))),
    ];
    assert(rows.deep_view() =~= budget_tree(b.deep_view())->Object_0);
    Json::Object(rows)
}

fn objective_brief_output(
    b: &ObjectiveBriefInput,
    task: &str,
    prompt: &str,
    watermark: &str,
    page: &Json,
    listed: usize,
    omitted: usize,
) -> (r: Json)
    ensures
        r@ == brief_tree(
            b.deep_view(),
            task@,
            prompt@,
            watermark@,
            page@,
            listed as nat,
            omitted as nat,
        ),
{
    broadcast use {crate::json::object_model, crate::json::list_model};

    let none: Vec<Json> = Vec::new();
    assert(none.deep_view() =~= Seq::empty());
    let empty = String::new();
    let rows = vec![
        ("budget".to_owned(), budget_value(b)),
        ("capabilities".to_owned(), Json::List(none)),
        ("listed_event_count".to_owned(), Json::of_count(listed)),
        ("model".to_owned(), Json::of_text(&empty)),
        ("objective_window".to_owned(), window_value(b, watermark, page)),
        ("omitted_event_count".to_owned(), Json::of_count(omitted)),
        ("persona".to_owned(), Json::of_text(OBJECTIVE_PERSONA)),
        ("provider".to_owned(), Json::of_text(&empty)),
        ("schema".to_owned(), Json::of_text(OBJECTIVE_BRIEF_SCHEMA)),
        ("system_prompt".to_owned(), Json::of_text(prompt)),
        ("task".to_owned(), Json::of_text(task)),
        ("watermark_event_id".to_owned(), Json::of_text(watermark)),
    ];
    assert(rows.deep_view() =~= brief_tree(
        b.deep_view(),
        task@,
        prompt@,
        watermark@,
        page@,
        listed as nat,
        omitted as nat,
    )->Object_0);
    Json::Object(rows)
}

/// The brief of a page.
pub fn build_objective_brief(input: &ObjectiveBriefInput, page: &Json) -> (r: Result<
    Json,
    ExtensionError,
>)
    ensures
        answers(r, objective_brief(input.deep_view(), page@)),
{
    let events = match page.list_at("events") {
        Some(events) => events,
        None => {
            return Err(
                input_error(
                    "autoresearch objective-brief found no events in bounded provenance window",
                ),
            );
        },
    };
    assert(events.deep_view().len() == events@.len());
    if events.len() == 0 {
        return Err(
            input_error(
                "autoresearch objective-brief found no events in bounded provenance window",
            ),
        );
    }
    let last: usize = events.len() - 1;
    assert(events.deep_view()[last as int] == events@[last as int]@);
    let watermark = match page.text_at("watermark_event_id") {
        Some(id) => id.clone(),
        None => read_text(&events[last], "id"),
    };
    let (task, omitted) = objective_task(events)?;
    let prompt = objective_system_prompt()?;
    let listed: usize = events.len() - omitted;
    Ok(objective_brief_output(input, &task, &prompt, &watermark, page, listed, omitted))
}

/// The bytes of the lines from one position to another, with a line end behind each.
pub open spec fn bytes_between(lines: Seq<Seq<char>>, from: int, to: int) -> nat
    decreases to - from,
{
    if to <= from {
        0
    } else {
        bytes_between(lines, from, to - 1) + byte_len(lines[to - 1]) + 1
    }
}

pub(crate) proof fn lemma_joined_bytes(v: Seq<Seq<char>>)
    requires
        v.len() > 0,
    ensures
        byte_len(joined(v, "\n"@)) + 1 == bytes_between(v, 0, v.len() as int),
    decreases v.len(),
{
    reveal_strlit("\n");
    let n = v.len() as int;
    if n > 1 {
        let rest = v.drop_last();
        lemma_joined_bytes(rest);
        lemma_same_bytes(v, rest, 0, 0, n - 1);
        lemma_byte_len_add(joined(rest, "\n"@) + "\n"@, v.last());
        lemma_byte_len_add(joined(rest, "\n"@), "\n"@);
        assert(byte_len("\n"@) == 1) by {
            lemma_byte_len_push(Seq::empty(), '\n');
            assert("\n"@ =~= Seq::<char>::empty().push('\n'));
            assert(byte_len(Seq::empty()) == 0);
        }
    } else {
        assert(bytes_between(v, 0, 0) == 0);
    }
}

pub(crate) proof fn lemma_same_bytes(a: Seq<Seq<char>>, b: Seq<Seq<char>>, i: int, j: int, n: int)
    requires
        0 <= n,
        0 <= i,
        0 <= j,
        i + n <= a.len(),
        j + n <= b.len(),
        forall|k: int| 0 <= k < n ==> a[i + k] == #[trigger] b[j + k],
    ensures
        bytes_between(a, i, i + n) == bytes_between(b, j, j + n),
    decreases n,
{
    if n > 0 {
        lemma_same_bytes(a, b, i, j, n - 1);
        assert(a[i + (n - 1)] == b[j + (n - 1)]);
    }
}

pub(crate) proof fn lemma_split_bytes(v: Seq<Seq<char>>, from: int, middle: int, to: int)
    requires
        from <= middle <= to,
    ensures
        bytes_between(v, from, to) == bytes_between(v, from, middle) + bytes_between(
            v,
            middle,
            to,
        ),
    decreases to - middle,
{
    if middle < to {
        lemma_split_bytes(v, from, middle, to - 1);
    }
}

pub(crate) proof fn lemma_kept_bytes(lines: Seq<Seq<char>>, n: nat, used: nat)
    requires
        n <= lines.len(),
    ensures
        ({
            let count = kept_count(lines, n, used);
            &&& count <= n
            &&& count > 0 ==> used + bytes_between(lines, n - count, n as int) <= event_budget()
        }),
    decreases n,
{
    if n > 0 && used + byte_len(lines[n - 1]) + 1 <= event_budget() {
        lemma_kept_bytes(lines, (n - 1) as nat, used + byte_len(lines[n - 1]) + 1);
        let less = kept_count(lines, (n - 1) as nat, used + byte_len(lines[n - 1]) + 1);
        if less == 0 {
            assert(bytes_between(lines, n - 1, n - 1) == 0);
        }
    }
}

/// A task is never longer than the host accepts.
pub proof fn tasks_fit(lines: Seq<Seq<char>>)
    requires
        task_of(lines) is Ok,
    ensures
        byte_len(task_of(lines)->Ok_0.0) <= MAX_TASK_BYTES,
{
    let n = lines.len() as int;
    let count = kept_count(lines, lines.len(), 0);
    lemma_kept_bytes(lines, lines.len(), 0);
    let from = n - count;
    let all = seq![TASK_RULE@, CITATION_RULE@] + lines.skip(from);
    lemma_joined_bytes(all);
    lemma_split_bytes(all, 0, 2, all.len() as int);
    assert forall|k: int| 0 <= k < count implies all[2 + k] == #[trigger] lines[from + k] by {
        assert(lines.skip(from)[k] == lines[from + k]);
    }
    lemma_same_bytes(all, lines, 2, from, count as int);
    assert(bytes_between(all, 0, 2) == byte_len(TASK_RULE@) + byte_len(CITATION_RULE@) + 2) by {
        assert(all[0] == TASK_RULE@ && all[1] == CITATION_RULE@);
        assert(bytes_between(all, 0, 1) == bytes_between(all, 0, 0) + byte_len(all[0]) + 1);
        assert(bytes_between(all, 0, 2) == bytes_between(all, 0, 1) + byte_len(all[1]) + 1);
    }
}

} // verus!
