//! The report of the planner: what it must hold, and what is kept and shown of it.

use super::brief::{
    asks, events_of, member_or_null, number_or, parse_positive_u64, read_text, text_or_empty,
    ObjectiveQuery, DEFAULT_REPORT_LIMIT, OBJECTIVE_PERSONA, OBJECTIVE_SCHEMA,
};
use crate::event::EventKind;
use crate::inputs::{optional_string, reject_unknown_fields, text_field, unknown_field};
use crate::json::{
    counted, display_number, json_of_text, json_text, read_json, write_json, Json, Members, Numeral,
    NumberModel, Tree,
};
use crate::refresh::{parse_positive_number, positive_number};
use crate::sdk::{answers, fault, input_error, passes, ArtifactWrite, ExtensionError};
use crate::table::{find, holds, join, joined, member};
use crate::text::{
    byte_count, byte_len, bytes_of, chars_of, decimal, decimal_text, join2, join3, join7,
    lemma_byte_len_push, prefix, prefix_text, same, squeeze, squeezed, text_of,
};
use vstd::prelude::*;
use vstd::utf8::{char_u32_cast, encode_utf8};

verus! {

pub const OBJECTIVE_MEDIA_TYPE: &'static str = "application/vnd.euler.autoresearch.objective.v1+json";

pub const AUTORESEARCH_DISPLAY_NAME: &'static str = "Autoresearch";

pub const OBJECTIVE_SLOT_NAME: &'static str = "objective";

/// The most bytes of what is shown of an objective.
pub const MAX_OBJECTIVE_SLOT_BYTES: usize = 4096;

/// What an objective report is asked of.
#[derive(Debug, PartialEq, Eq)]
pub struct ObjectiveReportInput {
    pub spawn_event_id: String,
    pub limit: u64,
    pub scan_limit: Option<u64>,
    pub after_event_id: Option<String>,
}

/// What an [`ObjectiveReportInput`] holds.
#[verifier::ext_equal]
pub struct Reported {
    pub spawn_event_id: Seq<char>,
    pub limit: u64,
    pub scan_limit: Option<u64>,
    pub after: Option<Seq<char>>,
}

impl DeepView for ObjectiveReportInput {
    type V = Reported;

    open spec fn deep_view(&self) -> Reported {
        Reported {
            spawn_event_id: self.spawn_event_id@,
            limit: self.limit,
            scan_limit: self.scan_limit,
            after: self.after_event_id.deep_view(),
        }
    }
}

/// What is said of a member that is not there or not of its kind.
pub open spec fn missing(field: Seq<char>) -> Seq<char> {
    "missing or invalid `"@ + field + "`"@
}

fn missing_error(field: &str) -> (r: ExtensionError)
    ensures
        r is Message,
        r->Message_0@ == missing(field@),
{
    fault(join3("missing or invalid `", field, "`"))
}

/// A text that must be there.
pub open spec fn need_text(o: Seq<(Seq<char>, Tree)>, field: Seq<char>) -> Result<
    Seq<char>,
    Seq<char>,
> {
    match member(o, field) {
        Some(Tree::Text(text)) => Ok(text),
        _ => Err(missing(field)),
    }
}

fn required_string<'a>(o: &'a Members, field: &str) -> (r: Result<&'a String, ExtensionError>)
    ensures
        answers(r, need_text(o.deep_view(), field@)),
{
    match find(o, field) {
        Some(Json::Text(text)) => Ok(text),
        _ => Err(missing_error(field)),
    }
}

/// A text that must be there and not be empty.
pub open spec fn need_filled(o: Seq<(Seq<char>, Tree)>, field: Seq<char>) -> Result<
    Seq<char>,
    Seq<char>,
> {
    match need_text(o, field) {
        Err(e) => Err(e),
        Ok(text) => if text.len() == 0 {
            Err(field + " must not be empty"@)
        } else {
            Ok(text)
        },
    }
}

fn is_empty(text: &str) -> (r: bool)
    ensures
        r == (text@.len() == 0),
{
    proof {
        crate::text::lemma_byte_len_bounds(text@);
    }
    byte_count(text) == 0
}

fn required_non_empty_string<'a>(o: &'a Members, field: &str) -> (r: Result<
    &'a String,
    ExtensionError,
>)
    ensures
        answers(r, need_filled(o.deep_view(), field@)),
{
    let text = required_string(o, field)?;
    if is_empty(text) {
        return Err(fault(join2(field, " must not be empty")));
    }
    Ok(text)
}

/// The fields of an objective report.
pub open spec fn report_fields() -> Seq<Seq<char>> {
    seq!["spawn_event_id"@, "limit"@, "scan_limit"@, "after_event_id"@]
}

/// What an objective report is asked of.
pub open spec fn report_asked(value: Tree) -> Result<Reported, Seq<char>> {
    match value {
        Tree::Object(o) => match unknown_field(o, report_fields(), 0) {
            Some(e) => Err(e),
            None => match need_filled(o, "spawn_event_id"@) {
                Err(e) => Err(e),
                Ok(spawn_event_id) => match number_or(o, "limit"@, DEFAULT_REPORT_LIMIT) {
                    Err(e) => Err(e),
                    Ok(limit) => match positive_number(o, "scan_limit"@, None) {
                        Err(e) => Err(e),
                        Ok(scan_limit) => match text_field(o, "after_event_id"@) {
                            Err(e) => Err(e),
                            Ok(after) => Ok(
                                Reported { spawn_event_id, limit, scan_limit, after },
                            ),
                        },
                    },
                },
            },
        },
        _ => Err("autoresearch objective-report input must be a JSON object"@),
    }
}

impl ObjectiveReportInput {
    pub fn parse(value: &Json) -> (r: Result<Self, ExtensionError>)
        ensures
            answers(r, report_asked(value@)),
    {
        broadcast use crate::json::object_model;

        let o = match value {
            Json::Object(o) => o,
            _ => {
                return Err(
                    input_error("autoresearch objective-report input must be a JSON object"),
                );
            },
        };
        let allowed = vec!["spawn_event_id", "limit", "scan_limit", "after_event_id"];
        assert(allowed.deep_view() =~= report_fields());
        reject_unknown_fields(o, &allowed)?;
        let spawn_event_id = required_non_empty_string(o, "spawn_event_id")?.clone();
        let limit = parse_positive_u64(o, "limit", DEFAULT_REPORT_LIMIT)?;
        let scan_limit = parse_positive_number(o, "scan_limit", None)?;
        let after_event_id = optional_string(o, "after_event_id")?;
        Ok(ObjectiveReportInput { spawn_event_id, limit, scan_limit, after_event_id })
    }

    pub fn query(&self, default_scan_limit: u64) -> (r: ObjectiveQuery)
        ensures
            asks(
                r,
                self.limit,
                self.scan_limit,
                self.deep_view().after,
                default_scan_limit,
            ),
    {
        ObjectiveQuery {
            limit: self.limit,
            scan_limit: match self.scan_limit {
                Some(n) => n,
                None => default_scan_limit,
            },
            after_event_id: self.after_event_id.clone(),
        }
    }
}

/// Whether an event starts an agent, and has an id.
pub open spec fn is_spawn(event: Tree, id: Seq<char>) -> bool {
    text_or_empty(event, "kind"@) == EventKind::AGENT_SPAWN@ && text_or_empty(event, "id"@) == id
}

/// Whether an event is the result of an agent that an event started.
pub open spec fn is_result(event: Tree, id: Seq<char>) -> bool {
    text_or_empty(event, "kind"@) == EventKind::AGENT_RESULT@ && event.at("payload"@).text_at(
        "spawn_event_id"@,
    ) == Some(id)
}

/// The first event from position `i` on that starts the agent.
pub open spec fn spawn_from(events: Seq<Tree>, id: Seq<char>, i: nat) -> Option<int>
    decreases events.len() - i,
{
    if i >= events.len() {
        None
    } else if is_spawn(events[i as int], id) {
        Some(i as int)
    } else {
        spawn_from(events, id, i + 1)
    }
}

/// The first event from position `i` on that is the result of the agent.
pub open spec fn result_from(events: Seq<Tree>, id: Seq<char>, i: nat) -> Option<int>
    decreases events.len() - i,
{
    if i >= events.len() {
        None
    } else if is_result(events[i as int], id) {
        Some(i as int)
    } else {
        result_from(events, id, i + 1)
    }
}

fn event_is_spawn(event: &Json, id: &str) -> (r: bool)
    ensures
        r == is_spawn(event@, id@),
{
    same(&read_text(event, "kind"), EventKind::AGENT_SPAWN) && same(&read_text(event, "id"), id)
}

fn event_is_result(event: &Json, id: &str) -> (r: bool)
    ensures
        r == is_result(event@, id@),
{
    if !same(&read_text(event, "kind"), EventKind::AGENT_RESULT) {
        return false;
    }
    match event.get("payload") {
        Some(payload) => match payload.text_at("spawn_event_id") {
            Some(found) => same(found, id),
            None => false,
        },
        None => false,
    }
}

fn find_spawn(events: &Vec<Json>, id: &str) -> (r: Option<usize>)
    ensures
        match r {
            Some(i) => i < events@.len() && spawn_from(events.deep_view(), id@, 0) == Some(
                i as int,
            ),
            None => spawn_from(events.deep_view(), id@, 0) is None,
        },
{
    let mut i: usize = 0;
    assert(events.deep_view().len() == events@.len());
    while i < events.len()
        invariant
            i <= events@.len(),
            events.deep_view().len() == events@.len(),
            spawn_from(events.deep_view(), id@, 0) == spawn_from(
                events.deep_view(),
                id@,
                i as nat,
            ),
        decreases events@.len() - i,
    {
        assert(events.deep_view()[i as int] == events@[i as int]@);
        if event_is_spawn(&events[i], id) {
            return Some(i);
        }
        i += 1;
    }
    None
}

fn find_result(events: &Vec<Json>, id: &str, from: usize) -> (r: Option<usize>)
    requires
        from <= events@.len(),
    ensures
        match r {
            Some(i) => i < events@.len() && result_from(events.deep_view(), id@, from as nat)
                == Some(i as int),
            None => result_from(events.deep_view(), id@, from as nat) is None,
        },
{
    let mut i: usize = from;
    assert(events.deep_view().len() == events@.len());
    while i < events.len()
        invariant
            from <= i <= events@.len(),
            events.deep_view().len() == events@.len(),
            result_from(events.deep_view(), id@, from as nat) == result_from(
                events.deep_view(),
                id@,
                i as nat,
            ),
        decreases events@.len() - i,
    {
        assert(events.deep_view()[i as int] == events@[i as int]@);
        if event_is_result(&events[i], id) {
            return Some(i);
        }
        i += 1;
    }
    None
}

/// A text of the payload of an event that must be there.
pub open spec fn payload_text(event: Tree, field: Seq<char>) -> Result<Seq<char>, Seq<char>> {
    match event.at("payload"@).text_at(field) {
        Some(text) => Ok(text),
        None => Err(text_or_empty(event, "kind"@) + " payload missing `"@ + field + "`"@),
    }
}

fn required_payload_string(event: &Json, field: &str) -> (r: Result<String, ExtensionError>)
    ensures
        answers(r, payload_text(event@, field@)),
{
    if let Some(payload) = event.get("payload") {
        if let Some(text) = payload.text_at(field) {
            return Ok(text.clone());
        }
    }
    let start = join3(&read_text(event, "kind"), " payload missing `", field);
    Err(fault(join2(&start, "`")))
}

/// A flag of the payload of an event that must be there.
pub open spec fn payload_flag(event: Tree, field: Seq<char>) -> Result<bool, Seq<char>> {
    match event.at("payload"@).flag_at(field) {
        Some(flag) => Ok(flag),
        None => Err(text_or_empty(event, "kind"@) + " payload `"@ + field + "` must be a bool"@),
    }
}

fn required_payload_bool(event: &Json, field: &str) -> (r: Result<bool, ExtensionError>)
    ensures
        answers(r, payload_flag(event@, field@)),
{
    if let Some(payload) = event.get("payload") {
        if let Some(flag) = payload.flag_at(field) {
            return Ok(flag);
        }
    }
    let start = join3(&read_text(event, "kind"), " payload `", field);
    Err(fault(join2(&start, "` must be a bool")))
}

/// The result of the planner: its event and its text.
pub struct PairedObjectiveResult {
    pub result_event_id: String,
    pub output: String,
}

impl DeepView for PairedObjectiveResult {
    type V = (Seq<char>, Seq<char>);

    open spec fn deep_view(&self) -> (Seq<char>, Seq<char>) {
        (self.result_event_id@, self.output@)
    }
}

/// What a result of the planner holds, if it is in order.
pub open spec fn result_of(event: Tree, id: Seq<char>) -> Result<
    (Seq<char>, Seq<char>),
    Seq<char>,
> {
    let name = text_or_empty(event, "id"@);
    if event.text_at("parent"@) != Some(id) {
        Err("agent.result "@ + name + " parent does not match spawn_event_id"@)
    } else {
        match payload_flag(event, "ok"@) {
            Err(e) => Err(e),
            Ok(ok) => if !ok {
                Err("agent.result "@ + name + " is not successful"@)
            } else {
                match payload_text(event, "output"@) {
                    Err(e) => Err(e),
                    Ok(output) => Ok((name, output)),
                }
            },
        }
    }
}

/// The one result of the planner that an event started.
pub open spec fn paired(events: Seq<Tree>, id: Seq<char>) -> Result<
    (Seq<char>, Seq<char>),
    Seq<char>,
> {
    match spawn_from(events, id, 0) {
        None => Err(
            "agent.spawn "@ + id
                + " not found in bounded page; widen the window (limit/after_event_id/scan_limit) so the spawn and agent.result pair are inside it"@,
        ),
        Some(k) => match payload_text(events[k], "persona"@) {
            Err(e) => Err(e),
            Ok(persona) => if persona != OBJECTIVE_PERSONA@ {
                Err("agent.spawn "@ + id + " is not an autoresearch objective brief"@)
            } else {
                match result_from(events, id, 0) {
                    None => Err(
                        "agent.result for spawn_event_id "@ + id
                            + " not found in bounded page; widen the window (limit/after_event_id/scan_limit) so the spawn and result pair are inside it"@,
                    ),
                    Some(k) => if result_from(events, id, (k + 1) as nat) is Some {
                        Err("multiple agent.result events found for spawn_event_id "@ + id)
                    } else {
                        result_of(events[k], id)
                    },
                }
            },
        },
    }
}

fn read_result(event: &Json, id: &str) -> (r: Result<PairedObjectiveResult, ExtensionError>)
    ensures
        answers(r, result_of(event@, id@)),
{
    let name = read_text(event, "id");
    let belongs = match event.text_at("parent") {
        Some(parent) => same(parent, id),
        None => false,
    };
    if !belongs {
        return Err(
            fault(join3("agent.result ", &name, " parent does not match spawn_event_id")),
        );
    }
    if !required_payload_bool(event, "ok")? {
        return Err(fault(join3("agent.result ", &name, " is not successful")));
    }
    let output = required_payload_string(event, "output")?;
    Ok(PairedObjectiveResult { result_event_id: name, output })
}

/// The one result of the planner that an event started.
pub fn find_paired_result(spawn_event_id: &str, events: &Vec<Json>) -> (r: Result<
    PairedObjectiveResult,
    ExtensionError,
>)
    ensures
        answers(r, paired(events.deep_view(), spawn_event_id@)),
{
    let spawn = match find_spawn(events, spawn_event_id) {
        Some(k) => k,
        None => {
            return Err(
                fault(
                    join3(
                        "agent.spawn ",
                        spawn_event_id,
                        " not found in bounded page; widen the window (limit/after_event_id/scan_limit) so the spawn and agent.result pair are inside it",
                    ),
                ),
            );
        },
    };
    assert(events.deep_view()[spawn as int] == events@[spawn as int]@);
    let persona = required_payload_string(&events[spawn], "persona")?;
    if !same(&persona, OBJECTIVE_PERSONA) {
        return Err(
            fault(
                join3(
                    "agent.spawn ",
                    spawn_event_id,
                    " is not an autoresearch objective brief",
                ),
            ),
        );
    }
    let k = match find_result(events, spawn_event_id, 0) {
        Some(k) => k,
        None => {
            return Err(
                fault(
                    join3(
                        "agent.result for spawn_event_id ",
                        spawn_event_id,
                        " not found in bounded page; widen the window (limit/after_event_id/scan_limit) so the spawn and result pair are inside it",
                    ),
                ),
            );
        },
    };
    assert(events.deep_view()[k as int] == events@[k as int]@);
    assert(k < events.len());
    if find_result(events, spawn_event_id, k + 1).is_some() {
        return Err(
            fault(
                join2(
                    "multiple agent.result events found for spawn_event_id ",
                    spawn_event_id,
                ),
            ),
        );
    }
    read_result(&events[k], spawn_event_id)
}

/// A list that must be there.
pub open spec fn need_list(o: Seq<(Seq<char>, Tree)>, field: Seq<char>) -> Result<
    Seq<Tree>,
    Seq<char>,
> {
    match member(o, field) {
        Some(Tree::List(list)) => Ok(list),
        _ => Err(missing(field)),
    }
}

fn required_array<'a>(o: &'a Members, field: &str) -> (r: Result<&'a Vec<Json>, ExtensionError>)
    ensures
        answers(r, need_list(o.deep_view(), field@)),
{
    broadcast use crate::json::list_model;

    match find(o, field) {
        Some(Json::List(list)) => {
            assert(member(o.deep_view(), field@) == Some(Tree::List(list.deep_view())));
            Ok(list)
        },
        _ => Err(missing_error(field)),
    }
}

/// What is wrong with the references from position `i` on.
pub open spec fn refs_fault_from(list: Seq<Tree>, i: nat) -> Option<Seq<char>>
    decreases list.len() - i,
{
    if i >= list.len() {
        None
    } else {
        match list[i as int] {
            Tree::Object(o) => match need_filled(o, "event_id"@) {
                Err(e) => Some(e),
                Ok(_) => match need_text(o, "payload_pointer"@) {
                    Err(e) => Some(e),
                    Ok(pointer) => if pointer.len() > 0 && pointer[0] != '/' {
                        Some("payload_pointer must be empty or a JSON Pointer"@)
                    } else {
                        refs_fault_from(list, i + 1)
                    },
                },
            },
            _ => Some("evidence_refs entries must be JSON objects"@),
        }
    }
}

/// What is wrong with references.
pub open spec fn refs_fault(list: Seq<Tree>) -> Option<Seq<char>> {
    if list.len() == 0 {
        Some("evidence_refs must not be empty"@)
    } else {
        refs_fault_from(list, 0)
    }
}

fn is_pointer(text: &str) -> (r: bool)
    ensures
        r == !(text@.len() > 0 && text@[0] != '/'),
{
    let v = chars_of(text);
    v.len() == 0 || v[0] == '/'
}

fn validate_evidence_refs(list: &Vec<Json>) -> (r: Result<(), ExtensionError>)
    ensures
        passes(r, refs_fault(list.deep_view())),
{
    broadcast use crate::json::object_model;

    assert(list.deep_view().len() == list@.len());
    if list.len() == 0 {
        return Err(input_error("evidence_refs must not be empty"));
    }
    let mut i: usize = 0;
    while i < list.len()
        invariant
            i <= list@.len(),
            list.deep_view().len() == list@.len(),
            list@.len() > 0,
            refs_fault_from(list.deep_view(), 0) == refs_fault_from(list.deep_view(), i as nat),
        decreases list@.len() - i,
    {
        assert(list.deep_view()[i as int] == list@[i as int]@);
        let o = match list[i].as_object() {
            Some(o) => o,
            None => {
                return Err(input_error("evidence_refs entries must be JSON objects"));
            },
        };
        required_non_empty_string(o, "event_id")?;
        let pointer = required_string(o, "payload_pointer")?;
        if !is_pointer(pointer) {
            return Err(input_error("payload_pointer must be empty or a JSON Pointer"));
        }
        i += 1;
    }
    Ok(())
}

/// What is wrong with the texts from position `i` on.
pub open spec fn texts_fault_from(list: Seq<Tree>, field: Seq<char>, i: nat) -> Option<Seq<char>>
    decreases list.len() - i,
{
    if i >= list.len() {
        None
    } else {
        match list[i as int] {
            Tree::Text(text) => if text.len() == 0 {
                Some(field + " must be a non-empty string array"@)
            } else {
                texts_fault_from(list, field, i + 1)
            },
            _ => Some(field + " must be a non-empty string array"@),
        }
    }
}

/// What is wrong with a list of texts.
pub open spec fn texts_fault(list: Seq<Tree>, field: Seq<char>) -> Option<Seq<char>> {
    if list.len() == 0 {
        Some(field + " must not be empty"@)
    } else {
        texts_fault_from(list, field, 0)
    }
}

fn validate_string_array(list: &Vec<Json>, field: &str) -> (r: Result<(), ExtensionError>)
    ensures
        passes(r, texts_fault(list.deep_view(), field@)),
{
    assert(list.deep_view().len() == list@.len());
    if list.len() == 0 {
        return Err(fault(join2(field, " must not be empty")));
    }
    let mut i: usize = 0;
    while i < list.len()
        invariant
            i <= list@.len(),
            list.deep_view().len() == list@.len(),
            list@.len() > 0,
            texts_fault_from(list.deep_view(), field@, 0) == texts_fault_from(
                list.deep_view(),
                field@,
                i as nat,
            ),
        decreases list@.len() - i,
    {
        assert(list.deep_view()[i as int] == list@[i as int]@);
        let filled = match &list[i] {
            Json::Text(text) => !is_empty(text),
            _ => false,
        };
        if !filled {
            return Err(fault(join2(field, " must be a non-empty string array")));
        }
        i += 1;
    }
    Ok(())
}

/// The id of an objective that is in order, and was not named before.
pub open spec fn objective_id(value: Tree, ids: Seq<Seq<char>>) -> Result<Seq<char>, Seq<char>> {
    match value {
        Tree::Object(o) => match need_text(o, "id"@) {
            Err(e) => Err(e),
            Ok(id) => if id.len() == 0 {
                Err("objective id must not be empty"@)
            } else if ids.contains(id) {
                Err("duplicate objective id `"@ + id + "`"@)
            } else {
                match objective_fault(o) {
                    Some(e) => Err(e),
                    None => Ok(id),
                }
            },
        },
        _ => Err("objectives entries must be JSON objects"@),
    }
}

/// What is wrong with an objective apart from its id.
pub open spec fn objective_fault(o: Seq<(Seq<char>, Tree)>) -> Option<Seq<char>> {
    match need_filled(o, "title"@) {
        Err(e) => Some(e),
        Ok(_) => match need_filled(o, "rationale"@) {
            Err(e) => Some(e),
            Ok(_) => match need_list(o, "evidence_refs"@) {
                Err(e) => Some(e),
                Ok(refs) => match refs_fault(refs) {
                    Some(e) => Some(e),
                    None => match need_filled(o, "expected_outcome"@) {
                        Err(e) => Some(e),
                        Ok(_) => match need_list(o, "acceptance_checks"@) {
                            Err(e) => Some(e),
                            Ok(checks) => texts_fault(checks, "acceptance_checks"@),
                        },
                    },
                },
            },
        },
    }
}

fn validate_objective_fields(o: &Members) -> (r: Result<(), ExtensionError>)
    ensures
        passes(r, objective_fault(o.deep_view())),
{
    required_non_empty_string(o, "title")?;
    required_non_empty_string(o, "rationale")?;
    let refs = required_array(o, "evidence_refs")?;
    validate_evidence_refs(refs)?;
    required_non_empty_string(o, "expected_outcome")?;
    let checks = required_array(o, "acceptance_checks")?;
    validate_string_array(checks, "acceptance_checks")
}

fn validate_objective_item(value: &Json, ids: &Vec<String>) -> (r: Result<String, ExtensionError>)
    ensures
        answers(r, objective_id(value@, ids.deep_view())),
{
    broadcast use crate::json::object_model;

    let o = match value {
        Json::Object(o) => o,
        _ => {
            return Err(input_error("objectives entries must be JSON objects"));
        },
    };
    let id = required_string(o, "id")?;
    if is_empty(id) {
        return Err(input_error("objective id must not be empty"));
    }
    if holds(ids, id) {
        return Err(fault(join3("duplicate objective id `", id, "`")));
    }
    validate_objective_fields(o)?;
    Ok(id.clone())
}

/// The ids of the objectives from position `i` on.
pub open spec fn ids_from(list: Seq<Tree>, i: nat, ids: Seq<Seq<char>>) -> Result<
    Seq<Seq<char>>,
    Seq<char>,
>
    decreases list.len() - i,
{
    if i >= list.len() {
        Ok(ids)
    } else {
        match objective_id(list[i as int], ids) {
            Err(e) => Err(e),
            Ok(id) => ids_from(list, i + 1, ids.push(id)),
        }
    }
}

fn validate_objectives(list: &Vec<Json>) -> (r: Result<Vec<String>, ExtensionError>)
    ensures
        answers(r, ids_from(list.deep_view(), 0, Seq::empty())),
{
    let mut ids: Vec<String> = Vec::new();
    let mut i: usize = 0;
    assert(ids.deep_view() =~= Seq::empty());
    assert(list.deep_view().len() == list@.len());
    while i < list.len()
        invariant
            i <= list@.len(),
            list.deep_view().len() == list@.len(),
            ids_from(list.deep_view(), 0, Seq::empty()) == ids_from(
                list.deep_view(),
                i as nat,
                ids.deep_view(),
            ),
        decreases list@.len() - i,
    {
        assert(list.deep_view()[i as int] == list@[i as int]@);
        let id = validate_objective_item(&list[i], &ids)?;
        let ghost was = ids.deep_view();
        let ghost name = id@;
        ids.push(id);
        assert(ids.deep_view() =~= was.push(name));
        i += 1;
    }
    Ok(ids)
}

/// What is wrong with the dead ends from position `i` on.
pub open spec fn dead_ends_fault(list: Seq<Tree>, i: nat) -> Option<Seq<char>>
    decreases list.len() - i,
{
    if i >= list.len() {
        None
    } else {
        match list[i as int] {
            Tree::Object(o) => match need_filled(o, "summary"@) {
                Err(e) => Some(e),
                Ok(_) => match need_list(o, "evidence_refs"@) {
                    Err(e) => Some(e),
                    Ok(refs) => match refs_fault(refs) {
                        Some(e) => Some(e),
                        None => dead_ends_fault(list, i + 1),
                    },
                },
            },
            _ => Some("dead_ends_to_avoid entries must be JSON objects"@),
        }
    }
}

fn validate_dead_ends(list: &Vec<Json>) -> (r: Result<(), ExtensionError>)
    ensures
        passes(r, dead_ends_fault(list.deep_view(), 0)),
{
    broadcast use crate::json::object_model;

    let mut i: usize = 0;
    assert(list.deep_view().len() == list@.len());
    while i < list.len()
        invariant
            i <= list@.len(),
            list.deep_view().len() == list@.len(),
            dead_ends_fault(list.deep_view(), 0) == dead_ends_fault(list.deep_view(), i as nat),
        decreases list@.len() - i,
    {
        assert(list.deep_view()[i as int] == list@[i as int]@);
        let o = match list[i].as_object() {
            Some(o) => o,
            None => {
                return Err(input_error("dead_ends_to_avoid entries must be JSON objects"));
            },
        };
        required_non_empty_string(o, "summary")?;
        let refs = required_array(o, "evidence_refs")?;
        validate_evidence_refs(refs)?;
        i += 1;
    }
    Ok(())
}

/// Whether a text holds nothing but zeros and points.
pub open spec fn all_zero(s: Seq<char>) -> bool {
    forall|i: int| 0 <= i < s.len() ==> (#[trigger] s[i]) == '0' || s[i] == '.'
}

/// Whether a decimal text without an exponent is at most one: it has one digit before its point,
/// which is zero, or which is one with nothing but zeros behind the point.
pub open spec fn at_most_one(s: Seq<char>) -> bool {
    ||| s.len() > 0 && s[0] == '0' && (s.len() == 1 || s[1] == '.')
    ||| s.len() > 0 && s[0] == '1' && (s.len() == 1 || s[1] == '.' && all_zero(s.skip(2)))
}

/// Whether a text holds nothing but decimal digits.
pub open spec fn all_digits(s: Seq<char>) -> bool {
    forall|i: int| 0 <= i < s.len() ==> '0' as u32 <= (#[trigger] s[i]) as u32 <= '9' as u32
}

/// The number that decimal digits stand for.
pub open spec fn digits_value(s: Seq<char>) -> nat
    decreases s.len(),
{
    if s.len() == 0 {
        0
    } else {
        (10 * digits_value(s.drop_last()) + (s.last() as u32 - '0' as u32)) as nat
    }
}

/// A power of ten.
pub open spec fn ten_to_the(n: nat) -> nat
    decreases n,
{
    if n == 0 {
        1
    } else {
        10 * ten_to_the((n - 1) as nat)
    }
}

proof fn lemma_digits_value(s: Seq<char>)
    requires
        all_digits(s),
    ensures
        digits_value(s) < ten_to_the(s.len()),
        digits_value(s) == 0 <==> all_zero(s),
    decreases s.len(),
{
    if s.len() > 0 {
        let rest = s.drop_last();
        assert forall|i: int| 0 <= i < rest.len() implies '0' as u32 <= (
        #[trigger] rest[i]) as u32 <= '9' as u32 by {
            assert(rest[i] == s[i]);
        }
        lemma_digits_value(rest);
        let last = s[s.len() - 1];
        assert('0' as u32 <= last as u32 <= '9' as u32);
        char_u32_cast(last, last as u32);
        char_u32_cast('0', '0' as u32);
        if all_zero(s) {
            assert forall|i: int| 0 <= i < rest.len() implies (#[trigger] rest[i]) == '0' || rest[i]
                == '.' by {
                assert(rest[i] == s[i]);
            }
            assert(s[s.len() - 1] == '0');
        }
        if digits_value(s) == 0 {
            assert forall|i: int| 0 <= i < s.len() implies (#[trigger] s[i]) == '0' || s[i]
                == '.' by {
                if i < rest.len() {
                    assert(rest[i] == s[i]);
                } else {
                    assert(last as u32 == '0' as u32);
                }
            }
        }
    }
}

/// Digits that do not start with a zero stand for at least the power of ten of their first one.
proof fn lemma_leading_digit(s: Seq<char>)
    requires
        all_digits(s),
        s.len() > 0,
    ensures
        digits_value(s) >= (s[0] as u32 - '0' as u32) * ten_to_the((s.len() - 1) as nat),
        ten_to_the((s.len() - 1) as nat) >= s.len(),
    decreases s.len(),
{
    assert('0' as u32 <= s[0] as u32 <= '9' as u32);
    if s.len() > 1 {
        let rest = s.drop_last();
        assert forall|i: int| 0 <= i < rest.len() implies '0' as u32 <= (
        #[trigger] rest[i]) as u32 <= '9' as u32 by {
            assert(rest[i] == s[i]);
        }
        lemma_leading_digit(rest);
        assert(rest[0] == s[0]);
        let lead = (s[0] as u32 - '0' as u32) as int;
        let power = ten_to_the((rest.len() - 1) as nat) as int;
        assert(lead * (10 * power) == 10 * (lead * power)) by (nonlinear_arith);
        assert('0' as u32 <= s[s.len() - 1] as u32);
    } else {
        assert(s.drop_last() =~= Seq::empty());
        assert(digits_value(s.drop_last()) == 0);
        assert(ten_to_the(0) == 1);
        assert((s[0] as u32 - '0' as u32) * 1 == s[0] as u32 - '0' as u32);
    }
}

/// A decimal text with a point, whose whole part has no zero in front of other digits, is taken
/// for at most one just where the number that it stands for is at most one.
pub proof fn decimal_texts_are_compared_with_one(whole: Seq<char>, fraction: Seq<char>)
    requires
        all_digits(whole),
        all_digits(fraction),
        whole.len() > 0,
        whole.len() > 1 ==> whole[0] != '0',
    ensures
        at_most_one(whole + seq!['.'] + fraction) == (digits_value(whole) * ten_to_the(
            fraction.len(),
        ) + digits_value(fraction) <= ten_to_the(fraction.len())),
{
    let s = whole + seq!['.'] + fraction;
    let scale = ten_to_the(fraction.len()) as int;
    let n = digits_value(whole) as int;
    lemma_digits_value(fraction);
    lemma_leading_digit(whole);
    assert(s[0] == whole[0]);
    assert('0' as u32 <= whole[0] as u32 <= '9' as u32);
    char_u32_cast(whole[0], whole[0] as u32);
    char_u32_cast('0', '0' as u32);
    char_u32_cast('1', '1' as u32);
    if whole.len() == 1 {
        assert(whole.drop_last() =~= Seq::empty());
        assert(digits_value(whole.drop_last()) == 0);
        assert(n == whole[0] as u32 - '0' as u32);
        assert(s[1] == '.');
        assert(s.skip(2) =~= fraction);
        if n == 0 {
            assert(n * scale == 0) by (nonlinear_arith)
                requires
                    n == 0,
            ;
            assert(whole[0] == '0');
        } else if n == 1 {
            assert(n * scale == scale) by (nonlinear_arith)
                requires
                    n == 1,
            ;
            assert(whole[0] == '1');
        } else {
            assert(n * scale >= 2 * scale) by (nonlinear_arith)
                requires
                    n >= 2,
                    scale >= 0,
            ;
        }
    } else {
        assert(s[1] == whole[1]);
        assert('0' as u32 <= whole[1] as u32);
        let lead = (whole[0] as u32 - '0' as u32) as int;
        let power = ten_to_the((whole.len() - 1) as nat) as int;
        assert(whole[0] as u32 != '0' as u32);
        assert(lead * power >= power) by (nonlinear_arith)
            requires
                lead >= 1,
                power >= 0,
        ;
        assert(n >= 2);
        assert(n * scale >= 2 * scale) by (nonlinear_arith)
            requires
                n >= 2,
                scale >= 0,
        ;
    }
}

/// Whether the text of a number that is no integer lies between zero and one. Such a text has one
/// digit other than zero before its point where it has an exponent.
pub open spec fn in_unit(s: Seq<char>) -> bool {
    if s.len() > 0 && s[0] == '-' {
        all_zero(s.skip(1))
    } else if exists|i: int| 0 <= i < s.len() && #[trigger] s[i] == 'e' {
        exists|i: int|
            0 <= i < s.len() - 1 && #[trigger] s[i] == 'e' && s[i + 1] == '-'
    } else {
        at_most_one(s)
    }
}

fn is_all_zero(v: &Vec<char>, from: usize) -> (r: bool)
    requires
        from <= v@.len(),
    ensures
        r == all_zero(v@.skip(from as int)),
{
    let mut i: usize = from;
    while i < v.len()
        invariant
            from <= i <= v@.len(),
            forall|j: int| from <= j < i ==> (#[trigger] v@[j]) == '0' || v@[j] == '.',
        decreases v@.len() - i,
    {
        if v[i] != '0' && v[i] != '.' {
            assert(v@.skip(from as int)[i - from] == v@[i as int]);
            return false;
        }
        i += 1;
    }
    assert forall|j: int| 0 <= j < v@.skip(from as int).len() implies (#[trigger] v@.skip(
        from as int,
    )[j]) == '0' || v@.skip(from as int)[j] == '.' by {
        assert(v@.skip(from as int)[j] == v@[from + j]);
    }
    true
}

fn is_in_unit(text: &str) -> (r: bool)
    ensures
        r == in_unit(text@),
{
    let v = chars_of(text);
    if v.len() == 0 {
        return false;
    }
    if v[0] == '-' {
        return is_all_zero(&v, 1);
    }
    let mut small = false;
    let mut scaled = false;
    let mut i: usize = 0;
    while i < v.len()
        invariant
            i <= v@.len(),
            scaled == exists|j: int| 0 <= j < i && #[trigger] v@[j] == 'e',
            small == exists|j: int|
                0 <= j < i && j < v@.len() - 1 && #[trigger] v@[j] == 'e' && v@[j + 1] == '-',
        decreases v@.len() - i,
    {
        if v[i] == 'e' {
            scaled = true;
            if i < v.len() - 1 && v[i + 1] == '-' {
                small = true;
            }
        }
        i += 1;
    }
    if scaled {
        return small;
    }
    (v[0] == '0' && (v.len() == 1 || v[1] == '.')) || (v[0] == '1' && (v.len() == 1 || (v[1] == '.'
        && is_all_zero(&v, 2))))
}

/// Whether a number lies between zero and one.
pub open spec fn unit_number(n: NumberModel) -> bool {
    match n {
        NumberModel::Positive(n) => n <= 1,
        NumberModel::Negative(n) => n == 0,
        NumberModel::Float(s) => in_unit(s),
    }
}

fn is_unit_number(n: &Numeral) -> (r: bool)
    ensures
        r == unit_number(n.model()),
{
    match n {
        Numeral::Positive(n) => *n <= 1,
        Numeral::Negative(n) => *n == 0,
        Numeral::Float(n) => is_in_unit(&display_number(n)),
    }
}

/// What is wrong with a confidence.
pub open spec fn confidence_fault(o: Seq<(Seq<char>, Tree)>) -> Option<Seq<char>> {
    match need_text(o, "level"@) {
        Err(e) => Some(e),
        Ok(level) => if level != "high"@ && level != "medium"@ && level != "low"@ {
            Some("confidence.level must be high, medium, or low"@)
        } else {
            match member(o, "score"@) {
                Some(Tree::Number(n)) => if unit_number(n) {
                    None
                } else {
                    Some("confidence.score must be between 0.0 and 1.0"@)
                },
                _ => Some("confidence.score must be a number"@),
            }
        },
    }
}

fn validate_confidence(o: &Members) -> (r: Result<(), ExtensionError>)
    ensures
        passes(r, confidence_fault(o.deep_view())),
{
    let level = required_string(o, "level")?;
    if !same(level, "high") && !same(level, "medium") && !same(level, "low") {
        return Err(input_error("confidence.level must be high, medium, or low"));
    }
    match find(o, "score") {
        Some(Json::Number(n)) => {
            if !is_unit_number(n) {
                return Err(input_error("confidence.score must be between 0.0 and 1.0"));
            }
            Ok(())
        },
        _ => Err(input_error("confidence.score must be a number")),
    }
}

/// What is wrong with an objective output.
pub open spec fn output_fault(value: Tree) -> Option<Seq<char>> {
    match value {
        Tree::Object(o) => match need_text(o, "schema"@) {
            Err(e) => Some(e),
            Ok(schema) => if schema != OBJECTIVE_SCHEMA@ {
                Some("schema must be euler.autoresearch.objective.v1, got "@ + schema)
            } else {
                match need_list(o, "objectives"@) {
                    Err(e) => Some(e),
                    Ok(objectives) => if objectives.len() == 0 {
                        Some("objectives must not be empty"@)
                    } else {
                        match ids_from(objectives, 0, Seq::empty()) {
                            Err(e) => Some(e),
                            Ok(ids) => rest_fault(o, ids),
                        }
                    },
                }
            },
        },
        _ => Some("objective output must be a JSON object"@),
    }
}

/// What is wrong with an objective output besides its objectives.
pub open spec fn rest_fault(o: Seq<(Seq<char>, Tree)>, ids: Seq<Seq<char>>) -> Option<Seq<char>> {
    match need_list(o, "dead_ends_to_avoid"@) {
        Err(e) => Some(e),
        Ok(dead_ends) => match dead_ends_fault(dead_ends, 0) {
            Some(e) => Some(e),
            None => match need_text(o, "recommended_objective_id"@) {
                Err(e) => Some(e),
                Ok(recommended) => if !ids.contains(recommended) {
                    Some("recommended_objective_id must match an objective id"@)
                } else {
                    match member(o, "confidence"@) {
                        Some(Tree::Object(confidence)) => confidence_fault(confidence),
                        _ => Some(missing("confidence"@)),
                    }
                },
            },
        },
    }
}

fn validate_rest(o: &Members, ids: &Vec<String>) -> (r: Result<(), ExtensionError>)
    ensures
        passes(r, rest_fault(o.deep_view(), ids.deep_view())),
{
    broadcast use crate::json::object_model;

    let dead_ends = required_array(o, "dead_ends_to_avoid")?;
    validate_dead_ends(dead_ends)?;
    let recommended = required_string(o, "recommended_objective_id")?;
    if !holds(ids, recommended) {
        return Err(input_error("recommended_objective_id must match an objective id"));
    }
    match find(o, "confidence") {
        Some(Json::Object(confidence)) => {
            assert(member(o.deep_view(), "confidence"@) == Some(
                Tree::Object(confidence.deep_view()),
            ));
            validate_confidence(confidence)
        },
        _ => Err(missing_error("confidence")),
    }
}

/// Checks an objective output.
pub fn validate_objective(value: &Json) -> (r: Result<(), ExtensionError>)
    ensures
        passes(r, output_fault(value@)),
{
    broadcast use crate::json::object_model;

    let o = match value {
        Json::Object(o) => o,
        _ => {
            return Err(input_error("objective output must be a JSON object"));
        },
    };
    let schema = required_string(o, "schema")?;
    if !same(schema, OBJECTIVE_SCHEMA) {
        return Err(
            fault(join2("schema must be euler.autoresearch.objective.v1, got ", schema)),
        );
    }
    let objectives = required_array(o, "objectives")?;
    assert(objectives.deep_view().len() == objectives@.len());
    if objectives.len() == 0 {
        return Err(input_error("objectives must not be empty"));
    }
    let ids = validate_objectives(objectives)?;
    validate_rest(o, &ids)
}

/// The ids of events.
pub open spec fn event_names(events: Seq<Tree>) -> Seq<Seq<char>> {
    Seq::new(events.len(), |i: int| text_or_empty(events[i], "id"@))
}

fn list_event_names(events: &Vec<Json>) -> (r: Vec<String>)
    ensures
        r.deep_view() == event_names(events.deep_view()),
{
    let mut out: Vec<String> = Vec::new();
    let mut i: usize = 0;
    while i < events.len()
        invariant
            i <= events@.len(),
            out@.len() == i,
            forall|j: int|
                0 <= j < i ==> (#[trigger] out@[j])@ == text_or_empty(events@[j]@, "id"@),
        decreases events@.len() - i,
    {
        out.push(read_text(&events[i], "id"));
        i += 1;
    }
    assert(out.deep_view() =~= event_names(events.deep_view()));
    out
}

/// What is said of a reference to an event that is not in the window.
pub open spec fn unknown_ref(event: Seq<char>, kind: Seq<char>, owner: Seq<char>) -> Seq<char> {
    "unknown evidence_ref event_id `"@ + event + "` in "@ + kind + " `"@ + owner
        + "`; objective-report validates refs against its bounded provenance window only; widen the window with limit/scan_limit/after_event_id so cited events are included"@
}

/// What is wrong with the references of something from position `i` on: each names an event of
/// the window.
pub open spec fn outside_from(
    refs: Seq<Tree>,
    i: nat,
    kind: Seq<char>,
    owner: Seq<char>,
    names: Seq<Seq<char>>,
) -> Option<Seq<char>>
    decreases refs.len() - i,
{
    if i >= refs.len() {
        None
    } else {
        let event = match refs[i as int].text_at("event_id"@) {
            Some(event) => event,
            None => "<invalid-event-id>"@,
        };
        if names.contains(event) {
            outside_from(refs, i + 1, kind, owner, names)
        } else {
            Some(unknown_ref(event, kind, owner))
        }
    }
}

/// A list of a tree, or an empty one.
pub open spec fn list_or_empty(tree: Tree, name: Seq<char>) -> Seq<Tree> {
    match tree.list_at(name) {
        Some(list) => list,
        None => Seq::empty(),
    }
}

fn validate_refs_for_owner(
    item: &Json,
    kind: &str,
    owner: &str,
    names: &Vec<String>,
) -> (r: Result<(), ExtensionError>)
    ensures
        passes(
            r,
            outside_from(
                list_or_empty(item@, "evidence_refs"@),
                0,
                kind@,
                owner@,
                names.deep_view(),
            ),
        ),
{
    let refs = match item.list_at("evidence_refs") {
        Some(refs) => refs,
        None => {
            return Ok(());
        },
    };
    let mut i: usize = 0;
    assert(refs.deep_view().len() == refs@.len());
    assert(list_or_empty(item@, "evidence_refs"@) == refs.deep_view());
    while i < refs.len()
        invariant
            i <= refs@.len(),
            refs.deep_view().len() == refs@.len(),
            list_or_empty(item@, "evidence_refs"@) == refs.deep_view(),
            outside_from(refs.deep_view(), 0, kind@, owner@, names.deep_view()) == outside_from(
                refs.deep_view(),
                i as nat,
                kind@,
                owner@,
                names.deep_view(),
            ),
        decreases refs@.len() - i,
    {
        assert(refs.deep_view()[i as int] == refs@[i as int]@);
        let event = match refs[i].text_at("event_id") {
            Some(event) => event.clone(),
            None => "<invalid-event-id>".to_owned(),
        };
        if !holds(names, &event) {
            let start = join7(
                "unknown evidence_ref event_id `",
                &event,
                "` in ",
                kind,
                " `",
                owner,
                "`; objective-report validates refs against its bounded provenance window only; widen the window with limit/scan_limit/after_event_id so cited events are included",
            );
            return Err(fault(start));
        }
        i += 1;
    }
    Ok(())
}

/// What is wrong with the references of the objectives from position `i` on.
pub open spec fn objectives_outside(list: Seq<Tree>, i: nat, names: Seq<Seq<char>>) -> Option<
    Seq<char>,
>
    decreases list.len() - i,
{
    if i >= list.len() {
        None
    } else {
        let item = list[i as int];
        let owner = match item.text_at("id"@) {
            Some(id) => id,
            None => "<invalid-objective>"@,
        };
        match outside_from(
            list_or_empty(item, "evidence_refs"@),
            0,
            "objective"@,
            owner,
            names,
        ) {
            Some(e) => Some(e),
            None => objectives_outside(list, i + 1, names),
        }
    }
}

/// What is wrong with the references of the dead ends from position `i` on.
pub open spec fn dead_ends_outside(list: Seq<Tree>, i: nat, names: Seq<Seq<char>>) -> Option<
    Seq<char>,
>
    decreases list.len() - i,
{
    if i >= list.len() {
        None
    } else {
        match outside_from(
            list_or_empty(list[i as int], "evidence_refs"@),
            0,
            "dead_end"@,
            "dead_end["@ + decimal(i) + "]"@,
            names,
        ) {
            Some(e) => Some(e),
            None => dead_ends_outside(list, i + 1, names),
        }
    }
}

/// What is wrong with the references of an objective output.
pub open spec fn outside_fault(value: Tree, events: Seq<Tree>) -> Option<Seq<char>> {
    let names = event_names(events);
    match objectives_outside(list_or_empty(value, "objectives"@), 0, names) {
        Some(e) => Some(e),
        None => dead_ends_outside(list_or_empty(value, "dead_ends_to_avoid"@), 0, names),
    }
}

fn check_objective_refs(list: &Vec<Json>, names: &Vec<String>) -> (r: Result<(), ExtensionError>)
    ensures
        passes(r, objectives_outside(list.deep_view(), 0, names.deep_view())),
{
    let mut i: usize = 0;
    assert(list.deep_view().len() == list@.len());
    while i < list.len()
        invariant
            i <= list@.len(),
            list.deep_view().len() == list@.len(),
            objectives_outside(list.deep_view(), 0, names.deep_view()) == objectives_outside(
                list.deep_view(),
                i as nat,
                names.deep_view(),
            ),
        decreases list@.len() - i,
    {
        assert(list.deep_view()[i as int] == list@[i as int]@);
        let owner = match list[i].text_at("id") {
            Some(id) => id.clone(),
            None => "<invalid-objective>".to_owned(),
        };
        validate_refs_for_owner(&list[i], "objective", &owner, names)?;
        i += 1;
    }
    Ok(())
}

fn check_dead_end_refs(list: &Vec<Json>, names: &Vec<String>) -> (r: Result<(), ExtensionError>)
    ensures
        passes(r, dead_ends_outside(list.deep_view(), 0, names.deep_view())),
{
    let mut i: usize = 0;
    assert(list.deep_view().len() == list@.len());
    while i < list.len()
        invariant
            i <= list@.len(),
            list.deep_view().len() == list@.len(),
            dead_ends_outside(list.deep_view(), 0, names.deep_view()) == dead_ends_outside(
                list.deep_view(),
                i as nat,
                names.deep_view(),
            ),
        decreases list@.len() - i,
    {
        assert(list.deep_view()[i as int] == list@[i as int]@);
        let owner = join3("dead_end[", &decimal_text(i as u64), "]");
        validate_refs_for_owner(&list[i], "dead_end", &owner, names)?;
        i += 1;
    }
    Ok(())
}

/// Checks that every reference of an objective output names an event of the window.
pub fn validate_evidence_refs_in_report_window(value: &Json, events: &Vec<Json>) -> (r: Result<
    (),
    ExtensionError,
>)
    ensures
        passes(r, outside_fault(value@, events.deep_view())),
{
    let names = list_event_names(events);
    if let Some(list) = value.list_at("objectives") {
        check_objective_refs(list, &names)?;
    }
    if let Some(list) = value.list_at("dead_ends_to_avoid") {
        check_dead_end_refs(list, &names)?;
    }
    Ok(())
}

/// What is wrong with an objective output in a window.
pub open spec fn objective_output_fault(value: Tree, events: Seq<Tree>) -> Option<Seq<char>> {
    match output_fault(value) {
        Some(e) => Some(e),
        None => outside_fault(value, events),
    }
}

/// Checks an objective output in a window.
pub fn check_objective_output(value: &Json, events: &Vec<Json>) -> (r: Result<(), ExtensionError>)
    ensures
        passes(r, objective_output_fault(value@, events.deep_view())),
{
    validate_objective(value)?;
    validate_evidence_refs_in_report_window(value, events)
}

/// The objective output in a text.
pub open spec fn objective_in(output: Seq<char>, events: Seq<Tree>) -> Result<Tree, Seq<char>> {
    match json_of_text(output) {
        Err(message) => Err("objective output is not valid JSON: "@ + message),
        Ok(value) => match objective_output_fault(value, events) {
            Some(e) => Err(e),
            None => Ok(value),
        },
    }
}

/// The objective output in a text.
pub fn parse_objective_output(output: &str, events: &Vec<Json>) -> (r: Result<
    Json,
    ExtensionError,
>)
    ensures
        answers(r, objective_in(output@, events.deep_view())),
{
    match read_json(output) {
        Err(message) => Err(fault(join2("objective output is not valid JSON: ", &message))),
        Ok(value) => {
            check_objective_output(&value, events)?;
            Ok(value)
        },
    }
}

/// What is kept of a character where only printable ASCII is shown.
pub open spec fn shown_char(c: char) -> Seq<char> {
    if c == '\n' || c == '\r' || c == '\t' {
        seq![' ']
    } else if 0x20 <= c as u32 <= 0x7e {
        seq![c]
    } else {
        Seq::empty()
    }
}

/// What is kept of a text where only printable ASCII is shown.
pub open spec fn shown_chars(s: Seq<char>) -> Seq<char>
    decreases s.len(),
{
    if s.len() == 0 {
        Seq::empty()
    } else {
        shown_chars(s.drop_last()) + shown_char(s.last())
    }
}

/// A text on one line of printable ASCII.
pub open spec fn safe_line(s: Seq<char>) -> Seq<char> {
    squeezed(shown_chars(s))
}

fn ascii_safe_line(value: &str) -> (r: String)
    ensures
        r@ == safe_line(value@),
{
    let v = chars_of(value);
    let mut out: Vec<char> = Vec::new();
    let mut i: usize = 0;
    assert(v@.take(0) =~= Seq::empty());
    while i < v.len()
        invariant
            i <= v@.len(),
            out@ == shown_chars(v@.take(i as int)),
        decreases v@.len() - i,
    {
        let c = v[i];
        let ghost was = out@;
        if c == '\n' || c == '\r' || c == '\t' {
            out.push(' ');
        } else if 0x20 <= c as u32 && c as u32 <= 0x7e {
            out.push(c);
        }
        assert(v@.take(i + 1).drop_last() =~= v@.take(i as int));
        assert(out@ =~= was + shown_char(c));
        i += 1;
    }
    assert(v@.take(v@.len() as int) =~= v@);
    squeeze(&text_of(&out))
}

/// The first objective of an id, from position `i` on.
pub open spec fn recommended_from(list: Seq<Tree>, id: Seq<char>, i: nat) -> Option<Tree>
    decreases list.len() - i,
{
    if i >= list.len() {
        None
    } else if list[i as int].text_at("id"@) == Some(id) {
        Some(list[i as int])
    } else {
        recommended_from(list, id, i + 1)
    }
}

/// The objective that is recommended.
pub open spec fn recommended(value: Tree) -> Option<Tree> {
    match value.text_at("recommended_objective_id"@) {
        None => None,
        Some(id) => recommended_from(list_or_empty(value, "objectives"@), id, 0),
    }
}

fn recommended_objective(value: &Json) -> (r: Option<&Json>)
    ensures
        r.deep_view() == recommended(value@),
{
    let id = match value.text_at("recommended_objective_id") {
        Some(id) => id,
        None => {
            return None;
        },
    };
    let list = match value.list_at("objectives") {
        Some(list) => list,
        None => {
            return None;
        },
    };
    let mut i: usize = 0;
    assert(list.deep_view().len() == list@.len());
    while i < list.len()
        invariant
            i <= list@.len(),
            list.deep_view().len() == list@.len(),
            value@.text_at("recommended_objective_id"@) == Some(id@),
            list_or_empty(value@, "objectives"@) == list.deep_view(),
            recommended_from(list.deep_view(), id@, 0) == recommended_from(
                list.deep_view(),
                id@,
                i as nat,
            ),
        decreases list@.len() - i,
    {
        assert(list.deep_view()[i as int] == list@[i as int]@);
        if let Some(found) = list[i].text_at("id") {
            if same(found, id) {
                return Some(&list[i]);
            }
        }
        i += 1;
    }
    None
}

/// The first texts of the first `n` of a list, no more than three.
pub open spec fn first_checks(list: Seq<Tree>, n: nat) -> Seq<Seq<char>>
    decreases n,
{
    if n == 0 {
        Seq::empty()
    } else {
        let rest = first_checks(list, (n - 1) as nat);
        match list[n - 1].text() {
            Some(text) => if rest.len() < 3 {
                rest.push("- "@ + safe_line(text))
            } else {
                rest
            },
            None => rest,
        }
    }
}

fn list_checks(list: &Vec<Json>) -> (r: Vec<String>)
    ensures
        r.deep_view() == first_checks(list.deep_view(), list@.len()),
{
    let mut out: Vec<String> = Vec::new();
    let mut i: usize = 0;
    assert(out.deep_view() =~= Seq::empty());
    while i < list.len()
        invariant
            i <= list@.len(),
            out.deep_view() == first_checks(list.deep_view(), i as nat),
        decreases list@.len() - i,
    {
        assert(list.deep_view()[i as int] == list@[i as int]@);
        assert(out.deep_view().len() == out@.len());
        if let Some(text) = list[i].as_text() {
            if out.len() < 3 {
                let ghost was = out.deep_view();
                out.push(join2("- ", &ascii_safe_line(text)));
                assert(out.deep_view() =~= was.push("- "@ + safe_line(text@)));
            }
        }
        i += 1;
    }
    out
}

/// The lines of what is shown of an objective output.
pub open spec fn slot_lines(value: Tree) -> Seq<Seq<char>> {
    let title = match recommended(value) {
        Some(item) => match item.text_at("title"@) {
            Some(title) => title,
            None => "unknown objective"@,
        },
        None => "unknown objective"@,
    };
    let checks = match recommended(value) {
        Some(item) => first_checks(
            list_or_empty(item, "acceptance_checks"@),
            list_or_empty(item, "acceptance_checks"@).len(),
        ),
        None => Seq::empty(),
    };
    seq![
        "OBJECTIVE: "@ + safe_line(title),
        "DEAD_ENDS_TO_AVOID: "@ + decimal(list_or_empty(value, "dead_ends_to_avoid"@).len()),
    ] + if checks.len() == 0 {
        Seq::empty()
    } else {
        seq!["ACCEPTANCE_CHECKS:"@] + checks
    }
}

/// A text, or as much of it as may be shown.
pub open spec fn fitted(s: Seq<char>) -> Seq<char> {
    if byte_len(s) <= MAX_OBJECTIVE_SLOT_BYTES {
        s
    } else {
        prefix(s, MAX_OBJECTIVE_SLOT_BYTES as nat)
    }
}

/// What is shown of an objective output.
pub open spec fn slot_of(value: Tree) -> Seq<char> {
    fitted(joined(slot_lines(value), "\n"@))
}

fn fit_slot(value: String) -> (r: String)
    ensures
        r@ == fitted(value@),
{
    if byte_count(&value) <= MAX_OBJECTIVE_SLOT_BYTES {
        return value;
    }
    prefix_text(&value, MAX_OBJECTIVE_SLOT_BYTES)
}

/// What is shown of an objective output.
pub fn render_objective_slot(value: &Json) -> (r: String)
    ensures
        r@ == slot_of(value@),
{
    let item = recommended_objective(value);
    let title = match item {
        Some(item) => match item.text_at("title") {
            Some(title) => title.clone(),
            None => "unknown objective".to_owned(),
        },
        None => "unknown objective".to_owned(),
    };
    let none: Vec<String> = Vec::new();
    assert(none.deep_view() =~= Seq::empty());
    let checks = match item {
        Some(item) => match item.list_at("acceptance_checks") {
            Some(list) => {
                assert(list.deep_view().len() == list@.len());
                list_checks(list)
            },
            None => none,
        },
        None => none,
    };
    let dead_ends: usize = match value.list_at("dead_ends_to_avoid") {
        Some(list) => {
            assert(list.deep_view().len() == list@.len());
            list.len()
        },
        None => 0,
    };
    let mut lines = vec![
        join2("OBJECTIVE: ", &ascii_safe_line(&title)),
        join2("DEAD_ENDS_TO_AVOID: ", &decimal_text(dead_ends as u64)),
    ];
    let ghost head = seq![
        "OBJECTIVE: "@ + safe_line(title@),
        "DEAD_ENDS_TO_AVOID: "@ + decimal(dead_ends as nat),
    ];
    assert(lines.deep_view() =~= head);
    assert(checks.deep_view().len() == checks@.len());
    if checks.len() > 0 {
        lines.push("ACCEPTANCE_CHECKS:".to_owned());
        assert(lines.deep_view() =~= head + seq!["ACCEPTANCE_CHECKS:"@]);
        crate::research_record::record::append_texts(&mut lines, &checks);
    }
    assert(lines.deep_view() =~= slot_lines(value@));
    fit_slot(join(&lines, "\n"))
}

/// What the artifact of an objective output is written with.
pub open spec fn objective_metadata_rows(value: Tree) -> Seq<(Seq<char>, Tree)> {
    seq![
        ("objective_count"@, counted(list_or_empty(value, "objectives"@).len())),
        ("recommended_objective_id"@, value.at("recommended_objective_id"@)),
        ("schema"@, Tree::Text(OBJECTIVE_SCHEMA@)),
    ]
}

fn objective_metadata(value: &Json) -> (r: Members)
    ensures
        r.deep_view() == objective_metadata_rows(value@),
{
    let count: usize = match value.list_at("objectives") {
        Some(list) => {
            assert(list.deep_view().len() == list@.len());
            list.len()
        },
        None => 0,
    };
    let rows = vec![
        ("objective_count".to_owned(), Json::of_count(count)),
        (
            "recommended_objective_id".to_owned(),
            member_or_null(value, "recommended_objective_id"),
        ),
        ("schema".to_owned(), Json::of_text(OBJECTIVE_SCHEMA)),
    ];
    assert(rows.deep_view() =~= objective_metadata_rows(value@));
    rows
}

/// What becomes of a report.
pub struct ObjectiveReportPlan {
    pub bytes: Vec<u8>,
    pub metadata: Members,
    pub slot_text: String,
    pub result_event_id: String,
    pub recommended_objective_id: Json,
}

/// What an [`ObjectiveReportPlan`] holds.
#[verifier::ext_equal]
pub struct Planned {
    pub bytes: Seq<u8>,
    pub metadata: Seq<(Seq<char>, Tree)>,
    pub slot_text: Seq<char>,
    pub result_event_id: Seq<char>,
    pub recommended_objective_id: Tree,
}

impl DeepView for ObjectiveReportPlan {
    type V = Planned;

    open spec fn deep_view(&self) -> Planned {
        Planned {
            bytes: self.bytes@,
            metadata: self.metadata.deep_view(),
            slot_text: self.slot_text@,
            result_event_id: self.result_event_id@,
            recommended_objective_id: self.recommended_objective_id@,
        }
    }
}

/// What becomes of an objective output that was reported by an event.
pub open spec fn planned(value: Tree, result: Seq<char>) -> Planned {
    Planned {
        bytes: encode_utf8(json_text(value)),
        metadata: objective_metadata_rows(value),
        slot_text: slot_of(value),
        result_event_id: result,
        recommended_objective_id: value.at("recommended_objective_id"@),
    }
}

/// What becomes of the report of a page.
pub open spec fn report_of(page: Tree, spawn_event_id: Seq<char>) -> Result<Planned, Seq<char>> {
    let events = events_of(page);
    match paired(events, spawn_event_id) {
        Err(e) => Err(e),
        Ok((result, output)) => match objective_in(output, events) {
            Err(e) => Err(e),
            Ok(value) => Ok(planned(value, result)),
        },
    }
}

/// What becomes of an objective output that was reported by an event.
pub fn plan_report(value: &Json, result_event_id: String) -> (r: ObjectiveReportPlan)
    ensures
        r.deep_view() == planned(value@, result_event_id@),
{
    ObjectiveReportPlan {
        bytes: bytes_of(&write_json(value)),
        metadata: objective_metadata(value),
        slot_text: render_objective_slot(value),
        result_event_id,
        recommended_objective_id: member_or_null(value, "recommended_objective_id"),
    }
}

/// What becomes of the report of a page.
pub fn build_objective_report(page: &Json, spawn_event_id: &str) -> (r: Result<
    ObjectiveReportPlan,
    ExtensionError,
>)
    ensures
        answers(r, report_of(page@, spawn_event_id@)),
{
    let none: Vec<Json> = Vec::new();
    assert(none.deep_view() =~= Seq::empty());
    let events = match page.list_at("events") {
        Some(events) => events,
        None => &none,
    };
    let found = find_paired_result(spawn_event_id, events)?;
    let value = parse_objective_output(&found.output, events)?;
    Ok(plan_report(&value, found.result_event_id))
}

/// The artifact of a report.
pub fn objective_artifact(plan: &ObjectiveReportPlan) -> (r: ArtifactWrite)
    ensures
        r.display_name@ == AUTORESEARCH_DISPLAY_NAME@,
        r.media_type@ == OBJECTIVE_MEDIA_TYPE@,
        r.bytes@ == plan.bytes@,
        r.source_event_ids.deep_view() == seq![plan.result_event_id@],
        r.metadata.deep_view() == plan.metadata.deep_view(),
{
    let sources = vec![plan.result_event_id.clone()];
    assert(sources.deep_view() =~= seq![plan.result_event_id@]);
    let mut bytes: Vec<u8> = Vec::new();
    let mut i: usize = 0;
    while i < plan.bytes.len()
        invariant
            i <= plan.bytes@.len(),
            bytes@ == plan.bytes@.take(i as int),
        decreases plan.bytes@.len() - i,
    {
        bytes.push(plan.bytes[i]);
        assert(bytes@ =~= plan.bytes@.take(i + 1));
        i += 1;
    }
    assert(plan.bytes@.take(plan.bytes@.len() as int) =~= plan.bytes@);
    ArtifactWrite {
        display_name: AUTORESEARCH_DISPLAY_NAME.to_owned(),
        media_type: OBJECTIVE_MEDIA_TYPE.to_owned(),
        bytes,
        source_event_ids: sources,
        metadata: crate::json::copy_members(&plan.metadata),
    }
}

/// What is answered to a report.
pub open spec fn reported_tree(plan: Planned, record: Tree) -> Tree {
    Tree::Object(
        seq![
            ("byte_len"@, record.at("byte_len"@)),
            ("persisted_event_id"@, record.at("persisted_event_id"@)),
            ("recommended_objective_id"@, plan.recommended_objective_id),
            ("relative_path"@, record.at("relative_path"@)),
            ("result_event_id"@, Tree::Text(plan.result_event_id)),
            ("sha256"@, record.at("sha256"@)),
            ("slot_published"@, Tree::Bool(true)),
        ],
    )
}

/// What is answered to a report, once its artifact was written and what is shown was published.
pub fn report_output(plan: &ObjectiveReportPlan, record: &Json) -> (r: Json)
    ensures
        r@ == reported_tree(plan.deep_view(), record@),
{
    broadcast use crate::json::object_model;

    let rows = vec![
        ("byte_len".to_owned(), member_or_null(record, "byte_len")),
        ("persisted_event_id".to_owned(), member_or_null(record, "persisted_event_id")),
        ("recommended_objective_id".to_owned(), plan.recommended_objective_id.clone()),
        ("relative_path".to_owned(), member_or_null(record, "relative_path")),
        ("result_event_id".to_owned(), Json::of_text(&plan.result_event_id)),
        ("sha256".to_owned(), member_or_null(record, "sha256")),
        ("slot_published".to_owned(), Json::Bool(true)),
    ];
    assert(rows.deep_view() =~= reported_tree(plan.deep_view(), record@)->Object_0);
    Json::Object(rows)
}

proof fn lemma_outside(
    refs: Seq<Tree>,
    i: nat,
    kind: Seq<char>,
    owner: Seq<char>,
    names: Seq<Seq<char>>,
    k: int,
)
    requires
        outside_from(refs, i, kind, owner, names) is None,
        i <= k < refs.len(),
        refs[k].text_at("event_id"@) is Some,
    ensures
        names.contains(refs[k].text_at("event_id"@)->0),
    decreases refs.len() - i,
{
    if i < k {
        lemma_outside(refs, i + 1, kind, owner, names, k);
    }
}

proof fn lemma_objectives_outside(list: Seq<Tree>, i: nat, names: Seq<Seq<char>>, j: int, k: int)
    requires
        objectives_outside(list, i, names) is None,
        i <= j < list.len(),
        0 <= k < list_or_empty(list[j], "evidence_refs"@).len(),
        list_or_empty(list[j], "evidence_refs"@)[k].text_at("event_id"@) is Some,
    ensures
        names.contains(list_or_empty(list[j], "evidence_refs"@)[k].text_at("event_id"@)->0),
    decreases list.len() - i,
{
    if i < j {
        lemma_objectives_outside(list, i + 1, names, j, k);
    } else {
        let owner = match list[j].text_at("id"@) {
            Some(id) => id,
            None => "<invalid-objective>"@,
        };
        lemma_outside(
            list_or_empty(list[j], "evidence_refs"@),
            0,
            "objective"@,
            owner,
            names,
            k,
        );
    }
}

/// An objective cites no event outside the window that its report was checked against.
pub proof fn objectives_cite_the_window(value: Tree, events: Seq<Tree>, j: int, k: int)
    requires
        objective_output_fault(value, events) is None,
        0 <= j < list_or_empty(value, "objectives"@).len(),
        0 <= k < list_or_empty(list_or_empty(value, "objectives"@)[j], "evidence_refs"@).len(),
        list_or_empty(
            list_or_empty(value, "objectives"@)[j],
            "evidence_refs"@,
        )[k].text_at("event_id"@) is Some,
    ensures
        event_names(events).contains(
            list_or_empty(
                list_or_empty(value, "objectives"@)[j],
                "evidence_refs"@,
            )[k].text_at("event_id"@)->0,
        ),
{
    lemma_objectives_outside(list_or_empty(value, "objectives"@), 0, event_names(events), j, k);
}

proof fn lemma_dead_ends_outside(list: Seq<Tree>, i: nat, names: Seq<Seq<char>>, j: int, k: int)
    requires
        dead_ends_outside(list, i, names) is None,
        i <= j < list.len(),
        0 <= k < list_or_empty(list[j], "evidence_refs"@).len(),
        list_or_empty(list[j], "evidence_refs"@)[k].text_at("event_id"@) is Some,
    ensures
        names.contains(list_or_empty(list[j], "evidence_refs"@)[k].text_at("event_id"@)->0),
    decreases list.len() - i,
{
    if i < j {
        lemma_dead_ends_outside(list, i + 1, names, j, k);
    } else {
        lemma_outside(
            list_or_empty(list[j], "evidence_refs"@),
            0,
            "dead_end"@,
            "dead_end["@ + decimal(i) + "]"@,
            names,
            k,
        );
    }
}

/// A dead end to avoid cites no event outside the window that its report was checked against.
pub proof fn dead_ends_cite_the_window(value: Tree, events: Seq<Tree>, j: int, k: int)
    requires
        objective_output_fault(value, events) is None,
        0 <= j < list_or_empty(value, "dead_ends_to_avoid"@).len(),
        0 <= k < list_or_empty(
            list_or_empty(value, "dead_ends_to_avoid"@)[j],
            "evidence_refs"@,
        ).len(),
        list_or_empty(
            list_or_empty(value, "dead_ends_to_avoid"@)[j],
            "evidence_refs"@,
        )[k].text_at("event_id"@) is Some,
    ensures
        event_names(events).contains(
            list_or_empty(
                list_or_empty(value, "dead_ends_to_avoid"@)[j],
                "evidence_refs"@,
            )[k].text_at("event_id"@)->0,
        ),
{
    lemma_dead_ends_outside(
        list_or_empty(value, "dead_ends_to_avoid"@),
        0,
        event_names(events),
        j,
        k,
    );
}

/// Whether a text holds printable ASCII and line ends alone.
pub open spec fn plain(s: Seq<char>) -> bool {
    forall|i: int| 0 <= i < s.len() ==> (#[trigger] s[i]) == '\n' || 0x20 <= s[i] as u32 <= 0x7e
}

proof fn lemma_safe_line_is_plain(s: Seq<char>)
    ensures
        plain(shown_chars(s)),
        plain(safe_line(s)),
    decreases s.len(),
{
    lemma_shown_is_plain(s);
    lemma_squeezed_is_plain(shown_chars(s));
}

proof fn lemma_shown_is_plain(s: Seq<char>)
    ensures
        plain(shown_chars(s)),
    decreases s.len(),
{
    if s.len() > 0 {
        lemma_shown_is_plain(s.drop_last());
    }
}

proof fn lemma_squeezed_is_plain(s: Seq<char>)
    requires
        plain(s),
    ensures
        plain(squeezed(s)),
    decreases s.len(),
{
    if s.len() > 0 {
        assert(s.last() == s[s.len() - 1]);
        lemma_squeezed_is_plain(s.drop_last());
    }
}

proof fn lemma_decimal_is_plain(n: nat)
    ensures
        plain(decimal(n)),
    decreases n,
{
    if n >= 10 {
        lemma_decimal_is_plain(n / 10);
    }
}

proof fn lemma_joined_is_plain(v: Seq<Seq<char>>)
    requires
        forall|i: int| 0 <= i < v.len() ==> plain(#[trigger] v[i]),
    ensures
        plain(joined(v, "\n"@)),
    decreases v.len(),
{
    reveal_strlit("\n");
    if v.len() > 1 {
        assert forall|i: int| 0 <= i < v.drop_last().len() implies plain(
            #[trigger] v.drop_last()[i],
        ) by {
            assert(v.drop_last()[i] == v[i]);
        }
        lemma_joined_is_plain(v.drop_last());
        assert(plain(v[v.len() - 1]));
    }
}

proof fn lemma_checks_are_plain(list: Seq<Tree>, n: nat)
    ensures
        forall|i: int|
            0 <= i < first_checks(list, n).len() ==> plain(#[trigger] first_checks(list, n)[i]),
        first_checks(list, n).len() <= 3,
    decreases n,
{
    reveal_strlit("- ");
    if n > 0 {
        lemma_checks_are_plain(list, (n - 1) as nat);
        if let Some(text) = list[n - 1].text() {
            lemma_safe_line_is_plain(text);
        }
    }
}

proof fn lemma_plain_len(s: Seq<char>)
    requires
        plain(s),
    ensures
        byte_len(s) == s.len(),
    decreases s.len(),
{
    if s.len() > 0 {
        assert(s.last() == s[s.len() - 1]);
        assert(s =~= s.drop_last().push(s.last()));
        lemma_byte_len_push(s.drop_last(), s.last());
        lemma_plain_len(s.drop_last());
    }
}

/// What is shown of an objective is printable ASCII on lines, and keeps to its bound.
pub proof fn shown_objectives_fit(value: Tree)
    ensures
        plain(slot_of(value)),
        byte_len(slot_of(value)) <= MAX_OBJECTIVE_SLOT_BYTES,
        slot_lines(value).len() <= 6,
{
    reveal_strlit("OBJECTIVE: ");
    reveal_strlit("DEAD_ENDS_TO_AVOID: ");
    reveal_strlit("ACCEPTANCE_CHECKS:");
    let title = match recommended(value) {
        Some(item) => match item.text_at("title"@) {
            Some(title) => title,
            None => "unknown objective"@,
        },
        None => "unknown objective"@,
    };
    lemma_safe_line_is_plain(title);
    lemma_decimal_is_plain(list_or_empty(value, "dead_ends_to_avoid"@).len());
    if let Some(item) = recommended(value) {
        let list = list_or_empty(item, "acceptance_checks"@);
        lemma_checks_are_plain(list, list.len());
    }
    let lines = slot_lines(value);
    assert forall|i: int| 0 <= i < lines.len() implies plain(#[trigger] lines[i]) by {
        if i == 0 {
            assert(lines[0] == "OBJECTIVE: "@ + safe_line(title));
        }
        if i == 1 {
            assert(lines[1] == "DEAD_ENDS_TO_AVOID: "@ + decimal(
                list_or_empty(value, "dead_ends_to_avoid"@).len(),
            ));
        }
        if i == 2 {
            assert(lines[2] == "ACCEPTANCE_CHECKS:"@);
        }
    }
    lemma_joined_is_plain(lines);
    lemma_plain_len(joined(lines, "\n"@));
    lemma_plain_len(slot_of(value));
}

} // verus!
