//! What the planner is told, and what is taken and shown of its answer.

use super::brief::{
    brief_asked, bytes_between, event_budget, event_lines, events_of, extract, kept_count,
    lemma_joined_bytes, lemma_kept_bytes, lemma_same_bytes, lemma_split_bytes, normalized,
    objective_brief, prompt, task_of, text_or_empty, watermark_of, Asked, CITATION_RULE, TASK_RULE,
};
use super::report::{
    dead_ends_fault, first_checks, ids_from, list_or_empty, objective_id, output_fault, paired,
    recommended_from, refs_fault_from, report_asked, report_of, reported_tree, result_from,
    safe_line, shown_char, shown_chars, slot_lines, spawn_from, texts_fault_from,
};
use crate::json::{counted, json_of_text, json_text, optional_text, Tree};
use crate::table::{joined, lemma_first_row, member};
use crate::text::{byte_len, decimal, is_control, prefix};
use vstd::prelude::*;

verus! {

/// What is not asked of a brief has its default: sixty-four events from the start, and 24576
/// tokens. What is asked is taken, and no number is nothing.
pub proof fn briefs_have_their_defaults(o: Seq<(Seq<char>, Tree)>)
    ensures
        brief_asked(Tree::Null) matches Ok(b) ==> b.limit == 64 && b.scan_limit is None && b.after
            is None && b.max_tokens == 24576,
        brief_asked(Tree::Object(o)) matches Ok(b) ==> {
            &&& b.limit > 0 && b.max_tokens > 0
            &&& member(o, "limit"@) is None ==> b.limit == 64
            &&& member(o, "limit"@) matches Some(n) ==> n is Null || n.count() == Some(b.limit)
            &&& member(o, "max_tokens"@) is None ==> b.max_tokens == 24576
            &&& member(o, "max_tokens"@) matches Some(n) ==> n is Null || n.count() == Some(
                b.max_tokens,
            )
            &&& member(o, "scan_limit"@) is None ==> b.scan_limit is None
            &&& member(o, "scan_limit"@) matches Some(n) ==> n is Null || n.count()
                == b.scan_limit
            &&& member(o, "after_event_id"@) is None ==> b.after is None
            &&& member(o, "after_event_id"@) matches Some(Tree::Text(id)) ==> b.after == Some(id)
        },
        report_asked(Tree::Object(o)) matches Ok(b) ==> {
            &&& b.limit > 0 && b.spawn_event_id.len() > 0
            &&& member(o, "spawn_event_id"@) == Some(Tree::Text(b.spawn_event_id))
            &&& member(o, "limit"@) is None ==> b.limit == 128
            &&& member(o, "limit"@) matches Some(n) ==> n is Null || n.count() == Some(b.limit)
            &&& member(o, "scan_limit"@) is None ==> b.scan_limit is None
            &&& member(o, "after_event_id"@) matches Some(Tree::Text(id)) ==> b.after == Some(id)
        },
{
}

proof fn lemma_kept_is_all(lines: Seq<Seq<char>>, n: nat, used: nat)
    requires
        n <= lines.len(),
    ensures
        ({
            let count = kept_count(lines, n, used);
            &&& count <= n
            &&& count < n ==> used + bytes_between(lines, n - count - 1, n as int)
                > event_budget()
        }),
    decreases n,
{
    if n > 0 {
        let here = used + byte_len(lines[n - 1]) + 1;
        if here <= event_budget() {
            lemma_kept_is_all(lines, (n - 1) as nat, here);
        } else {
            assert(bytes_between(lines, n - 1, n - 1) == 0);
        }
    }
}

proof fn lemma_task_bytes(lines: Seq<Seq<char>>, from: int)
    requires
        0 <= from <= lines.len(),
    ensures
        byte_len(joined(seq![TASK_RULE@, CITATION_RULE@] + lines.skip(from), "\n"@)) + 1
            == byte_len(TASK_RULE@) + byte_len(CITATION_RULE@) + 2 + bytes_between(
            lines,
            from,
            lines.len() as int,
        ),
{
    let all = seq![TASK_RULE@, CITATION_RULE@] + lines.skip(from);
    lemma_joined_bytes(all);
    lemma_split_bytes(all, 0, 2, all.len() as int);
    assert forall|k: int| 0 <= k < lines.len() - from implies all[2 + k] == #[trigger] lines[from
        + k] by {
        assert(lines.skip(from)[k] == lines[from + k]);
    }
    lemma_same_bytes(all, lines, 2, from, lines.len() - from);
    assert(all[0] == TASK_RULE@ && all[1] == CITATION_RULE@);
    assert(bytes_between(all, 0, 1) == bytes_between(all, 0, 0) + byte_len(all[0]) + 1);
    assert(bytes_between(all, 0, 2) == bytes_between(all, 0, 1) + byte_len(all[1]) + 1);
}

/// A task lists the newest events, in their order, below its two rules, and as many of them as
/// fit: with one more, it would be too long.
pub proof fn the_newest_events_are_listed(lines: Seq<Seq<char>>)
    requires
        task_of(lines) is Ok,
        lines.len() <= usize::MAX,
    ensures
        ({
            let (task, omitted) = task_of(lines)->Ok_0;
            let rules = seq![
                "Choose the next repo-directed research objective from these Euler events."@,
                "Cite only listed event ids in evidence_refs."@,
            ];
            &&& omitted < lines.len()
            &&& task == joined(rules + lines.skip(omitted as int), "\n"@)
            &&& byte_len(task) < 8192
            &&& omitted > 0 ==> byte_len(joined(rules + lines.skip(omitted - 1), "\n"@)) >= 8192
        }),
{
    let count = kept_count(lines, lines.len(), 0);
    lemma_kept_bytes(lines, lines.len(), 0);
    lemma_kept_is_all(lines, lines.len(), 0);
    lemma_task_bytes(lines, lines.len() - count);
    if count < lines.len() {
        lemma_task_bytes(lines, lines.len() - count - 1);
    }
}

/// An event is told by its name, its kind and the start of what it holds, in one line.
pub proof fn events_are_told_in_a_line(events: Seq<Tree>, i: int, k: int)
    requires
        0 <= i < events.len(),
    ensures
        ({
            let kind = text_or_empty(events[i], "kind"@);
            let told = extract(kind, events[i].at("payload"@));
            &&& event_lines(events).len() == events.len()
            &&& event_lines(events)[i] == text_or_empty(events[i], "id"@) + " "@ + kind + " "@
                + prefix(normalized(told), 240)
            &&& normalized(told).len() == told.len()
            &&& 0 <= k < told.len() ==> normalized(told)[k] == (if is_control(told[k]) {
                ' '
            } else {
                told[k]
            })
        }),
{
}

/// A message is told by what it says, a plan by what it plans, and a call, a check or an artifact
/// by what it names; anything else by all that it holds.
pub proof fn events_are_told_by_what_they_hold(kind: Seq<char>, payload: Tree)
    ensures
        kind == "user.message"@ || kind == "assistant.message"@ || kind == "assistant.activity"@
            ==> {
            &&& payload.text_at("content"@) matches Some(t) ==> extract(kind, payload) == t
            &&& payload.text_at("content"@) is None ==> (payload.text_at("summary"@) matches Some(t)
                ==> extract(kind, payload) == t)
            &&& payload.text_at("content"@) is None && payload.text_at("summary"@) is None ==> (
            payload.text_at("message"@) matches Some(t) ==> extract(kind, payload) == t)
            &&& payload.text_at("content"@) is None && payload.text_at("summary"@) is None
                && payload.text_at("message"@) is None ==> extract(kind, payload).len() == 0
        },
        kind == "plan.update"@ ==> {
            &&& payload.text_at("content"@) matches Some(t) ==> extract(kind, payload) == t
            &&& payload.text_at("content"@) is None ==> (payload.text_at("summary"@) matches Some(t)
                ==> extract(kind, payload) == t)
            &&& payload.text_at("content"@) is None && payload.text_at("summary"@) is None ==> (
            payload.text_at("plan"@) matches Some(t) ==> extract(kind, payload) == t)
        },
        kind == "tool.call"@ && payload.text_at("name"@) is Some && payload.get("input"@) is Some
            ==> extract(kind, payload) == "name"@ + "="@ + payload.text_at("name"@)->0 + " "@ + ("input"@ + "="@
            + json_text(payload.get("input"@)->0)),
        kind == "tool.result"@ && payload.text_at("name"@) is Some && payload.get("ok"@) is Some
            && payload.text_at("error"@) is None && payload.text_at("output"@) is Some ==> extract(
            kind,
            payload,
        ) == "name"@ + "="@ + payload.text_at("name"@)->0 + " "@ + ("ok"@ + "="@ + json_text(
            payload.get("ok"@)->0,
        )) + " "@ + ("output"@ + "="@ + payload.text_at("output"@)->0),
        (kind == "check.started"@ || kind == "check.result"@) && payload.text_at("name"@) is Some
            && payload.get("ok"@) is Some && payload.text_at("command"@) is Some
            && payload.text_at("output"@) is None && payload.text_at("error"@) is None ==> extract(
            kind,
            payload,
        ) == "name"@ + "="@ + payload.text_at("name"@)->0 + " "@ + ("ok"@ + "="@ + json_text(
            payload.get("ok"@)->0,
        )) + " "@ + ("command"@ + "="@ + payload.text_at("command"@)->0),
        kind == "extension.artifact"@ && payload.text_at("extension_id"@) is Some
            && payload.text_at("media_type"@) is Some && payload.at("metadata"@).text_at(
            "schema"@,
        ) is None ==> extract(kind, payload) == "extension_id"@ + "="@ + payload.text_at(
            "extension_id"@,
        )->0 + " "@ + ("media_type"@ + "="@ + payload.text_at("media_type"@)->0),
        kind == "agent.spawn"@ || kind == "agent.result"@ || kind == "file.change"@ || kind
            == "error"@ ==> extract(kind, payload) == json_text(payload),
{
    reveal_with_fuel(super::brief::first_text, 4);
    reveal_with_fuel(joined, 4);
    reveal_strlit("user.message");
    reveal_strlit("assistant.message");
    reveal_strlit("assistant.activity");
    reveal_strlit("plan.update");
    reveal_strlit("tool.call");
    reveal_strlit("tool.result");
    reveal_strlit("check.started");
    reveal_strlit("check.result");
    reveal_strlit("extension.artifact");
    reveal_strlit("agent.spawn");
    reveal_strlit("agent.result");
    reveal_strlit("file.change");
    reveal_strlit("error");
    assert("user.message"@.len() == 12 && "assistant.message"@.len() == 17
        && "assistant.activity"@.len() == 18 && "plan.update"@.len() == 11 && "tool.call"@.len() == 9
        && "tool.result"@.len() == 11 && "check.started"@.len() == 13 && "check.result"@.len() == 12
        && "extension.artifact"@.len() == 18 && "agent.spawn"@.len() == 11 && "agent.result"@.len()
        == 12 && "file.change"@.len() == 11 && "error"@.len() == 5);
    assert("user.message"@[0] == 'u' && "assistant.activity"@[0] == 'a' && "plan.update"@[0] == 'p'
        && "tool.result"@[0] == 't' && "check.result"@[0] == 'c' && "extension.artifact"@[0] == 'e'
        && "agent.spawn"@[0] == 'a' && "agent.result"@[0] == 'a' && "file.change"@[0] == 'f');
    let name = super::brief::text_part(payload, "name"@);
    if kind == "tool.call"@ {
        let v = name + super::brief::value_part(payload, "input"@);
        if v.len() == 2 {
            assert(v.drop_last() =~= seq![v[0]]);
        }
    }
    if kind == "tool.result"@ {
        let v = name + super::brief::value_part(payload, "ok"@) + super::brief::text_part(
            payload,
            "error"@,
        ) + super::brief::text_part(payload, "output"@);
        if v.len() == 3 {
            assert(v.drop_last() =~= seq![v[0], v[1]]);
            assert(v.drop_last().drop_last() =~= seq![v[0]]);
        }
    }
    if kind == "check.started"@ || kind == "check.result"@ {
        let v = name + super::brief::value_part(payload, "ok"@) + super::brief::text_part(
            payload,
            "command"@,
        ) + super::brief::text_part(payload, "output"@) + super::brief::text_part(
            payload,
            "error"@,
        );
        if v.len() == 3 {
            assert(v.drop_last() =~= seq![v[0], v[1]]);
            assert(v.drop_last().drop_last() =~= seq![v[0]]);
        }
    }
    if kind == "extension.artifact"@ {
        let v = super::brief::text_part(payload, "extension_id"@) + super::brief::text_part(
            payload,
            "media_type"@,
        ) + super::brief::schema_part(payload);
        if v.len() == 2 {
            assert(v.drop_last() =~= seq![v[0]]);
        }
    }
}

/// A brief hands on the task and what was asked for: one turn of the planner without tools, and
/// the window that was looked at. It tells how many events are listed and how many are not.
pub proof fn briefs_hand_on_what_was_asked(b: Asked, page: Tree)
    requires
        objective_brief(b, page) is Ok,
        events_of(page).len() <= usize::MAX,
    ensures
        ({
            let t = objective_brief(b, page)->Ok_0;
            let events = events_of(page);
            let (task, omitted) = task_of(event_lines(events))->Ok_0;
            let window = t.at("objective_window"@);
            &&& t.text_at("schema"@) == Some("euler.autoresearch.objective_brief.v1"@)
            &&& t.text_at("persona"@) == Some("autoresearch-planner"@)
            &&& t.text_at("provider"@) == Some(Seq::<char>::empty())
            &&& t.text_at("model"@) == Some(Seq::<char>::empty())
            &&& t.list_at("capabilities"@) == Some(Seq::<Tree>::empty())
            &&& t.text_at("task"@) == Some(task)
            &&& Ok::<Tree, Seq<char>>(t.at("system_prompt"@)) == match prompt() {
                Ok(text) => Ok::<Tree, Seq<char>>(Tree::Text(text)),
                Err(e) => Err(e),
            }
            &&& t.at("budget"@).at("max_tokens"@).count() == Some(b.max_tokens)
            &&& t.at("budget"@).at("max_tool_calls"@).count() == Some(0u64)
            &&& t.at("budget"@).at("max_turns"@).count() == Some(1u64)
            &&& t.at("omitted_event_count"@) == counted(omitted as nat)
            &&& t.at("listed_event_count"@) == counted((events.len() - omitted) as nat)
            &&& page.text_at("watermark_event_id"@) is Some ==> t.text_at("watermark_event_id"@)
                == page.text_at("watermark_event_id"@)
            &&& page.text_at("watermark_event_id"@) is None ==> t.text_at("watermark_event_id"@)
                == Some(text_or_empty(events[events.len() - 1], "id"@))
            &&& window.at("watermark_event_id"@) == t.at("watermark_event_id"@)
            &&& window.at("after_event_id"@) == optional_text(b.after)
            &&& window.at("limit"@).count() == Some(b.limit)
            &&& b.scan_limit is Some ==> window.at("scan_limit"@).count() == b.scan_limit
            &&& b.scan_limit is None ==> window.at("scan_limit"@) is Null
            &&& window.at("applied_limit"@) == page.at("applied_limit"@)
            &&& window.at("applied_scan_limit"@) == page.at("applied_scan_limit"@)
            &&& window.at("next_after_event_id"@) == page.at("next_after_event_id"@)
            &&& window.at("scanned_events"@) == page.at("scanned_events"@)
            &&& window.at("truncated"@) == page.at("truncated"@)
        }),
{
    let t = objective_brief(b, page)->Ok_0;
    let o = t->Object_0;
    reveal_strlit("budget");
    reveal_strlit("capabilities");
    reveal_strlit("listed_event_count");
    reveal_strlit("model");
    reveal_strlit("objective_window");
    reveal_strlit("omitted_event_count");
    reveal_strlit("persona");
    reveal_strlit("provider");
    reveal_strlit("schema");
    reveal_strlit("system_prompt");
    reveal_strlit("task");
    reveal_strlit("watermark_event_id");
    lemma_first_row(o, "budget"@, 0);
    assert(o[0].0.len() == 6 && "capabilities"@.len() == 12);
    lemma_first_row(o, "capabilities"@, 1);
    assert(o[0].0.len() == 6 && o[1].0.len() == 12 && "listed_event_count"@.len() == 18);
    lemma_first_row(o, "listed_event_count"@, 2);
    assert(o[0].0.len() == 6 && o[1].0.len() == 12 && o[2].0.len() == 18 && "model"@.len() == 5);
    lemma_first_row(o, "model"@, 3);
    assert(o[0].0.len() == 6 && o[1].0.len() == 12 && o[2].0.len() == 18 && o[3].0.len() == 5 && "objective_window"@.len() == 16);
    lemma_first_row(o, "objective_window"@, 4);
    assert(o[0].0.len() == 6 && o[1].0.len() == 12 && o[2].0.len() == 18 && o[3].0.len() == 5 && o[4].0.len() == 16 && "omitted_event_count"@.len() == 19);
    lemma_first_row(o, "omitted_event_count"@, 5);
    assert(o[0].0.len() == 6 && o[1].0.len() == 12 && o[2].0.len() == 18 && o[3].0.len() == 5 && o[4].0.len() == 16 && o[5].0.len() == 19 && "persona"@.len() == 7);
    lemma_first_row(o, "persona"@, 6);
    assert(o[0].0.len() == 6 && o[1].0.len() == 12 && o[2].0.len() == 18 && o[3].0.len() == 5 && o[4].0.len() == 16 && o[5].0.len() == 19 && o[6].0.len() == 7 && "provider"@.len() == 8);
    lemma_first_row(o, "provider"@, 7);
    assert(o[0].0[0] == 'b' && o[1].0.len() == 12 && o[2].0.len() == 18 && o[3].0.len() == 5 && o[4].0.len() == 16 && o[5].0.len() == 19 && o[6].0.len() == 7 && o[7].0.len() == 8 && "schema"@.len() == 6 && "schema"@[0] == 's');
    lemma_first_row(o, "schema"@, 8);
    assert(o[0].0.len() == 6 && o[1].0.len() == 12 && o[2].0.len() == 18 && o[3].0.len() == 5 && o[4].0.len() == 16 && o[5].0.len() == 19 && o[6].0.len() == 7 && o[7].0.len() == 8 && o[8].0.len() == 6 && "system_prompt"@.len() == 13);
    lemma_first_row(o, "system_prompt"@, 9);
    assert(o[0].0.len() == 6 && o[1].0.len() == 12 && o[2].0.len() == 18 && o[3].0.len() == 5 && o[4].0.len() == 16 && o[5].0.len() == 19 && o[6].0.len() == 7 && o[7].0.len() == 8 && o[8].0.len() == 6 && o[9].0.len() == 13 && "task"@.len() == 4);
    lemma_first_row(o, "task"@, 10);
    assert(o[0].0.len() == 6 && o[1].0.len() == 12 && o[2].0[0] == 'l' && o[3].0.len() == 5 && o[4].0.len() == 16 && o[5].0.len() == 19 && o[6].0.len() == 7 && o[7].0.len() == 8 && o[8].0.len() == 6 && o[9].0.len() == 13 && o[10].0.len() == 4 && "watermark_event_id"@.len() == 18 && "watermark_event_id"@[0] == 'w');
    lemma_first_row(o, "watermark_event_id"@, 11);
    let u = super::brief::budget_tree(b)->Object_0;
    reveal_strlit("max_tokens");
    reveal_strlit("max_tool_calls");
    reveal_strlit("max_turns");
    lemma_first_row(u, "max_tokens"@, 0);
    assert(u[0].0.len() == 10 && "max_tool_calls"@.len() == 14);
    lemma_first_row(u, "max_tool_calls"@, 1);
    assert(u[0].0.len() == 10 && u[1].0.len() == 14 && "max_turns"@.len() == 9);
    lemma_first_row(u, "max_turns"@, 2);
    let w = super::brief::window_tree(b, watermark_of(page), page)->Object_0;
    reveal_strlit("after_event_id");
    reveal_strlit("applied_limit");
    reveal_strlit("applied_scan_limit");
    reveal_strlit("limit");
    reveal_strlit("next_after_event_id");
    reveal_strlit("scan_limit");
    reveal_strlit("scanned_events");
    reveal_strlit("truncated");
    reveal_strlit("watermark_event_id");
    lemma_first_row(w, "after_event_id"@, 0);
    assert(w[0].0.len() == 14 && "applied_limit"@.len() == 13);
    lemma_first_row(w, "applied_limit"@, 1);
    assert(w[0].0.len() == 14 && w[1].0.len() == 13 && "applied_scan_limit"@.len() == 18);
    lemma_first_row(w, "applied_scan_limit"@, 2);
    assert(w[0].0.len() == 14 && w[1].0.len() == 13 && w[2].0.len() == 18 && "limit"@.len() == 5);
    lemma_first_row(w, "limit"@, 3);
    assert(w[0].0.len() == 14 && w[1].0.len() == 13 && w[2].0.len() == 18 && w[3].0.len() == 5 && "next_after_event_id"@.len() == 19);
    lemma_first_row(w, "next_after_event_id"@, 4);
    assert(w[0].0.len() == 14 && w[1].0.len() == 13 && w[2].0.len() == 18 && w[3].0.len() == 5 && w[4].0.len() == 19 && "scan_limit"@.len() == 10);
    lemma_first_row(w, "scan_limit"@, 5);
    assert(w[0].0[0] == 'a' && w[1].0.len() == 13 && w[2].0.len() == 18 && w[3].0.len() == 5 && w[4].0.len() == 19 && w[5].0.len() == 10 && "scanned_events"@.len() == 14 && "scanned_events"@[0] == 's');
    lemma_first_row(w, "scanned_events"@, 6);
    assert(w[0].0.len() == 14 && w[1].0.len() == 13 && w[2].0.len() == 18 && w[3].0.len() == 5 && w[4].0.len() == 19 && w[5].0.len() == 10 && w[6].0.len() == 14 && "truncated"@.len() == 9);
    lemma_first_row(w, "truncated"@, 7);
    assert(w[0].0.len() == 14 && w[1].0.len() == 13 && w[2].0[0] == 'a' && w[3].0.len() == 5 && w[4].0.len() == 19 && w[5].0.len() == 10 && w[6].0.len() == 14 && w[7].0.len() == 9 && "watermark_event_id"@.len() == 18 && "watermark_event_id"@[0] == 'w');
    lemma_first_row(w, "watermark_event_id"@, 8);
}

/// Whether an event is where a planner was started under a name.
pub open spec fn starts(event: Tree, id: Seq<char>) -> bool {
    text_or_empty(event, "kind"@) == "agent.spawn"@ && text_or_empty(event, "id"@) == id
}

/// Whether an event is an answer to what was started under a name.
pub open spec fn answers_to(event: Tree, id: Seq<char>) -> bool {
    text_or_empty(event, "kind"@) == "agent.result"@ && event.at("payload"@).text_at(
        "spawn_event_id"@,
    ) == Some(id)
}

proof fn lemma_spawn(events: Seq<Tree>, id: Seq<char>, i: nat)
    ensures
        spawn_from(events, id, i) matches Some(k) ==> i <= k < events.len() && starts(
            events[k],
            id,
        ),
        spawn_from(events, id, i) is None ==> forall|k: int|
            i <= k < events.len() ==> !starts(#[trigger] events[k], id),
    decreases events.len() - i,
{
    if i < events.len() {
        lemma_spawn(events, id, i + 1);
    }
}

proof fn lemma_result(events: Seq<Tree>, id: Seq<char>, i: nat)
    ensures
        result_from(events, id, i) matches Some(k) ==> i <= k < events.len() && answers_to(
            events[k],
            id,
        ) && forall|j: int| i <= j < k ==> !answers_to(#[trigger] events[j], id),
        result_from(events, id, i) is None ==> forall|k: int|
            i <= k < events.len() ==> !answers_to(#[trigger] events[k], id),
    decreases events.len() - i,
{
    if i < events.len() {
        lemma_result(events, id, i + 1);
    }
}

/// Whether the event at a position is the one answer of a planner: it succeeded, it belongs to
/// what was started, and no other event answers.
pub open spec fn the_answer(
    events: Seq<Tree>,
    id: Seq<char>,
    k: int,
    result: Seq<char>,
    output: Seq<char>,
) -> bool {
    &&& 0 <= k < events.len()
    &&& answers_to(events[k], id)
    &&& events[k].text_at("parent"@) == Some(id)
    &&& events[k].at("payload"@).flag_at("ok"@) == Some(true)
    &&& events[k].at("payload"@).text_at("output"@) == Some(output)
    &&& text_or_empty(events[k], "id"@) == result
    &&& forall|j: int|
        0 <= j < events.len() && answers_to(#[trigger] events[j], id) ==> j == k
}

/// What is reported is the one answer of a planner that was started as such and succeeded.
pub proof fn reports_come_of_the_planner(events: Seq<Tree>, id: Seq<char>)
    ensures
        paired(events, id) matches Ok((result, output)) ==> {
            &&& exists|k: int| #[trigger] the_answer(events, id, k, result, output)
            &&& exists|k: int|
                0 <= k < events.len() && starts(#[trigger] events[k], id) && events[k].at(
                    "payload"@,
                ).text_at("persona"@) == Some("autoresearch-planner"@)
        },
{
    lemma_spawn(events, id, 0);
    lemma_result(events, id, 0);
    if paired(events, id) is Ok {
        let k = result_from(events, id, 0)->0;
        lemma_result(events, id, (k + 1) as nat);
        let (result, output) = paired(events, id)->Ok_0;
        assert(the_answer(events, id, k, result, output));
        let s = spawn_from(events, id, 0)->0;
        assert(starts(events[s], id));
    }
}

/// Whether a tree has a text under a name, and one that is not empty.
pub open spec fn filled(t: Tree, name: Seq<char>) -> bool {
    t.text_at(name) matches Some(text) && text.len() > 0
}

/// Whether a tree cites an event, and a place in it.
pub open spec fn cites_a_place(t: Tree) -> bool {
    &&& t is Object
    &&& filled(t, "event_id"@)
    &&& t.text_at("payload_pointer"@) matches Some(p)
    &&& p.len() == 0 || p[0] == '/'
}

/// Whether a tree cites something, and only places in events.
pub open spec fn grounded(t: Tree) -> bool {
    &&& t.list_at("evidence_refs"@) matches Some(refs)
    &&& refs.len() > 0
    &&& forall|k: int| 0 <= k < refs.len() ==> #[trigger] cites_a_place(refs[k])
}

/// Whether a tree is a text that says something.
pub open spec fn says_something(t: Tree) -> bool {
    t matches Tree::Text(text) && text.len() > 0
}

/// Whether a tree is an objective: it has a name, a title and a rationale, it says what is
/// expected and how that is checked, and on what it rests.
pub open spec fn complete(t: Tree) -> bool {
    &&& t is Object
    &&& filled(t, "id"@)
    &&& filled(t, "title"@)
    &&& filled(t, "rationale"@)
    &&& filled(t, "expected_outcome"@)
    &&& grounded(t)
    &&& t.list_at("acceptance_checks"@) matches Some(checks)
    &&& checks.len() > 0
    &&& forall|k: int| 0 <= k < checks.len() ==> #[trigger] says_something(checks[k])
}

/// Whether the objective at a position is complete and its name is new.
pub open spec fn adds(list: Seq<Tree>, k: int) -> bool {
    &&& complete(list[k])
    &&& forall|j: int| 0 <= j < k ==> (#[trigger] list[j]).text_at("id"@) != list[k].text_at("id"@)
}

/// Whether a tree is a dead end: it says what was tried, and on what that rests.
pub open spec fn dead_end(t: Tree) -> bool {
    t is Object && filled(t, "summary"@) && grounded(t)
}

proof fn lemma_refs(list: Seq<Tree>, i: nat)
    ensures
        refs_fault_from(list, i) is None <==> forall|k: int|
            i <= k < list.len() ==> #[trigger] cites_a_place(list[k]),
    decreases list.len() - i,
{
    if i < list.len() {
        lemma_refs(list, i + 1);
        let t = list[i as int];
        assert(refs_fault_from(list, i) is None <==> cites_a_place(t) && refs_fault_from(list, i + 1)
            is None);
    }
}

proof fn lemma_texts(list: Seq<Tree>, field: Seq<char>, i: nat)
    ensures
        texts_fault_from(list, field, i) is None <==> forall|k: int|
            i <= k < list.len() ==> #[trigger] says_something(list[k]),
    decreases list.len() - i,
{
    if i < list.len() {
        lemma_texts(list, field, i + 1);
        assert(texts_fault_from(list, field, i) is None <==> says_something(list[i as int])
            && texts_fault_from(list, field, i + 1) is None);
    }
}

proof fn lemma_complete(t: Tree, ids: Seq<Seq<char>>)
    ensures
        objective_id(t, ids) is Ok <==> complete(t) && !ids.contains(t.text_at("id"@)->0),
        objective_id(t, ids) is Ok ==> t.text_at("id"@) == Some(objective_id(t, ids)->Ok_0),
{
    if t is Object {
        let refs = t.list_at("evidence_refs"@);
        let checks = t.list_at("acceptance_checks"@);
        if refs is Some {
            lemma_refs(refs->0, 0);
        }
        if checks is Some {
            lemma_texts(checks->0, "acceptance_checks"@, 0);
        }
    }
}

proof fn lemma_ids(list: Seq<Tree>, i: nat, ids: Seq<Seq<char>>)
    requires
        ids.len() == i <= list.len(),
        forall|j: int| 0 <= j < i ==> (#[trigger] list[j]).text_at("id"@) == Some(ids[j]),
    ensures
        ids_from(list, i, ids) is Ok <==> forall|k: int|
            i <= k < list.len() ==> #[trigger] adds(list, k),
        ids_from(list, i, ids) matches Ok(all) ==> all.len() == list.len() && forall|j: int|
            0 <= j < list.len() ==> (#[trigger] list[j]).text_at("id"@) == Some(all[j]),
    decreases list.len() - i,
{
    if i < list.len() {
        let item = list[i as int];
        lemma_complete(item, ids);
        if objective_id(item, ids) is Ok {
            let id = objective_id(item, ids)->Ok_0;
            lemma_ids(list, i + 1, ids.push(id));
            assert forall|j: int| 0 <= j < i implies (#[trigger] list[j]).text_at("id"@)
                != item.text_at("id"@) by {
                assert(ids.contains(ids[j]));
            }
            assert(adds(list, i as int));
        } else {
            if adds(list, i as int) && ids.contains(item.text_at("id"@)->0) {
                let j = choose|j: int| 0 <= j < ids.len() && ids[j] == item.text_at("id"@)->0;
                assert(list[j].text_at("id"@) == item.text_at("id"@));
            }
            assert(!adds(list, i as int));
        }
    }
}

proof fn lemma_dead_ends(list: Seq<Tree>, i: nat)
    ensures
        dead_ends_fault(list, i) is None <==> forall|k: int|
            i <= k < list.len() ==> #[trigger] dead_end(list[k]),
    decreases list.len() - i,
{
    if i < list.len() {
        lemma_dead_ends(list, i + 1);
        let t = list[i as int];
        if t is Object && t.list_at("evidence_refs"@) is Some {
            lemma_refs(t.list_at("evidence_refs"@)->0, 0);
        }
        assert(dead_ends_fault(list, i) is None <==> dead_end(t) && dead_ends_fault(list, i + 1)
            is None);
    }
}

/// Whether an answer holds all that it must: objectives that are complete and named apart, dead
/// ends, a recommendation among the objectives and a confidence.
pub open spec fn well_answered(value: Tree) -> bool {
    &&& value is Object
    &&& value.text_at("schema"@) == Some("euler.autoresearch.objective.v1"@)
    &&& value.list_at("objectives"@) matches Some(objectives)
    &&& objectives.len() > 0
    &&& forall|k: int| 0 <= k < objectives.len() ==> #[trigger] adds(objectives, k)
    &&& value.list_at("dead_ends_to_avoid"@) matches Some(dead_ends)
    &&& forall|k: int| 0 <= k < dead_ends.len() ==> #[trigger] dead_end(dead_ends[k])
    &&& value.text_at("recommended_objective_id"@) is Some
    &&& exists|k: int|
        0 <= k < objectives.len() && (#[trigger] objectives[k]).text_at("id"@) == value.text_at(
            "recommended_objective_id"@,
        )
    &&& value.at("confidence"@) is Object
    &&& value.at("confidence"@).text_at("level"@) == Some("high"@) || value.at(
        "confidence"@,
    ).text_at("level"@) == Some("medium"@) || value.at("confidence"@).text_at("level"@) == Some(
        "low"@,
    )
    &&& value.at("confidence"@).at("score"@) matches Tree::Number(n)
    &&& super::report::unit_number(n)
}

/// An answer is taken just where it holds all that it must.
pub proof fn complete_answers_are_taken(value: Tree)
    ensures
        output_fault(value) is None <==> well_answered(value),
{
    if value is Object {
        let objectives = value.list_at("objectives"@);
        let dead_ends = value.list_at("dead_ends_to_avoid"@);
        if dead_ends is Some {
            lemma_dead_ends(dead_ends->0, 0);
        }
        if objectives is Some {
            let list = objectives->0;
            lemma_ids(list, 0, Seq::empty());
            if ids_from(list, 0, Seq::empty()) is Ok {
                let ids = ids_from(list, 0, Seq::empty())->Ok_0;
                let named = value.text_at("recommended_objective_id"@);
                if named is Some {
                    if ids.contains(named->0) {
                        let k = choose|k: int| 0 <= k < ids.len() && ids[k] == named->0;
                        assert(list[k].text_at("id"@) == named);
                    }
                    if exists|k: int|
                        0 <= k < list.len() && (#[trigger] list[k]).text_at("id"@) == named {
                        let k = choose|k: int|
                            0 <= k < list.len() && (#[trigger] list[k]).text_at("id"@) == named;
                        assert(ids[k] == named->0);
                    }
                }
            }
        }
    }
}

proof fn lemma_recommended(list: Seq<Tree>, id: Seq<char>, i: nat, k: int)
    requires
        i <= k < list.len(),
        list[k].text_at("id"@) == Some(id),
        forall|j: int| i <= j < k ==> (#[trigger] list[j]).text_at("id"@) != Some(id),
    ensures
        recommended_from(list, id, i) == Some(list[k]),
    decreases k - i,
{
    if i < k {
        assert(list[i as int].text_at("id"@) != Some(id));
        lemma_recommended(list, id, i + 1, k);
    }
}

proof fn lemma_checks(list: Seq<Tree>, n: nat)
    requires
        n <= list.len(),
        forall|k: int| 0 <= k < list.len() ==> #[trigger] says_something(list[k]),
    ensures
        first_checks(list, n).len() == (if n < 3 {
            n
        } else {
            3
        }),
        forall|k: int|
            0 <= k < first_checks(list, n).len() ==> #[trigger] first_checks(list, n)[k] == "- "@
                + safe_line(list[k]->Text_0),
    decreases n,
{
    if n > 0 {
        lemma_checks(list, (n - 1) as nat);
        assert(says_something(list[n - 1]));
    }
}

/// What is shown of an answer is the objective that it recommends: its title, how many dead ends
/// to avoid, and the first three of its checks.
pub proof fn the_recommendation_is_shown(value: Tree, k: int, c: int)
    requires
        well_answered(value),
        0 <= k < list_or_empty(value, "objectives"@).len(),
        list_or_empty(value, "objectives"@)[k].text_at("id"@) == value.text_at(
            "recommended_objective_id"@,
        ),
    ensures
        ({
            let item = list_or_empty(value, "objectives"@)[k];
            let lines = slot_lines(value);
            let checks = list_or_empty(item, "acceptance_checks"@);
            &&& lines.len() == 3 + (if checks.len() < 3 {
                checks.len() as int
            } else {
                3
            })
            &&& lines[0] == "OBJECTIVE: "@ + safe_line(item.text_at("title"@)->0)
            &&& lines[1] == "DEAD_ENDS_TO_AVOID: "@ + decimal(
                list_or_empty(value, "dead_ends_to_avoid"@).len(),
            )
            &&& lines[2] == "ACCEPTANCE_CHECKS:"@
            &&& 0 <= c < lines.len() - 3 ==> lines[3 + c] == "- "@ + safe_line(checks[c]->Text_0)
        }),
{
    let list = list_or_empty(value, "objectives"@);
    let id = value.text_at("recommended_objective_id"@)->0;
    assert(adds(list, k));
    lemma_recommended(list, id, 0, k);
    let checks = list_or_empty(list[k], "acceptance_checks"@);
    lemma_checks(checks, checks.len());
}

/// A line is shown character by character: line ends and tabs as a space, what can be printed as
/// it is, and nothing else.
pub proof fn lines_are_shown_character_by_character(a: Seq<char>, b: Seq<char>, c: char)
    ensures
        shown_chars(a + b) == shown_chars(a) + shown_chars(b),
        c == '\n' || c == '\r' || c == '\t' ==> shown_char(c) == seq![' '],
        ' ' as u32 <= c as u32 <= '~' as u32 ==> shown_char(c) == seq![c],
        c != '\n' && c != '\r' && c != '\t' && !(' ' as u32 <= c as u32 <= '~' as u32)
            ==> shown_char(c).len() == 0,
        shown_chars(seq![c]) == shown_char(c),
    decreases b.len(),
{
    assert(seq![c].drop_last() =~= Seq::empty());
    assert(shown_chars(seq![c]) == shown_chars(Seq::empty()) + shown_char(c));
    assert(shown_chars(Seq::empty()) =~= Seq::empty());
    if b.len() == 0 {
        assert(a + b =~= a);
    } else {
        lines_are_shown_character_by_character(a, b.drop_last(), c);
        assert((a + b).drop_last() =~= a + b.drop_last());
    }
}

/// What is kept of an answer is the answer itself; beside it stand its form, how many objectives
/// it has and the one that it recommends. What is told is what was kept, and of which answer.
pub proof fn reports_keep_the_answer(page: Tree, id: Seq<char>, record: Tree)
    requires
        report_of(page, id) is Ok,
    ensures
        ({
            let plan = report_of(page, id)->Ok_0;
            let (result, output) = paired(events_of(page), id)->Ok_0;
            let value = json_of_text(output)->Ok_0;
            let m = Tree::Object(plan.metadata);
            let t = reported_tree(plan, record);
            &&& json_of_text(output) is Ok
            &&& well_answered(value)
            &&& plan.bytes == vstd::utf8::encode_utf8(json_text(value))
            &&& plan.result_event_id == result
            &&& plan.recommended_objective_id == value.at("recommended_objective_id"@)
            &&& m.at("objective_count"@) == counted(list_or_empty(value, "objectives"@).len())
            &&& m.at("recommended_objective_id"@) == value.at("recommended_objective_id"@)
            &&& m.text_at("schema"@) == Some("euler.autoresearch.objective.v1"@)
            &&& t.at("byte_len"@) == record.at("byte_len"@)
            &&& t.at("persisted_event_id"@) == record.at("persisted_event_id"@)
            &&& t.at("relative_path"@) == record.at("relative_path"@)
            &&& t.at("sha256"@) == record.at("sha256"@)
            &&& t.at("recommended_objective_id"@) == value.at("recommended_objective_id"@)
            &&& t.text_at("result_event_id"@) == Some(result)
            &&& t.flag_at("slot_published"@) == Some(true)
        }),
{
    let plan = report_of(page, id)->Ok_0;
    let (result, output) = paired(events_of(page), id)->Ok_0;
    let value = json_of_text(output)->Ok_0;
    complete_answers_are_taken(value);
    let m = plan.metadata;
    reveal_strlit("objective_count");
    reveal_strlit("recommended_objective_id");
    reveal_strlit("schema");
    lemma_first_row(m, "objective_count"@, 0);
    assert(m[0].0.len() == 15 && "recommended_objective_id"@.len() == 24);
    lemma_first_row(m, "recommended_objective_id"@, 1);
    assert(m[0].0.len() == 15 && m[1].0.len() == 24 && "schema"@.len() == 6);
    lemma_first_row(m, "schema"@, 2);
    let o = reported_tree(plan, record)->Object_0;
    reveal_strlit("byte_len");
    reveal_strlit("persisted_event_id");
    reveal_strlit("recommended_objective_id");
    reveal_strlit("relative_path");
    reveal_strlit("result_event_id");
    reveal_strlit("sha256");
    reveal_strlit("slot_published");
    lemma_first_row(o, "byte_len"@, 0);
    assert(o[0].0.len() == 8 && "persisted_event_id"@.len() == 18);
    lemma_first_row(o, "persisted_event_id"@, 1);
    assert(o[0].0.len() == 8 && o[1].0.len() == 18 && "recommended_objective_id"@.len() == 24);
    lemma_first_row(o, "recommended_objective_id"@, 2);
    assert(o[0].0.len() == 8 && o[1].0.len() == 18 && o[2].0.len() == 24 && "relative_path"@.len() == 13);
    lemma_first_row(o, "relative_path"@, 3);
    assert(o[0].0.len() == 8 && o[1].0.len() == 18 && o[2].0.len() == 24 && o[3].0.len() == 13 && "result_event_id"@.len() == 15);
    lemma_first_row(o, "result_event_id"@, 4);
    assert(o[0].0.len() == 8 && o[1].0.len() == 18 && o[2].0.len() == 24 && o[3].0.len() == 13 && o[4].0.len() == 15 && "sha256"@.len() == 6);
    lemma_first_row(o, "sha256"@, 5);
    assert(o[0].0.len() == 8 && o[1].0.len() == 18 && o[2].0.len() == 24 && o[3].0.len() == 13 && o[4].0.len() == 15 && o[5].0.len() == 6 && "slot_published"@.len() == 14);
    lemma_first_row(o, "slot_published"@, 6);
}

} // verus!
