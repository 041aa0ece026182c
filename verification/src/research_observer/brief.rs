//! The brief of an observer: the window of events that it is shown, and its task.

use super::input::{
    ids_from, says, window_of, Apply, ApplyInput, Brief, BriefInput, ResearchRefreshInput,
    MAX_INPUT_ID_BYTES, MAX_OBSERVED_EVENTS, RESEARCH_MODE,
};
use super::task::{fit_task, task_of};
use crate::event::{Event, EventEnvelope};
use crate::json::{counted, optional_text, texts, Json, Members, Numeral, NumberModel, Tree};
use crate::projection::forest::one_session;
use crate::refresh::PageFence;
use crate::research_record::types::{Record, ResearchRecord};
use crate::research_state::{event_of, ResearchState, Selected};
use crate::sdk::{
    answers, input_error, passes, scan_or_default, ExtensionError, ProvenanceQuery,
    SpawnAgentTask,
};
use crate::table::{lemma_first_row, lemma_member_add, lemma_no_row, lemma_one_row, member};
use crate::text::{byte_len, same};
use crate::update::ids_of;
use vstd::prelude::*;

verus! {

pub const RESEARCH_BRIEF_SCHEMA: &'static str = "euler.research_record.observer_brief.v1";

pub const OBSERVER_SYSTEM_PROMPT: &'static str = "You are Euler's durable research-record observer. Construct only source-grounded proposals about what the pilot agent actually did. Do not solve the task, call tools, infer hidden reasoning, or turn a later alternative into a repair without concrete reused failure evidence. Return exactly one JSON object with schema `euler.research_record.proposals.v1` and no prose.";

/// What is said where no record was enabled.
pub const NOT_ENABLED: &'static str = "research-record pilot is not enabled; run causal-dag.research-enable first";

/// The state, if one was enabled.
pub fn enabled(state: Option<ResearchState>) -> (r: Result<ResearchState, ExtensionError>)
    ensures
        match state {
            Some(state) => r == Ok::<ResearchState, ExtensionError>(state),
            None => r matches Err(e) && e is Message && e->Message_0@ == NOT_ENABLED@,
        },
{
    match state {
        Some(state) => Ok(state),
        None => Err(input_error(NOT_ENABLED)),
    }
}

/// The event behind which a brief looks: the one that the state was observed through. Where the
/// input names one, it must be that.
pub open spec fn cursor_for(b: Brief, s: Selected) -> Result<Option<Seq<char>>, Seq<char>> {
    if b.after is Some && b.after != s.observed_through_event_id {
        Err("research-record observer cursor does not match its active record cursor"@)
    } else if b.after is Some {
        Ok(b.after)
    } else {
        Ok(s.observed_through_event_id)
    }
}

/// Whether two optional texts are the same.
fn same_optional(a: &Option<String>, b: &Option<String>) -> (r: bool)
    ensures
        r == (a.deep_view() == b.deep_view()),
{
    match a {
        Some(a) => match b {
            Some(b) => same(a, b),
            None => false,
        },
        None => b.is_none(),
    }
}

/// What is wrong with events that are not all of a session.
pub open spec fn window_session_fault(session: Option<Seq<char>>, events: Seq<Event>) -> Option<
    Seq<char>,
> {
    match session {
        Some(session) => if one_session(events, session) {
            None
        } else {
            Some("session_id does not match the research-record source window"@)
        },
        None => None,
    }
}

pub fn validate_session(session_id: &Option<String>, events: &Vec<EventEnvelope>) -> (r: Result<
    (),
    ExtensionError,
>)
    ensures
        passes(r, window_session_fault(session_id.deep_view(), events.deep_view())),
{
    let session = match session_id {
        Some(session) => session,
        None => {
            return Ok(());
        },
    };
    let mut i: usize = 0;
    while i < events.len()
        invariant
            i <= events@.len(),
            session_id.deep_view() == Some(session@),
            forall|j: int| 0 <= j < i ==> (#[trigger] events.deep_view()[j]).session == session@,
        decreases events@.len() - i,
    {
        assert(events.deep_view()[i as int].session == events@[i as int].session@);
        if !same(&events[i].session, session) {
            return Err(
                input_error("session_id does not match the research-record source window"),
            );
        }
        i += 1;
    }
    Ok(())
}

/// A task that is ready for an observer, and the window that its proposals apply to.
pub struct PreparedBrief {
    pub task: String,
    pub apply: ApplyInput,
    pub max_tokens: u64,
}

/// What a [`PreparedBrief`] holds.
#[verifier::ext_equal]
pub struct Prepared {
    pub task: Seq<char>,
    pub apply: Apply,
    pub max_tokens: u64,
}

impl DeepView for PreparedBrief {
    type V = Prepared;

    open spec fn deep_view(&self) -> Prepared {
        Prepared {
            task: self.task@,
            apply: self.apply.deep_view(),
            max_tokens: self.max_tokens,
        }
    }
}

/// What comes of a window: nothing to observe, and the event that it was observed through now, or
/// a task.
pub enum BriefStep {
    Idle(Option<String>),
    Ready(PreparedBrief),
}

/// What a [`BriefStep`] holds.
#[verifier::ext_equal]
pub enum Step {
    Idle(Option<Seq<char>>),
    Ready(Prepared),
}

impl DeepView for BriefStep {
    type V = Step;

    open spec fn deep_view(&self) -> Step {
        match self {
            BriefStep::Idle(cursor) => Step::Idle(cursor.deep_view()),
            BriefStep::Ready(prepared) => Step::Ready(prepared.deep_view()),
        }
    }
}

/// The event that a window without anything to observe was observed through now.
pub open spec fn idle_cursor(s: Selected, watermark: Option<Seq<char>>) -> Option<Seq<char>> {
    if watermark is Some && s.observed_through_event_id != watermark {
        watermark
    } else {
        None
    }
}

/// A task of given text that tells the first `count` events.
pub open spec fn ready(
    b: Brief,
    s: Selected,
    after: Option<Seq<char>>,
    listed: Seq<Event>,
    task: Seq<char>,
    count: nat,
) -> Prepared {
    Prepared {
        task,
        apply: Apply {
            limit: b.limit,
            scan_limit: b.scan_limit,
            after,
            watermark: listed[count - 1].id,
            session: b.session,
            expected: event_of(s.record),
            observed: ids_of(listed).take(count as int),
        },
        max_tokens: b.max_tokens,
    }
}

/// What comes of a window whose page was fenced and whose events were listed.
pub open spec fn step_of(
    b: Brief,
    s: Selected,
    after: Option<Seq<char>>,
    fence: PageFence,
    listed: Seq<Event>,
    record: Option<Record>,
) -> Result<Step, Seq<char>> {
    if fence.stalled_on_incomplete_observer {
        Err("research-record observer page ends inside an observer run; increase limit"@)
    } else {
        match window_session_fault(b.session, listed) {
            Some(e) => Err(e),
            None => if listed.len() == 0 {
                Ok(Step::Idle(idle_cursor(s, fence.watermark_event_id.deep_view())))
            } else {
                match task_of(record, listed) {
                    Err(e) => Err(e),
                    Ok((task, count)) => Ok(
                        Step::Ready(ready(b, s, after, listed, task, count as nat)),
                    ),
                }
            },
        }
    }
}

impl BriefInput {
    /// The event behind which the brief looks.
    pub fn cursor(&self, state: &ResearchState) -> (r: Result<Option<String>, ExtensionError>)
        ensures
            answers(r, cursor_for(self.deep_view(), state.deep_view())),
    {
        if self.after_event_id.is_some() {
            if !same_optional(&self.after_event_id, &state.observed_through_event_id) {
                return Err(
                    input_error(
                        "research-record observer cursor does not match its active record cursor",
                    ),
                );
            }
            return Ok(self.after_event_id.clone());
        }
        Ok(state.observed_through_event_id.clone())
    }

    pub fn query(&self, after: &Option<String>) -> (r: ProvenanceQuery)
        ensures
            r.asks(after.deep_view(), self.limit, scan_or_default(self.scan_limit)),
    {
        ProvenanceQuery::page(self.limit, self.scan_limit, after)
    }

    /// What comes of a window whose page was fenced and whose events were listed.
    pub fn prepare(
        &self,
        state: &ResearchState,
        after: &Option<String>,
        fence: &PageFence,
        listed: &Vec<EventEnvelope>,
        record: Option<&ResearchRecord>,
    ) -> (r: Result<BriefStep, ExtensionError>)
        ensures
            answers(
                r,
                step_of(
                    self.deep_view(),
                    state.deep_view(),
                    after.deep_view(),
                    *fence,
                    listed.deep_view(),
                    record.deep_view(),
                ),
            ),
    {
        if fence.stalled_on_incomplete_observer {
            return Err(
                input_error(
                    "research-record observer page ends inside an observer run; increase limit",
                ),
            );
        }
        validate_session(&self.session_id, listed)?;
        assert(listed.deep_view().len() == listed@.len());
        if listed.len() == 0 {
            if fence.watermark_event_id.is_some() && !same_optional(
                &state.observed_through_event_id,
                &fence.watermark_event_id,
            ) {
                return Ok(BriefStep::Idle(fence.watermark_event_id.clone()));
            }
            return Ok(BriefStep::Idle(None));
        }
        let (task, count) = fit_task(record, listed)?;
        let ghost all = listed.deep_view();
        let mut observed: Vec<String> = Vec::new();
        let mut i: usize = 0;
        while i < count
            invariant
                i <= count <= listed@.len(),
                observed@.len() == i,
                forall|j: int| 0 <= j < i ==> (#[trigger] observed@[j])@ == listed@[j].id@,
            decreases count - i,
        {
            observed.push(listed[i].id.clone());
            i += 1;
        }
        assert(observed.deep_view() =~= ids_of(all).take(count as int));
        assert(all[count - 1] == listed@[count - 1]@);
        let expected = match state.record_artifact_event_id() {
            Some(id) => Some(id.clone()),
            None => None,
        };
        Ok(
            BriefStep::Ready(
                PreparedBrief {
                    task,
                    apply: ApplyInput {
                        limit: self.limit,
                        scan_limit: self.scan_limit,
                        after_event_id: after.clone(),
                        watermark_event_id: listed[count - 1].id.clone(),
                        session_id: self.session_id.clone(),
                        expected_record_artifact_event_id: expected,
                        observed_event_ids: observed,
                    },
                    max_tokens: self.max_tokens,
                },
            ),
        )
    }
}

/// The members of the window that an envelope carries.
pub open spec fn apply_rows(a: Apply) -> Seq<(Seq<char>, Tree)> {
    let after = match a.after {
        Some(after) => seq![("after_event_id"@, Tree::Text(after))],
        None => Seq::empty(),
    };
    let scan = match a.scan_limit {
        Some(scan_limit) => seq![("scan_limit"@, counted(scan_limit as nat))],
        None => Seq::empty(),
    };
    let session = match a.session {
        Some(session) => seq![("session_id"@, Tree::Text(session))],
        None => Seq::empty(),
    };
    after + seq![
        ("expected_record_artifact_event_id"@, optional_text(a.expected)),
        ("limit"@, counted(a.limit as nat)),
        ("mode"@, Tree::Text(RESEARCH_MODE@)),
        ("observed_event_ids"@, texts(a.observed)),
    ] + scan + session + seq![("watermark_event_id"@, Tree::Text(a.watermark))]
}

fn apply_value(a: &ApplyInput) -> (r: Json)
    ensures
        r@ == Tree::Object(apply_rows(a.deep_view())),
{
    broadcast use crate::json::object_model;

    let mut rows: Members = Vec::new();
    if let Some(after) = &a.after_event_id {
        rows.push(("after_event_id".to_owned(), Json::of_text(after)));
    }
    rows.push(
        (
            "expected_record_artifact_event_id".to_owned(),
            Json::of_optional_text(&a.expected_record_artifact_event_id),
        ),
    );
    rows.push(("limit".to_owned(), Json::of_count(a.limit)));
    rows.push(("mode".to_owned(), Json::of_text(RESEARCH_MODE)));
    rows.push(("observed_event_ids".to_owned(), Json::of_texts(&a.observed_event_ids)));
    if let Some(scan_limit) = a.scan_limit {
        rows.push(("scan_limit".to_owned(), Json::of_count(scan_limit)));
    }
    if let Some(session) = &a.session_id {
        rows.push(("session_id".to_owned(), Json::of_text(session)));
    }
    rows.push(("watermark_event_id".to_owned(), Json::of_text(&a.watermark_event_id)));
    assert(rows.deep_view() =~= apply_rows(a.deep_view()));
    Json::Object(rows)
}

/// A number as JSON holds it.
pub open spec fn number(n: u64) -> Tree {
    Tree::Number(NumberModel::Positive(n))
}

/// What an observer may spend.
pub open spec fn budget_tree(max_tokens: u64) -> Tree {
    Tree::Object(
        seq![
            ("max_tokens"@, number(max_tokens)),
            ("max_tool_calls"@, number(0)),
            ("max_turns"@, number(1)),
        ],
    )
}

/// What is answered where a task is ready.
pub open spec fn brief_tree(p: Prepared, max_tokens: u64, persona: Seq<char>) -> Tree {
    Tree::Object(
        seq![
            ("after_event_id_echo"@, optional_text(p.apply.after)),
            ("apply"@, Tree::Object(apply_rows(p.apply))),
            ("budget"@, budget_tree(max_tokens)),
            ("capabilities"@, Tree::List(Seq::empty())),
            ("listed_event_count"@, counted(p.apply.observed.len())),
            ("model"@, Tree::Text(Seq::empty())),
            ("persona"@, Tree::Text(persona)),
            ("provider"@, Tree::Text(Seq::empty())),
            ("schema"@, Tree::Text(RESEARCH_BRIEF_SCHEMA@)),
            ("system_prompt"@, Tree::Text(OBSERVER_SYSTEM_PROMPT@)),
            ("task"@, Tree::Text(p.task)),
            ("watermark_event_id"@, Tree::Text(p.apply.watermark)),
        ],
    )
}

/// What is answered where a task is ready.
pub fn brief_output(input: &BriefInput, prepared: &PreparedBrief, persona: &str) -> (r: Json)
    ensures
        r@ == brief_tree(prepared.deep_view(), input.max_tokens, persona@),
{
    broadcast use {crate::json::object_model, crate::json::list_model};

    let budget = vec![
        ("max_tokens".to_owned(), Json::Number(Numeral::Positive(input.max_tokens))),
        ("max_tool_calls".to_owned(), Json::Number(Numeral::Positive(0))),
        ("max_turns".to_owned(), Json::Number(Numeral::Positive(1))),
    ];
    assert(budget.deep_view() =~= budget_tree(input.max_tokens)->Object_0);
    let none: Vec<Json> = Vec::new();
    assert(none.deep_view() =~= Seq::empty());
    let empty = String::new();
    assert(prepared.deep_view().apply.observed.len() == prepared.apply.observed_event_ids@.len());
    let rows = vec![
        ("after_event_id_echo".to_owned(), Json::of_optional_text(&prepared.apply.after_event_id)),
        ("apply".to_owned(), apply_value(&prepared.apply)),
        ("budget".to_owned(), Json::Object(budget)),
        ("capabilities".to_owned(), Json::List(none)),
        (
            "listed_event_count".to_owned(),
            Json::of_count(prepared.apply.observed_event_ids.len()),
        ),
        ("model".to_owned(), Json::of_text(&empty)),
        ("persona".to_owned(), Json::of_text(persona)),
        ("provider".to_owned(), Json::of_text(&empty)),
        ("schema".to_owned(), Json::of_text(RESEARCH_BRIEF_SCHEMA)),
        ("system_prompt".to_owned(), Json::of_text(OBSERVER_SYSTEM_PROMPT)),
        ("task".to_owned(), Json::of_text(&prepared.task)),
        ("watermark_event_id".to_owned(), Json::of_text(&prepared.apply.watermark_event_id)),
    ];
    assert(rows.deep_view() =~= brief_tree(
        prepared.deep_view(),
        input.max_tokens,
        persona@,
    )->Object_0);
    Json::Object(rows)
}

/// What is answered where there is nothing to observe.
pub open spec fn idle_tree(s: Selected) -> Tree {
    Tree::Object(
        seq![
            ("listed_event_count"@, counted(0)),
            ("mode"@, Tree::Text(RESEARCH_MODE@)),
            ("schema"@, Tree::Text(RESEARCH_BRIEF_SCHEMA@)),
            ("status"@, Tree::Text("idle"@)),
            ("watermark_event_id"@, optional_text(s.observed_through_event_id)),
        ],
    )
}

/// What is answered where there is nothing to observe.
pub fn idle_output(state: &ResearchState) -> (r: Json)
    ensures
        r@ == idle_tree(state.deep_view()),
{
    broadcast use crate::json::object_model;

    let rows = vec![
        ("listed_event_count".to_owned(), Json::of_count(0)),
        ("mode".to_owned(), Json::of_text(RESEARCH_MODE)),
        ("schema".to_owned(), Json::of_text(RESEARCH_BRIEF_SCHEMA)),
        ("status".to_owned(), Json::of_text("idle")),
        (
            "watermark_event_id".to_owned(),
            Json::of_optional_text(&state.observed_through_event_id),
        ),
    ];
    assert(rows.deep_view() =~= idle_tree(state.deep_view())->Object_0);
    Json::Object(rows)
}

impl ResearchRefreshInput {
    /// The task of the observer that the host is asked to run. It sees nothing but its own
    /// window.
    pub fn observer_task(&self, prepared: &PreparedBrief, persona: &str) -> (r: Result<
        SpawnAgentTask,
        ExtensionError,
    >)
        ensures
            match r {
                Ok(t) => {
                    &&& self.provider@.len() > 0
                    &&& t.task@ == prepared.task@
                    &&& t.persona@ == persona@
                    &&& t.provider@ == self.provider@
                    &&& t.model@ == self.model@
                    &&& t.system_prompt@ == OBSERVER_SYSTEM_PROMPT@
                    &&& t.explicit_context is None
                    &&& !t.include_parent_canvas
                    &&& t.capabilities@.len() == 0
                    &&& t.max_turns == Some(1u64)
                    &&& t.max_tool_calls == Some(0u64)
                    &&& t.max_tokens == Some(prepared.max_tokens)
                },
                Err(e) => {
                    &&& self.provider@.len() == 0
                    &&& e is Message
                    &&& e->Message_0@
                        == "research refresh needs provider and model when observable pilot events require reconciliation"@
                },
            },
    {
        proof {
            crate::text::lemma_byte_len_bounds(self.provider@);
        }
        if crate::text::byte_count(&self.provider) == 0 {
            return Err(
                input_error(
                    "research refresh needs provider and model when observable pilot events require reconciliation",
                ),
            );
        }
        Ok(
            SpawnAgentTask {
                task: prepared.task.clone(),
                persona: persona.to_owned(),
                provider: self.provider.clone(),
                model: self.model.clone(),
                system_prompt: OBSERVER_SYSTEM_PROMPT.to_owned(),
                explicit_context: None,
                include_parent_canvas: false,
                capabilities: Vec::new(),
                max_turns: Some(1),
                max_tool_calls: Some(0),
                max_tokens: Some(prepared.max_tokens),
            },
        )
    }
}

/// The window of a task ends at its watermark, and all its events were listed.
pub proof fn tasks_end_at_their_watermark(
    b: Brief,
    s: Selected,
    after: Option<Seq<char>>,
    fence: PageFence,
    listed: Seq<Event>,
    record: Option<Record>,
)
    requires
        step_of(b, s, after, fence, listed, record) matches Ok(Step::Ready(p)),
        listed.len() <= usize::MAX,
    ensures
        ({
            let p = step_of(b, s, after, fence, listed, record)->Ok_0->Ready_0;
            &&& p.apply.observed.len() > 0
            &&& p.apply.observed.is_prefix_of(ids_of(listed))
            &&& p.apply.watermark == p.apply.observed.last()
            &&& p.apply.expected == event_of(s.record)
        }),
{
    let lines = super::task::event_lines(listed);
    let prefix = super::task::prefix_lines(record);
    lemma_count(prefix, lines, lines.len());
    let count = super::task::fitting_count(prefix, lines, lines.len());
    assert(ids_of(listed).take(count as int).len() == count);
    assert(ids_of(listed).take(count as int)[count - 1] == listed[count - 1].id);
}

proof fn lemma_count(prefix: Seq<Seq<char>>, lines: Seq<Seq<char>>, n: nat)
    ensures
        super::task::fitting_count(prefix, lines, n) <= n,
    decreases n,
{
    if n > 0 {
        lemma_count(prefix, lines, (n - 1) as nat);
    }
}

/// Whether a text can stand as an identifier in an envelope.
pub open spec fn carried(id: Seq<char>) -> bool {
    id.len() > 0 && byte_len(id) <= MAX_INPUT_ID_BYTES
}

/// Whether a window can be carried by an envelope.
pub open spec fn carried_window(a: Apply) -> bool {
    &&& a.limit > 0
    &&& a.scan_limit matches Some(n) ==> n > 0
    &&& a.after matches Some(id) ==> carried(id)
    &&& a.session matches Some(id) ==> carried(id)
    &&& a.expected matches Some(id) ==> carried(id)
    &&& carried(a.watermark)
    &&& 0 < a.observed.len() <= MAX_OBSERVED_EVENTS
    &&& forall|i: int| 0 <= i < a.observed.len() ==> carried(#[trigger] a.observed[i])
}

proof fn lemma_ids_read_back(v: Seq<Seq<char>>, field: Seq<char>, i: nat)
    requires
        i <= v.len(),
        forall|k: int| 0 <= k < v.len() ==> carried(#[trigger] v[k]),
    ensures
        ids_from(texts(v)->List_0, field, i, v.take(i as int)) == Ok::<
            Seq<Seq<char>>,
            Seq<char>,
        >(v),
    decreases v.len() - i,
{
    let list = texts(v)->List_0;
    if i < v.len() {
        assert(list[i as int] == Tree::Text(v[i as int]));
        assert(v.take(i as int).push(v[i as int]) =~= v.take(i as int + 1));
        lemma_ids_read_back(v, field, i + 1);
    } else {
        assert(v.take(i as int) =~= v);
    }
}

proof fn lemma_apply_row(a: Apply, name: Seq<char>)
    ensures
        ({
            let fixed = seq![
                ("expected_record_artifact_event_id"@, optional_text(a.expected)),
                ("limit"@, counted(a.limit as nat)),
                ("mode"@, Tree::Text(RESEARCH_MODE@)),
                ("observed_event_ids"@, texts(a.observed)),
            ];
            member(apply_rows(a), name) == (if name == "after_event_id"@ && a.after is Some {
                Some(Tree::Text(a.after->0))
            } else if member(fixed, name) is Some {
                member(fixed, name)
            } else if name == "scan_limit"@ && a.scan_limit is Some {
                Some(counted(a.scan_limit->0 as nat))
            } else if name == "session_id"@ && a.session is Some {
                Some(Tree::Text(a.session->0))
            } else if name == "watermark_event_id"@ {
                Some(Tree::Text(a.watermark))
            } else {
                None
            })
        }),
{
    let after = match a.after {
        Some(after) => seq![("after_event_id"@, Tree::Text(after))],
        None => Seq::empty(),
    };
    let fixed = seq![
        ("expected_record_artifact_event_id"@, optional_text(a.expected)),
        ("limit"@, counted(a.limit as nat)),
        ("mode"@, Tree::Text(RESEARCH_MODE@)),
        ("observed_event_ids"@, texts(a.observed)),
    ];
    let scan = match a.scan_limit {
        Some(scan_limit) => seq![("scan_limit"@, counted(scan_limit as nat))],
        None => Seq::empty(),
    };
    let session = match a.session {
        Some(session) => seq![("session_id"@, Tree::Text(session))],
        None => Seq::empty(),
    };
    let last = seq![("watermark_event_id"@, Tree::Text(a.watermark))];
    lemma_member_add(after + fixed + scan + session, last, name);
    lemma_member_add(after + fixed + scan, session, name);
    lemma_member_add(after + fixed, scan, name);
    lemma_member_add(after, fixed, name);
    lemma_one_row(("watermark_event_id"@, Tree::Text(a.watermark)), name);
    if a.after is Some {
        lemma_one_row(("after_event_id"@, Tree::Text(a.after->0)), name);
    }
    if a.scan_limit is Some {
        lemma_one_row(("scan_limit"@, counted(a.scan_limit->0 as nat)), name);
    }
    if a.session is Some {
        lemma_one_row(("session_id"@, Tree::Text(a.session->0)), name);
    }
}

/// The window that a brief hands on is read back from its envelope as it was.
pub proof fn windows_are_read_back(a: Apply)
    requires
        carried_window(a),
    ensures
        window_of(apply_rows(a)) == Ok::<Apply, Seq<char>>(a),
        says(apply_rows(a), "mode"@, RESEARCH_MODE@),
{
    let fixed = seq![
        ("expected_record_artifact_event_id"@, optional_text(a.expected)),
        ("limit"@, counted(a.limit as nat)),
        ("mode"@, Tree::Text(RESEARCH_MODE@)),
        ("observed_event_ids"@, texts(a.observed)),
    ];
    reveal_strlit("expected_record_artifact_event_id");
    reveal_strlit("limit");
    reveal_strlit("mode");
    reveal_strlit("observed_event_ids");
    reveal_strlit("after_event_id");
    reveal_strlit("scan_limit");
    reveal_strlit("session_id");
    reveal_strlit("watermark_event_id");
    assert(fixed[0].0 == "expected_record_artifact_event_id"@ && fixed[1].0 == "limit"@
        && fixed[2].0 == "mode"@ && fixed[3].0 == "observed_event_ids"@);
    assert("scan_limit"@[1] != "session_id"@[1]);
    assert("observed_event_ids"@[0] != "watermark_event_id"@[0]);
    assert("after_event_id"@.len() == 14 && "observed_event_ids"@.len() == 18);
    assert forall|j: int| 0 <= j < fixed.len() implies (#[trigger] fixed[j]).0
        != "after_event_id"@ by {
        assert(j == 0 || j == 1 || j == 2 || j == 3);
    }
    lemma_first_row(fixed, "expected_record_artifact_event_id"@, 0);
    lemma_first_row(fixed, "limit"@, 1);
    lemma_first_row(fixed, "mode"@, 2);
    lemma_first_row(fixed, "observed_event_ids"@, 3);
    lemma_no_row(fixed, "after_event_id"@);
    lemma_no_row(fixed, "scan_limit"@);
    lemma_no_row(fixed, "session_id"@);
    lemma_no_row(fixed, "watermark_event_id"@);
    lemma_apply_row(a, "limit"@);
    lemma_apply_row(a, "mode"@);
    lemma_apply_row(a, "scan_limit"@);
    lemma_apply_row(a, "after_event_id"@);
    lemma_apply_row(a, "watermark_event_id"@);
    lemma_apply_row(a, "session_id"@);
    lemma_apply_row(a, "expected_record_artifact_event_id"@);
    lemma_apply_row(a, "observed_event_ids"@);
    assert(a.observed.take(0) =~= Seq::empty());
    lemma_ids_read_back(a.observed, "observed_event_ids"@, 0);
}

/// A brief starts at the cursor of the state: it may name that cursor, and no other.
pub proof fn briefs_start_at_the_cursor(b: Brief, s: Selected)
    ensures
        cursor_for(b, s) is Ok <==> b.after is None || b.after == s.observed_through_event_id,
        cursor_for(b, s) is Ok ==> cursor_for(b, s)->Ok_0 == s.observed_through_event_id,
{
}

/// A brief is refused where its page ends inside an observer's run or holds another session's
/// events. Where no event is left, there is nothing to do, and the cursor moves to the end of the
/// page unless it is there. Else the answer is to be applied to the state as it is now, for just
/// the events that were told, up to the last of them.
pub proof fn briefs_ask_about_what_is_new(
    b: Brief,
    s: Selected,
    after: Option<Seq<char>>,
    fence: PageFence,
    listed: Seq<Event>,
    record: Option<Record>,
)
    ensures
        ({
            let r = step_of(b, s, after, fence, listed, record);
            let seen = fence.watermark_event_id.deep_view();
            &&& fence.stalled_on_incomplete_observer ==> r is Err
            &&& b.session is Some && !one_session(listed, b.session->0) ==> r is Err
            &&& r is Ok && listed.len() == 0 ==> r->Ok_0 == Step::Idle(
                if seen is Some && s.observed_through_event_id != seen {
                    seen
                } else {
                    None
                },
            )
            &&& r is Ok && listed.len() > 0 ==> r->Ok_0 is Ready && ({
                let p = r->Ok_0->Ready_0;
                let count = task_of(record, listed)->Ok_0.1 as int;
                &&& p.task == task_of(record, listed)->Ok_0.0
                &&& p.max_tokens == b.max_tokens
                &&& p.apply.limit == b.limit && p.apply.scan_limit == b.scan_limit
                &&& p.apply.after == after && p.apply.session == b.session
                &&& p.apply.watermark == listed[count - 1].id
                &&& p.apply.observed == Seq::new(listed.len(), |i: int| listed[i].id).take(count)
                &&& s.record is None ==> p.apply.expected is None
                &&& s.record matches Some(kept) ==> p.apply.expected == Some(
                    kept.record.persisted_event_id,
                )
            })
        }),
{
}

/// A brief hands out its task, one turn without tools, and what its answer is to be applied with.
pub proof fn briefs_are_handed_out_whole(
    p: Prepared,
    max_tokens: u64,
    persona: Seq<char>,
    s: Selected,
)
    ensures
        ({
            let t = brief_tree(p, max_tokens, persona);
            &&& t.text_at("task"@) == Some(p.task)
            &&& t.at("apply"@) == Tree::Object(apply_rows(p.apply))
            &&& t.at("after_event_id_echo"@) == optional_text(p.apply.after)
            &&& t.at("listed_event_count"@) == counted(p.apply.observed.len())
            &&& t.text_at("watermark_event_id"@) == Some(p.apply.watermark)
            &&& t.text_at("persona"@) == Some(persona)
            &&& t.text_at("schema"@) == Some("euler.research_record.observer_brief.v1"@)
            &&& t.list_at("capabilities"@) == Some(Seq::<Tree>::empty())
            &&& t.at("budget"@).at("max_tokens"@).count() == Some(max_tokens)
            &&& t.at("budget"@).at("max_tool_calls"@).count() == Some(0u64)
            &&& t.at("budget"@).at("max_turns"@).count() == Some(1u64)
        }),
        ({
            let t = idle_tree(s);
            &&& t.at("listed_event_count"@) == counted(0)
            &&& t.text_at("status"@) == Some("idle"@)
            &&& t.text_at("mode"@) == Some("research_record_v1"@)
            &&& t.text_at("schema"@) == Some("euler.research_record.observer_brief.v1"@)
            &&& t.at("watermark_event_id"@) == optional_text(s.observed_through_event_id)
        }),
{
    let o = brief_tree(p, max_tokens, persona)->Object_0;
    reveal_strlit("after_event_id_echo");
    reveal_strlit("apply");
    reveal_strlit("budget");
    reveal_strlit("capabilities");
    reveal_strlit("listed_event_count");
    reveal_strlit("model");
    reveal_strlit("persona");
    reveal_strlit("provider");
    reveal_strlit("schema");
    reveal_strlit("system_prompt");
    reveal_strlit("task");
    reveal_strlit("watermark_event_id");
    lemma_first_row(o, "after_event_id_echo"@, 0);
    assert(o[0].0.len() == 19 && "apply"@.len() == 5);
    lemma_first_row(o, "apply"@, 1);
    assert(o[0].0.len() == 19 && o[1].0.len() == 5 && "budget"@.len() == 6);
    lemma_first_row(o, "budget"@, 2);
    assert(o[0].0.len() == 19 && o[1].0.len() == 5 && o[2].0.len() == 6 && "capabilities"@.len() == 12);
    lemma_first_row(o, "capabilities"@, 3);
    assert(o[0].0.len() == 19 && o[1].0.len() == 5 && o[2].0.len() == 6 && o[3].0.len() == 12 && "listed_event_count"@.len() == 18);
    lemma_first_row(o, "listed_event_count"@, 4);
    assert(o[0].0.len() == 19 && o[1].0[0] == 'a' && o[2].0.len() == 6 && o[3].0.len() == 12 && o[4].0.len() == 18 && "model"@.len() == 5 && "model"@[0] == 'm');
    lemma_first_row(o, "model"@, 5);
    assert(o[0].0.len() == 19 && o[1].0.len() == 5 && o[2].0.len() == 6 && o[3].0.len() == 12 && o[4].0.len() == 18 && o[5].0.len() == 5 && "persona"@.len() == 7);
    lemma_first_row(o, "persona"@, 6);
    assert(o[0].0.len() == 19 && o[1].0.len() == 5 && o[2].0.len() == 6 && o[3].0.len() == 12 && o[4].0.len() == 18 && o[5].0.len() == 5 && o[6].0.len() == 7 && "provider"@.len() == 8);
    lemma_first_row(o, "provider"@, 7);
    assert(o[0].0.len() == 19 && o[1].0.len() == 5 && o[2].0[0] == 'b' && o[3].0.len() == 12 && o[4].0.len() == 18 && o[5].0.len() == 5 && o[6].0.len() == 7 && o[7].0.len() == 8 && "schema"@.len() == 6 && "schema"@[0] == 's');
    lemma_first_row(o, "schema"@, 8);
    assert(o[0].0.len() == 19 && o[1].0.len() == 5 && o[2].0.len() == 6 && o[3].0.len() == 12 && o[4].0.len() == 18 && o[5].0.len() == 5 && o[6].0.len() == 7 && o[7].0.len() == 8 && o[8].0.len() == 6 && "system_prompt"@.len() == 13);
    lemma_first_row(o, "system_prompt"@, 9);
    assert(o[0].0.len() == 19 && o[1].0.len() == 5 && o[2].0.len() == 6 && o[3].0.len() == 12 && o[4].0.len() == 18 && o[5].0.len() == 5 && o[6].0.len() == 7 && o[7].0.len() == 8 && o[8].0.len() == 6 && o[9].0.len() == 13 && "task"@.len() == 4);
    lemma_first_row(o, "task"@, 10);
    assert(o[0].0.len() == 19 && o[1].0.len() == 5 && o[2].0.len() == 6 && o[3].0.len() == 12 && o[4].0[0] == 'l' && o[5].0.len() == 5 && o[6].0.len() == 7 && o[7].0.len() == 8 && o[8].0.len() == 6 && o[9].0.len() == 13 && o[10].0.len() == 4 && "watermark_event_id"@.len() == 18 && "watermark_event_id"@[0] == 'w');
    lemma_first_row(o, "watermark_event_id"@, 11);
    let u = budget_tree(max_tokens)->Object_0;
    reveal_strlit("max_tokens");
    reveal_strlit("max_tool_calls");
    reveal_strlit("max_turns");
    lemma_first_row(u, "max_tokens"@, 0);
    assert(u[0].0.len() == 10 && "max_tool_calls"@.len() == 14);
    lemma_first_row(u, "max_tool_calls"@, 1);
    assert(u[0].0.len() == 10 && u[1].0.len() == 14 && "max_turns"@.len() == 9);
    lemma_first_row(u, "max_turns"@, 2);
    let i = idle_tree(s)->Object_0;
    reveal_strlit("listed_event_count");
    reveal_strlit("mode");
    reveal_strlit("schema");
    reveal_strlit("status");
    reveal_strlit("watermark_event_id");
    lemma_first_row(i, "listed_event_count"@, 0);
    assert(i[0].0.len() == 18 && "mode"@.len() == 4);
    lemma_first_row(i, "mode"@, 1);
    assert(i[0].0.len() == 18 && i[1].0.len() == 4 && "schema"@.len() == 6);
    lemma_first_row(i, "schema"@, 2);
    assert(i[0].0.len() == 18 && i[1].0.len() == 4 && i[2].0[1] == 'c' && "status"@.len() == 6 && "status"@[1] == 't');
    lemma_first_row(i, "status"@, 3);
    assert(i[0].0[0] == 'l' && i[1].0.len() == 4 && i[2].0.len() == 6 && i[3].0.len() == 6 && "watermark_event_id"@.len() == 18 && "watermark_event_id"@[0] == 'w');
    lemma_first_row(i, "watermark_event_id"@, 4);
}

} // verus!
