//! The refresh command: an explicit revision of the graph that is selected.

use crate::active_state::{Active, ActiveGraphState};
use crate::aliases::{resolve_aliases, resolved, Aliases, Meanings};
use crate::construction::{
    policy_from, ConstructionOperation, ConstructionPolicy, ConstructionTrigger,
};
use crate::event::{Event, EventEnvelope};
use crate::inputs::{reject_unknown_fields, unknown_field, DEFAULT_LIMIT};
use crate::json::{optional_text, Json, Members, Tree};
use crate::observe::{Commit, ObservationCommit, Observe, ObserveInput, OBSERVER_HINT_MAX_BYTES};
use crate::observer_apply::{hints_in, parse_hints_output};
use crate::projection::sources::{with_field, with_member};
use crate::sdk::{
    answers, fault, input_error, passes, scan_or_default, AgentOutcome, ExtensionError, Outcome,
    Page, ProvenancePage, ProvenanceQuery, SpawnAgentTask,
};
use crate::table::{find, member};
use crate::text::{byte_count, byte_len, join2, join3, same};
use vstd::prelude::*;

verus! {

/// Whether an observer adds to the graph that it is told of or replaces it.
#[derive(Clone, Copy, Debug, PartialEq, Eq, Structural)]
pub enum ObserverBriefMode {
    Incremental,
    Replacement,
}

/// The most bytes of a text that the command is given.
pub const MAX_FIELD_BYTES: usize = 256;

/// A text of bounded length, or none.
pub open spec fn bounded_field(o: Seq<(Seq<char>, Tree)>, key: Seq<char>) -> Result<
    Option<Seq<char>>,
    Seq<char>,
> {
    match member(o, key) {
        None => Ok(None),
        Some(Tree::Null) => Ok(None),
        Some(Tree::Text(text)) => if byte_len(text) <= MAX_FIELD_BYTES {
            Ok(Some(text))
        } else {
            Err(key + " must be a bounded string"@)
        },
        Some(_) => Err(key + " must be a bounded string"@),
    }
}

pub fn optional_bounded(o: &Members, key: &str) -> (r: Result<Option<String>, ExtensionError>)
    ensures
        answers(r, bounded_field(o.deep_view(), key@)),
{
    match find(o, key) {
        None => return Ok(None),
        Some(Json::Null) => return Ok(None),
        Some(Json::Text(text)) => {
            if byte_count(text) <= MAX_FIELD_BYTES {
                return Ok(Some(text.clone()));
            }
        },
        Some(_) => {},
    }
    Err(fault(join2(key, " must be a bounded string")))
}

/// A word of bounded length, or none.
pub open spec fn word_field(o: Seq<(Seq<char>, Tree)>, key: Seq<char>) -> Result<
    Option<Seq<char>>,
    Seq<char>,
> {
    match member(o, key) {
        None => Ok(None),
        Some(Tree::Null) => Ok(None),
        Some(Tree::Text(text)) => if byte_len(text) <= MAX_FIELD_BYTES {
            Ok(Some(text))
        } else {
            Err(key + " must be a bounded string"@)
        },
        Some(_) => Err(key + " must be a string"@),
    }
}

fn optional_word(o: &Members, key: &str) -> (r: Result<Option<String>, ExtensionError>)
    ensures
        answers(r, word_field(o.deep_view(), key@)),
{
    match find(o, key) {
        None => Ok(None),
        Some(Json::Null) => Ok(None),
        Some(Json::Text(text)) => {
            if byte_count(text) <= MAX_FIELD_BYTES {
                Ok(Some(text.clone()))
            } else {
                Err(fault(join2(key, " must be a bounded string")))
            }
        },
        Some(_) => Err(fault(join2(key, " must be a string"))),
    }
}

/// A positive number, or what stands for it where it is missing.
pub open spec fn positive_number(
    o: Seq<(Seq<char>, Tree)>,
    key: Seq<char>,
    default: Option<u64>,
) -> Result<Option<u64>, Seq<char>> {
    match member(o, key) {
        None => Ok(default),
        Some(Tree::Null) => Ok(default),
        Some(value) => match value.count() {
            None => Err(key + " must be a positive integer"@),
            Some(n) => if n == 0 {
                Err(key + " must be greater than zero"@)
            } else {
                Ok(Some(n))
            },
        },
    }
}

pub fn parse_positive_number(o: &Members, key: &str, default: Option<u64>) -> (r: Result<
    Option<u64>,
    ExtensionError,
>)
    ensures
        answers(r, positive_number(o.deep_view(), key@, default)),
{
    match find(o, key) {
        None => Ok(default),
        Some(Json::Null) => Ok(default),
        Some(value) => match value.as_count() {
            None => Err(fault(join2(key, " must be a positive integer"))),
            Some(n) => {
                if n == 0 {
                    Err(fault(join2(key, " must be greater than zero")))
                } else {
                    Ok(Some(n))
                }
            },
        },
    }
}

/// A positive number that counts things in memory.
pub open spec fn positive_size(
    o: Seq<(Seq<char>, Tree)>,
    key: Seq<char>,
    default: Option<u64>,
) -> Result<Option<usize>, Seq<char>> {
    match positive_number(o, key, default) {
        Err(e) => Err(e),
        Ok(None) => Ok(None),
        Ok(Some(n)) => if n <= usize::MAX {
            Ok(Some(n as usize))
        } else {
            Err(key + " is too large"@)
        },
    }
}

pub fn parse_positive_size(o: &Members, key: &str, default: Option<u64>) -> (r: Result<
    Option<usize>,
    ExtensionError,
>)
    ensures
        answers(r, positive_size(o.deep_view(), key@, default)),
{
    match parse_positive_number(o, key, default)? {
        None => Ok(None),
        Some(n) => match usize::try_from(n) {
            Ok(n) => Ok(Some(n)),
            Err(_) => Err(fault(join2(key, " is too large"))),
        },
    }
}

/// The limit of a page.
pub open spec fn page_limit(o: Seq<(Seq<char>, Tree)>) -> Result<usize, Seq<char>> {
    match positive_size(o, "limit"@, Some(DEFAULT_LIMIT as u64)) {
        Err(e) => Err(e),
        Ok(Some(limit)) => Ok(limit),
        Ok(None) => Ok(DEFAULT_LIMIT),
    }
}

pub fn parse_page_limit(o: &Members) -> (r: Result<usize, ExtensionError>)
    ensures
        answers(r, page_limit(o.deep_view())),
{
    match parse_positive_size(o, "limit", Some(DEFAULT_LIMIT as u64))? {
        Some(limit) => Ok(limit),
        None => Ok(DEFAULT_LIMIT),
    }
}

/// The most tokens that an observer may spend.
pub open spec fn token_limit(o: Seq<(Seq<char>, Tree)>, default: u64) -> Result<u64, Seq<char>> {
    match positive_number(o, "max_tokens"@, Some(default)) {
        Err(e) => Err(e),
        Ok(Some(n)) => Ok(n),
        Ok(None) => Ok(default),
    }
}

pub fn parse_token_limit(o: &Members, default: u64) -> (r: Result<u64, ExtensionError>)
    ensures
        answers(r, token_limit(o.deep_view(), default)),
{
    match parse_positive_number(o, "max_tokens", Some(default))? {
        Some(n) => Ok(n),
        None => Ok(default),
    }
}

/// The operation that is asked for.
pub open spec fn operation_of(o: Seq<(Seq<char>, Tree)>) -> Result<
    ConstructionOperation,
    Seq<char>,
> {
    match word_field(o, "operation"@) {
        Err(e) => Err(e),
        Ok(None) => Ok(ConstructionOperation::Incremental),
        Ok(Some(word)) => if word == "incremental"@ {
            Ok(ConstructionOperation::Incremental)
        } else if word == "reframe"@ {
            Ok(ConstructionOperation::Reframe)
        } else if word == "final"@ {
            Ok(ConstructionOperation::Final)
        } else {
            Err(
                "causal-dag refresh operation must be incremental, reframe, or final; got `"@
                    + word + "`"@,
            )
        },
    }
}

fn parse_operation(o: &Members) -> (r: Result<ConstructionOperation, ExtensionError>)
    ensures
        answers(r, operation_of(o.deep_view())),
{
    let word = match optional_word(o, "operation")? {
        None => return Ok(ConstructionOperation::Incremental),
        Some(word) => word,
    };
    if same(&word, "incremental") {
        Ok(ConstructionOperation::Incremental)
    } else if same(&word, "reframe") {
        Ok(ConstructionOperation::Reframe)
    } else if same(&word, "final") {
        Ok(ConstructionOperation::Final)
    } else {
        Err(
            fault(
                join3(
                    "causal-dag refresh operation must be incremental, reframe, or final; got `",
                    &word,
                    "`",
                ),
            ),
        )
    }
}

/// The policy that is asked for.
pub open spec fn policy_asked(o: Seq<(Seq<char>, Tree)>) -> Result<
    Option<ConstructionPolicy>,
    Seq<char>,
> {
    match word_field(o, "policy"@) {
        Err(e) => Err(e),
        Ok(None) => Ok(None),
        Ok(Some(word)) => if word == "manual"@ {
            Ok(Some(ConstructionPolicy::Manual))
        } else if word == "rolling_only"@ {
            Ok(Some(ConstructionPolicy::RollingOnly))
        } else if word == "rolling_and_final"@ {
            Ok(Some(ConstructionPolicy::RollingAndFinal))
        } else if word == "final_only"@ {
            Ok(Some(ConstructionPolicy::FinalOnly))
        } else {
            Err(
                "causal-dag refresh policy must be manual, rolling_only, rolling_and_final, or final_only; got `"@
                    + word + "`"@,
            )
        },
    }
}

fn parse_policy(o: &Members) -> (r: Result<Option<ConstructionPolicy>, ExtensionError>)
    ensures
        answers(r, policy_asked(o.deep_view())),
{
    let word = match optional_word(o, "policy")? {
        None => return Ok(None),
        Some(word) => word,
    };
    if same(&word, "manual") {
        Ok(Some(ConstructionPolicy::Manual))
    } else if same(&word, "rolling_only") {
        Ok(Some(ConstructionPolicy::RollingOnly))
    } else if same(&word, "rolling_and_final") {
        Ok(Some(ConstructionPolicy::RollingAndFinal))
    } else if same(&word, "final_only") {
        Ok(Some(ConstructionPolicy::FinalOnly))
    } else {
        Err(
            fault(
                join3(
                    "causal-dag refresh policy must be manual, rolling_only, rolling_and_final, or final_only; got `",
                    &word,
                    "`",
                ),
            ),
        )
    }
}

/// The provider and the model of an observer; none of them, or both.
pub open spec fn observer_of(o: Seq<(Seq<char>, Tree)>, mismatch: Seq<char>) -> Result<
    (Seq<char>, Seq<char>),
    Seq<char>,
> {
    match bounded_field(o, "provider"@) {
        Err(e) => Err(e),
        Ok(provider) => match bounded_field(o, "model"@) {
            Err(e) => Err(e),
            Ok(model) => {
                let provider = text_or_nothing(provider);
                let model = text_or_nothing(model);
                if (provider.len() == 0) != (model.len() == 0) {
                    Err(mismatch)
                } else {
                    Ok((provider, model))
                }
            },
        },
    }
}

/// A text, or the empty one.
pub open spec fn text_or_nothing(text: Option<Seq<char>>) -> Seq<char> {
    match text {
        Some(text) => text,
        None => Seq::empty(),
    }
}

pub fn parse_observer(o: &Members, mismatch: &str) -> (r: Result<
    (String, String),
    ExtensionError,
>)
    ensures
        answers(r, observer_of(o.deep_view(), mismatch@)),
{
    let provider = match optional_bounded(o, "provider")? {
        Some(provider) => provider,
        None => String::new(),
    };
    let model = match optional_bounded(o, "model")? {
        Some(model) => model,
        None => String::new(),
    };
    if provider.as_str().is_empty() != model.as_str().is_empty() {
        return Err(input_error(mismatch));
    }
    Ok((provider, model))
}

/// The session that is named: a text of bounded length that is not empty, or none.
pub open spec fn session_of(o: Seq<(Seq<char>, Tree)>) -> Result<Option<Seq<char>>, Seq<char>> {
    match bounded_field(o, "session_id"@) {
        Err(e) => Err(e),
        Ok(Some(id)) => if id.len() == 0 {
            Err("session_id must not be empty"@)
        } else {
            Ok(Some(id))
        },
        Ok(None) => Ok(None),
    }
}

pub fn parse_session(o: &Members) -> (r: Result<Option<String>, ExtensionError>)
    ensures
        answers(r, session_of(o.deep_view())),
{
    match optional_bounded(o, "session_id")? {
        Some(id) => {
            if id.as_str().is_empty() {
                return Err(input_error("session_id must not be empty"));
            }
            Ok(Some(id))
        },
        None => Ok(None),
    }
}

/// What the refresh command is asked for.
#[derive(Debug, PartialEq, Eq)]
pub struct RefreshInput {
    pub operation: ConstructionOperation,
    pub policy: Option<ConstructionPolicy>,
    pub limit: usize,
    pub scan_limit: Option<usize>,
    pub session_id: Option<String>,
    pub provider: String,
    pub model: String,
    pub max_tokens: u64,
}

/// What a [`RefreshInput`] holds.
#[verifier::ext_equal]
pub struct Refresh {
    pub operation: ConstructionOperation,
    pub policy: Option<ConstructionPolicy>,
    pub limit: usize,
    pub scan_limit: Option<usize>,
    pub session_id: Option<Seq<char>>,
    pub provider: Seq<char>,
    pub model: Seq<char>,
    pub max_tokens: u64,
}

impl DeepView for RefreshInput {
    type V = Refresh;

    open spec fn deep_view(&self) -> Refresh {
        Refresh {
            operation: self.operation,
            policy: self.policy,
            limit: self.limit,
            scan_limit: self.scan_limit,
            session_id: self.session_id.deep_view(),
            provider: self.provider@,
            model: self.model@,
            max_tokens: self.max_tokens,
        }
    }
}

/// The fields that a refresh may name.
pub open spec fn refresh_fields() -> Seq<Seq<char>> {
    seq![
        "operation"@,
        "policy"@,
        "limit"@,
        "scan_limit"@,
        "session_id"@,
        "provider"@,
        "model"@,
        "max_tokens"@,
    ]
}

/// What is said of a provider without a model, or a model without a provider.
pub open spec fn refresh_mismatch() -> Seq<char> {
    "causal-dag refresh provider and model must be supplied together"@
}

/// A refresh by its fields.
pub open spec fn refresh_of_fields(o: Seq<(Seq<char>, Tree)>, max_tokens: u64) -> Result<
    Refresh,
    Seq<char>,
> {
    match unknown_field(o, refresh_fields(), 0) {
        Some(e) => Err(e),
        None => match observer_of(o, refresh_mismatch()) {
            Err(e) => Err(e),
            Ok((provider, model)) => match session_of(o) {
                Err(e) => Err(e),
                Ok(session_id) => match operation_of(o) {
                    Err(e) => Err(e),
                    Ok(operation) => match policy_asked(o) {
                        Err(e) => Err(e),
                        Ok(policy) => match page_limit(o) {
                            Err(e) => Err(e),
                            Ok(limit) => match positive_size(o, "scan_limit"@, None) {
                                Err(e) => Err(e),
                                Ok(scan_limit) => match token_limit(o, max_tokens) {
                                    Err(e) => Err(e),
                                    Ok(max_tokens) => Ok(
                                        Refresh {
                                            operation,
                                            policy,
                                            limit,
                                            scan_limit,
                                            session_id,
                                            provider,
                                            model,
                                            max_tokens,
                                        },
                                    ),
                                },
                            },
                        },
                    },
                },
            },
        },
    }
}

/// The input of the refresh command.
pub open spec fn refresh_of(value: Tree, max_tokens: u64) -> Result<Refresh, Seq<char>> {
    match value {
        Tree::Null => refresh_of_fields(Seq::empty(), max_tokens),
        Tree::Object(o) => refresh_of_fields(o, max_tokens),
        _ => Err("causal-dag refresh input must be a JSON object"@),
    }
}

/// The operation that a refresh performs: where no graph is selected, there is none to add to.
pub open spec fn effective(operation: ConstructionOperation, active: Option<Active>) -> ConstructionOperation {
    if operation == ConstructionOperation::Incremental && active is None {
        ConstructionOperation::Reframe
    } else {
        operation
    }
}

/// What sets a refresh off.
pub open spec fn trigger_of(operation: ConstructionOperation) -> ConstructionTrigger {
    match operation {
        ConstructionOperation::Final => ConstructionTrigger::SessionEnd,
        ConstructionOperation::Reframe => ConstructionTrigger::ExplicitReframe,
        _ => ConstructionTrigger::Command,
    }
}

impl RefreshInput {
    /// What the command is asked for; an observer may spend `max_tokens` where nothing is said.
    pub fn parse(value: &Json, max_tokens: u64) -> (r: Result<Self, ExtensionError>)
        ensures
            answers(r, refresh_of(value@, max_tokens)),
    {
        broadcast use crate::json::object_model;

        match value {
            Json::Null => {
                let none: Members = Vec::new();
                assert(none.deep_view() =~= Seq::empty());
                Self::parse_fields(&none, max_tokens)
            },
            Json::Object(o) => Self::parse_fields(o, max_tokens),
            _ => Err(input_error("causal-dag refresh input must be a JSON object")),
        }
    }

    fn parse_fields(o: &Members, max_tokens: u64) -> (r: Result<Self, ExtensionError>)
        ensures
            answers(r, refresh_of_fields(o.deep_view(), max_tokens)),
    {
        let allowed = vec![
            "operation",
            "policy",
            "limit",
            "scan_limit",
            "session_id",
            "provider",
            "model",
            "max_tokens",
        ];
        assert(allowed.deep_view() =~= refresh_fields());
        reject_unknown_fields(o, &allowed)?;
        let (provider, model) = parse_observer(
            o,
            "causal-dag refresh provider and model must be supplied together",
        )?;
        let session_id = parse_session(o)?;
        let operation = parse_operation(o)?;
        let policy = parse_policy(o)?;
        let limit: usize = parse_page_limit(o)?;
        let scan_limit = parse_positive_size(o, "scan_limit", None)?;
        let max_tokens: u64 = parse_token_limit(o, max_tokens)?;
        Ok(
            RefreshInput {
                operation,
                policy,
                limit,
                scan_limit,
                session_id,
                provider,
                model,
                max_tokens,
            },
        )
    }

    pub fn effective_operation(&self, active: Option<&ActiveGraphState>) -> (r: ConstructionOperation)
        ensures
            r == effective(self.operation, active.deep_view()),
    {
        if self.operation == ConstructionOperation::Incremental && active.is_none() {
            ConstructionOperation::Reframe
        } else {
            self.operation
        }
    }

    /// Whether the observer adds to the graph that it is told of or replaces it.
    pub fn brief_mode(&self, active: Option<&ActiveGraphState>) -> (r: ObserverBriefMode)
        ensures
            r == (if effective(self.operation, active.deep_view())
                == ConstructionOperation::Incremental {
                ObserverBriefMode::Incremental
            } else {
                ObserverBriefMode::Replacement
            }),
    {
        if self.effective_operation(active) == ConstructionOperation::Incremental {
            ObserverBriefMode::Incremental
        } else {
            ObserverBriefMode::Replacement
        }
    }

    /// Whether the observer is told of as many events as fit; else it is told of all.
    pub fn tells_a_prefix(&self) -> (r: bool)
        ensures
            r == (self.operation == ConstructionOperation::Incremental),
    {
        self.operation == ConstructionOperation::Incremental
    }

    /// The policy of the refresh: the one that is asked for, or that of the selected graph.
    pub fn effective_policy(&self, active: Option<&ActiveGraphState>) -> (r: ConstructionPolicy)
        ensures
            r == (match self.policy {
                Some(policy) => policy,
                None => policy_from(active.deep_view()),
            }),
    {
        match self.policy {
            Some(policy) => policy,
            None => ConstructionPolicy::from_active(active),
        }
    }

    /// The query for the page of the refresh.
    pub fn query(&self, active: Option<&ActiveGraphState>) -> (r: ProvenanceQuery)
        ensures
            r.asks(cursor_of(active.deep_view()), self.limit, scan_or_default(self.scan_limit)),
    {
        ProvenanceQuery::page(self.limit, self.scan_limit, &active_cursor(active))
    }

    /// The task of the observer.
    pub fn observer_task(&self, task: String, persona: &str, system_prompt: String) -> (r:
        SpawnAgentTask)
        ensures
            r.task == task,
            r.persona@ == persona@,
            r.provider@ == self.provider@,
            r.model@ == self.model@,
            r.system_prompt == system_prompt,
            r.explicit_context is None,
            r.include_parent_canvas,
            r.capabilities@.len() == 0,
            r.max_turns == Some(1u64),
            r.max_tool_calls == Some(0u64),
            r.max_tokens == Some(self.max_tokens),
    {
        SpawnAgentTask {
            task,
            persona: persona.to_owned(),
            provider: self.provider.clone(),
            model: self.model.clone(),
            system_prompt,
            explicit_context: None,
            include_parent_canvas: true,
            capabilities: Vec::new(),
            max_turns: Some(1),
            max_tool_calls: Some(0),
            max_tokens: Some(self.max_tokens),
        }
    }

    /// On what the revision is committed.
    pub fn commit(&self, active: Option<&ActiveGraphState>, result_event_id: &str) -> (r:
        ObservationCommit)
        ensures
            r.deep_view() == (Commit::Explicit {
                operation: effective(self.operation, active.deep_view()),
                policy: match self.policy {
                    Some(policy) => policy,
                    None => policy_from(active.deep_view()),
                },
                trigger: trigger_of(effective(self.operation, active.deep_view())),
                expected: match active.deep_view() {
                    Some(state) => Some(state.artifact_event_id),
                    None => None,
                },
                result: result_event_id@,
            }),
    {
        let operation = self.effective_operation(active);
        let trigger = match operation {
            ConstructionOperation::Final => ConstructionTrigger::SessionEnd,
            ConstructionOperation::Reframe => ConstructionTrigger::ExplicitReframe,
            _ => ConstructionTrigger::Command,
        };
        let expected = match active {
            Some(state) => Some(state.artifact_event_id().to_owned()),
            None => None,
        };
        ObservationCommit::Explicit {
            operation,
            policy: self.effective_policy(active),
            trigger,
            expected_predecessor_artifact_event_id: expected,
            observer_result_event_id: result_event_id.to_owned(),
        }
    }
}

/// The event up to which the selected graph has read.
pub open spec fn cursor_of(active: Option<Active>) -> Option<Seq<char>> {
    match active {
        Some(state) => Some(state.cursor_event_id),
        None => None,
    }
}

fn active_cursor(active: Option<&ActiveGraphState>) -> (r: Option<String>)
    ensures
        r.deep_view() == cursor_of(active.deep_view()),
{
    match active {
        Some(state) => Some(state.cursor_event_id().to_owned()),
        None => None,
    }
}

/// How much of a page an observer may be shown.
pub struct PageFence {
    pub listable_len: usize,
    pub watermark_event_id: Option<String>,
    pub stalled_on_incomplete_observer: bool,
}

/// What is wrong with a page that is refreshed.
pub open spec fn refresh_page_fault(
    truncated: bool,
    stalled: bool,
    asked: ConstructionOperation,
    active: Option<Active>,
) -> Option<Seq<char>> {
    let operation = effective(asked, active);
    if stalled {
        Some("causal-dag refresh page ends inside a prior observer run; increase limit"@)
    } else if truncated && operation != ConstructionOperation::Incremental && !(active is None
        && asked == ConstructionOperation::Incremental) {
        Some(
            "causal-dag reframe/final has unobserved provenance backlog; run incremental refresh until caught up"@,
        )
    } else {
        None
    }
}

pub fn check_refresh_page(
    page: &ProvenancePage,
    fence: &PageFence,
    input: &RefreshInput,
    active: Option<&ActiveGraphState>,
) -> (r: Result<(), ExtensionError>)
    ensures
        passes(
            r,
            refresh_page_fault(
                page.truncated,
                fence.stalled_on_incomplete_observer,
                input.operation,
                active.deep_view(),
            ),
        ),
{
    if fence.stalled_on_incomplete_observer {
        return Err(
            input_error("causal-dag refresh page ends inside a prior observer run; increase limit"),
        );
    }
    let operation = input.effective_operation(active);
    let bootstrap = active.is_none() && input.operation == ConstructionOperation::Incremental;
    if page.truncated && operation != ConstructionOperation::Incremental && !bootstrap {
        return Err(
            input_error(
                "causal-dag reframe/final has unobserved provenance backlog; run incremental refresh until caught up",
            ),
        );
    }
    Ok(())
}

/// The events that an observer is shown.
pub struct RefreshWindow {
    pub page: ProvenancePage,
    pub listed: Vec<EventEnvelope>,
    pub after_event_id: Option<String>,
    pub observed_watermark_event_id: Option<String>,
    pub prefix_truncated: bool,
}

/// What a [`RefreshWindow`] holds.
#[verifier::ext_equal]
pub struct Window {
    pub page: Page,
    pub listed: Seq<Event>,
    pub after_event_id: Option<Seq<char>>,
    pub observed_watermark_event_id: Option<Seq<char>>,
    pub prefix_truncated: bool,
}

impl DeepView for RefreshWindow {
    type V = Window;

    open spec fn deep_view(&self) -> Window {
        Window {
            page: self.page.deep_view(),
            listed: self.listed.deep_view(),
            after_event_id: self.after_event_id.deep_view(),
            observed_watermark_event_id: self.observed_watermark_event_id.deep_view(),
            prefix_truncated: self.prefix_truncated,
        }
    }
}

/// The window on a page, by its fence and the events that an observer may be shown.
pub open spec fn window_of(
    page: Page,
    fence: PageFence,
    listed: Seq<Event>,
    active: Option<Active>,
) -> Result<Window, Seq<char>> {
    if listed.len() == 0 && active is None {
        Err("causal-dag refresh found no observable events"@)
    } else {
        Ok(
            Window {
                page,
                listed,
                after_event_id: cursor_of(active),
                observed_watermark_event_id: fence.watermark_event_id.deep_view(),
                prefix_truncated: fence.listable_len < page.events.len(),
            },
        )
    }
}

/// The window that only shows the first events.
pub open spec fn narrowed(w: Window, count: nat) -> Window {
    if count >= w.listed.len() {
        w
    } else {
        Window {
            listed: w.listed.take(count as int),
            observed_watermark_event_id: Some(
                w.listed[if count > 0 {
                    count - 1
                } else {
                    0
                }].id,
            ),
            prefix_truncated: true,
            ..w
        }
    }
}

impl RefreshWindow {
    /// The window on a page, by its fence and the events that an observer may be shown.
    pub fn open(
        page: ProvenancePage,
        fence: &PageFence,
        listed: Vec<EventEnvelope>,
        active: Option<&ActiveGraphState>,
    ) -> (r: Result<Self, ExtensionError>)
        ensures
            answers(
                r,
                window_of(page.deep_view(), *fence, listed.deep_view(), active.deep_view()),
            ),
    {
        assert(listed.deep_view().len() == listed@.len());
        assert(page.events.deep_view().len() == page.events@.len());
        if listed.len() == 0 && active.is_none() {
            return Err(input_error("causal-dag refresh found no observable events"));
        }
        Ok(
            RefreshWindow {
                prefix_truncated: fence.listable_len < page.events.len(),
                page,
                listed,
                after_event_id: active_cursor(active),
                observed_watermark_event_id: fence.watermark_event_id.clone(),
            },
        )
    }

    /// Shows only the first events.
    pub fn restrict_to_fitted_prefix(self, listed_event_count: usize) -> (r: Self)
        ensures
            r.deep_view() == narrowed(self.deep_view(), listed_event_count as nat),
    {
        let ghost given = self.deep_view();
        assert(self.listed.deep_view().len() == self.listed@.len());
        if listed_event_count >= self.listed.len() {
            return self;
        }
        let last: usize = if listed_event_count > 0 {
            listed_event_count - 1
        } else {
            0
        };
        assert(self.listed.deep_view()[last as int] == self.listed@[last as int]@);
        let watermark = self.listed[last].id.clone();
        let mut window = self;
        window.listed.truncate(listed_event_count);
        assert(window.listed.deep_view() =~= given.listed.take(listed_event_count as int));
        window.observed_watermark_event_id = Some(watermark);
        window.prefix_truncated = true;
        window
    }

    /// What the observation of the window is asked for.
    pub fn observe(&self, input: &RefreshInput, hints: Json) -> (r: ObserveInput)
        ensures
            r.deep_view() == (Observe {
                limit: input.limit,
                scan_limit: input.scan_limit,
                after_event_id: self.deep_view().after_event_id,
                watermark_event_id: self.deep_view().observed_watermark_event_id,
                session_id: input.deep_view().session_id,
                hints: hints@,
            }),
    {
        ObserveInput {
            limit: input.limit,
            scan_limit: input.scan_limit,
            after_event_id: self.after_event_id.clone(),
            watermark_event_id: self.observed_watermark_event_id.clone(),
            session_id: input.session_id.clone(),
            hints,
        }
    }
}

/// A window that was narrowed shows a first part of the events, and ends at the last of them.
pub proof fn narrowed_windows_end_at_their_watermark(w: Window, count: nat)
    requires
        0 < count < w.listed.len(),
    ensures
        narrowed(w, count).listed.is_prefix_of(w.listed),
        narrowed(w, count).listed.len() == count,
        narrowed(w, count).observed_watermark_event_id == Some(narrowed(w, count).listed.last().id),
        narrowed(w, count).prefix_truncated,
{
}

/// The output of an observer that was run for a refresh.
pub open spec fn observer_output(outcome: Outcome) -> Result<Seq<char>, Seq<char>> {
    if !outcome.ok {
        Err(
            "causal-dag refresh observer failed: "@ + (match outcome.error {
                Some(error) => error,
                None => outcome.summary,
            }),
        )
    } else if byte_len(outcome.output) > OBSERVER_HINT_MAX_BYTES {
        Err("causal-dag refresh observer output exceeds 65536 bytes"@)
    } else {
        Ok(outcome.output)
    }
}

/// The hints of an observer that was run for a refresh.
pub open spec fn observer_hints(outcome: Outcome, aliases: Meanings) -> Result<Tree, Seq<char>> {
    match observer_output(outcome) {
        Err(e) => Err(e),
        Ok(output) => match hints_in(output) {
            Err(e) => Err(e),
            Ok(hints) => Ok(resolved(hints, aliases)),
        },
    }
}

/// The hints of the observer that was run.
pub fn refresh_hints(outcome: &AgentOutcome, aliases: &Aliases) -> (r: Result<
    Json,
    ExtensionError,
>)
    ensures
        answers(r, observer_hints(outcome.deep_view(), aliases.deep_view())),
{
    if !outcome.ok {
        let error = match &outcome.error {
            Some(error) => error,
            None => &outcome.summary,
        };
        return Err(fault(join2("causal-dag refresh observer failed: ", error)));
    }
    if byte_count(&outcome.output) > OBSERVER_HINT_MAX_BYTES {
        return Err(input_error("causal-dag refresh observer output exceeds 65536 bytes"));
    }
    let hints = parse_hints_output(&outcome.output)?;
    Ok(resolve_aliases(&hints, aliases))
}

/// Which agent run a refresh comes of.
pub open spec fn observer_tree(outcome: Outcome) -> Tree {
    Tree::Object(
        seq![
            ("child_agent_id"@, Tree::Text(outcome.child_agent_id)),
            ("model"@, Tree::Text(outcome.model)),
            ("provider"@, Tree::Text(outcome.provider)),
            ("result_event_id"@, Tree::Text(outcome.result_event_id)),
            ("spawn_event_id"@, Tree::Text(outcome.spawn_event_id)),
        ],
    )
}

/// How far a refresh has read.
pub open spec fn feed_tree(w: Window) -> Tree {
    let (next, watermark) = if w.prefix_truncated {
        (w.observed_watermark_event_id, w.observed_watermark_event_id)
    } else {
        (w.page.next_after_event_id, w.page.watermark_event_id)
    };
    Tree::Object(
        seq![
            ("next_after_event_id"@, optional_text(next)),
            ("truncated"@, Tree::Bool(w.page.truncated || w.prefix_truncated)),
            ("watermark_event_id"@, optional_text(watermark)),
        ],
    )
}

/// The output with the agent run that the refresh comes of, and how far it has read.
pub fn with_refresh_attribution(output: &Json, outcome: &AgentOutcome, window: &RefreshWindow) -> (r:
    Json)
    requires
        output@ is Object,
    ensures
        r@ == with_member(
            with_member(output@, "observer"@, observer_tree(outcome.deep_view())),
            "feed"@,
            feed_tree(window.deep_view()),
        ),
{
    broadcast use crate::json::object_model;

    let observer = vec![
        ("child_agent_id".to_owned(), Json::of_text(&outcome.child_agent_id)),
        ("model".to_owned(), Json::of_text(&outcome.model)),
        ("provider".to_owned(), Json::of_text(&outcome.provider)),
        ("result_event_id".to_owned(), Json::of_text(&outcome.result_event_id)),
        ("spawn_event_id".to_owned(), Json::of_text(&outcome.spawn_event_id)),
    ];
    assert(observer.deep_view() =~= observer_tree(outcome.deep_view())->Object_0);
    let (next, watermark) = if window.prefix_truncated {
        (&window.observed_watermark_event_id, &window.observed_watermark_event_id)
    } else {
        (&window.page.next_after_event_id, &window.page.watermark_event_id)
    };
    let feed = vec![
        ("next_after_event_id".to_owned(), Json::of_optional_text(next)),
        (
            "truncated".to_owned(),
            Json::Bool(window.page.truncated || window.prefix_truncated),
        ),
        ("watermark_event_id".to_owned(), Json::of_optional_text(watermark)),
    ];
    assert(feed.deep_view() =~= feed_tree(window.deep_view())->Object_0);
    with_field(
        &with_field(output, "observer", Json::Object(observer)),
        "feed",
        Json::Object(feed),
    )
}

/// A refresh asks for one of three operations by its name, and for the first where it names none;
/// for one of four policies, or none; and for a page of sixty-four events where it gives no limit.
/// Any other name is refused.
pub proof fn refreshes_are_asked_by_name(o: Seq<(Seq<char>, Tree)>)
    ensures
        ({
            let asked = member(o, "operation"@);
            let policy = member(o, "policy"@);
            &&& asked is None || asked == Some(Tree::Null) ==> operation_of(o) == Ok::<
                ConstructionOperation,
                Seq<char>,
            >(ConstructionOperation::Incremental)
            &&& asked == Some(Tree::Text("incremental"@)) && byte_len("incremental"@) <= 256
                ==> operation_of(o) == Ok::<ConstructionOperation, Seq<char>>(
                ConstructionOperation::Incremental,
            )
            &&& operation_of(o) == Ok::<ConstructionOperation, Seq<char>>(
                ConstructionOperation::Reframe,
            ) <==> asked == Some(Tree::Text("reframe"@)) && byte_len("reframe"@) <= 256
            &&& operation_of(o) == Ok::<ConstructionOperation, Seq<char>>(
                ConstructionOperation::Final,
            ) <==> asked == Some(Tree::Text("final"@)) && byte_len("final"@) <= 256
            &&& operation_of(o) != Ok::<ConstructionOperation, Seq<char>>(
                ConstructionOperation::Snapshot,
            )
            &&& policy is None || policy == Some(Tree::Null) ==> policy_asked(o) == Ok::<
                Option<ConstructionPolicy>,
                Seq<char>,
            >(None)
            &&& policy_asked(o) == Ok::<Option<ConstructionPolicy>, Seq<char>>(
                Some(ConstructionPolicy::Manual),
            ) ==> policy == Some(Tree::Text("manual"@))
            &&& policy_asked(o) == Ok::<Option<ConstructionPolicy>, Seq<char>>(
                Some(ConstructionPolicy::RollingOnly),
            ) ==> policy == Some(Tree::Text("rolling_only"@))
            &&& policy_asked(o) == Ok::<Option<ConstructionPolicy>, Seq<char>>(
                Some(ConstructionPolicy::RollingAndFinal),
            ) ==> policy == Some(Tree::Text("rolling_and_final"@))
            &&& policy_asked(o) == Ok::<Option<ConstructionPolicy>, Seq<char>>(
                Some(ConstructionPolicy::FinalOnly),
            ) ==> policy == Some(Tree::Text("final_only"@))
            &&& member(o, "limit"@) is None ==> page_limit(o) == Ok::<usize, Seq<char>>(64)
            &&& page_limit(o) is Ok ==> page_limit(o)->Ok_0 > 0
        }),
{
    reveal_strlit("incremental");
    reveal_strlit("reframe");
    reveal_strlit("final");
    assert("incremental"@.len() == 11 && "reframe"@.len() == 7 && "final"@.len() == 5);
}

/// A refresh that was asked to extend a graph frames one anew where there is none, and else does
/// what it was asked for. A final one is set off by the end of the session, a new frame by the
/// wish for one, and the rest by the command. It starts at the cursor of the active graph.
pub proof fn refreshes_do_what_they_can(asked: ConstructionOperation, active: Option<Active>)
    ensures
        active is Some ==> effective(asked, active) == asked,
        active is None ==> effective(asked, active) != ConstructionOperation::Incremental,
        asked != ConstructionOperation::Incremental ==> effective(asked, active) == asked,
        asked == ConstructionOperation::Incremental && active is None ==> effective(asked, active)
            == ConstructionOperation::Reframe,
        trigger_of(ConstructionOperation::Final) == ConstructionTrigger::SessionEnd,
        trigger_of(ConstructionOperation::Reframe) == ConstructionTrigger::ExplicitReframe,
        trigger_of(ConstructionOperation::Incremental) == ConstructionTrigger::Command,
        trigger_of(ConstructionOperation::Snapshot) == ConstructionTrigger::Command,
        active is None ==> cursor_of(active) is None,
        active is Some ==> cursor_of(active) == Some(active->0.cursor_event_id),
{
}

/// A page that ends inside an observer's run is refused. One that does not read to the end is
/// refused where the graph is to be framed anew or finished, unless there is none to extend.
pub proof fn backlogs_are_read_first(
    truncated: bool,
    stalled: bool,
    asked: ConstructionOperation,
    active: Option<Active>,
)
    ensures
        refresh_page_fault(truncated, stalled, asked, active) is None <==> !stalled && (!truncated
            || asked == ConstructionOperation::Incremental),
{
}

/// A window starts behind the cursor of the active graph, and holds some event or there is a
/// graph; what it leaves out of its page it says.
pub proof fn windows_start_at_the_cursor(
    page: Page,
    fence: PageFence,
    listed: Seq<Event>,
    active: Option<Active>,
)
    ensures
        window_of(page, fence, listed, active) is Ok <==> listed.len() > 0 || active is Some,
        window_of(page, fence, listed, active) matches Ok(w) ==> {
            &&& w.page == page && w.listed == listed
            &&& active is Some ==> w.after_event_id == Some(active->0.cursor_event_id)
            &&& active is None ==> w.after_event_id is None
            &&& w.observed_watermark_event_id == fence.watermark_event_id.deep_view()
            &&& w.prefix_truncated <==> fence.listable_len < page.events.len()
        },
{
}

/// The answer of an observer is taken only if it succeeded and is not too long; else its error is
/// told, or its summary.
pub proof fn answers_come_from_observers_that_succeeded(outcome: Outcome)
    ensures
        observer_output(outcome) is Ok <==> outcome.ok && byte_len(outcome.output) <= 65536,
        observer_output(outcome) is Ok ==> observer_output(outcome)->Ok_0 == outcome.output,
        !outcome.ok ==> observer_output(outcome) == Err::<Seq<char>, Seq<char>>(
            "causal-dag refresh observer failed: "@ + (if outcome.error is Some {
                outcome.error->0
            } else {
                outcome.summary
            }),
        ),
        observer_tree(outcome).text_at("child_agent_id"@) == Some(outcome.child_agent_id),
        observer_tree(outcome).text_at("model"@) == Some(outcome.model),
        observer_tree(outcome).text_at("provider"@) == Some(outcome.provider),
        observer_tree(outcome).text_at("result_event_id"@) == Some(outcome.result_event_id),
        observer_tree(outcome).text_at("spawn_event_id"@) == Some(outcome.spawn_event_id),
{
    let o = observer_tree(outcome)->Object_0;
    reveal_strlit("child_agent_id");
    reveal_strlit("model");
    reveal_strlit("provider");
    reveal_strlit("result_event_id");
    reveal_strlit("spawn_event_id");
    crate::table::lemma_first_row(o, "child_agent_id"@, 0);
    assert(o[0].0.len() == 14 && "model"@.len() == 5);
    crate::table::lemma_first_row(o, "model"@, 1);
    assert(o[0].0.len() == 14 && o[1].0.len() == 5 && "provider"@.len() == 8);
    crate::table::lemma_first_row(o, "provider"@, 2);
    assert(o[0].0.len() == 14 && o[1].0.len() == 5 && o[2].0.len() == 8 && "result_event_id"@.len() == 15);
    crate::table::lemma_first_row(o, "result_event_id"@, 3);
    assert(o[0].0[0] == 'c' && o[1].0.len() == 5 && o[2].0.len() == 8 && o[3].0.len() == 15 && "spawn_event_id"@.len() == 14 && "spawn_event_id"@[0] == 's');
    crate::table::lemma_first_row(o, "spawn_event_id"@, 4);
}

/// What is left to read is told: from where the window ends if it was cut, else from where its
/// page ends.
pub proof fn what_is_left_is_told(w: Window)
    ensures
        ({
            let t = feed_tree(w);
            &&& t.flag_at("truncated"@) == Some(w.page.truncated || w.prefix_truncated)
            &&& w.prefix_truncated ==> t.at("next_after_event_id"@) == optional_text(
                w.observed_watermark_event_id,
            ) && t.at("watermark_event_id"@) == optional_text(w.observed_watermark_event_id)
            &&& !w.prefix_truncated ==> t.at("next_after_event_id"@) == optional_text(
                w.page.next_after_event_id,
            ) && t.at("watermark_event_id"@) == optional_text(w.page.watermark_event_id)
        }),
{
    let o = feed_tree(w)->Object_0;
    reveal_strlit("next_after_event_id");
    reveal_strlit("truncated");
    reveal_strlit("watermark_event_id");
    crate::table::lemma_first_row(o, "next_after_event_id"@, 0);
    assert(o[0].0.len() == 19 && "truncated"@.len() == 9);
    crate::table::lemma_first_row(o, "truncated"@, 1);
    assert(o[0].0.len() == 19 && o[1].0.len() == 9 && "watermark_event_id"@.len() == 18);
    crate::table::lemma_first_row(o, "watermark_event_id"@, 2);
}

/// What is not asked of a refresh has its default; what is asked is taken as it is.
pub proof fn refreshes_are_taken_as_asked(o: Seq<(Seq<char>, Tree)>, max_tokens: u64)
    ensures
        refresh_of(Tree::Object(o), max_tokens) matches Ok(r) ==> {
            &&& operation_of(o) == Ok::<ConstructionOperation, Seq<char>>(r.operation)
            &&& policy_asked(o) == Ok::<Option<ConstructionPolicy>, Seq<char>>(r.policy)
            &&& (r.provider.len() == 0) == (r.model.len() == 0)
            &&& member(o, "provider"@) matches Some(Tree::Text(text)) ==> r.provider == text
            &&& member(o, "provider"@) is None ==> r.provider.len() == 0
            &&& member(o, "model"@) matches Some(Tree::Text(text)) ==> r.model == text
            &&& member(o, "model"@) is None ==> r.model.len() == 0
            &&& member(o, "session_id"@) matches Some(Tree::Text(text)) ==> r.session_id == Some(
                text,
            )
            &&& member(o, "session_id"@) is None ==> r.session_id is None
            &&& member(o, "limit"@) is None ==> r.limit == 64
            &&& member(o, "limit"@) matches Some(n) ==> n is Null || n.count() == Some(
                r.limit as u64,
            ) && r.limit > 0
            &&& member(o, "scan_limit"@) is None ==> r.scan_limit is None
            &&& member(o, "scan_limit"@) matches Some(n) ==> n is Null || r.scan_limit is Some
                && n.count() == Some(r.scan_limit->0 as u64)
            &&& member(o, "max_tokens"@) is None ==> r.max_tokens == max_tokens
            &&& member(o, "max_tokens"@) matches Some(n) ==> n is Null || n.count() == Some(
                r.max_tokens,
            )
        },
        refresh_of(Tree::Null, max_tokens) matches Ok(r) ==> r.operation
            == ConstructionOperation::Incremental && r.policy is None && r.limit == 64
            && r.max_tokens == max_tokens && r.session_id is None && r.provider.len() == 0,
{
    crate::table::lemma_no_row(Seq::<(Seq<char>, Tree)>::empty(), "operation"@);
    crate::table::lemma_no_row(Seq::<(Seq<char>, Tree)>::empty(), "policy"@);
    crate::table::lemma_no_row(Seq::<(Seq<char>, Tree)>::empty(), "limit"@);
    crate::table::lemma_no_row(Seq::<(Seq<char>, Tree)>::empty(), "max_tokens"@);
    crate::table::lemma_no_row(Seq::<(Seq<char>, Tree)>::empty(), "session_id"@);
    crate::table::lemma_no_row(Seq::<(Seq<char>, Tree)>::empty(), "provider"@);
}

} // verus!
