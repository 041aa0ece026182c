//! What the commands of the observer of a record are given.

use crate::inputs::{reject_unknown_fields, unknown_field, DEFAULT_LIMIT};
use crate::json::{Json, Members, Tree};
use crate::sdk::{answers, fault, input_error, AgentOutcome, ExtensionError, Outcome};
use crate::table::{find, member};
use crate::text::{byte_count, byte_len, compact, compacted, join2, join3, same};
use vstd::prelude::*;

verus! {

pub const RESEARCH_MODE: &'static str = "research_record_v1";

/// The most bytes of an identifier.
pub const MAX_INPUT_ID_BYTES: usize = 128;

/// The most events of a window.
pub const MAX_OBSERVED_EVENTS: usize = 128;

/// The most characters of an observer's error that are repeated.
pub const MAX_ERROR_CHARS: usize = 240;

/// A text that is there and not too long, or none.
pub open spec fn optional_id(value: Option<Tree>, field: Seq<char>) -> Result<
    Option<Seq<char>>,
    Seq<char>,
> {
    match value {
        None => Ok(None),
        Some(Tree::Null) => Ok(None),
        Some(Tree::Text(text)) => if text.len() > 0 && byte_len(text) <= MAX_INPUT_ID_BYTES {
            Ok(Some(text))
        } else {
            Err(field + " must be a bounded non-empty string or null"@)
        },
        Some(_) => Err(field + " must be a bounded non-empty string or null"@),
    }
}

pub fn optional_string(value: Option<&Json>, field: &str) -> (r: Result<
    Option<String>,
    ExtensionError,
>)
    ensures
        answers(r, optional_id(value.deep_view(), field@)),
{
    match value {
        None => return Ok(None),
        Some(Json::Null) => return Ok(None),
        Some(Json::Text(text)) => {
            proof {
                crate::text::lemma_byte_len_bounds(text@);
            }
            let bytes = byte_count(text);
            if bytes > 0 && bytes <= MAX_INPUT_ID_BYTES {
                return Ok(Some(text.clone()));
            }
        },
        Some(_) => {},
    }
    Err(fault(join2(field, " must be a bounded non-empty string or null")))
}

/// A text that is there and not too long.
pub open spec fn required_id(value: Option<Tree>, field: Seq<char>) -> Result<
    Seq<char>,
    Seq<char>,
> {
    match optional_id(value, field) {
        Err(e) => Err(e),
        Ok(Some(text)) => Ok(text),
        Ok(None) => Err(field + " is required"@),
    }
}

pub fn required_string(value: Option<&Json>, field: &str) -> (r: Result<String, ExtensionError>)
    ensures
        answers(r, required_id(value.deep_view(), field@)),
{
    match optional_string(value, field)? {
        Some(text) => Ok(text),
        None => Err(fault(join2(field, " is required"))),
    }
}

/// The texts of a list from position `i` on.
pub open spec fn ids_from(
    list: Seq<Tree>,
    field: Seq<char>,
    i: nat,
    found: Seq<Seq<char>>,
) -> Result<Seq<Seq<char>>, Seq<char>>
    decreases list.len() - i,
{
    if i >= list.len() {
        Ok(found)
    } else {
        match required_id(Some(list[i as int]), field) {
            Err(e) => Err(e),
            Ok(id) => ids_from(list, field, i + 1, found.push(id)),
        }
    }
}

/// A list of texts, neither empty nor too long.
pub open spec fn id_list(value: Option<Tree>, field: Seq<char>) -> Result<
    Seq<Seq<char>>,
    Seq<char>,
> {
    match value {
        Some(Tree::List(list)) => if list.len() == 0 || list.len() > MAX_OBSERVED_EVENTS {
            Err(field + " must contain 1..=128 ids"@)
        } else {
            ids_from(list, field, 0, Seq::empty())
        },
        _ => Err(field + " must be an array of strings"@),
    }
}

fn read_ids(list: &Vec<Json>, field: &str) -> (r: Result<Vec<String>, ExtensionError>)
    ensures
        answers(r, ids_from(list.deep_view(), field@, 0, Seq::empty())),
{
    let mut out: Vec<String> = Vec::new();
    let mut i: usize = 0;
    assert(out.deep_view() =~= Seq::empty());
    assert(list.deep_view().len() == list@.len());
    while i < list.len()
        invariant
            i <= list@.len(),
            list.deep_view().len() == list@.len(),
            ids_from(list.deep_view(), field@, 0, Seq::empty()) == ids_from(
                list.deep_view(),
                field@,
                i as nat,
                out.deep_view(),
            ),
        decreases list@.len() - i,
    {
        assert(list.deep_view()[i as int] == list@[i as int]@);
        let id = required_string(Some(&list[i]), field)?;
        let ghost was = out.deep_view();
        let ghost name = id@;
        out.push(id);
        assert(out.deep_view() =~= was.push(name));
        i += 1;
    }
    Ok(out)
}

pub fn string_array(value: Option<&Json>, field: &str) -> (r: Result<Vec<String>, ExtensionError>)
    ensures
        answers(r, id_list(value.deep_view(), field@)),
{
    broadcast use crate::json::list_model;

    match value {
        Some(Json::List(list)) => {
            assert(value.deep_view() == Some(Tree::List(list.deep_view())));
            assert(list.deep_view().len() == list@.len());
            if list.len() == 0 || list.len() > MAX_OBSERVED_EVENTS {
                return Err(fault(join2(field, " must contain 1..=128 ids")));
            }
            read_ids(list, field)
        },
        _ => Err(fault(join2(field, " must be an array of strings"))),
    }
}

/// A positive number, or what stands for it where it is missing.
pub open spec fn positive_or(value: Option<Tree>, default: u64, field: Seq<char>) -> Result<
    u64,
    Seq<char>,
> {
    match value {
        None => Ok(default),
        Some(Tree::Null) => Ok(default),
        Some(tree) => match tree.count() {
            Some(n) => if n > 0 {
                Ok(n)
            } else {
                Err(field + " must be a positive integer"@)
            },
            None => Err(field + " must be a positive integer"@),
        },
    }
}

pub fn positive_u64(value: Option<&Json>, default: u64, field: &str) -> (r: Result<
    u64,
    ExtensionError,
>)
    ensures
        answers(r, positive_or(value.deep_view(), default, field@)),
{
    match value {
        None => Ok(default),
        Some(Json::Null) => Ok(default),
        Some(value) => match value.as_count() {
            Some(n) => if n > 0 {
                Ok(n)
            } else {
                Err(fault(join2(field, " must be a positive integer")))
            },
            None => Err(fault(join2(field, " must be a positive integer"))),
        },
    }
}

/// A positive number of things in memory, or what stands for it where it is missing.
pub open spec fn size_or(value: Option<Tree>, default: usize, field: Seq<char>) -> Result<
    usize,
    Seq<char>,
> {
    match value {
        None => Ok(default),
        Some(Tree::Null) => Ok(default),
        Some(tree) => match tree.count() {
            Some(n) => if 0 < n <= usize::MAX {
                Ok(n as usize)
            } else {
                Err(field + " must be a positive integer"@)
            },
            None => Err(field + " must be a positive integer"@),
        },
    }
}

pub fn positive_usize(value: Option<&Json>, default: usize, field: &str) -> (r: Result<
    usize,
    ExtensionError,
>)
    ensures
        answers(r, size_or(value.deep_view(), default, field@)),
{
    match value {
        None => return Ok(default),
        Some(Json::Null) => return Ok(default),
        Some(value) => {
            if let Some(n) = value.as_count() {
                if let Ok(size) = usize::try_from(n) {
                    if size > 0 {
                        return Ok(size);
                    }
                }
            }
        },
    }
    Err(fault(join2(field, " must be a positive integer")))
}

/// A positive number of things in memory, or none.
pub open spec fn optional_size(value: Option<Tree>, field: Seq<char>) -> Result<
    Option<usize>,
    Seq<char>,
> {
    match value {
        None => Ok(None),
        Some(Tree::Null) => Ok(None),
        Some(tree) => match size_or(value, 0, field) {
            Err(e) => Err(e),
            Ok(n) => Ok(Some(n)),
        },
    }
}

pub fn optional_positive_usize(value: Option<&Json>, field: &str) -> (r: Result<
    Option<usize>,
    ExtensionError,
>)
    ensures
        answers(r, optional_size(value.deep_view(), field@)),
{
    match value {
        None => Ok(None),
        Some(Json::Null) => Ok(None),
        value => {
            let n = positive_usize(value, 0, field)?;
            Ok(Some(n))
        },
    }
}

/// What a brief is asked of.
pub struct BriefInput {
    pub limit: usize,
    pub scan_limit: Option<usize>,
    pub after_event_id: Option<String>,
    pub session_id: Option<String>,
    pub max_tokens: u64,
}

/// What a [`BriefInput`] holds.
#[verifier::ext_equal]
pub struct Brief {
    pub limit: usize,
    pub scan_limit: Option<usize>,
    pub after: Option<Seq<char>>,
    pub session: Option<Seq<char>>,
    pub max_tokens: u64,
}

impl DeepView for BriefInput {
    type V = Brief;

    open spec fn deep_view(&self) -> Brief {
        Brief {
            limit: self.limit,
            scan_limit: self.scan_limit,
            after: self.after_event_id.deep_view(),
            session: self.session_id.deep_view(),
            max_tokens: self.max_tokens,
        }
    }
}

/// The members of an input, or none where it is null.
pub open spec fn input_rows(value: Tree, message: Seq<char>) -> Result<
    Seq<(Seq<char>, Tree)>,
    Seq<char>,
> {
    match value {
        Tree::Null => Ok(Seq::empty()),
        Tree::Object(rows) => Ok(rows),
        _ => Err(message),
    }
}

fn input_object(value: &Json, message: &str) -> (r: Result<Members, ExtensionError>)
    ensures
        answers(r, input_rows(value@, message@)),
{
    broadcast use crate::json::object_model;

    match value {
        Json::Null => {
            let none: Members = Vec::new();
            assert(none.deep_view() =~= Seq::empty());
            Ok(none)
        },
        Json::Object(rows) => Ok(crate::json::copy_members(rows)),
        _ => Err(input_error(message)),
    }
}

/// The fields of a brief.
pub open spec fn brief_fields() -> Seq<Seq<char>> {
    seq!["limit"@, "scan_limit"@, "after_event_id"@, "session_id"@, "max_tokens"@]
}

/// What a brief is asked of, with `max_tokens` where it names none.
pub open spec fn brief_of(value: Tree, max_tokens: u64) -> Result<Brief, Seq<char>> {
    match input_rows(value, "research observer-brief input must be a JSON object"@) {
        Err(e) => Err(e),
        Ok(o) => match unknown_field(o, brief_fields(), 0) {
            Some(e) => Err(e),
            None => match size_or(member(o, "limit"@), DEFAULT_LIMIT, "limit"@) {
                Err(e) => Err(e),
                Ok(limit) => match optional_size(member(o, "scan_limit"@), "scan_limit"@) {
                    Err(e) => Err(e),
                    Ok(scan_limit) => match optional_id(
                        member(o, "after_event_id"@),
                        "after_event_id"@,
                    ) {
                        Err(e) => Err(e),
                        Ok(after) => match optional_id(member(o, "session_id"@), "session_id"@) {
                            Err(e) => Err(e),
                            Ok(session) => match positive_or(
                                member(o, "max_tokens"@),
                                max_tokens,
                                "max_tokens"@,
                            ) {
                                Err(e) => Err(e),
                                Ok(max_tokens) => Ok(
                                    Brief { limit, scan_limit, after, session, max_tokens },
                                ),
                            },
                        },
                    },
                },
            },
        },
    }
}

impl BriefInput {
    /// Reads the input, with `max_tokens` where it names none.
    pub fn parse(value: &Json, max_tokens: u64) -> (r: Result<Self, ExtensionError>)
        ensures
            answers(r, brief_of(value@, max_tokens)),
    {
        let o = input_object(value, "research observer-brief input must be a JSON object")?;
        let allowed = vec!["limit", "scan_limit", "after_event_id", "session_id", "max_tokens"];
        assert(allowed.deep_view() =~= brief_fields());
        reject_unknown_fields(&o, &allowed)?;
        let limit = positive_usize(find(&o, "limit"), DEFAULT_LIMIT, "limit")?;
        let scan_limit = optional_positive_usize(find(&o, "scan_limit"), "scan_limit")?;
        let after_event_id = optional_string(find(&o, "after_event_id"), "after_event_id")?;
        let session_id = optional_string(find(&o, "session_id"), "session_id")?;
        let max_tokens = positive_u64(find(&o, "max_tokens"), max_tokens, "max_tokens")?;
        Ok(BriefInput { limit, scan_limit, after_event_id, session_id, max_tokens })
    }
}

/// What a refresh of a record is to do.
#[derive(Clone, Copy, Debug, PartialEq, Eq, Structural)]
pub enum RefreshOperation {
    Incremental,
    Reframe,
    Final,
}

impl RefreshOperation {
    pub open spec fn name(self) -> Seq<char> {
        match self {
            RefreshOperation::Incremental => "incremental"@,
            RefreshOperation::Reframe => "reframe"@,
            RefreshOperation::Final => "final"@,
        }
    }

    pub fn as_str(self) -> (r: &'static str)
        ensures
            r@ == self.name(),
    {
        match self {
            RefreshOperation::Incremental => "incremental",
            RefreshOperation::Reframe => "reframe",
            RefreshOperation::Final => "final",
        }
    }
}

impl DeepView for RefreshOperation {
    type V = RefreshOperation;

    open spec fn deep_view(&self) -> RefreshOperation {
        *self
    }
}

/// The operation that a value names; one that is no text names the incremental one.
pub open spec fn operation_of(value: Option<Tree>) -> Result<RefreshOperation, Seq<char>> {
    let name = match value {
        Some(Tree::Text(name)) => name,
        _ => "incremental"@,
    };
    if name == "incremental"@ {
        Ok(RefreshOperation::Incremental)
    } else if name == "reframe"@ {
        Ok(RefreshOperation::Reframe)
    } else if name == "final"@ {
        Ok(RefreshOperation::Final)
    } else {
        Err(
            "research refresh operation must be incremental, reframe, or final; got `"@ + name
                + "`"@,
        )
    }
}

impl RefreshOperation {
    pub fn parse(value: Option<&Json>) -> (r: Result<Self, ExtensionError>)
        ensures
            answers(r, operation_of(value.deep_view())),
    {
        let name = match value {
            Some(Json::Text(name)) => name.clone(),
            _ => "incremental".to_owned(),
        };
        if same(&name, "incremental") {
            Ok(RefreshOperation::Incremental)
        } else if same(&name, "reframe") {
            Ok(RefreshOperation::Reframe)
        } else if same(&name, "final") {
            Ok(RefreshOperation::Final)
        } else {
            Err(
                fault(
                    join3(
                        "research refresh operation must be incremental, reframe, or final; got `",
                        &name,
                        "`",
                    ),
                ),
            )
        }
    }
}

/// What a refresh of a record is asked of.
pub struct ResearchRefreshInput {
    pub operation: RefreshOperation,
    pub brief: BriefInput,
    pub provider: String,
    pub model: String,
}

/// What a [`ResearchRefreshInput`] holds.
#[verifier::ext_equal]
pub struct Refresh {
    pub operation: RefreshOperation,
    pub brief: Brief,
    pub provider: Seq<char>,
    pub model: Seq<char>,
}

impl DeepView for ResearchRefreshInput {
    type V = Refresh;

    open spec fn deep_view(&self) -> Refresh {
        Refresh {
            operation: self.operation,
            brief: self.brief.deep_view(),
            provider: self.provider@,
            model: self.model@,
        }
    }
}

/// The fields of a refresh.
pub open spec fn refresh_fields() -> Seq<Seq<char>> {
    seq![
        "operation"@,
        "policy"@,
        "limit"@,
        "scan_limit"@,
        "session_id"@,
        "provider"@,
        "model"@,
        "max_tokens"@,
    ]
}

/// A text, or an empty one.
pub open spec fn or_empty(text: Option<Seq<char>>) -> Seq<char> {
    match text {
        Some(text) => text,
        None => Seq::empty(),
    }
}

/// The brief of a refresh.
pub open spec fn refresh_brief(o: Seq<(Seq<char>, Tree)>, max_tokens: u64) -> Result<
    Brief,
    Seq<char>,
> {
    match size_or(member(o, "limit"@), DEFAULT_LIMIT, "limit"@) {
        Err(e) => Err(e),
        Ok(limit) => match optional_size(member(o, "scan_limit"@), "scan_limit"@) {
            Err(e) => Err(e),
            Ok(scan_limit) => match optional_id(member(o, "session_id"@), "session_id"@) {
                Err(e) => Err(e),
                Ok(session) => match positive_or(
                    member(o, "max_tokens"@),
                    max_tokens,
                    "max_tokens"@,
                ) {
                    Err(e) => Err(e),
                    Ok(max_tokens) => Ok(
                        Brief { limit, scan_limit, after: None, session, max_tokens },
                    ),
                },
            },
        },
    }
}

/// What a refresh of a record is asked of, with `max_tokens` where it names none.
pub open spec fn refresh_of(value: Tree, max_tokens: u64) -> Result<Refresh, Seq<char>> {
    match input_rows(value, "research refresh input must be a JSON object"@) {
        Err(e) => Err(e),
        Ok(o) => match unknown_field(o, refresh_fields(), 0) {
            Some(e) => Err(e),
            None => match optional_id(member(o, "provider"@), "provider"@) {
                Err(e) => Err(e),
                Ok(provider) => match optional_id(member(o, "model"@), "model"@) {
                    Err(e) => Err(e),
                    Ok(model) => if provider is None != model is None {
                        Err("research refresh provider and model must be supplied together"@)
                    } else {
                        match operation_of(member(o, "operation"@)) {
                            Err(e) => Err(e),
                            Ok(operation) => match refresh_brief(o, max_tokens) {
                                Err(e) => Err(e),
                                Ok(brief) => Ok(
                                    Refresh {
                                        operation,
                                        brief,
                                        provider: or_empty(provider),
                                        model: or_empty(model),
                                    },
                                ),
                            },
                        }
                    },
                },
            },
        },
    }
}

impl ResearchRefreshInput {
    /// Reads the input, with `max_tokens` where it names none.
    pub fn parse(value: &Json, max_tokens: u64) -> (r: Result<Self, ExtensionError>)
        ensures
            answers(r, refresh_of(value@, max_tokens)),
    {
        let o = input_object(value, "research refresh input must be a JSON object")?;
        let allowed = vec![
            "operation",
            "policy",
            "limit",
            "scan_limit",
            "session_id",
            "provider",
            "model",
            "max_tokens",
        ];
        assert(allowed.deep_view() =~= refresh_fields());
        reject_unknown_fields(&o, &allowed)?;
        let provider = optional_string(find(&o, "provider"), "provider")?;
        let model = optional_string(find(&o, "model"), "model")?;
        if provider.is_none() != model.is_none() {
            return Err(
                input_error("research refresh provider and model must be supplied together"),
            );
        }
        let operation = RefreshOperation::parse(find(&o, "operation"))?;
        let limit = positive_usize(find(&o, "limit"), DEFAULT_LIMIT, "limit")?;
        let scan_limit = optional_positive_usize(find(&o, "scan_limit"), "scan_limit")?;
        let session_id = optional_string(find(&o, "session_id"), "session_id")?;
        let max_tokens = positive_u64(find(&o, "max_tokens"), max_tokens, "max_tokens")?;
        let provider = match provider {
            Some(text) => text,
            None => String::new(),
        };
        let model = match model {
            Some(text) => text,
            None => String::new(),
        };
        Ok(
            ResearchRefreshInput {
                operation,
                brief: BriefInput {
                    limit,
                    scan_limit,
                    after_event_id: None,
                    session_id,
                    max_tokens,
                },
                provider,
                model,
            },
        )
    }
}

/// The window that proposals are applied to.
pub struct ApplyInput {
    pub limit: usize,
    pub scan_limit: Option<usize>,
    pub after_event_id: Option<String>,
    pub watermark_event_id: String,
    pub session_id: Option<String>,
    pub expected_record_artifact_event_id: Option<String>,
    pub observed_event_ids: Vec<String>,
}

/// What an [`ApplyInput`] holds.
#[verifier::ext_equal]
pub struct Apply {
    pub limit: usize,
    pub scan_limit: Option<usize>,
    pub after: Option<Seq<char>>,
    pub watermark: Seq<char>,
    pub session: Option<Seq<char>>,
    pub expected: Option<Seq<char>>,
    pub observed: Seq<Seq<char>>,
}

impl DeepView for ApplyInput {
    type V = Apply;

    open spec fn deep_view(&self) -> Apply {
        Apply {
            limit: self.limit,
            scan_limit: self.scan_limit,
            after: self.after_event_id.deep_view(),
            watermark: self.watermark_event_id@,
            session: self.session_id.deep_view(),
            expected: self.expected_record_artifact_event_id.deep_view(),
            observed: self.observed_event_ids.deep_view(),
        }
    }
}

/// What an observer gave back.
pub struct CompanionOutput {
    pub child_agent_id: Option<String>,
    pub spawn_event_id: Option<String>,
    pub result_event_id: String,
    pub output: String,
}

/// What a [`CompanionOutput`] holds.
#[verifier::ext_equal]
pub struct Companion {
    pub child: Option<Seq<char>>,
    pub spawn: Option<Seq<char>>,
    pub result: Seq<char>,
    pub output: Seq<char>,
}

impl DeepView for CompanionOutput {
    type V = Companion;

    open spec fn deep_view(&self) -> Companion {
        Companion {
            child: self.child_agent_id.deep_view(),
            spawn: self.spawn_event_id.deep_view(),
            result: self.result_event_id@,
            output: self.output@,
        }
    }
}

/// What is said of an observer that failed.
pub open spec fn observer_failure(error: Seq<char>) -> Seq<char> {
    "research observer companion failed: "@ + compacted(error, MAX_ERROR_CHARS as nat)
}

fn failure_error(error: &str) -> (r: ExtensionError)
    ensures
        r is Message,
        r->Message_0@ == observer_failure(error@),
{
    fault(join2("research observer companion failed: ", &compact(error, MAX_ERROR_CHARS)))
}

/// What the host's own run of an observer gave back.
pub open spec fn companion_of_outcome(o: Outcome) -> Result<Companion, Seq<char>> {
    if o.ok {
        Ok(
            Companion {
                child: Some(o.child_agent_id),
                spawn: Some(o.spawn_event_id),
                result: o.result_event_id,
                output: o.output,
            },
        )
    } else {
        Err(
            observer_failure(
                match o.error {
                    Some(error) => error,
                    None => o.summary,
                },
            ),
        )
    }
}

impl CompanionOutput {
    pub fn from_outcome(outcome: &AgentOutcome) -> (r: Result<Self, ExtensionError>)
        ensures
            answers(r, companion_of_outcome(outcome.deep_view())),
    {
        if !outcome.ok {
            let error = match &outcome.error {
                Some(error) => error,
                None => &outcome.summary,
            };
            return Err(failure_error(error));
        }
        Ok(
            CompanionOutput {
                child_agent_id: Some(outcome.child_agent_id.clone()),
                spawn_event_id: Some(outcome.spawn_event_id.clone()),
                result_event_id: outcome.result_event_id.clone(),
                output: outcome.output.clone(),
            },
        )
    }
}

/// The fields of the window of an envelope.
pub open spec fn apply_fields() -> Seq<Seq<char>> {
    seq![
        "mode"@,
        "limit"@,
        "scan_limit"@,
        "after_event_id"@,
        "watermark_event_id"@,
        "session_id"@,
        "expected_record_artifact_event_id"@,
        "observed_event_ids"@,
    ]
}

/// The window of an envelope.
pub open spec fn window_of(o: Seq<(Seq<char>, Tree)>) -> Result<Apply, Seq<char>> {
    match size_or(member(o, "limit"@), DEFAULT_LIMIT, "limit"@) {
        Err(e) => Err(e),
        Ok(limit) => match optional_size(member(o, "scan_limit"@), "scan_limit"@) {
            Err(e) => Err(e),
            Ok(scan_limit) => match optional_id(member(o, "after_event_id"@), "after_event_id"@) {
                Err(e) => Err(e),
                Ok(after) => match required_id(
                    member(o, "watermark_event_id"@),
                    "watermark_event_id"@,
                ) {
                    Err(e) => Err(e),
                    Ok(watermark) => window_rest(o, limit, scan_limit, after, watermark),
                },
            },
        },
    }
}

/// The window of an envelope, once its first fields are read.
pub open spec fn window_rest(
    o: Seq<(Seq<char>, Tree)>,
    limit: usize,
    scan_limit: Option<usize>,
    after: Option<Seq<char>>,
    watermark: Seq<char>,
) -> Result<Apply, Seq<char>> {
    match optional_id(member(o, "session_id"@), "session_id"@) {
        Err(e) => Err(e),
        Ok(session) => match optional_id(
            member(o, "expected_record_artifact_event_id"@),
            "expected_record_artifact_event_id"@,
        ) {
            Err(e) => Err(e),
            Ok(expected) => match id_list(
                member(o, "observed_event_ids"@),
                "observed_event_ids"@,
            ) {
                Err(e) => Err(e),
                Ok(observed) => Ok(
                    Apply { limit, scan_limit, after, watermark, session, expected, observed },
                ),
            },
        },
    }
}

fn parse_window(o: &Members) -> (r: Result<ApplyInput, ExtensionError>)
    ensures
        answers(r, window_of(o.deep_view())),
{
    let limit = positive_usize(find(o, "limit"), DEFAULT_LIMIT, "limit")?;
    let scan_limit = optional_positive_usize(find(o, "scan_limit"), "scan_limit")?;
    let after_event_id = optional_string(find(o, "after_event_id"), "after_event_id")?;
    let watermark_event_id = required_string(find(o, "watermark_event_id"), "watermark_event_id")?;
    let session_id = optional_string(find(o, "session_id"), "session_id")?;
    let expected_record_artifact_event_id = optional_string(
        find(o, "expected_record_artifact_event_id"),
        "expected_record_artifact_event_id",
    )?;
    let observed_event_ids = string_array(find(o, "observed_event_ids"), "observed_event_ids")?;
    Ok(
        ApplyInput {
            limit,
            scan_limit,
            after_event_id,
            watermark_event_id,
            session_id,
            expected_record_artifact_event_id,
            observed_event_ids,
        },
    )
}

/// The error that an observer's companion names.
pub open spec fn named_error(o: Seq<(Seq<char>, Tree)>) -> Seq<char> {
    match member(o, "error"@) {
        Some(Tree::Text(error)) => error,
        _ => match member(o, "summary"@) {
            Some(Tree::Text(summary)) => summary,
            _ => "unknown failure"@,
        },
    }
}

fn companion_error(o: &Members) -> (r: String)
    ensures
        r@ == named_error(o.deep_view()),
{
    if let Some(Json::Text(error)) = find(o, "error") {
        return error.clone();
    }
    if let Some(Json::Text(summary)) = find(o, "summary") {
        return summary.clone();
    }
    "unknown failure".to_owned()
}

/// What the companion of an envelope gave back, apart from its text.
pub open spec fn companion_of(o: Seq<(Seq<char>, Tree)>, output: Seq<char>) -> Result<
    Companion,
    Seq<char>,
> {
    match optional_id(member(o, "child_agent_id"@), "child_agent_id"@) {
        Err(e) => Err(e),
        Ok(child) => match optional_id(member(o, "spawn_event_id"@), "spawn_event_id"@) {
            Err(e) => Err(e),
            Ok(spawn) => match required_id(member(o, "result_event_id"@), "result_event_id"@) {
                Err(e) => Err(e),
                Ok(result) => Ok(Companion { child, spawn, result, output }),
            },
        },
    }
}

fn parse_companion(o: &Members, output: &str) -> (r: Result<CompanionOutput, ExtensionError>)
    ensures
        answers(r, companion_of(o.deep_view(), output@)),
{
    let child_agent_id = optional_string(find(o, "child_agent_id"), "child_agent_id")?;
    let spawn_event_id = optional_string(find(o, "spawn_event_id"), "spawn_event_id")?;
    let result_event_id = required_string(find(o, "result_event_id"), "result_event_id")?;
    Ok(
        CompanionOutput {
            child_agent_id,
            spawn_event_id,
            result_event_id,
            output: output.to_owned(),
        },
    )
}

/// Whether a member is the text.
pub open spec fn says(o: Seq<(Seq<char>, Tree)>, name: Seq<char>, text: Seq<char>) -> bool {
    member(o, name) == Some(Tree::Text(text))
}

/// What an envelope holds whose window and companion are these.
pub open spec fn envelope_of_parts(
    apply: Seq<(Seq<char>, Tree)>,
    companion: Option<Tree>,
) -> Result<(Apply, Companion), Seq<char>> {
    match unknown_field(apply, apply_fields(), 0) {
        Some(e) => Err(e),
        None => if !says(apply, "mode"@, RESEARCH_MODE@) {
            Err("observer-apply is not a research-record apply envelope"@)
        } else {
            match companion {
                Some(Tree::Object(o)) => if member(o, "ok"@) != Some(Tree::Bool(true)) {
                    Err(observer_failure(named_error(o)))
                } else {
                    match member(o, "output"@) {
                        Some(Tree::Text(output)) => match window_of(apply) {
                            Err(e) => Err(e),
                            Ok(window) => match companion_of(o, output) {
                                Err(e) => Err(e),
                                Ok(companion) => Ok((window, companion)),
                            },
                        },
                        _ => Err("research observer companion has no output"@),
                    }
                },
                _ => Err("research observer-apply input is missing companion"@),
            }
        },
    }
}

/// What an envelope holds.
pub open spec fn envelope_of(value: Tree) -> Result<(Apply, Companion), Seq<char>> {
    match value {
        Tree::Object(o) => match unknown_field(o, seq!["apply"@, "companion"@], 0) {
            Some(e) => Err(e),
            None => match member(o, "apply"@) {
                Some(Tree::Object(apply)) => envelope_of_parts(apply, member(o, "companion"@)),
                _ => Err("research observer-apply input is missing apply"@),
            },
        },
        _ => Err("research observer-apply input must be a JSON object"@),
    }
}

fn parse_envelope_parts(apply: &Members, companion: Option<&Json>) -> (r: Result<
    (ApplyInput, CompanionOutput),
    ExtensionError,
>)
    ensures
        answers(r, envelope_of_parts(apply.deep_view(), companion.deep_view())),
{
    broadcast use crate::json::object_model;

    let allowed = vec![
        "mode",
        "limit",
        "scan_limit",
        "after_event_id",
        "watermark_event_id",
        "session_id",
        "expected_record_artifact_event_id",
        "observed_event_ids",
    ];
    assert(allowed.deep_view() =~= apply_fields());
    reject_unknown_fields(apply, &allowed)?;
    let known = match find(apply, "mode") {
        Some(Json::Text(mode)) => same(mode, RESEARCH_MODE),
        _ => false,
    };
    if !known {
        return Err(input_error("observer-apply is not a research-record apply envelope"));
    }
    let o = match companion {
        Some(Json::Object(o)) => o,
        _ => {
            return Err(input_error("research observer-apply input is missing companion"));
        },
    };
    assert(companion.deep_view() == Some(Tree::Object(o.deep_view())));
    let ok = match find(o, "ok") {
        Some(Json::Bool(ok)) => *ok,
        _ => false,
    };
    if !ok {
        return Err(failure_error(&companion_error(o)));
    }
    let output = match find(o, "output") {
        Some(Json::Text(output)) => output,
        _ => {
            return Err(input_error("research observer companion has no output"));
        },
    };
    let window = parse_window(apply)?;
    let companion = parse_companion(o, output)?;
    Ok((window, companion))
}

/// Reads an envelope.
pub fn parse_apply_envelope(value: &Json) -> (r: Result<
    (ApplyInput, CompanionOutput),
    ExtensionError,
>)
    ensures
        answers(r, envelope_of(value@)),
{
    broadcast use crate::json::object_model;

    let o = match value {
        Json::Object(o) => o,
        _ => {
            return Err(input_error("research observer-apply input must be a JSON object"));
        },
    };
    let allowed = vec!["apply", "companion"];
    assert(allowed.deep_view() =~= seq!["apply"@, "companion"@]);
    reject_unknown_fields(o, &allowed)?;
    match find(o, "apply") {
        Some(Json::Object(apply)) => {
            assert(member(o.deep_view(), "apply"@) == Some(Tree::Object(apply.deep_view())));
            parse_envelope_parts(apply, find(o, "companion"))
        },
        _ => Err(input_error("research observer-apply input is missing apply")),
    }
}

/// Whether an envelope is one of a record.
pub fn is_research_apply(value: &Json) -> (r: bool)
    ensures
        r == (value@.at("apply"@).text_at("mode"@) == Some(RESEARCH_MODE@)),
{
    match value.get("apply") {
        Some(apply) => match apply.text_at("mode") {
            Some(mode) => same(mode, RESEARCH_MODE),
            None => false,
        },
        None => false,
    }
}

/// An envelope of an observer that failed is refused.
pub proof fn failed_observers_are_refused(value: Tree)
    requires
        value.at("companion"@).flag_at("ok"@) != Some(true),
    ensures
        envelope_of(value) is Err,
{
}

/// A refresh of the record is asked for by name, and is incremental where none is given. An
/// observer is known by its own names, and its answer is taken if it succeeded; else its error is
/// told, or its summary.
pub proof fn refreshes_of_records_are_asked_by_name(value: Option<Tree>, o: Outcome)
    ensures
        operation_of(None) == Ok::<RefreshOperation, Seq<char>>(RefreshOperation::Incremental),
        operation_of(value) == Ok::<RefreshOperation, Seq<char>>(RefreshOperation::Reframe) <==> value
            == Some(Tree::Text("reframe"@)),
        operation_of(value) == Ok::<RefreshOperation, Seq<char>>(RefreshOperation::Final) <==> value
            == Some(Tree::Text("final"@)),
        operation_of(Some(Tree::Text("incremental"@))) == Ok::<RefreshOperation, Seq<char>>(
            RefreshOperation::Incremental,
        ),
        RefreshOperation::Incremental.name() == "incremental"@,
        RefreshOperation::Reframe.name() == "reframe"@,
        RefreshOperation::Final.name() == "final"@,
        companion_of_outcome(o) is Ok <==> o.ok,
        companion_of_outcome(o) matches Ok(c) ==> c.child == Some(o.child_agent_id) && c.spawn
            == Some(o.spawn_event_id) && c.result == o.result_event_id && c.output == o.output,
        !o.ok ==> companion_of_outcome(o) == Err::<Companion, Seq<char>>(
            "research observer companion failed: "@ + compacted(
                if o.error is Some {
                    o.error->0
                } else {
                    o.summary
                },
                240,
            ),
        ),
{
    reveal_strlit("incremental");
    reveal_strlit("reframe");
    reveal_strlit("final");
    assert("incremental"@.len() == 11 && "reframe"@.len() == 7 && "final"@.len() == 5);
}

/// An envelope is taken only if it is of this mode and its observer succeeded with an answer; it
/// is for the events that it lists, up to its watermark.
pub proof fn envelopes_name_their_window(value: Tree)
    requires
        envelope_of(value) is Ok,
    ensures
        ({
            let (a, c) = envelope_of(value)->Ok_0;
            let apply = value.at("apply"@);
            let companion = value.at("companion"@);
            &&& apply.text_at("mode"@) == Some("research_record_v1"@)
            &&& companion.flag_at("ok"@) == Some(true)
            &&& companion.text_at("output"@) == Some(c.output)
            &&& companion.text_at("result_event_id"@) == Some(c.result)
            &&& companion.text_at("spawn_event_id"@) == c.spawn
            &&& companion.text_at("child_agent_id"@) == c.child
            &&& apply.text_at("watermark_event_id"@) == Some(a.watermark)
            &&& apply.text_at("after_event_id"@) == a.after
            &&& apply.text_at("session_id"@) == a.session
            &&& apply.text_at("expected_record_artifact_event_id"@) == a.expected
            &&& apply.list_at("observed_event_ids"@) is Some
            &&& 1 <= apply.list_at("observed_event_ids"@)->0.len() <= 128
            &&& a.observed.len() == apply.list_at("observed_event_ids"@)->0.len()
            &&& forall|i: int|
                0 <= i < a.observed.len() ==> apply.list_at("observed_event_ids"@)->0[i].text()
                    == Some(#[trigger] a.observed[i])
        }),
{
    let apply = value.at("apply"@)->Object_0;
    let list = member(apply, "observed_event_ids"@)->0->List_0;
    lemma_ids(list, "observed_event_ids"@, 0, Seq::empty());
}

proof fn lemma_ids(list: Seq<Tree>, field: Seq<char>, i: nat, found: Seq<Seq<char>>)
    requires
        ids_from(list, field, i, found) is Ok,
        found.len() == i <= list.len(),
        forall|j: int| 0 <= j < i ==> list[j].text() == Some(#[trigger] found[j]),
    ensures
        ids_from(list, field, i, found)->Ok_0.len() == list.len(),
        forall|j: int|
            0 <= j < list.len() ==> list[j].text() == Some(
                #[trigger] ids_from(list, field, i, found)->Ok_0[j],
            ),
    decreases list.len() - i,
{
    if i < list.len() {
        let id = required_id(Some(list[i as int]), field)->Ok_0;
        lemma_ids(list, field, i + 1, found.push(id));
    }
}

/// A refresh of a record is asked with these: as many events as are asked for, or sixty-four, and
/// the tokens that are asked for, or the default. It starts where the record stopped.
pub proof fn refresh_briefs_are_taken_as_asked(o: Seq<(Seq<char>, Tree)>, max_tokens: u64)
    ensures
        refresh_brief(o, max_tokens) matches Ok(b) ==> {
            &&& b.after is None
            &&& member(o, "limit"@) is None ==> b.limit == 64
            &&& member(o, "limit"@) matches Some(n) ==> n is Null || n.count() == Some(
                b.limit as u64,
            ) && b.limit > 0
            &&& member(o, "scan_limit"@) is None ==> b.scan_limit is None
            &&& member(o, "scan_limit"@) matches Some(n) ==> n is Null || b.scan_limit is Some
                && n.count() == Some(b.scan_limit->0 as u64)
            &&& member(o, "session_id"@) is None ==> b.session is None
            &&& member(o, "session_id"@) matches Some(Tree::Text(id)) ==> b.session == Some(id)
                && id.len() > 0
            &&& member(o, "max_tokens"@) is None ==> b.max_tokens == max_tokens
            &&& member(o, "max_tokens"@) matches Some(n) ==> n is Null || n.count() == Some(
                b.max_tokens,
            ) && b.max_tokens > 0
        },
{
}

} // verus!
