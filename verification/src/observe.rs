//! Observations: hints over a bounded page of events, folded into the graph that is selected.

use crate::active_state::{Active, ActiveGraphState};
use crate::construction::{
    making_on, making_tree, rolling_making, Construction, ConstructionOperation,
    ConstructionPolicy, ConstructionTrigger, Making,
};
use crate::event::{Event, EventEnvelope};
use crate::inputs::{
    filled_field, limit_field, optional_non_empty_string, optional_string, parse_limit,
    parse_positive_usize, positive_field, reject_unknown_fields, text_field, unknown_field,
};
use crate::json::{counted, json_text, optional_text, write_json, Json, Members, Tree};
use crate::projection::forest::{cited, revised, Projected, Projection};
use crate::projection::hints::{hint_header_fault, validate_semantic_hint_value_header};
use crate::projection::sources::{event_index, find_event};
use crate::schema::SCHEMA_NAME;
use crate::sdk::{
    answers, fault, input_error, passes, scan_or_default, ArtifactRecord, ExtensionError, Page,
    ProvenancePage, ProvenanceQuery, Stored,
};
use crate::slot_summary::publication::{with_publication, with_slot_publication, SlotPublication};
use crate::table::{find, holds, member};
use crate::text::{byte_count, byte_len, join3, same};
use crate::update::split_update_events;
use vstd::prelude::*;

verus! {

/// The most bytes that the hints of an observation have.
pub const OBSERVER_HINT_MAX_BYTES: usize = 65536;

/// What an observation is asked for.
pub struct ObserveInput {
    pub limit: usize,
    pub scan_limit: Option<usize>,
    pub after_event_id: Option<String>,
    pub watermark_event_id: Option<String>,
    pub session_id: Option<String>,
    pub hints: Json,
}

/// What an [`ObserveInput`] holds.
#[verifier::ext_equal]
pub struct Observe {
    pub limit: usize,
    pub scan_limit: Option<usize>,
    pub after_event_id: Option<Seq<char>>,
    pub watermark_event_id: Option<Seq<char>>,
    pub session_id: Option<Seq<char>>,
    pub hints: Tree,
}

impl DeepView for ObserveInput {
    type V = Observe;

    open spec fn deep_view(&self) -> Observe {
        Observe {
            limit: self.limit,
            scan_limit: self.scan_limit,
            after_event_id: self.after_event_id.deep_view(),
            watermark_event_id: self.watermark_event_id.deep_view(),
            session_id: self.session_id.deep_view(),
            hints: self.hints@,
        }
    }
}

/// The fields that an observation may name.
pub open spec fn observe_fields() -> Seq<Seq<char>> {
    seq![
        "limit"@,
        "scan_limit"@,
        "after_event_id"@,
        "watermark_event_id"@,
        "session_id"@,
        "causal_dag"@,
    ]
}

/// An observation by its fields, with hints that were read before.
pub open spec fn observe_with(o: Seq<(Seq<char>, Tree)>, hints: Tree) -> Result<
    Observe,
    Seq<char>,
> {
    match limit_field(o) {
        Err(e) => Err(e),
        Ok(limit) => match positive_field(o, "scan_limit"@, None, None) {
            Err(e) => Err(e),
            Ok(scan_limit) => match text_field(o, "after_event_id"@) {
                Err(e) => Err(e),
                Ok(after_event_id) => match text_field(o, "watermark_event_id"@) {
                    Err(e) => Err(e),
                    Ok(watermark_event_id) => match filled_field(o, "session_id"@) {
                        Err(e) => Err(e),
                        Ok(session_id) => Ok(
                            Observe {
                                limit,
                                scan_limit,
                                after_event_id,
                                watermark_event_id,
                                session_id,
                                hints,
                            },
                        ),
                    },
                },
            },
        },
    }
}

/// An observation by its fields.
pub open spec fn observe_of_fields(o: Seq<(Seq<char>, Tree)>) -> Result<Observe, Seq<char>> {
    match unknown_field(o, observe_fields(), 0) {
        Some(e) => Err(e),
        None => match member(o, "causal_dag"@) {
            None => Err("causal-dag observe input missing `causal_dag`"@),
            Some(hints) => match hint_header_fault(hints) {
                Some(e) => Err(e),
                None => if byte_len(json_text(hints)) > OBSERVER_HINT_MAX_BYTES {
                    Err("causal-dag observe causal_dag exceeds 65536 bytes"@)
                } else {
                    observe_with(o, hints)
                },
            },
        },
    }
}

/// The input of the observe command.
pub open spec fn observe_of(value: Tree) -> Result<Observe, Seq<char>> {
    match value {
        Tree::Object(o) => observe_of_fields(o),
        _ => Err("causal-dag observe input must be a JSON object"@),
    }
}

/// What an observation is asked for, once its hints are read and the size of their text is known.
pub fn observe_input(o: &Members, hints: &Json) -> (r: Result<ObserveInput, ExtensionError>)
    ensures
        answers(r, observe_with(o.deep_view(), hints@)),
{
    let limit: usize = parse_limit(o)?;
    let scan_limit = parse_positive_usize(o, "scan_limit", None, None)?;
    let after_event_id = optional_string(o, "after_event_id")?;
    let watermark_event_id = optional_string(o, "watermark_event_id")?;
    let session_id = optional_non_empty_string(o, "session_id")?;
    Ok(
        ObserveInput {
            limit,
            scan_limit,
            after_event_id,
            watermark_event_id,
            session_id,
            hints: hints.clone(),
        },
    )
}

impl ObserveInput {
    pub fn parse(value: &Json) -> (r: Result<Self, ExtensionError>)
        ensures
            answers(r, observe_of(value@)),
    {
        broadcast use crate::json::object_model;

        let o = match value {
            Json::Object(o) => o,
            _ => return Err(input_error("causal-dag observe input must be a JSON object")),
        };
        Self::parse_fields(o)
    }

    /// What an observation is asked for, by the fields of its input.
    pub fn parse_fields(o: &Members) -> (r: Result<Self, ExtensionError>)
        ensures
            answers(r, observe_of_fields(o.deep_view())),
    {
        let allowed = vec![
            "limit",
            "scan_limit",
            "after_event_id",
            "watermark_event_id",
            "session_id",
            "causal_dag",
        ];
        assert(allowed.deep_view() =~= observe_fields());
        reject_unknown_fields(o, &allowed)?;
        let hints = match find(o, "causal_dag") {
            Some(hints) => hints,
            None => return Err(input_error("causal-dag observe input missing `causal_dag`")),
        };
        validate_semantic_hint_value_header(hints)?;
        if byte_count(&write_json(hints)) > OBSERVER_HINT_MAX_BYTES {
            return Err(input_error("causal-dag observe causal_dag exceeds 65536 bytes"));
        }
        observe_input(o, hints)
    }

    /// The query for the page of an observation.
    pub fn query(&self) -> (r: ProvenanceQuery)
        ensures
            r.asks(
                self.deep_view().after_event_id,
                self.limit,
                scan_or_default(self.scan_limit),
            ),
    {
        ProvenanceQuery::page(self.limit, self.scan_limit, &self.after_event_id)
    }
}

/// The page cut at an event: it ends there, and is complete.
pub open spec fn cut(page: Page, watermark: Seq<char>, after: Option<Seq<char>>) -> Result<
    Page,
    Seq<char>,
> {
    if after == Some(watermark) {
        Ok(
            Page {
                events: Seq::empty(),
                scanned_events: 0,
                watermark_event_id: Some(watermark),
                next_after_event_id: None,
                truncated: false,
                ..page
            },
        )
    } else if page.events.len() == 0 && page.watermark_event_id == Some(watermark) {
        Ok(Page { next_after_event_id: None, truncated: false, ..page })
    } else {
        match event_index(page.events, watermark, 0) {
            None => Err(
                "causal-dag observe watermark_event_id `"@ + watermark
                    + "` was not reached in the bounded provenance page"@,
            ),
            Some(k) => Ok(
                Page {
                    events: page.events.take(k + 1),
                    watermark_event_id: Some(watermark),
                    next_after_event_id: None,
                    truncated: false,
                    ..page
                },
            ),
        }
    }
}

/// Cuts the page at an event.
pub fn cut_page_at_watermark(
    page: ProvenancePage,
    watermark: &str,
    after_event_id: &Option<String>,
) -> (r: Result<ProvenancePage, ExtensionError>)
    ensures
        answers(r, cut(page.deep_view(), watermark@, after_event_id.deep_view())),
{
    let ghost given = page.deep_view();
    let mut page = page;
    let at_start = match after_event_id {
        Some(after) => same(after, watermark),
        None => false,
    };
    if at_start {
        page.events = Vec::new();
        page.scanned_events = 0;
        page.watermark_event_id = Some(watermark.to_owned());
        page.next_after_event_id = None;
        page.truncated = false;
        assert(page.events.deep_view() =~= Seq::empty());
        return Ok(page);
    }
    assert(page.events.deep_view().len() == page.events@.len());
    let at_end = match &page.watermark_event_id {
        Some(found) => page.events.len() == 0 && same(found, watermark),
        None => false,
    };
    if at_end {
        page.next_after_event_id = None;
        page.truncated = false;
        return Ok(page);
    }
    match find_event(&page.events, watermark) {
        None => Err(
            fault(
                join3(
                    "causal-dag observe watermark_event_id `",
                    watermark,
                    "` was not reached in the bounded provenance page",
                ),
            ),
        ),
        Some(k) => {
            page.events.truncate(k + 1);
            assert(page.events.deep_view() =~= given.events.take(k + 1));
            page.watermark_event_id = Some(watermark.to_owned());
            page.next_after_event_id = None;
            page.truncated = false;
            Ok(page)
        },
    }
}

proof fn lemma_event_index(events: Seq<Event>, id: Seq<char>, i: nat)
    ensures
        event_index(events, id, i) matches Some(k) ==> i <= k < events.len() && events[k].id == id,
    decreases events.len() - i,
{
    if i < events.len() && events[i as int].id != id {
        lemma_event_index(events, id, i + 1);
    }
}

/// A page that was cut holds a first part of the events, ends at the event it was cut at, and
/// counts as complete.
pub proof fn cut_pages_end_at_their_watermark(page: Page, watermark: Seq<char>, after: Option<Seq<char>>)
    requires
        cut(page, watermark, after) is Ok,
    ensures
        ({
            let p = cut(page, watermark, after)->Ok_0;
            &&& p.watermark_event_id == Some(watermark)
            &&& p.next_after_event_id is None
            &&& !p.truncated
            &&& p.events.is_prefix_of(page.events)
            &&& p.events.len() > 0 ==> p.events.last().id == watermark
        }),
{
    lemma_event_index(page.events, watermark, 0);
}

/// The page that an observation goes by.
pub open spec fn observed_page(page: Page, input: Observe, command: Seq<char>) -> Result<
    Page,
    Seq<char>,
> {
    match input.watermark_event_id {
        Some(watermark) => cut(page, watermark, input.after_event_id),
        None => if page.truncated {
            Err("causal-dag "@ + command + " requires a complete bounded event page"@)
        } else {
            Ok(page)
        },
    }
}

/// The page that the observation goes by.
pub fn observe_page(page: ProvenancePage, input: &ObserveInput, command: &str) -> (r: Result<
    ProvenancePage,
    ExtensionError,
>)
    ensures
        answers(r, observed_page(page.deep_view(), input.deep_view(), command@)),
{
    match &input.watermark_event_id {
        Some(watermark) => cut_page_at_watermark(page, watermark, &input.after_event_id),
        None => {
            if page.truncated {
                return Err(
                    fault(
                        join3(
                            "causal-dag ",
                            command,
                            " requires a complete bounded event page",
                        ),
                    ),
                );
            }
            Ok(page)
        },
    }
}

/// The events of a revision, and how many events of the page are not among them.
pub struct RevisionEvents {
    pub source_events: Vec<EventEnvelope>,
    pub ignored_event_count: usize,
}

impl RevisionEvents {
    /// The events of a page that the extension itself did not cause.
    pub fn own(page: &ProvenancePage) -> (r: Result<Self, ExtensionError>)
        ensures
            match crate::update::split(page.events.deep_view()) {
                Ok((kept, left)) => r matches Ok(events) && events.source_events.deep_view()
                    == kept && events.ignored_event_count == left.len(),
                Err(e) => r matches Err(error) && error is Message && error->Message_0@ == e,
            },
    {
        let split = split_update_events(&page.events)?;
        assert(split.ignored_self_event_ids.deep_view().len()
            == split.ignored_self_event_ids@.len());
        Ok(
            RevisionEvents {
                ignored_event_count: split.ignored_self_event_ids.len(),
                source_events: split.source_events,
            },
        )
    }

    /// The events of a page that an observer was shown.
    pub fn listed(page: &ProvenancePage, listed: Vec<EventEnvelope>) -> (r: Self)
        requires
            listed@.len() <= page.events@.len(),
        ensures
            r.source_events == listed,
            r.ignored_event_count == page.events@.len() - listed@.len(),
    {
        RevisionEvents {
            ignored_event_count: page.events.len() - listed.len(),
            source_events: listed,
        }
    }
}

/// On what an observation is committed.
pub enum ObservationCommit {
    ManualReframe,
    Rolling {
        expected_predecessor_artifact_event_id: Option<String>,
        observer_result_event_id: String,
    },
    Explicit {
        operation: ConstructionOperation,
        policy: ConstructionPolicy,
        trigger: ConstructionTrigger,
        expected_predecessor_artifact_event_id: Option<String>,
        observer_result_event_id: String,
    },
}

/// What an [`ObservationCommit`] holds.
pub enum Commit {
    ManualReframe,
    Rolling { expected: Option<Seq<char>>, result: Seq<char> },
    Explicit {
        operation: ConstructionOperation,
        policy: ConstructionPolicy,
        trigger: ConstructionTrigger,
        expected: Option<Seq<char>>,
        result: Seq<char>,
    },
}

impl DeepView for ObservationCommit {
    type V = Commit;

    open spec fn deep_view(&self) -> Commit {
        match self {
            ObservationCommit::ManualReframe => Commit::ManualReframe,
            ObservationCommit::Rolling {
                expected_predecessor_artifact_event_id,
                observer_result_event_id,
            } => Commit::Rolling {
                expected: expected_predecessor_artifact_event_id.deep_view(),
                result: observer_result_event_id@,
            },
            ObservationCommit::Explicit {
                operation,
                policy,
                trigger,
                expected_predecessor_artifact_event_id,
                observer_result_event_id,
            } => Commit::Explicit {
                operation: *operation,
                policy: *policy,
                trigger: *trigger,
                expected: expected_predecessor_artifact_event_id.deep_view(),
                result: observer_result_event_id@,
            },
        }
    }
}

impl Commit {
    /// How the graph of the commit is made.
    pub open spec fn making(self, active: Option<Active>) -> Making {
        match self {
            Commit::ManualReframe => making_on(
                ConstructionOperation::Reframe,
                ConstructionPolicy::Manual,
                ConstructionTrigger::ExplicitReframe,
                active,
                None,
            ),
            Commit::Rolling { expected: _, result } => rolling_making(active, Some(result)),
            Commit::Explicit { operation, policy, trigger, expected: _, result } => making_on(
                operation,
                policy,
                trigger,
                active,
                Some(result),
            ),
        }
    }

    /// The event of the observer's result.
    pub open spec fn result(self) -> Option<Seq<char>> {
        match self {
            Commit::ManualReframe => None,
            Commit::Rolling { expected: _, result } => Some(result),
            Commit::Explicit { operation: _, policy: _, trigger: _, expected: _, result } => Some(
                result,
            ),
        }
    }

    /// What is wrong with the graph that is selected: it is not the one that was observed.
    pub open spec fn predecessor_fault(self, active: Option<Active>) -> Option<Seq<char>> {
        let actual = match active {
            Some(state) => Some(state.artifact_event_id),
            None => None,
        };
        let stale = match self {
            Commit::ManualReframe => false,
            Commit::Rolling { expected, result: _ } => expected != actual,
            Commit::Explicit { operation: _, policy: _, trigger: _, expected, result: _ } => expected
                != actual,
        };
        if stale {
            Some("causal-dag active graph changed between observer brief and apply"@)
        } else {
            None
        }
    }

    /// What is wrong with the start of the page: it is not where the selected graph ends.
    pub open spec fn cursor_fault(self, active: Option<Active>, after: Option<Seq<char>>) -> Option<
        Seq<char>,
    > {
        let expected = match active {
            Some(state) => Some(state.cursor_event_id),
            None => None,
        };
        if !(self is ManualReframe) && after != expected {
            Some("causal-dag revision cursor does not match the active graph watermark"@)
        } else {
            None
        }
    }
}

fn same_optional(a: &Option<String>, b: Option<&str>) -> (r: bool)
    ensures
        r == (a.deep_view() == (match b {
            Some(text) => Some(text@),
            None => None,
        })),
{
    match (a, b) {
        (Some(a), Some(b)) => same(a, b),
        (None, None) => true,
        _ => false,
    }
}

impl ObservationCommit {
    /// Whether only events count that an observer was shown.
    pub fn uses_observer_visibility(&self) -> (r: bool)
        ensures
            r == !(self.deep_view() is ManualReframe),
    {
        match self {
            ObservationCommit::ManualReframe => false,
            _ => true,
        }
    }

    pub fn construction(&self, active: Option<&ActiveGraphState>) -> (r: Construction)
        ensures
            r.deep_view() == self.deep_view().making(active.deep_view()),
    {
        match self {
            ObservationCommit::ManualReframe => Construction::explicit(
                ConstructionOperation::Reframe,
                ConstructionPolicy::Manual,
                ConstructionTrigger::ExplicitReframe,
                active,
                None,
            ),
            ObservationCommit::Rolling {
                expected_predecessor_artifact_event_id: _,
                observer_result_event_id,
            } => Construction::rolling(active, Some(observer_result_event_id.clone())),
            ObservationCommit::Explicit {
                operation,
                policy,
                trigger,
                expected_predecessor_artifact_event_id: _,
                observer_result_event_id,
            } => Construction::explicit(
                *operation,
                *policy,
                *trigger,
                active,
                Some(observer_result_event_id.clone()),
            ),
        }
    }

    pub fn observer_result_event_id(&self) -> (r: Option<&String>)
        ensures
            r.deep_view() == self.deep_view().result(),
    {
        match self {
            ObservationCommit::ManualReframe => None,
            ObservationCommit::Rolling {
                expected_predecessor_artifact_event_id: _,
                observer_result_event_id,
            } => Some(observer_result_event_id),
            ObservationCommit::Explicit {
                operation: _,
                policy: _,
                trigger: _,
                expected_predecessor_artifact_event_id: _,
                observer_result_event_id,
            } => Some(observer_result_event_id),
        }
    }

    pub fn validate_predecessor(&self, active: Option<&ActiveGraphState>) -> (r: Result<
        (),
        ExtensionError,
    >)
        ensures
            passes(r, self.deep_view().predecessor_fault(active.deep_view())),
    {
        let expected = match self {
            ObservationCommit::ManualReframe => return Ok(()),
            ObservationCommit::Rolling {
                expected_predecessor_artifact_event_id,
                observer_result_event_id: _,
            } => expected_predecessor_artifact_event_id,
            ObservationCommit::Explicit {
                operation: _,
                policy: _,
                trigger: _,
                expected_predecessor_artifact_event_id,
                observer_result_event_id: _,
            } => expected_predecessor_artifact_event_id,
        };
        let actual = match active {
            Some(state) => Some(state.artifact_event_id()),
            None => None,
        };
        if !same_optional(expected, actual) {
            return Err(
                input_error("causal-dag active graph changed between observer brief and apply"),
            );
        }
        Ok(())
    }

    pub fn validate_cursor(
        &self,
        active: Option<&ActiveGraphState>,
        after_event_id: &Option<String>,
    ) -> (r: Result<(), ExtensionError>)
        ensures
            passes(
                r,
                self.deep_view().cursor_fault(active.deep_view(), after_event_id.deep_view()),
            ),
    {
        if !self.uses_observer_visibility() {
            return Ok(());
        }
        let expected = match active {
            Some(state) => Some(state.cursor_event_id()),
            None => None,
        };
        if !same_optional(after_event_id, expected) {
            return Err(
                input_error("causal-dag revision cursor does not match the active graph watermark"),
            );
        }
        Ok(())
    }
}

/// Of the first `n` names, those of no event.
pub open spec fn named_elsewhere(names: Seq<Seq<char>>, events: Seq<Event>, n: nat) -> Seq<
    Seq<char>,
>
    decreases n,
{
    if n == 0 {
        Seq::empty()
    } else {
        let rest = named_elsewhere(names, events, (n - 1) as nat);
        if event_index(events, names[n - 1], 0) is None {
            rest.push(names[n - 1])
        } else {
            rest
        }
    }
}

/// The names found so far, with those of the events from position `i` on that are among names.
pub open spec fn named_here(
    names: Seq<Seq<char>>,
    events: Seq<Event>,
    i: nat,
    found: Seq<Seq<char>>,
) -> Seq<Seq<char>>
    decreases events.len() - i,
{
    if i >= events.len() {
        found
    } else if names.contains(events[i as int].id) {
        named_here(names, events, i + 1, found.push(events[i as int].id))
    } else {
        named_here(names, events, i + 1, found)
    }
}

/// The events that an artifact names as its sources: those it cites, earlier ones first, and
/// the observer's result.
pub open spec fn source_ids(p: Projected, events: Seq<Event>, result: Option<Seq<char>>) -> Seq<
    Seq<char>,
> {
    let names = cited(p);
    let found = named_here(names, events, 0, named_elsewhere(names, events, names.len()));
    match result {
        Some(id) => if found.contains(id) {
            found
        } else {
            found.push(id)
        },
        None => found,
    }
}

fn artifact_source_event_ids(
    projection: &Projection,
    events: &Vec<EventEnvelope>,
    result: Option<&String>,
) -> (r: Vec<String>)
    ensures
        r.deep_view() == source_ids(
            projection.deep_view(),
            events.deep_view(),
            result.deep_view(),
        ),
{
    let names = projection.cited_event_ids();
    let mut out: Vec<String> = Vec::new();
    let mut i: usize = 0;
    assert(out.deep_view() =~= Seq::empty());
    while i < names.len()
        invariant
            i <= names@.len(),
            out.deep_view() == named_elsewhere(names.deep_view(), events.deep_view(), i as nat),
        decreases names@.len() - i,
    {
        assert(names.deep_view()[i as int] == names@[i as int]@);
        if find_event(events, &names[i]).is_none() {
            let ghost was = out.deep_view();
            out.push(names[i].clone());
            assert(out.deep_view() =~= was.push(names.deep_view()[i as int]));
        }
        i += 1;
    }
    assert(names.deep_view().len() == names@.len());
    let ghost start = out.deep_view();
    let mut k: usize = 0;
    while k < events.len()
        invariant
            k <= events@.len(),
            named_here(names.deep_view(), events.deep_view(), 0, start) == named_here(
                names.deep_view(),
                events.deep_view(),
                k as nat,
                out.deep_view(),
            ),
        decreases events@.len() - k,
    {
        assert(events.deep_view()[k as int] == events@[k as int]@);
        if holds(&names, &events[k].id) {
            let ghost was = out.deep_view();
            out.push(events[k].id.clone());
            assert(out.deep_view() =~= was.push(events.deep_view()[k as int].id));
        }
        k += 1;
    }
    if let Some(id) = result {
        if !holds(&out, id) {
            let ghost was = out.deep_view();
            out.push(id.clone());
            assert(out.deep_view() =~= was.push(id@));
        }
    }
    out
}

/// A graph that an observation makes, and the events it names as its sources.
pub struct Revision {
    pub projection: Projection,
    pub source_event_ids: Vec<String>,
}

impl DeepView for Revision {
    type V = (Projected, Seq<Seq<char>>);

    open spec fn deep_view(&self) -> (Projected, Seq<Seq<char>>) {
        (self.projection.deep_view(), self.source_event_ids.deep_view())
    }
}

/// The graph that an observation makes of some events.
pub open spec fn revision_of(
    input: Observe,
    command: Seq<char>,
    commit: Commit,
    active: Option<Active>,
    events: Seq<Event>,
) -> Result<(Projected, Seq<Seq<char>>), Seq<char>> {
    if events.len() == 0 && active is None {
        Err("causal-dag "@ + command + " requires a non-empty bounded event page"@)
    } else {
        match commit.predecessor_fault(active) {
            Some(e) => Err(e),
            None => match commit.cursor_fault(active, input.after_event_id) {
                Some(e) => Err(e),
                None => match revised(
                    events,
                    input.hints,
                    input.session_id,
                    active,
                    commit.making(active),
                ) {
                    Err(e) => Err(e),
                    Ok(p) => Ok((p, source_ids(p, events, commit.result()))),
                },
            },
        }
    }
}

/// The graph that the observation makes of the events.
pub fn revise(
    input: &ObserveInput,
    command: &str,
    commit: &ObservationCommit,
    active: Option<&ActiveGraphState>,
    events: &Vec<EventEnvelope>,
) -> (r: Result<Revision, ExtensionError>)
    ensures
        answers(
            r,
            revision_of(
                input.deep_view(),
                command@,
                commit.deep_view(),
                active.deep_view(),
                events.deep_view(),
            ),
        ),
{
    assert(events.deep_view().len() == events@.len());
    if events.len() == 0 && active.is_none() {
        return Err(
            fault(
                join3("causal-dag ", command, " requires a non-empty bounded event page"),
            ),
        );
    }
    commit.validate_predecessor(active)?;
    commit.validate_cursor(active, &input.after_event_id)?;
    let construction = commit.construction(active);
    let projection = Projection::from_observer_revision(
        events,
        &input.hints,
        &input.session_id,
        active,
        construction,
    )?;
    let source_event_ids = artifact_source_event_ids(
        &projection,
        events,
        commit.observer_result_event_id(),
    );
    Ok(Revision { projection, source_event_ids })
}

/// The event up to which a revision has read.
pub open spec fn cursor_after(page: Page, input: Observe) -> Option<Seq<char>> {
    match page.watermark_event_id {
        Some(id) => Some(id),
        None => input.after_event_id,
    }
}

/// The event up to which the revision has read.
pub fn next_cursor(page: &ProvenancePage, input: &ObserveInput) -> (r: Option<String>)
    ensures
        r.deep_view() == cursor_after(page.deep_view(), input.deep_view()),
{
    match &page.watermark_event_id {
        Some(id) => Some(id.clone()),
        None => input.after_event_id.clone(),
    }
}

/// What a revision says.
pub open spec fn revision_rows(
    command: Seq<char>,
    page: Page,
    p: Projected,
    counts: (nat, nat, nat),
    record: Stored,
    active: Active,
) -> Seq<(Seq<char>, Tree)> {
    seq![
        ("active_artifact_event_id"@, Tree::Text(active.artifact_event_id)),
        ("active_artifact_sha256"@, Tree::Text(active.artifact_sha256)),
        ("active_cursor_event_id"@, Tree::Text(active.cursor_event_id)),
        ("applied_limit"@, counted(page.applied_limit as nat)),
        ("applied_scan_limit"@, counted(page.applied_scan_limit as nat)),
        ("byte_len"@, counted(record.byte_len as nat)),
        ("checkpoint_after_event_id"@, Tree::Null),
        ("cited_source_event_count"@, counted(counts.1)),
        ("command"@, Tree::Text(command)),
        ("construction"@, making_tree(p.construction)),
        ("degraded"@, Tree::Bool(p.degraded)),
        ("edge_count"@, counted(p.edges.len())),
        ("ignored_event_count"@, counted(counts.2)),
        ("next_after_event_id"@, optional_text(page.next_after_event_id)),
        ("node_count"@, counted(p.nodes.len())),
        ("persisted_event_id"@, Tree::Text(record.persisted_event_id)),
        ("query_watermark_event_id"@, optional_text(page.watermark_event_id)),
        ("relative_path"@, Tree::Text(record.relative_path)),
        ("scanned_events"@, counted(page.scanned_events as nat)),
        ("schema"@, Tree::Text(SCHEMA_NAME@)),
        ("sha256"@, Tree::Text(record.sha256)),
        ("source_event_count"@, counted(counts.0)),
        ("truncated"@, Tree::Bool(page.truncated)),
        ("watermark_event_id"@, p.watermark_event_id),
    ]
}

/// What a revision says, where the host keeps its artifact at `record` and `active` is the graph
/// that is now selected. The counts are those of the events it was made of, of the events it
/// cites, and of the events of the page that were left out.
pub fn revision_output(
    command: &str,
    page: &ProvenancePage,
    projection: &Projection,
    counts: (usize, usize, usize),
    record: &ArtifactRecord,
    active: &ActiveGraphState,
    slot_publication: &SlotPublication,
) -> (r: Json)
    ensures
        r@ == Tree::Object(
            with_publication(
                revision_rows(
                    command@,
                    page.deep_view(),
                    projection.deep_view(),
                    (counts.0 as nat, counts.1 as nat, counts.2 as nat),
                    record@,
                    active.deep_view(),
                ),
                slot_publication.deep_view(),
            ),
        ),
{
    let rows = vec![
        ("active_artifact_event_id".to_owned(), Json::of_text(active.artifact_event_id())),
        ("active_artifact_sha256".to_owned(), Json::of_text(active.artifact_sha256())),
        ("active_cursor_event_id".to_owned(), Json::of_text(active.cursor_event_id())),
        ("applied_limit".to_owned(), Json::of_count(page.applied_limit)),
        ("applied_scan_limit".to_owned(), Json::of_count(page.applied_scan_limit)),
        ("byte_len".to_owned(), Json::of_count(record.byte_len)),
        ("checkpoint_after_event_id".to_owned(), Json::Null),
        ("cited_source_event_count".to_owned(), Json::of_count(counts.1)),
        ("command".to_owned(), Json::of_text(command)),
        ("construction".to_owned(), projection.construction_value()),
        ("degraded".to_owned(), Json::Bool(projection.degraded())),
        ("edge_count".to_owned(), Json::of_count(projection.edge_count())),
        ("ignored_event_count".to_owned(), Json::of_count(counts.2)),
        (
            "next_after_event_id".to_owned(),
            Json::of_optional_text(&page.next_after_event_id),
        ),
        ("node_count".to_owned(), Json::of_count(projection.node_count())),
        ("persisted_event_id".to_owned(), Json::of_text(&record.persisted_event_id)),
        (
            "query_watermark_event_id".to_owned(),
            Json::of_optional_text(&page.watermark_event_id),
        ),
        ("relative_path".to_owned(), Json::of_text(&record.relative_path)),
        ("scanned_events".to_owned(), Json::of_count(page.scanned_events)),
        ("schema".to_owned(), Json::of_text(SCHEMA_NAME)),
        ("sha256".to_owned(), Json::of_text(&record.sha256)),
        ("source_event_count".to_owned(), Json::of_count(counts.0)),
        ("truncated".to_owned(), Json::Bool(page.truncated)),
        ("watermark_event_id".to_owned(), projection.watermark_event_id()),
    ];
    assert(rows.deep_view() =~= revision_rows(
        command@,
        page.deep_view(),
        projection.deep_view(),
        (counts.0 as nat, counts.1 as nat, counts.2 as nat),
        record@,
        active.deep_view(),
    ));
    with_slot_publication(rows, slot_publication)
}

/// A manual observation frames the graph anew, by hand, and names no observer; a rolling one and
/// an explicit one name the result of theirs. Each is refused where the graph that it was told of
/// is no longer the active one, or where it does not start at the cursor of that graph; only a
/// manual one may start anywhere.
pub proof fn commits_are_held_to_the_active_graph(
    commit: Commit,
    active: Option<Active>,
    after: Option<Seq<char>>,
)
    ensures
        ({
            let made = commit.making(active);
            let now = match active {
                Some(state) => Some(state.artifact_event_id),
                None => None,
            };
            let cursor = match active {
                Some(state) => Some(state.cursor_event_id),
                None => None,
            };
            &&& commit is ManualReframe ==> made.operation == ConstructionOperation::Reframe
                && made.policy == ConstructionPolicy::Manual && made.trigger
                == ConstructionTrigger::ExplicitReframe && made.observer_result_event_id is None
                && commit.result() is None
            &&& commit matches Commit::Rolling { expected, result } ==> commit.result() == Some(
                result,
            ) && made.observer_result_event_id == Some(result) && made.trigger
                == ConstructionTrigger::RoundCadence && (made.operation
                == ConstructionOperation::Incremental <==> active is Some)
            &&& commit matches Commit::Explicit { operation, policy, trigger, expected, result }
                ==> commit.result() == Some(result) && made.observer_result_event_id == Some(result)
                && made.operation == operation && made.policy == policy && made.trigger == trigger
            &&& made.predecessor_artifact_event_id == now
            &&& commit is ManualReframe ==> commit.predecessor_fault(active) is None
                && commit.cursor_fault(active, after) is None
            &&& commit matches Commit::Rolling { expected, result } ==> (commit.predecessor_fault(
                active,
            ) is None <==> expected == now)
            &&& commit matches Commit::Explicit { operation, policy, trigger, expected, result } ==> (
            commit.predecessor_fault(active) is None <==> expected == now)
            &&& !(commit is ManualReframe) ==> (commit.cursor_fault(active, after) is None <==> after
                == cursor)
        }),
{
}

/// A revision is made only of a graph that is still the active one, from where that one stopped,
/// and of some events or some graph.
pub proof fn revisions_start_where_the_graph_stopped(
    input: Observe,
    command: Seq<char>,
    commit: Commit,
    active: Option<Active>,
    events: Seq<Event>,
)
    requires
        revision_of(input, command, commit, active, events) is Ok,
    ensures
        events.len() > 0 || active is Some,
        !(commit is ManualReframe) ==> input.after_event_id == (match active {
            Some(state) => Some(state.cursor_event_id),
            None => None,
        }),
        ({
            let (p, sources) = revision_of(input, command, commit, active, events)->Ok_0;
            &&& commit.result() matches Some(id) ==> sources.contains(id)
            &&& revised(
                events,
                input.hints,
                input.session_id,
                active,
                commit.making(active),
            ) == Ok::<Projected, Seq<char>>(p)
        }),
{
    let (p, sources) = revision_of(input, command, commit, active, events)->Ok_0;
    if let Some(id) = commit.result() {
        let names = cited(p);
        let found = named_here(names, events, 0, named_elsewhere(names, events, names.len()));
        if !found.contains(id) {
            assert(sources[found.len() as int] == id);
        }
    }
}

proof fn lemma_named_elsewhere(names: Seq<Seq<char>>, events: Seq<Event>, n: nat, name: Seq<char>)
    requires
        n <= names.len(),
    ensures
        named_elsewhere(names, events, n).contains(name) <==> names.take(n as int).contains(name)
            && event_index(events, name, 0) is None,
    decreases n,
{
    let now = names.take(n as int);
    if n > 0 {
        let m = (n - 1) as nat;
        lemma_named_elsewhere(names, events, m, name);
        let was = names.take(m as int);
        let rest = named_elsewhere(names, events, m);
        let all = named_elsewhere(names, events, n);
        assert(now[m as int] == names[m as int]);
        if was.contains(name) {
            let i = choose|i: int| 0 <= i < was.len() && was[i] == name;
            assert(now[i] == name);
        }
        if now.contains(name) {
            let i = choose|i: int| 0 <= i < now.len() && now[i] == name;
            if i < m {
                assert(was[i] == name);
            }
        }
        if rest.contains(name) {
            let i = choose|i: int| 0 <= i < rest.len() && rest[i] == name;
            assert(all[i] == name);
        }
        if event_index(events, names[n - 1], 0) is None {
            assert(all[rest.len() as int] == names[n - 1]);
        }
        if all.contains(name) {
            let i = choose|i: int| 0 <= i < all.len() && all[i] == name;
            if i < rest.len() {
                assert(rest[i] == name);
            }
        }
    }
}

proof fn lemma_named_here(
    names: Seq<Seq<char>>,
    events: Seq<Event>,
    i: nat,
    found: Seq<Seq<char>>,
    name: Seq<char>,
)
    requires
        i <= events.len(),
    ensures
        named_here(names, events, i, found).contains(name) <==> found.contains(name) || (
        names.contains(name) && exists|k: int|
            i <= k < events.len() && (#[trigger] events[k]).id == name),
    decreases events.len() - i,
{
    if i < events.len() {
        let id = events[i as int].id;
        if names.contains(id) {
            let more = found.push(id);
            lemma_named_here(names, events, i + 1, more, name);
            assert(more[found.len() as int] == id);
            if found.contains(name) {
                let k = choose|k: int| 0 <= k < found.len() && found[k] == name;
                assert(more[k] == name);
            }
            if more.contains(name) && name != id {
                let k = choose|k: int| 0 <= k < more.len() && more[k] == name;
                assert(found[k] == name);
            }
        } else {
            lemma_named_here(names, events, i + 1, found, name);
        }
    }
}

proof fn lemma_no_event(events: Seq<Event>, id: Seq<char>, i: nat)
    requires
        i <= events.len(),
    ensures
        event_index(events, id, i) is None <==> forall|k: int|
            i <= k < events.len() ==> (#[trigger] events[k]).id != id,
        event_index(events, id, i) matches Some(k) ==> i <= k < events.len() && events[k].id == id,
    decreases events.len() - i,
{
    if i < events.len() && events[i as int].id != id {
        lemma_no_event(events, id, i + 1);
    }
}

/// The sources of a revision are the events that its graph cites, and the result of its observer:
/// none is left out, and none is added.
pub proof fn revisions_name_all_that_they_cite(
    p: Projected,
    events: Seq<Event>,
    result: Option<Seq<char>>,
    id: Seq<char>,
)
    ensures
        source_ids(p, events, result).contains(id) <==> cited(p).contains(id) || result == Some(id),
{
    let names = cited(p);
    let first = named_elsewhere(names, events, names.len());
    let found = named_here(names, events, 0, first);
    lemma_named_elsewhere(names, events, names.len(), id);
    assert(names.take(names.len() as int) =~= names);
    lemma_named_here(names, events, 0, first, id);
    lemma_no_event(events, id, 0);
    let all = source_ids(p, events, result);
    if found.contains(id) {
        let k = choose|k: int| 0 <= k < found.len() && found[k] == id;
        assert(all[k] == id);
    }
    if let Some(named) = result {
        if !found.contains(named) {
            assert(all[found.len() as int] == named);
            if all.contains(id) && id != named {
                let k = choose|k: int| 0 <= k < all.len() && all[k] == id;
                assert(found[k] == id);
            }
        }
    }
}

/// What a revision tells: what is active now, how many events it read, cites and left out, what
/// the graph holds and how it was made, and where the artifact stands.
pub proof fn revisions_tell_what_they_did(
    command: Seq<char>,
    page: Page,
    p: Projected,
    counts: (nat, nat, nat),
    record: Stored,
    active: Active,
)
    ensures
        ({
            let out = Tree::Object(revision_rows(command, page, p, counts, record, active));
            &&& out.at("active_artifact_event_id"@) == Tree::Text(active.artifact_event_id)
            &&& out.at("active_artifact_sha256"@) == Tree::Text(active.artifact_sha256)
            &&& out.at("active_cursor_event_id"@) == Tree::Text(active.cursor_event_id)
            &&& out.at("applied_limit"@) == counted(page.applied_limit as nat)
            &&& out.at("applied_scan_limit"@) == counted(page.applied_scan_limit as nat)
            &&& out.at("byte_len"@) == counted(record.byte_len as nat)
            &&& out.at("checkpoint_after_event_id"@) == Tree::Null
            &&& out.at("cited_source_event_count"@) == counted(counts.1)
            &&& out.at("command"@) == Tree::Text(command)
            &&& out.at("construction"@) == making_tree(p.construction)
            &&& out.at("degraded"@) == Tree::Bool(p.degraded)
            &&& out.at("edge_count"@) == counted(p.edges.len())
            &&& out.at("ignored_event_count"@) == counted(counts.2)
            &&& out.at("next_after_event_id"@) == optional_text(page.next_after_event_id)
            &&& out.at("node_count"@) == counted(p.nodes.len())
            &&& out.at("persisted_event_id"@) == Tree::Text(record.persisted_event_id)
            &&& out.at("query_watermark_event_id"@) == optional_text(page.watermark_event_id)
            &&& out.at("relative_path"@) == Tree::Text(record.relative_path)
            &&& out.at("scanned_events"@) == counted(page.scanned_events as nat)
            &&& out.at("schema"@) == Tree::Text("euler.causal_dag.v3"@)
            &&& out.at("sha256"@) == Tree::Text(record.sha256)
            &&& out.at("source_event_count"@) == counted(counts.0)
            &&& out.at("truncated"@) == Tree::Bool(page.truncated)
            &&& out.at("watermark_event_id"@) == p.watermark_event_id
        }),
{
    let o = revision_rows(command, page, p, counts, record, active);
    reveal_strlit("active_artifact_event_id");
    reveal_strlit("active_artifact_sha256");
    reveal_strlit("active_cursor_event_id");
    reveal_strlit("applied_limit");
    reveal_strlit("applied_scan_limit");
    reveal_strlit("byte_len");
    reveal_strlit("checkpoint_after_event_id");
    reveal_strlit("cited_source_event_count");
    reveal_strlit("command");
    reveal_strlit("construction");
    reveal_strlit("degraded");
    reveal_strlit("edge_count");
    reveal_strlit("ignored_event_count");
    reveal_strlit("next_after_event_id");
    reveal_strlit("node_count");
    reveal_strlit("persisted_event_id");
    reveal_strlit("query_watermark_event_id");
    reveal_strlit("relative_path");
    reveal_strlit("scanned_events");
    reveal_strlit("schema");
    reveal_strlit("sha256");
    reveal_strlit("source_event_count");
    reveal_strlit("truncated");
    reveal_strlit("watermark_event_id");
    crate::table::lemma_first_row(o, "active_artifact_event_id"@, 0);
    assert(o[0].0.len() == 24 && "active_artifact_sha256"@.len() == 22);
    crate::table::lemma_first_row(o, "active_artifact_sha256"@, 1);
    assert(o[0].0.len() == 24 && o[1].0[7] == 'a' && "active_cursor_event_id"@.len() == 22 && "active_cursor_event_id"@[7] == 'c');
    crate::table::lemma_first_row(o, "active_cursor_event_id"@, 2);
    assert(o[0].0.len() == 24 && o[1].0.len() == 22 && o[2].0.len() == 22 && "applied_limit"@.len() == 13);
    crate::table::lemma_first_row(o, "applied_limit"@, 3);
    assert(o[0].0.len() == 24 && o[1].0.len() == 22 && o[2].0.len() == 22 && o[3].0.len() == 13 && "applied_scan_limit"@.len() == 18);
    crate::table::lemma_first_row(o, "applied_scan_limit"@, 4);
    assert(o[0].0.len() == 24 && o[1].0.len() == 22 && o[2].0.len() == 22 && o[3].0.len() == 13 && o[4].0.len() == 18 && "byte_len"@.len() == 8);
    crate::table::lemma_first_row(o, "byte_len"@, 5);
    assert(o[0].0.len() == 24 && o[1].0.len() == 22 && o[2].0.len() == 22 && o[3].0.len() == 13 && o[4].0.len() == 18 && o[5].0.len() == 8 && "checkpoint_after_event_id"@.len() == 25);
    crate::table::lemma_first_row(o, "checkpoint_after_event_id"@, 6);
    assert(o[0].0[0] == 'a' && o[1].0.len() == 22 && o[2].0.len() == 22 && o[3].0.len() == 13 && o[4].0.len() == 18 && o[5].0.len() == 8 && o[6].0.len() == 25 && "cited_source_event_count"@.len() == 24 && "cited_source_event_count"@[0] == 'c');
    crate::table::lemma_first_row(o, "cited_source_event_count"@, 7);
    assert(o[0].0.len() == 24 && o[1].0.len() == 22 && o[2].0.len() == 22 && o[3].0.len() == 13 && o[4].0.len() == 18 && o[5].0.len() == 8 && o[6].0.len() == 25 && o[7].0.len() == 24 && "command"@.len() == 7);
    crate::table::lemma_first_row(o, "command"@, 8);
    assert(o[0].0.len() == 24 && o[1].0.len() == 22 && o[2].0.len() == 22 && o[3].0.len() == 13 && o[4].0.len() == 18 && o[5].0.len() == 8 && o[6].0.len() == 25 && o[7].0.len() == 24 && o[8].0.len() == 7 && "construction"@.len() == 12);
    crate::table::lemma_first_row(o, "construction"@, 9);
    assert(o[0].0.len() == 24 && o[1].0.len() == 22 && o[2].0.len() == 22 && o[3].0.len() == 13 && o[4].0.len() == 18 && o[5].0[0] == 'b' && o[6].0.len() == 25 && o[7].0.len() == 24 && o[8].0.len() == 7 && o[9].0.len() == 12 && "degraded"@.len() == 8 && "degraded"@[0] == 'd');
    crate::table::lemma_first_row(o, "degraded"@, 10);
    assert(o[0].0.len() == 24 && o[1].0.len() == 22 && o[2].0.len() == 22 && o[3].0.len() == 13 && o[4].0.len() == 18 && o[5].0.len() == 8 && o[6].0.len() == 25 && o[7].0.len() == 24 && o[8].0.len() == 7 && o[9].0.len() == 12 && o[10].0.len() == 8 && "edge_count"@.len() == 10);
    crate::table::lemma_first_row(o, "edge_count"@, 11);
    assert(o[0].0.len() == 24 && o[1].0.len() == 22 && o[2].0.len() == 22 && o[3].0.len() == 13 && o[4].0.len() == 18 && o[5].0.len() == 8 && o[6].0.len() == 25 && o[7].0.len() == 24 && o[8].0.len() == 7 && o[9].0.len() == 12 && o[10].0.len() == 8 && o[11].0.len() == 10 && "ignored_event_count"@.len() == 19);
    crate::table::lemma_first_row(o, "ignored_event_count"@, 12);
    assert(o[0].0.len() == 24 && o[1].0.len() == 22 && o[2].0.len() == 22 && o[3].0.len() == 13 && o[4].0.len() == 18 && o[5].0.len() == 8 && o[6].0.len() == 25 && o[7].0.len() == 24 && o[8].0.len() == 7 && o[9].0.len() == 12 && o[10].0.len() == 8 && o[11].0.len() == 10 && o[12].0[0] == 'i' && "next_after_event_id"@.len() == 19 && "next_after_event_id"@[0] == 'n');
    crate::table::lemma_first_row(o, "next_after_event_id"@, 13);
    assert(o[0].0.len() == 24 && o[1].0.len() == 22 && o[2].0.len() == 22 && o[3].0.len() == 13 && o[4].0.len() == 18 && o[5].0.len() == 8 && o[6].0.len() == 25 && o[7].0.len() == 24 && o[8].0.len() == 7 && o[9].0.len() == 12 && o[10].0.len() == 8 && o[11].0[0] == 'e' && o[12].0.len() == 19 && o[13].0.len() == 19 && "node_count"@.len() == 10 && "node_count"@[0] == 'n');
    crate::table::lemma_first_row(o, "node_count"@, 14);
    assert(o[0].0.len() == 24 && o[1].0.len() == 22 && o[2].0.len() == 22 && o[3].0.len() == 13 && o[4].0[0] == 'a' && o[5].0.len() == 8 && o[6].0.len() == 25 && o[7].0.len() == 24 && o[8].0.len() == 7 && o[9].0.len() == 12 && o[10].0.len() == 8 && o[11].0.len() == 10 && o[12].0.len() == 19 && o[13].0.len() == 19 && o[14].0.len() == 10 && "persisted_event_id"@.len() == 18 && "persisted_event_id"@[0] == 'p');
    crate::table::lemma_first_row(o, "persisted_event_id"@, 15);
    assert(o[0].0[0] == 'a' && o[1].0.len() == 22 && o[2].0.len() == 22 && o[3].0.len() == 13 && o[4].0.len() == 18 && o[5].0.len() == 8 && o[6].0.len() == 25 && o[7].0[0] == 'c' && o[8].0.len() == 7 && o[9].0.len() == 12 && o[10].0.len() == 8 && o[11].0.len() == 10 && o[12].0.len() == 19 && o[13].0.len() == 19 && o[14].0.len() == 10 && o[15].0.len() == 18 && "query_watermark_event_id"@.len() == 24 && "query_watermark_event_id"@[0] == 'q');
    crate::table::lemma_first_row(o, "query_watermark_event_id"@, 16);
    assert(o[0].0.len() == 24 && o[1].0.len() == 22 && o[2].0.len() == 22 && o[3].0[0] == 'a' && o[4].0.len() == 18 && o[5].0.len() == 8 && o[6].0.len() == 25 && o[7].0.len() == 24 && o[8].0.len() == 7 && o[9].0.len() == 12 && o[10].0.len() == 8 && o[11].0.len() == 10 && o[12].0.len() == 19 && o[13].0.len() == 19 && o[14].0.len() == 10 && o[15].0.len() == 18 && o[16].0.len() == 24 && "relative_path"@.len() == 13 && "relative_path"@[0] == 'r');
    crate::table::lemma_first_row(o, "relative_path"@, 17);
    assert(o[0].0.len() == 24 && o[1].0.len() == 22 && o[2].0.len() == 22 && o[3].0.len() == 13 && o[4].0.len() == 18 && o[5].0.len() == 8 && o[6].0.len() == 25 && o[7].0.len() == 24 && o[8].0.len() == 7 && o[9].0.len() == 12 && o[10].0.len() == 8 && o[11].0.len() == 10 && o[12].0.len() == 19 && o[13].0.len() == 19 && o[14].0.len() == 10 && o[15].0.len() == 18 && o[16].0.len() == 24 && o[17].0.len() == 13 && "scanned_events"@.len() == 14);
    crate::table::lemma_first_row(o, "scanned_events"@, 18);
    assert(o[0].0.len() == 24 && o[1].0.len() == 22 && o[2].0.len() == 22 && o[3].0.len() == 13 && o[4].0.len() == 18 && o[5].0.len() == 8 && o[6].0.len() == 25 && o[7].0.len() == 24 && o[8].0.len() == 7 && o[9].0.len() == 12 && o[10].0.len() == 8 && o[11].0.len() == 10 && o[12].0.len() == 19 && o[13].0.len() == 19 && o[14].0.len() == 10 && o[15].0.len() == 18 && o[16].0.len() == 24 && o[17].0.len() == 13 && o[18].0.len() == 14 && "schema"@.len() == 6);
    crate::table::lemma_first_row(o, "schema"@, 19);
    assert(o[0].0.len() == 24 && o[1].0.len() == 22 && o[2].0.len() == 22 && o[3].0.len() == 13 && o[4].0.len() == 18 && o[5].0.len() == 8 && o[6].0.len() == 25 && o[7].0.len() == 24 && o[8].0.len() == 7 && o[9].0.len() == 12 && o[10].0.len() == 8 && o[11].0.len() == 10 && o[12].0.len() == 19 && o[13].0.len() == 19 && o[14].0.len() == 10 && o[15].0.len() == 18 && o[16].0.len() == 24 && o[17].0.len() == 13 && o[18].0.len() == 14 && o[19].0[1] == 'c' && "sha256"@.len() == 6 && "sha256"@[1] == 'h');
    crate::table::lemma_first_row(o, "sha256"@, 20);
    assert(o[0].0.len() == 24 && o[1].0.len() == 22 && o[2].0.len() == 22 && o[3].0.len() == 13 && o[4].0[0] == 'a' && o[5].0.len() == 8 && o[6].0.len() == 25 && o[7].0.len() == 24 && o[8].0.len() == 7 && o[9].0.len() == 12 && o[10].0.len() == 8 && o[11].0.len() == 10 && o[12].0.len() == 19 && o[13].0.len() == 19 && o[14].0.len() == 10 && o[15].0[0] == 'p' && o[16].0.len() == 24 && o[17].0.len() == 13 && o[18].0.len() == 14 && o[19].0.len() == 6 && o[20].0.len() == 6 && "source_event_count"@.len() == 18 && "source_event_count"@[0] == 's');
    crate::table::lemma_first_row(o, "source_event_count"@, 21);
    assert(o[0].0.len() == 24 && o[1].0.len() == 22 && o[2].0.len() == 22 && o[3].0.len() == 13 && o[4].0.len() == 18 && o[5].0.len() == 8 && o[6].0.len() == 25 && o[7].0.len() == 24 && o[8].0.len() == 7 && o[9].0.len() == 12 && o[10].0.len() == 8 && o[11].0.len() == 10 && o[12].0.len() == 19 && o[13].0.len() == 19 && o[14].0.len() == 10 && o[15].0.len() == 18 && o[16].0.len() == 24 && o[17].0.len() == 13 && o[18].0.len() == 14 && o[19].0.len() == 6 && o[20].0.len() == 6 && o[21].0.len() == 18 && "truncated"@.len() == 9);
    crate::table::lemma_first_row(o, "truncated"@, 22);
    assert(o[0].0.len() == 24 && o[1].0.len() == 22 && o[2].0.len() == 22 && o[3].0.len() == 13 && o[4].0[0] == 'a' && o[5].0.len() == 8 && o[6].0.len() == 25 && o[7].0.len() == 24 && o[8].0.len() == 7 && o[9].0.len() == 12 && o[10].0.len() == 8 && o[11].0.len() == 10 && o[12].0.len() == 19 && o[13].0.len() == 19 && o[14].0.len() == 10 && o[15].0[0] == 'p' && o[16].0.len() == 24 && o[17].0.len() == 13 && o[18].0.len() == 14 && o[19].0.len() == 6 && o[20].0.len() == 6 && o[21].0[0] == 's' && o[22].0.len() == 9 && "watermark_event_id"@.len() == 18 && "watermark_event_id"@[0] == 'w');
    crate::table::lemma_first_row(o, "watermark_event_id"@, 23);
}

/// A page that is cut at a watermark holds just the events up to it, is complete, and leaves no
/// cursor; one without a watermark is taken only if it is complete, and then as it is. The cursor
/// moves to the end of the page, and stays where the page has none.
pub proof fn observed_pages_are_complete(page: Page, input: Observe, command: Seq<char>)
    requires
        observed_page(page, input, command) is Ok,
    ensures
        ({
            let now = observed_page(page, input, command)->Ok_0;
            &&& !now.truncated
            &&& input.watermark_event_id is None ==> now == page
            &&& input.watermark_event_id is Some ==> now.watermark_event_id
                == input.watermark_event_id && now.next_after_event_id is None
            &&& input.watermark_event_id is Some && input.after_event_id
                == input.watermark_event_id ==> now.events.len() == 0 && now.scanned_events == 0
            &&& now.events.is_prefix_of(page.events)
            &&& now.applied_limit == page.applied_limit
            &&& cursor_after(now, input) == (if now.watermark_event_id is Some {
                now.watermark_event_id
            } else {
                input.after_event_id
            })
        }),
{
    let now = observed_page(page, input, command)->Ok_0;
    if let Some(watermark) = input.watermark_event_id {
        lemma_no_event(page.events, watermark, 0);
        assert(now.events =~= page.events.take(now.events.len() as int));
    } else {
        assert(page.events =~= page.events.take(page.events.len() as int));
    }
}

/// An observation is asked with its hint, of at most 65536 bytes; what else is asked is taken as
/// it is, and else has its default.
pub proof fn observations_are_taken_as_asked(o: Seq<(Seq<char>, Tree)>)
    ensures
        observe_of(Tree::Object(o)) matches Ok(x) ==> {
            &&& member(o, "causal_dag"@) == Some(x.hints)
            &&& byte_len(json_text(x.hints)) <= 65536
            &&& member(o, "limit"@) is None ==> x.limit == 64
            &&& member(o, "limit"@) matches Some(n) ==> n is Null || n.count() == Some(
                x.limit as u64,
            ) && x.limit > 0
            &&& member(o, "scan_limit"@) is None ==> x.scan_limit is None
            &&& member(o, "scan_limit"@) matches Some(n) ==> n is Null || x.scan_limit is Some
                && n.count() == Some(x.scan_limit->0 as u64)
            &&& member(o, "after_event_id"@) is None ==> x.after_event_id is None
            &&& member(o, "after_event_id"@) matches Some(Tree::Text(id)) ==> x.after_event_id
                == Some(id)
            &&& member(o, "watermark_event_id"@) is None ==> x.watermark_event_id is None
            &&& member(o, "watermark_event_id"@) matches Some(Tree::Text(id))
                ==> x.watermark_event_id == Some(id)
            &&& member(o, "session_id"@) is None ==> x.session_id is None
            &&& member(o, "session_id"@) matches Some(Tree::Text(id)) ==> x.session_id == Some(id)
                && id.len() > 0
        },
{
}

/// After an observation the graph has seen as far as the page reached, or as far as before.
pub proof fn cursors_follow_the_page(page: Page, input: Observe)
    ensures
        page.watermark_event_id is Some ==> cursor_after(page, input) == page.watermark_event_id,
        page.watermark_event_id is None ==> cursor_after(page, input) == input.after_event_id,
{
}

} // verus!
