//! Which of the two ways of keeping a graph a session follows, and how it takes up the durable
//! research record.

use crate::active_state::state_answers;
use crate::json::{Json, Tree};
use crate::research_observer::input::{is_research_apply, RESEARCH_MODE};
use crate::research_state::{ResearchState, Selected};
use crate::sdk::{answers, input_error, passes, ExtensionError};
use vstd::prelude::*;

verus! {

pub const ENABLE_SCHEMA: &'static str = "euler.research_record.enable.v1";

/// What is wrong with the input: the command takes no arguments.
pub open spec fn input_fault(input: Tree) -> Option<Seq<char>> {
    match input {
        Tree::Null => None,
        Tree::Object(o) => if o.len() == 0 {
            None
        } else {
            Some("causal-dag research-enable accepts no arguments"@)
        },
        _ => Some("causal-dag research-enable input must be a JSON object"@),
    }
}

/// Checks that the input holds no arguments.
pub fn reject_input(input: &Json) -> (r: Result<(), ExtensionError>)
    ensures
        passes(r, input_fault(input@)),
{
    broadcast use crate::json::object_model;

    match input {
        Json::Null => Ok(()),
        Json::Object(o) => {
            assert(o.deep_view().len() == o@.len());
            if o.len() == 0 {
                Ok(())
            } else {
                Err(input_error("causal-dag research-enable accepts no arguments"))
            }
        },
        _ => Err(input_error("causal-dag research-enable input must be a JSON object")),
    }
}

/// What is answered once the record is enabled.
pub open spec fn enabled_tree(state: Selected) -> Tree {
    Tree::Object(
        seq![
            ("active"@, Tree::Bool(state.record is Some && state.graph is Some)),
            ("enabled"@, Tree::Bool(true)),
            ("mode"@, Tree::Text(RESEARCH_MODE@)),
            (
                "next"@,
                Tree::Text(
                    "run with --observe causal-dag; observer proposals will populate the durable record"@,
                ),
            ),
            ("schema"@, Tree::Text(ENABLE_SCHEMA@)),
        ],
    )
}

/// What is answered once the record is enabled.
pub fn enable_output(state: &ResearchState) -> (r: Json)
    ensures
        r@ == enabled_tree(state.deep_view()),
{
    broadcast use crate::json::object_model;

    let rows = vec![
        ("active".to_owned(), Json::Bool(state.active())),
        ("enabled".to_owned(), Json::Bool(true)),
        ("mode".to_owned(), Json::of_text(RESEARCH_MODE)),
        (
            "next".to_owned(),
            Json::of_text(
                "run with --observe causal-dag; observer proposals will populate the durable record",
            ),
        ),
        ("schema".to_owned(), Json::of_text(ENABLE_SCHEMA)),
    ];
    assert(rows.deep_view() =~= enabled_tree(state.deep_view())->Object_0);
    Json::Object(rows)
}

/// The state with which the record is enabled, and whether it is a new one: the one that is
/// there, or an empty one where no graph of the other kind is active.
pub open spec fn enabled_state(state: Option<Selected>, blocked: bool) -> Result<
    (Selected, bool),
    Seq<char>,
> {
    match state {
        Some(state) => Ok((state, false)),
        None => if blocked {
            Err(
                "cannot enable the research-record pilot while a v3 causal DAG is active; start a fresh session"@,
            )
        } else {
            Ok(
                (
                    Selected { observed_through_event_id: None, record: None, graph: None },
                    true,
                ),
            )
        },
    }
}

/// The state with which the record is enabled, and whether it is a new one.
pub fn enable(state: Option<ResearchState>, blocked: bool) -> (r: Result<
    (ResearchState, bool),
    ExtensionError,
>)
    ensures
        answers(r, enabled_state(state.deep_view(), blocked)),
{
    match state {
        Some(state) => Ok((state, false)),
        None => {
            if blocked {
                return Err(
                    input_error(
                        "cannot enable the research-record pilot while a v3 causal DAG is active; start a fresh session",
                    ),
                );
            }
            Ok((ResearchState::empty(), true))
        },
    }
}

/// Checks that a session keeps its graph without a record.
pub fn ensure_legacy_mode(recorded: bool) -> (r: Result<(), ExtensionError>)
    ensures
        state_answers(
            r,
            if recorded {
                Err(
                    "research-record pilot is enabled; legacy causal-DAG graph construction is unavailable in this session"@,
                )
            } else {
                Ok(())
            },
        ),
{
    if recorded {
        return Err(
            ExtensionError::StateDirFailed(
                "research-record pilot is enabled; legacy causal-DAG graph construction is unavailable in this session".to_owned(),
            ),
        );
    }
    Ok(())
}

/// Whether what an observer returned goes to the record: an envelope must be of the kind that the
/// session keeps.
pub open spec fn apply_route(recorded: bool, input: Tree) -> Result<bool, Seq<char>> {
    let research = input.at("apply"@).text_at("mode"@) == Some(RESEARCH_MODE@);
    if recorded && !research {
        Err(
            "research-record pilot is enabled; observer-apply must receive its research-record apply envelope"@,
        )
    } else if !recorded && research {
        Err(
            "research-record observer apply requires causal-dag.research-enable in this session"@,
        )
    } else {
        Ok(recorded)
    }
}

/// Whether what an observer returned goes to the record.
pub fn route_apply(recorded: bool, input: &Json) -> (r: Result<bool, ExtensionError>)
    ensures
        answers(r, apply_route(recorded, input@)),
{
    let research = is_research_apply(input);
    if recorded && !research {
        return Err(
            input_error(
                "research-record pilot is enabled; observer-apply must receive its research-record apply envelope",
            ),
        );
    }
    if !recorded && research {
        return Err(
            input_error(
                "research-record observer apply requires causal-dag.research-enable in this session",
            ),
        );
    }
    Ok(recorded)
}

/// Enabling the record twice selects the same state as enabling it once.
pub proof fn enabling_again_changes_nothing(state: Option<Selected>, blocked: bool, later: bool)
    requires
        enabled_state(state, blocked) is Ok,
    ensures
        enabled_state(Some((enabled_state(state, blocked)->Ok_0).0), later) == Ok::<
            (Selected, bool),
            Seq<char>,
        >(((enabled_state(state, blocked)->Ok_0).0, false)),
{
}

/// A session that keeps a record takes no envelope of the other kind, and one that keeps none
/// takes no envelope of a record.
pub proof fn envelopes_keep_to_their_mode(recorded: bool, input: Tree)
    requires
        apply_route(recorded, input) is Ok,
    ensures
        apply_route(recorded, input)->Ok_0 == recorded,
        recorded == (input.at("apply"@).text_at("mode"@) == Some(RESEARCH_MODE@)),
        apply_route(!recorded, input) is Err,
{
}

/// Enabling takes no arguments. It tells the mode, and whether there is a record to go on with;
/// it is refused only where a graph without a record is active.
pub proof fn enabling_is_told(state: Selected, blocked: bool, o: Seq<(Seq<char>, Tree)>)
    ensures
        input_fault(Tree::Null) is None,
        input_fault(Tree::Object(o)) is None <==> o.len() == 0,
        enabled_state(None, blocked) is Ok <==> !blocked,
        enabled_state(None, false) matches Ok((s, new)) ==> new && s.record is None && s.graph
            is None && s.observed_through_event_id is None,
        enabled_state(Some(state), blocked) == Ok::<(Selected, bool), Seq<char>>((state, false)),
        ({
            let t = enabled_tree(state);
            &&& t.flag_at("active"@) == Some(state.record is Some && state.graph is Some)
            &&& t.flag_at("enabled"@) == Some(true)
            &&& t.text_at("mode"@) == Some("research_record_v1"@)
            &&& t.text_at("schema"@) == Some("euler.research_record.enable.v1"@)
        }),
{
    let t = enabled_tree(state)->Object_0;
    reveal_strlit("active");
    reveal_strlit("enabled");
    reveal_strlit("mode");
    reveal_strlit("next");
    reveal_strlit("schema");
    crate::table::lemma_first_row(t, "active"@, 0);
    assert(t[0].0.len() == 6 && "enabled"@.len() == 7);
    crate::table::lemma_first_row(t, "enabled"@, 1);
    assert(t[0].0.len() == 6 && t[1].0.len() == 7 && "mode"@.len() == 4);
    crate::table::lemma_first_row(t, "mode"@, 2);
    assert(t[0].0[0] == 'a' && t[1].0.len() == 7 && t[2].0.len() == 4 && t[3].0.len() == 4 && "schema"@.len() == 6 && "schema"@[0] == 's');
    crate::table::lemma_first_row(t, "schema"@, 4);
}

} // verus!
