//! How a graph artifact came about: the operation, the policy and the trigger, and the graph
//! before it.

use crate::active_state::{policy_in, Active, ActiveGraphState};
use crate::json::{optional_text, Json, Tree};
use crate::text::same;
use vstd::prelude::*;

verus! {

#[derive(Clone, Copy, Debug, PartialEq, Eq, Structural)]
pub enum ConstructionOperation {
    Snapshot,
    Incremental,
    Reframe,
    Final,
}

impl ConstructionOperation {
    pub open spec fn name(self) -> Seq<char> {
        match self {
            ConstructionOperation::Snapshot => "snapshot"@,
            ConstructionOperation::Incremental => "incremental"@,
            ConstructionOperation::Reframe => "reframe"@,
            ConstructionOperation::Final => "final"@,
        }
    }

    pub fn as_str(self) -> (r: &'static str)
        ensures
            r@ == self.name(),
    {
        match self {
            ConstructionOperation::Snapshot => "snapshot",
            ConstructionOperation::Incremental => "incremental",
            ConstructionOperation::Reframe => "reframe",
            ConstructionOperation::Final => "final",
        }
    }
}

#[derive(Clone, Copy, Debug, PartialEq, Eq, Structural)]
pub enum ConstructionPolicy {
    Manual,
    RollingOnly,
    RollingAndFinal,
    FinalOnly,
}

impl DeepView for ConstructionOperation {
    type V = ConstructionOperation;

    open spec fn deep_view(&self) -> ConstructionOperation {
        *self
    }
}

impl DeepView for ConstructionPolicy {
    type V = ConstructionPolicy;

    open spec fn deep_view(&self) -> ConstructionPolicy {
        *self
    }
}

/// The policy of a name; the usual one for any other name and for none.
pub open spec fn policy_of(name: Option<Seq<char>>) -> ConstructionPolicy {
    if name == Some("rolling_only"@) {
        ConstructionPolicy::RollingOnly
    } else if name == Some("final_only"@) {
        ConstructionPolicy::FinalOnly
    } else if name == Some("manual"@) {
        ConstructionPolicy::Manual
    } else {
        ConstructionPolicy::RollingAndFinal
    }
}

/// The policy by which the selected graph was made.
pub open spec fn policy_from(active: Option<Active>) -> ConstructionPolicy {
    match active {
        Some(state) => policy_of(policy_in(state.artifact)),
        None => ConstructionPolicy::RollingAndFinal,
    }
}

impl ConstructionPolicy {
    pub open spec fn name(self) -> Seq<char> {
        match self {
            ConstructionPolicy::Manual => "manual"@,
            ConstructionPolicy::RollingOnly => "rolling_only"@,
            ConstructionPolicy::RollingAndFinal => "rolling_and_final"@,
            ConstructionPolicy::FinalOnly => "final_only"@,
        }
    }

    pub fn as_str(self) -> (r: &'static str)
        ensures
            r@ == self.name(),
    {
        match self {
            ConstructionPolicy::Manual => "manual",
            ConstructionPolicy::RollingOnly => "rolling_only",
            ConstructionPolicy::RollingAndFinal => "rolling_and_final",
            ConstructionPolicy::FinalOnly => "final_only",
        }
    }

    /// The policy by which the selected graph was made.
    pub fn from_active(active: Option<&ActiveGraphState>) -> (r: Self)
        ensures
            r == policy_from(active.deep_view()),
    {
        let name = match active {
            Some(state) => state.policy(),
            None => None,
        };
        match name {
            Some(name) => if same(name, "rolling_only") {
                ConstructionPolicy::RollingOnly
            } else if same(name, "final_only") {
                ConstructionPolicy::FinalOnly
            } else if same(name, "manual") {
                ConstructionPolicy::Manual
            } else {
                ConstructionPolicy::RollingAndFinal
            },
            None => ConstructionPolicy::RollingAndFinal,
        }
    }
}

#[derive(Clone, Copy, Debug, PartialEq, Eq, Structural)]
pub enum ConstructionTrigger {
    Command,
    RoundCadence,
    ExplicitReframe,
    SessionEnd,
}

impl ConstructionTrigger {
    pub open spec fn name(self) -> Seq<char> {
        match self {
            ConstructionTrigger::Command => "command"@,
            ConstructionTrigger::RoundCadence => "round_cadence"@,
            ConstructionTrigger::ExplicitReframe => "explicit_reframe"@,
            ConstructionTrigger::SessionEnd => "session_end"@,
        }
    }

    pub fn as_str(self) -> (r: &'static str)
        ensures
            r@ == self.name(),
    {
        match self {
            ConstructionTrigger::Command => "command",
            ConstructionTrigger::RoundCadence => "round_cadence",
            ConstructionTrigger::ExplicitReframe => "explicit_reframe",
            ConstructionTrigger::SessionEnd => "session_end",
        }
    }
}

/// How a graph artifact came about.
#[derive(Debug, PartialEq, Eq)]
pub struct Construction {
    operation: ConstructionOperation,
    policy: ConstructionPolicy,
    trigger: ConstructionTrigger,
    predecessor_artifact_event_id: Option<String>,
    predecessor_watermark_event_id: Option<String>,
    observer_result_event_id: Option<String>,
}

/// What a [`Construction`] holds.
#[verifier::ext_equal]
pub struct Making {
    pub operation: ConstructionOperation,
    pub policy: ConstructionPolicy,
    pub trigger: ConstructionTrigger,
    pub predecessor_artifact_event_id: Option<Seq<char>>,
    pub predecessor_watermark_event_id: Option<Seq<char>>,
    pub observer_result_event_id: Option<Seq<char>>,
}

impl DeepView for Construction {
    type V = Making;

    closed spec fn deep_view(&self) -> Making {
        Making {
            operation: self.operation,
            policy: self.policy,
            trigger: self.trigger,
            predecessor_artifact_event_id: self.predecessor_artifact_event_id.deep_view(),
            predecessor_watermark_event_id: self.predecessor_watermark_event_id.deep_view(),
            observer_result_event_id: self.observer_result_event_id.deep_view(),
        }
    }
}

/// A construction on top of the graph that is selected.
pub open spec fn making_on(
    operation: ConstructionOperation,
    policy: ConstructionPolicy,
    trigger: ConstructionTrigger,
    active: Option<Active>,
    observer_result_event_id: Option<Seq<char>>,
) -> Making {
    Making {
        operation,
        policy,
        trigger,
        predecessor_artifact_event_id: match active {
            Some(state) => Some(state.artifact_event_id),
            None => None,
        },
        predecessor_watermark_event_id: match active {
            Some(state) => Some(state.projection_watermark_event_id),
            None => None,
        },
        observer_result_event_id,
    }
}

/// The construction of a snapshot.
pub open spec fn snapshot_making() -> Making {
    making_on(
        ConstructionOperation::Snapshot,
        ConstructionPolicy::Manual,
        ConstructionTrigger::Command,
        None,
        None,
    )
}

/// The construction of a round of observation.
pub open spec fn rolling_making(active: Option<Active>, result: Option<Seq<char>>) -> Making {
    making_on(
        if active is Some {
            ConstructionOperation::Incremental
        } else {
            ConstructionOperation::Reframe
        },
        policy_from(active),
        ConstructionTrigger::RoundCadence,
        active,
        result,
    )
}

/// The tree of a construction.
pub open spec fn making_tree(c: Making) -> Tree {
    Tree::Object(
        seq![
            ("observer_result_event_id"@, optional_text(c.observer_result_event_id)),
            ("operation"@, Tree::Text(c.operation.name())),
            ("policy"@, Tree::Text(c.policy.name())),
            ("predecessor_artifact_event_id"@, optional_text(c.predecessor_artifact_event_id)),
            ("predecessor_watermark_event_id"@, optional_text(c.predecessor_watermark_event_id)),
            ("trigger"@, Tree::Text(c.trigger.name())),
        ],
    )
}

impl Construction {
    pub fn snapshot() -> (r: Self)
        ensures
            r.deep_view() == snapshot_making(),
    {
        Self::explicit(
            ConstructionOperation::Snapshot,
            ConstructionPolicy::Manual,
            ConstructionTrigger::Command,
            None,
            None,
        )
    }

    pub fn rolling(active: Option<&ActiveGraphState>, observer_result_event_id: Option<String>) -> (r:
        Self)
        ensures
            r.deep_view() == rolling_making(
                active.deep_view(),
                observer_result_event_id.deep_view(),
            ),
    {
        let operation = match active {
            Some(_) => ConstructionOperation::Incremental,
            None => ConstructionOperation::Reframe,
        };
        Self::explicit(
            operation,
            ConstructionPolicy::from_active(active),
            ConstructionTrigger::RoundCadence,
            active,
            observer_result_event_id,
        )
    }

    pub fn explicit(
        operation: ConstructionOperation,
        policy: ConstructionPolicy,
        trigger: ConstructionTrigger,
        active: Option<&ActiveGraphState>,
        observer_result_event_id: Option<String>,
    ) -> (r: Self)
        ensures
            r.deep_view() == making_on(
                operation,
                policy,
                trigger,
                active.deep_view(),
                observer_result_event_id.deep_view(),
            ),
    {
        let (artifact, watermark) = match active {
            Some(state) => (
                Some(state.artifact_event_id().to_owned()),
                Some(state.watermark_event_id().to_owned()),
            ),
            None => (None, None),
        };
        Construction {
            operation,
            policy,
            trigger,
            predecessor_artifact_event_id: artifact,
            predecessor_watermark_event_id: watermark,
            observer_result_event_id,
        }
    }

    pub fn operation(&self) -> (r: ConstructionOperation)
        ensures
            r == self.deep_view().operation,
    {
        self.operation
    }

    /// The tree of the construction.
    pub fn to_value(&self) -> (r: Json)
        ensures
            r@ == making_tree(self.deep_view()),
    {
        broadcast use crate::json::object_model;

        let rows = vec![
            (
                "observer_result_event_id".to_owned(),
                Json::of_optional_text(&self.observer_result_event_id),
            ),
            ("operation".to_owned(), Json::of_text(self.operation.as_str())),
            ("policy".to_owned(), Json::of_text(self.policy.as_str())),
            (
                "predecessor_artifact_event_id".to_owned(),
                Json::of_optional_text(&self.predecessor_artifact_event_id),
            ),
            (
                "predecessor_watermark_event_id".to_owned(),
                Json::of_optional_text(&self.predecessor_watermark_event_id),
            ),
            ("trigger".to_owned(), Json::of_text(self.trigger.as_str())),
        ];
        assert(rows.deep_view() =~= making_tree(self.deep_view())->Object_0);
        Json::Object(rows)
    }
}

/// The name of a policy gives the policy back.
pub proof fn policy_names_are_read_back(policy: ConstructionPolicy)
    ensures
        policy_of(Some(policy.name())) == policy,
        crate::active_state::is_policy(policy.name()),
{
    reveal_strlit("manual");
    reveal_strlit("rolling_only");
    reveal_strlit("rolling_and_final");
    reveal_strlit("final_only");
    assert("manual"@.len() == 6 && "rolling_only"@.len() == 12 && "rolling_and_final"@.len() == 17
        && "final_only"@.len() == 10);
}

/// What is made of an active graph names the artifact and the watermark that it grew from; what
/// is made of none names neither. A rolling observation extends an active graph and frames one
/// anew where there is none, at the cadence of rounds, under the policy of the active graph, or
/// else rolling with a final one. A snapshot is made by hand, on command, of no graph.
pub proof fn makings_name_what_they_grew_from(
    operation: ConstructionOperation,
    policy: ConstructionPolicy,
    trigger: ConstructionTrigger,
    active: Option<Active>,
    result: Option<Seq<char>>,
)
    ensures
        ({
            let made = making_on(operation, policy, trigger, active, result);
            let rolled = rolling_making(active, result);
            let snapshot = snapshot_making();
            &&& made.operation == operation && made.policy == policy && made.trigger == trigger
            &&& made.observer_result_event_id == result && rolled.observer_result_event_id == result
            &&& active is None ==> made.predecessor_artifact_event_id is None
                && made.predecessor_watermark_event_id is None
                && rolled.predecessor_artifact_event_id is None
            &&& active is Some ==> made.predecessor_artifact_event_id == Some(
                active->0.artifact_event_id,
            ) && made.predecessor_watermark_event_id == Some(
                active->0.projection_watermark_event_id,
            ) && rolled.predecessor_artifact_event_id == Some(active->0.artifact_event_id)
                && rolled.predecessor_watermark_event_id == Some(
                active->0.projection_watermark_event_id,
            )
            &&& rolled.operation == ConstructionOperation::Incremental <==> active is Some
            &&& rolled.operation == ConstructionOperation::Reframe <==> active is None
            &&& rolled.trigger == ConstructionTrigger::RoundCadence
            &&& active is None ==> rolled.policy == ConstructionPolicy::RollingAndFinal
            &&& snapshot.operation == ConstructionOperation::Snapshot && snapshot.policy
                == ConstructionPolicy::Manual && snapshot.trigger == ConstructionTrigger::Command
            &&& snapshot.predecessor_artifact_event_id is None
                && snapshot.predecessor_watermark_event_id is None
                && snapshot.observer_result_event_id is None
        }),
{
}

/// How a graph was made is told by these words.
pub proof fn makings_are_told_in_words(c: Making)
    ensures
        ({
            let t = making_tree(c);
            &&& t.at("observer_result_event_id"@) == optional_text(c.observer_result_event_id)
            &&& t.at("predecessor_artifact_event_id"@) == optional_text(
                c.predecessor_artifact_event_id,
            )
            &&& t.at("predecessor_watermark_event_id"@) == optional_text(
                c.predecessor_watermark_event_id,
            )
            &&& c.operation is Snapshot ==> t.text_at("operation"@) == Some("snapshot"@)
            &&& c.operation is Incremental ==> t.text_at("operation"@) == Some("incremental"@)
            &&& c.operation is Reframe ==> t.text_at("operation"@) == Some("reframe"@)
            &&& c.operation is Final ==> t.text_at("operation"@) == Some("final"@)
            &&& c.policy is Manual ==> t.text_at("policy"@) == Some("manual"@)
            &&& c.policy is RollingOnly ==> t.text_at("policy"@) == Some("rolling_only"@)
            &&& c.policy is RollingAndFinal ==> t.text_at("policy"@) == Some("rolling_and_final"@)
            &&& c.policy is FinalOnly ==> t.text_at("policy"@) == Some("final_only"@)
            &&& c.trigger is Command ==> t.text_at("trigger"@) == Some("command"@)
            &&& c.trigger is RoundCadence ==> t.text_at("trigger"@) == Some("round_cadence"@)
            &&& c.trigger is ExplicitReframe ==> t.text_at("trigger"@) == Some("explicit_reframe"@)
            &&& c.trigger is SessionEnd ==> t.text_at("trigger"@) == Some("session_end"@)
        }),
{
    let o = making_tree(c)->Object_0;
    reveal_strlit("observer_result_event_id");
    reveal_strlit("operation");
    reveal_strlit("policy");
    reveal_strlit("predecessor_artifact_event_id");
    reveal_strlit("predecessor_watermark_event_id");
    reveal_strlit("trigger");
    crate::table::lemma_first_row(o, "observer_result_event_id"@, 0);
    assert(o[0].0.len() == 24 && "operation"@.len() == 9);
    crate::table::lemma_first_row(o, "operation"@, 1);
    assert(o[0].0.len() == 24 && o[1].0.len() == 9 && "policy"@.len() == 6);
    crate::table::lemma_first_row(o, "policy"@, 2);
    assert(o[0].0.len() == 24 && o[1].0.len() == 9 && o[2].0.len() == 6 && "predecessor_artifact_event_id"@.len() == 29);
    crate::table::lemma_first_row(o, "predecessor_artifact_event_id"@, 3);
    assert(o[0].0.len() == 24 && o[1].0.len() == 9 && o[2].0.len() == 6 && o[3].0.len() == 29 && "predecessor_watermark_event_id"@.len() == 30);
    crate::table::lemma_first_row(o, "predecessor_watermark_event_id"@, 4);
    assert(o[0].0.len() == 24 && o[1].0.len() == 9 && o[2].0.len() == 6 && o[3].0.len() == 29 && o[4].0.len() == 30 && "trigger"@.len() == 7);
    crate::table::lemma_first_row(o, "trigger"@, 5);
}

} // verus!
