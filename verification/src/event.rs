//! Session events: their kinds and their envelope.

use crate::json::{copy_members, Json, Members, Tree};
use crate::table::{put, put_row};
use vstd::prelude::*;

verus! {

/// The kind of an event, by its name on the wire.
#[derive(Debug, PartialEq, Eq, PartialOrd, Ord, Hash)]
pub struct EventKind(String);

impl View for EventKind {
    type V = Seq<char>;

    closed spec fn view(&self) -> Seq<char> {
        self.0@
    }
}

impl EventKind {
    pub const USER_MESSAGE: &'static str = "user.message";

    pub const ASSISTANT_MESSAGE: &'static str = "assistant.message";

    pub const ASSISTANT_ACTIVITY: &'static str = "assistant.activity";

    pub const PLAN_UPDATE: &'static str = "plan.update";

    pub const TOOL_CALL: &'static str = "tool.call";

    pub const TOOL_RESULT: &'static str = "tool.result";

    pub const PERMISSION_PROMPT: &'static str = "permission.prompt";

    pub const PERMISSION_DECISION: &'static str = "permission.decision";

    pub const PATCH_PROPOSED: &'static str = "patch.proposed";

    pub const PATCH_APPLIED: &'static str = "patch.applied";

    pub const FILE_CHANGE: &'static str = "file.change";

    pub const FILE_DIFF: &'static str = "file.diff";

    pub const WORKSPACE_RESTORE: &'static str = "workspace.restore";

    pub const CHECK_STARTED: &'static str = "check.started";

    pub const CHECK_RESULT: &'static str = "check.result";

    pub const MODEL_CALL: &'static str = "model.call";

    pub const MODEL_RESULT: &'static str = "model.result";

    pub const MODEL_REASONING: &'static str = "model.reasoning";

    pub const MODEL_DELTA: &'static str = "model.delta";

    pub const MODEL_SWITCHED: &'static str = "model.switched";

    pub const MODEL_EFFORT_CHANGED: &'static str = "model.effort.changed";

    pub const CONTEXT_LIMIT: &'static str = "context.limit";

    pub const CONTEXT_SLOT_UPDATED: &'static str = "context.slot.updated";

    pub const CANVAS_SNAPSHOT: &'static str = "canvas.snapshot";

    pub const CANVAS_POLICY_CHANGED: &'static str = "canvas.policy.changed";

    pub const CANVAS_SWAP: &'static str = "canvas.swap";

    pub const CANVAS_CANDIDATE_DISCARDED: &'static str = "canvas.candidate.discarded";

    pub const SECRET_REDACTED: &'static str = "secret.redacted";

    pub const SECRET_EXPOSURE_DETECTED: &'static str = "secret.exposure.detected";

    pub const SECRET_SCRUBBED: &'static str = "secret.scrubbed";

    pub const EXTENSION_ARTIFACT: &'static str = "extension.artifact";

    pub const AGENT_SPAWN: &'static str = "agent.spawn";

    pub const AGENT_MESSAGE: &'static str = "agent.message";

    pub const AGENT_RESULT: &'static str = "agent.result";

    pub const SESSION_START: &'static str = "session.start";

    pub const SESSION_RESUMED: &'static str = "session.resumed";

    pub const SESSION_RENAMED: &'static str = "session.renamed";

    pub const SESSION_SUMMARY: &'static str = "session.summary";

    pub const ERROR: &'static str = "error";

    /// The kind of a name.
    pub fn new(kind: &str) -> (r: Self)
        ensures
            r@ == kind@,
    {
        EventKind(kind.to_owned())
    }

    /// The name of the kind.
    pub fn as_str(&self) -> (r: &str)
        ensures
            r@ == self@,
    {
        self.0.as_str()
    }
}

impl Clone for EventKind {
    fn clone(&self) -> (r: Self)
        ensures
            r@ == self@,
    {
        EventKind(self.0.clone())
    }
}

/// A session event.
pub struct EventEnvelope {
    pub v: u16,
    pub id: String,
    pub ts: String,
    pub session: String,
    pub agent: String,
    pub parent: Option<String>,
    pub kind: EventKind,
    pub payload: Members,
    pub blobs: Vec<(String, String)>,
}

/// What an [`EventEnvelope`] holds.
#[verifier::ext_equal]
pub struct Event {
    pub v: u16,
    pub id: Seq<char>,
    pub ts: Seq<char>,
    pub session: Seq<char>,
    pub agent: Seq<char>,
    pub parent: Option<Seq<char>>,
    pub kind: Seq<char>,
    pub payload: Seq<(Seq<char>, Tree)>,
    pub blobs: Seq<(Seq<char>, Seq<char>)>,
}

impl View for EventEnvelope {
    type V = Event;

    open spec fn view(&self) -> Event {
        Event {
            v: self.v,
            id: self.id@,
            ts: self.ts@,
            session: self.session@,
            agent: self.agent@,
            parent: self.parent.deep_view(),
            kind: self.kind@,
            payload: self.payload.deep_view(),
            blobs: self.blobs.deep_view(),
        }
    }
}

impl DeepView for EventEnvelope {
    type V = Event;

    open spec fn deep_view(&self) -> Event {
        self@
    }
}

impl Clone for EventEnvelope {
    fn clone(&self) -> (r: Self)
        ensures
            r@ == self@,
    {
        let mut blobs: Vec<(String, String)> = Vec::new();
        let mut i: usize = 0;
        while i < self.blobs.len()
            invariant
                i <= self.blobs@.len(),
                blobs@.len() == i,
                forall|j: int|
                    0 <= j < i ==> (#[trigger] blobs@[j]).0@ == self.blobs@[j].0@ && blobs@[j].1@
                        == self.blobs@[j].1@,
            decreases self.blobs@.len() - i,
        {
            blobs.push((self.blobs[i].0.clone(), self.blobs[i].1.clone()));
            i += 1;
        }
        assert(blobs.deep_view() =~= self.blobs.deep_view());
        EventEnvelope {
            v: self.v,
            id: self.id.clone(),
            ts: self.ts.clone(),
            session: self.session.clone(),
            agent: self.agent.clone(),
            parent: self.parent.clone(),
            kind: self.kind.clone(),
            payload: copy_members(&self.payload),
            blobs,
        }
    }
}

/// The members made of the first `n` names and values: by ascending name, and of two values of
/// one name the later stays.
pub open spec fn object_of(entries: Seq<(Seq<char>, Tree)>, n: nat) -> Seq<(Seq<char>, Tree)>
    decreases n,
{
    if n == 0 {
        Seq::empty()
    } else {
        put(object_of(entries, (n - 1) as nat), entries[n - 1].0, entries[n - 1].1)
    }
}

/// The members made of a list of names and values.
pub fn object(entries: Vec<(&'static str, Json)>) -> (r: Members)
    ensures
        r.deep_view() == object_of(entries.deep_view(), entries@.len()),
{
    let mut out: Members = Vec::new();
    let mut i: usize = 0;
    assert(out.deep_view() =~= Seq::empty());
    while i < entries.len()
        invariant
            i <= entries@.len(),
            out.deep_view() == object_of(entries.deep_view(), i as nat),
        decreases entries@.len() - i,
    {
        put_row(&mut out, entries[i].0, entries[i].1.clone());
        i += 1;
    }
    out
}

} // verus!
