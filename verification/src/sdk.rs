//! The surface between the extension and its host: capabilities, commands, queries, agent
//! tasks, event-feed checkpoints and errors.

use crate::json::{Json, Members};
use crate::event::{Event, EventEnvelope};
use crate::text::{byte_len, chars_of, join2, same};
use vstd::prelude::*;

verus! {

/// The most bytes that the task of an agent has.
pub const MAX_TASK_BYTES: usize = 8192;

/// The most bytes that the system prompt of an agent has.
pub const MAX_SYSTEM_PROMPT_BYTES: usize = 8192;

pub const MAX_CONTEXT_SLOTS_PER_SESSION: usize = 8;

/// What a command may be allowed to do.
#[derive(Clone, Copy, Debug, PartialEq, Eq, PartialOrd, Ord, Structural)]
pub enum Capability {
    FsRead,
    FsWrite,
    ProvenanceRead,
    DiagnosticsRead,
    ArtifactWrite,
    AgentRecord,
    AgentSpawn,
    ShellExec,
    Network,
    ConfigWrite,
    SecretResolve,
    ContextSlot,
}

impl Capability {
    /// The capabilities, in their order.
    pub open spec fn every() -> Seq<Capability> {
        seq![
            Capability::FsRead,
            Capability::FsWrite,
            Capability::ProvenanceRead,
            Capability::DiagnosticsRead,
            Capability::ArtifactWrite,
            Capability::AgentRecord,
            Capability::AgentSpawn,
            Capability::ShellExec,
            Capability::Network,
            Capability::ConfigWrite,
            Capability::SecretResolve,
            Capability::ContextSlot,
        ]
    }

    /// All capabilities, in their order.
    pub fn all() -> (r: Vec<Capability>)
        ensures
            r@ == Self::every(),
    {
        vec![
            Capability::FsRead,
            Capability::FsWrite,
            Capability::ProvenanceRead,
            Capability::DiagnosticsRead,
            Capability::ArtifactWrite,
            Capability::AgentRecord,
            Capability::AgentSpawn,
            Capability::ShellExec,
            Capability::Network,
            Capability::ConfigWrite,
            Capability::SecretResolve,
            Capability::ContextSlot,
        ]
    }

    /// Every capability stands among all of them, once.
    pub proof fn none_is_left_out(c: Capability)
        ensures
            Self::every().contains(c),
            Self::every().no_duplicates(),
    {
        let i: int = match c {
            Capability::FsRead => 0,
            Capability::FsWrite => 1,
            Capability::ProvenanceRead => 2,
            Capability::DiagnosticsRead => 3,
            Capability::ArtifactWrite => 4,
            Capability::AgentRecord => 5,
            Capability::AgentSpawn => 6,
            Capability::ShellExec => 7,
            Capability::Network => 8,
            Capability::ConfigWrite => 9,
            Capability::SecretResolve => 10,
            Capability::ContextSlot => 11,
        };
        assert(Self::every()[i] == c);
    }

    /// The name of the capability.
    pub open spec fn name(self) -> Seq<char> {
        match self {
            Capability::FsRead => "fs-read"@,
            Capability::FsWrite => "fs-write"@,
            Capability::ProvenanceRead => "provenance-read"@,
            Capability::DiagnosticsRead => "diagnostics-read"@,
            Capability::ArtifactWrite => "artifact-write"@,
            Capability::AgentRecord => "agent-record"@,
            Capability::AgentSpawn => "agent-spawn"@,
            Capability::ShellExec => "shell-exec"@,
            Capability::Network => "network"@,
            Capability::ConfigWrite => "config-write"@,
            Capability::SecretResolve => "secret-resolve"@,
            Capability::ContextSlot => "context-slot"@,
        }
    }

    pub fn as_str(self) -> (r: &'static str)
        ensures
            r@ == self.name(),
    {
        match self {
            Capability::FsRead => "fs-read",
            Capability::FsWrite => "fs-write",
            Capability::ProvenanceRead => "provenance-read",
            Capability::DiagnosticsRead => "diagnostics-read",
            Capability::ArtifactWrite => "artifact-write",
            Capability::AgentRecord => "agent-record",
            Capability::AgentSpawn => "agent-spawn",
            Capability::ShellExec => "shell-exec",
            Capability::Network => "network",
            Capability::ConfigWrite => "config-write",
            Capability::SecretResolve => "secret-resolve",
            Capability::ContextSlot => "context-slot",
        }
    }

    /// No two capabilities share a name.
    pub proof fn names_differ(a: Capability, b: Capability)
        requires
            a.name() == b.name(),
        ensures
            a == b,
    {
        Self::names_revealed();
        if a != b {
            assert(a.name().len() == b.name().len());
            assert(a.name()[0] == b.name()[0]);
            assert(a.name()[3] == b.name()[3]);
        }
    }

    proof fn names_revealed()
        ensures
            Capability::FsRead.name() == seq!['f', 's', '-', 'r', 'e', 'a', 'd'],
            Capability::FsWrite.name() == seq!['f', 's', '-', 'w', 'r', 'i', 't', 'e'],
            Capability::ProvenanceRead.name().len() == 15,
            Capability::ProvenanceRead.name()[0] == 'p',
            Capability::DiagnosticsRead.name().len() == 16,
            Capability::ArtifactWrite.name().len() == 14,
            Capability::AgentRecord.name().len() == 12,
            Capability::AgentRecord.name()[0] == 'a',
            Capability::AgentSpawn.name().len() == 11,
            Capability::ShellExec.name().len() == 10,
            Capability::Network.name().len() == 7,
            Capability::Network.name()[0] == 'n',
            Capability::ConfigWrite.name().len() == 12,
            Capability::ConfigWrite.name()[0] == 'c',
            Capability::ConfigWrite.name()[3] == 'f',
            Capability::SecretResolve.name().len() == 14,
            Capability::SecretResolve.name()[0] == 's',
            Capability::ArtifactWrite.name()[0] == 'a',
            Capability::ContextSlot.name().len() == 12,
            Capability::ContextSlot.name()[0] == 'c',
            Capability::ContextSlot.name()[3] == 't',
    {
        reveal_strlit("fs-read");
        reveal_strlit("fs-write");
        reveal_strlit("provenance-read");
        reveal_strlit("diagnostics-read");
        reveal_strlit("artifact-write");
        reveal_strlit("agent-record");
        reveal_strlit("agent-spawn");
        reveal_strlit("shell-exec");
        reveal_strlit("network");
        reveal_strlit("config-write");
        reveal_strlit("secret-resolve");
        reveal_strlit("context-slot");
    }

    /// The capability of a name, where there is one.
    pub fn parse(value: &str) -> (r: Option<Self>)
        ensures
            r matches Some(c) ==> c.name() == value@,
            r is None ==> forall|c: Capability| (#[trigger] c.name()) != value@,
    {
        if same(value, "fs-read") {
            Some(Capability::FsRead)
        } else if same(value, "fs-write") {
            Some(Capability::FsWrite)
        } else if same(value, "provenance-read") {
            Some(Capability::ProvenanceRead)
        } else if same(value, "diagnostics-read") {
            Some(Capability::DiagnosticsRead)
        } else if same(value, "artifact-write") {
            Some(Capability::ArtifactWrite)
        } else if same(value, "agent-record") {
            Some(Capability::AgentRecord)
        } else if same(value, "agent-spawn") {
            Some(Capability::AgentSpawn)
        } else if same(value, "shell-exec") {
            Some(Capability::ShellExec)
        } else if same(value, "network") {
            Some(Capability::Network)
        } else if same(value, "config-write") {
            Some(Capability::ConfigWrite)
        } else if same(value, "secret-resolve") {
            Some(Capability::SecretResolve)
        } else if same(value, "context-slot") {
            Some(Capability::ContextSlot)
        } else {
            None
        }
    }
}

/// What an extension says of itself.
#[derive(Clone, Debug, PartialEq, Eq)]
pub struct ExtensionManifest {
    pub id: String,
    pub version: String,
    pub display_name: String,
    pub capabilities: Vec<Capability>,
}

/// What a command is called with.
pub struct CommandContext {
    pub input: Json,
}

/// Who may invoke a command directly: a product boundary.
#[derive(Clone, Copy, Debug, PartialEq, Eq, Structural)]
pub enum Invocation {
    User,
    AgentOnly,
}

impl Default for Invocation {
    fn default() -> (r: Self)
        ensures
            r == Invocation::User,
    {
        Invocation::User
    }
}

impl Invocation {
    /// The name of the invocation.
    pub open spec fn name(self) -> Seq<char> {
        match self {
            Invocation::User => "user"@,
            Invocation::AgentOnly => "agent-only"@,
        }
    }

    pub fn is_agent_only(self) -> (r: bool)
        ensures
            r == (self == Invocation::AgentOnly),
    {
        match self {
            Invocation::AgentOnly => true,
            Invocation::User => false,
        }
    }

    pub fn as_str(self) -> (r: &'static str)
        ensures
            r@ == self.name(),
    {
        match self {
            Invocation::User => "user",
            Invocation::AgentOnly => "agent-only",
        }
    }

    /// The two invocations have different names.
    pub proof fn names_differ(a: Invocation, b: Invocation)
        requires
            a.name() == b.name(),
        ensures
            a == b,
    {
        reveal_strlit("user");
        reveal_strlit("agent-only");
        assert("user"@.len() != "agent-only"@.len());
    }

    /// The invocation of a name, where there is one.
    pub fn parse(value: &str) -> (r: Option<Self>)
        ensures
            r matches Some(i) ==> i.name() == value@,
            r is None ==> forall|i: Invocation| (#[trigger] i.name()) != value@,
    {
        if same(value, "user") {
            Some(Invocation::User)
        } else if same(value, "agent-only") {
            Some(Invocation::AgentOnly)
        } else {
            None
        }
    }
}

/// What a command says of itself.
#[derive(Clone, Debug, PartialEq, Eq)]
pub struct CommandDescriptor {
    pub name: String,
    pub display_name: String,
    pub summary: String,
    pub required_capabilities: Vec<Capability>,
    pub args: Vec<ArgSpec>,
    pub accepts_session_id: bool,
    pub invocation: Invocation,
}

/// One argument of a command.
#[derive(Clone, Debug, PartialEq, Eq)]
pub struct ArgSpec {
    pub flag: String,
    pub input_key: String,
    pub value_kind: ArgValueKind,
    pub required: bool,
    pub repeatable: bool,
}

/// What an argument takes.
#[derive(Clone, Debug, PartialEq, Eq)]
pub enum ArgValueKind {
    PositiveInt { max: Option<usize> },
    BoundedString { max_bytes: usize },
    StringList,
    JsonObjectFile { max_bytes: usize, reject_wrapper_key: Option<String> },
}

/// A question for a bounded page of events.
#[derive(Clone, Debug, PartialEq, Eq)]
pub struct ProvenanceQuery {
    pub after_event_id: Option<String>,
    pub kinds: Vec<String>,
    pub limit: usize,
    pub scan_limit: usize,
    pub include_blob_fields: bool,
    pub blob_byte_limit: usize,
}

pub const DEFAULT_SCAN_LIMIT: usize = 1024;

pub const DEFAULT_BLOB_BYTE_LIMIT: usize = 1048576;

/// The scan limit that is asked for, or the usual one.
pub open spec fn scan_or_default(scan_limit: Option<usize>) -> usize {
    match scan_limit {
        Some(n) => n,
        None => DEFAULT_SCAN_LIMIT,
    }
}

impl ProvenanceQuery {
    /// Whether the query asks for a page behind an event, with nothing else changed from its
    /// defaults.
    pub open spec fn asks(
        self,
        after: Option<Seq<char>>,
        limit: usize,
        scan_limit: usize,
    ) -> bool {
        &&& self.after_event_id.deep_view() == after
        &&& self.kinds@.len() == 0
        &&& self.limit == limit
        &&& self.scan_limit == scan_limit
        &&& !self.include_blob_fields
        &&& self.blob_byte_limit == DEFAULT_BLOB_BYTE_LIMIT
    }

    pub fn new(limit: usize) -> (r: Self)
        ensures
            r.asks(None, limit, DEFAULT_SCAN_LIMIT),
    {
        ProvenanceQuery {
            after_event_id: None,
            kinds: Vec::new(),
            limit,
            scan_limit: DEFAULT_SCAN_LIMIT,
            include_blob_fields: false,
            blob_byte_limit: DEFAULT_BLOB_BYTE_LIMIT,
        }
    }

    /// The query for a page behind an event, with a scan limit of its own where one is given.
    pub fn page(limit: usize, scan_limit: Option<usize>, after: &Option<String>) -> (r: Self)
        ensures
            r.asks(after.deep_view(), limit, scan_or_default(scan_limit)),
    {
        let mut query = Self::new(limit);
        query.scan_limit = match scan_limit {
            Some(n) => n,
            None => query.scan_limit,
        };
        query.after_event_id = after.clone();
        query
    }
}

/// A bounded page of events.
pub struct ProvenancePage {
    pub events: Vec<EventEnvelope>,
    pub applied_limit: usize,
    pub applied_scan_limit: usize,
    pub scanned_events: usize,
    pub watermark_event_id: Option<String>,
    pub next_after_event_id: Option<String>,
    pub truncated: bool,
}

/// What a [`ProvenancePage`] holds.
#[verifier::ext_equal]
pub struct Page {
    pub events: Seq<Event>,
    pub applied_limit: usize,
    pub applied_scan_limit: usize,
    pub scanned_events: usize,
    pub watermark_event_id: Option<Seq<char>>,
    pub next_after_event_id: Option<Seq<char>>,
    pub truncated: bool,
}

impl DeepView for ProvenancePage {
    type V = Page;

    open spec fn deep_view(&self) -> Page {
        Page {
            events: self.events.deep_view(),
            applied_limit: self.applied_limit,
            applied_scan_limit: self.applied_scan_limit,
            scanned_events: self.scanned_events,
            watermark_event_id: self.watermark_event_id.deep_view(),
            next_after_event_id: self.next_after_event_id.deep_view(),
            truncated: self.truncated,
        }
    }
}

#[derive(Clone, Debug, PartialEq, Eq)]
pub struct DiagnosticsQuery {
    pub tail_lines: usize,
    pub max_bytes: usize,
}

#[derive(Clone, Debug, PartialEq, Eq)]
pub struct DiagnosticsPage {
    pub lines: Vec<String>,
    pub truncated: bool,
}

/// The task of an agent that the host is asked to run.
#[derive(Clone, Debug, PartialEq, Eq)]
pub struct SpawnAgentTask {
    pub task: String,
    pub persona: String,
    pub provider: String,
    pub model: String,
    pub system_prompt: String,
    pub explicit_context: Option<String>,
    pub include_parent_canvas: bool,
    pub capabilities: Vec<Capability>,
    pub max_turns: Option<u64>,
    pub max_tool_calls: Option<u64>,
    pub max_tokens: Option<u64>,
}

/// What came of an agent that the host ran.
#[derive(Clone, Debug, PartialEq, Eq)]
pub struct AgentOutcome {
    pub ok: bool,
    pub summary: String,
    pub output: String,
    pub error: Option<String>,
    pub provider: String,
    pub model: String,
    pub child_agent_id: String,
    pub spawn_event_id: String,
    pub result_event_id: String,
}

/// What became of an agent run.
#[verifier::ext_equal]
pub struct Outcome {
    pub ok: bool,
    pub summary: Seq<char>,
    pub output: Seq<char>,
    pub error: Option<Seq<char>>,
    pub provider: Seq<char>,
    pub model: Seq<char>,
    pub child_agent_id: Seq<char>,
    pub spawn_event_id: Seq<char>,
    pub result_event_id: Seq<char>,
}

impl DeepView for AgentOutcome {
    type V = Outcome;

    open spec fn deep_view(&self) -> Outcome {
        Outcome {
            ok: self.ok,
            summary: self.summary@,
            output: self.output@,
            error: self.error.deep_view(),
            provider: self.provider@,
            model: self.model@,
            child_agent_id: self.child_agent_id@,
            spawn_event_id: self.spawn_event_id@,
            result_event_id: self.result_event_id@,
        }
    }
}

/// An artifact that the host is asked to keep.
pub struct ArtifactWrite {
    pub display_name: String,
    pub media_type: String,
    pub bytes: Vec<u8>,
    pub source_event_ids: Vec<String>,
    pub metadata: Members,
}

/// Where the host keeps an artifact.
#[derive(Debug, PartialEq, Eq)]
pub struct ArtifactRecord {
    pub persisted_event_id: String,
    pub relative_path: String,
    pub sha256: String,
    pub byte_len: usize,
}

/// What an [`ArtifactRecord`] holds.
#[verifier::ext_equal]
pub struct Stored {
    pub persisted_event_id: Seq<char>,
    pub relative_path: Seq<char>,
    pub sha256: Seq<char>,
    pub byte_len: usize,
}

impl View for ArtifactRecord {
    type V = Stored;

    open spec fn view(&self) -> Stored {
        Stored {
            persisted_event_id: self.persisted_event_id@,
            relative_path: self.relative_path@,
            sha256: self.sha256@,
            byte_len: self.byte_len,
        }
    }
}

impl DeepView for ArtifactRecord {
    type V = Stored;

    open spec fn deep_view(&self) -> Stored {
        self@
    }
}

impl Clone for ArtifactRecord {
    fn clone(&self) -> (r: Self)
        ensures
            r@ == self@,
    {
        ArtifactRecord {
            persisted_event_id: self.persisted_event_id.clone(),
            relative_path: self.relative_path.clone(),
            sha256: self.sha256.clone(),
            byte_len: self.byte_len,
        }
    }
}

#[derive(Clone, Debug, PartialEq, Eq)]
pub struct HostAgentBudget {
    pub max_turns: Option<u32>,
    pub max_tool_calls: Option<u32>,
    pub max_tokens: Option<u64>,
}

impl Default for HostAgentBudget {
    fn default() -> (r: Self)
        ensures
            r.max_turns is None,
            r.max_tool_calls is None,
            r.max_tokens is None,
    {
        HostAgentBudget { max_turns: None, max_tool_calls: None, max_tokens: None }
    }
}

/// The task of an agent that ran, as the host is asked to record it.
pub struct HostAgentTask {
    pub task: String,
    pub persona: String,
    pub provider: String,
    pub model: String,
    pub capabilities: Vec<Capability>,
    pub budget: HostAgentBudget,
    pub result_schema: Option<Json>,
}

/// What came of an agent, as the host is asked to record it.
#[derive(Clone, Debug, PartialEq, Eq)]
pub struct HostAgentResult {
    pub ok: bool,
    pub summary: String,
    pub output: Option<String>,
    pub error: Option<String>,
}

impl HostAgentResult {
    pub fn success(summary: String, output: Option<String>) -> (r: Self)
        ensures
            r.ok,
            r.summary == summary,
            r.output == output,
            r.error is None,
    {
        HostAgentResult { ok: true, summary, output, error: None }
    }

    pub fn failure(summary: String, error: String, output: Option<String>) -> (r: Self)
        ensures
            !r.ok,
            r.summary == summary,
            r.output == output,
            r.error == Some(error),
    {
        HostAgentResult { ok: false, summary, output, error: Some(error) }
    }
}

#[derive(Clone, Debug, PartialEq, Eq)]
pub struct HostAgentRecord {
    pub child_agent_id: String,
    pub spawn_event_id: String,
    pub result_event_id: String,
}

pub const EVENT_FEED_CHECKPOINT_SCHEMA_VERSION: u16 = 1;

pub const MAX_EVENT_FEED_CHECKPOINT_CURSOR_BYTES: usize = 128;

/// How far a feed of events has been read.
#[derive(Clone, Debug, PartialEq, Eq)]
pub struct EventFeedCheckpoint {
    pub schema_version: u16,
    pub after_event_id: String,
}

impl EventFeedCheckpoint {
    pub open spec fn valid(self) -> bool {
        self.schema_version == EVENT_FEED_CHECKPOINT_SCHEMA_VERSION && valid_cursor(
            self.after_event_id@,
        )
    }

    /// The checkpoint at an event.
    pub fn new(after_event_id: String) -> (r: Result<Self, EventFeedCheckpointError>)
        ensures
            match r {
                Ok(c) => c.valid() && c.after_event_id == after_event_id,
                Err(e) => e == EventFeedCheckpointError::InvalidCursor && !valid_cursor(
                    after_event_id@,
                ),
            },
    {
        let checkpoint = EventFeedCheckpoint {
            schema_version: EVENT_FEED_CHECKPOINT_SCHEMA_VERSION,
            after_event_id,
        };
        match checkpoint.validate() {
            Ok(()) => Ok(checkpoint),
            Err(e) => Err(e),
        }
    }

    pub fn validate(&self) -> (r: Result<(), EventFeedCheckpointError>)
        ensures
            match r {
                Ok(()) => self.valid(),
                Err(EventFeedCheckpointError::UnsupportedSchemaVersion) => self.schema_version
                    != EVENT_FEED_CHECKPOINT_SCHEMA_VERSION,
                Err(EventFeedCheckpointError::InvalidCursor) => self.schema_version
                    == EVENT_FEED_CHECKPOINT_SCHEMA_VERSION && !valid_cursor(self.after_event_id@),
            },
    {
        if self.schema_version != EVENT_FEED_CHECKPOINT_SCHEMA_VERSION {
            return Err(EventFeedCheckpointError::UnsupportedSchemaVersion);
        }
        if valid_event_feed_cursor(&self.after_event_id) {
            Ok(())
        } else {
            Err(EventFeedCheckpointError::InvalidCursor)
        }
    }
}

#[derive(Clone, Copy, Debug, PartialEq, Eq, Structural)]
pub enum EventFeedCheckpointError {
    InvalidCursor,
    UnsupportedSchemaVersion,
}

impl EventFeedCheckpointError {
    pub open spec fn text(self) -> Seq<char> {
        match self {
            EventFeedCheckpointError::InvalidCursor => "invalid checkpoint cursor"@,
            EventFeedCheckpointError::UnsupportedSchemaVersion =>
                "unsupported checkpoint schema version"@,
        }
    }

    pub fn message(&self) -> (r: String)
        ensures
            r@ == self.text(),
    {
        match self {
            EventFeedCheckpointError::InvalidCursor => "invalid checkpoint cursor".to_owned(),
            EventFeedCheckpointError::UnsupportedSchemaVersion =>
                "unsupported checkpoint schema version".to_owned(),
        }
    }
}

/// Whether a character is printable ASCII other than the space.
pub open spec fn is_graphic(c: char) -> bool {
    0x21 <= c as u32 <= 0x7e
}

/// One to 128 printable ASCII characters.
pub open spec fn valid_cursor(s: Seq<char>) -> bool {
    &&& 1 <= s.len() <= MAX_EVENT_FEED_CHECKPOINT_CURSOR_BYTES
    &&& forall|i: int| 0 <= i < s.len() ==> is_graphic(#[trigger] s[i])
}

pub fn valid_event_feed_cursor(value: &str) -> (r: bool)
    ensures
        r == valid_cursor(value@),
{
    let v = chars_of(value);
    if v.len() < 1 || v.len() > MAX_EVENT_FEED_CHECKPOINT_CURSOR_BYTES {
        return false;
    }
    let mut i: usize = 0;
    while i < v.len()
        invariant
            i <= v@.len(),
            v@ == value@,
            forall|j: int| 0 <= j < i ==> is_graphic(#[trigger] v@[j]),
        decreases v@.len() - i,
    {
        let u: u32 = v[i] as u32;
        if u < 0x21 || u > 0x7e {
            assert(!is_graphic(value@[i as int]));
            return false;
        }
        i += 1;
    }
    true
}

/// What can go wrong.
#[derive(Debug, PartialEq)]
pub enum ExtensionError {
    Message(String),
    CapabilityDenied { capability: Capability },
    QueryFailed(String),
    DiagnosticsReadFailed(String),
    StateDirFailed(String),
    ArtifactWriteFailed(String),
    CheckpointFailed(String),
    AgentTaskFailed(String),
    ContextSlotFailed(String),
}

impl ExtensionError {
    /// The error in words.
    pub open spec fn text(self) -> Seq<char> {
        match self {
            ExtensionError::Message(m) => m@,
            ExtensionError::CapabilityDenied { capability } => "missing required capability "@
                + capability.name(),
            ExtensionError::QueryFailed(m) => "provenance query failed: "@ + m@,
            ExtensionError::DiagnosticsReadFailed(m) => "diagnostics read failed: "@ + m@,
            ExtensionError::StateDirFailed(m) => "state directory failed: "@ + m@,
            ExtensionError::ArtifactWriteFailed(m) => "artifact write failed: "@ + m@,
            ExtensionError::CheckpointFailed(m) => "checkpoint failed: "@ + m@,
            ExtensionError::AgentTaskFailed(m) => "agent task failed: "@ + m@,
            ExtensionError::ContextSlotFailed(m) => "context slot update failed: "@ + m@,
        }
    }

    /// The error in words.
    pub fn message(&self) -> (r: String)
        ensures
            r@ == self.text(),
    {
        match self {
            ExtensionError::Message(m) => m.clone(),
            ExtensionError::CapabilityDenied { capability } => join2(
                "missing required capability ",
                capability.as_str(),
            ),
            ExtensionError::QueryFailed(m) => join2("provenance query failed: ", m),
            ExtensionError::DiagnosticsReadFailed(m) => join2("diagnostics read failed: ", m),
            ExtensionError::StateDirFailed(m) => join2("state directory failed: ", m),
            ExtensionError::ArtifactWriteFailed(m) => join2("artifact write failed: ", m),
            ExtensionError::CheckpointFailed(m) => join2("checkpoint failed: ", m),
            ExtensionError::AgentTaskFailed(m) => join2("agent task failed: ", m),
            ExtensionError::ContextSlotFailed(m) => join2("context slot update failed: ", m),
        }
    }
}

/// Whether an outcome is the expected one: the value, or an error with just that message.
pub open spec fn answers<T: DeepView>(
    r: Result<T, ExtensionError>,
    expected: Result<T::V, Seq<char>>,
) -> bool {
    match r {
        Ok(v) => expected == Ok::<T::V, Seq<char>>(v.deep_view()),
        Err(e) => e is Message && expected == Err::<T::V, Seq<char>>(e->Message_0@),
    }
}

/// Whether a test came out as expected: passed, or failed with just that message.
pub open spec fn passes(r: Result<(), ExtensionError>, fault: Option<Seq<char>>) -> bool {
    match r {
        Ok(()) => fault is None,
        Err(e) => e is Message && fault == Some(e->Message_0@),
    }
}

/// An error with a message that was put together.
pub fn fault(message: String) -> (r: ExtensionError)
    ensures
        r is Message,
        r->Message_0@ == message@,
{
    ExtensionError::Message(message)
}

/// An error that says what is wrong with an input.
pub fn input_error(message: &str) -> (r: ExtensionError)
    ensures
        r is Message,
        r->Message_0@ == message@,
{
    ExtensionError::Message(message.to_owned())
}

/// A cursor is one to 128 characters of printable ASCII, without blanks.
pub proof fn cursors_are_short_and_printable(s: Seq<char>, i: int)
    ensures
        valid_cursor(s) ==> 1 <= s.len() <= 128,
        valid_cursor(s) && 0 <= i < s.len() ==> '!' as u32 <= s[i] as u32 <= '~' as u32,
        1 <= s.len() <= 128 && (forall|k: int|
            0 <= k < s.len() ==> '!' as u32 <= (#[trigger] s[k]) as u32 <= '~' as u32)
            ==> valid_cursor(s),
{
}

} // verus!
