//! What the commands say of themselves: their names, arguments and capabilities.

use crate::export::format::OUT_PATH_MAX_BYTES;
use crate::inputs::MAX_CATCH_UP_TICKS;
use crate::observe::OBSERVER_HINT_MAX_BYTES;
use crate::record_observation::{ARTIFACT_EVENT_ID_MAX_BYTES, OBSERVER_LABEL_MAX_BYTES};
use crate::refresh::MAX_FIELD_BYTES;
use crate::schema::{
    CATCH_UP_COMMAND_NAME, EXPORT_COMMAND_NAME, OBSERVER_APPLY_COMMAND_NAME, OBSERVE_COMMAND_NAME,
    RECORD_OBSERVATION_COMMAND_NAME, REFRESH_COMMAND_NAME, RESEARCH_ENABLE_COMMAND_NAME,
    UPDATE_COMMAND_NAME, VIEW_COMMAND_NAME,
};
use crate::sdk::{ArgSpec, ArgValueKind, Capability, CommandDescriptor, Invocation};
use vstd::prelude::*;

verus! {

/// The most bytes of an event id that is given as an argument.
pub const EVENT_ID_MAX_BYTES: usize = 128;

/// The most bytes of the name of a format that is given as an argument.
pub const FORMAT_MAX_BYTES: usize = 16;

/// What an [`ArgValueKind`] says.
#[verifier::ext_equal]
pub enum Takes {
    Count { max: Option<usize> },
    Text { max_bytes: usize },
    Texts,
    ObjectFile { max_bytes: usize, unwrapped: Option<Seq<char>> },
}

impl DeepView for ArgValueKind {
    type V = Takes;

    open spec fn deep_view(&self) -> Takes {
        match self {
            ArgValueKind::PositiveInt { max } => Takes::Count { max: *max },
            ArgValueKind::BoundedString { max_bytes } => Takes::Text { max_bytes: *max_bytes },
            ArgValueKind::StringList => Takes::Texts,
            ArgValueKind::JsonObjectFile { max_bytes, reject_wrapper_key } => Takes::ObjectFile {
                max_bytes: *max_bytes,
                unwrapped: reject_wrapper_key.deep_view(),
            },
        }
    }
}

/// What an [`ArgSpec`] says.
#[verifier::ext_equal]
pub struct Argument {
    pub flag: Seq<char>,
    pub input_key: Seq<char>,
    pub takes: Takes,
    pub required: bool,
    pub repeatable: bool,
}

impl DeepView for ArgSpec {
    type V = Argument;

    open spec fn deep_view(&self) -> Argument {
        Argument {
            flag: self.flag@,
            input_key: self.input_key@,
            takes: self.value_kind.deep_view(),
            required: self.required,
            repeatable: self.repeatable,
        }
    }
}

/// What a [`CommandDescriptor`] says.
#[verifier::ext_equal]
pub struct Described {
    pub name: Seq<char>,
    pub display_name: Seq<char>,
    pub summary: Seq<char>,
    pub required_capabilities: Seq<Capability>,
    pub args: Seq<Argument>,
    pub accepts_session_id: bool,
    pub invocation: Invocation,
}

impl DeepView for CommandDescriptor {
    type V = Described;

    open spec fn deep_view(&self) -> Described {
        Described {
            name: self.name@,
            display_name: self.display_name@,
            summary: self.summary@,
            required_capabilities: self.required_capabilities@,
            args: self.args.deep_view(),
            accepts_session_id: self.accepts_session_id,
            invocation: self.invocation,
        }
    }
}

/// An argument that is a positive number.
pub open spec fn count_argument(
    flag: Seq<char>,
    input_key: Seq<char>,
    max: Option<usize>,
) -> Argument {
    Argument { flag, input_key, takes: Takes::Count { max }, required: false, repeatable: false }
}

/// An argument that is a bounded text.
pub open spec fn text_argument(
    flag: Seq<char>,
    input_key: Seq<char>,
    max_bytes: usize,
    required: bool,
) -> Argument {
    Argument { flag, input_key, takes: Takes::Text { max_bytes }, required, repeatable: false }
}

fn positive_arg(flag: &str, input_key: &str, max: Option<usize>) -> (r: ArgSpec)
    ensures
        r.deep_view() == count_argument(flag@, input_key@, max),
{
    ArgSpec {
        flag: flag.to_owned(),
        input_key: input_key.to_owned(),
        value_kind: ArgValueKind::PositiveInt { max },
        required: false,
        repeatable: false,
    }
}

fn bounded_arg(flag: &str, input_key: &str, max_bytes: usize, required: bool) -> (r: ArgSpec)
    ensures
        r.deep_view() == text_argument(flag@, input_key@, max_bytes, required),
{
    ArgSpec {
        flag: flag.to_owned(),
        input_key: input_key.to_owned(),
        value_kind: ArgValueKind::BoundedString { max_bytes },
        required,
        repeatable: false,
    }
}

/// The argument for the last event that is observed.
pub open spec fn watermark_argument() -> Argument {
    text_argument("watermark-event-id"@, "watermark_event_id"@, EVENT_ID_MAX_BYTES, false)
}

fn watermark_arg() -> (r: ArgSpec)
    ensures
        r.deep_view() == watermark_argument(),
{
    bounded_arg("watermark-event-id", "watermark_event_id", EVENT_ID_MAX_BYTES, false)
}

/// The argument for the kinds of events.
pub open spec fn kinds_argument() -> Argument {
    Argument {
        flag: "kind"@,
        input_key: "kinds"@,
        takes: Takes::Texts,
        required: false,
        repeatable: true,
    }
}

/// The arguments of a question for a page of events.
pub open spec fn query_arguments(after_event_id: bool, kinds: bool) -> Seq<Argument> {
    let first = seq![
        count_argument("limit"@, "limit"@, None),
        count_argument("scan-limit"@, "scan_limit"@, None),
    ];
    let second = if after_event_id {
        first.push(
            text_argument("after-event-id"@, "after_event_id"@, EVENT_ID_MAX_BYTES, false),
        )
    } else {
        first
    };
    if kinds {
        second.push(kinds_argument())
    } else {
        second
    }
}

fn provenance_query_args(after_event_id: bool, kinds: bool) -> (r: Vec<ArgSpec>)
    ensures
        r.deep_view() == query_arguments(after_event_id, kinds),
{
    let mut args = vec![
        positive_arg("limit", "limit", None),
        positive_arg("scan-limit", "scan_limit", None),
    ];
    let ghost first = seq![
        count_argument("limit"@, "limit"@, None),
        count_argument("scan-limit"@, "scan_limit"@, None),
    ];
    assert(args.deep_view() =~= first);
    if after_event_id {
        args.push(bounded_arg("after-event-id", "after_event_id", EVENT_ID_MAX_BYTES, false));
        assert(args.deep_view() =~= first.push(
            text_argument("after-event-id"@, "after_event_id"@, EVENT_ID_MAX_BYTES, false),
        ));
    }
    let ghost second = args.deep_view();
    if kinds {
        args.push(
            ArgSpec {
                flag: "kind".to_owned(),
                input_key: "kinds".to_owned(),
                value_kind: ArgValueKind::StringList,
                required: false,
                repeatable: true,
            },
        );
        assert(args.deep_view() =~= second.push(kinds_argument()));
    }
    args
}

/// The arguments of an export.
pub open spec fn export_arguments() -> Seq<Argument> {
    query_arguments(true, true).push(
        text_argument("format"@, "format"@, FORMAT_MAX_BYTES, false),
    ).push(text_argument("out"@, "out"@, OUT_PATH_MAX_BYTES, false))
}

fn export_args() -> (r: Vec<ArgSpec>)
    ensures
        r.deep_view() == export_arguments(),
{
    let mut args = provenance_query_args(true, true);
    args.push(bounded_arg("format", "format", FORMAT_MAX_BYTES, false));
    args.push(bounded_arg("out", "out", OUT_PATH_MAX_BYTES, false));
    assert(args.deep_view() =~= export_arguments());
    args
}

/// The arguments of catching up.
pub open spec fn catch_up_arguments() -> Seq<Argument> {
    query_arguments(false, false).push(
        count_argument("max-ticks"@, "max_ticks"@, Some(MAX_CATCH_UP_TICKS)),
    )
}

fn catch_up_args() -> (r: Vec<ArgSpec>)
    ensures
        r.deep_view() == catch_up_arguments(),
{
    let mut args = provenance_query_args(false, false);
    args.push(positive_arg("max-ticks", "max_ticks", Some(MAX_CATCH_UP_TICKS)));
    assert(args.deep_view() =~= catch_up_arguments());
    args
}

/// The argument for the file of an observer's hints.
pub open spec fn hints_argument() -> Argument {
    Argument {
        flag: "hints"@,
        input_key: "causal_dag"@,
        takes: Takes::ObjectFile {
            max_bytes: OBSERVER_HINT_MAX_BYTES,
            unwrapped: Some("causal_dag"@),
        },
        required: true,
        repeatable: false,
    }
}

/// The arguments of an observation.
pub open spec fn observe_arguments() -> Seq<Argument> {
    query_arguments(true, false).push(watermark_argument()).push(hints_argument())
}

fn observe_args() -> (r: Vec<ArgSpec>)
    ensures
        r.deep_view() == observe_arguments(),
{
    let mut args = provenance_query_args(true, false);
    args.push(watermark_arg());
    args.push(
        ArgSpec {
            flag: "hints".to_owned(),
            input_key: "causal_dag".to_owned(),
            value_kind: ArgValueKind::JsonObjectFile {
                max_bytes: OBSERVER_HINT_MAX_BYTES,
                reject_wrapper_key: Some("causal_dag".to_owned()),
            },
            required: true,
            repeatable: false,
        },
    );
    assert(args.deep_view() =~= observe_arguments());
    args
}

/// The arguments of a refresh.
pub open spec fn refresh_arguments() -> Seq<Argument> {
    seq![
        text_argument("operation"@, "operation"@, MAX_FIELD_BYTES, false),
        text_argument("policy"@, "policy"@, MAX_FIELD_BYTES, false),
        count_argument("limit"@, "limit"@, None),
        count_argument("scan-limit"@, "scan_limit"@, None),
        text_argument("provider"@, "provider"@, MAX_FIELD_BYTES, false),
        text_argument("model"@, "model"@, MAX_FIELD_BYTES, false),
        count_argument("max-tokens"@, "max_tokens"@, None),
    ]
}

fn refresh_args() -> (r: Vec<ArgSpec>)
    ensures
        r.deep_view() == refresh_arguments(),
{
    let args = vec![
        bounded_arg("operation", "operation", MAX_FIELD_BYTES, false),
        bounded_arg("policy", "policy", MAX_FIELD_BYTES, false),
        positive_arg("limit", "limit", None),
        positive_arg("scan-limit", "scan_limit", None),
        bounded_arg("provider", "provider", MAX_FIELD_BYTES, false),
        bounded_arg("model", "model", MAX_FIELD_BYTES, false),
        positive_arg("max-tokens", "max_tokens", None),
    ];
    assert(args.deep_view() =~= refresh_arguments());
    args
}

/// The arguments of recording an observation.
pub open spec fn audit_arguments() -> Seq<Argument> {
    seq![
        count_argument("limit"@, "limit"@, None),
        count_argument("scan-limit"@, "scan_limit"@, None),
        text_argument("after-event-id"@, "after_event_id"@, EVENT_ID_MAX_BYTES, false),
        text_argument(
            "artifact-event-id"@,
            "artifact_event_id"@,
            ARTIFACT_EVENT_ID_MAX_BYTES,
            true,
        ),
        text_argument(
            "observer-provider"@,
            "observer.provider"@,
            OBSERVER_LABEL_MAX_BYTES,
            false,
        ),
        text_argument("observer-model"@, "observer.model"@, OBSERVER_LABEL_MAX_BYTES, false),
    ]
}

fn record_observation_args() -> (r: Vec<ArgSpec>)
    ensures
        r.deep_view() == audit_arguments(),
{
    let args = vec![
        positive_arg("limit", "limit", None),
        positive_arg("scan-limit", "scan_limit", None),
        bounded_arg("after-event-id", "after_event_id", EVENT_ID_MAX_BYTES, false),
        bounded_arg(
            "artifact-event-id",
            "artifact_event_id",
            ARTIFACT_EVENT_ID_MAX_BYTES,
            true,
        ),
        bounded_arg("observer-provider", "observer.provider", OBSERVER_LABEL_MAX_BYTES, false),
        bounded_arg("observer-model", "observer.model", OBSERVER_LABEL_MAX_BYTES, false),
    ];
    assert(args.deep_view() =~= audit_arguments());
    args
}

/// The command for the export.
#[derive(Clone, Copy, Debug)]
pub struct CausalDagExportCommand;

/// What the command for the export says of itself.
pub open spec fn export_command() -> Described {
    Described {
        name: EXPORT_COMMAND_NAME@,
        display_name: "Export causal DAG"@,
        summary: "Export the active Causal DAG as HTML, JSON, SVG, DOT, Markdown, or summary."@,
        required_capabilities: seq![
            Capability::ProvenanceRead,
            Capability::ArtifactWrite,
            Capability::FsRead,
            Capability::FsWrite,
        ],
        args: export_arguments(),
        accepts_session_id: true,
        invocation: Invocation::User,
    }
}

impl CausalDagExportCommand {
    pub fn descriptor(&self) -> (r: CommandDescriptor)
        ensures
            r.deep_view() == export_command(),
    {
        let required_capabilities = vec![
            Capability::ProvenanceRead,
            Capability::ArtifactWrite,
            Capability::FsRead,
            Capability::FsWrite,
        ];
        let args: Vec<ArgSpec> = export_args();
        assert(required_capabilities@ =~= export_command().required_capabilities);
        assert(args.deep_view() =~= export_command().args);
        CommandDescriptor {
            name: EXPORT_COMMAND_NAME.to_owned(),
            display_name: "Export causal DAG".to_owned(),
            summary: "Export the active Causal DAG as HTML, JSON, SVG, DOT, Markdown, or summary.".to_owned(),
            required_capabilities,
            args,
            accepts_session_id: true,
            invocation: Invocation::User,
        }
    }
}

/// The command for the view.
#[derive(Clone, Copy, Debug)]
pub struct CausalDagViewCommand;

/// What the command for the view says of itself.
pub open spec fn view_command() -> Described {
    Described {
        name: VIEW_COMMAND_NAME@,
        display_name: "View causal DAG"@,
        summary: "Show the active path, open frontier, and dead ends without writing a file."@,
        required_capabilities: seq![
            Capability::FsRead,
            Capability::FsWrite,
        ],
        args: Seq::empty(),
        accepts_session_id: true,
        invocation: Invocation::User,
    }
}

impl CausalDagViewCommand {
    pub fn descriptor(&self) -> (r: CommandDescriptor)
        ensures
            r.deep_view() == view_command(),
    {
        let required_capabilities = vec![
            Capability::FsRead,
            Capability::FsWrite,
        ];
        let args: Vec<ArgSpec> = Vec::new();
        assert(required_capabilities@ =~= view_command().required_capabilities);
        assert(args.deep_view() =~= view_command().args);
        CommandDescriptor {
            name: VIEW_COMMAND_NAME.to_owned(),
            display_name: "View causal DAG".to_owned(),
            summary: "Show the active path, open frontier, and dead ends without writing a file.".to_owned(),
            required_capabilities,
            args,
            accepts_session_id: true,
            invocation: Invocation::User,
        }
    }
}

/// The command for an update.
#[derive(Clone, Copy, Debug)]
pub struct CausalDagUpdateCommand;

/// What the command for an update says of itself.
pub open spec fn update_command() -> Described {
    Described {
        name: UPDATE_COMMAND_NAME@,
        display_name: "Update causal DAG"@,
        summary: "Run one durable checkpointed Causal DAG projection tick."@,
        required_capabilities: seq![
            Capability::ProvenanceRead,
            Capability::ArtifactWrite,
            Capability::FsRead,
            Capability::FsWrite,
            Capability::ContextSlot,
        ],
        args: query_arguments(false, false),
        accepts_session_id: true,
        invocation: Invocation::User,
    }
}

impl CausalDagUpdateCommand {
    pub fn descriptor(&self) -> (r: CommandDescriptor)
        ensures
            r.deep_view() == update_command(),
    {
        let required_capabilities = vec![
            Capability::ProvenanceRead,
            Capability::ArtifactWrite,
            Capability::FsRead,
            Capability::FsWrite,
            Capability::ContextSlot,
        ];
        let args: Vec<ArgSpec> = provenance_query_args(false, false);
        assert(required_capabilities@ =~= update_command().required_capabilities);
        assert(args.deep_view() =~= update_command().args);
        CommandDescriptor {
            name: UPDATE_COMMAND_NAME.to_owned(),
            display_name: "Update causal DAG".to_owned(),
            summary: "Run one durable checkpointed Causal DAG projection tick.".to_owned(),
            required_capabilities,
            args,
            accepts_session_id: true,
            invocation: Invocation::User,
        }
    }
}

/// The command for catching up.
#[derive(Clone, Copy, Debug)]
pub struct CausalDagCatchUpCommand;

/// What the command for catching up says of itself.
pub open spec fn catch_up_command() -> Described {
    Described {
        name: CATCH_UP_COMMAND_NAME@,
        display_name: "Catch up causal DAG"@,
        summary: "Run bounded Causal DAG update ticks until caught up or budgeted."@,
        required_capabilities: seq![
            Capability::ProvenanceRead,
            Capability::ArtifactWrite,
            Capability::FsRead,
            Capability::FsWrite,
            Capability::ContextSlot,
        ],
        args: catch_up_arguments(),
        accepts_session_id: true,
        invocation: Invocation::User,
    }
}

impl CausalDagCatchUpCommand {
    pub fn descriptor(&self) -> (r: CommandDescriptor)
        ensures
            r.deep_view() == catch_up_command(),
    {
        let required_capabilities = vec![
            Capability::ProvenanceRead,
            Capability::ArtifactWrite,
            Capability::FsRead,
            Capability::FsWrite,
            Capability::ContextSlot,
        ];
        let args: Vec<ArgSpec> = catch_up_args();
        assert(required_capabilities@ =~= catch_up_command().required_capabilities);
        assert(args.deep_view() =~= catch_up_command().args);
        CommandDescriptor {
            name: CATCH_UP_COMMAND_NAME.to_owned(),
            display_name: "Catch up causal DAG".to_owned(),
            summary: "Run bounded Causal DAG update ticks until caught up or budgeted.".to_owned(),
            required_capabilities,
            args,
            accepts_session_id: true,
            invocation: Invocation::User,
        }
    }
}

/// The command for an observation.
#[derive(Clone, Copy, Debug)]
pub struct CausalDagObserveCommand;

/// What the command for an observation says of itself.
pub open spec fn observe_command() -> Described {
    Described {
        name: OBSERVE_COMMAND_NAME@,
        display_name: "Observe causal DAG"@,
        summary: "Project observer-produced Causal DAG hints over bounded provenance."@,
        required_capabilities: seq![
            Capability::ProvenanceRead,
            Capability::ArtifactWrite,
            Capability::FsRead,
            Capability::FsWrite,
            Capability::ContextSlot,
        ],
        args: observe_arguments(),
        accepts_session_id: true,
        invocation: Invocation::User,
    }
}

impl CausalDagObserveCommand {
    pub fn descriptor(&self) -> (r: CommandDescriptor)
        ensures
            r.deep_view() == observe_command(),
    {
        let required_capabilities = vec![
            Capability::ProvenanceRead,
            Capability::ArtifactWrite,
            Capability::FsRead,
            Capability::FsWrite,
            Capability::ContextSlot,
        ];
        let args: Vec<ArgSpec> = observe_args();
        assert(required_capabilities@ =~= observe_command().required_capabilities);
        assert(args.deep_view() =~= observe_command().args);
        CommandDescriptor {
            name: OBSERVE_COMMAND_NAME.to_owned(),
            display_name: "Observe causal DAG".to_owned(),
            summary: "Project observer-produced Causal DAG hints over bounded provenance.".to_owned(),
            required_capabilities,
            args,
            accepts_session_id: true,
            invocation: Invocation::User,
        }
    }
}

/// The command for enabling the record.
#[derive(Clone, Copy, Debug)]
pub struct CausalDagResearchEnableCommand;

/// What the command for enabling the record says of itself.
pub open spec fn research_enable_command() -> Described {
    Described {
        name: RESEARCH_ENABLE_COMMAND_NAME@,
        display_name: "Enable durable research record"@,
        summary: "Use the durable research record and deterministic v4 Causal DAG projection for this session."@,
        required_capabilities: seq![
            Capability::FsRead,
            Capability::FsWrite,
        ],
        args: Seq::empty(),
        accepts_session_id: false,
        invocation: Invocation::User,
    }
}

impl CausalDagResearchEnableCommand {
    pub fn descriptor(&self) -> (r: CommandDescriptor)
        ensures
            r.deep_view() == research_enable_command(),
    {
        let required_capabilities = vec![
            Capability::FsRead,
            Capability::FsWrite,
        ];
        let args: Vec<ArgSpec> = Vec::new();
        assert(required_capabilities@ =~= research_enable_command().required_capabilities);
        assert(args.deep_view() =~= research_enable_command().args);
        CommandDescriptor {
            name: RESEARCH_ENABLE_COMMAND_NAME.to_owned(),
            display_name: "Enable durable research record".to_owned(),
            summary: "Use the durable research record and deterministic v4 Causal DAG projection for this session.".to_owned(),
            required_capabilities,
            args,
            accepts_session_id: false,
            invocation: Invocation::User,
        }
    }
}

/// The command for a refresh.
#[derive(Clone, Copy, Debug)]
pub struct CausalDagRefreshCommand;

/// What the command for a refresh says of itself.
pub open spec fn refresh_command() -> Described {
    Described {
        name: REFRESH_COMMAND_NAME@,
        display_name: "Refresh causal DAG"@,
        summary: "Increment, reframe, or finalize the active semantic Causal DAG."@,
        required_capabilities: seq![
            Capability::ProvenanceRead,
            Capability::ArtifactWrite,
            Capability::FsRead,
            Capability::FsWrite,
            Capability::AgentSpawn,
            Capability::ContextSlot,
        ],
        args: refresh_arguments(),
        accepts_session_id: true,
        invocation: Invocation::User,
    }
}

impl CausalDagRefreshCommand {
    pub fn descriptor(&self) -> (r: CommandDescriptor)
        ensures
            r.deep_view() == refresh_command(),
    {
        let required_capabilities = vec![
            Capability::ProvenanceRead,
            Capability::ArtifactWrite,
            Capability::FsRead,
            Capability::FsWrite,
            Capability::AgentSpawn,
            Capability::ContextSlot,
        ];
        let args: Vec<ArgSpec> = refresh_args();
        assert(required_capabilities@ =~= refresh_command().required_capabilities);
        assert(args.deep_view() =~= refresh_command().args);
        CommandDescriptor {
            name: REFRESH_COMMAND_NAME.to_owned(),
            display_name: "Refresh causal DAG".to_owned(),
            summary: "Increment, reframe, or finalize the active semantic Causal DAG.".to_owned(),
            required_capabilities,
            args,
            accepts_session_id: true,
            invocation: Invocation::User,
        }
    }
}

/// The command for applying what an observer returned.
#[derive(Clone, Copy, Debug)]
pub struct CausalDagObserverApplyCommand;

/// What the command for applying what an observer returned says of itself.
pub open spec fn observer_apply_command() -> Described {
    Described {
        name: OBSERVER_APPLY_COMMAND_NAME@,
        display_name: "Apply observer output"@,
        summary: "Fold a round-observer companion's hints output into a Causal DAG projection."@,
        required_capabilities: seq![
            Capability::ProvenanceRead,
            Capability::ArtifactWrite,
            Capability::FsRead,
            Capability::FsWrite,
            Capability::ContextSlot,
        ],
        args: Seq::empty(),
        accepts_session_id: false,
        invocation: Invocation::User,
    }
}

impl CausalDagObserverApplyCommand {
    pub fn descriptor(&self) -> (r: CommandDescriptor)
        ensures
            r.deep_view() == observer_apply_command(),
    {
        let required_capabilities = vec![
            Capability::ProvenanceRead,
            Capability::ArtifactWrite,
            Capability::FsRead,
            Capability::FsWrite,
            Capability::ContextSlot,
        ];
        let args: Vec<ArgSpec> = Vec::new();
        assert(required_capabilities@ =~= observer_apply_command().required_capabilities);
        assert(args.deep_view() =~= observer_apply_command().args);
        CommandDescriptor {
            name: OBSERVER_APPLY_COMMAND_NAME.to_owned(),
            display_name: "Apply observer output".to_owned(),
            summary: "Fold a round-observer companion's hints output into a Causal DAG projection.".to_owned(),
            required_capabilities,
            args,
            accepts_session_id: false,
            invocation: Invocation::User,
        }
    }
}

/// The command for recording an observation.
#[derive(Clone, Copy, Debug)]
pub struct CausalDagRecordObservationCommand;

/// What the command for recording an observation says of itself.
pub open spec fn record_observation_command() -> Described {
    Described {
        name: RECORD_OBSERVATION_COMMAND_NAME@,
        display_name: "Record Causal DAG observation"@,
        summary: "Record post-hoc observer audit metadata for an existing Causal DAG artifact."@,
        required_capabilities: seq![
            Capability::ProvenanceRead,
            Capability::AgentRecord,
        ],
        args: audit_arguments(),
        accepts_session_id: true,
        invocation: Invocation::User,
    }
}

impl CausalDagRecordObservationCommand {
    pub fn descriptor(&self) -> (r: CommandDescriptor)
        ensures
            r.deep_view() == record_observation_command(),
    {
        let required_capabilities = vec![
            Capability::ProvenanceRead,
            Capability::AgentRecord,
        ];
        let args: Vec<ArgSpec> = record_observation_args();
        assert(required_capabilities@ =~= record_observation_command().required_capabilities);
        assert(args.deep_view() =~= record_observation_command().args);
        CommandDescriptor {
            name: RECORD_OBSERVATION_COMMAND_NAME.to_owned(),
            display_name: "Record Causal DAG observation".to_owned(),
            summary: "Record post-hoc observer audit metadata for an existing Causal DAG artifact.".to_owned(),
            required_capabilities,
            args,
            accepts_session_id: true,
            invocation: Invocation::User,
        }
    }
}

/// Whether a command asks for a capability.
pub open spec fn asks(c: Described, capability: Capability) -> bool {
    c.required_capabilities.contains(capability)
}

/// No command asks for more than it does: only a refresh has agents spawned, only the record of
/// an observation has one recorded, the view and the switch read no provenance and write no
/// artifact, neither writes an artifact that only records, and a slot is filled just by those
/// that make a graph.
pub proof fn commands_ask_for_what_they_do()
    ensures
        asks(refresh_command(), Capability::AgentSpawn),
        !asks(export_command(), Capability::AgentSpawn) && !asks(
            view_command(),
            Capability::AgentSpawn,
        ) && !asks(update_command(), Capability::AgentSpawn) && !asks(
            catch_up_command(),
            Capability::AgentSpawn,
        ) && !asks(observe_command(), Capability::AgentSpawn) && !asks(
            research_enable_command(),
            Capability::AgentSpawn,
        ) && !asks(observer_apply_command(), Capability::AgentSpawn) && !asks(
            record_observation_command(),
            Capability::AgentSpawn,
        ),
        asks(record_observation_command(), Capability::AgentRecord),
        !asks(refresh_command(), Capability::AgentRecord) && !asks(
            observe_command(),
            Capability::AgentRecord,
        ) && !asks(observer_apply_command(), Capability::AgentRecord),
        !asks(view_command(), Capability::ProvenanceRead) && !asks(
            research_enable_command(),
            Capability::ProvenanceRead,
        ),
        asks(export_command(), Capability::ProvenanceRead) && asks(
            update_command(),
            Capability::ProvenanceRead,
        ) && asks(catch_up_command(), Capability::ProvenanceRead) && asks(
            observe_command(),
            Capability::ProvenanceRead,
        ) && asks(refresh_command(), Capability::ProvenanceRead) && asks(
            observer_apply_command(),
            Capability::ProvenanceRead,
        ) && asks(record_observation_command(), Capability::ProvenanceRead),
        !asks(view_command(), Capability::ArtifactWrite) && !asks(
            research_enable_command(),
            Capability::ArtifactWrite,
        ) && !asks(record_observation_command(), Capability::ArtifactWrite),
        asks(export_command(), Capability::ArtifactWrite) && asks(
            update_command(),
            Capability::ArtifactWrite,
        ) && asks(catch_up_command(), Capability::ArtifactWrite) && asks(
            observe_command(),
            Capability::ArtifactWrite,
        ) && asks(refresh_command(), Capability::ArtifactWrite) && asks(
            observer_apply_command(),
            Capability::ArtifactWrite,
        ),
        asks(update_command(), Capability::ContextSlot) && asks(
            catch_up_command(),
            Capability::ContextSlot,
        ) && asks(observe_command(), Capability::ContextSlot) && asks(
            refresh_command(),
            Capability::ContextSlot,
        ) && asks(observer_apply_command(), Capability::ContextSlot),
        !asks(export_command(), Capability::ContextSlot) && !asks(
            view_command(),
            Capability::ContextSlot,
        ) && !asks(research_enable_command(), Capability::ContextSlot) && !asks(
            record_observation_command(),
            Capability::ContextSlot,
        ),
        !asks(record_observation_command(), Capability::FsWrite) && !asks(
            record_observation_command(),
            Capability::FsRead,
        ),
        asks(view_command(), Capability::FsRead) && asks(view_command(), Capability::FsWrite),
        asks(research_enable_command(), Capability::FsRead) && asks(
            research_enable_command(),
            Capability::FsWrite,
        ),
        asks(export_command(), Capability::FsWrite) && asks(update_command(), Capability::FsWrite)
            && asks(observe_command(), Capability::FsWrite) && asks(
            refresh_command(),
            Capability::FsWrite,
        ) && asks(observer_apply_command(), Capability::FsWrite) && asks(
            catch_up_command(),
            Capability::FsWrite,
        ),
        export_command().name == "export"@ && view_command().name == "view"@
            && update_command().name == "update"@ && catch_up_command().name == "catch-up"@
            && observe_command().name == "observe"@ && research_enable_command().name
            == "research-enable"@ && refresh_command().name == "refresh"@
            && observer_apply_command().name == "observer-apply"@
            && record_observation_command().name == "record-observation"@,
        export_command().accepts_session_id && view_command().accepts_session_id
            && update_command().accepts_session_id && catch_up_command().accepts_session_id
            && observe_command().accepts_session_id && refresh_command().accepts_session_id
            && record_observation_command().accepts_session_id,
        !research_enable_command().accepts_session_id && !observer_apply_command().accepts_session_id,
{
    let a = refresh_command().required_capabilities;
    assert(a[0] == Capability::ProvenanceRead && a[1] == Capability::ArtifactWrite && a[3]
        == Capability::FsWrite && a[4] == Capability::AgentSpawn && a[5] == Capability::ContextSlot);
    let b = record_observation_command().required_capabilities;
    assert(b[0] == Capability::ProvenanceRead && b[1] == Capability::AgentRecord);
    let c = export_command().required_capabilities;
    assert(c[0] == Capability::ProvenanceRead && c[1] == Capability::ArtifactWrite && c[3]
        == Capability::FsWrite);
    let d = update_command().required_capabilities;
    assert(d[0] == Capability::ProvenanceRead && d[1] == Capability::ArtifactWrite && d[3]
        == Capability::FsWrite && d[4] == Capability::ContextSlot);
    let e = catch_up_command().required_capabilities;
    assert(e[0] == Capability::ProvenanceRead && e[1] == Capability::ArtifactWrite && e[3]
        == Capability::FsWrite && e[4] == Capability::ContextSlot);
    let f = observe_command().required_capabilities;
    assert(f[0] == Capability::ProvenanceRead && f[1] == Capability::ArtifactWrite && f[3]
        == Capability::FsWrite && f[4] == Capability::ContextSlot);
    let g = observer_apply_command().required_capabilities;
    assert(g[0] == Capability::ProvenanceRead && g[1] == Capability::ArtifactWrite && g[3]
        == Capability::FsWrite && g[4] == Capability::ContextSlot);
    let h = view_command().required_capabilities;
    assert(h[0] == Capability::FsRead && h[1] == Capability::FsWrite);
    let i = research_enable_command().required_capabilities;
    assert(i[0] == Capability::FsRead && i[1] == Capability::FsWrite);
}

/// Whether an argument fills a field with a number.
pub open spec fn numbers(a: Argument, flag: Seq<char>, field: Seq<char>, max: Option<usize>) -> bool {
    a.flag == flag && a.input_key == field && a.takes == (Takes::Count { max }) && !a.required
        && !a.repeatable
}

/// Whether an argument fills a field with a text.
pub open spec fn names(a: Argument, flag: Seq<char>, field: Seq<char>, required: bool) -> bool {
    a.flag == flag && a.input_key == field && a.takes is Text && a.required == required
        && !a.repeatable
}

/// The arguments of the commands fill the fields that the commands read. An observation cannot go
/// without its hints, nor an audit without the artifact that it is of; all else may be left out,
/// and only kinds may be given more than once.
pub proof fn arguments_fill_the_fields_that_are_read()
    ensures
        ({
            let e = export_arguments();
            &&& e.len() == 6
            &&& numbers(e[0], "limit"@, "limit"@, None)
            &&& numbers(e[1], "scan-limit"@, "scan_limit"@, None)
            &&& names(e[2], "after-event-id"@, "after_event_id"@, false)
            &&& e[3].flag == "kind"@ && e[3].input_key == "kinds"@ && e[3].takes == Takes::Texts
            &&& !e[3].required && e[3].repeatable
            &&& names(e[4], "format"@, "format"@, false)
            &&& names(e[5], "out"@, "out"@, false)
        }),
        ({
            let c = catch_up_arguments();
            &&& c.len() == 3
            &&& numbers(c[0], "limit"@, "limit"@, None)
            &&& numbers(c[1], "scan-limit"@, "scan_limit"@, None)
            &&& numbers(c[2], "max-ticks"@, "max_ticks"@, Some(MAX_CATCH_UP_TICKS))
        }),
        ({
            let o = observe_arguments();
            &&& o.len() == 5
            &&& numbers(o[0], "limit"@, "limit"@, None)
            &&& numbers(o[1], "scan-limit"@, "scan_limit"@, None)
            &&& names(o[2], "after-event-id"@, "after_event_id"@, false)
            &&& o[3].flag == "watermark-event-id"@ && o[3].input_key == "watermark_event_id"@
            &&& o[4].flag == "hints"@ && o[4].input_key == "causal_dag"@ && o[4].required
            &&& o[4].takes == (Takes::ObjectFile {
                max_bytes: 65536,
                unwrapped: Some("causal_dag"@),
            })
        }),
        ({
            let r = refresh_arguments();
            &&& r.len() == 7
            &&& names(r[0], "operation"@, "operation"@, false)
            &&& names(r[1], "policy"@, "policy"@, false)
            &&& numbers(r[2], "limit"@, "limit"@, None)
            &&& numbers(r[3], "scan-limit"@, "scan_limit"@, None)
            &&& names(r[4], "provider"@, "provider"@, false)
            &&& names(r[5], "model"@, "model"@, false)
            &&& numbers(r[6], "max-tokens"@, "max_tokens"@, None)
        }),
        ({
            let a = audit_arguments();
            &&& a.len() == 6
            &&& numbers(a[0], "limit"@, "limit"@, None)
            &&& numbers(a[1], "scan-limit"@, "scan_limit"@, None)
            &&& names(a[2], "after-event-id"@, "after_event_id"@, false)
            &&& names(a[3], "artifact-event-id"@, "artifact_event_id"@, true)
            &&& names(a[4], "observer-provider"@, "observer.provider"@, false)
            &&& names(a[5], "observer-model"@, "observer.model"@, false)
        }),
{
}

} // verus!
