//! The formats of an export, and what the export command is asked for.

use super::graph::{Dag, ViewerDag};
use super::html::{html_of, render_html, Assets, ViewerAssets};
use super::text::{dot_of, markdown_of, render_dot, render_markdown, Colours, Palette};
use crate::inputs::{
    filled_field, limit_field, optional_non_empty_string, optional_string, optional_string_array,
    parse_limit, parse_positive_usize, positive_field, reject_unknown_fields, text_field,
    texts_field, unknown_field,
};
use crate::json::{json_text, write_json, Json, Members, Tree};
use crate::path::{is_file_inside, names_file_inside};
use crate::schema::{MEDIA_TYPE_JSON, RESEARCH_DAG_MEDIA_TYPE, RESEARCH_DAG_SCHEMA};
use crate::sdk::{
    answers, fault, input_error, passes, scan_or_default, ExtensionError, ProvenanceQuery,
    DEFAULT_BLOB_BYTE_LIMIT,
};
use crate::slot_summary::budget::{artifact_summary, render_artifact_summary};
use crate::table::{copy_texts, member};
use crate::text::{join3, same};
use vstd::prelude::*;

verus! {

/// The most bytes of the path of a copy.
pub const OUT_PATH_MAX_BYTES: usize = 4096;

/// A format of an export.
#[derive(Clone, Copy, Debug, PartialEq, Eq, Structural)]
pub enum ExportFormat {
    Html,
    Json,
    Svg,
    Dot,
    Markdown,
    Summary,
}

impl DeepView for ExportFormat {
    type V = ExportFormat;

    open spec fn deep_view(&self) -> ExportFormat {
        *self
    }
}

/// The format of a name; JSON where none is named.
pub open spec fn format_of(name: Option<Seq<char>>) -> Result<ExportFormat, Seq<char>> {
    match name {
        None => Ok(ExportFormat::Json),
        Some(name) => if name == "html"@ {
            Ok(ExportFormat::Html)
        } else if name == "json"@ {
            Ok(ExportFormat::Json)
        } else if name == "svg"@ {
            Ok(ExportFormat::Svg)
        } else if name == "dot"@ {
            Ok(ExportFormat::Dot)
        } else if name == "markdown"@ || name == "md"@ {
            Ok(ExportFormat::Markdown)
        } else if name == "summary"@ || name == "txt"@ {
            Ok(ExportFormat::Summary)
        } else {
            Err(
                "causal-dag export format must be html, json, svg, dot, markdown, or summary; got `"@
                    + name + "`"@,
            )
        },
    }
}

impl ExportFormat {
    pub open spec fn name(self) -> Seq<char> {
        match self {
            ExportFormat::Html => "html"@,
            ExportFormat::Json => "json"@,
            ExportFormat::Svg => "svg"@,
            ExportFormat::Dot => "dot"@,
            ExportFormat::Markdown => "markdown"@,
            ExportFormat::Summary => "summary"@,
        }
    }

    pub open spec fn ending(self) -> Seq<char> {
        match self {
            ExportFormat::Html => "html"@,
            ExportFormat::Json => "json"@,
            ExportFormat::Svg => "svg"@,
            ExportFormat::Dot => "dot"@,
            ExportFormat::Markdown => "md"@,
            ExportFormat::Summary => "txt"@,
        }
    }

    pub open spec fn media(self, source_schema: Seq<char>) -> Seq<char> {
        match self {
            ExportFormat::Html => "text/html; charset=utf-8"@,
            ExportFormat::Json => if source_schema == RESEARCH_DAG_SCHEMA@ {
                RESEARCH_DAG_MEDIA_TYPE@
            } else {
                MEDIA_TYPE_JSON@
            },
            ExportFormat::Svg => "image/svg+xml"@,
            ExportFormat::Dot => "text/vnd.graphviz; charset=utf-8"@,
            ExportFormat::Markdown => "text/markdown; charset=utf-8"@,
            ExportFormat::Summary => "text/plain; charset=utf-8"@,
        }
    }

    pub fn parse(value: Option<&str>) -> (r: Result<Self, ExtensionError>)
        ensures
            answers(r, format_of(value.deep_view())),
    {
        let name = match value {
            None => return Ok(ExportFormat::Json),
            Some(name) => name,
        };
        if same(name, "html") {
            Ok(ExportFormat::Html)
        } else if same(name, "json") {
            Ok(ExportFormat::Json)
        } else if same(name, "svg") {
            Ok(ExportFormat::Svg)
        } else if same(name, "dot") {
            Ok(ExportFormat::Dot)
        } else if same(name, "markdown") || same(name, "md") {
            Ok(ExportFormat::Markdown)
        } else if same(name, "summary") || same(name, "txt") {
            Ok(ExportFormat::Summary)
        } else {
            Err(
                fault(
                    join3(
                        "causal-dag export format must be html, json, svg, dot, markdown, or summary; got `",
                        name,
                        "`",
                    ),
                ),
            )
        }
    }

    pub fn as_str(self) -> (r: &'static str)
        ensures
            r@ == self.name(),
    {
        match self {
            ExportFormat::Html => "html",
            ExportFormat::Json => "json",
            ExportFormat::Svg => "svg",
            ExportFormat::Dot => "dot",
            ExportFormat::Markdown => "markdown",
            ExportFormat::Summary => "summary",
        }
    }

    pub fn extension(self) -> (r: &'static str)
        ensures
            r@ == self.ending(),
    {
        match self {
            ExportFormat::Html => "html",
            ExportFormat::Json => "json",
            ExportFormat::Svg => "svg",
            ExportFormat::Dot => "dot",
            ExportFormat::Markdown => "md",
            ExportFormat::Summary => "txt",
        }
    }

    pub fn media_type(self, source_schema: &str) -> (r: &'static str)
        ensures
            r@ == self.media(source_schema@),
    {
        match self {
            ExportFormat::Html => "text/html; charset=utf-8",
            ExportFormat::Json => {
                if same(source_schema, RESEARCH_DAG_SCHEMA) {
                    RESEARCH_DAG_MEDIA_TYPE
                } else {
                    MEDIA_TYPE_JSON
                }
            },
            ExportFormat::Svg => "image/svg+xml",
            ExportFormat::Dot => "text/vnd.graphviz; charset=utf-8",
            ExportFormat::Markdown => "text/markdown; charset=utf-8",
            ExportFormat::Summary => "text/plain; charset=utf-8",
        }
    }
}

/// The name and the file ending of a format are read back as the format.
pub proof fn format_names_are_read_back(format: ExportFormat)
    ensures
        format_of(Some(format.name())) == Ok::<ExportFormat, Seq<char>>(format),
        format_of(Some(format.ending())) == Ok::<ExportFormat, Seq<char>>(format),
{
    reveal_strlit("html");
    reveal_strlit("json");
    reveal_strlit("svg");
    reveal_strlit("dot");
    reveal_strlit("markdown");
    reveal_strlit("md");
    reveal_strlit("summary");
    reveal_strlit("txt");
    assert("html"@[0] == 'h' && "json"@[0] == 'j' && "svg"@[0] == 's' && "dot"@[0] == 'd'
        && "markdown"@[0] == 'm' && "md"@[0] == 'm' && "summary"@[0] == 's' && "txt"@[0] == 't');
    assert("svg"@.len() == 3 && "summary"@.len() == 7);
}

/// What an export holds: a text, a drawing that is laid out elsewhere, or nothing where the
/// graph runs in a circle.
pub enum Rendering {
    Text(String),
    Drawing,
    Circular,
}

/// What a [`Rendering`] holds.
#[verifier::ext_equal]
pub enum Shown {
    Text(Seq<char>),
    Drawing,
    Circular,
}

impl DeepView for Rendering {
    type V = Shown;

    open spec fn deep_view(&self) -> Shown {
        match self {
            Rendering::Text(text) => Shown::Text(text@),
            Rendering::Drawing => Shown::Drawing,
            Rendering::Circular => Shown::Circular,
        }
    }
}

/// What an export of a graph holds.
pub open spec fn shown(
    format: ExportFormat,
    artifact: Tree,
    dag: Dag,
    palette: Colours,
    assets: Assets,
) -> Result<Shown, Seq<char>> {
    match format {
        ExportFormat::Html => match html_of(dag, assets) {
            Err(e) => Err(e),
            Ok(text) => Ok(Shown::Text(text)),
        },
        ExportFormat::Json => Ok(Shown::Text(json_text(artifact).push('\n'))),
        ExportFormat::Svg => Ok(Shown::Drawing),
        ExportFormat::Dot => match dot_of(dag, palette) {
            Err(e) => Err(e),
            Ok(text) => Ok(Shown::Text(text)),
        },
        ExportFormat::Markdown => Ok(Shown::Text(markdown_of(dag))),
        ExportFormat::Summary => match artifact_summary(artifact) {
            Err(e) => Err(e),
            Ok(None) => Ok(Shown::Circular),
            Ok(Some(text)) => Ok(Shown::Text(text.push('\n'))),
        },
    }
}

/// The text of an artifact, on a line of its own.
pub fn canonical_json_text(value: &Json) -> (r: String)
    ensures
        r@ == json_text(value@).push('\n'),
{
    let mut text = write_json(value);
    text.push('\n');
    text
}

impl ExportFormat {
    /// What the export of a graph holds.
    pub fn render(self, artifact: &Json, dag: &ViewerDag, palette: &Palette, assets: &ViewerAssets) -> (r:
        Result<Rendering, ExtensionError>)
        ensures
            answers(
                r,
                shown(
                    self,
                    artifact@,
                    dag.deep_view(),
                    palette.deep_view(),
                    assets.deep_view(),
                ),
            ),
    {
        match self {
            ExportFormat::Html => Ok(Rendering::Text(render_html(dag, assets)?)),
            ExportFormat::Json => Ok(Rendering::Text(canonical_json_text(artifact))),
            ExportFormat::Svg => Ok(Rendering::Drawing),
            ExportFormat::Dot => Ok(Rendering::Text(render_dot(dag, palette)?)),
            ExportFormat::Markdown => Ok(Rendering::Text(render_markdown(dag))),
            ExportFormat::Summary => match render_artifact_summary(artifact)? {
                None => Ok(Rendering::Circular),
                Some(text) => {
                    let mut text = text;
                    text.push('\n');
                    Ok(Rendering::Text(text))
                },
            },
        }
    }
}

/// What is wrong with the path of a copy.
pub open spec fn out_path_fault(path: Seq<char>) -> Option<Seq<char>> {
    if names_file_inside(path, OUT_PATH_MAX_BYTES as nat) {
        None
    } else {
        Some("causal-dag export out must be a workspace-relative file path without `..`"@)
    }
}

pub fn validate_out_path(path: &str) -> (r: Result<(), ExtensionError>)
    ensures
        passes(r, out_path_fault(path@)),
{
    if is_file_inside(path, OUT_PATH_MAX_BYTES) {
        Ok(())
    } else {
        Err(
            input_error(
                "causal-dag export out must be a workspace-relative file path without `..`",
            ),
        )
    }
}

/// What the export command is asked for.
#[derive(Debug, PartialEq, Eq)]
pub struct ExportInput {
    pub format: ExportFormat,
    pub out: Option<String>,
    pub limit: usize,
    pub scan_limit: Option<usize>,
    pub after_event_id: Option<String>,
    pub kinds: Vec<String>,
    pub session_id: Option<String>,
}

/// What an [`ExportInput`] holds.
#[verifier::ext_equal]
pub struct Export {
    pub format: ExportFormat,
    pub out: Option<Seq<char>>,
    pub limit: usize,
    pub scan_limit: Option<usize>,
    pub after_event_id: Option<Seq<char>>,
    pub kinds: Seq<Seq<char>>,
    pub session_id: Option<Seq<char>>,
}

impl DeepView for ExportInput {
    type V = Export;

    open spec fn deep_view(&self) -> Export {
        Export {
            format: self.format,
            out: self.out.deep_view(),
            limit: self.limit,
            scan_limit: self.scan_limit,
            after_event_id: self.after_event_id.deep_view(),
            kinds: self.kinds.deep_view(),
            session_id: self.session_id.deep_view(),
        }
    }
}

/// The fields that an export may name.
pub open spec fn export_fields() -> Seq<Seq<char>> {
    seq![
        "format"@,
        "out"@,
        "limit"@,
        "scan_limit"@,
        "after_event_id"@,
        "kinds"@,
        "session_id"@,
    ]
}

/// The path of a copy, or none.
pub open spec fn out_of(o: Seq<(Seq<char>, Tree)>) -> Result<Option<Seq<char>>, Seq<char>> {
    match filled_field(o, "out"@) {
        Err(e) => Err(e),
        Ok(None) => Ok(None),
        Ok(Some(path)) => match out_path_fault(path) {
            Some(e) => Err(e),
            None => Ok(Some(path)),
        },
    }
}

/// The format that is asked for.
pub open spec fn format_asked(o: Seq<(Seq<char>, Tree)>) -> Result<ExportFormat, Seq<char>> {
    match text_field(o, "format"@) {
        Err(e) => Err(e),
        Ok(name) => format_of(name),
    }
}

/// An export by its fields.
pub open spec fn export_of_fields(o: Seq<(Seq<char>, Tree)>) -> Result<Export, Seq<char>> {
    match unknown_field(o, export_fields(), 0) {
        Some(e) => Err(e),
        None => match out_of(o) {
            Err(e) => Err(e),
            Ok(out) => match format_asked(o) {
                Err(e) => Err(e),
                Ok(format) => match limit_field(o) {
                    Err(e) => Err(e),
                    Ok(limit) => match positive_field(o, "scan_limit"@, None, None) {
                        Err(e) => Err(e),
                        Ok(scan_limit) => match text_field(o, "after_event_id"@) {
                            Err(e) => Err(e),
                            Ok(after_event_id) => match texts_field(o, "kinds"@) {
                                Err(e) => Err(e),
                                Ok(kinds) => match filled_field(o, "session_id"@) {
                                    Err(e) => Err(e),
                                    Ok(session_id) => Ok(
                                        Export {
                                            format,
                                            out,
                                            limit,
                                            scan_limit,
                                            after_event_id,
                                            kinds,
                                            session_id,
                                        },
                                    ),
                                },
                            },
                        },
                    },
                },
            },
        },
    }
}

/// The input of the export command.
pub open spec fn export_of(value: Tree) -> Result<Export, Seq<char>> {
    match value {
        Tree::Null => export_of_fields(Seq::empty()),
        Tree::Object(o) => export_of_fields(o),
        _ => Err("causal-dag export input must be a JSON object"@),
    }
}

fn parse_out(o: &Members) -> (r: Result<Option<String>, ExtensionError>)
    ensures
        answers(r, out_of(o.deep_view())),
{
    match optional_non_empty_string(o, "out")? {
        None => Ok(None),
        Some(path) => {
            validate_out_path(&path)?;
            Ok(Some(path))
        },
    }
}

fn parse_format(o: &Members) -> (r: Result<ExportFormat, ExtensionError>)
    ensures
        answers(r, format_asked(o.deep_view())),
{
    match optional_string(o, "format")? {
        None => ExportFormat::parse(None),
        Some(name) => ExportFormat::parse(Some(name.as_str())),
    }
}

impl ExportInput {
    pub fn parse(value: &Json) -> (r: Result<Self, ExtensionError>)
        ensures
            answers(r, export_of(value@)),
    {
        broadcast use crate::json::object_model;

        match value {
            Json::Null => {
                let none: Members = Vec::new();
                assert(none.deep_view() =~= Seq::empty());
                Self::parse_fields(&none)
            },
            Json::Object(o) => Self::parse_fields(o),
            _ => Err(input_error("causal-dag export input must be a JSON object")),
        }
    }

    fn parse_fields(o: &Members) -> (r: Result<Self, ExtensionError>)
        ensures
            answers(r, export_of_fields(o.deep_view())),
    {
        let allowed = vec![
            "format",
            "out",
            "limit",
            "scan_limit",
            "after_event_id",
            "kinds",
            "session_id",
        ];
        assert(allowed.deep_view() =~= export_fields());
        reject_unknown_fields(o, &allowed)?;
        let out = parse_out(o)?;
        let format = parse_format(o)?;
        let limit: usize = parse_limit(o)?;
        let scan_limit = parse_positive_usize(o, "scan_limit", None, None)?;
        let after_event_id = optional_string(o, "after_event_id")?;
        let kinds = optional_string_array(o, "kinds")?;
        let session_id = optional_non_empty_string(o, "session_id")?;
        Ok(
            ExportInput { format, out, limit, scan_limit, after_event_id, kinds, session_id },
        )
    }

    /// The query for the page of a snapshot.
    pub fn query(&self) -> (r: ProvenanceQuery)
        ensures
            r.after_event_id.deep_view() == self.deep_view().after_event_id,
            r.kinds.deep_view() == self.deep_view().kinds,
            r.limit == self.limit,
            r.scan_limit == scan_or_default(self.scan_limit),
            !r.include_blob_fields,
            r.blob_byte_limit == DEFAULT_BLOB_BYTE_LIMIT,
    {
        let mut query = ProvenanceQuery::page(self.limit, self.scan_limit, &self.after_event_id);
        query.kinds = copy_texts(&self.kinds);
        query
    }
}

/// An export that is written as a copy stays inside the workspace.
pub proof fn copies_stay_inside(value: Tree)
    requires
        export_of(value) is Ok,
        export_of(value)->Ok_0.out is Some,
    ensures
        names_file_inside(export_of(value)->Ok_0.out->0, OUT_PATH_MAX_BYTES as nat),
{
}

/// A format is asked for by its name or a shorter one, and is JSON where none is; each has its
/// media type, its ending, and its own way to show a graph.
pub proof fn formats_are_asked_by_name(
    name: Option<Seq<char>>,
    artifact: Tree,
    dag: Dag,
    palette: Colours,
    assets: Assets,
    schema: Seq<char>,
)
    ensures
        format_of(None) == Ok::<ExportFormat, Seq<char>>(ExportFormat::Json),
        format_of(name) == Ok::<ExportFormat, Seq<char>>(ExportFormat::Html) <==> name == Some(
            "html"@,
        ),
        format_of(name) == Ok::<ExportFormat, Seq<char>>(ExportFormat::Svg) <==> name == Some("svg"@),
        format_of(name) == Ok::<ExportFormat, Seq<char>>(ExportFormat::Dot) <==> name == Some("dot"@),
        format_of(name) == Ok::<ExportFormat, Seq<char>>(ExportFormat::Markdown) <==> name == Some(
            "markdown"@,
        ) || name == Some("md"@),
        format_of(name) == Ok::<ExportFormat, Seq<char>>(ExportFormat::Summary) <==> name == Some(
            "summary"@,
        ) || name == Some("txt"@),
        format_of(name) == Ok::<ExportFormat, Seq<char>>(ExportFormat::Json) <==> name is None || name
            == Some("json"@),
        ExportFormat::Html.name() == "html"@ && ExportFormat::Html.ending() == "html"@,
        ExportFormat::Json.name() == "json"@ && ExportFormat::Json.ending() == "json"@,
        ExportFormat::Svg.name() == "svg"@ && ExportFormat::Svg.ending() == "svg"@,
        ExportFormat::Dot.name() == "dot"@ && ExportFormat::Dot.ending() == "dot"@,
        ExportFormat::Markdown.name() == "markdown"@ && ExportFormat::Markdown.ending() == "md"@,
        ExportFormat::Summary.name() == "summary"@ && ExportFormat::Summary.ending() == "txt"@,
        ExportFormat::Html.media(schema) == "text/html; charset=utf-8"@,
        ExportFormat::Svg.media(schema) == "image/svg+xml"@,
        ExportFormat::Dot.media(schema) == "text/vnd.graphviz; charset=utf-8"@,
        ExportFormat::Markdown.media(schema) == "text/markdown; charset=utf-8"@,
        ExportFormat::Summary.media(schema) == "text/plain; charset=utf-8"@,
        ExportFormat::Json.media("euler.causal_dag.v4"@)
            == "application/vnd.euler.causal-dag.v4+json"@,
        schema != "euler.causal_dag.v4"@ ==> ExportFormat::Json.media(schema)
            == "application/vnd.euler.causal-dag.v3+json"@,
        shown(ExportFormat::Json, artifact, dag, palette, assets) == Ok::<Shown, Seq<char>>(
            Shown::Text(json_text(artifact).push('\n')),
        ),
        shown(ExportFormat::Markdown, artifact, dag, palette, assets) == Ok::<Shown, Seq<char>>(
            Shown::Text(markdown_of(dag)),
        ),
        shown(ExportFormat::Svg, artifact, dag, palette, assets) == Ok::<Shown, Seq<char>>(
            Shown::Drawing,
        ),
        dot_of(dag, palette) matches Ok(text) ==> shown(
            ExportFormat::Dot,
            artifact,
            dag,
            palette,
            assets,
        ) == Ok::<Shown, Seq<char>>(Shown::Text(text)),
        html_of(dag, assets) matches Ok(text) ==> shown(
            ExportFormat::Html,
            artifact,
            dag,
            palette,
            assets,
        ) == Ok::<Shown, Seq<char>>(Shown::Text(text)),
        artifact_summary(artifact) matches Ok(Some(text)) ==> shown(
            ExportFormat::Summary,
            artifact,
            dag,
            palette,
            assets,
        ) == Ok::<Shown, Seq<char>>(Shown::Text(text.push('\n'))),
{
    reveal_strlit("html");
    reveal_strlit("json");
    reveal_strlit("svg");
    reveal_strlit("dot");
    reveal_strlit("markdown");
    reveal_strlit("md");
    reveal_strlit("summary");
    reveal_strlit("txt");
    assert("html"@[0] == 'h' && "json"@[0] == 'j' && "svg"@[0] == 's' && "dot"@[0] == 'd'
        && "markdown"@[0] == 'm' && "md"@[0] == 'm' && "summary"@[0] == 's' && "txt"@[0] == 't');
    assert("svg"@.len() == 3 && "summary"@.len() == 7);
}

/// An export has these defaults: JSON, no copy, sixty-four events of every kind.
pub proof fn exports_have_their_defaults(o: Seq<(Seq<char>, Tree)>)
    ensures
        export_of(Tree::Null) matches Ok(x) ==> x.format == ExportFormat::Json && x.out is None
            && x.limit == 64 && x.scan_limit is None && x.after_event_id is None && x.kinds.len()
            == 0 && x.session_id is None,
        export_of_fields(o) matches Ok(x) ==> {
            &&& member(o, "format"@) is None ==> x.format == ExportFormat::Json
            &&& member(o, "format"@) matches Some(Tree::Text(name)) ==> format_of(Some(name))
                == Ok::<ExportFormat, Seq<char>>(x.format)
            &&& member(o, "out"@) is None ==> x.out is None
            &&& member(o, "out"@) matches Some(Tree::Text(path)) ==> x.out == Some(path)
            &&& member(o, "limit"@) is None ==> x.limit == 64
            &&& member(o, "after_event_id"@) matches Some(Tree::Text(id)) ==> x.after_event_id
                == Some(id)
            &&& member(o, "session_id"@) matches Some(Tree::Text(id)) ==> x.session_id == Some(id)
            &&& member(o, "kinds"@) is None ==> x.kinds.len() == 0
        },
{
}

} // verus!
