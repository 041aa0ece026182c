//! The pointer to the graph that is currently selected. The durable graph artifact remains the
//! record; this state only lets the next observer fold new evidence into it.

use crate::digest::{bounded_id_form, hash_form, valid_bounded_id, valid_sha256};
use crate::json::{
    canonical, json_of_text, json_text, optional_text, read_json, reads_as, write_json, Json, Tree,
    MAX_DEPTH,
};
use crate::path::{plain_relative, valid_relative_path};
use crate::schema::SCHEMA_NAME;
use crate::sdk::{ArtifactRecord, ExtensionError, Stored};
use crate::table::{ascending, find, member};
use crate::text::{byte_count, byte_len, join3, same};
use vstd::prelude::*;

verus! {

pub const ACTIVE_STATE_SCHEMA: &'static str = "euler.causal_dag.active.v3";

pub const ACTIVE_STATE_FILE: &'static str = "active-graph.json";

pub const MAX_ACTIVE_STATE_BYTES: u64 = 1048576;

pub const MAX_PATH_BYTES: usize = 4096;

/// The graph that is selected, and how far the session has been observed.
pub struct ActiveGraphState {
    artifact_event_id: String,
    artifact_sha256: String,
    artifact_relative_path: Option<String>,
    projection_watermark_event_id: String,
    cursor_event_id: String,
    artifact: Json,
}

/// What an [`ActiveGraphState`] holds.
#[verifier::ext_equal]
pub struct Active {
    pub artifact_event_id: Seq<char>,
    pub artifact_sha256: Seq<char>,
    pub artifact_relative_path: Option<Seq<char>>,
    pub projection_watermark_event_id: Seq<char>,
    pub cursor_event_id: Seq<char>,
    pub artifact: Tree,
}

impl DeepView for ActiveGraphState {
    type V = Active;

    closed spec fn deep_view(&self) -> Active {
        Active {
            artifact_event_id: self.artifact_event_id@,
            artifact_sha256: self.artifact_sha256@,
            artifact_relative_path: self.artifact_relative_path.deep_view(),
            projection_watermark_event_id: self.projection_watermark_event_id@,
            cursor_event_id: self.cursor_event_id@,
            artifact: self.artifact@,
        }
    }
}

/// Whether an outcome is the expected one: the value, or a fault of the state with just that
/// message.
pub open spec fn state_answers<T: DeepView>(
    r: Result<T, ExtensionError>,
    expected: Result<T::V, Seq<char>>,
) -> bool {
    match r {
        Ok(v) => expected == Ok::<T::V, Seq<char>>(v.deep_view()),
        Err(e) => e is StateDirFailed && expected == Err::<T::V, Seq<char>>(
            e->StateDirFailed_0@,
        ),
    }
}

fn state_message(message: &str) -> (r: ExtensionError)
    ensures
        r is StateDirFailed,
        r->StateDirFailed_0@ == message@,
{
    ExtensionError::StateDirFailed(message.to_owned())
}

/// The fields of the state.
pub open spec fn state_fields() -> Seq<Seq<char>> {
    seq![
        "schema"@,
        "artifact_event_id"@,
        "artifact_sha256"@,
        "artifact_relative_path"@,
        "projection_watermark_event_id"@,
        "cursor_event_id"@,
        "artifact"@,
    ]
}

/// What is said of the first field, from position `i` on, that the state does not have.
pub open spec fn stray_field(o: Seq<(Seq<char>, Tree)>, i: nat) -> Option<Seq<char>>
    decreases o.len() - i,
{
    if i >= o.len() {
        None
    } else if !state_fields().contains(o[i as int].0) {
        Some("active graph state has unknown field `"@ + o[i as int].0 + "`"@)
    } else {
        stray_field(o, i + 1)
    }
}

/// An identifier of the state.
pub open spec fn id_of(value: Option<Tree>, label: Seq<char>) -> Result<Seq<char>, Seq<char>> {
    match value {
        Some(Tree::Text(text)) => if bounded_id_form(text) {
            Ok(text)
        } else {
            Err("active graph state has an invalid "@ + label)
        },
        _ => Err("active graph state has an invalid "@ + label),
    }
}

fn bounded_id(value: Option<&Json>, label: &str) -> (r: Result<String, ExtensionError>)
    ensures
        state_answers(r, id_of(value.deep_view(), label@)),
{
    match value {
        Some(Json::Text(text)) if valid_bounded_id(text) => Ok(text.clone()),
        _ => Err(
            ExtensionError::StateDirFailed(
                crate::text::join2("active graph state has an invalid ", label),
            ),
        ),
    }
}

/// Whether a path is relative, plain and not too long.
pub open spec fn path_form(path: Seq<char>) -> bool {
    byte_len(path) <= MAX_PATH_BYTES && plain_relative(path)
}

/// The path of the state.
pub open spec fn path_of(value: Option<Tree>) -> Result<Option<Seq<char>>, Seq<char>> {
    match value {
        None => Ok(None),
        Some(Tree::Null) => Ok(None),
        Some(Tree::Text(path)) => if path_form(path) {
            Ok(Some(path))
        } else {
            Err("active graph state has an invalid artifact relative path"@)
        },
        Some(_) => Err("active graph state has an invalid artifact relative path"@),
    }
}

fn parse_artifact_relative_path(value: Option<&Json>) -> (r: Result<
    Option<String>,
    ExtensionError,
>)
    ensures
        state_answers(r, path_of(value.deep_view())),
{
    match value {
        None => Ok(None),
        Some(Json::Null) => Ok(None),
        Some(Json::Text(path)) if byte_count(path) <= MAX_PATH_BYTES && valid_relative_path(
            path,
        ) => Ok(Some(path.clone())),
        _ => Err(state_message("active graph state has an invalid artifact relative path")),
    }
}

/// Whether a text names a policy of construction.
pub open spec fn is_policy(policy: Seq<char>) -> bool {
    policy == "manual"@ || policy == "rolling_only"@ || policy == "rolling_and_final"@ || policy
        == "final_only"@
}

/// The policy that an artifact names.
pub open spec fn policy_in(artifact: Tree) -> Option<Seq<char>> {
    artifact.at("construction"@).text_at("policy"@)
}

/// The watermark that an artifact names.
pub open spec fn watermark_in(artifact: Tree) -> Option<Seq<char>> {
    artifact.at("projection"@).text_at("watermark_event_id"@)
}

/// What is wrong with the artifact of a state.
pub open spec fn artifact_fault(artifact: Tree, watermark: Seq<char>) -> Option<Seq<char>> {
    if artifact.text_at("schema"@) != Some(SCHEMA_NAME@) {
        Some("active graph artifact schema is unsupported"@)
    } else if !(policy_in(artifact) is Some && is_policy(policy_in(artifact)->0)) {
        Some("active graph artifact has an invalid construction policy"@)
    } else if watermark_in(artifact) != Some(watermark) {
        Some("active graph state watermark does not match its artifact"@)
    } else {
        None
    }
}

/// The state that some fields give.
pub open spec fn active_of_fields(o: Seq<(Seq<char>, Tree)>) -> Result<Active, Seq<char>> {
    match id_of(member(o, "artifact_event_id"@), "artifact event id"@) {
        Err(e) => Err(e),
        Ok(artifact_event_id) => match member(o, "artifact_sha256"@) {
            Some(Tree::Text(artifact_sha256)) => if !hash_form(artifact_sha256) {
                Err("active graph state has an invalid artifact hash"@)
            } else {
                match path_of(member(o, "artifact_relative_path"@)) {
                    Err(e) => Err(e),
                    Ok(artifact_relative_path) => match id_of(
                        member(o, "projection_watermark_event_id"@),
                        "projection watermark"@,
                    ) {
                        Err(e) => Err(e),
                        Ok(projection_watermark_event_id) => match id_of(
                            member(o, "cursor_event_id"@),
                            "cursor"@,
                        ) {
                            Err(e) => Err(e),
                            Ok(cursor_event_id) => match member(o, "artifact"@) {
                                None => Err("active graph state is missing its artifact"@),
                                Some(artifact) => match artifact_fault(
                                    artifact,
                                    projection_watermark_event_id,
                                ) {
                                    Some(e) => Err(e),
                                    None => Ok(
                                        Active {
                                            artifact_event_id,
                                            artifact_sha256,
                                            artifact_relative_path,
                                            projection_watermark_event_id,
                                            cursor_event_id,
                                            artifact,
                                        },
                                    ),
                                },
                            },
                        },
                    },
                }
            },
            _ => Err("active graph state has an invalid artifact hash"@),
        },
    }
}

/// The state that a tree gives.
pub open spec fn active_of(value: Tree) -> Result<Active, Seq<char>> {
    match value {
        Tree::Object(o) => match stray_field(o, 0) {
            Some(e) => Err(e),
            None => if text_member_is(o, "schema"@, ACTIVE_STATE_SCHEMA@) {
                active_of_fields(o)
            } else {
                Err("active graph state schema is unsupported"@)
            },
        },
        _ => Err("active graph state must be an object"@),
    }
}

/// Whether a member is a certain text.
pub open spec fn text_member_is(
    o: Seq<(Seq<char>, Tree)>,
    name: Seq<char>,
    text: Seq<char>,
) -> bool {
    member(o, name) == Some(Tree::Text(text))
}

/// The tree of a state.
pub open spec fn active_tree(state: Active) -> Tree {
    Tree::Object(
        seq![
            ("artifact"@, state.artifact),
            ("artifact_event_id"@, Tree::Text(state.artifact_event_id)),
            ("artifact_relative_path"@, optional_text(state.artifact_relative_path)),
            ("artifact_sha256"@, Tree::Text(state.artifact_sha256)),
            ("cursor_event_id"@, Tree::Text(state.cursor_event_id)),
            ("projection_watermark_event_id"@, Tree::Text(state.projection_watermark_event_id)),
            ("schema"@, Tree::Text(ACTIVE_STATE_SCHEMA@)),
        ],
    )
}

/// Whether a state is sound: its identifiers, hash and path have their forms, and its artifact
/// is a graph with that watermark.
pub open spec fn sound(state: Active) -> bool {
    &&& bounded_id_form(state.artifact_event_id)
    &&& hash_form(state.artifact_sha256)
    &&& state.artifact_relative_path is Some ==> path_form(state.artifact_relative_path->0)
    &&& bounded_id_form(state.projection_watermark_event_id)
    &&& bounded_id_form(state.cursor_event_id)
    &&& artifact_fault(state.artifact, state.projection_watermark_event_id) is None
}

/// The state that a commit selects.
pub open spec fn committed(record: Stored, artifact: Tree, cursor: Option<Seq<char>>) -> Result<
    Active,
    Seq<char>,
> {
    if !bounded_id_form(record.persisted_event_id) {
        Err("active graph artifact record has an invalid event id"@)
    } else if !hash_form(record.sha256) {
        Err("active graph artifact record has an invalid hash"@)
    } else {
        match watermark_in(artifact) {
            None => Err("active graph artifact has no watermark"@),
            Some(watermark) => {
                let cursor_event_id = match cursor {
                    Some(cursor) => cursor,
                    None => watermark,
                };
                if !bounded_id_form(cursor_event_id) {
                    Err("active graph cursor is invalid"@)
                } else {
                    Ok(
                        Active {
                            artifact_event_id: record.persisted_event_id,
                            artifact_sha256: record.sha256,
                            artifact_relative_path: Some(record.relative_path),
                            projection_watermark_event_id: watermark,
                            cursor_event_id,
                            artifact,
                        },
                    )
                }
            },
        }
    }
}

/// The text of a state, where it is not too long.
pub open spec fn active_text(state: Active) -> Result<Seq<char>, Seq<char>> {
    if byte_len(json_text(active_tree(state))) + 1 > MAX_ACTIVE_STATE_BYTES {
        Err("active graph state exceeds the size limit"@)
    } else {
        Ok(json_text(active_tree(state)))
    }
}

impl ActiveGraphState {
    /// The state that a tree gives.
    pub fn from_value(value: &Json) -> (r: Result<Self, ExtensionError>)
        ensures
            state_answers(r, active_of(value@)),
    {
        broadcast use crate::json::object_model;

        let o = match value {
            Json::Object(o) => o,
            _ => return Err(state_message("active graph state must be an object")),
        };
        let known = vec![
            "schema",
            "artifact_event_id",
            "artifact_sha256",
            "artifact_relative_path",
            "projection_watermark_event_id",
            "cursor_event_id",
            "artifact",
        ];
        assert(known.deep_view() =~= state_fields());
        let ghost rows = o.deep_view();
        let mut i: usize = 0;
        while i < o.len()
            invariant
                i <= o@.len(),
                rows == o.deep_view(),
                value@ == Tree::Object(rows),
                known.deep_view() == state_fields(),
                stray_field(rows, 0) == stray_field(rows, i as nat),
            decreases o@.len() - i,
        {
            assert(rows[i as int].0 == o@[i as int].0@);
            if !crate::inputs::among(&o[i].0, &known) {
                return Err(
                    ExtensionError::StateDirFailed(
                        join3("active graph state has unknown field `", &o[i].0, "`"),
                    ),
                );
            }
            i += 1;
        }
        match find(o, "schema") {
            Some(Json::Text(schema)) if same(schema, ACTIVE_STATE_SCHEMA) => {},
            _ => return Err(state_message("active graph state schema is unsupported")),
        }
        let artifact_event_id = bounded_id(find(o, "artifact_event_id"), "artifact event id")?;
        let artifact_sha256 = match find(o, "artifact_sha256") {
            Some(Json::Text(hash)) if valid_sha256(hash) => hash.clone(),
            _ => return Err(state_message("active graph state has an invalid artifact hash")),
        };
        let artifact_relative_path = parse_artifact_relative_path(
            find(o, "artifact_relative_path"),
        )?;
        let projection_watermark_event_id = bounded_id(
            find(o, "projection_watermark_event_id"),
            "projection watermark",
        )?;
        let cursor_event_id = bounded_id(find(o, "cursor_event_id"), "cursor")?;
        let artifact = match find(o, "artifact") {
            Some(artifact) => artifact,
            None => return Err(state_message("active graph state is missing its artifact")),
        };
        match artifact.text_at("schema") {
            Some(schema) if same(schema, SCHEMA_NAME) => {},
            _ => return Err(state_message("active graph artifact schema is unsupported")),
        }
        let policy = match artifact.get("construction") {
            Some(construction) => construction.text_at("policy"),
            None => None,
        };
        match policy {
            Some(policy) if same(policy, "manual") || same(policy, "rolling_only") || same(
                policy,
                "rolling_and_final",
            ) || same(policy, "final_only") => {},
            _ => {
                return Err(
                    state_message("active graph artifact has an invalid construction policy"),
                );
            },
        }
        let watermark = match artifact.get("projection") {
            Some(projection) => projection.text_at("watermark_event_id"),
            None => None,
        };
        match watermark {
            Some(watermark) if same(watermark, &projection_watermark_event_id) => {},
            _ => {
                return Err(
                    state_message("active graph state watermark does not match its artifact"),
                );
            },
        }
        Ok(
            ActiveGraphState {
                artifact_event_id,
                artifact_sha256,
                artifact_relative_path,
                projection_watermark_event_id,
                cursor_event_id,
                artifact: artifact.clone(),
            },
        )
    }

    /// The tree of the state.
    pub fn to_value(&self) -> (r: Json)
        ensures
            r@ == active_tree(self.deep_view()),
    {
        broadcast use crate::json::object_model;

        let rows = vec![
            ("artifact".to_owned(), self.artifact.clone()),
            ("artifact_event_id".to_owned(), Json::of_text(&self.artifact_event_id)),
            (
                "artifact_relative_path".to_owned(),
                Json::of_optional_text(&self.artifact_relative_path),
            ),
            ("artifact_sha256".to_owned(), Json::of_text(&self.artifact_sha256)),
            ("cursor_event_id".to_owned(), Json::of_text(&self.cursor_event_id)),
            (
                "projection_watermark_event_id".to_owned(),
                Json::of_text(&self.projection_watermark_event_id),
            ),
            ("schema".to_owned(), Json::of_text(ACTIVE_STATE_SCHEMA)),
        ];
        assert(rows.deep_view() =~= active_tree(self.deep_view())->Object_0);
        Json::Object(rows)
    }

    /// The state that a file holds, if it holds one: a file that cannot be read as a state
    /// stands for none, so that the next observation starts afresh.
    pub fn read(text: &str) -> (r: Option<Self>)
        ensures
            r.deep_view() == active_in(text@),
    {
        match read_json(text) {
            Ok(value) => match Self::from_value(&value) {
                Ok(state) => Some(state),
                Err(_) => None,
            },
            Err(_) => None,
        }
    }

    /// The text of the state for its file, which a line end follows there. A sound state is read
    /// back from it.
    pub fn write(&self) -> (r: Result<String, ExtensionError>)
        ensures
            state_answers(r, active_text(self.deep_view())),
            r matches Ok(text) ==> (sound(self.deep_view()) && canonical(
                self.deep_view().artifact,
                (MAX_DEPTH - 1) as nat,
            ) ==> active_in(text@) == Some(self.deep_view()) && active_in(text@.push('\n')) == Some(
                self.deep_view(),
            )),
    {
        let value = self.to_value();
        let text = write_json(&value);
        let n: usize = byte_count(&text);
        if n as u64 >= MAX_ACTIVE_STATE_BYTES {
            return Err(state_message("active graph state exceeds the size limit"));
        }
        proof {
            if sound(self.deep_view()) && canonical(
                self.deep_view().artifact,
                (MAX_DEPTH - 1) as nat,
            ) {
                lemma_tree_is_canonical(self.deep_view(), MAX_DEPTH as nat);
                state_is_read_back(self.deep_view());
                assert(reads_as(text@, value@));
                assert(reads_as(text@.push('\n'), value@));
            }
        }
        Ok(text)
    }

    /// The state that selects an artifact; without a cursor it is the artifact's watermark.
    pub fn commit(record: &ArtifactRecord, artifact: Json, cursor: &Option<String>) -> (r: Result<
        Self,
        ExtensionError,
    >)
        ensures
            state_answers(r, committed(record@, artifact@, cursor.deep_view())),
    {
        if !valid_bounded_id(&record.persisted_event_id) {
            return Err(state_message("active graph artifact record has an invalid event id"));
        }
        if !valid_sha256(&record.sha256) {
            return Err(state_message("active graph artifact record has an invalid hash"));
        }
        let found = match artifact.get("projection") {
            Some(projection) => projection.text_at("watermark_event_id"),
            None => None,
        };
        let projection_watermark_event_id = match found {
            Some(watermark) => watermark.clone(),
            None => return Err(state_message("active graph artifact has no watermark")),
        };
        let cursor_event_id = match cursor {
            Some(cursor) => cursor.clone(),
            None => projection_watermark_event_id.clone(),
        };
        if !valid_bounded_id(&cursor_event_id) {
            return Err(state_message("active graph cursor is invalid"));
        }
        Ok(
            ActiveGraphState {
                artifact_event_id: record.persisted_event_id.clone(),
                artifact_sha256: record.sha256.clone(),
                artifact_relative_path: Some(record.relative_path.clone()),
                projection_watermark_event_id,
                cursor_event_id,
                artifact,
            },
        )
    }

    /// The state with its cursor moved.
    pub fn advance_cursor(&self, cursor_event_id: &str) -> (r: Result<Self, ExtensionError>)
        ensures
            state_answers(
                r,
                if bounded_id_form(cursor_event_id@) {
                    Ok(Active { cursor_event_id: cursor_event_id@, ..self.deep_view() })
                } else {
                    Err("active graph cursor is invalid"@)
                },
            ),
    {
        if !valid_bounded_id(cursor_event_id) {
            return Err(state_message("active graph cursor is invalid"));
        }
        Ok(
            ActiveGraphState {
                artifact_event_id: self.artifact_event_id.clone(),
                artifact_sha256: self.artifact_sha256.clone(),
                artifact_relative_path: self.artifact_relative_path.clone(),
                projection_watermark_event_id: self.projection_watermark_event_id.clone(),
                cursor_event_id: cursor_event_id.to_owned(),
                artifact: self.artifact.clone(),
            },
        )
    }

    pub fn artifact_event_id(&self) -> (r: &str)
        ensures
            r@ == self.deep_view().artifact_event_id,
    {
        &self.artifact_event_id
    }

    pub fn artifact_sha256(&self) -> (r: &str)
        ensures
            r@ == self.deep_view().artifact_sha256,
    {
        &self.artifact_sha256
    }

    pub fn artifact_relative_path(&self) -> (r: &Option<String>)
        ensures
            r.deep_view() == self.deep_view().artifact_relative_path,
    {
        &self.artifact_relative_path
    }

    pub fn watermark_event_id(&self) -> (r: &str)
        ensures
            r@ == self.deep_view().projection_watermark_event_id,
    {
        &self.projection_watermark_event_id
    }

    pub fn cursor_event_id(&self) -> (r: &str)
        ensures
            r@ == self.deep_view().cursor_event_id,
    {
        &self.cursor_event_id
    }

    pub fn artifact(&self) -> (r: &Json)
        ensures
            r@ == self.deep_view().artifact,
    {
        &self.artifact
    }

    /// The policy by which the selected graph was made.
    pub fn policy(&self) -> (r: Option<&String>)
        ensures
            r.deep_view() == policy_in(self.deep_view().artifact),
    {
        match self.artifact.get("construction") {
            Some(construction) => construction.text_at("policy"),
            None => None,
        }
    }
}

/// The state that a text holds, if it holds one.
pub open spec fn active_in(text: Seq<char>) -> Option<Active> {
    match json_of_text(text) {
        Err(_) => None,
        Ok(tree) => match active_of(tree) {
            Ok(state) => Some(state),
            Err(_) => None,
        },
    }
}

proof fn lemma_tree_is_canonical(state: Active, depth: nat)
    requires
        depth > 0,
        canonical(state.artifact, (depth - 1) as nat),
    ensures
        canonical(active_tree(state), depth),
{
    let o = active_tree(state)->Object_0;
    lemma_rows_found(state);
    assert forall|i: int| 0 <= i < o.len() implies canonical(
        (#[trigger] o[i]).1,
        (depth - 1) as nat,
    ) by {
        if i == 0 {
            assert(o[i].1 == state.artifact);
        }
    }
}

proof fn lemma_rows_found(state: Active)
    ensures
        ascending(active_tree(state)->Object_0),
        ({
            let o = active_tree(state)->Object_0;
            &&& member(o, "artifact"@) == Some(state.artifact)
            &&& member(o, "artifact_event_id"@) == Some(Tree::Text(state.artifact_event_id))
            &&& member(o, "artifact_relative_path"@) == Some(
                optional_text(state.artifact_relative_path),
            )
            &&& member(o, "artifact_sha256"@) == Some(Tree::Text(state.artifact_sha256))
            &&& member(o, "cursor_event_id"@) == Some(Tree::Text(state.cursor_event_id))
            &&& member(o, "projection_watermark_event_id"@) == Some(
                Tree::Text(state.projection_watermark_event_id),
            )
            &&& member(o, "schema"@) == Some(Tree::Text(ACTIVE_STATE_SCHEMA@))
        }),
{
    let o = active_tree(state)->Object_0;
    reveal_strlit("artifact");
    reveal_strlit("artifact_event_id");
    reveal_strlit("artifact_relative_path");
    reveal_strlit("artifact_sha256");
    reveal_strlit("cursor_event_id");
    reveal_strlit("projection_watermark_event_id");
    reveal_strlit("schema");
    crate::text::lemma_before_at("artifact"@, "artifact_event_id"@, 8);
    crate::text::lemma_before_at("artifact_event_id"@, "artifact_relative_path"@, 9);
    crate::text::lemma_before_at("artifact_relative_path"@, "artifact_sha256"@, 9);
    crate::text::lemma_before_at("artifact_sha256"@, "cursor_event_id"@, 0);
    crate::text::lemma_before_at("cursor_event_id"@, "projection_watermark_event_id"@, 0);
    crate::text::lemma_before_at("projection_watermark_event_id"@, "schema"@, 0);
    crate::table::lemma_ascending_by_steps(o);
    crate::table::lemma_row_is_found(o, 0);
    crate::table::lemma_row_is_found(o, 1);
    crate::table::lemma_row_is_found(o, 2);
    crate::table::lemma_row_is_found(o, 3);
    crate::table::lemma_row_is_found(o, 4);
    crate::table::lemma_row_is_found(o, 5);
    crate::table::lemma_row_is_found(o, 6);
}

/// A sound state is what its tree gives back.
pub proof fn state_is_read_back(state: Active)
    requires
        sound(state),
    ensures
        active_of(active_tree(state)) == Ok::<Active, Seq<char>>(state),
{
    let o = active_tree(state)->Object_0;
    lemma_rows_found(state);
    let f = state_fields();
    assert(f[0] == "schema"@ && f[1] == "artifact_event_id"@ && f[2] == "artifact_sha256"@ && f[3]
        == "artifact_relative_path"@ && f[4] == "projection_watermark_event_id"@ && f[5]
        == "cursor_event_id"@ && f[6] == "artifact"@);
    assert(o[0].0 == f[6] && o[1].0 == f[1] && o[2].0 == f[3] && o[3].0 == f[2] && o[4].0 == f[5]
        && o[5].0 == f[4] && o[6].0 == f[0]);
    assert(stray_field(o, 0) is None) by {
        reveal_with_fuel(stray_field, 8);
    }
}

/// What is read of a tree is sound.
pub proof fn states_that_are_read_are_sound(value: Tree)
    requires
        active_of(value) is Ok,
    ensures
        sound(active_of(value)->Ok_0),
{
}

/// Moving the cursor of a sound state keeps it sound.
pub proof fn moved_states_are_sound(state: Active, cursor: Seq<char>)
    requires
        sound(state),
        bounded_id_form(cursor),
    ensures
        sound(Active { cursor_event_id: cursor, ..state }),
{
}

/// A state that selects a graph artifact with a well-formed watermark and path is sound.
pub proof fn committed_states_are_sound(record: Stored, artifact: Tree, cursor: Option<Seq<char>>)
    requires
        committed(record, artifact, cursor) is Ok,
        path_form(record.relative_path),
        bounded_id_form(watermark_in(artifact)->0),
        artifact.text_at("schema"@) == Some(SCHEMA_NAME@),
        policy_in(artifact) is Some,
        is_policy(policy_in(artifact)->0),
    ensures
        sound(committed(record, artifact, cursor)->Ok_0),
{
}

/// What stands where the file of a state is looked for.
#[derive(Clone, Copy, Debug, PartialEq, Eq, Structural)]
pub enum StateFile {
    Missing,
    Irregular,
    Oversize,
    Readable,
}

/// What stands where the file of a state is looked for.
pub fn state_file(found: bool, regular: bool, len: u64, max: u64) -> (r: StateFile)
    ensures
        r == (if !found {
            StateFile::Missing
        } else if !regular {
            StateFile::Irregular
        } else if len > max {
            StateFile::Oversize
        } else {
            StateFile::Readable
        }),
{
    if !found {
        StateFile::Missing
    } else if !regular {
        StateFile::Irregular
    } else if len > max {
        StateFile::Oversize
    } else {
        StateFile::Readable
    }
}

/// Whether a graph is selected, so that the research record cannot be enabled: a file that the
/// loader would refuse selects none.
pub fn blocks_research_enable(file: StateFile, text: &str) -> (r: bool)
    ensures
        r == (file == StateFile::Readable && active_in(text@) is Some),
{
    match file {
        StateFile::Readable => match ActiveGraphState::read(text) {
            Some(_) => true,
            None => false,
        },
        _ => false,
    }
}

/// What loading the state comes to: a file that is no plain file or is too long is refused.
pub fn load(file: StateFile, text: &str) -> (r: Result<Option<ActiveGraphState>, ExtensionError>)
    ensures
        state_answers(
            r,
            match file {
                StateFile::Missing => Ok(None),
                StateFile::Irregular => Err("active graph state is not a regular file"@),
                StateFile::Oversize => Err("active graph state exceeds the size limit"@),
                StateFile::Readable => Ok(active_in(text@)),
            },
        ),
{
    match file {
        StateFile::Missing => Ok(None),
        StateFile::Irregular => Err(state_message("active graph state is not a regular file")),
        StateFile::Oversize => Err(state_message("active graph state exceeds the size limit")),
        StateFile::Readable => Ok(ActiveGraphState::read(text)),
    }
}

/// A committed state selects the artifact that was written, with all that was written of it; it
/// has seen as far as it was told, or as far as the artifact has.
pub proof fn commits_select_what_was_written(
    record: Stored,
    artifact: Tree,
    cursor: Option<Seq<char>>,
)
    ensures
        committed(record, artifact, cursor) matches Ok(state) ==> {
            &&& state.artifact == artifact
            &&& state.artifact_event_id == record.persisted_event_id
            &&& state.artifact_sha256 == record.sha256
            &&& state.artifact_relative_path == Some(record.relative_path)
            &&& artifact.at("projection"@).text_at("watermark_event_id"@) == Some(
                state.projection_watermark_event_id,
            )
            &&& cursor is Some ==> cursor == Some(state.cursor_event_id)
            &&& cursor is None ==> state.cursor_event_id == state.projection_watermark_event_id
        },
{
}

/// A state is of the graph that it names: in the form that is known, made under one of four
/// policies, and as of the watermark that the state gives.
pub proof fn states_name_their_graphs(value: Tree)
    ensures
        active_of(value) matches Ok(state) ==> {
            let policy = state.artifact.at("construction"@).text_at("policy"@);
            &&& value.text_at("schema"@) == Some("euler.causal_dag.active.v3"@)
            &&& value.text_at("artifact_event_id"@) == Some(state.artifact_event_id)
            &&& value.text_at("artifact_sha256"@) == Some(state.artifact_sha256)
            &&& value.text_at("cursor_event_id"@) == Some(state.cursor_event_id)
            &&& value.text_at("projection_watermark_event_id"@) == Some(
                state.projection_watermark_event_id,
            )
            &&& value.text_at("artifact_relative_path"@) == state.artifact_relative_path
            &&& value.at("artifact"@) == state.artifact
            &&& state.artifact.text_at("schema"@) == Some("euler.causal_dag.v3"@)
            &&& policy == Some("manual"@) || policy == Some("rolling_only"@) || policy == Some(
                "rolling_and_final"@,
            ) || policy == Some("final_only"@)
            &&& state.artifact.at("projection"@).text_at("watermark_event_id"@) == Some(
                state.projection_watermark_event_id,
            )
        },
{
}

} // verus!
