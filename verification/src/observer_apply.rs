//! The apply half of a round of observation: what the observer said, folded into the graph.

use crate::aliases::{
    aliases_of, parse_aliases, resolve_aliases, resolved, Aliases, Meanings,
};
use crate::export::graph::is_alphanumeric;
use crate::inputs::{reject_unknown_fields, unknown_field};
use crate::json::{
    find_text, json_of_text, optional_text, read_json, text_member, Json, Members, Tree,
};
use crate::observe::{
    observe_of_fields, ObservationCommit, Observe, ObserveInput, OBSERVER_HINT_MAX_BYTES,
};
use crate::projection::hints::{hint_header_fault, validate_semantic_hint_value_header};
use crate::projection::sources::{drop_row, with_field, with_member, without};
use crate::sdk::{answers, fault, input_error, passes, ExtensionError};
use crate::table::{find, has_row, member, put, put_row};
use crate::text::{
    byte_count, byte_len, chars_of, join2, join3, prefix, prefix_text, slice_text, trim, trimmed,
};
use vstd::prelude::*;

verus! {

/// The most characters of an observer's error that are repeated.
pub const COMPANION_ERROR_ECHO_MAX_CHARS: usize = 240;

/// Whether `char::is_alphanumeric` holds of a character.
pub uninterp spec fn unicode_alphanumeric(c: char) -> bool;

/// `char::is_alphanumeric`: whether the character is alphabetic or numeric in Unicode. Of the
/// ASCII characters these are the letters and the digits.
#[verifier::external_body]
fn is_unicode_alphanumeric(c: char) -> (r: bool)
    ensures
        r == unicode_alphanumeric(c),
        (c as u32) < 0x80 ==> r == is_alphanumeric(c),
{
    c.is_alphanumeric()
}

/// The position of the first line end, from `i` on.
pub open spec fn line_end(s: Seq<char>, i: nat) -> Option<int>
    decreases s.len() - i,
{
    if i >= s.len() {
        None
    } else if s[i as int] == '\n' {
        Some(i as int)
    } else {
        line_end(s, i + 1)
    }
}

/// Whether a text starts and ends with a fence of three back quotes.
pub open spec fn fenced(s: Seq<char>) -> bool {
    &&& s.len() >= 6
    &&& s[0] == '`' && s[1] == '`' && s[2] == '`'
    &&& s[s.len() - 1] == '`' && s[s.len() - 2] == '`' && s[s.len() - 3] == '`'
}

/// Whether all characters are alphanumeric.
pub open spec fn one_word(s: Seq<char>) -> bool {
    forall|i: int| 0 <= i < s.len() ==> unicode_alphanumeric(#[trigger] s[i])
}

/// A text without the one fence around it, where the line that opens it holds at most one word.
pub open spec fn unfenced(s: Seq<char>) -> Seq<char> {
    if !fenced(s) {
        s
    } else {
        let body = s.subrange(3, s.len() - 3);
        match line_end(body, 0) {
            None => s,
            Some(k) => if one_word(trimmed(body.take(k))) {
                trimmed(body.skip(k + 1))
            } else {
                s
            },
        }
    }
}

fn is_one_word(s: &str) -> (r: bool)
    ensures
        r == one_word(s@),
{
    let v = chars_of(s);
    let mut i: usize = 0;
    while i < v.len()
        invariant
            v@ == s@,
            i <= v@.len(),
            forall|j: int| 0 <= j < i ==> unicode_alphanumeric(#[trigger] v@[j]),
        decreases v@.len() - i,
    {
        if !is_unicode_alphanumeric(v[i]) {
            return false;
        }
        i += 1;
    }
    true
}

/// The text without the one fence around it.
pub fn strip_json_fence(text: &str) -> (r: String)
    ensures
        r@ == unfenced(text@),
{
    let v = chars_of(text);
    let n: usize = v.len();
    if n < 6 || v[0] != '`' || v[1] != '`' || v[2] != '`' || v[n - 1] != '`' || v[n - 2] != '`'
        || v[n - 3] != '`' {
        return text.to_owned();
    }
    let ghost body = v@.subrange(3, n - 3);
    let mut k: usize = 3;
    while k < n - 3 && v[k] != '\n'
        invariant
            3 <= k <= n - 3,
            n == v@.len(),
            body == v@.subrange(3, n - 3),
            line_end(body, 0) == line_end(body, (k - 3) as nat),
        decreases n - k,
    {
        assert(body[k - 3] == v@[k as int]);
        k += 1;
    }
    if k == n - 3 {
        return text.to_owned();
    }
    assert(body[k - 3] == v@[k as int]);
    assert(line_end(body, 0) == Some(k - 3));
    assert(v@.subrange(3, k as int) =~= body.take(k - 3));
    assert(v@.subrange(k + 1, n - 3) =~= body.skip(k - 3 + 1));
    if is_one_word(&trim(&slice_text(&v, 3, k))) {
        trim(&slice_text(&v, k + 1, n - 3))
    } else {
        text.to_owned()
    }
}

/// What is wrong with the tree that an observer returned.
pub open spec fn returned_fault(hints: Tree) -> Option<Seq<char>> {
    match hints {
        Tree::Object(o) => if o.len() == 1 && member(o, "causal_dag"@) is Some {
            Some(
                "causal-dag observer-apply companion output must be the raw hints object, not wrapped in `causal_dag`"@,
            )
        } else {
            hint_header_fault(hints)
        },
        _ => Some("causal-dag observer-apply companion output must be a JSON object"@),
    }
}

/// Checks the tree that an observer returned.
pub fn check_returned(hints: &Json) -> (r: Result<(), ExtensionError>)
    ensures
        passes(r, returned_fault(hints@)),
{
    broadcast use crate::json::object_model;

    match hints {
        Json::Object(o) => {
            assert(o.deep_view().len() == o@.len());
            if o.len() == 1 && has_row(o, "causal_dag") {
                return Err(
                    input_error(
                        "causal-dag observer-apply companion output must be the raw hints object, not wrapped in `causal_dag`",
                    ),
                );
            }
            validate_semantic_hint_value_header(hints)
        },
        _ => Err(
            input_error("causal-dag observer-apply companion output must be a JSON object"),
        ),
    }
}

/// The hints that an observer's output holds.
pub open spec fn hints_in(output: Seq<char>) -> Result<Tree, Seq<char>> {
    let text = unfenced(trimmed(output));
    if byte_len(text) > OBSERVER_HINT_MAX_BYTES {
        Err("causal-dag observer-apply companion output exceeds 65536 bytes"@)
    } else {
        match json_of_text(text) {
            Err(message) => Err(
                "causal-dag observer-apply companion output is not JSON: "@ + message,
            ),
            Ok(hints) => match returned_fault(hints) {
                Some(e) => Err(e),
                None => Ok(hints),
            },
        }
    }
}

pub fn parse_hints_output(output: &str) -> (r: Result<Json, ExtensionError>)
    ensures
        answers(r, hints_in(output@)),
{
    let text = strip_json_fence(&trim(output));
    if byte_count(&text) > OBSERVER_HINT_MAX_BYTES {
        return Err(
            input_error("causal-dag observer-apply companion output exceeds 65536 bytes"),
        );
    }
    match read_json(&text) {
        Err(message) => Err(
            fault(
                join2("causal-dag observer-apply companion output is not JSON: ", &message),
            ),
        ),
        Ok(hints) => {
            check_returned(&hints)?;
            Ok(hints)
        },
    }
}

/// What went wrong with an observer, in its own words.
pub open spec fn companion_error(o: Seq<(Seq<char>, Tree)>) -> Seq<char> {
    match text_member(o, "error"@) {
        Some(error) => error,
        None => match text_member(o, "summary"@) {
            Some(summary) => summary,
            None => "no error reported"@,
        },
    }
}

/// The output of an observer.
pub open spec fn companion_output(o: Seq<(Seq<char>, Tree)>) -> Result<Seq<char>, Seq<char>> {
    match member(o, "ok"@) {
        Some(Tree::Bool(true)) => match text_member(o, "output"@) {
            None => Err("causal-dag observer-apply companion produced no text output"@),
            Some(output) => Ok(output),
        },
        Some(Tree::Bool(false)) => Err(
            "causal-dag observer-apply companion failed: "@ + prefix(
                companion_error(o),
                COMPANION_ERROR_ECHO_MAX_CHARS as nat,
            ),
        ),
        _ => Err("causal-dag observer-apply companion is missing `ok`"@),
    }
}

fn read_companion_output(o: &Members) -> (r: Result<String, ExtensionError>)
    ensures
        answers(r, companion_output(o.deep_view())),
{
    let ok = match find(o, "ok") {
        Some(Json::Bool(ok)) => *ok,
        _ => {
            return Err(input_error("causal-dag observer-apply companion is missing `ok`"));
        },
    };
    if !ok {
        let error = match find_text(o, "error") {
            Some(error) => error.clone(),
            None => match find_text(o, "summary") {
                Some(summary) => summary.clone(),
                None => "no error reported".to_owned(),
            },
        };
        return Err(
            fault(
                join2(
                    "causal-dag observer-apply companion failed: ",
                    &prefix_text(&error, COMPANION_ERROR_ECHO_MAX_CHARS),
                ),
            ),
        );
    }
    match find_text(o, "output") {
        Some(output) => Ok(output.clone()),
        None => Err(
            input_error("causal-dag observer-apply companion produced no text output"),
        ),
    }
}

/// The hints of an observer.
pub open spec fn companion_hints_of(o: Seq<(Seq<char>, Tree)>) -> Result<Tree, Seq<char>> {
    match companion_output(o) {
        Err(e) => Err(e),
        Ok(output) => hints_in(output),
    }
}

fn companion_hints(o: &Members) -> (r: Result<Json, ExtensionError>)
    ensures
        answers(r, companion_hints_of(o.deep_view())),
{
    let output = read_companion_output(o)?;
    parse_hints_output(&output)
}

/// Which agent run an observation comes of.
#[derive(Debug, PartialEq, Eq)]
pub struct CompanionAttribution {
    pub child_agent_id: Option<String>,
    pub spawn_event_id: Option<String>,
    pub result_event_id: Option<String>,
}

/// What a [`CompanionAttribution`] holds.
#[verifier::ext_equal]
pub struct Companion {
    pub child_agent_id: Option<Seq<char>>,
    pub spawn_event_id: Option<Seq<char>>,
    pub result_event_id: Option<Seq<char>>,
}

impl DeepView for CompanionAttribution {
    type V = Companion;

    open spec fn deep_view(&self) -> Companion {
        Companion {
            child_agent_id: self.child_agent_id.deep_view(),
            spawn_event_id: self.spawn_event_id.deep_view(),
            result_event_id: self.result_event_id.deep_view(),
        }
    }
}

/// Which agent run the members of an observer name.
pub open spec fn companion_of(o: Seq<(Seq<char>, Tree)>) -> Companion {
    Companion {
        child_agent_id: text_member(o, "child_agent_id"@),
        spawn_event_id: text_member(o, "spawn_event_id"@),
        result_event_id: text_member(o, "result_event_id"@),
    }
}

fn copy_text(o: &Members, name: &str) -> (r: Option<String>)
    ensures
        r.deep_view() == text_member(o.deep_view(), name@),
{
    match find_text(o, name) {
        Some(text) => Some(text.clone()),
        None => None,
    }
}

impl CompanionAttribution {
    pub fn from_payload(companion: &Members) -> (r: Self)
        ensures
            r.deep_view() == companion_of(companion.deep_view()),
    {
        CompanionAttribution {
            child_agent_id: copy_text(companion, "child_agent_id"),
            spawn_event_id: copy_text(companion, "spawn_event_id"),
            result_event_id: copy_text(companion, "result_event_id"),
        }
    }
}

/// A text of one to 128 bytes, or none.
pub open spec fn short_text(o: Seq<(Seq<char>, Tree)>, key: Seq<char>) -> Result<
    Option<Seq<char>>,
    Seq<char>,
> {
    match member(o, key) {
        None => Ok(None),
        Some(Tree::Null) => Ok(None),
        Some(Tree::Text(text)) => if text.len() > 0 && byte_len(text) <= 128 {
            Ok(Some(text))
        } else {
            Err(not_short(key))
        },
        Some(_) => Err(not_short(key)),
    }
}

/// What is said of a text that is empty or too long.
pub open spec fn not_short(key: Seq<char>) -> Seq<char> {
    "causal-dag observer-apply `"@ + key + "` must be a bounded non-empty string or null"@
}

fn optional_apply_string(o: &Members, key: &str) -> (r: Result<Option<String>, ExtensionError>)
    ensures
        answers(r, short_text(o.deep_view(), key@)),
{
    match find(o, key) {
        None => return Ok(None),
        Some(Json::Null) => return Ok(None),
        Some(Json::Text(text)) => {
            if !text.as_str().is_empty() && byte_count(text) <= 128 {
                return Ok(Some(text.clone()));
            }
        },
        Some(_) => {},
    }
    Err(
        fault(
            join3(
                "causal-dag observer-apply `",
                key,
                "` must be a bounded non-empty string or null",
            ),
        ),
    )
}

/// What the apply command is asked for.
pub struct ObserverApplyInput {
    pub observe: ObserveInput,
    pub companion: CompanionAttribution,
    pub expected_predecessor_artifact_event_id: Option<String>,
}

/// What an [`ObserverApplyInput`] holds.
#[verifier::ext_equal]
pub struct Apply {
    pub observe: Observe,
    pub companion: Companion,
    pub expected_predecessor_artifact_event_id: Option<Seq<char>>,
}

impl DeepView for ObserverApplyInput {
    type V = Apply;

    open spec fn deep_view(&self) -> Apply {
        Apply {
            observe: self.observe.deep_view(),
            companion: self.companion.deep_view(),
            expected_predecessor_artifact_event_id: self.expected_predecessor_artifact_event_id.deep_view(),
        }
    }
}

/// The fields of an observation, made of those that were handed on and the observer's hints.
pub open spec fn observe_rows(apply: Seq<(Seq<char>, Tree)>, hints: Tree) -> Seq<
    (Seq<char>, Tree),
> {
    put(
        without(
            without(
                without(
                    without(apply, "expected_predecessor_artifact_event_id"@),
                    "source_aliases"@,
                ),
                "node_aliases"@,
            ),
            "edge_aliases"@,
        ),
        "causal_dag"@,
        hints,
    )
}

/// The aliases that were handed on.
pub open spec fn handed_aliases(apply: Seq<(Seq<char>, Tree)>) -> Result<Meanings, Seq<char>> {
    match aliases_of(member(apply, "source_aliases"@), "source_aliases"@, seq!['e', 's']) {
        Err(e) => Err(e),
        Ok(sources) => match aliases_of(
            member(apply, "node_aliases"@),
            "node_aliases"@,
            seq!['n'],
        ) {
            Err(e) => Err(e),
            Ok(nodes) => match aliases_of(
                member(apply, "edge_aliases"@),
                "edge_aliases"@,
                seq!['v'],
            ) {
                Err(e) => Err(e),
                Ok(edges) => Ok(Meanings { sources, nodes, edges }),
            },
        },
    }
}

/// What the apply command is asked for, once the observer's hints are read.
pub open spec fn apply_with(
    apply: Seq<(Seq<char>, Tree)>,
    companion: Seq<(Seq<char>, Tree)>,
    hints: Tree,
) -> Result<Apply, Seq<char>> {
    match handed_aliases(apply) {
        Err(e) => Err(e),
        Ok(aliases) => match short_text(apply, "expected_predecessor_artifact_event_id"@) {
            Err(e) => Err(e),
            Ok(expected) => match observe_of_fields(
                observe_rows(apply, resolved(hints, aliases)),
            ) {
                Err(e) => Err(e),
                Ok(observe) => Ok(
                    Apply {
                        observe,
                        companion: companion_of(companion),
                        expected_predecessor_artifact_event_id: expected,
                    },
                ),
            },
        },
    }
}

/// The two parts of the input of the apply command.
pub open spec fn apply_parts(value: Tree) -> Result<
    (Seq<(Seq<char>, Tree)>, Seq<(Seq<char>, Tree)>),
    Seq<char>,
> {
    match value {
        Tree::Object(o) => match unknown_field(o, seq!["apply"@, "companion"@], 0) {
            Some(e) => Err(e),
            None => match member(o, "apply"@) {
                None => Err("causal-dag observer-apply input missing `apply`"@),
                Some(Tree::Object(apply)) => if member(apply, "causal_dag"@) is Some {
                    Err(
                        "causal-dag observer-apply `apply` must not carry `causal_dag`; hints come from the companion output"@,
                    )
                } else {
                    match member(o, "companion"@) {
                        None => Err("causal-dag observer-apply input missing `companion`"@),
                        Some(Tree::Object(companion)) => Ok((apply, companion)),
                        Some(_) => Err(
                            "causal-dag observer-apply `companion` must be a JSON object"@,
                        ),
                    }
                },
                Some(_) => Err(
                    "causal-dag observer-apply `apply` must be the observer-brief apply object"@,
                ),
            },
        },
        _ => Err("causal-dag observer-apply input must be a JSON object"@),
    }
}

/// The input of the apply command.
pub open spec fn apply_of(value: Tree) -> Result<Apply, Seq<char>> {
    match apply_parts(value) {
        Err(e) => Err(e),
        Ok((apply, companion)) => match companion_hints_of(companion) {
            Err(e) => Err(e),
            Ok(hints) => apply_with(apply, companion, hints),
        },
    }
}

/// What the apply command is asked for, by the hints of the observer.
pub fn apply_input(apply: &Members, companion: &Members, hints: &Json) -> (r: Result<
    ObserverApplyInput,
    ExtensionError,
>)
    ensures
        answers(r, apply_with(apply.deep_view(), companion.deep_view(), hints@)),
{
    let of_sources = vec!['e', 's'];
    let of_nodes = vec!['n'];
    let of_edges = vec!['v'];
    assert(of_sources@ =~= seq!['e', 's']);
    assert(of_nodes@ =~= seq!['n']);
    assert(of_edges@ =~= seq!['v']);
    let sources = parse_aliases(find(apply, "source_aliases"), "source_aliases", &of_sources)?;
    let nodes = parse_aliases(find(apply, "node_aliases"), "node_aliases", &of_nodes)?;
    let edges = parse_aliases(find(apply, "edge_aliases"), "edge_aliases", &of_edges)?;
    let aliases = Aliases { sources, nodes, edges };
    let hints = resolve_aliases(hints, &aliases);
    let expected = optional_apply_string(apply, "expected_predecessor_artifact_event_id")?;
    let rows = drop_row(apply, "expected_predecessor_artifact_event_id");
    let rows = drop_row(&rows, "source_aliases");
    let rows = drop_row(&rows, "node_aliases");
    let mut rows = drop_row(&rows, "edge_aliases");
    put_row(&mut rows, "causal_dag", hints);
    let observe = ObserveInput::parse_fields(&rows)?;
    Ok(
        ObserverApplyInput {
            observe,
            companion: CompanionAttribution::from_payload(companion),
            expected_predecessor_artifact_event_id: expected,
        },
    )
}

impl ObserverApplyInput {
    pub fn parse(value: &Json) -> (r: Result<Self, ExtensionError>)
        ensures
            answers(r, apply_of(value@)),
    {
        broadcast use crate::json::object_model;

        let o = match value {
            Json::Object(o) => o,
            _ => {
                return Err(input_error("causal-dag observer-apply input must be a JSON object"));
            },
        };
        let allowed = vec!["apply", "companion"];
        assert(allowed.deep_view() =~= seq!["apply"@, "companion"@]);
        reject_unknown_fields(o, &allowed)?;
        let apply = match find(o, "apply") {
            None => {
                return Err(input_error("causal-dag observer-apply input missing `apply`"));
            },
            Some(Json::Object(apply)) => apply,
            Some(_) => {
                return Err(
                    input_error(
                        "causal-dag observer-apply `apply` must be the observer-brief apply object",
                    ),
                );
            },
        };
        if has_row(apply, "causal_dag") {
            return Err(
                input_error(
                    "causal-dag observer-apply `apply` must not carry `causal_dag`; hints come from the companion output",
                ),
            );
        }
        let companion = match find(o, "companion") {
            None => {
                return Err(input_error("causal-dag observer-apply input missing `companion`"));
            },
            Some(Json::Object(companion)) => companion,
            Some(_) => {
                return Err(
                    input_error("causal-dag observer-apply `companion` must be a JSON object"),
                );
            },
        };
        let hints = companion_hints(companion)?;
        apply_input(apply, companion, &hints)
    }

    /// On what the observation is committed.
    pub fn commit(&self) -> (r: Result<ObservationCommit, ExtensionError>)
        ensures
            match self.deep_view().companion.result_event_id {
                None => r matches Err(e) && e is Message && e->Message_0@
                    == "causal-dag observer-apply companion is missing `result_event_id`"@,
                Some(result) => r matches Ok(commit) && commit.deep_view()
                    == (crate::observe::Commit::Rolling {
                    expected: self.deep_view().expected_predecessor_artifact_event_id,
                    result,
                }),
            },
    {
        match &self.companion.result_event_id {
            None => Err(
                input_error("causal-dag observer-apply companion is missing `result_event_id`"),
            ),
            Some(result) => Ok(
                ObservationCommit::Rolling {
                    expected_predecessor_artifact_event_id: self.expected_predecessor_artifact_event_id.clone(),
                    observer_result_event_id: result.clone(),
                },
            ),
        }
    }
}

/// Which agent run an observation comes of, as a tree.
pub open spec fn companion_tree(companion: Companion) -> Tree {
    Tree::Object(
        seq![
            ("child_agent_id"@, optional_text(companion.child_agent_id)),
            ("result_event_id"@, optional_text(companion.result_event_id)),
            ("spawn_event_id"@, optional_text(companion.spawn_event_id)),
        ],
    )
}

/// The output with the agent run that the observation comes of.
pub fn with_companion_attribution(output: &Json, companion: &CompanionAttribution) -> (r: Json)
    requires
        output@ is Object,
    ensures
        r@ == with_member(output@, "companion"@, companion_tree(companion.deep_view())),
{
    broadcast use crate::json::object_model;

    let rows = vec![
        ("child_agent_id".to_owned(), Json::of_optional_text(&companion.child_agent_id)),
        ("result_event_id".to_owned(), Json::of_optional_text(&companion.result_event_id)),
        ("spawn_event_id".to_owned(), Json::of_optional_text(&companion.spawn_event_id)),
    ];
    assert(rows.deep_view() =~= companion_tree(companion.deep_view())->Object_0);
    with_field(output, "companion", Json::Object(rows))
}

/// A failed observer is never turned into a graph: its input is refused, whatever else it holds.
pub proof fn failed_observers_are_refused(value: Tree)
    requires
        apply_parts(value) is Ok,
        member(apply_parts(value)->Ok_0.1, "ok"@) != Some(Tree::Bool(true)),
    ensures
        apply_of(value) is Err,
{
}

/// Hints are taken only from an observer that says it succeeded and gave a text. What a failed
/// one gave is echoed, up to a bound, from its error, else its summary. The observer is named as
/// the envelope names it.
pub proof fn hints_come_from_observers_that_succeeded(o: Seq<(Seq<char>, Tree)>)
    ensures
        companion_output(o) is Ok <==> member(o, "ok"@) == Some(Tree::Bool(true)) && text_member(
            o,
            "output"@,
        ) is Some,
        companion_output(o) is Ok ==> companion_output(o)->Ok_0 == text_member(o, "output"@)->0,
        member(o, "ok"@) == Some(Tree::Bool(false)) ==> companion_output(o) == Err::<
            Seq<char>,
            Seq<char>,
        >(
            "causal-dag observer-apply companion failed: "@ + prefix(
                if text_member(o, "error"@) is Some {
                    text_member(o, "error"@)->0
                } else if text_member(o, "summary"@) is Some {
                    text_member(o, "summary"@)->0
                } else {
                    "no error reported"@
                },
                240,
            ),
        ),
        companion_of(o).child_agent_id == text_member(o, "child_agent_id"@),
        companion_of(o).spawn_event_id == text_member(o, "spawn_event_id"@),
        companion_of(o).result_event_id == text_member(o, "result_event_id"@),
{
}

/// Where an envelope is taken, its hints are those of the observer, read by the aliases that the
/// brief handed out, and it names the observer and the artifact that it was told of.
pub proof fn envelopes_are_read_as_handed_out(value: Tree)
    requires
        apply_of(value) is Ok,
    ensures
        ({
            let got = apply_of(value)->Ok_0;
            let apply = value.at("apply"@)->Object_0;
            let companion = value.at("companion"@)->Object_0;
            &&& value.at("apply"@) is Object && value.at("companion"@) is Object
            &&& member(apply, "causal_dag"@) is None
            &&& member(companion, "ok"@) == Some(Tree::Bool(true))
            &&& hints_in(text_member(companion, "output"@)->0) is Ok
            &&& got.companion.result_event_id == text_member(companion, "result_event_id"@)
            &&& got.companion.spawn_event_id == text_member(companion, "spawn_event_id"@)
            &&& got.companion.child_agent_id == text_member(companion, "child_agent_id"@)
            &&& got.expected_predecessor_artifact_event_id == text_member(
                apply,
                "expected_predecessor_artifact_event_id"@,
            )
            &&& got.observe.hints == resolved(
                hints_in(text_member(companion, "output"@)->0)->Ok_0,
                handed_aliases(apply)->Ok_0,
            )
        }),
{
    let apply = value.at("apply"@)->Object_0;
    let companion = value.at("companion"@)->Object_0;
    let hints = resolved(
        hints_in(text_member(companion, "output"@)->0)->Ok_0,
        handed_aliases(apply)->Ok_0,
    );
    let kept = without(
        without(
            without(
                without(apply, "expected_predecessor_artifact_event_id"@),
                "source_aliases"@,
            ),
            "node_aliases"@,
        ),
        "edge_aliases"@,
    );
    crate::table::put_then_member(kept, "causal_dag"@, hints, "causal_dag"@);
}

/// A fence of three backticks round an answer, with at most one word behind the first, is taken
/// off; any other answer stays as it is.
pub proof fn fences_are_taken_off(s: Seq<char>)
    ensures
        !(s.len() >= 6 && s.take(3) == seq!['`', '`', '`'] && s.skip(s.len() - 3) == seq![
            '`',
            '`',
            '`',
        ]) ==> unfenced(s) == s,
        unfenced(s) != s ==> exists|k: int|
            3 <= k < s.len() - 3 && #[trigger] s[k] == '\n' && unfenced(s) == trimmed(
                s.subrange(k + 1, s.len() - 3),
            ) && (forall|i: int| 3 <= i < k ==> #[trigger] s[i] != '\n'),
{
    if fenced(s) {
        assert(s.take(3) =~= seq!['`', '`', '`']);
        assert(s.skip(s.len() - 3) =~= seq!['`', '`', '`']);
        let body = s.subrange(3, s.len() - 3);
        lemma_line_end(body, 0);
        if let Some(k) = line_end(body, 0) {
            assert(s[k + 3] == body[k]);
            assert(body.skip(k + 1) =~= s.subrange(k + 3 + 1, s.len() - 3));
            assert forall|i: int| 3 <= i < k + 3 implies #[trigger] s[i] != '\n' by {
                assert(body[i - 3] == s[i]);
            }
        }
    }
}

proof fn lemma_line_end(s: Seq<char>, i: nat)
    requires
        i <= s.len(),
    ensures
        line_end(s, i) matches Some(k) ==> i <= k < s.len() && s[k] == '\n' && forall|j: int|
            i <= j < k ==> #[trigger] s[j] != '\n',
    decreases s.len() - i,
{
    if i < s.len() && s[i as int] != '\n' {
        lemma_line_end(s, i + 1);
    }
}

/// The observer is told by these names.
pub proof fn observers_are_told(c: Companion)
    ensures
        companion_tree(c).at("child_agent_id"@) == optional_text(c.child_agent_id),
        companion_tree(c).at("result_event_id"@) == optional_text(c.result_event_id),
        companion_tree(c).at("spawn_event_id"@) == optional_text(c.spawn_event_id),
{
    let o = companion_tree(c)->Object_0;
    reveal_strlit("child_agent_id");
    reveal_strlit("result_event_id");
    reveal_strlit("spawn_event_id");
    crate::table::lemma_first_row(o, "child_agent_id"@, 0);
    assert(o[0].0.len() == 14 && "result_event_id"@.len() == 15);
    crate::table::lemma_first_row(o, "result_event_id"@, 1);
    assert(o[0].0[0] == 'c' && o[1].0.len() == 15 && "spawn_event_id"@.len() == 14 && "spawn_event_id"@[0] == 's');
    crate::table::lemma_first_row(o, "spawn_event_id"@, 2);
}

/// The graph that an observer says it read is named in at most 128 bytes, or not at all.
pub proof fn predecessors_are_named_in_short(o: Seq<(Seq<char>, Tree)>, key: Seq<char>)
    ensures
        member(o, key) is None ==> short_text(o, key) == Ok::<Option<Seq<char>>, Seq<char>>(None),
        short_text(o, key) matches Ok(Some(text)) ==> member(o, key) == Some(Tree::Text(text)) && 0
            < text.len() && byte_len(text) <= 128,
        member(o, key) matches Some(Tree::Text(text)) ==> (0 < text.len() && byte_len(text) <= 128
            ==> short_text(o, key) == Ok::<Option<Seq<char>>, Seq<char>>(Some(text))),
{
}

/// What is observed on behalf of an observer is its answer with the window that it was given,
/// without what only its brief needed.
pub proof fn observed_inputs_hold_the_answer(
    apply: Seq<(Seq<char>, Tree)>,
    hints: Tree,
)
    ensures
        member(observe_rows(apply, hints), "causal_dag"@) == Some(hints),
{
    crate::table::put_then_member(
        without(
            without(
                without(
                    without(apply, "expected_predecessor_artifact_event_id"@),
                    "source_aliases"@,
                ),
                "node_aliases"@,
            ),
            "edge_aliases"@,
        ),
        "causal_dag"@,
        hints,
        "causal_dag"@,
    );
}

} // verus!
