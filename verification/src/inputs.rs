//! The inputs of commands: fields of JSON objects, and the inputs of the update, catch-up,
//! observe and export commands.

use crate::json::{Json, Members, Tree};
use crate::sdk::{answers, fault, input_error, passes, ExtensionError, ProvenanceQuery};
use crate::table::{find, has_row, member};
use crate::text::{decimal, decimal_text, join2, join3, same};
use vstd::prelude::*;

verus! {

pub const DEFAULT_LIMIT: usize = 64;

pub const DEFAULT_MAX_CATCH_UP_TICKS: usize = 16;

pub const MAX_CATCH_UP_TICKS: usize = 128;

/// What is said of the first field, from position `i` on, that is not among those allowed.
pub open spec fn unknown_field(
    o: Seq<(Seq<char>, Tree)>,
    allowed: Seq<Seq<char>>,
    i: nat,
) -> Option<Seq<char>>
    decreases o.len() - i,
{
    if i >= o.len() {
        None
    } else if !allowed.contains(o[i as int].0) {
        Some("unknown input field `"@ + o[i as int].0 + "`"@)
    } else {
        unknown_field(o, allowed, i + 1)
    }
}

/// Whether a word is among some words.
pub fn among(word: &str, words: &Vec<&'static str>) -> (r: bool)
    ensures
        r == words.deep_view().contains(word@),
{
    let mut i: usize = 0;
    while i < words.len()
        invariant
            i <= words@.len(),
            forall|j: int| 0 <= j < i ==> words.deep_view()[j] != word@,
        decreases words@.len() - i,
    {
        assert(words.deep_view()[i as int] == words@[i as int]@);
        if same(words[i], word) {
            return true;
        }
        i += 1;
    }
    false
}

/// Refuses a field that is not among those allowed.
pub fn reject_unknown_fields(o: &Members, allowed: &Vec<&'static str>) -> (r: Result<
    (),
    ExtensionError,
>)
    ensures
        passes(r, unknown_field(o.deep_view(), allowed.deep_view(), 0)),
{
    let mut i: usize = 0;
    while i < o.len()
        invariant
            i <= o@.len(),
            unknown_field(o.deep_view(), allowed.deep_view(), 0) == unknown_field(
                o.deep_view(),
                allowed.deep_view(),
                i as nat,
            ),
        decreases o@.len() - i,
    {
        assert(o.deep_view()[i as int].0 == o@[i as int].0@);
        if !among(&o[i].0, allowed) {
            return Err(fault(join3("unknown input field `", &o[i].0, "`")));
        }
        i += 1;
    }
    Ok(())
}

/// A field that is a positive integer, at most `max` where there is such a bound; what stands
/// for it where it is missing or null.
pub open spec fn positive_field(
    o: Seq<(Seq<char>, Tree)>,
    field: Seq<char>,
    default: Option<usize>,
    max: Option<usize>,
) -> Result<Option<usize>, Seq<char>> {
    match member(o, field) {
        None => Ok(default),
        Some(Tree::Null) => Ok(default),
        Some(value) => match value.count() {
            None => Err(field + " must be a positive integer"@),
            Some(n) => if n > usize::MAX {
                match max {
                    Some(max) => Err(field + " must be at most "@ + decimal(max as nat)),
                    None => Err(field + " is too large"@),
                }
            } else if n == 0 {
                Err(field + " must be greater than zero"@)
            } else if max is Some && n > max->0 {
                Err(field + " must be at most "@ + decimal(max->0 as nat))
            } else {
                Ok(Some(n as usize))
            },
        },
    }
}

fn at_most(field: &str, max: usize) -> (r: ExtensionError)
    ensures
        r is Message,
        r->Message_0@ == field@ + " must be at most "@ + decimal(max as nat),
{
    fault(join3(field, " must be at most ", &decimal_text(max as u64)))
}

pub fn parse_positive_usize(
    o: &Members,
    field: &str,
    default: Option<usize>,
    max: Option<usize>,
) -> (r: Result<Option<usize>, ExtensionError>)
    ensures
        answers(r, positive_field(o.deep_view(), field@, default, max)),
{
    let value = match find(o, field) {
        None => return Ok(default),
        Some(value) => value,
    };
    if value.is_null() {
        return Ok(default);
    }
    let n: u64 = match value.as_count() {
        Some(n) => n,
        None => return Err(fault(join2(field, " must be a positive integer"))),
    };
    let parsed: usize = match usize::try_from(n) {
        Ok(parsed) => parsed,
        Err(_) => {
            return Err(
                match max {
                    Some(max) => at_most(field, max),
                    None => fault(join2(field, " is too large")),
                },
            );
        },
    };
    if parsed == 0 {
        return Err(fault(join2(field, " must be greater than zero")));
    }
    if let Some(max) = max {
        if parsed > max {
            return Err(at_most(field, max));
        }
    }
    Ok(Some(parsed))
}

/// The limit of a page.
pub open spec fn limit_field(o: Seq<(Seq<char>, Tree)>) -> Result<usize, Seq<char>> {
    match positive_field(o, "limit"@, Some(DEFAULT_LIMIT), None) {
        Ok(n) => Ok(n->0),
        Err(e) => Err(e),
    }
}

pub fn parse_limit(o: &Members) -> (r: Result<usize, ExtensionError>)
    ensures
        answers(r, limit_field(o.deep_view())),
{
    match parse_positive_usize(o, "limit", Some(DEFAULT_LIMIT), None)? {
        Some(n) => Ok(n),
        None => Ok(DEFAULT_LIMIT),
    }
}

/// How many ticks a catch-up may take.
pub open spec fn ticks_field(o: Seq<(Seq<char>, Tree)>) -> Result<usize, Seq<char>> {
    match positive_field(
        o,
        "max_ticks"@,
        Some(DEFAULT_MAX_CATCH_UP_TICKS),
        Some(MAX_CATCH_UP_TICKS),
    ) {
        Ok(n) => Ok(n->0),
        Err(e) => Err(e),
    }
}

pub fn parse_max_ticks(o: &Members) -> (r: Result<usize, ExtensionError>)
    ensures
        answers(r, ticks_field(o.deep_view())),
{
    match parse_positive_usize(
        o,
        "max_ticks",
        Some(DEFAULT_MAX_CATCH_UP_TICKS),
        Some(MAX_CATCH_UP_TICKS),
    )? {
        Some(n) => Ok(n),
        None => Ok(DEFAULT_MAX_CATCH_UP_TICKS),
    }
}

/// A text field that may be missing or null.
pub open spec fn text_field(o: Seq<(Seq<char>, Tree)>, field: Seq<char>) -> Result<
    Option<Seq<char>>,
    Seq<char>,
> {
    match member(o, field) {
        None => Ok(None),
        Some(Tree::Null) => Ok(None),
        Some(Tree::Text(text)) => Ok(Some(text)),
        Some(_) => Err(field + " must be a string"@),
    }
}

pub fn optional_string(o: &Members, field: &str) -> (r: Result<Option<String>, ExtensionError>)
    ensures
        answers(r, text_field(o.deep_view(), field@)),
{
    match find(o, field) {
        None => Ok(None),
        Some(Json::Null) => Ok(None),
        Some(Json::Text(text)) => Ok(Some(text.clone())),
        Some(_) => Err(fault(join2(field, " must be a string"))),
    }
}

/// A text field that may be missing or null, but not empty.
pub open spec fn filled_field(o: Seq<(Seq<char>, Tree)>, field: Seq<char>) -> Result<
    Option<Seq<char>>,
    Seq<char>,
> {
    match text_field(o, field) {
        Err(e) => Err(e),
        Ok(None) => Ok(None),
        Ok(Some(text)) => if text.len() == 0 {
            Err(field + " must not be empty"@)
        } else {
            Ok(Some(text))
        },
    }
}

pub fn optional_non_empty_string(o: &Members, field: &str) -> (r: Result<
    Option<String>,
    ExtensionError,
>)
    ensures
        answers(r, filled_field(o.deep_view(), field@)),
{
    match optional_string(o, field)? {
        None => Ok(None),
        Some(text) => {
            if text.as_str().is_empty() {
                return Err(fault(join2(field, " must not be empty")));
            }
            Ok(Some(text))
        },
    }
}

/// The texts of a list, from position `i` on.
pub open spec fn texts_from(
    list: Seq<Tree>,
    field: Seq<char>,
    i: nat,
    found: Seq<Seq<char>>,
) -> Result<Seq<Seq<char>>, Seq<char>>
    decreases list.len() - i,
{
    if i >= list.len() {
        Ok(found)
    } else {
        match list[i as int].text() {
            Some(text) => texts_from(list, field, i + 1, found.push(text)),
            None => Err(field + " must be an array of strings"@),
        }
    }
}

/// A field that lists texts; none where it is missing or null.
pub open spec fn texts_field(o: Seq<(Seq<char>, Tree)>, field: Seq<char>) -> Result<
    Seq<Seq<char>>,
    Seq<char>,
> {
    match member(o, field) {
        None => Ok(Seq::empty()),
        Some(Tree::Null) => Ok(Seq::empty()),
        Some(Tree::List(list)) => texts_from(list, field, 0, Seq::empty()),
        Some(_) => Err(field + " must be an array of strings"@),
    }
}

pub fn optional_string_array(o: &Members, field: &str) -> (r: Result<Vec<String>, ExtensionError>)
    ensures
        answers(r, texts_field(o.deep_view(), field@)),
{
    let mut out: Vec<String> = Vec::new();
    assert(out.deep_view() =~= Seq::empty());
    let value = match find(o, field) {
        None => return Ok(out),
        Some(value) => value,
    };
    if value.is_null() {
        return Ok(out);
    }
    let list = match value.as_list() {
        Some(list) => list,
        None => return Err(fault(join2(field, " must be an array of strings"))),
    };
    let mut i: usize = 0;
    while i < list.len()
        invariant
            i <= list@.len(),
            texts_field(o.deep_view(), field@) == texts_from(
                list.deep_view(),
                field@,
                i as nat,
                out.deep_view(),
            ),
        decreases list@.len() - i,
    {
        assert(list.deep_view()[i as int] == list@[i as int]@);
        match list[i].as_text() {
            Some(text) => {
                let ghost was = out.deep_view();
                out.push(text.clone());
                assert(out.deep_view() =~= was.push(text@));
            },
            None => return Err(fault(join2(field, " must be an array of strings"))),
        }
        i += 1;
    }
    Ok(out)
}

/// What the update command is asked for.
#[derive(Debug, PartialEq, Eq)]
pub struct UpdateInput {
    pub limit: usize,
    pub scan_limit: Option<usize>,
    pub session_id: Option<String>,
}

/// What an [`UpdateInput`] holds.
#[verifier::ext_equal]
pub struct Update {
    pub limit: usize,
    pub scan_limit: Option<usize>,
    pub session_id: Option<Seq<char>>,
}

impl DeepView for UpdateInput {
    type V = Update;

    open spec fn deep_view(&self) -> Update {
        Update {
            limit: self.limit,
            scan_limit: self.scan_limit,
            session_id: self.session_id.deep_view(),
        }
    }
}

/// The fields that an update may name.
pub open spec fn update_fields() -> Seq<Seq<char>> {
    seq!["limit"@, "scan_limit"@, "after_event_id"@, "kinds"@, "session_id"@]
}

/// The fields of an update.
pub open spec fn update_of_fields(o: Seq<(Seq<char>, Tree)>) -> Result<Update, Seq<char>> {
    match limit_field(o) {
        Err(e) => Err(e),
        Ok(limit) => match positive_field(o, "scan_limit"@, None, None) {
            Err(e) => Err(e),
            Ok(scan_limit) => match filled_field(o, "session_id"@) {
                Err(e) => Err(e),
                Ok(session_id) => Ok(Update { limit, scan_limit, session_id }),
            },
        },
    }
}

fn parse_update_fields(o: &Members) -> (r: Result<UpdateInput, ExtensionError>)
    ensures
        answers(r, update_of_fields(o.deep_view())),
{
    let limit: usize = parse_limit(o)?;
    let scan_limit = parse_positive_usize(o, "scan_limit", None, None)?;
    let session_id = optional_non_empty_string(o, "session_id")?;
    Ok(UpdateInput { limit, scan_limit, session_id })
}

/// What an update is asked for when nothing is said.
pub open spec fn default_update() -> Update {
    Update { limit: DEFAULT_LIMIT, scan_limit: None, session_id: None }
}

/// The input of the update command.
pub open spec fn update_of(value: Tree) -> Result<Update, Seq<char>> {
    match value {
        Tree::Null => Ok(default_update()),
        Tree::Object(o) => match unknown_field(o, update_fields(), 0) {
            Some(e) => Err(e),
            None => if member(o, "after_event_id"@) is Some {
                Err("causal-dag update does not accept after_event_id"@)
            } else if member(o, "kinds"@) is Some {
                Err("causal-dag update does not accept kinds"@)
            } else {
                update_of_fields(o)
            },
        },
        _ => Err("causal-dag update input must be a JSON object"@),
    }
}

impl Default for UpdateInput {
    fn default() -> (r: Self)
        ensures
            r.deep_view() == default_update(),
    {
        UpdateInput { limit: DEFAULT_LIMIT, scan_limit: None, session_id: None }
    }
}

impl UpdateInput {
    pub fn parse(value: &Json) -> (r: Result<Self, ExtensionError>)
        ensures
            answers(r, update_of(value@)),
    {
        broadcast use crate::json::object_model;

        let o = match value {
            Json::Null => return Ok(Self::default()),
            Json::Object(o) => o,
            _ => return Err(input_error("causal-dag update input must be a JSON object")),
        };
        let allowed = vec!["limit", "scan_limit", "after_event_id", "kinds", "session_id"];
        assert(allowed.deep_view() =~= update_fields());
        reject_unknown_fields(o, &allowed)?;
        if has_row(o, "after_event_id") {
            return Err(input_error("causal-dag update does not accept after_event_id"));
        }
        if has_row(o, "kinds") {
            return Err(input_error("causal-dag update does not accept kinds"));
        }
        parse_update_fields(o)
    }

    /// The query of an update behind a checkpoint.
    pub fn query(&self, after: &Option<String>) -> (r: ProvenanceQuery)
        ensures
            r.asks(
                after.deep_view(),
                self.limit,
                crate::sdk::scan_or_default(self.scan_limit),
            ),
    {
        ProvenanceQuery::page(self.limit, self.scan_limit, after)
    }
}

/// What the catch-up command is asked for.
#[derive(Debug, PartialEq, Eq)]
pub struct CatchUpInput {
    pub update: UpdateInput,
    pub max_ticks: usize,
}

impl DeepView for CatchUpInput {
    type V = (Update, usize);

    open spec fn deep_view(&self) -> (Update, usize) {
        (self.update.deep_view(), self.max_ticks)
    }
}

/// The input of the catch-up command.
pub open spec fn catch_up_of(value: Tree) -> Result<(Update, usize), Seq<char>> {
    match value {
        Tree::Null => Ok((default_update(), DEFAULT_MAX_CATCH_UP_TICKS)),
        Tree::Object(o) => match unknown_field(o, update_fields().push("max_ticks"@), 0) {
            Some(e) => Err(e),
            None => if member(o, "after_event_id"@) is Some {
                Err("causal-dag catch-up does not accept after_event_id"@)
            } else if member(o, "kinds"@) is Some {
                Err("causal-dag catch-up does not accept kinds"@)
            } else {
                match update_of_fields(o) {
                    Err(e) => Err(e),
                    Ok(update) => match ticks_field(o) {
                        Err(e) => Err(e),
                        Ok(max_ticks) => Ok((update, max_ticks)),
                    },
                }
            },
        },
        _ => Err("causal-dag catch-up input must be a JSON object"@),
    }
}

impl Default for CatchUpInput {
    fn default() -> (r: Self)
        ensures
            r.deep_view() == (default_update(), DEFAULT_MAX_CATCH_UP_TICKS),
    {
        CatchUpInput { update: UpdateInput::default(), max_ticks: DEFAULT_MAX_CATCH_UP_TICKS }
    }
}

impl CatchUpInput {
    pub fn parse(value: &Json) -> (r: Result<Self, ExtensionError>)
        ensures
            answers(r, catch_up_of(value@)),
    {
        broadcast use crate::json::object_model;

        let o = match value {
            Json::Null => return Ok(Self::default()),
            Json::Object(o) => o,
            _ => return Err(input_error("causal-dag catch-up input must be a JSON object")),
        };
        let allowed = vec![
            "limit",
            "scan_limit",
            "after_event_id",
            "kinds",
            "session_id",
            "max_ticks",
        ];
        assert(allowed.deep_view() =~= update_fields().push("max_ticks"@));
        reject_unknown_fields(o, &allowed)?;
        if has_row(o, "after_event_id") {
            return Err(input_error("causal-dag catch-up does not accept after_event_id"));
        }
        if has_row(o, "kinds") {
            return Err(input_error("causal-dag catch-up does not accept kinds"));
        }
        let update = parse_update_fields(o)?;
        let max_ticks: usize = parse_max_ticks(o)?;
        Ok(CatchUpInput { update, max_ticks })
    }
}

/// A count is taken as it is given if it is a whole number from one up to the most that is
/// allowed, and its default stands where none is given; anything else is refused.
pub proof fn counts_are_positive(
    o: Seq<(Seq<char>, Tree)>,
    field: Seq<char>,
    default: Option<usize>,
    max: Option<usize>,
)
    ensures
        ({
            let r = positive_field(o, field, default, max);
            let given = member(o, field);
            &&& given is None || given == Some(Tree::Null) ==> r == Ok::<Option<usize>, Seq<char>>(
                default,
            )
            &&& given is Some && given != Some(Tree::Null) ==> (r is Ok <==> given->0.count() is Some
                && 0 < given->0.count()->0 <= usize::MAX && (max is Some ==> given->0.count()->0
                <= max->0))
            &&& given is Some && given != Some(Tree::Null) && r is Ok ==> r->Ok_0 is Some
                && r->Ok_0->0 == given->0.count()->0
        }),
{
}

/// An update reads sixty-four events and a chase makes sixteen updates unless they are asked for
/// more or fewer; a chase makes at most a hundred and twenty-eight. Neither can be given a cursor
/// or kinds of events.
pub proof fn updates_have_their_defaults(o: Seq<(Seq<char>, Tree)>)
    ensures
        update_of(Tree::Null) == Ok::<Update, Seq<char>>(
            (Update { limit: 64, scan_limit: None, session_id: None }),
        ),
        catch_up_of(Tree::Null) == Ok::<(Update, usize), Seq<char>>(
            ((Update { limit: 64, scan_limit: None, session_id: None }), 16),
        ),
        update_of(Tree::Object(o)) matches Ok(u) ==> {
            &&& member(o, "after_event_id"@) is None && member(o, "kinds"@) is None
            &&& member(o, "limit"@) is None ==> u.limit == 64
            &&& member(o, "limit"@) is Some && member(o, "limit"@) != Some(Tree::Null) ==> Some(
                u.limit as u64,
            ) == member(o, "limit"@)->0.count()
            &&& u.limit > 0
            &&& member(o, "session_id"@) matches Some(Tree::Text(id)) ==> u.session_id == Some(id)
                && id.len() > 0
            &&& member(o, "session_id"@) is None ==> u.session_id is None
        },
        catch_up_of(Tree::Object(o)) matches Ok((u, ticks)) ==> {
            &&& member(o, "after_event_id"@) is None && member(o, "kinds"@) is None
            &&& 0 < ticks <= 128
            &&& member(o, "max_ticks"@) is None ==> ticks == 16
            &&& member(o, "max_ticks"@) is Some && member(o, "max_ticks"@) != Some(Tree::Null)
                ==> Some(ticks as u64) == member(o, "max_ticks"@)->0.count()
        },
{
}

} // verus!
