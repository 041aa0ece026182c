//! Fields that a record must have.

use crate::json::{Json, Members, Tree};
use crate::sdk::{answers, fault, passes, ExtensionError};
use crate::table::{find, member};
use crate::text::join3;
use vstd::prelude::*;

verus! {

/// The members of a value that must be an object.
pub open spec fn rows_of(value: Tree, context: Seq<char>) -> Result<
    Seq<(Seq<char>, Tree)>,
    Seq<char>,
> {
    match value {
        Tree::Object(o) => Ok(o),
        _ => Err(context + " must be a JSON object"@),
    }
}

pub fn object_value<'a>(value: &'a Json, context: &str) -> (r: Result<&'a Members, ExtensionError>)
    ensures
        answers(r, rows_of(value@, context@)),
{
    broadcast use crate::json::object_model;

    match value {
        Json::Object(o) => Ok(o),
        _ => Err(fault(crate::text::join2(context, " must be a JSON object"))),
    }
}

/// A member that must be there.
pub open spec fn need(o: Seq<(Seq<char>, Tree)>, key: Seq<char>, context: Seq<char>) -> Result<
    Tree,
    Seq<char>,
> {
    match member(o, key) {
        Some(value) => Ok(value),
        None => Err(context + " missing `"@ + key + "`"@),
    }
}

pub fn required_value<'a>(o: &'a Members, key: &str, context: &str) -> (r: Result<
    &'a Json,
    ExtensionError,
>)
    ensures
        answers(r, need(o.deep_view(), key@, context@)),
{
    match find(o, key) {
        Some(value) => Ok(value),
        None => {
            let mut message = join3(context, " missing `", key);
            message.push_str("`");
            Err(fault(message))
        },
    }
}

/// What is said of a member that has the wrong form.
pub open spec fn wrong(context: Seq<char>, key: Seq<char>, form: Seq<char>) -> Seq<char> {
    context + "."@ + key + form
}

fn wrong_form(context: &str, key: &str, form: &str) -> (r: ExtensionError)
    ensures
        r is Message,
        r->Message_0@ == wrong(context@, key@, form@),
{
    let mut message = join3(context, ".", key);
    message.push_str(form);
    fault(message)
}

/// A member that must be a text.
pub open spec fn need_text(o: Seq<(Seq<char>, Tree)>, key: Seq<char>, context: Seq<char>) -> Result<
    Seq<char>,
    Seq<char>,
> {
    match need(o, key, context) {
        Err(e) => Err(e),
        Ok(Tree::Text(text)) => Ok(text),
        Ok(_) => Err(wrong(context, key, " must be a string"@)),
    }
}

pub fn required_str<'a>(o: &'a Members, key: &str, context: &str) -> (r: Result<
    &'a String,
    ExtensionError,
>)
    ensures
        answers(r, need_text(o.deep_view(), key@, context@)),
{
    match required_value(o, key, context)? {
        Json::Text(text) => Ok(text),
        _ => Err(wrong_form(context, key, " must be a string")),
    }
}

/// A member that must be a flag.
pub open spec fn need_flag(o: Seq<(Seq<char>, Tree)>, key: Seq<char>, context: Seq<char>) -> Result<
    bool,
    Seq<char>,
> {
    match need(o, key, context) {
        Err(e) => Err(e),
        Ok(Tree::Bool(flag)) => Ok(flag),
        Ok(_) => Err(wrong(context, key, " must be a boolean"@)),
    }
}

pub fn required_bool(o: &Members, key: &str, context: &str) -> (r: Result<bool, ExtensionError>)
    ensures
        answers(r, need_flag(o.deep_view(), key@, context@)),
{
    match required_value(o, key, context)? {
        Json::Bool(flag) => Ok(*flag),
        _ => Err(wrong_form(context, key, " must be a boolean")),
    }
}

/// A member that must be an integer that is not negative.
pub open spec fn need_count(
    o: Seq<(Seq<char>, Tree)>,
    key: Seq<char>,
    context: Seq<char>,
) -> Result<u64, Seq<char>> {
    match need(o, key, context) {
        Err(e) => Err(e),
        Ok(value) => match value.count() {
            Some(n) => Ok(n),
            None => Err(wrong(context, key, " must be an unsigned integer"@)),
        },
    }
}

pub fn required_u64(o: &Members, key: &str, context: &str) -> (r: Result<u64, ExtensionError>)
    ensures
        answers(r, need_count(o.deep_view(), key@, context@)),
{
    match required_value(o, key, context)?.as_count() {
        Some(n) => Ok(n),
        None => Err(wrong_form(context, key, " must be an unsigned integer")),
    }
}

/// A member that must be a list.
pub open spec fn need_list(o: Seq<(Seq<char>, Tree)>, key: Seq<char>, context: Seq<char>) -> Result<
    Seq<Tree>,
    Seq<char>,
> {
    match need(o, key, context) {
        Err(e) => Err(e),
        Ok(Tree::List(list)) => Ok(list),
        Ok(_) => Err(wrong(context, key, " must be an array"@)),
    }
}

pub fn required_array<'a>(o: &'a Members, key: &str, context: &str) -> (r: Result<
    &'a Vec<Json>,
    ExtensionError,
>)
    ensures
        answers(r, need_list(o.deep_view(), key@, context@)),
{
    broadcast use crate::json::list_model;

    match required_value(o, key, context)? {
        Json::List(list) => Ok(list),
        _ => Err(wrong_form(context, key, " must be an array")),
    }
}

/// A member that may be missing but must be a list.
pub open spec fn list_or_none(
    o: Seq<(Seq<char>, Tree)>,
    key: Seq<char>,
    context: Seq<char>,
) -> Result<Seq<Tree>, Seq<char>> {
    match member(o, key) {
        None => Ok(Seq::empty()),
        Some(Tree::List(list)) => Ok(list),
        Some(_) => Err(wrong(context, key, " must be an array"@)),
    }
}

pub fn optional_array<'a>(o: &'a Members, key: &str, context: &str) -> (r: Result<
    Option<&'a Vec<Json>>,
    ExtensionError,
>)
    ensures
        match r {
            Ok(Some(list)) => list_or_none(o.deep_view(), key@, context@) == Ok::<
                Seq<Tree>,
                Seq<char>,
            >(list.deep_view()),
            Ok(None) => list_or_none(o.deep_view(), key@, context@) == Ok::<Seq<Tree>, Seq<char>>(
                Seq::empty(),
            ),
            Err(e) => e is Message && list_or_none(o.deep_view(), key@, context@) == Err::<
                Seq<Tree>,
                Seq<char>,
            >(e->Message_0@),
        },
{
    broadcast use crate::json::list_model;

    match find(o, key) {
        None => Ok(None),
        Some(Json::List(list)) => Ok(Some(list)),
        Some(_) => Err(wrong_form(context, key, " must be an array")),
    }
}

/// A member that may be missing but must be an object.
pub open spec fn object_or_empty(
    o: Seq<(Seq<char>, Tree)>,
    key: Seq<char>,
    context: Seq<char>,
) -> Result<Tree, Seq<char>> {
    match member(o, key) {
        None => Ok(Tree::Object(Seq::empty())),
        Some(Tree::Object(rows)) => Ok(Tree::Object(rows)),
        Some(_) => Err(wrong(context, key, " must be an object"@)),
    }
}

pub fn optional_object(o: &Members, key: &str, context: &str) -> (r: Result<Json, ExtensionError>)
    ensures
        answers(r, object_or_empty(o.deep_view(), key@, context@)),
{
    broadcast use crate::json::object_model;

    match find(o, key) {
        None => {
            let rows: Members = Vec::new();
            assert(rows.deep_view() =~= Seq::empty());
            Ok(Json::Object(rows))
        },
        Some(value) => match value {
            Json::Object(_) => Ok(value.clone()),
            _ => Err(wrong_form(context, key, " must be an object")),
        },
    }
}

/// What is said of the first member, from position `i` on, that is not among those allowed.
pub open spec fn unknown_member(
    o: Seq<(Seq<char>, Tree)>,
    allowed: Seq<Seq<char>>,
    context: Seq<char>,
    i: nat,
) -> Option<Seq<char>>
    decreases o.len() - i,
{
    if i >= o.len() {
        None
    } else if !allowed.contains(o[i as int].0) {
        Some(context + " unknown field `"@ + o[i as int].0 + "`"@)
    } else {
        unknown_member(o, allowed, context, i + 1)
    }
}

pub fn reject_unknown_members(o: &Members, allowed: &Vec<&'static str>, context: &str) -> (r: Result<
    (),
    ExtensionError,
>)
    ensures
        passes(r, unknown_member(o.deep_view(), allowed.deep_view(), context@, 0)),
{
    let mut i: usize = 0;
    while i < o.len()
        invariant
            i <= o@.len(),
            unknown_member(o.deep_view(), allowed.deep_view(), context@, 0) == unknown_member(
                o.deep_view(),
                allowed.deep_view(),
                context@,
                i as nat,
            ),
        decreases o@.len() - i,
    {
        assert(o.deep_view()[i as int].0 == o@[i as int].0@);
        if !crate::inputs::among(&o[i].0, allowed) {
            let mut message = join3(context, " unknown field `", &o[i].0);
            message.push_str("`");
            return Err(fault(message));
        }
        i += 1;
    }
    Ok(())
}

/// A text of a value that must be an object.
pub open spec fn text_in(value: Tree, key: Seq<char>, context: Seq<char>) -> Result<
    Seq<char>,
    Seq<char>,
> {
    match rows_of(value, context) {
        Err(e) => Err(e),
        Ok(o) => need_text(o, key, context),
    }
}

pub fn required_json_str<'a>(value: &'a Json, key: &str, context: &str) -> (r: Result<
    &'a String,
    ExtensionError,
>)
    ensures
        answers(r, text_in(value@, key@, context@)),
{
    required_str(object_value(value, context)?, key, context)
}

/// A flag of a value that must be an object.
pub open spec fn flag_in(value: Tree, key: Seq<char>, context: Seq<char>) -> Result<
    bool,
    Seq<char>,
> {
    match rows_of(value, context) {
        Err(e) => Err(e),
        Ok(o) => need_flag(o, key, context),
    }
}

pub fn required_json_bool(value: &Json, key: &str, context: &str) -> (r: Result<
    bool,
    ExtensionError,
>)
    ensures
        answers(r, flag_in(value@, key@, context@)),
{
    required_bool(object_value(value, context)?, key, context)
}

} // verus!
