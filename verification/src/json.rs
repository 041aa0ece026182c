//! JSON trees: what they hold, how their members are found, and their text form.

use crate::table::{ascending, find, member};
use crate::text::same;
use serde_json::Value;
use vstd::prelude::*;

verus! {

/// A JSON number. A number that is no integer is kept as `serde_json` holds it.
#[derive(Debug, PartialEq, Eq)]
pub enum Numeral {
    Positive(u64),
    Negative(i64),
    Float(serde_json::Number),
}

/// A JSON tree. The members of an object stand in a list; the first member of a name is the
/// one that is found.
#[derive(Debug, PartialEq, Eq)]
pub enum Json {
    Null,
    Bool(bool),
    Number(Numeral),
    Text(String),
    List(Vec<Json>),
    Object(Vec<(String, Json)>),
}

/// The members of an object.
pub type Members = Vec<(String, Json)>;

/// What a [`Numeral`] stands for; one that is no integer stands by its decimal text.
pub enum NumberModel {
    Positive(u64),
    Negative(i64),
    Float(Seq<char>),
}

/// What a [`Json`] tree holds.
pub enum Tree {
    Null,
    Bool(bool),
    Number(NumberModel),
    Text(Seq<char>),
    List(Seq<Tree>),
    Object(Seq<(Seq<char>, Tree)>),
}

impl Numeral {
    pub open spec fn model(self) -> NumberModel {
        match self {
            Numeral::Positive(n) => NumberModel::Positive(n),
            Numeral::Negative(n) => NumberModel::Negative(n),
            Numeral::Float(n) => NumberModel::Float(number_text(n)),
        }
    }
}

impl Json {
    pub open spec fn model(self) -> Tree
        decreases self,
    {
        match self {
            Json::Null => Tree::Null,
            Json::Bool(b) => Tree::Bool(b),
            Json::Number(n) => Tree::Number(n.model()),
            Json::Text(s) => Tree::Text(s@),
            Json::List(v) => Tree::List(
                Seq::new(
                    v@.len(),
                    |i: int|
                        if 0 <= i < v@.len() {
                            v@[i].model()
                        } else {
                            Tree::Null
                        },
                ),
            ),
            Json::Object(v) => Tree::Object(
                Seq::new(
                    v@.len(),
                    |i: int|
                        if 0 <= i < v@.len() {
                            (v@[i].0@, v@[i].1.model())
                        } else {
                            (Seq::empty(), Tree::Null)
                        },
                ),
            ),
        }
    }
}

impl View for Json {
    type V = Tree;

    open spec fn view(&self) -> Tree {
        self.model()
    }
}

impl DeepView for Json {
    type V = Tree;

    open spec fn deep_view(&self) -> Tree {
        self.model()
    }
}

pub broadcast proof fn object_model(j: Json)
    requires
        j is Object,
    ensures
        #[trigger] j.model() == Tree::Object(j->Object_0.deep_view()),
{
    assert(j.model()->Object_0 =~= j->Object_0.deep_view());
}

pub broadcast proof fn list_model(j: Json)
    requires
        j is List,
    ensures
        #[trigger] j.model() == Tree::List(j->List_0.deep_view()),
{
    assert(j.model()->List_0 =~= j->List_0.deep_view());
}

proof fn list_item_is_smaller(v: Vec<Json>, i: int)
    requires
        0 <= i < v@.len(),
    ensures
        decreases_to!(Json::List(v) => v@[i]),
{
    let j = Json::List(v);
    assert(decreases_to!(j => j->List_0));
    assert(decreases_to!(v => v@));
    assert(decreases_to!(v@ => v@[i]));
}

proof fn member_is_smaller(v: Vec<(String, Json)>, i: int)
    requires
        0 <= i < v@.len(),
    ensures
        decreases_to!(Json::Object(v) => v@[i].1),
{
    let j = Json::Object(v);
    assert(decreases_to!(j => j->Object_0));
    assert(decreases_to!(v => v@));
    assert(decreases_to!(v@ => v@[i]));
    assert(decreases_to!(v@[i] => v@[i].1));
}

impl Tree {
    /// The member of a name, where the tree is an object that has it.
    pub open spec fn get(self, name: Seq<char>) -> Option<Tree> {
        match self {
            Tree::Object(o) => member(o, name),
            _ => None,
        }
    }

    /// The member of a name, null where there is none.
    pub open spec fn at(self, name: Seq<char>) -> Tree {
        match self.get(name) {
            Some(t) => t,
            None => Tree::Null,
        }
    }

    pub open spec fn text(self) -> Option<Seq<char>> {
        match self {
            Tree::Text(s) => Some(s),
            _ => None,
        }
    }

    pub open spec fn flag(self) -> Option<bool> {
        match self {
            Tree::Bool(b) => Some(b),
            _ => None,
        }
    }

    /// The number, where it is an integer that is not negative.
    pub open spec fn count(self) -> Option<u64> {
        match self {
            Tree::Number(NumberModel::Positive(n)) => Some(n),
            _ => None,
        }
    }

    pub open spec fn list(self) -> Option<Seq<Tree>> {
        match self {
            Tree::List(v) => Some(v),
            _ => None,
        }
    }

    pub open spec fn object(self) -> Option<Seq<(Seq<char>, Tree)>> {
        match self {
            Tree::Object(o) => Some(o),
            _ => None,
        }
    }

    /// The text of the member of a name.
    pub open spec fn text_at(self, name: Seq<char>) -> Option<Seq<char>> {
        self.at(name).text()
    }

    /// The flag of the member of a name.
    pub open spec fn flag_at(self, name: Seq<char>) -> Option<bool> {
        self.at(name).flag()
    }

    /// The list of the member of a name.
    pub open spec fn list_at(self, name: Seq<char>) -> Option<Seq<Tree>> {
        self.at(name).list()
    }
}

/// The text of the first member of a name.
pub open spec fn text_member(o: Seq<(Seq<char>, Tree)>, name: Seq<char>) -> Option<Seq<char>> {
    match member(o, name) {
        Some(t) => t.text(),
        None => None,
    }
}

/// The text of the first member of a name.
pub fn find_text<'a>(o: &'a Members, name: &str) -> (r: Option<&'a String>)
    ensures
        r.deep_view() == text_member(o.deep_view(), name@),
{
    match find(o, name) {
        Some(j) => j.as_text(),
        None => None,
    }
}

impl Json {
    /// The member of a name, where the tree is an object that has it.
    pub fn get(&self, name: &str) -> (r: Option<&Json>)
        ensures
            r.deep_view() == self@.get(name@),
    {
        broadcast use object_model;

        match self {
            Json::Object(o) => find(o, name),
            _ => None,
        }
    }

    pub fn is_null(&self) -> (r: bool)
        ensures
            r == (self@ is Null),
    {
        match self {
            Json::Null => true,
            _ => false,
        }
    }

    pub fn as_text(&self) -> (r: Option<&String>)
        ensures
            r.deep_view() == self@.text(),
    {
        match self {
            Json::Text(s) => Some(s),
            _ => None,
        }
    }

    pub fn as_flag(&self) -> (r: Option<bool>)
        ensures
            r == self@.flag(),
    {
        match self {
            Json::Bool(b) => Some(*b),
            _ => None,
        }
    }

    pub fn as_count(&self) -> (r: Option<u64>)
        ensures
            r == self@.count(),
    {
        match self {
            Json::Number(Numeral::Positive(n)) => Some(*n),
            _ => None,
        }
    }

    pub fn as_list(&self) -> (r: Option<&Vec<Json>>)
        ensures
            r matches Some(v) ==> self@.list() == Some(v.deep_view()),
            r is None ==> self@.list() is None,
    {
        broadcast use list_model;

        match self {
            Json::List(v) => Some(v),
            _ => None,
        }
    }

    pub fn as_object(&self) -> (r: Option<&Members>)
        ensures
            r matches Some(v) ==> self@.object() == Some(v.deep_view()),
            r is None ==> self@.object() is None,
    {
        broadcast use object_model;

        match self {
            Json::Object(o) => Some(o),
            _ => None,
        }
    }

    /// The text of the member of a name.
    pub fn text_at(&self, name: &str) -> (r: Option<&String>)
        ensures
            r.deep_view() == self@.text_at(name@),
    {
        match self.get(name) {
            Some(j) => j.as_text(),
            None => None,
        }
    }

    /// The flag of the member of a name.
    pub fn flag_at(&self, name: &str) -> (r: Option<bool>)
        ensures
            r == self@.flag_at(name@),
    {
        match self.get(name) {
            Some(j) => j.as_flag(),
            None => None,
        }
    }

    /// The list of the member of a name.
    pub fn list_at(&self, name: &str) -> (r: Option<&Vec<Json>>)
        ensures
            r matches Some(v) ==> self@.list_at(name@) == Some(v.deep_view()),
            r is None ==> self@.list_at(name@) is None,
    {
        match self.get(name) {
            Some(j) => j.as_list(),
            None => None,
        }
    }

    /// A text as a tree.
    pub fn of_text(s: &str) -> (r: Json)
        ensures
            r@ == Tree::Text(s@),
    {
        Json::Text(s.to_owned())
    }

    /// A text as a tree, null where there is none.
    pub fn of_optional_text(s: &Option<String>) -> (r: Json)
        ensures
            r@ == optional_text(s.deep_view()),
    {
        match s {
            Some(s) => Json::Text(s.clone()),
            None => Json::Null,
        }
    }

    /// A count as a tree.
    pub fn of_count(n: usize) -> (r: Json)
        ensures
            r@ == counted(n as nat),
    {
        Json::Number(Numeral::Positive(n as u64))
    }

    /// A list of texts as a tree.
    pub fn of_texts(v: &Vec<String>) -> (r: Json)
        ensures
            r@ == texts(v.deep_view()),
    {
        broadcast use list_model;

        let mut out: Vec<Json> = Vec::new();
        let mut i: usize = 0;
        while i < v.len()
            invariant
                i <= v@.len(),
                out@.len() == i,
                forall|j: int| 0 <= j < i ==> (#[trigger] out@[j])@ == Tree::Text(v@[j]@),
            decreases v@.len() - i,
        {
            out.push(Json::Text(v[i].clone()));
            i += 1;
        }
        assert(out.deep_view() =~= texts(v.deep_view())->List_0);
        Json::List(out)
    }
}

/// A text as a tree, null where there is none.
pub open spec fn optional_text(s: Option<Seq<char>>) -> Tree {
    match s {
        Some(s) => Tree::Text(s),
        None => Tree::Null,
    }
}

/// A count as a tree.
pub open spec fn counted(n: nat) -> Tree {
    Tree::Number(NumberModel::Positive(n as u64))
}

/// A list of texts as a tree.
pub open spec fn texts(v: Seq<Seq<char>>) -> Tree {
    Tree::List(Seq::new(v.len(), |i: int| Tree::Text(v[i])))
}

impl Clone for Numeral {
    fn clone(&self) -> (r: Self)
        ensures
            r.model() == self.model(),
    {
        match self {
            Numeral::Positive(n) => Numeral::Positive(*n),
            Numeral::Negative(n) => Numeral::Negative(*n),
            Numeral::Float(n) => Numeral::Float(copy_number(n)),
        }
    }
}

impl Clone for Json {
    fn clone(&self) -> (r: Self)
        ensures
            r@ == self@,
        decreases self,
    {
        broadcast use {list_model, object_model};

        match self {
            Json::Null => Json::Null,
            Json::Bool(b) => Json::Bool(*b),
            Json::Number(n) => Json::Number(n.clone()),
            Json::Text(s) => Json::Text(s.clone()),
            Json::List(v) => {
                let mut out: Vec<Json> = Vec::new();
                let mut i: usize = 0;
                while i < v.len()
                    invariant
                        i <= v@.len(),
                        out@.len() == i,
                        *self == Json::List(*v),
                        forall|j: int| 0 <= j < i ==> (#[trigger] out@[j])@ == v@[j]@,
                    decreases v@.len() - i,
                {
                    proof {
                        list_item_is_smaller(*v, i as int);
                    }
                    out.push(v[i].clone());
                    i += 1;
                }
                assert(out.deep_view() =~= v.deep_view());
                Json::List(out)
            },
            Json::Object(v) => {
                let mut out: Vec<(String, Json)> = Vec::new();
                let mut i: usize = 0;
                while i < v.len()
                    invariant
                        i <= v@.len(),
                        out@.len() == i,
                        *self == Json::Object(*v),
                        forall|j: int|
                            0 <= j < i ==> (#[trigger] out@[j]).0@ == v@[j].0@ && out@[j].1@
                                == v@[j].1@,
                    decreases v@.len() - i,
                {
                    proof {
                        member_is_smaller(*v, i as int);
                    }
                    out.push((v[i].0.clone(), v[i].1.clone()));
                    i += 1;
                }
                assert(out.deep_view() =~= v.deep_view());
                Json::Object(out)
            },
        }
    }
}

/// A copy of a list of members.
pub fn copy_members(v: &Members) -> (r: Members)
    ensures
        r.deep_view() == v.deep_view(),
{
    let mut out: Vec<(String, Json)> = Vec::new();
    let mut i: usize = 0;
    while i < v.len()
        invariant
            i <= v@.len(),
            out@.len() == i,
            forall|j: int|
                0 <= j < i ==> (#[trigger] out@[j]).0@ == v@[j].0@ && out@[j].1@ == v@[j].1@,
        decreases v@.len() - i,
    {
        out.push((v[i].0.clone(), v[i].1.clone()));
        i += 1;
    }
    assert(out.deep_view() =~= v.deep_view());
    out
}

/// Whether the text of a number that is no integer is that of a zero, of either sign.
pub open spec fn zero_text(s: Seq<char>) -> bool {
    s == "0.0"@ || s == "-0.0"@
}

/// Whether two numbers are equal: the two zeros that are no integers are one.
pub open spec fn equal_numbers(a: NumberModel, b: NumberModel) -> bool {
    match (a, b) {
        (NumberModel::Float(x), NumberModel::Float(y)) => x == y || zero_text(x) && zero_text(y),
        _ => a == b,
    }
}

/// Whether two trees hold the same: they differ in the signs of zeros at most.
pub open spec fn alike(a: Tree, b: Tree) -> bool
    decreases a,
{
    match (a, b) {
        (Tree::Number(x), Tree::Number(y)) => equal_numbers(x, y),
        (Tree::List(x), Tree::List(y)) => x.len() == y.len() && forall|i: int|
            0 <= i < x.len() ==> alike(#[trigger] x[i], y[i]),
        (Tree::Object(x), Tree::Object(y)) => x.len() == y.len() && forall|i: int|
            0 <= i < x.len() ==> (#[trigger] x[i]).0 == y[i].0 && alike(x[i].1, y[i].1),
        _ => a == b,
    }
}

/// A tree holds the same as itself.
pub proof fn a_tree_is_like_itself(t: Tree)
    ensures
        alike(t, t),
    decreases t,
{
    match t {
        Tree::List(v) => {
            assert forall|i: int| 0 <= i < v.len() implies alike(#[trigger] v[i], v[i]) by {
                a_tree_is_like_itself(v[i]);
            }
        },
        Tree::Object(o) => {
            assert forall|i: int| 0 <= i < o.len() implies alike((#[trigger] o[i]).1, o[i].1) by {
                a_tree_is_like_itself(o[i].1);
            }
        },
        _ => {},
    }
}

fn same_number(a: &Numeral, b: &Numeral) -> (r: bool)
    ensures
        r == equal_numbers(a.model(), b.model()),
{
    match (a, b) {
        (Numeral::Positive(x), Numeral::Positive(y)) => *x == *y,
        (Numeral::Negative(x), Numeral::Negative(y)) => *x == *y,
        (Numeral::Float(x), Numeral::Float(y)) => {
            let x = display_number(x);
            let y = display_number(y);
            same(&x, &y) || ((same(&x, "0.0") || same(&x, "-0.0")) && (same(&y, "0.0") || same(
                &y,
                "-0.0",
            )))
        },
        _ => false,
    }
}

/// Whether two trees hold the same.
pub fn same_tree(a: &Json, b: &Json) -> (r: bool)
    ensures
        r == alike(a@, b@),
    decreases a,
{
    broadcast use {list_model, object_model};

    match (a, b) {
        (Json::Null, Json::Null) => true,
        (Json::Bool(x), Json::Bool(y)) => *x == *y,
        (Json::Number(x), Json::Number(y)) => same_number(x, y),
        (Json::Text(x), Json::Text(y)) => same(x, y),
        (Json::List(x), Json::List(y)) => {
            assert(x.deep_view().len() == x@.len() && y.deep_view().len() == y@.len());
            if x.len() != y.len() {
                return false;
            }
            let mut i: usize = 0;
            while i < x.len()
                invariant
                    i <= x@.len() == y@.len(),
                    *a == Json::List(*x),
                    *b == Json::List(*y),
                    forall|j: int| 0 <= j < i ==> alike(#[trigger] x.deep_view()[j], y.deep_view()[j]),
                decreases x@.len() - i,
            {
                proof {
                    list_item_is_smaller(*x, i as int);
                    list_model(*a);
                    list_model(*b);
                }
                assert(x.deep_view()[i as int] == x@[i as int]@);
                if !same_tree(&x[i], &y[i]) {
                    return false;
                }
                i += 1;
            }
            true
        },
        (Json::Object(x), Json::Object(y)) => {
            assert(x.deep_view().len() == x@.len() && y.deep_view().len() == y@.len());
            if x.len() != y.len() {
                return false;
            }
            let mut i: usize = 0;
            while i < x.len()
                invariant
                    i <= x@.len() == y@.len(),
                    *a == Json::Object(*x),
                    *b == Json::Object(*y),
                    forall|j: int|
                        0 <= j < i ==> (#[trigger] x.deep_view()[j]).0 == y.deep_view()[j].0 && alike(
                            x.deep_view()[j].1,
                            y.deep_view()[j].1,
                        ),
                decreases x@.len() - i,
            {
                proof {
                    member_is_smaller(*x, i as int);
                    object_model(*a);
                    object_model(*b);
                }
                assert(x.deep_view()[i as int] == (x@[i as int].0@, x@[i as int].1@));
                if !same(&x[i].0, &y[i].0) || !same_tree(&x[i].1, &y[i].1) {
                    return false;
                }
                i += 1;
            }
            true
        },
        _ => false,
    }
}

/// Whether each number of the tree that is no integer is what its own text reads as, each object
/// has its members by ascending name with no name twice, and no value lies deeper than `depth`
/// levels.
pub open spec fn canonical(t: Tree, depth: nat) -> bool
    decreases t,
{
    match t {
        Tree::Number(NumberModel::Float(s)) => json_of_text(s) == Ok::<Tree, Seq<char>>(t),
        Tree::Number(NumberModel::Negative(n)) => n < 0,
        Tree::List(v) => depth > 0 && forall|i: int|
            0 <= i < v.len() ==> canonical(#[trigger] v[i], (depth - 1) as nat),
        Tree::Object(o) => {
            &&& depth > 0
            &&& forall|i: int| 0 <= i < o.len() ==> canonical((#[trigger] o[i]).1, (depth - 1) as nat)
            &&& ascending(o)
        },
        _ => true,
    }
}

/// The deepest nesting that the text form is read back from.
pub const MAX_DEPTH: usize = 127;

#[verifier::external_type_specification]
#[verifier::external_body]
pub struct ExValue(serde_json::Value);

#[verifier::external_type_specification]
#[verifier::external_body]
pub struct ExNumber(serde_json::Number);

/// The decimal text of a `serde_json::Number`.
pub uninterp spec fn number_text(number: serde_json::Number) -> Seq<char>;

/// The text that a `serde_json::Number` displays.
#[verifier::external_body]
pub(crate) fn display_number(number: &serde_json::Number) -> (text: String)
    ensures
        text@ == number_text(*number),
{
    number.to_string()
}

/// `serde_json::Number::clone`: a number of the same text.
#[verifier::external_body]
fn copy_number(number: &serde_json::Number) -> (copy: serde_json::Number)
    ensures
        number_text(copy) == number_text(*number),
{
    number.clone()
}

/// What a `serde_json::Value` holds.
pub uninterp spec fn value_tree(value: Value) -> Tree;

/// What the `serde_json::Value` made of a tree holds.
pub uninterp spec fn settled(tree: Tree) -> Tree;

/// What `serde_json::from_str` reads from a text, or its message.
pub uninterp spec fn json_of_text(text: Seq<char>) -> Result<Tree, Seq<char>>;

/// A text that reads as a tree.
pub open spec fn reads_as(text: Seq<char>, tree: Tree) -> bool {
    json_of_text(text) == Ok::<Tree, Seq<char>>(tree)
}

/// A text that is no JSON, with the message that says why.
pub open spec fn unreadable(text: Seq<char>, message: Seq<char>) -> bool {
    json_of_text(text) == Err::<Tree, Seq<char>>(message)
}

/// What came of reading a text.
pub open spec fn parsed(r: Result<Value, String>) -> Result<Tree, Seq<char>> {
    match r {
        Ok(value) => Ok(value_tree(value)),
        Err(message) => Err(message@),
    }
}

/// The compact text of what a `serde_json::Value` holds.
pub uninterp spec fn text_of_value(tree: Tree) -> Seq<char>;

/// The compact text of a tree.
pub open spec fn json_text(tree: Tree) -> Seq<char> {
    text_of_value(settled(tree))
}

/// The tree that a `serde_json::Value` holds, variant by variant; a number that is no
/// integer is kept as it is.
#[verifier::external_body]
pub(crate) fn lift(value: &Value) -> (json: Json)
    ensures
        json@ == value_tree(*value),
{
    match value {
        Value::Null => Json::Null,
        Value::Bool(b) => Json::Bool(*b),
        Value::Number(n) => Json::Number(match (n.as_u64(), n.as_i64()) {
            (Some(n), _) => Numeral::Positive(n),
            (_, Some(n)) => Numeral::Negative(n),
            _ => Numeral::Float(n.clone()),
        }),
        Value::String(s) => Json::Text(s.clone()),
        Value::Array(v) => Json::List(v.iter().map(lift).collect()),
        Value::Object(o) => {
            Json::Object(o.iter().map(|(k, v)| (k.clone(), lift(v))).collect())
        },
    }
}

/// The `serde_json::Value` made of a tree, variant by variant. A `serde_json::Map` keeps its
/// members by ascending name and holds each name once, so a tree in canonical form is held
/// as it stands.
#[verifier::external_body]
pub(crate) fn lower(json: &Json) -> (value: Value)
    ensures
        value_tree(value) == settled(json@),
        forall|depth: nat| #[trigger] canonical(json@, depth) ==> value_tree(value) == json@,
{
    match json {
        Json::Null => Value::Null,
        Json::Bool(b) => Value::Bool(*b),
        Json::Number(Numeral::Positive(n)) => Value::from(*n),
        Json::Number(Numeral::Negative(n)) => Value::from(*n),
        Json::Number(Numeral::Float(n)) => Value::Number(n.clone()),
        Json::Text(s) => Value::String(s.clone()),
        Json::List(v) => Value::Array(v.iter().map(lower).collect()),
        Json::Object(o) => {
            Value::Object(o.iter().map(|(k, v)| (k.clone(), lower(v))).collect())
        },
    }
}

/// `serde_json::from_str` on a text.
#[verifier::external_body]
fn parse_value(text: &str) -> (r: Result<Value, String>)
    ensures
        json_of_text(text@) == parsed(r),
{
    serde_json::from_str(text).map_err(|error| error.to_string())
}

/// The compact text of a `serde_json::Value`, as it displays. A text written of a value in
/// canonical form of bounded depth is read back as that value, also with a line end behind it:
/// a number within a text is written as it displays and read as it is read alone, and white
/// space behind a value is skipped.
#[verifier::external_body]
fn print_value(value: &Value) -> (text: String)
    ensures
        text@ == text_of_value(value_tree(*value)),
        canonical(value_tree(*value), MAX_DEPTH as nat) ==> reads_as(text@, value_tree(*value)),
        canonical(value_tree(*value), MAX_DEPTH as nat) ==> reads_as(
            text@.push('\n'),
            value_tree(*value),
        ),
{
    value.to_string()
}

/// Reads a JSON text.
pub fn read_json(text: &str) -> (r: Result<Json, String>)
    ensures
        match r {
            Ok(json) => reads_as(text@, json@),
            Err(message) => unreadable(text@, message@),
        },
{
    match parse_value(text) {
        Ok(value) => Ok(lift(&value)),
        Err(message) => Err(message),
    }
}

/// The compact text of a tree.
pub fn write_json(json: &Json) -> (text: String)
    ensures
        text@ == json_text(json@),
        canonical(json@, MAX_DEPTH as nat) ==> reads_as(text@, json@),
        canonical(json@, MAX_DEPTH as nat) ==> reads_as(text@.push('\n'), json@),
{
    print_value(&lower(json))
}

} // verus!
