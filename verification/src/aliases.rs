//! Short names that an observer used for events and records, and their meaning.

use crate::json::{Json, Tree};
use crate::projection::sources::{with_field, with_member};
use crate::sdk::{answers, fault, ExtensionError};
use crate::table::{find, member};
use crate::text::{byte_count, byte_len, chars_of, join3};
use vstd::prelude::*;

verus! {

/// The most entries of a table of aliases.
pub const MAX_ALIASES: usize = 4096;

/// The most bytes of an alias.
pub const MAX_ALIAS_BYTES: usize = 16;

/// The most bytes of what an alias stands for.
pub const MAX_ALIASED_BYTES: usize = 128;

/// Whether a character is a decimal digit.
pub open spec fn is_digit(c: char) -> bool {
    0x30 <= c as u32 <= 0x39
}

/// Whether a text is one of some letters with digits behind it.
pub open spec fn alias_form(s: Seq<char>, prefixes: Seq<char>) -> bool {
    &&& s.len() >= 2
    &&& prefixes.contains(s[0])
    &&& forall|i: int| 1 <= i < s.len() ==> is_digit(#[trigger] s[i])
}

fn has_alias_form(s: &str, prefixes: &Vec<char>) -> (r: bool)
    ensures
        r == alias_form(s@, prefixes@),
{
    let v = chars_of(s);
    if v.len() < 2 {
        return false;
    }
    let mut known = false;
    let mut k: usize = 0;
    while k < prefixes.len()
        invariant
            k <= prefixes@.len(),
            v@.len() >= 2,
            known == exists|j: int| 0 <= j < k && #[trigger] prefixes@[j] == v@[0],
        decreases prefixes@.len() - k,
    {
        if prefixes[k] == v[0] {
            known = true;
        }
        k += 1;
    }
    if !known {
        return false;
    }
    let mut i: usize = 1;
    while i < v.len()
        invariant
            v@ == s@,
            1 <= i <= v@.len(),
            forall|j: int| 1 <= j < i ==> is_digit(#[trigger] v@[j]),
        decreases v@.len() - i,
    {
        let u: u32 = v[i] as u32;
        if u < 0x30 || u > 0x39 {
            return false;
        }
        i += 1;
    }
    true
}

/// Whether a row of a table of aliases is in order.
pub open spec fn sound_alias(row: (Seq<char>, Tree), prefixes: Seq<char>) -> bool {
    &&& alias_form(row.0, prefixes)
    &&& byte_len(row.0) <= MAX_ALIAS_BYTES
    &&& match row.1 {
        Tree::Text(id) => id.len() > 0 && byte_len(id) <= MAX_ALIASED_BYTES,
        _ => false,
    }
}

/// The aliases of a table, from row `i` on, behind those found so far.
pub open spec fn aliases_from(
    o: Seq<(Seq<char>, Tree)>,
    field: Seq<char>,
    prefixes: Seq<char>,
    i: nat,
    found: Seq<(Seq<char>, Seq<char>)>,
) -> Result<Seq<(Seq<char>, Seq<char>)>, Seq<char>>
    decreases o.len() - i,
{
    if i >= o.len() {
        Ok(found)
    } else if !sound_alias(o[i as int], prefixes) {
        Err("causal-dag observer-apply "@ + field + " contains an invalid mapping"@)
    } else {
        aliases_from(
            o,
            field,
            prefixes,
            i + 1,
            found.push((o[i as int].0, o[i as int].1->Text_0)),
        )
    }
}

/// The aliases that a field holds; none where it is missing.
pub open spec fn aliases_of(value: Option<Tree>, field: Seq<char>, prefixes: Seq<char>) -> Result<
    Seq<(Seq<char>, Seq<char>)>,
    Seq<char>,
> {
    match value {
        None => Ok(Seq::empty()),
        Some(Tree::Object(o)) => if o.len() > MAX_ALIASES {
            Err("causal-dag observer-apply "@ + field + " exceeds 4096 entries"@)
        } else {
            aliases_from(o, field, prefixes, 0, Seq::empty())
        },
        Some(_) => Err("causal-dag observer-apply "@ + field + " must be an object"@),
    }
}

pub fn parse_aliases(value: Option<&Json>, field: &str, prefixes: &Vec<char>) -> (r: Result<
    Vec<(String, String)>,
    ExtensionError,
>)
    ensures
        answers(r, aliases_of(value.deep_view(), field@, prefixes@)),
{
    broadcast use crate::json::object_model;

    let mut found: Vec<(String, String)> = Vec::new();
    assert(found.deep_view() =~= Seq::empty());
    let o = match value {
        None => return Ok(found),
        Some(Json::Object(o)) => o,
        Some(_) => {
            return Err(
                fault(join3("causal-dag observer-apply ", field, " must be an object")),
            );
        },
    };
    assert(o.deep_view().len() == o@.len());
    if o.len() > MAX_ALIASES {
        return Err(fault(join3("causal-dag observer-apply ", field, " exceeds 4096 entries")));
    }
    let mut i: usize = 0;
    while i < o.len()
        invariant
            i <= o@.len(),
            value.deep_view() == Some(Tree::Object(o.deep_view())),
            o@.len() <= MAX_ALIASES,
            aliases_from(o.deep_view(), field@, prefixes@, 0, Seq::empty()) == aliases_from(
                o.deep_view(),
                field@,
                prefixes@,
                i as nat,
                found.deep_view(),
            ),
        decreases o@.len() - i,
    {
        let alias = &o[i].0;
        assert(o.deep_view()[i as int] == (alias@, o@[i as int].1@));
        let id = match &o[i].1 {
            Json::Text(id) if !id.as_str().is_empty() && byte_count(id) <= MAX_ALIASED_BYTES => {
                Some(id)
            },
            _ => None,
        };
        let fits = has_alias_form(alias, prefixes) && byte_count(alias) <= MAX_ALIAS_BYTES;
        match id {
            Some(id) if fits => {
                let ghost was = found.deep_view();
                found.push((alias.clone(), id.clone()));
                assert(found.deep_view() =~= was.push((alias@, id@)));
            },
            _ => {
                return Err(
                    fault(
                        join3(
                            "causal-dag observer-apply ",
                            field,
                            " contains an invalid mapping",
                        ),
                    ),
                );
            },
        }
        i += 1;
    }
    Ok(found)
}

/// A record with one of its fields resolved.
pub open spec fn renamed(record: Tree, field: Seq<char>, aliases: Seq<(Seq<char>, Seq<char>)>) -> Tree {
    match record.text_at(field) {
        None => record,
        Some(name) => match member(aliases, name) {
            None => record,
            Some(id) => with_member(record, field, Tree::Text(id)),
        },
    }
}

fn rename(record: &Json, field: &str, aliases: &Vec<(String, String)>) -> (r: Json)
    ensures
        r@ == renamed(record@, field@, aliases.deep_view()),
{
    match record.text_at(field) {
        None => record.clone(),
        Some(name) => match find(aliases, name) {
            None => record.clone(),
            Some(id) => with_field(record, field, Json::of_text(id)),
        },
    }
}

/// The sources of a record with their events resolved.
pub open spec fn sources_renamed(record: Tree, aliases: Seq<(Seq<char>, Seq<char>)>) -> Tree {
    match record.list_at("source_refs"@) {
        None => record,
        Some(list) => with_member(
            record,
            "source_refs"@,
            Tree::List(Seq::new(list.len(), |i: int| renamed(list[i], "event_id"@, aliases))),
        ),
    }
}

fn rename_sources(record: &Json, aliases: &Vec<(String, String)>) -> (r: Json)
    ensures
        r@ == sources_renamed(record@, aliases.deep_view()),
{
    broadcast use crate::json::list_model;

    let list = match record.list_at("source_refs") {
        None => return record.clone(),
        Some(list) => list,
    };
    let mut out: Vec<Json> = Vec::new();
    let mut i: usize = 0;
    while i < list.len()
        invariant
            i <= list@.len(),
            out@.len() == i,
            forall|j: int|
                0 <= j < i ==> (#[trigger] out@[j])@ == renamed(
                    list@[j]@,
                    "event_id"@,
                    aliases.deep_view(),
                ),
        decreases list@.len() - i,
    {
        out.push(rename(&list[i], "event_id", aliases));
        i += 1;
    }
    assert(out.deep_view() =~= Seq::new(
        list.deep_view().len(),
        |i: int| renamed(list.deep_view()[i], "event_id"@, aliases.deep_view()),
    ));
    with_field(record, "source_refs", Json::List(out))
}

/// What the aliases of an observer stand for.
pub struct Aliases {
    pub sources: Vec<(String, String)>,
    pub nodes: Vec<(String, String)>,
    pub edges: Vec<(String, String)>,
}

/// What [`Aliases`] hold.
#[verifier::ext_equal]
pub struct Meanings {
    pub sources: Seq<(Seq<char>, Seq<char>)>,
    pub nodes: Seq<(Seq<char>, Seq<char>)>,
    pub edges: Seq<(Seq<char>, Seq<char>)>,
}

impl DeepView for Aliases {
    type V = Meanings;

    open spec fn deep_view(&self) -> Meanings {
        Meanings {
            sources: self.sources.deep_view(),
            nodes: self.nodes.deep_view(),
            edges: self.edges.deep_view(),
        }
    }
}

/// A node with its id, its root and the events of its sources resolved.
pub open spec fn node_resolved(node: Tree, aliases: Meanings) -> Tree {
    renamed(
        renamed(sources_renamed(node, aliases.sources), "id"@, aliases.nodes),
        "root_id"@,
        aliases.nodes,
    )
}

/// An edge with its id, its ends and the events of its sources resolved.
pub open spec fn edge_resolved(edge: Tree, aliases: Meanings) -> Tree {
    renamed(
        renamed(
            renamed(sources_renamed(edge, aliases.sources), "id"@, aliases.edges),
            "from"@,
            aliases.nodes,
        ),
        "to"@,
        aliases.nodes,
    )
}

/// The records of one list of a hint, resolved.
pub open spec fn part_resolved(hints: Tree, nodes: bool, aliases: Meanings) -> Tree {
    let part = if nodes {
        "nodes"@
    } else {
        "edges"@
    };
    match hints.list_at(part) {
        None => hints,
        Some(list) => with_member(
            hints,
            part,
            Tree::List(
                Seq::new(
                    list.len(),
                    |i: int|
                        if nodes {
                            node_resolved(list[i], aliases)
                        } else {
                            edge_resolved(list[i], aliases)
                        },
                ),
            ),
        ),
    }
}

/// A hint with its aliases resolved.
pub open spec fn resolved(hints: Tree, aliases: Meanings) -> Tree {
    part_resolved(part_resolved(hints, true, aliases), false, aliases)
}

fn resolve_part(hints: &Json, nodes: bool, aliases: &Aliases) -> (r: Json)
    ensures
        r@ == part_resolved(hints@, nodes, aliases.deep_view()),
{
    broadcast use crate::json::list_model;

    let part = if nodes {
        "nodes"
    } else {
        "edges"
    };
    let list = match hints.list_at(part) {
        None => return hints.clone(),
        Some(list) => list,
    };
    let mut out: Vec<Json> = Vec::new();
    let mut i: usize = 0;
    while i < list.len()
        invariant
            i <= list@.len(),
            out@.len() == i,
            forall|j: int|
                0 <= j < i ==> (#[trigger] out@[j])@ == (if nodes {
                    node_resolved(list@[j]@, aliases.deep_view())
                } else {
                    edge_resolved(list@[j]@, aliases.deep_view())
                }),
        decreases list@.len() - i,
    {
        let record = rename_sources(&list[i], &aliases.sources);
        let record = if nodes {
            rename(&rename(&record, "id", &aliases.nodes), "root_id", &aliases.nodes)
        } else {
            rename(
                &rename(&rename(&record, "id", &aliases.edges), "from", &aliases.nodes),
                "to",
                &aliases.nodes,
            )
        };
        out.push(record);
        i += 1;
    }
    assert(out.deep_view() =~= Seq::new(
        list.deep_view().len(),
        |i: int|
            if nodes {
                node_resolved(list.deep_view()[i], aliases.deep_view())
            } else {
                edge_resolved(list.deep_view()[i], aliases.deep_view())
            },
    ));
    with_field(hints, part, Json::List(out))
}

/// The hint with its aliases resolved.
pub fn resolve_aliases(hints: &Json, aliases: &Aliases) -> (r: Json)
    ensures
        r@ == resolved(hints@, aliases.deep_view()),
{
    resolve_part(&resolve_part(hints, true, aliases), false, aliases)
}

/// Without aliases a record keeps its names.
pub proof fn nothing_is_renamed_without_aliases(record: Tree, field: Seq<char>)
    ensures
        renamed(record, field, Seq::empty()) == record,
{
}

/// What a record says under a name is replaced where that is an alias, by what the alias stands
/// for; all else that it says stays.
pub proof fn aliases_are_replaced_by_what_they_stand_for(
    record: Tree,
    field: Seq<char>,
    aliases: Seq<(Seq<char>, Seq<char>)>,
    other: Seq<char>,
)
    ensures
        record.text_at(field) is Some && member(aliases, record.text_at(field)->0) is Some
            ==> renamed(record, field, aliases).text_at(field) == member(
            aliases,
            record.text_at(field)->0,
        ),
        record.text_at(field) is Some && member(aliases, record.text_at(field)->0) is None
            ==> renamed(record, field, aliases).text_at(field) == record.text_at(field),
        other != field ==> renamed(record, field, aliases).at(other) == record.at(other),
{
    if record.text_at(field) is Some && member(aliases, record.text_at(field)->0) is Some {
        crate::table::put_then_member(
            record->Object_0,
            field,
            Tree::Text(member(aliases, record.text_at(field)->0)->0),
            other,
        );
    }
}

/// What a name means among aliases: itself, where it is none of them.
pub open spec fn meant(name: Option<Seq<char>>, aliases: Seq<(Seq<char>, Seq<char>)>) -> Option<
    Seq<char>,
> {
    match name {
        None => None,
        Some(name) => match member(aliases, name) {
            Some(id) => Some(id),
            None => Some(name),
        },
    }
}

proof fn lemma_renamed(
    record: Tree,
    field: Seq<char>,
    aliases: Seq<(Seq<char>, Seq<char>)>,
    other: Seq<char>,
)
    ensures
        renamed(record, field, aliases).text_at(field) == meant(record.text_at(field), aliases),
        other != field ==> renamed(record, field, aliases).at(other) == record.at(other),
{
    aliases_are_replaced_by_what_they_stand_for(record, field, aliases, other);
}

proof fn lemma_sources_renamed(
    record: Tree,
    aliases: Seq<(Seq<char>, Seq<char>)>,
    other: Seq<char>,
    i: int,
)
    ensures
        other != "source_refs"@ ==> sources_renamed(record, aliases).at(other) == record.at(other),
        record.list_at("source_refs"@) matches Some(list) ==> {
            let now = sources_renamed(record, aliases).list_at("source_refs"@);
            &&& now is Some && now->0.len() == list.len()
            &&& 0 <= i < list.len() ==> now->0[i].text_at("event_id"@) == meant(
                list[i].text_at("event_id"@),
                aliases,
            )
        },
{
    if record.list_at("source_refs"@) is Some {
        let list = record.list_at("source_refs"@)->0;
        crate::table::put_then_member(
            record->Object_0,
            "source_refs"@,
            Tree::List(Seq::new(list.len(), |i: int| renamed(list[i], "event_id"@, aliases))),
            other,
        );
        if 0 <= i < list.len() {
            lemma_renamed(list[i], "event_id"@, aliases, other);
        }
    }
}

/// A node is meant under the names of nodes, an edge under the names of edges, and its ends under
/// those of nodes; what either cites, under the names of sources. All else stays as it was said.
pub proof fn records_are_resolved_by_their_names(record: Tree, aliases: Meanings, i: int)
    ensures
        ({
            let node = node_resolved(record, aliases);
            &&& node.text_at("id"@) == meant(record.text_at("id"@), aliases.nodes)
            &&& node.text_at("root_id"@) == meant(record.text_at("root_id"@), aliases.nodes)
            &&& node.at("status"@) == record.at("status"@)
            &&& node.at("kind"@) == record.at("kind"@)
            &&& node.at("title"@) == record.at("title"@)
            &&& node.at("summary"@) == record.at("summary"@)
            &&& node.at("basis"@) == record.at("basis"@)
            &&& record.list_at("source_refs"@) matches Some(list) ==> 0 <= i < list.len() ==> {
                &&& node.list_at("source_refs"@) is Some
                &&& node.list_at("source_refs"@)->0[i].text_at("event_id"@) == meant(
                    list[i].text_at("event_id"@),
                    aliases.sources,
                )
            }
        }),
        ({
            let edge = edge_resolved(record, aliases);
            &&& edge.text_at("id"@) == meant(record.text_at("id"@), aliases.edges)
            &&& edge.text_at("from"@) == meant(record.text_at("from"@), aliases.nodes)
            &&& edge.text_at("to"@) == meant(record.text_at("to"@), aliases.nodes)
            &&& edge.at("class"@) == record.at("class"@)
            &&& edge.at("kind"@) == record.at("kind"@)
            &&& edge.at("canonical_backbone"@) == record.at("canonical_backbone"@)
            &&& edge.at("basis"@) == record.at("basis"@)
            &&& record.list_at("source_refs"@) matches Some(list) ==> 0 <= i < list.len() ==> {
                &&& edge.list_at("source_refs"@) is Some
                &&& edge.list_at("source_refs"@)->0[i].text_at("event_id"@) == meant(
                    list[i].text_at("event_id"@),
                    aliases.sources,
                )
            }
        }),
{
    reveal_strlit("id");
    reveal_strlit("root_id");
    reveal_strlit("from");
    reveal_strlit("to");
    reveal_strlit("status");
    reveal_strlit("kind");
    reveal_strlit("title");
    reveal_strlit("summary");
    reveal_strlit("basis");
    reveal_strlit("class");
    reveal_strlit("canonical_backbone");
    reveal_strlit("source_refs");
    assert("id"@.len() == 2 && "to"@.len() == 2 && "id"@[0] == 'i' && "to"@[0] == 't'
        && "root_id"@.len() == 7 && "summary"@.len() == 7 && "root_id"@[0] == 'r' && "summary"@[0]
        == 's' && "from"@.len() == 4 && "kind"@.len() == 4 && "from"@[0] == 'f' && "kind"@[0] == 'k'
        && "status"@.len() == 6 && "title"@.len() == 5 && "basis"@.len() == 5 && "class"@.len() == 5
        && "canonical_backbone"@.len() == 18 && "source_refs"@.len() == 11);
    let s = sources_renamed(record, aliases.sources);
    let names = seq![
        "id"@,
        "root_id"@,
        "from"@,
        "to"@,
        "status"@,
        "kind"@,
        "title"@,
        "summary"@,
        "basis"@,
        "class"@,
        "canonical_backbone"@,
        "source_refs"@,
    ];
    assert forall|k: int| 0 <= k < names.len() implies {
        &&& #[trigger] names[k] != "source_refs"@ ==> s.at(names[k]) == record.at(names[k])
        &&& names[k] != "id"@ ==> renamed(s, "id"@, aliases.nodes).at(names[k]) == s.at(names[k])
        &&& names[k] != "id"@ ==> renamed(s, "id"@, aliases.edges).at(names[k]) == s.at(names[k])
    } by {
        lemma_sources_renamed(record, aliases.sources, names[k], i);
        lemma_renamed(s, "id"@, aliases.nodes, names[k]);
        lemma_renamed(s, "id"@, aliases.edges, names[k]);
    }
    lemma_sources_renamed(record, aliases.sources, "id"@, i);
    let n = renamed(s, "id"@, aliases.nodes);
    let e = renamed(s, "id"@, aliases.edges);
    let f = renamed(e, "from"@, aliases.nodes);
    lemma_renamed(s, "id"@, aliases.nodes, "to"@);
    lemma_renamed(s, "id"@, aliases.edges, "to"@);
    assert forall|k: int| 0 <= k < names.len() implies {
        &&& #[trigger] names[k] != "root_id"@ ==> renamed(n, "root_id"@, aliases.nodes).at(names[k])
            == n.at(names[k])
        &&& names[k] != "from"@ ==> f.at(names[k]) == e.at(names[k])
        &&& names[k] != "to"@ ==> renamed(f, "to"@, aliases.nodes).at(names[k]) == f.at(names[k])
    } by {
        lemma_renamed(n, "root_id"@, aliases.nodes, names[k]);
        lemma_renamed(e, "from"@, aliases.nodes, names[k]);
        lemma_renamed(f, "to"@, aliases.nodes, names[k]);
    }
    lemma_renamed(n, "root_id"@, aliases.nodes, "id"@);
    lemma_renamed(e, "from"@, aliases.nodes, "id"@);
    lemma_renamed(f, "to"@, aliases.nodes, "id"@);
    assert(names[0] == "id"@ && names[1] == "root_id"@ && names[2] == "from"@ && names[3] == "to"@
        && names[4] == "status"@ && names[5] == "kind"@ && names[6] == "title"@ && names[7]
        == "summary"@ && names[8] == "basis"@ && names[9] == "class"@ && names[10]
        == "canonical_backbone"@ && names[11] == "source_refs"@);
}

proof fn lemma_aliases(
    o: Seq<(Seq<char>, Tree)>,
    field: Seq<char>,
    prefixes: Seq<char>,
    i: nat,
    found: Seq<(Seq<char>, Seq<char>)>,
)
    requires
        aliases_from(o, field, prefixes, i, found) is Ok,
        found.len() == i <= o.len(),
        forall|k: int|
            0 <= k < i ==> o[k] == ((#[trigger] found[k]).0, Tree::Text(found[k].1)) && sound_alias(
                o[k],
                prefixes,
            ),
    ensures
        ({
            let all = aliases_from(o, field, prefixes, i, found)->Ok_0;
            &&& all.len() == o.len()
            &&& forall|k: int|
                0 <= k < o.len() ==> o[k] == ((#[trigger] all[k]).0, Tree::Text(all[k].1))
                    && sound_alias(o[k], prefixes)
        }),
    decreases o.len() - i,
{
    if i < o.len() {
        lemma_aliases(
            o,
            field,
            prefixes,
            i + 1,
            found.push((o[i as int].0, o[i as int].1->Text_0)),
        );
    }
}

/// Aliases are taken as they are given, at most 4096 of them: each is one letter and digits, in
/// sixteen bytes, and stands for an id of at most 128 bytes.
pub proof fn aliases_are_taken_as_given(
    o: Seq<(Seq<char>, Tree)>,
    field: Seq<char>,
    prefixes: Seq<char>,
    k: int,
)
    ensures
        aliases_of(Some(Tree::Object(o)), field, prefixes) matches Ok(all) ==> {
            &&& all.len() == o.len() <= 4096
            &&& 0 <= k < o.len() ==> {
                &&& o[k] == (all[k].0, Tree::Text(all[k].1))
                &&& prefixes.contains(all[k].0[0])
                &&& 2 <= all[k].0.len() && byte_len(all[k].0) <= 16
                &&& forall|j: int|
                    1 <= j < all[k].0.len() ==> '0' as u32 <= (#[trigger] all[k].0[j]) as u32
                        <= '9' as u32
                &&& 0 < all[k].1.len() && byte_len(all[k].1) <= 128
            }
        },
        aliases_of(None, field, prefixes) matches Ok(all) ==> all.len() == 0,
{
    if aliases_of(Some(Tree::Object(o)), field, prefixes) is Ok {
        lemma_aliases(o, field, prefixes, 0, Seq::empty());
        if 0 <= k < o.len() {
            let all = aliases_from(o, field, prefixes, 0, Seq::empty())->Ok_0;
            assert(o[k] == (all[k].0, Tree::Text(all[k].1)));
        }
    }
}

} // verus!
