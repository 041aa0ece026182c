//! Revisions: new evidence for a record that the selected graph has already.

use super::fields::{required_json_str, text_in};
use super::sources::{
    event_index, find_event, find_prior, key_of, meaning, persisted_source_key, same_meaning,
    source_at, with_field, with_member, PriorSource, SourceKey, OCCURRENCE_SOURCE_REF_ID,
};
use crate::event::{Event, EventEnvelope};
use crate::json::{alike, same_tree, texts, Json, Members, Tree};
use crate::sdk::{answers, fault, input_error, passes, ExtensionError};
use crate::table::{find, member, put, put_row};
use crate::text::{join3, join5, same};
use vstd::prelude::*;

verus! {

/// Sources by id, and by what they refer to, after source `i` of a list and those behind it. A
/// source that is there already must mean the same.
pub open spec fn merge_from(
    list: Seq<Tree>,
    i: nat,
    by_id: Seq<(Seq<char>, Tree)>,
    by_key: Seq<(SourceKey, Tree)>,
) -> Result<(Seq<(Seq<char>, Tree)>, Seq<(SourceKey, Tree)>), Seq<char>>
    decreases list.len() - i,
{
    if i >= list.len() {
        Ok((by_id, by_key))
    } else {
        let source = list[i as int];
        match text_in(source, "id"@, "causal-dag source ref"@) {
            Err(e) => Err(e),
            Ok(id) => match key_of(source, "causal-dag source ref"@) {
                Err(e) => Err(e),
                Ok(key) => match source_at(by_key, key, by_key.len()) {
                    Some(existing) => if !alike(meaning(existing), meaning(source)) {
                        Err("causal-dag source evidence changed meaning during revision"@)
                    } else {
                        merge_from(list, i + 1, by_id, by_key)
                    },
                    None => match member(by_id, id) {
                        Some(existing) => if !alike(existing, source) {
                            Err(
                                "causal-dag source ref id `"@ + id
                                    + "` changed meaning during revision"@,
                            )
                        } else {
                            merge_from(list, i + 1, by_id, by_key)
                        },
                        None => merge_from(
                            list,
                            i + 1,
                            put(by_id, id, source),
                            by_key.push((key, source)),
                        ),
                    },
                },
            },
        }
    }
}

fn merge_sources(
    list: &Vec<Json>,
    id_start: Members,
    key_start: Vec<PriorSource>,
) -> (r: Result<(Members, Vec<PriorSource>), ExtensionError>)
    ensures
        answers(
            r,
            merge_from(list.deep_view(), 0, id_start.deep_view(), key_start.deep_view()),
        ),
{
    let ghost first = (id_start.deep_view(), key_start.deep_view());
    let mut by_id = id_start;
    let mut by_key = key_start;
    let mut i: usize = 0;
    while i < list.len()
        invariant
            i <= list@.len(),
            first == (id_start.deep_view(), key_start.deep_view()),
            merge_from(list.deep_view(), 0, first.0, first.1) == merge_from(
                list.deep_view(),
                i as nat,
                by_id.deep_view(),
                by_key.deep_view(),
            ),
        decreases list@.len() - i,
    {
        let source = &list[i];
        assert(list.deep_view()[i as int] == source@);
        let id = required_json_str(source, "id", "causal-dag source ref")?;
        let (event_id, payload_pointer) = persisted_source_key(source, "causal-dag source ref")?;
        if let Some(existing) = find_prior(&by_key, &event_id, &payload_pointer) {
            if !same_meaning(existing, source) {
                return Err(
                    input_error("causal-dag source evidence changed meaning during revision"),
                );
            }
        } else if let Some(existing) = find(&by_id, id) {
            if !same_tree(existing, source) {
                return Err(
                    fault(
                        join3(
                            "causal-dag source ref id `",
                            id,
                            "` changed meaning during revision",
                        ),
                    ),
                );
            }
        } else {
            put_row(&mut by_id, id, source.clone());
            let ghost was = by_key.deep_view();
            let entry = PriorSource { event_id, payload_pointer, source: source.clone() };
            let ghost model = entry.deep_view();
            by_key.push(entry);
            assert(by_key.deep_view() =~= was.push(model));
        }
        i += 1;
    }
    Ok((by_id, by_key))
}

/// A revised node with the occurrence anchor that it had: an anchor never changes.
pub open spec fn anchored(previous: Tree, revised: Tree) -> Result<Tree, Seq<char>> {
    let anchor = previous.at("metadata"@).text_at(OCCURRENCE_SOURCE_REF_ID@);
    let new_anchor = revised.at("metadata"@).text_at(OCCURRENCE_SOURCE_REF_ID@);
    if previous.get("root_id"@) is None || anchor is None {
        Ok(revised)
    } else if new_anchor is Some && new_anchor != anchor {
        Err("causal-dag node occurrence anchor changed during revision"@)
    } else {
        Ok(
            with_member(
                revised,
                "metadata"@,
                with_member(
                    revised.at("metadata"@),
                    OCCURRENCE_SOURCE_REF_ID@,
                    Tree::Text(anchor->0),
                ),
            ),
        )
    }
}

fn field_or_null(value: &Json, name: &str) -> (r: Json)
    ensures
        r@ == value@.at(name@),
{
    match value.get(name) {
        Some(found) => found.clone(),
        None => Json::Null,
    }
}

fn preserve_occurrence_anchor(previous: &Json, revised: &Json) -> (r: Result<Json, ExtensionError>)
    ensures
        answers(r, anchored(previous@, revised@)),
{
    if previous.get("root_id").is_none() {
        return Ok(revised.clone());
    }
    let old_metadata = field_or_null(previous, "metadata");
    let new_metadata = field_or_null(revised, "metadata");
    let anchor = match old_metadata.text_at(OCCURRENCE_SOURCE_REF_ID) {
        Some(anchor) => anchor,
        None => return Ok(revised.clone()),
    };
    if let Some(new_anchor) = new_metadata.text_at(OCCURRENCE_SOURCE_REF_ID) {
        if !same(new_anchor, anchor) {
            return Err(
                input_error("causal-dag node occurrence anchor changed during revision"),
            );
        }
    }
    let metadata = with_field(&new_metadata, OCCURRENCE_SOURCE_REF_ID, Json::of_text(anchor));
    Ok(with_field(revised, "metadata", metadata))
}

/// The names of rows.
pub open spec fn names_of<V>(o: Seq<(Seq<char>, V)>) -> Seq<Seq<char>> {
    Seq::new(o.len(), |i: int| o[i].0)
}

/// The values of rows.
pub open spec fn values_of<V>(o: Seq<(Seq<char>, V)>) -> Seq<V> {
    Seq::new(o.len(), |i: int| o[i].1)
}

/// A revised record with the sources that it had and those that came, and with its anchor.
#[verifier::opaque]
pub open spec fn revised_record(previous: Tree, revised: Tree) -> Result<Tree, Seq<char>> {
    match anchored(previous, revised) {
        Err(e) => Err(e),
        Ok(record) => match previous.list_at("source_refs"@) {
            None => Err("active causal-dag record has invalid source_refs"@),
            Some(had) => match record.list_at("source_refs"@) {
                None => Err("revised causal-dag record has invalid source_refs"@),
                Some(came) => match merge_from(had, 0, Seq::empty(), Seq::empty()) {
                    Err(e) => Err(e),
                    Ok((by_id, by_key)) => match merge_from(came, 0, by_id, by_key) {
                        Err(e) => Err(e),
                        Ok((all, _)) => Ok(with_sources(record, all)),
                    },
                },
            },
        },
    }
}

/// A record with its sources and their ids set.
pub open spec fn with_sources(record: Tree, all: Seq<(Seq<char>, Tree)>) -> Tree {
    let listed = with_member(record, "source_refs"@, Tree::List(values_of(all)));
    with_member(
        listed,
        "basis"@,
        with_member(listed.at("basis"@), "source_ref_ids"@, texts(names_of(all))),
    )
}

/// Merges the sources of a record that is revised.
pub fn merge_record_sources(previous: &Json, revised: &Json) -> (r: Result<Json, ExtensionError>)
    ensures
        answers(r, revised_record(previous@, revised@)),
{
    broadcast use {crate::json::list_model, crate::json::object_model};

    reveal(revised_record);
    let record = preserve_occurrence_anchor(previous, revised)?;
    let had = match previous.list_at("source_refs") {
        Some(list) => list,
        None => return Err(input_error("active causal-dag record has invalid source_refs")),
    };
    let came = match record.list_at("source_refs") {
        Some(list) => list,
        None => return Err(input_error("revised causal-dag record has invalid source_refs")),
    };
    let no_ids: Members = Vec::new();
    let no_keys: Vec<PriorSource> = Vec::new();
    assert(no_ids.deep_view() =~= Seq::empty());
    assert(no_keys.deep_view() =~= Seq::empty());
    let (by_id, by_key) = merge_sources(had, no_ids, no_keys)?;
    let (all, _) = merge_sources(came, by_id, by_key)?;
    let mut values: Vec<Json> = Vec::new();
    let mut ids: Vec<String> = Vec::new();
    let mut i: usize = 0;
    while i < all.len()
        invariant
            i <= all@.len(),
            values@.len() == i,
            ids@.len() == i,
            forall|j: int| 0 <= j < i ==> (#[trigger] values@[j])@ == all@[j].1@,
            forall|j: int| 0 <= j < i ==> (#[trigger] ids@[j])@ == all@[j].0@,
        decreases all@.len() - i,
    {
        values.push(all[i].1.clone());
        ids.push(all[i].0.clone());
        i += 1;
    }
    assert(values.deep_view() =~= values_of(all.deep_view()));
    assert(ids.deep_view() =~= names_of(all.deep_view()));
    let listed = with_field(&record, "source_refs", Json::List(values));
    let basis = with_field(
        &field_or_null(&listed, "basis"),
        "source_ref_ids",
        Json::of_texts(&ids),
    );
    Ok(with_field(&listed, "basis", basis))
}

/// A merge keeps the sources that were there.
pub proof fn merged_sources_are_kept(
    list: Seq<Tree>,
    i: nat,
    by_id: Seq<(Seq<char>, Tree)>,
    by_key: Seq<(SourceKey, Tree)>,
    id: Seq<char>,
)
    requires
        merge_from(list, i, by_id, by_key) is Ok,
        member(by_id, id) is Some,
    ensures
        member(merge_from(list, i, by_id, by_key)->Ok_0.0, id) == member(by_id, id),
    decreases list.len() - i,
{
    if i < list.len() {
        let source = list[i as int];
        let new_id = text_in(source, "id"@, "causal-dag source ref"@)->Ok_0;
        let key = key_of(source, "causal-dag source ref"@)->Ok_0;
        if source_at(by_key, key, by_key.len()) is None && member(by_id, new_id) is None {
            crate::table::put_then_member(by_id, new_id, source, id);
            merged_sources_are_kept(
                list,
                i + 1,
                put(by_id, new_id, source),
                by_key.push((key, source)),
                id,
            );
        } else {
            merged_sources_are_kept(list, i + 1, by_id, by_key, id);
        }
    }
}

/// Whether a record cites one of the events at hand.
pub open spec fn cites_current(record: Tree, events: Seq<Event>) -> bool {
    match record.list_at("source_refs"@) {
        None => false,
        Some(list) => exists|i: int|
            0 <= i < list.len() && cites_one(#[trigger] list[i], events),
    }
}

/// Whether a source is one of the events at hand.
pub open spec fn cites_one(source: Tree, events: Seq<Event>) -> bool {
    match source.text_at("event_id"@) {
        Some(id) => event_index(events, id, 0) is Some,
        None => false,
    }
}

/// What is wrong with a revision that cites nothing new.
pub open spec fn stale_fault(
    record: Tree,
    events: Seq<Event>,
    kind: Seq<char>,
    id: Seq<char>,
) -> Option<Seq<char>> {
    if cites_current(record, events) {
        None
    } else {
        Some(
            "incremental causal-dag "@ + kind + " `"@ + id
                + "` must cite at least one newly observed event"@,
        )
    }
}

pub fn require_current_evidence(
    record: &Json,
    events: &Vec<EventEnvelope>,
    kind: &str,
    id: &str,
) -> (r: Result<(), ExtensionError>)
    ensures
        passes(r, stale_fault(record@, events.deep_view(), kind@, id@)),
{
    if let Some(list) = record.list_at("source_refs") {
        let mut i: usize = 0;
        while i < list.len()
            invariant
                i <= list@.len(),
                record@.list_at("source_refs"@) == Some(list.deep_view()),
                forall|j: int|
                    0 <= j < i ==> !cites_one(#[trigger] list.deep_view()[j], events.deep_view()),
            decreases list@.len() - i,
        {
            assert(list.deep_view()[i as int] == list@[i as int]@);
            if let Some(event_id) = list[i].text_at("event_id") {
                if let Some(_) = find_event(events, event_id) {
                    proof {
                        let all = record@.list_at("source_refs"@)->0;
                        assert(cites_one(all[i as int], events.deep_view()));
                        assert(cites_current(record@, events.deep_view()));
                    }
                    return Ok(());
                }
            }
            i += 1;
        }
    }
    Err(
        fault(
            join5(
                "incremental causal-dag ",
                kind,
                " `",
                id,
                "` must cite at least one newly observed event",
            ),
        ),
    )
}

/// What revises a graph must cite something new: a record is taken just where one of its sources
/// is among the events that were observed.
pub proof fn revisions_cite_something_new(
    record: Tree,
    events: Seq<Event>,
    kind: Seq<char>,
    id: Seq<char>,
)
    ensures
        stale_fault(record, events, kind, id) is None <==> exists|i: int, j: int|
            record.list_at("source_refs"@) is Some && 0 <= i < record.list_at(
                "source_refs"@,
            )->0.len() && 0 <= j < events.len() && (#[trigger] record.list_at(
                "source_refs"@,
            )->0[i]).text_at("event_id"@) == Some((#[trigger] events[j]).id),
{
    if record.list_at("source_refs"@) is Some {
        let list = record.list_at("source_refs"@)->0;
        assert forall|i: int| 0 <= i < list.len() implies (cites_one(#[trigger] list[i], events)
            <==> exists|j: int|
            0 <= j < events.len() && list[i].text_at("event_id"@) == Some(
                (#[trigger] events[j]).id,
            )) by {
            if list[i].text_at("event_id"@) is Some {
                lemma_index_of(events, list[i].text_at("event_id"@)->0, 0);
            }
        }
        if cites_current(record, events) {
            let i = choose|i: int| 0 <= i < list.len() && cites_one(#[trigger] list[i], events);
            let j = choose|j: int|
                0 <= j < events.len() && list[i].text_at("event_id"@) == Some(
                    (#[trigger] events[j]).id,
                );
            assert(list[i].text_at("event_id"@) == Some(events[j].id));
        }
        if exists|i: int, j: int|
            0 <= i < list.len() && 0 <= j < events.len() && (#[trigger] list[i]).text_at(
                "event_id"@,
            ) == Some((#[trigger] events[j]).id) {
            let (i, j) = choose|i: int, j: int|
                0 <= i < list.len() && 0 <= j < events.len() && (#[trigger] list[i]).text_at(
                    "event_id"@,
                ) == Some((#[trigger] events[j]).id);
            assert(list[i].text_at("event_id"@) == Some(events[j].id));
            assert(cites_one(list[i], events));
        }
    }
}

proof fn lemma_index_of(events: Seq<Event>, id: Seq<char>, i: nat)
    ensures
        event_index(events, id, i) is Some <==> exists|j: int|
            i <= j < events.len() && (#[trigger] events[j]).id == id,
    decreases events.len() - i,
{
    if i < events.len() {
        lemma_index_of(events, id, i + 1);
        if events[i as int].id == id {
            assert(events[i as int].id == id);
        }
    }
}

} // verus!
