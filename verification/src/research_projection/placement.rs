//! Where the entities of a record stand in its graph.

use crate::research_record::ledger::{Accepted, AcceptedRecord};
use crate::research_record::queries::viable_parent;
use crate::research_record::types::{Entity, EntityKind, Relation, RelationKind, ResearchRelation};
use crate::table::{
    ascending, find, has_row, lemma_found_is_row, lemma_row_is_found, member, put, put_row,
    put_then_member,
};
use crate::text::{lemma_before_irreflexive, same};
use vstd::prelude::*;

verus! {

/// How an entity hangs below its parent.
pub struct ParentLink {
    pub relation: ResearchRelation,
    pub parent_entity_id: String,
    pub edge_kind: &'static str,
}

/// What a [`ParentLink`] holds.
#[verifier::ext_equal]
pub struct Link {
    pub relation: Relation,
    pub parent: Seq<char>,
    pub edge_kind: Seq<char>,
}

impl DeepView for ParentLink {
    type V = Link;

    open spec fn deep_view(&self) -> Link {
        Link {
            relation: self.relation.deep_view(),
            parent: self.parent_entity_id@,
            edge_kind: self.edge_kind@,
        }
    }
}

/// Where an entity stands.
pub struct Placement {
    pub root_entity_id: String,
    pub parent: Option<ParentLink>,
}

/// What a [`Placement`] holds.
#[verifier::ext_equal]
pub struct Place {
    pub root: Seq<char>,
    pub parent: Option<Link>,
}

impl DeepView for Placement {
    type V = Place;

    open spec fn deep_view(&self) -> Place {
        Place { root: self.root_entity_id@, parent: self.parent.deep_view() }
    }
}

/// The ways in which a relation can make one entity the parent of another.
#[derive(Clone, Copy, PartialEq, Eq, Structural)]
pub enum Tie {
    Repair,
    Continuation,
    Decomposition,
    Fork,
    Product,
    Subject,
    Answer,
}

/// Whether an entity is of a kind.
pub open spec fn is_kind(a: Accepted, id: Seq<char>, kind: EntityKind) -> bool {
    match member(a.entities, id) {
        Some(entity) => entity.kind == kind,
        None => false,
    }
}

/// Whether a relation ties an entity to a parent. A whole that came to nothing is no parent of
/// its parts, and an investigation forks off a question only.
pub open spec fn ties(a: Accepted, tie: Tie, r: Relation, id: Seq<char>) -> bool {
    match tie {
        Tie::Repair => r.kind == RelationKind::Repairs && r.from == id,
        Tie::Continuation => r.kind == RelationKind::ContinuesFrom && r.from == id,
        Tie::Decomposition => r.kind == RelationKind::Decomposes && r.to == id && viable_parent(
            a,
            r.from,
        ),
        Tie::Fork => r.kind == RelationKind::Investigates && r.from == id && is_kind(
            a,
            r.to,
            EntityKind::Question,
        ),
        Tie::Product => r.kind == RelationKind::Produces && r.to == id,
        Tie::Subject => r.kind == RelationKind::Investigates && r.to == id,
        Tie::Answer => r.kind == RelationKind::Addresses && r.from == id,
    }
}

/// The link that a relation makes.
pub open spec fn tied(a: Accepted, tie: Tie, r: Relation, id: Seq<char>) -> Link {
    match tie {
        Tie::Repair => Link { relation: r, parent: r.to, edge_kind: "repair"@ },
        Tie::Continuation => Link { relation: r, parent: r.to, edge_kind: "continuation"@ },
        Tie::Decomposition => Link { relation: r, parent: r.from, edge_kind: "decomposition"@ },
        Tie::Fork => Link { relation: r, parent: r.to, edge_kind: "fork"@ },
        Tie::Product => Link {
            relation: r,
            parent: r.from,
            edge_kind: if is_kind(a, id, EntityKind::Claim) {
                "refinement"@
            } else {
                "verification"@
            },
        },
        Tie::Subject => Link { relation: r, parent: r.from, edge_kind: "refinement"@ },
        Tie::Answer => Link { relation: r, parent: r.to, edge_kind: "integration"@ },
    }
}

/// The first link of a kind, by the ids of the relations, from position `i` on.
pub open spec fn first_tied(a: Accepted, tie: Tie, id: Seq<char>, i: nat) -> Option<Link>
    decreases a.relations.len() - i,
{
    if i >= a.relations.len() {
        None
    } else if ties(a, tie, a.relations[i as int].1, id) {
        Some(tied(a, tie, a.relations[i as int].1, id))
    } else {
        first_tied(a, tie, id, i + 1)
    }
}

/// The first of two links that there is.
pub open spec fn either(first: Option<Link>, second: Option<Link>) -> Option<Link> {
    if first is Some {
        first
    } else {
        second
    }
}

/// The strongest link of an entity.
pub open spec fn strongest(a: Accepted, id: Seq<char>) -> Option<Link> {
    match member(a.entities, id) {
        None => None,
        Some(entity) => match entity.kind {
            EntityKind::Investigation => either(
                first_tied(a, Tie::Repair, id, 0),
                either(
                    first_tied(a, Tie::Continuation, id, 0),
                    either(
                        first_tied(a, Tie::Decomposition, id, 0),
                        first_tied(a, Tie::Fork, id, 0),
                    ),
                ),
            ),
            EntityKind::Observation => first_tied(a, Tie::Product, id, 0),
            EntityKind::Artifact => first_tied(a, Tie::Product, id, 0),
            EntityKind::Claim => either(
                first_tied(a, Tie::Product, id, 0),
                first_tied(a, Tie::Subject, id, 0),
            ),
            EntityKind::Synthesis => first_tied(a, Tie::Answer, id, 0),
            EntityKind::Question => None,
        },
    }
}

/// Whether an entity can be placed: the parent of its strongest link is.
pub open spec fn ready(a: Accepted, id: Seq<char>, placed: Seq<(Seq<char>, Place)>) -> bool {
    match strongest(a, id) {
        Some(link) => member(placed, link.parent) is Some,
        None => false,
    }
}

/// The first entity from position `i` on that can be placed.
pub open spec fn first_ready(
    a: Accepted,
    pending: Seq<Seq<char>>,
    placed: Seq<(Seq<char>, Place)>,
    i: nat,
) -> nat
    decreases pending.len() - i,
{
    if i >= pending.len() || ready(a, pending[i as int], placed) {
        i
    } else {
        first_ready(a, pending, placed, i + 1)
    }
}

/// Where an entity that can be placed stands.
pub open spec fn place_of(a: Accepted, id: Seq<char>, placed: Seq<(Seq<char>, Place)>) -> Place {
    let link = strongest(a, id)->0;
    Place { root: member(placed, link.parent)->0.root, parent: Some(link) }
}

/// The placements, with those of the entities that can be placed one after the other.
pub open spec fn settled(
    a: Accepted,
    pending: Seq<Seq<char>>,
    placed: Seq<(Seq<char>, Place)>,
) -> Seq<(Seq<char>, Place)>
    decreases pending.len(),
{
    let k = first_ready(a, pending, placed, 0);
    if k >= pending.len() {
        placed
    } else {
        settled(
            a,
            pending.take(k as int) + pending.skip(k as int + 1),
            put(placed, pending[k as int], place_of(a, pending[k as int], placed)),
        )
    }
}

/// The questions among the first `n` entities, each its own root.
pub open spec fn rooted(entities: Seq<(Seq<char>, Entity)>, n: nat) -> Seq<(Seq<char>, Place)>
    decreases n,
{
    if n == 0 {
        Seq::empty()
    } else {
        let rest = rooted(entities, (n - 1) as nat);
        let (id, entity) = entities[n - 1];
        if entity.kind == EntityKind::Question {
            put(rest, id, Place { root: id, parent: None })
        } else {
            rest
        }
    }
}

/// The ids of the first `n` entities that are no questions.
pub open spec fn unrooted(entities: Seq<(Seq<char>, Entity)>, n: nat) -> Seq<Seq<char>>
    decreases n,
{
    if n == 0 {
        Seq::empty()
    } else {
        let rest = unrooted(entities, (n - 1) as nat);
        if entities[n - 1].1.kind == EntityKind::Question {
            rest
        } else {
            rest.push(entities[n - 1].0)
        }
    }
}

/// Where the entities stand. One that has no strongest link, or whose parent stands nowhere,
/// stands nowhere.
pub open spec fn placed_of(a: Accepted) -> Seq<(Seq<char>, Place)> {
    settled(a, unrooted(a.entities, a.entities.len()), rooted(a.entities, a.entities.len()))
}

fn has_kind(a: &AcceptedRecord, id: &str, kind: EntityKind) -> (r: bool)
    ensures
        r == is_kind(a.deep_view(), id@, kind),
{
    match find(&a.entities, id) {
        Some(entity) => entity.kind == kind,
        None => false,
    }
}

fn tie_holds(a: &AcceptedRecord, tie: Tie, r: &ResearchRelation, id: &str) -> (x: bool)
    ensures
        x == ties(a.deep_view(), tie, r.deep_view(), id@),
{
    match tie {
        Tie::Repair => r.kind == RelationKind::Repairs && same(&r.from, id),
        Tie::Continuation => r.kind == RelationKind::ContinuesFrom && same(&r.from, id),
        Tie::Decomposition => r.kind == RelationKind::Decomposes && same(&r.to, id)
            && a.viable_decomposition_parent(&r.from),
        Tie::Fork => r.kind == RelationKind::Investigates && same(&r.from, id) && has_kind(
            a,
            &r.to,
            EntityKind::Question,
        ),
        Tie::Product => r.kind == RelationKind::Produces && same(&r.to, id),
        Tie::Subject => r.kind == RelationKind::Investigates && same(&r.to, id),
        Tie::Answer => r.kind == RelationKind::Addresses && same(&r.from, id),
    }
}

fn tie_link(a: &AcceptedRecord, tie: Tie, r: &ResearchRelation, id: &str) -> (x: ParentLink)
    ensures
        x.deep_view() == tied(a.deep_view(), tie, r.deep_view(), id@),
{
    let (parent, edge_kind) = match tie {
        Tie::Repair => (&r.to, "repair"),
        Tie::Continuation => (&r.to, "continuation"),
        Tie::Decomposition => (&r.from, "decomposition"),
        Tie::Fork => (&r.to, "fork"),
        Tie::Product => (
            &r.from,
            if has_kind(a, id, EntityKind::Claim) {
                "refinement"
            } else {
                "verification"
            },
        ),
        Tie::Subject => (&r.from, "refinement"),
        Tie::Answer => (&r.to, "integration"),
    };
    ParentLink { relation: r.clone(), parent_entity_id: parent.clone(), edge_kind }
}

fn find_tied(a: &AcceptedRecord, tie: Tie, id: &str) -> (r: Option<ParentLink>)
    ensures
        r.deep_view() == first_tied(a.deep_view(), tie, id@, 0),
{
    let mut i: usize = 0;
    assert(a.deep_view().relations.len() == a.relations@.len());
    while i < a.relations.len()
        invariant
            i <= a.relations@.len(),
            a.deep_view().relations.len() == a.relations@.len(),
            first_tied(a.deep_view(), tie, id@, 0) == first_tied(
                a.deep_view(),
                tie,
                id@,
                i as nat,
            ),
        decreases a.relations@.len() - i,
    {
        let relation = &a.relations[i].1;
        assert(a.deep_view().relations[i as int].1 == relation.deep_view());
        if tie_holds(a, tie, relation, id) {
            return Some(tie_link(a, tie, relation, id));
        }
        i += 1;
    }
    None
}

fn find_strongest(a: &AcceptedRecord, id: &str) -> (r: Option<ParentLink>)
    ensures
        r.deep_view() == strongest(a.deep_view(), id@),
{
    let kind = match find(&a.entities, id) {
        Some(entity) => entity.kind,
        None => return None,
    };
    match kind {
        EntityKind::Investigation => {
            let link = find_tied(a, Tie::Repair, id);
            if link.is_some() {
                return link;
            }
            let link = find_tied(a, Tie::Continuation, id);
            if link.is_some() {
                return link;
            }
            let link = find_tied(a, Tie::Decomposition, id);
            if link.is_some() {
                return link;
            }
            find_tied(a, Tie::Fork, id)
        },
        EntityKind::Observation => find_tied(a, Tie::Product, id),
        EntityKind::Artifact => find_tied(a, Tie::Product, id),
        EntityKind::Claim => {
            let link = find_tied(a, Tie::Product, id);
            if link.is_some() {
                return link;
            }
            find_tied(a, Tie::Subject, id)
        },
        EntityKind::Synthesis => find_tied(a, Tie::Answer, id),
        EntityKind::Question => None,
    }
}

/// The link by which an entity can be placed.
pub fn parent_link(a: &AcceptedRecord, id: &str, placed: &Vec<(String, Placement)>) -> (r: Option<
    ParentLink,
>)
    ensures
        r.deep_view() == (if ready(a.deep_view(), id@, placed.deep_view()) {
            strongest(a.deep_view(), id@)
        } else {
            None
        }),
{
    match find_strongest(a, id) {
        Some(link) => if has_row(placed, &link.parent_entity_id) {
            Some(link)
        } else {
            None
        },
        None => None,
    }
}

fn find_ready(a: &AcceptedRecord, pending: &Vec<String>, placed: &Vec<(String, Placement)>) -> (r:
    Option<(usize, ParentLink)>)
    ensures
        ({
            let k = first_ready(a.deep_view(), pending.deep_view(), placed.deep_view(), 0);
            match r {
                Some((i, link)) => i == k && k < pending@.len() && Some(link.deep_view())
                    == strongest(a.deep_view(), pending@[k as int]@),
                None => k >= pending@.len(),
            }
        }),
{
    let mut i: usize = 0;
    assert(pending.deep_view().len() == pending@.len());
    while i < pending.len()
        invariant
            i <= pending@.len(),
            pending.deep_view().len() == pending@.len(),
            first_ready(a.deep_view(), pending.deep_view(), placed.deep_view(), 0) == first_ready(
                a.deep_view(),
                pending.deep_view(),
                placed.deep_view(),
                i as nat,
            ),
        decreases pending@.len() - i,
    {
        assert(pending.deep_view()[i as int] == pending@[i as int]@);
        if let Some(link) = parent_link(a, &pending[i], placed) {
            return Some((i, link));
        }
        i += 1;
    }
    None
}

/// Where the entities stand.
pub fn place_entities(a: &AcceptedRecord) -> (r: Vec<(String, Placement)>)
    ensures
        r.deep_view() == placed_of(a.deep_view()),
{
    let mut placed: Vec<(String, Placement)> = Vec::new();
    let mut pending: Vec<String> = Vec::new();
    let mut i: usize = 0;
    assert(placed.deep_view() =~= Seq::empty());
    assert(pending.deep_view() =~= Seq::empty());
    assert(a.deep_view().entities.len() == a.entities@.len());
    while i < a.entities.len()
        invariant
            i <= a.entities@.len(),
            placed.deep_view() == rooted(a.deep_view().entities, i as nat),
            pending.deep_view() == unrooted(a.deep_view().entities, i as nat),
        decreases a.entities@.len() - i,
    {
        let row = &a.entities[i];
        assert(a.deep_view().entities[i as int] == (row.0@, row.1.deep_view()));
        if row.1.kind == EntityKind::Question {
            put_row(
                &mut placed,
                &row.0,
                Placement { root_entity_id: row.0.clone(), parent: None },
            );
        } else {
            let ghost was = pending.deep_view();
            pending.push(row.0.clone());
            assert(pending.deep_view() =~= was.push(row.0@));
        }
        i += 1;
    }
    loop
        invariant
            placed_of(a.deep_view()) == settled(
                a.deep_view(),
                pending.deep_view(),
                placed.deep_view(),
            ),
        ensures
            placed.deep_view() == placed_of(a.deep_view()),
        decreases pending@.len(),
    {
        assert(pending.deep_view().len() == pending@.len());
        match find_ready(a, &pending, &placed) {
            None => {
                break;
            },
            Some((k, link)) => {
                let ghost all = pending.deep_view();
                let ghost stood = placed.deep_view();
                let root = match find(&placed, &link.parent_entity_id) {
                    Some(parent) => parent.root_entity_id.clone(),
                    None => String::new(),
                };
                proof {
                    lemma_first_ready(a.deep_view(), all, stood, 0);
                    assert(all[k as int] == pending@[k as int]@);
                }
                let id = pending.remove(k);
                assert(pending.deep_view() =~= all.take(k as int) + all.skip(k + 1));
                put_row(&mut placed, &id, Placement { root_entity_id: root, parent: Some(link) });
            },
        }
    }
    placed
}

proof fn lemma_first_ready(
    a: Accepted,
    pending: Seq<Seq<char>>,
    placed: Seq<(Seq<char>, Place)>,
    i: nat,
)
    requires
        i <= pending.len(),
    ensures
        ({
            let k = first_ready(a, pending, placed, i);
            &&& i <= k <= pending.len()
            &&& k < pending.len() ==> ready(a, pending[k as int], placed)
            &&& forall|j: int| i <= j < k ==> !ready(a, #[trigger] pending[j], placed)
        }),
    decreases pending.len() - i,
{
    if i < pending.len() && !ready(a, pending[i as int], placed) {
        lemma_first_ready(a, pending, placed, i + 1);
    }
}

/// Whether an entity stands where it must: a question is its own root, and any other hangs below
/// the parent of its strongest link, and has the root of that.
pub open spec fn well_placed(a: Accepted, placed: Seq<(Seq<char>, Place)>, id: Seq<char>) -> bool {
    match member(placed, id) {
        None => true,
        Some(place) => match place.parent {
            None => is_kind(a, id, EntityKind::Question) && place.root == id,
            Some(link) => {
                &&& strongest(a, id) == Some(link)
                &&& member(placed, link.parent) is Some
                &&& member(placed, link.parent)->0.root == place.root
            },
        },
    }
}

/// Whether the way up from an entity ends at a question, and at the root that it names, after so
/// many steps at most.
pub open spec fn reaches_root(
    placed: Seq<(Seq<char>, Place)>,
    id: Seq<char>,
    root: Seq<char>,
    steps: nat,
) -> bool
    decreases steps,
{
    match member(placed, id) {
        None => false,
        Some(place) => place.root == root && match place.parent {
            None => id == root,
            Some(link) => steps > 0 && reaches_root(
                placed,
                link.parent,
                root,
                (steps - 1) as nat,
            ),
        },
    }
}

/// Whether the way up from an entity that is placed ends at its root.
pub open spec fn grounded(placed: Seq<(Seq<char>, Place)>, id: Seq<char>) -> bool {
    match member(placed, id) {
        None => true,
        Some(place) => exists|steps: nat| #[trigger] reaches_root(placed, id, place.root, steps),
    }
}

proof fn lemma_reaches_root_put(
    placed: Seq<(Seq<char>, Place)>,
    id: Seq<char>,
    root: Seq<char>,
    steps: nat,
    new: Seq<char>,
    place: Place,
)
    requires
        reaches_root(placed, id, root, steps),
        member(placed, new) is None,
    ensures
        reaches_root(put(placed, new, place), id, root, steps),
    decreases steps,
{
    put_then_member(placed, new, place, id);
    if let Some(link) = member(placed, id)->0.parent {
        lemma_reaches_root_put(placed, link.parent, root, (steps - 1) as nat, new, place);
    }
}

/// Whether an entity is there that is no question.
spec fn other_kind(a: Accepted, id: Seq<char>) -> bool {
    match member(a.entities, id) {
        Some(entity) => entity.kind != EntityKind::Question,
        None => false,
    }
}

spec fn settling(a: Accepted, pending: Seq<Seq<char>>, placed: Seq<(Seq<char>, Place)>) -> bool {
    &&& pending.no_duplicates()
    &&& forall|i: int|
        0 <= i < pending.len() ==> member(placed, #[trigger] pending[i]) is None && other_kind(
            a,
            pending[i],
        )
    &&& forall|id: Seq<char>| #[trigger] well_placed(a, placed, id)
    &&& forall|id: Seq<char>| #[trigger] grounded(placed, id)
    &&& forall|id: Seq<char>| #[trigger]
        other_kind(a, id) ==> pending.contains(id) || member(placed, id) is Some
}

proof fn lemma_settled(a: Accepted, pending: Seq<Seq<char>>, placed: Seq<(Seq<char>, Place)>)
    requires
        settling(a, pending, placed),
    ensures
        ({
            let last = settled(a, pending, placed);
            &&& forall|id: Seq<char>| #[trigger] well_placed(a, last, id)
            &&& forall|id: Seq<char>| #[trigger] grounded(last, id)
            &&& forall|id: Seq<char>| #[trigger]
                ready(a, id, last) ==> member(last, id) is Some
        }),
    decreases pending.len(),
{
    let k = first_ready(a, pending, placed, 0);
    lemma_first_ready(a, pending, placed, 0);
    if k >= pending.len() {
        assert forall|id: Seq<char>| #[trigger] ready(a, id, placed) implies member(
            placed,
            id,
        ) is Some by {
            assert(other_kind(a, id));
            if pending.contains(id) {
                let j = pending.index_of(id);
                assert(!ready(a, pending[j], placed));
            }
        }
    } else {
        let id = pending[k as int];
        let place = place_of(a, id, placed);
        let less = pending.take(k as int) + pending.skip(k as int + 1);
        let more = put(placed, id, place);
        let link = strongest(a, id)->0;
        assert forall|i: int| 0 <= i < less.len() implies member(
            more,
            #[trigger] less[i],
        ) is None && other_kind(a, less[i]) by {
            let j = if i < k { i } else { i + 1 };
            assert(less[i] == pending[j]);
            put_then_member(placed, id, place, less[i]);
        }
        assert(less.no_duplicates());
        assert forall|other: Seq<char>| #[trigger] well_placed(a, more, other) by {
            put_then_member(placed, id, place, other);
            assert(well_placed(a, placed, other));
            put_then_member(placed, id, place, link.parent);
            if member(more, other) is Some && member(more, other)->0.parent is Some {
                let up = member(more, other)->0.parent->0.parent;
                put_then_member(placed, id, place, up);
            }
        }
        assert forall|other: Seq<char>| #[trigger] grounded(more, other) by {
            put_then_member(placed, id, place, other);
            if other == id {
                assert(grounded(placed, link.parent));
                let root = member(placed, link.parent)->0.root;
                let steps = choose|steps: nat| #[trigger]
                    reaches_root(placed, link.parent, root, steps);
                lemma_reaches_root_put(placed, link.parent, root, steps, id, place);
                assert(reaches_root(more, id, place.root, steps + 1));
            } else if member(placed, other) is Some {
                assert(grounded(placed, other));
                let root = member(placed, other)->0.root;
                let steps = choose|steps: nat| #[trigger] reaches_root(placed, other, root, steps);
                lemma_reaches_root_put(placed, other, root, steps, id, place);
            }
        }
        assert forall|other: Seq<char>| #[trigger] other_kind(a, other) implies less.contains(
            other,
        ) || member(more, other) is Some by {
            put_then_member(placed, id, place, other);
            if other != id && pending.contains(other) {
                let j = pending.index_of(other);
                let i = if j < k { j } else { j - 1 };
                assert(less[i] == other);
            }
        }
        lemma_settled(a, less, more);
    }
}

proof fn lemma_rooted(a: Accepted, n: nat, id: Seq<char>)
    requires
        ascending(a.entities),
        n <= a.entities.len(),
    ensures
        match member(rooted(a.entities, n), id) {
            Some(place) => place == (Place { root: id, parent: None }) && is_kind(
                a,
                id,
                EntityKind::Question,
            ),
            None => true,
        },
    decreases n,
{
    if n > 0 {
        let (name, entity) = a.entities[n - 1];
        lemma_rooted(a, (n - 1) as nat, id);
        lemma_row_is_found(a.entities, n - 1);
        if entity.kind == EntityKind::Question {
            put_then_member(
                rooted(a.entities, (n - 1) as nat),
                name,
                Place { root: name, parent: None },
                id,
            );
        }
    }
}

proof fn lemma_unrooted(a: Accepted, n: nat)
    requires
        ascending(a.entities),
        n <= a.entities.len(),
    ensures
        unrooted(a.entities, n).no_duplicates(),
        forall|i: int|
            0 <= i < unrooted(a.entities, n).len() ==> other_kind(
                a,
                #[trigger] unrooted(a.entities, n)[i],
            ) && exists|j: int|
                0 <= j < n && unrooted(a.entities, n)[i] == (#[trigger] a.entities[j]).0,
        forall|j: int|
            0 <= j < n && (#[trigger] a.entities[j]).1.kind != EntityKind::Question ==> unrooted(
                a.entities,
                n,
            ).contains(a.entities[j].0),
    decreases n,
{
    if n > 0 {
        let m = (n - 1) as nat;
        let rest = unrooted(a.entities, m);
        let all = unrooted(a.entities, n);
        lemma_unrooted(a, m);
        lemma_row_is_found(a.entities, n - 1);
        if a.entities[n - 1].1.kind != EntityKind::Question {
            assert forall|i: int| 0 <= i < rest.len() implies #[trigger] rest[i] != a.entities[n
                - 1].0 by {
                let j = choose|j: int| 0 <= j < m && rest[i] == (#[trigger] a.entities[j]).0;
                lemma_before_irreflexive(a.entities[j].0);
            }
            assert forall|j: int|
                0 <= j < n && (#[trigger] a.entities[j]).1.kind
                    != EntityKind::Question implies all.contains(a.entities[j].0) by {
                if j == n - 1 {
                    assert(all[rest.len() as int] == a.entities[j].0);
                } else {
                    let i = rest.index_of(a.entities[j].0);
                    assert(all[i] == a.entities[j].0);
                }
            }
            assert forall|i: int| 0 <= i < all.len() implies other_kind(a, #[trigger] all[i])
                && exists|j: int| 0 <= j < n && all[i] == (#[trigger] a.entities[j]).0 by {
                if i < rest.len() {
                    assert(all[i] == rest[i]);
                    let j = choose|j: int| 0 <= j < m && rest[i] == (#[trigger] a.entities[j]).0;
                    assert(a.entities[j].0 == all[i]);
                } else {
                    assert(a.entities[n - 1].0 == all[i]);
                }
            }
        } else {
            assert forall|i: int| 0 <= i < all.len() implies other_kind(a, #[trigger] all[i])
                && exists|j: int| 0 <= j < n && all[i] == (#[trigger] a.entities[j]).0 by {
                let j = choose|j: int| 0 <= j < m && rest[i] == (#[trigger] a.entities[j]).0;
                assert(a.entities[j].0 == all[i]);
            }
        }
    }
}

proof fn lemma_settling(a: Accepted)
    requires
        ascending(a.entities),
    ensures
        settling(
            a,
            unrooted(a.entities, a.entities.len()),
            rooted(a.entities, a.entities.len()),
        ),
{
    let n = a.entities.len();
    let pending = unrooted(a.entities, n);
    let placed = rooted(a.entities, n);
    lemma_unrooted(a, n);
    assert forall|i: int| 0 <= i < pending.len() implies member(
        placed,
        #[trigger] pending[i],
    ) is None && other_kind(a, pending[i]) by {
        lemma_rooted(a, n, pending[i]);
    }
    assert forall|id: Seq<char>| #[trigger] well_placed(a, placed, id) by {
        lemma_rooted(a, n, id);
    }
    assert forall|id: Seq<char>| #[trigger] grounded(placed, id) by {
        lemma_rooted(a, n, id);
        if member(placed, id) is Some {
            assert(reaches_root(placed, id, id, 0));
        }
    }
    assert forall|id: Seq<char>| #[trigger] other_kind(a, id) implies pending.contains(id)
        || member(placed, id) is Some by {
        lemma_found_is_row(a.entities, id);
        let j = choose|j: int|
            0 <= j < n && #[trigger] a.entities[j] == (id, member(a.entities, id)->0);
        assert(a.entities[j].1.kind != EntityKind::Question);
    }
}

/// A question is its own root; any other entity that stands in the graph hangs below the parent
/// of its strongest link, whatever else was placed first, and has the root of that.
pub proof fn entities_are_well_placed(a: Accepted, id: Seq<char>)
    requires
        ascending(a.entities),
    ensures
        well_placed(a, placed_of(a), id),
{
    lemma_settling(a);
    lemma_settled(
        a,
        unrooted(a.entities, a.entities.len()),
        rooted(a.entities, a.entities.len()),
    );
}

/// The way up from an entity that stands in the graph ends at its root.
pub proof fn placed_entities_are_grounded(a: Accepted, id: Seq<char>)
    requires
        ascending(a.entities),
    ensures
        grounded(placed_of(a), id),
{
    lemma_settling(a);
    lemma_settled(
        a,
        unrooted(a.entities, a.entities.len()),
        rooted(a.entities, a.entities.len()),
    );
}

/// Only an entity without a strongest link, or one whose parent is left out, is left out.
pub proof fn what_can_be_placed_is_placed(a: Accepted, id: Seq<char>)
    requires
        ascending(a.entities),
        ready(a, id, placed_of(a)),
    ensures
        member(placed_of(a), id) is Some,
{
    lemma_settling(a);
    lemma_settled(
        a,
        unrooted(a.entities, a.entities.len()),
        rooted(a.entities, a.entities.len()),
    );
}

proof fn lemma_question_is_rooted(a: Accepted, n: nat, j: int)
    requires
        0 <= j < n <= a.entities.len(),
        a.entities[j].1.kind == EntityKind::Question,
    ensures
        member(rooted(a.entities, n), a.entities[j].0) is Some,
    decreases n,
{
    let (name, entity) = a.entities[n - 1];
    if j < n - 1 {
        lemma_question_is_rooted(a, (n - 1) as nat, j);
    }
    if entity.kind == EntityKind::Question {
        put_then_member(
            rooted(a.entities, (n - 1) as nat),
            name,
            Place { root: name, parent: None },
            a.entities[j].0,
        );
    }
}

proof fn lemma_settled_keeps(
    a: Accepted,
    pending: Seq<Seq<char>>,
    placed: Seq<(Seq<char>, Place)>,
    id: Seq<char>,
)
    requires
        member(placed, id) is Some,
    ensures
        member(settled(a, pending, placed), id) is Some,
    decreases pending.len(),
{
    let k = first_ready(a, pending, placed, 0);
    if k < pending.len() {
        let place = place_of(a, pending[k as int], placed);
        put_then_member(placed, pending[k as int], place, id);
        lemma_settled_keeps(
            a,
            pending.take(k as int) + pending.skip(k as int + 1),
            put(placed, pending[k as int], place),
            id,
        );
    }
}

/// Every question stands in the graph, as its own root.
pub proof fn questions_are_their_own_roots(a: Accepted, id: Seq<char>)
    requires
        ascending(a.entities),
        is_kind(a, id, EntityKind::Question),
    ensures
        member(placed_of(a), id) == Some(Place { root: id, parent: None }),
{
    let n = a.entities.len();
    lemma_found_is_row(a.entities, id);
    let j = choose|j: int|
        0 <= j < n && #[trigger] a.entities[j] == (id, member(a.entities, id)->0);
    lemma_question_is_rooted(a, n, j);
    lemma_settled_keeps(a, unrooted(a.entities, n), rooted(a.entities, n), id);
    entities_are_well_placed(a, id);
}

} // verus!
