//! Whether a summary reached its slot, and what an output says of it.

use crate::json::{Json, Members, Tree};
use crate::sdk::ExtensionError;
use crate::table::{member, put, put_row};
use vstd::prelude::*;

verus! {

/// What came of publishing a summary.
#[derive(Debug, PartialEq, Eq)]
pub enum SlotPublication {
    Published,
    Failed(String),
    NotAttempted,
}

/// What a [`SlotPublication`] holds.
#[verifier::ext_equal]
pub enum Publication {
    Published,
    Failed(Seq<char>),
    NotAttempted,
}

impl DeepView for SlotPublication {
    type V = Publication;

    open spec fn deep_view(&self) -> Publication {
        match self {
            SlotPublication::Published => Publication::Published,
            SlotPublication::Failed(error) => Publication::Failed(error@),
            SlotPublication::NotAttempted => Publication::NotAttempted,
        }
    }
}

impl Clone for SlotPublication {
    fn clone(&self) -> (r: Self)
        ensures
            r.deep_view() == self.deep_view(),
    {
        match self {
            SlotPublication::Published => SlotPublication::Published,
            SlotPublication::Failed(error) => SlotPublication::Failed(error.clone()),
            SlotPublication::NotAttempted => SlotPublication::NotAttempted,
        }
    }
}

/// What came of two publications: the first failure, or else whether one was published.
pub open spec fn merged(a: Publication, b: Publication) -> Publication {
    match (a, b) {
        (Publication::Failed(_), _) => a,
        (_, Publication::Failed(_)) => b,
        (Publication::NotAttempted, Publication::NotAttempted) => Publication::NotAttempted,
        _ => Publication::Published,
    }
}

/// What the host answered to a publication.
pub open spec fn publication_of(answer: Result<(), ExtensionError>) -> Publication {
    match answer {
        Ok(_) => Publication::Published,
        Err(error) => Publication::Failed(error.text()),
    }
}

impl SlotPublication {
    pub fn merge(self, next: Self) -> (r: Self)
        ensures
            r.deep_view() == merged(self.deep_view(), next.deep_view()),
    {
        match (self, next) {
            (SlotPublication::Failed(error), _) => SlotPublication::Failed(error),
            (_, SlotPublication::Failed(error)) => SlotPublication::Failed(error),
            (SlotPublication::NotAttempted, SlotPublication::NotAttempted) => {
                SlotPublication::NotAttempted
            },
            _ => SlotPublication::Published,
        }
    }

    /// What the host answered.
    pub fn from_answer(answer: Result<(), ExtensionError>) -> (r: Self)
        ensures
            r.deep_view() == publication_of(answer),
    {
        match answer {
            Ok(_) => SlotPublication::Published,
            Err(error) => SlotPublication::Failed(error.message()),
        }
    }
}

/// A failure stays, whatever is merged with it, and of two failures the first stays.
pub proof fn failures_stay(a: Publication, b: Publication)
    ensures
        a is Failed ==> merged(a, b) == a,
        !(a is Failed) && b is Failed ==> merged(a, b) == b,
        merged(a, b) is Failed == (a is Failed || b is Failed),
{
}

/// It does not matter in which grouping publications are merged, and one that was not attempted
/// changes nothing.
pub proof fn merging_is_associative(a: Publication, b: Publication, c: Publication)
    ensures
        merged(merged(a, b), c) == merged(a, merged(b, c)),
        merged(a, Publication::NotAttempted) == a,
        merged(Publication::NotAttempted, a) == a,
{
}

/// The members of an output with what came of the publication.
pub open spec fn with_publication(rows: Seq<(Seq<char>, Tree)>, publication: Publication) -> Seq<
    (Seq<char>, Tree),
> {
    match publication {
        Publication::Published => put(rows, "slot_published"@, Tree::Bool(true)),
        Publication::NotAttempted => put(
            put(rows, "slot_published"@, Tree::Bool(false)),
            "slot_error"@,
            Tree::Text("not attempted: no graph artifact persisted"@),
        ),
        Publication::Failed(error) => put(
            put(rows, "slot_published"@, Tree::Bool(false)),
            "slot_error"@,
            Tree::Text(error),
        ),
    }
}

/// The output with what came of the publication.
pub fn with_slot_publication(output: Members, publication: &SlotPublication) -> (r: Json)
    ensures
        r@ == Tree::Object(with_publication(output.deep_view(), publication.deep_view())),
{
    broadcast use crate::json::object_model;

    let mut rows = output;
    match publication {
        SlotPublication::Published => {
            put_row(&mut rows, "slot_published", Json::Bool(true));
        },
        SlotPublication::NotAttempted => {
            put_row(&mut rows, "slot_published", Json::Bool(false));
            put_row(
                &mut rows,
                "slot_error",
                Json::of_text("not attempted: no graph artifact persisted"),
            );
        },
        SlotPublication::Failed(error) => {
            put_row(&mut rows, "slot_published", Json::Bool(false));
            put_row(&mut rows, "slot_error", Json::of_text(error));
        },
    }
    Json::Object(rows)
}

/// What came of a publication is told beside what was told: that the slot was filled, or that it
/// was not and why. Nothing else that was told is changed.
pub proof fn publications_are_told(
    rows: Seq<(Seq<char>, Tree)>,
    publication: Publication,
    name: Seq<char>,
)
    ensures
        ({
            let all = with_publication(rows, publication);
            &&& publication == Publication::Published ==> member(all, "slot_published"@) == Some(
                Tree::Bool(true),
            ) && member(all, "slot_error"@) == member(rows, "slot_error"@)
            &&& publication != Publication::Published ==> member(all, "slot_published"@) == Some(
                Tree::Bool(false),
            )
            &&& publication == Publication::NotAttempted ==> member(all, "slot_error"@) == Some(
                Tree::Text("not attempted: no graph artifact persisted"@),
            )
            &&& publication matches Publication::Failed(error) ==> member(all, "slot_error"@)
                == Some(Tree::Text(error))
            &&& name != "slot_published"@ && name != "slot_error"@ ==> member(all, name) == member(
                rows,
                name,
            )
        }),
{
    reveal_strlit("slot_published");
    reveal_strlit("slot_error");
    assert("slot_published"@.len() == 14 && "slot_error"@.len() == 10);
    let first = Tree::Bool(publication == Publication::Published);
    let put_first = put(rows, "slot_published"@, first);
    let error = if let Publication::Failed(error) = publication {
        Tree::Text(error)
    } else {
        Tree::Text("not attempted: no graph artifact persisted"@)
    };
    crate::table::put_then_member(rows, "slot_published"@, first, name);
    crate::table::put_then_member(rows, "slot_published"@, first, "slot_error"@);
    crate::table::put_then_member(put_first, "slot_error"@, error, name);
    crate::table::put_then_member(put_first, "slot_error"@, error, "slot_published"@);
}

/// A slot is filled where the host took the text, and else the host's word is kept. Of several
/// publications one failure is told, and else that the slot was filled if it ever was.
pub proof fn publications_are_as_the_host_answered(
    answer: Result<(), ExtensionError>,
    a: Publication,
    b: Publication,
)
    ensures
        publication_of(answer) == Publication::Published <==> answer is Ok,
        answer matches Err(e) ==> publication_of(answer) == Publication::Failed(e.text()),
        a matches Publication::Failed(e) ==> merged(a, b) == a,
        !(a is Failed) && b is Failed ==> merged(a, b) == b,
        !(a is Failed) && !(b is Failed) ==> (merged(a, b) == Publication::Published <==> a
            == Publication::Published || b == Publication::Published),
        a == Publication::NotAttempted && b == Publication::NotAttempted ==> merged(a, b)
            == Publication::NotAttempted,
{
}

} // verus!
