//! Tables: lists of named rows, kept by ascending name where they are built with [`put_row`];
//! and sets of names in ascending order.

use crate::text::{
    before, lemma_before_irreflexive, lemma_before_total, lemma_before_transitive, precedes, same,
};
use vstd::prelude::*;

verus! {

/// The first row of a name.
pub open spec fn member<V>(o: Seq<(Seq<char>, V)>, name: Seq<char>) -> Option<V>
    decreases o.len(),
{
    if o.len() == 0 {
        None
    } else if o[0].0 == name {
        Some(o[0].1)
    } else {
        member(o.drop_first(), name)
    }
}

/// The rows with one of a name set to a value: in the place of the first of that name, or
/// else before the first whose name comes after it.
pub open spec fn put<V>(o: Seq<(Seq<char>, V)>, name: Seq<char>, value: V) -> Seq<
    (Seq<char>, V),
>
    decreases o.len(),
{
    if o.len() == 0 {
        seq![(name, value)]
    } else if o[0].0 == name {
        seq![(name, value)] + o.drop_first()
    } else if before(name, o[0].0) {
        seq![(name, value)] + o
    } else {
        seq![o[0]] + put(o.drop_first(), name, value)
    }
}

/// Whether the names ascend, so that none stands twice.
pub open spec fn ascending<V>(o: Seq<(Seq<char>, V)>) -> bool {
    forall|i: int, j: int| 0 <= i < j < o.len() ==> before(#[trigger] o[i].0, #[trigger] o[j].0)
}

/// Names ascend if each comes before the next.
pub proof fn lemma_ascending_by_steps<V>(o: Seq<(Seq<char>, V)>)
    requires
        forall|i: int| 0 <= i < o.len() - 1 ==> before((#[trigger] o[i]).0, o[i + 1].0),
    ensures
        ascending(o),
{
    assert forall|i: int, j: int| 0 <= i < j < o.len() implies before(
        #[trigger] o[i].0,
        #[trigger] o[j].0,
    ) by {
        lemma_steps(o, i, j);
    }
}

proof fn lemma_steps<V>(o: Seq<(Seq<char>, V)>, i: int, j: int)
    requires
        0 <= i < j < o.len(),
        forall|i: int| 0 <= i < o.len() - 1 ==> before((#[trigger] o[i]).0, o[i + 1].0),
    ensures
        before(o[i].0, o[j].0),
    decreases j - i,
{
    if j > i + 1 {
        lemma_steps(o, i, j - 1);
        assert(before(o[j - 1].0, o[j - 1 + 1].0));
        lemma_before_transitive(o[i].0, o[j - 1].0, o[j].0);
    } else {
        assert(before(o[i].0, o[i + 1].0));
    }
}

/// The first row of a name.
pub fn find<'a, V: DeepView>(o: &'a Vec<(String, V)>, name: &str) -> (r: Option<&'a V>)
    ensures
        r.deep_view() == member(o.deep_view(), name@),
{
    let mut i: usize = 0;
    let ghost all = o.deep_view();
    assert(all.skip(0) =~= all);
    while i < o.len()
        invariant
            i <= o@.len(),
            all == o.deep_view(),
            member(all, name@) == member(all.skip(i as int), name@),
        decreases o@.len() - i,
    {
        assert(all.skip(i as int).drop_first() =~= all.skip(i + 1));
        assert(all.skip(i as int)[0] == all[i as int]);
        if same(&o[i].0, name) {
            return Some(&o[i].1);
        }
        i += 1;
    }
    None
}

/// Whether there is a row of a name.
pub fn has_row<V: DeepView>(o: &Vec<(String, V)>, name: &str) -> (r: bool)
    ensures
        r == (member(o.deep_view(), name@) is Some),
{
    match find(o, name) {
        Some(_) => true,
        None => false,
    }
}

/// Sets a row.
pub fn put_row<V: DeepView>(o: &mut Vec<(String, V)>, name: &str, value: V)
    ensures
        final(o).deep_view() == put(old(o).deep_view(), name@, value.deep_view()),
{
    let ghost all = o.deep_view();
    let ghost v = value.deep_view();
    let mut i: usize = 0;
    assert(all.take(0) + put(all.skip(0), name@, v) =~= put(all, name@, v)) by {
        assert(all.skip(0) =~= all);
    }
    while i < o.len()
        invariant
            i <= o@.len(),
            all == o.deep_view(),
            *o == *old(o),
            v == value.deep_view(),
            all.take(i as int) + put(all.skip(i as int), name@, v) == put(all, name@, v),
        decreases o@.len() - i,
    {
        let ghost rest = all.skip(i as int);
        assert(rest[0] == all[i as int]);
        assert(rest.drop_first() =~= all.skip(i + 1));
        if same(&o[i].0, name) {
            proof {
                assert(put(rest, name@, v) =~= seq![(name@, v)] + all.skip(i + 1));
            }
            o[i] = (name.to_owned(), value);
            assert(o.deep_view() =~= all.take(i as int) + (seq![(name@, v)] + all.skip(i + 1)));
            return;
        }
        if precedes(name, &o[i].0) {
            o.insert(i, (name.to_owned(), value));
            assert(o.deep_view() =~= all.take(i as int) + (seq![(name@, v)] + rest));
            return;
        }
        proof {
            assert(put(rest, name@, v) =~= seq![rest[0]] + put(rest.drop_first(), name@, v));
            assert(all.take(i + 1) + put(all.skip(i + 1), name@, v) =~= all.take(i as int) + (
            seq![rest[0]] + put(rest.drop_first(), name@, v)));
        }
        i += 1;
    }
    assert(all.skip(i as int) =~= Seq::empty());
    o.push((name.to_owned(), value));
    assert(o.deep_view() =~= all.take(i as int) + seq![(name@, v)]);
}

/// A row that was set is found, and no other row changes.
pub proof fn put_then_member<V>(
    o: Seq<(Seq<char>, V)>,
    name: Seq<char>,
    value: V,
    other: Seq<char>,
)
    ensures
        member(put(o, name, value), name) == Some(value),
        other != name ==> member(put(o, name, value), other) == member(o, other),
    decreases o.len(),
{
    if o.len() == 0 {
        let rest = put(o, name, value).drop_first();
        assert(rest =~= Seq::empty());
        assert(member(rest, other) is None && member(o, other) is None);
    } else if o[0].0 == name {
        assert(put(o, name, value).drop_first() =~= o.drop_first());
    } else if before(name, o[0].0) {
        assert(put(o, name, value).drop_first() =~= o);
    } else {
        put_then_member(o.drop_first(), name, value, other);
        assert(put(o, name, value).drop_first() =~= put(o.drop_first(), name, value));
    }
}

proof fn lemma_put_names<V>(o: Seq<(Seq<char>, V)>, name: Seq<char>, value: V, i: int)
    requires
        0 <= i < put(o, name, value).len(),
    ensures
        put(o, name, value)[i].0 == name || exists|j: int|
            0 <= j < o.len() && put(o, name, value)[i] == #[trigger] o[j],
    decreases o.len(),
{
    let p = put(o, name, value);
    if o.len() == 0 {
    } else if o[0].0 == name {
        if i > 0 {
            assert(p[i] == o[i]);
        }
    } else if before(name, o[0].0) {
        if i > 0 {
            assert(p[i] == o[i - 1]);
        }
    } else if i == 0 {
        assert(p[0] == o[0]);
    } else {
        let q = put(o.drop_first(), name, value);
        assert(p[i] == q[i - 1]);
        lemma_put_names(o.drop_first(), name, value, i - 1);
        if q[i - 1].0 != name {
            let j = choose|j: int|
                0 <= j < o.drop_first().len() && q[i - 1] == #[trigger] o.drop_first()[j];
            assert(o.drop_first()[j] == o[j + 1]);
        }
    }
}

/// Setting a row of a new name adds one row.
pub proof fn lemma_put_len<V>(o: Seq<(Seq<char>, V)>, name: Seq<char>, value: V)
    ensures
        member(o, name) is None ==> put(o, name, value).len() == o.len() + 1,
    decreases o.len(),
{
    if o.len() > 0 {
        lemma_put_len(o.drop_first(), name, value);
    }
}

/// Setting a row keeps the names ascending.
pub proof fn put_stays_ascending<V>(o: Seq<(Seq<char>, V)>, name: Seq<char>, value: V)
    requires
        ascending(o),
    ensures
        ascending(put(o, name, value)),
    decreases o.len(),
{
    let p = put(o, name, value);
    if o.len() == 0 {
    } else if o[0].0 == name {
        assert forall|i: int, j: int| 0 <= i < j < p.len() implies before(
            #[trigger] p[i].0,
            #[trigger] p[j].0,
        ) by {
            assert(p[i].0 == o[i].0 && p[j].0 == o[j].0);
        }
    } else if before(name, o[0].0) {
        assert forall|i: int, j: int| 0 <= i < j < p.len() implies before(
            #[trigger] p[i].0,
            #[trigger] p[j].0,
        ) by {
            assert(p[j] == o[j - 1]);
            if i == 0 {
                if j > 1 {
                    lemma_before_transitive(name, o[0].0, o[j - 1].0);
                }
            } else {
                assert(p[i] == o[i - 1]);
            }
        }
    } else {
        let rest = o.drop_first();
        assert forall|i: int, j: int| 0 <= i < j < rest.len() implies before(
            #[trigger] rest[i].0,
            #[trigger] rest[j].0,
        ) by {
            assert(rest[i] == o[i + 1] && rest[j] == o[j + 1]);
        }
        put_stays_ascending(rest, name, value);
        lemma_before_total(name, o[0].0);
        let q = put(rest, name, value);
        assert forall|i: int, j: int| 0 <= i < j < p.len() implies before(
            #[trigger] p[i].0,
            #[trigger] p[j].0,
        ) by {
            assert(p[j] == q[j - 1]);
            if i == 0 {
                lemma_put_names(rest, name, value, j - 1);
                if q[j - 1].0 != name {
                    let k = choose|k: int| 0 <= k < rest.len() && q[j - 1] == #[trigger] rest[k];
                    assert(rest[k] == o[k + 1]);
                }
            } else {
                assert(p[i] == q[i - 1]);
            }
        }
    }
}

/// In a table with ascending names, a row is found by its name.
pub proof fn lemma_row_is_found<V>(o: Seq<(Seq<char>, V)>, i: int)
    requires
        ascending(o),
        0 <= i < o.len(),
    ensures
        member(o, o[i].0) == Some(o[i].1),
    decreases o.len(),
{
    if i > 0 {
        let rest = o.drop_first();
        lemma_before_irreflexive(o[0].0);
        assert(before(o[0].0, o[i].0));
        assert forall|a: int, b: int| 0 <= a < b < rest.len() implies before(
            #[trigger] rest[a].0,
            #[trigger] rest[b].0,
        ) by {
            assert(rest[a] == o[a + 1] && rest[b] == o[b + 1]);
        }
        assert(rest[i - 1] == o[i]);
        lemma_row_is_found(rest, i - 1);
    }
}

/// The first row of a name is the one that is found.
pub proof fn lemma_first_row<V>(o: Seq<(Seq<char>, V)>, name: Seq<char>, k: int)
    requires
        0 <= k < o.len(),
        o[k].0 == name,
        forall|j: int| 0 <= j < k ==> (#[trigger] o[j]).0 != name,
    ensures
        member(o, name) == Some(o[k].1),
    decreases k,
{
    if k > 0 {
        let rest = o.drop_first();
        assert(o[0].0 != name);
        assert forall|j: int| 0 <= j < k - 1 implies (#[trigger] rest[j]).0 != name by {
            assert(rest[j] == o[j + 1]);
        }
        lemma_first_row(rest, name, k - 1);
    }
}

/// A name that no row has is not found.
pub proof fn lemma_no_row<V>(o: Seq<(Seq<char>, V)>, name: Seq<char>)
    requires
        forall|j: int| 0 <= j < o.len() ==> (#[trigger] o[j]).0 != name,
    ensures
        member(o, name) is None,
    decreases o.len(),
{
    if o.len() > 0 {
        let rest = o.drop_first();
        assert(o[0].0 != name);
        assert forall|j: int| 0 <= j < rest.len() implies (#[trigger] rest[j]).0 != name by {
            assert(rest[j] == o[j + 1]);
        }
        lemma_no_row(rest, name);
    }
}

/// A name is looked for in the first of two tables, and then in the second.
pub proof fn lemma_member_add<V>(
    a: Seq<(Seq<char>, V)>,
    b: Seq<(Seq<char>, V)>,
    name: Seq<char>,
)
    ensures
        member(a + b, name) == (if member(a, name) is Some {
            member(a, name)
        } else {
            member(b, name)
        }),
    decreases a.len(),
{
    let all = a + b;
    if a.len() == 0 {
        assert(all =~= b);
    } else {
        assert(all[0] == a[0]);
        assert(all.drop_first() =~= a.drop_first() + b);
        if a[0].0 != name {
            lemma_member_add(a.drop_first(), b, name);
        }
    }
}

/// The only row of a table.
pub proof fn lemma_one_row<V>(row: (Seq<char>, V), name: Seq<char>)
    ensures
        member(seq![row], name) == (if row.0 == name {
            Some(row.1)
        } else {
            None
        }),
        member(Seq::<(Seq<char>, V)>::empty(), name) is None,
{
    let o = seq![row];
    assert(o[0] == row);
    assert(o.drop_first() =~= Seq::empty());
}

/// What is found by a name is a row of that name.
pub proof fn lemma_found_is_row<V>(o: Seq<(Seq<char>, V)>, name: Seq<char>)
    requires
        member(o, name) is Some,
    ensures
        exists|i: int| 0 <= i < o.len() && #[trigger] o[i] == (name, member(o, name)->0),
    decreases o.len(),
{
    if o[0].0 == name {
        assert(o[0] == (name, member(o, name)->0));
    } else {
        lemma_found_is_row(o.drop_first(), name);
        let i = choose|i: int|
            0 <= i < o.drop_first().len() && #[trigger] o.drop_first()[i] == (
                name,
                member(o, name)->0,
            );
        assert(o[i + 1] == (name, member(o, name)->0));
    }
}

/// Whether a list of names holds one.
pub fn holds(v: &Vec<String>, name: &str) -> (r: bool)
    ensures
        r == v.deep_view().contains(name@),
{
    let mut i: usize = 0;
    while i < v.len()
        invariant
            i <= v@.len(),
            forall|j: int| 0 <= j < i ==> v.deep_view()[j] != name@,
        decreases v@.len() - i,
    {
        if same(&v[i], name) {
            assert(v.deep_view()[i as int] == name@);
            return true;
        }
        i += 1;
    }
    false
}

/// A copy of a list of texts.
pub fn copy_texts(v: &Vec<String>) -> (r: Vec<String>)
    ensures
        r.deep_view() == v.deep_view(),
{
    let mut out: Vec<String> = Vec::new();
    let mut i: usize = 0;
    while i < v.len()
        invariant
            i <= v@.len(),
            out@.len() == i,
            forall|j: int| 0 <= j < i ==> (#[trigger] out@[j])@ == v@[j]@,
        decreases v@.len() - i,
    {
        out.push(v[i].clone());
        i += 1;
    }
    assert(out.deep_view() =~= v.deep_view());
    out
}

/// Whether no name stands twice.
pub fn all_differ(v: &Vec<String>) -> (r: bool)
    ensures
        r == v.deep_view().no_duplicates(),
{
    let ghost all = v.deep_view();
    let mut i: usize = 0;
    while i < v.len()
        invariant
            i <= v@.len(),
            all == v.deep_view(),
            forall|a: int, b: int| 0 <= a < b < i ==> all[a] != all[b],
        decreases v@.len() - i,
    {
        let mut j: usize = 0;
        while j < i
            invariant
                j <= i < v@.len(),
                all == v.deep_view(),
                forall|a: int| 0 <= a < j ==> all[a] != all[i as int],
            decreases i - j,
        {
            if same(&v[i], &v[j]) {
                assert(all[i as int] == all[j as int]);
                return false;
            }
            j += 1;
        }
        i += 1;
    }
    true
}

/// A set of names in ascending order, with one more name.
pub open spec fn enter(v: Seq<Seq<char>>, name: Seq<char>) -> Seq<Seq<char>>
    decreases v.len(),
{
    if v.len() == 0 {
        seq![name]
    } else if v[0] == name {
        v
    } else if before(name, v[0]) {
        seq![name] + v
    } else {
        seq![v[0]] + enter(v.drop_first(), name)
    }
}

/// The names in ascending order, each once.
pub open spec fn in_order(names: Seq<Seq<char>>) -> Seq<Seq<char>>
    decreases names.len(),
{
    if names.len() == 0 {
        Seq::empty()
    } else {
        enter(in_order(names.drop_last()), names.last())
    }
}

/// Whether names ascend.
pub open spec fn sorted(v: Seq<Seq<char>>) -> bool {
    forall|i: int, j: int| 0 <= i < j < v.len() ==> before(#[trigger] v[i], #[trigger] v[j])
}

/// Adds a name to a set of names in ascending order. Whether it was new.
pub fn enter_name(v: &mut Vec<String>, name: &str) -> (r: bool)
    requires
        sorted(old(v).deep_view()),
    ensures
        final(v).deep_view() == enter(old(v).deep_view(), name@),
        sorted(final(v).deep_view()),
        r == !old(v).deep_view().contains(name@),
{
    let ghost all = v.deep_view();
    proof {
        lemma_enter_sorted(all, name@);
    }
    let mut i: usize = 0;
    assert(all.skip(0) =~= all);
    assert(all.take(0) + enter(all.skip(0), name@) =~= enter(all, name@));
    while i < v.len()
        invariant
            i <= v@.len(),
            all == v.deep_view(),
            *v == *old(v),
            sorted(all),
            sorted(enter(all, name@)),
            all.take(i as int) + enter(all.skip(i as int), name@) == enter(all, name@),
            forall|j: int| 0 <= j < i ==> all[j] != name@,
        decreases v@.len() - i,
    {
        let ghost rest = all.skip(i as int);
        assert(rest[0] == all[i as int]);
        assert(rest.drop_first() =~= all.skip(i + 1));
        if same(&v[i], name) {
            assert(all.take(i as int) + rest =~= all);
            assert(all[i as int] == name@);
            return false;
        }
        if precedes(name, &v[i]) {
            v.insert(i, name.to_owned());
            assert(v.deep_view() =~= all.take(i as int) + (seq![name@] + rest));
            proof {
                assert forall|j: int| 0 <= j < all.len() implies all[j] != name@ by {
                    lemma_before_irreflexive(name@);
                    if j > i {
                        lemma_before_transitive(name@, all[i as int], all[j]);
                    }
                }
            }
            return true;
        }
        proof {
            assert(enter(rest, name@) =~= seq![rest[0]] + enter(rest.drop_first(), name@));
            assert(all.take(i + 1) + enter(all.skip(i + 1), name@) =~= all.take(i as int) + (
            seq![rest[0]] + enter(rest.drop_first(), name@)));
        }
        i += 1;
    }
    assert(all.skip(i as int) =~= Seq::empty());
    v.push(name.to_owned());
    assert(v.deep_view() =~= all.take(i as int) + seq![name@]);
    true
}

/// A name that was added is there, the others stay, and nothing else comes.
pub proof fn lemma_enter_members(v: Seq<Seq<char>>, name: Seq<char>, other: Seq<char>)
    ensures
        enter(v, name).contains(other) == (other == name || v.contains(other)),
    decreases v.len(),
{
    let e = enter(v, name);
    if v.len() == 0 {
        assert(e[0] == name);
    } else if v[0] == name {
        assert(v.contains(name));
    } else if before(name, v[0]) {
        assert(e[0] == name);
        if v.contains(other) {
            let i = choose|i: int| 0 <= i < v.len() && v[i] == other;
            assert(e[i + 1] == other);
        }
        if e.contains(other) && other != name {
            let i = choose|i: int| 0 <= i < e.len() && e[i] == other;
            assert(v[i - 1] == other);
        }
    } else {
        let rest = v.drop_first();
        let q = enter(rest, name);
        lemma_enter_members(rest, name, other);
        if v.contains(other) {
            let i = choose|i: int| 0 <= i < v.len() && v[i] == other;
            if i == 0 {
                assert(e[0] == other);
            } else {
                assert(rest[i - 1] == other);
            }
        }
        if q.contains(other) {
            let i = choose|i: int| 0 <= i < q.len() && q[i] == other;
            assert(e[i + 1] == other);
        }
        if e.contains(other) {
            let i = choose|i: int| 0 <= i < e.len() && e[i] == other;
            if i == 0 {
                assert(v[0] == other);
            } else {
                assert(q[i - 1] == other);
                if rest.contains(other) {
                    let k = choose|k: int| 0 <= k < rest.len() && rest[k] == other;
                    assert(v[k + 1] == other);
                }
            }
        }
    }
}

pub proof fn lemma_enter_sorted(v: Seq<Seq<char>>, name: Seq<char>)
    requires
        sorted(v),
    ensures
        sorted(enter(v, name)),
    decreases v.len(),
{
    let e = enter(v, name);
    if v.len() == 0 || v[0] == name {
    } else if before(name, v[0]) {
        assert forall|i: int, j: int| 0 <= i < j < e.len() implies before(
            #[trigger] e[i],
            #[trigger] e[j],
        ) by {
            assert(e[j] == v[j - 1]);
            if i == 0 {
                if j > 1 {
                    lemma_before_transitive(name, v[0], v[j - 1]);
                }
            } else {
                assert(e[i] == v[i - 1]);
            }
        }
    } else {
        let rest = v.drop_first();
        assert forall|i: int, j: int| 0 <= i < j < rest.len() implies before(
            #[trigger] rest[i],
            #[trigger] rest[j],
        ) by {
            assert(rest[i] == v[i + 1] && rest[j] == v[j + 1]);
        }
        lemma_enter_sorted(rest, name);
        lemma_before_total(name, v[0]);
        let q = enter(rest, name);
        assert forall|i: int, j: int| 0 <= i < j < e.len() implies before(
            #[trigger] e[i],
            #[trigger] e[j],
        ) by {
            assert(e[j] == q[j - 1]);
            if i == 0 {
                lemma_enter_members(rest, name, q[j - 1]);
                if q[j - 1] != name {
                    let k = choose|k: int| 0 <= k < rest.len() && rest[k] == q[j - 1];
                    assert(rest[k] == v[k + 1]);
                }
            } else {
                assert(e[i] == q[i - 1]);
            }
        }
    }
}

/// Names put in order ascend, and are the same names.
pub proof fn in_order_keeps_names(names: Seq<Seq<char>>, name: Seq<char>)
    ensures
        sorted(in_order(names)),
        in_order(names).contains(name) == names.contains(name),
    decreases names.len(),
{
    if names.len() > 0 {
        in_order_keeps_names(names.drop_last(), name);
        lemma_enter_sorted(in_order(names.drop_last()), names.last());
        lemma_enter_members(in_order(names.drop_last()), names.last(), name);
        if names.contains(name) {
            let i = choose|i: int| 0 <= i < names.len() && names[i] == name;
            if i < names.len() - 1 {
                assert(names.drop_last()[i] == name);
            }
        }
        if names.drop_last().contains(name) {
            let i = choose|i: int|
                0 <= i < names.drop_last().len() && names.drop_last()[i] == name;
            assert(names[i] == name);
        }
        assert(names[names.len() - 1] == names.last());
    }
}

/// The names in ascending order, each once.
pub fn put_in_order(names: &Vec<String>) -> (r: Vec<String>)
    ensures
        r.deep_view() == in_order(names.deep_view()),
        sorted(r.deep_view()),
{
    let mut out: Vec<String> = Vec::new();
    let ghost all = names.deep_view();
    assert(out.deep_view() =~= Seq::empty());
    assert(all.take(0) =~= Seq::empty());
    let mut i: usize = 0;
    while i < names.len()
        invariant
            i <= names@.len(),
            all == names.deep_view(),
            sorted(out.deep_view()),
            out.deep_view() == in_order(all.take(i as int)),
        decreases names@.len() - i,
    {
        let _ = enter_name(&mut out, &names[i]);
        assert(all.take(i + 1).drop_last() =~= all.take(i as int));
        i += 1;
    }
    assert(all.take(i as int) =~= all);
    out
}

/// The texts one behind another, with a separator between them.
pub open spec fn joined(v: Seq<Seq<char>>, separator: Seq<char>) -> Seq<char>
    decreases v.len(),
{
    if v.len() == 0 {
        Seq::empty()
    } else if v.len() == 1 {
        v[0]
    } else {
        joined(v.drop_last(), separator) + separator + v.last()
    }
}

/// The texts one behind another, with a separator between them.
pub fn join(v: &Vec<String>, separator: &str) -> (r: String)
    ensures
        r@ == joined(v.deep_view(), separator@),
{
    assert(v.deep_view().take(v@.len() as int) =~= v.deep_view());
    join_some(v, v.len(), separator)
}

/// The first `n` texts one behind another, with a separator between them.
pub fn join_some(v: &Vec<String>, n: usize, separator: &str) -> (r: String)
    requires
        n <= v@.len(),
    ensures
        r@ == joined(v.deep_view().take(n as int), separator@),
{
    let mut out = String::new();
    let ghost all = v.deep_view();
    let mut i: usize = 0;
    while i < n
        invariant
            i <= n <= v@.len(),
            all == v.deep_view(),
            out@ == joined(all.take(i as int), separator@),
        decreases n - i,
    {
        if i > 0 {
            out.push_str(separator);
        }
        out.push_str(&v[i]);
        assert(all.take(i + 1).drop_last() =~= all.take(i as int));
        proof {
            if i == 0 {
                assert(out@ =~= all[0]);
            }
        }
        i += 1;
    }
    out
}

} // verus!
