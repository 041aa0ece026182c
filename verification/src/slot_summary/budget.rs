//! Fitting a summary into its budget of bytes.

use super::backbone::{backbone_children, is_shallow};
use super::parts::{
    briefs_of, bullets, dead_end_lines, finite, graph_title, header_of, parts_of, rendered,
    section, summarised_artifact, summarised_projection, summary_lines, too_long, Parts,
    Summarised, SummaryGraph, SummaryParts, MAX_SLOT_BYTES, ROOT_TITLE_BYTES,
};
use super::wording::{bounded, bounded_text, bounded_text_is_bounded};
use crate::json::{Json, Tree};
use crate::projection::forest::Projection;
use crate::sdk::{answers, ExtensionError};
use crate::table::joined;
use crate::text::{
    byte_count, byte_len, decimal, lemma_byte_len_add, lemma_byte_len_bounds,
};
use vstd::prelude::*;

verus! {

/// The parts with open entries left out from the end, until the text fits.
pub open spec fn without_open(p: Parts) -> Parts
    decreases p.open.len(),
{
    if too_long(p) && p.open.len() > 0 {
        without_open(
            Parts { open: p.open.drop_last(), open_hidden: p.open_hidden + 1, ..p },
        )
    } else {
        p
    }
}

/// The parts with entries of the path left out from the start, until the text fits.
pub open spec fn without_path(p: Parts) -> Parts
    decreases p.active_path.len(),
{
    if too_long(p) && p.active_path.len() > 0 {
        without_path(
            Parts {
                active_path: p.active_path.drop_first(),
                active_hidden: p.active_hidden + 1,
                ..p
            },
        )
    } else {
        p
    }
}

/// The bytes of all reasons.
pub open spec fn reason_bytes(entries: Seq<(Seq<char>, Seq<char>)>) -> nat
    decreases entries.len(),
{
    if entries.len() == 0 {
        0
    } else {
        reason_bytes(entries.drop_last()) + byte_len(entries.last().1)
    }
}

/// The last of the longest reasons among the first `n`; none where all are empty.
pub open spec fn longest_reason(entries: Seq<(Seq<char>, Seq<char>)>, n: nat) -> Option<int>
    decreases n,
{
    if n == 0 {
        None
    } else {
        let prior = longest_reason(entries, (n - 1) as nat);
        let here = byte_len(entries[n - 1].1);
        match prior {
            None => if here > 0 {
                Some(n - 1)
            } else {
                None
            },
            Some(k) => if here >= byte_len(entries[k].1) {
                Some(n - 1)
            } else {
                prior
            },
        }
    }
}

/// What is left of a length when it is halved; twelve bytes at least are taken away.
pub open spec fn halved(len: nat) -> nat {
    let less = (if len > 24 {
        len
    } else {
        24
    }) / 2;
    if len > less {
        (len - less) as nat
    } else {
        0
    }
}

/// The entries with the reason at a position shortened.
pub open spec fn shortened(entries: Seq<(Seq<char>, Seq<char>)>, k: int) -> Seq<
    (Seq<char>, Seq<char>),
> {
    entries.update(
        k,
        (entries[k].0, bounded(entries[k].1, halved(byte_len(entries[k].1)))),
    )
}

pub proof fn lemma_longest_reason(entries: Seq<(Seq<char>, Seq<char>)>, n: nat)
    requires
        n <= entries.len(),
    ensures
        longest_reason(entries, n) matches Some(k) ==> 0 <= k < n && byte_len(entries[k].1) > 0,
    decreases n,
{
    if n > 0 {
        lemma_longest_reason(entries, (n - 1) as nat);
    }
}

pub proof fn lemma_reason_bytes_update(
    entries: Seq<(Seq<char>, Seq<char>)>,
    k: int,
    entry: (Seq<char>, Seq<char>),
)
    requires
        0 <= k < entries.len(),
        byte_len(entry.1) < byte_len(entries[k].1),
    ensures
        reason_bytes(entries.update(k, entry)) < reason_bytes(entries),
    decreases entries.len(),
{
    let after = entries.update(k, entry);
    if k == entries.len() - 1 {
        assert(after.drop_last() =~= entries.drop_last());
    } else {
        lemma_reason_bytes_update(entries.drop_last(), k, entry);
        assert(after.drop_last() =~= entries.drop_last().update(k, entry));
    }
}

/// Shortening the longest reason makes the reasons shorter.
pub proof fn lemma_shortened(entries: Seq<(Seq<char>, Seq<char>)>)
    ensures
        longest_reason(entries, entries.len()) matches Some(k) ==> reason_bytes(
            shortened(entries, k),
        ) < reason_bytes(entries),
{
    lemma_longest_reason(entries, entries.len());
    if let Some(k) = longest_reason(entries, entries.len()) {
        let reason = entries[k].1;
        bounded_text_is_bounded(reason, halved(byte_len(reason)));
        lemma_reason_bytes_update(
            entries,
            k,
            (entries[k].0, bounded(reason, halved(byte_len(reason)))),
        );
    }
}

/// The parts with the longest reason shortened again and again, until the text fits.
pub open spec fn with_short_reasons(p: Parts) -> Parts
    decreases reason_bytes(p.dead_ends),
{
    match longest_reason(p.dead_ends, p.dead_ends.len()) {
        None => p,
        Some(k) => if too_long(p) {
            proof {
                lemma_shortened(p.dead_ends);
            }
            with_short_reasons(Parts { dead_ends: shortened(p.dead_ends, k), ..p })
        } else {
            p
        },
    }
}

/// The parts with dead ends left out from the end, until the text fits.
pub open spec fn without_dead_ends(p: Parts) -> Parts
    decreases p.dead_ends.len(),
{
    if too_long(p) && p.dead_ends.len() > 0 {
        without_dead_ends(
            Parts { dead_ends: p.dead_ends.drop_last(), dead_hidden: p.dead_hidden + 1, ..p },
        )
    } else {
        p
    }
}

/// The parts made to fit: first open entries go, then the start of the path, then reasons are
/// shortened, and at last dead ends go.
pub open spec fn fitted(p: Parts) -> Parts {
    without_dead_ends(with_short_reasons(without_path(without_open(p))))
}

proof fn lemma_without_open(p: Parts)
    ensures
        ({
            let q = without_open(p);
            &&& too_long(q) ==> q.open.len() == 0
            &&& q.header == p.header
            &&& q.active_path == p.active_path
            &&& q.active_hidden == p.active_hidden
            &&& q.dead_ends == p.dead_ends
            &&& q.dead_hidden == p.dead_hidden
            &&& q.open_hidden + q.open.len() == p.open_hidden + p.open.len()
        }),
    decreases p.open.len(),
{
    if too_long(p) && p.open.len() > 0 {
        lemma_without_open(
            Parts { open: p.open.drop_last(), open_hidden: p.open_hidden + 1, ..p },
        );
    }
}

proof fn lemma_without_path(p: Parts)
    ensures
        ({
            let q = without_path(p);
            &&& too_long(q) ==> q.active_path.len() == 0 && too_long(p)
            &&& !too_long(p) ==> q == p
            &&& q.header == p.header
            &&& q.open == p.open
            &&& q.open_hidden == p.open_hidden
            &&& q.dead_ends == p.dead_ends
            &&& q.dead_hidden == p.dead_hidden
            &&& q.active_hidden + q.active_path.len() == p.active_hidden + p.active_path.len()
        }),
    decreases p.active_path.len(),
{
    if too_long(p) && p.active_path.len() > 0 {
        lemma_without_path(
            Parts {
                active_path: p.active_path.drop_first(),
                active_hidden: p.active_hidden + 1,
                ..p
            },
        );
    }
}

proof fn lemma_with_short_reasons(p: Parts)
    ensures
        ({
            let q = with_short_reasons(p);
            &&& too_long(q) ==> too_long(p)
            &&& !too_long(p) ==> q == p
            &&& q.header == p.header
            &&& q.open == p.open
            &&& q.open_hidden == p.open_hidden
            &&& q.active_path == p.active_path
            &&& q.active_hidden == p.active_hidden
            &&& q.dead_ends.len() == p.dead_ends.len()
            &&& q.dead_hidden == p.dead_hidden
        }),
    decreases reason_bytes(p.dead_ends),
{
    if let Some(k) = longest_reason(p.dead_ends, p.dead_ends.len()) {
        if too_long(p) {
            lemma_longest_reason(p.dead_ends, p.dead_ends.len());
            lemma_shortened(p.dead_ends);
            lemma_with_short_reasons(Parts { dead_ends: shortened(p.dead_ends, k), ..p });
        }
    }
}

proof fn lemma_without_dead_ends(p: Parts)
    ensures
        ({
            let q = without_dead_ends(p);
            &&& too_long(q) ==> q.dead_ends.len() == 0 && too_long(p)
            &&& !too_long(p) ==> q == p
            &&& q.header == p.header
            &&& q.open == p.open
            &&& q.open_hidden == p.open_hidden
            &&& q.active_path == p.active_path
            &&& q.active_hidden == p.active_hidden
            &&& q.dead_hidden + q.dead_ends.len() == p.dead_hidden + p.dead_ends.len()
        }),
    decreases p.dead_ends.len(),
{
    if too_long(p) && p.dead_ends.len() > 0 {
        lemma_without_dead_ends(
            Parts { dead_ends: p.dead_ends.drop_last(), dead_hidden: p.dead_hidden + 1, ..p },
        );
    }
}

/// A power of ten.
pub open spec fn ten_to(k: nat) -> nat
    decreases k,
{
    if k == 0 {
        1
    } else {
        10 * ten_to((k - 1) as nat)
    }
}

proof fn lemma_digits(n: nat, k: nat)
    requires
        n < ten_to(k),
        k > 0,
    ensures
        decimal(n).len() <= k,
    decreases k,
{
    if n >= 10 {
        reveal_with_fuel(ten_to, 2);
        lemma_digits(n / 10, (k - 1) as nat);
    }
}

proof fn lemma_decimal_bytes(n: nat)
    requires
        n <= u64::MAX,
    ensures
        byte_len(decimal(n)) <= 80,
{
    assert(ten_to(20) == 100000000000000000000) by {
        reveal_with_fuel(ten_to, 21);
    }
    lemma_digits(n, 20);
    lemma_byte_len_bounds(decimal(n));
}

/// Whether a number is one that a machine counts.
pub open spec fn countable(n: nat) -> bool {
    n <= u64::MAX
}

proof fn lemma_header_bytes(graph: Summarised)
    requires
        countable(graph.nodes.len()),
        countable(graph.edges.len()),
    ensures
        byte_len(header_of(graph)) <= 420,
{
    let title = bounded(graph_title(graph, briefs_of(graph)), ROOT_TITLE_BYTES as nat);
    bounded_text_is_bounded(graph_title(graph, briefs_of(graph)), ROOT_TITLE_BYTES as nat);
    let n = decimal(graph.nodes.len());
    let m = decimal(graph.edges.len());
    lemma_decimal_bytes(graph.nodes.len());
    lemma_decimal_bytes(graph.edges.len());
    reveal_strlit("GRAPH: ");
    reveal_strlit(" (");
    reveal_strlit(" nodes, ");
    reveal_strlit(" edges)");
    lemma_byte_len_bounds("GRAPH: "@);
    lemma_byte_len_bounds(" ("@);
    lemma_byte_len_bounds(" nodes, "@);
    lemma_byte_len_bounds(" edges)"@);
    lemma_byte_len_add("GRAPH: "@, title);
    lemma_byte_len_add("GRAPH: "@ + title, " ("@);
    lemma_byte_len_add("GRAPH: "@ + title + " ("@, n);
    lemma_byte_len_add("GRAPH: "@ + title + " ("@ + n, " nodes, "@);
    lemma_byte_len_add("GRAPH: "@ + title + " ("@ + n + " nodes, "@, m);
    lemma_byte_len_add("GRAPH: "@ + title + " ("@ + n + " nodes, "@ + m, " edges)"@);
}

proof fn lemma_joined_bytes(lines: Seq<Seq<char>>)
    requires
        lines.len() > 0,
        byte_len(lines[0]) <= 420,
        forall|i: int| 1 <= i < lines.len() ==> byte_len(#[trigger] lines[i]) <= 110,
    ensures
        byte_len(joined(lines, "\n"@)) <= 420 + (lines.len() - 1) * 114,
    decreases lines.len(),
{
    if lines.len() > 1 {
        let head = lines.drop_last();
        lemma_joined_bytes(head);
        reveal_strlit("\n");
        lemma_byte_len_bounds("\n"@);
        lemma_byte_len_add(joined(head, "\n"@), "\n"@);
        lemma_byte_len_add(joined(head, "\n"@) + "\n"@, lines.last());
        assert(byte_len(lines[lines.len() - 1]) <= 110);
    }
}

proof fn lemma_section_bytes(heading: Seq<char>, hidden: nat)
    requires
        heading.len() <= 11,
        countable(hidden),
    ensures
        ({
            let lines = section(heading, hidden, Seq::empty());
            &&& lines.len() <= 3
            &&& forall|i: int| 0 <= i < lines.len() ==> byte_len(#[trigger] lines[i]) <= 110
        }),
{
    let lines = section(heading, hidden, Seq::empty());
    reveal_strlit(":");
    reveal_strlit("… ");
    reveal_strlit(" more");
    lemma_byte_len_bounds(heading + ":"@);
    lemma_byte_len_bounds("… "@);
    lemma_byte_len_bounds(" more"@);
    lemma_decimal_bytes(hidden);
    lemma_byte_len_add("… "@, decimal(hidden));
    lemma_byte_len_add("… "@ + decimal(hidden), " more"@);
    assert(byte_len(Seq::<char>::empty()) == 0);
    assert forall|i: int| 0 <= i < lines.len() implies byte_len(#[trigger] lines[i]) <= 110 by {
        if i == 0 {
        } else if i == 1 {
        } else {
        }
    }
}

proof fn lemma_bare_summary_fits(p: Parts)
    requires
        byte_len(p.header) <= 420,
        p.open.len() == 0,
        p.active_path.len() == 0,
        p.dead_ends.len() == 0,
        countable(p.open_hidden),
        countable(p.active_hidden),
        countable(p.dead_hidden),
    ensures
        !too_long(p),
{
    reveal(rendered);
    reveal_strlit("DEAD ENDS");
    reveal_strlit("ACTIVE PATH");
    reveal_strlit("OPEN");
    let a = section("DEAD ENDS"@, p.dead_hidden, dead_end_lines(p.dead_ends));
    let b = section("ACTIVE PATH"@, p.active_hidden, bullets(p.active_path));
    let c = section("OPEN"@, p.open_hidden, bullets(p.open));
    assert(dead_end_lines(p.dead_ends) =~= Seq::empty());
    assert(bullets(p.active_path) =~= Seq::empty());
    assert(bullets(p.open) =~= Seq::empty());
    lemma_section_bytes("DEAD ENDS"@, p.dead_hidden);
    lemma_section_bytes("ACTIVE PATH"@, p.active_hidden);
    lemma_section_bytes("OPEN"@, p.open_hidden);
    let lines = summary_lines(p);
    assert(lines =~= seq![p.header] + a + b + c);
    assert forall|i: int| 1 <= i < lines.len() implies byte_len(#[trigger] lines[i]) <= 110 by {
        if i < 1 + a.len() {
            assert(lines[i] == a[i - 1]);
        } else if i < 1 + a.len() + b.len() {
            assert(lines[i] == b[i - 1 - a.len()]);
        } else {
            assert(lines[i] == c[i - 1 - a.len() - b.len()]);
        }
    }
    lemma_joined_bytes(lines);
}

/// A summary always fits its slot.
pub proof fn summaries_fit(graph: Summarised)
    requires
        countable(graph.nodes.len()),
        countable(graph.edges.len()),
        countable(parts_of(graph).active_hidden + parts_of(graph).active_path.len()),
        countable(parts_of(graph).open.len()),
        countable(parts_of(graph).dead_ends.len()),
    ensures
        byte_len(rendered(fitted(parts_of(graph)))) <= MAX_SLOT_BYTES,
{
    let p = parts_of(graph);
    let a = without_open(p);
    let b = without_path(a);
    let c = with_short_reasons(b);
    let d = without_dead_ends(c);
    lemma_without_open(p);
    lemma_without_path(a);
    lemma_with_short_reasons(b);
    lemma_without_dead_ends(c);
    lemma_header_bytes(graph);
    if too_long(d) {
        lemma_bare_summary_fits(d);
    }
}

fn find_longest_reason(entries: &Vec<(String, String)>) -> (r: Option<usize>)
    ensures
        match r {
            Some(k) => k < entries@.len() && longest_reason(entries.deep_view(), entries@.len())
                == Some(k as int),
            None => longest_reason(entries.deep_view(), entries@.len()) is None,
        },
{
    let mut found: Option<usize> = None;
    let mut most: usize = 0;
    let mut i: usize = 0;
    while i < entries.len()
        invariant
            i <= entries@.len(),
            match found {
                Some(k) => k < i && longest_reason(entries.deep_view(), i as nat) == Some(k as int)
                    && most == byte_len(entries.deep_view()[k as int].1),
                None => longest_reason(entries.deep_view(), i as nat) is None && most == 0,
            },
        decreases entries@.len() - i,
    {
        assert(entries.deep_view()[i as int].1 == entries@[i as int].1@);
        let here: usize = byte_count(&entries[i].1);
        if here > 0 && here >= most {
            found = Some(i);
            most = here;
        } else {
            proof {
                if found is Some {
                    lemma_longest_reason(entries.deep_view(), i as nat);
                }
            }
        }
        i += 1;
    }
    found
}

impl SummaryParts {
    fn hide_open(&mut self)
        requires
            old(self).open_hidden + old(self).open@.len() <= usize::MAX,
        ensures
            final(self).deep_view() == without_open(old(self).deep_view()),
            final(self).active_hidden == old(self).active_hidden,
            final(self).active_path == old(self).active_path,
            final(self).dead_hidden == old(self).dead_hidden,
            final(self).dead_ends == old(self).dead_ends,
    {
        let ghost goal = without_open(self.deep_view());
        while self.open.len() > 0 && self.is_too_long()
            invariant
                self.open_hidden + self.open@.len() <= usize::MAX,
                without_open(self.deep_view()) == goal,
                self.active_hidden == old(self).active_hidden,
                self.active_path == old(self).active_path,
                self.dead_hidden == old(self).dead_hidden,
                self.dead_ends == old(self).dead_ends,
            decreases self.open@.len(),
        {
            let ghost was = self.deep_view();
            let _ = self.open.pop();
            self.open_hidden += 1;
            assert(self.deep_view().open =~= was.open.drop_last());
            assert(self.deep_view() =~= (Parts {
                open: was.open.drop_last(),
                open_hidden: was.open_hidden + 1,
                ..was
            }));
        }
        assert(self.deep_view().open.len() == self.open@.len());
    }

    fn hide_path(&mut self)
        requires
            old(self).active_hidden + old(self).active_path@.len() <= usize::MAX,
        ensures
            final(self).deep_view() == without_path(old(self).deep_view()),
            final(self).dead_hidden == old(self).dead_hidden,
            final(self).dead_ends == old(self).dead_ends,
    {
        let ghost goal = without_path(self.deep_view());
        while self.active_path.len() > 0 && self.is_too_long()
            invariant
                self.active_hidden + self.active_path@.len() <= usize::MAX,
                without_path(self.deep_view()) == goal,
                self.dead_hidden == old(self).dead_hidden,
                self.dead_ends == old(self).dead_ends,
            decreases self.active_path@.len(),
        {
            let ghost was = self.deep_view();
            let _ = self.active_path.remove(0);
            self.active_hidden += 1;
            assert(self.deep_view().active_path =~= was.active_path.drop_first());
            assert(self.deep_view() =~= (Parts {
                active_path: was.active_path.drop_first(),
                active_hidden: was.active_hidden + 1,
                ..was
            }));
        }
        assert(self.deep_view().active_path.len() == self.active_path@.len());
    }

    fn shorten_reasons(&mut self)
        ensures
            final(self).deep_view() == with_short_reasons(old(self).deep_view()),
            final(self).dead_hidden == old(self).dead_hidden,
            final(self).dead_ends@.len() == old(self).dead_ends@.len(),
    {
        let ghost goal = with_short_reasons(self.deep_view());
        while self.is_too_long()
            invariant
                goal == with_short_reasons(old(self).deep_view()),
                with_short_reasons(self.deep_view()) == goal,
                self.dead_hidden == old(self).dead_hidden,
                self.dead_ends@.len() == old(self).dead_ends@.len(),
            decreases reason_bytes(self.deep_view().dead_ends),
        {
            let ghost was = self.deep_view();
            assert(was.dead_ends.len() == self.dead_ends@.len());
            let k: usize = match find_longest_reason(&self.dead_ends) {
                Some(k) => k,
                None => {
                    return;
                },
            };
            assert(was.dead_ends[k as int] == (
                self.dead_ends@[k as int].0@,
                self.dead_ends@[k as int].1@,
            ));
            let len: usize = byte_count(&self.dead_ends[k].1);
            let less: usize = (if len > 24 {
                len
            } else {
                24
            }) / 2;
            let keep: usize = if len > less {
                len - less
            } else {
                0
            };
            let entry = (
                self.dead_ends[k].0.clone(),
                bounded_text(&self.dead_ends[k].1, keep),
            );
            self.dead_ends[k] = entry;
            proof {
                lemma_shortened(was.dead_ends);
            }
            assert(self.deep_view().dead_ends =~= shortened(was.dead_ends, k as int));
            assert(self.deep_view() =~= (Parts {
                dead_ends: shortened(was.dead_ends, k as int),
                ..was
            }));
        }
    }

    fn hide_dead_ends(&mut self)
        requires
            old(self).dead_hidden + old(self).dead_ends@.len() <= usize::MAX,
        ensures
            final(self).deep_view() == without_dead_ends(old(self).deep_view()),
    {
        let ghost goal = without_dead_ends(self.deep_view());
        while self.dead_ends.len() > 0 && self.is_too_long()
            invariant
                self.dead_hidden + self.dead_ends@.len() <= usize::MAX,
                without_dead_ends(self.deep_view()) == goal,
            decreases self.dead_ends@.len(),
        {
            let ghost was = self.deep_view();
            let _ = self.dead_ends.pop();
            self.dead_hidden += 1;
            assert(self.deep_view().dead_ends =~= was.dead_ends.drop_last());
            assert(self.deep_view() =~= (Parts {
                dead_ends: was.dead_ends.drop_last(),
                dead_hidden: was.dead_hidden + 1,
                ..was
            }));
        }
        assert(self.deep_view().dead_ends.len() == self.dead_ends@.len());
    }

    /// Makes the text fit.
    pub fn fit_to_budget(&mut self)
        requires
            old(self).open_hidden + old(self).open@.len() <= usize::MAX,
            old(self).active_hidden + old(self).active_path@.len() <= usize::MAX,
            old(self).dead_hidden + old(self).dead_ends@.len() <= usize::MAX,
        ensures
            final(self).deep_view() == fitted(old(self).deep_view()),
    {
        self.hide_open();
        self.hide_path();
        self.shorten_reasons();
        self.hide_dead_ends();
    }
}

impl SummaryGraph {
    /// Whether no way down from the start of the active path runs in a circle.
    pub fn is_finite(&self) -> (r: bool)
        ensures
            r == finite(self.deep_view()),
    {
        let kin = backbone_children(&self.edges);
        assert(kin.deep_view().len() == kin@.len());
        match &self.active_root {
            Some(root) => is_shallow(&kin, root, kin.len()),
            None => {
                if self.roots.len() > 0 {
                    assert(self.roots.deep_view()[0] == self.roots@[0]@);
                    is_shallow(&kin, &self.roots[0], kin.len())
                } else {
                    true
                }
            },
        }
    }
}

/// The summary of a graph.
pub open spec fn summary_of(graph: Summarised) -> Seq<char> {
    rendered(fitted(parts_of(graph)))
}

/// The summary of a graph. It always fits its slot.
pub fn render_graph_summary(graph: &SummaryGraph) -> (r: String)
    requires
        finite(graph.deep_view()),
    ensures
        r@ == summary_of(graph.deep_view()),
        byte_len(r@) <= MAX_SLOT_BYTES,
{
    let mut parts = SummaryParts::from_graph(graph);
    let opens: usize = parts.open.len();
    let ends: usize = parts.dead_ends.len();
    let nodes: usize = graph.nodes.len();
    let edges: usize = graph.edges.len();
    proof {
        let model = graph.deep_view();
        assert(model.nodes.len() == nodes && model.edges.len() == edges);
        assert(parts.deep_view().open.len() == opens);
        assert(parts.deep_view().dead_ends.len() == ends);
        summaries_fit(model);
    }
    parts.fit_to_budget();
    parts.render()
}

/// The summary of a projection; none where its backbone runs in a circle.
pub fn render_slot_summary(projection: &Projection) -> (r: Option<String>)
    ensures
        ({
            let graph = summarised_projection(projection.deep_view());
            match r {
                Some(text) => finite(graph) && text@ == summary_of(graph) && byte_len(text@)
                    <= MAX_SLOT_BYTES,
                None => !finite(graph),
            }
        }),
{
    let graph = SummaryGraph::from_projection(projection);
    if graph.is_finite() {
        Some(render_graph_summary(&graph))
    } else {
        None
    }
}

/// What is read of an artifact that is summarised.
pub open spec fn artifact_summary(artifact: Tree) -> Result<Option<Seq<char>>, Seq<char>> {
    match summarised_artifact(artifact) {
        Err(e) => Err(e),
        Ok(graph) => if finite(graph) {
            Ok(Some(summary_of(graph)))
        } else {
            Ok(None)
        },
    }
}

/// The summary of an artifact; none where its backbone runs in a circle.
pub fn render_artifact_summary(artifact: &Json) -> (r: Result<Option<String>, ExtensionError>)
    ensures
        answers(r, artifact_summary(artifact@)),
        r matches Ok(Some(text)) ==> byte_len(text@) <= MAX_SLOT_BYTES,
{
    let graph = SummaryGraph::from_artifact(artifact)?;
    if graph.is_finite() {
        Ok(Some(render_graph_summary(&graph)))
    } else {
        Ok(None)
    }
}

proof fn lemma_open_kept(p: Parts)
    ensures
        ({
            let f = without_open(p);
            &&& f.open.len() <= p.open.len()
            &&& f.open == p.open.take(f.open.len() as int)
            &&& f.open_hidden + f.open.len() == p.open_hidden + p.open.len()
            &&& f == (Parts { open: f.open, open_hidden: f.open_hidden, ..p })
            &&& f.open.len() > 0 ==> !too_long(f)
        }),
    decreases p.open.len(),
{
    assert(p.open.take(p.open.len() as int) =~= p.open);
    if too_long(p) && p.open.len() > 0 {
        let less = Parts { open: p.open.drop_last(), open_hidden: p.open_hidden + 1, ..p };
        lemma_open_kept(less);
        let f = without_open(p);
        assert(p.open.drop_last().take(f.open.len() as int) =~= p.open.take(f.open.len() as int));
    }
}

proof fn lemma_path_kept(p: Parts)
    ensures
        ({
            let f = without_path(p);
            &&& f.active_path.len() <= p.active_path.len()
            &&& f.active_path == p.active_path.skip(p.active_path.len() - f.active_path.len())
            &&& f.active_hidden + f.active_path.len() == p.active_hidden + p.active_path.len()
            &&& f == (Parts { active_path: f.active_path, active_hidden: f.active_hidden, ..p })
            &&& f.active_path.len() > 0 ==> !too_long(f)
        }),
    decreases p.active_path.len(),
{
    assert(p.active_path.skip(0) =~= p.active_path);
    if too_long(p) && p.active_path.len() > 0 {
        let less = Parts {
            active_path: p.active_path.drop_first(),
            active_hidden: p.active_hidden + 1,
            ..p
        };
        lemma_path_kept(less);
        let f = without_path(p);
        assert(less.active_path.skip(less.active_path.len() - f.active_path.len())
            =~= p.active_path.skip(p.active_path.len() - f.active_path.len()));
    }
}

proof fn lemma_reasons_kept(p: Parts)
    ensures
        ({
            let f = with_short_reasons(p);
            &&& f.dead_ends.len() == p.dead_ends.len()
            &&& forall|i: int|
                0 <= i < p.dead_ends.len() ==> (#[trigger] f.dead_ends[i]).0 == p.dead_ends[i].0
            &&& f == (Parts { dead_ends: f.dead_ends, ..p })
        }),
    decreases reason_bytes(p.dead_ends),
{
    if longest_reason(p.dead_ends, p.dead_ends.len()) is Some && too_long(p) {
        let k = longest_reason(p.dead_ends, p.dead_ends.len())->0;
        lemma_shortened(p.dead_ends);
        lemma_longest_reason(p.dead_ends, p.dead_ends.len());
        let less = Parts { dead_ends: shortened(p.dead_ends, k), ..p };
        lemma_reasons_kept(less);
        let f = with_short_reasons(p);
        assert forall|i: int| 0 <= i < p.dead_ends.len() implies (#[trigger] f.dead_ends[i]).0
            == p.dead_ends[i].0 by {
            assert(less.dead_ends[i].0 == p.dead_ends[i].0);
        }
    }
}

proof fn lemma_dead_ends_kept(p: Parts)
    ensures
        ({
            let f = without_dead_ends(p);
            &&& f.dead_ends.len() <= p.dead_ends.len()
            &&& f.dead_ends == p.dead_ends.take(f.dead_ends.len() as int)
            &&& f.dead_hidden + f.dead_ends.len() == p.dead_hidden + p.dead_ends.len()
            &&& f == (Parts { dead_ends: f.dead_ends, dead_hidden: f.dead_hidden, ..p })
        }),
    decreases p.dead_ends.len(),
{
    assert(p.dead_ends.take(p.dead_ends.len() as int) =~= p.dead_ends);
    if too_long(p) && p.dead_ends.len() > 0 {
        let less = Parts { dead_ends: p.dead_ends.drop_last(), dead_hidden: p.dead_hidden + 1, ..p };
        lemma_dead_ends_kept(less);
        let f = without_dead_ends(p);
        assert(p.dead_ends.drop_last().take(f.dead_ends.len() as int) =~= p.dead_ends.take(
            f.dead_ends.len() as int,
        ));
    }
}

/// What does not fit goes in this order: what is open from the end, then the active path from its
/// start, then the reasons of the dead ends, then the dead ends from the end. What goes is
/// counted, and nothing goes while something that goes before it is still shown.
pub proof fn summaries_hide_what_matters_least(p: Parts, i: int)
    ensures
        ({
            let f = fitted(p);
            &&& f.header == p.header
            &&& f.open.len() <= p.open.len() && f.open == p.open.take(f.open.len() as int)
            &&& f.open_hidden + f.open.len() == p.open_hidden + p.open.len()
            &&& f.active_path.len() <= p.active_path.len() && f.active_path == p.active_path.skip(
                p.active_path.len() - f.active_path.len(),
            )
            &&& f.active_hidden + f.active_path.len() == p.active_hidden + p.active_path.len()
            &&& f.dead_ends.len() <= p.dead_ends.len()
            &&& f.dead_hidden + f.dead_ends.len() == p.dead_hidden + p.dead_ends.len()
            &&& 0 <= i < f.dead_ends.len() ==> f.dead_ends[i].0 == p.dead_ends[i].0
            &&& f.open.len() > 0 ==> f.active_path == p.active_path
            &&& f.open.len() > 0 || f.active_path.len() > 0 ==> f.dead_ends == p.dead_ends
            &&& !too_long(p) ==> f == p
        }),
{
    let a = without_open(p);
    let b = without_path(a);
    let c = with_short_reasons(b);
    lemma_open_kept(p);
    lemma_path_kept(a);
    lemma_reasons_kept(b);
    lemma_dead_ends_kept(c);
}

} // verus!
