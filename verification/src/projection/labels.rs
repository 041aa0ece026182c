//! Labels and numbered ids of projected events.

use crate::text::{before, decimal, decimal_text, decimal_wide, digit, join2, lemma_before_at};
use vstd::prelude::*;
use vstd::utf8::char_u32_cast;

verus! {

/// The letter at a position of the alphabet.
pub open spec fn letter(k: nat) -> char {
    (('A' as u32) + k) as char
}

/// A number in letters: A to Z, then AA to ZZ, and so on; nothing for zero.
pub open spec fn letters(value: nat) -> Seq<char>
    decreases value,
{
    if value == 0 {
        Seq::empty()
    } else {
        letters(((value - 1) / 26) as nat).push(letter(((value - 1) % 26) as nat))
    }
}

fn letter_char(k: usize) -> (c: char)
    requires
        k < 26,
    ensures
        c == letter(k as nat),
{
    let b: u8 = 65 + k as u8;
    b as char
}

/// The number in letters of a position, counted from zero.
pub fn top_level_backbone_label(index: usize) -> (r: String)
    requires
        index < usize::MAX,
    ensures
        r@ == letters(index as nat + 1),
{
    letters_text(index + 1)
}

fn letters_text(value: usize) -> (r: String)
    ensures
        r@ == letters(value as nat),
    decreases value,
{
    if value == 0 {
        String::new()
    } else {
        let mut out = letters_text((value - 1) / 26);
        out.push(letter_char((value - 1) % 26));
        out
    }
}

/// Different numbers have different letters.
pub proof fn letters_tell_numbers_apart(a: nat, b: nat)
    requires
        letters(a) == letters(b),
    ensures
        a == b,
    decreases a,
{
    if a == 0 {
        if b > 0 {
            assert(letters(b).len() > 0);
        }
    } else if b == 0 {
        assert(letters(a).len() > 0);
    } else {
        let la = letters(((a - 1) / 26) as nat);
        let lb = letters(((b - 1) / 26) as nat);
        assert(la =~= letters(a).drop_last());
        assert(lb =~= letters(b).drop_last());
        letters_tell_numbers_apart(((a - 1) / 26) as nat, ((b - 1) / 26) as nat);
        let ka = ((a - 1) % 26) as nat;
        let kb = ((b - 1) % 26) as nat;
        assert(letters(a).last() == letter(ka));
        assert(letters(b).last() == letter(kb));
        assert((letter(ka) as u32) == 65 + ka);
        assert((letter(kb) as u32) == 65 + kb);
    }
}

proof fn lemma_before_push(a: Seq<char>, b: Seq<char>, c: char, d: char)
    requires
        a.len() == b.len(),
        before(a, b),
    ensures
        before(a.push(c), b.push(d)),
    decreases a.len(),
{
    assert(a.push(c)[0] == a[0] && b.push(d)[0] == b[0]);
    if a[0] == b[0] {
        lemma_before_push(a.drop_first(), b.drop_first(), c, d);
        assert(a.push(c).drop_first() =~= a.drop_first().push(c));
        assert(b.push(d).drop_first() =~= b.drop_first().push(d));
    }
}

/// Letters come in order: those of a lesser number are fewer, or as many and before the others.
pub proof fn letters_come_in_order(a: nat, b: nat)
    requires
        a < b,
    ensures
        letters(a).len() < letters(b).len() || (letters(a).len() == letters(b).len() && before(
            letters(a),
            letters(b),
        )),
    decreases b,
{
    if a > 0 {
        let pa = ((a - 1) / 26) as nat;
        let pb = ((b - 1) / 26) as nat;
        let ka = ((a - 1) % 26) as nat;
        let kb = ((b - 1) % 26) as nat;
        assert((letter(ka) as u32) == 65 + ka);
        assert((letter(kb) as u32) == 65 + kb);
        if pa < pb {
            letters_come_in_order(pa, pb);
            if letters(pa).len() == letters(pb).len() {
                lemma_before_push(letters(pa), letters(pb), letter(ka), letter(kb));
            }
        } else {
            assert(pa == pb && ka < kb);
            lemma_before_at(letters(a), letters(b), letters(pa).len() as int);
        }
    }
}

/// Whether a text holds nothing but letters from A to Z.
pub open spec fn in_letters(s: Seq<char>) -> bool {
    forall|i: int| 0 <= i < s.len() ==> 'A' as u32 <= (#[trigger] s[i]) as u32 <= 'Z' as u32
}

/// The number that stands in letters.
pub open spec fn number_of_letters(s: Seq<char>) -> nat
    decreases s.len(),
{
    if s.len() == 0 {
        0
    } else {
        (26 * number_of_letters(s.drop_last()) + (s.last() as u32 - 'A' as u32) + 1) as nat
    }
}

/// Every text of letters is that of a number, and the letters of a number are a text of letters.
pub proof fn every_label_is_reached(s: Seq<char>, n: nat)
    requires
        in_letters(s),
    ensures
        letters(number_of_letters(s)) == s,
        s.len() > 0 ==> number_of_letters(s) > 0,
        in_letters(letters(n)),
        number_of_letters(letters(n)) == n,
    decreases s.len() + n,
{
    if s.len() > 0 {
        let rest = s.drop_last();
        assert forall|i: int| 0 <= i < rest.len() implies 'A' as u32 <= (
        #[trigger] rest[i]) as u32 <= 'Z' as u32 by {
            assert(rest[i] == s[i]);
        }
        every_label_is_reached(rest, n);
        let last = s[s.len() - 1];
        assert('A' as u32 <= last as u32 <= 'Z' as u32);
        let k = (last as u32 - 'A' as u32) as nat;
        let value = number_of_letters(s);
        assert(value - 1 == 26 * number_of_letters(rest) + k);
        assert((value - 1) / 26 == number_of_letters(rest));
        assert((value - 1) % 26 == k as int);
        assert((letter(k) as u32) == 65 + k);
        char_u32_cast(letter(k), last as u32);
        char_u32_cast(last, last as u32);
        assert(letter(k) == last);
        assert(rest.push(last) =~= s);
    } else {
        assert(s =~= letters(0));
        if n > 0 {
            let p = ((n - 1) / 26) as nat;
            let k = ((n - 1) % 26) as nat;
            every_label_is_reached(s, p);
            assert((letter(k) as u32) == 65 + k);
            assert(letters(n).drop_last() =~= letters(p));
            assert(letters(n).last() == letter(k));
            assert forall|i: int| 0 <= i < letters(n).len() implies 'A' as u32 <= (
            #[trigger] letters(n)[i]) as u32 <= 'Z' as u32 by {
                if i < letters(p).len() {
                    assert(letters(n)[i] == letters(p)[i]);
                }
            }
        }
    }
}

/// So many zeros.
pub open spec fn zeros(n: nat) -> Seq<char> {
    Seq::new(n, |i: int| '0')
}

/// A number in decimal, with zeros in front where it has fewer than six digits.
pub open spec fn padded(n: nat) -> Seq<char> {
    if decimal(n).len() < 6 {
        zeros((6 - decimal(n).len()) as nat) + decimal(n)
    } else {
        decimal(n)
    }
}

/// The number behind a position, padded.
pub fn padded_number(index: usize) -> (r: String)
    ensures
        r@ == padded(index as nat + 1),
{
    let digits = decimal_wide(index as u128 + 1);
    let count: usize = digits.as_str().unicode_len();
    let mut out = String::new();
    let mut i: usize = count;
    assert(out@ =~= zeros(0));
    while i < 6
        invariant
            count == digits@.len(),
            count <= i,
            i <= 6 || i == count,
            out@ == zeros((i - count) as nat),
        decreases 6 - i,
    {
        out.push('0');
        assert(out@ =~= zeros((i + 1 - count) as nat));
        i += 1;
    }
    out.push_str(&digits);
    proof {
        if count >= 6 {
            assert(zeros(0) + digits@ =~= digits@);
        }
    }
    out
}

/// The id of the node of an event.
pub open spec fn node_name(index: nat) -> Seq<char> {
    "node-"@ + padded(index + 1)
}

pub fn node_id(index: usize) -> (r: String)
    ensures
        r@ == node_name(index as nat),
{
    join2("node-", &padded_number(index))
}

/// The id of an edge.
pub open spec fn edge_name(index: nat) -> Seq<char> {
    "edge-"@ + padded(index + 1)
}

pub fn edge_id(index: usize) -> (r: String)
    ensures
        r@ == edge_name(index as nat),
{
    join2("edge-", &padded_number(index))
}

/// The id of the source of a node.
pub open spec fn node_source_name(index: nat) -> Seq<char> {
    "src-node-"@ + padded(index + 1)
}

pub fn node_source_ref_id(index: usize) -> (r: String)
    ensures
        r@ == node_source_name(index as nat),
{
    join2("src-node-", &padded_number(index))
}

/// The id of the source of an edge.
pub open spec fn edge_source_name(index: nat) -> Seq<char> {
    "src-edge-"@ + padded(index + 1)
}

pub fn edge_source_ref_id(index: usize) -> (r: String)
    ensures
        r@ == edge_source_name(index as nat),
{
    join2("src-edge-", &padded_number(index))
}

/// So many steps down a single line.
pub open spec fn single_line(steps: nat) -> Seq<char>
    decreases steps,
{
    if steps == 0 {
        Seq::empty()
    } else {
        single_line((steps - 1) as nat) + ".1"@
    }
}

/// The label of an event in a chronology: none for the first, then A, A.1, A.1.1 and so on.
pub open spec fn line_label(index: nat) -> Option<Seq<char>> {
    if index == 0 {
        None
    } else {
        Some("A"@ + single_line((index - 1) as nat))
    }
}

pub fn backbone_label(index: usize) -> (r: Option<String>)
    ensures
        r.deep_view() == line_label(index as nat),
{
    if index == 0 {
        return None;
    }
    let mut out = "A".to_owned();
    let mut i: usize = 1;
    assert(out@ =~= "A"@ + single_line(0));
    while i < index
        invariant
            1 <= i <= index,
            out@ == "A"@ + single_line((i - 1) as nat),
        decreases index - i,
    {
        out.push_str(".1");
        assert(out@ =~= "A"@ + single_line(i as nat));
        i += 1;
    }
    Some(out)
}

/// How many of the first `n` events have the parent that event `i` has.
pub open spec fn rank(ups: Seq<Option<usize>>, i: int, n: nat) -> nat
    decreases n,
{
    if n == 0 {
        0
    } else {
        rank(ups, i, (n - 1) as nat) + (if ups[n - 1] == ups[i] {
            1nat
        } else {
            0
        })
    }
}

fn sibling_rank(ups: &Vec<Option<usize>>, i: usize) -> (r: usize)
    requires
        i < ups@.len(),
    ensures
        r == rank(ups@, i as int, i as nat),
        r <= i,
{
    let mut count: usize = 0;
    let mut j: usize = 0;
    while j < i
        invariant
            j <= i < ups@.len(),
            count <= j,
            count == rank(ups@, i as int, j as nat),
        decreases i - j,
    {
        if ups[j] == ups[i] {
            count += 1;
        }
        j += 1;
    }
    count
}

/// The label of an event in a tree: none for the root, letters for its children, and for every
/// other event the label of its parent with the event's number among its siblings. The way up is
/// followed for at most `steps` steps.
pub open spec fn tree_label(ups: Seq<Option<usize>>, i: int, steps: nat) -> Option<Seq<char>>
    decreases steps,
{
    match ups[i] {
        None => None,
        Some(p) => if steps == 0 {
            None
        } else {
            let number = rank(ups, i, i as nat) + 1;
            match tree_label(ups, p as int, (steps - 1) as nat) {
                None => Some(letters(number)),
                Some(above) => Some(above + "."@ + decimal(number)),
            }
        },
    }
}

/// The label of an event in a tree.
pub fn structural_backbone_label(ups: &Vec<Option<usize>>, i: usize, steps: usize) -> (r: Option<
    String,
>)
    requires
        i < ups@.len(),
        forall|j: int| 0 <= j < ups@.len() ==> (#[trigger] ups@[j] matches Some(p) ==> p < ups@.len()),
    ensures
        r.deep_view() == tree_label(ups@, i as int, steps as nat),
    decreases steps,
{
    let p: usize = match ups[i] {
        None => return None,
        Some(p) => p,
    };
    assert(p < ups@.len());
    if steps == 0 {
        return None;
    }
    let rank: usize = sibling_rank(ups, i);
    assert(rank < ups.len());
    match structural_backbone_label(ups, p, steps - 1) {
        None => Some(top_level_backbone_label(rank)),
        Some(above) => {
            let mut out = above;
            out.push_str(".");
            out.push_str(&decimal_text(rank as u64 + 1));
            Some(out)
        },
    }
}

/// Two events of one parent have different labels.
pub proof fn siblings_have_different_labels(
    ups: Seq<Option<usize>>,
    i: int,
    j: int,
    steps: nat,
)
    requires
        0 <= i < j < ups.len(),
        ups[i] == ups[j],
        ups[i] is Some,
        steps > 0,
    ensures
        tree_label(ups, i, steps) != tree_label(ups, j, steps),
{
    lemma_rank_grows(ups, i, j, i as nat, j as nat);
    let a = rank(ups, i, i as nat);
    let b = rank(ups, j, j as nat);
    let p = ups[i]->0 as int;
    match tree_label(ups, p, (steps - 1) as nat) {
        None => {
            if letters(a + 1) == letters(b + 1) {
                letters_tell_numbers_apart(a + 1, b + 1);
            }
        },
        Some(above) => {
            let x = above + "."@ + decimal(a + 1);
            let y = above + "."@ + decimal(b + 1);
            if x == y {
                let cut = (above + "."@).len() as int;
                assert(x.subrange(cut, x.len() as int) =~= decimal(a + 1));
                assert(y.subrange(cut, y.len() as int) =~= decimal(b + 1));
                decimals_tell_numbers_apart(a + 1, b + 1);
            }
        },
    }
}

/// Different numbers have different digits.
pub proof fn decimals_tell_numbers_apart(a: nat, b: nat)
    requires
        decimal(a) == decimal(b),
    ensures
        a == b,
    decreases a,
{
    lemma_decimal_some(a);
    lemma_decimal_some(b);
    if a < 10 && b < 10 {
        assert(decimal(a)[0] == digit(a));
        assert(decimal(b)[0] == digit(b));
        assert((digit(a) as u32) == 48 + a);
        assert((digit(b) as u32) == 48 + b);
    } else if a < 10 {
        lemma_decimal_some(b / 10);
        assert(decimal(b).len() >= 2);
    } else if b < 10 {
        lemma_decimal_some(a / 10);
        assert(decimal(a).len() >= 2);
    } else {
        assert(decimal(a / 10) =~= decimal(a).drop_last());
        assert(decimal(b / 10) =~= decimal(b).drop_last());
        decimals_tell_numbers_apart(a / 10, b / 10);
        assert(decimal(a).last() == digit(a % 10));
        assert(decimal(b).last() == digit(b % 10));
        assert((digit(a % 10) as u32) == 48 + a % 10);
        assert((digit(b % 10) as u32) == 48 + b % 10);
    }
}

proof fn lemma_decimal_some(n: nat)
    ensures
        decimal(n).len() >= 1,
        n < 10 ==> decimal(n).len() == 1,
{
    reveal_with_fuel(decimal, 2);
}

proof fn lemma_rank_grows(ups: Seq<Option<usize>>, i: int, j: int, m: nat, n: nat)
    requires
        0 <= i < j < ups.len(),
        ups[i] == ups[j],
        i <= m <= n,
        m == i,
    ensures
        n > i ==> rank(ups, j, n) > rank(ups, i, m),
        n == i ==> rank(ups, j, n) == rank(ups, i, m),
    decreases n,
{
    if n > i {
        lemma_rank_grows(ups, i, j, m, (n - 1) as nat);
    } else {
        lemma_same_rank(ups, i, j, m);
    }
}

proof fn lemma_same_rank(ups: Seq<Option<usize>>, i: int, j: int, n: nat)
    requires
        ups[i] == ups[j],
    ensures
        rank(ups, i, n) == rank(ups, j, n),
    decreases n,
{
    if n > 0 {
        lemma_same_rank(ups, i, j, (n - 1) as nat);
    }
}

/// No number but zero starts with a zero.
proof fn lemma_decimal_start(n: nat)
    requires
        n > 0,
    ensures
        decimal(n).len() > 0,
        decimal(n)[0] != '0',
    decreases n,
{
    if n < 10 {
        assert(decimal(n)[0] == digit(n));
        assert((digit(n) as u32) == 48 + n);
    } else {
        lemma_decimal_start(n / 10);
        assert(decimal(n)[0] == decimal(n / 10)[0]);
    }
}

/// Different numbers are padded to different texts.
pub proof fn padded_numbers_differ(a: nat, b: nat)
    requires
        a > 0,
        b > 0,
        padded(a) == padded(b),
    ensures
        a == b,
{
    lemma_decimal_start(a);
    lemma_decimal_start(b);
    let la = decimal(a).len();
    let lb = decimal(b).len();
    if la < lb && la < 6 {
        let at = if lb < 6 {
            6 - lb
        } else {
            0
        };
        assert(padded(a)[at] == '0');
        assert(padded(b)[at] == decimal(b)[0]);
    } else if lb < la && lb < 6 {
        let at = if la < 6 {
            6 - la
        } else {
            0
        };
        assert(padded(b)[at] == '0');
        assert(padded(a)[at] == decimal(a)[0]);
    } else {
        assert(la == lb);
        if la < 6 {
            let n = 6 - la;
            assert(padded(a).skip(n) =~= decimal(a));
            assert(padded(b).skip(n) =~= decimal(b));
        }
        decimals_tell_numbers_apart(a, b);
    }
}

/// Different events have nodes of different names, and different edges have different names.
pub proof fn names_tell_numbers_apart(i: nat, j: nat)
    ensures
        node_name(i) == node_name(j) ==> i == j,
        edge_name(i) == edge_name(j) ==> i == j,
{
    let node = "node-"@;
    let edge = "edge-"@;
    if node_name(i) == node_name(j) {
        assert(node_name(i).skip(node.len() as int) =~= padded(i + 1));
        assert(node_name(j).skip(node.len() as int) =~= padded(j + 1));
        padded_numbers_differ(i + 1, j + 1);
    }
    if edge_name(i) == edge_name(j) {
        assert(edge_name(i).skip(edge.len() as int) =~= padded(i + 1));
        assert(edge_name(j).skip(edge.len() as int) =~= padded(j + 1));
        padded_numbers_differ(i + 1, j + 1);
    }
}

/// A line of events is labelled step by step: the first below the root is `A`, and each that
/// follows is the first below the one before it.
pub proof fn lines_are_labelled_step_by_step(index: nat)
    ensures
        line_label(0) is None,
        line_label(1) == Some("A"@),
        index > 0 ==> line_label(index + 1) == Some(line_label(index)->0 + ".1"@),
{
    assert("A"@ + single_line(0) =~= "A"@);
    if index > 0 {
        let above = single_line((index - 1) as nat);
        assert(single_line(index) == above + ".1"@);
        assert("A"@ + (above + ".1"@) =~= "A"@ + above + ".1"@);
    }
}

} // verus!
