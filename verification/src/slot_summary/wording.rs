//! The wording of a summary: single lines, first sentences, texts of bounded size.

use crate::text::{
    byte_count, byte_len, char_len, chars_of, is_control, is_white, lemma_byte_len_push, slice_text,
    squeeze, squeezed, trim, trimmed, trimmed_end, white,
};
use vstd::prelude::*;

verus! {

/// A text with spaces for its line ends, and without its other control characters.
pub open spec fn uncontrolled(s: Seq<char>) -> Seq<char>
    decreases s.len(),
{
    if s.len() == 0 {
        Seq::empty()
    } else {
        let head = uncontrolled(s.drop_last());
        if s.last() == '\n' {
            head.push(' ')
        } else if is_control(s.last()) {
            head
        } else {
            head.push(s.last())
        }
    }
}

/// A text on one line.
pub open spec fn line_of(s: Seq<char>) -> Seq<char> {
    squeezed(uncontrolled(s))
}

/// The text on one line.
pub fn line_text(value: &str) -> (r: String)
    ensures
        r@ == line_of(value@),
{
    let v = chars_of(value);
    let mut out = String::new();
    let mut i: usize = 0;
    while i < v.len()
        invariant
            i <= v@.len(),
            out@ == uncontrolled(v@.take(i as int)),
        decreases v@.len() - i,
    {
        let c = v[i];
        assert(v@.take(i + 1).drop_last() =~= v@.take(i as int));
        if c == '\n' {
            out.push(' ');
        } else if !crate::text::control(c) {
            out.push(c);
        }
        i += 1;
    }
    assert(v@.take(v@.len() as int) =~= v@);
    squeeze(&out)
}

/// Whether a character ends a sentence.
pub open spec fn ends_sentence(c: char) -> bool {
    c == '.' || c == '!' || c == '?'
}

/// How many characters the first sentence has, from position `i` on.
pub open spec fn sentence_end(s: Seq<char>, i: nat) -> nat
    decreases s.len() - i,
{
    if i >= s.len() {
        s.len()
    } else if ends_sentence(s[i as int]) {
        i + 1
    } else {
        sentence_end(s, i + 1)
    }
}

/// The first sentence of a text on one line.
pub open spec fn reason_of(s: Seq<char>) -> Seq<char> {
    let line = line_of(s);
    trimmed(line.take(sentence_end(line, 0) as int))
}

/// The first sentence of the text.
pub fn reason_text(summary: &str) -> (r: String)
    ensures
        r@ == reason_of(summary@),
{
    let line = line_text(summary);
    let v = chars_of(&line);
    let mut i: usize = 0;
    while i < v.len() && !(v[i] == '.' || v[i] == '!' || v[i] == '?')
        invariant
            i <= v@.len(),
            sentence_end(v@, 0) == sentence_end(v@, i as nat),
        decreases v@.len() - i,
    {
        i += 1;
    }
    let end: usize = if i < v.len() {
        i + 1
    } else {
        i
    };
    assert(end == sentence_end(v@, 0));
    assert(v@.subrange(0, end as int) =~= v@.take(end as int));
    trim(&slice_text(&v, 0, end))
}

/// The characters from the start of a text that fit into so many bytes.
pub open spec fn fitting(s: Seq<char>, limit: int) -> Seq<char>
    decreases s.len(),
{
    if s.len() == 0 || char_len(s[0]) > limit {
        Seq::empty()
    } else {
        seq![s[0]] + fitting(s.drop_first(), limit - char_len(s[0]))
    }
}

/// A text of at most so many bytes; where it had more, it ends with an ellipsis.
pub open spec fn bounded(s: Seq<char>, max: nat) -> Seq<char> {
    if byte_len(s) <= max {
        s
    } else if max == 0 {
        Seq::empty()
    } else if max <= 3 {
        seq!['…']
    } else {
        trimmed_end(fitting(s, max - 3)).push('…')
    }
}

fn char_count(c: char) -> (n: usize)
    ensures
        n == char_len(c),
{
    let u: u32 = c as u32;
    if u < 0x80 {
        1
    } else if u < 0x800 {
        2
    } else if u < 0x10000 {
        3
    } else {
        4
    }
}

/// A text of at most so many bytes.
pub fn bounded_text(value: &str, max_bytes: usize) -> (r: String)
    ensures
        r@ == bounded(value@, max_bytes as nat),
{
    if byte_count(value) <= max_bytes {
        return value.to_owned();
    }
    let mut out = String::new();
    if max_bytes == 0 {
        return out;
    }
    if max_bytes <= 3 {
        out.push('…');
        assert(out@ =~= seq!['…']);
        return out;
    }
    let limit: usize = max_bytes - 3;
    let v = chars_of(value);
    let mut used: usize = 0;
    let mut i: usize = 0;
    assert(v@.skip(0) =~= v@);
    assert(v@.take(0) + fitting(v@, limit as int) =~= fitting(v@, limit as int));
    while i < v.len() && char_count(v[i]) <= limit - used
        invariant
            i <= v@.len(),
            used <= limit,
            v@.take(i as int) + fitting(v@.skip(i as int), limit - used) == fitting(
                v@,
                limit as int,
            ),
        decreases v@.len() - i,
    {
        let ghost rest = v@.skip(i as int);
        assert(rest[0] == v@[i as int]);
        assert(rest.drop_first() =~= v@.skip(i + 1));
        assert(v@.take(i + 1) =~= v@.take(i as int).push(v@[i as int]));
        assert(v@.take(i as int) + fitting(rest, limit - used) =~= v@.take(i + 1) + fitting(
            rest.drop_first(),
            limit - used - char_len(rest[0]),
        ));
        used = used + char_count(v[i]);
        i += 1;
    }
    assert(fitting(v@, limit as int) =~= v@.take(i as int)) by {
        assert(fitting(v@.skip(i as int), limit - used) =~= Seq::empty());
    }
    let ghost kept = v@.take(i as int);
    let mut to: usize = i;
    assert(v@.take(to as int) =~= kept);
    while to > 0 && white(v[to - 1])
        invariant
            to <= i <= v@.len(),
            trimmed_end(v@.take(to as int)) == trimmed_end(kept),
        decreases to,
    {
        assert(v@.take(to as int).drop_last() =~= v@.take(to - 1));
        assert(v@.take(to as int).last() == v@[to - 1]);
        to -= 1;
    }
    proof {
        if to > 0 {
            assert(v@.take(to as int).last() == v@[to - 1]);
        }
    }
    assert(v@.subrange(0, to as int) =~= v@.take(to as int));
    out.push_str(&slice_text(&v, 0, to));
    assert(out@ =~= trimmed_end(kept));
    out.push('…');
    out
}

proof fn lemma_fitting_bytes(s: Seq<char>, limit: int)
    requires
        limit >= 0,
    ensures
        byte_len(fitting(s, limit)) <= limit,
    decreases s.len(),
{
    if s.len() > 0 && char_len(s[0]) <= limit {
        let rest = fitting(s.drop_first(), limit - char_len(s[0]));
        lemma_fitting_bytes(s.drop_first(), limit - char_len(s[0]));
        assert((seq![s[0]] + rest).drop_first() =~= rest);
        assert((seq![s[0]] + rest)[0] == s[0]);
    }
}

proof fn lemma_trimmed_end_bytes(s: Seq<char>)
    ensures
        byte_len(trimmed_end(s)) <= byte_len(s),
    decreases s.len(),
{
    if s.len() > 0 && is_white(s.last()) {
        lemma_trimmed_end_bytes(s.drop_last());
        lemma_byte_len_push(s.drop_last(), s.last());
        assert(s.drop_last().push(s.last()) =~= s);
    }
}

/// A bounded text takes no more bytes than it may, but for the ellipsis that stands alone where
/// nothing else fits.
pub proof fn bounded_text_is_bounded(s: Seq<char>, max: nat)
    ensures
        max >= 3 ==> byte_len(bounded(s, max)) <= max,
        max == 0 ==> byte_len(bounded(s, max)) == 0,
        byte_len(bounded(s, max)) <= max || byte_len(bounded(s, max)) <= 3,
{
    assert(char_len('…') == 3);
    if byte_len(s) > max && max > 0 {
        if max <= 3 {
            lemma_byte_len_push(Seq::empty(), '…');
            assert(Seq::<char>::empty().push('…') =~= seq!['…']);
        } else {
            lemma_fitting_bytes(s, max - 3);
            lemma_trimmed_end_bytes(fitting(s, max - 3));
            lemma_byte_len_push(trimmed_end(fitting(s, max - 3)), '…');
        }
    }
}

/// Taking control characters from two texts one behind the other is taking them from each. A line
/// break becomes a space, any other control character goes, and all else stays.
pub proof fn control_characters_go_one_by_one(a: Seq<char>, b: Seq<char>, c: char)
    ensures
        uncontrolled(a + b) == uncontrolled(a) + uncontrolled(b),
        uncontrolled(seq!['\n']) == seq![' '],
        c != '\n' && (c as u32 <= 0x1f || 0x7f <= c as u32 <= 0x9f) ==> uncontrolled(seq![c])
            == Seq::<char>::empty(),
        !(c as u32 <= 0x1f || 0x7f <= c as u32 <= 0x9f) ==> uncontrolled(seq![c]) == seq![c],
    decreases b.len(),
{
    assert(seq![c].drop_last() =~= Seq::<char>::empty());
    assert(seq!['\n'].drop_last() =~= Seq::<char>::empty());
    assert(uncontrolled(Seq::<char>::empty()) =~= Seq::<char>::empty());
    assert(uncontrolled(seq!['\n']) =~= seq![' ']);
    if !is_control(c) && c != '\n' {
        assert(uncontrolled(seq![c]) =~= seq![c]);
    }
    if b.len() == 0 {
        assert(a + b =~= a);
        assert(uncontrolled(a) + uncontrolled(b) =~= uncontrolled(a));
    } else {
        control_characters_go_one_by_one(a, b.drop_last(), c);
        assert((a + b).drop_last() =~= a + b.drop_last());
        assert(uncontrolled(a + b) =~= uncontrolled(a) + uncontrolled(b));
    }
}

proof fn lemma_sentence_end(s: Seq<char>, i: nat)
    requires
        i <= s.len(),
    ensures
        i <= sentence_end(s, i) <= s.len(),
        forall|j: int|
            i <= j < sentence_end(s, i) - 1 ==> #[trigger] s[j] != '.' && s[j] != '!' && s[j] != '?',
        sentence_end(s, i) < s.len() ==> sentence_end(s, i) > i && (s[sentence_end(s, i) - 1] == '.'
            || s[sentence_end(s, i) - 1] == '!' || s[sentence_end(s, i) - 1] == '?'),
    decreases s.len() - i,
{
    if i < s.len() && !ends_sentence(s[i as int]) {
        lemma_sentence_end(s, i + 1);
    }
}

/// The reason that is given is the first sentence of the line: up to the first full stop,
/// exclamation mark or question mark, or all of it where there is none.
pub proof fn reasons_are_first_sentences(s: Seq<char>)
    ensures
        exists|k: int| #[trigger] sentence(line_of(s), k) && reason_of(s) == trimmed(
            line_of(s).take(k),
        ),
{
    let line = line_of(s);
    lemma_sentence_end(line, 0);
    assert(sentence(line, sentence_end(line, 0) as int));
}

/// Whether the first sentence of a line ends at a position.
pub open spec fn sentence(line: Seq<char>, k: int) -> bool {
    &&& 0 <= k <= line.len()
    &&& forall|j: int|
        0 <= j < k - 1 ==> #[trigger] line[j] != '.' && line[j] != '!' && line[j] != '?'
    &&& k < line.len() ==> k > 0 && (line[k - 1] == '.' || line[k - 1] == '!' || line[k - 1] == '?')
}

proof fn lemma_fitting(s: Seq<char>, limit: int)
    ensures
        fitting(s, limit).is_prefix_of(s),
    decreases s.len(),
{
    if s.len() > 0 && char_len(s[0]) <= limit {
        let rest = fitting(s.drop_first(), limit - char_len(s[0]));
        lemma_fitting(s.drop_first(), limit - char_len(s[0]));
        let out = fitting(s, limit);
        assert(rest =~= s.drop_first().take(rest.len() as int));
        assert(out =~= s.take(out.len() as int));
    } else {
        assert(fitting(s, limit) =~= s.take(0));
    }
}

/// A text that fits stays as it is; of one that does not, the start is kept, and an ellipsis shows
/// that something was left out.
pub proof fn bounded_texts_keep_their_start(s: Seq<char>, max: nat)
    ensures
        byte_len(s) <= max ==> bounded(s, max) == s,
        byte_len(s) > max > 0 ==> bounded(s, max).len() > 0 && bounded(s, max).last() == '…'
            && bounded(s, max).drop_last().is_prefix_of(s),
{
    if byte_len(s) > max && max > 0 {
        let out = bounded(s, max);
        if max <= 3 {
            assert(out.drop_last() =~= s.take(0));
        } else {
            let head = fitting(s, max - 3);
            lemma_fitting(s, max - 3);
            let kept = trimmed_end(head);
            lemma_kept(head);
            assert(out.drop_last() =~= kept);
            assert(kept =~= s.take(kept.len() as int));
        }
    }
}

proof fn lemma_kept(s: Seq<char>)
    ensures
        trimmed_end(s).is_prefix_of(s),
    decreases s.len(),
{
    if s.len() > 0 && is_white(s.last()) {
        lemma_kept(s.drop_last());
        let out = trimmed_end(s);
        assert(out =~= s.drop_last().take(out.len() as int));
        assert(out =~= s.take(out.len() as int));
    } else {
        assert(s =~= s.take(s.len() as int));
    }
}

} // verus!
