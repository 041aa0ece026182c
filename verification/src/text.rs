//! Character-level text: lengths, order, white space, decimal numbers, shortening.

use vstd::prelude::*;
use vstd::utf8::{
    char_is_scalar, char_u32_cast, decode_utf8, encode_scalar, encode_utf8, encode_utf8_decode_utf8,
};

verus! {

/// `String::push` appends one character.
pub assume_specification[ String::push ](s: &mut String, c: char)
    ensures
        final(s)@ == old(s)@.push(c),
;

/// `String::push_str` appends a string slice.
pub assume_specification[ String::push_str ](s: &mut String, other: &str)
    ensures
        final(s)@ == old(s)@ + other@,
;

/// The number of bytes of one character in UTF-8.
pub open spec fn char_len(c: char) -> nat {
    if (c as u32) < 0x80 {
        1
    } else if (c as u32) < 0x800 {
        2
    } else if (c as u32) < 0x10000 {
        3
    } else {
        4
    }
}

/// The number of bytes of a text in UTF-8.
pub open spec fn byte_len(s: Seq<char>) -> nat
    decreases s.len(),
{
    if s.len() == 0 {
        0
    } else {
        char_len(s[0]) + byte_len(s.drop_first())
    }
}

pub proof fn lemma_encoded_len(s: Seq<char>)
    ensures
        encode_utf8(s).len() == byte_len(s),
    decreases s.len(),
{
    if s.len() > 0 {
        lemma_encoded_len(s.drop_first());
        char_is_scalar(s[0]);
        assert(encode_scalar(s[0] as u32).len() == char_len(s[0]));
    }
}

pub proof fn lemma_byte_len_add(a: Seq<char>, b: Seq<char>)
    ensures
        byte_len(a + b) == byte_len(a) + byte_len(b),
    decreases a.len(),
{
    if a.len() == 0 {
        assert(a + b =~= b);
    } else {
        lemma_byte_len_add(a.drop_first(), b);
        assert((a + b).drop_first() =~= a.drop_first() + b);
    }
}

pub proof fn lemma_byte_len_push(a: Seq<char>, c: char)
    ensures
        byte_len(a.push(c)) == byte_len(a) + char_len(c),
{
    lemma_byte_len_add(a, seq![c]);
    assert(a.push(c) =~= a + seq![c]);
    assert(seq![c].drop_first() =~= Seq::<char>::empty());
    assert(byte_len(seq![c]) == char_len(c)) by {
        reveal_with_fuel(byte_len, 2);
    }
}

pub proof fn lemma_byte_len_bounds(s: Seq<char>)
    ensures
        s.len() <= byte_len(s) <= 4 * s.len(),
    decreases s.len(),
{
    if s.len() > 0 {
        lemma_byte_len_bounds(s.drop_first());
    }
}

/// The number of bytes that a string slice takes in UTF-8.
pub fn byte_count(s: &str) -> (n: usize)
    ensures
        n == byte_len(s@),
{
    proof {
        lemma_encoded_len(s@);
    }
    s.as_bytes().len()
}

/// The bytes of a string slice in UTF-8.
pub fn bytes_of(s: &str) -> (v: Vec<u8>)
    ensures
        v@ == encode_utf8(s@),
{
    vstd::slice::slice_to_vec(s.as_bytes())
}

/// Whether two string slices hold the same characters.
pub fn same(a: &str, b: &str) -> (r: bool)
    ensures
        r == (a@ == b@),
{
    let x = a.as_bytes();
    let y = b.as_bytes();
    if x.len() != y.len() {
        return false;
    }
    let mut i: usize = 0;
    while i < x.len()
        invariant
            i <= x@.len(),
            x@.len() == y@.len(),
            x@ == encode_utf8(a@),
            y@ == encode_utf8(b@),
            forall|j: int| 0 <= j < i ==> x@[j] == y@[j],
        decreases x@.len() - i,
    {
        if x[i] != y[i] {
            return false;
        }
        i += 1;
    }
    proof {
        assert(x@ =~= y@);
        encode_utf8_decode_utf8(a@);
        encode_utf8_decode_utf8(b@);
        assert(decode_utf8(x@) == a@);
    }
    true
}

/// The characters of a string slice, in order.
pub fn chars_of(s: &str) -> (v: Vec<char>)
    ensures
        v@ == s@,
{
    let mut v: Vec<char> = Vec::new();
    for c in it: s.chars()
        invariant
            it.seq() == s@,
            v@ == s@.take(it.index() as int),
    {
        v.push(c);
    }
    assert(s@.take(s@.len() as int) =~= s@);
    v
}

/// The text that a run of characters spells.
pub fn text_of(v: &Vec<char>) -> (s: String)
    ensures
        s@ == v@,
{
    slice_text(v, 0, v.len())
}

/// The text of the characters from position `from` up to `to`.
pub fn slice_text(v: &Vec<char>, from: usize, to: usize) -> (s: String)
    requires
        from <= to <= v@.len(),
    ensures
        s@ == v@.subrange(from as int, to as int),
{
    let mut s = String::new();
    let mut i: usize = from;
    while i < to
        invariant
            from <= i <= to <= v@.len(),
            s@ == v@.subrange(from as int, i as int),
        decreases to - i,
    {
        s.push(v[i]);
        i += 1;
        assert(v@.subrange(from as int, i as int) =~= v@.subrange(from as int, i - 1).push(
            v@[i - 1],
        ));
    }
    s
}

/// One text behind another.
pub fn join2(a: &str, b: &str) -> (s: String)
    ensures
        s@ == a@ + b@,
{
    let mut s = a.to_owned();
    s.push_str(b);
    s
}

/// Three texts, one behind another.
pub fn join3(a: &str, b: &str, c: &str) -> (s: String)
    ensures
        s@ == a@ + b@ + c@,
{
    let mut s = join2(a, b);
    s.push_str(c);
    s
}

/// Five texts, one behind another.
pub fn join5(a: &str, b: &str, c: &str, d: &str, e: &str) -> (s: String)
    ensures
        s@ == a@ + b@ + c@ + d@ + e@,
{
    let mut s = join3(a, b, c);
    s.push_str(d);
    s.push_str(e);
    s
}

/// Seven texts, one behind another.
pub fn join7(a: &str, b: &str, c: &str, d: &str, e: &str, f: &str, g: &str) -> (s: String)
    ensures
        s@ == a@ + b@ + c@ + d@ + e@ + f@ + g@,
{
    let mut s = join5(a, b, c, d, e);
    s.push_str(f);
    s.push_str(g);
    s
}

/// The decimal digit of a number below ten.
pub open spec fn digit(n: nat) -> char {
    (('0' as u32) + n) as char
}

/// A number in decimal, without leading zeros.
pub open spec fn decimal(n: nat) -> Seq<char>
    decreases n,
{
    if n < 10 {
        seq![digit(n)]
    } else {
        decimal(n / 10).push(digit(n % 10))
    }
}

fn digit_char(n: u64) -> (c: char)
    requires
        n < 10,
    ensures
        c == digit(n as nat),
{
    let b: u8 = 48 + n as u8;
    b as char
}

/// A number in decimal.
pub fn decimal_text(n: u64) -> (s: String)
    ensures
        s@ == decimal(n as nat),
    decreases n,
{
    if n < 10 {
        let mut s = String::new();
        s.push(digit_char(n));
        assert(s@ =~= seq![digit(n as nat)]);
        s
    } else {
        let mut s = decimal_text(n / 10);
        s.push(digit_char(n % 10));
        s
    }
}

/// A number in decimal.
pub fn decimal_wide(n: u128) -> (s: String)
    ensures
        s@ == decimal(n as nat),
    decreases n,
{
    if n < 10 {
        decimal_text(n as u64)
    } else {
        let mut s = decimal_wide(n / 10);
        s.push(digit_char((n % 10) as u64));
        s
    }
}

/// Whether a character is white space (the Unicode property `White_Space`).
pub open spec fn is_white(c: char) -> bool {
    ||| 0x09 <= c as u32 <= 0x0d
    ||| c as u32 == 0x20
    ||| c as u32 == 0x85
    ||| c as u32 == 0xa0
    ||| c as u32 == 0x1680
    ||| 0x2000 <= c as u32 <= 0x200a
    ||| c as u32 == 0x2028
    ||| c as u32 == 0x2029
    ||| c as u32 == 0x202f
    ||| c as u32 == 0x205f
    ||| c as u32 == 0x3000
}

pub fn white(c: char) -> (r: bool)
    ensures
        r == is_white(c),
{
    let u: u32 = c as u32;
    (0x09 <= u && u <= 0x0d) || u == 0x20 || u == 0x85 || u == 0xa0 || u == 0x1680 || (0x2000 <= u
        && u <= 0x200a) || u == 0x2028 || u == 0x2029 || u == 0x202f || u == 0x205f || u == 0x3000
}

/// Whether a character is a control character (the general category `Cc`).
pub open spec fn is_control(c: char) -> bool {
    c as u32 <= 0x1f || 0x7f <= c as u32 <= 0x9f
}

pub fn control(c: char) -> (r: bool)
    ensures
        r == is_control(c),
{
    let u: u32 = c as u32;
    u <= 0x1f || (0x7f <= u && u <= 0x9f)
}

/// A text without the white space at its start.
pub open spec fn trimmed_start(s: Seq<char>) -> Seq<char>
    decreases s.len(),
{
    if s.len() > 0 && is_white(s[0]) {
        trimmed_start(s.drop_first())
    } else {
        s
    }
}

/// A text without the white space at its end.
pub open spec fn trimmed_end(s: Seq<char>) -> Seq<char>
    decreases s.len(),
{
    if s.len() > 0 && is_white(s.last()) {
        trimmed_end(s.drop_last())
    } else {
        s
    }
}

/// A text without the white space at either end.
pub open spec fn trimmed(s: Seq<char>) -> Seq<char> {
    trimmed_end(trimmed_start(s))
}

/// The text without the white space at either end.
pub fn trim(s: &str) -> (r: String)
    ensures
        r@ == trimmed(s@),
{
    let v = chars_of(s);
    let mut from: usize = 0;
    let n: usize = v.len();
    assert(v@.subrange(0, n as int) =~= v@);
    while from < n && white(v[from])
        invariant
            from <= n == v@.len(),
            trimmed_start(v@.subrange(from as int, n as int)) == trimmed_start(v@),
        decreases n - from,
    {
        assert(v@.subrange(from as int, n as int).drop_first() =~= v@.subrange(
            from + 1,
            n as int,
        ));
        from += 1;
    }
    let ghost start = v@.subrange(from as int, n as int);
    assert(trimmed_start(v@) == start);
    let mut to: usize = n;
    assert(start =~= v@.subrange(from as int, to as int));
    while to > from && white(v[to - 1])
        invariant
            from <= to <= n == v@.len(),
            trimmed_end(v@.subrange(from as int, to as int)) == trimmed_end(start),
        decreases to,
    {
        assert(v@.subrange(from as int, to as int).drop_last() =~= v@.subrange(
            from as int,
            to - 1,
        ));
        to -= 1;
    }
    slice_text(&v, from, to)
}

/// Whether a text holds nothing but white space.
pub open spec fn all_white(s: Seq<char>) -> bool {
    forall|i: int| 0 <= i < s.len() ==> is_white(#[trigger] s[i])
}

pub proof fn lemma_trimmed_empty(s: Seq<char>)
    ensures
        (trimmed(s).len() == 0) == all_white(s),
{
    lemma_trimmed_start(s);
    lemma_trimmed_end_empty(trimmed_start(s));
}

proof fn lemma_trimmed_start(s: Seq<char>)
    ensures
        all_white(trimmed_start(s)) == all_white(s),
    decreases s.len(),
{
    if s.len() > 0 && is_white(s[0]) {
        lemma_trimmed_start(s.drop_first());
        if all_white(s) {
            assert(all_white(s.drop_first()));
        }
        if all_white(s.drop_first()) {
            assert forall|i: int| 0 <= i < s.len() implies is_white(#[trigger] s[i]) by {
                if i > 0 {
                    assert(s[i] == s.drop_first()[i - 1]);
                }
            }
        }
    }
}

proof fn lemma_trimmed_end_empty(s: Seq<char>)
    ensures
        (trimmed_end(s).len() == 0) == all_white(s),
    decreases s.len(),
{
    if s.len() > 0 && is_white(s.last()) {
        lemma_trimmed_end_empty(s.drop_last());
        if all_white(s) {
            assert(all_white(s.drop_last()));
        }
        if all_white(s.drop_last()) {
            assert forall|i: int| 0 <= i < s.len() implies is_white(#[trigger] s[i]) by {
                if i < s.len() - 1 {
                    assert(s[i] == s.drop_last()[i]);
                }
            }
        }
    }
}

/// Whether a text is nothing but white space, or empty.
pub fn blank(s: &str) -> (r: bool)
    ensures
        r == (trimmed(s@).len() == 0),
{
    proof {
        lemma_trimmed_empty(s@);
    }
    let v = chars_of(s);
    let mut i: usize = 0;
    while i < v.len()
        invariant
            i <= v@.len(),
            v@ == s@,
            (trimmed(s@).len() == 0) == all_white(s@),
            forall|j: int| 0 <= j < i ==> is_white(#[trigger] v@[j]),
        decreases v@.len() - i,
    {
        if !white(v[i]) {
            assert(!is_white(s@[i as int]));
            return false;
        }
        i += 1;
    }
    true
}

/// The words of a text with one space between them: runs of white space become one space,
/// and none is left at either end.
pub open spec fn squeezed(s: Seq<char>) -> Seq<char>
    decreases s.len(),
{
    if s.len() == 0 {
        Seq::empty()
    } else {
        let head = squeezed(s.drop_last());
        if is_white(s.last()) {
            head
        } else if head.len() > 0 && is_white(s[s.len() - 2]) {
            head.push(' ').push(s.last())
        } else {
            head.push(s.last())
        }
    }
}

/// The words of a text with one space between them.
pub fn squeeze(s: &str) -> (r: String)
    ensures
        r@ == squeezed(s@),
{
    let v = chars_of(s);
    let mut out = String::new();
    let mut started = false;
    let mut i: usize = 0;
    while i < v.len()
        invariant
            i <= v@.len(),
            out@ == squeezed(v@.take(i as int)),
            started == (out@.len() > 0),
        decreases v@.len() - i,
    {
        let c = v[i];
        assert(v@.take(i + 1).drop_last() =~= v@.take(i as int));
        proof {
            if i == 0 {
                assert(v@.take(0).len() == 0);
            }
        }
        if !white(c) {
            if started && white(v[i - 1]) {
                out.push(' ');
            }
            out.push(c);
            started = true;
        }
        i += 1;
    }
    assert(v@.take(v@.len() as int) =~= v@);
    out
}

/// At most `max` characters from the start of a text.
pub open spec fn prefix(s: Seq<char>, max: nat) -> Seq<char> {
    if s.len() <= max {
        s
    } else {
        s.take(max as int)
    }
}

/// At most `max` characters from the start of a text.
pub fn prefix_text(s: &str, max: usize) -> (r: String)
    ensures
        r@ == prefix(s@, max as nat),
{
    let v = chars_of(s);
    if v.len() <= max {
        text_of(&v)
    } else {
        assert(v@.subrange(0, max as int) =~= v@.take(max as int));
        slice_text(&v, 0, max)
    }
}

/// A text on one line, of at most `max` characters; where more were there, the last one
/// is an ellipsis.
pub open spec fn compacted(s: Seq<char>, max: nat) -> Seq<char> {
    let line = squeezed(s);
    if line.len() <= max {
        line
    } else {
        line.take(if max > 0 { max - 1 } else { 0 }).push('…')
    }
}

/// A text on one line, of at most `max` characters.
pub fn compact(s: &str, max: usize) -> (r: String)
    ensures
        r@ == compacted(s@, max as nat),
{
    let line = squeeze(s);
    let v = chars_of(&line);
    if v.len() <= max {
        return line;
    }
    let keep: usize = if max > 0 { max - 1 } else { 0 };
    assert(v@.subrange(0, keep as int) =~= v@.take(keep as int));
    let mut out = slice_text(&v, 0, keep);
    out.push('…');
    out
}

/// A compacted text never has more than `max` characters, but for the ellipsis that
/// stands alone where nothing fits.
pub proof fn compacted_is_bounded(s: Seq<char>, max: nat)
    ensures
        max > 0 ==> compacted(s, max).len() <= max,
        compacted(s, max).len() <= max + 1,
{
}

/// Whether `a` comes before `b` in the order of their code points.
pub open spec fn before(a: Seq<char>, b: Seq<char>) -> bool
    decreases a.len(),
{
    if b.len() == 0 {
        false
    } else if a.len() == 0 {
        true
    } else if a[0] != b[0] {
        (a[0] as u32) < (b[0] as u32)
    } else {
        before(a.drop_first(), b.drop_first())
    }
}

pub proof fn lemma_before_irreflexive(a: Seq<char>)
    ensures
        !before(a, a),
    decreases a.len(),
{
    if a.len() > 0 {
        lemma_before_irreflexive(a.drop_first());
    }
}

pub proof fn lemma_before_transitive(a: Seq<char>, b: Seq<char>, c: Seq<char>)
    requires
        before(a, b),
        before(b, c),
    ensures
        before(a, c),
    decreases a.len(),
{
    if a.len() > 0 && a[0] == b[0] && b[0] == c[0] {
        lemma_before_transitive(a.drop_first(), b.drop_first(), c.drop_first());
    }
}

pub proof fn lemma_before_total(a: Seq<char>, b: Seq<char>)
    ensures
        before(a, b) || before(b, a) || a == b,
    decreases a.len(),
{
    if a.len() == 0 && b.len() == 0 {
        assert(a =~= b);
    } else if a.len() > 0 && b.len() > 0 && a[0] == b[0] {
        lemma_before_total(a.drop_first(), b.drop_first());
        if a.drop_first() == b.drop_first() {
            assert(a =~= seq![a[0]] + a.drop_first());
            assert(b =~= seq![b[0]] + b.drop_first());
        }
    } else if a.len() > 0 && b.len() > 0 {
        char_u32_cast(a[0], a[0] as u32);
        char_u32_cast(b[0], b[0] as u32);
    }
}

/// The first difference of two texts decides their order, or else their length does.
pub proof fn lemma_before_at(a: Seq<char>, b: Seq<char>, k: int)
    requires
        0 <= k <= a.len(),
        k < b.len(),
        forall|i: int| 0 <= i < k ==> a[i] == b[i],
        k == a.len() || (a[k] as u32) < (b[k] as u32),
    ensures
        before(a, b),
    decreases k,
{
    if k > 0 {
        assert forall|i: int| 0 <= i < k - 1 implies a.drop_first()[i] == b.drop_first()[i] by {
            assert(a[i + 1] == b[i + 1]);
        }
        lemma_before_at(a.drop_first(), b.drop_first(), k - 1);
    }
}

/// Whether `a` comes before `b` in the order of their code points.
pub fn precedes(a: &str, b: &str) -> (r: bool)
    ensures
        r == before(a@, b@),
{
    let x = chars_of(a);
    let y = chars_of(b);
    let mut i: usize = 0;
    assert(x@.subrange(0, x@.len() as int) =~= x@);
    assert(y@.subrange(0, y@.len() as int) =~= y@);
    while i < x.len() && i < y.len() && x[i] == y[i]
        invariant
            i <= x@.len(),
            i <= y@.len(),
            before(x@.subrange(i as int, x@.len() as int), y@.subrange(i as int, y@.len() as int))
                == before(a@, b@),
        decreases x@.len() - i,
    {
        assert(x@.subrange(i as int, x@.len() as int).drop_first() =~= x@.subrange(
            i + 1,
            x@.len() as int,
        ));
        assert(y@.subrange(i as int, y@.len() as int).drop_first() =~= y@.subrange(
            i + 1,
            y@.len() as int,
        ));
        i += 1;
    }
    if i >= y.len() {
        false
    } else if i >= x.len() {
        true
    } else {
        (x[i] as u32) < (y[i] as u32)
    }
}

/// The characters of a text that are not white.
pub open spec fn inked(s: Seq<char>) -> Seq<char>
    decreases s.len(),
{
    if s.len() == 0 {
        Seq::empty()
    } else if is_white(s.last()) {
        inked(s.drop_last())
    } else {
        inked(s.drop_last()).push(s.last())
    }
}

/// Whether a text is on one line with single spaces between its words.
pub open spec fn tidy(s: Seq<char>) -> bool {
    forall|i: int|
        0 <= i < s.len() && is_white(#[trigger] s[i]) ==> s[i] == ' ' && 0 < i < s.len() - 1
            && !is_white(s[i - 1]) && !is_white(s[i + 1])
}

/// A squeezed text keeps all its characters that are not white, in their order, and has single
/// spaces between its words alone. One that is so already stays as it is.
pub proof fn squeezed_texts_are_tidy(s: Seq<char>)
    ensures
        tidy(squeezed(s)),
        inked(squeezed(s)) == inked(s),
        tidy(s) ==> squeezed(s) == s,
    decreases s.len(),
{
    if s.len() > 0 {
        let rest = s.drop_last();
        let head = squeezed(rest);
        let out = squeezed(s);
        squeezed_texts_are_tidy(rest);
        if head.len() > 0 {
            assert(!is_white(head.last())) by {
                if is_white(head[head.len() - 1]) {
                    assert(head.len() - 1 < head.len() - 1);
                }
            }
        }
        if !is_white(s.last()) {
            if head.len() > 0 && is_white(s[s.len() - 2]) {
                let spaced = head.push(' ');
                assert(spaced.drop_last() =~= head);
                assert(inked(spaced) == inked(head));
                assert(out.drop_last() =~= spaced);
                assert forall|i: int| 0 <= i < out.len() && is_white(#[trigger] out[i]) implies out[i]
                    == ' ' && 0 < i < out.len() - 1 && !is_white(out[i - 1]) && !is_white(
                    out[i + 1],
                ) by {
                    if i < head.len() {
                        assert(is_white(head[i]));
                    }
                }
            } else {
                assert(out.drop_last() =~= head);
                assert forall|i: int| 0 <= i < out.len() && is_white(#[trigger] out[i]) implies out[i]
                    == ' ' && 0 < i < out.len() - 1 && !is_white(out[i - 1]) && !is_white(
                    out[i + 1],
                ) by {
                    assert(is_white(head[i]));
                }
            }
        }
        if tidy(s) {
            if is_white(s.last()) {
                assert(is_white(s[s.len() - 1]));
            } else if s.len() > 1 && is_white(s[s.len() - 2]) {
                let less = rest.drop_last();
                squeezed_texts_are_tidy(less);
                assert(s[s.len() - 2] == ' ');
                assert(less.len() > 0);
                assert forall|i: int| 0 <= i < less.len() && is_white(#[trigger] less[i]) implies less[i]
                    == ' ' && 0 < i < less.len() - 1 && !is_white(less[i - 1]) && !is_white(
                    less[i + 1],
                ) by {
                    assert(is_white(s[i]));
                    assert(!is_white(s[s.len() - 3]));
                }
                assert(rest.last() == ' ');
                assert(out =~= s);
            } else {
                assert forall|i: int| 0 <= i < rest.len() && is_white(#[trigger] rest[i]) implies rest[i]
                    == ' ' && 0 < i < rest.len() - 1 && !is_white(rest[i - 1]) && !is_white(
                    rest[i + 1],
                ) by {
                    assert(is_white(s[i]));
                }
                assert(out =~= s);
            }
        }
    }
}

proof fn lemma_cut_start(s: Seq<char>) -> (i: int)
    ensures
        0 <= i <= s.len(),
        trimmed_start(s) == s.skip(i),
        forall|j: int| 0 <= j < i ==> is_white(#[trigger] s[j]),
        i < s.len() ==> !is_white(s[i]),
    decreases s.len(),
{
    if s.len() > 0 && is_white(s[0]) {
        let k = lemma_cut_start(s.drop_first());
        assert(s.drop_first().skip(k) =~= s.skip(k + 1));
        assert forall|j: int| 0 <= j < k + 1 implies is_white(#[trigger] s[j]) by {
            if j > 0 {
                assert(s.drop_first()[j - 1] == s[j]);
            }
        }
        k + 1
    } else {
        assert(s.skip(0) =~= s);
        0
    }
}

proof fn lemma_cut_end(s: Seq<char>) -> (i: int)
    ensures
        0 <= i <= s.len(),
        trimmed_end(s) == s.take(i),
        forall|j: int| i <= j < s.len() ==> is_white(#[trigger] s[j]),
        i > 0 ==> !is_white(s[i - 1]),
    decreases s.len(),
{
    if s.len() > 0 && is_white(s.last()) {
        let k = lemma_cut_end(s.drop_last());
        assert(s.drop_last().take(k) =~= s.take(k));
        assert forall|j: int| k <= j < s.len() implies is_white(#[trigger] s[j]) by {
            if j < s.len() - 1 {
                assert(s.drop_last()[j] == s[j]);
            }
        }
        k
    } else {
        assert(s.take(s.len() as int) =~= s);
        s.len() as int
    }
}

/// A trimmed text is what stands between the first and the last character that is not white.
pub proof fn trimming_takes_white_from_the_ends(s: Seq<char>)
    ensures
        exists|i: int, j: int| #[trigger] cut(s, i, j) && trimmed(s) == s.subrange(i, j),
{
    let i = lemma_cut_start(s);
    let t = s.skip(i);
    let n = lemma_cut_end(t);
    assert(t.take(n) =~= s.subrange(i, i + n));
    assert forall|k: int| i + n <= k < s.len() implies is_white(#[trigger] s[k]) by {
        assert(t[k - i] == s[k]);
    }
    if n > 0 {
        assert(t[n - 1] == s[i + n - 1]);
    }
    assert(cut(s, i, i + n));
}

/// Whether all before one position and from another on is white, and what is between is empty or
/// begins and ends with a character that is not.
pub open spec fn cut(s: Seq<char>, i: int, j: int) -> bool {
    &&& 0 <= i <= j <= s.len()
    &&& forall|k: int| 0 <= k < i ==> is_white(#[trigger] s[k])
    &&& forall|k: int| j <= k < s.len() ==> is_white(#[trigger] s[k])
    &&& i < j ==> !is_white(s[i]) && !is_white(s[j - 1])
}

/// A compacted text is the squeezed one where that fits, and else the start of it with an
/// ellipsis in the last place.
pub proof fn compacted_texts_keep_their_start(s: Seq<char>, max: nat)
    ensures
        squeezed(s).len() <= max ==> compacted(s, max) == squeezed(s),
        squeezed(s).len() > max > 0 ==> compacted(s, max).len() == max && compacted(s, max).last()
            == '…' && compacted(s, max).drop_last() == squeezed(s).take(max - 1),
{
    if squeezed(s).len() > max && max > 0 {
        assert(compacted(s, max).drop_last() =~= squeezed(s).take(max - 1));
    }
}

} // verus!
