//! The form of ids, texts and lists of sources.

use crate::export::graph::{alphanumeric, is_alphanumeric};
use crate::table::all_differ;
use crate::text::{all_white, blank, byte_count, byte_len, chars_of, lemma_trimmed_empty};
use vstd::prelude::*;

verus! {

/// The most bytes of an id.
pub const MAX_ID_BYTES: usize = 96;

/// The most bytes of the id of an event.
pub const MAX_EVENT_ID_BYTES: usize = 128;

pub const MAX_TITLE_BYTES: usize = 280;

pub const MAX_SUMMARY_BYTES: usize = 1200;

pub const MAX_SCOPE_BYTES: usize = 600;

pub const MAX_STANDARD_BYTES: usize = 120;

/// The most sources of one entry.
pub const MAX_SOURCE_REFS: usize = 64;

/// Whether a character is a letter or a digit of ASCII, a hyphen or an underscore.
pub open spec fn token_char(c: char) -> bool {
    is_alphanumeric(c) || c == '-' || c == '_'
}

/// Whether a text is made of such characters, and has from one to so many bytes.
pub open spec fn token_form(s: Seq<char>, max: nat) -> bool {
    &&& s.len() > 0
    &&& byte_len(s) <= max
    &&& forall|i: int| 0 <= i < s.len() ==> token_char(#[trigger] s[i])
}

/// Whether a text has the form of an id: lower-case letters, digits, hyphens and underscores.
pub open spec fn id_form(s: Seq<char>) -> bool {
    &&& token_form(s, MAX_ID_BYTES as nat)
    &&& forall|i: int| 0 <= i < s.len() ==> !is_upper(#[trigger] s[i])
}

/// Whether a character is an upper-case letter of ASCII.
pub open spec fn is_upper(c: char) -> bool {
    0x41 <= c as u32 <= 0x5a
}

/// Whether a text has the form of the id of an event.
pub open spec fn event_id_form(s: Seq<char>) -> bool {
    token_form(s, MAX_EVENT_ID_BYTES as nat)
}

fn has_token_form(s: &str, max: usize, upper: bool) -> (r: bool)
    ensures
        r == (token_form(s@, max as nat) && (upper || forall|i: int|
            0 <= i < s@.len() ==> !is_upper(#[trigger] s@[i]))),
{
    let v = chars_of(s);
    if v.len() == 0 || byte_count(s) > max {
        return false;
    }
    let mut i: usize = 0;
    while i < v.len()
        invariant
            v@ == s@,
            i <= v@.len(),
            forall|j: int| 0 <= j < i ==> token_char(#[trigger] v@[j]),
            forall|j: int| 0 <= j < i ==> upper || !is_upper(#[trigger] v@[j]),
        decreases v@.len() - i,
    {
        let c = v[i];
        let u: u32 = c as u32;
        if !(alphanumeric(c) || c == '-' || c == '_') {
            return false;
        }
        if !upper && 0x41 <= u && u <= 0x5a {
            return false;
        }
        i += 1;
    }
    true
}

pub fn valid_id(value: &str) -> (r: bool)
    ensures
        r == id_form(value@),
{
    has_token_form(value, MAX_ID_BYTES, false)
}

pub fn valid_token(value: &str) -> (r: bool)
    ensures
        r == token_form(value@, MAX_ID_BYTES as nat),
{
    has_token_form(value, MAX_ID_BYTES, true)
}

pub fn valid_event_id(value: &str) -> (r: bool)
    ensures
        r == event_id_form(value@),
{
    has_token_form(value, MAX_EVENT_ID_BYTES, true)
}

/// Whether a text says something, in at most so many bytes and without a null character.
pub open spec fn text_form(s: Seq<char>, max: nat) -> bool {
    !all_white(s) && byte_len(s) <= max && !s.contains('\0')
}

pub fn valid_text(value: &str, max: usize) -> (r: bool)
    ensures
        r == text_form(value@, max as nat),
{
    proof {
        lemma_trimmed_empty(value@);
    }
    if blank(value) || byte_count(value) > max {
        return false;
    }
    let v = chars_of(value);
    let mut i: usize = 0;
    while i < v.len()
        invariant
            v@ == value@,
            i <= v@.len(),
            !all_white(value@),
            byte_len(value@) <= max,
            forall|j: int| 0 <= j < i ==> #[trigger] v@[j] != '\0',
        decreases v@.len() - i,
    {
        if v[i] == '\0' {
            assert(value@[i as int] == '\0');
            return false;
        }
        i += 1;
    }
    true
}

/// Whether some names are sources: from one to so many ids of events, none twice.
pub open spec fn sources_form(v: Seq<Seq<char>>) -> bool {
    &&& 0 < v.len() <= MAX_SOURCE_REFS
    &&& forall|i: int| 0 <= i < v.len() ==> event_id_form(#[trigger] v[i])
    &&& v.no_duplicates()
}

pub fn valid_source_ids(values: &Vec<String>) -> (r: bool)
    ensures
        r == sources_form(values.deep_view()),
{
    assert(values.deep_view().len() == values@.len());
    if values.len() == 0 || values.len() > MAX_SOURCE_REFS {
        return false;
    }
    let mut i: usize = 0;
    while i < values.len()
        invariant
            i <= values@.len(),
            values.deep_view().len() == values@.len(),
            forall|j: int| 0 <= j < i ==> event_id_form(#[trigger] values.deep_view()[j]),
        decreases values@.len() - i,
    {
        assert(values.deep_view()[i as int] == values@[i as int]@);
        if !valid_event_id(&values[i]) {
            return false;
        }
        i += 1;
    }
    all_differ(values)
}

/// An id is one to ninety-six lower-case letters, digits, hyphens and underscores; the id of an
/// event has up to a hundred and twenty-eight of these and of capitals. A text says something,
/// within its bound and without a null character. Sources are one to sixty-four ids of events,
/// none twice.
pub proof fn forms_are_as_said(s: Seq<char>, max: nat, v: Seq<Seq<char>>)
    ensures
        id_form(s) <==> 0 < s.len() && byte_len(s) <= 96 && forall|i: int|
            0 <= i < s.len() ==> 'a' as u32 <= (#[trigger] s[i]) as u32 <= 'z' as u32 || '0' as u32
                <= s[i] as u32 <= '9' as u32 || s[i] == '-' || s[i] == '_',
        event_id_form(s) <==> 0 < s.len() && byte_len(s) <= 128 && forall|i: int|
            0 <= i < s.len() ==> 'a' as u32 <= (#[trigger] s[i]) as u32 <= 'z' as u32 || 'A' as u32
                <= s[i] as u32 <= 'Z' as u32 || '0' as u32 <= s[i] as u32 <= '9' as u32 || s[i]
                == '-' || s[i] == '_',
        text_form(s, max) <==> byte_len(s) <= max && !s.contains('\0') && exists|i: int|
            0 <= i < s.len() && !crate::text::is_white(#[trigger] s[i]),
        sources_form(v) ==> 1 <= v.len() <= 64 && v.no_duplicates(),
        sources_form(v) <==> 1 <= v.len() <= 64 && v.no_duplicates() && forall|i: int|
            0 <= i < v.len() ==> event_id_form(#[trigger] v[i]),
{
    if id_form(s) {
        assert forall|i: int| 0 <= i < s.len() implies 'a' as u32 <= (#[trigger] s[i]) as u32
            <= 'z' as u32 || '0' as u32 <= s[i] as u32 <= '9' as u32 || s[i] == '-' || s[i]
            == '_' by {
            assert(token_char(s[i]) && !is_upper(s[i]));
        }
    }
    if event_id_form(s) {
        assert forall|i: int| 0 <= i < s.len() implies 'a' as u32 <= (#[trigger] s[i]) as u32
            <= 'z' as u32 || 'A' as u32 <= s[i] as u32 <= 'Z' as u32 || '0' as u32 <= s[i] as u32
            <= '9' as u32 || s[i] == '-' || s[i] == '_' by {
            assert(token_char(s[i]));
        }
    }
}

} // verus!
