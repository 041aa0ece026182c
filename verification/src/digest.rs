//! Digests, and the form of identifiers.

use crate::text::chars_of;
use sha2::Digest;
use vstd::prelude::*;

verus! {

/// The SHA-256 digest of some bytes, in lower-case hexadecimal.
pub uninterp spec fn sha256_hex(bytes: Seq<u8>) -> Seq<char>;

/// `sha2::Sha256::digest`, formatted with `{:x}`: 32 bytes, so 64 digits.
#[verifier::external_body]
pub(crate) fn sha256(bytes: &[u8]) -> (hex: String)
    ensures
        hex@ == sha256_hex(bytes@),
        hex@.len() == 64,
        forall|i: int| 0 <= i < 64 ==> is_lower_hex(#[trigger] hex@[i]),
{
    format!("{:x}", sha2::Sha256::digest(bytes))
}

/// Whether a character is a lower-case hexadecimal digit.
pub open spec fn is_lower_hex(c: char) -> bool {
    0x30 <= c as u32 <= 0x39 || 0x61 <= c as u32 <= 0x66
}

/// Whether a character is a hexadecimal digit.
pub open spec fn is_hex(c: char) -> bool {
    is_lower_hex(c) || 0x41 <= c as u32 <= 0x46
}

/// 64 hexadecimal digits.
pub open spec fn hash_form(s: Seq<char>) -> bool {
    s.len() == 64 && forall|i: int| 0 <= i < s.len() ==> is_hex(#[trigger] s[i])
}

pub fn valid_sha256(hash: &str) -> (r: bool)
    ensures
        r == hash_form(hash@),
{
    let v = chars_of(hash);
    if v.len() != 64 {
        return false;
    }
    let mut i: usize = 0;
    while i < v.len()
        invariant
            i <= v@.len(),
            v@ == hash@,
            forall|j: int| 0 <= j < i ==> is_hex(#[trigger] v@[j]),
        decreases v@.len() - i,
    {
        let u: u32 = v[i] as u32;
        if !((0x30 <= u && u <= 0x39) || (0x61 <= u && u <= 0x66) || (0x41 <= u && u <= 0x46)) {
            assert(!is_hex(hash@[i as int]));
            return false;
        }
        i += 1;
    }
    true
}

/// A hexadecimal digit in lower case.
pub open spec fn lower(c: char) -> char {
    if 0x41 <= c as u32 <= 0x5a {
        ((c as u32) + 0x20) as char
    } else {
        c
    }
}

/// Whether two texts are the same but for the case of ASCII letters.
pub open spec fn same_but_case(a: Seq<char>, b: Seq<char>) -> bool {
    a.len() == b.len() && forall|i: int| 0 <= i < a.len() ==> lower(#[trigger] a[i]) == lower(b[i])
}

fn lower_code(c: char) -> (r: u32)
    ensures
        r == lower(c) as u32,
{
    let u: u32 = c as u32;
    if 0x41 <= u && u <= 0x5a {
        u + 0x20
    } else {
        u
    }
}

/// Whether two texts are the same but for the case of ASCII letters.
pub fn matches_but_case(a: &str, b: &str) -> (r: bool)
    ensures
        r == same_but_case(a@, b@),
{
    let x = chars_of(a);
    let y = chars_of(b);
    if x.len() != y.len() {
        return false;
    }
    let mut i: usize = 0;
    while i < x.len()
        invariant
            i <= x@.len() == y@.len(),
            x@ == a@,
            y@ == b@,
            forall|j: int| 0 <= j < i ==> lower(#[trigger] x@[j]) == lower(y@[j]),
        decreases x@.len() - i,
    {
        if lower_code(x[i]) != lower_code(y[i]) {
            assert(lower(a@[i as int]) != lower(b@[i as int]));
            return false;
        }
        proof {
            vstd::utf8::char_u32_cast(lower(x@[i as int]), lower(x@[i as int]) as u32);
            vstd::utf8::char_u32_cast(lower(y@[i as int]), lower(y@[i as int]) as u32);
        }
        i += 1;
    }
    true
}

/// One to 128 printable ASCII characters.
pub open spec fn bounded_id_form(s: Seq<char>) -> bool {
    crate::sdk::valid_cursor(s)
}

pub fn valid_bounded_id(value: &str) -> (r: bool)
    ensures
        r == bounded_id_form(value@),
{
    crate::sdk::valid_event_feed_cursor(value)
}

/// A hash is sixty-four hexadecimal digits, in either case; two hashes are the same where they
/// differ in case alone.
pub proof fn hashes_are_sixty_four_digits(s: Seq<char>, t: Seq<char>, i: int)
    ensures
        hash_form(s) ==> s.len() == 64,
        hash_form(s) && 0 <= i < 64 ==> '0' as u32 <= s[i] as u32 <= '9' as u32 || 'a' as u32
            <= s[i] as u32 <= 'f' as u32 || 'A' as u32 <= s[i] as u32 <= 'F' as u32,
        same_but_case(s, t) ==> s.len() == t.len(),
        same_but_case(s, s),
        same_but_case(s, t) ==> same_but_case(t, s),
        same_but_case(s, t) && 0 <= i < s.len() && !('A' as u32 <= s[i] as u32 <= 'Z' as u32) && !(
        'A' as u32 <= t[i] as u32 <= 'Z' as u32) ==> s[i] == t[i],
{
}

} // verus!
