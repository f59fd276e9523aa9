//! Logical key identifiers and the token vocabulary that names them.
//!
//! Tokens are byte strings (filename fragments); ASCII letters are the
//! only case-folded characters, so lowercasing is defined byte-wise.

use vstd::prelude::*;

verus! {

/// ASCII code of `'A'`.
pub const UPPER_A: u8 = 65;

/// ASCII code of `'Z'`.
pub const UPPER_Z: u8 = 90;

/// ASCII code of `'a'`.
pub const LOWER_A: u8 = 97;

/// ASCII code of `'z'`.
pub const LOWER_Z: u8 = 122;

/// Distance between an ASCII uppercase letter and its lowercase form.
pub const CASE_GAP: u8 = 32;

/// A logical key, independent of the OS input library's own key type.
///
/// Letters are carried as their lowercase ASCII byte, so the whole
/// letter range is one variant. The six modifier variants mirror the
/// left/right pairs delivered by the input hook; `Other` stands for any
/// key outside this vocabulary (such keys can never match a binding,
/// because bindings are only ever built from recognized tokens).
#[derive(Clone, Copy, PartialEq, Eq, Structural, Debug)]
pub enum KeyId {
    Letter(u8),
    Escape,
    Backspace,
    Space,
    Return,
    Tab,
    MetaLeft,
    MetaRight,
    ShiftLeft,
    ShiftRight,
    ControlLeft,
    ControlRight,
    Other,
}

/// A lowercase ASCII letter byte.
pub open spec fn is_lower_alpha(b: u8) -> bool {
    LOWER_A <= b <= LOWER_Z
}

/// An ASCII letter byte, either case.
pub open spec fn is_alpha(b: u8) -> bool {
    is_lower_alpha(b) || (UPPER_A <= b <= UPPER_Z)
}

/// ASCII lowercasing of one byte; bytes outside `A..=Z` are unchanged.
pub open spec fn lower_byte(b: u8) -> u8 {
    if UPPER_A <= b <= UPPER_Z {
        (b + CASE_GAP) as u8
    } else {
        b
    }
}

/// ASCII lowercasing of a byte sequence.
pub open spec fn lower_bytes(s: Seq<u8>) -> Seq<u8> {
    s.map_values(|b: u8| lower_byte(b))
}

/// The bytes of the word `escape`.
pub open spec fn word_escape() -> Seq<u8> {
    seq![101u8, 115, 99, 97, 112, 101]
}

/// The bytes of the word `backspace`.
pub open spec fn word_backspace() -> Seq<u8> {
    seq![98u8, 97, 99, 107, 115, 112, 97, 99, 101]
}

/// The bytes of the word `space`.
pub open spec fn word_space() -> Seq<u8> {
    seq![115u8, 112, 97, 99, 101]
}

/// The bytes of the word `enter`.
pub open spec fn word_enter() -> Seq<u8> {
    seq![101u8, 110, 116, 101, 114]
}

/// The bytes of the word `tab`.
pub open spec fn word_tab() -> Seq<u8> {
    seq![116u8, 97, 98]
}

/// A key identifier is well formed when any letter it carries is a
/// lowercase ASCII letter.
pub open spec fn key_wf(k: KeyId) -> bool {
    k matches KeyId::Letter(b) ==> is_lower_alpha(b)
}

/// The key named by one filename token, compared case-insensitively:
/// a single letter, or one of the five named keys.
pub open spec fn key_of_token(t: Seq<u8>) -> Option<KeyId> {
    if t.len() == 1 && is_alpha(t[0]) {
        Some(KeyId::Letter(lower_byte(t[0])))
    } else if lower_bytes(t) == word_escape() {
        Some(KeyId::Escape)
    } else if lower_bytes(t) == word_backspace() {
        Some(KeyId::Backspace)
    } else if lower_bytes(t) == word_space() {
        Some(KeyId::Space)
    } else if lower_bytes(t) == word_enter() {
        Some(KeyId::Return)
    } else if lower_bytes(t) == word_tab() {
        Some(KeyId::Tab)
    } else {
        None
    }
}

/// Executable ASCII lowercasing of one byte.
pub fn lower_byte_ex(b: u8) -> (r: u8)
    ensures
        r == lower_byte(b),
{
    if UPPER_A <= b && b <= UPPER_Z {
        b + CASE_GAP
    } else {
        b
    }
}

/// Whether `t` lowercased equals `w`, byte for byte.
pub(crate) fn lower_eq(t: &[u8], w: &[u8]) -> (r: bool)
    ensures
        r == (lower_bytes(t@) == w@),
{
    if t.len() != w.len() {
        assert(lower_bytes(t@).len() == t@.len());
        return false;
    }
    let mut i: usize = 0;
    while i < t.len()
        invariant
            0 <= i <= t@.len(),
            t@.len() == w@.len(),
            forall|j: int| 0 <= j < i ==> lower_byte(t@[j]) == w@[j],
        decreases t@.len() - i,
    {
        if lower_byte_ex(t[i]) != w[i] {
            assert(lower_bytes(t@)[i as int] != w@[i as int]);
            return false;
        }
        i += 1;
    }
    assert(lower_bytes(t@) =~= w@);
    true
}

/// Resolves one token to a key identifier, as the directory grammar
/// does: a single ASCII letter names that letter's key, and five words
/// (matched case-insensitively) name `escape`, `backspace`, `space`,
/// `enter` and `tab`.
pub fn key_from_token(t: &[u8]) -> (r: Option<KeyId>)
    ensures
        r == key_of_token(t@),
        r matches Some(k) ==> key_wf(k),
{
    if t.len() == 1 && (t[0] >= LOWER_A && t[0] <= LOWER_Z || t[0] >= UPPER_A && t[0] <= UPPER_Z) {
        Some(KeyId::Letter(lower_byte_ex(t[0])))
    } else if lower_eq(t, &[101, 115, 99, 97, 112, 101]) {
        // escape
        Some(KeyId::Escape)
    } else if lower_eq(t, &[98, 97, 99, 107, 115, 112, 97, 99, 101]) {
        // backspace
        Some(KeyId::Backspace)
    } else if lower_eq(t, &[115, 112, 97, 99, 101]) {
        // space
        Some(KeyId::Space)
    } else if lower_eq(t, &[101, 110, 116, 101, 114]) {
        // enter
        Some(KeyId::Return)
    } else if lower_eq(t, &[116, 97, 98]) {
        // tab
        Some(KeyId::Tab)
    } else {
        None
    }
}

} // verus!
