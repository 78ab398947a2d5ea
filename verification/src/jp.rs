//! Character classification for Japanese script detection.
//!
//! A "logical length" counts characters, not bytes: a multi-byte kanji is one
//! unit. All predicates are defined on Unicode scalar values, so the spec
//! level and the executable level agree exactly.

use vstd::prelude::*;

verus! {

/// Hiragana block (U+3041..=U+309F), including iteration/voicing marks.
pub open spec fn spec_is_hiragana_char(c: char) -> bool {
    0x3041 <= c as u32 && c as u32 <= 0x309F
}

/// Katakana block (U+30A0..=U+30FF), including the prolonged sound mark.
pub open spec fn spec_is_katakana_char(c: char) -> bool {
    0x30A0 <= c as u32 && c as u32 <= 0x30FF
}

/// Kana: hiragana or katakana.
pub open spec fn spec_is_kana_char(c: char) -> bool {
    spec_is_hiragana_char(c) || spec_is_katakana_char(c)
}

/// Kanji: CJK Unified Ideographs, Extension A, and the compatibility block.
pub open spec fn spec_is_kanji_char(c: char) -> bool {
    (0x4E00 <= c as u32 && c as u32 <= 0x9FFF) || (0x3400 <= c as u32 && c as u32 <= 0x4DBF) || (
    0xF900 <= c as u32 && c as u32 <= 0xFAFF)
}

/// Japanese punctuation and full-/half-width forms.
pub open spec fn spec_is_jp_symbol_char(c: char) -> bool {
    (0x3000 <= c as u32 && c as u32 <= 0x303F) || (0xFF00 <= c as u32 && c as u32 <= 0xFFEF)
}

/// A character counting as Japanese script for language detection.
pub open spec fn spec_is_japanese_char(c: char) -> bool {
    spec_is_kana_char(c) || spec_is_kanji_char(c) || spec_is_jp_symbol_char(c)
}

/// A roman letter as produced by romanized typing (ASCII only).
pub open spec fn spec_is_roman_letter(c: char) -> bool {
    (0x41 <= c as u32 && c as u32 <= 0x5A) || (0x61 <= c as u32 && c as u32 <= 0x7A)
}

/// Every character of `s` is Japanese script (vacuously true when empty).
pub open spec fn seq_is_japanese(s: Seq<char>) -> bool {
    forall|i: int| 0 <= i < s.len() ==> spec_is_japanese_char(#[trigger] s[i])
}

/// Some character of `s` is Japanese script.
pub open spec fn seq_has_japanese(s: Seq<char>) -> bool {
    exists|i: int| 0 <= i < s.len() && spec_is_japanese_char(#[trigger] s[i])
}

/// Every character of `s` is hiragana.
pub open spec fn seq_is_hiragana(s: Seq<char>) -> bool {
    forall|i: int| 0 <= i < s.len() ==> spec_is_hiragana_char(#[trigger] s[i])
}

/// Every character of `s` is kana.
pub open spec fn seq_is_kana(s: Seq<char>) -> bool {
    forall|i: int| 0 <= i < s.len() ==> spec_is_kana_char(#[trigger] s[i])
}

/// Every character of `s` is a roman letter or a space: such input could be
/// romanized Japanese still being typed.
pub open spec fn seq_is_romanized(s: Seq<char>) -> bool {
    forall|i: int| 0 <= i < s.len() ==> spec_is_roman_letter(#[trigger] s[i]) || s[i] == ' '
}

pub fn is_hiragana_char(c: char) -> (r: bool)
    ensures
        r == spec_is_hiragana_char(c),
{
    0x3041 <= c as u32 && c as u32 <= 0x309F
}

pub fn is_katakana_char(c: char) -> (r: bool)
    ensures
        r == spec_is_katakana_char(c),
{
    0x30A0 <= c as u32 && c as u32 <= 0x30FF
}

pub fn is_kana_char(c: char) -> (r: bool)
    ensures
        r == spec_is_kana_char(c),
{
    is_hiragana_char(c) || is_katakana_char(c)
}

pub fn is_kanji_char(c: char) -> (r: bool)
    ensures
        r == spec_is_kanji_char(c),
{
    let u = c as u32;
    (0x4E00 <= u && u <= 0x9FFF) || (0x3400 <= u && u <= 0x4DBF) || (0xF900 <= u && u <= 0xFAFF)
}

pub fn is_jp_symbol_char(c: char) -> (r: bool)
    ensures
        r == spec_is_jp_symbol_char(c),
{
    let u = c as u32;
    (0x3000 <= u && u <= 0x303F) || (0xFF00 <= u && u <= 0xFFEF)
}

pub fn is_japanese_char(c: char) -> (r: bool)
    ensures
        r == spec_is_japanese_char(c),
{
    is_kana_char(c) || is_kanji_char(c) || is_jp_symbol_char(c)
}

pub fn is_roman_letter(c: char) -> (r: bool)
    ensures
        r == spec_is_roman_letter(c),
{
    let u = c as u32;
    (0x41 <= u && u <= 0x5A) || (0x61 <= u && u <= 0x7A)
}

/// Logical length of a string: the number of characters, multi-byte
/// characters counting as one unit each.
pub fn real_string_len(s: &str) -> (r: usize)
    ensures
        r == s@.len(),
{
    s.unicode_len()
}

/// Character-for-character string equality, multi-byte characters included.
pub fn str_eq(a: &str, b: &str) -> (r: bool)
    ensures
        r == (a@ == b@),
{
    let na = a.unicode_len();
    let nb = b.unicode_len();
    if na != nb {
        proof {
            if a@ == b@ {
                assert(a@.len() == b@.len());
            }
        }
        return false;
    }
    let mut i: usize = 0;
    while i < na
        invariant
            i <= na,
            na == a@.len(),
            nb == b@.len(),
            na == nb,
            forall|j: int| 0 <= j < i ==> a@[j] == b@[j],
        decreases na - i,
    {
        if a.get_char(i) != b.get_char(i) {
            proof {
                if a@ == b@ {
                    assert(a@[i as int] == b@[i as int]);
                }
            }
            return false;
        }
        i = i + 1;
    }
    proof {
        assert(a@ =~= b@);
    }
    true
}

/// True iff every character of `s` is Japanese script.
pub fn str_is_japanese(s: &str) -> (r: bool)
    ensures
        r == seq_is_japanese(s@),
{
    let n = s.unicode_len();
    let mut i: usize = 0;
    while i < n
        invariant
            i <= n,
            n == s@.len(),
            forall|j: int| 0 <= j < i ==> spec_is_japanese_char(#[trigger] s@[j]),
        decreases n - i,
    {
        if !is_japanese_char(s.get_char(i)) {
            return false;
        }
        i = i + 1;
    }
    true
}

/// True iff some character of `s` is Japanese script.
pub fn str_has_japanese(s: &str) -> (r: bool)
    ensures
        r == seq_has_japanese(s@),
{
    let n = s.unicode_len();
    let mut i: usize = 0;
    while i < n
        invariant
            i <= n,
            n == s@.len(),
            forall|j: int| 0 <= j < i ==> !spec_is_japanese_char(#[trigger] s@[j]),
        decreases n - i,
    {
        if is_japanese_char(s.get_char(i)) {
            return true;
        }
        i = i + 1;
    }
    false
}

/// True iff every character of `s` is hiragana.
pub fn str_is_hiragana(s: &str) -> (r: bool)
    ensures
        r == seq_is_hiragana(s@),
{
    let n = s.unicode_len();
    let mut i: usize = 0;
    while i < n
        invariant
            i <= n,
            n == s@.len(),
            forall|j: int| 0 <= j < i ==> spec_is_hiragana_char(#[trigger] s@[j]),
        decreases n - i,
    {
        if !is_hiragana_char(s.get_char(i)) {
            return false;
        }
        i = i + 1;
    }
    true
}

/// True iff every character of `s` is kana.
pub fn str_is_kana(s: &str) -> (r: bool)
    ensures
        r == seq_is_kana(s@),
{
    let n = s.unicode_len();
    let mut i: usize = 0;
    while i < n
        invariant
            i <= n,
            n == s@.len(),
            forall|j: int| 0 <= j < i ==> spec_is_kana_char(#[trigger] s@[j]),
        decreases n - i,
    {
        if !is_kana_char(s.get_char(i)) {
            return false;
        }
        i = i + 1;
    }
    true
}

/// True iff every character of `s` is a roman letter or a space.
pub fn str_is_romanized(s: &str) -> (r: bool)
    ensures
        r == seq_is_romanized(s@),
{
    let n = s.unicode_len();
    let mut i: usize = 0;
    while i < n
        invariant
            i <= n,
            n == s@.len(),
            forall|j: int|
                0 <= j < i ==> spec_is_roman_letter(#[trigger] s@[j]) || s@[j] == ' ',
        decreases n - i,
    {
        let c = s.get_char(i);
        if !(is_roman_letter(c) || c == ' ') {
            return false;
        }
        i = i + 1;
    }
    true
}

} // verus!
