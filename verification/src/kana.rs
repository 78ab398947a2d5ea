//! Kana conversion, delegated to the `romaji` transliterator.
//!
//! The conversions are pure functions of the input characters, so they are
//! given names that contracts elsewhere can speak of; nothing beyond
//! determinism and preservation of emptiness is assumed about their tables.

use vstd::prelude::*;

verus! {

/// The katakana transliteration of a string: romaji syllables and hiragana
/// become katakana, other characters pass through.
pub uninterp spec fn katakana_of(s: Seq<char>) -> Seq<char>;

/// The hiragana transliteration of a string: romaji syllables and katakana
/// become hiragana, other characters pass through.
pub uninterp spec fn hiragana_of(s: Seq<char>) -> Seq<char>;

/// Relies on romaji's `RomajiExt::to_katakana` for `str`: splits the input
/// into syllables and transliterates each to katakana; the result depends on
/// the input characters alone, and an empty input splits into no syllables.
#[verifier::external_body]
pub fn to_katakana(s: &str) -> (r: String)
    ensures
        r@ == katakana_of(s@),
        s@.len() == 0 ==> r@.len() == 0,
{
    romaji::RomajiExt::to_katakana(s)
}

/// Relies on romaji's `RomajiExt::to_hiragana` for `str`: transliterates to
/// katakana and then maps each syllable to hiragana; the result depends on
/// the input characters alone, and an empty input splits into no syllables.
#[verifier::external_body]
pub fn to_hiragana(s: &str) -> (r: String)
    ensures
        r@ == hiragana_of(s@),
        s@.len() == 0 ==> r@.len() == 0,
{
    romaji::RomajiExt::to_hiragana(s)
}

} // verus!
