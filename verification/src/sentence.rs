//! Example-sentence records, and the pure assembly behind storing them:
//! the kana reading is extracted from the sentence's furigana markup, and
//! the translation and vocabulary rows are built from plain pairs. The
//! storage layer itself lives outside this crate.

use vstd::prelude::*;
use crate::query::Language;

verus! {

/// A stored example sentence.
pub struct Sentence {
    pub id: i32,
    pub content: String,
    pub kana: String,
    pub furigana: String,
}

/// An example sentence to be stored.
pub struct NewSentence {
    pub content: String,
    pub kana: String,
    pub furigana: String,
}

/// A stored sentence translation.
pub struct Translation {
    pub id: i32,
    pub sentence_id: i32,
    pub language: Language,
    pub content: String,
}

/// A sentence translation to be stored.
pub struct NewTranslation {
    pub sentence_id: i32,
    pub language: Language,
    pub content: String,
}

/// A stored link from a sentence to a dictionary entry.
pub struct SentenceVocabulary {
    pub id: i32,
    pub sentence_id: i32,
    pub dict_sequence: i32,
    pub start: i32,
}

/// A sentence-to-entry link to be stored.
pub struct NewSentenceVocabulary {
    pub sentence_id: i32,
    pub dict_sequence: i32,
    pub start: i32,
}

/// Where a furigana scan stands: outside any segment, in a segment's
/// kanji side, or in a segment's reading side.
#[derive(Clone, Copy, PartialEq, Eq, Structural, Debug)]
pub enum FuriganaState {
    Outside,
    KanjiSide,
    ReadingSide,
}

/// The kana reading of furigana markup, scanning from position `i` in the
/// given state: plain text passes through, a bracketed segment
/// `[kanji|reading]` contributes its reading parts only, and the markup
/// characters themselves are dropped.
pub open spec fn spec_kana_from(s: Seq<char>, i: int, st: FuriganaState) -> Seq<char>
    decreases s.len() - i when 0 <= i <= s.len()
{
    if i >= s.len() {
        Seq::<char>::empty()
    } else {
        let c = s[i];
        if c == '[' {
            spec_kana_from(s, i + 1, FuriganaState::KanjiSide)
        } else if c == '|' {
            spec_kana_from(s, i + 1, FuriganaState::ReadingSide)
        } else if c == ']' {
            spec_kana_from(s, i + 1, FuriganaState::Outside)
        } else if st == FuriganaState::KanjiSide {
            spec_kana_from(s, i + 1, st)
        } else {
            seq![c] + spec_kana_from(s, i + 1, st)
        }
    }
}

/// The kana reading of a furigana string.
pub open spec fn spec_kana_of_furigana(s: Seq<char>) -> Seq<char> {
    spec_kana_from(s, 0, FuriganaState::Outside)
}

/// Extracts the kana reading from furigana markup.
pub fn kana_of_furigana(s: &str) -> (r: String)
    ensures
        r@ == spec_kana_of_furigana(s@),
{
    let n = s.unicode_len();
    let mut out = String::new();
    let mut st = FuriganaState::Outside;
    let mut i: usize = 0;
    while i < n
        invariant
            i <= n,
            n == s@.len(),
            out@ + spec_kana_from(s@, i as int, st) == spec_kana_of_furigana(s@),
        decreases n - i,
    {
        let c = s.get_char(i);
        let ghost st0 = st;
        let ghost out0 = out@;
        if c == '[' {
            st = FuriganaState::KanjiSide;
        } else if c == '|' {
            st = FuriganaState::ReadingSide;
        } else if c == ']' {
            st = FuriganaState::Outside;
        } else if matches!(st, FuriganaState::KanjiSide) {
        } else {
            let piece = s.substring_char(i, i + 1);
            proof {
                assert(piece@ =~= seq![c]);
            }
            out.append(piece);
        }
        proof {
            assert(out@ + spec_kana_from(s@, i + 1, st) =~= out0 + spec_kana_from(
                s@,
                i as int,
                st0,
            ));
        }
        i = i + 1;
    }
    proof {
        assert(spec_kana_from(s@, n as int, st) =~= Seq::<char>::empty());
        assert(out@ =~= out@ + spec_kana_from(s@, n as int, st));
    }
    out
}

/// Builds the sentence row to store: the kana reading is extracted from
/// the furigana markup.
pub fn build_new_sentence(content: String, furigana: String) -> (r: NewSentence)
    ensures
        r.content == content,
        r.furigana == furigana,
        r.kana@ == spec_kana_of_furigana(furigana@),
{
    let kana = kana_of_furigana(furigana.as_str());
    NewSentence { content, kana, furigana }
}

/// Builds the translation rows for a freshly stored sentence, one per
/// (content, language) pair, in order.
pub fn build_translations(sentence_id: i32, translations: Vec<(String, Language)>) -> (r: Vec<
    NewTranslation,
>)
    ensures
        r@.len() == translations@.len(),
        forall|i: int|
            0 <= i < r@.len() ==> (#[trigger] r@[i]).sentence_id == sentence_id && r@[i].content
                == translations@[i].0 && r@[i].language == translations@[i].1,
{
    let ghost src0 = translations@;
    let mut src = translations;
    let mut out: Vec<NewTranslation> = Vec::new();
    while src.len() > 0
        invariant
            out@.len() + src@.len() == src0.len(),
            forall|j: int| 0 <= j < src@.len() ==> #[trigger] src@[j] == src0[out@.len() + j],
            forall|i: int|
                0 <= i < out@.len() ==> (#[trigger] out@[i]).sentence_id == sentence_id
                    && out@[i].content == src0[i].0 && out@[i].language == src0[i].1,
        decreases src@.len(),
    {
        let t = src.remove(0);
        out.push(NewTranslation { sentence_id, language: t.1, content: t.0 });
    }
    out
}

/// Builds the vocabulary links for a freshly stored sentence from the
/// resolved (entry sequence id, start position) pairs, in order.
pub fn build_vocab_relations(sentence_id: i32, readings: Vec<(i32, i32)>) -> (r: Vec<
    NewSentenceVocabulary,
>)
    ensures
        r@.len() == readings@.len(),
        forall|i: int|
            0 <= i < r@.len() ==> (#[trigger] r@[i]).sentence_id == sentence_id
                && r@[i].dict_sequence == readings@[i].0 && r@[i].start == readings@[i].1,
{
    let ghost src0 = readings@;
    let mut src = readings;
    let mut out: Vec<NewSentenceVocabulary> = Vec::new();
    while src.len() > 0
        invariant
            out@.len() + src@.len() == src0.len(),
            forall|j: int| 0 <= j < src@.len() ==> #[trigger] src@[j] == src0[out@.len() + j],
            forall|i: int|
                0 <= i < out@.len() ==> (#[trigger] out@[i]).sentence_id == sentence_id
                    && out@[i].dict_sequence == src0[i].0 && out@[i].start == src0[i].1,
        decreases src@.len(),
    {
        let p = src.remove(0);
        out.push(NewSentenceVocabulary { sentence_id, dict_sequence: p.0, start: p.1 });
    }
    out
}

} // verus!
