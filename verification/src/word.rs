//! The word-level data the engine works on: dictionary words as the search
//! strategies read them, kanji metadata records, analyzer output, and the
//! assembled result of a word search.

use vstd::prelude::*;
use crate::completions::WordPair;

verus! {

/// A dictionary word as the suggestion/search core reads it: its kana
/// reading, its kanji reading when the entry has one, and the ranking
/// signals the data source attaches.
pub struct Word {
    pub kana: String,
    pub kanji: Option<String>,
    /// Entry priority/frequency signal; higher ranks first.
    pub priority: u32,
    /// Gloss relevance signal for foreign queries; higher ranks first.
    pub gloss_relevance: u32,
}

/// Word equality as the engine deduplicates: both readings and both
/// ranking signals agree.
pub open spec fn spec_word_eq(a: Word, b: Word) -> bool {
    &&& a.kana@ == b.kana@
    &&& (match (a.kanji, b.kanji) {
        (Some(x), Some(y)) => x@ == y@,
        (None, None) => true,
        _ => false,
    })
    &&& a.priority == b.priority
    &&& a.gloss_relevance == b.gloss_relevance
}

impl Word {
    pub fn new(kana: String, kanji: Option<String>, priority: u32, gloss_relevance: u32) -> (r:
        Self)
        ensures
            r.kana == kana,
            r.kanji == kanji,
            r.priority == priority,
            r.gloss_relevance == gloss_relevance,
    {
        Word { kana, kanji, priority, gloss_relevance }
    }

    /// Equality on readings and signals.
    pub fn eq_word(&self, other: &Word) -> (r: bool)
        ensures
            r == spec_word_eq(*self, *other),
    {
        if self.priority != other.priority || self.gloss_relevance != other.gloss_relevance {
            return false;
        }
        if !crate::jp::str_eq(self.kana.as_str(), other.kana.as_str()) {
            return false;
        }
        match (&self.kanji, &other.kanji) {
            (Some(x), Some(y)) => crate::jp::str_eq(x.as_str(), y.as_str()),
            (None, None) => true,
            _ => false,
        }
    }

    /// A structurally equal copy.
    pub fn duplicate(&self) -> (r: Self)
        ensures
            r == *self,
    {
        let kanji = match &self.kanji {
            Some(k) => Some(k.clone()),
            None => None,
        };
        Word {
            kana: self.kana.clone(),
            kanji,
            priority: self.priority,
            gloss_relevance: self.gloss_relevance,
        }
    }
}

impl WordPair {
    /// The suggestion surface of a word: with a kanji reading, the kana is
    /// primary and the kanji secondary; otherwise the kana stands alone.
    pub fn from_word(word: &Word) -> (r: WordPair)
        ensures
            r.primary == word.kana,
            word.kanji matches Some(k) ==> r.secondary == Some(k),
            word.kanji is None ==> r.secondary is None,
    {
        match &word.kanji {
            Some(k) => WordPair::new(word.kana.clone(), Some(k.clone())),
            None => WordPair::new(word.kana.clone(), None),
        }
    }
}

/// A kanji metadata record attached to a word result.
pub struct KanjiResult {
    pub literal: char,
    pub meaning: String,
}

impl KanjiResult {
    /// A structurally equal copy.
    pub fn duplicate(&self) -> (r: Self)
        ensures
            r == *self,
    {
        KanjiResult { literal: self.literal, meaning: self.meaning.clone() }
    }
}

/// One item of an assembled word result.
pub enum Item {
    Word(Word),
    Kanji(KanjiResult),
}

impl Item {
    /// A structurally equal copy.
    pub fn duplicate(&self) -> (r: Self)
        ensures
            r == *self,
    {
        match self {
            Item::Word(w) => Item::Word(w.duplicate()),
            Item::Kanji(k) => Item::Kanji(k.duplicate()),
        }
    }
}

/// Conjugation/inflection context resolved by morphological analysis.
pub struct InflectionInformation {
    /// The normalized lexeme the inflected input resolves to.
    pub lexeme: String,
    /// The inflection forms recognized on the way.
    pub forms: Vec<String>,
}

/// One part of a decomposed multi-word sentence input.
pub struct SentencePart {
    pub text: String,
    pub pos: usize,
    /// Reading aid, filled by the data service for kanji-bearing parts.
    pub furigana: Option<String>,
}

/// One token of the morphological analyzer's output.
pub struct Token {
    /// Normalized (dictionary) form.
    pub lexeme: String,
    /// The surface span as the user wrote it.
    pub surface: String,
    pub word_class: crate::query::WordClass,
    /// Inflection forms between surface and lexeme.
    pub inflections: Vec<String>,
}

/// The analyzer's decomposition of the input into tokens.
pub struct ParsedSentence {
    pub items: Vec<Token>,
}

/// What one search strategy returns before final assembly.
pub struct ResultData {
    pub words: Vec<Word>,
    pub infl_info: Option<InflectionInformation>,
    /// The true match count, before any truncation for display.
    pub count: usize,
    pub sentence_index: usize,
    pub sentence_parts: Option<Vec<SentencePart>>,
    pub searched_query: String,
}

impl Default for ResultData {
    /// The empty strategy result.
    fn default() -> (r: Self)
        ensures
            r.words@ == Seq::<Word>::empty(),
            r.infl_info is None,
            r.count == 0,
            r.sentence_index == 0,
            r.sentence_parts is None,
            r.searched_query@ == Seq::<char>::empty(),
    {
        ResultData {
            words: Vec::new(),
            infl_info: None,
            count: 0,
            sentence_index: 0,
            sentence_parts: None,
            searched_query: String::new(),
        }
    }
}

/// One inflection context equals another: same lexeme, same forms.
pub open spec fn infl_equiv(
    a: Option<InflectionInformation>,
    b: Option<InflectionInformation>,
) -> bool {
    match (a, b) {
        (None, None) => true,
        (Some(x), Some(y)) => x.lexeme == y.lexeme && x.forms@ == y.forms@,
        _ => false,
    }
}

/// One sentence decomposition equals another, part for part.
pub open spec fn parts_equiv(a: Option<Vec<SentencePart>>, b: Option<Vec<SentencePart>>) -> bool {
    match (a, b) {
        (None, None) => true,
        (Some(x), Some(y)) => x@ == y@,
        _ => false,
    }
}

impl SentencePart {
    /// A structurally equal copy.
    pub fn duplicate(&self) -> (r: Self)
        ensures
            r == *self,
    {
        let furigana = match &self.furigana {
            Some(f) => Some(f.clone()),
            None => None,
        };
        SentencePart { text: self.text.clone(), pos: self.pos, furigana }
    }
}

impl InflectionInformation {
    /// A copy with the same lexeme and the same forms.
    pub fn duplicate(&self) -> (r: Self)
        ensures
            r.lexeme == self.lexeme,
            r.forms@ == self.forms@,
    {
        let mut forms: Vec<String> = Vec::new();
        let mut i: usize = 0;
        while i < self.forms.len()
            invariant
                i <= self.forms@.len(),
                forms@.len() == i,
                forall|j: int| 0 <= j < i ==> forms@[j] == self.forms@[j],
            decreases self.forms@.len() - i,
        {
            forms.push(self.forms[i].clone());
            i = i + 1;
        }
        proof {
            assert(forms@ =~= self.forms@);
        }
        InflectionInformation { lexeme: self.lexeme.clone(), forms }
    }
}

/// The assembled result of a word search.
pub struct WordResult {
    pub items: Vec<Item>,
    pub contains_kanji: bool,
    pub inflection_info: Option<InflectionInformation>,
    pub count: usize,
    pub sentence_parts: Option<Vec<SentencePart>>,
    pub sentence_index: usize,
    pub searched_query: String,
}

/// Two assembled results are structurally equal: same items, same counts,
/// same inflection context, same sentence decomposition.
pub open spec fn word_result_equiv(a: WordResult, b: WordResult) -> bool {
    &&& a.items@ == b.items@
    &&& a.contains_kanji == b.contains_kanji
    &&& infl_equiv(a.inflection_info, b.inflection_info)
    &&& a.count == b.count
    &&& parts_equiv(a.sentence_parts, b.sentence_parts)
    &&& a.sentence_index == b.sentence_index
    &&& a.searched_query == b.searched_query
}

/// Structural equality of assembled results is symmetric: what the cache
/// returns is equal to what was stored, in both directions.
pub proof fn lemma_word_result_equiv_symm(a: WordResult, b: WordResult)
    requires
        word_result_equiv(a, b),
    ensures
        word_result_equiv(b, a),
{
}

/// Structural equality of assembled results is transitive: a copy of a
/// cached copy still equals the result first computed.
pub proof fn lemma_word_result_equiv_trans(a: WordResult, b: WordResult, c: WordResult)
    requires
        word_result_equiv(a, b),
        word_result_equiv(b, c),
    ensures
        word_result_equiv(a, c),
{
}

impl WordResult {
    /// A structurally equal copy.
    pub fn duplicate(&self) -> (r: Self)
        ensures
            word_result_equiv(r, *self),
    {
        let mut items: Vec<Item> = Vec::new();
        let mut i: usize = 0;
        while i < self.items.len()
            invariant
                i <= self.items@.len(),
                items@.len() == i,
                forall|j: int| 0 <= j < i ==> items@[j] == self.items@[j],
            decreases self.items@.len() - i,
        {
            items.push(self.items[i].duplicate());
            i = i + 1;
        }
        proof {
            assert(items@ =~= self.items@);
        }
        let inflection_info = match &self.inflection_info {
            Some(x) => Some(x.duplicate()),
            None => None,
        };
        let sentence_parts = match &self.sentence_parts {
            Some(parts) => {
                let mut out: Vec<SentencePart> = Vec::new();
                let mut k: usize = 0;
                while k < parts.len()
                    invariant
                        k <= parts@.len(),
                        out@.len() == k,
                        forall|j: int| 0 <= j < k ==> out@[j] == parts@[j],
                    decreases parts@.len() - k,
                {
                    out.push(parts[k].duplicate());
                    k = k + 1;
                }
                proof {
                    assert(out@ =~= parts@);
                }
                Some(out)
            },
            None => None,
        };
        WordResult {
            items,
            contains_kanji: self.contains_kanji,
            inflection_info,
            count: self.count,
            sentence_parts,
            sentence_index: self.sentence_index,
            searched_query: self.searched_query.clone(),
        }
    }
}

/// Joins kanji metadata and words into the fixed display order: all kanji
/// items precede all word items, whatever their individual ranks.
pub fn merge_words_with_kanji(words: Vec<Word>, kanji: Vec<KanjiResult>) -> (r: Vec<Item>)
    ensures
        r@.len() == kanji@.len() + words@.len(),
        forall|i: int| 0 <= i < kanji@.len() ==> r@[i] == Item::Kanji(kanji@[i]),
        forall|j: int|
            0 <= j < words@.len() ==> r@[kanji@.len() + j] == Item::Word(words@[j]),
{
    let ghost kanji0 = kanji@;
    let ghost words0 = words@;
    let mut out: Vec<Item> = Vec::new();
    let mut src = kanji;
    while src.len() > 0
        invariant
            out@.len() + src@.len() == kanji0.len(),
            forall|j: int| 0 <= j < src@.len() ==> src@[j] == kanji0[out@.len() + j],
            forall|i: int| 0 <= i < out@.len() ==> out@[i] == Item::Kanji(kanji0[i]),
        decreases src@.len(),
    {
        let k = src.remove(0);
        out.push(Item::Kanji(k));
    }
    let mut srcw = words;
    while srcw.len() > 0
        invariant
            srcw@.len() <= words0.len(),
            out@.len() == kanji0.len() + (words0.len() - srcw@.len()),
            forall|j: int|
                0 <= j < srcw@.len() ==> #[trigger] srcw@[j] == words0[out@.len() - kanji0.len()
                    + j],
            forall|i: int| 0 <= i < kanji0.len() ==> #[trigger] out@[i] == Item::Kanji(kanji0[i]),
            forall|i: int|
                kanji0.len() <= i < out@.len() ==> #[trigger] out@[i] == Item::Word(
                    words0[i - kanji0.len()],
                ),
        decreases srcw@.len(),
    {
        let ghost srcw_before = srcw@;
        let ghost out_before = out@;
        let w = srcw.remove(0);
        out.push(Item::Word(w));
        proof {
            assert(w == words0[out_before.len() - kanji0.len()]);
            assert(forall|i: int|
                0 <= i < out_before.len() ==> #[trigger] out@[i] == out_before[i]);
            assert(out@[out_before.len() as int] == Item::Word(w));
            assert(forall|j: int|
                0 <= j < srcw@.len() ==> #[trigger] srcw@[j] == srcw_before[j + 1]);
        }
    }
    out
}

} // verus!
