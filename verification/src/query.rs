//! The query model: detected language, search type, parsed form, user
//! settings and filter tags, plus language detection, form recognition and
//! the stable fingerprint that keys the result cache.

use vstd::prelude::*;
use crate::jp;

verus! {

/// The detected language of the raw input.
#[derive(Clone, Copy, PartialEq, Eq, Structural, Debug)]
pub enum QueryLang {
    Japanese,
    Foreign,
    Undetected,
}

/// The domain a query is searched in.
#[derive(Clone, Copy, PartialEq, Eq, Structural, Debug)]
pub enum QueryType {
    Words,
    Kanji,
    Names,
    Sentences,
}

impl Default for QueryType {
    /// Absent a stated type, a query searches words.
    fn default() -> (r: Self)
        ensures
            r == QueryType::Words,
    {
        QueryType::Words
    }
}

/// The user's preferred gloss language.
#[derive(Clone, Copy, PartialEq, Eq, Structural, Debug)]
pub enum Language {
    English,
    German,
    Spanish,
    French,
    Dutch,
    Swedish,
    Russian,
    Hungarian,
    Slovenian,
}

impl Default for Language {
    /// The fallback gloss language.
    fn default() -> (r: Self)
        ensures
            r == Language::English,
    {
        Language::English
    }
}

/// The language a recognized user-language code stands for.
pub open spec fn lang_of_code(s: Seq<char>) -> Option<Language> {
    if s == "en-US"@ {
        Some(Language::English)
    } else if s == "de-DE"@ {
        Some(Language::German)
    } else if s == "es-ES"@ {
        Some(Language::Spanish)
    } else if s == "fr-FR"@ {
        Some(Language::French)
    } else if s == "nl-NL"@ {
        Some(Language::Dutch)
    } else if s == "sv-SE"@ {
        Some(Language::Swedish)
    } else if s == "ru"@ {
        Some(Language::Russian)
    } else if s == "hu"@ {
        Some(Language::Hungarian)
    } else if s == "sl-SI"@ {
        Some(Language::Slovenian)
    } else {
        None
    }
}

impl Language {
    /// Parses a user-language code.
    pub fn from_code(s: &str) -> (r: Option<Language>)
        ensures
            r == lang_of_code(s@),
    {
        if jp::str_eq(s, "en-US") {
            Some(Language::English)
        } else if jp::str_eq(s, "de-DE") {
            Some(Language::German)
        } else if jp::str_eq(s, "es-ES") {
            Some(Language::Spanish)
        } else if jp::str_eq(s, "fr-FR") {
            Some(Language::French)
        } else if jp::str_eq(s, "nl-NL") {
            Some(Language::Dutch)
        } else if jp::str_eq(s, "sv-SE") {
            Some(Language::Swedish)
        } else if jp::str_eq(s, "ru") {
            Some(Language::Russian)
        } else if jp::str_eq(s, "hu") {
            Some(Language::Hungarian)
        } else if jp::str_eq(s, "sl-SI") {
            Some(Language::Slovenian)
        } else {
            None
        }
    }
}

/// A simplified part-of-speech class used to filter search results.
#[derive(Clone, Copy, PartialEq, Eq, Structural, Debug)]
pub enum PosSimple {
    Noun,
    Verb,
    Adjective,
    Adverb,
    Particle,
    Pronoun,
    Interjection,
    Suffix,
    Prefix,
}

/// An active filter tag attached to a query.
#[derive(Clone, Copy, PartialEq, Eq, Structural, Debug)]
pub enum Tag {
    PartOfSpeech(PosSimple),
    SearchType(QueryType),
}

/// The part-of-speech filters named by a tag sequence, in tag order.
pub open spec fn pos_filter_of(tags: Seq<Tag>) -> Seq<PosSimple>
    decreases tags.len(),
{
    if tags.len() == 0 {
        Seq::<PosSimple>::empty()
    } else {
        let rest = pos_filter_of(tags.drop_last());
        match tags.last() {
            Tag::PartOfSpeech(p) => rest.push(p),
            _ => rest,
        }
    }
}

/// The word class the morphological analyzer assigns a token.
#[derive(Clone, Copy, PartialEq, Eq, Structural, Debug)]
pub enum WordClass {
    Particle,
    Verb,
    Adjective,
    Adverb,
    Noun,
    Pronoun,
    Interjection,
    Suffix,
    Prefix,
    Symbol,
    Other,
}

/// The part-of-speech filter a word class induces, where one does.
pub open spec fn spec_word_class_to_pos_s(class: WordClass) -> Option<PosSimple> {
    match class {
        WordClass::Particle => Some(PosSimple::Particle),
        WordClass::Verb => Some(PosSimple::Verb),
        WordClass::Adjective => Some(PosSimple::Adjective),
        WordClass::Adverb => Some(PosSimple::Adverb),
        WordClass::Noun => Some(PosSimple::Noun),
        WordClass::Pronoun => Some(PosSimple::Pronoun),
        WordClass::Interjection => Some(PosSimple::Interjection),
        WordClass::Suffix => Some(PosSimple::Suffix),
        WordClass::Prefix => Some(PosSimple::Prefix),
        _ => None,
    }
}

/// Maps an analyzer word class to a part-of-speech filter; symbol-like
/// classes induce none.
pub fn word_class_to_pos_s(class: &WordClass) -> (r: Option<PosSimple>)
    ensures
        r == spec_word_class_to_pos_s(*class),
{
    match class {
        WordClass::Particle => Some(PosSimple::Particle),
        WordClass::Verb => Some(PosSimple::Verb),
        WordClass::Adjective => Some(PosSimple::Adjective),
        WordClass::Adverb => Some(PosSimple::Adverb),
        WordClass::Noun => Some(PosSimple::Noun),
        WordClass::Pronoun => Some(PosSimple::Pronoun),
        WordClass::Interjection => Some(PosSimple::Interjection),
        WordClass::Suffix => Some(PosSimple::Suffix),
        WordClass::Prefix => Some(PosSimple::Prefix),
        WordClass::Symbol => None,
        WordClass::Other => None,
    }
}

/// A query recognized as asking for a kanji's readings: the kanji literal
/// and the (possibly empty) reading to match.
pub struct KanjiReading {
    pub literal: char,
    pub reading: String,
}

impl KanjiReading {
    pub fn new(literal: char, reading: String) -> (r: Self)
        ensures
            r.literal == literal,
            r.reading == reading,
    {
        KanjiReading { literal, reading }
    }

    /// A structurally equal copy.
    pub fn duplicate(&self) -> (r: Self)
        ensures
            r == *self,
    {
        KanjiReading { literal: self.literal, reading: self.reading.clone() }
    }
}

/// The parsed form of a query: plain text, or a recognized kanji-reading
/// form.
pub enum Form {
    KanjiReading(KanjiReading),
    Plain,
}

impl Form {
    /// A structurally equal copy.
    pub fn duplicate(&self) -> (r: Self)
        ensures
            r == *self,
    {
        match self {
            Form::KanjiReading(k) => Form::KanjiReading(k.duplicate()),
            Form::Plain => Form::Plain,
        }
    }

}

/// Per-user search settings carried by every query.
#[derive(Clone, Copy, PartialEq, Eq, Structural, Debug)]
pub struct UserSettings {
    /// Preferred gloss language.
    pub user_lang: Language,
    /// Whether English glosses are included besides the preferred language.
    pub show_english: bool,
    /// Which word of a multi-word sentence input is selected.
    pub word_index: usize,
}

impl Default for UserSettings {
    fn default() -> (r: Self)
        ensures
            r.user_lang == Language::English,
            r.show_english == true,
            r.word_index == 0,
    {
        UserSettings { user_lang: Language::English, show_english: true, word_index: 0 }
    }
}

/// The detected language of a raw input string: Japanese when any character
/// is Japanese script (tolerating a trailing roman letter left by romanized
/// typing), otherwise undetected when the input could still be romanized
/// Japanese (roman letters and spaces only), otherwise foreign.
pub open spec fn spec_parse_language(s: Seq<char>) -> QueryLang {
    if jp::seq_has_japanese(s) {
        QueryLang::Japanese
    } else if jp::seq_is_romanized(s) {
        QueryLang::Undetected
    } else {
        QueryLang::Foreign
    }
}

/// Detects the language of a raw input string.
pub fn parse_language(s: &str) -> (r: QueryLang)
    ensures
        r == spec_parse_language(s@),
{
    if jp::str_has_japanese(s) {
        QueryLang::Japanese
    } else if jp::str_is_romanized(s) {
        QueryLang::Undetected
    } else {
        QueryLang::Foreign
    }
}

/// Recognizes the kanji-reading form of a raw query: its first character is
/// a kanji and its second a literal space; the remainder is the reading.
pub fn parse_form(s: &str) -> (r: Form)
    ensures
        r is KanjiReading <==> (s@.len() >= 2 && jp::spec_is_kanji_char(s@[0]) && s@[1] == ' '),
        r matches Form::KanjiReading(k) ==> k.literal == s@[0] && k.reading@ == s@.skip(2),
{
    let n = s.unicode_len();
    if n >= 2 && jp::is_kanji_char(s.get_char(0)) && s.get_char(1) == ' ' {
        let reading = s.substring_char(2, n);
        proof {
            assert(reading@ =~= s@.skip(2));
        }
        Form::KanjiReading(KanjiReading { literal: s.get_char(0), reading: reading.to_owned() })
    } else {
        Form::Plain
    }
}

/// An immutable search query: the raw input, the working query string, the
/// detected language, the search type, the parsed form, the active filter
/// tags and the user settings.
pub struct Query {
    pub original_query: String,
    pub query: String,
    pub language: QueryLang,
    pub type_: QueryType,
    pub form: Form,
    pub tags: Vec<Tag>,
    pub settings: UserSettings,
}

impl Query {
    /// A copy equal field by field; the tag list is equal as a sequence.
    pub fn duplicate(&self) -> (r: Self)
        ensures
            r.original_query == self.original_query,
            r.query == self.query,
            r.language == self.language,
            r.type_ == self.type_,
            r.form == self.form,
            r.tags@ == self.tags@,
            r.settings == self.settings,
    {
        let mut tags: Vec<Tag> = Vec::new();
        let mut i: usize = 0;
        while i < self.tags.len()
            invariant
                i <= self.tags@.len(),
                tags@ == self.tags@.take(i as int),
            decreases self.tags@.len() - i,
        {
            tags.push(self.tags[i]);
            proof {
                assert(tags@ =~= self.tags@.take(i + 1));
            }
            i = i + 1;
        }
        proof {
            assert(self.tags@.take(self.tags@.len() as int) =~= self.tags@);
        }
        Query {
            original_query: self.original_query.clone(),
            query: self.query.clone(),
            language: self.language,
            type_: self.type_,
            form: self.form.duplicate(),
            tags,
            settings: self.settings,
        }
    }

    /// The part-of-speech filters named by the query's tags, in tag order.
    pub fn get_part_of_speech_tags(&self) -> (r: Vec<PosSimple>)
        ensures
            r@ == pos_filter_of(self.tags@),
    {
        let mut out: Vec<PosSimple> = Vec::new();
        let mut i: usize = 0;
        while i < self.tags.len()
            invariant
                i <= self.tags@.len(),
                out@ == pos_filter_of(self.tags@.take(i as int)),
            decreases self.tags@.len() - i,
        {
            let t = self.tags[i];
            proof {
                assert(self.tags@.take(i + 1).drop_last() =~= self.tags@.take(i as int));
                assert(self.tags@.take(i + 1).last() == t);
            }
            match t {
                Tag::PartOfSpeech(p) => {
                    out.push(p);
                },
                _ => {},
            }
            i = i + 1;
        }
        proof {
            assert(self.tags@.take(self.tags@.len() as int) =~= self.tags@);
        }
        out
    }

    /// True iff some tag names a part-of-speech filter.
    pub fn has_part_of_speech_tags(&self) -> (r: bool)
        ensures
            r == exists|i: int|
                0 <= i < self.tags@.len() && (#[trigger] self.tags@[i]) is PartOfSpeech,
    {
        let mut i: usize = 0;
        while i < self.tags.len()
            invariant
                i <= self.tags@.len(),
                forall|j: int| 0 <= j < i ==> !((#[trigger] self.tags@[j]) is PartOfSpeech),
            decreases self.tags@.len() - i,
        {
            match self.tags[i] {
                Tag::PartOfSpeech(_) => {
                    return true;
                },
                _ => {},
            }
            i = i + 1;
        }
        false
    }
}

} // verus!
