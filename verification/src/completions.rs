//! The suggestion endpoint's dispatcher: input normalization and
//! validation, query construction, routing to the domain handlers, and the
//! word-suggestion flow with its katakana retry and exact-match-first
//! ordering.
//!
//! Fetching candidate pairs is the data service's work; the flow here is a
//! step machine that tells a driver what to fetch next and assembles the
//! response from what comes back.

use vstd::prelude::*;
use crate::jp;
use crate::kana;
use crate::error::RestError;
use crate::query::{
    spec_parse_language, parse_language, lang_of_code, Form, KanjiReading, Language, Query,
    QueryLang, QueryType, Tag, UserSettings,
};

verus! {

/// A suggestion surface: a primary reading and an optional secondary one
/// (kana plus kanji). Two pairs are equal iff both fields match.
#[derive(Debug, Eq, Hash, Clone)]
pub struct WordPair {
    pub primary: String,
    pub secondary: Option<String>,
}

/// The readings a suggestion pair displays.
pub struct WordPairView {
    pub primary: Seq<char>,
    pub secondary: Option<Seq<char>>,
}

impl View for WordPair {
    type V = WordPairView;

    open spec fn view(&self) -> WordPairView {
        WordPairView {
            primary: self.primary@,
            secondary: match self.secondary {
                Some(s) => Some(s@),
                None => None,
            },
        }
    }
}

impl DeepView for WordPair {
    type V = WordPairView;

    open spec fn deep_view(&self) -> WordPairView {
        self@
    }
}

impl PartialEq for WordPair {
    /// Both fields match.
    fn eq(&self, other: &Self) -> (r: bool) {
        jp::str_eq(self.primary.as_str(), other.primary.as_str()) && match (
            &self.secondary,
            &other.secondary,
        ) {
            (Some(a), Some(b)) => jp::str_eq(a.as_str(), b.as_str()),
            (None, None) => true,
            _ => false,
        }
    }
}

impl vstd::std_specs::cmp::PartialEqSpecImpl for WordPair {
    open spec fn obeys_eq_spec() -> bool {
        true
    }

    open spec fn eq_spec(&self, other: &Self) -> bool {
        self.deep_view() == other.deep_view()
    }
}

/// Suggestion pairs obey deep equality: their `==` decides exactly the
/// equality of the displayed readings, so ranked results over them can be
/// merged with duplicates eliminated.
pub proof fn lemma_word_pair_obeys_deep_eq()
    ensures
        vstd::laws_eq::obeys_deep_eq::<WordPair>(),
{
    reveal(vstd::laws_eq::obeys_deep_eq);
}

/// `w` reads exactly as `reading`, on either surface.
pub open spec fn spec_has_reading(w: WordPair, reading: Seq<char>) -> bool {
    w.primary@ == reading || (w.secondary matches Some(s) && s@ == reading)
}

impl WordPair {
    pub fn new(primary: String, secondary: Option<String>) -> (r: Self)
        ensures
            r.primary == primary,
            r.secondary == secondary,
    {
        WordPair { primary, secondary }
    }

    /// True iff one of the pair's readings equals `reading` exactly.
    pub fn has_reading(&self, reading: &str) -> (r: bool)
        ensures
            r == spec_has_reading(*self, reading@),
    {
        if jp::str_eq(self.primary.as_str(), reading) {
            return true;
        }
        match &self.secondary {
            Some(s) => jp::str_eq(s.as_str(), reading),
            None => false,
        }
    }
}

/// The type of a suggestion response; `Default` in most cases.
#[derive(Clone, Copy, PartialEq, Eq, Structural, Debug)]
pub enum SuggestionType {
    Default,
    KanjiReading,
}

impl Default for SuggestionType {
    fn default() -> (r: Self)
        ensures
            r == SuggestionType::Default,
    {
        SuggestionType::Default
    }
}

/// The suggestion endpoint's response: the suggestions to display, and
/// which kind of suggestion they are.
pub struct Response {
    pub suggestions: Vec<WordPair>,
    pub suggestion_type: SuggestionType,
}

impl Default for Response {
    /// The empty response.
    fn default() -> (r: Self)
        ensures
            r.suggestions@ == Seq::<WordPair>::empty(),
            r.suggestion_type == SuggestionType::Default,
    {
        Response { suggestions: Vec::new(), suggestion_type: SuggestionType::Default }
    }
}

/// The pairs of `s` that read exactly as `q`, in order.
pub open spec fn matching_pairs(s: Seq<WordPair>, q: Seq<char>) -> Seq<WordPair>
    decreases s.len(),
{
    if s.len() == 0 {
        Seq::<WordPair>::empty()
    } else {
        let rest = matching_pairs(s.drop_last(), q);
        if spec_has_reading(s.last(), q) {
            rest.push(s.last())
        } else {
            rest
        }
    }
}

/// The pairs of `s` that do not read exactly as `q`, in order.
pub open spec fn non_matching_pairs(s: Seq<WordPair>, q: Seq<char>) -> Seq<WordPair>
    decreases s.len(),
{
    if s.len() == 0 {
        Seq::<WordPair>::empty()
    } else {
        let rest = non_matching_pairs(s.drop_last(), q);
        if spec_has_reading(s.last(), q) {
            rest
        } else {
            rest.push(s.last())
        }
    }
}

/// A suggestion list ordered for display: pairs reading exactly as the
/// query first, the rest after, each side keeping its relative order.
pub open spec fn sorted_pairs(s: Seq<WordPair>, q: Seq<char>) -> Seq<WordPair> {
    matching_pairs(s, q) + non_matching_pairs(s, q)
}

proof fn lemma_matching_pairs_match(s: Seq<WordPair>, q: Seq<char>)
    ensures
        forall|k: int|
            0 <= k < matching_pairs(s, q).len() ==> spec_has_reading(
                #[trigger] matching_pairs(s, q)[k],
                q,
            ),
        forall|k: int|
            0 <= k < non_matching_pairs(s, q).len() ==> !spec_has_reading(
                #[trigger] non_matching_pairs(s, q)[k],
                q,
            ),
    decreases s.len(),
{
    if s.len() > 0 {
        lemma_matching_pairs_match(s.drop_last(), q);
        let m = matching_pairs(s, q);
        let mr = matching_pairs(s.drop_last(), q);
        let n = non_matching_pairs(s, q);
        let nr = non_matching_pairs(s.drop_last(), q);
        assert forall|k: int| 0 <= k < m.len() implies spec_has_reading(m[k], q) by {
            if spec_has_reading(s.last(), q) {
                assert(m == mr.push(s.last()));
                if k < mr.len() {
                    assert(m[k] == mr[k]);
                }
            } else {
                assert(m[k] == mr[k]);
            }
        }
        assert forall|k: int| 0 <= k < n.len() implies !spec_has_reading(n[k], q) by {
            if !spec_has_reading(s.last(), q) {
                assert(n == nr.push(s.last()));
                if k < nr.len() {
                    assert(n[k] == nr[k]);
                }
            } else {
                assert(n[k] == nr[k]);
            }
        }
    }
}

/// Exact-match tie-break: in a display-ordered suggestion list, a pair that
/// reads exactly as the query never follows one that does not, whatever
/// other ranking signals the pairs carry.
pub proof fn lemma_exact_match_first(s: Seq<WordPair>, q: Seq<char>, i: int, j: int)
    requires
        0 <= i < j < sorted_pairs(s, q).len(),
        spec_has_reading(sorted_pairs(s, q)[j], q),
    ensures
        spec_has_reading(sorted_pairs(s, q)[i], q),
{
    lemma_matching_pairs_match(s, q);
    let m = matching_pairs(s, q);
    let n = non_matching_pairs(s, q);
    if j >= m.len() {
        assert(sorted_pairs(s, q)[j] == n[j - m.len()]);
        assert(false);
    }
    assert(sorted_pairs(s, q)[i] == m[i]);
}

/// Orders suggestions for display: pairs whose reading equals the query
/// move to the front; relative order is otherwise kept.
pub fn sort_exact_matches_first(pairs: Vec<WordPair>, query: &str) -> (r: Vec<WordPair>)
    ensures
        r@ == sorted_pairs(pairs@, query@),
{
    let ghost pairs0 = pairs@;
    let mut src = pairs;
    let mut matched: Vec<WordPair> = Vec::new();
    let mut other: Vec<WordPair> = Vec::new();
    let ghost mut processed: int = 0;
    while src.len() > 0
        invariant
            0 <= processed <= pairs0.len(),
            src@ == pairs0.skip(processed),
            matched@ == matching_pairs(pairs0.take(processed), query@),
            other@ == non_matching_pairs(pairs0.take(processed), query@),
        decreases src@.len(),
    {
        let x = src.remove(0);
        proof {
            assert(x == pairs0[processed]);
            assert(pairs0.skip(processed).skip(1) =~= pairs0.skip(processed + 1));
            assert(pairs0.take(processed + 1).drop_last() =~= pairs0.take(processed));
            assert(pairs0.take(processed + 1).last() == x);
        }
        if x.has_reading(query) {
            matched.push(x);
        } else {
            other.push(x);
        }
        proof {
            processed = processed + 1;
        }
    }
    proof {
        assert(pairs0.take(processed) =~= pairs0);
    }
    let mut out = matched;
    let mut i: usize = 0;
    let ghost m0 = out@;
    let ghost n0 = other@;
    while i < other.len()
        invariant
            i <= other@.len(),
            other@ == n0,
            out@ == m0 + n0.take(i as int),
        decreases other@.len() - i,
    {
        out.push(other[i].clone_pair());
        proof {
            assert(n0.take(i + 1).drop_last() =~= n0.take(i as int));
            assert(out@ =~= m0 + n0.take(i + 1));
        }
        i = i + 1;
    }
    proof {
        assert(n0.take(n0.len() as int) =~= n0);
    }
    out
}

impl WordPair {
    /// A structurally equal copy.
    pub fn clone_pair(&self) -> (r: Self)
        ensures
            r == *self,
    {
        let secondary = match &self.secondary {
            Some(s) => Some(s.clone()),
            None => None,
        };
        WordPair { primary: self.primary.clone(), secondary }
    }
}

/// A leading character stripped by input trimming.
pub open spec fn spec_is_space(c: char) -> bool {
    c == ' ' || c == '\t' || c == '\n' || c == '\r' || c == '\u{3000}'
}

/// `s` without its leading whitespace.
pub open spec fn spec_trim_start(s: Seq<char>) -> Seq<char>
    decreases s.len(),
{
    if s.len() > 0 && spec_is_space(s[0]) {
        spec_trim_start(s.drop_first())
    } else {
        s
    }
}

proof fn lemma_trim_start_skip(s: Seq<char>, i: int)
    requires
        0 <= i <= s.len(),
        forall|j: int| 0 <= j < i ==> spec_is_space(#[trigger] s[j]),
        i < s.len() ==> !spec_is_space(s[i]),
    ensures
        spec_trim_start(s) == s.skip(i),
    decreases i,
{
    if i > 0 {
        assert(spec_is_space(s[0]));
        lemma_trim_start_skip(s.drop_first(), i - 1);
        assert(s.drop_first().skip(i - 1) =~= s.skip(i));
    } else {
        assert(s.skip(0) =~= s);
    }
}

fn is_space(c: char) -> (r: bool)
    ensures
        r == spec_is_space(c),
{
    c == ' ' || c == '\t' || c == '\n' || c == '\r' || c == '\u{3000}'
}

/// Strips leading whitespace.
fn trim_start(s: &str) -> (r: String)
    ensures
        r@ == spec_trim_start(s@),
{
    let n = s.unicode_len();
    let mut i: usize = 0;
    while i < n && is_space(s.get_char(i))
        invariant
            i <= n,
            n == s@.len(),
            forall|j: int| 0 <= j < i ==> spec_is_space(#[trigger] s@[j]),
        decreases n - i,
    {
        i = i + 1;
    }
    proof {
        lemma_trim_start_skip(s@, i as int);
    }
    let r = s.substring_char(i, n);
    proof {
        assert(r@ =~= s@.skip(i as int));
    }
    r.to_owned()
}

/// A raw request to the suggestion endpoint.
pub struct Request {
    /// The search query to find suggestions for.
    pub input: String,
    /// The user-configured language code; empty falls back to the default.
    pub lang: String,
    /// The search type the input is meant for.
    pub search_type: QueryType,
}

/// The condition under which `adjust` strips the final character: the input
/// reads as Japanese, is longer than one character, and ends in a roman
/// letter left over from romanized typing.
pub open spec fn spec_adjust_strips(s: Seq<char>) -> bool {
    &&& spec_parse_language(s) == QueryLang::Japanese
    &&& s.len() > 1
    &&& jp::spec_is_roman_letter(s[s.len() - 1])
}

impl Request {
    pub fn new(input: String, lang: String, search_type: QueryType) -> (r: Self)
        ensures
            r.input == input,
            r.lang == lang,
            r.search_type == search_type,
    {
        Request { input, lang, search_type }
    }

    /// Normalizes the input, returning a new request: a trailing roman
    /// letter on an otherwise Japanese input is an artifact of romanized
    /// typing and is stripped; everything else is kept as is.
    pub fn adjust(&self) -> (r: Self)
        ensures
            r.lang == self.lang,
            r.search_type == self.search_type,
            spec_adjust_strips(self.input@) ==> r.input@ == self.input@.drop_last(),
            !spec_adjust_strips(self.input@) ==> r.input@ == self.input@,
    {
        let n = self.input.unicode_len();
        let strip = n > 1 && jp::is_roman_letter(self.input.as_str().get_char(n - 1))
            && matches!(parse_language(self.input.as_str()), QueryLang::Japanese);
        let input = if strip {
            let shorter = self.input.as_str().substring_char(0, n - 1);
            proof {
                assert(shorter@ =~= self.input@.drop_last());
            }
            shorter.to_owned()
        } else {
            self.input.clone()
        };
        Request { input, lang: self.lang.clone(), search_type: self.search_type }
    }

    /// The user's configured language, falling back to the default.
    pub fn get_language(&self) -> (r: Language)
        ensures
            r == (match lang_of_code(self.lang@) {
                Some(l) => l,
                None => Language::English,
            }),
    {
        match Language::from_code(self.lang.as_str()) {
            Some(l) => l,
            None => Language::English,
        }
    }

    /// Builds the query this request asks for: the input is trimmed of
    /// leading whitespace, its language detected, its form recognized; an
    /// input that trims to nothing is a bad request.
    pub fn get_query(&self) -> (r: Result<Query, RestError>)
        ensures
            spec_trim_start(self.input@).len() == 0 ==> r == Err::<Query, RestError>(
                RestError::BadRequest,
            ),
            spec_trim_start(self.input@).len() > 0 ==> (r matches Ok(q) && {
                let trimmed = spec_trim_start(self.input@);
                &&& q.original_query@ == trimmed
                &&& q.query@ == trimmed
                &&& q.language == spec_parse_language(trimmed)
                &&& q.type_ == self.search_type
                &&& (q.form is KanjiReading <==> (trimmed.len() >= 2 && jp::spec_is_kanji_char(
                    trimmed[0],
                ) && trimmed[1] == ' '))
                &&& (q.form matches Form::KanjiReading(k) ==> k.literal == trimmed[0]
                    && k.reading@ == trimmed.skip(2))
                &&& q.tags@ == Seq::<Tag>::empty()
                &&& q.settings.user_lang == (match lang_of_code(self.lang@) {
                    Some(l) => l,
                    None => Language::English,
                })
                &&& q.settings.show_english == true
                &&& q.settings.word_index == 0
            }),
    {
        let query_str = trim_start(self.input.as_str());
        if query_str.unicode_len() == 0 {
            return Err(RestError::BadRequest);
        }
        let language = parse_language(query_str.as_str());
        let form = crate::query::parse_form(query_str.as_str());
        let mut settings = UserSettings::default();
        settings.user_lang = self.get_language();
        Ok(
            Query {
                original_query: query_str.clone(),
                query: query_str,
                language,
                type_: self.search_type,
                form,
                tags: Vec::new(),
                settings,
            },
        )
    }
}

/// Validates the raw request: the input's logical length must lie in
/// [1, 37]; anything else is a bad request.
pub fn validate_request(payload: &Request) -> (r: Result<(), RestError>)
    ensures
        r is Ok <==> (1 <= payload.input@.len() <= 37),
        r is Err ==> r == Err::<(), RestError>(RestError::BadRequest),
{
    let query_len = jp::real_string_len(payload.input.as_str());
    if query_len < 1 || query_len > 37 {
        return Err(RestError::BadRequest);
    }
    Ok(())
}

/// Inputs of accepted logical length survive adjustment: stripping the
/// trailing romanized artifact keeps the length within [1, 37], so a
/// request that validates still validates after `adjust`.
pub proof fn lemma_adjusted_input_stays_valid(s: Seq<char>, t: Seq<char>)
    requires
        1 <= s.len() <= 37,
        t == s || (s.len() > 1 && t == s.drop_last()),
    ensures
        1 <= t.len() <= 37,
{
}

/// The query asks for kanji readings: its parsed form already is a
/// kanji-reading form, or the raw string's first character is a kanji and
/// its second a literal space. The heuristic is deliberately this narrow.
pub open spec fn spec_is_kanji_reading_query(q: Query) -> bool {
    ||| q.form is KanjiReading
    ||| (q.original_query@.len() >= 2 && jp::spec_is_kanji_char(q.original_query@[0])
        && q.original_query@[1] == ' ')
}

/// Recognizes a query that is, or could be, a kanji-reading query; for the
/// raw-string heuristic the reading is empty and the literal is the first
/// character.
pub fn as_kanji_reading(query: &Query) -> (r: Option<KanjiReading>)
    ensures
        r is Some <==> spec_is_kanji_reading_query(*query),
        query.form matches Form::KanjiReading(k) ==> r == Some(k),
        query.form is Plain ==> (r matches Some(k) ==> (k.literal == query.original_query@[0]
            && k.reading@ == Seq::<char>::empty())),
{
    match &query.form {
        Form::KanjiReading(r) => Some(r.duplicate()),
        Form::Plain => {
            let n = query.original_query.unicode_len();
            if n >= 2 {
                let first = query.original_query.as_str().get_char(0);
                let second = query.original_query.as_str().get_char(1);
                if jp::is_kanji_char(first) && second == ' ' {
                    Some(KanjiReading::new(first, String::new()))
                } else {
                    None
                }
            } else {
                None
            }
        },
    }
}

/// Where a query is handled, per the dispatch table: words and sentences go
/// to the kanji-reading handler or the word handler; kanji queries have
/// meaning suggestions only for foreign input; name queries split by
/// language, and an undetected language yields the empty response.
pub enum SuggestionRoute {
    KanjiReading(KanjiReading),
    Words,
    KanjiMeaning,
    NativeNames,
    TranscriptionNames,
    Empty,
}

/// Routes a query to its domain handler. This is the dispatch table
/// evaluated once per call.
pub fn route(query: &Query) -> (r: SuggestionRoute)
    ensures
        (query.type_ == QueryType::Words || query.type_ == QueryType::Sentences) ==> (
        if spec_is_kanji_reading_query(*query) {
            r is KanjiReading
        } else {
            r is Words
        }),
        (query.type_ == QueryType::Words || query.type_ == QueryType::Sentences) ==> (
        r matches SuggestionRoute::KanjiReading(k) ==> (match query.form {
            Form::KanjiReading(fk) => k == fk,
            Form::Plain => k.literal == query.original_query@[0] && k.reading@ == Seq::<
                char,
            >::empty(),
        })),
        query.type_ == QueryType::Kanji ==> (if query.language == QueryLang::Foreign {
            r is KanjiMeaning
        } else {
            r is Empty
        }),
        query.type_ == QueryType::Names ==> (match query.language {
            QueryLang::Japanese => r is NativeNames,
            QueryLang::Foreign => r is TranscriptionNames,
            QueryLang::Undetected => r is Empty,
        }),
{
    match query.type_ {
        QueryType::Words | QueryType::Sentences => {
            match as_kanji_reading(query) {
                Some(k) => SuggestionRoute::KanjiReading(k),
                None => SuggestionRoute::Words,
            }
        },
        QueryType::Kanji => {
            if matches!(query.language, QueryLang::Foreign) {
                SuggestionRoute::KanjiMeaning
            } else {
                SuggestionRoute::Empty
            }
        },
        QueryType::Names => {
            match query.language {
                QueryLang::Japanese => SuggestionRoute::NativeNames,
                QueryLang::Foreign => SuggestionRoute::TranscriptionNames,
                QueryLang::Undetected => SuggestionRoute::Empty,
            }
        },
    }
}

/// Which fetch the word-suggestion flow is waiting on.
#[derive(Clone, Copy, PartialEq, Eq, Structural, Debug)]
pub enum FlowPhase {
    /// Waiting for the primary fetch.
    First,
    /// The primary fetch was empty and the query was pure hiragana; waiting
    /// for the katakana retry.
    Retry,
    /// The response has been produced.
    Finished,
}

/// What the driver must do next for word suggestions.
pub enum SuggestionStep {
    /// Fetch word pairs from the native-script provider for this string.
    FetchNative(String),
    /// Fetch word pairs from the foreign-gloss provider for this string.
    FetchForeign(String),
    /// The finished response.
    Done(Response),
}

/// The word-suggestion flow: fetch pairs for the query; if nothing came
/// back and the query is pure hiragana, retry once with its katakana
/// conversion; order the final pairs exact-matches-first against the string
/// that produced them.
pub struct WordSuggestionFlow {
    pub query: Query,
    pub phase: FlowPhase,
    /// The string the pending fetch searches for.
    pub search_str: String,
}

/// The fetch step the flow emits for `s` under the query's language: the
/// native provider for Japanese, the foreign-gloss provider otherwise.
pub open spec fn spec_fetch_for(lang: QueryLang, step: SuggestionStep, s: Seq<char>) -> bool {
    match lang {
        QueryLang::Japanese => step matches SuggestionStep::FetchNative(t) && t@ == s,
        _ => step matches SuggestionStep::FetchForeign(t) && t@ == s,
    }
}

impl WordSuggestionFlow {
    /// Starts the flow: the first fetch searches the query string itself.
    pub fn start(query: Query) -> (r: (WordSuggestionFlow, SuggestionStep))
        ensures
            r.0.phase == FlowPhase::First,
            r.0.query == query,
            r.0.search_str@ == query.query@,
            spec_fetch_for(query.language, r.1, query.query@),
    {
        let search_str = query.query.clone();
        let step = match query.language {
            QueryLang::Japanese => SuggestionStep::FetchNative(query.query.clone()),
            _ => SuggestionStep::FetchForeign(query.query.clone()),
        };
        (WordSuggestionFlow { query, phase: FlowPhase::First, search_str }, step)
    }

    /// Feeds the fetched pairs back. After the primary fetch: an empty
    /// result for a pure-hiragana query becomes one katakana retry (no
    /// second fetch of the original string); anything else is the final
    /// response. After the retry: the final response, ordered against the
    /// katakana string.
    pub fn on_pairs(&mut self, pairs: Vec<WordPair>) -> (step: SuggestionStep)
        requires
            old(self).phase != FlowPhase::Finished,
        ensures
            final(self).query == old(self).query,
            old(self).phase == FlowPhase::First && pairs@.len() == 0 && jp::seq_is_hiragana(
                old(self).query.query@,
            ) ==> {
                &&& final(self).phase == FlowPhase::Retry
                &&& final(self).search_str@ == kana::katakana_of(old(self).query.query@)
                &&& spec_fetch_for(
                    old(self).query.language,
                    step,
                    kana::katakana_of(old(self).query.query@),
                )
            },
            old(self).phase == FlowPhase::First && !(pairs@.len() == 0 && jp::seq_is_hiragana(
                old(self).query.query@,
            )) ==> {
                &&& final(self).phase == FlowPhase::Finished
                &&& step matches SuggestionStep::Done(resp) && resp.suggestions@ == sorted_pairs(
                    pairs@,
                    old(self).query.query@,
                ) && resp.suggestion_type == SuggestionType::Default
            },
            old(self).phase == FlowPhase::Retry ==> {
                &&& final(self).phase == FlowPhase::Finished
                &&& step matches SuggestionStep::Done(resp) && resp.suggestions@ == sorted_pairs(
                    pairs@,
                    old(self).search_str@,
                ) && resp.suggestion_type == SuggestionType::Default
            },
    {
        match self.phase {
            FlowPhase::First => {
                if pairs.len() == 0 && jp::str_is_hiragana(self.query.query.as_str()) {
                    let kata = kana::to_katakana(self.query.query.as_str());
                    self.phase = FlowPhase::Retry;
                    self.search_str = kata.clone();
                    match self.query.language {
                        QueryLang::Japanese => SuggestionStep::FetchNative(kata),
                        _ => SuggestionStep::FetchForeign(kata),
                    }
                } else {
                    self.phase = FlowPhase::Finished;
                    let sorted = sort_exact_matches_first(pairs, self.query.query.as_str());
                    SuggestionStep::Done(
                        Response {
                            suggestions: sorted,
                            suggestion_type: SuggestionType::Default,
                        },
                    )
                }
            },
            FlowPhase::Retry => {
                self.phase = FlowPhase::Finished;
                let sorted = sort_exact_matches_first(pairs, self.search_str.as_str());
                SuggestionStep::Done(
                    Response { suggestions: sorted, suggestion_type: SuggestionType::Default },
                )
            },
            FlowPhase::Finished => {
                proof {
                    assert(false);
                }
                SuggestionStep::Done(Response::default())
            },
        }
    }
}

} // verus!
