//! The search engine's per-call orchestration, as explicit step machines.
//!
//! The data service and the morphological analyzer are outside
//! collaborators, so each strategy is a machine that tells its driver what
//! to do next — analyze, fetch with a given mode, enrich — and decides the
//! follow-up from what comes back. The decisions are exactly those of the
//! strategies: native-script search tries Exact mode first for a single
//! kana character and falls back to prefix search only on an empty result;
//! a normalization that altered the query adds one Exact search of the
//! literal input; foreign-gloss search retries romanized input as a native
//! search after converting it to hiragana. A bounded cache keyed by the
//! query fingerprint short-circuits recomputation.

use vstd::prelude::*;
use crate::cache::ResultCache;
use crate::jp;
use crate::kana;
use crate::query::{spec_word_class_to_pos_s, Form, KanjiReading, Language, PosSimple, Query, QueryLang};
use crate::rank::{rank_sorted, spec_dedup, spec_page, spec_page_take, RankKind};
use crate::word::{
    word_result_equiv, InflectionInformation, Item, KanjiResult, ParsedSentence, ResultData,
    SentencePart, Word, WordResult,
};

verus! {

/// How the data service matches the query against stored readings.
#[derive(Clone, Copy, PartialEq, Eq, Structural, Debug)]
pub enum SearchMode {
    /// The stored reading equals the query.
    Exact,
    /// The query may appear anywhere in the stored reading.
    Variable,
    /// The stored reading may extend the query to the right.
    RightVariable,
}

/// A native-script fetch the driver must perform.
pub struct NativeRequest {
    pub query: String,
    pub mode: SearchMode,
    pub language: Language,
    pub show_english: bool,
    pub pos_filter: Vec<PosSimple>,
}

/// A foreign-gloss fetch the driver must perform.
pub struct GlossRequest {
    pub query: String,
    pub mode: SearchMode,
    pub case_insensitive: bool,
    pub language: Language,
    pub show_english: bool,
    pub pos_filter: Vec<PosSimple>,
}

/// `s` with every space removed.
pub open spec fn spec_remove_spaces(s: Seq<char>) -> Seq<char>
    decreases s.len(),
{
    if s.len() == 0 {
        s
    } else {
        let rest = spec_remove_spaces(s.drop_last());
        if s.last() == ' ' {
            rest
        } else {
            rest.push(s.last())
        }
    }
}

/// Removes every space from a string.
pub fn remove_spaces(s: &str) -> (r: String)
    ensures
        r@ == spec_remove_spaces(s@),
{
    let n = s.unicode_len();
    let mut out = String::new();
    let mut i: usize = 0;
    while i < n
        invariant
            i <= n,
            n == s@.len(),
            out@ == spec_remove_spaces(s@.take(i as int)),
        decreases n - i,
    {
        let c = s.get_char(i);
        proof {
            assert(s@.take(i + 1).drop_last() =~= s@.take(i as int));
            assert(s@.take(i + 1).last() == c);
        }
        if c != ' ' {
            let piece = s.substring_char(i, i + 1);
            proof {
                assert(piece@ =~= s@.take(i + 1).subrange(i as int, i + 1));
                assert(piece@ =~= seq![c]);
                assert(out@ + seq![c] =~= out@.push(c));
            }
            out.append(piece);
        }
        i = i + 1;
    }
    proof {
        assert(s@.take(n as int) =~= s@);
    }
    out
}

/// The token the analyzer's decomposition selects for a given word index:
/// the index clamped into the token list.
pub open spec fn spec_token_index(word_index: int, n: int) -> int {
    if word_index >= n {
        n - 1
    } else {
        word_index
    }
}

/// Where the native-script strategy stands.
#[derive(Clone, Copy, PartialEq, Eq, Structural, Debug)]
pub enum NativePhase {
    /// Waiting for the analyzer's decomposition of the searched text.
    AwaitAnalysis,
    /// Single kana character: waiting for the Exact-mode attempt.
    KanaExact,
    /// The Exact attempt was empty: waiting for the prefix-mode retry.
    KanaRight,
    /// Waiting for the Exact search of the literal input after
    /// normalization altered the query (single-kana branch).
    KanaOriginal,
    /// Longer query: waiting for the prefix-mode search.
    LongRight,
    /// Waiting for the Exact search of the literal input after
    /// normalization altered the query (long branch).
    LongOriginal,
    /// The strategy has produced its result.
    NativeDone,
}

/// What the native-script strategy asks its driver to do next.
pub enum NativeStep {
    /// Run the morphological analyzer over this text; reply with its
    /// decomposition, or nothing where the capability is absent.
    Analyze(String),
    /// Fetch words per this request.
    Fetch(NativeRequest),
    /// The strategy's finished result.
    Finished(ResultData),
}

/// The native-script word-search strategy.
pub struct NativeSearch {
    pub phase: NativePhase,
    pub user_lang: Language,
    pub show_english: bool,
    pub word_index: usize,
    /// Part-of-speech filters from the query's explicit tags.
    pub tags_pos: Vec<PosSimple>,
    /// The user's literal query string; ranking measures exactness
    /// against it.
    pub original: String,
    /// The text this native run searches (the literal query, or a
    /// romanization handed over by the gloss fallback).
    pub query_str: String,
    /// The normalized query after analysis.
    pub nquery: String,
    /// Normalization altered the query.
    pub modified: bool,
    /// The filters the fetches carry.
    pub pos_filter: Vec<PosSimple>,
    pub infl_info: Option<InflectionInformation>,
    pub sentence_parts: Option<Vec<SentencePart>>,
    pub searched_query: String,
    pub partial_words: Vec<Word>,
    pub partial_count: usize,
}

/// The analyzer produced a usable decomposition.
pub open spec fn spec_analysis_used(analysis: Option<ParsedSentence>) -> bool {
    analysis matches Some(p) && p.items@.len() > 0
}

impl NativeSearch {
    /// Starts a native-script search of `query_str` for `query`. The
    /// strategy short-circuits to an empty result unless the query is
    /// flagged Japanese or the searched text is Japanese script.
    pub fn start(query: &Query, query_str: &str) -> (r: (NativeSearch, NativeStep))
        ensures
            !(query.language == QueryLang::Japanese || jp::seq_is_japanese(query_str@)) ==> (
            r.0.phase == NativePhase::NativeDone && (r.1 matches NativeStep::Finished(d)
                && d.words@ == Seq::<Word>::empty() && d.count == 0 && d.infl_info is None
                && d.sentence_parts is None)),
            (query.language == QueryLang::Japanese || jp::seq_is_japanese(query_str@)) ==> (
            r.0.phase == NativePhase::AwaitAnalysis && (r.1 matches NativeStep::Analyze(s) && s@
                == query_str@)),
            r.0.user_lang == query.settings.user_lang,
            r.0.show_english == query.settings.show_english,
            r.0.word_index == query.settings.word_index,
            r.0.tags_pos@ == crate::query::pos_filter_of(query.tags@),
            r.0.original@ == query.query@,
            r.0.query_str@ == query_str@,
    {
        let tags_pos = query.get_part_of_speech_tags();
        let base = NativeSearch {
            phase: NativePhase::AwaitAnalysis,
            user_lang: query.settings.user_lang,
            show_english: query.settings.show_english,
            word_index: query.settings.word_index,
            tags_pos,
            original: query.query.clone(),
            query_str: query_str.to_owned(),
            nquery: query_str.to_owned(),
            modified: false,
            pos_filter: Vec::new(),
            infl_info: None,
            sentence_parts: None,
            searched_query: query_str.to_owned(),
            partial_words: Vec::new(),
            partial_count: 0,
        };
        let japanese = matches!(query.language, QueryLang::Japanese) || jp::str_is_japanese(
            query_str,
        );
        if !japanese {
            let mut done = base;
            done.phase = NativePhase::NativeDone;
            (done, NativeStep::Finished(ResultData::default()))
        } else {
            let step = NativeStep::Analyze(query_str.to_owned());
            (base, step)
        }
    }

    /// Feeds the analyzer's output back. The decomposition (when usable)
    /// selects the token at the clamped word index, normalizes the query to
    /// its lexeme, keeps the sentence parts for multi-token input, and
    /// derives the part-of-speech filter: from the token's class for
    /// multi-token input, else from the query's tags. A single kana
    /// character is searched in Exact mode first; anything longer goes
    /// straight to prefix mode.
    pub fn on_analysis(&mut self, analysis: Option<ParsedSentence>) -> (step: NativeStep)
        requires
            old(self).phase == NativePhase::AwaitAnalysis,
        ensures
            final(self).original == old(self).original,
            final(self).query_str == old(self).query_str,
            final(self).user_lang == old(self).user_lang,
            final(self).show_english == old(self).show_english,
            final(self).word_index == old(self).word_index,
            !spec_analysis_used(analysis) ==> {
                &&& final(self).nquery@ == old(self).query_str@
                &&& final(self).sentence_parts is None
                &&& final(self).infl_info is None
                &&& final(self).searched_query@ == old(self).query_str@
                &&& final(self).pos_filter@ == old(self).tags_pos@
                &&& final(self).modified == false
            },
            spec_analysis_used(analysis) ==> (analysis matches Some(p) && {
                let idx = spec_token_index(old(self).word_index as int, p.items@.len() as int);
                let token = p.items@[idx];
                &&& final(self).nquery@ == token.lexeme@
                &&& final(self).modified == (token.lexeme@ != old(self).query_str@)
                &&& final(self).searched_query@ == token.surface@
                &&& (token.inflections@.len() > 0 ==> (final(self).infl_info matches Some(inf)
                    && inf.lexeme@ == token.lexeme@ && inf.forms@ == token.inflections@))
                &&& (token.inflections@.len() == 0 ==> final(self).infl_info is None)
                &&& (p.items@.len() == 1 ==> final(self).sentence_parts is None
                    && final(self).pos_filter@ == old(self).tags_pos@)
                &&& (p.items@.len() > 1 ==> (final(self).sentence_parts matches Some(parts) && ({
                    &&& parts@.len() == p.items@.len()
                    &&& forall|i: int|
                        0 <= i < parts@.len() ==> ((#[trigger] parts@[i]).text@
                            == p.items@[i].surface@ && parts@[i].pos == i && parts@[i].furigana
                            is None)
                }) && (match spec_word_class_to_pos_s(token.word_class) {
                    Some(pos) => final(self).pos_filter@ == seq![pos],
                    None => final(self).pos_filter@ == Seq::<PosSimple>::empty(),
                })))
            }),
            ({
                let single_kana = final(self).nquery@.len() == 1 && jp::spec_is_kana_char(
                    final(self).nquery@[0],
                );
                &&& (single_kana ==> final(self).phase == NativePhase::KanaExact)
                &&& (!single_kana ==> final(self).phase == NativePhase::LongRight)
                &&& step matches NativeStep::Fetch(req) && req.query@ == final(self).nquery@
                    && req.mode == (if single_kana {
                    SearchMode::Exact
                } else {
                    SearchMode::RightVariable
                }) && req.language == old(self).user_lang && req.show_english == old(
                    self,
                ).show_english && req.pos_filter@ == final(self).pos_filter@
            }),
    {
        let used = match &analysis {
            Some(p) => p.items.len() > 0,
            None => false,
        };
        if used {
            let p = match analysis {
                Some(p) => p,
                None => {
                    proof {
                        assert(false);
                    }
                    ParsedSentence { items: Vec::new() }
                },
            };
            let n = p.items.len();
            let idx = if self.word_index >= n {
                n - 1
            } else {
                self.word_index
            };
            let token = &p.items[idx];
            self.nquery = token.lexeme.clone();
            self.modified = !jp::str_eq(token.lexeme.as_str(), self.query_str.as_str());
            self.searched_query = token.surface.clone();
            if token.inflections.len() > 0 {
                let inf = InflectionInformation {
                    lexeme: token.lexeme.clone(),
                    forms: Vec::new(),
                };
                let mut inf = inf;
                let mut fi: usize = 0;
                while fi < token.inflections.len()
                    invariant
                        fi <= token.inflections@.len(),
                        inf.forms@.len() == fi,
                        forall|j: int| 0 <= j < fi ==> inf.forms@[j] == token.inflections@[j],
                        inf.lexeme@ == token.lexeme@,
                    decreases token.inflections@.len() - fi,
                {
                    inf.forms.push(token.inflections[fi].clone());
                    fi = fi + 1;
                }
                proof {
                    assert(inf.forms@ =~= token.inflections@);
                }
                self.infl_info = Some(inf);
            } else {
                self.infl_info = None;
            }
            if n == 1 {
                self.sentence_parts = None;
                self.pos_filter = clone_pos(&self.tags_pos);
            } else {
                let mut parts: Vec<SentencePart> = Vec::new();
                let mut i: usize = 0;
                while i < p.items.len()
                    invariant
                        i <= p.items@.len(),
                        parts@.len() == i,
                        forall|j: int|
                            0 <= j < i ==> (#[trigger] parts@[j]).text@ == p.items@[j].surface@
                                && parts@[j].pos == j && parts@[j].furigana is None,
                    decreases p.items@.len() - i,
                {
                    parts.push(
                        SentencePart { text: p.items[i].surface.clone(), pos: i, furigana: None },
                    );
                    i = i + 1;
                }
                self.sentence_parts = Some(parts);
                self.pos_filter = match crate::query::word_class_to_pos_s(&token.word_class) {
                    Some(pos) => {
                        let mut v: Vec<PosSimple> = Vec::new();
                        v.push(pos);
                        proof {
                            assert(v@ =~= seq![pos]);
                        }
                        v
                    },
                    None => Vec::new(),
                };
            }
        } else {
            self.nquery = self.query_str.clone();
            self.modified = false;
            self.searched_query = self.query_str.clone();
            self.infl_info = None;
            self.sentence_parts = None;
            self.pos_filter = clone_pos(&self.tags_pos);
        }
        let single_kana = jp::real_string_len(self.nquery.as_str()) == 1 && jp::str_is_kana(
            self.nquery.as_str(),
        );
        proof {
            if self.nquery@.len() == 1 {
                assert(jp::seq_is_kana(self.nquery@) == jp::spec_is_kana_char(self.nquery@[0]))
                    by {
                    if jp::spec_is_kana_char(self.nquery@[0]) {
                        assert(forall|i: int|
                            0 <= i < self.nquery@.len() ==> jp::spec_is_kana_char(
                                #[trigger] self.nquery@[i],
                            ));
                    }
                }
            }
        }
        if single_kana {
            self.phase = NativePhase::KanaExact;
            NativeStep::Fetch(
                NativeRequest {
                    query: self.nquery.clone(),
                    mode: SearchMode::Exact,
                    language: self.user_lang,
                    show_english: self.show_english,
                    pos_filter: clone_pos(&self.pos_filter),
                },
            )
        } else {
            self.phase = NativePhase::LongRight;
            NativeStep::Fetch(
                NativeRequest {
                    query: self.nquery.clone(),
                    mode: SearchMode::RightVariable,
                    language: self.user_lang,
                    show_english: self.show_english,
                    pos_filter: clone_pos(&self.pos_filter),
                },
            )
        }
    }
}

/// The result carries the strategy's resolved context: the inflection
/// information and sentence decomposition from analysis, the selected word
/// index, and the searched form.
pub open spec fn carries_context(d: ResultData, st: NativeSearch) -> bool {
    &&& crate::word::infl_equiv(d.infl_info, st.infl_info)
    &&& crate::word::parts_equiv(d.sentence_parts, st.sentence_parts)
    &&& d.sentence_index == st.word_index
    &&& d.searched_query@ == st.searched_query@
}

/// Copies an optional sentence decomposition.
fn dup_parts(parts: &Option<Vec<SentencePart>>) -> (r: Option<Vec<SentencePart>>)
    ensures
        crate::word::parts_equiv(r, *parts),
{
    match parts {
        Some(ps) => {
            let mut out: Vec<SentencePart> = Vec::new();
            let mut i: usize = 0;
            while i < ps.len()
                invariant
                    i <= ps@.len(),
                    out@.len() == i,
                    forall|j: int| 0 <= j < i ==> out@[j] == ps@[j],
                decreases ps@.len() - i,
            {
                out.push(ps[i].duplicate());
                i = i + 1;
            }
            proof {
                assert(out@ =~= ps@);
            }
            Some(out)
        },
        None => None,
    }
}

/// Copies an optional inflection context.
fn dup_infl(infl: &Option<InflectionInformation>) -> (r: Option<InflectionInformation>)
    ensures
        crate::word::infl_equiv(r, *infl),
{
    match infl {
        Some(x) => Some(x.duplicate()),
        None => None,
    }
}

impl NativeSearch {
    fn finish_data(&self, words: Vec<Word>, count: usize) -> (d: ResultData)
        ensures
            d.words == words,
            d.count == count,
            carries_context(d, *self),
    {
        ResultData {
            words,
            infl_info: dup_infl(&self.infl_info),
            count,
            sentence_index: self.word_index,
            sentence_parts: dup_parts(&self.sentence_parts),
            searched_query: self.searched_query.clone(),
        }
    }

    fn fetch_req(&self, query: String, mode: SearchMode) -> (r: NativeRequest)
        ensures
            r.query == query,
            r.mode == mode,
            r.language == self.user_lang,
            r.show_english == self.show_english,
            r.pos_filter@ == self.pos_filter@,
    {
        NativeRequest {
            query,
            mode,
            language: self.user_lang,
            show_english: self.show_english,
            pos_filter: clone_pos(&self.pos_filter),
        }
    }

    /// Feeds one fetch's words back. Each page is shaped by the native
    /// ranking against the literal query: sorted by rank, consecutive
    /// duplicates dropped, ten kept for display. A single kana character's
    /// empty Exact attempt retries in prefix mode; a query altered by
    /// normalization adds one Exact fetch of the literal input whose page
    /// is unioned in; the long branch re-sorts and deduplicates the union.
    pub fn on_words(&mut self, words: Vec<Word>, count: usize) -> (step: NativeStep)
        requires
            old(self).phase == NativePhase::KanaExact || old(self).phase == NativePhase::KanaRight
                || old(self).phase == NativePhase::KanaOriginal || old(self).phase
                == NativePhase::LongRight || old(self).phase == NativePhase::LongOriginal,
            (old(self).phase == NativePhase::KanaOriginal || old(self).phase
                == NativePhase::LongOriginal) ==> old(self).partial_count + count <= usize::MAX,
        ensures
            (old(self).phase == NativePhase::KanaExact && words@.len() == 0) ==> ({
                &&& final(self).phase == NativePhase::KanaRight
                &&& (step matches NativeStep::Fetch(req) && req.query@ == old(self).nquery@
                    && req.mode == SearchMode::RightVariable && req.language == old(
                    self,
                ).user_lang && req.show_english == old(self).show_english && req.pos_filter@
                    == old(self).pos_filter@)
            }),
            (((old(self).phase == NativePhase::KanaExact && words@.len() > 0) || old(self).phase
                == NativePhase::KanaRight) && old(self).modified) ==> ({
                &&& final(self).phase == NativePhase::KanaOriginal
                &&& spec_page(
                    RankKind::Native,
                    final(self).partial_words@,
                    words@,
                    old(self).original@,
                )
                &&& final(self).partial_count == count
                &&& (step matches NativeStep::Fetch(req) && req.query@ == old(self).original@
                    && req.mode == SearchMode::Exact && req.language == old(self).user_lang
                    && req.show_english == old(self).show_english && req.pos_filter@ == old(
                    self,
                ).pos_filter@)
            }),
            (((old(self).phase == NativePhase::KanaExact && words@.len() > 0) || old(self).phase
                == NativePhase::KanaRight) && !old(self).modified) ==> ({
                &&& final(self).phase == NativePhase::NativeDone
                &&& (step matches NativeStep::Finished(d) && spec_page(
                    RankKind::Native,
                    d.words@,
                    words@,
                    old(self).original@,
                ) && d.count == count && carries_context(d, *old(self)))
            }),
            old(self).phase == NativePhase::KanaOriginal ==> ({
                &&& final(self).phase == NativePhase::NativeDone
                &&& (step matches NativeStep::Finished(d) && (exists|page2: Seq<Word>|
                    #[trigger] spec_page(RankKind::Native, page2, words@, old(self).original@)
                        && d.words@ == old(self).partial_words@ + page2) && d.count == old(
                    self,
                ).partial_count + count && carries_context(d, *old(self)))
            }),
            (old(self).phase == NativePhase::LongRight && old(self).modified) ==> ({
                &&& final(self).phase == NativePhase::LongOriginal
                &&& spec_page(
                    RankKind::Native,
                    final(self).partial_words@,
                    words@,
                    old(self).original@,
                )
                &&& final(self).partial_count == count
                &&& (step matches NativeStep::Fetch(req) && req.query@ == old(self).original@
                    && req.mode == SearchMode::Exact && req.language == old(self).user_lang
                    && req.show_english == old(self).show_english && req.pos_filter@ == old(
                    self,
                ).pos_filter@)
            }),
            (old(self).phase == NativePhase::LongRight && !old(self).modified) ==> ({
                &&& final(self).phase == NativePhase::NativeDone
                &&& (step matches NativeStep::Finished(d) && (exists|page: Seq<Word>|
                    #[trigger] spec_page(RankKind::Native, page, words@, old(self).original@)
                        && crate::rank::spec_sorted_dedup(
                        RankKind::Native,
                        d.words@,
                        page,
                        old(self).original@,
                    )) && d.count == count && carries_context(d, *old(self)))
            }),
            old(self).phase == NativePhase::LongOriginal ==> ({
                &&& final(self).phase == NativePhase::NativeDone
                &&& (step matches NativeStep::Finished(d) && (exists|page2: Seq<Word>|
                    #[trigger] spec_page(RankKind::Native, page2, words@, old(self).original@)
                        && crate::rank::spec_sorted_dedup(
                        RankKind::Native,
                        d.words@,
                        old(self).partial_words@ + page2,
                        old(self).original@,
                    )) && d.count == old(self).partial_count + count && carries_context(
                    d,
                    *old(self),
                ))
            }),
    {
        let empty_fetch = words.len() == 0;
        match self.phase {
            NativePhase::KanaExact => {
                if empty_fetch {
                    self.phase = NativePhase::KanaRight;
                    let req = self.fetch_req(self.nquery.clone(), SearchMode::RightVariable);
                    NativeStep::Fetch(req)
                } else {
                    let page = crate::rank::shape_page(RankKind::Native, words, self.original.as_str());
                    if self.modified {
                        self.phase = NativePhase::KanaOriginal;
                        self.partial_words = page;
                        self.partial_count = count;
                        let req = self.fetch_req(self.original.clone(), SearchMode::Exact);
                        NativeStep::Fetch(req)
                    } else {
                        self.phase = NativePhase::NativeDone;
                        let d = self.finish_data(page, count);
                        NativeStep::Finished(d)
                    }
                }
            },
            NativePhase::KanaRight => {
                let page = crate::rank::shape_page(RankKind::Native, words, self.original.as_str());
                if self.modified {
                    self.phase = NativePhase::KanaOriginal;
                    self.partial_words = page;
                    self.partial_count = count;
                    let req = self.fetch_req(self.original.clone(), SearchMode::Exact);
                    NativeStep::Fetch(req)
                } else {
                    self.phase = NativePhase::NativeDone;
                    let d = self.finish_data(page, count);
                    NativeStep::Finished(d)
                }
            },
            NativePhase::KanaOriginal => {
                let ghost words0 = words@;
                let ghost partial0 = self.partial_words@;
                let mut page2 = crate::rank::shape_page(
                    RankKind::Native,
                    words,
                    self.original.as_str(),
                );
                let ghost page2v = page2@;
                let mut combined: Vec<Word> = Vec::new();
                core::mem::swap(&mut self.partial_words, &mut combined);
                combined.append(&mut page2);
                self.phase = NativePhase::NativeDone;
                let total = self.partial_count + count;
                let d = self.finish_data(combined, total);
                proof {
                    assert(spec_page(RankKind::Native, page2v, words0, self.original@));
                    assert(d.words@ == partial0 + page2v);
                }
                NativeStep::Finished(d)
            },
            NativePhase::LongRight => {
                let page = crate::rank::shape_page(RankKind::Native, words, self.original.as_str());
                if self.modified {
                    self.phase = NativePhase::LongOriginal;
                    self.partial_words = page;
                    self.partial_count = count;
                    let req = self.fetch_req(self.original.clone(), SearchMode::Exact);
                    NativeStep::Fetch(req)
                } else {
                    let shaped = crate::rank::sort_dedup(
                        RankKind::Native,
                        page,
                        self.original.as_str(),
                    );
                    self.phase = NativePhase::NativeDone;
                    let d = self.finish_data(shaped, count);
                    NativeStep::Finished(d)
                }
            },
            NativePhase::LongOriginal => {
                let ghost words0 = words@;
                let ghost partial0 = self.partial_words@;
                let mut page2 = crate::rank::shape_page(
                    RankKind::Native,
                    words,
                    self.original.as_str(),
                );
                let ghost page2v = page2@;
                let mut combined: Vec<Word> = Vec::new();
                core::mem::swap(&mut self.partial_words, &mut combined);
                combined.append(&mut page2);
                let ghost combinedv = combined@;
                let shaped = crate::rank::sort_dedup(
                    RankKind::Native,
                    combined,
                    self.original.as_str(),
                );
                self.phase = NativePhase::NativeDone;
                let total = self.partial_count + count;
                let d = self.finish_data(shaped, total);
                proof {
                    assert(spec_page(RankKind::Native, page2v, words0, self.original@));
                    assert(combinedv == partial0 + page2v);
                    assert(crate::rank::spec_sorted_dedup(
                        RankKind::Native,
                        d.words@,
                        partial0 + page2v,
                        self.original@,
                    ));
                }
                NativeStep::Finished(d)
            },
            _ => {
                proof {
                    assert(false);
                }
                NativeStep::Finished(ResultData::default())
            },
        }
    }
}

/// Where the foreign-gloss strategy stands.
#[derive(Clone, Copy, PartialEq, Eq, Structural, Debug)]
pub enum GlossPhase {
    /// Waiting for the gloss fetch.
    GlossAwait,
    /// Nothing matched a non-Japanese query: handed over to a native
    /// search of the romanization.
    GlossFallback,
    /// The strategy has produced its result.
    GlossDone,
}

/// What the foreign-gloss strategy asks its driver to do next.
pub enum GlossStep {
    /// Fetch words per this request.
    Fetch(GlossRequest),
    /// Run a native-script search of this string instead, and use its
    /// result as this strategy's result.
    FallbackNative(String),
    /// The strategy's finished result.
    Finished(ResultData),
}

/// The foreign-gloss word-search strategy.
pub struct GlossSearch {
    pub phase: GlossPhase,
    pub query_str: String,
}

impl GlossSearch {
    /// Starts a foreign-gloss search. The strategy short-circuits to an
    /// empty result unless the query's language is foreign or undetected;
    /// queries of logical length at most two are matched exactly, longer
    /// ones substring-tolerantly; matching is case-insensitive.
    pub fn start(query: &Query) -> (r: (GlossSearch, GlossStep))
        ensures
            r.0.query_str@ == query.query@,
            !(query.language == QueryLang::Foreign || query.language == QueryLang::Undetected)
                ==> (r.0.phase == GlossPhase::GlossDone && (r.1 matches GlossStep::Finished(d)
                && d.words@ == Seq::<Word>::empty() && d.count == 0)),
            (query.language == QueryLang::Foreign || query.language == QueryLang::Undetected)
                ==> (r.0.phase == GlossPhase::GlossAwait && (r.1 matches GlossStep::Fetch(req) && {
                &&& req.query@ == query.query@
                &&& req.mode == (if query.query@.len() <= 2 {
                    SearchMode::Exact
                } else {
                    SearchMode::Variable
                })
                &&& req.case_insensitive == true
                &&& req.language == query.settings.user_lang
                &&& req.show_english == query.settings.show_english
                &&& req.pos_filter@ == crate::query::pos_filter_of(query.tags@)
            })),
    {
        let applicable = matches!(query.language, QueryLang::Foreign) || matches!(
            query.language,
            QueryLang::Undetected,
        );
        if !applicable {
            (
                GlossSearch { phase: GlossPhase::GlossDone, query_str: query.query.clone() },
                GlossStep::Finished(ResultData::default()),
            )
        } else {
            let mode = if jp::real_string_len(query.query.as_str()) <= 2 {
                SearchMode::Exact
            } else {
                SearchMode::Variable
            };
            let req = GlossRequest {
                query: query.query.clone(),
                mode,
                case_insensitive: true,
                language: query.settings.user_lang,
                show_english: query.settings.show_english,
                pos_filter: query.get_part_of_speech_tags(),
            };
            (
                GlossSearch { phase: GlossPhase::GlossAwait, query_str: query.query.clone() },
                GlossStep::Fetch(req),
            )
        }
    }

    /// Feeds the fetched words back. An empty result for a query that is
    /// not Japanese script hands over to one native search of the query's
    /// hiragana romanization (spaces removed); otherwise the words are
    /// ordered by the foreign-gloss ranking, deduplicated, counted before
    /// truncation, and truncated to ten for display.
    pub fn on_words(&mut self, words: Vec<Word>) -> (step: GlossStep)
        requires
            old(self).phase == GlossPhase::GlossAwait,
        ensures
            final(self).query_str == old(self).query_str,
            (words@.len() == 0 && !jp::seq_is_japanese(old(self).query_str@)) ==> ({
                &&& final(self).phase == GlossPhase::GlossFallback
                &&& (step matches GlossStep::FallbackNative(s) && s@ == kana::hiragana_of(
                    spec_remove_spaces(old(self).query_str@),
                ))
            }),
            !(words@.len() == 0 && !jp::seq_is_japanese(old(self).query_str@)) ==> ({
                &&& final(self).phase == GlossPhase::GlossDone
                &&& (step matches GlossStep::Finished(d) && (exists|dd: Seq<Word>|
                    #[trigger] crate::rank::spec_sorted_dedup(
                        RankKind::Foreign,
                        dd,
                        words@,
                        old(self).query_str@,
                    ) && d.count == dd.len() && d.words@ == dd.take(spec_page_take(dd)))
                    && d.infl_info is None && d.sentence_parts is None && d.sentence_index == 0
                    && d.searched_query@ == Seq::<char>::empty())
            }),
    {
        if words.len() == 0 && !jp::str_is_japanese(self.query_str.as_str()) {
            self.phase = GlossPhase::GlossFallback;
            let compact = remove_spaces(self.query_str.as_str());
            let hira = kana::to_hiragana(compact.as_str());
            GlossStep::FallbackNative(hira)
        } else {
            let ghost words0 = words@;
            let deduped = crate::rank::sort_dedup(RankKind::Foreign, words, self.query_str.as_str());
            let ghost dedupedv = deduped@;
            let total = deduped.len();
            let mut page = deduped;
            page.truncate(10);
            self.phase = GlossPhase::GlossDone;
            proof {
                assert(page@ =~= dedupedv.take(spec_page_take(dedupedv)));
            }
            let d = ResultData {
                words: page,
                infl_info: None,
                count: total,
                sentence_index: 0,
                sentence_parts: None,
                searched_query: String::new(),
            };
            GlossStep::Finished(d)
        }
    }
}

/// Joins the two word-search strategies' output: native words precede
/// gloss words, counts add, the inflection context and searched form come
/// from the native side, and the sentence decomposition prefers the native
/// side's.
pub fn combine_word_results(native: ResultData, gloss: ResultData, word_index: usize) -> (r:
    ResultData)
    requires
        native.count + gloss.count <= usize::MAX,
    ensures
        r.words@ == native.words@ + gloss.words@,
        r.infl_info == native.infl_info,
        r.count == native.count + gloss.count,
        native.sentence_parts is Some ==> r.sentence_parts == native.sentence_parts,
        native.sentence_parts is None ==> r.sentence_parts == gloss.sentence_parts,
        r.sentence_index == word_index,
        r.searched_query == native.searched_query,
{
    let mut words = native.words;
    let mut gloss_words = gloss.words;
    words.append(&mut gloss_words);
    let sentence_parts = match native.sentence_parts {
        Some(p) => Some(p),
        None => gloss.sentence_parts,
    };
    ResultData {
        words,
        infl_info: native.infl_info,
        count: native.count + gloss.count,
        sentence_index: word_index,
        sentence_parts,
        searched_query: native.searched_query,
    }
}

/// One fingerprint mixing step.
pub open spec fn spec_mix(h: u64, x: u64) -> u64 {
    vstd::wrapping::u64_specs::wrapping_mul(h ^ x, 0x100000001b3)
}

/// Folds a string into the fingerprint.
pub open spec fn spec_fnv_chars(h: u64, s: Seq<char>) -> u64
    decreases s.len(),
{
    if s.len() == 0 {
        h
    } else {
        spec_fnv_chars(spec_mix(h, s[0] as u64), s.drop_first())
    }
}

/// A small stable code per detected language.
pub open spec fn spec_qlang_code(l: QueryLang) -> u64 {
    match l {
        QueryLang::Japanese => 1,
        QueryLang::Foreign => 2,
        QueryLang::Undetected => 3,
    }
}

/// A small stable code per search type.
pub open spec fn spec_qtype_code(t: crate::query::QueryType) -> u64 {
    match t {
        crate::query::QueryType::Words => 1,
        crate::query::QueryType::Kanji => 2,
        crate::query::QueryType::Names => 3,
        crate::query::QueryType::Sentences => 4,
    }
}

/// A small stable code per gloss language.
pub open spec fn spec_lang_code(l: Language) -> u64 {
    match l {
        Language::English => 1,
        Language::German => 2,
        Language::Spanish => 3,
        Language::French => 4,
        Language::Dutch => 5,
        Language::Swedish => 6,
        Language::Russian => 7,
        Language::Hungarian => 8,
        Language::Slovenian => 9,
    }
}

/// The stable fingerprint that keys the result cache: a fold over the
/// query string, the detected language, the search type and the settings
/// that affect the result. Equal queries fingerprint equally.
pub open spec fn spec_fingerprint(q: Query) -> u64 {
    let h0 = 0xcbf29ce484222325u64;
    let h1 = spec_fnv_chars(h0, q.query@);
    let h2 = spec_mix(h1, spec_qlang_code(q.language));
    let h3 = spec_mix(h2, spec_qtype_code(q.type_));
    let h4 = spec_mix(h3, spec_lang_code(q.settings.user_lang));
    let h5 = spec_mix(
        h4,
        if q.settings.show_english {
            1
        } else {
            0
        },
    );
    spec_mix(h5, q.settings.word_index as u64)
}

fn mix(h: u64, x: u64) -> (r: u64)
    ensures
        r == spec_mix(h, x),
{
    (h ^ x).wrapping_mul(0x100000001b3)
}

/// Computes the query's cache fingerprint.
pub fn fingerprint(query: &Query) -> (r: u64)
    ensures
        r == spec_fingerprint(*query),
{
    let s = query.query.as_str();
    let n = s.unicode_len();
    let mut h: u64 = 0xcbf29ce484222325;
    let mut i: usize = 0;
    proof {
        assert(s@.skip(0) =~= s@);
    }
    while i < n
        invariant
            i <= n,
            n == s@.len(),
            spec_fnv_chars(h, s@.skip(i as int)) == spec_fnv_chars(0xcbf29ce484222325u64, s@),
        decreases n - i,
    {
        let c = s.get_char(i);
        proof {
            assert(s@.skip(i as int).len() > 0);
            assert(s@.skip(i as int)[0] == c);
            assert(s@.skip(i as int).drop_first() =~= s@.skip(i + 1));
        }
        h = mix(h, c as u64);
        i = i + 1;
    }
    proof {
        assert(s@.skip(n as int) =~= Seq::<char>::empty());
    }
    h = mix(
        h,
        match query.language {
            QueryLang::Japanese => 1,
            QueryLang::Foreign => 2,
            QueryLang::Undetected => 3,
        },
    );
    h = mix(
        h,
        match query.type_ {
            crate::query::QueryType::Words => 1,
            crate::query::QueryType::Kanji => 2,
            crate::query::QueryType::Names => 3,
            crate::query::QueryType::Sentences => 4,
        },
    );
    h = mix(
        h,
        match query.settings.user_lang {
            Language::English => 1,
            Language::German => 2,
            Language::Spanish => 3,
            Language::French => 4,
            Language::Dutch => 5,
            Language::Swedish => 6,
            Language::Russian => 7,
            Language::Hungarian => 8,
            Language::Slovenian => 9,
        },
    );
    h = mix(
        h,
        if query.settings.show_english {
            1
        } else {
            0
        },
    );
    h = mix(h, query.settings.word_index as u64);
    h
}

/// How a search call begins: served from the cache, or dispatched by the
/// query's form.
pub enum SearchStart {
    /// The cache held a result for this fingerprint; it is returned as is
    /// and no search runs.
    Hit(WordResult),
    /// The query is a kanji-reading query: fetch kanji-by-reading results.
    FetchKanjiReading(KanjiReading),
    /// A word search: run the native-script and foreign-gloss strategies
    /// and combine their output.
    WordSearch,
}

/// The search engine: per-call orchestration over a shared bounded cache
/// of assembled results.
pub struct SearchEngine {
    pub cache: ResultCache<WordResult>,
}

impl SearchEngine {
    /// The engine's cache is well-formed.
    pub open spec fn wf(&self) -> bool {
        self.cache.wf()
    }

    /// A fresh engine with an empty cache of the configured capacity.
    pub fn new() -> (r: Self)
        ensures
            r.wf(),
            r.cache.spec_len() == 0,
            forall|k: u64| !(#[trigger] r.cache.spec_has(k)),
    {
        SearchEngine { cache: ResultCache::with_capacity(1000) }
    }

    /// Begins a search. A cached result for this query's fingerprint is
    /// returned at once — the underlying search is not invoked — and
    /// otherwise the query dispatches on its form: a kanji-reading form
    /// goes to the kanji-reading search alone, everything else to the word
    /// search.
    pub fn start_search(&self, query: &Query) -> (r: SearchStart)
        requires
            self.wf(),
        ensures
            (self.cache.spec_get(spec_fingerprint(*query)) matches Some(cached) ==> (
            r matches SearchStart::Hit(res) && word_result_equiv(res, cached))),
            (self.cache.spec_get(spec_fingerprint(*query)) is None ==> (match query.form {
                Form::KanjiReading(k) => r == SearchStart::FetchKanjiReading(k),
                Form::Plain => r is WordSearch,
            })),
    {
        let fp = fingerprint(query);
        match self.cache.get(fp) {
            Some(cached) => SearchStart::Hit(cached.duplicate()),
            None => {
                match &query.form {
                    Form::KanjiReading(k) => SearchStart::FetchKanjiReading(k.duplicate()),
                    Form::Plain => SearchStart::WordSearch,
                }
            },
        }
    }

    /// Finishes a search: assembles the final result — all kanji metadata
    /// items before all word items, the true count and analysis context
    /// carried over — stores it in the cache under the query's
    /// fingerprint, and returns it.
    pub fn finish_search(
        &mut self,
        query: &Query,
        data: ResultData,
        enriched_words: Vec<Word>,
        kanji: Vec<KanjiResult>,
    ) -> (r: WordResult)
        requires
            old(self).wf(),
        ensures
            final(self).wf(),
            r.items@.len() == kanji@.len() + enriched_words@.len(),
            forall|i: int| 0 <= i < kanji@.len() ==> r.items@[i] == Item::Kanji(kanji@[i]),
            forall|j: int|
                0 <= j < enriched_words@.len() ==> r.items@[kanji@.len() + j] == Item::Word(
                    enriched_words@[j],
                ),
            r.contains_kanji == (kanji@.len() > 0),
            r.inflection_info == data.infl_info,
            r.count == data.count,
            r.sentence_parts == data.sentence_parts,
            r.sentence_index == data.sentence_index,
            r.searched_query == data.searched_query,
            (final(self).cache.spec_get(spec_fingerprint(*query)) matches Some(c)
                && word_result_equiv(c, r)),
    {
        let fp = fingerprint(query);
        let contains_kanji = kanji.len() > 0;
        let items = crate::word::merge_words_with_kanji(enriched_words, kanji);
        let result = WordResult {
            items,
            contains_kanji,
            inflection_info: data.infl_info,
            count: data.count,
            sentence_parts: data.sentence_parts,
            sentence_index: data.sentence_index,
            searched_query: data.searched_query,
        };
        let stored = result.duplicate();
        proof {
            assert(word_result_equiv(stored, result) ==> word_result_equiv(result, stored));
        }
        self.cache.set(fp, stored);
        result
    }
}

/// Copies a part-of-speech filter list.
fn clone_pos(v: &Vec<PosSimple>) -> (r: Vec<PosSimple>)
    ensures
        r@ == v@,
{
    let mut out: Vec<PosSimple> = Vec::new();
    let mut i: usize = 0;
    while i < v.len()
        invariant
            i <= v@.len(),
            out@ == v@.take(i as int),
        decreases v@.len() - i,
    {
        out.push(v[i]);
        proof {
            assert(out@ =~= v@.take(i + 1));
        }
        i = i + 1;
    }
    proof {
        assert(v@.take(v@.len() as int) =~= v@);
    }
    out
}

} // verus!
