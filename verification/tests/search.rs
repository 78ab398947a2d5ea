use jp_suggest::completions::Request;
use jp_suggest::engine::{
    combine_word_results, fingerprint, GlossSearch, GlossStep, NativePhase, NativeSearch,
    NativeStep, SearchEngine, SearchMode, SearchStart,
};
use jp_suggest::query::{QueryType, WordClass};
use jp_suggest::word::{Item, KanjiResult, ParsedSentence, ResultData, Token, Word};

fn query_for(input: &str) -> jp_suggest::query::Query {
    Request::new(input.to_string(), String::new(), QueryType::Words)
        .get_query()
        .unwrap()
}

fn word(kana: &str, kanji: Option<&str>, priority: u32) -> Word {
    Word::new(kana.to_string(), kanji.map(|s| s.to_string()), priority, 0)
}

#[test]
fn single_kana_tries_exact_before_prefix() {
    let query = query_for("か");
    let (mut search, step) = NativeSearch::start(&query, "か");
    assert!(matches!(step, NativeStep::Analyze(_)));
    // No analyzer available: the input stays a single unanalyzed token.
    let step = search.on_analysis(None);
    match step {
        NativeStep::Fetch(req) => {
            assert_eq!(req.query, "か");
            assert_eq!(req.mode, SearchMode::Exact);
        }
        _ => panic!("expected the Exact-mode attempt first"),
    }
    assert_eq!(search.phase, NativePhase::KanaExact);
    // The Exact attempt found nothing: fall back to prefix search.
    let step = search.on_words(Vec::new(), 0);
    match step {
        NativeStep::Fetch(req) => {
            assert_eq!(req.query, "か");
            assert_eq!(req.mode, SearchMode::RightVariable);
        }
        _ => panic!("an empty Exact attempt must retry in prefix mode"),
    }
    let step = search.on_words(vec![word("かめ", None, 5), word("か", None, 1)], 2);
    match step {
        NativeStep::Finished(d) => {
            assert_eq!(d.count, 2);
            // The exact reading outranks the higher priority signal.
            assert_eq!(d.words[0].kana, "か");
            assert_eq!(d.words[1].kana, "かめ");
        }
        _ => panic!("expected the finished result"),
    }
}

#[test]
fn single_kana_with_results_skips_prefix_retry() {
    let query = query_for("か");
    let (mut search, _) = NativeSearch::start(&query, "か");
    search.on_analysis(None);
    let step = search.on_words(vec![word("か", None, 1)], 1);
    assert!(matches!(step, NativeStep::Finished(_)));
}

#[test]
fn longer_query_goes_straight_to_prefix_mode() {
    let query = query_for("すし");
    let (mut search, _) = NativeSearch::start(&query, "すし");
    let step = search.on_analysis(None);
    match step {
        NativeStep::Fetch(req) => {
            assert_eq!(req.query, "すし");
            assert_eq!(req.mode, SearchMode::RightVariable);
        }
        _ => panic!("expected the prefix-mode search"),
    }
    assert_eq!(search.phase, NativePhase::LongRight);
}

#[test]
fn non_japanese_native_search_is_empty() {
    let query = query_for("Wasser!");
    let (search, step) = NativeSearch::start(&query, "Wasser!");
    assert_eq!(search.phase, NativePhase::NativeDone);
    match step {
        NativeStep::Finished(d) => {
            assert!(d.words.is_empty());
            assert_eq!(d.count, 0);
        }
        _ => panic!("a non-Japanese query must short-circuit"),
    }
}

#[test]
fn normalized_query_adds_literal_exact_search() {
    let query = query_for("たべた");
    let (mut search, _) = NativeSearch::start(&query, "たべた");
    let analysis = ParsedSentence {
        items: vec![Token {
            lexeme: "たべる".to_string(),
            surface: "たべた".to_string(),
            word_class: WordClass::Verb,
            inflections: vec!["past".to_string()],
        }],
    };
    let step = search.on_analysis(Some(analysis));
    match step {
        NativeStep::Fetch(req) => {
            assert_eq!(req.query, "たべる");
            assert_eq!(req.mode, SearchMode::RightVariable);
        }
        _ => panic!("expected a search of the lexeme"),
    }
    assert!(search.modified);
    let inf = search.infl_info.as_ref().unwrap();
    assert_eq!(inf.lexeme, "たべる");
    assert_eq!(inf.forms, vec!["past".to_string()]);
    // The normalization altered the query: one more Exact search of the
    // literal input.
    let step = search.on_words(vec![word("たべる", None, 3)], 1);
    match step {
        NativeStep::Fetch(req) => {
            assert_eq!(req.query, "たべた");
            assert_eq!(req.mode, SearchMode::Exact);
        }
        _ => panic!("expected the literal-input search"),
    }
    let step = search.on_words(Vec::new(), 0);
    match step {
        NativeStep::Finished(d) => {
            assert_eq!(d.count, 1);
            assert_eq!(d.searched_query, "たべた");
        }
        _ => panic!("expected the finished result"),
    }
}

#[test]
fn multi_token_analysis_keeps_sentence_parts() {
    let query = query_for("水を飲む");
    let (mut search, _) = NativeSearch::start(&query, "水を飲む");
    let analysis = ParsedSentence {
        items: vec![
            Token {
                lexeme: "水".to_string(),
                surface: "水".to_string(),
                word_class: WordClass::Noun,
                inflections: Vec::new(),
            },
            Token {
                lexeme: "を".to_string(),
                surface: "を".to_string(),
                word_class: WordClass::Particle,
                inflections: Vec::new(),
            },
            Token {
                lexeme: "飲む".to_string(),
                surface: "飲む".to_string(),
                word_class: WordClass::Verb,
                inflections: Vec::new(),
            },
        ],
    };
    search.on_analysis(Some(analysis));
    let parts = search.sentence_parts.as_ref().unwrap();
    assert_eq!(parts.len(), 3);
    assert_eq!(parts[0].text, "水");
    assert_eq!(parts[2].text, "飲む");
    // The selected token's class drives the filter for sentence input.
    assert_eq!(search.pos_filter.len(), 1);
}

#[test]
fn gloss_search_modes_by_length() {
    let short = query_for("go");
    let (_, step) = GlossSearch::start(&short);
    match step {
        GlossStep::Fetch(req) => assert_eq!(req.mode, SearchMode::Exact),
        _ => panic!("expected a gloss fetch"),
    }
    let long = query_for("water");
    let (_, step) = GlossSearch::start(&long);
    match step {
        GlossStep::Fetch(req) => {
            assert_eq!(req.mode, SearchMode::Variable);
            assert!(req.case_insensitive);
        }
        _ => panic!("expected a gloss fetch"),
    }
}

#[test]
fn gloss_search_skips_japanese_queries() {
    let query = query_for("すし");
    let (_, step) = GlossSearch::start(&query);
    match step {
        GlossStep::Finished(d) => assert_eq!(d.count, 0),
        _ => panic!("a Japanese query has no gloss results"),
    }
}

#[test]
fn empty_gloss_result_falls_back_to_romanization() {
    let query = query_for("mizu");
    let (mut search, step) = GlossSearch::start(&query);
    assert!(matches!(step, GlossStep::Fetch(_)));
    let step = search.on_words(Vec::new());
    match step {
        GlossStep::FallbackNative(s) => assert_eq!(s, "みず"),
        _ => panic!("expected the native fallback on the romanization"),
    }
}

#[test]
fn gloss_results_count_before_truncation() {
    let query = query_for("water");
    let (mut search, _) = GlossSearch::start(&query);
    let mut words = Vec::new();
    for i in 0..12u32 {
        words.push(Word::new(format!("かな{}", i), None, i, i));
    }
    let step = search.on_words(words);
    match step {
        GlossStep::Finished(d) => {
            assert_eq!(d.count, 12);
            assert_eq!(d.words.len(), 10);
            // Foreign order: highest gloss relevance first.
            assert_eq!(d.words[0].gloss_relevance, 11);
        }
        _ => panic!("expected the finished result"),
    }
}

#[test]
fn combine_prefers_native_context() {
    let native = ResultData {
        words: vec![word("すし", None, 1)],
        infl_info: None,
        count: 1,
        sentence_index: 0,
        sentence_parts: None,
        searched_query: "すし".to_string(),
    };
    let mut gloss = ResultData::default();
    gloss.words = vec![word("さかな", None, 2)];
    gloss.count = 1;
    let combined = combine_word_results(native, gloss, 0);
    assert_eq!(combined.count, 2);
    assert_eq!(combined.words.len(), 2);
    assert_eq!(combined.words[0].kana, "すし");
    assert_eq!(combined.searched_query, "すし");
}

#[test]
fn fingerprint_is_stable_and_discriminates() {
    let a = query_for("すし");
    let b = query_for("すし");
    let c = query_for("さかな");
    assert_eq!(fingerprint(&a), fingerprint(&b));
    assert_ne!(fingerprint(&a), fingerprint(&c));
    // Settings that affect the result are part of the fingerprint.
    let mut d = query_for("すし");
    d.settings.user_lang = jp_suggest::query::Language::German;
    assert_ne!(fingerprint(&a), fingerprint(&d));
}

#[test]
fn engine_serves_second_identical_query_from_cache() {
    let mut engine = SearchEngine::new();
    let query = query_for("すし");
    // First call: a miss dispatches to the word search.
    match engine.start_search(&query) {
        SearchStart::WordSearch => {}
        _ => panic!("a fresh engine has nothing cached"),
    }
    let data = ResultData {
        words: vec![word("すし", Some("寿司"), 3)],
        infl_info: None,
        count: 1,
        sentence_index: 0,
        sentence_parts: None,
        searched_query: "すし".to_string(),
    };
    let enriched = vec![word("すし", Some("寿司"), 3)];
    let kanji = vec![KanjiResult { literal: '寿', meaning: "longevity".to_string() }];
    let result = engine.finish_search(&query, data, enriched, kanji);
    assert!(result.contains_kanji);
    assert_eq!(result.items.len(), 2);
    assert!(matches!(result.items[0], Item::Kanji(_)));
    assert!(matches!(result.items[1], Item::Word(_)));
    // Second call with the identical fingerprint: served from the cache,
    // structurally equal, no search dispatched.
    match engine.start_search(&query_for("すし")) {
        SearchStart::Hit(cached) => {
            assert_eq!(cached.count, result.count);
            assert_eq!(cached.contains_kanji, result.contains_kanji);
            assert_eq!(cached.items.len(), result.items.len());
            match (&cached.items[1], &result.items[1]) {
                (Item::Word(a), Item::Word(b)) => {
                    assert_eq!(a.kana, b.kana);
                    assert_eq!(a.kanji, b.kanji);
                }
                _ => panic!("item kinds must match"),
            }
        }
        _ => panic!("the second identical query must hit the cache"),
    }
}

#[test]
fn kanji_reading_query_dispatches_to_kanji_search() {
    let engine = SearchEngine::new();
    let query = query_for("水 みず");
    match engine.start_search(&query) {
        SearchStart::FetchKanjiReading(k) => {
            assert_eq!(k.literal, '水');
            assert_eq!(k.reading, "みず");
        }
        _ => panic!("a kanji-reading form goes to the kanji-reading search"),
    }
}
