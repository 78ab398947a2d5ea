use jp_suggest::completions::{
    as_kanji_reading, route, sort_exact_matches_first, validate_request, FlowPhase, Request,
    SuggestionRoute, SuggestionStep, SuggestionType, WordPair, WordSuggestionFlow,
};
use jp_suggest::error::{db_to_option, map_notfound, Error, RestError, ServiceError};
use jp_suggest::jp;
use jp_suggest::query::{parse_language, Form, Language, QueryLang, QueryType};

fn request(input: &str, search_type: QueryType) -> Request {
    Request::new(input.to_string(), String::new(), search_type)
}

#[test]
fn validate_rejects_empty_input() {
    let r = validate_request(&request("", QueryType::Words));
    assert_eq!(r, Err(RestError::BadRequest));
}

#[test]
fn validate_rejects_overlong_input() {
    let long: String = "あ".repeat(38);
    let r = validate_request(&Request::new(long, String::new(), QueryType::Words));
    assert_eq!(r, Err(RestError::BadRequest));
}

#[test]
fn validate_accepts_bounds() {
    assert!(validate_request(&request("あ", QueryType::Words)).is_ok());
    let max: String = "あ".repeat(37);
    assert!(validate_request(&Request::new(max, String::new(), QueryType::Words)).is_ok());
}

#[test]
fn adjust_strips_trailing_roman_letter() {
    let adjusted = request("すしt", QueryType::Words).adjust();
    assert_eq!(adjusted.input, "すし");
}

#[test]
fn adjust_keeps_plain_japanese() {
    let adjusted = request("すし", QueryType::Words).adjust();
    assert_eq!(adjusted.input, "すし");
}

#[test]
fn adjust_keeps_single_character() {
    let adjusted = request("t", QueryType::Words).adjust();
    assert_eq!(adjusted.input, "t");
}

#[test]
fn adjust_then_validate_accepts_all_lengths_in_bounds() {
    for len in 1..=37usize {
        let mut input = "す".repeat(len - 1);
        input.push('t');
        let adjusted = Request::new(input, String::new(), QueryType::Words).adjust();
        assert!(validate_request(&adjusted).is_ok());
    }
}

#[test]
fn language_detection() {
    assert_eq!(parse_language("すし"), QueryLang::Japanese);
    assert_eq!(parse_language("水曜日"), QueryLang::Japanese);
    assert_eq!(parse_language("すしt"), QueryLang::Japanese);
    assert_eq!(parse_language("sushi"), QueryLang::Undetected);
    assert_eq!(parse_language("Wasser!"), QueryLang::Foreign);
}

#[test]
fn logical_length_counts_characters() {
    assert_eq!(jp::real_string_len("水曜日"), 3);
    assert_eq!(jp::real_string_len("abc"), 3);
    assert_eq!(jp::real_string_len(""), 0);
}

#[test]
fn single_kanji_without_space_is_not_kanji_reading() {
    let query = request("水", QueryType::Words).get_query().unwrap();
    assert!(matches!(query.form, Form::Plain));
    assert!(as_kanji_reading(&query).is_none());
    assert!(matches!(route(&query), SuggestionRoute::Words));
}

#[test]
fn kanji_followed_by_space_is_kanji_reading() {
    let query = request("水 ", QueryType::Words).get_query().unwrap();
    let reading = as_kanji_reading(&query).unwrap();
    assert_eq!(reading.literal, '水');
    match route(&query) {
        SuggestionRoute::KanjiReading(k) => assert_eq!(k.literal, '水'),
        other_route => panic!("routed to {:?}", route_name(&other_route)),
    }
}

fn route_name(r: &SuggestionRoute) -> &'static str {
    match r {
        SuggestionRoute::KanjiReading(_) => "kanji reading",
        SuggestionRoute::Words => "words",
        SuggestionRoute::KanjiMeaning => "kanji meaning",
        SuggestionRoute::NativeNames => "native names",
        SuggestionRoute::TranscriptionNames => "transcription names",
        SuggestionRoute::Empty => "empty",
    }
}

#[test]
fn kanji_reading_with_reading_text() {
    let query = request("水 みず", QueryType::Words).get_query().unwrap();
    match &query.form {
        Form::KanjiReading(k) => {
            assert_eq!(k.literal, '水');
            assert_eq!(k.reading, "みず");
        }
        Form::Plain => panic!("expected kanji-reading form"),
    }
}

#[test]
fn kanji_queries_route_by_language() {
    let foreign = request("Wasser!", QueryType::Kanji).get_query().unwrap();
    assert!(matches!(route(&foreign), SuggestionRoute::KanjiMeaning));
    let undetected = request("water", QueryType::Kanji).get_query().unwrap();
    assert!(matches!(route(&undetected), SuggestionRoute::Empty));
    let japanese = request("水", QueryType::Kanji).get_query().unwrap();
    assert!(matches!(route(&japanese), SuggestionRoute::Empty));
}

#[test]
fn name_queries_route_by_language() {
    let japanese = request("田中", QueryType::Names).get_query().unwrap();
    assert!(matches!(route(&japanese), SuggestionRoute::NativeNames));
    let foreign = request("Tanaka!", QueryType::Names).get_query().unwrap();
    assert!(matches!(route(&foreign), SuggestionRoute::TranscriptionNames));
    let undetected = request("tanaka", QueryType::Names).get_query().unwrap();
    assert!(matches!(route(&undetected), SuggestionRoute::Empty));
}

#[test]
fn get_query_defaults() {
    let query = request("  すし", QueryType::Words).get_query().unwrap();
    assert_eq!(query.query, "すし");
    assert!(!query.has_part_of_speech_tags());
    assert!(query.get_part_of_speech_tags().is_empty());
    assert_eq!(query.original_query, "すし");
    assert_eq!(query.language, QueryLang::Japanese);
    assert_eq!(query.settings.user_lang, Language::English);
    assert!(query.settings.show_english);
}

#[test]
fn get_query_rejects_whitespace_only() {
    assert!(request("   ", QueryType::Words).get_query().is_err());
}

#[test]
fn get_query_reads_language_code() {
    let req = Request::new("Wasser".to_string(), "de-DE".to_string(), QueryType::Words);
    let query = req.get_query().unwrap();
    assert_eq!(query.settings.user_lang, Language::German);
}

fn pair(primary: &str, secondary: Option<&str>) -> WordPair {
    WordPair::new(primary.to_string(), secondary.map(|s| s.to_string()))
}

#[test]
fn exact_match_sorts_first() {
    let pairs = vec![
        pair("さかな", None),
        pair("すしや", None),
        pair("すし", Some("寿司")),
    ];
    let sorted = sort_exact_matches_first(pairs, "すし");
    assert_eq!(sorted[0], pair("すし", Some("寿司")));
    assert_eq!(sorted[1], pair("さかな", None));
    assert_eq!(sorted[2], pair("すしや", None));
}

#[test]
fn secondary_reading_counts_as_exact_match() {
    let pairs = vec![pair("みず", None), pair("すい", Some("水"))];
    let sorted = sort_exact_matches_first(pairs, "水");
    assert_eq!(sorted[0], pair("すい", Some("水")));
}

#[test]
fn has_reading_checks_both_surfaces() {
    let p = pair("みず", Some("水"));
    assert!(p.has_reading("みず"));
    assert!(p.has_reading("水"));
    assert!(!p.has_reading("みす"));
}

#[test]
fn hiragana_query_retries_as_katakana() {
    let query = request("かめら", QueryType::Words).get_query().unwrap();
    let (mut flow, step) = WordSuggestionFlow::start(query);
    match step {
        SuggestionStep::FetchNative(s) => assert_eq!(s, "かめら"),
        _ => panic!("expected a native fetch of the query"),
    }
    // Nothing found: exactly one retry, with the katakana conversion.
    let step = flow.on_pairs(Vec::new());
    assert_eq!(flow.phase, FlowPhase::Retry);
    match step {
        SuggestionStep::FetchNative(s) => assert_eq!(s, "カメラ"),
        _ => panic!("expected a native fetch of the katakana conversion"),
    }
    // The retried result is what the caller receives.
    let step = flow.on_pairs(vec![pair("カメラ", None)]);
    match step {
        SuggestionStep::Done(resp) => {
            assert_eq!(resp.suggestions.len(), 1);
            assert_eq!(resp.suggestions[0], pair("カメラ", None));
            assert!(matches!(resp.suggestion_type, SuggestionType::Default));
        }
        _ => panic!("expected the finished response"),
    }
}

#[test]
fn non_empty_first_fetch_finishes_without_retry() {
    let query = request("すし", QueryType::Words).get_query().unwrap();
    let (mut flow, _) = WordSuggestionFlow::start(query);
    let step = flow.on_pairs(vec![pair("すし", None)]);
    assert_eq!(flow.phase, FlowPhase::Finished);
    assert!(matches!(step, SuggestionStep::Done(_)));
}

#[test]
fn non_hiragana_empty_fetch_finishes_empty() {
    let query = request("水曜", QueryType::Words).get_query().unwrap();
    let (mut flow, _) = WordSuggestionFlow::start(query);
    let step = flow.on_pairs(Vec::new());
    match step {
        SuggestionStep::Done(resp) => assert!(resp.suggestions.is_empty()),
        _ => panic!("a non-hiragana query must not retry"),
    }
}

#[test]
fn map_notfound_splits_service_errors() {
    assert_eq!(map_notfound(ServiceError::NotFound), Error::NotFound);
    assert_eq!(map_notfound(ServiceError::Failure), Error::Service);
}

#[test]
fn db_to_option_absorbs_not_found() {
    assert_eq!(db_to_option::<u32>(Ok(7)), Ok(Some(7)));
    assert_eq!(db_to_option::<u32>(Err(Error::NotFound)), Ok(None));
    assert_eq!(db_to_option::<u32>(Err(Error::Service)), Err(Error::Service));
}

#[test]
fn kana_conversion_changes_script() {
    assert_eq!(jp_suggest::kana::to_katakana("すし"), "スシ");
    assert_eq!(jp_suggest::kana::to_hiragana("sushi"), "すし");
}

#[test]
fn undetected_language_fetches_from_gloss_provider() {
    let query = request("kamera", QueryType::Words).get_query().unwrap();
    let (_, step) = WordSuggestionFlow::start(query);
    match step {
        SuggestionStep::FetchForeign(s) => assert_eq!(s, "kamera"),
        _ => panic!("a non-Japanese query fetches from the gloss provider"),
    }
}

#[test]
fn language_codes_parse() {
    assert_eq!(Language::from_code("en-US"), Some(Language::English));
    assert_eq!(Language::from_code("sv-SE"), Some(Language::Swedish));
    assert_eq!(Language::from_code("ru"), Some(Language::Russian));
    assert_eq!(Language::from_code("xx"), None);
    assert_eq!(Language::from_code(""), None);
}

#[test]
fn query_duplicate_is_structural() {
    let q = request("すし", QueryType::Words).get_query().unwrap();
    let d = q.duplicate();
    assert_eq!(d.query, q.query);
    assert_eq!(d.original_query, q.original_query);
    assert_eq!(d.language, q.language);
    assert_eq!(d.settings, q.settings);
}

#[test]
fn empty_string_detects_as_undetected() {
    assert_eq!(parse_language(""), QueryLang::Undetected);
}

#[test]
fn character_classes() {
    assert!(jp::is_kanji_char('水'));
    assert!(!jp::is_kanji_char('す'));
    assert!(jp::is_hiragana_char('す'));
    assert!(jp::is_katakana_char('ス'));
    assert!(jp::is_kana_char('す'));
    assert!(jp::is_roman_letter('t'));
    assert!(!jp::is_roman_letter('水'));
    assert!(jp::str_is_japanese("水曜日です"));
    assert!(!jp::str_is_japanese("水t"));
    assert!(jp::str_is_hiragana("すし"));
    assert!(!jp::str_is_hiragana("スシ"));
}
