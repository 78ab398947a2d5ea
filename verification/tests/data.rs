use jp_suggest::cache::ResultCache;
use jp_suggest::index::{IndexedWord, RegexSearchIndex};
use jp_suggest::kanji_parts::{map_character, parse_item};
use jp_suggest::result::{ResultItem, SearchResult};
use jp_suggest::sentence::{build_new_sentence, build_translations, kana_of_furigana};
use jp_suggest::query::Language;
use jp_suggest::word::{merge_words_with_kanji, Item, KanjiResult, Word};

fn id_set(found: &[IndexedWord]) -> Vec<u32> {
    let mut ids: Vec<u32> = found.iter().map(|w| w.seq_id).collect();
    ids.sort();
    ids
}

fn sample_index() -> RegexSearchIndex {
    let mut index = RegexSearchIndex::new();
    index.add_term("水曜日", 1);
    index.add_term("水", 2);
    index.add_term("曜日", 3);
    index
}

#[test]
fn find_on_empty_chars_is_empty() {
    let index = sample_index();
    assert!(index.find(&Vec::new()).is_empty());
}

#[test]
fn find_seeds_on_first_key_character() {
    let index = sample_index();
    let found = index.find(&vec!['水']);
    assert_eq!(id_set(&found), vec![1, 2]);
}

#[test]
fn find_intersects_later_key_characters() {
    let index = sample_index();
    let found = index.find(&vec!['水', '曜']);
    assert_eq!(id_set(&found), vec![1]);
}

#[test]
fn find_ignores_leading_non_key_characters() {
    let index = sample_index();
    let found = index.find(&vec!['火', '水']);
    assert_eq!(id_set(&found), vec![1, 2]);
}

#[test]
fn absent_middle_character_does_not_narrow() {
    // The deliberate quirk: a character after the seed that is not a key
    // contributes no constraint, so the result is as if it were not there.
    let index = sample_index();
    let found = index.find(&vec!['水', '火', '曜']);
    assert_eq!(id_set(&found), vec![1]);
    let found = index.find(&vec!['水', '火']);
    assert_eq!(id_set(&found), vec![1, 2]);
}

#[test]
fn find_with_no_key_characters_is_empty() {
    let index = sample_index();
    assert!(index.find(&vec!['火', '木']).is_empty());
}

#[test]
fn add_term_is_idempotent() {
    let mut index = RegexSearchIndex::new();
    index.add_term("水", 2);
    index.add_term("水", 2);
    let found = index.find(&vec!['水']);
    assert_eq!(found.len(), 1);
}

fn item(payload: &str, relevance: usize) -> ResultItem<String> {
    ResultItem::new(payload.to_string(), relevance)
}

#[test]
fn from_items_sorts_descending() {
    let result = SearchResult::from_items(vec![item("a", 1), item("c", 3), item("b", 2)], 3);
    let items = result.into_inner();
    assert_eq!(items[0].relevance, 3);
    assert_eq!(items[1].relevance, 2);
    assert_eq!(items[2].relevance, 1);
}

#[test]
fn len_reports_true_count() {
    let result = SearchResult::from_items(vec![item("a", 1)], 25);
    assert_eq!(result.len(), 25);
    assert!(!result.is_empty());
    assert!(SearchResult::<String>::default().is_empty());
}

#[test]
fn merge_skips_existing_payloads_and_counts_added() {
    let mut result = SearchResult::from_items(vec![item("a", 5), item("b", 4)], 2);
    result.merge(vec![item("b", 9), item("c", 3), item("d", 7)]);
    // Only the two fresh payloads count.
    assert_eq!(result.len(), 4);
    let items = result.into_inner();
    assert_eq!(items.len(), 4);
    // Sorted descending by rank after the merge.
    for window in items.windows(2) {
        assert!(window[0].relevance >= window[1].relevance);
    }
    // No payload appears twice.
    for i in 0..items.len() {
        for j in (i + 1)..items.len() {
            assert_ne!(items[i].item, items[j].item);
        }
    }
}

#[test]
fn merge_deduplicates_word_pairs() {
    let a = jp_suggest::completions::WordPair::new("すし".to_string(), Some("寿司".to_string()));
    let b = jp_suggest::completions::WordPair::new("みず".to_string(), None);
    let mut result = SearchResult::from_items(vec![ResultItem::new(a.clone(), 5)], 1);
    result.merge(vec![ResultItem::new(a, 9), ResultItem::new(b, 2)]);
    // The duplicate payload is skipped even though its rank differs.
    assert_eq!(result.len(), 2);
    assert_eq!(result.iter().len(), 2);
}

#[test]
fn merge_into_empty_adds_everything() {
    let mut result: SearchResult<String> = SearchResult::default();
    result.merge(vec![item("x", 1), item("y", 2)]);
    assert_eq!(result.len(), 2);
}

#[test]
fn cache_get_returns_what_was_set() {
    let mut cache: ResultCache<u32> = ResultCache::with_capacity(2);
    assert!(cache.get(1).is_none());
    cache.set(1, 10);
    assert_eq!(cache.get(1), Some(&10));
    cache.set(1, 11);
    assert_eq!(cache.get(1), Some(&11));
}

#[test]
fn full_cache_evicts_oldest_entry() {
    let mut cache: ResultCache<u32> = ResultCache::with_capacity(2);
    cache.set(1, 10);
    cache.set(2, 20);
    cache.set(3, 30);
    assert!(cache.get(1).is_none());
    assert_eq!(cache.get(2), Some(&20));
    assert_eq!(cache.get(3), Some(&30));
}

#[test]
fn kanji_items_precede_word_items() {
    let words = vec![Word::new("みず".to_string(), Some("水".to_string()), 9, 0)];
    let kanji = vec![KanjiResult { literal: '水', meaning: "water".to_string() }];
    let items = merge_words_with_kanji(words, kanji);
    assert_eq!(items.len(), 2);
    assert!(matches!(items[0], Item::Kanji(_)));
    assert!(matches!(items[1], Item::Word(_)));
}

#[test]
fn parse_item_reads_radical_and_parts() {
    let parsed = parse_item("水:亅 一").unwrap();
    assert_eq!(parsed.radical, '水');
    assert_eq!(parsed.parts, vec!['亅', '一']);
}

#[test]
fn parse_item_normalizes_mapped_characters() {
    let parsed = parse_item("你:化 乞").unwrap();
    assert_eq!(parsed.parts, vec![map_character('化'), map_character('乞')]);
    assert_eq!(map_character('化'), '⺅');
    assert_eq!(map_character('乞'), '乙');
    assert_eq!(map_character('水'), '水');
}

#[test]
fn parse_item_rejects_invalid_lines() {
    assert!(parse_item("").is_none());
    assert!(parse_item("no colon here").is_none());
    assert!(parse_item(":水").is_none());
}

#[test]
fn parse_item_ignores_text_after_second_colon() {
    let parsed = parse_item("水:一:二").unwrap();
    assert_eq!(parsed.parts, vec!['一']);
}

#[test]
fn furigana_kana_extraction() {
    assert_eq!(kana_of_furigana("[水|みず]を[飲|の]む"), "みずをのむ");
    assert_eq!(kana_of_furigana("ただの文"), "ただの文");
    assert_eq!(kana_of_furigana("[音楽|おん|がく]"), "おんがく");
    assert_eq!(kana_of_furigana(""), "");
}

#[test]
fn new_sentence_carries_extracted_kana() {
    let s = build_new_sentence("水を飲む".to_string(), "[水|みず]を[飲|の]む".to_string());
    assert_eq!(s.content, "水を飲む");
    assert_eq!(s.kana, "みずをのむ");
}

#[test]
fn result_accessors_expose_items() {
    let result = SearchResult::from_items_ordered(vec![item("a", 3), item("b", 1)], 2);
    assert_eq!(result.get(0).item, "a");
    assert_eq!(result.iter().len(), 2);
    let payloads: Vec<&String> = result.item_iter();
    assert_eq!(payloads, vec![&"a".to_string(), &"b".to_string()]);
    let owned: Vec<String> = result.into_iter();
    assert_eq!(owned, vec!["a".to_string(), "b".to_string()]);
}

#[test]
fn from_raw_keeps_given_order() {
    let result = SearchResult::from_raw(vec![item("low", 1), item("high", 9)], 2);
    let items = result.into_inner();
    assert_eq!(items[0].item, "low");
    assert_eq!(items[1].item, "high");
}

#[test]
fn cache_overwrite_keeps_size() {
    let mut cache: ResultCache<u32> = ResultCache::with_capacity(2);
    cache.set(1, 10);
    cache.set(1, 11);
    cache.set(2, 20);
    // Overwriting key 1 did not consume a second slot: both keys fit.
    assert_eq!(cache.get(1), Some(&11));
    assert_eq!(cache.get(2), Some(&20));
}

#[test]
fn unterminated_furigana_segment_reads_to_the_end() {
    assert_eq!(kana_of_furigana("[水|みず"), "みず");
}

#[test]
fn translations_are_built_in_order() {
    let ts = build_translations(
        7,
        vec![
            ("water".to_string(), Language::English),
            ("Wasser".to_string(), Language::German),
        ],
    );
    assert_eq!(ts.len(), 2);
    assert_eq!(ts[0].sentence_id, 7);
    assert_eq!(ts[0].content, "water");
    assert_eq!(ts[1].language, Language::German);
}
