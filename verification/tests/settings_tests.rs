//! The ranking-rule codec and the settings round trip through an index.

use skald::index_model::{IndexError, IndexModel};
use skald::settings::{parse_ranking_rule, rule_to_string, IndexSettings, RankingRule, Synonyms};

#[test]
fn keywords_parse_to_their_tags() {
    assert!(matches!(parse_ranking_rule("words"), Some(RankingRule::Words)));
    assert!(matches!(parse_ranking_rule("typo"), Some(RankingRule::Typo)));
    assert!(matches!(parse_ranking_rule("proximity"), Some(RankingRule::Proximity)));
    assert!(matches!(parse_ranking_rule("attribute"), Some(RankingRule::Attribute)));
    assert!(matches!(parse_ranking_rule("sort"), Some(RankingRule::Sort)));
    assert!(matches!(parse_ranking_rule("exactness"), Some(RankingRule::Exactness)));
}

#[test]
fn field_orderings_parse_with_their_field() {
    match parse_ranking_rule("price:asc") {
        Some(RankingRule::Asc(f)) => assert_eq!(f, "price"),
        _ => panic!("expected an ascending field rule"),
    }
    match parse_ranking_rule("release_date:desc") {
        Some(RankingRule::Desc(f)) => assert_eq!(f, "release_date"),
        _ => panic!("expected a descending field rule"),
    }
}

#[test]
fn malformed_rules_are_rejected() {
    assert!(parse_ranking_rule("bogus").is_none());
    assert!(parse_ranking_rule("").is_none());
    assert!(parse_ranking_rule(":asc").is_none());
    assert!(parse_ranking_rule("a b:asc").is_none());
    assert!(parse_ranking_rule("price:ascending").is_none());
    assert!(parse_ranking_rule("Words").is_none());
}

#[test]
fn printing_inverts_parsing() {
    for text in ["words", "typo", "proximity", "attribute", "sort", "exactness", "price:asc", "year:desc"] {
        let rule = parse_ranking_rule(text).expect("canonical rule text must parse");
        assert_eq!(rule_to_string(&rule), text);
    }
}

#[test]
fn parsing_inverts_printing() {
    let rules = [
        RankingRule::Words,
        RankingRule::Exactness,
        RankingRule::Asc("price".to_string()),
        RankingRule::Desc("year_2".to_string()),
    ];
    for rule in rules {
        let text = rule_to_string(&rule);
        let back = parse_ranking_rule(text.as_str()).expect("printed rule must parse");
        assert_eq!(rule_to_string(&back), text);
    }
}

fn sample_settings() -> IndexSettings {
    IndexSettings {
        primary_key: Some("artist_id".to_string()),
        searchable_fields: Some(vec!["artist_name".to_string(), "extra".to_string()]),
        filterable_fields: vec!["genre".to_string()],
        sortable_fields: vec!["year".to_string()],
        ranking_rules: vec!["words".to_string(), "typo".to_string(), "price:asc".to_string()],
        stop_words: vec!["the".to_string()],
        synonyms: vec![Synonyms { word: "car".to_string(), synonyms: vec!["auto".to_string()] }],
        typos_enabled: false,
        min_word_size_for_one_typo: Some(4),
        min_word_size_for_two_typos: Some(8),
        disallow_typos_on_words: vec!["exact".to_string()],
        disallow_typos_on_fields: vec!["artist_id".to_string()],
    }
}

#[test]
fn settings_round_trip_preserves_every_field_and_ordering() {
    let mut index = IndexModel::new();
    let s = sample_settings();
    assert!(index.set_settings(sample_settings()).is_ok());
    let got = index.get_settings();
    assert_eq!(got.primary_key, s.primary_key);
    assert_eq!(got.searchable_fields, s.searchable_fields);
    assert_eq!(got.filterable_fields, s.filterable_fields);
    assert_eq!(got.sortable_fields, s.sortable_fields);
    assert_eq!(got.ranking_rules, s.ranking_rules);
    assert_eq!(got.stop_words, s.stop_words);
    assert_eq!(got.synonyms.len(), 1);
    assert_eq!(got.synonyms[0].word, s.synonyms[0].word);
    assert_eq!(got.synonyms[0].synonyms, s.synonyms[0].synonyms);
    assert_eq!(got.typos_enabled, s.typos_enabled);
    assert_eq!(got.min_word_size_for_one_typo, s.min_word_size_for_one_typo);
    assert_eq!(got.min_word_size_for_two_typos, s.min_word_size_for_two_typos);
    assert_eq!(got.disallow_typos_on_words, s.disallow_typos_on_words);
    assert_eq!(got.disallow_typos_on_fields, s.disallow_typos_on_fields);
}

#[test]
fn settings_with_a_bad_ranking_rule_are_rejected_unchanged() {
    let mut index = IndexModel::new();
    let mut s = sample_settings();
    s.ranking_rules.push("bogus".to_string());
    let r = index.set_settings(s);
    assert!(matches!(r, Err(IndexError::InvalidRankingRule)));
    assert!(index.get_settings().primary_key.is_none());
}

#[test]
fn default_settings_enable_typos_and_set_nothing_else() {
    let s = IndexSettings::default();
    assert!(s.typos_enabled);
    assert!(s.primary_key.is_none());
    assert!(s.searchable_fields.is_none());
    assert!(s.ranking_rules.is_empty());
    assert!(s.min_word_size_for_one_typo.is_none());
    assert!(s.min_word_size_for_two_typos.is_none());
}
