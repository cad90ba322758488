use jisho_cli::json::{entries_from_response, entry_from_json, SchemaError};
use jisho_cli::pager::{decide, Paging};
use jisho_cli::render::render;
use jisho_cli::session::{after_result, first_step, kanji_urls, query_from_line, search_url, Options, Step};
use jisho_cli::text::{contains_text, decimal_text, join_text, strip_prefix_text, trim_text, url_escape};

#[test]
fn unknown_height_never_pages() {
    assert_eq!(decide(0, None), Paging::Direct);
    assert_eq!(decide(100000, None), Paging::Direct);
    assert_eq!(decide(100000, Some(0)), Paging::Direct);
}

#[test]
fn pages_from_one_line_short_of_the_height() {
    assert_eq!(decide(24, Some(24)), Paging::Paged);
    assert_eq!(decide(23, Some(24)), Paging::Paged);
    assert_eq!(decide(22, Some(24)), Paging::Direct);
    assert_eq!(decide(0, Some(1)), Paging::Paged);
}

#[test]
fn empty_query_gets_usage() {
    assert_eq!(first_step(&Options::default()), Step::Usage);
    let mut o = Options::default();
    o.query = "  ".to_string();
    assert_eq!(first_step(&o), Step::Usage);
    o.query = "猫".to_string();
    assert_eq!(first_step(&o), Step::Lookup);
    o.kanji = true;
    assert_eq!(first_step(&o), Step::OpenKanji);
    o.interactive = true;
    assert_eq!(first_step(&o), Step::Prompt);
    assert_eq!(after_result(&o), Step::Prompt);
    assert_eq!(after_result(&Options::default()), Step::Done);
}

#[test]
fn typed_lines_are_trimmed() {
    assert_eq!(query_from_line("  食べる \n"), Some("食べる".to_string()));
    assert_eq!(query_from_line(" \n"), None);
    assert_eq!(query_from_line(""), None);
    assert_eq!(query_from_line("\u{3000}猫\u{3000}"), Some("猫".to_string()));
    assert_eq!(trim_text("\t a b \r\n"), "a b");
    assert_eq!(trim_text(""), "");
}

#[test]
fn data_that_is_no_array_is_a_schema_error() {
    let body: serde_json::Value = serde_json::from_str(r#"{"data": "not-an-array"}"#).unwrap();
    assert_eq!(entries_from_response(&body).unwrap_err(), SchemaError::MissingData);
    let body: serde_json::Value = serde_json::from_str(r#"{"meta": {}}"#).unwrap();
    assert_eq!(entries_from_response(&body).unwrap_err(), SchemaError::MissingData);
}

#[test]
fn answer_is_read_into_entries() {
    let body: serde_json::Value = serde_json::from_str(
        r#"{"data": [
            {"japanese": [{"word": "食べる", "reading": "たべる"}], "is_common": true,
             "jlpt": ["jlpt-n5"],
             "senses": [{"english_definitions": ["to eat"], "parts_of_speech": ["Ichidan verb", "Transitive verb"], "tags": []}]},
            {"japanese": [], "senses": []},
            "odd"
        ]}"#,
    )
    .unwrap();
    let entries = entries_from_response(&body).unwrap();
    assert_eq!(entries.len(), 3);
    assert_eq!(entries[0].forms.len(), 1);
    assert_eq!(entries[0].forms[0].word.as_deref(), Some("食べる"));
    assert!(entries[0].is_common);
    let (text, lines) = render("食べる", &entries[0], false).unwrap();
    assert_eq!(text, "食べる[たべる] (common) (N5) \n    iru/eru verb, Transitive verb\n    1. to eat \n");
    assert_eq!(lines, 3);
    assert!(render("食べる", &entries[1], false).is_none());
    assert!(render("食べる", &entries[2], false).is_none());
}

#[test]
fn missing_senses_stay_missing() {
    let v: serde_json::Value = serde_json::from_str(r#"{"japanese": [{"reading": "ねこ"}]}"#).unwrap();
    let e = entry_from_json(&v);
    assert!(e.senses.is_none());
    assert!(!e.is_common);
    assert_eq!(e.forms[0].word, None);
}

#[test]
fn urls_carry_the_query() {
    assert_eq!(search_url("猫"), "https://jisho.org/api/v1/search/words?keyword=%E7%8C%AB");
    assert_eq!(search_url("a b&c#d-e.f_g~"), "https://jisho.org/api/v1/search/words?keyword=a%20b%26c%23d-e.f_g~");
    assert_eq!(
        kanji_urls("日本"),
        vec![
            "https://jisho.org/search/日%23kanji".to_string(),
            "https://jisho.org/search/本%23kanji".to_string()
        ]
    );
    assert!(kanji_urls("").is_empty());
}

#[test]
fn text_helpers() {
    assert_eq!(decimal_text(0), "0");
    assert_eq!(decimal_text(120), "120");
    assert_eq!(decimal_text(usize::MAX), usize::MAX.to_string());
    assert_eq!(join_text(&vec!["a".to_string(), "b".to_string(), "c".to_string()], ", "), "a, b, c");
    assert_eq!(join_text(&vec![], ", "), "");
    assert!(contains_text("Godan verb with ru ending", "Godan verb"));
    assert!(!contains_text("Godan", "Godan verb"));
    assert!(contains_text("x", ""));
    assert_eq!(strip_prefix_text("jlpt-n1", "jlpt-"), "n1");
    assert_eq!(strip_prefix_text("n1", "jlpt-"), "n1");
    assert_eq!(url_escape("Az09"), "Az09");
    assert_eq!(url_escape("é/"), "%C3%A9%2F");
}
