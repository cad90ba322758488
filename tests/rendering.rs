use jisho_cli::batch::{present, render_all};
use jisho_cli::entry::{Entry, Form, Sense};
use jisho_cli::pager::Paging;
use jisho_cli::render::{
    format_form, format_level, format_other_forms, format_result_tags, format_sense,
    format_sense_tag, format_sense_tags, normalize_pos, pos_label_text, render,
};
use jisho_cli::style::{paint, Hue};

fn strings(items: &[&str]) -> Vec<String> {
    items.iter().map(|s| s.to_string()).collect()
}

fn form(word: Option<&str>, reading: Option<&str>) -> Form {
    Form { word: word.map(|s| s.to_string()), reading: reading.map(|s| s.to_string()) }
}

fn sense(glosses: &[&str], pos: &[&str], tags: &[&str]) -> Sense {
    Sense { glosses: strings(glosses), parts_of_speech: strings(pos), tags: strings(tags) }
}

fn taberu() -> Entry {
    Entry {
        forms: vec![form(Some("食べる"), Some("たべる"))],
        is_common: true,
        jlpt: vec![],
        senses: Some(vec![sense(&["to eat"], &["Ichidan verb"], &[])]),
    }
}

#[test]
fn taberu_renders_header_heading_and_sense() {
    let (text, lines) = render("食べる", &taberu(), false).unwrap();
    assert!(text.starts_with("食べる[たべる] (common) "));
    assert_eq!(text, "食べる[たべる] (common) \n    iru/eru verb\n    1. to eat \n");
    assert_eq!(lines, 3);
}

#[test]
fn common_comes_before_upper_cased_level() {
    assert_eq!(format_level(&strings(&["jlpt-n2"])), Some("N2".to_string()));
    assert_eq!(format_result_tags(true, Some("N2"), false), "(common) (N2) ");
    let mut e = taberu();
    e.jlpt = strings(&["jlpt-n2", "jlpt-n3"]);
    let (text, _) = render("食べる", &e, false).unwrap();
    assert!(text.starts_with("食べる[たべる] (common) (N2) \n"));
}

#[test]
fn no_tags_leave_an_empty_tag_string() {
    assert_eq!(format_result_tags(false, None, false), "");
    assert_eq!(format_level(&vec![]), None);
}

#[test]
fn level_without_prefix_is_upper_cased_whole() {
    assert_eq!(format_level(&strings(&["n5"])), Some("N5".to_string()));
}

#[test]
fn entry_without_forms_is_not_rendered() {
    let mut e = taberu();
    e.forms = vec![];
    assert!(render("食べる", &e, false).is_none());
}

#[test]
fn entry_without_senses_list_is_not_rendered() {
    let mut e = taberu();
    e.senses = None;
    assert!(render("食べる", &e, false).is_none());
}

#[test]
fn form_without_word_or_reading_is_not_rendered() {
    let mut e = taberu();
    e.forms.push(form(None, None));
    assert!(render("食べる", &e, false).is_none());
}

#[test]
fn form_falls_back_on_reading_and_query() {
    assert_eq!(format_form("q", &form(None, Some("かな"))), Some("かな[かな]".to_string()));
    assert_eq!(format_form("q", &form(Some("語"), None)), Some("語[q]".to_string()));
    assert_eq!(format_form("q", &form(None, None)), None);
}

#[test]
fn sense_without_glosses_adds_nothing() {
    let mut e = taberu();
    let (before, before_lines) = render("食べる", &e, false).unwrap();
    e.senses.as_mut().unwrap().push(sense(&[], &["Noun"], &["Slang"]));
    let (after, after_lines) = render("食べる", &e, false).unwrap();
    assert_eq!(before, after);
    assert_eq!(before_lines, after_lines);
}

#[test]
fn skipped_sense_still_takes_its_number() {
    let e = Entry {
        forms: vec![form(Some("語"), Some("ご"))],
        is_common: false,
        jlpt: vec![],
        senses: Some(vec![sense(&[], &[], &[]), sense(&["word"], &[], &[])]),
    };
    let (text, lines) = render("ご", &e, false).unwrap();
    assert_eq!(text, "語[ご] \n    2. word \n");
    assert_eq!(lines, 2);
}

#[test]
fn repeated_part_of_speech_heading_is_suppressed() {
    let e = Entry {
        forms: vec![form(Some("走る"), Some("はしる"))],
        is_common: false,
        jlpt: vec![],
        senses: Some(vec![
            sense(&["to run"], &["Godan verb with ru ending"], &[]),
            sense(&["to travel", "to move"], &["Godan verb with ru ending"], &[]),
            sense(&["running"], &["Noun"], &["Usually written using kana alone"]),
        ]),
    };
    let (text, lines) = render("はしる", &e, false).unwrap();
    assert_eq!(
        text,
        "走る[はしる] \n    Godan verb\n    1. to run \n    2. to travel, to move \n    Noun\n    3. running (UK)\n"
    );
    assert_eq!(lines, 6);
}

#[test]
fn other_forms_follow_the_senses() {
    let e = Entry {
        forms: vec![
            form(Some("食べる"), Some("たべる")),
            form(Some("喰べる"), Some("たべる")),
            form(None, Some("たべる")),
        ],
        is_common: false,
        jlpt: vec![],
        senses: Some(vec![sense(&["to eat"], &[], &[])]),
    };
    let (text, lines) = render("たべる", &e, false).unwrap();
    assert_eq!(
        text,
        "食べる[たべる] \n    1. to eat \n    Other forms\n    喰べる[たべる], たべる[たべる]\n"
    );
    assert_eq!(lines, 4);
    assert_eq!(format_other_forms("q", &vec![form(Some("a"), None)], false), Some(String::new()));
    assert_eq!(format_other_forms("q", &vec![form(Some("a"), None), form(None, None)], false), None);
}

#[test]
fn tags_each_show_in_parentheses() {
    assert_eq!(format_sense_tag("Usually written using kana alone"), "(UK)");
    assert_eq!(format_sense_tag("Colloquialism"), "(Colloquialism)");
    assert_eq!(
        format_sense_tags(&strings(&["Usually written using kana alone", "Colloquialism", "Slang"])),
        "(UK)(Colloquialism)(Slang)"
    );
    assert_eq!(format_sense_tags(&vec![]), "");
}

#[test]
fn parts_of_speech_are_normalized() {
    assert_eq!(normalize_pos("Suru verb - irregular"), "Irregular verb");
    assert_eq!(normalize_pos("Ichidan verb"), "iru/eru verb");
    assert_eq!(normalize_pos("Godan verb with u ending"), "Godan verb");
    assert_eq!(normalize_pos("Noun"), "Noun");
    assert_eq!(
        pos_label_text(&strings(&["Ichidan verb", "Transitive verb"])),
        "iru/eru verb, Transitive verb"
    );
}

#[test]
fn sense_with_new_label_prints_heading() {
    let mut prev = String::new();
    let s = sense(&["to eat"], &["Ichidan verb"], &[]);
    assert_eq!(format_sense(0, &s, &mut prev, false), ("iru/eru verb\n    1. to eat ".to_string(), true));
    assert_eq!(prev, "iru/eru verb");
}

#[test]
fn sense_with_changed_label_and_tag() {
    let mut prev = "Noun".to_string();
    let s = sense(&["to do"], &["Noun", "Suru verb - irregular"], &["Usually written using kana alone"]);
    assert_eq!(
        format_sense(2, &s, &mut prev, false),
        ("Noun, Irregular verb\n    3. to do (UK)".to_string(), true)
    );
    assert_eq!(prev, "Noun, Irregular verb");
}

#[test]
fn sense_with_repeated_label_prints_no_heading() {
    let mut prev = "Godan verb".to_string();
    let s = sense(&["to buy"], &["Godan verb with 'u' ending"], &[]);
    assert_eq!(format_sense(0, &s, &mut prev, false), ("1. to buy ".to_string(), false));
    assert_eq!(prev, "Godan verb");
}

#[test]
fn sense_without_label_prints_no_heading() {
    let mut prev = "Noun".to_string();
    let s = sense(&["word", "term"], &[], &["Slang"]);
    assert_eq!(format_sense(9, &s, &mut prev, false), ("10. word, term (Slang)".to_string(), false));
    assert_eq!(prev, "Noun");
}

#[test]
fn sense_without_glosses_gives_nothing() {
    let mut prev = "Noun".to_string();
    let s = sense(&[], &["Ichidan verb"], &["Slang"]);
    assert_eq!(format_sense(0, &s, &mut prev, false), (String::new(), false));
    assert_eq!(prev, "Noun");
}

#[test]
fn colour_wraps_in_escape_sequences() {
    assert_eq!(paint("x", Hue::BrightBlue, true), "\u{1b}[94mx\u{1b}[0m");
    assert_eq!(paint("x", Hue::BrightGreen, true), "\u{1b}[92mx\u{1b}[0m");
    assert_eq!(paint("x", Hue::BrightBlack, true), "\u{1b}[90mx\u{1b}[0m");
    assert_eq!(paint("x", Hue::BrightBlue, false), "x");
    assert_eq!(
        paint("a\u{1b}[0mb", Hue::BrightBlue, true),
        "\u{1b}[94ma\u{1b}[0m\u{1b}[94mb\u{1b}[0m"
    );
    assert_eq!(format_result_tags(true, None, true), "\u{1b}[92m(common) \u{1b}[0m");
}

#[test]
fn unrenderable_entries_are_dropped_from_the_batch() {
    let mut bad = taberu();
    bad.forms = vec![];
    let entries = vec![taberu(), bad, taberu()];
    let b = render_all("食べる", &entries, 0, false);
    assert_eq!(b.shown, 2);
    let one = "食べる[たべる] (common) \n    iru/eru verb\n    1. to eat \n";
    assert_eq!(b.text, format!("{}\n{}", one, one));
    assert_eq!(b.lines, 7);
}

#[test]
fn limit_bounds_the_entries_considered() {
    let entries = vec![taberu(), taberu(), taberu()];
    let b = render_all("食べる", &entries, 1, false);
    assert_eq!(b.shown, 1);
    assert_eq!(b.lines, 3);
    let empty = render_all("食べる", &vec![], 0, false);
    assert_eq!(empty.shown, 0);
    assert_eq!(empty.text, "");
    assert_eq!(empty.lines, 0);
}

#[test]
fn paged_output_is_coloured() {
    let entries = vec![taberu(), taberu()];
    let p = present("食べる", &entries, 0, Some(5), false);
    assert_eq!(p.paging, Paging::Paged);
    assert!(p.text.contains("\u{1b}[92m(common) \u{1b}[0m"));
    let d = present("食べる", &entries, 0, None, false);
    assert_eq!(d.paging, Paging::Direct);
    assert!(!d.text.contains('\u{1b}'));
}
