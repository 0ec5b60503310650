use bookscrape::assemble::{book_file_name, chapter_document, chapter_request};
use bookscrape::chapter::{extract_chapter, to_body_markup, ChapterExtractor, ChapterResult};
use bookscrape::token::{Attribute, Token};

fn open(name: &str, attrs: &[(&str, &str)]) -> Token {
    Token::open(name, attrs.iter().map(|(n, v)| Attribute::new(n, v)).collect())
}

fn body_of(runs: &[&str]) -> String {
    let mut tokens = vec![open("div", &[("class", "content")])];
    for r in runs {
        tokens.push(Token::text(r));
    }
    tokens.push(Token::close("div"));
    extract_chapter(&tokens).body
}

#[test]
fn title_runs_are_concatenated() {
    let tokens = vec![
        open("h1", &[("class", "name")]),
        Token::text("Ch."),
        Token::text(" 1"),
        Token::close("h1"),
        Token::EndOfInput,
    ];
    let r = extract_chapter(&tokens);
    assert_eq!(r.title, "Ch. 1");
    assert_eq!(r.body, "");
}

#[test]
fn title_text_is_kept_verbatim() {
    let tokens = vec![
        open("h1", &[("class", "name")]),
        Token::text("One\n\u{2003}Two"),
        Token::close("h1"),
    ];
    assert_eq!(extract_chapter(&tokens).title, "One\n\u{2003}Two");
}

#[test]
fn body_newline_then_em_space() {
    assert_eq!(body_of(&["a\n\u{2003}b"]), "a<br />b");
}

#[test]
fn body_em_space_then_newline() {
    assert_eq!(body_of(&["a\u{2003}\nb"]), "a<br />b");
}

#[test]
fn body_runs_are_concatenated() {
    assert_eq!(body_of(&["one\n", "\u{2003}\u{2003}two", "\n\nthree"]), "one<br />two<br /><br />three");
}

#[test]
fn empty_body_run_adds_nothing() {
    let with = body_of(&["abc", "", "def"]);
    let without = body_of(&["abc", "def"]);
    assert_eq!(with, "abcdef");
    assert_eq!(with.len(), without.len());
    let mut state = ChapterExtractor::new();
    state.process_token(&open("p", &[("class", "content")]));
    state.process_token(&Token::text("xy"));
    state.process_token(&Token::text(""));
    assert_eq!(state.finish().body.len(), 2);
}

#[test]
fn markup_of_plain_and_special_characters() {
    assert_eq!(to_body_markup(""), "");
    assert_eq!(to_body_markup("plain text"), "plain text");
    assert_eq!(to_body_markup("\n"), "<br />");
    assert_eq!(to_body_markup("\u{2003}"), "");
    assert_eq!(to_body_markup("\u{2003}x\ny\u{2003}"), "x<br />y");
    assert_eq!(to_body_markup("<br />\n"), "<br /><br />");
    assert_eq!(to_body_markup(" \t\r\u{2002}"), " \t\r\u{2002}");
}

#[test]
fn any_close_ends_the_one_open_region() {
    let tokens = vec![
        open("div", &[("class", "content")]),
        Token::text("kept"),
        open("b", &[]),
        Token::text(" bold"),
        Token::close("b"),
        Token::text(" lost"),
        Token::close("div"),
    ];
    let r = extract_chapter(&tokens);
    assert_eq!(r.body, "kept bold");
}

#[test]
fn markers_count_on_any_tag() {
    let tokens = vec![
        open("section", &[("id", "x"), ("class", "name")]),
        Token::text("Title"),
        Token::close("section"),
        open("article", &[("class", "content")]),
        Token::text("Body"),
        Token::close("article"),
    ];
    let r = extract_chapter(&tokens);
    assert_eq!(r.title, "Title");
    assert_eq!(r.body, "Body");
}

#[test]
fn both_regions_open_drop_text_and_ignore_close() {
    let tokens = vec![
        open("div", &[("class", "name")]),
        open("div", &[("class", "content")]),
        Token::text("nowhere"),
        Token::close("div"),
        Token::text("still nowhere"),
    ];
    let r = extract_chapter(&tokens);
    assert_eq!(r.title, "");
    assert_eq!(r.body, "");
}

#[test]
fn text_outside_regions_is_dropped() {
    let tokens = vec![
        Token::text("before"),
        open("div", &[("class", "other")]),
        Token::text("inside other"),
        Token::close("div"),
        Token::EndOfInput,
    ];
    let r = extract_chapter(&tokens);
    assert_eq!(r.title, "");
    assert_eq!(r.body, "");
}

#[test]
fn whole_chapter_page() {
    let tokens = vec![
        open("html", &[]),
        open("h2", &[("class", "name")]),
        Token::text("Chapter"),
        Token::text(" One"),
        Token::close("h2"),
        open("div", &[("class", "content")]),
        Token::text("\u{2003}\u{2003}First line.\n\u{2003}\u{2003}Second line."),
        Token::close("div"),
        Token::close("html"),
        Token::EndOfInput,
    ];
    let r = extract_chapter(&tokens);
    assert_eq!(r.title, "Chapter One");
    assert_eq!(r.body, "First line.<br />Second line.");
}

#[test]
fn chapter_document_wraps_the_body() {
    let doc = chapter_document("<p>x</p>");
    let expected = "<?xml version=\"1.0\" encoding=\"UTF-8\"?>\n        <html xmlns=\"http://www.w3.org/1999/xhtml\" xmlns:epub=\"http://www.idpf.org/2007/ops\">\n        <body>\n        <p>x</p>\n        </body>\n        </html>";
    assert_eq!(doc, expected);
}

#[test]
fn chapter_request_carries_index_title_and_document() {
    let chapter = ChapterResult { title: "Ch. 1".to_string(), body: "a<br />b".to_string() };
    let r = chapter_request(4, chapter);
    assert_eq!(r.index, 4);
    assert_eq!(r.title, "Ch. 1");
    assert_eq!(r.document, chapter_document("a<br />b"));
    assert!(r.document.contains("<body>\n        a<br />b\n        </body>"));
}

#[test]
fn book_file_name_adds_the_extension() {
    assert_eq!(book_file_name("A Tale"), "A Tale.epub");
    assert_eq!(book_file_name(""), ".epub");
}

#[test]
fn default_chapter_state_is_fresh() {
    let mut state = ChapterExtractor::default();
    state.process_token(&Token::text("outside"));
    let r = state.finish();
    assert_eq!(r.title, "");
    assert_eq!(r.body, "");
}
