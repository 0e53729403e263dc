use bookmarks::query::{route, trim_text, Mode};

#[test]
fn edit_keyword_with_text() {
    let q = route("edit foo");
    assert_eq!(q.mode, Mode::EditSearch);
    assert_eq!(q.remainder, "foo");
}

#[test]
fn short_edit_keyword_without_text() {
    let q = route("e ");
    assert_eq!(q.mode, Mode::EditSearch);
    assert_eq!(q.remainder, "");
}

#[test]
fn word_starting_with_keyword_is_plain_search() {
    let q = route("football");
    assert_eq!(q.mode, Mode::Search);
    assert_eq!(q.remainder, "football");
    let q = route("editor notes");
    assert_eq!(q.mode, Mode::Search);
    assert_eq!(q.remainder, "editor notes");
}

#[test]
fn delete_keywords() {
    let q = route("delete  git ");
    assert_eq!(q.mode, Mode::DeleteSearch);
    assert_eq!(q.remainder, "git");
    let q = route("d x");
    assert_eq!(q.mode, Mode::DeleteSearch);
    assert_eq!(q.remainder, "x");
}

#[test]
fn keywords_ignore_letter_case() {
    let q = route("EDIT foo");
    assert_eq!(q.mode, Mode::EditSearch);
    assert_eq!(q.remainder, "foo");
    let q = route("De bar");
    assert_eq!(q.mode, Mode::Search);
    assert_eq!(q.remainder, "De bar");
    let q = route("Delete\tbar");
    assert_eq!(q.mode, Mode::DeleteSearch);
    assert_eq!(q.remainder, "bar");
}

#[test]
fn blank_queries_are_default() {
    assert_eq!(route("").mode, Mode::Default);
    assert_eq!(route("   ").mode, Mode::Default);
    assert_eq!(route("\u{3000}\n").mode, Mode::Default);
    assert_eq!(route("").remainder, "");
}

#[test]
fn other_first_word_keeps_whole_text() {
    let q = route("my edit foo");
    assert_eq!(q.mode, Mode::Search);
    assert_eq!(q.remainder, "my edit foo");
    let q = route(" edit foo");
    assert_eq!(q.mode, Mode::Search);
    assert_eq!(q.remainder, " edit foo");
}

#[test]
fn trimming_matches_std() {
    for s in ["", "  a b  ", "\u{a0}x\u{2003}", "\tq\r\n", "plain", "\u{85}é "] {
        assert_eq!(trim_text(s), s.trim());
    }
}
