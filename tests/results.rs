use bookmarks::matcher::{match_bookmarks, match_groups, text_matches};
use bookmarks::query::Mode;
use bookmarks::results::{
    collect_results, group_toggles, on_get_results, show_default_results, show_delete_results,
    show_edit_results, show_results, Action, Icon, ResultItem, Title, Toggle,
};
use bookmarks::settings::{Bookmark, Group, Settings};

fn sample() -> Settings {
    let mut s = Settings::new();
    s.bookmarks.push(Bookmark {
        id: 0,
        icon_path: None,
        name: "GitHub".to_string(),
        url: "https://github.com".to_string(),
    });
    s.groups.push(Group {
        id: 0,
        icon_path: None,
        tint_icon: false,
        name: "Dev".to_string(),
        bookmarks_ids: vec![0],
    });
    s
}

#[test]
fn matcher_is_fuzzy_and_case_insensitive() {
    assert!(text_matches("GitHub", "git"));
    assert!(text_matches("GitHub", "GITHUB"));
    assert!(!text_matches("Dev", "git"));
    assert!(text_matches("anything", ""));
}

#[test]
fn empty_query_gives_creation_items() {
    let s = sample();
    let r = on_get_results(&s, "", false);
    assert_eq!(r.len(), 2);
    assert_eq!(r[0], ResultItem {
        title: Title::CreateBookmark,
        icon: Icon::Plus,
        tint: true,
        action: Action::CreateBookmarkForm,
    });
    assert_eq!(r[1], ResultItem {
        title: Title::CreateGroup,
        icon: Icon::Plus,
        tint: true,
        action: Action::CreateGroupForm {
            toggles: vec![Toggle { bookmark_id: 0, name: "GitHub".to_string(), on: false }],
        },
    });
    assert_eq!(on_get_results(&s, "  ", true), r);
    assert_eq!(show_default_results(&s), r);
}

#[test]
fn end_to_end_github_dev() {
    let mut s = sample();
    assert_eq!(on_get_results(&s, "", false).len(), 2);
    let r = on_get_results(&s, "git", false);
    assert_eq!(r, vec![ResultItem {
        title: Title::Plain("GitHub".to_string()),
        icon: Icon::Bookmark,
        tint: true,
        action: Action::OpenLink { url: "https://github.com".to_string() },
    }]);
    let r = on_get_results(&s, "delete git", false);
    assert_eq!(r.len(), 1);
    assert_eq!(r[0].action, Action::DeleteBookmark { id: 0 });
    assert_eq!(r[0].title.text(), "Delete Bookmark | GitHub");
    let args = vec!["0".to_string()];
    bookmarks::commands::delete_bookmark(&mut s, &args).unwrap();
    assert!(s.groups[0].bookmarks_ids.is_empty());
    assert!(s.bookmarks.is_empty());
}

#[test]
fn edit_keyword_without_text_lists_nothing() {
    let s = sample();
    assert!(on_get_results(&s, "e ", false).is_empty());
    assert!(on_get_results(&s, "delete   ", false).is_empty());
    assert!(show_edit_results(&s, "").is_empty());
    assert!(show_delete_results(&s, "").is_empty());
}

#[test]
fn search_shows_groups_before_bookmarks() {
    let mut s = sample();
    s.groups[0].name = "GitStuff".to_string();
    let r = on_get_results(&s, "git", false);
    assert_eq!(r.len(), 2);
    assert_eq!(r[0].action, Action::OpenGroup { id: 0 });
    assert_eq!(r[0].icon, Icon::Folder);
    assert_eq!(r[1].action, Action::OpenLink { url: "https://github.com".to_string() });
}

#[test]
fn copy_url_hides_groups_and_copies() {
    let mut s = sample();
    s.groups[0].name = "GitStuff".to_string();
    let r = show_results(&s, "git", true);
    assert_eq!(r.len(), 1);
    assert_eq!(r[0].action, Action::CopyText { text: "https://github.com".to_string() });
}

#[test]
fn bookmark_found_by_url() {
    let mut s = sample();
    s.bookmarks[0].name = "Code".to_string();
    let r = show_results(&s, "github.com", false);
    assert_eq!(r.len(), 1);
    assert_eq!(r[0].title, Title::Plain("Code".to_string()));
}

#[test]
fn edit_results_are_filled_forms() {
    let mut s = sample();
    s.groups[0].icon_path = Some("/g.png".to_string());
    s.groups[0].tint_icon = true;
    s.groups[0].name = "Gits".to_string();
    let r = on_get_results(&s, "edit git", false);
    assert_eq!(r.len(), 2);
    assert_eq!(r[0], ResultItem {
        title: Title::EditGroup("Gits".to_string()),
        icon: Icon::File("/g.png".to_string()),
        tint: true,
        action: Action::EditGroupForm {
            id: 0,
            name: "Gits".to_string(),
            icon_path: Some("/g.png".to_string()),
            tint_icon: true,
            toggles: vec![Toggle { bookmark_id: 0, name: "GitHub".to_string(), on: true }],
        },
    });
    assert_eq!(r[1], ResultItem {
        title: Title::EditBookmark("GitHub".to_string()),
        icon: Icon::Pencil,
        tint: true,
        action: Action::EditBookmarkForm {
            id: 0,
            name: "GitHub".to_string(),
            url: "https://github.com".to_string(),
            use_icon: false,
        },
    });
    assert_eq!(r[0].title.text(), "Edit Group || Gits");
}

#[test]
fn delete_results_use_trash_or_custom_icon() {
    let mut s = sample();
    s.bookmarks[0].icon_path = Some("/f.png".to_string());
    let r = show_delete_results(&s, "git");
    assert_eq!(r, vec![ResultItem {
        title: Title::DeleteBookmark("GitHub".to_string()),
        icon: Icon::File("/f.png".to_string()),
        tint: false,
        action: Action::DeleteBookmark { id: 0 },
    }]);
    let r = show_delete_results(&s, "dev");
    assert_eq!(r[0].icon, Icon::Trash);
    assert!(r[0].tint);
    assert_eq!(r[0].action, Action::DeleteGroup { id: 0 });
}

#[test]
fn collect_uses_given_flags() {
    let s = sample();
    let r = collect_results(&s, Mode::Search, false, &vec![true], &vec![false]);
    assert_eq!(r.len(), 1);
    assert_eq!(r[0].title, Title::Plain("Dev".to_string()));
    let r = collect_results(&s, Mode::DeleteSearch, false, &vec![false], &vec![true]);
    assert_eq!(r[0].action, Action::DeleteBookmark { id: 0 });
    assert!(collect_results(&s, Mode::EditSearch, false, &vec![false], &vec![false]).is_empty());
}

#[test]
fn match_flags_follow_store_order() {
    let mut s = sample();
    s.bookmarks.push(Bookmark { id: 1, icon_path: None, name: "Mail".to_string(), url: "https://mail.example".to_string() });
    assert_eq!(match_bookmarks(&s.bookmarks, "mail"), vec![false, true]);
    assert_eq!(match_groups(&s.groups, "dev"), vec![true]);
}

#[test]
fn toggles_mark_members() {
    let mut s = sample();
    s.bookmarks.push(Bookmark { id: 4, icon_path: None, name: "X".to_string(), url: "u".to_string() });
    let t = group_toggles(&s.bookmarks, &vec![4]);
    assert_eq!(t, vec![
        Toggle { bookmark_id: 0, name: "GitHub".to_string(), on: false },
        Toggle { bookmark_id: 4, name: "X".to_string(), on: true },
    ]);
}

#[test]
fn title_texts() {
    assert_eq!(Title::CreateBookmark.text(), "Create Bookmark");
    assert_eq!(Title::CreateGroup.text(), "Create Group");
    assert_eq!(Title::Plain("a".to_string()).text(), "a");
    assert_eq!(Title::EditBookmark("a".to_string()).text(), "Edit Bookmark || a");
    assert_eq!(Title::DeleteGroup("a".to_string()).text(), "Delete Group | a");
}
