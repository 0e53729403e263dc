use bookmarks::commands::{
    arg_id, command_of, create_bookmark, create_group, delete_bookmark, delete_group, edit_bookmark,
    edit_group, open_group, parse_id, CommandError, CommandKind, Field, Form, FormEntry,
};
use bookmarks::settings::{Bookmark, Group, Settings};

fn form(entries: &[(&str, &str)]) -> Form {
    Form {
        entries: entries
            .iter()
            .map(|(k, v)| FormEntry { field_id: k.to_string(), field_value: v.to_string() })
            .collect(),
    }
}

fn args(a: &[&str]) -> Vec<String> {
    a.iter().map(|s| s.to_string()).collect()
}

fn store() -> Settings {
    let mut s = Settings::new();
    for (id, name) in [(0usize, "a"), (1, "b"), (2, "c")] {
        s.bookmarks.push(Bookmark {
            id,
            icon_path: None,
            name: name.to_string(),
            url: format!("https://{}.example", name),
        });
    }
    s.groups.push(Group {
        id: 0,
        icon_path: None,
        tint_icon: false,
        name: "g".to_string(),
        bookmarks_ids: vec![2, 0],
    });
    s
}

#[test]
fn parse_ids_like_std() {
    assert_eq!(parse_id("42"), Some(42));
    assert_eq!(parse_id("+7"), Some(7));
    assert_eq!(parse_id("007"), Some(7));
    assert_eq!(parse_id(""), None);
    assert_eq!(parse_id("+"), None);
    assert_eq!(parse_id("-1"), None);
    assert_eq!(parse_id("12a"), None);
    assert_eq!(parse_id(" 1"), None);
    let max = usize::MAX.to_string();
    assert_eq!(parse_id(&max), Some(usize::MAX));
    assert_eq!(parse_id(&format!("{}0", max)), None);
    assert_eq!(parse_id(&format!("{}x", max)), None);
    for s in ["0", "+0", "99", "x", "1_0"] {
        assert_eq!(parse_id(s), s.parse::<usize>().ok());
    }
}

#[test]
fn command_names() {
    assert_eq!(command_of("create-bookmark"), Some(CommandKind::CreateBookmark));
    assert_eq!(command_of("create-group"), Some(CommandKind::CreateGroup));
    assert_eq!(command_of("edit-bookmark"), Some(CommandKind::EditBookmark));
    assert_eq!(command_of("edit-group"), Some(CommandKind::EditGroup));
    assert_eq!(command_of("open-group"), Some(CommandKind::OpenGroup));
    assert_eq!(command_of("delete-bookmark"), Some(CommandKind::DeleteBookmark));
    assert_eq!(command_of("delete-group"), Some(CommandKind::DeleteGroup));
    assert_eq!(command_of("delete"), None);
    assert_eq!(command_of(""), None);
}

#[test]
fn argument_errors() {
    assert_eq!(arg_id(&args(&[])), Err(CommandError::MissingArgument));
    assert_eq!(arg_id(&args(&["x"])), Err(CommandError::InvalidId));
    assert_eq!(arg_id(&args(&["3", "x"])), Ok(3));
}

#[test]
fn create_bookmark_from_form() {
    let s = store();
    let d = create_bookmark(&s, &form(&[("name", "Rust"), ("url", "https://rust-lang.org"), ("use-icon", "true")]))
        .unwrap();
    assert_eq!(d.bookmark.id, 3);
    assert_eq!(d.bookmark.name, "Rust");
    assert_eq!(d.bookmark.url, "https://rust-lang.org");
    assert_eq!(d.bookmark.icon_path, None);
    assert!(d.fetch_icon);
    let d = create_bookmark(&s, &form(&[("use-icon", "false"), ("url", "u"), ("name", "n")])).unwrap();
    assert!(!d.fetch_icon);
}

#[test]
fn create_bookmark_errors() {
    let s = store();
    assert_eq!(
        create_bookmark(&s, &form(&[("url", "u"), ("use-icon", "true")])),
        Err(CommandError::MissingField(Field::Name))
    );
    assert_eq!(
        create_bookmark(&s, &form(&[("name", "n"), ("use-icon", "true")])),
        Err(CommandError::MissingField(Field::Url))
    );
    assert_eq!(
        create_bookmark(&s, &form(&[("name", "n"), ("url", "u")])),
        Err(CommandError::MissingField(Field::UseIcon))
    );
    assert_eq!(
        create_bookmark(&s, &form(&[("name", ""), ("url", "u"), ("use-icon", "true")])),
        Err(CommandError::EmptyField(Field::Name))
    );
    assert_eq!(
        create_bookmark(&s, &form(&[("name", "n"), ("url", ""), ("use-icon", "true")])),
        Err(CommandError::EmptyField(Field::Url))
    );
    let mut full = Settings::new();
    full.bookmarks.push(Bookmark { id: usize::MAX, icon_path: None, name: "m".to_string(), url: "u".to_string() });
    assert_eq!(
        create_bookmark(&full, &form(&[("name", "n"), ("url", "u"), ("use-icon", "true")])),
        Err(CommandError::NoFreeId)
    );
}

#[test]
fn create_group_from_form() {
    let mut s = store();
    assert!(s.is_valid());
    let f = form(&[
        ("name", "Work"),
        ("icon-path", ""),
        ("tint-icon", "true"),
        ("0", "true"),
        ("1", "false"),
        ("2", "true"),
        ("9", "true"),
    ]);
    assert_eq!(create_group(&mut s, &f), Ok(1));
    assert_eq!(s.groups.len(), 2);
    assert_eq!(s.groups[1], Group {
        id: 1,
        icon_path: None,
        tint_icon: true,
        name: "Work".to_string(),
        bookmarks_ids: vec![0, 2],
    });
    assert!(s.is_valid());
    let f = form(&[("name", "Pics"), ("icon-path", "/p.png"), ("tint-icon", "false")]);
    assert_eq!(create_group(&mut s, &f), Ok(2));
    assert_eq!(s.groups[2].icon_path, Some("/p.png".to_string()));
    assert!(!s.groups[2].tint_icon);
    assert!(s.groups[2].bookmarks_ids.is_empty());
}

#[test]
fn create_group_errors_leave_store() {
    let mut s = store();
    let before = s.clone();
    assert_eq!(
        create_group(&mut s, &form(&[("name", "x"), ("tint-icon", "true")])),
        Err(CommandError::MissingField(Field::IconPath))
    );
    assert_eq!(
        create_group(&mut s, &form(&[("name", "x"), ("icon-path", "")])),
        Err(CommandError::MissingField(Field::TintIcon))
    );
    assert_eq!(
        create_group(&mut s, &form(&[("name", ""), ("icon-path", ""), ("tint-icon", "false")])),
        Err(CommandError::EmptyField(Field::Name))
    );
    assert_eq!(s, before);
}

#[test]
fn edit_bookmark_from_form() {
    let s = store();
    let f = form(&[("name", "B"), ("url", "https://b"), ("use-icon", "false")]);
    let e = edit_bookmark(&s, &args(&["1"]), &f).unwrap();
    assert_eq!((e.id, e.name.as_str(), e.url.as_str(), e.fetch_icon), (1, "B", "https://b", false));
    assert_eq!(edit_bookmark(&s, &args(&["8"]), &f), Err(CommandError::UnknownBookmark(8)));
    assert_eq!(edit_bookmark(&s, &args(&[]), &f), Err(CommandError::MissingArgument));
    assert_eq!(edit_bookmark(&s, &args(&["one"]), &f), Err(CommandError::InvalidId));
}

#[test]
fn edit_group_from_form() {
    let mut s = store();
    let f = form(&[("name", "G2"), ("icon-path", "/i"), ("tint-icon", "true"), ("1", "true")]);
    assert_eq!(edit_group(&mut s, &args(&["0"]), &f), Ok(()));
    assert_eq!(s.groups[0], Group {
        id: 0,
        icon_path: Some("/i".to_string()),
        tint_icon: true,
        name: "G2".to_string(),
        bookmarks_ids: vec![1],
    });
    assert_eq!(edit_group(&mut s, &args(&["5"]), &f), Err(CommandError::UnknownGroup(5)));
}

#[test]
fn open_group_urls_in_member_order() {
    let mut s = store();
    s.groups[0].bookmarks_ids = vec![2, 7, 0];
    assert_eq!(
        open_group(&s, &args(&["0"])),
        Ok(vec!["https://c.example".to_string(), "https://a.example".to_string()])
    );
    assert_eq!(open_group(&s, &args(&["3"])), Err(CommandError::UnknownGroup(3)));
}

#[test]
fn delete_actions() {
    let mut s = store();
    s.groups[0].bookmarks_ids = vec![2, 0];
    assert_eq!(delete_bookmark(&mut s, &args(&["2"])), Ok(()));
    assert_eq!(s.groups[0].bookmarks_ids, vec![0]);
    assert_eq!(delete_bookmark(&mut s, &args(&["z"])), Err(CommandError::InvalidId));
    assert_eq!(delete_group(&mut s, &args(&["0"])), Ok(()));
    assert!(s.groups.is_empty());
    assert_eq!(s.bookmarks.len(), 2);
    assert_eq!(delete_group(&mut s, &args(&[])), Err(CommandError::MissingArgument));
}

#[test]
fn form_lookup_takes_first_entry() {
    let f = form(&[("name", "a"), ("name", "b")]);
    assert_eq!(f.get_result("name"), Some("a".to_string()));
    assert_eq!(f.get_result("url"), None);
    assert_eq!(f.field_value(Field::Url), Err(CommandError::MissingField(Field::Url)));
}
