use bookmarks::settings::{Bookmark, Group, Settings};

fn bookmark(id: usize, name: &str, url: &str) -> Bookmark {
    Bookmark { id, icon_path: None, name: name.to_string(), url: url.to_string() }
}

fn group(id: usize, name: &str, members: Vec<usize>) -> Group {
    Group { id, icon_path: None, tint_icon: false, name: name.to_string(), bookmarks_ids: members }
}

fn create(store: &mut Settings, name: &str) -> usize {
    let b = Bookmark::new(store, name.to_string(), format!("https://{}.example", name)).unwrap();
    let id = b.id;
    assert!(store.insert_bookmark(b));
    id
}

#[test]
fn empty_store_has_nothing() {
    let s = Settings::new();
    assert!(s.bookmarks.is_empty());
    assert!(s.groups.is_empty());
    assert!(s.is_valid());
    assert_eq!(s.next_bookmark_id(), Some(0));
    assert_eq!(s.next_group_id(), Some(0));
}

#[test]
fn creating_in_sequence_counts_up_from_zero() {
    let mut s = Settings::new();
    let ids: Vec<usize> = (0..5).map(|i| create(&mut s, &format!("b{}", i))).collect();
    assert_eq!(ids, vec![0, 1, 2, 3, 4]);
    let stored: Vec<usize> = s.bookmarks.iter().map(|b| b.id).collect();
    assert_eq!(stored, vec![0, 1, 2, 3, 4]);
    assert!(s.is_valid());
}

#[test]
fn new_bookmark_has_no_icon() {
    let s = Settings::new();
    let b = Bookmark::new(&s, "Rust".to_string(), "https://rust-lang.org".to_string()).unwrap();
    assert_eq!(b, bookmark(0, "Rust", "https://rust-lang.org"));
    let b = b.icon_path("/tmp/0.png".to_string());
    assert_eq!(b.icon_path, Some("/tmp/0.png".to_string()));
}

#[test]
fn new_group_defaults() {
    let mut s = Settings::new();
    s.groups.push(group(3, "a", vec![]));
    let g = Group::new(&s, "Work".to_string(), vec![]).unwrap();
    assert_eq!(g.id, 4);
    assert_eq!(g.icon_path, None);
    assert!(!g.tint_icon);
    let g = g.tint_icon(true).icon_path("/icons/w.png".to_string());
    assert!(g.tint_icon);
    assert_eq!(g.icon_path, Some("/icons/w.png".to_string()));
}

#[test]
fn next_id_is_max_plus_one_not_count() {
    let mut s = Settings::new();
    s.bookmarks.push(bookmark(7, "a", "u"));
    s.bookmarks.push(bookmark(2, "b", "u"));
    assert_eq!(s.next_bookmark_id(), Some(8));
}

#[test]
fn no_id_left_after_usize_max() {
    let mut s = Settings::new();
    s.bookmarks.push(bookmark(usize::MAX, "a", "u"));
    assert_eq!(s.next_bookmark_id(), None);
    assert!(Bookmark::new(&s, "x".to_string(), "y".to_string()).is_none());
    s.groups.push(group(usize::MAX, "g", vec![]));
    assert_eq!(s.next_group_id(), None);
    assert!(Group::new(&s, "x".to_string(), vec![]).is_none());
}

#[test]
fn deleting_max_id_frees_it() {
    let mut s = Settings::new();
    for n in ["a", "b", "c"] {
        create(&mut s, n);
    }
    s.delete_bookmark(2);
    assert_eq!(create(&mut s, "d"), 2);
}

#[test]
fn deleting_max_id_with_gap_takes_max_remaining_plus_one() {
    let mut s = Settings::new();
    s.bookmarks.push(bookmark(0, "a", "u"));
    s.bookmarks.push(bookmark(5, "b", "u"));
    s.delete_bookmark(5);
    assert_eq!(s.next_bookmark_id(), Some(1));
    s.delete_bookmark(0);
    assert_eq!(s.next_bookmark_id(), Some(0));
}

#[test]
fn deleting_bookmark_cleans_every_group() {
    let mut s = Settings::new();
    for n in ["a", "b", "c"] {
        create(&mut s, n);
    }
    s.groups.push(group(0, "g0", vec![1, 0, 1]));
    s.groups.push(group(1, "g1", vec![2]));
    s.groups.push(group(2, "g2", vec![1, 2]));
    assert!(s.is_valid());
    s.delete_bookmark(1);
    assert_eq!(s.groups[0].bookmarks_ids, vec![0]);
    assert_eq!(s.groups[1].bookmarks_ids, vec![2]);
    assert_eq!(s.groups[2].bookmarks_ids, vec![2]);
    assert_eq!(s.bookmarks.iter().map(|b| b.id).collect::<Vec<_>>(), vec![0, 2]);
    assert_eq!(s.groups.iter().map(|g| g.name.clone()).collect::<Vec<_>>(), vec!["g0", "g1", "g2"]);
    assert!(s.is_valid());
}

#[test]
fn deleting_group_keeps_bookmarks() {
    let mut s = Settings::new();
    create(&mut s, "a");
    s.groups.push(group(0, "g0", vec![0]));
    s.groups.push(group(1, "g1", vec![0]));
    s.delete_group(0);
    assert_eq!(s.groups.len(), 1);
    assert_eq!(s.groups[0].id, 1);
    assert_eq!(s.bookmarks.len(), 1);
}

#[test]
fn insert_refuses_taken_id() {
    let mut s = Settings::new();
    assert!(s.insert_bookmark(bookmark(0, "a", "u")));
    assert!(!s.insert_bookmark(bookmark(0, "b", "v")));
    assert_eq!(s.bookmarks.len(), 1);
    assert_eq!(s.bookmarks[0].name, "a");
}

#[test]
fn insert_group_refuses_dangling_member() {
    let mut s = Settings::new();
    create(&mut s, "a");
    assert!(!s.insert_group(group(0, "g", vec![0, 9])));
    assert!(s.groups.is_empty());
    assert!(s.insert_group(group(0, "g", vec![0])));
    assert!(!s.insert_group(group(0, "h", vec![])));
    assert_eq!(s.groups.len(), 1);
}

#[test]
fn update_bookmark_replaces_fields() {
    let mut s = Settings::new();
    create(&mut s, "a");
    create(&mut s, "b");
    assert!(s.update_bookmark(1, "B".to_string(), "https://b".to_string(), Some("/i.png".to_string())));
    assert_eq!(s.bookmarks[1], Bookmark {
        id: 1,
        icon_path: Some("/i.png".to_string()),
        name: "B".to_string(),
        url: "https://b".to_string(),
    });
    assert_eq!(s.bookmarks[0].name, "a");
    assert!(!s.update_bookmark(9, "x".to_string(), "y".to_string(), None));
    assert_eq!(s.bookmarks.len(), 2);
}

#[test]
fn update_group_checks_members() {
    let mut s = Settings::new();
    create(&mut s, "a");
    create(&mut s, "b");
    s.groups.push(group(0, "g", vec![0]));
    assert!(!s.update_group(0, "h".to_string(), vec![5], None, true));
    assert_eq!(s.groups[0].name, "g");
    assert!(!s.update_group(4, "h".to_string(), vec![1], None, true));
    assert!(s.update_group(0, "h".to_string(), vec![1, 0], Some("/x".to_string()), true));
    assert_eq!(s.groups[0], Group {
        id: 0,
        icon_path: Some("/x".to_string()),
        tint_icon: true,
        name: "h".to_string(),
        bookmarks_ids: vec![1, 0],
    });
}

#[test]
fn validity_detects_broken_stores() {
    let mut s = Settings::new();
    s.bookmarks.push(bookmark(1, "a", "u"));
    s.bookmarks.push(bookmark(1, "b", "u"));
    assert!(!s.is_valid());
    let mut t = Settings::new();
    t.bookmarks.push(bookmark(1, "a", "u"));
    t.groups.push(group(0, "g", vec![2]));
    assert!(!t.is_valid());
    t.groups[0].bookmarks_ids = vec![1];
    assert!(t.is_valid());
    t.groups.push(group(0, "h", vec![]));
    assert!(!t.is_valid());
}

#[test]
fn sort_by_id_orders_and_is_idempotent() {
    let mut s = Settings::new();
    for id in [3usize, 0, 2, 1] {
        s.bookmarks.push(bookmark(id, &format!("b{}", id), "u"));
    }
    s.groups.push(group(1, "g1", vec![]));
    s.groups.push(group(0, "g0", vec![]));
    s.sort_by_id();
    assert_eq!(s.bookmarks.iter().map(|b| b.id).collect::<Vec<_>>(), vec![0, 1, 2, 3]);
    assert_eq!(s.bookmarks.iter().map(|b| b.name.clone()).collect::<Vec<_>>(), vec!["b0", "b1", "b2", "b3"]);
    assert_eq!(s.groups.iter().map(|g| g.id).collect::<Vec<_>>(), vec![0, 1]);
    let once = s.clone();
    s.sort_by_id();
    assert_eq!(s, once);
}

#[test]
fn group_bookmarks_in_store_order() {
    let mut s = Settings::new();
    for n in ["a", "b", "c"] {
        create(&mut s, n);
    }
    let g = group(0, "g", vec![2, 0]);
    let names: Vec<String> = g.get_bookmarks(&s).into_iter().map(|b| b.name).collect();
    assert_eq!(names, vec!["a", "c"]);
}

#[test]
fn store_paths_sit_in_the_extension_directory() {
    if let Some(p) = bookmarks::paths::get_settings_path() {
        assert!(p.ends_with("whiskers-launcher-bookmarks/settings.bin"));
    }
    if let Some(p) = bookmarks::paths::get_favicons_dir() {
        assert!(p.ends_with("whiskers-launcher-bookmarks/favicons"));
    }
}

#[test]
fn dangling_members_are_dropped() {
    let mut s = Settings::new();
    create(&mut s, "a");
    create(&mut s, "b");
    s.groups.push(group(0, "g", vec![1, 5, 0, 5]));
    s.groups.push(group(1, "h", vec![9]));
    assert!(!s.is_valid());
    s.drop_dangling_members();
    assert_eq!(s.groups[0].bookmarks_ids, vec![1, 0]);
    assert!(s.groups[1].bookmarks_ids.is_empty());
    assert_eq!(s.groups[1].name, "h");
    assert!(s.is_valid());
}

#[test]
fn creating_after_existing_ids_continues_from_max() {
    let mut s = Settings::new();
    s.bookmarks.push(bookmark(5, "x", "u"));
    assert_eq!(create(&mut s, "a"), 6);
    assert_eq!(create(&mut s, "b"), 7);
}
