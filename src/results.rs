use vstd::prelude::*;
use vstd::string::StringExecFns;

use crate::matcher::{bookmark_matches, group_matches, match_bookmarks, match_groups};
use crate::query::{route, route_mode, route_remainder, Mode};
use crate::settings::{Bookmark, Group, Settings};

verus! {

/// The icon shown beside a result.
#[derive(Clone, Debug, PartialEq, Eq)]
pub enum Icon {
    Plus,
    Pencil,
    Trash,
    Folder,
    Bookmark,
    /// A custom image file.
    File(String),
}

/// One membership switch of a group form.
#[derive(Clone, Debug, PartialEq, Eq)]
pub struct Toggle {
    pub bookmark_id: usize,
    pub name: String,
    pub on: bool,
}

/// What choosing a result does.
#[derive(Clone, Debug, PartialEq, Eq)]
pub enum Action {
    /// Opens the form that creates a bookmark (name, url, use-icon).
    CreateBookmarkForm,
    /// Opens the form that creates a group, with a switch per bookmark.
    CreateGroupForm { toggles: Vec<Toggle> },
    /// Opens the form that edits a bookmark, filled in.
    EditBookmarkForm { id: usize, name: String, url: String, use_icon: bool },
    /// Opens the form that edits a group, filled in.
    EditGroupForm {
        id: usize,
        name: String,
        icon_path: Option<String>,
        tint_icon: bool,
        toggles: Vec<Toggle>,
    },
    /// Opens every bookmark of a group.
    OpenGroup { id: usize },
    /// Opens a url.
    OpenLink { url: String },
    /// Copies a text.
    CopyText { text: String },
    /// Deletes a group; destructive.
    DeleteGroup { id: usize },
    /// Deletes a bookmark; destructive.
    DeleteBookmark { id: usize },
}

/// The label of a result: a fixed caption, or a caption around a name.
#[derive(Clone, Debug, PartialEq, Eq)]
pub enum Title {
    CreateBookmark,
    CreateGroup,
    Plain(String),
    EditGroup(String),
    EditBookmark(String),
    DeleteGroup(String),
    DeleteBookmark(String),
}

/// One entry of the result list.
#[derive(Clone, Debug, PartialEq, Eq)]
pub struct ResultItem {
    pub title: Title,
    pub icon: Icon,
    /// Whether the icon is tinted with the accent colour.
    pub tint: bool,
    pub action: Action,
}

/// An [`Action`] with its switches as a sequence.
pub enum ActionView {
    CreateBookmarkForm,
    CreateGroupForm { toggles: Seq<Toggle> },
    EditBookmarkForm { id: usize, name: String, url: String, use_icon: bool },
    EditGroupForm {
        id: usize,
        name: String,
        icon_path: Option<String>,
        tint_icon: bool,
        toggles: Seq<Toggle>,
    },
    OpenGroup { id: usize },
    OpenLink { url: String },
    CopyText { text: String },
    DeleteGroup { id: usize },
    DeleteBookmark { id: usize },
}

/// The text of a title.
pub open spec fn title_text(t: Title) -> Seq<char> {
    match t {
        Title::CreateBookmark => "Create Bookmark"@,
        Title::CreateGroup => "Create Group"@,
        Title::Plain(n) => n@,
        Title::EditGroup(n) => "Edit Group || "@ + n@,
        Title::EditBookmark(n) => "Edit Bookmark || "@ + n@,
        Title::DeleteGroup(n) => "Delete Group | "@ + n@,
        Title::DeleteBookmark(n) => "Delete Bookmark | "@ + n@,
    }
}

impl Title {
    /// The label shown for a result.
    pub fn text(&self) -> (r: String)
        ensures
            r@ == title_text(*self),
    {
        match self {
            Title::CreateBookmark => String::from_str("Create Bookmark"),
            Title::CreateGroup => String::from_str("Create Group"),
            Title::Plain(n) => n.clone(),
            Title::EditGroup(n) => String::from_str("Edit Group || ").concat(n.as_str()),
            Title::EditBookmark(n) => String::from_str("Edit Bookmark || ").concat(n.as_str()),
            Title::DeleteGroup(n) => String::from_str("Delete Group | ").concat(n.as_str()),
            Title::DeleteBookmark(n) => String::from_str("Delete Bookmark | ").concat(n.as_str()),
        }
    }
}

/// A [`ResultItem`] with its action viewed.
pub struct ResultItemView {
    pub title: Title,
    pub icon: Icon,
    pub tint: bool,
    pub action: ActionView,
}

impl View for Action {
    type V = ActionView;

    open spec fn view(&self) -> ActionView {
        match self {
            Action::CreateBookmarkForm => ActionView::CreateBookmarkForm,
            Action::CreateGroupForm { toggles } => ActionView::CreateGroupForm {
                toggles: toggles@,
            },
            Action::EditBookmarkForm { id, name, url, use_icon } => ActionView::EditBookmarkForm {
                id: *id,
                name: *name,
                url: *url,
                use_icon: *use_icon,
            },
            Action::EditGroupForm { id, name, icon_path, tint_icon, toggles } =>
                ActionView::EditGroupForm {
                id: *id,
                name: *name,
                icon_path: *icon_path,
                tint_icon: *tint_icon,
                toggles: toggles@,
            },
            Action::OpenGroup { id } => ActionView::OpenGroup { id: *id },
            Action::OpenLink { url } => ActionView::OpenLink { url: *url },
            Action::CopyText { text } => ActionView::CopyText { text: *text },
            Action::DeleteGroup { id } => ActionView::DeleteGroup { id: *id },
            Action::DeleteBookmark { id } => ActionView::DeleteBookmark { id: *id },
        }
    }
}

impl View for ResultItem {
    type V = ResultItemView;

    open spec fn view(&self) -> ResultItemView {
        ResultItemView { title: self.title, icon: self.icon, tint: self.tint, action: self.action@ }
    }
}

/// The views of `items`.
pub open spec fn views(items: Seq<ResultItem>) -> Seq<ResultItemView> {
    items.map_values(|r: ResultItem| r@)
}

/// A switch per bookmark, in store order, on for the members in `members`.
pub open spec fn toggles_for(bookmarks: Seq<Bookmark>, members: Seq<usize>) -> Seq<Toggle> {
    bookmarks.map_values(
        |b: Bookmark| Toggle { bookmark_id: b.id, name: b.name, on: members.contains(b.id) },
    )
}

/// The records of `s` whose flag in `hits` is set, in order.
pub open spec fn selected<T>(s: Seq<T>, hits: Seq<bool>) -> Seq<T>
    decreases s.len(),
{
    if s.len() == 0 {
        s
    } else {
        let rest = selected(s.drop_last(), hits.drop_last());
        if hits.last() {
            rest.push(s.last())
        } else {
            rest
        }
    }
}

/// A custom icon with its own tint flag, or `fallback` tinted.
pub open spec fn group_look(g: Group, fallback: Icon) -> (Icon, bool) {
    match g.icon_path {
        Some(p) => (Icon::File(p), g.tint_icon),
        None => (fallback, true),
    }
}

/// A custom icon untinted, or `fallback` tinted.
pub open spec fn bookmark_look(b: Bookmark, fallback: Icon) -> (Icon, bool) {
    match b.icon_path {
        Some(p) => (Icon::File(p), false),
        None => (fallback, true),
    }
}

/// The result for group `g` in `mode` (search, edit or delete).
pub open spec fn group_item(g: Group, mode: Mode, bookmarks: Seq<Bookmark>) -> ResultItemView {
    match mode {
        Mode::EditSearch => ResultItemView {
            title: Title::EditGroup(g.name),
            icon: group_look(g, Icon::Pencil).0,
            tint: group_look(g, Icon::Pencil).1,
            action: ActionView::EditGroupForm {
                id: g.id,
                name: g.name,
                icon_path: g.icon_path,
                tint_icon: g.tint_icon,
                toggles: toggles_for(bookmarks, g.bookmarks_ids@),
            },
        },
        Mode::DeleteSearch => ResultItemView {
            title: Title::DeleteGroup(g.name),
            icon: group_look(g, Icon::Trash).0,
            tint: group_look(g, Icon::Trash).1,
            action: ActionView::DeleteGroup { id: g.id },
        },
        _ => ResultItemView {
            title: Title::Plain(g.name),
            icon: group_look(g, Icon::Folder).0,
            tint: group_look(g, Icon::Folder).1,
            action: ActionView::OpenGroup { id: g.id },
        },
    }
}

/// The result for bookmark `b` in `mode` (search, edit or delete).
pub open spec fn bookmark_item(b: Bookmark, mode: Mode, copy_url: bool) -> ResultItemView {
    match mode {
        Mode::EditSearch => ResultItemView {
            title: Title::EditBookmark(b.name),
            icon: bookmark_look(b, Icon::Pencil).0,
            tint: bookmark_look(b, Icon::Pencil).1,
            action: ActionView::EditBookmarkForm {
                id: b.id,
                name: b.name,
                url: b.url,
                use_icon: b.icon_path is Some,
            },
        },
        Mode::DeleteSearch => ResultItemView {
            title: Title::DeleteBookmark(b.name),
            icon: bookmark_look(b, Icon::Trash).0,
            tint: bookmark_look(b, Icon::Trash).1,
            action: ActionView::DeleteBookmark { id: b.id },
        },
        _ => ResultItemView {
            title: Title::Plain(b.name),
            icon: bookmark_look(b, Icon::Bookmark).0,
            tint: bookmark_look(b, Icon::Bookmark).1,
            action: if copy_url {
                ActionView::CopyText { text: b.url }
            } else {
                ActionView::OpenLink { url: b.url }
            },
        },
    }
}

/// The results for the groups flagged in `hits`.
pub open spec fn group_items(
    groups: Seq<Group>,
    hits: Seq<bool>,
    mode: Mode,
    bookmarks: Seq<Bookmark>,
) -> Seq<ResultItemView> {
    selected(groups, hits).map_values(|g: Group| group_item(g, mode, bookmarks))
}

/// The results for the bookmarks flagged in `hits`.
pub open spec fn bookmark_items(
    bookmarks: Seq<Bookmark>,
    hits: Seq<bool>,
    mode: Mode,
    copy_url: bool,
) -> Seq<ResultItemView> {
    selected(bookmarks, hits).map_values(|b: Bookmark| bookmark_item(b, mode, copy_url))
}

/// The two creation results.
pub open spec fn default_items(store: Settings) -> Seq<ResultItemView> {
    seq![
        ResultItemView {
            title: Title::CreateBookmark,
            icon: Icon::Plus,
            tint: true,
            action: ActionView::CreateBookmarkForm,
        },
        ResultItemView {
            title: Title::CreateGroup,
            icon: Icon::Plus,
            tint: true,
            action: ActionView::CreateGroupForm {
                toggles: toggles_for(store.bookmarks@, Seq::empty()),
            },
        },
    ]
}

/// The results of a search (`mode` search, edit or delete) given which groups
/// and bookmarks matched: groups first, then bookmarks, each in store order.
/// A plain search shows no groups when urls are copied instead of opened.
pub open spec fn search_items(
    store: Settings,
    mode: Mode,
    copy_url: bool,
    group_hits: Seq<bool>,
    bookmark_hits: Seq<bool>,
) -> Seq<ResultItemView> {
    let gs = if mode == Mode::Search && copy_url {
        Seq::empty()
    } else {
        group_items(store.groups@, group_hits, mode, store.bookmarks@)
    };
    gs + bookmark_items(store.bookmarks@, bookmark_hits, mode, copy_url)
}

/// The results for a query text.
pub open spec fn results_for(store: Settings, text: Seq<char>, copy_url: bool) -> Seq<
    ResultItemView,
> {
    let mode = route_mode(text);
    let q = route_remainder(text);
    if mode == Mode::Default {
        default_items(store)
    } else if mode != Mode::Search && q.len() == 0 {
        Seq::empty()
    } else {
        search_items(
            store,
            mode,
            copy_url,
            store.groups@.map_values(|g: Group| group_matches(g, q)),
            store.bookmarks@.map_values(|b: Bookmark| bookmark_matches(b, q)),
        )
    }
}

proof fn lemma_selected_step<T>(s: Seq<T>, hits: Seq<bool>, i: int)
    requires
        0 <= i < s.len(),
        hits.len() == s.len(),
    ensures
        selected(s.take(i + 1), hits.take(i + 1)) == if hits[i] {
            selected(s.take(i), hits.take(i)).push(s[i])
        } else {
            selected(s.take(i), hits.take(i))
        },
{
    assert(s.take(i + 1).drop_last() =~= s.take(i));
    assert(hits.take(i + 1).drop_last() =~= hits.take(i));
}

fn clone_path(p: &Option<String>) -> (r: Option<String>)
    ensures
        r == *p,
{
    match p {
        Some(s) => Some(s.clone()),
        None => None,
    }
}

/// Whether `id` is in `ids`.
pub fn contains_id(ids: &Vec<usize>, id: usize) -> (r: bool)
    ensures
        r == ids@.contains(id),
{
    let mut i: usize = 0;
    while i < ids.len()
        invariant
            0 <= i <= ids@.len(),
            forall|j: int| 0 <= j < i ==> ids@[j] != id,
        decreases ids@.len() - i,
    {
        if ids[i] == id {
            return true;
        }
        i = i + 1;
    }
    false
}

/// A switch per bookmark, in store order, on for the members in `members`.
pub fn group_toggles(bookmarks: &Vec<Bookmark>, members: &Vec<usize>) -> (r: Vec<Toggle>)
    ensures
        r@ == toggles_for(bookmarks@, members@),
{
    let mut r: Vec<Toggle> = Vec::new();
    let mut i: usize = 0;
    while i < bookmarks.len()
        invariant
            0 <= i <= bookmarks@.len(),
            r@ == toggles_for(bookmarks@.take(i as int), members@),
        decreases bookmarks@.len() - i,
    {
        let b = &bookmarks[i];
        r.push(Toggle { bookmark_id: b.id, name: b.name.clone(), on: contains_id(members, b.id) });
        i = i + 1;
        assert(r@ =~= toggles_for(bookmarks@.take(i as int), members@));
    }
    assert(bookmarks@.take(i as int) =~= bookmarks@);
    r
}

/// The icon and tint of group `g`, with `fallback` when it has no icon.
fn group_look_of(g: &Group, fallback: Icon) -> (r: (Icon, bool))
    ensures
        r == group_look(*g, fallback),
{
    match &g.icon_path {
        Some(p) => (Icon::File(p.clone()), g.tint_icon),
        None => (fallback, true),
    }
}

/// The icon and tint of bookmark `b`, with `fallback` when it has no icon.
fn bookmark_look_of(b: &Bookmark, fallback: Icon) -> (r: (Icon, bool))
    ensures
        r == bookmark_look(*b, fallback),
{
    match &b.icon_path {
        Some(p) => (Icon::File(p.clone()), false),
        None => (fallback, true),
    }
}

/// The result for group `g` in `mode`.
pub fn group_result(g: &Group, mode: Mode, bookmarks: &Vec<Bookmark>) -> (r: ResultItem)
    ensures
        r@ == group_item(*g, mode, bookmarks@),
{
    match mode {
        Mode::EditSearch => {
            let (icon, tint) = group_look_of(g, Icon::Pencil);
            ResultItem {
                title: Title::EditGroup(g.name.clone()),
                icon,
                tint,
                action: Action::EditGroupForm {
                    id: g.id,
                    name: g.name.clone(),
                    icon_path: clone_path(&g.icon_path),
                    tint_icon: g.tint_icon,
                    toggles: group_toggles(bookmarks, &g.bookmarks_ids),
                },
            }
        },
        Mode::DeleteSearch => {
            let (icon, tint) = group_look_of(g, Icon::Trash);
            ResultItem {
                title: Title::DeleteGroup(g.name.clone()),
                icon,
                tint,
                action: Action::DeleteGroup { id: g.id },
            }
        },
        _ => {
            let (icon, tint) = group_look_of(g, Icon::Folder);
            ResultItem {
                title: Title::Plain(g.name.clone()),
                icon,
                tint,
                action: Action::OpenGroup { id: g.id },
            }
        },
    }
}

/// The result for bookmark `b` in `mode`.
pub fn bookmark_result(b: &Bookmark, mode: Mode, copy_url: bool) -> (r: ResultItem)
    ensures
        r@ == bookmark_item(*b, mode, copy_url),
{
    match mode {
        Mode::EditSearch => {
            let (icon, tint) = bookmark_look_of(b, Icon::Pencil);
            ResultItem {
                title: Title::EditBookmark(b.name.clone()),
                icon,
                tint,
                action: Action::EditBookmarkForm {
                    id: b.id,
                    name: b.name.clone(),
                    url: b.url.clone(),
                    use_icon: b.icon_path.is_some(),
                },
            }
        },
        Mode::DeleteSearch => {
            let (icon, tint) = bookmark_look_of(b, Icon::Trash);
            ResultItem {
                title: Title::DeleteBookmark(b.name.clone()),
                icon,
                tint,
                action: Action::DeleteBookmark { id: b.id },
            }
        },
        _ => {
            let (icon, tint) = bookmark_look_of(b, Icon::Bookmark);
            let action = if copy_url {
                Action::CopyText { text: b.url.clone() }
            } else {
                Action::OpenLink { url: b.url.clone() }
            };
            ResultItem { title: Title::Plain(b.name.clone()), icon, tint, action }
        },
    }
}

/// The results of a search given which groups and bookmarks matched: the
/// flagged groups (none in a plain search that copies urls), then the flagged
/// bookmarks, each in store order.
pub fn collect_results(
    store: &Settings,
    mode: Mode,
    copy_url: bool,
    group_hits: &Vec<bool>,
    bookmark_hits: &Vec<bool>,
) -> (r: Vec<ResultItem>)
    requires
        group_hits@.len() == store.groups@.len(),
        bookmark_hits@.len() == store.bookmarks@.len(),
    ensures
        views(r@) == search_items(*store, mode, copy_url, group_hits@, bookmark_hits@),
{
    let mut r: Vec<ResultItem> = Vec::new();
    let show_groups = !(mode == Mode::Search && copy_url);
    if show_groups {
        let mut i: usize = 0;
        while i < store.groups.len()
            invariant
                0 <= i <= store.groups@.len(),
                group_hits@.len() == store.groups@.len(),
                views(r@) == group_items(
                    store.groups@.take(i as int),
                    group_hits@.take(i as int),
                    mode,
                    store.bookmarks@,
                ),
            decreases store.groups@.len() - i,
        {
            let ghost before = views(r@);
            proof {
                lemma_selected_step(store.groups@, group_hits@, i as int);
            }
            if group_hits[i] {
                let item = group_result(&store.groups[i], mode, &store.bookmarks);
                r.push(item);
                assert(views(r@) =~= before.push(item@));
            }
            i = i + 1;
            assert(views(r@) =~= group_items(
                store.groups@.take(i as int),
                group_hits@.take(i as int),
                mode,
                store.bookmarks@,
            ));
        }
        assert(store.groups@.take(i as int) =~= store.groups@);
        assert(group_hits@.take(i as int) =~= group_hits@);
    } else {
        assert(views(r@) =~= Seq::<ResultItemView>::empty());
    }
    let ghost head = views(r@);
    let mut j: usize = 0;
    while j < store.bookmarks.len()
        invariant
            0 <= j <= store.bookmarks@.len(),
            bookmark_hits@.len() == store.bookmarks@.len(),
            views(r@) == head + bookmark_items(
                store.bookmarks@.take(j as int),
                bookmark_hits@.take(j as int),
                mode,
                copy_url,
            ),
        decreases store.bookmarks@.len() - j,
    {
        let ghost before = views(r@);
        proof {
            lemma_selected_step(store.bookmarks@, bookmark_hits@, j as int);
        }
        if bookmark_hits[j] {
            let item = bookmark_result(&store.bookmarks[j], mode, copy_url);
            r.push(item);
            assert(views(r@) =~= before.push(item@));
        }
        j = j + 1;
        assert(views(r@) =~= head + bookmark_items(
            store.bookmarks@.take(j as int),
            bookmark_hits@.take(j as int),
            mode,
            copy_url,
        ));
    }
    assert(store.bookmarks@.take(j as int) =~= store.bookmarks@);
    assert(bookmark_hits@.take(j as int) =~= bookmark_hits@);
    r
}

/// The two creation results: "Create Bookmark", and "Create Group" with a
/// switch, off, per stored bookmark.
pub fn show_default_results(store: &Settings) -> (r: Vec<ResultItem>)
    ensures
        views(r@) == default_items(*store),
{
    let no_members: Vec<usize> = Vec::new();
    let mut r: Vec<ResultItem> = Vec::new();
    r.push(
        ResultItem {
            title: Title::CreateBookmark,
            icon: Icon::Plus,
            tint: true,
            action: Action::CreateBookmarkForm,
        },
    );
    r.push(
        ResultItem {
            title: Title::CreateGroup,
            icon: Icon::Plus,
            tint: true,
            action: Action::CreateGroupForm { toggles: group_toggles(&store.bookmarks, &no_members) },
        },
    );
    assert(no_members@ =~= Seq::<usize>::empty());
    assert(views(r@) =~= default_items(*store));
    r
}

/// The results of a plain search for `search`: matching groups open all their
/// bookmarks (left out when urls are copied), matching bookmarks open or copy
/// their url.
pub fn show_results(store: &Settings, search: &str, copy_url: bool) -> (r: Vec<ResultItem>)
    ensures
        views(r@) == search_items(
            *store,
            Mode::Search,
            copy_url,
            store.groups@.map_values(|g: Group| group_matches(g, search@)),
            store.bookmarks@.map_values(|b: Bookmark| bookmark_matches(b, search@)),
        ),
{
    let gh = match_groups(&store.groups, search);
    let bh = match_bookmarks(&store.bookmarks, search);
    collect_results(store, Mode::Search, copy_url, &gh, &bh)
}

/// The edit results for `search`: none for an empty search, else a filled-in
/// edit form per matching group and bookmark.
pub fn show_edit_results(store: &Settings, search: &str) -> (r: Vec<ResultItem>)
    ensures
        search@.len() == 0 ==> r@.len() == 0,
        search@.len() > 0 ==> views(r@) == search_items(
            *store,
            Mode::EditSearch,
            false,
            store.groups@.map_values(|g: Group| group_matches(g, search@)),
            store.bookmarks@.map_values(|b: Bookmark| bookmark_matches(b, search@)),
        ),
{
    if search.is_empty() {
        return Vec::new();
    }
    let gh = match_groups(&store.groups, search);
    let bh = match_bookmarks(&store.bookmarks, search);
    collect_results(store, Mode::EditSearch, false, &gh, &bh)
}

/// The delete results for `search`: none for an empty search, else a
/// destructive delete action per matching group and bookmark.
pub fn show_delete_results(store: &Settings, search: &str) -> (r: Vec<ResultItem>)
    ensures
        search@.len() == 0 ==> r@.len() == 0,
        search@.len() > 0 ==> views(r@) == search_items(
            *store,
            Mode::DeleteSearch,
            false,
            store.groups@.map_values(|g: Group| group_matches(g, search@)),
            store.bookmarks@.map_values(|b: Bookmark| bookmark_matches(b, search@)),
        ),
{
    if search.is_empty() {
        return Vec::new();
    }
    let gh = match_groups(&store.groups, search);
    let bh = match_bookmarks(&store.bookmarks, search);
    collect_results(store, Mode::DeleteSearch, false, &gh, &bh)
}

/// The results for the query `text`.
pub fn on_get_results(store: &Settings, text: &str, copy_url: bool) -> (r: Vec<ResultItem>)
    ensures
        views(r@) == results_for(*store, text@, copy_url),
{
    let q = route(text);
    match q.mode {
        Mode::Default => show_default_results(store),
        Mode::Search => show_results(store, q.remainder.as_str(), copy_url),
        Mode::EditSearch => {
            let r = show_edit_results(store, q.remainder.as_str());
            assert(q.remainder@.len() == 0 ==> views(r@) =~= Seq::<ResultItemView>::empty());
            r
        },
        Mode::DeleteSearch => {
            let r = show_delete_results(store, q.remainder.as_str());
            assert(q.remainder@.len() == 0 ==> views(r@) =~= Seq::<ResultItemView>::empty());
            r
        },
    }
}

} // verus!
