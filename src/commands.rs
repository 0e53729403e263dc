use vstd::prelude::*;
use vstd::string::StrSliceExecFns;

use crate::settings::{keys, lemma_max_id_bounds, next_id, other_key, Bookmark, Group, Keyed, Settings};
use crate::store::{group_without, has_key, position_of_key};

verus! {

/// The value of one field of a submitted form.
#[derive(Clone, Debug, PartialEq, Eq)]
pub struct FormEntry {
    pub field_id: String,
    pub field_value: String,
}

/// A submitted form: its field values, keyed by field identifier.
#[derive(Clone, Debug, PartialEq, Eq)]
pub struct Form {
    pub entries: Vec<FormEntry>,
}

/// The fields that the forms of this extension carry.
#[derive(PartialEq, Eq, Structural, Clone, Copy, Debug)]
pub enum Field {
    Name,
    Url,
    UseIcon,
    IconPath,
    TintIcon,
}

/// Why an action could not be carried out.
#[derive(PartialEq, Eq, Structural, Clone, Copy, Debug)]
pub enum CommandError {
    /// The form lacks this field.
    MissingField(Field),
    /// This required field is empty.
    EmptyField(Field),
    /// The action came without the identifier it works on.
    MissingArgument,
    /// The identifier is not a decimal number that fits a `usize`.
    InvalidId,
    /// No bookmark has this identifier.
    UnknownBookmark(usize),
    /// No group has this identifier.
    UnknownGroup(usize),
    /// Every identifier is taken.
    NoFreeId,
}

/// The actions that results can ask for.
#[derive(PartialEq, Eq, Structural, Clone, Copy, Debug)]
pub enum CommandKind {
    CreateBookmark,
    CreateGroup,
    EditBookmark,
    EditGroup,
    OpenGroup,
    DeleteBookmark,
    DeleteGroup,
}

/// The identifier of a field in a form.
pub open spec fn field_key(f: Field) -> Seq<char> {
    match f {
        Field::Name => seq!['n', 'a', 'm', 'e'],
        Field::Url => seq!['u', 'r', 'l'],
        Field::UseIcon => seq!['u', 's', 'e', '-', 'i', 'c', 'o', 'n'],
        Field::IconPath => seq!['i', 'c', 'o', 'n', '-', 'p', 'a', 't', 'h'],
        Field::TintIcon => seq!['t', 'i', 'n', 't', '-', 'i', 'c', 'o', 'n'],
    }
}

/// The text that a switched-on toggle submits.
pub open spec fn true_text() -> Seq<char> {
    seq!['t', 'r', 'u', 'e']
}

/// The value of the first entry of `entries` with identifier `key`.
pub open spec fn lookup(entries: Seq<FormEntry>, key: Seq<char>) -> Option<String>
    decreases entries.len(),
{
    if entries.len() == 0 {
        None
    } else if entries[0].field_id@ == key {
        Some(entries[0].field_value)
    } else {
        lookup(entries.drop_first(), key)
    }
}

/// The action named `name`, if it is one of this extension's.
pub open spec fn command_spec(name: Seq<char>) -> Option<CommandKind> {
    if name == seq!['c', 'r', 'e', 'a', 't', 'e', '-', 'b', 'o', 'o', 'k', 'm', 'a', 'r', 'k'] {
        Some(CommandKind::CreateBookmark)
    } else if name == seq!['c', 'r', 'e', 'a', 't', 'e', '-', 'g', 'r', 'o', 'u', 'p'] {
        Some(CommandKind::CreateGroup)
    } else if name == seq!['e', 'd', 'i', 't', '-', 'b', 'o', 'o', 'k', 'm', 'a', 'r', 'k'] {
        Some(CommandKind::EditBookmark)
    } else if name == seq!['e', 'd', 'i', 't', '-', 'g', 'r', 'o', 'u', 'p'] {
        Some(CommandKind::EditGroup)
    } else if name == seq!['o', 'p', 'e', 'n', '-', 'g', 'r', 'o', 'u', 'p'] {
        Some(CommandKind::OpenGroup)
    } else if name == seq!['d', 'e', 'l', 'e', 't', 'e', '-', 'b', 'o', 'o', 'k', 'm', 'a', 'r', 'k'] {
        Some(CommandKind::DeleteBookmark)
    } else if name == seq!['d', 'e', 'l', 'e', 't', 'e', '-', 'g', 'r', 'o', 'u', 'p'] {
        Some(CommandKind::DeleteGroup)
    } else {
        None
    }
}

/// Whether `c` is a decimal digit.
pub open spec fn is_digit(c: char) -> bool {
    '0' <= c && c <= '9'
}

/// The value of a run of decimal digits.
pub open spec fn digits_value(s: Seq<char>) -> nat
    decreases s.len(),
{
    if s.len() == 0 {
        0
    } else {
        digits_value(s.drop_last()) * 10 + (s.last() as nat - '0' as nat) as nat
    }
}

/// The digits of a number as `usize::from_str` reads it: an optional `+`
/// sign, then at least one digit.
pub open spec fn number_digits(s: Seq<char>) -> Option<Seq<char>> {
    let d = unsigned(s);
    if d.len() > 0 && all_digits(d) {
        Some(d)
    } else {
        None
    }
}

/// `s` without a leading `+`.
pub open spec fn unsigned(s: Seq<char>) -> Seq<char> {
    if s.len() > 0 && s[0] == '+' {
        s.drop_first()
    } else {
        s
    }
}

/// Every character of `s` is a decimal digit.
pub open spec fn all_digits(s: Seq<char>) -> bool {
    forall|i: int| 0 <= i < s.len() ==> is_digit(#[trigger] s[i])
}

/// The identifier that `s` spells, if it spells one that fits a `usize`.
pub open spec fn id_spec(s: Seq<char>) -> Option<usize> {
    match number_digits(s) {
        Some(d) => if digits_value(d) <= usize::MAX {
            Some(digits_value(d) as usize)
        } else {
            None
        },
        None => None,
    }
}

proof fn lemma_digits_prefix(s: Seq<char>, j: int)
    requires
        0 <= j <= s.len(),
        forall|i: int| 0 <= i < s.len() ==> is_digit(#[trigger] s[i]),
    ensures
        digits_value(s.take(j)) <= digits_value(s),
    decreases s.len() - j,
{
    if j < s.len() {
        let d = s.drop_last();
        assert forall|i: int| 0 <= i < d.len() implies is_digit(#[trigger] d[i]) by {
            assert(d[i] == s[i]);
        }
        assert(d.take(j) =~= s.take(j));
        lemma_digits_prefix(d, j);
    } else {
        assert(s.take(j) =~= s);
    }
}

/// Whether two texts are equal.
pub fn same_text(a: &str, b: &str) -> (r: bool)
    ensures
        r == (a@ == b@),
{
    let n = a.unicode_len();
    if n != b.unicode_len() {
        return false;
    }
    let mut i: usize = 0;
    while i < n
        invariant
            n == a@.len(),
            n == b@.len(),
            0 <= i <= n,
            forall|j: int| 0 <= j < i ==> a@[j] == b@[j],
        decreases n - i,
    {
        if a.get_char(i) != b.get_char(i) {
            return false;
        }
        i = i + 1;
    }
    assert(a@ =~= b@);
    true
}

/// The identifier that `s` spells: an optional `+`, then decimal digits, with
/// a value that fits a `usize`.
pub fn parse_id(s: &str) -> (r: Option<usize>)
    ensures
        r == id_spec(s@),
{
    let n = s.unicode_len();
    let start: usize = if n > 0 && s.get_char(0) == '+' {
        1
    } else {
        0
    };
    let ghost d = unsigned(s@);
    assert(d =~= s@.subrange(start as int, n as int));
    if start == n {
        return None;
    }
    let mut v: usize = 0;
    let mut i: usize = start;
    while i < n
        invariant
            n == s@.len(),
            start <= i <= n,
            d == unsigned(s@),
            d =~= s@.subrange(start as int, n as int),
            forall|j: int| 0 <= j < i - start ==> is_digit(#[trigger] d[j]),
            v as nat == digits_value(d.take(i - start)),
        decreases n - i,
    {
        let c = s.get_char(i);
        assert(d[i - start] == c);
        if !('0' <= c && c <= '9') {
            assert(!all_digits(d));
            return None;
        }
        let k = i - start;
        assert(d.take(k + 1).drop_last() =~= d.take(k as int));
        let digit = (c as u32 - '0' as u32) as usize;
        assert(d.take(k + 1).last() == c);
        assert(digits_value(d.take(k + 1)) == v * 10 + digit);
        if v > (usize::MAX - digit) / 10 {
            proof {
                assert(v * 10 + digit > usize::MAX) by (nonlinear_arith)
                    requires
                        v > (usize::MAX - digit) / 10,
                        digit <= 9,
                ;
                if all_digits(d) {
                    lemma_digits_prefix(d, k + 1);
                }
            }
            return None;
        }
        assert(v * 10 + digit <= usize::MAX) by (nonlinear_arith)
            requires
                v <= (usize::MAX - digit) / 10,
                digit <= 9,
        ;
        v = v * 10 + digit;
        i = i + 1;
    }
    assert(d.take(n - start) =~= d);
    Some(v)
}

/// The identifier that the first argument of an action spells.
pub open spec fn arg_id_spec(args: Seq<String>) -> Result<usize, CommandError> {
    if args.len() == 0 {
        Err(CommandError::MissingArgument)
    } else {
        match id_spec(args[0]@) {
            Some(id) => Ok(id),
            None => Err(CommandError::InvalidId),
        }
    }
}

/// The identifier that the first argument of an action spells.
pub fn arg_id(args: &Vec<String>) -> (r: Result<usize, CommandError>)
    ensures
        r == arg_id_spec(args@),
{
    if args.len() == 0 {
        return Err(CommandError::MissingArgument);
    }
    match parse_id(args[0].as_str()) {
        Some(id) => Ok(id),
        None => Err(CommandError::InvalidId),
    }
}

/// The action named `name`; `None` for a name this extension does not know.
pub fn command_of(name: &str) -> (r: Option<CommandKind>)
    ensures
        r == command_spec(name@),
{
    proof {
        reveal_strlit("create-bookmark");
        reveal_strlit("create-group");
        reveal_strlit("edit-bookmark");
        reveal_strlit("edit-group");
        reveal_strlit("open-group");
        reveal_strlit("delete-bookmark");
        reveal_strlit("delete-group");
        assert("create-bookmark"@ =~= seq!['c', 'r', 'e', 'a', 't', 'e', '-', 'b', 'o', 'o', 'k', 'm', 'a', 'r', 'k']);
        assert("create-group"@ =~= seq!['c', 'r', 'e', 'a', 't', 'e', '-', 'g', 'r', 'o', 'u', 'p']);
        assert("edit-bookmark"@ =~= seq!['e', 'd', 'i', 't', '-', 'b', 'o', 'o', 'k', 'm', 'a', 'r', 'k']);
        assert("edit-group"@ =~= seq!['e', 'd', 'i', 't', '-', 'g', 'r', 'o', 'u', 'p']);
        assert("open-group"@ =~= seq!['o', 'p', 'e', 'n', '-', 'g', 'r', 'o', 'u', 'p']);
        assert("delete-bookmark"@ =~= seq!['d', 'e', 'l', 'e', 't', 'e', '-', 'b', 'o', 'o', 'k', 'm', 'a', 'r', 'k']);
        assert("delete-group"@ =~= seq!['d', 'e', 'l', 'e', 't', 'e', '-', 'g', 'r', 'o', 'u', 'p']);
    }
    if same_text(name, "create-bookmark") {
        Some(CommandKind::CreateBookmark)
    } else if same_text(name, "create-group") {
        Some(CommandKind::CreateGroup)
    } else if same_text(name, "edit-bookmark") {
        Some(CommandKind::EditBookmark)
    } else if same_text(name, "edit-group") {
        Some(CommandKind::EditGroup)
    } else if same_text(name, "open-group") {
        Some(CommandKind::OpenGroup)
    } else if same_text(name, "delete-bookmark") {
        Some(CommandKind::DeleteBookmark)
    } else if same_text(name, "delete-group") {
        Some(CommandKind::DeleteGroup)
    } else {
        None
    }
}

impl Form {
    /// The value of the first entry with identifier `key`.
    pub fn get_result(&self, key: &str) -> (r: Option<String>)
        ensures
            r == lookup(self.entries@, key@),
    {
        let n = self.entries.len();
        let mut i: usize = 0;
        assert(self.entries@.subrange(0, n as int) =~= self.entries@);
        while i < n
            invariant
                n == self.entries@.len(),
                0 <= i <= n,
                lookup(self.entries@, key@) == lookup(self.entries@.subrange(i as int, n as int), key@),
            decreases n - i,
        {
            let ghost rest = self.entries@.subrange(i as int, n as int);
            assert(rest.drop_first() =~= self.entries@.subrange(i + 1, n as int));
            assert(rest[0] == self.entries@[i as int]);
            if same_text(self.entries[i].field_id.as_str(), key) {
                return Some(self.entries[i].field_value.clone());
            }
            i = i + 1;
        }
        None
    }

    /// The value of field `f`, or the error that says it is missing.
    pub fn field_value(&self, f: Field) -> (r: Result<String, CommandError>)
        ensures
            r == match lookup(self.entries@, field_key(f)) {
                Some(v) => Ok::<String, CommandError>(v),
                None => Err(CommandError::MissingField(f)),
            },
    {
        proof {
            reveal_strlit("name");
            reveal_strlit("url");
            reveal_strlit("use-icon");
            reveal_strlit("icon-path");
            reveal_strlit("tint-icon");
            assert("name"@ =~= field_key(Field::Name));
            assert("url"@ =~= field_key(Field::Url));
            assert("use-icon"@ =~= field_key(Field::UseIcon));
            assert("icon-path"@ =~= field_key(Field::IconPath));
            assert("tint-icon"@ =~= field_key(Field::TintIcon));
        }
        let v = match f {
            Field::Name => self.get_result("name"),
            Field::Url => self.get_result("url"),
            Field::UseIcon => self.get_result("use-icon"),
            Field::IconPath => self.get_result("icon-path"),
            Field::TintIcon => self.get_result("tint-icon"),
        };
        match v {
            Some(v) => Ok(v),
            None => Err(CommandError::MissingField(f)),
        }
    }
}

/// Whether a submitted value is the text of a switched-on toggle.
pub fn is_on(v: &str) -> (r: bool)
    ensures
        r == (v@ == true_text()),
{
    proof {
        reveal_strlit("true");
        assert("true"@ =~= true_text());
    }
    same_text(v, "true")
}

/// The stored bookmarks that a form switches on: entries whose value is
/// "true" and whose identifier spells a stored bookmark, in form order.
pub open spec fn selected_ids(entries: Seq<FormEntry>, store: Settings) -> Seq<usize>
    decreases entries.len(),
{
    if entries.len() == 0 {
        Seq::empty()
    } else {
        let rest = selected_ids(entries.drop_last(), store);
        let e = entries.last();
        match id_spec(e.field_id@) {
            Some(id) => if e.field_value@ == true_text() && store.bookmark_ids().contains(id) {
                rest.push(id)
            } else {
                rest
            },
            None => rest,
        }
    }
}

/// The stored bookmarks that a form switches on, in form order.
pub fn selected_bookmarks(store: &Settings, form: &Form) -> (r: Vec<usize>)
    ensures
        r@ == selected_ids(form.entries@, *store),
        store.all_stored(r@),
{
    let mut r: Vec<usize> = Vec::new();
    let mut i: usize = 0;
    while i < form.entries.len()
        invariant
            0 <= i <= form.entries@.len(),
            r@ == selected_ids(form.entries@.take(i as int), *store),
            store.all_stored(r@),
        decreases form.entries@.len() - i,
    {
        assert(form.entries@.take(i + 1).drop_last() =~= form.entries@.take(i as int));
        let e = &form.entries[i];
        if is_on(e.field_value.as_str()) {
            match parse_id(e.field_id.as_str()) {
                Some(id) => {
                    if has_key(&store.bookmarks, id) {
                        r.push(id);
                        assert forall|k: int| 0 <= k < r@.len() implies store.bookmark_ids().contains(
                            #[trigger] r@[k],
                        ) by {
                            if k < r@.len() - 1 {
                                assert(r@[k] == r@.drop_last()[k]);
                            }
                        }
                    }
                },
                None => {},
            }
        }
        i = i + 1;
    }
    assert(form.entries@.take(i as int) =~= form.entries@);
    r
}

/// A bookmark ready to be stored, and whether its site icon is wanted.
#[derive(Clone, Debug, PartialEq, Eq)]
pub struct BookmarkDraft {
    pub bookmark: Bookmark,
    pub fetch_icon: bool,
}

/// New values for a stored bookmark, and whether its site icon is wanted.
#[derive(Clone, Debug, PartialEq, Eq)]
pub struct BookmarkEdit {
    pub id: usize,
    pub name: String,
    pub url: String,
    pub fetch_icon: bool,
}

/// The value of field `f` of `e`.
pub open spec fn value_of(e: Seq<FormEntry>, f: Field) -> Option<String> {
    lookup(e, field_key(f))
}

/// The outcome of the bookmark creation form `e` on `store`.
pub open spec fn create_bookmark_spec(store: Settings, e: Seq<FormEntry>) -> Result<
    BookmarkDraft,
    CommandError,
> {
    let name = value_of(e, Field::Name);
    let url = value_of(e, Field::Url);
    let use_icon = value_of(e, Field::UseIcon);
    if name is None {
        Err(CommandError::MissingField(Field::Name))
    } else if url is None {
        Err(CommandError::MissingField(Field::Url))
    } else if use_icon is None {
        Err(CommandError::MissingField(Field::UseIcon))
    } else if name->0@.len() == 0 {
        Err(CommandError::EmptyField(Field::Name))
    } else if url->0@.len() == 0 {
        Err(CommandError::EmptyField(Field::Url))
    } else if next_id(store.bookmark_ids()) > usize::MAX {
        Err(CommandError::NoFreeId)
    } else {
        Ok(
            BookmarkDraft {
                bookmark: Bookmark {
                    id: next_id(store.bookmark_ids()) as usize,
                    icon_path: None,
                    name: name->0,
                    url: url->0,
                },
                fetch_icon: use_icon->0@ == true_text(),
            },
        )
    }
}

/// Reads the bookmark creation form: name and url must be there and not
/// empty, the use-icon switch must be there; the new bookmark gets the next
/// free identifier. The caller stores it, with its icon if one was fetched.
pub fn create_bookmark(store: &Settings, form: &Form) -> (r: Result<BookmarkDraft, CommandError>)
    ensures
        r == create_bookmark_spec(*store, form.entries@),
{
    let name = match form.field_value(Field::Name) {
        Ok(v) => v,
        Err(e) => return Err(e),
    };
    let url = match form.field_value(Field::Url) {
        Ok(v) => v,
        Err(e) => return Err(e),
    };
    let use_icon = match form.field_value(Field::UseIcon) {
        Ok(v) => v,
        Err(e) => return Err(e),
    };
    if name.as_str().is_empty() {
        return Err(CommandError::EmptyField(Field::Name));
    }
    if url.as_str().is_empty() {
        return Err(CommandError::EmptyField(Field::Url));
    }
    let fetch_icon = is_on(use_icon.as_str());
    match Bookmark::new(store, name, url) {
        Some(bookmark) => Ok(BookmarkDraft { bookmark, fetch_icon }),
        None => Err(CommandError::NoFreeId),
    }
}

/// The icon that a group form's icon-path value asks for: none when empty.
pub open spec fn icon_choice(v: String) -> Option<String> {
    if v@.len() == 0 {
        None
    } else {
        Some(v)
    }
}

/// Why the group creation form `e` is refused, if it is.
pub open spec fn create_group_error(store: Settings, e: Seq<FormEntry>) -> Option<CommandError> {
    let name = value_of(e, Field::Name);
    if name is None {
        Some(CommandError::MissingField(Field::Name))
    } else if value_of(e, Field::IconPath) is None {
        Some(CommandError::MissingField(Field::IconPath))
    } else if value_of(e, Field::TintIcon) is None {
        Some(CommandError::MissingField(Field::TintIcon))
    } else if name->0@.len() == 0 {
        Some(CommandError::EmptyField(Field::Name))
    } else if next_id(store.group_ids()) > usize::MAX {
        Some(CommandError::NoFreeId)
    } else {
        None
    }
}

/// `g` is the group that the form `e` describes, with identifier `id`.
pub open spec fn group_from_form(g: Group, id: usize, e: Seq<FormEntry>, store: Settings) -> bool {
    &&& g.id == id
    &&& g.name == value_of(e, Field::Name)->0
    &&& g.icon_path == icon_choice(value_of(e, Field::IconPath)->0)
    &&& g.tint_icon == (value_of(e, Field::TintIcon)->0@ == true_text())
    &&& g.bookmarks_ids@ == selected_ids(e, store)
}

proof fn lemma_next_id_fresh(ids: Seq<usize>)
    requires
        next_id(ids) <= usize::MAX,
    ensures
        !ids.contains(next_id(ids) as usize),
{
    lemma_max_id_bounds(ids);
}

/// Reads the group creation form and stores the new group: name, icon-path
/// and tint-icon must be there and the name not empty; an empty icon path
/// means no icon; the members are the switched-on stored bookmarks. Returns
/// the new group's identifier, the next free one.
pub fn create_group(store: &mut Settings, form: &Form) -> (r: Result<usize, CommandError>)
    requires
        old(store).wf(),
    ensures
        final(store).wf(),
        create_group_error(*old(store), form.entries@) is Some ==> r == Err::<usize, CommandError>(
            create_group_error(*old(store), form.entries@)->0,
        ) && *final(store) == *old(store),
        create_group_error(*old(store), form.entries@) is None ==> {
            &&& r == Ok::<usize, CommandError>(next_id(old(store).group_ids()) as usize)
            &&& final(store).groups@.len() == old(store).groups@.len() + 1
            &&& final(store).groups@.drop_last() == old(store).groups@
            &&& group_from_form(
                final(store).groups@.last(),
                next_id(old(store).group_ids()) as usize,
                form.entries@,
                *old(store),
            )
            &&& final(store).bookmarks == old(store).bookmarks
        },
{
    let name = match form.field_value(Field::Name) {
        Ok(v) => v,
        Err(e) => return Err(e),
    };
    let icon_path = match form.field_value(Field::IconPath) {
        Ok(v) => v,
        Err(e) => return Err(e),
    };
    let tint_icon = match form.field_value(Field::TintIcon) {
        Ok(v) => v,
        Err(e) => return Err(e),
    };
    if name.as_str().is_empty() {
        return Err(CommandError::EmptyField(Field::Name));
    }
    let members = selected_bookmarks(store, form);
    let tint = is_on(tint_icon.as_str());
    let group = match Group::new(store, name, members) {
        Some(g) => g,
        None => return Err(CommandError::NoFreeId),
    };
    let group = group.tint_icon(tint);
    let group = if icon_path.as_str().is_empty() {
        group
    } else {
        group.icon_path(icon_path)
    };
    let id = group.id;
    proof {
        lemma_next_id_fresh(store.group_ids());
    }
    let ghost g = group;
    let added = store.insert_group(group);
    assert(added);
    assert(store.groups@.drop_last() =~= old(store).groups@);
    Ok(id)
}

/// The outcome of the bookmark edit form `e` for the bookmark named by `args`.
pub open spec fn edit_bookmark_spec(store: Settings, args: Seq<String>, e: Seq<FormEntry>) -> Result<
    BookmarkEdit,
    CommandError,
> {
    let name = value_of(e, Field::Name);
    let url = value_of(e, Field::Url);
    let use_icon = value_of(e, Field::UseIcon);
    match arg_id_spec(args) {
        Err(err) => Err(err),
        Ok(id) => if name is None {
            Err(CommandError::MissingField(Field::Name))
        } else if url is None {
            Err(CommandError::MissingField(Field::Url))
        } else if use_icon is None {
            Err(CommandError::MissingField(Field::UseIcon))
        } else if name->0@.len() == 0 {
            Err(CommandError::EmptyField(Field::Name))
        } else if url->0@.len() == 0 {
            Err(CommandError::EmptyField(Field::Url))
        } else if !store.bookmark_ids().contains(id) {
            Err(CommandError::UnknownBookmark(id))
        } else {
            Ok(
                BookmarkEdit {
                    id,
                    name: name->0,
                    url: url->0,
                    fetch_icon: use_icon->0@ == true_text(),
                },
            )
        },
    }
}

/// Reads the bookmark edit form for the bookmark whose identifier is the first
/// argument: name and url must be there and not empty, the use-icon switch
/// must be there, the bookmark must exist. The caller stores the new values
/// with `Settings::update_bookmark`, with the icon if one was fetched.
pub fn edit_bookmark(store: &Settings, args: &Vec<String>, form: &Form) -> (r: Result<
    BookmarkEdit,
    CommandError,
>)
    ensures
        r == edit_bookmark_spec(*store, args@, form.entries@),
{
    let id = match arg_id(args) {
        Ok(id) => id,
        Err(e) => return Err(e),
    };
    let name = match form.field_value(Field::Name) {
        Ok(v) => v,
        Err(e) => return Err(e),
    };
    let url = match form.field_value(Field::Url) {
        Ok(v) => v,
        Err(e) => return Err(e),
    };
    let use_icon = match form.field_value(Field::UseIcon) {
        Ok(v) => v,
        Err(e) => return Err(e),
    };
    if name.as_str().is_empty() {
        return Err(CommandError::EmptyField(Field::Name));
    }
    if url.as_str().is_empty() {
        return Err(CommandError::EmptyField(Field::Url));
    }
    if !has_key(&store.bookmarks, id) {
        return Err(CommandError::UnknownBookmark(id));
    }
    let fetch_icon = is_on(use_icon.as_str());
    Ok(BookmarkEdit { id, name, url, fetch_icon })
}

/// Why the group edit form `e` for the group named by `args` is refused, if
/// it is.
pub open spec fn edit_group_error(store: Settings, args: Seq<String>, e: Seq<FormEntry>) -> Option<
    CommandError,
> {
    let name = value_of(e, Field::Name);
    match arg_id_spec(args) {
        Err(err) => Some(err),
        Ok(id) => if name is None {
            Some(CommandError::MissingField(Field::Name))
        } else if value_of(e, Field::IconPath) is None {
            Some(CommandError::MissingField(Field::IconPath))
        } else if value_of(e, Field::TintIcon) is None {
            Some(CommandError::MissingField(Field::TintIcon))
        } else if name->0@.len() == 0 {
            Some(CommandError::EmptyField(Field::Name))
        } else if !store.group_ids().contains(id) {
            Some(CommandError::UnknownGroup(id))
        } else {
            None
        },
    }
}

/// Reads the group edit form for the group whose identifier is the first
/// argument and stores the new name, icon, tint and members (the
/// switched-on stored bookmarks).
pub fn edit_group(store: &mut Settings, args: &Vec<String>, form: &Form) -> (r: Result<
    (),
    CommandError,
>)
    requires
        old(store).wf(),
    ensures
        final(store).wf(),
        final(store).bookmarks == old(store).bookmarks,
        edit_group_error(*old(store), args@, form.entries@) is Some ==> r == Err::<(), CommandError>(
            edit_group_error(*old(store), args@, form.entries@)->0,
        ) && *final(store) == *old(store),
        edit_group_error(*old(store), args@, form.entries@) is None ==> {
            &&& r is Ok
            &&& final(store).groups@.len() == old(store).groups@.len()
            &&& forall|i: int|
                0 <= i < old(store).groups@.len() ==> if old(store).groups@[i].id == arg_id_spec(
                    args@,
                )->Ok_0 {
                    group_from_form(
                        #[trigger] final(store).groups@[i],
                        old(store).groups@[i].id,
                        form.entries@,
                        *old(store),
                    )
                } else {
                    final(store).groups@[i] == old(store).groups@[i]
                }
        },
{
    let id = match arg_id(args) {
        Ok(id) => id,
        Err(e) => return Err(e),
    };
    let name = match form.field_value(Field::Name) {
        Ok(v) => v,
        Err(e) => return Err(e),
    };
    let icon_path = match form.field_value(Field::IconPath) {
        Ok(v) => v,
        Err(e) => return Err(e),
    };
    let tint_icon = match form.field_value(Field::TintIcon) {
        Ok(v) => v,
        Err(e) => return Err(e),
    };
    if name.as_str().is_empty() {
        return Err(CommandError::EmptyField(Field::Name));
    }
    if !has_key(&store.groups, id) {
        return Err(CommandError::UnknownGroup(id));
    }
    let members = selected_bookmarks(store, form);
    let tint = is_on(tint_icon.as_str());
    let icon = if icon_path.as_str().is_empty() {
        None
    } else {
        Some(icon_path)
    };
    let ghost ng = Group { id, icon_path: icon, tint_icon: tint, name, bookmarks_ids: members };
    let updated = store.update_group(id, name, members, icon, tint);
    assert(updated);
    assert forall|i: int| 0 <= i < old(store).groups@.len() implies if old(store).groups@[i].id
        == id {
        group_from_form(#[trigger] store.groups@[i], old(store).groups@[i].id, form.entries@, *old(store))
    } else {
        store.groups@[i] == old(store).groups@[i]
    } by {
        if old(store).groups@[i].id == id {
            assert(store.groups@[i] == ng);
        }
    }
    Ok(())
}

/// The first record of `s` with identifier `id`.
pub open spec fn record_with<T: Keyed>(s: Seq<T>, id: usize) -> Option<T>
    decreases s.len(),
{
    if s.len() == 0 {
        None
    } else if s[0].key() == id {
        Some(s[0])
    } else {
        record_with(s.drop_first(), id)
    }
}

/// The urls of the bookmarks named in `members`, in member order; identifiers
/// that name no bookmark are passed over.
pub open spec fn member_urls(bookmarks: Seq<Bookmark>, members: Seq<usize>) -> Seq<String>
    decreases members.len(),
{
    if members.len() == 0 {
        Seq::empty()
    } else {
        let rest = member_urls(bookmarks, members.drop_last());
        match record_with(bookmarks, members.last()) {
            Some(b) => rest.push(b.url),
            None => rest,
        }
    }
}

proof fn lemma_record_with<T: Keyed>(s: Seq<T>, id: usize, p: int)
    requires
        0 <= p <= s.len(),
        forall|j: int| 0 <= j < p ==> s[j].key() != id,
        p < s.len() ==> s[p].key() == id,
    ensures
        record_with(s, id) == if p < s.len() {
            Some(s[p])
        } else {
            None::<T>
        },
    decreases p,
{
    if p > 0 {
        let d = s.drop_first();
        assert forall|j: int| 0 <= j < p - 1 implies d[j].key() != id by {
            assert(d[j] == s[j + 1]);
        }
        lemma_record_with(d, id, p - 1);
    }
}

/// The urls to open for the group whose identifier is the first argument: the
/// url of each member, in member order.
pub fn open_group(store: &Settings, args: &Vec<String>) -> (r: Result<Vec<String>, CommandError>)
    ensures
        match arg_id_spec(args@) {
            Err(e) => r == Err::<Vec<String>, CommandError>(e),
            Ok(id) => match record_with(store.groups@, id) {
                None => r == Err::<Vec<String>, CommandError>(CommandError::UnknownGroup(id)),
                Some(g) => r is Ok && r->Ok_0@ == member_urls(store.bookmarks@, g.bookmarks_ids@),
            },
        },
{
    let id = match arg_id(args) {
        Ok(id) => id,
        Err(e) => return Err(e),
    };
    let p = match position_of_key(&store.groups, id) {
        Some(p) => p,
        None => {
            proof {
                assert forall|j: int| 0 <= j < store.groups@.len() implies store.groups@[j].key()
                    != id by {
                    assert(keys(store.groups@)[j] == store.groups@[j].key());
                }
                lemma_record_with(store.groups@, id, store.groups@.len() as int);
            }
            return Err(CommandError::UnknownGroup(id));
        },
    };
    proof {
        lemma_record_with(store.groups@, id, p as int);
    }
    let members = &store.groups[p].bookmarks_ids;
    let mut urls: Vec<String> = Vec::new();
    let mut i: usize = 0;
    while i < members.len()
        invariant
            0 <= i <= members@.len(),
            urls@ == member_urls(store.bookmarks@, members@.take(i as int)),
        decreases members@.len() - i,
    {
        assert(members@.take(i + 1).drop_last() =~= members@.take(i as int));
        match position_of_key(&store.bookmarks, members[i]) {
            Some(q) => {
                proof {
                    lemma_record_with(store.bookmarks@, members@[i as int], q as int);
                }
                urls.push(store.bookmarks[q].url.clone());
            },
            None => {
                proof {
                    assert forall|j: int| 0 <= j < store.bookmarks@.len() implies store.bookmarks@[j].key()
                        != members@[i as int] by {
                        assert(keys(store.bookmarks@)[j] == store.bookmarks@[j].key());
                    }
                    lemma_record_with(store.bookmarks@, members@[i as int], store.bookmarks@.len() as int);
                }
            },
        }
        i = i + 1;
    }
    assert(members@.take(i as int) =~= members@);
    Ok(urls)
}

/// Deletes the bookmark whose identifier is the first argument, and takes it
/// out of every group.
pub fn delete_bookmark(store: &mut Settings, args: &Vec<String>) -> (r: Result<(), CommandError>)
    ensures
        old(store).wf() ==> final(store).wf(),
        match arg_id_spec(args@) {
            Err(e) => r == Err::<(), CommandError>(e) && *final(store) == *old(store),
            Ok(id) => {
                &&& r is Ok
                &&& final(store).bookmarks@ == old(store).bookmarks@.filter(other_key::<Bookmark>(id))
                &&& final(store).groups@.len() == old(store).groups@.len()
                &&& forall|i: int|
                    0 <= i < old(store).groups@.len() ==> group_without(
                        old(store).groups@[i],
                        #[trigger] final(store).groups@[i],
                        id,
                    )
            },
        },
{
    let id = match arg_id(args) {
        Ok(id) => id,
        Err(e) => return Err(e),
    };
    store.delete_bookmark(id);
    Ok(())
}

/// Deletes the group whose identifier is the first argument; its bookmarks
/// stay.
pub fn delete_group(store: &mut Settings, args: &Vec<String>) -> (r: Result<(), CommandError>)
    ensures
        old(store).wf() ==> final(store).wf(),
        match arg_id_spec(args@) {
            Err(e) => r == Err::<(), CommandError>(e) && *final(store) == *old(store),
            Ok(id) => {
                &&& r is Ok
                &&& final(store).groups@ == old(store).groups@.filter(other_key::<Group>(id))
                &&& final(store).bookmarks == old(store).bookmarks
            },
        },
{
    let id = match arg_id(args) {
        Ok(id) => id,
        Err(e) => return Err(e),
    };
    store.delete_group(id);
    Ok(())
}

} // verus!
