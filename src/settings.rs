use vstd::prelude::*;

verus! {

/// The largest identifier in `ids`, or -1 when there is none.
pub open spec fn max_id(ids: Seq<usize>) -> int
    decreases ids.len(),
{
    if ids.len() == 0 {
        -1
    } else {
        let rest = max_id(ids.drop_last());
        if rest < ids.last() as int {
            ids.last() as int
        } else {
            rest
        }
    }
}

/// The identifier that the next created entity receives: one past the largest
/// identifier in use, or 0 when the collection is empty.
pub open spec fn next_id(ids: Seq<usize>) -> int {
    max_id(ids) + 1
}

/// No identifier occurs twice.
pub open spec fn unique_ids(ids: Seq<usize>) -> bool {
    forall|i: int, j: int| 0 <= i < ids.len() && 0 <= j < ids.len() && i != j ==> ids[i] != ids[j]
}

/// No identifier is smaller than -1 or larger than the maximum, and the
/// maximum of a longer prefix takes the next element into account.
pub proof fn lemma_max_id_bounds(ids: Seq<usize>)
    ensures
        max_id(ids) >= -1,
        max_id(ids) <= usize::MAX,
        forall|j: int| 0 <= j < ids.len() ==> ids[j] as int <= max_id(ids),
    decreases ids.len(),
{
    if ids.len() > 0 {
        lemma_max_id_bounds(ids.drop_last());
        assert forall|j: int| 0 <= j < ids.len() implies ids[j] as int <= max_id(ids) by {
            if j < ids.len() - 1 {
                assert(ids.drop_last()[j] == ids[j]);
            }
        }
    }
}

/// The next identifier of `ids`, or `None` when it would not fit in a `usize`.
pub fn next_free_id(ids: &Vec<usize>) -> (r: Option<usize>)
    ensures
        r is Some <==> next_id(ids@) <= usize::MAX,
        r is Some ==> r->0 == next_id(ids@),
{
    let mut next: usize = 0;
    let mut i: usize = 0;
    while i < ids.len()
        invariant
            0 <= i <= ids@.len(),
            next as int == next_id(ids@.take(i as int)),
        decreases ids@.len() - i,
    {
        assert(ids@.take(i as int + 1).drop_last() =~= ids@.take(i as int));
        if ids[i] == usize::MAX {
            proof {
                lemma_max_id_bounds(ids@);
            }
            return None;
        }
        if ids[i] >= next {
            next = ids[i] + 1;
        }
        i = i + 1;
    }
    assert(ids@.take(i as int) =~= ids@);
    proof {
        lemma_max_id_bounds(ids@);
    }
    Some(next)
}

/// A record that carries an identifier.
pub trait Keyed {
    spec fn key(&self) -> usize;

    fn get_key(&self) -> (r: usize)
        ensures
            r == self.key(),
    ;
}

/// The identifiers of `s`, in order.
pub open spec fn keys<T: Keyed>(s: Seq<T>) -> Seq<usize> {
    s.map_values(|x: T| x.key())
}

/// Keeps every record but the one with identifier `id`.
pub open spec fn other_key<T: Keyed>(id: usize) -> spec_fn(T) -> bool {
    |x: T| x.key() != id
}

/// An element is in `s.push(x)` exactly when it is in `s` or is `x`.
pub proof fn lemma_push_contains(s: Seq<usize>, x: usize)
    ensures
        forall|y: usize| #[trigger] s.push(x).contains(y) <==> (s.contains(y) || y == x),
{
    assert forall|y: usize| #[trigger] s.push(x).contains(y) implies (s.contains(y) || y == x) by {
        let j = choose|j: int| 0 <= j < s.push(x).len() && s.push(x)[j] == y;
        if j < s.len() {
            assert(s[j] == y);
        }
    }
    assert forall|y: usize| s.contains(y) implies #[trigger] s.push(x).contains(y) by {
        let j = choose|j: int| 0 <= j < s.len() && s[j] == y;
        assert(s.push(x)[j] == y);
    }
    assert(s.push(x)[s.len() as int] == x);
}

/// Appending an identifier that is not there keeps identifiers unique.
pub proof fn lemma_push_unique(s: Seq<usize>, x: usize)
    requires
        unique_ids(s),
        !s.contains(x),
    ensures
        unique_ids(s.push(x)),
{
    let t = s.push(x);
    assert forall|i: int, j: int| 0 <= i < t.len() && 0 <= j < t.len() && i != j implies t[i]
        != t[j] by {
        if i < s.len() && j < s.len() {
            assert(t[i] == s[i] && t[j] == s[j]);
        } else if i < s.len() {
            assert(t[i] == s[i]);
        } else if j < s.len() {
            assert(t[j] == s[j]);
        }
    }
}

/// Taking out the records with identifier `id` keeps identifiers unique, and
/// leaves exactly the other identifiers.
pub proof fn lemma_filter_keys<T: Keyed>(s: Seq<T>, id: usize)
    ensures
        unique_ids(keys(s)) ==> unique_ids(keys(s.filter(other_key::<T>(id)))),
        forall|x: usize|
            #[trigger] keys(s.filter(other_key::<T>(id))).contains(x) <==> (keys(s).contains(x)
                && x != id),
    decreases s.len(),
{
    reveal(Seq::filter);
    if s.len() == 0 {
        assert(keys(s.filter(other_key::<T>(id))) =~= Seq::<usize>::empty());
    } else {
        let d = s.drop_last();
        let l = s.last().key();
        lemma_filter_keys(d, id);
        assert(keys(s) =~= keys(d).push(l));
        lemma_push_contains(keys(d), l);
        let f = s.filter(other_key::<T>(id));
        let fd = d.filter(other_key::<T>(id));
        if l != id {
            assert(f == fd.push(s.last()));
            assert(keys(f) =~= keys(fd).push(l));
            lemma_push_contains(keys(fd), l);
        } else {
            assert(f == fd);
        }
        if unique_ids(keys(s)) {
            assert(unique_ids(keys(d))) by {
                assert forall|i: int, j: int|
                    0 <= i < keys(d).len() && 0 <= j < keys(d).len() && i != j implies keys(d)[i]
                    != keys(d)[j] by {
                    assert(keys(d)[i] == keys(s)[i] && keys(d)[j] == keys(s)[j]);
                }
            }
            assert(!keys(d).contains(l)) by {
                if keys(d).contains(l) {
                    let j = choose|j: int| 0 <= j < keys(d).len() && keys(d)[j] == l;
                    assert(keys(s)[j] == l && keys(s)[keys(d).len() as int] == l);
                }
            }
            if l != id {
                lemma_push_unique(keys(fd), l);
            }
        }
    }
}

/// A stored bookmark.
#[derive(Clone, Debug, PartialEq, Eq)]
pub struct Bookmark {
    pub id: usize,
    pub icon_path: Option<String>,
    pub name: String,
    pub url: String,
}

/// A stored group: a named, ordered list of bookmark identifiers.
#[derive(Clone, Debug, PartialEq, Eq)]
pub struct Group {
    pub id: usize,
    pub icon_path: Option<String>,
    pub tint_icon: bool,
    pub name: String,
    pub bookmarks_ids: Vec<usize>,
}

impl Bookmark {
    /// A new bookmark with the next free identifier of `store` and no icon;
    /// `None` when no identifier is left.
    pub fn new(store: &Settings, name: String, url: String) -> (r: Option<Bookmark>)
        ensures
            r is Some <==> next_id(store.bookmark_ids()) <= usize::MAX,
            r is Some ==> r->0 == (Bookmark {
                id: next_id(store.bookmark_ids()) as usize,
                icon_path: None,
                name,
                url,
            }),
    {
        match store.next_bookmark_id() {
            Some(id) => Some(Bookmark { id, icon_path: None, name, url }),
            None => None,
        }
    }

    /// The same bookmark with a custom icon.
    pub fn icon_path(self, icon_path: String) -> (r: Bookmark)
        ensures
            r == (Bookmark { icon_path: Some(icon_path), ..self }),
    {
        Bookmark { icon_path: Some(icon_path), ..self }
    }
}

impl Group {
    /// A new group with the next free identifier of `store`, no icon and no
    /// tint; `None` when no identifier is left.
    pub fn new(store: &Settings, name: String, bookmarks_ids: Vec<usize>) -> (r: Option<Group>)
        ensures
            r is Some <==> next_id(store.group_ids()) <= usize::MAX,
            r is Some ==> r->0 == (Group {
                id: next_id(store.group_ids()) as usize,
                icon_path: None,
                tint_icon: false,
                name,
                bookmarks_ids,
            }),
    {
        match store.next_group_id() {
            Some(id) => Some(Group { id, icon_path: None, tint_icon: false, name, bookmarks_ids }),
            None => None,
        }
    }

    /// The same group with a custom icon.
    pub fn icon_path(self, icon_path: String) -> (r: Group)
        ensures
            r == (Group { icon_path: Some(icon_path), ..self }),
    {
        Group { icon_path: Some(icon_path), ..self }
    }

    /// The same group, with its custom icon tinted or not.
    pub fn tint_icon(self, tint_icon: bool) -> (r: Group)
        ensures
            r == (Group { tint_icon, ..self }),
    {
        Group { tint_icon, ..self }
    }
}

impl Keyed for Bookmark {
    open spec fn key(&self) -> usize {
        self.id
    }

    fn get_key(&self) -> (r: usize) {
        self.id
    }
}

impl Keyed for Group {
    open spec fn key(&self) -> usize {
        self.id
    }

    fn get_key(&self) -> (r: usize) {
        self.id
    }
}

/// A copy of `b`.
pub fn copy_bookmark(b: &Bookmark) -> (r: Bookmark)
    ensures
        r == *b,
{
    let icon_path = match &b.icon_path {
        Some(p) => Some(p.clone()),
        None => None,
    };
    Bookmark { id: b.id, icon_path, name: b.name.clone(), url: b.url.clone() }
}

impl Group {
    /// The stored bookmarks that belong to this group, in store order.
    pub fn get_bookmarks(&self, store: &Settings) -> (r: Vec<Bookmark>)
        ensures
            r@ == store.bookmarks@.filter(|b: Bookmark| self.bookmarks_ids@.contains(b.id)),
    {
        let mut r: Vec<Bookmark> = Vec::new();
        let mut i: usize = 0;
        while i < store.bookmarks.len()
            invariant
                0 <= i <= store.bookmarks@.len(),
                r@ == store.bookmarks@.take(i as int).filter(
                    |b: Bookmark| self.bookmarks_ids@.contains(b.id),
                ),
            decreases store.bookmarks@.len() - i,
        {
            proof {
                reveal(Seq::filter);
                assert(store.bookmarks@.take(i + 1).drop_last() =~= store.bookmarks@.take(i as int));
            }
            let b = &store.bookmarks[i];
            let mut member = false;
            let mut k: usize = 0;
            while k < self.bookmarks_ids.len()
                invariant
                    0 <= k <= self.bookmarks_ids@.len(),
                    member == self.bookmarks_ids@.take(k as int).contains(b.id),
                decreases self.bookmarks_ids@.len() - k,
            {
                proof {
                    crate::settings::lemma_push_contains(self.bookmarks_ids@.take(k as int), self.bookmarks_ids@[k as int]);
                    assert(self.bookmarks_ids@.take(k + 1) =~= self.bookmarks_ids@.take(k as int).push(self.bookmarks_ids@[k as int]));
                }
                if self.bookmarks_ids[k] == b.id {
                    member = true;
                }
                k = k + 1;
            }
            assert(self.bookmarks_ids@.take(k as int) =~= self.bookmarks_ids@);
            if member {
                r.push(copy_bookmark(b));
            }
            i = i + 1;
        }
        assert(store.bookmarks@.take(i as int) =~= store.bookmarks@);
        r
    }
}

/// The whole persisted store.
#[derive(Clone, Debug, PartialEq, Eq)]
pub struct Settings {
    pub groups: Vec<Group>,
    pub bookmarks: Vec<Bookmark>,
}

impl Settings {
    pub open spec fn bookmark_ids(&self) -> Seq<usize> {
        keys(self.bookmarks@)
    }

    pub open spec fn group_ids(&self) -> Seq<usize> {
        keys(self.groups@)
    }

    /// Identifiers are unique in each collection, and every group member names
    /// a stored bookmark.
    pub open spec fn wf(&self) -> bool {
        &&& unique_ids(self.bookmark_ids())
        &&& unique_ids(self.group_ids())
        &&& forall|i: int, k: int|
            0 <= i < self.groups@.len() && 0 <= k < self.groups@[i].bookmarks_ids@.len()
                ==> self.bookmark_ids().contains(#[trigger] self.groups@[i].bookmarks_ids@[k])
    }

    /// The identifiers of the bookmarks, in store order.
    pub fn bookmark_id_list(&self) -> (r: Vec<usize>)
        ensures
            r@ == self.bookmark_ids(),
    {
        let mut r: Vec<usize> = Vec::new();
        let mut i: usize = 0;
        while i < self.bookmarks.len()
            invariant
                0 <= i <= self.bookmarks@.len(),
                r@ == self.bookmark_ids().take(i as int),
            decreases self.bookmarks@.len() - i,
        {
            r.push(self.bookmarks[i].id);
            i = i + 1;
            assert(r@ =~= self.bookmark_ids().take(i as int));
        }
        assert(r@ =~= self.bookmark_ids());
        r
    }

    /// The identifiers of the groups, in store order.
    pub fn group_id_list(&self) -> (r: Vec<usize>)
        ensures
            r@ == self.group_ids(),
    {
        let mut r: Vec<usize> = Vec::new();
        let mut i: usize = 0;
        while i < self.groups.len()
            invariant
                0 <= i <= self.groups@.len(),
                r@ == self.group_ids().take(i as int),
            decreases self.groups@.len() - i,
        {
            r.push(self.groups[i].id);
            i = i + 1;
            assert(r@ =~= self.group_ids().take(i as int));
        }
        assert(r@ =~= self.group_ids());
        r
    }

    /// The identifier that a new bookmark receives, or `None` when the largest
    /// one in use is `usize::MAX`.
    pub fn next_bookmark_id(&self) -> (r: Option<usize>)
        ensures
            r is Some <==> next_id(self.bookmark_ids()) <= usize::MAX,
            r is Some ==> r->0 == next_id(self.bookmark_ids()),
    {
        next_free_id(&self.bookmark_id_list())
    }

    /// The identifier that a new group receives, or `None` when the largest
    /// one in use is `usize::MAX`.
    pub fn next_group_id(&self) -> (r: Option<usize>)
        ensures
            r is Some <==> next_id(self.group_ids()) <= usize::MAX,
            r is Some ==> r->0 == next_id(self.group_ids()),
    {
        next_free_id(&self.group_id_list())
    }

    /// An empty store: no bookmarks and no groups.
    pub fn new() -> (r: Settings)
        ensures
            r.groups@.len() == 0,
            r.bookmarks@.len() == 0,
            r.wf(),
    {
        Settings { groups: Vec::new(), bookmarks: Vec::new() }
    }
}

} // verus!
