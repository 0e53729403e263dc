use vstd::prelude::*;

use crate::settings::{
    keys, lemma_filter_keys, lemma_push_contains, lemma_push_unique, other_key, unique_ids, Bookmark,
    Group, Keyed, Settings,
};

verus! {

broadcast use vstd::seq_lib::group_filter_ensures, Seq::lemma_filter_contains_rev;

/// Keeps every identifier but `id`.
pub open spec fn other_id(id: usize) -> spec_fn(usize) -> bool {
    |x: usize| x != id
}

/// `g` is `h` with `id` taken out of its members.
pub open spec fn group_without(h: Group, g: Group, id: usize) -> bool {
    &&& g.id == h.id
    &&& g.name == h.name
    &&& g.icon_path == h.icon_path
    &&& g.tint_icon == h.tint_icon
    &&& g.bookmarks_ids@ == h.bookmarks_ids@.filter(other_id(id))
}

/// The members of `ids` other than `id`, in order.
pub fn without_id(ids: &Vec<usize>, id: usize) -> (r: Vec<usize>)
    ensures
        r@ == ids@.filter(other_id(id)),
{
    let mut r: Vec<usize> = Vec::new();
    let mut i: usize = 0;
    while i < ids.len()
        invariant
            0 <= i <= ids@.len(),
            r@ == ids@.take(i as int).filter(other_id(id)),
        decreases ids@.len() - i,
    {
        proof {
            reveal(Seq::filter);
            assert(ids@.take(i as int + 1).drop_last() =~= ids@.take(i as int));
        }
        if ids[i] != id {
            r.push(ids[i]);
        }
        i = i + 1;
    }
    assert(ids@.take(i as int) =~= ids@);
    r
}

/// `s` with every record whose identifier is that of `x` replaced by `x`.
pub open spec fn replace_key<T: Keyed>(s: Seq<T>, x: T) -> Seq<T> {
    s.map_values(|y: T| if y.key() == x.key() { x } else { y })
}

/// Whether a record of `v` has identifier `id`.
pub fn has_key<T: Keyed>(v: &Vec<T>, id: usize) -> (r: bool)
    ensures
        r == keys(v@).contains(id),
{
    let mut i: usize = 0;
    while i < v.len()
        invariant
            0 <= i <= v@.len(),
            forall|j: int| 0 <= j < i ==> v@[j].key() != id,
        decreases v@.len() - i,
    {
        if v[i].get_key() == id {
            assert(keys(v@)[i as int] == id);
            return true;
        }
        i = i + 1;
    }
    assert forall|j: int| 0 <= j < keys(v@).len() implies keys(v@)[j] != id by {
        assert(keys(v@)[j] == v@[j].key());
    }
    false
}

/// The position of the record with identifier `id`, if there is one.
pub fn position_of_key<T: Keyed>(v: &Vec<T>, id: usize) -> (r: Option<usize>)
    ensures
        r is Some <==> keys(v@).contains(id),
        r is Some ==> r->0 < v@.len() && v@[r->0 as int].key() == id,
        r is Some ==> forall|j: int| 0 <= j < r->0 ==> v@[j].key() != id,
{
    let mut i: usize = 0;
    while i < v.len()
        invariant
            0 <= i <= v@.len(),
            forall|j: int| 0 <= j < i ==> v@[j].key() != id,
        decreases v@.len() - i,
    {
        if v[i].get_key() == id {
            assert(keys(v@)[i as int] == id);
            return Some(i);
        }
        i = i + 1;
    }
    assert forall|j: int| 0 <= j < keys(v@).len() implies keys(v@)[j] != id by {
        assert(keys(v@)[j] == v@[j].key());
    }
    None
}

/// Takes out every record with identifier `id`, keeping the order of the rest.
pub fn remove_key<T: Keyed>(v: &mut Vec<T>, id: usize)
    ensures
        final(v)@ == old(v)@.filter(other_key::<T>(id)),
{
    let mut rest: Vec<T> = Vec::new();
    std::mem::swap(&mut rest, v);
    let ghost all = rest@;
    let ghost n = all.len();
    while rest.len() > 0
        invariant
            all.len() == n,
            rest@.len() <= n,
            all == old(v)@,
            rest@ == all.subrange(n - rest@.len(), n as int),
            v@ == all.take(n - rest@.len()).filter(other_key::<T>(id)),
        decreases rest@.len(),
    {
        let ghost k = n - rest@.len();
        proof {
            reveal(Seq::filter);
            assert(all.take(k + 1).drop_last() =~= all.take(k));
        }
        let x = rest.remove(0);
        assert(rest@ =~= all.subrange(n - rest@.len(), n as int));
        if x.get_key() != id {
            v.push(x);
        }
    }
    assert(all.take(n as int) =~= all);
}

/// Puts `x` in place of the record with its identifier, where identifiers are
/// unique; whether there was one.
pub fn replace_by_key<T: Keyed>(v: &mut Vec<T>, x: T) -> (r: bool)
    requires
        unique_ids(keys(old(v)@)),
    ensures
        r == keys(old(v)@).contains(x.key()),
        r ==> final(v)@ == replace_key(old(v)@, x),
        !r ==> final(v)@ == old(v)@,
{
    let id = x.get_key();
    match position_of_key(v, id) {
        Some(p) => {
            let _ = v.remove(p);
            v.insert(p, x);
            proof {
                let o = old(v)@;
                assert forall|j: int| 0 <= j < o.len() && j != p implies o[j].key() != id by {
                    assert(keys(o)[j] == o[j].key() && keys(o)[p as int] == o[p as int].key());
                }
                assert(v@ =~= replace_key(o, x));
            }
            true
        },
        None => false,
    }
}

/// Whether no identifier occurs twice in `ids`.
pub fn all_distinct(ids: &Vec<usize>) -> (r: bool)
    ensures
        r == unique_ids(ids@),
{
    let mut i: usize = 0;
    while i < ids.len()
        invariant
            0 <= i <= ids@.len(),
            forall|a: int, b: int| 0 <= a < i && 0 <= b < ids@.len() && a != b ==> ids@[a] != ids@[b],
        decreases ids@.len() - i,
    {
        let mut j: usize = 0;
        while j < ids.len()
            invariant
                0 <= i < ids@.len(),
                0 <= j <= ids@.len(),
                forall|a: int, b: int|
                    0 <= a < i && 0 <= b < ids@.len() && a != b ==> ids@[a] != ids@[b],
                forall|b: int| 0 <= b < j && b != i ==> ids@[i as int] != ids@[b],
            decreases ids@.len() - j,
        {
            if j != i && ids[i] == ids[j] {
                return false;
            }
            j = j + 1;
        }
        i = i + 1;
    }
    true
}

/// Replacing a record by one with the same identifier keeps the identifiers.
pub proof fn lemma_replace_keys<T: Keyed>(s: Seq<T>, x: T)
    ensures
        keys(replace_key(s, x)) == keys(s),
{
    assert(keys(replace_key(s, x)) =~= keys(s));
}

impl Settings {
    /// Every identifier of `ids` names a stored bookmark.
    pub open spec fn all_stored(&self, ids: Seq<usize>) -> bool {
        forall|k: int| 0 <= k < ids.len() ==> self.bookmark_ids().contains(#[trigger] ids[k])
    }

    /// Whether every identifier of `ids` names a stored bookmark.
    pub fn are_stored(&self, ids: &Vec<usize>) -> (r: bool)
        ensures
            r == self.all_stored(ids@),
    {
        let mut i: usize = 0;
        while i < ids.len()
            invariant
                0 <= i <= ids@.len(),
                forall|k: int| 0 <= k < i ==> self.bookmark_ids().contains(#[trigger] ids@[k]),
            decreases ids@.len() - i,
        {
            if !has_key(&self.bookmarks, ids[i]) {
                return false;
            }
            i = i + 1;
        }
        true
    }

    /// Whether the store holds its invariant.
    pub fn is_valid(&self) -> (r: bool)
        ensures
            r == self.wf(),
    {
        let bids = self.bookmark_id_list();
        let gids = self.group_id_list();
        if !all_distinct(&bids) || !all_distinct(&gids) {
            return false;
        }
        let mut i: usize = 0;
        while i < self.groups.len()
            invariant
                0 <= i <= self.groups@.len(),
                forall|j: int| 0 <= j < i ==> self.all_stored(#[trigger] self.groups@[j].bookmarks_ids@),
            decreases self.groups@.len() - i,
        {
            if !self.are_stored(&self.groups[i].bookmarks_ids) {
                return false;
            }
            i = i + 1;
        }
        assert forall|j: int, k: int|
            0 <= j < self.groups@.len() && 0 <= k < self.groups@[j].bookmarks_ids@.len()
                implies self.bookmark_ids().contains(#[trigger] self.groups@[j].bookmarks_ids@[k]) by {
            assert(self.all_stored(self.groups@[j].bookmarks_ids@));
        }
        true
    }

    /// Takes out of every group the members that name no stored bookmark,
    /// as a store written without cascading deletes may hold.
    pub fn drop_dangling_members(&mut self)
        ensures
            final(self).bookmarks == old(self).bookmarks,
            final(self).groups@.len() == old(self).groups@.len(),
            forall|i: int|
                0 <= i < old(self).groups@.len() ==> {
                    let (g, h) = (#[trigger] final(self).groups@[i], old(self).groups@[i]);
                    &&& g.id == h.id
                    &&& g.name == h.name
                    &&& g.icon_path == h.icon_path
                    &&& g.tint_icon == h.tint_icon
                    &&& g.bookmarks_ids@ == h.bookmarks_ids@.filter(
                        |x: usize| old(self).bookmark_ids().contains(x),
                    )
                },
            unique_ids(old(self).bookmark_ids()) && unique_ids(old(self).group_ids())
                ==> final(self).wf(),
    {
        let ghost stored = |x: usize| self.bookmark_ids().contains(x);
        let mut groups: Vec<Group> = Vec::new();
        std::mem::swap(&mut groups, &mut self.groups);
        let ghost gall = groups@;
        let ghost m = gall.len();
        while groups.len() > 0
            invariant
                gall.len() == m,
                groups@.len() <= m,
                gall == old(self).groups@,
                self.bookmarks == old(self).bookmarks,
                stored == (|x: usize| old(self).bookmark_ids().contains(x)),
                groups@ == gall.subrange(m - groups@.len(), m as int),
                self.groups@.len() == m - groups@.len(),
                forall|i: int|
                    0 <= i < self.groups@.len() ==> {
                        let (g, h) = (#[trigger] self.groups@[i], gall[i]);
                        &&& g.id == h.id
                        &&& g.name == h.name
                        &&& g.icon_path == h.icon_path
                        &&& g.tint_icon == h.tint_icon
                        &&& g.bookmarks_ids@ == h.bookmarks_ids@.filter(stored)
                    },
            decreases groups@.len(),
        {
            let ghost k = m - groups@.len();
            let g = groups.remove(0);
            assert(groups@ =~= gall.subrange(m - groups@.len(), m as int));
            assert(g == gall[k]);
            let mut kept: Vec<usize> = Vec::new();
            let mut j: usize = 0;
            while j < g.bookmarks_ids.len()
                invariant
                    0 <= j <= g.bookmarks_ids@.len(),
                    self.bookmarks == old(self).bookmarks,
                    stored == (|x: usize| old(self).bookmark_ids().contains(x)),
                    kept@ == g.bookmarks_ids@.take(j as int).filter(stored),
                decreases g.bookmarks_ids@.len() - j,
            {
                proof {
                    reveal(Seq::filter);
                    assert(g.bookmarks_ids@.take(j + 1).drop_last() =~= g.bookmarks_ids@.take(j as int));
                }
                if has_key(&self.bookmarks, g.bookmarks_ids[j]) {
                    kept.push(g.bookmarks_ids[j]);
                }
                j = j + 1;
            }
            assert(g.bookmarks_ids@.take(j as int) =~= g.bookmarks_ids@);
            self.groups.push(Group { bookmarks_ids: kept, ..g });
        }
        proof {
            assert(self.group_ids() =~= old(self).group_ids()) by {
                assert forall|i: int| 0 <= i < self.groups@.len() implies self.group_ids()[i]
                    == old(self).group_ids()[i] by {
                    assert(self.groups@[i].id == gall[i].id);
                }
            }
            assert forall|i: int, k: int|
                0 <= i < self.groups@.len() && 0 <= k < self.groups@[i].bookmarks_ids@.len()
                    implies self.bookmark_ids().contains(#[trigger] self.groups@[i].bookmarks_ids@[k]) by {
                assert(stored(self.groups@[i].bookmarks_ids@[k]));
            }
        }
    }

    /// Deletes the group `id`; bookmarks are not touched.
    pub fn delete_group(&mut self, id: usize)
        ensures
            final(self).groups@ == old(self).groups@.filter(other_key::<Group>(id)),
            final(self).bookmarks == old(self).bookmarks,
            old(self).wf() ==> final(self).wf(),
    {
        remove_key(&mut self.groups, id);
        proof {
            let o = old(self);
            lemma_filter_keys(o.groups@, id);
            if o.wf() {
                assert forall|i: int, k: int|
                    0 <= i < self.groups@.len() && 0 <= k < self.groups@[i].bookmarks_ids@.len()
                        implies self.bookmark_ids().contains(
                    #[trigger] self.groups@[i].bookmarks_ids@[k],
                ) by {
                    let g = self.groups@[i];
                    assert(o.groups@.filter(other_key::<Group>(id)).contains(g));
                    assert(o.groups@.contains(g));
                    let j = choose|j: int| 0 <= j < o.groups@.len() && o.groups@[j] == g;
                    assert(o.bookmark_ids().contains(o.groups@[j].bookmarks_ids@[k]));
                }
            }
        }
    }

    /// Adds `b` at the end, unless its identifier is taken; whether it was
    /// added.
    pub fn insert_bookmark(&mut self, b: Bookmark) -> (r: bool)
        ensures
            r == !old(self).bookmark_ids().contains(b.id),
            r ==> final(self).bookmarks@ == old(self).bookmarks@.push(b),
            !r ==> final(self).bookmarks@ == old(self).bookmarks@,
            final(self).groups == old(self).groups,
            old(self).wf() ==> final(self).wf(),
    {
        if has_key(&self.bookmarks, b.id) {
            return false;
        }
        let ghost ob = self.bookmark_ids();
        self.bookmarks.push(b);
        proof {
            assert(self.bookmark_ids() =~= ob.push(b.id));
            lemma_push_contains(ob, b.id);
            if old(self).wf() {
                lemma_push_unique(ob, b.id);
            }
        }
        true
    }

    /// Adds `g` at the end, unless its identifier is taken or one of its
    /// members is not a stored bookmark; whether it was added.
    pub fn insert_group(&mut self, g: Group) -> (r: bool)
        ensures
            r == (!old(self).group_ids().contains(g.id) && old(self).all_stored(g.bookmarks_ids@)),
            r ==> final(self).groups@ == old(self).groups@.push(g),
            !r ==> final(self).groups@ == old(self).groups@,
            final(self).bookmarks == old(self).bookmarks,
            old(self).wf() ==> final(self).wf(),
    {
        if has_key(&self.groups, g.id) || !self.are_stored(&g.bookmarks_ids) {
            return false;
        }
        let ghost og = self.group_ids();
        self.groups.push(g);
        proof {
            assert(self.group_ids() =~= og.push(g.id));
            if old(self).wf() {
                lemma_push_unique(og, g.id);
                assert forall|i: int, k: int|
                    0 <= i < self.groups@.len() && 0 <= k < self.groups@[i].bookmarks_ids@.len()
                        implies self.bookmark_ids().contains(
                    #[trigger] self.groups@[i].bookmarks_ids@[k],
                ) by {
                    if i < old(self).groups@.len() {
                        assert(self.groups@[i] == old(self).groups@[i]);
                    }
                }
            }
        }
        true
    }

    /// Replaces the name, url and icon of the bookmark `id`; whether it exists.
    pub fn update_bookmark(
        &mut self,
        id: usize,
        name: String,
        url: String,
        icon_path: Option<String>,
    ) -> (r: bool)
        requires
            old(self).wf(),
        ensures
            r == old(self).bookmark_ids().contains(id),
            r ==> final(self).bookmarks@ == replace_key(
                old(self).bookmarks@,
                Bookmark { id, icon_path, name, url },
            ),
            !r ==> final(self).bookmarks@ == old(self).bookmarks@,
            final(self).groups == old(self).groups,
            final(self).wf(),
    {
        let b = Bookmark { id, icon_path, name, url };
        let ghost nb = b;
        let r = replace_by_key(&mut self.bookmarks, b);
        proof {
            lemma_replace_keys(old(self).bookmarks@, nb);
        }
        r
    }

    /// Replaces the name, members and icon of the group `id`, provided the
    /// group exists and every new member is a stored bookmark; whether it did.
    pub fn update_group(
        &mut self,
        id: usize,
        name: String,
        bookmarks_ids: Vec<usize>,
        icon_path: Option<String>,
        tint_icon: bool,
    ) -> (r: bool)
        requires
            old(self).wf(),
        ensures
            r == (old(self).group_ids().contains(id) && old(self).all_stored(bookmarks_ids@)),
            r ==> final(self).groups@ == replace_key(
                old(self).groups@,
                Group { id, icon_path, tint_icon, name, bookmarks_ids },
            ),
            !r ==> final(self).groups@ == old(self).groups@,
            final(self).bookmarks == old(self).bookmarks,
            final(self).wf(),
    {
        if !self.are_stored(&bookmarks_ids) {
            return false;
        }
        let g = Group { id, icon_path, tint_icon, name, bookmarks_ids };
        let ghost ng = g;
        let r = replace_by_key(&mut self.groups, g);
        proof {
            let o = old(self);
            lemma_replace_keys(o.groups@, ng);
            assert forall|i: int, k: int|
                0 <= i < self.groups@.len() && 0 <= k < self.groups@[i].bookmarks_ids@.len()
                    implies self.bookmark_ids().contains(
                #[trigger] self.groups@[i].bookmarks_ids@[k],
            ) by {
                if r && o.groups@[i].id == id {
                    assert(self.groups@[i] == ng);
                } else {
                    assert(self.groups@[i] == o.groups@[i]);
                }
            }
        }
        r
    }
    /// Deletes the bookmark `id` and takes `id` out of every group's members.
    pub fn delete_bookmark(&mut self, id: usize)
        ensures
            final(self).bookmarks@ == old(self).bookmarks@.filter(other_key::<Bookmark>(id)),
            final(self).groups@.len() == old(self).groups@.len(),
            forall|i: int|
                0 <= i < old(self).groups@.len() ==> group_without(
                    old(self).groups@[i],
                    #[trigger] final(self).groups@[i],
                    id,
                ),
            old(self).wf() ==> final(self).wf(),
    {
        remove_key(&mut self.bookmarks, id);
        let mut groups: Vec<Group> = Vec::new();
        std::mem::swap(&mut groups, &mut self.groups);
        let ghost gall = groups@;
        let ghost m = gall.len();
        while groups.len() > 0
            invariant
                gall.len() == m,
                groups@.len() <= m,
                self.bookmarks@ == old(self).bookmarks@.filter(other_key::<Bookmark>(id)),
                gall == old(self).groups@,
                groups@ == gall.subrange(m - groups@.len(), m as int),
                self.groups@.len() == m - groups@.len(),
                forall|i: int|
                    0 <= i < self.groups@.len() ==> group_without(
                        gall[i],
                        #[trigger] self.groups@[i],
                        id,
                    ),
            decreases groups@.len(),
        {
            let ghost k = m - groups@.len();
            let g = groups.remove(0);
            assert(groups@ =~= gall.subrange(m - groups@.len(), m as int));
            assert(g == gall[k]);
            let members = without_id(&g.bookmarks_ids, id);
            self.groups.push(Group { bookmarks_ids: members, ..g });
        }
        proof {
            let o = old(self);
            lemma_filter_keys(o.bookmarks@, id);
            assert(self.group_ids() =~= o.group_ids()) by {
                assert forall|i: int| 0 <= i < self.groups@.len() implies self.group_ids()[i]
                    == o.group_ids()[i] by {
                    assert(group_without(o.groups@[i], self.groups@[i], id));
                }
            }
            if o.wf() {
                assert forall|i: int, k: int|
                    0 <= i < self.groups@.len() && 0 <= k < self.groups@[i].bookmarks_ids@.len()
                        implies self.bookmark_ids().contains(
                    #[trigger] self.groups@[i].bookmarks_ids@[k],
                ) by {
                    let x = self.groups@[i].bookmarks_ids@[k];
                    let oids = o.groups@[i].bookmarks_ids@;
                    assert(group_without(o.groups@[i], self.groups@[i], id));
                    assert(oids.filter(other_id(id)).contains(x));
                    assert(oids.contains(x));
                    let kk = choose|kk: int| 0 <= kk < oids.len() && oids[kk] == x;
                    assert(o.bookmark_ids().contains(o.groups@[i].bookmarks_ids@[kk]));
                    assert(other_id(id)(x));
                }
            }
        }
    }
}

} // verus!
