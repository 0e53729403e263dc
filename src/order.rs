use vstd::prelude::*;

use crate::settings::{keys, unique_ids, Keyed, Settings};

verus! {

/// Records ordered by identifier, smallest first.
pub open spec fn sorted_by_key<T: Keyed>(s: Seq<T>) -> bool {
    forall|i: int, j: int| 0 <= i <= j < s.len() ==> s[i].key() <= s[j].key()
}

/// `x` placed in `t` before the first record whose identifier is not smaller.
pub open spec fn insert_sorted<T: Keyed>(t: Seq<T>, x: T) -> Seq<T>
    decreases t.len(),
{
    if t.len() == 0 {
        seq![x]
    } else if x.key() <= t[0].key() {
        seq![x] + t
    } else {
        seq![t[0]] + insert_sorted(t.drop_first(), x)
    }
}

/// `s` ordered by identifier; records with equal identifiers keep their order.
pub open spec fn sort_by_key<T: Keyed>(s: Seq<T>) -> Seq<T>
    decreases s.len(),
{
    if s.len() == 0 {
        s
    } else {
        insert_sorted(sort_by_key(s.drop_first()), s[0])
    }
}

proof fn lemma_insert_at<T: Keyed>(t: Seq<T>, x: T, p: int)
    requires
        0 <= p <= t.len(),
        forall|j: int| 0 <= j < p ==> t[j].key() < x.key(),
        p < t.len() ==> x.key() <= t[p].key(),
    ensures
        insert_sorted(t, x) == t.insert(p, x),
    decreases t.len(),
{
    if t.len() == 0 {
        assert(t.insert(p, x) =~= seq![x]);
    } else if p == 0 {
        assert(t.insert(p, x) =~= seq![x] + t);
    } else {
        lemma_insert_at(t.drop_first(), x, p - 1);
        assert(t.insert(p, x) =~= seq![t[0]] + t.drop_first().insert(p - 1, x));
    }
}

/// Inserting adds exactly the one record, and keeps an ordered sequence
/// ordered.
pub proof fn lemma_insert_sorted<T: Keyed>(t: Seq<T>, x: T)
    ensures
        insert_sorted(t, x).len() == t.len() + 1,
        sorted_by_key(t) ==> sorted_by_key(insert_sorted(t, x)),
        insert_sorted(t, x).to_multiset() == t.to_multiset().insert(x),
        forall|i: int|
            0 <= i < t.len() + 1 ==> #[trigger] insert_sorted(t, x)[i] == x || t.contains(
                insert_sorted(t, x)[i],
            ),
    decreases t.len(),
{
    broadcast use vstd::seq_lib::group_to_multiset_ensures;

    let r = insert_sorted(t, x);
    if t.len() == 0 {
        assert(r =~= Seq::<T>::empty().push(x));
    } else if x.key() <= t[0].key() {
        assert(r =~= seq![x] + t);
        vstd::seq_lib::lemma_multiset_commutative(seq![x], t);
        assert(seq![x] =~= Seq::<T>::empty().push(x));
        assert forall|i: int| 0 <= i < t.len() + 1 implies #[trigger] r[i] == x || t.contains(
            r[i],
        ) by {
            if i > 0 {
                assert(r[i] == t[i - 1]);
            }
        }
    } else {
        let d = t.drop_first();
        lemma_insert_sorted(d, x);
        let rd = insert_sorted(d, x);
        assert(r =~= seq![t[0]] + rd);
        vstd::seq_lib::lemma_multiset_commutative(seq![t[0]], rd);
        vstd::seq_lib::lemma_multiset_commutative(seq![t[0]], d);
        assert(t =~= seq![t[0]] + d);
        assert(seq![t[0]] =~= Seq::<T>::empty().push(t[0]));
        assert forall|i: int| 0 <= i < t.len() + 1 implies #[trigger] r[i] == x || t.contains(
            r[i],
        ) by {
            if i == 0 {
                assert(t[0] == r[0]);
            } else {
                assert(r[i] == rd[i - 1]);
                if d.contains(rd[i - 1]) {
                    let j = choose|j: int| 0 <= j < d.len() && d[j] == rd[i - 1];
                    assert(t[j + 1] == d[j]);
                }
            }
        }
        if sorted_by_key(t) {
            assert forall|j: int| 0 <= j < d.len() implies t[0].key() <= #[trigger] d[j].key() by {
                assert(d[j] == t[j + 1]);
            }
            assert(sorted_by_key(d)) by {
                assert forall|i: int, j: int| 0 <= i <= j < d.len() implies d[i].key()
                    <= d[j].key() by {
                    assert(d[i] == t[i + 1] && d[j] == t[j + 1]);
                }
            }
            assert forall|i: int, j: int| 0 <= i <= j < r.len() implies r[i].key()
                <= r[j].key() by {
                if i == 0 {
                    assert(r[0] == t[0]);
                    assert(r[j].key() >= t[0].key() as int) by {
                        if j > 0 {
                            assert(r[j] == rd[j - 1]);
                            if d.contains(rd[j - 1]) {
                                let m = choose|m: int| 0 <= m < d.len() && d[m] == rd[j - 1];
                            }
                        }
                    }
                } else {
                    assert(r[i] == rd[i - 1] && r[j] == rd[j - 1]);
                }
            }
        }
    }
}

/// The sorted sequence is ordered and holds the same records.
pub proof fn lemma_sort_by_key<T: Keyed>(s: Seq<T>)
    ensures
        sorted_by_key(sort_by_key(s)),
        sort_by_key(s).len() == s.len(),
        sort_by_key(s).to_multiset() == s.to_multiset(),
    decreases s.len(),
{
    broadcast use vstd::seq_lib::group_to_multiset_ensures;

    if s.len() > 0 {
        lemma_sort_by_key(s.drop_first());
        lemma_insert_sorted(sort_by_key(s.drop_first()), s[0]);
        vstd::seq_lib::lemma_multiset_commutative(seq![s[0]], s.drop_first());
        assert(s =~= seq![s[0]] + s.drop_first());
        assert(seq![s[0]] =~= Seq::<T>::empty().push(s[0]));
    }
}

/// Sorting a sequence that is already ordered leaves it as it is.
pub proof fn lemma_sort_sorted<T: Keyed>(s: Seq<T>)
    requires
        sorted_by_key(s),
    ensures
        sort_by_key(s) == s,
    decreases s.len(),
{
    if s.len() > 0 {
        let d = s.drop_first();
        assert(sorted_by_key(d)) by {
            assert forall|i: int, j: int| 0 <= i <= j < d.len() implies d[i].key()
                <= d[j].key() by {
                assert(d[i] == s[i + 1] && d[j] == s[j + 1]);
            }
        }
        lemma_sort_sorted(d);
        if d.len() > 0 {
            assert(d[0] == s[1]);
        }
        lemma_insert_at(d, s[0], 0);
        assert(d.insert(0, s[0]) =~= s);
    }
}

proof fn lemma_prepend_keys(a: usize, s: Seq<usize>)
    ensures
        forall|y: usize| #[trigger] (seq![a] + s).contains(y) <==> (s.contains(y) || y == a),
        unique_ids(s) && !s.contains(a) ==> unique_ids(seq![a] + s),
{
    let t = seq![a] + s;
    assert forall|y: usize| #[trigger] t.contains(y) implies (s.contains(y) || y == a) by {
        let j = choose|j: int| 0 <= j < t.len() && t[j] == y;
        if j > 0 {
            assert(s[j - 1] == y);
        }
    }
    assert forall|y: usize| s.contains(y) implies #[trigger] t.contains(y) by {
        let j = choose|j: int| 0 <= j < s.len() && s[j] == y;
        assert(t[j + 1] == y);
    }
    assert(t[0] == a);
    if unique_ids(s) && !s.contains(a) {
        assert forall|i: int, j: int| 0 <= i < t.len() && 0 <= j < t.len() && i != j implies t[i]
            != t[j] by {
            if i > 0 && j > 0 {
                assert(t[i] == s[i - 1] && t[j] == s[j - 1]);
            } else if i > 0 {
                assert(t[i] == s[i - 1]);
            } else if j > 0 {
                assert(t[j] == s[j - 1]);
            }
        }
    }
}

/// Inserting a record brings its identifier in and keeps identifiers unique
/// when it was not there yet.
proof fn lemma_insert_sorted_keys<T: Keyed>(t: Seq<T>, x: T)
    ensures
        forall|y: usize|
            #[trigger] keys(insert_sorted(t, x)).contains(y) <==> (keys(t).contains(y) || y
                == x.key()),
        unique_ids(keys(t)) && !keys(t).contains(x.key()) ==> unique_ids(
            keys(insert_sorted(t, x)),
        ),
    decreases t.len(),
{
    let r = insert_sorted(t, x);
    if t.len() == 0 {
        assert(keys(r) =~= seq![x.key()] + keys(t));
        lemma_prepend_keys(x.key(), keys(t));
    } else if x.key() <= t[0].key() {
        assert(keys(r) =~= seq![x.key()] + keys(t));
        lemma_prepend_keys(x.key(), keys(t));
    } else {
        let d = t.drop_first();
        lemma_insert_sorted_keys(d, x);
        assert(keys(t) =~= seq![t[0].key()] + keys(d));
        assert(keys(r) =~= seq![t[0].key()] + keys(insert_sorted(d, x)));
        lemma_prepend_keys(t[0].key(), keys(d));
        lemma_prepend_keys(t[0].key(), keys(insert_sorted(d, x)));
        if unique_ids(keys(t)) && !keys(t).contains(x.key()) {
            assert(unique_ids(keys(d))) by {
                assert forall|i: int, j: int|
                    0 <= i < keys(d).len() && 0 <= j < keys(d).len() && i != j implies keys(d)[i]
                    != keys(d)[j] by {
                    assert(keys(d)[i] == keys(t)[i + 1] && keys(d)[j] == keys(t)[j + 1]);
                }
            }
            assert(!keys(d).contains(t[0].key())) by {
                if keys(d).contains(t[0].key()) {
                    let j = choose|j: int| 0 <= j < keys(d).len() && keys(d)[j] == t[0].key();
                    assert(keys(t)[j + 1] == keys(t)[0]);
                }
            }
        }
    }
}

/// Ordering keeps the same identifiers, unique when they were, and every
/// record of the result is a record of the input.
pub proof fn lemma_sort_keys<T: Keyed>(s: Seq<T>)
    ensures
        forall|y: usize| #[trigger] keys(sort_by_key(s)).contains(y) <==> keys(s).contains(y),
        unique_ids(keys(s)) ==> unique_ids(keys(sort_by_key(s))),
        forall|i: int| 0 <= i < s.len() ==> s.contains(#[trigger] sort_by_key(s)[i]),
    decreases s.len(),
{
    broadcast use vstd::seq_lib::group_to_multiset_ensures;

    lemma_sort_by_key(s);
    assert forall|i: int| 0 <= i < s.len() implies s.contains(#[trigger] sort_by_key(s)[i]) by {
        assert(sort_by_key(s).contains(sort_by_key(s)[i]));
        assert(sort_by_key(s).to_multiset().count(sort_by_key(s)[i]) > 0);
    }
    if s.len() > 0 {
        let d = s.drop_first();
        lemma_sort_keys(d);
        lemma_insert_sorted_keys(sort_by_key(d), s[0]);
        assert(keys(s) =~= seq![s[0].key()] + keys(d));
        lemma_prepend_keys(s[0].key(), keys(d));
        if unique_ids(keys(s)) {
            assert(unique_ids(keys(d))) by {
                assert forall|i: int, j: int|
                    0 <= i < keys(d).len() && 0 <= j < keys(d).len() && i != j implies keys(d)[i]
                    != keys(d)[j] by {
                    assert(keys(d)[i] == keys(s)[i + 1] && keys(d)[j] == keys(s)[j + 1]);
                }
            }
            assert(!keys(d).contains(s[0].key())) by {
                if keys(d).contains(s[0].key()) {
                    let j = choose|j: int| 0 <= j < keys(d).len() && keys(d)[j] == s[0].key();
                    assert(keys(s)[j + 1] == keys(s)[0]);
                }
            }
        }
    } else {
        assert(keys(sort_by_key(s)) =~= keys(s));
    }
}

/// Orders `v` by identifier, keeping records with equal identifiers in order.
pub fn sort_in_place<T: Keyed>(v: &mut Vec<T>)
    ensures
        final(v)@ == sort_by_key(old(v)@),
{
    let mut rest: Vec<T> = Vec::new();
    std::mem::swap(&mut rest, v);
    let ghost all = rest@;
    let ghost n = all.len();
    assert(all.subrange(n as int, n as int) =~= Seq::<T>::empty());
    while rest.len() > 0
        invariant
            all.len() == n,
            all == old(v)@,
            rest@.len() <= n,
            rest@ == all.take(rest@.len() as int),
            v@ == sort_by_key(all.subrange(rest@.len() as int, n as int)),
        decreases rest@.len(),
    {
        let x = rest.pop().unwrap();
        let ghost k = rest@.len() as int;
        assert(rest@ =~= all.take(k));
        assert(x == all[k]);
        let xk = x.get_key();
        let mut p: usize = 0;
        while p < v.len() && v[p].get_key() < xk
            invariant
                0 <= p <= v@.len(),
                forall|j: int| 0 <= j < p ==> v@[j].key() < xk,
            decreases v@.len() - p,
        {
            p = p + 1;
        }
        proof {
            lemma_insert_at(v@, x, p as int);
            assert(all.subrange(k, n as int).drop_first() =~= all.subrange(k + 1, n as int));
        }
        v.insert(p, x);
    }
    assert(all.subrange(0, n as int) =~= all);
}

impl Settings {
    /// Orders both collections by identifier, as the store is written out.
    pub fn sort_by_id(&mut self)
        ensures
            final(self).groups@ == sort_by_key(old(self).groups@),
            final(self).bookmarks@ == sort_by_key(old(self).bookmarks@),
            old(self).wf() ==> final(self).wf(),
    {
        sort_in_place(&mut self.groups);
        sort_in_place(&mut self.bookmarks);
        proof {
            let o = old(self);
            lemma_sort_keys(o.bookmarks@);
            lemma_sort_keys(o.groups@);
            if o.wf() {
                assert forall|i: int, k: int|
                    0 <= i < self.groups@.len() && 0 <= k < self.groups@[i].bookmarks_ids@.len()
                        implies self.bookmark_ids().contains(
                    #[trigger] self.groups@[i].bookmarks_ids@[k],
                ) by {
                    lemma_sort_by_key(o.groups@);
                    assert(self.groups@[i] == sort_by_key(o.groups@)[i]);
                    assert(o.groups@.contains(self.groups@[i]));
                    let j = choose|j: int| 0 <= j < o.groups@.len() && o.groups@[j] == self.groups@[i];
                    assert(o.bookmark_ids().contains(o.groups@[j].bookmarks_ids@[k]));
                }
            }
        }
    }
}

} // verus!
