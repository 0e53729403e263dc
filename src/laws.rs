use vstd::prelude::*;

use crate::order::{lemma_sort_by_key, lemma_sort_sorted, sort_by_key, sorted_by_key};
use crate::query::{
    first_space_from, is_space, route_mode, route_remainder, trim, trim_end, trim_start, Mode,
};
use crate::results::{default_items, results_for};
use crate::settings::{
    lemma_filter_keys, lemma_max_id_bounds, max_id, next_id, other_key, Bookmark, Keyed, Settings,
};
use crate::store::{group_without, other_id};

verus! {

broadcast use vstd::seq_lib::group_filter_ensures;

/// The identifiers of a collection that starts with `ids` after `n`
/// creations in a row, each taking the next identifier.
pub open spec fn created_ids(ids: Seq<usize>, n: nat) -> Seq<usize>
    decreases n,
{
    if n == 0 {
        ids
    } else {
        let before = created_ids(ids, (n - 1) as nat);
        before.push(next_id(before) as usize)
    }
}

/// The maximum of a non-empty collection is one of its identifiers.
pub proof fn lemma_max_id_is_member(ids: Seq<usize>)
    requires
        ids.len() > 0,
    ensures
        ids.contains(max_id(ids) as usize),
        max_id(ids) >= 0,
    decreases ids.len(),
{
    lemma_max_id_bounds(ids);
    let d = ids.drop_last();
    let last = ids.len() - 1;
    assert(ids[last] == ids.last());
    if d.len() > 0 {
        lemma_max_id_is_member(d);
        if max_id(d) >= ids.last() as int {
            let j = choose|j: int| 0 <= j < d.len() && d[j] == max_id(d) as usize;
            assert(ids[j] == d[j]);
            assert(ids[j] == max_id(ids) as usize);
        } else {
            assert(ids[last] == max_id(ids) as usize);
        }
    } else {
        assert(max_id(d) == -1);
        assert(ids[last] == max_id(ids) as usize);
    }
}

/// Creating entities one after another, with no deletion in between, hands
/// out consecutive identifiers in creation order, starting one past the
/// largest identifier already in use; in an empty collection: 0, 1, 2, ...
pub proof fn lemma_creation_ids_count_up(ids: Seq<usize>, n: nat)
    requires
        next_id(ids) + n <= usize::MAX + 1,
    ensures
        created_ids(ids, n).len() == ids.len() + n,
        created_ids(ids, n).take(ids.len() as int) == ids,
        forall|j: int|
            ids.len() <= j < ids.len() + n ==> #[trigger] created_ids(ids, n)[j] == next_id(ids) + j
                - ids.len(),
        next_id(created_ids(ids, n)) == next_id(ids) + n,
        ids.len() == 0 ==> forall|i: int| 0 <= i < n ==> created_ids(ids, n)[i] == i,
    decreases n,
{
    lemma_max_id_bounds(ids);
    if n == 0 {
        assert(ids.take(ids.len() as int) =~= ids);
    } else {
        let m = (n - 1) as nat;
        lemma_creation_ids_count_up(ids, m);
        let before = created_ids(ids, m);
        let v = next_id(before) as usize;
        let after = before.push(v);
        lemma_max_id_bounds(before);
        assert(after.drop_last() =~= before);
        assert(max_id(after) == v);
        assert(after.take(ids.len() as int) =~= before.take(ids.len() as int));
        assert forall|j: int| ids.len() <= j < ids.len() + n implies #[trigger] after[j] == next_id(ids)
            + j - ids.len() by {
            if j < ids.len() + m {
                assert(after[j] == before[j]);
            }
        }
    }
}

/// Deleting the bookmark with the largest identifier frees that identifier:
/// the next creation gets one past the largest remaining identifier (0 when
/// none is left), which is never above the freed one, and is the freed one
/// when the identifier below it is still in use.
pub proof fn lemma_deleting_max_frees_its_id(before: Settings, after: Settings)
    requires
        before.wf(),
        before.bookmarks@.len() > 0,
        after.bookmarks@ == before.bookmarks@.filter(
            other_key::<Bookmark>(max_id(before.bookmark_ids()) as usize),
        ),
    ensures
        next_id(after.bookmark_ids()) <= max_id(before.bookmark_ids()),
        max_id(before.bookmark_ids()) == 0 || before.bookmark_ids().contains(
            (max_id(before.bookmark_ids()) - 1) as usize,
        ) ==> next_id(after.bookmark_ids()) == max_id(before.bookmark_ids()),
{
    let ids = before.bookmark_ids();
    let m = max_id(ids);
    let rest = after.bookmark_ids();
    lemma_max_id_is_member(ids);
    lemma_max_id_bounds(ids);
    lemma_filter_keys(before.bookmarks@, m as usize);
    lemma_max_id_bounds(rest);
    assert forall|j: int| 0 <= j < rest.len() implies rest[j] < m by {
        assert(rest.contains(rest[j]));
        let k = choose|k: int| 0 <= k < ids.len() && ids[k] == rest[j];
    }
    if rest.len() > 0 {
        lemma_max_id_is_member(rest);
    }
    assert(max_id(rest) < m);
    if m > 0 && ids.contains((m - 1) as usize) {
        assert(rest.contains((m - 1) as usize));
        let k = choose|k: int| 0 <= k < rest.len() && rest[k] == (m - 1) as usize;
    }
    if m == 0 && rest.len() > 0 {
        assert(rest[0] < m);
    }
}

/// After a bookmark is deleted (the store's delete takes its identifier out
/// of every group), no group refers to it.
pub proof fn lemma_delete_leaves_no_reference(before: Settings, after: Settings, id: usize)
    requires
        after.groups@.len() == before.groups@.len(),
        forall|i: int|
            0 <= i < before.groups@.len() ==> group_without(
                before.groups@[i],
                #[trigger] after.groups@[i],
                id,
            ),
        after.bookmarks@ == before.bookmarks@.filter(other_key::<Bookmark>(id)),
    ensures
        forall|i: int|
            0 <= i < after.groups@.len() ==> !(#[trigger] after.groups@[i].bookmarks_ids@).contains(
                id,
            ),
        !after.bookmark_ids().contains(id),
{
    assert forall|i: int| 0 <= i < after.groups@.len() implies !(
    #[trigger] after.groups@[i].bookmarks_ids@).contains(id) by {
        assert(group_without(before.groups@[i], after.groups@[i], id));
        let f = before.groups@[i].bookmarks_ids@.filter(other_id(id));
        if f.contains(id) {
            let k = choose|k: int| 0 <= k < f.len() && f[k] == id;
            assert(other_id(id)(f[k]));
        }
    }
    lemma_filter_keys(before.bookmarks@, id);
}

/// Saving orders a collection by identifier; a collection as loaded from a
/// save is already in that order, so saving it again writes the same
/// sequence, and ordering keeps every record.
pub proof fn lemma_save_after_load_is_unchanged<T: Keyed>(s: Seq<T>)
    ensures
        sort_by_key(sort_by_key(s)) == sort_by_key(s),
        sorted_by_key(s) ==> sort_by_key(s) == s,
        sort_by_key(s).to_multiset() == s.to_multiset(),
{
    lemma_sort_by_key(s);
    lemma_sort_sorted(sort_by_key(s));
    if sorted_by_key(s) {
        lemma_sort_sorted(s);
    }
}

proof fn lemma_no_space(s: Seq<char>, i: int)
    requires
        0 <= i <= s.len(),
        forall|j: int| 0 <= j < s.len() ==> !is_space(#[trigger] s[j]),
    ensures
        first_space_from(s, i) == s.len(),
    decreases s.len() - i,
{
    if i < s.len() {
        lemma_no_space(s, i + 1);
    }
}

/// A query of one word (no white space) is a plain search on the whole word,
/// even when the word starts with a reserved keyword.
pub proof fn lemma_single_word_is_search(s: Seq<char>)
    requires
        s.len() > 0,
        forall|j: int| 0 <= j < s.len() ==> !is_space(#[trigger] s[j]),
    ensures
        route_mode(s) == Mode::Search,
        route_remainder(s) == s,
{
    lemma_no_space(s, 0);
    assert(trim_start(s) == s);
    assert(trim_end(s) == s);
}

/// A blank query (empty, or white space only) offers exactly the two
/// creation results and searches nothing.
pub proof fn lemma_blank_query_offers_creation(store: Settings, s: Seq<char>, copy_url: bool)
    requires
        forall|j: int| 0 <= j < s.len() ==> is_space(#[trigger] s[j]),
    ensures
        route_mode(s) == Mode::Default,
        results_for(store, s, copy_url) == default_items(store),
        results_for(store, s, copy_url).len() == 2,
{
    assert(trim(s).len() == 0) by {
        lemma_blank_trims_empty(s);
    }
}

proof fn lemma_blank_trims_empty(s: Seq<char>)
    requires
        forall|j: int| 0 <= j < s.len() ==> is_space(#[trigger] s[j]),
    ensures
        trim_start(s).len() == 0,
        trim(s).len() == 0,
    decreases s.len(),
{
    if s.len() > 0 {
        assert(is_space(s[0]));
        assert forall|j: int| 0 <= j < s.drop_first().len() implies is_space(
            #[trigger] s.drop_first()[j],
        ) by {
            assert(s.drop_first()[j] == s[j + 1]);
        }
        lemma_blank_trims_empty(s.drop_first());
    }
}

} // verus!
