use vstd::prelude::*;

use crate::settings::{Bookmark, Group};

verus! {

/// Whether `sniffer_rs`'s default matcher finds `search` in `text`.
pub uninterp spec fn sniffer_matches(text: Seq<char>, search: Seq<char>) -> bool;

/// Relies on `sniffer_rs::sniffer::Sniffer::matches` with the settings of
/// `Sniffer::new` (case-insensitive; edit distance, Hamming distance,
/// Jaro-Winkler similarity or containment with spaces removed). The answer
/// depends on the two texts alone; an empty search is contained in every
/// text, so it always matches.
#[verifier::external_body]
fn sniff(text: &str, search: &str) -> (r: bool)
    ensures
        r == sniffer_matches(text@, search@),
        search@.len() == 0 ==> r,
{
    sniffer_rs::sniffer::Sniffer::new().matches(text, search)
}

/// A group is found by its name.
pub open spec fn group_matches(g: Group, search: Seq<char>) -> bool {
    sniffer_matches(g.name@, search)
}

/// A bookmark is found by its name or its url.
pub open spec fn bookmark_matches(b: Bookmark, search: Seq<char>) -> bool {
    sniffer_matches(b.name@, search) || sniffer_matches(b.url@, search)
}

/// Whether `search` fuzzily matches `text`.
pub fn text_matches(text: &str, search: &str) -> (r: bool)
    ensures
        r == sniffer_matches(text@, search@),
        search@.len() == 0 ==> r,
{
    sniff(text, search)
}

/// For each group, whether `search` finds it.
pub fn match_groups(groups: &Vec<Group>, search: &str) -> (r: Vec<bool>)
    ensures
        r@ == groups@.map_values(|g: Group| group_matches(g, search@)),
{
    let mut r: Vec<bool> = Vec::new();
    let mut i: usize = 0;
    while i < groups.len()
        invariant
            0 <= i <= groups@.len(),
            r@ == groups@.take(i as int).map_values(|g: Group| group_matches(g, search@)),
        decreases groups@.len() - i,
    {
        r.push(sniff(groups[i].name.as_str(), search));
        i = i + 1;
        assert(r@ =~= groups@.take(i as int).map_values(|g: Group| group_matches(g, search@)));
    }
    assert(groups@.take(i as int) =~= groups@);
    r
}

/// For each bookmark, whether `search` finds it by name or url.
pub fn match_bookmarks(bookmarks: &Vec<Bookmark>, search: &str) -> (r: Vec<bool>)
    ensures
        r@ == bookmarks@.map_values(|b: Bookmark| bookmark_matches(b, search@)),
{
    let mut r: Vec<bool> = Vec::new();
    let mut i: usize = 0;
    while i < bookmarks.len()
        invariant
            0 <= i <= bookmarks@.len(),
            r@ == bookmarks@.take(i as int).map_values(
                |b: Bookmark| bookmark_matches(b, search@),
            ),
        decreases bookmarks@.len() - i,
    {
        let hit = sniff(bookmarks[i].name.as_str(), search) || sniff(
            bookmarks[i].url.as_str(),
            search,
        );
        r.push(hit);
        i = i + 1;
        assert(r@ =~= bookmarks@.take(i as int).map_values(
            |b: Bookmark| bookmark_matches(b, search@),
        ));
    }
    assert(bookmarks@.take(i as int) =~= bookmarks@);
    r
}

} // verus!
