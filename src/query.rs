use vstd::prelude::*;
use vstd::string::StrSliceExecFns;

verus! {

/// What a query asks for.
#[derive(PartialEq, Eq, Structural, Clone, Copy, Debug)]
pub enum Mode {
    /// Nothing typed: offer the creation actions.
    Default,
    /// Search bookmarks and groups.
    Search,
    /// Search for something to edit.
    EditSearch,
    /// Search for something to delete.
    DeleteSearch,
}

/// A query split into its mode and the text left to match.
#[derive(Clone, Debug, PartialEq, Eq)]
pub struct RoutedQuery {
    pub mode: Mode,
    pub remainder: String,
}

/// Unicode White_Space, the characters that `char::is_whitespace` accepts.
pub open spec fn is_space(c: char) -> bool {
    let u = c as u32;
    (0x9 <= u <= 0xd) || u == 0x20 || u == 0x85 || u == 0xa0 || u == 0x1680 || (0x2000 <= u
        <= 0x200a) || u == 0x2028 || u == 0x2029 || u == 0x202f || u == 0x205f || u == 0x3000
}

/// `s` without its leading white space.
pub open spec fn trim_start(s: Seq<char>) -> Seq<char>
    decreases s.len(),
{
    if s.len() > 0 && is_space(s[0]) {
        trim_start(s.drop_first())
    } else {
        s
    }
}

/// `s` without its trailing white space.
pub open spec fn trim_end(s: Seq<char>) -> Seq<char>
    decreases s.len(),
{
    if s.len() > 0 && is_space(s.last()) {
        trim_end(s.drop_last())
    } else {
        s
    }
}

/// `s` without white space at either end.
pub open spec fn trim(s: Seq<char>) -> Seq<char> {
    trim_end(trim_start(s))
}

/// The position of the first white space of `s` at or after `i`, or the
/// length of `s` when there is none.
pub open spec fn first_space_from(s: Seq<char>, i: int) -> int
    decreases s.len() - i,
{
    if i < 0 || i >= s.len() {
        s.len() as int
    } else if is_space(s[i]) {
        i
    } else {
        first_space_from(s, i + 1)
    }
}

/// `c` lower-cases to `w` in ASCII: an upper-case ASCII letter to its lower
/// case letter, any other character to itself.
pub open spec fn lowers_to(c: char, w: char) -> bool {
    if 'A' <= c && c <= 'Z' {
        c as u32 + 32 == w as u32
    } else {
        c == w
    }
}

/// `s` is `word` in some mix of ASCII letter cases.
pub open spec fn folds_to_word(s: Seq<char>, word: Seq<char>) -> bool {
    s.len() == word.len() && forall|i: int| 0 <= i < s.len() ==> lowers_to(#[trigger] s[i], word[i])
}

/// The mode that a first word selects. Only the reserved words select one,
/// in any letter case; no other character lower-cases to one of their letters.
pub open spec fn keyword_mode(word: Seq<char>) -> Mode {
    if folds_to_word(word, seq!['e']) || folds_to_word(word, seq!['e', 'd', 'i', 't']) {
        Mode::EditSearch
    } else if folds_to_word(word, seq!['d']) || folds_to_word(
        word,
        seq!['d', 'e', 'l', 'e', 't', 'e'],
    ) {
        Mode::DeleteSearch
    } else {
        Mode::Search
    }
}

/// The mode of the query `s`.
pub open spec fn route_mode(s: Seq<char>) -> Mode {
    if trim(s).len() == 0 {
        Mode::Default
    } else {
        let p = first_space_from(s, 0);
        if p == s.len() {
            Mode::Search
        } else {
            keyword_mode(s.take(p))
        }
    }
}

/// The text that the query `s` leaves to match: nothing in the default mode,
/// the whole query in a plain search, and the trimmed text after the keyword
/// in the edit and delete modes.
pub open spec fn route_remainder(s: Seq<char>) -> Seq<char> {
    match route_mode(s) {
        Mode::Default => Seq::empty(),
        Mode::Search => s,
        _ => trim(s.subrange(first_space_from(s, 0) + 1, s.len() as int)),
    }
}

/// Whether `c` is white space.
pub fn is_space_char(c: char) -> (r: bool)
    ensures
        r == is_space(c),
{
    let u = c as u32;
    (0x9 <= u && u <= 0xd) || u == 0x20 || u == 0x85 || u == 0xa0 || u == 0x1680 || (0x2000 <= u
        && u <= 0x200a) || u == 0x2028 || u == 0x2029 || u == 0x202f || u == 0x205f || u == 0x3000
}

proof fn lemma_trim_start_skip(s: Seq<char>, i: int)
    requires
        0 <= i <= s.len(),
        forall|j: int| 0 <= j < i ==> is_space(#[trigger] s[j]),
    ensures
        trim_start(s) == trim_start(s.subrange(i, s.len() as int)),
    decreases i,
{
    if i > 0 {
        assert(s.drop_first().subrange(i - 1, s.drop_first().len() as int) =~= s.subrange(
            i,
            s.len() as int,
        ));
        assert forall|j: int| 0 <= j < i - 1 implies is_space(#[trigger] s.drop_first()[j]) by {
            assert(s.drop_first()[j] == s[j + 1]);
        }
        lemma_trim_start_skip(s.drop_first(), i - 1);
    } else {
        assert(s.subrange(0, s.len() as int) =~= s);
    }
}

proof fn lemma_trim_end_skip(s: Seq<char>, i: int)
    requires
        0 <= i <= s.len(),
        forall|j: int| i <= j < s.len() ==> is_space(#[trigger] s[j]),
    ensures
        trim_end(s) == trim_end(s.take(i)),
    decreases s.len() - i,
{
    if i < s.len() {
        assert(s.drop_last().take(i) =~= s.take(i));
        assert forall|j: int| i <= j < s.drop_last().len() implies is_space(
            #[trigger] s.drop_last()[j],
        ) by {
            assert(s.drop_last()[j] == s[j]);
        }
        lemma_trim_end_skip(s.drop_last(), i);
    } else {
        assert(s.take(i) =~= s);
    }
}

/// `s` without white space at either end.
pub fn trim_text(s: &str) -> (r: String)
    ensures
        r@ == trim(s@),
{
    let n = s.unicode_len();
    let mut a: usize = 0;
    while a < n && is_space_char(s.get_char(a))
        invariant
            n == s@.len(),
            0 <= a <= n,
            forall|j: int| 0 <= j < a ==> is_space(#[trigger] s@[j]),
        decreases n - a,
    {
        a = a + 1;
    }
    let mut b: usize = n;
    while b > a && is_space_char(s.get_char(b - 1))
        invariant
            n == s@.len(),
            0 <= a <= b <= n,
            forall|j: int| b <= j < n ==> is_space(#[trigger] s@[j]),
        decreases b,
    {
        b = b - 1;
    }
    proof {
        lemma_trim_start_skip(s@, a as int);
        let t = s@.subrange(a as int, n as int);
        assert(trim_start(t) == t);
        assert forall|j: int| b - a <= j < t.len() implies is_space(#[trigger] t[j]) by {
            assert(t[j] == s@[a + j]);
        }
        lemma_trim_end_skip(t, b - a);
        assert(t.take(b - a) =~= s@.subrange(a as int, b as int));
        let u = s@.subrange(a as int, b as int);
        if u.len() > 0 {
            assert(u.last() == s@[b - 1]);
        }
        assert(trim_end(u) == u);
    }
    s.substring_char(a, b).to_owned()
}

/// The position of the first white space of `s`, or its length when there is
/// none.
pub fn first_space(s: &str) -> (r: usize)
    ensures
        r == first_space_from(s@, 0),
        r <= s@.len(),
{
    let n = s.unicode_len();
    let mut i: usize = 0;
    while i < n && !is_space_char(s.get_char(i))
        invariant
            n == s@.len(),
            0 <= i <= n,
            first_space_from(s@, 0) == first_space_from(s@, i as int),
        decreases n - i,
    {
        i = i + 1;
    }
    i
}

/// Whether `w` is `word` in any ASCII letter case.
fn folds_to(w: &str, word: &str) -> (r: bool)
    ensures
        r == folds_to_word(w@, word@),
{
    let n = w.unicode_len();
    if n != word.unicode_len() {
        return false;
    }
    let mut i: usize = 0;
    while i < n
        invariant
            n == w@.len(),
            n == word@.len(),
            0 <= i <= n,
            forall|j: int| 0 <= j < i ==> lowers_to(#[trigger] w@[j], word@[j]),
        decreases n - i,
    {
        let c = w.get_char(i);
        let d = word.get_char(i);
        let ok = if 'A' <= c && c <= 'Z' {
            c as u32 + 32 == d as u32
        } else {
            c == d
        };
        if !ok {
            return false;
        }
        i = i + 1;
    }
    true
}

/// The mode that the first word `w` selects.
pub fn keyword_of(w: &str) -> (r: Mode)
    ensures
        r == keyword_mode(w@),
{
    proof {
        reveal_strlit("e");
        reveal_strlit("edit");
        reveal_strlit("d");
        reveal_strlit("delete");
    }
    if folds_to(w, "e") || folds_to(w, "edit") {
        Mode::EditSearch
    } else if folds_to(w, "d") || folds_to(w, "delete") {
        Mode::DeleteSearch
    } else {
        Mode::Search
    }
}

/// Splits a query into its mode and the text left to match: an empty (or
/// blank) query is the default mode; a first word "e"/"edit" or
/// "d"/"delete" followed by white space selects the edit or delete mode and
/// leaves the trimmed rest; anything else is a search on the whole text.
pub fn route(text: &str) -> (r: RoutedQuery)
    ensures
        r.mode == route_mode(text@),
        r.remainder@ == route_remainder(text@),
{
    let t = trim_text(text);
    if t.unicode_len() == 0 {
        return RoutedQuery { mode: Mode::Default, remainder: String::new() };
    }
    let n = text.unicode_len();
    let p = first_space(text);
    if p == n {
        return RoutedQuery { mode: Mode::Search, remainder: text.to_owned() };
    }
    let mode = keyword_of(text.substring_char(0, p));
    assert(text@.subrange(0, p as int) =~= text@.take(p as int));
    match mode {
        Mode::Search => RoutedQuery { mode: Mode::Search, remainder: text.to_owned() },
        _ => RoutedQuery { mode, remainder: trim_text(text.substring_char(p + 1, n)) },
    }
}

} // verus!
