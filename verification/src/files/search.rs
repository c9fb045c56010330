//! Finding files by name, and the directory tree of the side panel.

use vstd::prelude::*;
use crate::paths::{components, file_name_of, file_name_or_default, path_components, strings_view};
use crate::text::{chars_of, contains_chars, contains_seq, lowercase, to_lowercase};

verus! {

/// One entry met while walking a directory tree.
pub struct WalkedEntry {
    pub path: String,
    /// The entry's file name.
    pub name: String,
    pub is_dir: bool,
    pub is_file: bool,
}

/// A file or directory whose name matched a search.
pub struct SearchResult {
    pub path: String,
    pub name: String,
    pub is_dir: bool,
}

/// A name matches a query when the lowercased query occurs in the lowercased name.
pub open spec fn name_matches(name: Seq<char>, query: Seq<char>) -> bool {
    contains_seq(lowercase(name), lowercase(query))
}

/// The first `max` entries of `s` (in walk order) whose names match `query`.
pub open spec fn matching_entries(s: Seq<WalkedEntry>, query: Seq<char>, max: nat) -> Seq<WalkedEntry>
    decreases s.len(),
{
    if s.len() == 0 || max == 0 {
        Seq::empty()
    } else if name_matches(s[0].name@, query) {
        seq![s[0]] + matching_entries(s.drop_first(), query, (max - 1) as nat)
    } else {
        matching_entries(s.drop_first(), query, max)
    }
}

/// `r` reports the entry `e`.
pub open spec fn reports(r: SearchResult, e: WalkedEntry) -> bool {
    r.path@ == e.path@ && r.name@ == e.name@ && r.is_dir == e.is_dir
}

/// Whether a name matches a query, both compared in lowercase.
pub fn matches_query(name: &str, query: &str) -> (r: bool)
    ensures
        r == name_matches(name@, query@),
{
    let n = to_lowercase(name);
    let q = to_lowercase(query);
    let nc = chars_of(n.as_str());
    let qc = chars_of(q.as_str());
    contains_chars(&nc, &qc)
}

/// Searches the walked entries of a tree (in walk order) for names containing
/// `query`, ignoring case, keeping at most `max_results`. An empty query finds
/// nothing.
pub fn search_files(entries: &Vec<WalkedEntry>, query: &str, max_results: usize) -> (r: Vec<SearchResult>)
    ensures
        query@.len() == 0 ==> r@.len() == 0,
        query@.len() > 0 ==> r@.len() == matching_entries(entries@, query@, max_results as nat).len()
            && forall|i: int|
            0 <= i < r@.len() ==> reports(
                #[trigger] r@[i],
                matching_entries(entries@, query@, max_results as nat)[i],
            ),
{
    if query.is_empty() {
        return Vec::new();
    }
    let mut r: Vec<SearchResult> = Vec::new();
    let mut i: usize = 0;
    let mut left: usize = max_results;
    proof {
        assert(entries@.subrange(0, entries@.len() as int) =~= entries@);
    }
    while i < entries.len() && left > 0
        invariant
            i <= entries@.len(),
            left <= max_results,
            r@.len() + matching_entries(entries@.subrange(i as int, entries@.len() as int), query@, left as nat).len()
                == matching_entries(entries@, query@, max_results as nat).len(),
            forall|j: int|
                0 <= j < r@.len() ==> reports(
                    #[trigger] r@[j],
                    matching_entries(entries@, query@, max_results as nat)[j],
                ),
            forall|j: int|
                0 <= j < matching_entries(entries@.subrange(i as int, entries@.len() as int), query@, left as nat).len()
                    ==> matching_entries(entries@.subrange(i as int, entries@.len() as int), query@, left as nat)[j]
                    == matching_entries(entries@, query@, max_results as nat)[r@.len() + j],
        decreases entries@.len() - i,
    {
        let ghost rest = entries@.subrange(i as int, entries@.len() as int);
        let e = &entries[i];
        proof {
            assert(rest.drop_first() =~= entries@.subrange(i + 1, entries@.len() as int));
            assert(rest[0] == *e);
        }
        if matches_query(e.name.as_str(), query) {
            proof {
                let tail = matching_entries(rest.drop_first(), query@, (left - 1) as nat);
                assert(matching_entries(rest, query@, left as nat) =~= seq![*e] + tail);
                assert(matching_entries(rest, query@, left as nat)[0] == *e);
                assert forall|j: int| 0 <= j < tail.len() implies tail[j] == matching_entries(
                    entries@,
                    query@,
                    max_results as nat,
                )[r@.len() + 1 + j] by {
                    assert(matching_entries(rest, query@, left as nat)[j + 1] == tail[j]);
                }
            }
            r.push(SearchResult { path: e.path.clone(), name: e.name.clone(), is_dir: e.is_dir });
            left = left - 1;
        }
        i = i + 1;
    }
    proof {
        let rest = entries@.subrange(i as int, entries@.len() as int);
        assert(matching_entries(rest, query@, left as nat).len() == 0);
    }
    r
}

/// A directory in the side panel's tree.
pub struct DirNode {
    pub path: String,
    pub name: String,
    pub children: Vec<DirNode>,
    pub is_expanded: bool,
}

/// The name shown for a directory: its file name, or the whole path when it
/// has none (such as the root).
pub open spec fn dir_display_name(path: Seq<char>) -> Seq<char> {
    match file_name_of(path_components(path)) {
        Some(n) => n,
        None => path,
    }
}

/// The name shown for a directory node.
pub fn dir_node_name(path: &str) -> (r: String)
    ensures
        r@ == dir_display_name(path@),
{
    let c = components(path);
    if has_file_name(&c) {
        file_name_or_default(path)
    } else {
        path.to_owned()
    }
}

fn has_file_name(c: &Vec<String>) -> (r: bool)
    ensures
        r == (file_name_of(strings_view(c@)) is Some),
{
    if c.len() == 0 {
        return false;
    }
    let last = chars_of(c[c.len() - 1].as_str());
    let is_root = last.len() == 1 && last[0] == '/';
    let is_cur = last.len() == 1 && last[0] == '.';
    let is_up = last.len() == 2 && last[0] == '.' && last[1] == '.';
    proof {
        assert(strings_view(c@).last() == last@);
        if is_root { assert(last@ =~= seq!['/']); }
        if is_cur { assert(last@ =~= seq!['.']); }
        if is_up { assert(last@ =~= seq!['.', '.']); }
        if last@ == seq!['/'] { assert(is_root); }
        if last@ == seq!['.'] { assert(is_cur); }
        if last@ == seq!['.', '.'] { assert(last@[0] == '.' && last@[1] == '.'); }
    }
    !(is_root || is_cur || is_up)
}

impl DirNode {
    /// A collapsed node for the directory at `path` with these children.
    pub fn from_parts(path: String, children: Vec<DirNode>) -> (n: Self)
        ensures
            n.path == path,
            n.name@ == dir_display_name(path@),
            n.children == children,
            !n.is_expanded,
    {
        let name = dir_node_name(path.as_str());
        DirNode { path, name, children, is_expanded: false }
    }
}

/// What `matching_entries` keeps, by induction over the entries.
proof fn lemma_matching_entries(s: Seq<WalkedEntry>, query: Seq<char>, max: nat)
    ensures
        matching_entries(s, query, max).len() <= max,
        forall|k: int|
            0 <= k < matching_entries(s, query, max).len() ==> s.contains(#[trigger] matching_entries(s, query, max)[k])
                && name_matches(matching_entries(s, query, max)[k].name@, query),
        matching_entries(s, query, max).len() < max ==> forall|i: int|
            0 <= i < s.len() && name_matches(s[i].name@, query) ==> #[trigger] matching_entries(s, query, max).contains(s[i]),
    decreases s.len(),
{
    if s.len() > 0 && max > 0 {
        let t = s.drop_first();
        let m = matching_entries(s, query, max);
        if name_matches(s[0].name@, query) {
            let mt = matching_entries(t, query, (max - 1) as nat);
            lemma_matching_entries(t, query, (max - 1) as nat);
            assert(m == seq![s[0]] + mt);
            assert forall|k: int| 0 <= k < m.len() implies s.contains(#[trigger] m[k]) && name_matches(m[k].name@, query) by {
                if k == 0 {
                    assert(s[0] == m[0]);
                } else {
                    assert(m[k] == mt[k - 1]);
                    let j = choose|j: int| 0 <= j < t.len() && t[j] == mt[k - 1];
                    assert(s[j + 1] == t[j]);
                }
            }
            if m.len() < max {
                assert forall|i: int| 0 <= i < s.len() && name_matches(s[i].name@, query) implies #[trigger] m.contains(s[i]) by {
                    if i == 0 {
                        assert(m[0] == s[0]);
                    } else {
                        assert(t[i - 1] == s[i]);
                        assert(mt.contains(t[i - 1]));
                        let k = choose|k: int| 0 <= k < mt.len() && mt[k] == t[i - 1];
                        assert(m[k + 1] == mt[k]);
                    }
                }
            }
        } else {
            let mt = matching_entries(t, query, max);
            lemma_matching_entries(t, query, max);
            assert(m == mt);
            assert forall|k: int| 0 <= k < m.len() implies s.contains(#[trigger] m[k]) && name_matches(m[k].name@, query) by {
                let j = choose|j: int| 0 <= j < t.len() && t[j] == mt[k];
                assert(s[j + 1] == t[j]);
            }
            if m.len() < max {
                assert forall|i: int| 0 <= i < s.len() && name_matches(s[i].name@, query) implies #[trigger] m.contains(s[i]) by {
                    assert(i != 0);
                    assert(t[i - 1] == s[i]);
                    assert(mt.contains(t[i - 1]));
                }
            }
        }
    }
}

/// A name matches a query exactly when the lowercased query occurs, as a run
/// of consecutive characters, somewhere in the lowercased name.
pub proof fn law_name_matches_substring(name: Seq<char>, query: Seq<char>)
    ensures
        name_matches(name, query) <==> exists|j: int|
            0 <= j && j + lowercase(query).len() <= lowercase(name).len()
                && #[trigger] lowercase(name).subrange(j, j + lowercase(query).len()) =~= lowercase(query),
{
    let ln = lowercase(name);
    let lq = lowercase(query);
    if name_matches(name, query) {
        let j = choose|j: int| crate::text::occurs_at(ln, lq, j);
        assert(ln.subrange(j, j + lq.len()) == lq);
    }
    if exists|j: int| 0 <= j && j + lq.len() <= ln.len() && #[trigger] ln.subrange(j, j + lq.len()) == lq {
        let j = choose|j: int| 0 <= j && j + lq.len() <= ln.len() && #[trigger] ln.subrange(j, j + lq.len()) == lq;
        assert(crate::text::occurs_at(ln, lq, j));
    }
}

/// A search keeps at most `max` entries.
pub proof fn law_search_keeps_at_most_max(s: Seq<WalkedEntry>, query: Seq<char>, max: nat)
    ensures
        matching_entries(s, query, max).len() <= max,
{
    lemma_matching_entries(s, query, max);
}

/// Each entry a search keeps is a walked entry whose name contains the query
/// (ignoring case).
pub proof fn law_search_results_contain_query(s: Seq<WalkedEntry>, query: Seq<char>, max: nat, k: int)
    requires
        0 <= k < matching_entries(s, query, max).len(),
    ensures
        s.contains(matching_entries(s, query, max)[k]),
        exists|j: int|
            0 <= j && j + lowercase(query).len() <= lowercase(matching_entries(s, query, max)[k].name@).len()
                && #[trigger] lowercase(matching_entries(s, query, max)[k].name@).subrange(j, j + lowercase(query).len())
                =~= lowercase(query),
{
    lemma_matching_entries(s, query, max);
    law_name_matches_substring(matching_entries(s, query, max)[k].name@, query);
}

/// A search that keeps fewer than `max` entries keeps every walked entry
/// whose name contains the query (ignoring case).
pub proof fn law_search_finds_every_match(s: Seq<WalkedEntry>, query: Seq<char>, max: nat, i: int)
    requires
        0 <= i < s.len(),
        matching_entries(s, query, max).len() < max,
        exists|j: int|
            0 <= j && j + lowercase(query).len() <= lowercase(s[i].name@).len()
                && #[trigger] lowercase(s[i].name@).subrange(j, j + lowercase(query).len()) =~= lowercase(query),
    ensures
        matching_entries(s, query, max).contains(s[i]),
{
    lemma_matching_entries(s, query, max);
    law_name_matches_substring(s[i].name@, query);
}

} // verus!
