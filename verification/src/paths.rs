//! Paths, seen the way `std::path::Path` sees them: as a sequence of
//! components. Equality, ancestry and prefixes of paths are all decided on
//! components, so `/a/b/` and `/a//b` are the same path.
//!
//! A component is written as its text: the root is `/`, the current
//! directory `.`, the parent directory `..`, any other component its name.

use vstd::prelude::*;
use crate::text::chars_of;

verus! {

/// The components of a path, as `Path::components` yields them, each written as
/// its text (`/` for the root).
pub uninterp spec fn path_components(path: Seq<char>) -> Seq<Seq<char>>;

/// The texts held by a vector of strings.
pub open spec fn strings_view(v: Seq<String>) -> Seq<Seq<char>> {
    v.map_values(|s: String| s@)
}

/// The text of the root component.
pub open spec fn root_text() -> Seq<char> {
    seq!['/']
}

/// Only the first component of a path can be the root (`Component::RootDir`
/// "appears after any prefix and before anything else"; other components are
/// names, `.` or `..`, which hold no separator).
pub open spec fn root_only_first(c: Seq<Seq<char>>) -> bool {
    forall|i: int| 1 <= i < c.len() ==> c[i] != root_text()
}

/// Calls `Path::components` and writes each component as its text; the result
/// is named `path_components` of the input, and only its first component can be
/// the root.
#[verifier::external_body]
pub(crate) fn components(path: &str) -> (r: Vec<String>)
    ensures
        strings_view(r@) == path_components(path@),
        root_only_first(strings_view(r@)),
{
    std::path::Path::new(path).components().map(
        |c| c.as_os_str().to_string_lossy().into_owned(),
    ).collect()
}

/// What `Path::parent` returns for a path, as text.
pub uninterp spec fn parent_text(path: Seq<char>) -> Option<Seq<char>>;

/// Calls `Path::parent`; the result is named `parent_text` of the input and,
/// being the path without its final component, is shorter than it.
#[verifier::external_body]
pub(crate) fn path_parent(path: &str) -> (r: Option<String>)
    ensures
        match r {
            Some(p) => parent_text(path@) == Some(p@) && p@.len() < path@.len(),
            None => parent_text(path@) is None,
        },
{
    std::path::Path::new(path).parent().map(|p| p.to_string_lossy().into_owned())
}

/// A path made of these components has a parent: it is neither empty nor ends
/// in the root.
pub open spec fn has_parent(c: Seq<Seq<char>>) -> bool {
    c.len() > 0 && c.last() != root_text()
}

/// `base` is a leading run of the components `c` (`Path::starts_with`).
pub open spec fn is_component_prefix(base: Seq<Seq<char>>, c: Seq<Seq<char>>) -> bool {
    base.len() <= c.len() && c.subrange(0, base.len() as int) == base
}

/// `path` lies at or below `base`.
pub open spec fn path_starts_with(path: Seq<char>, base: Seq<char>) -> bool {
    is_component_prefix(path_components(base), path_components(path))
}

/// Two paths are equal when their components are.
pub open spec fn same_path(a: Seq<char>, b: Seq<char>) -> bool {
    path_components(a) == path_components(b)
}

/// The final component, when it is a name (`Path::file_name`).
pub open spec fn file_name_of(c: Seq<Seq<char>>) -> Option<Seq<char>> {
    if c.len() > 0 && c.last() != root_text() && c.last() != seq!['.'] && c.last() != seq![
        '.',
        '.',
    ] {
        Some(c.last())
    } else {
        None
    }
}

/// The file name of a path, or the empty text when there is none
/// (`file_name().unwrap_or_default()`).
pub open spec fn file_name_or_empty(path: Seq<char>) -> Seq<char> {
    match file_name_of(path_components(path)) {
        Some(n) => n,
        None => Seq::empty(),
    }
}

/// Whether two strings hold the same text.
pub fn same_text(a: &String, b: &String) -> (r: bool)
    ensures
        r == (a@ == b@),
{
    *a == *b
}

/// Whether two component vectors are equal.
pub fn same_components(a: &Vec<String>, b: &Vec<String>) -> (r: bool)
    ensures
        r == (strings_view(a@) == strings_view(b@)),
{
    if a.len() != b.len() {
        proof {
            assert(strings_view(a@).len() != strings_view(b@).len());
        }
        return false;
    }
    let mut i: usize = 0;
    while i < a.len()
        invariant
            a@.len() == b@.len(),
            i <= a@.len(),
            forall|k: int| 0 <= k < i ==> a@[k]@ == b@[k]@,
        decreases a@.len() - i,
    {
        if !same_text(&a[i], &b[i]) {
            proof {
                assert(strings_view(a@)[i as int] != strings_view(b@)[i as int]);
            }
            return false;
        }
        i = i + 1;
    }
    proof {
        assert(strings_view(a@) =~= strings_view(b@));
    }
    true
}

/// Whether `base` is a leading run of `c`.
pub fn components_start_with(c: &Vec<String>, base: &Vec<String>) -> (r: bool)
    ensures
        r == is_component_prefix(strings_view(base@), strings_view(c@)),
{
    if base.len() > c.len() {
        return false;
    }
    let mut i: usize = 0;
    while i < base.len()
        invariant
            base@.len() <= c@.len(),
            i <= base@.len(),
            forall|k: int| 0 <= k < i ==> c@[k]@ == base@[k]@,
        decreases base@.len() - i,
    {
        if !same_text(&c[i], &base[i]) {
            proof {
                assert(strings_view(c@).subrange(0, base@.len() as int)[i as int] != strings_view(
                    base@,
                )[i as int]);
            }
            return false;
        }
        i = i + 1;
    }
    proof {
        assert(strings_view(c@).subrange(0, base@.len() as int) =~= strings_view(base@));
    }
    true
}

/// Whether `path` lies at or below `base` (`Path::starts_with`).
pub fn starts_with(path: &str, base: &str) -> (r: bool)
    ensures
        r == path_starts_with(path@, base@),
{
    let c = components(path);
    let b = components(base);
    components_start_with(&c, &b)
}

/// Whether two paths are the same path (`Path == Path`).
pub fn paths_equal(a: &str, b: &str) -> (r: bool)
    ensures
        r == same_path(a@, b@),
{
    let ca = components(a);
    let cb = components(b);
    same_components(&ca, &cb)
}

/// Whether the last component of a non-empty vector is the root.
pub fn ends_in_root(c: &Vec<String>) -> (r: bool)
    requires
        c@.len() > 0,
    ensures
        r == (strings_view(c@).last() == root_text()),
{
    let last = &c[c.len() - 1];
    let cs = chars_of(last.as_str());
    let r = cs.len() == 1 && cs[0] == '/';
    proof {
        if r {
            assert(cs@ =~= root_text());
        }
    }
    r
}

/// The file name of a path, or the empty string (`file_name().unwrap_or_default()`).
pub fn file_name_or_default(path: &str) -> (r: String)
    ensures
        r@ == file_name_or_empty(path@),
{
    let c = components(path);
    if c.len() == 0 {
        return String::new();
    }
    let last = c[c.len() - 1].clone();
    let cs = chars_of(last.as_str());
    let is_root = cs.len() == 1 && cs[0] == '/';
    let is_cur = cs.len() == 1 && cs[0] == '.';
    let is_up = cs.len() == 2 && cs[0] == '.' && cs[1] == '.';
    proof {
        assert(strings_view(c@).last() == last@);
        if is_root {
            assert(cs@ =~= root_text());
        }
        if is_cur {
            assert(cs@ =~= seq!['.']);
        }
        if is_up {
            assert(cs@ =~= seq!['.', '.']);
        }
        if cs@ == root_text() {
            assert(is_root);
        }
        if cs@ == seq!['.'] {
            assert(is_cur);
        }
        if cs@ == seq!['.', '.'] {
            assert(cs@[0] == '.' && cs@[1] == '.');
            assert(is_up);
        }
    }
    if is_root || is_cur || is_up {
        String::new()
    } else {
        last
    }
}

/// One entry of a [`PathMap`]: the path as it was first given, its components,
/// and the value.
pub struct PathEntry<V> {
    path: String,
    key: Vec<String>,
    value: V,
}

/// The components held as key by an entry.
pub closed spec fn entry_key<V>(e: PathEntry<V>) -> Seq<Seq<char>> {
    strings_view(e.key@)
}

/// The entries are consistent: each key is the components of its path, and no
/// two entries share a key.
pub closed spec fn entries_ok<V>(s: Seq<PathEntry<V>>) -> bool {
    &&& forall|i: int| 0 <= i < s.len() ==> #[trigger] entry_key(s[i]) == path_components(s[i].path@)
    &&& forall|i: int, j: int|
        0 <= i < s.len() && 0 <= j < s.len() && i != j ==> #[trigger] entry_key(s[i])
            != #[trigger] entry_key(s[j])
}

/// Some entry holds key `k`.
pub closed spec fn entries_have<V>(s: Seq<PathEntry<V>>, k: Seq<Seq<char>>) -> bool {
    exists|i: int| 0 <= i < s.len() && entry_key(s[i]) == k
}

/// The map described by a list of entries.
pub closed spec fn entries_map<V>(s: Seq<PathEntry<V>>) -> Map<Seq<Seq<char>>, V> {
    Map::new(
        |k: Seq<Seq<char>>| entries_have(s, k),
        |k: Seq<Seq<char>>|
            s[choose|i: int| 0 <= i < s.len() && entry_key(s[i]) == k].value,
    )
}

/// In consistent entries, entry `i` is the one holding its key.
proof fn lemma_entries_map<V>(s: Seq<PathEntry<V>>)
    requires
        entries_ok(s),
    ensures
        forall|i: int|
            0 <= i < s.len() ==> #[trigger] entries_map(s).contains_key(entry_key(s[i]))
                && entries_map(s)[entry_key(s[i])] == s[i].value,
        forall|k: Seq<Seq<char>>| #[trigger]
            entries_map(s).contains_key(k) <==> entries_have(s, k),
{
    assert forall|i: int| 0 <= i < s.len() implies #[trigger] entries_map(s).contains_key(
        entry_key(s[i]),
    ) && entries_map(s)[entry_key(s[i])] == s[i].value by {
        let k = entry_key(s[i]);
        assert(entries_have(s, k));
        let j = choose|j: int| 0 <= j < s.len() && entry_key(s[j]) == k;
        if j != i {
            assert(entry_key(s[i]) != entry_key(s[j]));
        }
    }
}

/// A map keyed by paths, where keys are compared by components (as
/// `HashMap<PathBuf, V>` compares them). The path text first given for a key
/// is kept when the value is later replaced.
pub struct PathMap<V> {
    entries: Vec<PathEntry<V>>,
}

impl<V> PathMap<V> {
    /// The path text held by entry `i`.
    pub closed spec fn path_at(&self, i: int) -> Seq<char> {
        self.entries@[i].path@
    }

    /// The value held by entry `i`.
    pub closed spec fn value_at(&self, i: int) -> V {
        self.entries@[i].value
    }

    /// Number of entries.
    pub closed spec fn spec_len(&self) -> nat {
        self.entries@.len()
    }

    #[verifier::type_invariant]
    closed spec fn inv(&self) -> bool {
        entries_ok(self.entries@)
    }

    /// The map from components to values.
    pub closed spec fn view(&self) -> Map<Seq<Seq<char>>, V> {
        entries_map(self.entries@)
    }

    /// An empty map.
    pub fn new() -> (m: Self)
        ensures
            m@ == Map::<Seq<Seq<char>>, V>::empty(),
            m.spec_len() == 0,
    {
        let m = PathMap { entries: Vec::new() };
        proof {
            assert(m@ =~= Map::<Seq<Seq<char>>, V>::empty());
        }
        m
    }

    /// The number of keys.
    pub fn len(&self) -> (n: usize)
        ensures
            n == self.spec_len(),
            n == self@.dom().len(),
    {
        proof {
            use_type_invariant(self);
            lemma_entries_map(self.entries@);
            lemma_entries_len(self.entries@);
        }
        self.entries.len()
    }

    fn find(&self, key: &Vec<String>) -> (r: Option<usize>)
        ensures
            match r {
                Some(i) => i < self.spec_len() && entry_key(self.entries@[i as int]) == strings_view(key@)
                    && self@.contains_key(strings_view(key@))
                    && self@[strings_view(key@)] == self.value_at(i as int),
                None => !self@.contains_key(strings_view(key@)),
            },
    {
        proof {
            use_type_invariant(self);
            lemma_entries_map(self.entries@);
        }
        let mut i: usize = 0;
        while i < self.entries.len()
            invariant
                i <= self.entries@.len(),
                forall|j: int| 0 <= j < i ==> entry_key(self.entries@[j]) != strings_view(key@),
            decreases self.entries@.len() - i,
        {
            if same_components(&self.entries[i].key, key) {
                proof {
                    use_type_invariant(self);
                    lemma_entries_map(self.entries@);
                }
                return Some(i);
            }
            i = i + 1;
        }
        None
    }

    /// The value stored for the path with components `key`.
    pub fn get(&self, key: &Vec<String>) -> (r: Option<&V>)
        ensures
            match r {
                Some(v) => self@.contains_key(strings_view(key@)) && *v == self@[strings_view(
                    key@,
                )],
                None => !self@.contains_key(strings_view(key@)),
            },
    {
        match self.find(key) {
            Some(i) => Some(&self.entries[i].value),
            None => None,
        }
    }

    /// Whether the path with components `key` has a value.
    pub fn contains(&self, key: &Vec<String>) -> (r: bool)
        ensures
            r == self@.contains_key(strings_view(key@)),
    {
        self.find(key).is_some()
    }

    /// The path text of entry `i`, for listing the map.
    pub fn path_of(&self, i: usize) -> (r: &String)
        requires
            i < self.spec_len(),
        ensures
            r@ == self.path_at(i as int),
    {
        &self.entries[i].path
    }

    /// The value of entry `i`, for listing the map.
    pub fn value_of(&self, i: usize) -> (r: &V)
        requires
            i < self.spec_len(),
        ensures
            *r == self.value_at(i as int),
    {
        &self.entries[i].value
    }

    /// Sets the value of `path`; a path already present keeps its first text
    /// and its place, a new one is listed last with the text given.
    pub fn insert(&mut self, path: String, value: V)
        ensures
            final(self)@ == old(self)@.insert(path_components(path@), value),
            forall|i: int| 0 <= i < old(self).spec_len() ==> #[trigger] final(self).path_at(i) == old(self).path_at(i),
            old(self)@.contains_key(path_components(path@)) ==> final(self).spec_len() == old(self).spec_len(),
            !old(self)@.contains_key(path_components(path@)) ==> final(self).spec_len() == old(self).spec_len() + 1
                && final(self).path_at(old(self).spec_len() as int) == path@,
    {
        proof {
            use_type_invariant(&*self);
            lemma_entries_map(self.entries@);
        }
        let key = components(&path);
        let found = self.find(&key);
        let ghost k = strings_view(key@);
        let mut entries: Vec<PathEntry<V>> = Vec::new();
        std::mem::swap(&mut entries, &mut self.entries);
        let ghost before = entries@;
        match found {
            Some(i) => {
                let mut e = entries.remove(i);
                e.value = value;
                entries.insert(i, e);
                proof {
                    assert(entries@ =~= before.update(i as int, e));
                    assert(forall|j: int| 0 <= j < entries@.len() && j != i ==> entries@[j] == before[j]);
                    assert(entry_key(entries@[i as int]) == entry_key(before[i as int]));
                }
            },
            None => {
                entries.push(PathEntry { path, key, value });
                proof {
                    assert(forall|j: int| 0 <= j < before.len() ==> entries@[j] == before[j]);
                    assert(!entries_have(before, k));
                }
            },
        }
        proof {
            let ghost after = entries@;
            assert(entries_ok(after));
            lemma_entries_map(after);
            lemma_entries_map(before);
            assert forall|kk: Seq<Seq<char>>|
                entries_have(after, kk) <==> (entries_have(before, kk) || kk == k) by {
                if entries_have(before, kk) {
                    let j = choose|j: int| 0 <= j < before.len() && entry_key(before[j]) == kk;
                    assert(entry_key(after[j]) == kk);
                }
                if kk == k {
                    match found {
                        Some(i) => { assert(entry_key(after[i as int]) == kk); },
                        None => { assert(entry_key(after[before.len() as int]) == kk); },
                    }
                }
                if entries_have(after, kk) && kk != k {
                    let j = choose|j: int| 0 <= j < after.len() && entry_key(after[j]) == kk;
                    assert(j < before.len());
                    assert(after[j] == before[j]);
                }
            }
            assert forall|kk: Seq<Seq<char>>| #[trigger] entries_map(after).contains_key(kk)
                implies entries_map(after)[kk] == entries_map(before).insert(k, value)[kk] by {
                let j = choose|j: int| 0 <= j < after.len() && entry_key(after[j]) == kk;
                assert(entries_map(after)[entry_key(after[j])] == after[j].value);
                if kk != k {
                    assert(j < before.len());
                    assert(after[j] == before[j]);
                } else {
                    match found {
                        Some(i) => {
                            if j != i {
                                assert(entry_key(after[j]) != entry_key(after[i as int]));
                            }
                        },
                        None => {
                            if j != before.len() {
                                assert(entry_key(after[j]) != entry_key(after[before.len() as int]));
                            }
                        },
                    }
                }
            }
            assert(entries_map(after) =~= entries_map(before).insert(k, value));
        }
        self.entries = entries;
    }

    /// Removes the value of the path with components `key`.
    pub fn remove_key(&mut self, key: &Vec<String>) -> (r: Option<V>)
        ensures
            final(self)@ == old(self)@.remove(strings_view(key@)),
            match r {
                Some(v) => old(self)@.contains_key(strings_view(key@)) && v == old(self)@[strings_view(
                    key@,
                )],
                None => !old(self)@.contains_key(strings_view(key@)),
            },
    {
        proof {
            use_type_invariant(&*self);
            lemma_entries_map(self.entries@);
        }
        let ghost k = strings_view(key@);
        match self.find(key) {
            Some(i) => {
                let mut entries: Vec<PathEntry<V>> = Vec::new();
                std::mem::swap(&mut entries, &mut self.entries);
                let ghost before = entries@;
                let e = entries.remove(i);
                proof {
                    assert(entries@ =~= before.remove(i as int));
                    assert(entries_ok(entries@));
                    lemma_entries_map(entries@);
                    assert forall|kk: Seq<Seq<char>>| entries_have(entries@, kk) <==> (entries_have(before, kk) && kk != k) by {
                        if entries_have(before, kk) && kk != k {
                            let j = choose|j: int| 0 <= j < before.len() && entry_key(before[j]) == kk;
                            if j < i {
                                assert(entries@[j] == before[j]);
                            } else {
                                assert(j != i);
                                assert(entries@[j - 1] == before[j]);
                            }
                        }
                    }
                    assert(entries_map(entries@) =~= entries_map(before).remove(k));
                }
                self.entries = entries;
                Some(e.value)
            },
            None => {
                proof {
                    assert(self@ =~= old(self)@.remove(k));
                }
                None
            },
        }
    }

    /// Removes every entry.
    pub fn clear(&mut self)
        ensures
            final(self)@ == Map::<Seq<Seq<char>>, V>::empty(),
            final(self).spec_len() == 0,
    {
        self.entries = Vec::new();
        proof {
            assert(self@ =~= Map::<Seq<Seq<char>>, V>::empty());
        }
    }
}

/// Consistent entries have as many keys as entries.
proof fn lemma_entries_len<V>(s: Seq<PathEntry<V>>)
    requires
        entries_ok(s),
    ensures
        entries_map(s).dom().len() == s.len(),
        entries_map(s).dom().finite(),
    decreases s.len(),
{
    if s.len() == 0 {
        assert(entries_map(s).dom() =~= Set::empty());
    } else {
        let t = s.drop_last();
        assert(entries_ok(t)) by {
            assert forall|i: int| 0 <= i < t.len() implies #[trigger] entry_key(t[i]) == path_components(t[i].path@) by {
                assert(t[i] == s[i]);
            }
            assert forall|i: int, j: int| 0 <= i < t.len() && 0 <= j < t.len() && i != j implies #[trigger] entry_key(t[i]) != #[trigger] entry_key(t[j]) by {
                assert(t[i] == s[i] && t[j] == s[j]);
            }
        }
        lemma_entries_len(t);
        let k = entry_key(s.last());
        assert forall|kk: Seq<Seq<char>>| entries_have(s, kk) <==> (entries_have(t, kk) || kk == k) by {
            if entries_have(t, kk) {
                let j = choose|j: int| 0 <= j < t.len() && entry_key(t[j]) == kk;
                assert(s[j] == t[j]);
            }
            if entries_have(s, kk) && kk != k {
                let j = choose|j: int| 0 <= j < s.len() && entry_key(s[j]) == kk;
                assert(j != s.len() - 1);
                assert(t[j] == s[j]);
            }
            if kk == k {
                assert(entry_key(s[s.len() - 1]) == kk);
            }
        }
        assert(!entries_have(t, k)) by {
            if entries_have(t, k) {
                let j = choose|j: int| 0 <= j < t.len() && entry_key(t[j]) == k;
                assert(t[j] == s[j]);
                assert(entry_key(s[j]) != entry_key(s[s.len() - 1]));
            }
        }
        assert(entries_map(s).dom() =~= entries_map(t).dom().insert(k));
    }
}

/// The position of the last `.` in a name, if any.
pub open spec fn last_dot(name: Seq<char>) -> Option<int>
    decreases name.len(),
{
    if name.len() == 0 {
        None
    } else if name.last() == '.' {
        Some(name.len() - 1)
    } else {
        last_dot(name.drop_last())
    }
}

/// A file name split at its last dot, as `Path::file_stem` and
/// `Path::extension` split it: `..`, names without a dot and names whose only
/// dot is the first character have no extension.
pub open spec fn split_stem_extension(name: Seq<char>) -> (Seq<char>, Option<Seq<char>>) {
    if name == seq!['.', '.'] {
        (name, None)
    } else {
        match last_dot(name) {
            None => (name, None),
            Some(k) => if k == 0 {
                (name, None)
            } else {
                (name.subrange(0, k), Some(name.subrange(k + 1, name.len() as int)))
            },
        }
    }
}

proof fn lemma_last_dot(name: Seq<char>, k: int)
    requires
        -1 <= k < name.len(),
        forall|j: int| k < j < name.len() ==> name[j] != '.',
        k >= 0 ==> name[k] == '.',
    ensures
        last_dot(name) == (if k < 0 { None::<int> } else { Some(k) }),
    decreases name.len(),
{
    if name.len() > 0 && k < name.len() - 1 {
        lemma_last_dot(name.drop_last(), k);
    }
}

/// The stem and extension of a file name (`Path::file_stem`, `Path::extension`).
pub fn stem_and_extension(name: &str) -> (r: (String, Option<String>))
    ensures
        r.0@ == split_stem_extension(name@).0,
        match r.1 {
            Some(e) => split_stem_extension(name@).1 == Some(e@),
            None => split_stem_extension(name@).1 is None,
        },
{
    let cs = chars_of(name);
    if cs.len() == 2 && cs[0] == '.' && cs[1] == '.' {
        proof {
            assert(cs@ =~= seq!['.', '.']);
        }
        return (name.to_owned(), None);
    }
    let mut k: usize = cs.len();
    while k > 0 && cs[k - 1] != '.'
        invariant
            cs@ == name@,
            k <= cs@.len(),
            forall|j: int| k <= j < cs@.len() ==> cs@[j] != '.',
        decreases k,
    {
        k = k - 1;
    }
    proof {
        if name@ == seq!['.', '.'] {
            assert(cs@[0] == '.' && cs@[1] == '.');
        }
        lemma_last_dot(name@, k - 1);
    }
    if k <= 1 {
        return (name.to_owned(), None);
    }
    let dot: usize = k - 1;
    let mut stem: Vec<char> = Vec::new();
    let mut i: usize = 0;
    while i < dot
        invariant
            cs@ == name@,
            dot < cs@.len(),
            i <= dot,
            stem@ == cs@.subrange(0, i as int),
        decreases dot - i,
    {
        stem.push(cs[i]);
        i = i + 1;
    }
    let mut ext: Vec<char> = Vec::new();
    let mut j: usize = k;
    while j < cs.len()
        invariant
            cs@ == name@,
            k <= j <= cs@.len(),
            ext@ == cs@.subrange(k as int, j as int),
        decreases cs@.len() - j,
    {
        ext.push(cs[j]);
        j = j + 1;
    }
    (crate::text::string_from_chars(&stem), Some(crate::text::string_from_chars(&ext)))
}

} // verus!
