//! A map keyed by text, kept as a list of entries with distinct keys.

use vstd::prelude::*;
use crate::paths::same_text;

verus! {

/// One entry of a [`TextMap`].
pub struct TextEntry<V> {
    key: String,
    value: V,
}

/// The key text of an entry.
pub closed spec fn text_entry_key<V>(e: TextEntry<V>) -> Seq<char> {
    e.key@
}

/// No two entries share a key.
pub closed spec fn text_entries_ok<V>(s: Seq<TextEntry<V>>) -> bool {
    &&& forall|i: int, j: int|
        0 <= i < s.len() && 0 <= j < s.len() && i != j ==> #[trigger] text_entry_key(s[i])
            != #[trigger] text_entry_key(s[j])
}

/// Some entry holds key `k`.
pub closed spec fn text_entries_have<V>(s: Seq<TextEntry<V>>, k: Seq<char>) -> bool {
    exists|i: int| 0 <= i < s.len() && text_entry_key(s[i]) == k
}

/// The map described by a list of entries.
pub closed spec fn text_entries_map<V>(s: Seq<TextEntry<V>>) -> Map<Seq<char>, V> {
    Map::new(
        |k: Seq<char>| text_entries_have(s, k),
        |k: Seq<char>|
            s[choose|i: int| 0 <= i < s.len() && text_entry_key(s[i]) == k].value,
    )
}

/// In consistent entries, entry `i` is the one holding its key.
proof fn lemma_text_entries_map<V>(s: Seq<TextEntry<V>>)
    requires
        text_entries_ok(s),
    ensures
        forall|i: int|
            0 <= i < s.len() ==> #[trigger] text_entries_map(s).contains_key(text_entry_key(s[i]))
                && text_entries_map(s)[text_entry_key(s[i])] == s[i].value,
        forall|k: Seq<char>| #[trigger]
            text_entries_map(s).contains_key(k) <==> text_entries_have(s, k),
{
    assert forall|i: int| 0 <= i < s.len() implies #[trigger] text_entries_map(s).contains_key(
        text_entry_key(s[i]),
    ) && text_entries_map(s)[text_entry_key(s[i])] == s[i].value by {
        let k = text_entry_key(s[i]);
        assert(text_entries_have(s, k));
        let j = choose|j: int| 0 <= j < s.len() && text_entry_key(s[j]) == k;
        if j != i {
            assert(text_entry_key(s[i]) != text_entry_key(s[j]));
        }
    }
}

/// A map keyed by text.
pub struct TextMap<V> {
    entries: Vec<TextEntry<V>>,
}

impl<V> TextMap<V> {
    /// The key held by entry `i`.
    pub closed spec fn key_at(&self, i: int) -> Seq<char> {
        self.entries@[i].key@
    }

    /// The value held by entry `i`.
    pub closed spec fn value_at(&self, i: int) -> V {
        self.entries@[i].value
    }

    /// Number of entries.
    pub closed spec fn spec_len(&self) -> nat {
        self.entries@.len()
    }

    #[verifier::type_invariant]
    closed spec fn inv(&self) -> bool {
        text_entries_ok(self.entries@)
    }

    /// The map from keys to values.
    pub closed spec fn view(&self) -> Map<Seq<char>, V> {
        text_entries_map(self.entries@)
    }

    /// An empty map.
    pub fn new() -> (m: Self)
        ensures
            m@ == Map::<Seq<char>, V>::empty(),
            m.spec_len() == 0,
    {
        let m = TextMap { entries: Vec::new() };
        proof {
            assert(m@ =~= Map::<Seq<char>, V>::empty());
        }
        m
    }

    /// The number of keys.
    pub fn len(&self) -> (n: usize)
        ensures
            n == self.spec_len(),
            n == self@.dom().len(),
    {
        proof {
            use_type_invariant(self);
            lemma_text_entries_map(self.entries@);
            lemma_text_entries_len(self.entries@);
        }
        self.entries.len()
    }

    fn find(&self, key: &String) -> (r: Option<usize>)
        ensures
            match r {
                Some(i) => i < self.spec_len() && text_entry_key(self.entries@[i as int]) == key@
                    && self@.contains_key(key@)
                    && self@[key@] == self.value_at(i as int),
                None => !self@.contains_key(key@),
            },
    {
        proof {
            use_type_invariant(self);
            lemma_text_entries_map(self.entries@);
        }
        let mut i: usize = 0;
        while i < self.entries.len()
            invariant
                i <= self.entries@.len(),
                forall|j: int| 0 <= j < i ==> text_entry_key(self.entries@[j]) != key@,
            decreases self.entries@.len() - i,
        {
            if same_text(&self.entries[i].key, key) {
                proof {
                    use_type_invariant(self);
                    lemma_text_entries_map(self.entries@);
                }
                return Some(i);
            }
            i = i + 1;
        }
        None
    }

    /// The value stored for `key`.
    pub fn get(&self, key: &String) -> (r: Option<&V>)
        ensures
            match r {
                Some(v) => self@.contains_key(key@) && *v == self@[key@],
                None => !self@.contains_key(key@),
            },
    {
        match self.find(key) {
            Some(i) => Some(&self.entries[i].value),
            None => None,
        }
    }

    /// Whether `key` has a value.
    pub fn contains(&self, key: &String) -> (r: bool)
        ensures
            r == self@.contains_key(key@),
    {
        self.find(key).is_some()
    }

    /// The key of entry `i`, for listing the map.
    pub fn key_of(&self, i: usize) -> (r: &String)
        requires
            i < self.spec_len(),
        ensures
            r@ == self.key_at(i as int),
    {
        &self.entries[i].key
    }

    /// The value of entry `i`, for listing the map.
    pub fn value_of(&self, i: usize) -> (r: &V)
        requires
            i < self.spec_len(),
        ensures
            *r == self.value_at(i as int),
    {
        &self.entries[i].value
    }

    /// Sets the value of `key`.
    pub fn insert(&mut self, key: String, value: V)
        ensures
            final(self)@ == old(self)@.insert(key@, value),
    {
        proof {
            use_type_invariant(&*self);
            lemma_text_entries_map(self.entries@);
        }
        let found = self.find(&key);
        let ghost k = key@;
        let mut entries: Vec<TextEntry<V>> = Vec::new();
        std::mem::swap(&mut entries, &mut self.entries);
        let ghost before = entries@;
        match found {
            Some(i) => {
                let mut e = entries.remove(i);
                e.value = value;
                entries.insert(i, e);
                proof {
                    assert(entries@ =~= before.update(i as int, e));
                    assert(forall|j: int| 0 <= j < entries@.len() && j != i ==> entries@[j] == before[j]);
                    assert(text_entry_key(entries@[i as int]) == text_entry_key(before[i as int]));
                }
            },
            None => {
                entries.push(TextEntry { key, value });
                proof {
                    assert(forall|j: int| 0 <= j < before.len() ==> entries@[j] == before[j]);
                    assert(!text_entries_have(before, k));
                }
            },
        }
        proof {
            let ghost after = entries@;
            assert(text_entries_ok(after));
            lemma_text_entries_map(after);
            lemma_text_entries_map(before);
            assert forall|kk: Seq<char>|
                text_entries_have(after, kk) <==> (text_entries_have(before, kk) || kk == k) by {
                if text_entries_have(before, kk) {
                    let j = choose|j: int| 0 <= j < before.len() && text_entry_key(before[j]) == kk;
                    assert(text_entry_key(after[j]) == kk);
                }
                if kk == k {
                    match found {
                        Some(i) => { assert(text_entry_key(after[i as int]) == kk); },
                        None => { assert(text_entry_key(after[before.len() as int]) == kk); },
                    }
                }
                if text_entries_have(after, kk) && kk != k {
                    let j = choose|j: int| 0 <= j < after.len() && text_entry_key(after[j]) == kk;
                    assert(j < before.len());
                    assert(after[j] == before[j]);
                }
            }
            assert forall|kk: Seq<char>| #[trigger] text_entries_map(after).contains_key(kk)
                implies text_entries_map(after)[kk] == text_entries_map(before).insert(k, value)[kk] by {
                let j = choose|j: int| 0 <= j < after.len() && text_entry_key(after[j]) == kk;
                assert(text_entries_map(after)[text_entry_key(after[j])] == after[j].value);
                if kk != k {
                    assert(j < before.len());
                    assert(after[j] == before[j]);
                } else {
                    match found {
                        Some(i) => {
                            if j != i {
                                assert(text_entry_key(after[j]) != text_entry_key(after[i as int]));
                            }
                        },
                        None => {
                            if j != before.len() {
                                assert(text_entry_key(after[j]) != text_entry_key(after[before.len() as int]));
                            }
                        },
                    }
                }
            }
            assert(text_entries_map(after) =~= text_entries_map(before).insert(k, value));
        }
        self.entries = entries;
    }

    /// Removes the value of `key`.
    pub fn remove_key(&mut self, key: &String) -> (r: Option<V>)
        ensures
            final(self)@ == old(self)@.remove(key@),
            match r {
                Some(v) => old(self)@.contains_key(key@) && v == old(self)@[key@],
                None => !old(self)@.contains_key(key@),
            },
    {
        proof {
            use_type_invariant(&*self);
            lemma_text_entries_map(self.entries@);
        }
        let ghost k = key@;
        match self.find(key) {
            Some(i) => {
                let mut entries: Vec<TextEntry<V>> = Vec::new();
                std::mem::swap(&mut entries, &mut self.entries);
                let ghost before = entries@;
                let e = entries.remove(i);
                proof {
                    assert(entries@ =~= before.remove(i as int));
                    assert(text_entries_ok(entries@));
                    lemma_text_entries_map(entries@);
                    assert forall|kk: Seq<char>| text_entries_have(entries@, kk) <==> (text_entries_have(before, kk) && kk != k) by {
                        if text_entries_have(before, kk) && kk != k {
                            let j = choose|j: int| 0 <= j < before.len() && text_entry_key(before[j]) == kk;
                            if j < i {
                                assert(entries@[j] == before[j]);
                            } else {
                                assert(j != i);
                                assert(entries@[j - 1] == before[j]);
                            }
                        }
                    }
                    assert(text_entries_map(entries@) =~= text_entries_map(before).remove(k));
                }
                self.entries = entries;
                Some(e.value)
            },
            None => {
                proof {
                    assert(self@ =~= old(self)@.remove(k));
                }
                None
            },
        }
    }

    /// Removes every entry.
    pub fn clear(&mut self)
        ensures
            final(self)@ == Map::<Seq<char>, V>::empty(),
            final(self).spec_len() == 0,
    {
        self.entries = Vec::new();
        proof {
            assert(self@ =~= Map::<Seq<char>, V>::empty());
        }
    }
}

/// Consistent entries have as many keys as entries.
proof fn lemma_text_entries_len<V>(s: Seq<TextEntry<V>>)
    requires
        text_entries_ok(s),
    ensures
        text_entries_map(s).dom().len() == s.len(),
        text_entries_map(s).dom().finite(),
    decreases s.len(),
{
    if s.len() == 0 {
        assert(text_entries_map(s).dom() =~= Set::empty());
    } else {
        let t = s.drop_last();
        assert(text_entries_ok(t)) by {
            assert forall|i: int, j: int| 0 <= i < t.len() && 0 <= j < t.len() && i != j implies #[trigger] text_entry_key(t[i]) != #[trigger] text_entry_key(t[j]) by {
                assert(t[i] == s[i] && t[j] == s[j]);
            }
        }
        lemma_text_entries_len(t);
        let k = text_entry_key(s.last());
        assert forall|kk: Seq<char>| text_entries_have(s, kk) <==> (text_entries_have(t, kk) || kk == k) by {
            if text_entries_have(t, kk) {
                let j = choose|j: int| 0 <= j < t.len() && text_entry_key(t[j]) == kk;
                assert(s[j] == t[j]);
            }
            if text_entries_have(s, kk) && kk != k {
                let j = choose|j: int| 0 <= j < s.len() && text_entry_key(s[j]) == kk;
                assert(j != s.len() - 1);
                assert(t[j] == s[j]);
            }
            if kk == k {
                assert(text_entry_key(s[s.len() - 1]) == kk);
            }
        }
        assert(!text_entries_have(t, k)) by {
            if text_entries_have(t, k) {
                let j = choose|j: int| 0 <= j < t.len() && text_entry_key(t[j]) == k;
                assert(t[j] == s[j]);
                assert(text_entry_key(s[j]) != text_entry_key(s[s.len() - 1]));
            }
        }
        assert(text_entries_map(s).dom() =~= text_entries_map(t).dom().insert(k));
    }
}

} // verus!
