//! Annotations that users attach to files and folders.
//!
//! The annotations of a path `X` live in a sidecar file `X.f1rma` beside it.
//! The store keeps them in memory by path; every change yields the sidecar
//! write that keeps the disk in step (writing the list, or removing the
//! sidecar once the list is empty), which the caller performs.

use vstd::prelude::*;
use crate::paths::{components, path_components, PathMap};
use crate::stamps::{new_uuid, now_micros};
use crate::text::concat;

verus! {

/// A note left by a user on a file.
pub struct Annotation {
    /// Random identifier.
    pub id: u128,
    pub content: String,
    pub author: String,
    pub machine_id: String,
    /// Creation time, in microseconds since the Unix epoch.
    pub created_at: i64,
    /// Last change, in microseconds since the Unix epoch.
    pub updated_at: i64,
}

impl Clone for Annotation {
    fn clone(&self) -> (r: Self)
        ensures
            r == *self,
    {
        Annotation {
            id: self.id,
            content: self.content.clone(),
            author: self.author.clone(),
            machine_id: self.machine_id.clone(),
            created_at: self.created_at,
            updated_at: self.updated_at,
        }
    }
}

impl Annotation {
    /// A new annotation, created now, with a fresh identifier.
    pub fn new(content: String, author: String, machine_id: String) -> (a: Self)
        ensures
            a.content == content,
            a.author == author,
            a.machine_id == machine_id,
            a.created_at == a.updated_at,
    {
        let now = now_micros();
        Annotation { id: new_uuid(), content, author, machine_id, created_at: now, updated_at: now }
    }

    /// Replaces the text, stamping the change with the current time.
    pub fn update(&mut self, content: String)
        ensures
            final(self).content == content,
            final(self).id == old(self).id,
            final(self).author == old(self).author,
            final(self).machine_id == old(self).machine_id,
            final(self).created_at == old(self).created_at,
    {
        self.content = content;
        self.updated_at = now_micros();
    }
}

/// The sidecar file holding the annotations of `path`.
pub open spec fn sidecar_of(path: Seq<char>) -> Seq<char> {
    path + ".f1rma"@
}

/// The path of the sidecar file for `path`: `path` followed by `.f1rma`.
pub fn sidecar_path(path: &str) -> (r: String)
    ensures
        r@ == sidecar_of(path@),
{
    concat(path, ".f1rma")
}

/// What to do on disk so the sidecar holds a list of annotations.
pub enum SidecarWrite {
    /// Remove the sidecar (the list is empty).
    Remove { sidecar: String },
    /// Write the list to the sidecar.
    Write { sidecar: String, annotations: Vec<Annotation> },
}

/// `w` keeps the sidecar of `path` in step with the list `anns`.
pub open spec fn writes_list(w: SidecarWrite, path: Seq<char>, anns: Seq<Annotation>) -> bool {
    match w {
        SidecarWrite::Remove { sidecar } => sidecar@ == sidecar_of(path) && anns.len() == 0,
        SidecarWrite::Write { sidecar, annotations } => sidecar@ == sidecar_of(path)
            && anns.len() > 0 && annotations@ == anns,
    }
}

/// `s` without the annotations whose identifier is `id`, order kept.
pub open spec fn without_id(s: Seq<Annotation>, id: u128) -> Seq<Annotation>
    decreases s.len(),
{
    if s.len() == 0 {
        s
    } else if s.last().id == id {
        without_id(s.drop_last(), id)
    } else {
        without_id(s.drop_last(), id).push(s.last())
    }
}

/// `k` is the first position of an annotation with identifier `id`.
pub open spec fn first_with_id(s: Seq<Annotation>, id: u128, k: int) -> bool {
    0 <= k < s.len() && s[k].id == id && forall|j: int| 0 <= j < k ==> s[j].id != id
}

/// The sidecar write that keeps `path`'s sidecar in step with `anns`.
fn write_plan(path: &str, anns: &Vec<Annotation>) -> (w: SidecarWrite)
    ensures
        writes_list(w, path@, anns@),
{
    let sidecar = sidecar_path(path);
    if anns.len() == 0 {
        SidecarWrite::Remove { sidecar }
    } else {
        SidecarWrite::Write { sidecar, annotations: anns.clone() }
    }
}

/// Annotations by path, as far as they were read from disk.
pub struct AnnotationStore {
    cache: PathMap<Vec<Annotation>>,
}

impl AnnotationStore {
    /// The annotations held in memory, by path components.
    pub closed spec fn view(&self) -> Map<Seq<Seq<char>>, Seq<Annotation>> {
        self.cache@.map_values(|v: Vec<Annotation>| v@)
    }

    /// The list held for `path`, or the empty list.
    pub open spec fn list_of(&self, path: Seq<char>) -> Seq<Annotation> {
        if self@.contains_key(path_components(path)) {
            self@[path_components(path)]
        } else {
            Seq::empty()
        }
    }

    /// A store holding nothing.
    pub fn new() -> (s: Self)
        ensures
            s@ == Map::<Seq<Seq<char>>, Seq<Annotation>>::empty(),
    {
        let s = AnnotationStore { cache: PathMap::new() };
        proof {
            assert(s@ =~= Map::<Seq<Seq<char>>, Seq<Annotation>>::empty());
        }
        s
    }

    /// Whether the annotations of `path` are held in memory.
    pub fn is_cached(&self, path: &str) -> (r: bool)
        ensures
            r == self@.contains_key(path_components(path@)),
    {
        let key = components(path);
        self.cache.contains(&key)
    }

    /// Holds `annotations`, read from the sidecar of `path`, unless that path is
    /// already held (then nothing changes).
    pub fn cache_loaded(&mut self, path: String, annotations: Vec<Annotation>)
        ensures
            old(self)@.contains_key(path_components(path@)) ==> final(self)@ == old(self)@,
            !old(self)@.contains_key(path_components(path@)) ==> final(self)@ == old(self)@.insert(
                path_components(path@),
                annotations@,
            ),
    {
        if !self.is_cached(path.as_str()) {
            let ghost k = path_components(path@);
            self.cache.insert(path, annotations);
            proof {
                assert(self@ =~= old(self)@.insert(k, annotations@));
            }
        }
    }

    /// The annotations held for `path`.
    pub fn get_annotations(&self, path: &str) -> (r: Option<&Vec<Annotation>>)
        ensures
            match r {
                Some(v) => self@.contains_key(path_components(path@)) && v@ == self@[path_components(
                    path@,
                )],
                None => !self@.contains_key(path_components(path@)),
            },
    {
        let key = components(path);
        self.cache.get(&key)
    }

    /// Adds an annotation to `path` (to its held list, or to an empty one when
    /// nothing is held) and says how to write the sidecar.
    pub fn add_annotation(&mut self, path: String, annotation: Annotation) -> (w: SidecarWrite)
        ensures
            final(self)@ == old(self)@.insert(
                path_components(path@),
                old(self).list_of(path@).push(annotation),
            ),
            writes_list(w, path@, old(self).list_of(path@).push(annotation)),
    {
        let key = components(path.as_str());
        let mut list: Vec<Annotation> = match self.cache.get(&key) {
            Some(l) => l.clone(),
            None => Vec::new(),
        };
        proof {
            if old(self)@.contains_key(path_components(path@)) {
                assert(list@ =~= old(self).list_of(path@));
            } else {
                assert(list@ =~= old(self).list_of(path@));
            }
        }
        list.push(annotation);
        let w = write_plan(path.as_str(), &list);
        let ghost l = list@;
        self.cache.insert(path, list);
        proof {
            assert(self@ =~= old(self)@.insert(path_components(path@), l));
        }
        w
    }

    /// Removes the annotations with identifier `id` from `path`. When one was
    /// removed, says how to write the sidecar; otherwise nothing changes.
    pub fn remove_annotation(&mut self, path: &str, annotation_id: u128) -> (r: Option<SidecarWrite>)
        ensures
            old(self)@.contains_key(path_components(path@)) && without_id(
                old(self)@[path_components(path@)],
                annotation_id,
            ).len() < old(self)@[path_components(path@)].len() ==> (r matches Some(w) && writes_list(
                w,
                path@,
                without_id(old(self)@[path_components(path@)], annotation_id),
            ) && final(self)@ == old(self)@.insert(
                path_components(path@),
                without_id(old(self)@[path_components(path@)], annotation_id),
            )),
            !(old(self)@.contains_key(path_components(path@)) && without_id(
                old(self)@[path_components(path@)],
                annotation_id,
            ).len() < old(self)@[path_components(path@)].len()) ==> (r is None && final(self)@
                == old(self)@),
    {
        let key = components(path);
        let kept: Vec<Annotation> = match self.cache.get(&key) {
            Some(list) => {
                let mut kept: Vec<Annotation> = Vec::new();
                let mut i: usize = 0;
                while i < list.len()
                    invariant
                        i <= list@.len(),
                        kept@ == without_id(list@.subrange(0, i as int), annotation_id),
                    decreases list@.len() - i,
                {
                    proof {
                        assert(list@.subrange(0, i + 1).drop_last() =~= list@.subrange(0, i as int));
                    }
                    if list[i].id != annotation_id {
                        kept.push(list[i].clone());
                    }
                    i = i + 1;
                }
                proof {
                    assert(list@.subrange(0, list@.len() as int) =~= list@);
                    lemma_without_id_len(list@, annotation_id);
                }
                if kept.len() < list.len() {
                    kept
                } else {
                    return None;
                }
            },
            None => {
                return None;
            },
        };
        let w = write_plan(path, &kept);
        let ghost l = kept@;
        let p = path.to_owned();
        self.cache.insert(p, kept);
        proof {
            assert(self@ =~= old(self)@.insert(path_components(path@), l));
        }
        Some(w)
    }

    /// Replaces the text of the first annotation of `path` with identifier `id`.
    /// When there is one, says how to write the sidecar; otherwise nothing changes.
    pub fn update_annotation(&mut self, path: &str, annotation_id: u128, new_content: String) -> (r:
        Option<SidecarWrite>)
        ensures
            match r {
                None => final(self)@ == old(self)@ && !(old(self)@.contains_key(
                    path_components(path@),
                ) && exists|k: int|
                    first_with_id(old(self)@[path_components(path@)], annotation_id, k)),
                Some(w) => exists|k: int|
                    {
                        &&& old(self)@.contains_key(path_components(path@))
                        &&& first_with_id(old(self)@[path_components(path@)], annotation_id, k)
                        &&& final(self)@.contains_key(path_components(path@))
                        &&& final(self)@ == old(self)@.insert(
                            path_components(path@),
                            final(self)@[path_components(path@)],
                        )
                        &&& final(self)@[path_components(path@)] == old(
                            self,
                        )@[path_components(path@)].update(
                            k,
                            final(self)@[path_components(path@)][k],
                        )
                        &&& final(self)@[path_components(path@)][k].content == new_content
                        &&& final(self)@[path_components(path@)][k].id == annotation_id
                        &&& final(self)@[path_components(path@)][k].author == old(
                            self,
                        )@[path_components(path@)][k].author
                        &&& final(self)@[path_components(path@)][k].machine_id == old(
                            self,
                        )@[path_components(path@)][k].machine_id
                        &&& final(self)@[path_components(path@)][k].created_at == old(
                            self,
                        )@[path_components(path@)][k].created_at
                        &&& writes_list(w, path@, final(self)@[path_components(path@)])
                    },
            },
    {
        let key = components(path);
        let mut list: Vec<Annotation> = match self.cache.get(&key) {
            Some(l) => l.clone(),
            None => {
                return None;
            },
        };
        let ghost before = list@;
        let mut i: usize = 0;
        while i < list.len()
            invariant
                list@ == before,
                i <= list@.len(),
                forall|j: int| 0 <= j < i ==> list@[j].id != annotation_id,
            ensures
                list@ == before,
                i <= list@.len(),
                forall|j: int| 0 <= j < i ==> list@[j].id != annotation_id,
                i == list@.len() || list@[i as int].id == annotation_id,
            decreases list@.len() - i,
        {
            if list[i].id == annotation_id {
                break;
            }
            i = i + 1;
        }
        if i == list.len() {
            proof {
                assert forall|k: int| !first_with_id(before, annotation_id, k) by {
                    if first_with_id(before, annotation_id, k) {
                        assert(list@[k].id != annotation_id);
                    }
                }
            }
            return None;
        }
        let mut a = list.remove(i);
        let ghost old_a = a;
        a.update(new_content);
        list.insert(i, a);
        proof {
            assert(list@ =~= before.update(i as int, a));
            assert(first_with_id(before, annotation_id, i as int));
        }
        let w = write_plan(path, &list);
        let ghost l = list@;
        let p = path.to_owned();
        self.cache.insert(p, list);
        proof {
            assert(self@ =~= old(self)@.insert(path_components(path@), l));
            assert(self@[path_components(path@)] == l);
            assert(l[i as int] == a);
            assert(self@ == old(self)@.insert(path_components(path@), self@[path_components(path@)]));
            assert(self@[path_components(path@)] == old(self)@[path_components(path@)].update(
                i as int,
                self@[path_components(path@)][i as int],
            ));
        }
        Some(w)
    }

    /// Forgets what is held for `path` (it will be read from disk again).
    pub fn invalidate(&mut self, path: &str)
        ensures
            final(self)@ == old(self)@.remove(path_components(path@)),
    {
        let key = components(path);
        self.cache.remove_key(&key);
        proof {
            assert(self@ =~= old(self)@.remove(path_components(path@)));
        }
    }
}

impl Default for AnnotationStore {
    fn default() -> (s: Self)
        ensures
            s@ == Map::<Seq<Seq<char>>, Seq<Annotation>>::empty(),
    {
        AnnotationStore::new()
    }
}

/// Taking out an identifier never lengthens a list, and shortens it exactly
/// when the identifier occurs.
pub proof fn lemma_without_id_len(s: Seq<Annotation>, id: u128)
    ensures
        without_id(s, id).len() <= s.len(),
        (without_id(s, id).len() < s.len()) == (exists|i: int| 0 <= i < s.len() && s[i].id == id),
        forall|i: int| 0 <= i < without_id(s, id).len() ==> (#[trigger] without_id(s, id)[i]).id != id,
    decreases s.len(),
{
    if s.len() > 0 {
        let t = s.drop_last();
        lemma_without_id_len(t, id);
        if exists|i: int| 0 <= i < t.len() && t[i].id == id {
            let i = choose|i: int| 0 <= i < t.len() && t[i].id == id;
            assert(s[i].id == id);
        }
        if exists|i: int| 0 <= i < s.len() && s[i].id == id {
            let i = choose|i: int| 0 <= i < s.len() && s[i].id == id;
            if i < t.len() {
                assert(t[i].id == id);
            }
        }
        let w = without_id(s, id);
        let wt = without_id(t, id);
        if s.last().id != id {
            assert forall|i: int| 0 <= i < w.len() implies (#[trigger] w[i]).id != id by {
                if i < wt.len() {
                    assert(w[i] == wt[i]);
                }
            }
        }
    }
}

/// After an annotation is removed, no annotation with its identifier is left.
pub proof fn law_removed_annotation_gone(s: Seq<Annotation>, id: u128)
    ensures
        forall|i: int| 0 <= i < without_id(s, id).len() ==> (#[trigger] without_id(s, id)[i]).id != id,
{
    lemma_without_id_len(s, id);
}

/// Removing an annotation takes out exactly the annotations with its
/// identifier: every other annotation stays, in its order.
pub proof fn law_remove_keeps_others(s: Seq<Annotation>, id: u128)
    ensures
        without_id(s, id) == s.filter(|a: Annotation| a.id != id),
        forall|i: int| 0 <= i < s.len() && s[i].id != id ==> #[trigger] without_id(s, id).contains(s[i]),
        forall|a: Annotation| #[trigger] without_id(s, id).contains(a) ==> s.contains(a) && a.id != id,
    decreases s.len(),
{
    reveal(Seq::filter);
    if s.len() > 0 {
        law_remove_keeps_others(s.drop_last(), id);
    }
    let pred = |a: Annotation| a.id != id;
    assert(without_id(s, id) == s.filter(pred));
    assert forall|i: int| 0 <= i < s.len() && s[i].id != id implies #[trigger] without_id(s, id).contains(s[i]) by {
        s.lemma_filter_contains(pred, i);
    }
    assert forall|a: Annotation| #[trigger] without_id(s, id).contains(a) implies s.contains(a) && a.id != id by {
        s.lemma_filter_contains_rev(pred, a);
        let k = choose|k: int| 0 <= k < s.filter(pred).len() && s.filter(pred)[k] == a;
        s.lemma_filter_pred(pred, k);
    }
}

} // verus!
