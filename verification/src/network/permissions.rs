//! Which remote machines may modify which local files.
//!
//! A trusted machine may modify anything; any other machine only the files it
//! was granted, until the grant is revoked or temporary grants are cleared.

use vstd::prelude::*;
use crate::keyed::TextMap;
use crate::paths::{paths_equal, same_path, same_text, strings_view};

verus! {

/// Some entry of `files` is the same path as `file`.
pub open spec fn lists_path(files: Seq<Seq<char>>, file: Seq<char>) -> bool {
    exists|i: int| 0 <= i < files.len() && same_path(#[trigger] files[i], file)
}

/// The files granted to `machine` (none when it has no entry).
pub open spec fn files_of(granted: Map<Seq<char>, Seq<Seq<char>>>, machine: Seq<char>) -> Seq<
    Seq<char>,
> {
    if granted.contains_key(machine) {
        granted[machine]
    } else {
        Seq::empty()
    }
}

/// `files` without every entry that is the same path as `file`, order kept.
pub open spec fn without_path(files: Seq<Seq<char>>, file: Seq<char>) -> Seq<Seq<char>>
    decreases files.len(),
{
    if files.len() == 0 {
        files
    } else if same_path(files.last(), file) {
        without_path(files.drop_last(), file)
    } else {
        without_path(files.drop_last(), file).push(files.last())
    }
}

/// `machine` may modify `file`: it is trusted, or was granted that file.
pub open spec fn permitted_by(
    trusted: Seq<Seq<char>>,
    granted: Map<Seq<char>, Seq<Seq<char>>>,
    machine: Seq<char>,
    file: Seq<char>,
) -> bool {
    trusted.contains(machine) || (granted.contains_key(machine) && lists_path(
        granted[machine],
        file,
    ))
}

/// The machines, in order, with every `machine` taken out.
pub open spec fn without_text(ids: Seq<Seq<char>>, machine: Seq<char>) -> Seq<Seq<char>>
    decreases ids.len(),
{
    if ids.len() == 0 {
        ids
    } else if ids.last() == machine {
        without_text(ids.drop_last(), machine)
    } else {
        without_text(ids.drop_last(), machine).push(ids.last())
    }
}

/// Permissions of remote machines to modify local files.
pub struct PermissionManager {
    /// Machines allowed to modify anything.
    pub trusted_machines: Vec<String>,
    /// Files each machine was granted, by machine id.
    pub active_permissions: TextMap<Vec<String>>,
    /// Whether every operation asks for confirmation.
    pub always_ask: bool,
}

impl PermissionManager {
    /// The trusted machines' ids.
    pub open spec fn trusted(&self) -> Seq<Seq<char>> {
        strings_view(self.trusted_machines@)
    }

    /// The granted files, by machine id.
    pub open spec fn granted(&self) -> Map<Seq<char>, Seq<Seq<char>>> {
        self.active_permissions@.map_values(|v: Vec<String>| strings_view(v@))
    }

    /// `machine` may modify `file`.
    pub open spec fn permitted(&self, machine: Seq<char>, file: Seq<char>) -> bool {
        permitted_by(self.trusted(), self.granted(), machine, file)
    }

    /// No machine trusted, nothing granted, and confirmation always asked.
    pub fn new() -> (m: Self)
        ensures
            m.trusted() == Seq::<Seq<char>>::empty(),
            m.granted() == Map::<Seq<char>, Seq<Seq<char>>>::empty(),
            m.always_ask,
    {
        let m = PermissionManager {
            trusted_machines: Vec::new(),
            active_permissions: TextMap::new(),
            always_ask: true,
        };
        proof {
            assert(m.trusted() =~= Seq::<Seq<char>>::empty());
            assert(m.granted() =~= Map::<Seq<char>, Seq<Seq<char>>>::empty());
        }
        m
    }

    fn trusted_position(&self, machine: &String) -> (r: Option<usize>)
        ensures
            match r {
                Some(i) => i < self.trusted_machines@.len() && self.trusted()[i as int]
                    == machine@,
                None => !self.trusted().contains(machine@),
            },
    {
        let mut i: usize = 0;
        while i < self.trusted_machines.len()
            invariant
                i <= self.trusted_machines@.len(),
                forall|j: int| 0 <= j < i ==> self.trusted()[j] != machine@,
            decreases self.trusted_machines@.len() - i,
        {
            if same_text(&self.trusted_machines[i], machine) {
                return Some(i);
            }
            i = i + 1;
        }
        None
    }

    /// Whether `machine_id` may modify `file_path`: a trusted machine may
    /// modify anything, any other machine only the files it was granted.
    pub fn has_permission(&self, machine_id: &str, file_path: &str) -> (r: bool)
        ensures
            r == self.permitted(machine_id@, file_path@),
    {
        let machine = machine_id.to_owned();
        if self.trusted_position(&machine).is_some() {
            return true;
        }
        match self.active_permissions.get(&machine) {
            Some(files) => {
                let mut i: usize = 0;
                while i < files.len()
                    invariant
                        i <= files@.len(),
                        machine@ == machine_id@,
                        self.active_permissions@.contains_key(machine@),
                        self.active_permissions@[machine@] == *files,
                        forall|j: int| 0 <= j < i ==> !same_path(#[trigger] files@[j]@, file_path@),
                    decreases files@.len() - i,
                {
                    if paths_equal(files[i].as_str(), file_path) {
                        proof {
                            assert(strings_view(files@)[i as int] == files@[i as int]@);
                            assert(self.granted()[machine_id@] == strings_view(files@));
                            assert(same_path(strings_view(files@)[i as int], file_path@));
                        }
                        return true;
                    }
                    i = i + 1;
                }
                proof {
                    assert(self.granted()[machine_id@] == strings_view(files@));
                    assert forall|j: int| 0 <= j < strings_view(files@).len() implies !same_path(
                        #[trigger] strings_view(files@)[j],
                        file_path@,
                    ) by {
                        assert(strings_view(files@)[j] == files@[j]@);
                    }
                }
                false
            },
            None => false,
        }
    }

    /// Grants `machine_id` permission to modify `file_path`.
    pub fn grant_permission(&mut self, machine_id: String, file_path: String)
        ensures
            final(self).granted() == old(self).granted().insert(
                machine_id@,
                files_of(old(self).granted(), machine_id@).push(file_path@),
            ),
            final(self).trusted() == old(self).trusted(),
            final(self).always_ask == old(self).always_ask,
    {
        let mut files: Vec<String> = match self.active_permissions.get(&machine_id) {
            Some(files) => files.clone(),
            None => Vec::new(),
        };
        let ghost before = strings_view(files@);
        proof {
            assert(before == files_of(old(self).granted(), machine_id@)) by {
                if old(self).granted().contains_key(machine_id@) {
                    assert(strings_view(files@) =~= old(self).granted()[machine_id@]);
                } else {
                    assert(before =~= Seq::<Seq<char>>::empty());
                }
            }
        }
        files.push(file_path);
        proof {
            assert(strings_view(files@) =~= before.push(file_path@));
        }
        self.active_permissions.insert(machine_id, files);
        proof {
            assert(self.granted() =~= old(self).granted().insert(
                machine_id@,
                files_of(old(self).granted(), machine_id@).push(file_path@),
            ));
        }
    }

    /// Takes back `machine_id`'s permission for `file_path` (every grant of it).
    pub fn revoke_permission(&mut self, machine_id: &str, file_path: &str)
        ensures
            old(self).granted().contains_key(machine_id@) ==> final(self).granted() == old(
                self,
            ).granted().insert(
                machine_id@,
                without_path(old(self).granted()[machine_id@], file_path@),
            ),
            !old(self).granted().contains_key(machine_id@) ==> final(self).granted() == old(
                self,
            ).granted(),
            final(self).trusted() == old(self).trusted(),
            final(self).always_ask == old(self).always_ask,
    {
        let machine = machine_id.to_owned();
        let kept = match self.active_permissions.get(&machine) {
            Some(files) => {
                let mut kept: Vec<String> = Vec::new();
                let mut i: usize = 0;
                while i < files.len()
                    invariant
                        i <= files@.len(),
                        strings_view(kept@) == without_path(
                            strings_view(files@).subrange(0, i as int),
                            file_path@,
                        ),
                    decreases files@.len() - i,
                {
                    let ghost prev = strings_view(files@).subrange(0, i as int);
                    proof {
                        assert(strings_view(files@).subrange(0, i + 1).drop_last() =~= prev);
                        assert(strings_view(files@).subrange(0, i + 1).last() == files@[i as int]@);
                    }
                    if !paths_equal(files[i].as_str(), file_path) {
                        kept.push(files[i].clone());
                        proof {
                            assert(strings_view(kept@) =~= without_path(prev, file_path@).push(
                                files@[i as int]@,
                            ));
                        }
                    }
                    i = i + 1;
                }
                proof {
                    assert(strings_view(files@).subrange(0, files@.len() as int) =~= strings_view(
                        files@,
                    ));
                }
                Some(kept)
            },
            None => None,
        };
        match kept {
            Some(kept) => {
                self.active_permissions.insert(machine, kept);
                proof {
                    assert(self.granted() =~= old(self).granted().insert(
                        machine_id@,
                        without_path(old(self).granted()[machine_id@], file_path@),
                    ));
                }
            },
            None => {},
        }
    }

    /// Trusts `machine_id` (listed once, however often it is trusted).
    pub fn trust_machine(&mut self, machine_id: String)
        ensures
            old(self).trusted().contains(machine_id@) ==> final(self).trusted() == old(
                self,
            ).trusted(),
            !old(self).trusted().contains(machine_id@) ==> final(self).trusted() == old(
                self,
            ).trusted().push(machine_id@),
            final(self).granted() == old(self).granted(),
            final(self).always_ask == old(self).always_ask,
    {
        if self.trusted_position(&machine_id).is_none() {
            self.trusted_machines.push(machine_id);
            proof {
                assert(self.trusted() =~= old(self).trusted().push(machine_id@));
            }
        }
    }

    /// No longer trusts `machine_id`.
    pub fn untrust_machine(&mut self, machine_id: &str)
        ensures
            final(self).trusted() == without_text(old(self).trusted(), machine_id@),
            !final(self).trusted().contains(machine_id@),
            forall|g: Seq<char>| g != machine_id@ ==> (#[trigger] final(self).trusted().contains(g) <==> old(self).trusted().contains(g)),
            final(self).granted() == old(self).granted(),
            final(self).always_ask == old(self).always_ask,
    {
        let machine = machine_id.to_owned();
        let mut kept: Vec<String> = Vec::new();
        let mut i: usize = 0;
        while i < self.trusted_machines.len()
            invariant
                i <= self.trusted_machines@.len(),
                strings_view(kept@) == without_text(self.trusted().subrange(0, i as int), machine@),
            decreases self.trusted_machines@.len() - i,
        {
            let ghost prev = self.trusted().subrange(0, i as int);
            proof {
                assert(self.trusted().subrange(0, i + 1).drop_last() =~= prev);
                assert(self.trusted().subrange(0, i + 1).last() == self.trusted_machines@[i as int]@);
            }
            if !same_text(&self.trusted_machines[i], &machine) {
                kept.push(self.trusted_machines[i].clone());
                proof {
                    assert(strings_view(kept@) =~= without_text(prev, machine@).push(
                        self.trusted_machines@[i as int]@,
                    ));
                }
            }
            i = i + 1;
        }
        proof {
            assert(self.trusted().subrange(0, self.trusted_machines@.len() as int) =~= self.trusted());
            law_untrust_keeps_others(self.trusted(), machine@);
            law_untrusted_not_trusted(self.trusted(), machine@);
        }
        self.trusted_machines = kept;
    }

    /// Drops every granted permission (trusted machines stay trusted).
    pub fn clear_temporary_permissions(&mut self)
        ensures
            final(self).granted() == Map::<Seq<char>, Seq<Seq<char>>>::empty(),
            final(self).trusted() == old(self).trusted(),
            final(self).always_ask == old(self).always_ask,
    {
        self.active_permissions.clear();
        proof {
            assert(self.granted() =~= Map::<Seq<char>, Seq<Seq<char>>>::empty());
        }
    }
}

impl Default for PermissionManager {
    fn default() -> (m: Self)
        ensures
            m.trusted() == Seq::<Seq<char>>::empty(),
            m.granted() == Map::<Seq<char>, Seq<Seq<char>>>::empty(),
            m.always_ask,
    {
        PermissionManager::new()
    }
}

/// `without_path` keeps exactly the entries that are not `file`.
pub proof fn lemma_without_path(files: Seq<Seq<char>>, file: Seq<char>)
    ensures
        !lists_path(without_path(files, file), file),
        forall|g: Seq<char>| !same_path(g, file) ==> (lists_path(without_path(files, file), g) <==> lists_path(files, g)),
    decreases files.len(),
{
    if files.len() > 0 {
        let t = files.drop_last();
        lemma_without_path(t, file);
        let w = without_path(files, file);
        let wt = without_path(t, file);
        assert forall|g: Seq<char>| #![trigger lists_path(files, g)] lists_path(files, g) <==> (lists_path(t, g) || same_path(files.last(), g)) by {
            if lists_path(files, g) {
                let i = choose|i: int| 0 <= i < files.len() && same_path(#[trigger] files[i], g);
                if i < t.len() {
                    assert(t[i] == files[i]);
                }
            }
            if lists_path(t, g) {
                let i = choose|i: int| 0 <= i < t.len() && same_path(#[trigger] t[i], g);
                assert(files[i] == t[i]);
            }
            if same_path(files.last(), g) {
                assert(same_path(files[files.len() - 1], g));
            }
        }
        if !same_path(files.last(), file) {
            assert forall|g: Seq<char>| #![trigger lists_path(w, g)] lists_path(w, g) <==> (lists_path(wt, g) || same_path(files.last(), g)) by {
                if lists_path(w, g) {
                    let i = choose|i: int| 0 <= i < w.len() && same_path(#[trigger] w[i], g);
                    if i < wt.len() {
                        assert(wt[i] == w[i]);
                    }
                }
                if lists_path(wt, g) {
                    let i = choose|i: int| 0 <= i < wt.len() && same_path(#[trigger] wt[i], g);
                    assert(w[i] == wt[i]);
                }
                if same_path(files.last(), g) {
                    assert(same_path(w[w.len() - 1], g));
                }
            }
        }
    }
}

/// After a grant, the machine may modify the granted file.
pub proof fn law_grant_then_permitted(
    trusted: Seq<Seq<char>>,
    granted: Map<Seq<char>, Seq<Seq<char>>>,
    machine: Seq<char>,
    file: Seq<char>,
)
    ensures
        permitted_by(
            trusted,
            granted.insert(machine, files_of(granted, machine).push(file)),
            machine,
            file,
        ),
{
    let files = files_of(granted, machine).push(file);
    assert(same_path(files[files.len() - 1], file));
}

/// After a revoke, a machine that is not trusted may no longer modify the file.
pub proof fn law_revoke_then_denied(
    trusted: Seq<Seq<char>>,
    granted: Map<Seq<char>, Seq<Seq<char>>>,
    machine: Seq<char>,
    file: Seq<char>,
)
    requires
        !trusted.contains(machine),
    ensures
        !permitted_by(
            trusted,
            if granted.contains_key(machine) {
                granted.insert(machine, without_path(granted[machine], file))
            } else {
                granted
            },
            machine,
            file,
        ),
{
    if granted.contains_key(machine) {
        lemma_without_path(granted[machine], file);
    }
}

/// A trusted machine may modify any file.
pub proof fn law_trusted_permitted_everywhere(
    trusted: Seq<Seq<char>>,
    granted: Map<Seq<char>, Seq<Seq<char>>>,
    machine: Seq<char>,
    file: Seq<char>,
)
    requires
        trusted.contains(machine),
    ensures
        permitted_by(trusted, granted, machine, file),
{
}

/// After the temporary permissions are cleared, only trusted machines may modify files.
pub proof fn law_cleared_only_trusted(
    trusted: Seq<Seq<char>>,
    machine: Seq<char>,
    file: Seq<char>,
)
    ensures
        permitted_by(trusted, Map::<Seq<char>, Seq<Seq<char>>>::empty(), machine, file)
            == trusted.contains(machine),
{
}

/// After untrusting a machine, it is no longer trusted.
pub proof fn law_untrusted_not_trusted(ids: Seq<Seq<char>>, machine: Seq<char>)
    ensures
        !without_text(ids, machine).contains(machine),
    decreases ids.len(),
{
    if ids.len() > 0 {
        law_untrusted_not_trusted(ids.drop_last(), machine);
        let t = without_text(ids.drop_last(), machine);
        if ids.last() != machine {
            assert forall|i: int| 0 <= i < t.push(ids.last()).len() implies t.push(ids.last())[i] != machine by {
                if i < t.len() {
                    assert(t.push(ids.last())[i] == t[i]);
                }
            }
        }
    }
}

/// Untrusting a machine takes out exactly that machine: the result is the
/// trusted list with every entry equal to it dropped and the others kept in
/// order, so every other machine stays trusted exactly when it was.
pub proof fn law_untrust_keeps_others(ids: Seq<Seq<char>>, machine: Seq<char>)
    ensures
        without_text(ids, machine) == ids.filter(|g: Seq<char>| g != machine),
        forall|g: Seq<char>| g != machine ==> (#[trigger] without_text(ids, machine).contains(g) <==> ids.contains(g)),
    decreases ids.len(),
{
    reveal(Seq::filter);
    if ids.len() > 0 {
        law_untrust_keeps_others(ids.drop_last(), machine);
    }
    let pred = |g: Seq<char>| g != machine;
    assert(without_text(ids, machine) == ids.filter(pred));
    assert forall|g: Seq<char>| g != machine implies (#[trigger] without_text(ids, machine).contains(g) <==> ids.contains(g)) by {
        if ids.contains(g) {
            let i = choose|i: int| 0 <= i < ids.len() && ids[i] == g;
            ids.lemma_filter_contains(pred, i);
        }
        if ids.filter(pred).contains(g) {
            ids.lemma_filter_contains_rev(pred, g);
        }
    }
}

} // verus!
