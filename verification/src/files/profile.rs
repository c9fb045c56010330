//! Profiles: which files belong to which part of the user's life, what is
//! visible under the active filter, and what may be shared on the network.
//!
//! A profile assigned to a directory is inherited by everything below it,
//! unless something closer has a profile of its own.

use vstd::prelude::*;
use crate::paths::{
    components, has_parent, is_component_prefix, path_components, path_starts_with, paths_equal,
    root_only_first, root_text, same_path, starts_with, strings_view, PathMap,
};

verus! {

/// The profiles a file can belong to.
#[derive(Debug, Clone, Copy, PartialEq, Eq, Hash, Structural)]
pub enum Profile {
    Pessoal,
    Profissional,
    Dev,
}

/// The display name of a profile.
pub open spec fn profile_label(p: Profile) -> Seq<char> {
    match p {
        Profile::Pessoal => "Pessoal"@,
        Profile::Profissional => "Profissional"@,
        Profile::Dev => "Dev"@,
    }
}

/// Files of these profiles may be offered on the network.
pub open spec fn network_shared(p: Profile) -> bool {
    match p {
        Profile::Pessoal | Profile::Profissional => true,
        Profile::Dev => false,
    }
}

impl Profile {
    /// The display name.
    pub fn label(&self) -> (r: &'static str)
        ensures
            r@ == profile_label(*self),
    {
        match self {
            Profile::Pessoal => "Pessoal",
            Profile::Profissional => "Profissional",
            Profile::Dev => "Dev",
        }
    }

    /// Every profile, in display order.
    pub fn all() -> (r: [Profile; 3])
        ensures
            r@ == seq![Profile::Pessoal, Profile::Profissional, Profile::Dev],
    {
        let r = [Profile::Pessoal, Profile::Profissional, Profile::Dev];
        proof {
            assert(r@ =~= seq![Profile::Pessoal, Profile::Profissional, Profile::Dev]);
        }
        r
    }

    /// Whether files of this profile are offered on the network.
    pub fn is_network_shared(&self) -> (r: bool)
        ensures
            r == network_shared(*self),
    {
        match self {
            Profile::Pessoal | Profile::Profissional => true,
            Profile::Dev => false,
        }
    }
}

/// The selection after toggling `p`: removed if it was selected, added otherwise.
pub open spec fn toggled(selected: Set<Profile>, p: Profile) -> Set<Profile> {
    if selected.contains(p) {
        selected.remove(p)
    } else {
        selected.insert(p)
    }
}

/// The set of selected profiles. With none selected, every file is shown.
pub struct ProfileFilter {
    active: Vec<Profile>,
}

impl ProfileFilter {
    #[verifier::type_invariant]
    closed spec fn inv(&self) -> bool {
        self.active@.no_duplicates()
    }

    /// The selected profiles.
    pub closed spec fn view(&self) -> Set<Profile> {
        self.active@.to_set()
    }

    /// A filter with nothing selected (shows everything).
    pub fn none() -> (f: Self)
        ensures
            f@ == Set::<Profile>::empty(),
    {
        let f = ProfileFilter { active: Vec::new() };
        proof {
            assert(f@ =~= Set::<Profile>::empty());
        }
        f
    }

    /// A filter with one profile selected.
    pub fn single(profile: Profile) -> (f: Self)
        ensures
            f@ == set![profile],
    {
        let mut active: Vec<Profile> = Vec::new();
        active.push(profile);
        let f = ProfileFilter { active };
        proof {
            assert(f.active@ =~= seq![profile]);
            assert forall|q: Profile| f@.contains(q) <==> q == profile by {
                if q == profile {
                    assert(f.active@[0] == q);
                }
            }
            assert(f@ =~= set![profile]);
        }
        f
    }

    fn position(&self, profile: Profile) -> (r: Option<usize>)
        ensures
            match r {
                Some(i) => i < self.active@.len() && self.active@[i as int] == profile,
                None => !self@.contains(profile),
            },
    {
        let mut i: usize = 0;
        while i < self.active.len()
            invariant
                i <= self.active@.len(),
                forall|j: int| 0 <= j < i ==> self.active@[j] != profile,
            decreases self.active@.len() - i,
        {
            if self.active[i] == profile {
                return Some(i);
            }
            i = i + 1;
        }
        None
    }

    /// Whether a profile is selected.
    pub fn is_active(&self, profile: Profile) -> (r: bool)
        ensures
            r == self@.contains(profile),
    {
        self.position(profile).is_some()
    }

    /// Selects the profile if it was not selected, and deselects it otherwise.
    pub fn toggle(&mut self, profile: Profile)
        ensures
            final(self)@ == toggled(old(self)@, profile),
    {
        proof {
            use_type_invariant(&*self);
        }
        let found = self.position(profile);
        let mut active: Vec<Profile> = Vec::new();
        std::mem::swap(&mut active, &mut self.active);
        let ghost before = active@;
        match found {
            Some(i) => {
                active.remove(i);
                proof {
                    assert(active@ =~= before.remove(i as int));
                    assert forall|q: Profile| active@.contains(q) <==> (before.contains(q) && q
                        != profile) by {
                        if before.contains(q) && q != profile {
                            let j = choose|j: int| 0 <= j < before.len() && before[j] == q;
                            if j < i {
                                assert(active@[j] == q);
                            } else {
                                assert(j != i);
                                assert(active@[j - 1] == q);
                            }
                        }
                        if active@.contains(q) {
                            let j = choose|j: int| 0 <= j < active@.len() && active@[j] == q;
                            if j < i {
                                assert(before[j] == q);
                                assert(j != i);
                            } else {
                                assert(before[j + 1] == q);
                            }
                        }
                    }
                    assert(active@.to_set() =~= before.to_set().remove(profile));
                }
            },
            None => {
                active.push(profile);
                proof {
                    assert forall|q: Profile| active@.contains(q) <==> (before.contains(q) || q
                        == profile) by {
                        if before.contains(q) {
                            let j = choose|j: int| 0 <= j < before.len() && before[j] == q;
                            assert(active@[j] == q);
                        }
                        if q == profile {
                            assert(active@[before.len() as int] == q);
                        }
                    }
                    assert(active@.to_set() =~= before.to_set().insert(profile));
                    assert forall|a: int, b: int|
                        0 <= a < b < active@.len() implies active@[a] != active@[b] by {
                        if b == before.len() {
                            assert(before.contains(active@[a]));
                        }
                    }
                }
            },
        }
        self.active = active;
    }

    /// Whether nothing is selected (everything is shown).
    pub fn show_all(&self) -> (r: bool)
        ensures
            r == self@.is_empty(),
    {
        proof {
            if self.active@.len() > 0 {
                assert(self@.contains(self.active@[0]));
            } else {
                assert(self@ =~= Set::<Profile>::empty());
            }
        }
        self.active.len() == 0
    }

    /// Deselects every profile.
    pub fn clear(&mut self)
        ensures
            final(self)@ == Set::<Profile>::empty(),
    {
        self.active = Vec::new();
        proof {
            assert(self@ =~= Set::<Profile>::empty());
        }
    }

    /// Whether two filters select the same profiles.
    pub fn same_selection(&self, other: &ProfileFilter) -> (r: bool)
        ensures
            r == (self@ == other@),
    {
        let mut i: usize = 0;
        let all = Profile::all();
        while i < 3
            invariant
                all@ == seq![Profile::Pessoal, Profile::Profissional, Profile::Dev],
                i <= 3,
                forall|j: int| 0 <= j < i ==> (self@.contains(all@[j]) == other@.contains(all@[j])),
            decreases 3 - i,
        {
            if self.is_active(all[i]) != other.is_active(all[i]) {
                return false;
            }
            i = i + 1;
        }
        proof {
            assert forall|q: Profile| self@.contains(q) == other@.contains(q) by {
                match q {
                    Profile::Pessoal => assert(all@[0] == q),
                    Profile::Profissional => assert(all@[1] == q),
                    Profile::Dev => assert(all@[2] == q),
                }
            }
            assert(self@ =~= other@);
        }
        true
    }
}

impl Default for ProfileFilter {
    fn default() -> (f: Self)
        ensures
            f@ == Set::<Profile>::empty(),
    {
        ProfileFilter::none()
    }
}

/// The profile that a path with components `c` gets: its own, or else the
/// nearest ancestor's, walking up through parents.
pub open spec fn inherited_profile(assigned: Map<Seq<Seq<char>>, Profile>, c: Seq<Seq<char>>) -> Option<
    Profile,
>
    decreases c.len(),
{
    if assigned.contains_key(c) {
        Some(assigned[c])
    } else if has_parent(c) {
        inherited_profile(assigned, c.drop_last())
    } else {
        None
    }
}

/// Holds for the paths other than `dir`.
pub open spec fn other_than(dir: Seq<char>) -> spec_fn(Seq<char>) -> bool {
    |p: Seq<char>| !same_path(p, dir)
}

/// Which paths have which profile, and which directories are secure.
pub struct ProfileConfig {
    /// Profiles assigned explicitly, by path.
    pub assignments: PathMap<Profile>,
    /// Secure (encrypted) directories: nothing at or below them is shared.
    pub secure_directories: Vec<String>,
}

impl ProfileConfig {
    /// The explicit assignments, by components.
    pub open spec fn assigned(&self) -> Map<Seq<Seq<char>>, Profile> {
        self.assignments@
    }

    /// The profile a path resolves to.
    pub open spec fn resolved(&self, path: Seq<char>) -> Option<Profile> {
        inherited_profile(self.assigned(), path_components(path))
    }

    /// The path lies at or below one of the secure directories.
    pub open spec fn in_secure(&self, path: Seq<char>) -> bool {
        exists|i: int|
            0 <= i < self.secure_directories@.len() && path_starts_with(
                path,
                #[trigger] self.secure_directories@[i]@,
            )
    }

    /// The path is shown while `active` is the active profile.
    pub open spec fn visible(&self, path: Seq<char>, active: Profile) -> bool {
        match self.resolved(path) {
            Some(p) => p == active,
            None => true,
        }
    }

    /// The path is shown under a filter selecting `selected`.
    pub open spec fn visible_under(&self, path: Seq<char>, selected: Set<Profile>) -> bool {
        selected.is_empty() || match self.resolved(path) {
            Some(p) => selected.contains(p),
            None => true,
        }
    }

    /// The path may be offered on the network.
    pub open spec fn network_available(&self, path: Seq<char>) -> bool {
        !self.in_secure(path) && match self.resolved(path) {
            Some(p) => network_shared(p),
            None => false,
        }
    }

    /// No profile at all, nothing assigned, no secure directory.
    pub fn new() -> (c: Self)
        ensures
            c.assigned() == Map::<Seq<Seq<char>>, Profile>::empty(),
            c.secure_directories@.len() == 0,
    {
        ProfileConfig { assignments: PathMap::new(), secure_directories: Vec::new() }
    }

    /// The profile of a path: its own, or the nearest ancestor's.
    pub fn resolve_profile(&self, path: &str) -> (r: Option<Profile>)
        ensures
            r == self.resolved(path@),
    {
        let full = components(path);
        let mut prefix = full.clone();
        proof {
            assert(strings_view(prefix@) =~= strings_view(full@));
        }
        loop
            invariant
                inherited_profile(self.assigned(), strings_view(prefix@)) == self.resolved(path@),
            decreases prefix@.len(),
        {
            match self.assignments.get(&prefix) {
                Some(p) => {
                    return Some(*p);
                },
                None => {},
            }
            if prefix.len() == 0 || crate::paths::ends_in_root(&prefix) {
                return None;
            }
            let ghost before = prefix@;
            prefix.pop();
            proof {
                assert(strings_view(prefix@) =~= strings_view(before).drop_last());
            }
        }
    }

    /// Gives `path` the profile explicitly.
    pub fn assign_profile(&mut self, path: String, profile: Profile)
        ensures
            final(self).assigned() == old(self).assigned().insert(path_components(path@), profile),
            final(self).secure_directories == old(self).secure_directories,
    {
        self.assignments.insert(path, profile);
    }

    /// Takes away the explicit profile of `path` (it may still inherit one).
    pub fn remove_profile(&mut self, path: &str)
        ensures
            final(self).assigned() == old(self).assigned().remove(path_components(path@)),
            final(self).secure_directories == old(self).secure_directories,
    {
        let key = components(path);
        self.assignments.remove_key(&key);
    }

    /// A click on `profile` in a profile menu for `path`: when the path
    /// already resolves to it, its explicit profile is taken away; otherwise
    /// the profile is assigned to it. Returns whether it was assigned.
    pub fn toggle_profile(&mut self, path: String, profile: Profile) -> (assigned: bool)
        ensures
            assigned == (old(self).resolved(path@) != Some(profile)),
            assigned ==> final(self).assigned() == old(self).assigned().insert(path_components(path@), profile),
            !assigned ==> final(self).assigned() == old(self).assigned().remove(path_components(path@)),
            final(self).secure_directories == old(self).secure_directories,
    {
        let current = self.resolve_profile(path.as_str());
        if current == Some(profile) {
            self.remove_profile(path.as_str());
            false
        } else {
            self.assign_profile(path, profile);
            true
        }
    }

    /// `dir` itself is listed as a secure directory.
    pub open spec fn protects(&self, dir: Seq<char>) -> bool {
        exists|i: int| 0 <= i < self.secure_directories@.len() && same_path(#[trigger] self.secure_directories@[i]@, dir)
    }

    /// Whether `dir` itself is listed as a secure directory.
    pub fn is_protected(&self, dir: &str) -> (r: bool)
        ensures
            r == self.protects(dir@),
    {
        let mut i: usize = 0;
        while i < self.secure_directories.len()
            invariant
                i <= self.secure_directories@.len(),
                forall|j: int| 0 <= j < i ==> !same_path(#[trigger] self.secure_directories@[j]@, dir@),
            decreases self.secure_directories@.len() - i,
        {
            if paths_equal(self.secure_directories[i].as_str(), dir) {
                return true;
            }
            i = i + 1;
        }
        false
    }

    /// Protects `dir` when it is not listed as secure, otherwise unlists it
    /// (every listed path equal to it goes). Returns whether it is protected now.
    pub fn toggle_protection(&mut self, dir: &str) -> (r: bool)
        ensures
            r == !old(self).protects(dir@),
            final(self).protects(dir@) == r,
            !old(self).protects(dir@) ==> strings_view(final(self).secure_directories@) == strings_view(
                old(self).secure_directories@,
            ).push(dir@),
            old(self).protects(dir@) ==> strings_view(final(self).secure_directories@) == strings_view(
                old(self).secure_directories@,
            ).filter(other_than(dir@)),
            final(self).assigned() == old(self).assigned(),
    {
        let ghost old_dirs = strings_view(self.secure_directories@);
        let mut kept: Vec<String> = Vec::new();
        let mut found = false;
        let mut i: usize = 0;
        while i < self.secure_directories.len()
            invariant
                old_dirs == strings_view(self.secure_directories@),
                i <= self.secure_directories@.len(),
                strings_view(kept@) == old_dirs.subrange(0, i as int).filter(other_than(dir@)),
                found == exists|j: int| 0 <= j < i && same_path(#[trigger] self.secure_directories@[j]@, dir@),
            decreases self.secure_directories@.len() - i,
        {
            let here = self.secure_directories[i].clone();
            let same = paths_equal(here.as_str(), dir);
            proof {
                reveal(Seq::filter);
                assert(old_dirs.subrange(0, i + 1).drop_last() =~= old_dirs.subrange(0, i as int));
                assert(old_dirs.subrange(0, i + 1).last() == here@);
            }
            if same {
                found = true;
            } else {
                let ghost before = kept@;
                kept.push(here);
                proof {
                    assert(strings_view(kept@) =~= strings_view(before).push(here@));
                }
            }
            i = i + 1;
        }
        proof {
            assert(old_dirs.subrange(0, old_dirs.len() as int) =~= old_dirs);
        }
        if found {
            self.secure_directories = kept;
            proof {
                if self.protects(dir@) {
                    let j = choose|j: int| 0 <= j < self.secure_directories@.len() && same_path(
                        #[trigger] self.secure_directories@[j]@,
                        dir@,
                    );
                    assert(strings_view(self.secure_directories@)[j] == self.secure_directories@[j]@);
                    old_dirs.lemma_filter_pred(other_than(dir@), j);
                }
            }
            false
        } else {
            let ghost before = self.secure_directories@;
            self.secure_directories.push(dir.to_owned());
            proof {
                assert(strings_view(self.secure_directories@) =~= old_dirs.push(dir@));
                assert(same_path(self.secure_directories@[before.len() as int]@, dir@));
            }
            true
        }
    }

    /// Whether the path lies at or below a secure directory.
    pub fn is_in_secure_directory(&self, path: &str) -> (r: bool)
        ensures
            r == self.in_secure(path@),
    {
        let mut i: usize = 0;
        while i < self.secure_directories.len()
            invariant
                i <= self.secure_directories@.len(),
                forall|j: int|
                    0 <= j < i ==> !path_starts_with(path@, #[trigger] self.secure_directories@[j]@),
            decreases self.secure_directories@.len() - i,
        {
            if starts_with(path, self.secure_directories[i].as_str()) {
                return true;
            }
            i = i + 1;
        }
        false
    }

    /// Whether the path is shown while `active_profile` is active: files of
    /// another profile are hidden, files without a profile are always shown.
    pub fn is_visible(&self, path: &str, active_profile: Profile) -> (r: bool)
        ensures
            r == self.visible(path@, active_profile),
    {
        match self.resolve_profile(path) {
            Some(profile) => profile == active_profile,
            None => true,
        }
    }

    /// Whether the path is shown under a multi-profile filter.
    pub fn is_visible_filtered(&self, path: &str, filter: &ProfileFilter) -> (r: bool)
        ensures
            r == self.visible_under(path@, filter@),
    {
        if filter.show_all() {
            return true;
        }
        match self.resolve_profile(path) {
            Some(profile) => filter.is_active(profile),
            None => true,
        }
    }

    /// Whether the path may be offered on the network.
    pub fn is_network_available(&self, path: &str) -> (r: bool)
        ensures
            r == self.network_available(path@),
    {
        if self.is_in_secure_directory(path) {
            return false;
        }
        match self.resolve_profile(path) {
            Some(profile) => profile.is_network_shared(),
            None => false,
        }
    }

    /// Whether the path has no profile, neither its own nor inherited.
    pub fn needs_profile_assignment(&self, path: &str) -> (r: bool)
        ensures
            r == (self.resolved(path@) is None),
    {
        self.resolve_profile(path).is_none()
    }
}

impl Default for ProfileConfig {
    fn default() -> (c: Self)
        ensures
            c.assigned() == Map::<Seq<Seq<char>>, Profile>::empty(),
            c.secure_directories@.len() == 0,
    {
        ProfileConfig::new()
    }
}

/// A profile assigned to a path is the one that path resolves to.
pub proof fn law_assigned_path_resolves_to_its_profile(
    assigned: Map<Seq<Seq<char>>, Profile>,
    path: Seq<char>,
    profile: Profile,
)
    ensures
        inherited_profile(assigned.insert(path_components(path), profile), path_components(path))
            == Some(profile),
{
}

/// Inheritance: a path below a directory with a profile has that profile,
/// unless a path between them (or the path itself) has one of its own. The
/// walk from a path up to a directory passes no root, so the directory is not
/// the empty path above an absolute path.
pub proof fn law_inheritance(
    assigned: Map<Seq<Seq<char>>, Profile>,
    dir: Seq<Seq<char>>,
    path: Seq<Seq<char>>,
)
    requires
        root_only_first(path),
        is_component_prefix(dir, path),
        assigned.contains_key(dir),
        forall|k: int| dir.len() < k <= path.len() ==> !assigned.contains_key(#[trigger] path.subrange(0, k)),
        dir.len() > 0 || path.len() == 0 || path[0] != root_text(),
    ensures
        inherited_profile(assigned, path) == Some(assigned[dir]),
    decreases path.len(),
{
    if path.len() == dir.len() {
        assert(path.subrange(0, dir.len() as int) =~= path);
    } else {
        assert(path.subrange(0, path.len() as int) =~= path);
        assert(!assigned.contains_key(path));
        let up = path.drop_last();
        assert(path.last() != root_text()) by {
            if path.len() - 1 == 0 {
                assert(dir.len() == 0);
            }
        }
        assert(up.subrange(0, dir.len() as int) =~= path.subrange(0, dir.len() as int));
        assert forall|k: int| dir.len() < k <= up.len() implies !assigned.contains_key(
            #[trigger] up.subrange(0, k),
        ) by {
            assert(up.subrange(0, k) =~= path.subrange(0, k));
        }
        law_inheritance(assigned, dir, up);
    }
}

/// A path at or below a secure directory is never offered on the network,
/// whatever its profile.
pub proof fn law_secure_never_shared(config: ProfileConfig, path: Seq<char>, i: int)
    requires
        0 <= i < config.secure_directories@.len(),
        path_starts_with(path, config.secure_directories@[i]@),
    ensures
        !config.network_available(path),
{
}

/// Dev files and files without a profile are never offered on the network.
pub proof fn law_dev_and_unassigned_not_shared(config: ProfileConfig, path: Seq<char>)
    requires
        config.resolved(path) is None || config.resolved(path) == Some(Profile::Dev),
    ensures
        !config.network_available(path),
{
}

/// With no profile selected, every path is shown.
pub proof fn law_empty_filter_shows_all(config: ProfileConfig, path: Seq<char>)
    ensures
        config.visible_under(path, Set::<Profile>::empty()),
{
}

/// A path without a profile is visible whatever is active and whatever is selected.
pub proof fn law_unassigned_always_visible(
    config: ProfileConfig,
    path: Seq<char>,
    active: Profile,
    selected: Set<Profile>,
)
    requires
        config.resolved(path) is None,
    ensures
        config.visible(path, active),
        config.visible_under(path, selected),
{
}

/// Toggling a profile twice leaves the selection as it was.
pub proof fn law_toggle_twice(selected: Set<Profile>, profile: Profile)
    ensures
        toggled(toggled(selected, profile), profile) == selected,
{
    assert(toggled(toggled(selected, profile), profile) =~= selected);
}

/// Personal and professional files outside every secure directory are offered
/// on the network.
pub proof fn law_shared_profiles_available(config: ProfileConfig, path: Seq<char>)
    requires
        !config.in_secure(path),
        config.resolved(path) == Some(Profile::Pessoal) || config.resolved(path) == Some(Profile::Profissional),
    ensures
        config.network_available(path),
{
}

/// While a profile is active, files of another profile are hidden.
pub proof fn law_other_profile_hidden(config: ProfileConfig, path: Seq<char>, active: Profile, own: Profile)
    requires
        config.resolved(path) == Some(own),
        own != active,
    ensures
        !config.visible(path, active),
{
}

/// Under a filter that selects some profiles, files of an unselected profile
/// are hidden and files of a selected one are shown.
pub proof fn law_filter_shows_selected_profiles(config: ProfileConfig, path: Seq<char>, selected: Set<Profile>, own: Profile)
    requires
        config.resolved(path) == Some(own),
        !selected.is_empty(),
    ensures
        config.visible_under(path, selected) == selected.contains(own),
{
}

} // verus!
