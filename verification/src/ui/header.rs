//! The header: profile selector, breadcrumb of the current folder, peers.

use vstd::prelude::*;
use crate::files::search::{dir_display_name, dir_node_name};
use crate::paths::{parent_text, path_parent, paths_equal, same_path};
use crate::text::{concat3, decimal, trim_text, trimmed, u64_to_decimal};

verus! {

/// The "new profile" dialog.
pub struct HeaderState {
    pub adding_profile: bool,
    pub new_profile_name: String,
}

impl HeaderState {
    /// Dialog closed, no name typed.
    pub fn new() -> (s: Self)
        ensures
            !s.adding_profile,
            s.new_profile_name@.len() == 0,
    {
        HeaderState { adding_profile: false, new_profile_name: String::new() }
    }

    /// Opens the dialog with an empty name.
    pub fn start_adding(&mut self)
        ensures
            final(self).adding_profile,
            final(self).new_profile_name@.len() == 0,
    {
        self.adding_profile = true;
        self.new_profile_name = String::new();
    }

    /// Confirms the dialog: closes it and gives the typed name, trimmed, unless
    /// it is empty.
    pub fn confirm(&mut self) -> (r: Option<String>)
        ensures
            !final(self).adding_profile,
            final(self).new_profile_name == old(self).new_profile_name,
            trimmed(old(self).new_profile_name@).len() > 0 ==> (r matches Some(n) && n@ == trimmed(
                old(self).new_profile_name@,
            )),
            trimmed(old(self).new_profile_name@).len() == 0 ==> r is None,
    {
        let name = trim_text(self.new_profile_name.as_str());
        self.adding_profile = false;
        if name.as_str().is_empty() {
            None
        } else {
            Some(name)
        }
    }

    /// Cancels the dialog.
    pub fn cancel(&mut self)
        ensures
            !final(self).adding_profile,
            final(self).new_profile_name == old(self).new_profile_name,
    {
        self.adding_profile = false;
    }
}

impl Default for HeaderState {
    fn default() -> (s: Self)
        ensures
            !s.adding_profile,
            s.new_profile_name@.len() == 0,
    {
        HeaderState::new()
    }
}

/// The peers indicator.
pub open spec fn peers_text(count: nat) -> Seq<char> {
    if count == 0 {
        "🌐 Nenhum peer"@
    } else {
        "🌐 "@ + decimal(count) + " peer(s)"@
    }
}

/// The peers indicator for `count` online peers.
pub fn peers_label(count: usize) -> (r: String)
    ensures
        r@ == peers_text(count as nat),
{
    if count == 0 {
        "🌐 Nenhum peer".to_owned()
    } else {
        concat3("🌐 ", u64_to_decimal(count as u64).as_str(), " peer(s)")
    }
}

/// The breadcrumb of a path: each ancestor from the top down to the path
/// itself, with the name shown for it.
pub open spec fn crumbs(path: Seq<char>) -> Seq<(Seq<char>, Seq<char>)>
    decreases path.len(),
{
    match parent_text(path) {
        Some(q) => if q.len() < path.len() && !same_path(q, path) {
            crumbs(q).push((dir_display_name(path), path))
        } else {
            seq![(dir_display_name(path), path)]
        },
        None => seq![(dir_display_name(path), path)],
    }
}

/// The breadcrumb segments of a path: (name, path) for each ancestor, from the
/// top down to the path itself.
pub fn breadcrumb_segments(path: &str) -> (r: Vec<(String, String)>)
    ensures
        r@.len() == crumbs(path@).len(),
        forall|i: int| 0 <= i < r@.len() ==> (#[trigger] r@[i]).0@ == crumbs(path@)[i].0 && r@[i].1@
            == crumbs(path@)[i].1,
    decreases path@.len(),
{
    let here = (dir_node_name(path), path.to_owned());
    match path_parent(path) {
        Some(q) => {
            if !paths_equal(q.as_str(), path) {
                let mut r = breadcrumb_segments(q.as_str());
                r.push(here);
                r
            } else {
                let mut r: Vec<(String, String)> = Vec::new();
                r.push(here);
                r
            }
        },
        None => {
            let mut r: Vec<(String, String)> = Vec::new();
            r.push(here);
            r
        },
    }
}

} // verus!
