//! The side panel: the folder tree and the quick search above it.

use vstd::prelude::*;
use crate::files::profile::{profile_label, Profile};
use crate::files::search::{matching_entries, reports, search_files, SearchResult, WalkedEntry};
use crate::naming::{first_free, first_free_name, join_name, joined};
use crate::paths::{components, path_components, strings_view, PathMap};
use crate::ui::main_panel::{name_before, name_precedes};
use crate::text::{chars_of, concat, concat3, decimal, u64_to_decimal};

verus! {

/// How many search results the side panel shows.
pub const TREE_SEARCH_LIMIT: usize = 20;

/// How deep the folder tree is drawn below the root.
pub const TREE_MAX_DEPTH: usize = 8;

/// The state of the side panel.
pub struct TreePanelState {
    pub search_query: String,
    pub search_results: Vec<SearchResult>,
    /// The folders shown open.
    pub expanded_dirs: PathMap<()>,
    /// A message and when it was posted, in milliseconds on the caller's clock.
    pub status_message: Option<(String, u64)>,
}

/// A query is searched for once it is at least two bytes long (its UTF-8
/// length, as `str::len` gives it).
pub open spec fn search_wanted(query: Seq<char>) -> bool {
    (vstd::utf8::encode_utf8(query).len() as usize) >= 2
}

impl TreePanelState {
    /// No query, no results, every folder closed, no message.
    pub fn new() -> (s: Self)
        ensures
            s.search_query@.len() == 0,
            s.search_results@.len() == 0,
            s.expanded_dirs@ == Map::<Seq<Seq<char>>, ()>::empty(),
            s.status_message is None,
    {
        TreePanelState {
            search_query: String::new(),
            search_results: Vec::new(),
            expanded_dirs: PathMap::new(),
            status_message: None,
        }
    }

    /// Whether `dir` is shown open.
    pub fn is_expanded(&self, dir: &str) -> (r: bool)
        ensures
            r == self.expanded_dirs@.contains_key(path_components(dir@)),
    {
        let key = components(dir);
        self.expanded_dirs.contains(&key)
    }

    /// A click on `dir` in the tree closes it when open and opens it when closed.
    pub fn toggle_expanded(&mut self, dir: &str)
        ensures
            old(self).expanded_dirs@.contains_key(path_components(dir@)) ==> final(self).expanded_dirs@.dom()
                == old(self).expanded_dirs@.dom().remove(path_components(dir@)),
            !old(self).expanded_dirs@.contains_key(path_components(dir@)) ==> final(self).expanded_dirs@.dom()
                == old(self).expanded_dirs@.dom().insert(path_components(dir@)),
            final(self).search_query@ == old(self).search_query@,
            final(self).search_results@ == old(self).search_results@,
            final(self).status_message == old(self).status_message,
    {
        let key = components(dir);
        if self.expanded_dirs.contains(&key) {
            self.expanded_dirs.remove_key(&key);
        } else {
            self.expanded_dirs.insert(dir.to_owned(), ());
        }
    }

    /// After the query was edited: searches the walked tree for it when it is
    /// long enough, keeping the first results; otherwise clears the results.
    pub fn refresh_search(&mut self, entries: &Vec<WalkedEntry>)
        ensures
            !search_wanted(old(self).search_query@) ==> final(self).search_results@.len() == 0,
            search_wanted(old(self).search_query@) ==> final(self).search_results@.len()
                == matching_entries(entries@, old(self).search_query@, TREE_SEARCH_LIMIT as nat).len()
                && forall|i: int|
                0 <= i < final(self).search_results@.len() ==> reports(
                    #[trigger] final(self).search_results@[i],
                    matching_entries(entries@, old(self).search_query@, TREE_SEARCH_LIMIT as nat)[i],
                ),
            final(self).search_query@ == old(self).search_query@,
            final(self).expanded_dirs@ == old(self).expanded_dirs@,
            final(self).status_message == old(self).status_message,
    {
        if self.search_query.as_str().len() >= 2 {
            self.search_results = search_files(entries, self.search_query.as_str(), TREE_SEARCH_LIMIT);
        } else {
            self.search_results = Vec::new();
        }
    }

    /// Posts a message at `now`.
    pub fn post(&mut self, text: String, now: u64)
        ensures
            final(self).status_message == Some((text, now)),
            final(self).search_query@ == old(self).search_query@,
            final(self).search_results@ == old(self).search_results@,
            final(self).expanded_dirs@ == old(self).expanded_dirs@,
    {
        self.status_message = Some((text, now));
    }
}

impl Default for TreePanelState {
    fn default() -> (s: Self)
        ensures
            s.search_query@.len() == 0,
            s.search_results@.len() == 0,
            s.expanded_dirs@ == Map::<Seq<Seq<char>>, ()>::empty(),
            s.status_message is None,
    {
        TreePanelState::new()
    }
}

/// Whether a folder at this depth below the root is still drawn.
pub fn within_tree_depth(depth: usize) -> (r: bool)
    ensures
        r == (depth <= TREE_MAX_DEPTH),
{
    depth <= TREE_MAX_DEPTH
}

/// Names starting with a dot are hidden.
pub fn is_hidden_name(name: &str) -> (r: bool)
    ensures
        r == (name@.len() > 0 && name@[0] == '.'),
{
    let cs = chars_of(name);
    cs.len() > 0 && cs[0] == '.'
}

/// `d` inserted into `s` before the first path that it comes before, so that
/// it stays behind every path equal to it.
pub open spec fn insert_path(s: Seq<Seq<char>>, d: Seq<char>) -> Seq<Seq<char>>
    decreases s.len(),
{
    if s.len() == 0 {
        seq![d]
    } else if name_before(d, s[0]) {
        seq![d] + s
    } else {
        seq![s[0]] + insert_path(s.drop_first(), d)
    }
}

/// The paths in code-point order of their text, equal paths kept in their
/// given order (a stable sort).
pub open spec fn paths_in_order(s: Seq<Seq<char>>) -> Seq<Seq<char>>
    decreases s.len(),
{
    if s.len() == 0 {
        s
    } else {
        insert_path(paths_in_order(s.drop_last()), s.last())
    }
}

/// Inserting at the first position whose path `d` comes before, past every
/// path it does not come before, is `insert_path`.
proof fn lemma_insert_path_at(s: Seq<Seq<char>>, d: Seq<char>, p: int)
    requires
        0 <= p <= s.len(),
        forall|j: int| 0 <= j < p ==> !name_before(d, #[trigger] s[j]),
        p == s.len() || name_before(d, s[p]),
    ensures
        insert_path(s, d) == s.insert(p, d),
    decreases p,
{
    if s.len() == 0 {
        assert(s.insert(p, d) =~= seq![d]);
    } else if p == 0 {
        assert(s.insert(0, d) =~= seq![d] + s);
    } else {
        assert(!name_before(d, s[0]));
        lemma_insert_path_at(s.drop_first(), d, p - 1);
        assert(seq![s[0]] + s.drop_first().insert(p - 1, d) =~= s.insert(p, d));
    }
}

/// The folders of one level of the tree in the order they are drawn: by
/// their path text in code-point order. The folders of one level share
/// their parent, so this is the order of their names' UTF-8 bytes, the order
/// in which their `PathBuf`s sort.
pub fn sort_dirs(dirs: &Vec<String>) -> (r: Vec<String>)
    ensures
        strings_view(r@) == paths_in_order(strings_view(dirs@)),
{
    let mut r: Vec<String> = Vec::new();
    let mut i: usize = 0;
    while i < dirs.len()
        invariant
            i <= dirs@.len(),
            strings_view(r@) == paths_in_order(strings_view(dirs@.subrange(0, i as int))),
        decreases dirs@.len() - i,
    {
        let d = dirs[i].clone();
        let mut p: usize = 0;
        while p < r.len() && !name_precedes(d.as_str(), r[p].as_str())
            invariant
                p <= r@.len(),
                forall|j: int| 0 <= j < p ==> !name_before(d@, #[trigger] strings_view(r@)[j]),
            decreases r@.len() - p,
        {
            p = p + 1;
        }
        let ghost before = r@;
        proof {
            let s = strings_view(dirs@.subrange(0, i + 1));
            assert(s.drop_last() =~= strings_view(dirs@.subrange(0, i as int)));
            assert(s.last() == d@);
            lemma_insert_path_at(strings_view(r@), d@, p as int);
        }
        r.insert(p, d);
        proof {
            assert(strings_view(r@) =~= strings_view(before).insert(p as int, d@));
        }
        i = i + 1;
    }
    proof {
        assert(dirs@.subrange(0, dirs@.len() as int) =~= dirs@);
    }
    r
}

/// The label of a folder in the tree, marked when it still needs a profile.
pub open spec fn tree_label_text(name: Seq<char>, needs_profile: bool) -> Seq<char> {
    if needs_profile {
        "📁 "@ + name + " ⚠"@
    } else {
        "📁 "@ + name
    }
}

/// The label of a folder in the tree.
pub fn tree_label(name: &str, needs_profile: bool) -> (r: String)
    ensures
        r@ == tree_label_text(name@, needs_profile),
{
    if needs_profile {
        concat3("📁 ", name, " ⚠")
    } else {
        concat("📁 ", name)
    }
}

/// The name the tree's quick rename gives a folder.
pub fn renamed_name(name: &str) -> (r: String)
    ensures
        r@ == name@ + "_renomeado"@,
{
    concat(name, "_renomeado")
}

/// The base name of a new item: `Nova pasta` for a folder, `Novo arquivo` with
/// the extension `.txt` for a file.
pub open spec fn new_item_stem(is_folder: bool) -> Seq<char> {
    if is_folder { "Nova pasta"@ } else { "Novo arquivo"@ }
}

/// The extension of a new item.
pub open spec fn new_item_extension(is_folder: bool) -> Seq<char> {
    if is_folder { ""@ } else { ".txt"@ }
}

/// Where a new item is created in `dir`, whose names are `taken`: under its
/// base name when free, otherwise the first free numbered variant.
pub fn new_item_path(dir: &str, is_folder: bool, taken: &Vec<String>) -> (r: String)
    requires
        taken@.len() + 2 <= u64::MAX,
    ensures
        exists|name: Seq<char>|
            first_free(new_item_stem(is_folder), new_item_extension(is_folder), strings_view(taken@), name)
                && r@ == joined(dir@, name),
{
    let stem = if is_folder { "Nova pasta" } else { "Novo arquivo" };
    let ext = if is_folder { "" } else { ".txt" };
    let name = first_free_name(stem, ext, taken);
    join_name(dir, name.as_str())
}

/// The message after trying to create an item from the tree.
pub open spec fn item_created_text(is_folder: bool, created: bool) -> Seq<char> {
    if !created {
        "Erro ao criar"@
    } else if is_folder {
        "Pasta criado"@
    } else {
        "Arquivo criado"@
    }
}

/// The message after trying to create an item from the tree.
pub fn item_created_message(is_folder: bool, created: bool) -> (r: String)
    ensures
        r@ == item_created_text(is_folder, created),
{
    if !created {
        "Erro ao criar".to_owned()
    } else if is_folder {
        "Pasta criado".to_owned()
    } else {
        "Arquivo criado".to_owned()
    }
}

/// The message after assigning a profile from the tree.
pub fn profile_assigned_message(p: Profile) -> (r: String)
    ensures
        r@ == "Perfil '"@ + profile_label(p) + "' atribuído"@,
{
    concat3("Perfil '", p.label(), "' atribuído")
}

/// The message after toggling a folder's protection.
pub fn protection_message(now_protected: bool) -> (r: String)
    ensures
        r@ == if now_protected { "Pasta protegida"@ } else { "Proteção removida"@ },
{
    if now_protected {
        "Pasta protegida".to_owned()
    } else {
        "Proteção removida".to_owned()
    }
}

/// The title above the search results.
pub fn results_title(count: usize) -> (r: String)
    ensures
        r@ == "Resultados ("@ + decimal(count as nat) + ")"@,
{
    concat3("Resultados (", u64_to_decimal(count as u64).as_str(), ")")
}

/// A search result in the side panel: a folder or file icon and the name.
pub fn search_result_label(result: &SearchResult) -> (r: String)
    ensures
        r@ == (if result.is_dir { "📁"@ } else { "📄"@ }) + " "@ + result.name@,
{
    concat3(if result.is_dir { "📁" } else { "📄" }, " ", result.name.as_str())
}

} // verus!
