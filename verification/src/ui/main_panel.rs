//! The central panel: the files of the current folder, selection, clipboard
//! and the dialogs that act on them.

use vstd::prelude::*;
use crate::files::profile::{Profile, ProfileConfig, ProfileFilter, profile_label};
use crate::ui::tree_panel::is_hidden_name;
use crate::naming::{dotted_extension, first_free, first_free_name, first_free_number, first_free_numbered, holds_name, join_name, joined, name_stem, numbered_name, parent_or_self, parent_or_self_of, stem_and_dotted_extension};
use crate::paths::{file_name_or_default, file_name_or_empty, parent_text, path_parent, same_path, paths_equal, strings_view};
use crate::text::{same_chars, chars_of, concat, concat3, decimal, lowercase, string_from_chars, to_lowercase, trim_text, trimmed, u64_to_decimal};

verus! {

/// A pending copy or move in the internal clipboard.
#[derive(Debug, Clone, Copy, PartialEq, Eq, Structural)]
pub enum ClipboardAction {
    Copy,
    Cut,
}

/// Paths copied or cut, waiting to be pasted.
pub struct FileClipboard {
    pub paths: Vec<String>,
    pub action: ClipboardAction,
}

/// An action asked for by a context menu, handled outside the menu.
pub enum ContextAction {
    /// Nothing asked for.
    NoAction,
    Rename(String),
    NewFolder(String),
    NewFile(String),
    Refresh,
}

/// The rename dialog.
pub struct RenameDialogState {
    pub active: bool,
    pub path: Option<String>,
    pub new_name: String,
}

impl RenameDialogState {
    /// Closed, with nothing to rename.
    pub fn new() -> (s: Self)
        ensures
            !s.active,
            s.path is None,
            s.new_name@.len() == 0,
    {
        RenameDialogState { active: false, path: None, new_name: String::new() }
    }
}

impl Default for RenameDialogState {
    fn default() -> (s: Self)
        ensures
            !s.active,
            s.path is None,
            s.new_name@.len() == 0,
    {
        RenameDialogState::new()
    }
}

/// The new file / new folder dialog.
pub struct NewItemDialogState {
    pub active: bool,
    pub is_folder: bool,
    pub name: String,
    pub parent: Option<String>,
}

impl NewItemDialogState {
    /// Closed.
    pub fn new() -> (s: Self)
        ensures
            !s.active,
            !s.is_folder,
            s.name@.len() == 0,
            s.parent is None,
    {
        NewItemDialogState { active: false, is_folder: false, name: String::new(), parent: None }
    }

    /// Opened to create a folder (or a file) inside `parent`.
    pub fn open_in(is_folder: bool, parent: String) -> (s: Self)
        ensures
            s.active,
            s.is_folder == is_folder,
            s.name@.len() == 0,
            s.parent == Some(parent),
    {
        NewItemDialogState { active: true, is_folder, name: String::new(), parent: Some(parent) }
    }
}

impl Default for NewItemDialogState {
    fn default() -> (s: Self)
        ensures
            !s.active,
            !s.is_folder,
            s.name@.len() == 0,
            s.parent is None,
    {
        NewItemDialogState::new()
    }
}

/// How the files are shown.
#[derive(Debug, Clone, Copy, PartialEq, Eq, Structural)]
pub enum ViewMode {
    List,
    Icons,
    Details,
    Compact,
}

/// The display name of a view mode.
pub open spec fn view_mode_label(m: ViewMode) -> Seq<char> {
    match m {
        ViewMode::List => "Lista"@,
        ViewMode::Icons => "Ícones"@,
        ViewMode::Details => "Detalhes"@,
        ViewMode::Compact => "Compacto"@,
    }
}

impl ViewMode {
    /// The display name.
    pub fn label(&self) -> (r: &'static str)
        ensures
            r@ == view_mode_label(*self),
    {
        match self {
            ViewMode::List => "Lista",
            ViewMode::Icons => "Ícones",
            ViewMode::Details => "Detalhes",
            ViewMode::Compact => "Compacto",
        }
    }

    /// Every view mode, in display order.
    pub fn all() -> (r: [ViewMode; 4])
        ensures
            r@ == seq![ViewMode::List, ViewMode::Icons, ViewMode::Details, ViewMode::Compact],
    {
        let r = [ViewMode::List, ViewMode::Icons, ViewMode::Details, ViewMode::Compact];
        proof {
            assert(r@ =~= seq![ViewMode::List, ViewMode::Icons, ViewMode::Details, ViewMode::Compact]);
        }
        r
    }
}

/// One item of the current folder.
pub struct FileEntry {
    pub path: String,
    pub name: String,
    pub is_dir: bool,
    /// Size in bytes.
    pub size: u64,
    /// Last modification, in microseconds since the Unix epoch, when known.
    pub modified: Option<i64>,
    /// The item has no profile, neither its own nor inherited.
    pub needs_profile: bool,
    /// The item's profile (none or one).
    pub profiles: Vec<Profile>,
}

/// The column the files are sorted by.
#[derive(Debug, Clone, Copy, PartialEq, Eq, Structural)]
pub enum SortField {
    Name,
    Size,
    Modified,
    Type,
}

/// The state of the central panel.
pub struct MainPanelState {
    pub view_mode: ViewMode,
    pub selected_file: Option<String>,
    pub selected_files: Vec<String>,
    pub entries: Vec<FileEntry>,
    pub sort_by: SortField,
    pub sort_ascending: bool,
    pub clipboard: Option<FileClipboard>,
    pub rename_dialog: RenameDialogState,
    pub new_item_dialog: NewItemDialogState,
    pub context_action: ContextAction,
    pub show_hidden: bool,
    /// A message and when it was posted, in milliseconds on the caller's clock.
    pub status_message: Option<(String, u64)>,
}

impl MainPanelState {
    /// Details view, nothing selected, sorted by name ascending, empty clipboard.
    pub fn new() -> (s: Self)
        ensures
            s.view_mode == ViewMode::Details,
            s.selected_file is None,
            s.selected_files@.len() == 0,
            s.entries@.len() == 0,
            s.sort_by == SortField::Name,
            s.sort_ascending,
            s.clipboard is None,
            !s.rename_dialog.active,
            !s.new_item_dialog.active,
            s.context_action is NoAction,
            !s.show_hidden,
            s.status_message is None,
    {
        MainPanelState {
            view_mode: ViewMode::Details,
            selected_file: None,
            selected_files: Vec::new(),
            entries: Vec::new(),
            sort_by: SortField::Name,
            sort_ascending: true,
            clipboard: None,
            rename_dialog: RenameDialogState::new(),
            new_item_dialog: NewItemDialogState::new(),
            context_action: ContextAction::NoAction,
            show_hidden: false,
            status_message: None,
        }
    }
}

impl Default for MainPanelState {
    fn default() -> (s: Self)
        ensures
            s.view_mode == ViewMode::Details,
            s.selected_file is None,
            s.selected_files@.len() == 0,
            s.entries@.len() == 0,
            s.sort_by == SortField::Name,
            s.sort_ascending,
            s.clipboard is None,
            !s.rename_dialog.active,
            !s.new_item_dialog.active,
            s.context_action is NoAction,
            !s.show_hidden,
            s.status_message is None,
    {
        MainPanelState::new()
    }
}

/// A message posted at `posted_at` is still shown at `now` (milliseconds):
/// for three seconds.
pub open spec fn status_visible_at(posted_at: u64, now: u64) -> bool {
    now < posted_at || now - posted_at < 3000
}

/// A status message is shown for three seconds.
pub fn status_visible(posted_at: u64, now: u64) -> (r: bool)
    ensures
        r == status_visible_at(posted_at, now),
{
    if now < posted_at {
        true
    } else {
        now - posted_at < 3000
    }
}

/// The text after the last `.` of a name (all of it when there is none).
pub open spec fn after_last_dot(name: Seq<char>) -> Seq<char>
    decreases name.len(),
{
    if name.len() == 0 {
        name
    } else if name.last() == '.' {
        Seq::empty()
    } else {
        after_last_dot(name.drop_last()).push(name.last())
    }
}

fn last_dot_part(name: &str) -> (r: String)
    ensures
        r@ == after_last_dot(name@),
{
    let cs = chars_of(name);
    let mut start: usize = cs.len();
    while start > 0 && cs[start - 1] != '.'
        invariant
            cs@ == name@,
            start <= cs@.len(),
            forall|j: int| start <= j < cs@.len() ==> cs@[j] != '.',
        decreases start,
    {
        start = start - 1;
    }
    let mut out: Vec<char> = Vec::new();
    let mut i: usize = start;
    while i < cs.len()
        invariant
            cs@ == name@,
            start <= i <= cs@.len(),
            out@ == cs@.subrange(start as int, i as int),
        decreases cs@.len() - i,
    {
        out.push(cs[i]);
        i = i + 1;
    }
    proof {
        lemma_after_last_dot(name@, start as int);
    }
    string_from_chars(&out)
}

/// When every character from `start` on is not a dot and `start` is 0 or
/// follows a dot, the text after the last dot is the text from `start`.
proof fn lemma_after_last_dot(s: Seq<char>, start: int)
    requires
        0 <= start <= s.len(),
        forall|j: int| start <= j < s.len() ==> s[j] != '.',
        start == 0 || s[start - 1] == '.',
    ensures
        after_last_dot(s) == s.subrange(start, s.len() as int),
    decreases s.len(),
{
    if s.len() == 0 {
        assert(s.subrange(start, 0) =~= s);
    } else if start == s.len() {
        assert(s.subrange(start, s.len() as int) =~= Seq::<char>::empty());
    } else {
        lemma_after_last_dot(s.drop_last(), start);
        assert(s.drop_last().subrange(start, s.len() - 1).push(s.last()) =~= s.subrange(start, s.len() as int));
    }
}

/// The icon of a file, from its name's extension (lowercased).
pub open spec fn icon_for_extension(ext: Seq<char>) -> Seq<char> {
    if ext == "rs"@ || ext == "py"@ || ext == "js"@ || ext == "ts"@ || ext == "c"@ || ext == "cpp"@
        || ext == "java"@ || ext == "go"@ {
        "💻"@
    } else if ext == "txt"@ || ext == "md"@ || ext == "doc"@ || ext == "docx"@ || ext == "pdf"@ {
        "📝"@
    } else if ext == "png"@ || ext == "jpg"@ || ext == "jpeg"@ || ext == "gif"@ || ext == "bmp"@
        || ext == "svg"@ {
        "🖼"@
    } else if ext == "mp3"@ || ext == "wav"@ || ext == "flac"@ || ext == "ogg"@ {
        "🎵"@
    } else if ext == "mp4"@ || ext == "avi"@ || ext == "mkv"@ || ext == "mov"@ {
        "🎬"@
    } else if ext == "zip"@ || ext == "tar"@ || ext == "gz"@ || ext == "rar"@ || ext == "7z"@ {
        "📦"@
    } else if ext == "exe"@ || ext == "msi"@ || ext == "bat"@ || ext == "sh"@ {
        "⚙"@
    } else if ext == "toml"@ || ext == "yaml"@ || ext == "yml"@ || ext == "json"@ || ext == "xml"@ {
        "🔧"@
    } else {
        "📄"@
    }
}

/// An icon for a file name, chosen by its extension.
pub fn file_icon(name: &str) -> (r: &'static str)
    ensures
        r@ == icon_for_extension(lowercase(after_last_dot(name@))),
{
    let part = last_dot_part(name);
    let e = to_lowercase(part.as_str());
    let x = e.as_str();
    if same_chars(x, "rs") || same_chars(x, "py") || same_chars(x, "js") || same_chars(x, "ts") || same_chars(x, "c") || same_chars(x, "cpp")
        || same_chars(x, "java") || same_chars(x, "go") {
        "💻"
    } else if same_chars(x, "txt") || same_chars(x, "md") || same_chars(x, "doc") || same_chars(x, "docx") || same_chars(x, "pdf") {
        "📝"
    } else if same_chars(x, "png") || same_chars(x, "jpg") || same_chars(x, "jpeg") || same_chars(x, "gif") || same_chars(x, "bmp") || same_chars(
        x,
        "svg",
    ) {
        "🖼"
    } else if same_chars(x, "mp3") || same_chars(x, "wav") || same_chars(x, "flac") || same_chars(x, "ogg") {
        "🎵"
    } else if same_chars(x, "mp4") || same_chars(x, "avi") || same_chars(x, "mkv") || same_chars(x, "mov") {
        "🎬"
    } else if same_chars(x, "zip") || same_chars(x, "tar") || same_chars(x, "gz") || same_chars(x, "rar") || same_chars(x, "7z") {
        "📦"
    } else if same_chars(x, "exe") || same_chars(x, "msi") || same_chars(x, "bat") || same_chars(x, "sh") {
        "⚙"
    } else if same_chars(x, "toml") || same_chars(x, "yaml") || same_chars(x, "yml") || same_chars(x, "json") || same_chars(x, "xml") {
        "🔧"
    } else {
        "📄"
    }
}

/// How long ago something happened, compactly: `agora`, `Nmin atrás`,
/// `Nh atrás` or `Nd atrás`.
pub open spec fn duration_text(secs: nat) -> Seq<char> {
    if secs < 60 {
        "agora"@
    } else if secs < 3600 {
        decimal(secs / 60) + "min atrás"@
    } else if secs < 86400 {
        decimal(secs / 3600) + "h atrás"@
    } else {
        decimal(secs / 86400) + "d atrás"@
    }
}

/// How long ago something happened, from the elapsed seconds.
pub fn format_duration(secs: u64) -> (r: String)
    ensures
        r@ == duration_text(secs as nat),
{
    if secs < 60 {
        "agora".to_owned()
    } else if secs < 3600 {
        concat(u64_to_decimal(secs / 60).as_str(), "min atrás")
    } else if secs < 86400 {
        concat(u64_to_decimal(secs / 3600).as_str(), "h atrás")
    } else {
        concat(u64_to_decimal(secs / 86400).as_str(), "d atrás")
    }
}

/// Whether a list of paths holds the same path as `p`.
pub open spec fn holds_path(s: Seq<String>, p: Seq<char>) -> bool {
    exists|i: int| 0 <= i < s.len() && same_path(#[trigger] s[i]@, p)
}

/// The paths an action on `clicked` applies to: the whole selection when
/// `clicked` is one of several selected paths, otherwise `clicked` alone.
pub fn get_action_paths(selected_files: &Vec<String>, clicked_path: &str) -> (r: Vec<String>)
    ensures
        holds_path(selected_files@, clicked_path@) && selected_files@.len() > 1 ==> strings_view(r@)
            == strings_view(selected_files@),
        !(holds_path(selected_files@, clicked_path@) && selected_files@.len() > 1) ==> strings_view(
            r@,
        ) == seq![clicked_path@],
{
    let mut found = false;
    let mut i: usize = 0;
    while i < selected_files.len()
        invariant
            i <= selected_files@.len(),
            !found ==> forall|j: int| 0 <= j < i ==> !same_path(#[trigger] selected_files@[j]@, clicked_path@),
            found ==> holds_path(selected_files@, clicked_path@),
        decreases selected_files@.len() - i,
    {
        if paths_equal(selected_files[i].as_str(), clicked_path) {
            found = true;
        }
        i = i + 1;
    }
    if found && selected_files.len() > 1 {
        let r = selected_files.clone();
        proof {
            assert(strings_view(r@) =~= strings_view(selected_files@));
        }
        r
    } else {
        let mut r: Vec<String> = Vec::new();
        r.push(clicked_path.to_owned());
        proof {
            assert(strings_view(r@) =~= seq![clicked_path@]);
        }
        r
    }
}

/// A free path beside `path` for a copy of it: `stem (n)ext` in the same
/// folder, for the least `n >= 2` whose name the folder's names `taken` do not
/// hold.
pub fn get_unique_path(path: &str, taken: &Vec<String>) -> (r: String)
    requires
        taken@.len() + 2 <= u64::MAX,
    ensures
        exists|name: Seq<char>|
            first_free_numbered(name_stem(path@), dotted_extension(path@), strings_view(taken@), name)
                && r@ == joined(parent_or_self(path@), name),
{
    let (stem, ext) = stem_and_dotted_extension(path);
    let (name, n) = first_free_number(stem.as_str(), ext.as_str(), taken);
    let r = join_name(parent_or_self_of(path).as_str(), name.as_str());
    proof {
        assert(first_free_numbered(stem@, ext@, strings_view(taken@), name@) && 2 <= n as nat && name@
            == numbered_name(stem@, n as nat, ext@));
    }
    r
}

/// The path of a duplicate of `path`: `stem - Cópia.ext` in the same folder,
/// or `stem - Cópia (n).ext` for the least free `n >= 2` when that is taken.
pub fn duplicate_path(path: &str, taken: &Vec<String>) -> (r: String)
    requires
        taken@.len() + 2 <= u64::MAX,
    ensures
        exists|name: Seq<char>|
            first_free(name_stem(path@) + " - Cópia"@, dotted_extension(path@), strings_view(taken@), name)
                && r@ == joined(parent_or_self(path@), name),
{
    let (stem, ext) = stem_and_dotted_extension(path);
    let copy_stem = concat(stem.as_str(), " - Cópia");
    let name = first_free_name(copy_stem.as_str(), ext.as_str(), taken);
    join_name(parent_or_self_of(path).as_str(), name.as_str())
}

/// Where a pasted `source` lands in `destination`, whose names are `taken`:
/// under its own name, unless that name is taken by another item, in which
/// case beside it under the first free numbered name.
pub fn paste_target(source: &str, destination: &str, taken: &Vec<String>) -> (r: String)
    requires
        taken@.len() + 2 <= u64::MAX,
    ensures
        ({
            let dest = joined(destination@, file_name_or_empty(source@));
            if strings_view(taken@).contains(file_name_or_empty(source@)) && !same_path(dest, source@) {
                exists|name: Seq<char>|
                    first_free_numbered(name_stem(dest), dotted_extension(dest), strings_view(taken@), name)
                        && r@ == joined(parent_or_self(dest), name)
            } else {
                r@ == dest
            }
        }),
{
    let name = file_name_or_default(source);
    let dest = join_name(destination, name.as_str());
    if holds_name(taken, name.as_str()) && !paths_equal(dest.as_str(), source) {
        get_unique_path(dest.as_str(), taken)
    } else {
        dest
    }
}

/// The message after a paste.
pub open spec fn paste_message(count: nat, action: ClipboardAction) -> Seq<char> {
    decimal(count) + " item(s) "@ + match action {
        ClipboardAction::Copy => "copiado(s)"@,
        ClipboardAction::Cut => "movido(s)"@,
    }
}

/// The message after moving items to the trash.
pub open spec fn trashed_message(count: nat) -> Seq<char> {
    decimal(count) + " excluído(s)"@
}

/// The message after creating an item.
pub open spec fn created_message(is_folder: bool, name: Seq<char>) -> Seq<char> {
    (if is_folder { "Pasta"@ } else { "Arquivo"@ }) + " '"@ + name + "' criado"@
}

/// The message after assigning or removing a profile.
pub open spec fn profile_message(p: Profile, assigned: bool) -> Seq<char> {
    "Perfil '"@ + profile_label(p) + if assigned { "' atribuído"@ } else { "' removido"@ }
}

/// The message after assigning or removing a profile.
pub fn profile_change_message(p: Profile, assigned: bool) -> (r: String)
    ensures
        r@ == profile_message(p, assigned),
{
    concat3("Perfil '", p.label(), if assigned { "' atribuído" } else { "' removido" })
}

/// What became of a request to create an item.
pub enum NewItemOutcome {
    /// An item of that name was already there.
    AlreadyExists,
    /// The item was created.
    Created,
    /// Creating it failed with this error text.
    Failed(String),
}

/// The texts of a list of paths.
pub open spec fn entry_paths(entries: Seq<FileEntry>) -> Seq<Seq<char>> {
    entries.map_values(|e: FileEntry| e.path@)
}

/// The panel keeps its view settings and its entries.
pub open spec fn same_view(a: MainPanelState, b: MainPanelState) -> bool {
    &&& a.view_mode == b.view_mode
    &&& a.sort_by == b.sort_by
    &&& a.sort_ascending == b.sort_ascending
    &&& a.show_hidden == b.show_hidden
    &&& a.entries@ == b.entries@
}

/// The status message is `text`, posted at `now`.
pub open spec fn posted(s: MainPanelState, text: Seq<char>, now: u64) -> bool {
    s.status_message matches Some((t, at)) && t@ == text && at == now
}

impl MainPanelState {
    /// Puts the paths that an action on `clicked` applies to into the clipboard
    /// (the context menu's copy and cut).
    pub fn clip_clicked(&mut self, clicked: &str, action: ClipboardAction, now: u64)
        ensures
            final(self).clipboard matches Some(c) && c.action == action && (
                holds_path(old(self).selected_files@, clicked@) && old(self).selected_files@.len() > 1
                    ==> strings_view(c.paths@) == strings_view(old(self).selected_files@)) && (
                !(holds_path(old(self).selected_files@, clicked@) && old(self).selected_files@.len() > 1)
                    ==> strings_view(c.paths@) == seq![clicked@]),
            posted(*final(self), if action == ClipboardAction::Copy { "Copiado"@ } else { "Recortado"@ }, now),
            final(self).selected_file == old(self).selected_file,
            final(self).selected_files@ == old(self).selected_files@,
            same_view(*final(self), *old(self)),
    {
        let paths = get_action_paths(&self.selected_files, clicked);
        self.clipboard = Some(FileClipboard { paths, action });
        let text = match action {
            ClipboardAction::Copy => "Copiado".to_owned(),
            ClipboardAction::Cut => "Recortado".to_owned(),
        };
        self.status_message = Some((text, now));
    }

    /// Puts the selection into the clipboard (Ctrl+C, Ctrl+X): the selected
    /// paths, or the focused one when none is selected. Nothing happens when no
    /// item has the focus.
    pub fn clip_selection(&mut self, action: ClipboardAction, now: u64)
        ensures
            old(self).selected_file is None ==> final(self).clipboard == old(self).clipboard
                && final(self).status_message == old(self).status_message,
            old(self).selected_file matches Some(f) ==> (final(self).clipboard matches Some(c) && c.action
                == action && strings_view(c.paths@) == (if old(self).selected_files@.len() == 0 {
                seq![f@]
            } else {
                strings_view(old(self).selected_files@)
            }) && posted(*final(self), if action == ClipboardAction::Copy { "Copiado"@ } else { "Recortado"@ }, now)),
            final(self).selected_file == old(self).selected_file,
            final(self).selected_files@ == old(self).selected_files@,
            same_view(*final(self), *old(self)),
    {
        match &self.selected_file {
            Some(f) => {
                let paths = if self.selected_files.len() == 0 {
                    let mut v: Vec<String> = Vec::new();
                    v.push(f.clone());
                    proof {
                        assert(strings_view(v@) =~= seq![f@]);
                    }
                    v
                } else {
                    let v = self.selected_files.clone();
                    proof {
                        assert(strings_view(v@) =~= strings_view(self.selected_files@));
                    }
                    v
                };
                self.clipboard = Some(FileClipboard { paths, action });
                let text = match action {
                    ClipboardAction::Copy => "Copiado".to_owned(),
                    ClipboardAction::Cut => "Recortado".to_owned(),
                };
                self.status_message = Some((text, now));
            },
            None => {},
        }
    }

    /// Takes the clipboard out to paste it; `finish_paste` puts it back.
    pub fn begin_paste(&mut self) -> (r: Option<FileClipboard>)
        ensures
            r == old(self).clipboard,
            final(self).clipboard is None,
            final(self).status_message == old(self).status_message,
            final(self).selected_file == old(self).selected_file,
            final(self).selected_files@ == old(self).selected_files@,
            same_view(*final(self), *old(self)),
    {
        self.clipboard.take()
    }

    /// After a paste of `clipboard` in which `succeeded` items were copied or
    /// moved: reports the count, and keeps a copied clipboard for another paste
    /// (a moved one is spent).
    pub fn finish_paste(&mut self, clipboard: FileClipboard, succeeded: usize, now: u64)
        ensures
            posted(*final(self), paste_message(succeeded as nat, clipboard.action), now),
            clipboard.action == ClipboardAction::Copy ==> final(self).clipboard == Some(clipboard),
            clipboard.action == ClipboardAction::Cut ==> final(self).clipboard is None,
            final(self).selected_file == old(self).selected_file,
            final(self).selected_files@ == old(self).selected_files@,
            same_view(*final(self), *old(self)),
    {
        let label = match clipboard.action {
            ClipboardAction::Copy => "copiado(s)",
            ClipboardAction::Cut => "movido(s)",
        };
        let text = concat3(u64_to_decimal(succeeded as u64).as_str(), " item(s) ", label);
        self.status_message = Some((text, now));
        if clipboard.action == ClipboardAction::Copy {
            self.clipboard = Some(clipboard);
        } else {
            self.clipboard = None;
        }
    }

    /// The paths the Delete key acts on: the selected paths, or the focused one
    /// when none is selected, or none.
    pub fn selection_targets(&self) -> (r: Vec<String>)
        ensures
            strings_view(r@) == if self.selected_files@.len() > 0 {
                strings_view(self.selected_files@)
            } else {
                match self.selected_file {
                    Some(f) => seq![f@],
                    None => Seq::empty(),
                }
            },
    {
        if self.selected_files.len() > 0 {
            let v = self.selected_files.clone();
            proof {
                assert(strings_view(v@) =~= strings_view(self.selected_files@));
            }
            v
        } else {
            let mut v: Vec<String> = Vec::new();
            match &self.selected_file {
                Some(f) => {
                    v.push(f.clone());
                    proof {
                        assert(strings_view(v@) =~= seq![f@]);
                    }
                },
                None => {
                    proof {
                        assert(strings_view(v@) =~= Seq::<Seq<char>>::empty());
                    }
                },
            }
            v
        }
    }

    /// After `count` items were sent to the trash: reports it and clears the
    /// selection.
    pub fn finish_trash(&mut self, count: usize, now: u64)
        ensures
            posted(*final(self), trashed_message(count as nat), now),
            final(self).selected_file is None,
            final(self).selected_files@.len() == 0,
            final(self).clipboard == old(self).clipboard,
            same_view(*final(self), *old(self)),
    {
        let text = concat(u64_to_decimal(count as u64).as_str(), " excluído(s)");
        self.status_message = Some((text, now));
        self.selected_files = Vec::new();
        self.selected_file = None;
    }

    /// Opens the rename dialog on `path`, with its current name typed in.
    pub fn start_rename(&mut self, path: String, name: String)
        ensures
            final(self).rename_dialog.active,
            final(self).rename_dialog.path == Some(path),
            final(self).rename_dialog.new_name == name,
            final(self).clipboard == old(self).clipboard,
            final(self).status_message == old(self).status_message,
            same_view(*final(self), *old(self)),
    {
        self.rename_dialog = RenameDialogState { active: true, path: Some(path), new_name: name };
    }

    /// F2: opens the rename dialog on the focused item, if any.
    pub fn rename_focused(&mut self)
        ensures
            old(self).selected_file is None ==> final(self).rename_dialog == old(self).rename_dialog,
            old(self).selected_file matches Some(f) ==> (final(self).rename_dialog.active
                && final(self).rename_dialog.path == Some(f) && final(self).rename_dialog.new_name@
                == file_name_or_empty(f@)),
            final(self).clipboard == old(self).clipboard,
            final(self).status_message == old(self).status_message,
            same_view(*final(self), *old(self)),
    {
        match &self.selected_file {
            Some(f) => {
                let name = file_name_or_default(f.as_str());
                let path = f.clone();
                self.rename_dialog = RenameDialogState { active: true, path: Some(path), new_name: name };
            },
            None => {},
        }
    }

    /// Where the rename dialog would move its item: the new name beside the
    /// old path, when there is a path and it has a parent.
    pub fn rename_target(&self) -> (r: Option<String>)
        ensures
            match self.rename_dialog.path {
                Some(old_path) => match parent_text(old_path@) {
                    Some(p) => (r matches Some(t) && t@ == joined(p, self.rename_dialog.new_name@)),
                    None => r is None,
                },
                None => r is None,
            },
    {
        match &self.rename_dialog.path {
            Some(old_path) => match path_parent(old_path.as_str()) {
                Some(p) => Some(join_name(p.as_str(), self.rename_dialog.new_name.as_str())),
                None => None,
            },
            None => None,
        }
    }

    /// Closes the rename dialog; `target_was_free` tells, when there was a
    /// target, whether the new name was free (the item was renamed) or taken.
    pub fn finish_rename(&mut self, target_was_free: Option<bool>, now: u64)
        ensures
            !final(self).rename_dialog.active,
            target_was_free == Some(true) ==> posted(*final(self), "Renomeado"@, now),
            target_was_free == Some(false) ==> posted(*final(self), "Erro: nome já existe"@, now),
            target_was_free is None ==> final(self).status_message == old(self).status_message,
            final(self).clipboard == old(self).clipboard,
            same_view(*final(self), *old(self)),
    {
        match target_was_free {
            Some(true) => {
                self.status_message = Some(("Renomeado".to_owned(), now));
            },
            Some(false) => {
                self.status_message = Some(("Erro: nome já existe".to_owned(), now));
            },
            None => {},
        }
        self.rename_dialog.active = false;
    }

    /// Opens the new-item dialog for a folder or a file inside `parent`.
    pub fn start_new_item(&mut self, is_folder: bool, parent: String)
        ensures
            final(self).new_item_dialog.active,
            final(self).new_item_dialog.is_folder == is_folder,
            final(self).new_item_dialog.name@.len() == 0,
            final(self).new_item_dialog.parent == Some(parent),
            final(self).clipboard == old(self).clipboard,
            final(self).status_message == old(self).status_message,
            same_view(*final(self), *old(self)),
    {
        self.new_item_dialog = NewItemDialogState::open_in(is_folder, parent);
    }

    /// The path the new-item dialog asks to create: its trimmed name inside its
    /// folder (the current folder when it has none); nothing for an empty name.
    pub fn new_item_target(&self, current_path: &str) -> (r: Option<String>)
        ensures
            trimmed(self.new_item_dialog.name@).len() == 0 ==> r is None,
            trimmed(self.new_item_dialog.name@).len() > 0 ==> (r matches Some(t) && t@ == joined(
                match self.new_item_dialog.parent {
                    Some(p) => p@,
                    None => current_path@,
                },
                trimmed(self.new_item_dialog.name@),
            )),
    {
        let name = trim_text(self.new_item_dialog.name.as_str());
        if name.as_str().is_empty() {
            return None;
        }
        let parent = match &self.new_item_dialog.parent {
            Some(p) => p.clone(),
            None => current_path.to_owned(),
        };
        Some(join_name(parent.as_str(), name.as_str()))
    }

    /// Closes the new-item dialog and reports what became of the request.
    pub fn finish_new_item(&mut self, outcome: NewItemOutcome, now: u64)
        ensures
            !final(self).new_item_dialog.active,
            outcome is AlreadyExists ==> posted(*final(self), "Erro: já existe"@, now),
            outcome is Created ==> posted(
                *final(self),
                created_message(old(self).new_item_dialog.is_folder, trimmed(old(self).new_item_dialog.name@)),
                now,
            ),
            outcome matches NewItemOutcome::Failed(e) ==> posted(*final(self), "Erro: "@ + e@, now),
            final(self).clipboard == old(self).clipboard,
            same_view(*final(self), *old(self)),
    {
        match outcome {
            NewItemOutcome::AlreadyExists => {
                self.status_message = Some(("Erro: já existe".to_owned(), now));
            },
            NewItemOutcome::Created => {
                let name = trim_text(self.new_item_dialog.name.as_str());
                let kind = if self.new_item_dialog.is_folder { "Pasta" } else { "Arquivo" };
                let head = concat3(kind, " '", name.as_str());
                let text = concat(head.as_str(), "' criado");
                self.status_message = Some((text, now));
            },
            NewItemOutcome::Failed(e) => {
                let text = concat("Erro: ", e.as_str());
                self.status_message = Some((text, now));
            },
        }
        self.new_item_dialog.active = false;
    }

    /// Selects every item of the folder (Ctrl+A).
    pub fn select_all(&mut self)
        ensures
            strings_view(final(self).selected_files@) == entry_paths(old(self).entries@),
            final(self).selected_file == old(self).selected_file,
            final(self).clipboard == old(self).clipboard,
            final(self).status_message == old(self).status_message,
            same_view(*final(self), *old(self)),
    {
        let mut v: Vec<String> = Vec::new();
        let mut i: usize = 0;
        while i < self.entries.len()
            invariant
                i <= self.entries@.len(),
                strings_view(v@) == entry_paths(self.entries@).subrange(0, i as int),
            decreases self.entries@.len() - i,
        {
            let path = self.entries[i].path.clone();
            proof {
                assert(path@ == entry_paths(self.entries@)[i as int]);
            }
            let ghost before = v@;
            v.push(path);
            proof {
                assert(v@ == before.push(path));
                assert(strings_view(before).len() == i);
                assert(strings_view(v@).len() == i + 1);
                assert(strings_view(v@)[i as int] == path@);
                assert forall|j: int| 0 <= j < i + 1 implies strings_view(v@)[j] == entry_paths(
                    self.entries@,
                ).subrange(0, i + 1)[j] by {
                    if j < i {
                        assert(strings_view(before)[j] == entry_paths(self.entries@).subrange(0, i as int)[j]);
                    }
                }
                assert(strings_view(v@) =~= entry_paths(self.entries@).subrange(0, i + 1));
            }
            i = i + 1;
        }
        proof {
            assert(entry_paths(self.entries@).subrange(0, self.entries@.len() as int) =~= entry_paths(self.entries@));
        }
        self.selected_files = v;
    }

    /// F5: the folder was reloaded.
    pub fn refreshed(&mut self, now: u64)
        ensures
            posted(*final(self), "Atualizado"@, now),
            final(self).clipboard == old(self).clipboard,
            final(self).selected_file == old(self).selected_file,
            final(self).selected_files@ == old(self).selected_files@,
            same_view(*final(self), *old(self)),
    {
        self.status_message = Some(("Atualizado".to_owned(), now));
    }
}

/// An item of a folder as read from the disk, before the listing filters and
/// orders it.
pub struct DirItem {
    pub path: String,
    pub name: String,
    pub is_dir: bool,
    pub size: u64,
    /// Last modification, in microseconds since the Unix epoch, when known.
    pub modified: Option<i64>,
}

/// What a listed entry holds: path, name, directory flag, size, modification
/// time, whether it needs a profile, and its profiles.
pub type EntryView = (Seq<char>, Seq<char>, bool, u64, Option<i64>, bool, Seq<Profile>);

/// The view of a listed entry.
pub open spec fn entry_view(e: FileEntry) -> EntryView {
    (e.path@, e.name@, e.is_dir, e.size, e.modified, e.needs_profile, e.profiles@)
}

/// The views of listed entries.
pub open spec fn entries_view(s: Seq<FileEntry>) -> Seq<EntryView> {
    s.map_values(|e: FileEntry| entry_view(e))
}

/// An item is listed when it is visible under the selected profiles and,
/// unless hidden items are shown, its name does not start with a dot.
pub open spec fn listed(config: ProfileConfig, selected: Set<Profile>, show_hidden: bool) -> spec_fn(DirItem) -> bool {
    |it: DirItem|
        config.visible_under(it.path@, selected) && (show_hidden || !(it.name@.len() > 0 && it.name@[0] == '.'))
}

/// The entry listed for an item: its own fields, whether it needs a profile,
/// and the profile it resolves to, if any.
pub open spec fn item_view(config: ProfileConfig, it: DirItem) -> EntryView {
    (
        it.path@,
        it.name@,
        it.is_dir,
        it.size,
        it.modified,
        config.resolved(it.path@) is None,
        match config.resolved(it.path@) {
            Some(p) => seq![p],
            None => Seq::empty(),
        },
    )
}

/// The entries listed for some items, in the items' order.
pub open spec fn listed_views(items: Seq<DirItem>, config: ProfileConfig, selected: Set<Profile>, show_hidden: bool) -> Seq<EntryView> {
    items.filter(listed(config, selected, show_hidden)).map_values(|it: DirItem| item_view(config, it))
}

/// `a` comes before `b` in code-point order: it is a proper prefix of `b`, or
/// at the first position where they differ its character is the smaller.
pub open spec fn name_before(a: Seq<char>, b: Seq<char>) -> bool {
    exists|i: int|
        0 <= i <= a.len() && i < b.len() && a.subrange(0, i) == b.subrange(0, i) && (i == a.len() || (
        a[i] as u32) < (b[i] as u32))
}

/// Folders come before files; within each, names in code-point order of their
/// lowercase forms.
pub open spec fn listed_before(a: EntryView, b: EntryView) -> bool {
    (a.2 && !b.2) || (a.2 == b.2 && name_before(lowercase(a.1), lowercase(b.1)))
}

/// `e` inserted into `s` before the first entry that it comes before, so that
/// it stays behind every entry that it ties with.
pub open spec fn insert_in_order(s: Seq<EntryView>, e: EntryView) -> Seq<EntryView>
    decreases s.len(),
{
    if s.len() == 0 {
        seq![e]
    } else if listed_before(e, s[0]) {
        seq![e] + s
    } else {
        seq![s[0]] + insert_in_order(s.drop_first(), e)
    }
}

/// The entries in listing order: a stable sort by `listed_before`.
pub open spec fn in_listing_order(s: Seq<EntryView>) -> Seq<EntryView>
    decreases s.len(),
{
    if s.len() == 0 {
        s
    } else {
        insert_in_order(in_listing_order(s.drop_last()), s.last())
    }
}

/// No entry of `s` is listed before an entry that precedes it.
pub open spec fn in_order(s: Seq<EntryView>) -> bool {
    forall|i: int, j: int| 0 <= i < j < s.len() ==> !listed_before(#[trigger] s[j], #[trigger] s[i])
}

proof fn lemma_name_before_irreflexive(a: Seq<char>)
    ensures
        !name_before(a, a),
{
}

proof fn lemma_name_before_transitive(a: Seq<char>, b: Seq<char>, c: Seq<char>)
    requires
        name_before(a, b),
        name_before(b, c),
    ensures
        name_before(a, c),
{
    let i = choose|i: int|
        0 <= i <= a.len() && i < b.len() && a.subrange(0, i) == b.subrange(0, i) && (i == a.len() || (
        a[i] as u32) < (b[i] as u32));
    let j = choose|j: int|
        0 <= j <= b.len() && j < c.len() && b.subrange(0, j) == c.subrange(0, j) && (j == b.len() || (
        b[j] as u32) < (c[j] as u32));
    let k = if i < j { i } else { j };
    assert(a.subrange(0, k) =~= b.subrange(0, i).subrange(0, k));
    assert(c.subrange(0, k) =~= b.subrange(0, j).subrange(0, k));
    assert(a.subrange(0, k) =~= b.subrange(0, k));
    assert(c.subrange(0, k) =~= b.subrange(0, k));
    if i < j {
        if i < a.len() {
            assert(b[i] == b.subrange(0, j)[i]);
            assert(c[i] == c.subrange(0, j)[i]);
        }
    } else if j < i {
        assert(a[j] == a.subrange(0, i)[j]);
        assert(b[j] == b.subrange(0, i)[j]);
    }
    assert(0 <= k <= a.len() && k < c.len() && a.subrange(0, k) == c.subrange(0, k) && (k == a.len() || (
    a[k] as u32) < (c[k] as u32)));
}

/// `listed_before` is a strict order: irreflexive and transitive.
proof fn lemma_listed_before_strict(a: EntryView, b: EntryView, c: EntryView)
    ensures
        !listed_before(a, a),
        listed_before(a, b) && listed_before(b, c) ==> listed_before(a, c),
{
    lemma_name_before_irreflexive(lowercase(a.1));
    if listed_before(a, b) && listed_before(b, c) && a.2 == b.2 && b.2 == c.2 {
        lemma_name_before_transitive(lowercase(a.1), lowercase(b.1), lowercase(c.1));
    }
}

/// `insert_in_order` inserts at the first position whose entry `e` comes
/// before.
proof fn lemma_insert_position(s: Seq<EntryView>, e: EntryView)
    ensures
        exists|p: int|
            0 <= p <= s.len() && (forall|j: int| 0 <= j < p ==> !listed_before(e, #[trigger] s[j])) && (p == s.len()
                || listed_before(e, s[p])) && insert_in_order(s, e) == s.insert(p, e),
    decreases s.len(),
{
    if s.len() == 0 {
        assert(s.insert(0, e) =~= seq![e]);
        assert(insert_in_order(s, e) == s.insert(0, e));
    } else if listed_before(e, s[0]) {
        assert(s.insert(0, e) =~= seq![e] + s);
        assert(insert_in_order(s, e) == s.insert(0, e));
    } else {
        lemma_insert_position(s.drop_first(), e);
        let q = choose|q: int|
            0 <= q <= s.drop_first().len() && (forall|j: int| 0 <= j < q ==> !listed_before(e, #[trigger] s.drop_first()[j]))
                && (q == s.drop_first().len() || listed_before(e, s.drop_first()[q]))
                && insert_in_order(s.drop_first(), e) == s.drop_first().insert(q, e);
        assert(seq![s[0]] + s.drop_first().insert(q, e) =~= s.insert(q + 1, e));
        assert forall|j: int| 0 <= j < q + 1 implies !listed_before(e, #[trigger] s[j]) by {
            if j > 0 {
                assert(s[j] == s.drop_first()[j - 1]);
            }
        }
        if q < s.drop_first().len() {
            assert(s[q + 1] == s.drop_first()[q]);
        }
        assert(insert_in_order(s, e) == s.insert(q + 1, e));
    }
}

/// Inserting in order keeps a sequence in order and adds the entry to its
/// multiset.
proof fn lemma_insert_keeps_order(s: Seq<EntryView>, e: EntryView)
    requires
        in_order(s),
    ensures
        in_order(insert_in_order(s, e)),
        insert_in_order(s, e).to_multiset() == s.to_multiset().insert(e),
{
    lemma_insert_position(s, e);
    let p = choose|p: int|
        0 <= p <= s.len() && (forall|j: int| 0 <= j < p ==> !listed_before(e, #[trigger] s[j])) && (p == s.len()
            || listed_before(e, s[p])) && insert_in_order(s, e) == s.insert(p, e);
    let t = s.insert(p, e);
    assert forall|i: int, j: int| 0 <= i < j < t.len() implies !listed_before(#[trigger] t[j], #[trigger] t[i]) by {
        if i == p {
            let k = j - 1;
            assert(t[j] == s[k]);
            lemma_listed_before_strict(s[k], e, s[p]);
            lemma_listed_before_strict(s[p], s[p], s[p]);
            if k > p {
                assert(!listed_before(s[k], s[p]));
            }
        } else if j == p {
            assert(t[i] == s[i]);
        } else {
            let ii = if i < p { i } else { i - 1 };
            let jj = if j < p { j } else { j - 1 };
            assert(t[i] == s[ii]);
            assert(t[j] == s[jj]);
            assert(ii < jj);
        }
    }
    broadcast use vstd::seq_lib::to_multiset_insert;
}

/// The listing order is what its name says: no entry is listed before an
/// entry that precedes it, and the entries are those given, each as often.
pub proof fn law_listing_is_ordered(s: Seq<EntryView>)
    ensures
        in_order(in_listing_order(s)),
        in_listing_order(s).to_multiset() == s.to_multiset(),
    decreases s.len(),
{
    broadcast use vstd::seq_lib::group_to_multiset_ensures;
    if s.len() == 0 {
        assert(s.to_multiset() =~= vstd::multiset::Multiset::empty());
    } else {
        law_listing_is_ordered(s.drop_last());
        lemma_insert_keeps_order(in_listing_order(s.drop_last()), s.last());
        assert(s.drop_last().push(s.last()) =~= s);
    }
}

/// Whether `a` comes before `b` in code-point order.
pub fn name_precedes(a: &str, b: &str) -> (r: bool)
    ensures
        r == name_before(a@, b@),
{
    let ac = chars_of(a);
    let bc = chars_of(b);
    let mut i: usize = 0;
    while i < ac.len() && i < bc.len() && ac[i] == bc[i]
        invariant
            ac@ == a@,
            bc@ == b@,
            i <= ac@.len(),
            i <= bc@.len(),
            ac@.subrange(0, i as int) == bc@.subrange(0, i as int),
        decreases ac@.len() - i,
    {
        proof {
            assert(ac@.subrange(0, i + 1) =~= ac@.subrange(0, i as int).push(ac@[i as int]));
            assert(bc@.subrange(0, i + 1) =~= bc@.subrange(0, i as int).push(bc@[i as int]));
        }
        i = i + 1;
    }
    let r = if i == bc.len() {
        false
    } else if i == ac.len() {
        true
    } else {
        (ac[i] as u32) < (bc[i] as u32)
    };
    proof {
        if r {
            assert(0 <= i <= a@.len() && i < b@.len() && a@.subrange(0, i as int) == b@.subrange(0, i as int));
        } else {
            assert forall|j: int|
                !(0 <= j <= a@.len() && j < b@.len() && a@.subrange(0, j) == b@.subrange(0, j) && (j == a@.len()
                    || (a@[j] as u32) < (b@[j] as u32))) by {
                if 0 <= j <= a@.len() && j < b@.len() && a@.subrange(0, j) == b@.subrange(0, j) {
                    if j < i {
                        assert(a@[j] == ac@.subrange(0, i as int)[j]);
                        assert(b@[j] == bc@.subrange(0, i as int)[j]);
                    } else if j > i {
                        assert(a@[i as int] == a@.subrange(0, j)[i as int]);
                        assert(b@[i as int] == b@.subrange(0, j)[i as int]);
                    }
                }
            }
        }
    }
    r
}

/// Whether entry `a` is listed before entry `b`.
fn entry_before(a: &FileEntry, b: &FileEntry) -> (r: bool)
    ensures
        r == listed_before(entry_view(*a), entry_view(*b)),
{
    if a.is_dir && !b.is_dir {
        return true;
    }
    if a.is_dir != b.is_dir {
        return false;
    }
    let la = to_lowercase(a.name.as_str());
    let lb = to_lowercase(b.name.as_str());
    name_precedes(la.as_str(), lb.as_str())
}

/// Inserting at the first position whose entry `e` comes before, past every
/// entry it does not come before, is `insert_in_order`.
proof fn lemma_insert_at(s: Seq<EntryView>, e: EntryView, p: int)
    requires
        0 <= p <= s.len(),
        forall|j: int| 0 <= j < p ==> !listed_before(e, #[trigger] s[j]),
        p == s.len() || listed_before(e, s[p]),
    ensures
        insert_in_order(s, e) == s.insert(p, e),
    decreases p,
{
    if s.len() == 0 {
        assert(s.insert(p, e) =~= seq![e]);
    } else if p == 0 {
        assert(s.insert(0, e) =~= seq![e] + s);
    } else {
        assert(!listed_before(e, s[0]));
        lemma_insert_at(s.drop_first(), e, p - 1);
        assert(seq![s[0]] + s.drop_first().insert(p - 1, e) =~= s.insert(p, e));
    }
}

/// The listing of a folder: the items visible under the filter (and, unless
/// `show_hidden`, whose names do not start with a dot), each with whether it needs a profile and the profile
/// it resolves to; folders first, then by lowercase name, ties kept in the
/// items' order.
pub fn load_directory(
    items: &Vec<DirItem>,
    profile_config: &ProfileConfig,
    profile_filter: &ProfileFilter,
    show_hidden: bool,
) -> (r: Vec<FileEntry>)
    ensures
        entries_view(r@) == in_listing_order(listed_views(items@, *profile_config, profile_filter@, show_hidden)),
{
    let mut r: Vec<FileEntry> = Vec::new();
    let mut i: usize = 0;
    while i < items.len()
        invariant
            i <= items@.len(),
            entries_view(r@) == in_listing_order(
                listed_views(items@.subrange(0, i as int), *profile_config, profile_filter@, show_hidden),
            ),
        decreases items@.len() - i,
    {
        let ghost sel = profile_filter@;
        let ghost pred = listed(*profile_config, sel, show_hidden);
        let ghost f = |it: DirItem| item_view(*profile_config, it);
        proof {
            reveal(Seq::filter);
            assert(items@.subrange(0, i + 1).drop_last() =~= items@.subrange(0, i as int));
            assert(items@.subrange(0, i + 1).last() == items@[i as int]);
        }
        let it = &items[i];
        let shown = profile_config.is_visible_filtered(it.path.as_str(), profile_filter)
            && (show_hidden || !is_hidden_name(it.name.as_str()));
        if shown {
            let resolved = profile_config.resolve_profile(it.path.as_str());
            let mut profiles: Vec<Profile> = Vec::new();
            match resolved {
                Some(p) => {
                    profiles.push(p);
                },
                None => {},
            }
            proof {
                match resolved {
                    Some(p) => {
                        assert(profiles@ =~= seq![p]);
                    },
                    None => {
                        assert(profiles@ =~= Seq::<Profile>::empty());
                    },
                }
            }
            let e = FileEntry {
                path: it.path.clone(),
                name: it.name.clone(),
                is_dir: it.is_dir,
                size: it.size,
                modified: it.modified,
                needs_profile: resolved.is_none(),
                profiles,
            };
            let ghost prev = items@.subrange(0, i as int).filter(pred);
            proof {
                assert(items@.subrange(0, i + 1).filter(pred) == prev.push(items@[i as int]));
                assert(prev.push(items@[i as int]).map_values(f) =~= prev.map_values(f).push(item_view(*profile_config, items@[i as int])));
                assert(entry_view(e) == item_view(*profile_config, items@[i as int]));
                let s = prev.map_values(f).push(entry_view(e));
                assert(s.drop_last() =~= prev.map_values(f));
            }
            let mut p: usize = 0;
            while p < r.len() && !entry_before(&e, &r[p])
                invariant
                    p <= r@.len(),
                    forall|j: int| 0 <= j < p ==> !listed_before(entry_view(e), #[trigger] entries_view(r@)[j]),
                decreases r@.len() - p,
            {
                p = p + 1;
            }
            let ghost before = r@;
            proof {
                lemma_insert_at(entries_view(r@), entry_view(e), p as int);
            }
            r.insert(p, e);
            proof {
                assert(entries_view(r@) =~= entries_view(before).insert(p as int, entry_view(e)));
            }
        } else {
            proof {
                assert(items@.subrange(0, i + 1).filter(pred) == items@.subrange(0, i as int).filter(pred));
            }
        }
        i = i + 1;
    }
    proof {
        assert(items@.subrange(0, items@.len() as int) =~= items@);
    }
    r
}

/// The icon of an entry: a folder, or the icon for the file's extension.
pub open spec fn entry_icon_text(is_dir: bool, name: Seq<char>) -> Seq<char> {
    if is_dir {
        "📁"@
    } else {
        icon_for_extension(lowercase(after_last_dot(name)))
    }
}

/// The label of an entry in the details and list views: its icon and name.
pub fn entry_label(entry: &FileEntry) -> (r: String)
    ensures
        r@ == entry_icon_text(entry.is_dir, entry.name@) + " "@ + entry.name@,
{
    let icon = if entry.is_dir { "📁" } else { file_icon(entry.name.as_str()) };
    concat3(icon, " ", entry.name.as_str())
}

/// The label of an entry in the compact view: a folder or a plain file icon,
/// and the name.
pub fn compact_label(entry: &FileEntry) -> (r: String)
    ensures
        r@ == (if entry.is_dir { "📁"@ } else { "📄"@ }) + " "@ + entry.name@,
{
    concat3(if entry.is_dir { "📁" } else { "📄" }, " ", entry.name.as_str())
}

/// The name under an icon: names longer than twelve characters are cut to
/// their first ten and `...`.
pub open spec fn short_name_text(name: Seq<char>) -> Seq<char> {
    if name.len() > 12 {
        name.take(10) + "..."@
    } else {
        name
    }
}

/// The name shown under an icon.
pub fn short_name(name: &str) -> (r: String)
    ensures
        r@ == short_name_text(name@),
{
    let cs = chars_of(name);
    if cs.len() > 12 {
        let head = string_from_chars(&cs.as_slice()[0..10]);
        let r = concat(head.as_str(), "...");
        proof {
            assert(head@ =~= name@.take(10));
        }
        r
    } else {
        name.to_owned()
    }
}

/// The labels of some profiles, joined by `, `.
pub open spec fn joined_labels(ps: Seq<Profile>) -> Seq<char>
    decreases ps.len(),
{
    if ps.len() == 0 {
        Seq::empty()
    } else if ps.len() == 1 {
        profile_label(ps[0])
    } else {
        joined_labels(ps.drop_last()) + ", "@ + profile_label(ps.last())
    }
}

/// The profile column of the details view.
pub open spec fn profiles_column_text(ps: Seq<Profile>) -> Seq<char> {
    if ps.len() == 0 {
        "⚠ Sem perfil"@
    } else {
        joined_labels(ps)
    }
}

/// The profile column of the details view: a warning when the entry has no
/// profile, otherwise its profiles' labels.
pub fn profiles_column(profiles: &Vec<Profile>) -> (r: String)
    ensures
        r@ == profiles_column_text(profiles@),
{
    if profiles.len() == 0 {
        return "⚠ Sem perfil".to_owned();
    }
    let mut r = String::new();
    let mut i: usize = 0;
    while i < profiles.len()
        invariant
            0 <= i <= profiles@.len(),
            profiles@.len() > 0,
            r@ == joined_labels(profiles@.take(i as int)),
        decreases profiles@.len() - i,
    {
        proof {
            assert(profiles@.take(i + 1).drop_last() =~= profiles@.take(i as int));
            assert(profiles@.take(i + 1).last() == profiles@[i as int]);
        }
        if i == 0 {
            r = profiles[0].label().to_owned();
            proof {
                assert(profiles@.take(1).len() == 1);
            }
        } else {
            r = concat3(r.as_str(), ", ", profiles[i].label());
        }
        i = i + 1;
    }
    proof {
        assert(profiles@.take(profiles@.len() as int) =~= profiles@);
    }
    r
}

/// What the toolbar shows about the clipboard.
pub fn clipboard_indicator(clipboard: &FileClipboard) -> (r: String)
    ensures
        r@ == (if clipboard.action == ClipboardAction::Copy { "📋 Copiado"@ } else { "✂ Recortado"@ }) + " ("@
            + decimal(clipboard.paths@.len()) + " item(s))"@,
{
    let label = match clipboard.action {
        ClipboardAction::Copy => "📋 Copiado",
        ClipboardAction::Cut => "✂ Recortado",
    };
    let head = concat3(label, " (", u64_to_decimal(clipboard.paths.len() as u64).as_str());
    concat(head.as_str(), " item(s))")
}

/// In a grid of `columns` columns, the item at `index` closes its row.
pub fn ends_row(index: usize, columns: usize) -> (r: bool)
    requires
        columns > 0,
        index < usize::MAX,
    ensures
        r == ((index + 1) % (columns as int) == 0),
{
    (index + 1) % columns == 0
}

impl MainPanelState {
    /// Drops the status message once it is three seconds old; returns whether
    /// a message is still shown.
    pub fn expire_status(&mut self, now: u64) -> (shown: bool)
        ensures
            match old(self).status_message {
                Some((t, at)) => if status_visible_at(at, now) {
                    shown && final(self).status_message == old(self).status_message
                } else {
                    !shown && final(self).status_message is None
                },
                None => !shown && final(self).status_message is None,
            },
            final(self).clipboard == old(self).clipboard,
            final(self).selected_file == old(self).selected_file,
            final(self).selected_files@ == old(self).selected_files@,
            same_view(*final(self), *old(self)),
    {
        let visible = match &self.status_message {
            Some((_, at)) => status_visible(*at, now),
            None => false,
        };
        if !visible {
            self.status_message = None;
        }
        visible
    }
}

/// A profile in a profile menu, checked when it is the item's.
pub fn profile_menu_label(p: Profile, current: bool) -> (r: String)
    ensures
        r@ == (if current { "✓ "@ + profile_label(p) } else { profile_label(p) }),
{
    if current {
        concat("✓ ", p.label())
    } else {
        p.label().to_owned()
    }
}

/// The item count in a folder's properties.
pub fn item_count_label(count: usize) -> (r: String)
    ensures
        r@ == "Itens: "@ + decimal(count as nat),
{
    concat("Itens: ", u64_to_decimal(count as u64).as_str())
}

/// The read-only line in an item's properties.
pub fn readonly_label(readonly: bool) -> (r: String)
    ensures
        r@ == "Somente leitura: "@ + (if readonly { "Sim"@ } else { "Não"@ }),
{
    concat("Somente leitura: ", if readonly { "Sim" } else { "Não" })
}

} // verus!
