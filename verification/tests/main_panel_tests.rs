use f1rma::files::profile::{Profile, ProfileConfig, ProfileFilter};
use f1rma::ui::main_panel::{
    clipboard_indicator, compact_label, ends_row, entry_label, file_icon, format_duration,
    get_action_paths, item_count_label, load_directory, name_precedes, profile_change_message,
    profile_menu_label, profiles_column, readonly_label, short_name, status_visible, ClipboardAction, DirItem, FileClipboard, FileEntry, MainPanelState,
    NewItemOutcome, SortField, ViewMode,
};

fn item(path: &str, name: &str, is_dir: bool) -> DirItem {
    DirItem { path: path.to_string(), name: name.to_string(), is_dir, size: 10, modified: None }
}

fn entry(path: &str, name: &str, is_dir: bool) -> FileEntry {
    FileEntry {
        path: path.to_string(),
        name: name.to_string(),
        is_dir,
        size: 0,
        modified: None,
        needs_profile: true,
        profiles: Vec::new(),
    }
}

#[test]
fn icons_follow_the_extension() {
    assert_eq!(file_icon("main.RS"), "💻");
    assert_eq!(file_icon("notas.md"), "📝");
    assert_eq!(file_icon("foto.jpeg"), "🖼");
    assert_eq!(file_icon("musica.flac"), "🎵");
    assert_eq!(file_icon("video.mkv"), "🎬");
    assert_eq!(file_icon("pacote.tar.gz"), "📦");
    assert_eq!(file_icon("setup.exe"), "⚙");
    assert_eq!(file_icon("Cargo.toml"), "🔧");
    assert_eq!(file_icon("semextensao"), "📄");
    assert_eq!(file_icon("go"), "💻");
}

#[test]
fn durations_are_compact() {
    assert_eq!(format_duration(59), "agora");
    assert_eq!(format_duration(60), "1min atrás");
    assert_eq!(format_duration(3599), "59min atrás");
    assert_eq!(format_duration(7200), "2h atrás");
    assert_eq!(format_duration(86400 * 3), "3d atrás");
}

#[test]
fn action_paths_use_the_selection_only_when_clicked_inside_it() {
    let sel = vec![String::from("/a"), String::from("/b")];
    assert_eq!(get_action_paths(&sel, "/b/"), sel);
    assert_eq!(get_action_paths(&sel, "/c"), vec![String::from("/c")]);
    let one = vec![String::from("/a")];
    assert_eq!(get_action_paths(&one, "/a"), vec![String::from("/a")]);
}

#[test]
fn listing_puts_folders_first_then_names_ignoring_case() {
    let config = ProfileConfig::default();
    let filter = ProfileFilter::none();
    let items = vec![
        item("/d/zeta.txt", "zeta.txt", false),
        item("/d/Beta", "Beta", true),
        item("/d/.oculto", ".oculto", false),
        item("/d/alfa.txt", "alfa.txt", false),
        item("/d/Alfa.txt", "Alfa.txt", false),
        item("/d/alpha", "alpha", true),
    ];
    let listed = load_directory(&items, &config, &filter, false);
    let names: Vec<&str> = listed.iter().map(|e| e.name.as_str()).collect();
    // Ties (same lowercase name) keep the order they came in.
    assert_eq!(names, vec!["alpha", "Beta", "alfa.txt", "Alfa.txt", "zeta.txt"]);
    assert!(listed.iter().all(|e| e.needs_profile && e.profiles.is_empty()));
}

#[test]
fn listing_hides_other_profiles_and_records_the_profile() {
    let mut config = ProfileConfig::default();
    config.assign_profile(String::from("/d/trabalho"), Profile::Profissional);
    config.assign_profile(String::from("/d/casa"), Profile::Pessoal);
    let filter = ProfileFilter::single(Profile::Pessoal);
    let items = vec![
        item("/d/trabalho", "trabalho", true),
        item("/d/casa", "casa", true),
        item("/d/solto", "solto", true),
    ];
    let listed = load_directory(&items, &config, &filter, false);
    assert_eq!(listed.len(), 2);
    assert_eq!(listed[0].name, "casa");
    assert_eq!(listed[0].profiles, vec![Profile::Pessoal]);
    assert!(!listed[0].needs_profile);
    assert_eq!(listed[1].name, "solto");
    assert!(listed[1].needs_profile);
}

#[test]
fn names_compare_by_code_point() {
    assert!(name_precedes("a", "b"));
    assert!(name_precedes("ab", "abc"));
    assert!(!name_precedes("abc", "ab"));
    assert!(!name_precedes("x", "x"));
    assert!(name_precedes("z", "é"));
}

#[test]
fn clipboard_from_the_context_menu_and_paste() {
    let mut s = MainPanelState::new();
    s.selected_files = vec![String::from("/a"), String::from("/b")];
    s.clip_clicked("/a", ClipboardAction::Cut, 100);
    let c = s.clipboard.as_ref().unwrap();
    assert_eq!(c.paths, vec![String::from("/a"), String::from("/b")]);
    assert_eq!(c.action, ClipboardAction::Cut);
    assert_eq!(s.status_message, Some((String::from("Recortado"), 100)));
    let taken = s.begin_paste().unwrap();
    assert!(s.clipboard.is_none());
    s.finish_paste(taken, 2, 200);
    assert_eq!(s.status_message, Some((String::from("2 item(s) movido(s)"), 200)));
    assert!(s.clipboard.is_none());
}

#[test]
fn a_copied_clipboard_survives_the_paste() {
    let mut s = MainPanelState::new();
    s.selected_file = Some(String::from("/x"));
    s.clip_selection(ClipboardAction::Copy, 5);
    assert_eq!(s.clipboard.as_ref().unwrap().paths, vec![String::from("/x")]);
    assert_eq!(s.status_message, Some((String::from("Copiado"), 5)));
    let clip = s.begin_paste().unwrap();
    s.finish_paste(clip, 1, 6);
    assert_eq!(s.status_message, Some((String::from("1 item(s) copiado(s)"), 6)));
    assert!(s.clipboard.is_some());
}

#[test]
fn keyboard_copy_without_focus_does_nothing() {
    let mut s = MainPanelState::new();
    s.selected_files = vec![String::from("/a")];
    s.clip_selection(ClipboardAction::Copy, 1);
    assert!(s.clipboard.is_none());
    assert!(s.status_message.is_none());
}

#[test]
fn delete_targets_and_report() {
    let mut s = MainPanelState::new();
    assert!(s.selection_targets().is_empty());
    s.selected_file = Some(String::from("/f"));
    assert_eq!(s.selection_targets(), vec![String::from("/f")]);
    s.selected_files = vec![String::from("/g"), String::from("/h")];
    assert_eq!(s.selection_targets(), vec![String::from("/g"), String::from("/h")]);
    s.finish_trash(2, 9);
    assert_eq!(s.status_message, Some((String::from("2 excluído(s)"), 9)));
    assert!(s.selected_file.is_none() && s.selected_files.is_empty());
}

#[test]
fn rename_flow() {
    let mut s = MainPanelState::default();
    s.selected_file = Some(String::from("/pasta/velho.txt"));
    s.rename_focused();
    assert!(s.rename_dialog.active);
    assert_eq!(s.rename_dialog.new_name, "velho.txt");
    s.rename_dialog.new_name = String::from("novo.txt");
    assert_eq!(s.rename_target(), Some(String::from("/pasta/novo.txt")));
    s.finish_rename(Some(false), 3);
    assert!(!s.rename_dialog.active);
    assert_eq!(s.status_message, Some((String::from("Erro: nome já existe"), 3)));
    s.start_rename(String::from("/q"), String::from("q"));
    s.finish_rename(Some(true), 4);
    assert_eq!(s.status_message, Some((String::from("Renomeado"), 4)));
}

#[test]
fn new_item_flow() {
    let mut s = MainPanelState::new();
    s.start_new_item(true, String::from("/base"));
    assert!(s.new_item_dialog.active && s.new_item_dialog.is_folder);
    s.new_item_dialog.name = String::from("   ");
    assert_eq!(s.new_item_target("/atual"), None);
    s.new_item_dialog.name = String::from("  Projetos ");
    assert_eq!(s.new_item_target("/atual"), Some(String::from("/base/Projetos")));
    s.finish_new_item(NewItemOutcome::Created, 7);
    assert_eq!(s.status_message, Some((String::from("Pasta 'Projetos' criado"), 7)));
    assert!(!s.new_item_dialog.active);
    s.new_item_dialog.parent = None;
    s.new_item_dialog.name = String::from("x");
    assert_eq!(s.new_item_target("/atual"), Some(String::from("/atual/x")));
    s.finish_new_item(NewItemOutcome::AlreadyExists, 8);
    assert_eq!(s.status_message, Some((String::from("Erro: já existe"), 8)));
    s.finish_new_item(NewItemOutcome::Failed(String::from("disco cheio")), 9);
    assert_eq!(s.status_message, Some((String::from("Erro: disco cheio"), 9)));
}

#[test]
fn select_all_and_refresh() {
    let mut s = MainPanelState::new();
    s.entries = vec![entry("/a", "a", false), entry("/b", "b", true)];
    s.select_all();
    assert_eq!(s.selected_files, vec![String::from("/a"), String::from("/b")]);
    s.refreshed(11);
    assert_eq!(s.status_message, Some((String::from("Atualizado"), 11)));
}

#[test]
fn status_messages_last_three_seconds() {
    assert!(status_visible(1000, 3999));
    assert!(!status_visible(1000, 4000));
    let mut s = MainPanelState::new();
    s.refreshed(1000);
    assert!(s.expire_status(2000));
    assert!(s.status_message.is_some());
    assert!(!s.expire_status(5000));
    assert!(s.status_message.is_none());
}

#[test]
fn labels_of_the_views() {
    assert_eq!(entry_label(&entry("/a/b.rs", "b.rs", false)), "💻 b.rs");
    assert_eq!(entry_label(&entry("/a/c", "c", true)), "📁 c");
    assert_eq!(compact_label(&entry("/a/b.rs", "b.rs", false)), "📄 b.rs");
    assert_eq!(short_name("nome_bem_comprido.txt"), "nome_bem_c...");
    assert_eq!(short_name("curto.txt"), "curto.txt");
    assert_eq!(short_name("exatamente12"), "exatamente12");
    assert_eq!(profiles_column(&vec![]), "⚠ Sem perfil");
    assert_eq!(profiles_column(&vec![Profile::Dev]), "Dev");
    assert_eq!(profiles_column(&vec![Profile::Pessoal, Profile::Dev]), "Pessoal, Dev");
    let clip = FileClipboard { paths: vec![String::from("/a"), String::from("/b")], action: ClipboardAction::Copy };
    assert_eq!(clipboard_indicator(&clip), "📋 Copiado (2 item(s))");
    assert_eq!(profile_change_message(Profile::Dev, true), "Perfil 'Dev' atribuído");
    assert_eq!(profile_change_message(Profile::Dev, false), "Perfil 'Dev' removido");
    assert!(ends_row(3, 4));
    assert!(!ends_row(2, 4));
}

#[test]
fn view_modes_and_defaults() {
    assert_eq!(ViewMode::all(), [ViewMode::List, ViewMode::Icons, ViewMode::Details, ViewMode::Compact]);
    assert_eq!(ViewMode::Icons.label(), "Ícones");
    let s = MainPanelState::default();
    assert_eq!(s.view_mode, ViewMode::Details);
    assert_eq!(s.sort_by, SortField::Name);
    assert!(s.sort_ascending);
}

#[test]
fn menu_and_property_labels() {
    assert_eq!(profile_menu_label(Profile::Pessoal, true), "✓ Pessoal");
    assert_eq!(profile_menu_label(Profile::Pessoal, false), "Pessoal");
    assert_eq!(item_count_label(12), "Itens: 12");
    assert_eq!(readonly_label(true), "Somente leitura: Sim");
    assert_eq!(readonly_label(false), "Somente leitura: Não");
}

#[test]
fn hidden_items_are_listed_when_shown() {
    let config = ProfileConfig::default();
    let filter = ProfileFilter::none();
    let items = vec![item("/d/.env", ".env", false), item("/d/b", "b", false), item("/d/.git", ".git", true)];
    let hidden = load_directory(&items, &config, &filter, false);
    assert_eq!(hidden.iter().map(|e| e.name.as_str()).collect::<Vec<_>>(), vec!["b"]);
    let shown = load_directory(&items, &config, &filter, true);
    assert_eq!(shown.iter().map(|e| e.name.as_str()).collect::<Vec<_>>(), vec![".git", ".env", "b"]);
}
