use f1rma::files::file_ops::{FileOperation, OperationKind, OperationStatus};
use f1rma::files::profile::{Profile, ProfileConfig};
use f1rma::files::search::{DirNode, SearchResult, WalkedEntry};
use f1rma::network::discovery::Peer;
use f1rma::ui::footer::{idle_label, operation_line, recent_line, status_icon, RECENT_SHOWN};
use f1rma::ui::header::{breadcrumb_segments, peers_label, HeaderState};
use f1rma::ui::network_panel::{online_count_label, peer_endpoint, peer_hover_line, peer_version_label, running_label};
use f1rma::ui::preview_panel::{
    annotation_date, format_time_ago, machine_tag, preview_kind, text_preview, type_label,
    PreviewKind, PreviewPanelState,
};
use f1rma::ui::tree_panel::{
    is_hidden_name, item_created_message, profile_assigned_message, protection_message,
    renamed_name, results_title, search_result_label, sort_dirs, tree_label, within_tree_depth, TreePanelState,
    TREE_SEARCH_LIMIT,
};

fn peer(version: &str) -> Peer {
    Peer {
        machine_name: String::from("sala"),
        machine_id: String::from("m1"),
        username: String::from("ana"),
        address: String::from("10.0.0.9"),
        port: 7100,
        version: version.to_string(),
        last_seen: Some(1),
        online: true,
    }
}

#[test]
fn header_dialog_trims_the_new_profile_name() {
    let mut h = HeaderState::default();
    h.start_adding();
    assert!(h.adding_profile);
    h.new_profile_name = String::from("  Jogos  ");
    assert_eq!(h.confirm(), Some(String::from("Jogos")));
    assert!(!h.adding_profile);
    h.start_adding();
    h.new_profile_name = String::from("   ");
    assert_eq!(h.confirm(), None);
    h.start_adding();
    h.cancel();
    assert!(!h.adding_profile);
}

#[test]
fn peers_and_breadcrumbs() {
    assert_eq!(peers_label(0), "🌐 Nenhum peer");
    assert_eq!(peers_label(3), "🌐 3 peer(s)");
    let crumbs = breadcrumb_segments("/home/ana/docs");
    let names: Vec<&str> = crumbs.iter().map(|c| c.0.as_str()).collect();
    let paths: Vec<&str> = crumbs.iter().map(|c| c.1.as_str()).collect();
    assert_eq!(names, vec!["/", "home", "ana", "docs"]);
    assert_eq!(paths, vec!["/", "/home", "/home/ana", "/home/ana/docs"]);
    assert_eq!(breadcrumb_segments("docs").len(), 2);
}

#[test]
fn footer_lines() {
    assert_eq!(status_icon(OperationStatus::InProgress), "⚡");
    assert_eq!(status_icon(OperationStatus::Cancelled), "🚫");
    let mut op = FileOperation::new(OperationKind::Copy, String::from("/d/relatorio.pdf"), None);
    assert_eq!(operation_line(&op), "⏳ Copiar relatorio.pdf");
    op.mark_completed();
    assert_eq!(recent_line(&op), "✓ Copiar relatorio.pdf");
    assert_eq!(idle_label(), "Pronto");
    assert_eq!(RECENT_SHOWN, 3);
}

#[test]
fn network_panel_labels() {
    assert_eq!(running_label(true), "● Ativo");
    assert_eq!(running_label(false), "● Inativo");
    assert_eq!(online_count_label(2), "2 computador(es) na rede");
    assert_eq!(peer_endpoint(&peer("1.0")), "10.0.0.9:7100");
    assert_eq!(peer_version_label(&peer("1.0")), Some(String::from("v1.0")));
    assert_eq!(peer_version_label(&peer("")), None);
    assert_eq!(peer_hover_line(&peer("1.0")), "sala (ana) - 10.0.0.9:7100");
}

#[test]
fn preview_rules() {
    assert_eq!(format_time_ago(30), "agora");
    assert_eq!(format_time_ago(120), "2 min atrás");
    assert_eq!(format_time_ago(7300), "2 h atrás");
    assert_eq!(format_time_ago(200000), "2 dias atrás");
    assert_eq!(preview_kind(false, "/d"), PreviewKind::Directory);
    assert_eq!(preview_kind(true, "/d/LEIA.MD"), PreviewKind::Text);
    assert_eq!(preview_kind(true, "/d/f.JPEG"), PreviewKind::Image);
    assert_eq!(preview_kind(true, "/d/f.svg"), PreviewKind::Unsupported);
    assert_eq!(preview_kind(true, "/d/Makefile"), PreviewKind::Unsupported);
    assert_eq!(type_label("/d/a.tar.gz"), Some(String::from("Tipo: .gz")));
    assert_eq!(type_label("/d/LEIAME"), None);
}

#[test]
fn text_previews_are_cut_at_a_character_boundary() {
    let short = "olá";
    assert_eq!(text_preview(short), "olá");
    let long = "é".repeat(3000);
    let p = text_preview(&long);
    assert!(p.ends_with("...\n\n[arquivo truncado]"));
    let head = p.trim_end_matches("...\n\n[arquivo truncado]");
    assert_eq!(head.len(), 4096);
    assert_eq!(head.chars().count(), 2048);
    let odd = format!("a{}", "é".repeat(3000));
    let q = text_preview(&odd);
    assert_eq!(q.trim_end_matches("...\n\n[arquivo truncado]").len(), 4095);
}

#[test]
fn annotation_card_texts() {
    assert_eq!(annotation_date(0), Some(String::from("01/01/1970 00:00")));
    assert_eq!(annotation_date(1_700_000_000_000_000), Some(String::from("14/11/2023 22:13")));
    assert_eq!(machine_tag("abcdefgh-1234"), "(abcdefgh)");
    let mut st = PreviewPanelState::default();
    assert_eq!(st.take_new_annotation(), None);
    st.new_annotation_text = String::from("lembrar");
    assert_eq!(st.take_new_annotation(), Some(String::from("lembrar")));
    assert!(st.new_annotation_text.is_empty());
}

#[test]
fn tree_panel_rules() {
    let mut t = TreePanelState::default();
    assert!(!t.is_expanded("/a"));
    t.toggle_expanded("/a");
    assert!(t.is_expanded("/a/"));
    t.toggle_expanded("/a");
    assert!(!t.is_expanded("/a"));
    let entries: Vec<WalkedEntry> = (0..30)
        .map(|i| WalkedEntry { path: format!("/r/nota{}", i), name: format!("nota{}", i), is_dir: false, is_file: true })
        .collect();
    t.search_query = String::from("n");
    t.refresh_search(&entries);
    assert!(t.search_results.is_empty());
    t.search_query = String::from("NO");
    t.refresh_search(&entries);
    assert_eq!(t.search_results.len(), TREE_SEARCH_LIMIT);
    t.search_query = String::from("é");
    t.refresh_search(&entries);
    assert!(t.search_results.is_empty());
    t.post(String::from("ok"), 5);
    assert_eq!(t.status_message, Some((String::from("ok"), 5)));
    assert!(within_tree_depth(8));
    assert!(!within_tree_depth(9));
    assert!(is_hidden_name(".git"));
    assert!(!is_hidden_name("git"));
    assert_eq!(tree_label("docs", true), "📁 docs ⚠");
    assert_eq!(tree_label("docs", false), "📁 docs");
    assert_eq!(renamed_name("fotos"), "fotos_renomeado");
    assert_eq!(item_created_message(true, true), "Pasta criado");
    assert_eq!(item_created_message(false, true), "Arquivo criado");
    assert_eq!(item_created_message(false, false), "Erro ao criar");
    assert_eq!(profile_assigned_message(Profile::Pessoal), "Perfil 'Pessoal' atribuído");
    assert_eq!(protection_message(true), "Pasta protegida");
}

#[test]
fn protection_toggles() {
    let mut c = ProfileConfig::default();
    assert!(c.toggle_protection("/cofre"));
    assert_eq!(c.secure_directories, vec![String::from("/cofre")]);
    assert!(c.is_in_secure_directory("/cofre/x"));
    assert!(!c.toggle_protection("/cofre/"));
    assert!(c.secure_directories.is_empty());
}

#[test]
fn dir_nodes_are_named_by_their_last_component() {
    let leaf = DirNode::from_parts(String::from("/home/ana"), Vec::new());
    assert_eq!(leaf.name, "ana");
    let root = DirNode::from_parts(String::from("/"), vec![leaf]);
    assert_eq!(root.name, "/");
    assert_eq!(root.children.len(), 1);
    assert!(!root.is_expanded);
}

#[test]
fn search_labels() {
    assert_eq!(results_title(4), "Resultados (4)");
    let r = SearchResult { path: String::from("/a/b"), name: String::from("b"), is_dir: true };
    assert_eq!(search_result_label(&r), "📁 b");
}

#[test]
fn tree_folders_are_drawn_in_byte_order() {
    let dirs: Vec<String> = ["/r/beta", "/r/Zeta", "/r/alfa", "/r/Ágata", "/r/alfa 2"]
        .iter()
        .map(|s| s.to_string())
        .collect();
    let sorted = sort_dirs(&dirs);
    assert_eq!(sorted, vec!["/r/Zeta", "/r/alfa", "/r/alfa 2", "/r/beta", "/r/Ágata"]);
}
