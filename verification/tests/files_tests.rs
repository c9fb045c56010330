use f1rma::files::annotations::{sidecar_path, Annotation, AnnotationStore, SidecarWrite};
use f1rma::files::crypto::{decrypt, decrypted_file_name, derive_key, encrypt, encrypted_file_name};
use f1rma::files::file_ops::{FileOperation, OperationHistory, OperationKind, OperationStatus, PROGRESS_DONE};
use f1rma::files::search::{matches_query, search_files, WalkedEntry};

fn walked(path: &str, name: &str, is_dir: bool) -> WalkedEntry {
    WalkedEntry { path: path.to_string(), name: name.to_string(), is_dir, is_file: !is_dir }
}

#[test]
fn encryption_round_trips_with_the_password() {
    let data = b"dados secretos".to_vec();
    let sealed = encrypt(&data, "senha").unwrap();
    assert_eq!(sealed.len(), 12 + data.len() + 16);
    assert_ne!(&sealed[12..12 + data.len()], &data[..]);
    assert_eq!(decrypt(&sealed, "senha").unwrap(), data);
}

#[test]
fn decryption_with_another_password_fails() {
    let sealed = encrypt(b"abc", "certa").unwrap();
    assert_eq!(decrypt(&sealed, "errada"), Err(String::from("Erro ao descriptografar: aead::Error")));
}

#[test]
fn short_input_is_not_encrypted_data() {
    assert_eq!(decrypt(&[1, 2, 3], "x"), Err(String::from("Dados criptografados inválidos")));
}

#[test]
fn the_key_is_the_sha256_of_the_password() {
    let k = derive_key("abc");
    assert_eq!(k.len(), 32);
    assert_eq!(
        k,
        vec![
            0xba, 0x78, 0x16, 0xbf, 0x8f, 0x01, 0xcf, 0xea, 0x41, 0x41, 0x40, 0xde, 0x5d, 0xae, 0x22, 0x23,
            0xb0, 0x03, 0x61, 0xa3, 0x96, 0x17, 0x7a, 0x9c, 0xb4, 0x10, 0xff, 0x61, 0xf2, 0x00, 0x15, 0xad
        ]
    );
}

#[test]
fn encrypted_file_names() {
    assert_eq!(encrypted_file_name("a.txt"), "a.txt.f1enc");
    assert_eq!(decrypted_file_name("a.txt.f1enc"), "a.txt");
    assert_eq!(decrypted_file_name("a.f1enc.f1enc"), "a");
    assert_eq!(decrypted_file_name("semsufixo"), "semsufixo");
    assert_eq!(decrypted_file_name(&encrypted_file_name("relatorio.pdf")), "relatorio.pdf");
}

#[test]
fn annotations_are_added_and_removed_with_their_sidecar() {
    assert_eq!(sidecar_path("/d/a.txt"), "/d/a.txt.f1rma");
    let mut store = AnnotationStore::new();
    assert!(!store.is_cached("/d/a.txt"));
    let a = Annotation::new(String::from("primeira"), String::from("ana"), String::from("maquina1"));
    let id = a.id;
    match store.add_annotation(String::from("/d/a.txt"), a) {
        SidecarWrite::Write { sidecar, annotations } => {
            assert_eq!(sidecar, "/d/a.txt.f1rma");
            assert_eq!(annotations.len(), 1);
            assert_eq!(annotations[0].content, "primeira");
        }
        SidecarWrite::Remove { .. } => panic!("expected a write"),
    }
    assert_eq!(store.get_annotations("/d//a.txt").unwrap().len(), 1);
    let w = store.update_annotation("/d/a.txt", id, String::from("editada"));
    assert!(w.is_some());
    assert_eq!(store.get_annotations("/d/a.txt").unwrap()[0].content, "editada");
    assert!(store.update_annotation("/d/a.txt", id.wrapping_add(1), String::from("x")).is_none());
    match store.remove_annotation("/d/a.txt", id) {
        Some(SidecarWrite::Remove { sidecar }) => assert_eq!(sidecar, "/d/a.txt.f1rma"),
        _ => panic!("expected the sidecar to go"),
    }
    assert!(store.get_annotations("/d/a.txt").unwrap().is_empty());
    assert!(store.remove_annotation("/d/a.txt", id).is_none());
    store.invalidate("/d/a.txt");
    assert!(!store.is_cached("/d/a.txt"));
}

#[test]
fn annotation_update_keeps_the_creation_time() {
    let mut a = Annotation::new(String::from("x"), String::from("y"), String::from("z"));
    let created = a.created_at;
    a.update(String::from("novo"));
    assert_eq!(a.content, "novo");
    assert_eq!(a.created_at, created);
    assert!(a.updated_at >= created);
}

#[test]
fn loaded_annotations_do_not_replace_the_cache() {
    let mut store = AnnotationStore::default();
    let a = Annotation::new(String::from("a"), String::from("u"), String::from("m"));
    store.cache_loaded(String::from("/f"), vec![a]);
    assert!(store.is_cached("/f"));
    store.cache_loaded(String::from("/f"), Vec::new());
    assert_eq!(store.get_annotations("/f").unwrap().len(), 1);
}

#[test]
fn operations_progress_and_history() {
    assert_eq!(OperationKind::Copy.label(), "Copiar");
    let mut op = FileOperation::new(OperationKind::Move, String::from("/a"), Some(String::from("/b")));
    assert_eq!(op.status, OperationStatus::Pending);
    op.mark_in_progress();
    op.update_progress(-5);
    assert_eq!(op.progress, 0);
    op.update_progress(2_000_000);
    assert_eq!(op.progress, PROGRESS_DONE);
    op.mark_completed();
    assert_eq!(op.status, OperationStatus::Completed);
    assert!(op.finished_at.is_some());

    let mut failed = FileOperation::new(OperationKind::Delete, String::from("/c"), None);
    failed.mark_failed(String::from("sem permissão"));
    assert_eq!(failed.status, OperationStatus::Failed);
    assert_eq!(failed.error, Some(String::from("sem permissão")));

    let mut running = FileOperation::new(OperationKind::Copy, String::from("/r"), None);
    running.mark_in_progress();

    let mut h = OperationHistory::new(2);
    h.add(op);
    h.add(failed);
    h.add(running);
    assert_eq!(h.operations.len(), 2);
    assert_eq!(h.active_operations().len(), 1);
    assert!(h.recent_completed(5).is_empty());
}

#[test]
fn recent_completed_are_newest_first() {
    let mut h = OperationHistory::new(10);
    for name in ["/1", "/2", "/3"] {
        let mut op = FileOperation::new(OperationKind::Copy, String::from(name), None);
        op.mark_completed();
        h.add(op);
    }
    let recent = h.recent_completed(2);
    assert_eq!(recent.len(), 2);
    assert_eq!(recent[0].source, "/3");
    assert_eq!(recent[1].source, "/2");
}

#[test]
fn search_ignores_case_and_stops_at_the_maximum() {
    assert!(matches_query("Relatorio.PDF", "pdf"));
    assert!(!matches_query("foto.png", "pdf"));
    let entries = vec![
        walked("/r", "r", true),
        walked("/r/Notas.txt", "Notas.txt", false),
        walked("/r/notas_velhas", "notas_velhas", true),
        walked("/r/outro.md", "outro.md", false),
        walked("/r/NOTAS.md", "NOTAS.md", false),
    ];
    let found = search_files(&entries, "notas", 2);
    assert_eq!(found.len(), 2);
    assert_eq!(found[0].path, "/r/Notas.txt");
    assert!(found[1].is_dir);
    assert!(search_files(&entries, "", 10).is_empty());
    assert!(search_files(&entries, "notas", 0).is_empty());
    assert_eq!(search_files(&entries, "NOTAS", 10).len(), 3);
}
