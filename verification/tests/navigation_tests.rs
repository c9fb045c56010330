use f1rma::navigation::{NavigationHistory, UndoAction, UndoEffect, UndoStack};

#[test]
fn back_then_forward_returns_to_the_same_folder() {
    let mut nav = NavigationHistory::new();
    nav.push(String::from("/a"));
    assert!(nav.can_go_back());
    assert!(!nav.can_go_forward());
    let back = nav.go_back("/b");
    assert_eq!(back, Some(String::from("/a")));
    assert!(nav.can_go_forward());
    let fwd = nav.go_forward("/a");
    assert_eq!(fwd, Some(String::from("/b")));
    assert_eq!(nav.back_stack, vec![String::from("/a")]);
    assert!(nav.forward_stack.is_empty());
}

#[test]
fn going_back_with_empty_history_changes_nothing() {
    let mut nav = NavigationHistory::default();
    assert_eq!(nav.go_back("/x"), None);
    assert_eq!(nav.go_forward("/x"), None);
    assert!(nav.back_stack.is_empty() && nav.forward_stack.is_empty());
}

#[test]
fn pushing_drops_the_forward_history() {
    let mut nav = NavigationHistory::new();
    nav.push(String::from("/a"));
    nav.go_back("/b");
    assert!(nav.can_go_forward());
    nav.push(String::from("/c"));
    assert!(!nav.can_go_forward());
}

#[test]
fn settle_records_a_change_of_folder_only() {
    let mut nav = NavigationHistory::new();
    assert!(!nav.settle("/a", "/a/", false));
    assert!(nav.back_stack.is_empty());
    assert!(nav.settle("/a", "/a", true));
    assert!(nav.back_stack.is_empty());
    assert!(nav.settle("/a", "/a/b", false));
    assert_eq!(nav.back_stack, vec![String::from("/a")]);
}

#[test]
fn undo_stack_keeps_only_the_newest_actions() {
    let mut s = UndoStack::new(2);
    s.push(UndoAction::Create { path: String::from("/1") });
    s.push(UndoAction::Create { path: String::from("/2") });
    s.push(UndoAction::Create { path: String::from("/3") });
    assert_eq!(s.actions.len(), 2);
    assert_eq!(s.last_action_label(), Some(String::from("Criar 3")));
    assert_eq!(s.undo_target(), Some(String::from("/3")));
}

#[test]
fn undo_of_rename_moves_back_when_the_file_is_there() {
    let mut s = UndoStack::new(50);
    s.push(UndoAction::Rename { old_path: String::from("/d/a.txt"), new_path: String::from("/d/b.txt") });
    assert_eq!(s.button_label(), "↩ Desfazer: Renomear a.txt");
    let (effect, message) = s.undo(true).unwrap();
    match effect {
        UndoEffect::RenameBack { from, to } => {
            assert_eq!(from, "/d/b.txt");
            assert_eq!(to, "/d/a.txt");
        }
        _ => panic!("expected a rename back"),
    }
    assert_eq!(message, "Desfeito: renomear → /d/a.txt");
    assert!(!s.can_undo());
    assert_eq!(s.button_label(), "↩ Desfazer");
}

#[test]
fn undo_messages_when_the_target_is_gone() {
    let mut s = UndoStack::new(50);
    s.push(UndoAction::Move { source: String::from("/a"), destination: String::from("/b") });
    s.push(UndoAction::Copy { destination: String::from("/c") });
    s.push(UndoAction::Create { path: String::from("/n") });
    s.push(UndoAction::Rename { old_path: String::from("/o"), new_path: String::from("/p") });
    let (e, m) = s.undo(false).unwrap();
    assert!(matches!(e, UndoEffect::Nothing));
    assert_eq!(m, "Erro: arquivo não encontrado");
    let (_, m) = s.undo(false).unwrap();
    assert_eq!(m, "Erro: arquivo já não existe");
    let (_, m) = s.undo(false).unwrap();
    assert_eq!(m, "Erro: cópia não encontrada");
    let (_, m) = s.undo(false).unwrap();
    assert_eq!(m, "Erro: arquivo não encontrado");
    assert!(s.undo(true).is_none());
}

#[test]
fn undo_of_create_copy_move_and_trash() {
    let mut s = UndoStack::new(50);
    s.push(UndoAction::Trash { original_path: String::from("/lixo.txt") });
    s.push(UndoAction::Move { source: String::from("/a"), destination: String::from("/b") });
    s.push(UndoAction::Copy { destination: String::from("/c") });
    s.push(UndoAction::Create { path: String::from("/n") });
    let (e, m) = s.undo(true).unwrap();
    assert!(matches!(e, UndoEffect::TrashPath { ref path } if path == "/n"));
    assert_eq!(m, "Desfeito: criação de /n");
    let (e, m) = s.undo(true).unwrap();
    assert!(matches!(e, UndoEffect::TrashPath { ref path } if path == "/c"));
    assert_eq!(m, "Desfeito: cópia removida");
    let (e, m) = s.undo(true).unwrap();
    assert!(matches!(e, UndoEffect::RenameBack { ref from, ref to } if from == "/b" && to == "/a"));
    assert_eq!(m, "Desfeito: movido de volta");
    assert_eq!(s.last_action_label(), Some(String::from("Excluir lixo.txt")));
    let (e, m) = s.undo(false).unwrap();
    assert!(matches!(e, UndoEffect::Nothing));
    assert_eq!(m, "Verifique a lixeira: /lixo.txt");
}

#[test]
fn the_back_button_leaves_forward_possible() {
    // The frame starts in /b; the button goes back to /a, and the frame is
    // settled from where going back led.
    let mut nav = NavigationHistory::new();
    nav.push(String::from("/a"));
    let to = nav.go_back("/b").unwrap();
    assert!(!nav.settle(&to, &to, false));
    assert!(nav.can_go_forward());
    assert_eq!(nav.forward_stack, vec![String::from("/b")]);
    assert!(nav.back_stack.is_empty());
    assert_eq!(nav.go_forward(&to), Some(String::from("/b")));
}
