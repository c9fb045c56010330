use f1rma::naming::{first_free_name, first_free_number, holds_name, join_name, numbered};
use f1rma::ui::main_panel::{duplicate_path, get_unique_path, paste_target};
use f1rma::ui::tree_panel::new_item_path;

fn names(v: &[&str]) -> Vec<String> {
    v.iter().map(|s| s.to_string()).collect()
}

#[test]
fn numbered_names_have_the_number_in_brackets() {
    assert_eq!(numbered("foto", 2, ".png"), "foto (2).png");
    assert_eq!(numbered("Nova pasta", 13, ""), "Nova pasta (13)");
}

#[test]
fn the_first_free_number_skips_taken_names() {
    let taken = names(&["a (2).txt", "a (3).txt", "b (4).txt"]);
    assert_eq!(first_free_number("a", ".txt", &taken), (String::from("a (4).txt"), 4));
    assert_eq!(first_free_number("b", ".txt", &taken), (String::from("b (2).txt"), 2));
}

#[test]
fn a_full_folder_still_has_a_free_number() {
    let taken = names(&["x (2)", "x (3)", "x (4)"]);
    assert_eq!(first_free_number("x", "", &taken), (String::from("x (5)"), 5));
}

#[test]
fn plain_name_first_then_numbered() {
    assert_eq!(first_free_name("Nova pasta", "", &names(&[])), "Nova pasta");
    assert_eq!(first_free_name("Nova pasta", "", &names(&["Nova pasta"])), "Nova pasta (2)");
    assert_eq!(
        first_free_name("Novo arquivo", ".txt", &names(&["Novo arquivo.txt", "Novo arquivo (2).txt"])),
        "Novo arquivo (3).txt"
    );
}

#[test]
fn joining_adds_a_separator_only_when_needed() {
    assert_eq!(join_name("/home", "a"), "/home/a");
    assert_eq!(join_name("/", "a"), "/a");
    assert_eq!(join_name("", "a"), "a");
    assert_eq!(join_name("docs/", "a"), "docs/a");
}

#[test]
fn joining_an_absolute_name_replaces_the_folder() {
    assert_eq!(join_name("/home", "/etc"), "/etc");
    assert_eq!(join_name("docs", "/"), "/");
}

#[test]
fn holds_name_compares_whole_names() {
    let taken = names(&["abc", "d"]);
    assert!(holds_name(&taken, "abc"));
    assert!(!holds_name(&taken, "ab"));
}

#[test]
fn unique_path_beside_the_original() {
    let taken = names(&["relatorio.pdf", "relatorio (2).pdf"]);
    assert_eq!(get_unique_path("/docs/relatorio.pdf", &taken), "/docs/relatorio (3).pdf");
    assert_eq!(get_unique_path("/docs/LEIAME", &names(&[])), "/docs/LEIAME (2)");
    assert_eq!(get_unique_path("/docs/arq.tar.gz", &names(&[])), "/docs/arq.tar (2).gz");
}

#[test]
fn duplicate_gets_a_copy_suffix() {
    assert_eq!(duplicate_path("/d/nota.txt", &names(&["nota.txt"])), "/d/nota - Cópia.txt");
    assert_eq!(
        duplicate_path("/d/nota.txt", &names(&["nota.txt", "nota - Cópia.txt"])),
        "/d/nota - Cópia (2).txt"
    );
    assert_eq!(duplicate_path("/d/.bashrc", &names(&[])), "/d/.bashrc - Cópia");
}

#[test]
fn paste_keeps_the_name_unless_taken_by_another_item() {
    assert_eq!(paste_target("/a/x.txt", "/b", &names(&[])), "/b/x.txt");
    assert_eq!(paste_target("/a/x.txt", "/b", &names(&["x.txt"])), "/b/x (2).txt");
    // Pasting into the folder it came from: the same path is not another item.
    assert_eq!(paste_target("/a/x.txt", "/a", &names(&["x.txt"])), "/a/x.txt");
}

#[test]
fn new_items_in_the_tree() {
    assert_eq!(new_item_path("/p", true, &names(&[])), "/p/Nova pasta");
    assert_eq!(new_item_path("/p", true, &names(&["Nova pasta"])), "/p/Nova pasta (2)");
    assert_eq!(new_item_path("/p", false, &names(&["Novo arquivo.txt"])), "/p/Novo arquivo (2).txt");
}
