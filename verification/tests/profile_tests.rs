use f1rma::files::profile::{Profile, ProfileConfig, ProfileFilter};

#[test]
fn test_profile_inheritance() {
    let mut config = ProfileConfig::default();
    let docs = String::from("/home/user/docs");
    config.assign_profile(docs.clone(), Profile::Pessoal);

    let file = String::from("/home/user/docs/notas/arquivo.txt");
    assert_eq!(config.resolve_profile(&file), Some(Profile::Pessoal));
}

#[test]
fn test_visibility() {
    let mut config = ProfileConfig::default();
    let docs = String::from("/home/user/docs");
    config.assign_profile(docs, Profile::Pessoal);

    let file = String::from("/home/user/docs/notas.txt");
    assert!(config.is_visible(&file, Profile::Pessoal));
    assert!(!config.is_visible(&file, Profile::Dev));
}

#[test]
fn test_secure_directory_not_shared() {
    let mut config = ProfileConfig::default();
    let secure = String::from("/home/user/docs/.seguro");
    config.secure_directories.push(secure.clone());

    let docs = String::from("/home/user/docs");
    config.assign_profile(docs, Profile::Pessoal);

    let file = String::from("/home/user/docs/.seguro/senha.txt");
    assert!(!config.is_network_available(&file));
}

#[test]
fn shared_profile_outside_secure_directory_is_available() {
    let mut config = ProfileConfig::default();
    config.secure_directories.push(String::from("/home/user/docs/.seguro"));
    config.assign_profile(String::from("/home/user/docs"), Profile::Profissional);
    assert!(config.is_network_available("/home/user/docs/relatorio.pdf"));
    // A sibling whose name merely begins like the secure directory is not inside it.
    assert!(config.is_network_available("/home/user/docs/.seguro2/x.txt"));
}

#[test]
fn dev_and_unassigned_files_are_not_shared() {
    let mut config = ProfileConfig::default();
    config.assign_profile(String::from("/src"), Profile::Dev);
    assert!(!config.is_network_available("/src/main.rs"));
    assert!(!config.is_network_available("/tmp/solto.txt"));
    assert!(config.needs_profile_assignment("/tmp/solto.txt"));
    assert!(!config.needs_profile_assignment("/src/main.rs"));
}

#[test]
fn closer_assignment_wins_and_paths_compare_by_components() {
    let mut config = ProfileConfig::default();
    config.assign_profile(String::from("/home/user"), Profile::Pessoal);
    config.assign_profile(String::from("/home/user/work/"), Profile::Profissional);
    assert_eq!(config.resolve_profile("/home/user/work//a.txt"), Some(Profile::Profissional));
    assert_eq!(config.resolve_profile("/home/user/fotos/a.png"), Some(Profile::Pessoal));
    config.remove_profile("/home/user/work");
    assert_eq!(config.resolve_profile("/home/user/work/a.txt"), Some(Profile::Pessoal));
    assert_eq!(config.resolve_profile("/etc/passwd"), None);
}

#[test]
fn relative_paths_reach_the_empty_path() {
    let mut config = ProfileConfig::default();
    config.assign_profile(String::from(""), Profile::Dev);
    assert_eq!(config.resolve_profile("docs/a.txt"), Some(Profile::Dev));
    // An absolute path stops at the root and never reaches the empty path.
    assert_eq!(config.resolve_profile("/docs/a.txt"), None);
}

#[test]
fn filter_toggle_and_visibility() {
    let mut config = ProfileConfig::default();
    config.assign_profile(String::from("/w"), Profile::Profissional);
    let mut filter = ProfileFilter::none();
    assert!(filter.show_all());
    assert!(config.is_visible_filtered("/w/a", &filter));
    filter.toggle(Profile::Pessoal);
    assert!(filter.is_active(Profile::Pessoal));
    assert!(!config.is_visible_filtered("/w/a", &filter));
    assert!(config.is_visible_filtered("/x/a", &filter));
    filter.toggle(Profile::Profissional);
    assert!(config.is_visible_filtered("/w/a", &filter));
    filter.toggle(Profile::Pessoal);
    assert!(!filter.is_active(Profile::Pessoal));
    assert!(filter.same_selection(&ProfileFilter::single(Profile::Profissional)));
    filter.clear();
    assert!(filter.show_all());
}

#[test]
fn profile_labels_and_sharing() {
    assert_eq!(Profile::Pessoal.label(), "Pessoal");
    assert_eq!(Profile::Profissional.label(), "Profissional");
    assert_eq!(Profile::Dev.label(), "Dev");
    assert_eq!(Profile::all(), [Profile::Pessoal, Profile::Profissional, Profile::Dev]);
    assert!(Profile::Pessoal.is_network_shared());
    assert!(!Profile::Dev.is_network_shared());
}

#[test]
fn toggling_a_profile_assigns_then_removes_it() {
    let mut config = ProfileConfig::default();
    let docs = String::from("/home/user/docs");
    assert!(config.toggle_profile(docs.clone(), Profile::Profissional));
    assert_eq!(config.resolve_profile(&docs), Some(Profile::Profissional));
    assert!(config.toggle_profile(docs.clone(), Profile::Pessoal));
    assert_eq!(config.resolve_profile(&docs), Some(Profile::Pessoal));
    assert!(!config.toggle_profile(docs.clone(), Profile::Pessoal));
    assert_eq!(config.resolve_profile(&docs), None);
}

#[test]
fn toggling_an_inherited_profile_removes_the_own_one() {
    let mut config = ProfileConfig::default();
    config.assign_profile(String::from("/home/user"), Profile::Pessoal);
    let docs = String::from("/home/user/docs");
    config.assign_profile(docs.clone(), Profile::Profissional);
    assert!(!config.toggle_profile(docs.clone(), Profile::Profissional));
    assert_eq!(config.resolve_profile(&docs), Some(Profile::Pessoal));
}

#[test]
fn only_listed_folders_are_protected() {
    let mut config = ProfileConfig::default();
    config.secure_directories.push(String::from("/home/user/segredo"));
    assert!(config.is_protected("/home/user/segredo"));
    assert!(config.is_protected("/home/user/segredo/"));
    assert!(!config.is_protected("/home/user/segredo/sub"));
    assert!(!config.is_protected("/home/user"));
}
