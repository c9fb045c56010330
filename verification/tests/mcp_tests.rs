use f1rma::files::search::WalkedEntry;
use f1rma::mcp::protocol::{protocol_version, route_method, server_name, McpError, McpMethod};
use f1rma::mcp::tools::{
    annotation_added_message, check_create_folder, check_exists, check_list_files, check_move,
    check_read_file, check_rename, folder_created_message, is_path_secure, missing_parameter,
    missing_profiles_parameter, moved_message, parse_tool, profile_tag, profiles_assigned_message,
    read_error_text, renamed_message, tool_catalog, tool_error_text,
    tool_list, tool_search, unknown_tool_error, McpTool, ProfileTag, READ_LIMIT,
};
use f1rma::files::profile::Profile;

fn walked(path: &str, name: &str) -> WalkedEntry {
    WalkedEntry { path: path.to_string(), name: name.to_string(), is_dir: false, is_file: true }
}

#[test]
fn json_rpc_errors_carry_their_codes() {
    let e = McpError::parse_error("json ruim");
    assert_eq!((e.code, e.message.as_str()), (-32700, "json ruim"));
    let e = McpError::method_not_found("foo/bar");
    assert_eq!((e.code, e.message.as_str()), (-32601, "Método não encontrado: foo/bar"));
    let e = McpError::invalid_params("faltou");
    assert_eq!(e.code, -32602);
}

#[test]
fn methods_are_routed_by_name() {
    assert_eq!(route_method("initialize"), McpMethod::Initialize);
    assert_eq!(route_method("notifications/initialized"), McpMethod::Initialized);
    assert_eq!(route_method("tools/list"), McpMethod::ListTools);
    assert_eq!(route_method("tools/call"), McpMethod::CallTool);
    assert_eq!(route_method("tools/other"), McpMethod::Unknown);
    assert_eq!(protocol_version(), "2024-11-05");
    assert_eq!(server_name(), "f1rma-mcp");
}

#[test]
fn the_catalog_lists_nine_tools_that_parse_back() {
    let tools = tool_catalog();
    assert_eq!(tools.len(), 9);
    for t in &tools {
        assert_eq!(parse_tool(t.name()), Some(*t));
        assert!(!t.description().is_empty());
        for r in t.required() {
            assert!(t.params().iter().any(|p| p.name == r));
        }
    }
    assert_eq!(tools[3].name(), "search_files");
    assert_eq!(McpTool::SearchFiles.required(), vec!["path", "query"]);
    let params = McpTool::AssignProfiles.params();
    assert_eq!(params[1].name, "profiles");
    assert_eq!(params[1].kind, "array");
    assert_eq!(parse_tool("apagar_tudo"), None);
}

#[test]
fn tool_messages() {
    assert_eq!(unknown_tool_error("x"), "Tool desconhecida: x");
    assert_eq!(tool_error_text("falhou"), "Erro: falhou");
    assert_eq!(missing_parameter("path"), "Parâmetro 'path' obrigatório");
    assert_eq!(moved_message("/a", "/b"), "Movido: /a → /b");
    assert_eq!(renamed_message("/a", "b"), "Renomeado: /a → b");
    assert_eq!(folder_created_message("/n"), "Pasta criada: /n");
    assert_eq!(annotation_added_message("/f"), "Anotação adicionada a /f");
    assert_eq!(missing_profiles_parameter(), "Parâmetro 'profiles' obrigatório (array de strings)");
    assert_eq!(read_error_text("x"), "Erro ao ler: x (pode ser binário)");
    let names = vec![String::from("Dev"), String::from("Jo\"a")];
    assert_eq!(profiles_assigned_message(&names, "/p"), "Perfis [\"Dev\", \"Jo\\\"a\"] atribuídos a /p");
}

#[test]
fn secure_paths_are_refused() {
    let secure = vec![String::from("/home/u/cofre")];
    assert!(is_path_secure("/home/u/cofre/a.txt", &secure));
    assert!(is_path_secure("/home/u/cofre", &secure));
    assert!(!is_path_secure("/home/u/cofre2/a.txt", &secure));
    assert_eq!(check_list_files("/x", true, true), Err(String::from("Acesso negado: diretório seguro")));
    assert_eq!(check_list_files("/x", false, false), Err(String::from("Caminho não existe: /x")));
    assert_eq!(check_list_files("/x", false, true), Ok(()));
}

#[test]
fn read_file_checks_in_order() {
    assert_eq!(check_read_file(true, false, 0), Err(String::from("Acesso negado: arquivo em diretório seguro")));
    assert_eq!(check_read_file(false, false, 0), Err(String::from("Caminho não é um arquivo")));
    assert_eq!(
        check_read_file(false, true, READ_LIMIT + 1),
        Err(String::from("Arquivo muito grande (>50KB). Use get_file_info para metadados."))
    );
    assert_eq!(check_read_file(false, true, READ_LIMIT), Ok(()));
}

#[test]
fn move_rename_and_create_checks() {
    assert_eq!(check_exists(false), Err(String::from("Caminho não existe")));
    assert_eq!(check_exists(true), Ok(()));
    assert_eq!(check_move(false, false, false), Err(String::from("Origem não existe")));
    assert_eq!(check_move(true, true, false), Err(String::from("Acesso negado: origem em diretório seguro")));
    assert_eq!(check_move(true, false, true), Err(String::from("Destino já existe")));
    assert_eq!(check_move(true, false, false), Ok(()));
    assert_eq!(check_rename(false, false, true, false, "n"), Err(String::from("Caminho não existe")));
    assert_eq!(check_rename(true, true, true, false, "n"), Err(String::from("Acesso negado: diretório seguro")));
    assert_eq!(check_rename(true, false, false, false, "n"), Err(String::from("Sem diretório pai")));
    assert_eq!(check_rename(true, false, true, true, "n"), Err(String::from("Já existe: n")));
    assert_eq!(check_rename(true, false, true, false, "n"), Ok(()));
    assert_eq!(check_create_folder(true), Err(String::from("Caminho já existe")));
    assert_eq!(check_create_folder(false), Ok(()));
}

#[test]
fn profile_names_become_tags() {
    assert!(matches!(profile_tag("Dev"), ProfileTag::Builtin(Profile::Dev)));
    assert!(matches!(profile_tag("Pessoal"), ProfileTag::Builtin(Profile::Pessoal)));
    assert!(matches!(profile_tag("Jogos"), ProfileTag::Custom(ref c) if c == "Jogos"));
    assert!(matches!(profile_tag("dev"), ProfileTag::Custom(_)));
}

#[test]
fn tool_search_skips_secure_entries_and_reports_at_least_one() {
    let secure = vec![String::from("/r/cofre")];
    let entries = vec![
        walked("/r/cofre/plano.txt", "plano.txt"),
        walked("/r/Plano_B.md", "Plano_B.md"),
        walked("/r/plano_c.md", "plano_c.md"),
        walked("/r/outro", "outro"),
    ];
    let all = tool_search(&entries, "PLANO", 50, &secure);
    assert_eq!(all.len(), 2);
    assert_eq!(all[0].path, "/r/Plano_B.md");
    let one = tool_search(&entries, "plano", 0, &secure);
    assert_eq!(one.len(), 1);
    assert_eq!(tool_search(&entries, "", 10, &secure).len(), 3);
}

#[test]
fn tool_list_skips_secure_entries_and_caps_recursion() {
    let secure = vec![String::from("/r/cofre")];
    let entries = vec![walked("/r/a", "a"), walked("/r/cofre", "cofre"), walked("/r/b", "b")];
    let listed = tool_list(&entries, false, &secure);
    assert_eq!(listed.len(), 2);
    assert_eq!(listed[1].name, "b");
    let many: Vec<WalkedEntry> = (0..600).map(|i| walked(&format!("/r/f{}", i), "f")).collect();
    assert_eq!(tool_list(&many, true, &secure).len(), 500);
    assert_eq!(tool_list(&many, false, &secure).len(), 600);
}
