//! The tools offered to language models, and the checks each one makes
//! before touching the file system.
//!
//! Nothing inside a secure directory is listed, read, moved or renamed.

use vstd::prelude::*;
use crate::files::profile::Profile;
use crate::files::search::{law_name_matches_substring, matches_query, name_matches, reports, SearchResult, WalkedEntry};
use crate::paths::{path_starts_with, starts_with, strings_view};
use crate::text::{concat, concat3, lowercase, same_chars};

verus! {

/// A tool the server offers.
#[derive(Debug, Clone, Copy, PartialEq, Eq, Structural)]
pub enum McpTool {
    ListFiles,
    ReadFile,
    GetFileInfo,
    SearchFiles,
    AssignProfiles,
    AddAnnotation,
    MoveFile,
    RenameFile,
    CreateFolder,
}

/// The tool with this name, if any.
pub open spec fn tool_for(name: Seq<char>) -> Option<McpTool> {
    if name == "list_files"@ {
        Some(McpTool::ListFiles)
    } else if name == "read_file"@ {
        Some(McpTool::ReadFile)
    } else if name == "get_file_info"@ {
        Some(McpTool::GetFileInfo)
    } else if name == "search_files"@ {
        Some(McpTool::SearchFiles)
    } else if name == "assign_profiles"@ {
        Some(McpTool::AssignProfiles)
    } else if name == "add_annotation"@ {
        Some(McpTool::AddAnnotation)
    } else if name == "move_file"@ {
        Some(McpTool::MoveFile)
    } else if name == "rename_file"@ {
        Some(McpTool::RenameFile)
    } else if name == "create_folder"@ {
        Some(McpTool::CreateFolder)
    } else {
        None
    }
}

/// The tool a `tools/call` request names.
pub fn parse_tool(name: &str) -> (r: Option<McpTool>)
    ensures
        r == tool_for(name@),
{
    if same_chars(name, "list_files") {
        Some(McpTool::ListFiles)
    } else if same_chars(name, "read_file") {
        Some(McpTool::ReadFile)
    } else if same_chars(name, "get_file_info") {
        Some(McpTool::GetFileInfo)
    } else if same_chars(name, "search_files") {
        Some(McpTool::SearchFiles)
    } else if same_chars(name, "assign_profiles") {
        Some(McpTool::AssignProfiles)
    } else if same_chars(name, "add_annotation") {
        Some(McpTool::AddAnnotation)
    } else if same_chars(name, "move_file") {
        Some(McpTool::MoveFile)
    } else if same_chars(name, "rename_file") {
        Some(McpTool::RenameFile)
    } else if same_chars(name, "create_folder") {
        Some(McpTool::CreateFolder)
    } else {
        None
    }
}


/// A parameter of a tool: its name, its JSON type, and what it is for. An
/// array parameter holds strings.
pub struct ToolParam {
    pub name: &'static str,
    pub kind: &'static str,
    pub description: &'static str,
}

/// The view of a parameter: name, type and description.
pub open spec fn param_view(p: ToolParam) -> (Seq<char>, Seq<char>, Seq<char>) {
    (p.name@, p.kind@, p.description@)
}

/// The name under which a tool is offered.
pub open spec fn tool_name(t: McpTool) -> Seq<char> {
    match t {
        McpTool::ListFiles => "list_files"@,
        McpTool::ReadFile => "read_file"@,
        McpTool::GetFileInfo => "get_file_info"@,
        McpTool::SearchFiles => "search_files"@,
        McpTool::AssignProfiles => "assign_profiles"@,
        McpTool::AddAnnotation => "add_annotation"@,
        McpTool::MoveFile => "move_file"@,
        McpTool::RenameFile => "rename_file"@,
        McpTool::CreateFolder => "create_folder"@,
    }
}

/// What a tool is described as.
pub open spec fn tool_description(t: McpTool) -> Seq<char> {
    match t {
        McpTool::ListFiles => "Lista arquivos e pastas em um diretório. Retorna nome, tipo, tamanho e perfis atribuídos. Não lista conteúdo de diretórios seguros/criptografados."@,
        McpTool::ReadFile => "Lê o conteúdo de um arquivo de texto. Não funciona em arquivos dentro de diretórios seguros. Limita a 50KB."@,
        McpTool::GetFileInfo => "Retorna metadados de um arquivo: tamanho, data de modificação, perfis, anotações existentes."@,
        McpTool::SearchFiles => "Busca arquivos por nome em um diretório."@,
        McpTool::AssignProfiles => "Atribui um ou mais perfis a um arquivo ou pasta. Perfis disponíveis: Pessoal, Profissional, Dev, ou perfis customizados criados pelo usuário."@,
        McpTool::AddAnnotation => "Adiciona uma anotação/nota a um arquivo ou pasta. A anotação fica permanentemente atrelada ao arquivo."@,
        McpTool::MoveFile => "Move um arquivo ou pasta para outro local. Requer confirmação implícita do usuário."@,
        McpTool::RenameFile => "Renomeia um arquivo ou pasta."@,
        McpTool::CreateFolder => "Cria uma nova pasta."@,
    }
}

/// A tool's parameters, in order: name, type and description.
pub open spec fn tool_params(t: McpTool) -> Seq<(Seq<char>, Seq<char>, Seq<char>)> {
    match t {
        McpTool::ListFiles => seq![("path"@, "string"@, "Caminho do diretório a listar"@), ("recursive"@, "boolean"@, "Se deve listar recursivamente (padrão: false)"@)],
        McpTool::ReadFile => seq![("path"@, "string"@, "Caminho do arquivo a ler"@)],
        McpTool::GetFileInfo => seq![("path"@, "string"@, "Caminho do arquivo ou pasta"@)],
        McpTool::SearchFiles => seq![("path"@, "string"@, "Diretório raiz da busca"@), ("query"@, "string"@, "Termo de busca (nome parcial)"@), ("max_results"@, "integer"@, "Máximo de resultados (padrão: 50)"@)],
        McpTool::AssignProfiles => seq![("path"@, "string"@, "Caminho do arquivo ou pasta"@), ("profiles"@, "array"@, "Lista de nomes de perfis a atribuir"@)],
        McpTool::AddAnnotation => seq![("path"@, "string"@, "Caminho do arquivo ou pasta"@), ("content"@, "string"@, "Texto da anotação"@)],
        McpTool::MoveFile => seq![("source"@, "string"@, "Caminho de origem"@), ("destination"@, "string"@, "Caminho de destino"@)],
        McpTool::RenameFile => seq![("path"@, "string"@, "Caminho atual"@), ("new_name"@, "string"@, "Novo nome (apenas o nome, sem caminho)"@)],
        McpTool::CreateFolder => seq![("path"@, "string"@, "Caminho completo da pasta a criar"@)],
    }
}

/// The parameters a tool requires.
pub open spec fn tool_required(t: McpTool) -> Seq<Seq<char>> {
    match t {
        McpTool::ListFiles => seq!["path"@],
        McpTool::ReadFile => seq!["path"@],
        McpTool::GetFileInfo => seq!["path"@],
        McpTool::SearchFiles => seq!["path"@, "query"@],
        McpTool::AssignProfiles => seq!["path"@, "profiles"@],
        McpTool::AddAnnotation => seq!["path"@, "content"@],
        McpTool::MoveFile => seq!["source"@, "destination"@],
        McpTool::RenameFile => seq!["path"@, "new_name"@],
        McpTool::CreateFolder => seq!["path"@],
    }
}

impl McpTool {
    /// The name under which the tool is offered.
    pub fn name(&self) -> (r: &'static str)
        ensures
            r@ == tool_name(*self),
    {
        match self {
            McpTool::ListFiles => "list_files",
            McpTool::ReadFile => "read_file",
            McpTool::GetFileInfo => "get_file_info",
            McpTool::SearchFiles => "search_files",
            McpTool::AssignProfiles => "assign_profiles",
            McpTool::AddAnnotation => "add_annotation",
            McpTool::MoveFile => "move_file",
            McpTool::RenameFile => "rename_file",
            McpTool::CreateFolder => "create_folder",
        }
    }

    /// What the tool is described as.
    pub fn description(&self) -> (r: &'static str)
        ensures
            r@ == tool_description(*self),
    {
        match self {
            McpTool::ListFiles => "Lista arquivos e pastas em um diretório. Retorna nome, tipo, tamanho e perfis atribuídos. Não lista conteúdo de diretórios seguros/criptografados.",
            McpTool::ReadFile => "Lê o conteúdo de um arquivo de texto. Não funciona em arquivos dentro de diretórios seguros. Limita a 50KB.",
            McpTool::GetFileInfo => "Retorna metadados de um arquivo: tamanho, data de modificação, perfis, anotações existentes.",
            McpTool::SearchFiles => "Busca arquivos por nome em um diretório.",
            McpTool::AssignProfiles => "Atribui um ou mais perfis a um arquivo ou pasta. Perfis disponíveis: Pessoal, Profissional, Dev, ou perfis customizados criados pelo usuário.",
            McpTool::AddAnnotation => "Adiciona uma anotação/nota a um arquivo ou pasta. A anotação fica permanentemente atrelada ao arquivo.",
            McpTool::MoveFile => "Move um arquivo ou pasta para outro local. Requer confirmação implícita do usuário.",
            McpTool::RenameFile => "Renomeia um arquivo ou pasta.",
            McpTool::CreateFolder => "Cria uma nova pasta.",
        }
    }

    /// The tool's parameters, in order.
    pub fn params(&self) -> (r: Vec<ToolParam>)
        ensures
            r@.map_values(|p: ToolParam| param_view(p)) == tool_params(*self),
    {
        let r = match self {
            McpTool::ListFiles => vec![ToolParam { name: "path", kind: "string", description: "Caminho do diretório a listar" }, ToolParam { name: "recursive", kind: "boolean", description: "Se deve listar recursivamente (padrão: false)" }],
            McpTool::ReadFile => vec![ToolParam { name: "path", kind: "string", description: "Caminho do arquivo a ler" }],
            McpTool::GetFileInfo => vec![ToolParam { name: "path", kind: "string", description: "Caminho do arquivo ou pasta" }],
            McpTool::SearchFiles => vec![ToolParam { name: "path", kind: "string", description: "Diretório raiz da busca" }, ToolParam { name: "query", kind: "string", description: "Termo de busca (nome parcial)" }, ToolParam { name: "max_results", kind: "integer", description: "Máximo de resultados (padrão: 50)" }],
            McpTool::AssignProfiles => vec![ToolParam { name: "path", kind: "string", description: "Caminho do arquivo ou pasta" }, ToolParam { name: "profiles", kind: "array", description: "Lista de nomes de perfis a atribuir" }],
            McpTool::AddAnnotation => vec![ToolParam { name: "path", kind: "string", description: "Caminho do arquivo ou pasta" }, ToolParam { name: "content", kind: "string", description: "Texto da anotação" }],
            McpTool::MoveFile => vec![ToolParam { name: "source", kind: "string", description: "Caminho de origem" }, ToolParam { name: "destination", kind: "string", description: "Caminho de destino" }],
            McpTool::RenameFile => vec![ToolParam { name: "path", kind: "string", description: "Caminho atual" }, ToolParam { name: "new_name", kind: "string", description: "Novo nome (apenas o nome, sem caminho)" }],
            McpTool::CreateFolder => vec![ToolParam { name: "path", kind: "string", description: "Caminho completo da pasta a criar" }],
        };
        proof {
            assert(r@.map_values(|p: ToolParam| param_view(p)) =~= tool_params(*self));
        }
        r
    }

    /// The parameters the tool requires.
    pub fn required(&self) -> (r: Vec<&'static str>)
        ensures
            r@.map_values(|s: &'static str| s@) == tool_required(*self),
    {
        let r = match self {
            McpTool::ListFiles => vec!["path"],
            McpTool::ReadFile => vec!["path"],
            McpTool::GetFileInfo => vec!["path"],
            McpTool::SearchFiles => vec!["path", "query"],
            McpTool::AssignProfiles => vec!["path", "profiles"],
            McpTool::AddAnnotation => vec!["path", "content"],
            McpTool::MoveFile => vec!["source", "destination"],
            McpTool::RenameFile => vec!["path", "new_name"],
            McpTool::CreateFolder => vec!["path"],
        };
        proof {
            assert(r@.map_values(|s: &'static str| s@) =~= tool_required(*self));
        }
        r
    }
}

/// Every tool, in the order `tools/list` offers them.
pub open spec fn all_tools() -> Seq<McpTool> {
    seq![
        McpTool::ListFiles,
        McpTool::ReadFile,
        McpTool::GetFileInfo,
        McpTool::SearchFiles,
        McpTool::AssignProfiles,
        McpTool::AddAnnotation,
        McpTool::MoveFile,
        McpTool::RenameFile,
        McpTool::CreateFolder,
    ]
}

/// The tools that `tools/list` offers, in order.
pub fn tool_catalog() -> (r: Vec<McpTool>)
    ensures
        r@ == all_tools(),
{
    let r = vec![
        McpTool::ListFiles,
        McpTool::ReadFile,
        McpTool::GetFileInfo,
        McpTool::SearchFiles,
        McpTool::AssignProfiles,
        McpTool::AddAnnotation,
        McpTool::MoveFile,
        McpTool::RenameFile,
        McpTool::CreateFolder,
    ];
    proof {
        assert(r@ =~= all_tools());
    }
    r
}

/// Every offered tool is found again under its name.
pub proof fn law_catalog_names_parse_back(i: int)
    requires
        0 <= i < all_tools().len(),
    ensures
        tool_for(tool_name(all_tools()[i])) == Some(all_tools()[i]),
{
    let t = all_tools()[i];
    reveal_strlit("list_files");
    reveal_strlit("read_file");
    reveal_strlit("get_file_info");
    reveal_strlit("search_files");
    reveal_strlit("assign_profiles");
    reveal_strlit("add_annotation");
    reveal_strlit("move_file");
    reveal_strlit("rename_file");
    reveal_strlit("create_folder");
    let n = tool_name(t);
    if i == 1 {
        assert(n.len() != "list_files"@.len() || n[0] != "list_files"@[0] || n[1] != "list_files"@[1]);
    }
    if i == 2 {
        assert(n.len() != "list_files"@.len() || n[0] != "list_files"@[0] || n[1] != "list_files"@[1]);
        assert(n.len() != "read_file"@.len() || n[0] != "read_file"@[0] || n[1] != "read_file"@[1]);
    }
    if i == 3 {
        assert(n.len() != "list_files"@.len() || n[0] != "list_files"@[0] || n[1] != "list_files"@[1]);
        assert(n.len() != "read_file"@.len() || n[0] != "read_file"@[0] || n[1] != "read_file"@[1]);
        assert(n.len() != "get_file_info"@.len() || n[0] != "get_file_info"@[0] || n[1] != "get_file_info"@[1]);
    }
    if i == 4 {
        assert(n.len() != "list_files"@.len() || n[0] != "list_files"@[0] || n[1] != "list_files"@[1]);
        assert(n.len() != "read_file"@.len() || n[0] != "read_file"@[0] || n[1] != "read_file"@[1]);
        assert(n.len() != "get_file_info"@.len() || n[0] != "get_file_info"@[0] || n[1] != "get_file_info"@[1]);
        assert(n.len() != "search_files"@.len() || n[0] != "search_files"@[0] || n[1] != "search_files"@[1]);
    }
    if i == 5 {
        assert(n.len() != "list_files"@.len() || n[0] != "list_files"@[0] || n[1] != "list_files"@[1]);
        assert(n.len() != "read_file"@.len() || n[0] != "read_file"@[0] || n[1] != "read_file"@[1]);
        assert(n.len() != "get_file_info"@.len() || n[0] != "get_file_info"@[0] || n[1] != "get_file_info"@[1]);
        assert(n.len() != "search_files"@.len() || n[0] != "search_files"@[0] || n[1] != "search_files"@[1]);
        assert(n.len() != "assign_profiles"@.len() || n[0] != "assign_profiles"@[0] || n[1] != "assign_profiles"@[1]);
    }
    if i == 6 {
        assert(n.len() != "list_files"@.len() || n[0] != "list_files"@[0] || n[1] != "list_files"@[1]);
        assert(n.len() != "read_file"@.len() || n[0] != "read_file"@[0] || n[1] != "read_file"@[1]);
        assert(n.len() != "get_file_info"@.len() || n[0] != "get_file_info"@[0] || n[1] != "get_file_info"@[1]);
        assert(n.len() != "search_files"@.len() || n[0] != "search_files"@[0] || n[1] != "search_files"@[1]);
        assert(n.len() != "assign_profiles"@.len() || n[0] != "assign_profiles"@[0] || n[1] != "assign_profiles"@[1]);
        assert(n.len() != "add_annotation"@.len() || n[0] != "add_annotation"@[0] || n[1] != "add_annotation"@[1]);
    }
    if i == 7 {
        assert(n.len() != "list_files"@.len() || n[0] != "list_files"@[0] || n[1] != "list_files"@[1]);
        assert(n.len() != "read_file"@.len() || n[0] != "read_file"@[0] || n[1] != "read_file"@[1]);
        assert(n.len() != "get_file_info"@.len() || n[0] != "get_file_info"@[0] || n[1] != "get_file_info"@[1]);
        assert(n.len() != "search_files"@.len() || n[0] != "search_files"@[0] || n[1] != "search_files"@[1]);
        assert(n.len() != "assign_profiles"@.len() || n[0] != "assign_profiles"@[0] || n[1] != "assign_profiles"@[1]);
        assert(n.len() != "add_annotation"@.len() || n[0] != "add_annotation"@[0] || n[1] != "add_annotation"@[1]);
        assert(n.len() != "move_file"@.len() || n[0] != "move_file"@[0] || n[1] != "move_file"@[1]);
    }
    if i == 8 {
        assert(n.len() != "list_files"@.len() || n[0] != "list_files"@[0] || n[1] != "list_files"@[1]);
        assert(n.len() != "read_file"@.len() || n[0] != "read_file"@[0] || n[1] != "read_file"@[1]);
        assert(n.len() != "get_file_info"@.len() || n[0] != "get_file_info"@[0] || n[1] != "get_file_info"@[1]);
        assert(n.len() != "search_files"@.len() || n[0] != "search_files"@[0] || n[1] != "search_files"@[1]);
        assert(n.len() != "assign_profiles"@.len() || n[0] != "assign_profiles"@[0] || n[1] != "assign_profiles"@[1]);
        assert(n.len() != "add_annotation"@.len() || n[0] != "add_annotation"@[0] || n[1] != "add_annotation"@[1]);
        assert(n.len() != "move_file"@.len() || n[0] != "move_file"@[0] || n[1] != "move_file"@[1]);
        assert(n.len() != "rename_file"@.len() || n[0] != "rename_file"@[0] || n[1] != "rename_file"@[1]);
    }
}

/// The error for a tool that does not exist.
pub fn unknown_tool_error(name: &str) -> (r: String)
    ensures
        r@ == "Tool desconhecida: "@ + name@,
{
    concat("Tool desconhecida: ", name)
}

/// The text reported when a tool fails.
pub fn tool_error_text(error: &str) -> (r: String)
    ensures
        r@ == "Erro: "@ + error@,
{
    concat("Erro: ", error)
}

/// The error for a missing parameter.
pub fn missing_parameter(name: &str) -> (r: String)
    ensures
        r@ == "Parâmetro '"@ + name@ + "' obrigatório"@,
{
    concat3("Parâmetro '", name, "' obrigatório")
}

/// The error for a missing `profiles` parameter of `assign_profiles`.
pub fn missing_profiles_parameter() -> (r: String)
    ensures
        r@ == "Parâmetro 'profiles' obrigatório (array de strings)"@,
{
    "Parâmetro 'profiles' obrigatório (array de strings)".to_owned()
}

/// The error when `read_file` cannot read a file as text.
pub fn read_error_text(error: &str) -> (r: String)
    ensures
        r@ == "Erro ao ler: "@ + error@ + " (pode ser binário)"@,
{
    concat3("Erro ao ler: ", error, " (pode ser binário)")
}

/// The path lies at or below one of the secure directories.
pub open spec fn secure_path(path: Seq<char>, secure_dirs: Seq<String>) -> bool {
    exists|i: int| 0 <= i < secure_dirs.len() && path_starts_with(path, #[trigger] secure_dirs[i]@)
}

/// Whether `path` lies at or below one of the secure directories.
pub fn is_path_secure(path: &str, secure_dirs: &Vec<String>) -> (r: bool)
    ensures
        r == secure_path(path@, secure_dirs@),
{
    let mut i: usize = 0;
    while i < secure_dirs.len()
        invariant
            i <= secure_dirs@.len(),
            forall|j: int| 0 <= j < i ==> !path_starts_with(path@, #[trigger] secure_dirs@[j]@),
        decreases secure_dirs@.len() - i,
    {
        if starts_with(path, secure_dirs[i].as_str()) {
            return true;
        }
        i = i + 1;
    }
    false
}


/// An entry a tool reports: outside every secure directory and, for a search,
/// with a name matching the query.
pub open spec fn tool_hit(query: Option<Seq<char>>, secure_dirs: Seq<String>) -> spec_fn(WalkedEntry) -> bool {
    |e: WalkedEntry|
        !secure_path(e.path@, secure_dirs) && match query {
            Some(q) => name_matches(e.name@, q),
            None => true,
        }
}

/// At most `n` leading items of `s`.
pub open spec fn first_n<A>(s: Seq<A>, n: nat) -> Seq<A> {
    if s.len() <= n {
        s
    } else {
        s.take(n as int)
    }
}

/// The first `limit` entries (in walk order) that a tool reports.
pub open spec fn tool_hits(entries: Seq<WalkedEntry>, query: Option<Seq<char>>, secure_dirs: Seq<String>, limit: nat) -> Seq<WalkedEntry> {
    first_n(entries.filter(tool_hit(query, secure_dirs)), limit)
}

fn collect_hits(entries: &Vec<WalkedEntry>, query: Option<&str>, secure_dirs: &Vec<String>, limit: usize) -> (r: Vec<SearchResult>)
    ensures
        r@.len() == tool_hits(entries@, match query { Some(q) => Some(q@), None => None }, secure_dirs@, limit as nat).len(),
        forall|j: int|
            0 <= j < r@.len() ==> reports(
                #[trigger] r@[j],
                tool_hits(entries@, match query { Some(q) => Some(q@), None => None }, secure_dirs@, limit as nat)[j],
            ),
{
    let ghost qv: Option<Seq<char>> = match query { Some(q) => Some(q@), None => None };
    let ghost pred = tool_hit(qv, secure_dirs@);
    let mut r: Vec<SearchResult> = Vec::new();
    let mut i: usize = 0;
    while i < entries.len() && r.len() < limit
        invariant
            i <= entries@.len(),
            pred == tool_hit(qv, secure_dirs@),
            qv == match query { Some(q) => Some(q@), None => None::<Seq<char>> },
            r@.len() <= limit,
            r@.len() == entries@.subrange(0, i as int).filter(pred).len(),
            forall|j: int| 0 <= j < r@.len() ==> reports(#[trigger] r@[j], entries@.subrange(0, i as int).filter(pred)[j]),
        decreases entries@.len() - i,
    {
        let e = &entries[i];
        proof {
            reveal(Seq::filter);
            assert(entries@.subrange(0, i + 1).drop_last() =~= entries@.subrange(0, i as int));
            assert(entries@.subrange(0, i + 1).last() == *e);
        }
        let secure = is_path_secure(e.path.as_str(), secure_dirs);
        let matched = match query {
            Some(q) => matches_query(e.name.as_str(), q),
            None => true,
        };
        if !secure && matched {
            r.push(SearchResult { path: e.path.clone(), name: e.name.clone(), is_dir: e.is_dir });
        }
        i = i + 1;
    }
    proof {
        let done = entries@.subrange(0, i as int);
        let rest = entries@.subrange(i as int, entries@.len() as int);
        assert(entries@ =~= done + rest);
        vstd::seq::Seq::filter_distributes_over_add(done, rest, pred);
        let all = entries@.filter(pred);
        assert forall|j: int| 0 <= j < done.filter(pred).len() implies all[j] == done.filter(pred)[j] by {
            assert((done.filter(pred) + rest.filter(pred))[j] == done.filter(pred)[j]);
        }
        if i == entries@.len() {
            assert(done =~= entries@);
        }
    }
    r
}

/// No entry that a tool reports lies in a secure directory.
pub proof fn law_tool_hits_outside_secure(
    entries: Seq<WalkedEntry>,
    query: Option<Seq<char>>,
    secure_dirs: Seq<String>,
    limit: nat,
    i: int,
)
    requires
        0 <= i < tool_hits(entries, query, secure_dirs, limit).len(),
    ensures
        !secure_path(tool_hits(entries, query, secure_dirs, limit)[i].path@, secure_dirs),
{
    let all = entries.filter(tool_hit(query, secure_dirs));
    assert(tool_hits(entries, query, secure_dirs, limit)[i] == all[i]);
    entries.lemma_filter_pred(tool_hit(query, secure_dirs), i);
}

/// A listing (no query) reports every walked entry outside the secure
/// directories, folders as well as files, unless it stopped at its limit.
pub proof fn law_listing_reports_every_unsecured_entry(
    entries: Seq<WalkedEntry>,
    secure_dirs: Seq<String>,
    limit: nat,
    i: int,
)
    requires
        0 <= i < entries.len(),
        !secure_path(entries[i].path@, secure_dirs),
        tool_hits(entries, None, secure_dirs, limit).len() < limit || entries.len() <= limit,
    ensures
        tool_hits(entries, None, secure_dirs, limit).contains(entries[i]),
{
    lemma_tool_hits_complete(entries, None, secure_dirs, limit, i);
}

/// A search reports every walked entry outside the secure directories whose
/// name contains the query (ignoring case), unless it stopped at its limit;
/// and every entry it reports has such a name.
pub proof fn law_search_reports_every_match(
    entries: Seq<WalkedEntry>,
    query: Seq<char>,
    secure_dirs: Seq<String>,
    limit: nat,
    i: int,
)
    requires
        0 <= i < entries.len(),
        !secure_path(entries[i].path@, secure_dirs),
        exists|j: int|
            0 <= j && j + lowercase(query).len() <= lowercase(entries[i].name@).len()
                && #[trigger] lowercase(entries[i].name@).subrange(j, j + lowercase(query).len()) =~= lowercase(query),
        tool_hits(entries, Some(query), secure_dirs, limit).len() < limit || entries.len() <= limit,
    ensures
        tool_hits(entries, Some(query), secure_dirs, limit).contains(entries[i]),
{
    law_name_matches_substring(entries[i].name@, query);
    lemma_tool_hits_complete(entries, Some(query), secure_dirs, limit, i);
}

/// Every entry a search reports has a name containing the query (ignoring case).
pub proof fn law_search_hits_match_query(
    entries: Seq<WalkedEntry>,
    query: Seq<char>,
    secure_dirs: Seq<String>,
    limit: nat,
    k: int,
)
    requires
        0 <= k < tool_hits(entries, Some(query), secure_dirs, limit).len(),
    ensures
        exists|j: int|
            0 <= j && j + lowercase(query).len() <= lowercase(tool_hits(entries, Some(query), secure_dirs, limit)[k].name@).len()
                && #[trigger] lowercase(tool_hits(entries, Some(query), secure_dirs, limit)[k].name@).subrange(
                j,
                j + lowercase(query).len(),
            ) =~= lowercase(query),
{
    let pred = tool_hit(Some(query), secure_dirs);
    let all = entries.filter(pred);
    assert(tool_hits(entries, Some(query), secure_dirs, limit)[k] == all[k]);
    entries.lemma_filter_pred(pred, k);
    law_name_matches_substring(all[k].name@, query);
}

/// An entry that a tool reports is among its hits unless the limit cut them.
proof fn lemma_tool_hits_complete(
    entries: Seq<WalkedEntry>,
    query: Option<Seq<char>>,
    secure_dirs: Seq<String>,
    limit: nat,
    i: int,
)
    requires
        0 <= i < entries.len(),
        tool_hit(query, secure_dirs)(entries[i]),
        tool_hits(entries, query, secure_dirs, limit).len() < limit || entries.len() <= limit,
    ensures
        tool_hits(entries, query, secure_dirs, limit).contains(entries[i]),
{
    let pred = tool_hit(query, secure_dirs);
    let all = entries.filter(pred);
    entries.lemma_filter_contains(pred, i);
    entries.lemma_filter_len(pred);
    assert(all.len() <= limit);
}

/// `search_files`: the first entries, in walk order, outside the secure
/// directories whose names contain the query (ignoring case). The count is
/// checked after each hit, so a maximum of 0 still reports the first hit.
pub fn tool_search(entries: &Vec<WalkedEntry>, query: &str, max_results: usize, secure_dirs: &Vec<String>) -> (r: Vec<SearchResult>)
    ensures
        r@.len() == tool_hits(entries@, Some(query@), secure_dirs@, if max_results == 0 { 1 } else { max_results as nat }).len(),
        forall|j: int|
            0 <= j < r@.len() ==> reports(
                #[trigger] r@[j],
                tool_hits(entries@, Some(query@), secure_dirs@, if max_results == 0 { 1 } else { max_results as nat })[j],
            ),
{
    let limit: usize = if max_results == 0 { 1 } else { max_results };
    collect_hits(entries, Some(query), secure_dirs, limit)
}

/// `list_files`: the entries outside the secure directories; a recursive
/// listing stops after the first 500.
pub fn tool_list(entries: &Vec<WalkedEntry>, recursive: bool, secure_dirs: &Vec<String>) -> (r: Vec<SearchResult>)
    ensures
        r@.len() == tool_hits(entries@, None, secure_dirs@, if recursive { LIST_MAX_ENTRIES as nat } else { entries@.len() }).len(),
        forall|j: int|
            0 <= j < r@.len() ==> reports(
                #[trigger] r@[j],
                tool_hits(entries@, None, secure_dirs@, if recursive { LIST_MAX_ENTRIES as nat } else { entries@.len() })[j],
            ),
        forall|i: int|
            0 <= i < entries@.len() && !secure_path(#[trigger] entries@[i].path@, secure_dirs@) && (!recursive
                || r@.len() < LIST_MAX_ENTRIES) ==> exists|j: int| 0 <= j < r@.len() && reports(r@[j], entries@[i]),
{
    let limit: usize = if recursive { LIST_MAX_ENTRIES } else { entries.len() };
    let r = collect_hits(entries, None, secure_dirs, limit);
    proof {
        let hits = tool_hits(entries@, None, secure_dirs@, limit as nat);
        assert forall|i: int|
            0 <= i < entries@.len() && !secure_path(#[trigger] entries@[i].path@, secure_dirs@) && (!recursive
                || r@.len() < LIST_MAX_ENTRIES) implies exists|j: int| 0 <= j < r@.len() && reports(r@[j], entries@[i]) by {
            law_listing_reports_every_unsecured_entry(entries@, secure_dirs@, limit as nat, i);
            let j = choose|j: int| 0 <= j < hits.len() && hits[j] == entries@[i];
            assert(reports(r@[j], hits[j]));
        }
    }
    r
}

/// `list_files`: a secure directory is refused, then a missing one.
pub fn check_list_files(path: &str, secure: bool, exists: bool) -> (r: Result<(), String>)
    ensures
        secure ==> (r matches Err(m) && m@ == "Acesso negado: diretório seguro"@),
        !secure && !exists ==> (r matches Err(m) && m@ == "Caminho não existe: "@ + path@),
        !secure && exists ==> r is Ok,
{
    if secure {
        return Err("Acesso negado: diretório seguro".to_owned());
    }
    if !exists {
        return Err(concat("Caminho não existe: ", path));
    }
    Ok(())
}

/// Largest file `read_file` reads, in bytes.
pub const READ_LIMIT: u64 = 51200;

/// Deepest level that a recursive `list_files` walks.
pub const LIST_MAX_DEPTH: usize = 5;

/// Most entries that a recursive `list_files` returns.
pub const LIST_MAX_ENTRIES: usize = 500;

/// Results of `search_files` when the request gives no maximum.
pub const SEARCH_DEFAULT_MAX: u64 = 50;

/// `read_file`: a file in a secure directory is refused, then anything that
/// is not a file, then files larger than 50 KB.
pub fn check_read_file(secure: bool, is_file: bool, size: u64) -> (r: Result<(), String>)
    ensures
        secure ==> (r matches Err(m) && m@ == "Acesso negado: arquivo em diretório seguro"@),
        !secure && !is_file ==> (r matches Err(m) && m@ == "Caminho não é um arquivo"@),
        !secure && is_file && size > READ_LIMIT ==> (r matches Err(m) && m@
            == "Arquivo muito grande (>50KB). Use get_file_info para metadados."@),
        !secure && is_file && size <= READ_LIMIT ==> r is Ok,
{
    if secure {
        return Err("Acesso negado: arquivo em diretório seguro".to_owned());
    }
    if !is_file {
        return Err("Caminho não é um arquivo".to_owned());
    }
    if size > READ_LIMIT {
        return Err("Arquivo muito grande (>50KB). Use get_file_info para metadados.".to_owned());
    }
    Ok(())
}

/// Tools that only need the path to exist (`get_file_info`, `search_files`,
/// `assign_profiles`, `add_annotation`).
pub fn check_exists(exists: bool) -> (r: Result<(), String>)
    ensures
        !exists ==> (r matches Err(m) && m@ == "Caminho não existe"@),
        exists ==> r is Ok,
{
    if !exists {
        return Err("Caminho não existe".to_owned());
    }
    Ok(())
}

/// `move_file`: the source must exist and not be secure, the destination must not exist.
pub fn check_move(source_exists: bool, source_secure: bool, destination_exists: bool) -> (r: Result<(), String>)
    ensures
        !source_exists ==> (r matches Err(m) && m@ == "Origem não existe"@),
        source_exists && source_secure ==> (r matches Err(m) && m@ == "Acesso negado: origem em diretório seguro"@),
        source_exists && !source_secure && destination_exists ==> (r matches Err(m) && m@ == "Destino já existe"@),
        source_exists && !source_secure && !destination_exists ==> r is Ok,
{
    if !source_exists {
        return Err("Origem não existe".to_owned());
    }
    if source_secure {
        return Err("Acesso negado: origem em diretório seguro".to_owned());
    }
    if destination_exists {
        return Err("Destino já existe".to_owned());
    }
    Ok(())
}

/// `rename_file`: the path must exist, not be secure and have a parent, and
/// the new name must be free.
pub fn check_rename(exists: bool, secure: bool, has_parent: bool, new_exists: bool, new_name: &str) -> (r: Result<(), String>)
    ensures
        !exists ==> (r matches Err(m) && m@ == "Caminho não existe"@),
        exists && secure ==> (r matches Err(m) && m@ == "Acesso negado: diretório seguro"@),
        exists && !secure && !has_parent ==> (r matches Err(m) && m@ == "Sem diretório pai"@),
        exists && !secure && has_parent && new_exists ==> (r matches Err(m) && m@ == "Já existe: "@ + new_name@),
        exists && !secure && has_parent && !new_exists ==> r is Ok,
{
    if !exists {
        return Err("Caminho não existe".to_owned());
    }
    if secure {
        return Err("Acesso negado: diretório seguro".to_owned());
    }
    if !has_parent {
        return Err("Sem diretório pai".to_owned());
    }
    if new_exists {
        return Err(concat("Já existe: ", new_name));
    }
    Ok(())
}

/// `create_folder`: the path must not exist yet.
pub fn check_create_folder(exists: bool) -> (r: Result<(), String>)
    ensures
        exists ==> (r matches Err(m) && m@ == "Caminho já existe"@),
        !exists ==> r is Ok,
{
    if exists {
        return Err("Caminho já existe".to_owned());
    }
    Ok(())
}

/// How a profile name is written in the profiles file: a built-in profile by
/// its name, any other name as a custom profile.
pub enum ProfileTag {
    Builtin(Profile),
    Custom(String),
}

/// The tag for a profile name.
pub open spec fn tag_for(name: Seq<char>, t: ProfileTag) -> bool {
    if name == "Pessoal"@ {
        t == ProfileTag::Builtin(Profile::Pessoal)
    } else if name == "Profissional"@ {
        t == ProfileTag::Builtin(Profile::Profissional)
    } else if name == "Dev"@ {
        t == ProfileTag::Builtin(Profile::Dev)
    } else {
        t matches ProfileTag::Custom(c) && c@ == name
    }
}

/// The tag under which `assign_profiles` records a profile name.
pub fn profile_tag(name: &str) -> (t: ProfileTag)
    ensures
        tag_for(name@, t),
{
    if same_chars(name, "Pessoal") {
        ProfileTag::Builtin(Profile::Pessoal)
    } else if same_chars(name, "Profissional") {
        ProfileTag::Builtin(Profile::Profissional)
    } else if same_chars(name, "Dev") {
        ProfileTag::Builtin(Profile::Dev)
    } else {
        ProfileTag::Custom(name.to_owned())
    }
}

/// What `format!("{:?}", names)` writes for a list of names: the names
/// quoted and escaped as `str`'s `Debug` does, between brackets, separated by
/// `, `.
pub uninterp spec fn debug_list(names: Seq<Seq<char>>) -> Seq<char>;

/// Writes a list of names with `Debug`; the result is named `debug_list` of
/// the names.
#[verifier::external_body]
fn debug_names(names: &Vec<String>) -> (r: String)
    ensures
        r@ == debug_list(strings_view(names@)),
{
    format!("{:?}", names)
}

/// Reported after `assign_profiles`: the names given, as a list, and the path.
pub fn profiles_assigned_message(names: &Vec<String>, path: &str) -> (r: String)
    ensures
        r@ == "Perfis "@ + debug_list(strings_view(names@)) + " atribuídos a "@ + path@,
{
    let head = concat("Perfis ", debug_names(names).as_str());
    concat3(head.as_str(), " atribuídos a ", path)
}

/// Reported after `move_file`.
pub fn moved_message(source: &str, destination: &str) -> (r: String)
    ensures
        r@ == "Movido: "@ + source@ + " → "@ + destination@,
{
    let head = concat("Movido: ", source);
    concat3(head.as_str(), " → ", destination)
}

/// Reported after `rename_file`.
pub fn renamed_message(path: &str, new_name: &str) -> (r: String)
    ensures
        r@ == "Renomeado: "@ + path@ + " → "@ + new_name@,
{
    let head = concat("Renomeado: ", path);
    concat3(head.as_str(), " → ", new_name)
}

/// Reported after `create_folder`.
pub fn folder_created_message(path: &str) -> (r: String)
    ensures
        r@ == "Pasta criada: "@ + path@,
{
    concat("Pasta criada: ", path)
}

/// Reported after `add_annotation`.
pub fn annotation_added_message(path: &str) -> (r: String)
    ensures
        r@ == "Anotação adicionada a "@ + path@,
{
    concat("Anotação adicionada a ", path)
}

/// The author recorded on annotations that the tools add.
pub fn annotation_author() -> (r: &'static str)
    ensures
        r@ == "AI Assistant"@,
{
    "AI Assistant"
}

/// The machine recorded on annotations that the tools add.
pub fn annotation_machine() -> (r: &'static str)
    ensures
        r@ == "mcp-server"@,
{
    "mcp-server"
}

} // verus!
