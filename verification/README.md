# F1RMA

A file manager with profiles (Pessoal, Profissional, Dev), secure folders,
per-file annotations and sharing on the local network, with an MCP server that
offers its file tools to language models.

The rules of the application are a Verus library (`src/`), each function with a
contract proved by Verus; the window, the disk, the network and the JSON
protocol are ordinary Rust around it (`app/`).

## Layout

- `src/text.rs`, `src/paths.rs`, `src/keyed.rs`: text helpers; paths compared
  by components; maps keyed by path or by text.
- `src/naming.rs`: free names for new, copied and duplicated items.
- `src/navigation.rs`: back/forward history and the bounded undo stack.
- `src/files/`: profiles and visibility, annotations and their sidecar files,
  encryption of files, file operations and their history, search.
- `src/network/`: permissions of remote machines, discovery of peers,
  sharing configuration, the sharing server's requests, the remote client.
- `src/mcp/`: JSON-RPC routing and errors, the tool catalog, and the checks
  each tool makes (nothing in a secure folder is listed, read, moved or renamed).
- `src/ui/`: the state of each panel and the decisions behind what it shows.
- `app/`: the egui window, file-system work, mDNS discovery, configuration
  files, and the MCP server loop (`--mcp`).
- `tests/`: tests of the library.
