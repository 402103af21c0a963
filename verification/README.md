# code_search_mcp

A Model Context Protocol server that answers questions about the structure
of Rust, TypeScript and C# files with tree-sitter: the symbols a file defines,
the signature or full source of a named definition, and a nested outline of
the file.

- `src/` is the verified library. `lang` picks the grammar from a path,
  `parser` parses and caches files, `queries` holds the tree-sitter queries,
  `ts` runs them and hands their matches out as plain values (`capture`), and
  `tools` turns matches into the tools' answers, stated over the matches
  that tree-sitter yields for the cache's queries; `tools::laws` states and
  proves what holds of those answers. `server` builds the replies the tools
  send back.
- `app/` is the executable: command line, file reading, JSON and the MCP
  transport.
- `tests/` runs the library on concrete sources.

## Answers

Symbol kinds are the grammar's own node kinds (`function_item`,
`struct_item`, `class_declaration`, `namespace_declaration`, ...), and each
symbol carries the lines on which its definition starts and ends. Shorter
names such as `function` or `struct` would need a table per grammar, kept in
step with every grammar release, and the end line lets a client read just
that definition.

The outline is `{"file": ..., "items": [...]}`. Each item has a name, a kind,
a line and children: an impl block or a class lists its methods, a Rust
module or a C# namespace lists its direct members, each with its own
children, so `mod combat { struct Weapon; fn calculate_damage() {} }` gives
one item, `combat`, with `Weapon` and `calculate_damage` under it. A
definition inside a module or namespace appears only under it. Items of every
kind share this one shape rather than a separate `modules` list, so that a
module inside a module, or a class inside a namespace, nests the same way.

## Parse cache

The cache keeps, for each path as given, the tree, the source and the
modification time of the last successful parse. A lookup at the same time
returns the kept parse, a lookup at another time returns nothing, a new parse
replaces the entry of its path only, and a failed parse leaves the cache as
it was. The server holds the cache behind a lock for the length of each tool
call.
