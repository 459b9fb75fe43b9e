# helix_view

The logic of a read-only terminal viewer for source code, written in Verus: what the editor holds,
how it reacts to keys, the mouse and language servers, and what it draws. The functions in `src/`
have contracts that Verus proves, except for the wrappers around calls into other crates, whose
contracts it believes. The laws that relate several functions are the public proof functions whose
names start with `law_`.

- `src/` is the library. Text and selections: `text`, `selection`, `transaction`, `history`,
  `unicode`, `strings`, `paths`. Looks: `graphics`, `theme`, `terminal_style`, `draw`, `surface`, `screen`,
  `highlights`, `view_render`, `icons`. Changes: `file_diff`, `git`, `diff_view`. State and events:
  `application`, `editor`, `editor_view`, `doc_view`, `apps`, `tab_manager`, `layers`, `key_menu`,
  `textobject_menu`, `welcome`, `input`. Surroundings: `config`, `clipboard`, `register`,
  `language_servers`, `lsp_message`, `file_watcher`, `picker_handlers`, `session`, `terminal`.
- `app/` reads and writes: the terminal, files, repositories, processes, and the configuration in
  its stored form. It asks the library what to do and does it.
- `tests/` runs the library on concrete values.

Calls into other crates that only compute stand in `src/` behind small private wrappers marked
`#[verifier::external_body]`. What a wrapper's contract claims of the crate, and what it leaves
open, is said in the comment above it; that is what the proofs rest on.
