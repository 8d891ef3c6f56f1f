# polysh

Translation of shell commands between Unix shells (bash, zsh, fish, ...),
PowerShell and CMD, verified with Verus.

The library tokenizes a command, splits it at the connectors (`&&`, `||`)
and pipes (`|`) that stand outside parentheses and braces, translates each
segment with a registry of command and flag mappings or with a dynamic
translator for commands whose arguments have structure (`find`, `sed`,
`awk`, services, links, permissions), and joins the result again.

Every executable function states its result exactly, over spec functions on
character sequences; the laws of the library are proof functions beside the
code they speak of.

## Layout

- `src/text.rs`: character-sequence helpers (trimming, searching, joining,
  decimal numbers) and the two trusted calls into std (`String::push`,
  `str::to_lowercase`).
- `src/tokenizer.rs`: the tokenizer, the reconstruction passes
  (`$(...)`, here-documents, `<(...)`, function definitions, `${...}`,
  redirections, escaped operators) and role tagging.
- `src/mappings/`: the dialects, the registry and its data, and the dynamic
  translators (`dynamic.rs` for Unix to PowerShell and the dispatch,
  `reverse.rs` for the other directions).
- `src/translator.rs`: dialect detection, splitting, segment translation,
  legacy PowerShell connectors and linting.
- `src/detector.rs`: shell detection from the platform and the environment.
- `app/lib.rs`: reads the environment of the running process for shell
  detection.
- `tests/`: the test suite.
