# uf

A terminal launcher that searches browser history, bookmarks, GitHub, GitLab
and Docker Hub, written in Rust and verified with Verus.

`src/` is the library. Everything that the program decides or computes stands
there with a contract that Verus proves:

- `text`, `json`, `property_list`, `layout`, `matchers`: texts, documents,
  columns and scores, the last four on top of `serde_json`, `plist`,
  `unicode-width`, `unicode-segmentation` and `nucleo-matcher`;
- `models`, `sources`, `bookmarks`, `repos`, `services`, `requests`, `cache`,
  `refresh`: entries, where they come from, and how they are kept fresh;
- `config`, `args`, `log`: the configuration and the command line;
- `tabs`, `rank`, `config_items`, `config_rows`, `state`, `input`, `keymap`,
  `actions`, `screen`: the user interface, from the bytes of the keyboard to the
  texts on the screen;
- `state_laws`, and functions named `law_...` in the other modules: what holds
  of several operations together.

Contracts are stated over views: an `Entry` is an `EntryView` of character
sequences, the state of the interface an `AppView`, a JSON document a
`JsonView`. What an outside crate computes is either stated or has a name, such
as `nucleo_score` or `columns`; the functions that make these calls are marked
`external_body` and say in their comments what is believed of them.

`app/` is the program around the library: files, `curl` and `sqlite3`, threads,
and drawing with `ratatui`. `tests/` runs the library on concrete values.

Settings that are changed in the interface hold until the program ends. To keep
them, use the environment, the command line or a configuration file.

At run time the program needs `sqlite3`, `curl` and `stty`, and `open` on macOS
or `xdg-open` and `xclip` on Linux.
