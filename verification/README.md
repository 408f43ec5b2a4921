# clipboard_daemon

A clipboard daemon keeps a history of what was copied and shares it with the
other devices of a local network. This crate holds its rules, verified with
Verus; the program around them is ordinary Rust.

- `src/` is the library. Every function states what it returns or changes, and
  is proved to do so; functions named `law_...` state what holds of several of
  them together.
  - capturing: `watcher`, `language`, `sensitive`, `digest`, `hash`, `hotkey`
  - devices: `identity`, `discovery`, `pairing`, `peers`, `registry`
  - exchange of clips: `sync`, `import`, `remote`, `json`
  - the user's side: `server`, `http`, `clips`, `command`
  - text and numbers: `text`, `number`, `unicode`
- `tests/` runs the library on concrete values.
- `app/` is the program: the clipboard, the database, the network, the files and
  the keyboard. It asks the library what to do and does it. The page that it
  serves is read from `static/index.html`.

Calls into other crates stand behind functions whose contracts are taken on
trust: `serde_json` in `json`, `sha2` in `hash`, `rand` and `uuid` in `identity`,
`image` in `watcher`, and a few functions of the standard library in `text`,
`unicode` and `discovery`. Each says in its comment what is claimed of the call.

How much a sentence weighs in a summary is a quotient of floating-point numbers.
`digest` takes it as a function from the program, which gives the bits of the
quotient; they order as the quotient does.
