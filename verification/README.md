# germal-app

The state logic of Germal, a native HTTP API client, as a verified library.

`src/` holds the logic, each function with a contract that Verus proves:

- `workspace` — the tab strip, sidebar and appearance, the saved-request
  list with its groups (move, rename/merge, dissolve, delete, save,
  overwrite, open), and restoring all of it at start-up. Every operation
  keeps the workspace well formed.
- `ordering` — tab drafts put back in the persisted tab order, saved
  requests newest first; with the round-trip law for the tab order.
- `request_tab` — sections, modes, soft wrap and loaded bodies of a request
  tab, body hints, tab titles from URLs, and the response flow (with the
  unresolved variables of a send and the save gate) whose generations make
  stale outcomes harmless.
- `settings` — what a settings edit sets in motion.
- `desktop_entry` — the Linux menu entry: XDG paths, the `.desktop` file,
  and `Exec=` quoting (proved to read back to the path).
- `update` — update source, release asset, key file, status lines and the
  MiB formatting of byte counts.
- `i18n`, `templates`, `theme`, `assets`, `store`, `text`, `model`, `brand`
  — locale resolution, built-in request templates, the palette, asset
  lookup, the persistence banner, string helpers and shared types.

`tests/` exercises the library on concrete values. `app/` is a small
command-line front end for the parts that touch the machine: writing the
menu entry, reading the environment and the system languages.
