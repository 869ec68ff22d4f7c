# Codex Skin Workshop

A desktop workshop for restyling Codex with value-only themes: colors,
texts, numbers and an imported background image, never CSS or script. The
styling is applied to a Codex instance the workshop launches itself, over a
loopback-only DevTools connection, and can be removed again.

## Layout

- `src/` is the verified library (Verus). It holds every rule and decision:
  - `theme.rs`: the theme model and its validation, rule by rule;
  - `color_map.rs`: theme colors as a key-ordered map;
  - `cdp.rs`: the renderer payload, the restore script, the DevTools
    evaluation request and the steps of reading its reply;
  - `codex.rs`: where Codex is looked for, which executable may be
    launched and with which arguments, and which DevTools targets and
    WebSocket URLs are trusted;
  - `image_tools.rs`: which image files are imported, the name of the
    stored copy, and the suggested palette;
  - `store.rs`: the files of the theme store and the listing order;
  - `commands.rs`: the decisions of the launch and restore commands;
  - `text.rs`, `ids.rs`, `error.rs`: string helpers, random names, errors.
- `app/` is the desktop shell: file and process work, HTTP and WebSocket
  traffic, JSON (de)serialization and the Tauri commands. It hands the
  library plain values and acts on what the library decides.
- `tests/` runs the library on concrete values.
