# tj

A two-deck terminal DJ player. The library (`src/`) holds the player's logic,
verified with Verus; `app/` is the terminal program around it (audio decoding
and playback, the screen, files and threads).

Library modules:

- `browser` — the file browser: listing order, cursor movement, fuzzy search
  over a workspace, key handling.
- `paths` — path components, file names, stems, extensions, relative paths and
  the data-file locations.
- `tags` — tag selection, rename proposals, track names, tag-write plans.
- `editor` — the tag editor: field editing, commit and rename decisions.
- `config` — key names, key bindings, the keymap and display settings read
  from TOML.
- `cache` — the analysis cache keyed by the BLAKE3 hash of decoded audio.
- `controls`, `chord`, `routing` — the decisions of the main loop: latency,
  filter, zoom, tempo offset, key resolution, the Space chord modifier and the
  routing of keys through the overlay and prompts.
- `playhead` — sample-accurate playback position with click-free seeks.
- `layout`, `panels`, `render`, `detail` — screen layout, status lines and the
  integer side of waveform rendering.
- `order`, `assoc`, `text` — stable sorting, association lists and string
  helpers used by the rest.

Laws of the library are public proof functions named `law_*`.
