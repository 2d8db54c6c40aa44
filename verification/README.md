# imv_tui

A keyboard-driven terminal image viewer. The decisions it makes are a
library verified with Verus; the program around it draws, reads files and
scales pixels.

## Layout

- `src/` — the verified library:
  - `viewer.rs`: the viewer's state machine. Each key, command or prompt
    answer gives the next state and an `Effect` for the caller (load the
    current image, zoom, pan, rotate, re-scan, ...).
  - `queue.rs`, `cache.rs`, `remap.rs`: the image queue and its relative
    paths, the prefetch window, and carrying per-image state across re-scans
    and imports.
  - `classifications.rs`, `adjustments.rs`, `types.rs`, `config.rs`: flags,
    view filters, manifests, prompt values, brightness, rotation, slideshow.
  - `manifest.rs`: the records written when flags are exported.
  - `decode.rs`: decoding image bytes into oriented RGBA pixels (embedded
    previews of RAW and TIFF files, Exif orientation, thumbnails).
  - `commands.rs`, `keys.rs`, `line_editor.rs`, `palette.rs`, `display.rs`:
    the command registry and key bindings, the prompt's line editor, fuzzy
    search (nucleo) and path shortening.
  - `cli.rs`: the command line.
  - `source.rs`, `raw.rs`, `path.rs`, `sort.rs`, `text.rs`: image sources and
    file types, RAW containers (Fujifilm RAF, Exif through kamadak-exif),
    path components, stable sorting and character-level text helpers.
- `tests/`: tests of the library.
- `app/`: the program (terminal, threads, file and archive I/O, scaling,
  drawing with ratatui and ratatui-image).
