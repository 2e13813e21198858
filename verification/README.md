# Cliché

The core of a local screenshot utility for Windows: a global shortcut (or a
launcher tile) freezes the screen, a preheated full-screen "veil" window paints
the frozen image, the user drags a selection, and the cut goes on the clipboard.
Every step of the pipeline is timed against a 150 ms budget.

## Layout

- `src/` — the library, verified with Verus. Everything the application
  decides lives here, over plain values:
  - `capture` — frames, crops, the hand-written BMP and the PNG encode;
  - `veil` — the transports, which run may be shown, served, cut or released;
  - `timing` — the latency instrument and its report;
  - `settings`, `shortcut`, `shortcuts` — the stored combination, the
    registry, and what the operating system's answers mean;
  - `clipboard`, `launch`, `lifecycle`, `compositor`, `ipc`, `geometry` —
    the rules around them;
  - `text`, `order` — the exact text of every line, and sorting.
- `app/` — the Tauri application around the library: windows, webview
  commands, the screen grab, the clipboard plugin, the file system, threads,
  and the floating-point conversion of CSS pixels.
- `tests/` — tests of the library on concrete values.
