# yabridge-manager

A desktop manager for yabridge, the Wine plugin bridge for Windows VST2, VST3
and CLAP plugins on Linux. It finds Wine and yabridge, scans plugin
directories, switches Wine's graphics driver and shows diagnostics.

## Layout

- `src/` — the library, verified with Verus:
  - `text.rs`: whitespace, trimming, prefixes, substrings, lines, words and
    decimal numbers on character sequences, each specified and proved;
  - `sorting.rs`: the stable sort by a text key, with its laws (ordered,
    a permutation, stable);
  - `paths.rs`: path joining, merging lists of directories, and the
    `std::path` component queries;
  - `backend/`: plugins and scan results, system information and Wine
    discovery, the Wine registry driver setting, yabridge status and sync
    output;
  - `ui/`: the state of each page and how each user action, and each look
    at a background worker, changes it.
- `app/` — the program: the window and widgets (egui/eframe), and everything
  that touches the file system, the environment or other programs; it hands
  what it reads to the library and acts on what the library returns.
- `tests/` — tests of the library on concrete values.
