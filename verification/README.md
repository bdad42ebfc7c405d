# Personars

A personal developer toolbox: format conversion (JSON, YAML, TOML), Unix
timestamps, Base64, JWT decoding, UUIDs, hashes, passwords, regular
expressions, QR codes, line diffs, a task list, Markdown notes and a small
finance tracker.

The logic of every tool lives in the library under `src/`, written in Verus:
each public function carries a contract, and the contracts are proved.
Calls into outside crates (`base64`, `chrono`, `regex`, `serde_json`,
`serde_yaml`, `toml`, `similar`, `qrcode`, `uuid`, `rand`, the RustCrypto
hashes and `hex`) go through small trusted wrappers whose contracts say what
the crates document; where a result is too large to spell out it is given a
name, and the library's contracts are stated over those names.

- `src/text.rs`: trimming, integer parsing and formatting, substring search.
- `src/clock.rs`: UTC instants.
- `src/tools/`: one module per tool, plus the finance statistics' calendar,
  labels and grouping.
- `src/app.rs`: the toolbox's panel of tools, its modes and the about window.
- `app/`: the eframe/egui desktop shell, persistence, and the floating-point
  parts of the finance tracker (sums, money formatting, and the sums shown in
  the statistics tables).
- `tests/`: tests of the library on concrete values.
