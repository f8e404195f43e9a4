# uniclip_capture

The decisions behind a clipboard history, verified with Verus.

- `src/` is the library. It captures clipboard snapshots into a history, makes
  manifests of copied files and directories, maintains the history, and puts
  the processes around it together. It does no input or output: each of its
  machines says what it waits for, and goes on with the answer.
- `app/` is the host: the ports, the file system, the clock, and the loops that
  carry requests out.
- `tests/` runs the library against hosts in memory.

Contracts speak of views: a machine's `resume` has the state that a spec
function `step` gives, and its `request` is the one that state awaits. What
holds of every course of answers is stated by public proof functions in the
modules that the crate's documentation names for each group, among them
`capture_order`, `capture_progress`, `traversal_members`, `devices` and
`device_courses`.

Four items are trusted: Unicode normalization and UTF-8 decoding in
`src/unicode.rs`, `String::push` in `src/text.rs`, and `Arc::clone` in
`src/facades.rs`.
