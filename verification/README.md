# wi_core

The core of a modal, keyboard-driven graph editor, and the grammar compiler
that turns key-binding trees into sparse state tables, written in Verus:
Verus verifies every function in `src/`, and the public ones state what
they do in their contracts.

Layout:

- `src/accept.rs`: acceptors, the key-reading state machines, and their outputs.
- `src/editor/`: the editor model. Cursor kinds and edge cursors, cursor
  motion against a widget (`widget.rs` states what a widget answers and how
  its state changes), the actions and their effects, counts, the running
  operator stack, the create and jump operators as state machines, key
  handling from what the key acceptors make of a key (`dispatch.rs`), the
  status line, euclidean cells, and what a typed character is pressed as
  (`keyboard.rs`). The key acceptors themselves are
  generated from binding grammars outside this crate; the library takes
  their outputs.
- `src/grammar/`: grammar trees and their builder, building with error
  reports, label and unused-item lookups, and flattening a grammar into
  state tables (`flatten.rs` states the exploration, `explore.rs` runs it,
  `finite.rs` proves that it ends, `sound.rs` checks that a built map can be
  flattened).
- `tests/`: tests on concrete values, with small mock widgets.
- `app/`: presentation around the library: error messages and table dumps.

Collections of the `hashbrown` and `indexmap` crates are used through a few
trusted wrappers (`src/grammar/used.rs`, `src/grammar/keys.rs`), whose
contracts state what those crates' methods do; `keyboard_types` modifiers and
std's Unicode case tables are reached through small wrappers on plain bits and characters (`src/editor/keyboard.rs`).
