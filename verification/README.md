# Ducktape

The decisions of a desktop client for Ducktape networks, verified with
[Verus](https://github.com/verus-lang/verus): which key joins which account and
by whose consent, what passes between two devices and a relay, what a node is
sent and what it answers, what a mounted view keeps from one tree to the next,
and what the desk shows.

- `src/backend/` speaks to nodes and to the auth page: frames and receipts
  (`noded`, over `wire`), passkey ceremonies (`passkey`, `listener`, `form`),
  codes and slots (`join`, over `address`), and the flows that put keys on accounts (`flow`,
  over `identity`).
- `src/editor/` is the plain text editor and its indents.
- `src/render/` is a mounted view: its tree, its commands, its scrollers.
- `src/shell/` is the desk: windows, menu bar, notifications.
- `src/text.rs` is text as sequences of characters.
- `src/outside.rs` holds most of what is taken from other crates on trust; the
  rest of it stands beside the one function that needs it.
- `app/` does what is asked for: HTTP, sockets, the browser, the clock, and
  everything measured in floating point.
- `tests/` runs the library.

A flow is a value that says what it asks for next. It is told what came of
that, and says what it asks for after; `app/flows.rs` is the loop around it.
Whatever has its own identity on the native side (a window's focus handle, a
scroll handle, a field) is a number here.
