# punktfunk-webos

The decisions of a game-streaming client for webOS TVs, written and proved in
[Verus](https://github.com/verus-lang/verus), and the program around them.

- `src/` is the library. It does no I/O. Every function states in its contract what it returns or
  changes, and every contract is proved but those of five small wrappers, which are believed: one
  around `String::from_utf8_lossy` (`node`) and four around `poll` flags of `libc` (`poll`).
  - Keys: `scancode`, `keyboard`.
  - Mice and keyboards read off `/dev/input`: `ioctl`, `node`, `procfs`, `text`, `scan`, `events`,
    `device`, `burst`, `grab`, `poll`, `reader`, `activity`, `evmouse`, `pass` (the order of the
    reader's loop).
  - The local pointer: `cursor`.
  - A running stream: `route` (events), `edge` (polled keys), `overlay` and `stats` (what is drawn
    over the video), `stream` (one pass of the loop), `session` (before and after it).
- `app/` performs what the library decides, with SDL and the system calls.
- `tests/` runs the library on concrete values.

Public proof functions named `lemma_*` state what holds of several functions together: that motion is
neither lost nor invented, that a click lands where the pointer is, that nothing reaches the host while
a dialog is open, that a key which goes down comes up as long as the same events are dropped for both,
and so on.
