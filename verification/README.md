# warp-server

A self-hosted, limit-free relay for session sharing ("remote control"): any
number of sessions, any number of viewers, no quota. Terminal output goes from
a session's sharer to its viewers, lossless and in order; control requests go
from the viewers to the sharer. State is in memory only.

* `src/` is the relay's logic, verified with Verus: the state of a session, what
  each message does, who is sent what, catching up, resuming, reaping, and the
  registry of sessions. `src/laws.rs` states what holds over whole histories.
* `app/` is the program: command line, HTTP and WebSocket, timers, and the
  conversion between the wire format of the `session-sharing-protocol` crate
  and the library's messages. That crate is distributed by git, so a build of
  the program has to add it to `Cargo.toml`, pinned to the revision that the
  client uses.
* `tests/` runs the library over real queues and a real registry.

What the verification rests on without proof is named where it stands: tokio's
bounded channel in `src/channel.rs`, dashmap's map in `src/state.rs`.

## Bounds

* A session keeps its `MAX_EVENT_LOG` most recent terminal events. A viewer that
  fell further behind misses the trimmed ones.
* Up to `WRITER_CHANNEL_CAP` messages wait for one connection. A peer whose
  queue refuses a message is dropped; it can reconnect and catch up, and a whole
  event log fits into a new queue. Once a peer is back on a new connection, the
  end of its earlier one is noted without effect.
* `--max-message-bytes` bounds an incoming message.
* A session whose sharer has dropped off is kept for `--session-grace-secs`, and
  reaped unless its sharer resumes with the token it was given.
