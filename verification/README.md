# canon

The core of a headless music daemon, written and verified in Verus: a player that owns the queue
and every playback decision, a library that gives tracks, albums and artists from several services
one identity, and the control plane that drives both.

## Layout

`src/` is the library. Everything in it is verified; nothing in it does I/O.

- Playing: `player` (the state machine), `state` and `position` (the clocks), `command`,
  `controller` (what the player's decisions mean for the outputs), `engine`, `decoding`, `output`
  and `ring` (feeding a device or a renderer), `sink`, `autoplay`.
- The library: `model`, `store`, `tracklist`, `binding`, `shelf` (what is saved, and playlists),
  `ingest` and `intake` (what services describe, taken in), `view` (what is shown), `library`,
  `matching` (playing a track from another service), `schema`. `integrity`, `readback` and
  `growth` state what holds of it as a whole.
- Services: `id`, `track`, `catalog`, `source`, `connection`, `session`, `error`.
- The control plane and its client: `protocol`, `dispatch`, `settings`, `client`, `line`,
  `amount`, `listing`, `screen`, `lookup`.
- Underneath: `text`, `rows`, `time`, and numbers: `natural`, `binary`, `single`.

`app/` is the program: the command line, the WebSocket server and client, the audio threads, the
SQLite file, and the seams that services and renderers plug into.

`tests/` runs the library.

## Conventions

Time, random identifiers and what a service or a device answered are arguments: an operation that
needs one is cut where the outside call is made. Functions whose names end in `_as` or `_at` take
what was drawn; the ones beside them draw it.

There are no floating-point types in the library. A number of single or double precision is a whole
number of that precision's smallest steps, and `binary` says what arithmetic gives: the exact
result, rounded to the nearest number there is. Volumes and samples travel as the bits of single
precision numbers (`single`). What the library trusts of the crates it calls stands on the functions that
call them: `uuid` in `id`, `rtrb` in `ring`, and a few functions of the standard library in
`text` and `binding`.
