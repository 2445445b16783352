# pinball

A multiplayer pinball game. Every player has a board; a ball that leaves a
board through the escape slot travels through "deep space", a sphere on
which each player owns a portal cell, until another player's portal
captures it and it drops onto that player's board. Bots fill empty seats.

## Layout

- `src/` is the library, verified with Verus: the portal placement on the
  sphere, the player registry and its invariants, bot seating, capture
  routing, the per-connection message policy (size, rate and parse-error
  limits, origin checks, admission), the broadcast schedule, the server
  configuration checks, player colours, the HUD's texts and ordering, the
  client's snapshot buffer and reconnection backoff, and the load tester's
  argument parsing and counters. Each public function states its result in
  its contract, all but what a random draw decides (which personality a
  bot gets, the order the cells are shuffled into); the `lemma_*` proof
  functions state the laws that hold across calls.
- `app/` is the program around it: the WebSocket server (axum, tokio), the
  60 Hz game loop, the floating-point deep-space simulation and bot timers,
  the load tester, and the client's board geometry, controls, snapshot
  interpolation and network thread. It calls the library for the
  decisions that do not need floating point or I/O. The client's board
  logic is kept there for the bevy client, which is not part of this build,
  so nothing in the server binary calls it.
- `tests/` runs the library on concrete values.
