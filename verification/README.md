# multiplayer_fps

Gatsa-Gatsa, a small multiplayer maze shooter: one program runs either as a
UDP server or as a client that opens a 3D game window.

- `src/` is the library, verified with Verus: the server's player registry,
  spawn points and message handling (who joins, who is refused once the game
  has started, who gets which reply), the client's connection loop and
  reactions, the menu and waiting-room decisions, the maze plan and tree
  topology, and the text helpers (trimming, decimal reading and writing,
  addresses). Every public function states its result in `ensures`; the
  `law_*` proof functions state what holds across calls.
- `tests/` runs the library on concrete values.
- `app/` is the program around it: the console, the UDP sockets, the JSON
  messages and the Bevy game window, which hand plain values to the library
  and act on what it returns.
