# bola_api

The server behind the Bola game: leaderboards shared between sibling
servers, weekly tournaments, player profiles, login tokens, OpenID sign-in,
multiplayer rooms and a websocket API.

- `src/` is the library, verified with Verus. Each public function states
  what it returns or changes, except where the result rests on the clock,
  on chance or on other threads: which tournament week it is, the random
  tokens and room codes drawn, and what the aliveness trackers report are
  stated only as far as holds of every outcome. The `law_*` proof functions state what holds
  across calls (a board never holds a player twice, a granted token
  verifies until it is withdrawn, a frame decodes to what was encoded, a
  redirect's state is honoured once, and so on). Calls into other crates
  (`rand`, `rustrict`, `constant_time_eq`, `regex`, `bimap`) sit behind
  small trusted wrappers whose doc comments say what is assumed of them.
- `tests/` exercises the library on concrete values.
- `app/` is the program: configuration, DynamoDB, Google's OpenID provider,
  sibling connections, the web server and the websocket loop. It performs
  the I/O and hands the library plain values; the library decides.
