# Trinket

A UCI chess engine whose evaluation, move ordering, transposition table,
search decisions and command reading are verified with Verus. Board
representation and move generation come from `cozy_chess`, behind trusted
items whose contracts say what the library reads of a board.

Layout:

- `src/board.rs`: the trusted boundary to `cozy_chess` (board type, accessors,
  attack tables, move generation and playing moves).
- `src/chess.rs`: colors, pieces, moves and bitboards as plain values.
- `src/eval/`: tapered scores, the static evaluation and the draw oracle.
- `src/movegen/`: the board with its incremental hashes (and the proof that
  they stay those of the board), exchange evaluation, move ordering and move
  generation.
- `src/search/`: the search window, the tunable options, the transposition
  table, the alpha-beta and quiescence searches with the decisions taken at a
  node, iterative deepening and time control.
- `src/uci/`: reading UCI commands and converting castling notation; the
  board wrapper plays the moves of `position ... moves` from their text.
- `app/main.rs`: the program: standard input, the engine thread, timers, the
  iterative deepening loop with its reports, and the floating-point
  correction histories and stop flag that the verified search asks for
  through `SearchContext`. The table is shared behind a `Mutex`.
