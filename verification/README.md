# chess_engine

A chess engine library verified with Verus: piece-square evaluation, move
ordering, alpha-beta search with quiescence and a transposition table, and the
engine object a browser front end drives. The rules of chess (move
generation, legality, notation, FEN) come from the `shakmaty` crate.

- `src/pieces.rs`, `src/squares.rs`: piece kinds, colours, squares and their names.
- `src/moves.rs`: moves as plain values, their display squares and flags, and
  the choice of the move a user asks for.
- `src/eval.rs`: the static evaluation.
- `src/ordering.rs`: most-valuable-victim / least-valuable-aggressor ordering.
- `src/search.rs`: minimax, quiescence, mate scores, the transposition table.
- `src/report.rs`, `src/text.rs`: the JSON texts the engine answers with, and
  whitespace trimming.
- `src/engine.rs`: `ChessEngine`.
- `src/outside.rs`: the trusted calls into `shakmaty`.
- `app/`: a command-line demonstration and the JavaScript-facing class.
