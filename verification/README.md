# simbelmyne

A bitboard chess board and the data structures of a chess engine built on
it, written in Verus: the functions in `src/` carry contracts that Verus
proves. The three functions of the search's stop flag (`src/time_control.rs`)
carry none: the flag is an atomic shared with other threads, and nothing
holds of what a load returns.

The engine itself is not here. Its search (negamax, quiescence search),
evaluation terms, staged move picker, `Position` and the UCI and
terminal-UI front ends rest on the engine's own workspace crates `chess`,
`uci` and `macros` (board updates, generic move generation, static exchange
evaluation, attack tables), which are not available as dependencies; only the
parts that stand without them are kept.

- `src/board.rs`, `src/bitboard.rs`: squares, sides, pieces, bitboards, and
  the board read from a FEN string.
- `src/movegen/`: moves, castling rights and the move generator.
- `src/parse.rs`, `src/fen.rs`, `src/text.rs`: readers for squares, FEN
  placements, fields and numbers.
- `src/evaluate/`: tapered and packed scores, pawn-structure masks, and the
  board drawing of the evaluation printout.
- `src/transpositions.rs`, `src/search_tables.rs`, `src/history_tables/`,
  `src/search/`: the tables the search keeps.
- `src/render.rs`, `src/terminal.rs`, `src/game.rs`: text and coloured
  terminal output, and the state of a game at the terminal.
- `app/main.rs`: the interactive terminal game.
- `tests/`: tests of the library.
