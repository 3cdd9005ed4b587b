# flying_fish

A chess engine whose core is written in Verus, with its behaviour stated in contracts
and proved.

- `src/` — the library: bitboards, positions and their FEN text, making and taking back
  moves (with the Zobrist hash kept up to date), move generation, evaluation, the
  transposition table, alpha-beta search, perft counting, standard algebraic notation,
  reading UCI commands, the lines that announce engine options, and the decisions of a
  UCI session.
- `tests/` — tests run against the compiled library.
- `app/` — the program: the UCI loop on standard input, background searches, timing
  and printing, and the `search` and `perft` subcommands.
