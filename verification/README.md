# minority_game

The rules of the minority game, verified with Verus. Every round each
player chooses to go out or to stay in, and may tell the others beforehand
what they will do. When no more players go out than stay in, those who went
out have fun; otherwise it is too crowded.

- `src/` — the verified library: choices and requests (`choice`), what a
  round reads of a player (`player`), counting over players (`tally`), the
  round itself (`round`), the one-second game loop as a state machine
  (`game_state`), the names of the database schema (`schema`), and the laws
  that relate them (`laws`).
- `app/` — the BonsaiDb server around it: storage, network requests, the
  clock, and the happiness arithmetic and ranking, which work on floats.
- `tests/` — tests of the library on concrete values.
