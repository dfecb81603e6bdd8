# blackmarlin

The building blocks of the Black Marlin chess engine, written in Verus with their
contracts proved.

- `src/bm/chess_types.rs`, `bitboard.rs`, `attacks.rs`: the plain board model (one
  bitboard per piece kind and color), bit lemmas, and the attack sets, which come from
  `cozy_chess` through trusted wrappers whose contracts state the attack geometry.
- `src/bm/bm_eval`: scores (`Evaluation`) with their mate arithmetic, the hand-written
  evaluation (material, piece-square tables, mobility, threats, pawn structure) with an
  exact integer specification.
- `src/bm/bm_search`: static exchange evaluation, the staged move picker (with the proof
  that it gives every legal move exactly once), the pruning and reduction decisions of
  the search, and the quiescence-search node as a step function (`q_node.rs`) whose
  driver performs the table probes, evaluations, picks and child searches.
- `src/bm/bm_util`: transposition tables (read-after-write proved), histories, killer and
  counter-move tables, Zobrist hashing, the position stack, threat detection and the
  type-level board access combinators.
- `src/bm/bm_runner`: time management, node counting, principal-variation bookkeeping,
  the GUI report fields, and iterative deepening with its aspiration window as a step
  function (`deepening.rs`) whose driver runs the searches and asks the time manager.
- `src/bm/cecp`, `src/bm/bm_console.rs`: the CECP command parser and front-end state
  machine (a `setboard` FEN goes to the `chess` crate's parser only once a byte-level
  check has found the king of the side to move), and the console's tool-command parser.
- `src/filter.rs`, `src/datagen.rs`: the dataset filter's line reader and filters (FEN,
  move and gives-check through `cozy_chess` wrappers), and the decisions of self-play
  data generation.
- `app/`: the dataset filter program (argument parsing, file I/O, random filtering) and
  the engine terms computed in floating point.
