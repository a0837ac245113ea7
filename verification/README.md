# solver

Verified helpers for a postflop poker solver and its tools.

- `src/` — the library, verified with Verus:
  - `cards`: card codes (`4 * rank + suit`) and their texts, hand lookup, dealable cards
  - `flop_similarity`: flop features and the similarity score used to pick the closest solved flop
  - `suit_mapper`: canonical suits of a flop (spades first) and the renaming of all four suits both ways
  - `scenario`: range files (out of position first), pot and stack of a preflop scenario name
  - `ranges`: reading range files into the solver's range syntax
  - `solutions`: naming solution files and reading scenario and board back
  - `tree`, `walk`: the decisions of the walks that store solved strategies
  - `navigation`: the commands of the interactive explorers
  - `text`: character-level helpers (search, split, trim, replace, join)
- `tests/` — tests of the library.
- `app/` — the command-line tools: solving, storing strategies in SQLite, exploring trees.
