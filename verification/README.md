# sui_checkpoint_indexer

A Sui checkpoint indexer whose decisions are verified with Verus. It samples
one checkpoint in 3455 and stores, for each sampled checkpoint, its summary,
one row per transaction (kind, status, input and command counts, gas) and one
row per object change; a second pipeline stores the balance changes of the
sampled checkpoints.

- `src/` — the verified library: sampling (`sampling`), the model of a
  checkpoint as the indexer reads it (`chain`), the table rows and their text
  codes (`models`), building the rows of a checkpoint (`checkpoint`), cutting
  rows into insert statements and planning a commit (`chunks`, `commit`), and
  the balance pipeline (`balance`).
- `app/` — the program: reads checkpoints through the Sui indexer framework,
  converts them to the library's model, and runs the planned statements with
  diesel.
- `tests/` — tests of the library on concrete checkpoints.
