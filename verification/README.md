# jesus-twin

The verified core of a retrieval-grounded study aid that answers in the voice of the recorded
teachings of Jesus of Nazareth, cites the verses it draws on, and refuses questions the corpus
does not cover.

- `src/` is the library, written and proved with Verus: the coverage gate, prompt and context
  assembly, query stop-word stripping, the turn state machine (admit, recall, retrieve, gate,
  supplement, generate, record), the mind-map projection, skill authorization and the skill
  registry, the built-in skills' inputs and answers, machine-tag parsing, corpus and sidecar
  line handling, gate-calibration bookkeeping, and the projections of the canonical event
  stream onto the OpenAI, AG-UI, A2A and MCP wire formats.
- `app/` is the program around it: the command line, the HTTP server and protocol plumbing,
  async traits and their runtime drivers, the SurrealDB store, admission over a tokio
  semaphore, and the floating-point parts (rank fusion, vector normalization).
- `tests/` exercises the library from outside.
