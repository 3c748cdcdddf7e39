# Cordyceps

The core of the Cordyceps agent, verified with Verus, and the program around it.

`src/` is the library. It decides and computes; it does no input or output.

- `text` — trimming, splitting, joining and numbers, over sequences of characters.
- `csv`, `csv_laws` — the RFC 4180 parser, and what holds of it: among other things
  that it reads back what is written, however the fields are quoted.
- `prompt`, `prompt_laws` — the system prompts.
- `strategy` — the strategy names and the loops that they stand for.
- `startup` — arguments, environment, settings and the banner.
- `repl` — the lines that are typed at the prompt.
- `build_check` — the build that follows each source write, and how its outcome
  is folded into the results of the tools.
- `trace` — the live trace of a run, and the mirror of its messages.
- `turn` — retries, aborted turns, and what becomes of the conversation.
- `scoring` — the two test sets, the scoreboard and the ledger.
- `style` — terminal styles.

`app/` is the program: it reads the environment, runs the spore-core harness, watches
the keyboard and prints. `tests/` runs the library.
