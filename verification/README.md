# the-diff

A terminal tool for staging, unstaging and discarding git changes hunk by
hunk, built around a verified core.

- `src/` is the library, verified with Verus:
  - `text` — the character-level model of strings (lines, words, prefixes,
    trimming, decimal rendering) and its executable helpers;
  - `git` — changed files, hunks and lines with their models, patch
    construction and the git commands for each operation;
  - `parse` — reading `git diff` output, one line at a time;
  - `load` — what becomes of the untracked-file listing and its diffs;
  - `app` — the panel state machine, the confirmation of irreversible
    actions, and key handling;
  - `ui` — what the screen shows, computed from the state;
  - `laws` — properties of the library as a whole, with their proofs.
- `app/` is the program: it runs git, draws with ratatui, reads keys with
  crossterm and hands each key to the library.
- `tests/` exercises the library on concrete values.
