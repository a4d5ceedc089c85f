# cocox

A Conventional Commits linter whose logic is verified with Verus.

- `src/` is the library. `grammar` holds the commit message grammar (the
  strict header pattern and the lenient pattern whose groups the detailed
  checks inspect), `validators` the checks and their error texts, `utils`
  empty, ignored and commented messages, `linter` the verdict, `command` what
  the tool prints and whether it fails, `git_helpers` the reading of git's
  output, and `laws` the properties proved over the specifications.
- `app/` is the command line tool: argument parsing, reading files, running
  git, printing, and the process-wide configuration store.
- `tests/` holds the tests; `tests/grammar.rs` compares the grammar with the
  regex engine running the same patterns on many generated messages.
