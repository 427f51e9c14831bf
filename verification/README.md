# heist_cli

The library behind the `heist` command: the state of a heist and its
pipeline, the score and validation file formats, the worktree and branch
rules, and the decisions each command makes, verified with Verus.

- `src/` is the verified library. `domain/` holds the value types, the
  state, the score and validation parsers and the text that git and `gh`
  print; `app/` holds the commands, written against the traits in `ports/`;
  `cli/` maps outcomes to exit codes; `adapters/testing` holds the
  in-memory ports the tests use; `pathname` and `text` hold the path and
  string operations.
- `app/` is the program: argument handling, printing, and the ports over
  the file system, git and `gh`.
- `tests/` exercises the library through its public items.
