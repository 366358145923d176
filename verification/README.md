# docker-control

A Docker CLI plugin that manages local PHP projects: their containers, their template, their
releases and their deployments.

- `src/` is the library, written and verified with Verus. It holds what the tool decides and
  computes: how a command line is read, which calls a command makes and in which order, how a
  project is compared with its template, how a release is rolled out, what is written to the files
  of a project, and what the user is told. Strings are modelled as sequences of characters, paths
  as strings, and what lies on disk by lists of the paths that exist.
- `tests/` runs the library.
- `app/` is the program around it: arguments, files, processes, prompts, Docker, git and the
  network.

A command that reads and acts in turn is split into a plan and what follows each step of it: the
library gives the steps, `app/` performs them and hands back what became of each.

What the library takes from other crates stands behind a few functions whose contracts are trusted:
SHA-256 (`utils`), JSON (`json`), Base64 and HMAC (`git::known_hosts`) and time stamps
(`utils::throttle_cache`).
