# devenv_eval_cache

A cache for evaluations of Nix commands. If a command was run before and the
files and environment variables that it read have not been modified, its output
comes from the cache.

`src/` is the verified part, proved in Verus against its contracts: what a command
depends on, whether its cached output may be used and why not, and what is recorded
of a run.

- `input`, `row`, `path`, `time`, `text`, `digest`: what inputs are, how they are
  ordered and when they are the same.
- `normal`: lists of inputs in order and without repetitions.
- `state`: how an input is described, and held against what the system shows later.
- `table`, `miss`: why the inputs of a command differ from the recorded ones.
- `query`, `command`, `output`: looking a command up, and what is made of a run.
- `laws`: what holds of the cache as a whole.

How digests are computed is left to the caller. The one thing taken on trust is
`String::from_utf8_lossy`, in `text`.

`app/` reads files, variables and processes, and asks a database, by way of the
traits `Digests`, `LogFormat` and `Store`. It takes a command's log apart into lines,
leaves out paths that could not be described, and runs a command that the lookup did
not answer. `tests/` runs the library.
