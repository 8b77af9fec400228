# git_ingest

A verified library behind a Zed slash command, `/gitingest`, that turns a
GitHub repository into a prompt-friendly text: a summary of its files, a
drawing of its directory tree, and the contents of the files worth reading.

The library (`src/`) is written and proved with Verus:

- `query`: parsing a repository URL, the contents API URL, and the include,
  exclude and ignore patterns that decide which paths are taken in.
- `session`: a whole run as a state machine: the root listing, the ignore
  patterns (defaults and `.gitignore`), the walk, and the file downloads;
  every fetch is a request the caller answers.
- `walk`: a state machine that walks the repository's listings and builds the
  tree, recording the paths the exclude and ignore patterns leave out.
- `laws`: what every walk keeps (totals agree with the tree, at most
  `MAX_FILES` files and `MAX_TOTAL_SIZE` bytes, only admitted paths, large
  files' contents left out).
- `run_laws`: what holds of a whole run (every path left out is listed, the
  size limits end the run, only small files of the tree are downloaded, and
  the slash command's answer is that of the run's outcome).
- `files`: which file contents are fetched, and gathering what was fetched.
- `summary`: the tree drawing and the summary text.
- `command`: the slash command's arguments and its answer.
- `text`, `errors`, `model`, `body`, `glob_match`: string operations,
  error messages, the data model, UTF-8 decoding, and glob matching through
  the `glob` crate.

`app/` is the extension itself: it talks to the GitHub API through Zed's HTTP
client (with the headers the library computes), reads listings from JSON
with serde, and answers the run's requests.
