# pixie-cli

The front end of the pixie coding agent, written in [Verus](https://github.com/verus-lang/verus):
what it decides and prints is computed by executable Rust with proved contracts.

| Module | What it decides |
|--------|-----------------|
| `cli` | what the command line means |
| `app` | mode, prompt, credentials, tools, model, system prompt and session file of a run |
| `compat` | the `stream-json` lines of a run, and the laws that hold of them |
| `modes::run` | token totals, failures and exit codes |
| `modes::stream_json` | what a line of input asks for, and which lines a turn prints |
| `modes::interactive` | the interactive loop and its slash commands |
| `render` | colors, tool call summaries and streamed events |
| `tools::bash` | what a call of the `bash` tool launches, and how it is answered |
| `types`, `json`, `money`, `text`, `ids` | the values all of these work on |

`app/` is the program around the library: it parses the command line, reads and
writes, spawns processes and drives the agent core, the `pixie_pi` crate, which
is built and linked separately.

Prices are floats: they are summed in `app/` and carried as JSON numbers. JSON
goes through `serde_json`, with keys in the order in which they were set, and
random identifiers come from `uuid`. The functions that call them, and three of
the standard library's on strings, are the only ones whose contracts are taken
on trust.
