# bone_app

The verified core of the BONE application. It decides what happens to sessions, inputs, results,
configuration and credentials; files, terminals and agents stay outside of it.

- `src/` is the library. Every function has a contract that Verus proves. Promises that span
  several functions are public proof functions whose names start with `law_`.
  - `document`, `persistence`: the durable data as ordered tables, and the operations on it: inputs
    under idempotency keys, commits of the agent core, history pages, results and their evidence,
    decisions on results, the ledger of workspace writes, attention items, recovery.
  - `session`: one open session: delivery of inputs, archiving of agent records, commands,
    configuration, closing and release.
  - `app`: the application: open sessions, queries, configuration, keys, login, shutdown.
  - `config`, `file_config`, `settings`, `profiles`: configuration and its files.
  - `credentials`, `providers`, `safe_file`, `uri`, `hashing`: saved keys and the rules for
    private files.
  - `durable`: workspaces, logical sessions and their journals.
  - `cli`, `startup`, `title`, `text`, `path`, `ids`, `json`, `seqs`: arguments, startup decisions
    and small helpers.
- `tests/` runs the library on concrete values.
- `app/` is the program: arguments, files, the terminal, and the loop around one session.

Calls into other crates stand behind small functions whose doc comments start with "Trusted".
