# drive_workspace

The account and activity rules of a Telegram-backed drive workspace, verified
with Verus.

- `src/` is the verified library:
  - `lifecycle`: sign-out state and the epoch every sign-out advances;
  - `guard`: captured accounts (owner and epoch), their re-checks, and
    `OperationRun`, which runs an operation between two checks;
  - `registry`: the open session stores by workspace root, and sign-ins bound
    to the exact store that sent them;
  - `owner`: reading the workspace owner, a state machine driven by the caller's
    file and store reads, and the identity rows of a session file;
  - `activity`, `views`, `flags`, `keys`: file metadata, opening records and
    flags, the favorites / pinned / recents views, folder flags and file keys;
  - `scan`: folder scan names, and `IndexRun`, which indexes folders;
  - `decimal`, `text`, `errors`: integer text, string comparisons, refusals.
- `app/` holds the process-wide state, the session files and SQLite reads,
  the loops that drive the library's state machines, and the wire forms of
  the library's types.
- `tests/` exercises the library, including the account scenarios of the
  workspace against an in-memory model of session files and stores.
