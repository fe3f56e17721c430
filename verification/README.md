# Tollgate

Tollgate is a local gate in front of a Git branch. A commit is validated in exactly the form
in which it would land, and only a commit with a valid pass certificate is promoted to the
branch `release`.

Its rules are a library with contracts, which Verus proves: what is accepted and what is
refused, in which order things run, what every operation of the store records, what is said
over the socket. The program around it does the reading and writing.

## Layout

| Place | What it holds |
| --- | --- |
| `src/` | the library |
| `tests/` | tests of the library on concrete values |
| `app/` | the program `tg`: the command line, the supervisor of steps, and the I/O of the app |

In `src/`:

| Modules | Subject |
| --- | --- |
| `ids`, `oid`, `model`, `event`, `command`, `error` | identifiers and records |
| `state`, `queue` | the life cycles of items and builds, and the dependent queue |
| `config*` | configuration files, their rules, and the canonical notation behind digests |
| `scheduler`, `buildset`, `buildset_law`, `buildset_order`, `step_run`, `runner` | admission, the order of steps, and how runs are judged |
| `worker*`, `process_tree`, `environment`, `diagnostics`, `artifacts` | one step under supervision, and what it leaves behind |
| `log_frame`, `log_writer`, `durable_log`, `log_law` | the log of a step on disk |
| `clone_tree`, `clone_check`, `content_digest`, `storage` | cloned trees, the digests of files, and what the cache holds |
| `git_*`, `raw_commit` | what Git says, and what is decided on it |
| `store`, `stored_json`, `noted_item`, `*_table`, `repository_*`, `generation_batch` | the store: its tables, and operations that record all or nothing |
| `frame`, `ipc*`, `session`, `service`, `user_socket`, `wire`, `command_law` | the protocol between the app and its clients |
| `cli`, `cli_text`, `notify` | the command line and notifications |
| `document`, `json`, `text*`, `scan`, `paths`, `endian`, `seqs` | common ground |
| `outside` | calls into other crates, with the contracts that are believed of them |

Public proof functions whose names begin with `law_` state what holds across functions, such
as that terminal items never reopen, that a promotion is always certified, or that a frame
survives the wire.
