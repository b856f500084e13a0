# qfs

The pure core of a path-addressed query tool, written and verified in Verus.

Every service is a tree of paths (`/mail/INBOX`, `/drive/my/Reports`, `/sql/orders/orders`), and
every operation a small statement over them. This crate holds what such a tool decides and
computes; the program around it performs it.

- `src/` is the verified library.
  - `text` and `types`: characters, values, schemas and predicates, each with its model.
  - `parser`: the statement grammar, with exact offsets of errors, and its inverse.
  - `secrets`: names of credentials, the envelope that seals them, and the store over it.
  - `command`: the commands on connections and accounts, as scripts from what happened to what to
    do next.
  - `gmail`, `gdrive`, `slack`, `sys`, `git`, `sql_backends`: the decisions of the drivers.
  - `cloud_mounts`, `connections_config`, `shell`, `dashboard`, `output`, `http`, `json`: mounts,
    configuration, the shell, the dashboard's bridge, and what is shown.
- `tests/` runs the library from outside, with the crates it leans on.
- `app/` is ordinary Rust: databases, processes, files, the terminal and the network.

What is promised of the library as a whole stands in it as public proof functions whose names begin
with `law_`.
