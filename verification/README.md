# gitwasm (verified core)

gitwasm runs git hooks and merge drivers as sandboxed WebAssembly modules
committed into the repository. This crate holds the part of it that decides
things, verified with Verus:

- `src/commit_lint.rs` — the conventional-commit rules of the commit-msg hook;
- `src/secret_scan.rs` — the credential patterns of the pre-commit scanner and
  which lines of a staged file they find;
- `src/commands.rs` — what `install` writes into git's configuration, which
  staged paths a hook sees, how each module's sandbox is set up, and what a
  merge driver's run comes to;
- `src/runner.rs` — the sandbox, the permissions of its mount, and the exit
  code a module run comes to;
- `src/gitutil.rs` — what the host makes of git's output;
- `src/text.rs` — the string operations these need.

`app/` is the host around it: running git, the filesystem, wasmtime, and the
entry points of the two stock modules.
