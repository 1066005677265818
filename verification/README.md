# ronly

The decisions of a read-only sandbox for Linux, verified with Verus.

A run leaves its namespaces, makes the root read-only, mounts a fresh `/tmp` and
the directories that are to stay writable, puts shims before the search path,
installs a system call filter and executes a command.

- `src/run.rs` is the machine that is told what came of each action and says what
  to do next; `src/history.rs` states what holds of a whole run.
- `src/mounts.rs` makes the plan of the mounts, on paths from `src/path.rs`.
- `src/seccomp.rs` makes the filter; `src/compiler.rs` is the boundary with the
  `seccompiler` crate, `src/bpf.rs` says what the kernel does with a program, and
  `src/native.rs` is the boundary with the `libc` crate.
- `src/identity.rs` makes the identity map, `src/command.rs` the search path and
  the command line, from `src/text.rs`.
- `app/` carries the actions out. The program that uses it parses the arguments
  and brings the shims.
