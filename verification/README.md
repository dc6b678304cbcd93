# rseq_main

Restartable sequences (rseq) for Linux user space: a payload shared object
holds critical sections and commit actions, a build step computes where each
commit action's post-commit instruction lies, and a runtime registers the
thread's rseq area and runs a task's critical section until it commits.

## Layout

- `src/` is the library, verified with Verus:
  - `post_commit`, `magic`, `elf`: the post-commit offset of every commit
    action, found as the single occurrence of the end-handler magic in the
    action's code; the object file is read with the `object` crate.
  - `offset_table`, `text_order`, `decimal`: the offset table as Rust source,
    sorted by name, and its binary search at run time.
  - `rseq_types`, `task`: the kernel ABI structures, the critical-section
    descriptor of a task, and the wrapper's protocol with its abort and end
    handlers.
  - `macros`, `start_signature`, `rewrite`, `name_consts`, `context`: the rules
    of the rseq attribute macros and of `rseq_context!`.
  - `cache`: the cache of the macro scan and the scan's decision per file.
  - `build_error`: the build errors and their messages.
- `app/` is the program around it: file and ELF loading, the rseq syscall,
  thread-local registration, `dlopen` of the payload, and the syntax-tree work
  of the macros.
- `tests/` runs the library on concrete inputs, object files included.
