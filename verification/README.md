# vfs_shim

A shim that gives a process a virtual file system: it intercepts the NT file calls, asks a
director process for what lies under the managed roots, keeps a write overlay, and hands
everything else to the system.

- `src/` is the core: every decision, table, wire format and text of the shim, verified with
  Verus. It touches no file, no memory of a caller and no clock; those come in as plain values.
- `app/` is what surrounds it: the entry points, the detours, the disk, threads and child
  processes. It performs what the core decides.
- `tests/` run the core on concrete values.

Calls that alternate decisions with outside work are state machines in `src/`: a function begins
the call and says what to do first, and each outcome is handed back for the next step
(`hook::create`, `hook::enumerate`, `hook::make_section`, `hook::image_copy`,
`hook::object_name`, `hook::install`,
`lazy_fill`, `inject`, `bootstrap`).

Public proof functions whose names begin with `law_` state what holds of the library as a whole:
among others that nothing under a managed root reaches the system behind the director's back,
that a range of memory is released exactly when its section is closed and its last view is gone,
and that configurations, names and counted texts read back as they were written.
