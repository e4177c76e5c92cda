# sendit

Light and fast per-project Debian VMs on macOS.

A base image is provisioned once and cloned for every project. A VM sees the
project's directory and whatever else is mounted into it; the project's git
history is hidden from it unless it is exposed. Nothing is written into project
directories.

## Layout

- `src/` is the library, written in Verus: the rules behind the command, each
  with a contract that is proved. It does no I/O. Where a decision depends on
  the host, the function either takes what the host said (`host::Lookup`), asks
  for it (`config::Answer::Look`), or is a step of a state machine that says
  what to do next (`image`, `provision`, `project_vm`, `vm::stop`).
- `src/foreign.rs` and the head of `src/text.rs` declare the functions of other
  crates and of the standard library that the library calls, with what it takes
  for granted about them.
- Laws, i.e. what holds across functions, are the public proof functions named
  `law_*`.
- `tests/` runs the library.
- `app/` is the program around it: arguments, files, processes, the terminal
  and Virtualization.framework.

## Modules

| Module | What it is about |
| --- | --- |
| `text`, `number`, `order` | text as characters, numbers in text, byte order |
| `path`, `path_laws` | Unix paths, byte for byte |
| `paths`, `host` | where state is kept, projects, image names, what the host found |
| `size`, `mount_spec` | `4G` and `HOST[:GUEST][:ro\|rw]` |
| `settings`, `table`, `config`, `config_error`, `config_laws` | the layers of settings and what they resolve to |
| `provision_table` | the `[provision]` table |
| `image`, `disk` | the Debian image, its checksums, sparse and growing disks |
| `provision`, `seed`, `assets` | base images and what they are provisioned with |
| `project_vm`, `mounts` | creating and running a project's VM, and what it shares |
| `vm` | a VM's hardware, console, address and shutdown |
| `commands`, `listing`, `status`, `session`, `cli`, `sign`, `util` | the commands |
