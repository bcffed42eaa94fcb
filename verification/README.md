# henk

Local-dev URL routing for Docker on macOS: `https://myapp.test` for any container
or local dev server, with trusted certificates.

The library under `src/` holds what henk decides and computes, verified with
Verus. The program under `app/` runs the commands, reads and writes the files and
talks to the terminal.

| Module | What it holds |
|---|---|
| `detect` | The environment probes, the choice of TLD, the reachability of linked hosts. |
| `project` | Reading a project, linking and unlinking it, its override and routing files. |
| `stack` | The global stack: templates, certificates, resolver, dnsmasq, lifecycle. |
| `manifest` | `state.json`, the record of what henk has done. |
| `cli`, `tui` | What the commands decide and say; the dashboard's panels. |
| `text`, `table`, `yaml`, `search`, `paint`, `clock`, `runner` | What the others build on. |

A command that needs the host is split in two: a function that says which command
to run, and one that judges the reply. Longer flows are chains of steps, each
chosen by a function of the library.
