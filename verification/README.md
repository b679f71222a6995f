# marty

A filesystem companion that remembers which directories you work in: hotspots ranked
by energy, a trace of recent activity, project detection for `scout`, and an
interactive shell with back/forward/up motions.

- `src/` is the verified library (Verus): the shell's motions (`marty`), hotspots,
  beliefs and the trace (`memory`), the caps applied on every save (`persistence`),
  project detection (`scout`), the text shown to the user (`outputs`, `text`), the
  dashboard's navigation (`tui`), settings, and the command-line types.
- `app/` is the `marty` program around it: argument parsing, files, subprocesses, the
  terminal UI, the HTTP server, logging, and everything computed on floating point
  (energy increments and decay).
- `tests/` runs the library on concrete values.
