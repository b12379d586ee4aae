# dockeye

A desktop GUI for the Docker engine, with its logic verified by Verus.

- `src/` is the verified library: the parsing of memory sizes, the state
  that the GUI keeps between frames (timers, notices, popups, forms, the
  order of lists, the pages of the logs view), the decisions of the
  background worker for each request, the bookkeeping of its long-running
  tasks (what they gather between polls, when a job gives its result), the
  I/O totals of container statistics, and the reading of the engine's
  progress messages. Every function there carries a contract that Verus
  proves; the few calls into std and into `ropey` and `strip-ansi-escapes`
  that vstd does not specify go through small trusted wrappers whose
  contracts are documented next to them.
- `app/` is the program around it: the egui window, the worker thread that
  talks to the engine through `docker-api`, the settings file, and the
  floating-point formatting of sizes and rates.
- `tests/` runs the library on concrete values.
