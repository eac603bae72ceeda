# orkesy

A local service orchestrator: it reads a project's `orkesy.yml`, starts,
stops and restarts its services as processes or Docker containers, follows
their logs, and offers a terminal UI with a command palette, log search and
filters, and a dependency view.

The library in `src/` holds the logic, verified with Verus:

- configuration: parsing and validating both schemas (`config`, `yaml`,
  `unit`), start order and cycle detection (`graph`), migration between the
  schemas (`migrate`), project detection and `orkesy init` (`init`,
  `detectors`, `plugin`), `orkesy doctor` checks (`doctor`);
- runtime: the event reducer and its state (`reducer`, `state`), what the
  engines and adapters do for each request (`lifecycle`, `docker`, `fake`),
  restart policy with exponential backoff (`restart`), jobs and command runs
  (`job`, `command`, `runner`), health probes (`health`);
- terminal UI: key handling (`keys`, `tui_input`, `ui_state`), the palette
  (`palette`), what the panels show (`views`, `render`, `theme`), the log
  filter and search (`log_filter`), the log history layout (`log_history`);
- support: text, ordered string maps and stable sorting (`text`, `strmap`,
  `sort`), time (`clock`).

`app/` is the program around it: command-line parsing, files, processes,
threads and the terminal. `tests/` exercises the library.
