# print_agent

A print agent for label printers: it polls a print server for open jobs,
claims each job, downloads its PDF, prints it on a local printer and reports
the result back.

- `src/` is the verified library (Verus):
  - `polling.rs` — the polling loop as a state machine (`Poller::step`), with
    its invariant and the laws it keeps (back-off, job order, reports,
    printer choice, clean-up of printed files);
  - `rounds.rs` — laws over whole runs of that machine: each job claimed
    once and in order, every round back at the stop check, a minute's pause
    after four failed polls in a row;
  - `api_client.rs` — the server's HTTP requests, their JSON bodies, and how
    replies are judged;
  - `printer.rs` — the print and printer-listing commands and how their
    output is read;
  - `config.rs` — the settings, their defaults, the configuration directory and
    the settings file's path;
  - `text.rs` — character-level helpers (trimming, lines, decimal notation).
- `app/` is the program around it: HTTP transport, files, processes, the
  settings file and the polling thread.
- `tests/` runs the library on concrete values.
