# autopilot

Verified core of a cross-platform job automation tool.

- `src/` is the library, verified with Verus:
  - `status`, `status_laws`: the status log kept per job id, and what every update keeps;
  - `job`: loaded jobs, gathering them from parsed files, registering them in a fresh status log, the interactive list's steps;
  - `api`, `api_laws`: health answers, job listings (loaded jobs merged with live statuses) and handler replies;
  - `lifecycle`: the running flag and the start/stop/reload/shutdown decisions;
  - `client`: the HTTP requests sent to a running service and the body read from its answer;
  - `duplicates`: job ids declared by more than one job file;
  - `search`: reporting the lines of job files that an id matches, through the `regex` crate;
  - `gui`: the desktop window's tab state.
- `app/` holds the I/O around it: the shared status log behind a lock, TCP client, HTTP handlers,
  directory walking, the terminal list and the egui window.
- `tests/` exercises the library on concrete values.
