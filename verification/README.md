# proc-daemon

The lifecycle logic of a daemon framework, verified with Verus.

- `src/` is the verified library:
  - `subsystem`: subsystem states, restart policies with exponential backoff, and
    the registry that records registration, start, stop, exit and restart of
    every subsystem;
  - `shutdown`: the shutdown coordinator (first reason wins, readiness of the
    subsystems' handles, ordered timeouts);
  - `metrics`: counters, gauges and duration histograms keyed by name, each
    histogram keeping its newest samples up to a fixed cap;
  - `resources`: the bounded history of resource samples and the readers of
    `/proc/<pid>/status`, `/proc/<pid>/stat` and `ps` output;
  - `daemon`: the run sequence (start-up, the serving loop and the graceful →
    force → kill shutdown ladder) as steps from phase and event to next phase
    and action, daemon statistics and the selection of unhealthy subsystems;
  - `time`, `text`, `error`: spans, text helpers and errors.
- `app/` is the runtime around it, which performs each action the run
  sequence asks for and reports its outcome back: the `Subsystem` trait, spawning subsystem
  futures on Tokio, signal handling, logging, file and socket I/O.
- `tests/` exercises the library.
