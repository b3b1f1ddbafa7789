# scheduler_rs

A scheduler that runs `docker compose` commands on cron schedules declared in
container labels (`custom.scheduler.enable`, `.action`, `.command`, `.cron`).

- `src/` is the verified library:
  - `text.rs`: decimal parsing, word counting, text comparison;
  - `config.rs`: the settings and how they become a `Config`;
  - `docker_api.rs`: reading the scheduling labels of containers;
  - `commands.rs`: building a `docker compose` command line and judging how
    a run ended;
  - `job_map.rs`: the jobs tracked by id;
  - `scheduler.rs`: one reconciliation cycle as a state machine, and the laws
    that it keeps;
  - `errors.rs`: the error type.
- `app/` is the program around it: environment, Docker API, processes, the
  cron job scheduler and logging.
- `tests/` exercises the library.
