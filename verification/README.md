# vps_monitor

A read-only VPS monitoring server whose decision logic is a verified Verus
library.

- `src/` is the library, verified by Verus: the bind-address policy, request
  checks (X-Requested-With, client address, session validity and sliding
  expiry), the login decision (with Argon2id hashing of new passwords and the
  check of a password against its stored hash) and failed-login lockout, audit records, the
  allow-lists for unit names, container ids and PM2 names, parsing of
  `systemctl list-units` output, container and port records, process ranking
  by memory, disk and traffic aggregation, the session cookie's attributes,
  the log-tailing cursor, and the decisions of the log relays (what to send,
  when to stop) for log files, containers and the journal.
- `app/` is the program around it: the axum server, SQLite access, Docker,
  PM2, systemd and sysinfo access, and the CLI.
- `tests/` exercises the library on concrete values.
