# convergio-cli

The logic of `cvg`, the command-line client of the Convergio daemon, as a
library whose behaviour is stated in `requires` / `ensures` contracts and
proved with Verus: the request paths each verb sends, the parsing of flags,
process listings and files, the filters and orders of the listings, the
state machines of the service commands, and every line the commands print.

## Layout

- `src/` — the verified library (`convergio_cli`). Each module owns one
  area:
  - `text`, `numeric`, `order`, `cells` — characters, decimal and hex
    text, lexicographic order and stable sorts, table cells (truncation,
    padding, relative ages, status colours);
  - `cli`, `query` — output modes, subcommand values, request paths and
    URL encoding;
  - `agents`, `show`, `spawn` — `cvg agent list | show | retire |
    retire-stale | heartbeat | spawn`;
  - `bus`, `monitor`, `snapshot`, `discover` — the message bus, the audit
    stream, `cvg discover` and the `--since` window;
  - `fleet`, `routes`, `ontology`, `gates`, `purpose`, `templates`,
    `gateway`, `capability`, `register`, `pages`, `merge_driver`,
    `service`, `port`, `zombies` — the remaining verbs.
- `tests/` — tests of the library on concrete values.
- `app/` — the shells around the library: HTTP, files, processes, clocks
  and terminal output. It converts the daemon's JSON documents into the
  library's types and prints what the library renders.

Outside crates are reached from `src/` only through small trusted
wrappers (chrono's RFC 3339 parsing); everything else the library does is
proved.
