# navidrome_tui

The verified core of a terminal client for Subsonic-compatible music servers
such as Navidrome, written in Verus.

- `src/` is the library, every function of it verified:
  - `text` — building strings, decimal and hexadecimal rendering, substring
    search and replacement;
  - `env` — a snapshot of environment variables;
  - `expand` — expansion of `${NAME}`, `$NAME` and `%NAME%` in configuration values;
  - `config` — lyrics visibility, the authentication cache, the server entries
    of the configuration file and the setup dialog's checks;
  - `client` — the Subsonic session, its token, every request URL, and the
    client's data model;
  - `subsonic` — the decoded shape of Subsonic responses;
  - `responses` — turning responses into the data model, album paging;
  - `transport` — latency probes, the retry policy, cover-art file names.
- `app/` holds the I/O around it: files, prompts, the process environment,
  HTTP requests, JSON/YAML decoding and database rows.
- `tests/` runs the library on concrete values.
