# boot-dash

A terminal dashboard of systemd: services, boot times and the journal.

- `src/` is the library, proved with Verus:
  - `text.rs`: character-level text handling (`lines`, `split_whitespace`, `splitn`,
    `trim`, `find`, `join`, decimal numerals) with specifications over `Seq<char>`.
  - `systemd.rs`: reading the output of `systemctl`, `systemd-analyze` and
    `journalctl`, the arguments given to `journalctl`, and the status and priority rules.
  - `dashboard.rs`: the dashboard state, the key handling, the service filter, scrolling,
    colours and titles.
  - `laws.rs`: properties that span these functions.
- `app/` runs the commands, reads the terminal and draws with ratatui and crossterm.
- `tests/` runs the library on concrete outputs and key sequences.
