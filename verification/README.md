# xiaomi-touch core, verified

A library for the `/dev/xiaomi-touch` ioctl interface of Xiaomi touch
panels, written in Verus, and the programs around it.

`src/` (verified):

- `ioctl` — `_IOC` request-code composition, the request constants, the
  driver commands; laws: field decoding, injectivity, the constants.
- `wire` — little-endian words, the V1/V2 1024-byte buffers and the V3
  520-byte common-data structure; laws: every written word reads back.
- `request` — the request of each command for each buffer layout, and
  where results are read; laws: panel, mode and values read back.
- `text` — character-level parsing (`trim`, splitting, decimal integers as
  `str::parse` reads them, decimal rendering); the one trusted item,
  `str::to_lowercase`, is here.
- `modes` — the mode-name table and mode-argument parsing (names, or
  numbers 0 to 21); laws: every canonical name and every number of the
  table parses back, numbers beyond it are refused.
- `config` — the gamemode configuration parser (the grip array holds
  exactly 96 values); laws: lines are read in order, blank and comment
  lines anywhere and white space around lines change nothing, the grip
  line never becomes a pair, written pairs and grip lines read back.
- `gamemode` — the calls that apply a configuration; laws: reset-only when
  game mode is off, grip array before values, values in file order, and a
  failing call never skips the later ones.
- `cli`, `daemon`, `tool` — the decisions of the controllers, the daemons
  and the standalone tool (argument parsing, value resolution, polling);
  laws over runs of polls: the settings daemon applies a reading exactly
  when it differs from the last known one, the configuration watcher reads
  on a new modification time and applies a text at most once in a row.
- `protocol` — the trait that each protocol generation implements.

`app/` (not verified): device access through the C library, the protocol
implementations, and the `main` of each program.
