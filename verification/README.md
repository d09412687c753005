# st_zfs_send_recv

Incremental ZFS snapshot replication from a remote pool (over SSH) to a
local pool, with its logic specified and proved in Verus.

Layout:

- `src/` — the verified library.
  - `text` — splitting, lines, trimming, decimal numbers, with exact specs.
  - `error` — the error type and its text.
  - `config`, `simple_config`, `named_config`, `naming` — pool
    configurations, their validation, and the names derived from them.
  - `listing` — typed `zfs list -Hp` records (strict and lenient reading).
  - `zfs` — the `zfs` command lines and what their output means.
  - `db`, `discovery` — the SQLite state of a run (through `rusqlite`) and
    how listings are recorded into it.
  - `tables` — the rows the database holds after the statements applied to
    it, what each query answers on them, and the laws that tie writes to
    later reads.
  - `pipeline` — the commands of a transfer with the configured
    compression, and the retention commands after it.
  - `backup`, `pattern` — which filesystems to process, where each goes,
    and what to send (skip patterns through `regex`).
  - `catalog` — a guid-keyed state database and the review of a pool.
  - `remote` — the privilege check on the source host and on this machine.
- `app/` — the program: configuration files, SSH sessions (`openssh`),
  `zfs` processes, logging.
- `tests/` — tests of the library.

The database is described by the statements applied to it; the rows those
statements leave, and what the library's fixed queries answer on them, are
specified in `tables`. What `regex` decides and a few `std` text functions
are named rather than specified, in the trusted items of `pattern` and
`text`.

The database model assumes that the connection through which the library
writes is the only writer of the database file; the program opens one
connection per pool run and does all its reads and writes through it.
