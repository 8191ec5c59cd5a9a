# rsmgclient

A client for the Memgraph graph database, written in Verus: the client's decisions and
conversions are proved against their contracts, and the session with the server is left to
a thin unverified layer.

## Layout

- `src/` — the verified library.
  - `connection.rs`: connection parameters and the connection state machine (which
    operations each status accepts, what they return, which errors they report, and the
    transaction bookkeeping of `execute`, `fetch*`, `commit`, `rollback` and `close`).
  - `cursor.rs`: the cursor state machine over the records of a query, with its row
    numbering and batches.
  - `value.rs`: dates, times, civil datetimes, durations and zoned datetimes, their
    conversion to and from the numbers of the wire format, and their text forms; calendar
    arithmetic is delegated to `jiff` through small trusted wrappers.
  - `calendar.rs`, `text.rs`: the Gregorian calendar and decimal text, as mathematics.
  - `format.rs`: text forms of lists, maps (entries in key byte order), nodes and
    relationships.
  - `error.rs`: the error type and its messages.
- `tests/`: the tests, run against the compiled library.
- `app/`: the unverified layer: the session trait standing in for the C client library,
  the values that carry floating-point numbers, the drivers that perform what the
  connection and cursor states ask for, the error type with its `Display`, and the example.
