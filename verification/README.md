# scoutty

`scoutty` probes a terminal by sending escape sequences and reading back what
it answers, so that it reports what the terminal actually supports in the
current session.

## Layout

- `src/` — the library, verified with Verus:
  - `parser.rs`: the reply parser (an APC pre-filter in front of the `vte`
    state machine, and the classification of its control functions into
    replies);
  - `vt.rs`: the bridge to `vte`, whose callbacks are recorded as plain values;
  - `probe.rs`, `probes/`: the probes, their queries and how each reads the
    replies;
  - `session.rs`: the query to send, the reading phases, the selection of
    probes and the recorded results;
  - `output.rs`, `pager.rs`: the human report, the JSON grouping, the probe
    listing, color and paging decisions;
  - `text.rs`, `hex.rs`: text and hexadecimal helpers.
- `app/` — the program: command line, terminal I/O, the pager process, JSON
  serialization and the dark/light theme reading (floating point).
- `tests/` — tests of the library.
