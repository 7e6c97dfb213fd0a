# kino

A probe service for ephemeral VM checks, and an in-VM recorder of terminal
sessions in the asciicast v2 format. The logic is a library verified with
Verus; a thin program around it does the I/O.

## Layout

- `src/` — the verified library.
  - `config.rs`: the raw HCL configuration (probe blocks keyed by id), its
    validation into the service
    configuration (`config_from_raw`), the `server.bind` URI, desired pod
    states.
  - `probe.rs`: probe definitions and what each probe reports from what it
    observed (a file lookup, file contents and regular-expression captures,
    a TCP or UDP attempt, a list of pods).
  - `state.rs`: the store of the latest state of every probe, its updates
    and its snapshots in the wire format of `GET /probes`.
  - `scheduler.rs`: the update that one scheduled attempt records.
  - `recording.rs`: the cast header, the event stream with its UTF-8
    chunking and flush schedule, file names and session decisions.
  - `pattern.rs`: regular expressions compiled and run by `regex`.
  - `text.rs`, `order.rs`, `net.rs`, `kino_v1.rs`: text helpers, the order
    of ids, socket addresses, and the snapshot messages.
- `app/` — the program: command line, reading the HCL file, the HTTP server,
  the probe loops, the Kubernetes client, the PTY and the cast files.
- `tests/` — tests of the library.

## Probe kinds

Four probe kinds are configured, run and judged: `file_exists`,
`file_regex_capture`, `port_open` and `k8s_pod_state`. The `command_json_path`
kind has its wire code (5) and its value message in the snapshot format, so
that snapshots keep their shape, but no configuration block, runner or
judgement: it is not implemented here.
